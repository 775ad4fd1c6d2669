//! The shape of a parsed spreadsheet formula, as the formula inventory
//! reports it.
use vstd::prelude::*;

verus! {

#[derive(Debug, Clone, Copy, PartialEq, Eq, Structural)]
pub enum FormulaAstParseState {
    Parsed,
    Unsupported,
    Missing,
}

#[derive(Debug, Clone, Copy, PartialEq, Eq, Structural)]
pub enum FormulaAstUnaryOperator {
    Plus,
    Minus,
}

#[derive(Debug, Clone, Copy, PartialEq, Eq, Structural)]
pub enum FormulaAstBinaryOperator {
    Add,
    Subtract,
    Multiply,
    Divide,
    Power,
    Concatenate,
    Equal,
    NotEqual,
    LessThan,
    LessThanOrEqual,
    GreaterThan,
    GreaterThanOrEqual,
}

/// A node of a formula's syntax tree.
#[derive(Debug, PartialEq, Eq)]
pub enum FormulaAstNode {
    NumberLiteral { value: String },
    StringLiteral { value: String },
    BooleanLiteral { value: bool },
    ErrorLiteral { value: String },
    BlankArgument,
    CellReference { reference: String, sheet_name: Option<String> },
    RangeReference { start_reference: String, end_reference: String, sheet_name: Option<String> },
    DefinedNameReference { name: String, sheet_name: Option<String> },
    UnaryOperation { operator: FormulaAstUnaryOperator, operand: Box<FormulaAstNode> },
    Percent { operand: Box<FormulaAstNode> },
    BinaryOperation { operator: FormulaAstBinaryOperator, left: Box<FormulaAstNode>, right: Box<FormulaAstNode> },
    FunctionCall { name: String, args: Vec<FormulaAstNode> },
    Unsupported { reason: String, text: String },
}

/// The outcome of parsing one formula.
#[derive(Debug, PartialEq, Eq)]
pub struct FormulaAstSummary {
    pub state: FormulaAstParseState,
    pub root: Option<FormulaAstNode>,
    pub diagnostics: Vec<String>,
    pub unsupported_reasons: Vec<String>,
    pub truncated: bool,
}

} // verus!
