//! The Power Query facts that other inventories read: extracted queries
//! with their lexical references, and workbook connection summaries.
use vstd::prelude::*;

verus! {

#[derive(Debug, Clone, Copy, PartialEq, Eq, Structural)]
pub enum PowerQueryLexicalReferenceKind {
    QueryName,
    WorkbookName,
}

/// A name that a query's source text refers to.
#[derive(Debug, Clone, PartialEq, Eq)]
pub struct PowerQueryLexicalReference {
    pub kind: PowerQueryLexicalReferenceKind,
    pub target_name: String,
    pub source_line: usize,
    pub source_excerpt: String,
}

/// One shared query of a workbook's Power Query section.
#[derive(Debug, Clone, PartialEq, Eq)]
pub struct ExtractedPowerQueryQuery {
    pub name: String,
    pub source_part: String,
    pub source: String,
    pub source_truncated: bool,
    pub lexical_references: Vec<PowerQueryLexicalReference>,
}

/// The queries found in a workbook and the warnings of finding them.
#[derive(Debug, Clone, PartialEq, Eq)]
pub struct PowerQueryExtraction {
    pub queries: Vec<ExtractedPowerQueryQuery>,
    pub warnings: Vec<String>,
}

#[derive(Debug, Clone, Copy, PartialEq, Eq, Structural)]
pub enum PowerQueryLoadTargetHint {
    WorkbookConnection,
    DataModel,
    Unknown,
}

/// One entry of `xl/connections.xml`.
#[derive(Debug, Clone, PartialEq, Eq)]
pub struct PowerQueryWorkbookConnectionSummary {
    pub id: Option<String>,
    pub name: Option<String>,
    pub connection_type: Option<String>,
    pub location: Option<String>,
    pub command_preview: Option<String>,
    pub command_type: Option<String>,
    pub query_name_hint: Option<String>,
    pub load_target_hint: PowerQueryLoadTargetHint,
}

/// The connections of a workbook and the warnings of reading them.
#[derive(Debug, Clone, PartialEq, Eq)]
pub struct WorkbookConnectionInventory {
    pub connection_count: usize,
    pub connections: Vec<PowerQueryWorkbookConnectionSummary>,
    pub warnings: Vec<String>,
}

} // verus!
