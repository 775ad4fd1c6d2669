//! The worksheet tables of a workbook, as the table inventory reports them.
use vstd::prelude::*;

verus! {

/// A table part tied to the worksheet that owns it.
#[derive(Debug, Clone, PartialEq, Eq)]
pub struct ParsedWorkbookTable {
    pub name: String,
    pub alt_name: Option<String>,
    pub sheet_name: String,
    pub worksheet_index: usize,
    pub worksheet_part_path: String,
    pub relationship_part_path: String,
    pub relationship_id: String,
    pub part_path: String,
    pub range_reference: String,
    pub start_reference: String,
    pub end_reference: String,
}

/// The tables found, and whether some table metadata could not be tied to a worksheet.
#[derive(Debug, Clone, PartialEq, Eq)]
pub struct WorkbookTableParse {
    pub tables: Vec<ParsedWorkbookTable>,
    pub had_unresolved_table_metadata: bool,
}

} // verus!
