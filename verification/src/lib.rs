use vstd::prelude::*;

pub mod text;
pub mod pattern;
pub mod json_text;
pub mod vba_onlyoffice_analyze;
pub mod vba_onlyoffice_translate;
pub mod vba_translate;
pub mod vba_container;
pub mod vba_dir;
pub mod vba_extract;
pub mod vba_onlyoffice_workbook_review;
pub mod vba_project_writer;
pub mod workbook_external_links;
pub mod tool;
pub mod vba_project_metadata;
pub mod formula_ast;
pub mod powerquery_extract;
pub mod workbook_tables;
pub mod sorted_text;
pub mod workbook_graph;
pub mod workbook_connections;
pub mod workbook_defined_names;
pub mod model_path;

verus! {
} // verus!
