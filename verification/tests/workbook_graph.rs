use ontocode_excel::formula_ast::{
    FormulaAstBinaryOperator, FormulaAstNode, FormulaAstParseState, FormulaAstSummary,
};
use ontocode_excel::tool::{
    FormulaSqlPreviewState, FormulaSqlPreviewSummary, InspectSheetFormulasResult,
    InspectWorkbookResult, SheetFormulaSummary, SheetKind, SheetPreview, SheetSummary,
    SheetVisibility, WorkbookFormat, WorkbookMarkers,
};
use ontocode_excel::workbook_graph::{
    inspect_workbook_graph_with_display_path, WorkbookGraphEdgeKind, WorkbookGraphNodeKind,
};
use ontocode_excel::workbook_tables::WorkbookTableParse;

fn sheet(name: &str, id: u32, part: &str) -> SheetSummary {
    SheetSummary {
        name: Some(name.to_string()),
        sheet_id: Some(id),
        relationship_id: Some(format!("rId{id}")),
        part_path: Some(part.to_string()),
        visibility: SheetVisibility::Visible,
        kind: SheetKind::Worksheet,
    }
}

fn markers() -> WorkbookMarkers {
    WorkbookMarkers {
        has_vba_project: false,
        has_macro_enabled_package: false,
        has_power_query: false,
        has_connections: false,
        has_custom_xml: false,
        has_external_links: false,
        has_tables: false,
        has_comments: false,
        has_drawings: false,
        has_embedded_objects: false,
        has_charts: false,
        has_pivot_tables: false,
        has_formulas: true,
        has_xlsb_package: false,
    }
}

fn workbook() -> InspectWorkbookResult {
    InspectWorkbookResult {
        path: "book.xlsx".to_string(),
        format: WorkbookFormat::Xlsx,
        package_part_count: 4,
        package_parts_sample: Vec::new(),
        sheets: vec![
            sheet("Summary", 1, "xl/worksheets/sheet1.xml"),
            sheet("Data", 2, "xl/worksheets/sheet2.xml"),
        ],
        markers: markers(),
        marker_summaries: Vec::new(),
        warnings: Vec::new(),
    }
}

fn cell(reference: &str, sheet_name: Option<&str>) -> FormulaAstNode {
    FormulaAstNode::CellReference {
        reference: reference.to_string(),
        sheet_name: sheet_name.map(|s| s.to_string()),
    }
}

fn formulas(part_path: &str) -> InspectSheetFormulasResult {
    let root = FormulaAstNode::BinaryOperation {
        operator: FormulaAstBinaryOperator::Add,
        left: Box::new(cell("B2", Some("Data"))),
        right: Box::new(cell("C3", None)),
    };
    InspectSheetFormulasResult {
        path: "book.xlsx".to_string(),
        sheet: SheetPreview {
            name: "Summary".to_string(),
            sheet_id: Some(1),
            part_path: part_path.to_string(),
        },
        max_formulas_applied: 100,
        formulas: vec![SheetFormulaSummary {
            reference: "A1".to_string(),
            formula: "Data!B2+C3".to_string(),
            cached_value: Some("5".to_string()),
            parse: FormulaAstSummary {
                state: FormulaAstParseState::Parsed,
                root: Some(root),
                diagnostics: Vec::new(),
                unsupported_reasons: Vec::new(),
                truncated: false,
            },
            sql_preview: FormulaSqlPreviewSummary {
                state: FormulaSqlPreviewState::Blocked,
                sql_expression: None,
                references: Vec::new(),
                blocker_reasons: Vec::new(),
                cached_value_present: true,
            },
            warnings: Vec::new(),
            formula_type: None,
            shared_index: None,
            shared_range: None,
            style_index: None,
            number_format_id: None,
            number_format_code: None,
        }],
        calculation_mode: None,
        full_calc_on_load: None,
        force_full_calc: None,
        defined_names: Vec::new(),
        defined_names_sample: Vec::new(),
        has_external_links: false,
        truncated: false,
        warnings: Vec::new(),
    }
}

#[test]
fn graph_links_formula_cells_to_their_references() {
    let tables = WorkbookTableParse { tables: Vec::new(), had_unresolved_table_metadata: false };
    let result = inspect_workbook_graph_with_display_path(
        "book.xlsx",
        &workbook(),
        &formulas("xl/worksheets/sheet1.xml"),
        &Vec::new(),
        &tables,
        None,
    )
    .expect("graph");
    assert!(result.is_partial);
    assert_eq!(result.formula_inventory_sheet.name, "Summary");
    let ids: Vec<&str> = result.nodes.iter().map(|n| n.id.as_str()).collect();
    assert_eq!(
        ids,
        vec![
            "workbook",
            "worksheet:0",
            "worksheet:1",
            "formula:0:A1",
            "ref-cell:1:B2",
            "ref-cell:0:C3"
        ]
    );
    assert_eq!(result.nodes[0].kind, WorkbookGraphNodeKind::Workbook);
    assert_eq!(result.nodes[0].label, "book.xlsx");
    assert_eq!(result.nodes[2].label, "Data");
    assert_eq!(result.nodes[3].label, "Summary!A1");
    assert_eq!(result.nodes[3].cached_value, Some("5".to_string()));
    assert_eq!(result.nodes[4].label, "Data!B2");
    let edges: Vec<(WorkbookGraphEdgeKind, &str, &str)> = result
        .edges
        .iter()
        .map(|e| (e.kind, e.from.as_str(), e.to.as_str()))
        .collect();
    assert_eq!(
        edges,
        vec![
            (WorkbookGraphEdgeKind::WorkbookContainsWorksheet, "workbook", "worksheet:0"),
            (WorkbookGraphEdgeKind::WorkbookContainsWorksheet, "workbook", "worksheet:1"),
            (WorkbookGraphEdgeKind::WorksheetContainsFormula, "worksheet:0", "formula:0:A1"),
            (WorkbookGraphEdgeKind::FormulaReferencesWorksheet, "formula:0:A1", "worksheet:1"),
            (WorkbookGraphEdgeKind::FormulaReferencesCell, "formula:0:A1", "ref-cell:1:B2"),
            (WorkbookGraphEdgeKind::FormulaReferencesCell, "formula:0:A1", "ref-cell:0:C3"),
        ]
    );
    assert_eq!(
        result.warnings,
        vec!["workbook graph is partial: it emits workbook structure, selected-sheet formula membership, and AST-backed dependency edges only where proven".to_string()]
    );
}

#[test]
fn graph_refuses_a_sheet_missing_from_the_workbook() {
    let tables = WorkbookTableParse { tables: Vec::new(), had_unresolved_table_metadata: false };
    let err = inspect_workbook_graph_with_display_path(
        "book.xlsx",
        &workbook(),
        &formulas("xl/worksheets/sheet9.xml"),
        &Vec::new(),
        &tables,
        None,
    )
    .expect_err("unmatched sheet");
    assert_eq!(
        err,
        "excel.inspect_workbook_graph could not match the selected worksheet back to workbook structure"
    );
}

#[test]
fn graph_keeps_one_edge_per_kind_source_and_target() {
    let mut inventory = formulas("xl/worksheets/sheet1.xml");
    inventory.formulas[0].formula = "C3+C3".to_string();
    inventory.formulas[0].parse.root = Some(FormulaAstNode::BinaryOperation {
        operator: FormulaAstBinaryOperator::Add,
        left: Box::new(cell("C3", None)),
        right: Box::new(cell("C3", None)),
    });
    let tables = WorkbookTableParse { tables: Vec::new(), had_unresolved_table_metadata: false };
    let result = inspect_workbook_graph_with_display_path(
        "book.xlsx",
        &workbook(),
        &inventory,
        &Vec::new(),
        &tables,
        None,
    )
    .expect("graph");
    let cell_edges = result
        .edges
        .iter()
        .filter(|e| e.kind == WorkbookGraphEdgeKind::FormulaReferencesCell)
        .count();
    assert_eq!(cell_edges, 1);
    let cell_nodes = result.nodes.iter().filter(|n| n.id == "ref-cell:0:C3").count();
    assert_eq!(cell_nodes, 1);
}

#[test]
fn graph_node_ids_are_distinct_and_edges_join_nodes() {
    let tables = WorkbookTableParse { tables: Vec::new(), had_unresolved_table_metadata: false };
    let result = inspect_workbook_graph_with_display_path(
        "book.xlsx",
        &workbook(),
        &formulas("xl/worksheets/sheet1.xml"),
        &Vec::new(),
        &tables,
        None,
    )
    .expect("graph");
    for (i, a) in result.nodes.iter().enumerate() {
        for b in result.nodes.iter().skip(i + 1) {
            assert_ne!(a.id, b.id);
        }
    }
    for e in result.edges.iter() {
        assert!(result.nodes.iter().any(|n| n.id == e.from), "edge source {} is a node", e.from);
        assert!(result.nodes.iter().any(|n| n.id == e.to), "edge target {} is a node", e.to);
    }
}
