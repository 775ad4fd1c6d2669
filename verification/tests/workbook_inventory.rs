use ontocode_excel::powerquery_extract::{
    PowerQueryLoadTargetHint, PowerQueryWorkbookConnectionSummary, WorkbookConnectionInventory,
};
use ontocode_excel::tool::{DefinedNameSummary, WorkbookFormat};
use ontocode_excel::workbook_connections::{
    inspect_workbook_connections_from_workbook, push_ambiguous_load_target_warnings,
    push_unsupported_connection_kind_warnings, InspectWorkbookConnectionsResult,
};
use ontocode_excel::workbook_defined_names::{
    inspect_workbook_defined_names_from_workbook, push_defined_name_warnings,
    WorkbookDefinedNameContext,
};
use ontocode_excel::workbook_external_links::push_warning;

fn s(text: &str) -> String {
    text.to_string()
}

fn connection(
    id: Option<&str>,
    name: Option<&str>,
    connection_type: Option<&str>,
    location: Option<&str>,
    command_preview: Option<&str>,
    command_type: Option<&str>,
    query_name_hint: Option<&str>,
    load_target_hint: PowerQueryLoadTargetHint,
) -> PowerQueryWorkbookConnectionSummary {
    PowerQueryWorkbookConnectionSummary {
        id: id.map(s),
        name: name.map(s),
        connection_type: connection_type.map(s),
        location: location.map(s),
        command_preview: command_preview.map(s),
        command_type: command_type.map(s),
        query_name_hint: query_name_hint.map(s),
        load_target_hint,
    }
}

fn three_connections() -> Vec<PowerQueryWorkbookConnectionSummary> {
    let long_preview = "X".repeat(512);
    vec![
        connection(
            Some("1"),
            Some("ModelConnection_ExternalData_1"),
            Some("5"),
            None,
            Some("Customers"),
            Some("3"),
            Some("Customers"),
            PowerQueryLoadTargetHint::DataModel,
        ),
        connection(
            Some("4"),
            Some("Query - Customers"),
            Some("100"),
            Some("Customers"),
            Some(long_preview.as_str()),
            None,
            Some("Customers"),
            PowerQueryLoadTargetHint::WorkbookConnection,
        ),
        connection(
            Some("9"),
            Some("Legacy ODBC"),
            Some("2"),
            None,
            Some("SELECT 1"),
            Some("2"),
            None,
            PowerQueryLoadTargetHint::WorkbookConnection,
        ),
    ]
}

#[test]
fn inspect_workbook_connections_reports_bounded_summaries_and_warnings() {
    let display = "/tmp/connections-inventory.xlsm";
    let inventory = WorkbookConnectionInventory {
        connection_count: 3,
        connections: three_connections(),
        warnings: vec![s(
            "command text for workbook connection `Query - Customers` truncated to 512 characters",
        )],
    };

    let result = inspect_workbook_connections_from_workbook(inventory, display);

    assert_eq!(
        result,
        InspectWorkbookConnectionsResult {
            mode: "read_only_inspection".to_string(),
            path: display.to_string(),
            connection_count: 3,
            connections: three_connections(),
            warnings: vec![
                "command text for workbook connection `Query - Customers` truncated to 512 characters"
                    .to_string(),
                "query-name hint `Customers` maps to both workbook_connection and data_model load targets"
                    .to_string(),
                "workbook connection `Legacy ODBC` uses unsupported connection kind `2`; only bounded offline metadata is reported"
                    .to_string(),
            ],
        }
    );
}

#[test]
fn inspect_workbook_connections_reports_connections_without_powerquery_absence_warning() {
    let sales = connection(
        Some("5"),
        Some("Query - SalesQuery"),
        Some("100"),
        Some("SalesQuery"),
        Some("SELECT * FROM [SalesQuery]"),
        None,
        Some("SalesQuery"),
        PowerQueryLoadTargetHint::WorkbookConnection,
    );
    let inventory = WorkbookConnectionInventory {
        connection_count: 1,
        connections: vec![sales.clone()],
        warnings: Vec::new(),
    };

    let result = inspect_workbook_connections_from_workbook(inventory, "connections.xlsx");

    assert_eq!(
        result,
        InspectWorkbookConnectionsResult {
            mode: "read_only_inspection".to_string(),
            path: "connections.xlsx".to_string(),
            connection_count: 1,
            connections: vec![sales],
            warnings: Vec::new(),
        }
    );
}

#[test]
fn ambiguous_load_target_warnings_come_sorted_and_once_per_name() {
    let connections = vec![
        connection(None, Some("b1"), Some("5"), None, None, None, Some("Beta"), PowerQueryLoadTargetHint::DataModel),
        connection(None, Some("a1"), Some("5"), None, None, None, Some("Alpha"), PowerQueryLoadTargetHint::DataModel),
        connection(None, Some("b2"), Some("100"), None, None, None, Some("Beta"), PowerQueryLoadTargetHint::WorkbookConnection),
        connection(None, Some("a2"), Some("100"), None, None, None, Some("Alpha"), PowerQueryLoadTargetHint::WorkbookConnection),
        connection(None, Some("a3"), Some("100"), None, None, None, Some("Alpha"), PowerQueryLoadTargetHint::WorkbookConnection),
        connection(None, Some("c1"), Some("100"), None, None, None, Some("Gamma"), PowerQueryLoadTargetHint::WorkbookConnection),
    ];
    let mut warnings = Vec::new();
    push_ambiguous_load_target_warnings(&connections, &mut warnings);
    assert_eq!(
        warnings,
        vec![
            s("query-name hint `Alpha` maps to both workbook_connection and data_model load targets"),
            s("query-name hint `Beta` maps to both workbook_connection and data_model load targets"),
        ]
    );
}

#[test]
fn unsupported_connection_kind_labels_by_name_then_id_then_position() {
    let connections = vec![
        connection(None, None, None, None, None, None, None, PowerQueryLoadTargetHint::Unknown),
        connection(Some("7"), None, Some("1"), None, None, None, None, PowerQueryLoadTargetHint::WorkbookConnection),
        connection(None, None, Some("100"), None, None, None, None, PowerQueryLoadTargetHint::WorkbookConnection),
        connection(None, None, Some("5"), None, None, None, None, PowerQueryLoadTargetHint::DataModel),
    ];
    let mut warnings = Vec::new();
    push_unsupported_connection_kind_warnings(&connections, &mut warnings);
    assert_eq!(
        warnings,
        vec![
            s("workbook connection `entry 1` uses unsupported connection kind `unknown`; only bounded offline metadata is reported"),
            s("workbook connection `7` uses unsupported connection kind `1`; only bounded offline metadata is reported"),
        ]
    );
}

#[test]
fn push_warning_skips_duplicates_and_stops_at_thirty_two() {
    let mut warnings = Vec::new();
    push_warning(&mut warnings, s("same"));
    push_warning(&mut warnings, s("same"));
    assert_eq!(warnings, vec![s("same")]);
    for i in 0..40 {
        push_warning(&mut warnings, format!("w{i}"));
    }
    assert_eq!(warnings.len(), 32);
    assert_eq!(warnings[31], s("w30"));
}

fn defined_name(
    name: &str,
    sheet_scope: Option<&str>,
    local_sheet_id: Option<u32>,
    hidden: Option<bool>,
    target: &str,
    truncated: bool,
) -> DefinedNameSummary {
    DefinedNameSummary {
        name: name.to_string(),
        sheet_scope: sheet_scope.map(s),
        local_sheet_id,
        hidden,
        target: target.to_string(),
        truncated,
    }
}

fn defined_names_fixture_context() -> WorkbookDefinedNameContext {
    let long_target = format!("{}...", "A".repeat(509));
    let mut names = vec![
        defined_name("LocalName", Some("Summary"), Some(0), Some(true), "Summary!$B$1", false),
        defined_name("LongTarget", None, None, None, long_target.as_str(), true),
        defined_name("BrokenScope", None, Some(9), None, "Summary!$C$1", false),
    ];
    let mut sample = vec![
        s("LocalName=Summary!$B$1"),
        format!("LongTarget={long_target}"),
        s("BrokenScope=Summary!$C$1"),
    ];
    for i in 0..61 {
        let target = format!("Summary!$A${}", i + 1);
        names.push(defined_name(&format!("Name{i}"), None, None, None, &target, false));
        sample.push(format!("Name{i}={target}"));
    }
    WorkbookDefinedNameContext {
        defined_name_count: 67,
        defined_names: names,
        defined_names_sample: sample,
        truncated_defined_name_targets: 1,
        unresolved_sheet_scope_count: 1,
    }
}

#[test]
fn inspect_workbook_defined_names_reports_bounded_inventory_and_warnings() {
    let result = inspect_workbook_defined_names_from_workbook(
        WorkbookFormat::Xlsx,
        "defined-names.xlsx",
        Ok(defined_names_fixture_context()),
    )
    .expect("defined name inventory should succeed");

    assert_eq!(result.path, "defined-names.xlsx".to_string());
    assert_eq!(result.defined_name_count, 67);
    assert_eq!(result.defined_names.len(), 64);
    assert_eq!(
        result.defined_names[0],
        DefinedNameSummary {
            name: "LocalName".to_string(),
            sheet_scope: Some("Summary".to_string()),
            local_sheet_id: Some(0),
            hidden: Some(true),
            target: "Summary!$B$1".to_string(),
            truncated: false,
        }
    );
    assert_eq!(
        result.defined_names[1],
        DefinedNameSummary {
            name: "LongTarget".to_string(),
            sheet_scope: None,
            local_sheet_id: None,
            hidden: None,
            target: format!("{}...", "A".repeat(509)),
            truncated: true,
        }
    );
    assert_eq!(
        result.defined_names[2],
        DefinedNameSummary {
            name: "BrokenScope".to_string(),
            sheet_scope: None,
            local_sheet_id: Some(9),
            hidden: None,
            target: "Summary!$C$1".to_string(),
            truncated: false,
        }
    );
    assert_eq!(result.defined_names_sample.len(), 64);
    assert_eq!(
        result.defined_names_sample[0],
        "LocalName=Summary!$B$1".to_string()
    );
    assert!(result.inventory_truncated);
    assert_eq!(result.mode, "read_only_inspection".to_string());
    assert_eq!(
        result.warnings,
        vec![
            "defined name inventory truncated to 64 of 67 names".to_string(),
            "1 defined name targets truncated to 512 characters".to_string(),
            "1 defined names kept unresolved localSheetId values without matching sheet names"
                .to_string(),
        ]
    );
}

#[test]
fn inspect_workbook_defined_names_rejects_xlsb_stage_gap() {
    let err = inspect_workbook_defined_names_from_workbook(
        WorkbookFormat::Xlsb,
        "sample.xlsb",
        Ok(defined_names_fixture_context()),
    )
    .expect_err("xlsb defined names should stay unsupported");
    assert_eq!(
        err,
        "excel.inspect_workbook_defined_names supports only .xlsx and .xlsm in this stage; .xlsb defined-name inventory remains unsupported"
            .to_string()
    );
}

#[test]
fn inspect_workbook_defined_names_fails_closed_on_malformed_workbook_xml() {
    let err = inspect_workbook_defined_names_from_workbook(
        WorkbookFormat::Xlsx,
        "broken-defined-names.xlsx",
        Err(s("failed to parse workbook sheet list: ill-formed document: expected `</definedName>`")),
    )
    .expect_err("malformed workbook.xml should fail closed");
    assert!(
        err.starts_with("failed to parse workbook sheet list:"),
        "unexpected error: {err}"
    );
}

#[test]
fn inspect_workbook_defined_names_rejects_invalid_local_sheet_id() {
    let err = inspect_workbook_defined_names_from_workbook(
        WorkbookFormat::Xlsx,
        "bad-local-sheet-id.xlsx",
        Err(s(
            "failed to parse workbook formula context: invalid definedName localSheetId `oops`: invalid digit found in string",
        )),
    )
    .expect_err("invalid localSheetId should fail closed");
    assert!(
        err.starts_with(
            "failed to parse workbook formula context: invalid definedName localSheetId `oops`:"
        ),
        "unexpected error: {err}"
    );
}

#[test]
fn defined_names_without_truncation_report_no_warnings() {
    let context = WorkbookDefinedNameContext {
        defined_name_count: 1,
        defined_names: vec![defined_name("Only", None, None, None, "Sheet1!$A$1", false)],
        defined_names_sample: vec![s("Only=Sheet1!$A$1")],
        truncated_defined_name_targets: 0,
        unresolved_sheet_scope_count: 0,
    };
    let result =
        inspect_workbook_defined_names_from_workbook(WorkbookFormat::Xlsm, "one.xlsm", Ok(context))
            .expect("inventory");
    assert!(!result.inventory_truncated);
    assert!(result.warnings.is_empty());
    let err = inspect_workbook_defined_names_from_workbook(WorkbookFormat::Unknown, "x.bin", Err(s("ignored")))
        .expect_err("unknown format");
    assert_eq!(
        err,
        s("excel.inspect_workbook_defined_names supports only .xlsx and .xlsm in this stage")
    );
    let mut warnings = Vec::new();
    push_defined_name_warnings(3, 3, 2, 0, &mut warnings);
    assert_eq!(warnings, vec![s("2 defined name targets truncated to 512 characters")]);
}
