use ontocode_excel::vba_onlyoffice_analyze::{
    AnalyzeVbaOnlyofficeMigrationResult, AnalyzeVbaOperationSummary, AnalyzeVbaProcedureSummary,
};
use ontocode_excel::vba_onlyoffice_translate::TranslateVbaToOnlyofficeJsPreviewResult;

#[test]
fn analyze_vba_onlyoffice_migration_reports_blockers() {
    let source = "Sub BuildCommand()\n    On Error Resume Next\n    Set cmd = CreateObject(\"ADODB.Command\")\n    cmd.Parameters.Append cmd.CreateParameter(\"@Id\", 3, 1, , 42)\n    Selection.Merge\nEnd Sub\n";

    let result = ontocode_excel::vba_onlyoffice_analyze::analyze_vba_onlyoffice_migration(
        source,
        Some("blockers.bas"),
    );

    assert_eq!(
        result,
        AnalyzeVbaOnlyofficeMigrationResult {
            procedures: vec![AnalyzeVbaProcedureSummary {
                name: "BuildCommand".to_string(),
                kind: "sub".to_string(),
                start_line: 1,
                end_line: 6,
                supported_operation_count: 0,
                unsupported_operation_count: 4,
                requires_manual_rewrite: true,
            }],
            supported_operations: Vec::new(),
            unsupported_operations: vec![
                AnalyzeVbaOperationSummary {
                    procedure: "BuildCommand".to_string(),
                    line: 2,
                    operation: "OnError".to_string(),
                    target: "On Error Resume Next".to_string(),
                    value: None,
                    reason: Some(
                        "error handling is not supported by the first ONLYOFFICE analyzer slice."
                            .to_string(),
                    ),
                },
                AnalyzeVbaOperationSummary {
                    procedure: "BuildCommand".to_string(),
                    line: 3,
                    operation: "CreateObject".to_string(),
                    target: "Set cmd = CreateObject(\"ADODB.Command\")".to_string(),
                    value: None,
                    reason: Some(
                        "COM automation is not supported by the first ONLYOFFICE analyzer slice."
                            .to_string(),
                    ),
                },
                AnalyzeVbaOperationSummary {
                    procedure: "BuildCommand".to_string(),
                    line: 4,
                    operation: "UnsupportedStatement".to_string(),
                    target: "cmd.Parameters.Append cmd.CreateParameter(\"@Id\", 3, 1, , 42)"
                        .to_string(),
                    value: None,
                    reason: Some(
                        "unrecognized executable statements are not supported by the first ONLYOFFICE analyzer slice."
                            .to_string(),
                    ),
                },
                AnalyzeVbaOperationSummary {
                    procedure: "BuildCommand".to_string(),
                    line: 5,
                    operation: "Merge".to_string(),
                    target: "Selection.Merge".to_string(),
                    value: None,
                    reason: Some(
                        "this spreadsheet operation is deferred from the first ONLYOFFICE analyzer slice."
                            .to_string(),
                    ),
                },
            ],
            requires_manual_rewrite: true,
            warnings: vec![
                "No supported spreadsheet operations were detected in the source preview."
                    .to_string(),
            ],
            success: false,
        }
    );
}

#[test]
fn analyze_vba_onlyoffice_migration_supports_formulalocal_literal() {
    let source = "Sub WriteFormula()\n    Cells(2, 3).FormulaLocal = \"=SUM(A1:A3)\"\nEnd Sub\n";

    let result = ontocode_excel::vba_onlyoffice_analyze::analyze_vba_onlyoffice_migration(
        source,
        Some("formulalocal.bas"),
    );

    assert_eq!(
        result,
        AnalyzeVbaOnlyofficeMigrationResult {
            procedures: vec![AnalyzeVbaProcedureSummary {
                name: "WriteFormula".to_string(),
                kind: "sub".to_string(),
                start_line: 1,
                end_line: 3,
                supported_operation_count: 1,
                unsupported_operation_count: 0,
                requires_manual_rewrite: false,
            }],
            supported_operations: vec![AnalyzeVbaOperationSummary {
                procedure: "WriteFormula".to_string(),
                line: 2,
                operation: "SetCellFormula".to_string(),
                target: "Cells(2, 3).FormulaLocal".to_string(),
                value: Some("\"=SUM(A1:A3)\"".to_string()),
                reason: None,
            }],
            unsupported_operations: Vec::new(),
            requires_manual_rewrite: false,
            warnings: Vec::new(),
            success: true,
        }
    );
}

#[test]
fn analyze_vba_onlyoffice_migration_supports_wrap_and_alignment_literals() {
    let source = "Sub FormatSelection()\n    Selection.WrapText = True\n    Selection.HorizontalAlignment = -4108\n    Selection.VerticalAlignment = \"center\"\nEnd Sub\n";

    let result = ontocode_excel::vba_onlyoffice_analyze::analyze_vba_onlyoffice_migration(
        source,
        Some("wrap-alignment.bas"),
    );

    assert_eq!(
        result,
        AnalyzeVbaOnlyofficeMigrationResult {
            procedures: vec![AnalyzeVbaProcedureSummary {
                name: "FormatSelection".to_string(),
                kind: "sub".to_string(),
                start_line: 1,
                end_line: 5,
                supported_operation_count: 3,
                unsupported_operation_count: 0,
                requires_manual_rewrite: false,
            }],
            supported_operations: vec![
                AnalyzeVbaOperationSummary {
                    procedure: "FormatSelection".to_string(),
                    line: 2,
                    operation: "SetWrap".to_string(),
                    target: "Selection.WrapText".to_string(),
                    value: Some("true".to_string()),
                    reason: None,
                },
                AnalyzeVbaOperationSummary {
                    procedure: "FormatSelection".to_string(),
                    line: 3,
                    operation: "SetAlignHorizontal".to_string(),
                    target: "Selection.HorizontalAlignment".to_string(),
                    value: Some("-4108".to_string()),
                    reason: None,
                },
                AnalyzeVbaOperationSummary {
                    procedure: "FormatSelection".to_string(),
                    line: 4,
                    operation: "SetAlignVertical".to_string(),
                    target: "Selection.VerticalAlignment".to_string(),
                    value: Some("\"center\"".to_string()),
                    reason: None,
                },
            ],
            unsupported_operations: Vec::new(),
            requires_manual_rewrite: false,
            warnings: Vec::new(),
            success: true,
        }
    );
}

#[test]
fn analyze_vba_onlyoffice_migration_keeps_formulalocal_variable_rhs_fail_closed() {
    let source = "Sub AddComment()\n    Cells(r, erc).FormulaLocal = er\nEnd Sub\n";

    let result = ontocode_excel::vba_onlyoffice_analyze::analyze_vba_onlyoffice_migration(
        source,
        Some("formulalocal-variable.bas"),
    );

    assert_eq!(
        result,
        AnalyzeVbaOnlyofficeMigrationResult {
            procedures: vec![AnalyzeVbaProcedureSummary {
                name: "AddComment".to_string(),
                kind: "sub".to_string(),
                start_line: 1,
                end_line: 3,
                supported_operation_count: 0,
                unsupported_operation_count: 1,
                requires_manual_rewrite: true,
            }],
            supported_operations: Vec::new(),
            unsupported_operations: vec![AnalyzeVbaOperationSummary {
                procedure: "AddComment".to_string(),
                line: 2,
                operation: "SetCellFormula".to_string(),
                target: "Cells(r, erc).FormulaLocal".to_string(),
                value: None,
                reason: Some(
                    "cell formulas must use a string literal that starts with =.".to_string(),
                ),
            }],
            requires_manual_rewrite: true,
            warnings: vec![
                "No supported spreadsheet operations were detected in the source preview."
                    .to_string(),
            ],
            success: false,
        }
    );
}

#[test]
fn analyze_vba_onlyoffice_migration_redacts_secret_literals() {
    let source = "Sub Secrets()\n    Selection.Font.Name = \"C:\\Users\\alice\\Desktop\\secret-font.ttf\"\n    Selection.Font.Size = 12\nEnd Sub\n";

    let result = ontocode_excel::vba_onlyoffice_analyze::analyze_vba_onlyoffice_migration(
        source,
        Some("secrets.bas"),
    );
    let mut texts: Vec<String> = Vec::new();
    for p in result.procedures.iter() {
        texts.push(p.name.clone());
        texts.push(p.kind.clone());
    }
    for o in result.supported_operations.iter().chain(result.unsupported_operations.iter()) {
        texts.push(o.procedure.clone());
        texts.push(o.operation.clone());
        texts.push(o.target.clone());
        texts.extend(o.value.clone());
        texts.extend(o.reason.clone());
    }
    texts.extend(result.warnings.iter().cloned());
    let serialized = serde_json::to_string(&texts).expect("serialize analyzer result");

    assert!(serialized.contains("<redacted>"));
    assert!(!serialized.contains("C:\\Users\\alice\\Desktop\\secret-font.ttf"));
    assert!(!texts.iter().any(|t| t.contains("secret-font")));
    assert_eq!(
        result.supported_operations,
        vec![
            AnalyzeVbaOperationSummary {
                procedure: "Secrets".to_string(),
                line: 2,
                operation: "SetFontName".to_string(),
                target: "Selection.Font.Name".to_string(),
                value: Some("<redacted>".to_string()),
                reason: None,
            },
            AnalyzeVbaOperationSummary {
                procedure: "Secrets".to_string(),
                line: 3,
                operation: "SetFontSize".to_string(),
                target: "Selection.Font.Size".to_string(),
                value: Some("12".to_string()),
                reason: None,
            },
        ]
    );
    assert!(
        result
            .warnings
            .iter()
            .any(|warning| warning.contains("redacted"))
    );
}

#[test]
fn analyze_vba_onlyoffice_migration_caps_procedures_and_operations() {
    let mut source = String::new();
    for index in 0..18 {
        source.push_str(&format!(
            "Sub Proc{index}()\n    ActiveCell.Value = \"Value{index}\"\n    Selection.Font.Bold = True\n    Selection.Font.Color = RGB({index}, {index}, {index})\nEnd Sub\n"
        ));
    }

    let result = ontocode_excel::vba_onlyoffice_analyze::analyze_vba_onlyoffice_migration(&source, None);

    assert_eq!(result.procedures.len(), 16);
    assert_eq!(result.supported_operations.len(), 32);
    assert!(
        result
            .warnings
            .iter()
            .any(|warning| warning.contains("procedure analysis truncated"))
    );
    assert!(
        result
            .warnings
            .iter()
            .any(|warning| warning.contains("supported operations truncated"))
    );
    assert!(!result.success);
    assert!(result.requires_manual_rewrite);
}

#[test]
fn analyze_vba_onlyoffice_migration_marks_workbook_open_as_event_sub() {
    let source = "Private Sub Workbook_Open()\n    Sheets(\"Lookup\").Visible = xlHidden\n    ActiveSheet.Protect Password:=\"REDACTED_PASSWORD\"\nEnd Sub\n";

    let result = ontocode_excel::vba_onlyoffice_analyze::analyze_vba_onlyoffice_migration(
        source,
        Some("workbook_open.bas"),
    );

    assert_eq!(
        result.procedures,
        vec![AnalyzeVbaProcedureSummary {
            name: "Workbook_Open".to_string(),
            kind: "event_sub".to_string(),
            start_line: 1,
            end_line: 4,
            supported_operation_count: 0,
            unsupported_operation_count: 2,
            requires_manual_rewrite: true,
        }]
    );
    assert_eq!(
        result.unsupported_operations,
        vec![
            AnalyzeVbaOperationSummary {
                procedure: "Workbook_Open".to_string(),
                line: 1,
                operation: "EventProcedure".to_string(),
                target: "Private Sub Workbook_Open()".to_string(),
                value: None,
                reason: Some(
                    "event procedures are not supported by the first ONLYOFFICE analyzer slice."
                        .to_string(),
                ),
            },
            AnalyzeVbaOperationSummary {
                procedure: "Workbook_Open".to_string(),
                line: 2,
                operation: "UnsupportedStatement".to_string(),
                target: "Sheets(\"Lookup\").Visible = xlHidden".to_string(),
                value: None,
                reason: Some(
                    "unrecognized executable statements are not supported by the first ONLYOFFICE analyzer slice."
                        .to_string(),
                ),
            },
            AnalyzeVbaOperationSummary {
                procedure: "Workbook_Open".to_string(),
                line: 3,
                operation: "Protect".to_string(),
                target: "ActiveSheet.Protect Password:=<redacted>".to_string(),
                value: None,
                reason: Some(
                    "this spreadsheet operation is deferred from the first ONLYOFFICE analyzer slice."
                        .to_string(),
                ),
            },
        ]
    );
    assert!(!result.success);
    assert!(result.requires_manual_rewrite);
}

#[test]
fn analyze_vba_onlyoffice_migration_fails_closed_for_environment_reads() {
    let source = "Sub GreetUser()\n    userName = Environ(\"UserName\")\n    ActiveCell.Value = \"Ready\"\nEnd Sub\n";

    let result = ontocode_excel::vba_onlyoffice_analyze::analyze_vba_onlyoffice_migration(
        source,
        Some("environment.bas"),
    );

    assert_eq!(
        result.procedures,
        vec![AnalyzeVbaProcedureSummary {
            name: "GreetUser".to_string(),
            kind: "sub".to_string(),
            start_line: 1,
            end_line: 4,
            supported_operation_count: 1,
            unsupported_operation_count: 1,
            requires_manual_rewrite: true,
        }]
    );
    assert_eq!(
        result.supported_operations,
        vec![AnalyzeVbaOperationSummary {
            procedure: "GreetUser".to_string(),
            line: 3,
            operation: "SetCellValue".to_string(),
            target: "ActiveCell.Value".to_string(),
            value: Some("\"Ready\"".to_string()),
            reason: None,
        }]
    );
    assert_eq!(
        result.unsupported_operations,
        vec![AnalyzeVbaOperationSummary {
            procedure: "GreetUser".to_string(),
            line: 2,
            operation: "EnvironmentRead".to_string(),
            target: "userName = Environ(\"UserName\")".to_string(),
            value: None,
            reason: Some(
                "environment reads are not supported by the first ONLYOFFICE analyzer slice."
                    .to_string(),
            ),
        }]
    );
    assert!(!result.success);
    assert!(result.requires_manual_rewrite);
}

#[test]
fn translate_vba_to_onlyoffice_js_preview_supports_line_continuations() {
    let source = "Sub FillCell()\n    ActiveCell.Value = _\n        \"Ready\"\n    ActiveCell.Formula = _\n        \"=SUM(A1:A3)\"\nEnd Sub\n";

    let result = ontocode_excel::vba_onlyoffice_translate::translate_vba_to_onlyoffice_js_preview(
        source,
        Some("continuation.bas"),
    );

    assert!(result.success);
    assert_eq!(
        result.unsupported_operations,
        Vec::<AnalyzeVbaOperationSummary>::new()
    );
    assert_eq!(
        result.procedure_summaries,
        vec![AnalyzeVbaProcedureSummary {
            name: "FillCell".to_string(),
            kind: "sub".to_string(),
            start_line: 1,
            end_line: 6,
            supported_operation_count: 2,
            unsupported_operation_count: 0,
            requires_manual_rewrite: false,
        }]
    );
    assert!(
        result
            .macro_value
            .contains("worksheet.GetActiveCell().SetValue(\"Ready\");")
    );
    assert!(
        result
            .macro_value
            .contains("worksheet.GetActiveCell().SetFormulaArray(\"=SUM(A1:A3)\");")
    );
}

#[test]
fn translate_vba_to_onlyoffice_js_preview_emits_value_and_formula() {
    let source = "Sub FillCell()\n    ActiveCell.Value = \"Ready\"\n    ActiveCell.Formula = \"=SUM(A1:A3)\"\nEnd Sub\n";

    let result = ontocode_excel::vba_onlyoffice_translate::translate_vba_to_onlyoffice_js_preview(
        source,
        Some("fill.bas"),
    );

    assert_eq!(
        result,
        TranslateVbaToOnlyofficeJsPreviewResult {
            macro_value: "(function()\n{\n    let worksheet = Api.GetActiveSheet();\n    let workbook = Api.GetActiveWorkbook();\n    worksheet.GetActiveCell().SetValue(\"Ready\");\n    worksheet.GetActiveCell().SetFormulaArray(\"=SUM(A1:A3)\");\n})();"
            .to_string(),
            function_body: "    let worksheet = Api.GetActiveSheet();\n    let workbook = Api.GetActiveWorkbook();\n    worksheet.GetActiveCell().SetValue(\"Ready\");\n    worksheet.GetActiveCell().SetFormulaArray(\"=SUM(A1:A3)\");"
            .to_string(),
            procedure_summaries: vec![AnalyzeVbaProcedureSummary {
                name: "FillCell".to_string(),
                kind: "sub".to_string(),
                start_line: 1,
                end_line: 4,
                supported_operation_count: 2,
                unsupported_operation_count: 0,
                requires_manual_rewrite: false,
            }],
            unsupported_operations: Vec::new(),
            redactions: Vec::new(),
            warnings: Vec::new(),
            success: true,
        }
    );
}

#[test]
fn translate_vba_to_onlyoffice_js_preview_emits_formulalocal_literal() {
    let source = "Sub WriteFormula()\n    Cells(2, 3).FormulaLocal = \"=SUM(A1:A3)\"\nEnd Sub\n";

    let result = ontocode_excel::vba_onlyoffice_translate::translate_vba_to_onlyoffice_js_preview(
        source,
        Some("formulalocal.bas"),
    );

    assert_eq!(
        result.function_body,
        "    let worksheet = Api.GetActiveSheet();\n    let workbook = Api.GetActiveWorkbook();\n    worksheet.GetActiveCell().SetFormulaArray(\"=SUM(A1:A3)\");"
    );
    assert!(result.success);
    assert_eq!(result.warnings, Vec::<String>::new());
}

#[test]
fn translate_vba_to_onlyoffice_js_preview_emits_formatting_with_rgb() {
    let source = "Sub PaintSelection()\n    Selection.Font.Bold = True\n    Selection.Font.Italic = False\n    Selection.Font.Name = \"Arial\"\n    Selection.Font.Size = 12\n    Selection.Font.Color = RGB(10, 20, 30)\n    Selection.Interior.Color = RGB(200, 210, 220)\n    Selection.NumberFormat = \"0.00\"\nEnd Sub\n";

    let result = ontocode_excel::vba_onlyoffice_translate::translate_vba_to_onlyoffice_js_preview(
        source,
        Some("format.bas"),
    );

    assert_eq!(
        result.macro_value,
        "(function()\n{\n    let worksheet = Api.GetActiveSheet();\n    let workbook = Api.GetActiveWorkbook();\n    Api.GetSelection().SetBold(true);\n    Api.GetSelection().SetItalic(false);\n    Api.GetSelection().SetFontName(\"Arial\");\n    Api.GetSelection().SetFontSize(\"12\");\n    Api.GetSelection().SetFontColor(Api.CreateColorFromRGB(10, 20, 30));\n    Api.GetSelection().SetBackgroundColor(Api.CreateColorFromRGB(200, 210, 220));\n    Api.GetSelection().SetNumberFormat(\"0.00\");\n})();"
    );
    assert!(result.success);
    assert_eq!(result.redactions, Vec::<String>::new());
    assert_eq!(result.warnings, Vec::<String>::new());
}

#[test]
fn translate_vba_to_onlyoffice_js_preview_emits_wrap_and_alignment_literals() {
    let source = "Sub FormatSelection()\n    Selection.WrapText = True\n    Selection.HorizontalAlignment = -4108\n    Selection.VerticalAlignment = \"center\"\nEnd Sub\n";

    let result = ontocode_excel::vba_onlyoffice_translate::translate_vba_to_onlyoffice_js_preview(
        source,
        Some("wrap-alignment.bas"),
    );

    assert_eq!(
        result.macro_value,
        "(function()\n{\n    let worksheet = Api.GetActiveSheet();\n    let workbook = Api.GetActiveWorkbook();\n    Api.GetSelection().SetWrap(true);\n    Api.GetSelection().SetAlignHorizontal(-4108);\n    Api.GetSelection().SetAlignVertical(\"center\");\n})();"
    );
    assert_eq!(
        result.function_body,
        "    let worksheet = Api.GetActiveSheet();\n    let workbook = Api.GetActiveWorkbook();\n    Api.GetSelection().SetWrap(true);\n    Api.GetSelection().SetAlignHorizontal(-4108);\n    Api.GetSelection().SetAlignVertical(\"center\");"
    );
    assert!(result.success);
    assert_eq!(result.redactions, Vec::<String>::new());
    assert_eq!(result.warnings, Vec::<String>::new());
}

#[test]
fn translate_vba_to_onlyoffice_js_preview_fails_closed_for_unsupported_constructs() {
    let source = "Sub BuildCommand()\n    On Error Resume Next\n    Selection.Merge\nEnd Sub\n";

    let result = ontocode_excel::vba_onlyoffice_translate::translate_vba_to_onlyoffice_js_preview(
        source,
        Some("blockers.bas"),
    );

    assert!(!result.success);
    assert_eq!(result.macro_value, "");
    assert_eq!(result.function_body, "");
    assert_eq!(result.unsupported_operations.len(), 2);
}

#[test]
fn analyze_and_translate_vba_onlyoffice_js_preview_fail_closed_for_msgbox() {
    let source = "Sub WarnUser()\n    MsgBox \"Hello\"\nEnd Sub\n";

    let analysis =
        ontocode_excel::vba_onlyoffice_analyze::analyze_vba_onlyoffice_migration(source, Some("msgbox.bas"));

    assert_eq!(
        analysis,
        AnalyzeVbaOnlyofficeMigrationResult {
            procedures: vec![AnalyzeVbaProcedureSummary {
                name: "WarnUser".to_string(),
                kind: "sub".to_string(),
                start_line: 1,
                end_line: 3,
                supported_operation_count: 0,
                unsupported_operation_count: 1,
                requires_manual_rewrite: true,
            }],
            supported_operations: Vec::new(),
            unsupported_operations: vec![AnalyzeVbaOperationSummary {
                procedure: "WarnUser".to_string(),
                line: 2,
                operation: "UnsupportedStatement".to_string(),
                target: "MsgBox \"Hello\"".to_string(),
                value: None,
                reason: Some(
                    "unrecognized executable statements are not supported by the first ONLYOFFICE analyzer slice."
                        .to_string(),
                ),
            }],
            requires_manual_rewrite: true,
            warnings: vec![
                "No supported spreadsheet operations were detected in the source preview."
                    .to_string(),
            ],
            success: false,
        }
    );

    let result = ontocode_excel::vba_onlyoffice_translate::translate_vba_to_onlyoffice_js_preview(
        source,
        Some("msgbox.bas"),
    );

    assert!(!result.success);
    assert_eq!(result.macro_value, "");
    assert_eq!(result.function_body, "");
}

#[test]
fn analyze_and_translate_vba_onlyoffice_js_preview_fail_closed_for_alignment_constants() {
    let source = "Sub AlignSelection()\n    Selection.HorizontalAlignment = xlHAlignCenter\nEnd Sub\n";

    let analysis = ontocode_excel::vba_onlyoffice_analyze::analyze_vba_onlyoffice_migration(
        source,
        Some("alignment.bas"),
    );

    assert_eq!(
        analysis,
        AnalyzeVbaOnlyofficeMigrationResult {
            procedures: vec![AnalyzeVbaProcedureSummary {
                name: "AlignSelection".to_string(),
                kind: "sub".to_string(),
                start_line: 1,
                end_line: 3,
                supported_operation_count: 0,
                unsupported_operation_count: 1,
                requires_manual_rewrite: true,
            }],
            supported_operations: Vec::new(),
            unsupported_operations: vec![AnalyzeVbaOperationSummary {
                procedure: "AlignSelection".to_string(),
                line: 2,
                operation: "SetAlignHorizontal".to_string(),
                target: "Selection.HorizontalAlignment".to_string(),
                value: None,
                reason: Some("alignment expects a numeric literal or quoted string.".to_string(),),
            }],
            requires_manual_rewrite: true,
            warnings: vec![
                "No supported spreadsheet operations were detected in the source preview."
                    .to_string(),
            ],
            success: false,
        }
    );

    let result = ontocode_excel::vba_onlyoffice_translate::translate_vba_to_onlyoffice_js_preview(
        source,
        Some("alignment.bas"),
    );

    assert!(!result.success);
    assert_eq!(result.macro_value, "");
    assert_eq!(result.function_body, "");
}

#[test]
fn translate_vba_to_onlyoffice_js_preview_fails_closed_for_truncation() {
    let source = format!(
        "Sub Huge()\n    ActiveCell.Value = \"{}\"\nEnd Sub\n",
        "A".repeat(33_000)
    );

    let result =
        ontocode_excel::vba_onlyoffice_translate::translate_vba_to_onlyoffice_js_preview(&source, None);

    assert!(!result.success);
    assert_eq!(result.macro_value, "");
    assert_eq!(result.function_body, "");
    assert!(
        result
            .warnings
            .iter()
            .any(|warning| warning.contains("truncated"))
    );
}

#[test]
fn translate_vba_to_onlyoffice_js_preview_fails_closed_for_redaction() {
    let source = "Sub Secrets()\n    Selection.Font.Name = \"C:\\Users\\alice\\Desktop\\secret-font.ttf\"\nEnd Sub\n";

    let result = ontocode_excel::vba_onlyoffice_translate::translate_vba_to_onlyoffice_js_preview(
        source,
        Some("secrets.bas"),
    );

    assert!(!result.success);
    assert_eq!(result.macro_value, "");
    assert_eq!(result.function_body, "");
    assert_eq!(result.redactions, vec!["Secrets:2".to_string()]);
}

#[test]
fn translate_vba_to_onlyoffice_js_preview_fails_closed_for_unknown_operation() {
    let analysis = AnalyzeVbaOnlyofficeMigrationResult {
        procedures: vec![AnalyzeVbaProcedureSummary {
            name: "Unknown".to_string(),
            kind: "sub".to_string(),
            start_line: 1,
            end_line: 3,
            supported_operation_count: 1,
            unsupported_operation_count: 0,
            requires_manual_rewrite: false,
        }],
        supported_operations: vec![AnalyzeVbaOperationSummary {
            procedure: "Unknown".to_string(),
            line: 2,
            operation: "SetBorder".to_string(),
            target: "Selection.Borders".to_string(),
            value: Some("true".to_string()),
            reason: None,
        }],
        unsupported_operations: Vec::new(),
        requires_manual_rewrite: false,
        warnings: Vec::new(),
        success: true,
    };

    let result =
        ontocode_excel::vba_onlyoffice_translate::translate_analyzed_vba_to_onlyoffice_js_preview(analysis);

    assert!(!result.success);
    assert_eq!(result.macro_value, "");
    assert_eq!(result.function_body, "");
    assert!(
        result
            .warnings
            .iter()
            .any(|warning| warning.contains("SetBorder"))
    );
}

#[test]
fn translate_vba_to_onlyoffice_js_preview_fails_closed_for_unmapped_value_expression() {
    let source = "Sub BadValue()\n    ActiveCell.Value = RGB(1, 2, 3)\nEnd Sub\n";

    let result =
        ontocode_excel::vba_onlyoffice_translate::translate_vba_to_onlyoffice_js_preview(source, None);

    assert!(!result.success);
    assert_eq!(result.macro_value, "");
    assert_eq!(result.function_body, "");
    assert!(
        result
            .warnings
            .iter()
            .any(|warning| warning.contains("SetCellValue"))
    );
}
