use ontocode_excel::vba_translate::{MPreviewQuery, TranslateVbaToMPreviewResult};

#[test]
fn translate_vba_to_m_preview_translates_source_first() {
    let source = "Sub LoadEmployeeData()\n    Dim conn As New ADODB.Connection\n    Dim rs As New ADODB.Recordset\n    Dim sql As String\n    conn.Open \"Provider=SQLOLEDB;Data Source=SQLSERVER01;Initial Catalog=HRDatabase;Integrated Security=SSPI\"\n    sql = \"SELECT FirstName, LastName, Department, Salary \"\n    sql = sql & \"FROM Employees \"\n    sql = sql & \"WHERE IsActive = 1\"\n    rs.Open sql, conn\nEnd Sub";

    let result = ontocode_excel::vba_translate::translate_vba_to_m_preview(source, Some("sample.bas"));

    assert_eq!(
        result,
        TranslateVbaToMPreviewResult {
            mode: "heuristic_preview".to_string(),
            source_name: "sample.bas".to_string(),
            source_line_count: 10,
            source_truncated: false,
            m_queries: vec![MPreviewQuery {
                name: "LoadEmployeeData_Query".to_string(),
                source_procedure: "LoadEmployeeData".to_string(),
                native_sql: "SELECT FirstName, LastName, Department, Salary FROM Employees WHERE IsActive = 1".to_string(),
                code: "let\n    Source = Sql.Database(\"SQLSERVER01\", \"HRDatabase\"),\n    QueryResult = Value.NativeQuery(Source, \"SELECT FirstName, LastName, Department, Salary FROM Employees WHERE IsActive = 1\"),\n    SelectColumns = Table.SelectColumns(QueryResult, {\"FirstName\", \"LastName\", \"Department\", \"Salary\"})\nin\n    SelectColumns".to_string(),
            }],
            modified_vba: "Sub LoadEmployeeData()\n    Dim conn As New ADODB.Connection\n    Dim rs As New ADODB.Recordset\n    Dim sql As String\n    ' VBA to M preview: data-access block was moved to generated Power Query M.\n    ' VBA to M preview replaced: conn.Open \"Provider=SQLOLEDB;Data Source=SQLSERVER01;Initial Catalog=HRDatabase;Integrated Security=SSPI\"\n    ' VBA to M preview replaced: sql = \"SELECT FirstName, LastName, Department, Salary \"\n    ' VBA to M preview replaced: sql = sql & \"FROM Employees \"\n    ' VBA to M preview replaced: sql = sql & \"WHERE IsActive = 1\"\n    ' VBA to M preview replaced: rs.Open sql, conn\nEnd Sub\n".to_string(),
            warnings: vec![
                "Preview is heuristic and source-first; review the generated M before reuse.".to_string(),
            ],
        }
    );
}

#[test]
fn translate_vba_to_m_preview_warns_for_unsupported_patterns() {
    let source = "Sub BuildCommand()\n    Set cmd = CreateObject(\"ADODB.Command\")\n    cmd.Parameters.Append cmd.CreateParameter(\"@Id\", 3, 1, , 42)\n    rs.OpenRecordset \"Employees\"\n    sql = \"SELECT * \" _\nEnd Sub\n";

    let result = ontocode_excel::vba_translate::translate_vba_to_m_preview(source, Some("warn.bas"));

    assert!(
        result
            .warnings
            .contains(&"CreateObject automation is not translated in this preview.".to_string())
    );
    assert!(result.warnings.contains(
        &"Parameterized ADO command bindings are not translated in this preview.".to_string()
    ));
    assert!(
        result
            .warnings
            .contains(&"DAO OpenRecordset flows are not translated in this preview.".to_string())
    );
    assert!(
        result.warnings.contains(
            &"VBA line continuations may hide SQL assembly that this preview does not reconstruct."
                .to_string()
        )
    );
}
