use ontocode_excel::tool::{default_output_csv_display_path, sanitize_sheet_name, SheetSelector};
use ontocode_excel::vba_translate::{
    build_source_expression, escape_m_string, extract_select_columns, get_connection_value,
    looks_like_sql, normalize_sql, sanitize_name, split_top_level, translate_vba_to_m_preview,
    unescape_vba_string,
};
use ontocode_excel::workbook_external_links::{
    external_link_rels_path, normalize_part_name, normalize_part_path, normalize_path,
    normalize_relationship_target, Relationship,
};

#[test]
fn connection_values_are_read_by_literal_key() {
    let conn = "Provider=SQLOLEDB;Data Source=srv01; Initial Catalog = Sales ;";
    assert_eq!(get_connection_value(conn, "Data Source"), "srv01");
    assert_eq!(get_connection_value(conn, "Initial Catalog"), "Sales");
    assert_eq!(get_connection_value(conn, "Missing"), "");
    assert_eq!(get_connection_value("   ", "Server"), "");
    // A key is matched literally: the dot in `a.b` does not match `x`.
    assert_eq!(get_connection_value("axb=2", "a.b"), "");
    assert_eq!(get_connection_value("a.b= v ;axb=2", "a.b"), "v");
}

#[test]
fn source_expressions_follow_the_connection_kind() {
    assert_eq!(build_source_expression("  "), "Sql.Database(\"SERVER\", \"DATABASE\")");
    assert_eq!(
        build_source_expression("Provider=Microsoft.ACE.OLEDB.12.0;Data Source=C:\\db.accdb"),
        "Access.Database(File.Contents(\"C:\\db.accdb\"), [CreateNavigationProperties=true])"
    );
    assert_eq!(build_source_expression("DSN=Warehouse"), "Odbc.DataSource(\"dsn=Warehouse\")");
    assert_eq!(
        build_source_expression("Server=srv;Database=Sales"),
        "Sql.Database(\"srv\", \"Sales\")"
    );
    assert_eq!(
        build_source_expression("Provider=MSDASQL;Driver=x"),
        "Odbc.DataSource(\"Provider=MSDASQL;Driver=x\")"
    );
}

#[test]
fn sql_text_helpers() {
    assert_eq!(normalize_sql("  SELECT   a,\n b  FROM t  "), "SELECT a, b FROM t");
    assert_eq!(sanitize_name("Load Data-1"), "Load_Data_1");
    assert_eq!(sanitize_name(""), "Query");
    assert_eq!(escape_m_string("say \"hi\""), "say \"\"hi\"\"");
    assert_eq!(unescape_vba_string("a\"\"b"), "a\"b");
    assert!(!looks_like_sql("   "));
    assert!(looks_like_sql("select x from y"));
    assert!(!looks_like_sql("selection of rows"));
    assert_eq!(
        split_top_level("a, f(b, c), \"p,q\"", ','),
        vec!["a".to_string(), " f(b, c)".to_string(), " \"p,q\"".to_string()]
    );
}

#[test]
fn select_columns_drop_aliases_qualifiers_and_calls() {
    assert_eq!(
        extract_select_columns("SELECT t.Id, Name AS CustomerName, [Total Amount], COUNT(*) FROM Orders t"),
        vec!["Id".to_string(), "Name".to_string(), "Total Amount".to_string()]
    );
    assert!(extract_select_columns("SELECT * FROM t").is_empty());
    assert!(extract_select_columns("SELECT TOP 5 a FROM t").is_empty());
    assert!(extract_select_columns("UPDATE t SET a = 1").is_empty());
}

#[test]
fn m_preview_keeps_one_query_per_sql_text_ignoring_case() {
    let source = "Sub LoadData()\n    rs.Open \"SELECT a FROM t1\", conn\n    rs.Open \"select a from T1\", conn\nEnd Sub\n";
    let result = translate_vba_to_m_preview(source, None);
    assert_eq!(result.mode, "heuristic_preview");
    assert_eq!(result.source_name, "pasted VBA");
    assert_eq!(result.source_line_count, 4);
    assert_eq!(result.m_queries.len(), 1);
    assert_eq!(result.m_queries[0].name, "LoadData_Query");
    assert_eq!(result.m_queries[0].source_procedure, "LoadData");
    assert_eq!(result.m_queries[0].native_sql, "SELECT a FROM t1");
    assert_eq!(
        result.warnings,
        vec![
            "No ADODB connection string was found. Generated M uses a placeholder data source."
                .to_string(),
            "Preview is heuristic and source-first; review the generated M before reuse.".to_string(),
        ]
    );
}

#[test]
fn m_preview_stops_at_eight_queries() {
    let mut source = String::from("Sub Many()\n");
    for n in 1..=9 {
        source.push_str(&format!("    rs.Open \"SELECT a FROM t{n}\", conn\n"));
    }
    source.push_str("End Sub\n");
    let result = translate_vba_to_m_preview(&source, Some("many.bas"));
    assert_eq!(result.source_name, "many.bas");
    assert_eq!(result.m_queries.len(), 8);
    assert_eq!(result.m_queries[0].name, "Many_Query");
    assert_eq!(result.m_queries[7].name, "Many_Query8");
    assert!(result
        .warnings
        .contains(&"M query preview truncated to 8 candidates".to_string()));
}

#[test]
fn package_paths_resolve_dot_segments() {
    assert_eq!(
        normalize_path("xl/worksheets/../externalLinks/./externalLink1.xml"),
        "xl/externalLinks/externalLink1.xml"
    );
    assert_eq!(normalize_path("/xl//a/../b"), "/xl/b");
    assert_eq!(normalize_path("../../a"), "a");
    assert_eq!(
        external_link_rels_path("xl/externalLinks/externalLink1.xml"),
        "xl/externalLinks/_rels/externalLink1.xml.rels"
    );
    assert_eq!(
        normalize_part_path("xl/workbook.xml", "externalLinks/externalLink1.xml"),
        "xl/externalLinks/externalLink1.xml"
    );
    assert_eq!(normalize_part_path("xl/workbook.xml", "/xl/x.xml"), "/xl/x.xml");
    assert_eq!(
        normalize_part_path("xl/worksheets/sheet1.xml", "../tables/table1.xml"),
        "xl/tables/table1.xml"
    );
    assert_eq!(normalize_part_name("./xl\\a.xml"), "xl/a.xml");
}

#[test]
fn external_relationship_targets_are_kept_verbatim() {
    let external = Relationship {
        id: "rId1".to_string(),
        target: "file:///C:/book.xlsx".to_string(),
        target_mode: Some("external".to_string()),
        relationship_type: "externalLinkPath".to_string(),
    };
    assert_eq!(normalize_relationship_target("xl/externalLinks/externalLink1.xml", &external), "file:///C:/book.xlsx");
    let url = Relationship {
        id: "rId2".to_string(),
        target: "https://example.test/book.xlsx".to_string(),
        target_mode: None,
        relationship_type: "x".to_string(),
    };
    assert_eq!(normalize_relationship_target("xl/workbook.xml", &url), "https://example.test/book.xlsx");
    let internal = Relationship {
        id: "rId3".to_string(),
        target: "externalLinks/externalLink1.xml".to_string(),
        target_mode: None,
        relationship_type: "x".to_string(),
    };
    assert_eq!(
        normalize_relationship_target("xl/workbook.xml", &internal),
        "xl/externalLinks/externalLink1.xml"
    );
}

#[test]
fn csv_output_names_follow_the_sheet() {
    assert_eq!(sanitize_sheet_name("Q1 Sales!"), "q1-sales");
    assert_eq!(sanitize_sheet_name("***"), "sheet");
    assert_eq!(
        default_output_csv_display_path(
            "data/report.xlsx",
            &SheetSelector::Name { name: "Q1 Sales".to_string() }
        ),
        "data/report-q1-sales.csv"
    );
    assert_eq!(
        default_output_csv_display_path("book.xlsm", &SheetSelector::Index { index: 2 }),
        "book-sheet-3.csv"
    );
}
