use ontocode_excel::tool::TurnWorkspace;
use ontocode_excel::vba_container::{dir_stream_code_page, unpack_compressed_container, Unpacking};
use ontocode_excel::vba_dir::dir_stream_parse_uses_all;
use ontocode_excel::vba_project_writer::build_vba_dir_stream;
use ontocode_excel::vba_extract::{module_stream_ok, vba_dir_stream_is_safe};
use ontocode_excel::vba_onlyoffice_analyze::{
    analyze_vba_onlyoffice_migration, classify_statement_with, compact_whitespace,
};
use ontocode_excel::vba_translate::{
    command_text_sql, connection_value_from_captures, name_or_query, open_literal_connection,
    select_columns_from_list, split_top_level,
};

fn unpacked(bytes: &[u8]) -> Option<Vec<u8>> {
    match unpack_compressed_container(bytes) {
        Unpacking::Done(v) => Some(v),
        _ => None,
    }
}

fn faults(bytes: &[u8]) -> bool {
    matches!(unpack_compressed_container(bytes), Unpacking::Faulted)
}

fn refused(bytes: &[u8]) -> bool {
    matches!(unpack_compressed_container(bytes), Unpacking::Refused)
}

#[test]
fn uncompressed_chunk_is_copied() {
    assert_eq!(unpacked(&[1, 0x02, 0x30, b'a', b'b', b'c']), Some(b"abc".to_vec()));
}

#[test]
fn copy_token_repeats_earlier_bytes() {
    assert_eq!(unpacked(&[1, 0x03, 0xB0, 0x02, b'a', 0, 0]), Some(b"aaaa".to_vec()));
}

#[test]
fn copy_token_before_chunk_start_faults() {
    assert!(faults(&[1, 0x02, 0xB0, 0x01, 0, 0]));
}

#[test]
fn chunk_longer_than_input_faults() {
    assert!(faults(&[1, 0x03, 0x30, b'a', b'b']));
}

#[test]
fn container_without_signature_or_chunk_is_refused() {
    assert!(refused(&[0, 0x02, 0x30, b'a', b'b', b'c']));
    assert!(refused(&[1]));
    assert!(refused(&[1, 0x02, 0x20, b'a', b'b', b'c']));
}

#[test]
fn dir_stream_parse_reads_every_byte() {
    let dir = build_vba_dir_stream("Module1", 1252);
    assert!(dir_stream_parse_uses_all(&dir));
    let mut longer = dir.clone();
    longer.push(0);
    assert!(!dir_stream_parse_uses_all(&longer));
    let mut version16 = dir.clone();
    let at = version16
        .windows(6)
        .position(|w| w == [9, 0, 4, 0, 0, 0])
        .expect("version record");
    version16[at + 6] = 16;
    assert!(version16.windows(6).any(|w| w == [0x10, 0, 0, 0, 0, 0]));
    assert!(dir_stream_parse_uses_all(&version16));
    assert!(dir_stream_parse_uses_all(&[1, 2, 3]));
}

#[test]
fn dir_stream_code_page_is_read_from_leading_records() {
    let dir = [
        1, 0, 4, 0, 0, 0, 1, 0, 0, 0, 2, 0, 4, 0, 0, 0, 9, 4, 0, 0, 0x14, 0, 4, 0, 0, 0, 9, 4, 0, 0, 3, 0, 2, 0, 0,
        0, 0xE4, 0x04,
    ];
    assert_eq!(dir_stream_code_page(&dir), Some(1252));
    assert_eq!(dir_stream_code_page(&dir[..30]), None);
}

#[test]
fn missing_dir_stream_is_left_to_the_parser() {
    assert!(vba_dir_stream_is_safe(&None));
    assert!(!vba_dir_stream_is_safe(&Some(vec![1, 0x02, 0xB0, 0x01, 0, 0])));
    assert!(vba_dir_stream_is_safe(&Some(vec![0])));
}

#[test]
fn module_stream_offset_must_lie_in_the_stream() {
    let stream = Some(vec![9, 9, 1, 0x02, 0x30, b'a', b'b', b'c']);
    assert!(module_stream_ok(&stream, 2));
    assert!(!module_stream_ok(&stream, 9));
    assert!(module_stream_ok(&None, 5));
    assert!(!module_stream_ok(&Some(vec![1, 0x03, 0x30, b'a']), 0));
}

#[test]
fn compact_whitespace_keeps_literals_and_is_idempotent() {
    let once = compact_whitespace("  a \t b  \"x   y\" ");
    assert_eq!(once, "a b \"x   y\"");
    assert_eq!(compact_whitespace(&once), once);
}

#[test]
fn split_top_level_rejoins_to_the_value() {
    let value = "a, f(b, c), \"d, e\"";
    let pieces = split_top_level(value, ',');
    assert_eq!(pieces, vec!["a".to_string(), " f(b, c)".to_string(), " \"d, e\"".to_string()]);
    assert_eq!(pieces.join(","), value);
    assert_eq!(split_top_level("", ','), vec![String::new()]);
}

#[test]
fn analysis_places_operations_inside_ordered_procedures() {
    let source = "Sub First()\n    Range(\"A1\").Value = 1\nEnd Sub\n\nSub Second()\n    Selection.Merge\nEnd Sub\n";
    let result = analyze_vba_onlyoffice_migration(source, None);
    assert_eq!(result.procedures.len(), 2);
    assert!(result.procedures[0].start_line <= result.procedures[0].end_line);
    assert!(result.procedures[0].end_line < result.procedures[1].start_line);
    for op in result.supported_operations.iter() {
        assert!(op.value.is_some() && op.reason.is_none());
        let p = result.procedures.iter().find(|p| p.name == op.procedure).expect("procedure of operation");
        assert!(p.start_line <= op.line && op.line <= p.end_line);
    }
    for op in result.unsupported_operations.iter() {
        assert!(op.value.is_none() && op.reason.is_some());
        let p = result.procedures.iter().find(|p| p.name == op.procedure).expect("procedure of operation");
        assert!(p.start_line <= op.line && op.line <= p.end_line);
    }
    assert!(!result.supported_operations.is_empty());
    assert!(!result.unsupported_operations.is_empty());
}

#[test]
fn sanitized_empty_name_becomes_query() {
    assert_eq!(name_or_query(String::new()), "Query");
    assert_eq!(name_or_query("Sales_2024".to_string()), "Sales_2024");
}

#[test]
fn connection_value_comes_from_the_first_group() {
    let captures = Some(vec![Some(";Server = db01 ".to_string()), Some(" db01 ".to_string())]);
    assert_eq!(connection_value_from_captures(captures), "db01");
    assert_eq!(connection_value_from_captures(None), "");
    assert_eq!(connection_value_from_captures(Some(vec![Some("x".to_string())])), "");
}

#[test]
fn select_list_columns_drop_aliases_and_qualifiers() {
    assert_eq!(
        select_columns_from_list(" a, b AS c, t.[d], COUNT(x) "),
        vec!["a".to_string(), "b".to_string(), "d".to_string()]
    );
    assert!(select_columns_from_list(" * ").is_empty());
    assert!(select_columns_from_list("TOP 5 a").is_empty());
}

#[test]
fn deferred_member_match_is_refused() {
    let member = Some(vec![
        Some("Selection.Merge".to_string()),
        Some("Selection".to_string()),
        Some("Merge".to_string()),
    ]);
    let r = classify_statement_with("Selection.Merge", None, member).expect("classified");
    assert_eq!(r.0, "Merge");
    assert!(!r.3);
    assert_eq!(r.2, None);
    assert!(r.4.is_some());
    let k = classify_statement_with("Kill x", Some(("FileSystem", "file access is not supported")), None)
        .expect("classified");
    assert_eq!(k.0, "FileSystem");
    assert_eq!(k.4, Some("file access is not supported".to_string()));
}

#[test]
fn turn_workspace_gives_the_directory_set_last() {
    let mut w = TurnWorkspace::new();
    assert_eq!(w.current_cwd(), None);
    assert_eq!(
        w.cwd_for("excel.inspect_workbook"),
        Err("excel.inspect_workbook workspace context is unavailable for this turn".to_string())
    );
    w.set_current_cwd("/workspace/a".to_string());
    w.set_current_cwd("/workspace/b".to_string());
    assert_eq!(w.current_cwd(), Some("/workspace/b".to_string()));
    assert_eq!(w.cwd_for("excel.inspect_workbook"), Ok("/workspace/b".to_string()));
}

#[test]
fn open_literal_gives_a_connection_only_when_it_looks_like_one() {
    let conn = vec![
        Some("cn.Open \"Provider=SQLOLEDB;Data Source=db\"".to_string()),
        Some("Provider=SQLOLEDB;Data Source=\"\"db\"\"".to_string()),
    ];
    assert_eq!(
        open_literal_connection(&conn),
        Some("Provider=SQLOLEDB;Data Source=\"db\"".to_string())
    );
    let sql = vec![Some("rs.Open \"SELECT 1\"".to_string()), Some("SELECT 1".to_string())];
    assert_eq!(open_literal_connection(&sql), None);
}

#[test]
fn command_text_uses_inline_text_or_the_named_variable() {
    let vars = vec![("sqltext".to_string(), "SELECT * FROM t".to_string())];
    let inline = vec![Some("x".to_string()), Some("SELECT 2".to_string()), None];
    assert_eq!(command_text_sql(&vars, &inline), "SELECT 2");
    let named = vec![Some("x".to_string()), None, Some("SqlText".to_string())];
    assert_eq!(command_text_sql(&vars, &named), "SELECT * FROM t");
    let empty = vec![Some("x".to_string()), Some(String::new()), Some("missing".to_string())];
    assert_eq!(command_text_sql(&vars, &empty), "");
}

#[test]
fn analysis_caps_procedures_outside_function_blocks() {
    let mut subs = String::new();
    for i in 0..17 {
        subs.push_str(&format!("Sub S{i}()\nEnd Sub\n"));
    }
    assert_eq!(analyze_vba_onlyoffice_migration(&subs, None).procedures.len(), 16);
    let mut mixed = String::new();
    for i in 0..20 {
        mixed.push_str(&format!("Function F{i}()\nEnd Function\n"));
    }
    mixed.push_str(&subs);
    let result = analyze_vba_onlyoffice_migration(&mixed, None);
    assert!(result.procedures.len() >= 20);
    assert!(result.procedures.iter().filter(|p| p.kind != "function").count() <= 16);
}
