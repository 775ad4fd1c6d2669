use ontocode_excel::model_path::{finish_scoped_path, PrefixState};
use ontocode_excel::tool::{csv_output_path_from_model_arg, workbook_path_from_model_arg};
use ontocode_excel::vba_extract::resolve_workbook_path_from_model_arg;
use ontocode_excel::workbook_graph::{local_relative_path_from_model_arg, workbook_path_from_graph_arg};

fn error_of(r: Result<ontocode_excel::model_path::ScopedPath, String>) -> String {
    match r {
        Ok(p) => panic!("expected a refusal, got {p:?}"),
        Err(e) => e,
    }
}

#[test]
fn workbook_path_from_model_arg_rejects_unscoped_paths() {
    assert_eq!(
        error_of(workbook_path_from_model_arg("/tmp/book.xlsx", "/workspace")),
        "excel.inspect_workbook path must be relative and stay within the current working directory"
    );
    assert_eq!(
        error_of(workbook_path_from_model_arg("../book.xlsx", "/workspace")),
        "excel.inspect_workbook path must be relative and stay within the current working directory"
    );
    assert_eq!(
        error_of(workbook_path_from_model_arg("https://example.test/book.xlsx", "/workspace")),
        "excel.inspect_workbook path must be a local workbook path"
    );
    assert_eq!(
        error_of(workbook_path_from_model_arg("book.csv", "/workspace")),
        "excel.inspect_workbook path must end in .xlsx, .xlsm, or .xlsb"
    );
    let scoped = workbook_path_from_model_arg("data/book.xlsx", "/workspace")
        .expect("relative workbook path");
    let states = vec![PrefixState::Missing; scoped.prefixes.len()];
    assert_eq!(
        finish_scoped_path("excel.inspect_workbook path", scoped, &states)
            .expect("relative workbook path"),
        "/workspace/data/book.xlsx".to_string()
    );
}

#[test]
fn model_paths_list_each_prefix_and_refuse_symlinks() {
    let scoped = workbook_path_from_model_arg("  data/./sub/Book.XLSM ", "/workspace/")
        .expect("accepted");
    assert_eq!(scoped.resolved, "/workspace/data/./sub/Book.XLSM");
    assert_eq!(
        scoped.prefixes,
        vec![
            "/workspace/data".to_string(),
            "/workspace/data/sub".to_string(),
            "/workspace/data/sub/Book.XLSM".to_string(),
        ]
    );
    let states = vec![PrefixState::Present, PrefixState::Symlink, PrefixState::Present];
    assert_eq!(
        finish_scoped_path("excel.inspect_workbook path", scoped.clone(), &states),
        Err("excel.inspect_workbook path must not traverse symlinks".to_string())
    );
    let states = vec![PrefixState::Missing, PrefixState::Symlink, PrefixState::Present];
    assert_eq!(
        finish_scoped_path("excel.inspect_workbook path", scoped, &states),
        Ok("/workspace/data/./sub/Book.XLSM".to_string())
    );
}

#[test]
fn model_path_refusals_name_the_tool() {
    assert_eq!(
        error_of(resolve_workbook_path_from_model_arg("excel.extract_vba_modules", "   ", "/w")),
        "excel.extract_vba_modules path must not be empty"
    );
    assert_eq!(
        error_of(resolve_workbook_path_from_model_arg("excel.extract_vba_modules", ".xlsx", "/w")),
        "excel.extract_vba_modules path must end in .xlsx, .xlsm, or .xlsb"
    );
    assert_eq!(
        error_of(csv_output_path_from_model_arg("out/a\0.csv", "/w")),
        "excel.export_sheet_to_csv output_csv_path must be a local csv path"
    );
    assert_eq!(
        error_of(csv_output_path_from_model_arg("out/a.txt", "/w")),
        "excel.export_sheet_to_csv output_csv_path must end in .csv"
    );
    assert_eq!(
        csv_output_path_from_model_arg("out/a.CSV", "/w").expect("csv").resolved,
        "/w/out/a.CSV"
    );
    assert_eq!(
        error_of(workbook_path_from_graph_arg("a/../b.xlsx", "/w")),
        "excel.inspect_workbook_graph path must be relative and stay within the current working directory"
    );
    assert_eq!(
        error_of(workbook_path_from_graph_arg("b.ods", "/w")),
        "excel.inspect_workbook_graph path must end in .xlsx, .xlsm, .xlsb"
    );
    let exts = vec!["json".to_string(), "md".to_string()];
    assert_eq!(
        error_of(local_relative_path_from_model_arg("notes", "/w", "bundle path", &exts)),
        "bundle path must end in .json, .md"
    );
    assert_eq!(
        local_relative_path_from_model_arg("notes.md", "", "bundle path", &exts)
            .expect("md")
            .resolved,
        "notes.md"
    );
}
