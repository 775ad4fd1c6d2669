use std::io::Cursor;
use std::io::Write;

use ontocode_excel::vba_extract::{
    collect_extracted_modules, extract_vba_modules_from_workbook, ExtractVbaModulesResult,
    ExtractedVbaModule, VbaModuleEntry, VbaModuleKind, VbaModuleRecord,
};
use ontocode_excel::vba_onlyoffice_analyze::{
    AnalyzeVbaOnlyofficeMigrationResult, AnalyzeVbaOperationSummary, AnalyzeVbaProcedureSummary,
};
use ontocode_excel::vba_onlyoffice_workbook_review::{
    review_vba_onlyoffice_workbook, ReviewVbaOnlyofficeWorkbookResult,
    ReviewedVbaOnlyofficeWorkbookModule,
};
use ontocode_excel::vba_project_metadata::{
    inspect_vba_project_metadata_from_workbook, InspectVbaProjectMetadataResult,
    VbaProjectReferenceCounts,
};
use ontocode_excel::vba_project_writer::{
    build_vba_dir_stream, build_vba_dir_stream_with_modules, compress_ovba_literal_only,
};
use zip::write::SimpleFileOptions;
use zip::CompressionMethod;
use zip::ZipWriter;

fn zip_fixture_bytes(entries: &[(&str, Vec<u8>)]) -> Vec<u8> {
    let mut writer = ZipWriter::new(Cursor::new(Vec::<u8>::new()));
    let options = SimpleFileOptions::default().compression_method(CompressionMethod::Stored);
    for (name, contents) in entries {
        writer.start_file(*name, options).expect("start workbook entry");
        writer.write_all(contents).expect("write workbook entry");
    }
    writer.finish().expect("finish workbook fixture").into_inner()
}

fn build_minimal_vba_project_bin(streams: &[(String, Vec<u8>)]) -> Vec<u8> {
    let mut compound =
        cfb::CompoundFile::create(Cursor::new(Vec::<u8>::new())).expect("create compound file");
    compound.create_storage("/VBA").expect("create VBA storage");
    for (name, bytes) in streams {
        let stream_path = format!("/VBA/{name}");
        let mut stream = compound.create_stream(&stream_path).expect("create CFB stream");
        stream.write_all(bytes).expect("write CFB stream");
    }
    compound.flush().expect("flush compound file");
    compound.into_inner().into_inner()
}

const CONTENT_TYPES: &[u8] = br#"<?xml version="1.0" encoding="UTF-8" standalone="yes"?>
                <Types xmlns="http://schemas.openxmlformats.org/package/2006/content-types">
                  <Default Extension="bin" ContentType="application/vnd.ms-excel.sheet.binary.macroEnabled.main"/>
                  <Override PartName="/xl/vbaProject.bin" ContentType="application/vnd.ms-office.vbaProject"/>
                </Types>"#;

#[test]
fn extract_vba_modules_reads_module_source_end_to_end() {
    let bytes = zip_fixture_bytes(&[
        ("[Content_Types].xml", CONTENT_TYPES.to_vec()),
        (
            "xl/workbook.xml",
            br#"<workbook xmlns="http://schemas.openxmlformats.org/spreadsheetml/2006/main"/>"#
                .to_vec(),
        ),
        (
            "xl/vbaProject.bin",
            build_minimal_vba_project_bin(&[
                (
                    "dir".to_string(),
                    compress_ovba_literal_only(&build_vba_dir_stream("MyModule", 0x04E4)),
                ),
                (
                    "MyModule".to_string(),
                    compress_ovba_literal_only(
                        b"Attribute VB_Name = \"MyModule\"\r\nFunction Square(x As Double) As Double\r\n  Square = x * x\r\nEnd Function\r\n",
                    ),
                ),
            ]),
        ),
    ]);

    let result = extract_vba_modules_from_workbook(Ok(bytes), "sample.xlsm");

    assert_eq!(
        result,
        ExtractVbaModulesResult {
            mode: "read_only_extraction".to_string(),
            path: "sample.xlsm".to_string(),
            has_vba_project: true,
            code_page: Some(1252),
            module_count: 1,
            modules: vec![ExtractedVbaModule {
                name: "MyModule".to_string(),
                stream_name: "MyModule".to_string(),
                module_kind: VbaModuleKind::Procedural,
                text_offset: 0,
                read_only: false,
                private: false,
                doc_string: String::new(),
                source: "Attribute VB_Name = \"MyModule\"\r\nFunction Square(x As Double) As Double\r\n  Square = x * x\r\nEnd Function\r\n".to_string(),
                source_truncated: false,
            }],
            warnings: Vec::new(),
        }
    );
}

#[test]
fn extract_vba_modules_uses_display_path_in_open_errors() {
    let result = extract_vba_modules_from_workbook(
        Err("No such file or directory (os error 2)".to_string()),
        "workbooks/example.xlsm",
    );

    assert_eq!(result.has_vba_project, false);
    assert_eq!(result.warnings.len(), 1);
    assert!(result.warnings[0].contains("workbooks/example.xlsm"));
    assert!(!result.warnings[0].contains("/tmp/private/workbook.xlsm"));
}

#[test]
fn review_vba_onlyoffice_workbook_filters_modules_and_emits_safe_previews() {
    let bytes = zip_fixture_bytes(&[
        ("[Content_Types].xml", CONTENT_TYPES.to_vec()),
        (
            "xl/vbaProject.bin",
            build_minimal_vba_project_bin(&[
                (
                    "dir".to_string(),
                    compress_ovba_literal_only(&build_vba_dir_stream("SafeModule", 0x04E4)),
                ),
                (
                    "SafeModule".to_string(),
                    compress_ovba_literal_only(
                        b"Attribute VB_Name = \"SafeModule\"\r\nSub FillCell()\r\n  ActiveCell.Value = \"Ready\"\r\nEnd Sub\r\n",
                    ),
                ),
            ]),
        ),
    ]);

    let requested = vec!["SafeModule".to_string(), "MissingModule".to_string()];
    let result = review_vba_onlyoffice_workbook(Ok(bytes), "sample.xlsm", Some(&requested));

    assert_eq!(
        result,
        ReviewVbaOnlyofficeWorkbookResult {
            mode: "read_only_workbook_review".to_string(),
            path: "sample.xlsm".to_string(),
            has_vba_project: true,
            code_page: Some(1252),
            extracted_module_count: 1,
            reviewed_module_count: 1,
            requested_module_names: vec!["SafeModule".to_string(), "MissingModule".to_string()],
            modules: vec![ReviewedVbaOnlyofficeWorkbookModule {
                name: "SafeModule".to_string(),
                stream_name: "SafeModule".to_string(),
                module_kind: VbaModuleKind::Procedural,
                source_truncated: false,
                analysis: AnalyzeVbaOnlyofficeMigrationResult {
                    procedures: vec![AnalyzeVbaProcedureSummary {
                        name: "FillCell".to_string(),
                        kind: "sub".to_string(),
                        start_line: 2,
                        end_line: 4,
                        supported_operation_count: 1,
                        unsupported_operation_count: 0,
                        requires_manual_rewrite: false,
                    }],
                    supported_operations: vec![AnalyzeVbaOperationSummary {
                        procedure: "FillCell".to_string(),
                        line: 3,
                        operation: "SetCellValue".to_string(),
                        target: "ActiveCell.Value".to_string(),
                        value: Some("\"Ready\"".to_string()),
                        reason: None,
                    }],
                    unsupported_operations: Vec::new(),
                    requires_manual_rewrite: false,
                    warnings: Vec::new(),
                    success: true,
                },
                warnings: Vec::new(),
                macro_value: "(function()\n{\n    let worksheet = Api.GetActiveSheet();\n    let workbook = Api.GetActiveWorkbook();\n    worksheet.GetActiveCell().SetValue(\"Ready\");\n})();".to_string(),
                function_body: "    let worksheet = Api.GetActiveSheet();\n    let workbook = Api.GetActiveWorkbook();\n    worksheet.GetActiveCell().SetValue(\"Ready\");".to_string(),
            }],
            warnings: vec![
                "requested module MissingModule was not found in the workbook review set"
                    .to_string(),
            ],
            success: true,
        }
    );
}

#[test]
fn review_vba_onlyoffice_workbook_fails_closed_for_blocked_module() {
    let bytes = zip_fixture_bytes(&[
        ("[Content_Types].xml", CONTENT_TYPES.to_vec()),
        (
            "xl/vbaProject.bin",
            build_minimal_vba_project_bin(&[
                (
                    "dir".to_string(),
                    compress_ovba_literal_only(&build_vba_dir_stream("BlockedModule", 0x04E4)),
                ),
                (
                    "BlockedModule".to_string(),
                    compress_ovba_literal_only(
                        b"Attribute VB_Name = \"BlockedModule\"\r\nSub WarnUser()\r\n  MsgBox \"Hello\"\r\nEnd Sub\r\n",
                    ),
                ),
            ]),
        ),
    ]);

    let result = review_vba_onlyoffice_workbook(Ok(bytes), "blocked.xlsm", None);

    assert_eq!(result.reviewed_module_count, 1);
    assert_eq!(result.modules[0].name, "BlockedModule");
    assert_eq!(result.modules[0].macro_value, "");
    assert_eq!(result.modules[0].function_body, "");
    assert_eq!(result.modules[0].analysis.success, false);
    assert!(
        result.modules[0]
            .warnings
            .iter()
            .any(|warning| warning.contains("No supported spreadsheet operations"))
    );
    assert!(result.success);
}

#[test]
fn inspect_vba_project_metadata_summarizes_module_types() {
    let bytes = zip_fixture_bytes(&[
        ("[Content_Types].xml", CONTENT_TYPES.to_vec()),
        (
            "xl/vbaProject.bin",
            build_minimal_vba_project_bin(&[
                (
                    "dir".to_string(),
                    compress_ovba_literal_only(&build_vba_dir_stream("MyModule", 0x04E4)),
                ),
                (
                    "MyModule".to_string(),
                    compress_ovba_literal_only(
                        b"Attribute VB_Name = \"MyModule\"\r\nFunction Square(x As Double) As Double\r\n  Square = x * x\r\nEnd Function\r\n",
                    ),
                ),
            ]),
        ),
    ]);

    let result = inspect_vba_project_metadata_from_workbook(Ok(bytes), "sample.xlsm");

    assert_eq!(
        result,
        InspectVbaProjectMetadataResult {
            mode: "read_only_inspection".to_string(),
            path: "sample.xlsm".to_string(),
            has_vba_project: true,
            code_page: Some(1252),
            module_count: 1,
            procedural_module_count: 1,
            doc_cls_designer_module_count: 0,
            module_names: vec!["MyModule".to_string()],
            module_names_truncated: false,
            doc_cls_designer_module_names: Vec::new(),
            doc_cls_designer_module_names_truncated: false,
            reference_counts: VbaProjectReferenceCounts {
                control: 0,
                original: 0,
                registered: 0,
                project: 0,
            },
            warnings: Vec::new(),
        }
    );
}

#[test]
fn inspect_vba_project_metadata_reports_bounded_module_samples() {
    let module_specs = (0..34)
        .map(|index| {
            let name = format!("Module{index}");
            let module_type = if index < 18 {
                VbaModuleKind::DocClsDesigner
            } else {
                VbaModuleKind::Procedural
            };
            (name, module_type)
        })
        .collect::<Vec<_>>();
    let mut streams = vec![(
        "dir".to_string(),
        compress_ovba_literal_only(&build_vba_dir_stream_with_modules(&module_specs, 0x04E4)),
    )];
    for (name, _) in &module_specs {
        streams.push((
            name.clone(),
            compress_ovba_literal_only(format!("Attribute VB_Name = \"{name}\"\r\n").as_bytes()),
        ));
    }
    let bytes = zip_fixture_bytes(&[
        ("[Content_Types].xml", CONTENT_TYPES.to_vec()),
        ("xl/vbaProject.bin", build_minimal_vba_project_bin(&streams)),
    ]);

    let result = inspect_vba_project_metadata_from_workbook(Ok(bytes), "sample.xlsm");

    assert_eq!(result.module_count, 34);
    assert_eq!(result.procedural_module_count, 16);
    assert_eq!(result.doc_cls_designer_module_count, 18);
    assert_eq!(result.module_names.len(), 32);
    assert_eq!(result.doc_cls_designer_module_names.len(), 16);
    assert!(result.module_names_truncated);
    assert!(result.doc_cls_designer_module_names_truncated);
    assert_eq!(
        result.warnings,
        vec![
            "doc_cls_designer modules may represent document, class, or designer/forms metadata; current parser does not distinguish them further".to_string(),
            "module_names is a bounded sample capped at 32 entries".to_string(),
            "doc_cls_designer_module_names is a bounded sample capped at 16 entries".to_string(),
        ]
    );
}

#[test]
fn extracted_module_source_is_cut_at_4096_characters() {
    let mut source = String::from("Attribute VB_Name = \"Long\"\r\n");
    while source.len() < 5000 {
        source.push_str("' padding line for a long module\r\n");
    }
    let entry = |name: &str, doc: String| VbaModuleEntry {
        name: name.to_string(),
        stream_name: name.to_string(),
        module_kind: VbaModuleKind::Procedural,
        text_offset: 0,
        read_only: false,
        private: false,
        doc_string: doc,
    };
    let records = vec![
        VbaModuleRecord { entry: entry("Long", "d".repeat(600)), source: Ok(source.clone()) },
        VbaModuleRecord { entry: entry("Broken", String::new()), source: Err("stream missing".to_string()) },
    ];
    let mut warnings = Vec::new();
    let modules = collect_extracted_modules(records, 20, &mut warnings);
    assert_eq!(modules.len(), 1);
    assert!(modules[0].source_truncated);
    assert_eq!(modules[0].source.chars().count(), 4096);
    assert_eq!(modules[0].source, source[..4096].to_string());
    assert_eq!(modules[0].doc_string, "d".repeat(512));
    assert_eq!(
        warnings,
        vec![
            "VBA module list truncated to 16 of 20 entries".to_string(),
            "VBA module Long source truncated to 4096 characters".to_string(),
            "VBA module Long doc_string truncated to 512 characters".to_string(),
            "failed to read VBA module Broken: stream missing".to_string(),
        ]
    );
}
