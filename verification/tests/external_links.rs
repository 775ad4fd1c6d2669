use std::io::Cursor;
use std::io::Write;

use ontocode_excel::tool::WorkbookFormat;
use ontocode_excel::workbook_external_links::{
    inspect_workbook_external_links_from_workbook, parse_external_link_detail, parse_relationships,
    InspectWorkbookExternalLinksResult, WorkbookExternalLinkSummary,
};
use zip::write::SimpleFileOptions;
use zip::CompressionMethod;
use zip::ZipWriter;

fn zip_fixture(entries: &[(&str, &str)]) -> Vec<u8> {
    let mut writer = ZipWriter::new(Cursor::new(Vec::<u8>::new()));
    let options = SimpleFileOptions::default().compression_method(CompressionMethod::Stored);
    for (name, contents) in entries {
        writer.start_file(*name, options).expect("start workbook entry");
        writer.write_all(contents.as_bytes()).expect("write workbook entry");
    }
    writer.finish().expect("finish workbook").into_inner()
}

fn external_links_fixture() -> Vec<u8> {
    zip_fixture(&[
        (
            "[Content_Types].xml",
            r#"<?xml version="1.0" encoding="UTF-8" standalone="yes"?>
                <Types xmlns="http://schemas.openxmlformats.org/package/2006/content-types">
                  <Default Extension="rels" ContentType="application/vnd.openxmlformats-package.relationships+xml"/>
                  <Default Extension="xml" ContentType="application/xml"/>
                  <Override PartName="/xl/workbook.xml" ContentType="application/vnd.openxmlformats-officedocument.spreadsheetml.sheet.main+xml"/>
                  <Override PartName="/xl/worksheets/sheet1.xml" ContentType="application/vnd.openxmlformats-officedocument.spreadsheetml.worksheet+xml"/>
                  <Override PartName="/xl/externalLinks/externalLink1.xml" ContentType="application/vnd.openxmlformats-officedocument.spreadsheetml.externalLink+xml"/>
                  <Override PartName="/xl/externalLinks/externalLink2.xml" ContentType="application/vnd.openxmlformats-officedocument.spreadsheetml.externalLink+xml"/>
                </Types>"#,
        ),
        (
            "xl/workbook.xml",
            r#"<?xml version="1.0" encoding="UTF-8" standalone="yes"?>
                <workbook xmlns="http://schemas.openxmlformats.org/spreadsheetml/2006/main"
                          xmlns:r="http://schemas.openxmlformats.org/officeDocument/2006/relationships">
                  <sheets>
                    <sheet name="Summary" sheetId="1" r:id="rId1"/>
                  </sheets>
                </workbook>"#,
        ),
        (
            "xl/_rels/workbook.xml.rels",
            r#"<?xml version="1.0" encoding="UTF-8" standalone="yes"?>
                <Relationships xmlns="http://schemas.openxmlformats.org/package/2006/relationships">
                  <Relationship Id="rId1" Type="http://schemas.openxmlformats.org/officeDocument/2006/relationships/worksheet" Target="worksheets/sheet1.xml"/>
                  <Relationship Id="rId2" Type="http://schemas.openxmlformats.org/officeDocument/2006/relationships/externalLink" Target="externalLinks/externalLink1.xml"/>
                </Relationships>"#,
        ),
        ("xl/worksheets/sheet1.xml", r#"<worksheet/>"#),
        (
            "xl/externalLinks/externalLink1.xml",
            r#"<?xml version="1.0" encoding="UTF-8" standalone="yes"?>
                <externalLink xmlns="http://schemas.openxmlformats.org/spreadsheetml/2006/main"
                              xmlns:r="http://schemas.openxmlformats.org/officeDocument/2006/relationships">
                  <externalBook r:id="rId1"/>
                </externalLink>"#,
        ),
        (
            "xl/externalLinks/_rels/externalLink1.xml.rels",
            r#"<?xml version="1.0" encoding="UTF-8" standalone="yes"?>
                <Relationships xmlns="http://schemas.openxmlformats.org/package/2006/relationships">
                  <Relationship Id="rId1" Type="http://schemas.openxmlformats.org/officeDocument/2006/relationships/externalBook" Target="file:///tmp/source.xlsx" TargetMode="External"/>
                </Relationships>"#,
        ),
        (
            "xl/externalLinks/externalLink2.xml",
            r#"<?xml version="1.0" encoding="UTF-8" standalone="yes"?>
                <externalLink xmlns="http://schemas.openxmlformats.org/spreadsheetml/2006/main">
                  <ddeLink/>
                </externalLink>"#,
        ),
    ])
}

#[test]
fn inspect_workbook_external_links_reports_bounded_inventory_and_warnings() {
    let result = inspect_workbook_external_links_from_workbook(
        WorkbookFormat::Xlsx,
        Ok(external_links_fixture()),
        "/tmp/external-links.xlsx",
        "external-links.xlsx",
    )
    .expect("external link inventory should succeed");

    assert_eq!(
        result,
        InspectWorkbookExternalLinksResult {
            mode: "read_only_inspection".to_string(),
            path: "external-links.xlsx".to_string(),
            external_link_count: 2,
            external_links: vec![
                WorkbookExternalLinkSummary {
                    part_path: "xl/externalLinks/externalLink1.xml".to_string(),
                    workbook_relationship_id: Some("rId2".to_string()),
                    workbook_relationship_target: Some(
                        "xl/externalLinks/externalLink1.xml".to_string()
                    ),
                    detail_kind: "external_book".to_string(),
                    detail_relationship_id: Some("rId1".to_string()),
                    detail_relationship_target: Some("file:///tmp/source.xlsx".to_string()),
                },
                WorkbookExternalLinkSummary {
                    part_path: "xl/externalLinks/externalLink2.xml".to_string(),
                    workbook_relationship_id: None,
                    workbook_relationship_target: None,
                    detail_kind: "dde_link".to_string(),
                    detail_relationship_id: None,
                    detail_relationship_target: None,
                },
            ],
            inventory_truncated: false,
            warnings: vec![
                "external-link part `xl/externalLinks/externalLink2.xml` has no matching workbook relationship entry"
                    .to_string(),
                "external-link part `xl/externalLinks/externalLink2.xml` uses unsupported detail kind `dde_link`; only bounded metadata is reported"
                    .to_string(),
            ],
        }
    );
}

#[test]
fn inspect_workbook_external_links_rejects_xlsb_stage_gap() {
    let err = inspect_workbook_external_links_from_workbook(
        WorkbookFormat::Xlsb,
        Ok(Vec::new()),
        "/tmp/sample.xlsb",
        "sample.xlsb",
    )
    .expect_err("xlsb external links should stay unsupported");
    assert_eq!(
        err,
        "excel.inspect_workbook_external_links supports only .xlsx and .xlsm in this stage; .xlsb external-link inventory remains unsupported"
            .to_string()
    );
}

#[test]
fn external_link_inventory_fails_closed_on_unreadable_input() {
    let err = inspect_workbook_external_links_from_workbook(
        WorkbookFormat::Xlsx,
        Ok(b"not a zip".to_vec()),
        "/tmp/broken.xlsx",
        "broken.xlsx",
    )
    .expect_err("not an archive");
    assert!(err.starts_with("failed to read workbook archive /tmp/broken.xlsx: "), "{err}");
    let err = inspect_workbook_external_links_from_workbook(
        WorkbookFormat::Xlsm,
        Err("failed to open workbook /tmp/missing.xlsm: not found".to_string()),
        "/tmp/missing.xlsm",
        "missing.xlsm",
    )
    .expect_err("unreadable file");
    assert_eq!(err, "failed to open workbook /tmp/missing.xlsm: not found");
    let no_rels = zip_fixture(&[("xl/workbook.xml", "<workbook/>")]);
    let err = inspect_workbook_external_links_from_workbook(WorkbookFormat::Xlsx, Ok(no_rels), "/tmp/a.xlsx", "a.xlsx")
        .expect_err("workbook relationships are required");
    assert_eq!(err, "workbook entry xl/_rels/workbook.xml.rels is missing");
}

#[test]
fn external_link_parts_are_sorted_and_nested_targets_resolved() {
    let bytes = zip_fixture(&[
        (
            "xl/_rels/workbook.xml.rels",
            r#"<Relationships><Relationship Id="rA" Type="x/externalLink" Target="externalLinks/b.xml"/></Relationships>"#,
        ),
        ("xl/externalLinks/b.xml", r#"<externalLink><oleLink/></externalLink>"#),
        (
            "xl/externalLinks/a.xml",
            r#"<externalLink><externalBook id="r9"/></externalLink>"#,
        ),
        (
            "xl/externalLinks/_rels/a.xml.rels",
            r#"<Relationships><Relationship Id="r9" Target="../books/src.xlsx"/></Relationships>"#,
        ),
        ("xl/externalLinks/readme.txt", "ignored"),
    ]);
    let result = inspect_workbook_external_links_from_workbook(WorkbookFormat::Xlsx, Ok(bytes), "/tmp/l.xlsx", "l.xlsx")
        .expect("inventory");
    let parts: Vec<&str> = result.external_links.iter().map(|l| l.part_path.as_str()).collect();
    assert_eq!(parts, vec!["xl/externalLinks/a.xml", "xl/externalLinks/b.xml"]);
    assert_eq!(result.external_links[0].detail_kind, "external_book");
    assert_eq!(result.external_links[0].detail_relationship_id, Some("r9".to_string()));
    assert_eq!(
        result.external_links[0].detail_relationship_target,
        Some("xl/books/src.xlsx".to_string())
    );
    assert_eq!(result.external_links[1].detail_kind, "ole_link");
    assert_eq!(result.external_links[1].workbook_relationship_id, Some("rA".to_string()));
    assert_eq!(
        result.warnings,
        vec![
            "external-link part `xl/externalLinks/a.xml` has no matching workbook relationship entry".to_string(),
            "external-link part `xl/externalLinks/b.xml` uses unsupported detail kind `ole_link`; only bounded metadata is reported".to_string(),
        ]
    );
}

#[test]
fn relationship_and_detail_parsing() {
    let rels = parse_relationships(
        r#"<Relationships><Relationship Id="a" Target="t&amp;u.xml" TargetMode="External" Type="k"/><Other/></Relationships>"#,
    )
    .expect("relationships");
    assert_eq!(rels.len(), 1);
    assert_eq!(rels[0].id, "a");
    assert_eq!(rels[0].target, "t&u.xml");
    assert_eq!(rels[0].target_mode, Some("External".to_string()));
    assert_eq!(rels[0].relationship_type, "k");
    let err = parse_relationships("<Relationships><Relationship Id=\"a\"></Oops>").expect_err("malformed");
    assert!(err.starts_with("failed to parse workbook relationships: "), "{err}");
    let detail = parse_external_link_detail("<externalLink/>", "p.xml").expect("detail");
    assert_eq!(detail.kind, "unknown");
    assert_eq!(detail.relationship_id, None);
}

#[test]
fn external_link_inventory_caps_parts_and_warnings() {
    let mut names = Vec::new();
    for n in 1..=65 {
        names.push(format!("xl/externalLinks/externalLink{n:02}.xml"));
    }
    let mut entries: Vec<(&str, &str)> = vec![("xl/_rels/workbook.xml.rels", "<Relationships/>")];
    for name in &names {
        entries.push((name.as_str(), "<externalLink/>"));
    }
    let result = inspect_workbook_external_links_from_workbook(
        WorkbookFormat::Xlsx,
        Ok(zip_fixture(&entries)),
        "/tmp/many.xlsx",
        "many.xlsx",
    )
    .expect("inventory");
    assert_eq!(result.external_link_count, 65);
    assert!(result.inventory_truncated);
    assert_eq!(result.external_links.len(), 64);
    assert_eq!(result.external_links[0].part_path, "xl/externalLinks/externalLink01.xml");
    assert_eq!(result.external_links[63].part_path, "xl/externalLinks/externalLink64.xml");
    assert_eq!(result.external_links[0].detail_kind, "unknown");
    assert_eq!(result.warnings.len(), 32);
    assert_eq!(
        result.warnings[0],
        "external-link inventory truncated to 64 of 65 parts".to_string()
    );
    let mut sorted = result.warnings.clone();
    sorted.sort();
    sorted.dedup();
    assert_eq!(sorted.len(), 32);
}
