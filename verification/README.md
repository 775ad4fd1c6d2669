# ontocode_excel

Offline, read-only inspection of Excel workbooks and their VBA, verified with Verus.

`src/` is the verified library:

- `vba_onlyoffice_analyze`, `vba_onlyoffice_translate`, `vba_onlyoffice_workbook_review`:
  analysis of VBA source for an ONLYOFFICE migration and fail-closed JavaScript macro previews.
- `vba_translate`: heuristic Power Query M previews of VBA data-access code.
- `vba_extract`, `vba_project_metadata`, `vba_project_writer`: module extraction and
  project metadata from `vbaProject.bin` (read with `ovba`), and the writer used to build
  project fixtures; `vba_container` and `vba_dir` check a project's compressed containers
  and `dir` stream before the parser is given them.
- `workbook_graph`, `workbook_connections`, `workbook_defined_names`,
  `workbook_external_links`: workbook structure, dependency graph and inventories.
- `model_path`: the checks on paths that a model hands to a tool.
- `text`, `pattern`, `json_text`, `sorted_text`: text helpers with their specifications.

Each module states its results as spec functions; the `law_*` proof functions state what
holds across inputs (bounded outputs, fail-closed previews, procedures in source order with
their operations inside them, a graph that only grows, whose edges never repeat and always
join two of its nodes, and model paths that stay in the working directory where joining a
relative path keeps the working directory's text in front, which is assumed of `Path::join`
rather than proved).

`app/` holds the JSON tool handlers around the library: argument parsing, the turn's
working directory, file reads and symbolic-link checks, and serializable result types.
