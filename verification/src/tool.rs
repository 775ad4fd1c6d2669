//! Sheet selection and the default file name of a sheet's CSV export.
use vstd::prelude::*;
use crate::text::{chars_of, push_char, owned, append_str, decimal, decimal_string, is_ascii_alnum, lower_char};
use crate::model_path::{scoped_outcome, scoped_path_from_model_arg, scoped_view, workbook_extensions, ScopedPath};

verus! {

/// A worksheet chosen by name or by zero-based position.
#[derive(Debug, Clone, PartialEq, Eq)]
pub enum SheetSelector {
    Name { name: String },
    Index { index: usize },
}

/// One character of a sheet name in a file name: ASCII letters and digits
/// lower-cased, everything else a dash.
pub open spec fn sheet_char(c: char) -> char {
    if is_ascii_alnum(c) {
        lower_char(c)
    } else {
        '-'
    }
}

pub open spec fn trim_dashes_start(s: Seq<char>) -> Seq<char>
    decreases s.len(),
{
    if s.len() > 0 && s[0] == '-' {
        trim_dashes_start(s.drop_first())
    } else {
        s
    }
}

pub open spec fn trim_dashes_end(s: Seq<char>) -> Seq<char>
    decreases s.len(),
{
    if s.len() > 0 && s.last() == '-' {
        trim_dashes_end(s.drop_last())
    } else {
        s
    }
}

/// A sheet name made safe for a file name: mapped character by character,
/// without leading or trailing dashes, `sheet` when nothing is left.
pub open spec fn sanitize_sheet_name_spec(name: Seq<char>) -> Seq<char> {
    let t = trim_dashes_end(trim_dashes_start(name.map_values(|c: char| sheet_char(c))));
    if t.len() == 0 {
        "sheet"@
    } else {
        t
    }
}

pub fn sanitize_sheet_name(name: &str) -> (r: String)
    ensures
        r@ == sanitize_sheet_name_spec(name@),
{
    let v = chars_of(name);
    let ghost mapped = name@.map_values(|c: char| sheet_char(c));
    let mut m: Vec<char> = Vec::new();
    let mut i: usize = 0;
    while i < v.len()
        invariant
            v@ == name@,
            mapped == name@.map_values(|c: char| sheet_char(c)),
            i <= v@.len(),
            m@ == mapped.take(i as int),
        decreases v@.len() - i,
    {
        let c = v[i];
        let d = if ('0' <= c && c <= '9') || ('a' <= c && c <= 'z') {
            c
        } else if 'A' <= c && c <= 'Z' {
            crate::text::lower(c)
        } else {
            '-'
        };
        m.push(d);
        assert(mapped.take(i + 1) =~= mapped.take(i as int).push(sheet_char(v@[i as int])));
        i += 1;
    }
    assert(mapped.take(v@.len() as int) =~= mapped);
    let mut lo: usize = 0;
    assert(m@.skip(0) =~= m@);
    while lo < m.len() && m[lo] == '-'
        invariant
            m@ == mapped,
            lo <= m@.len(),
            trim_dashes_start(mapped) == trim_dashes_start(mapped.skip(lo as int)),
        decreases m@.len() - lo,
    {
        assert(mapped.skip(lo as int).drop_first() =~= mapped.skip(lo + 1));
        lo += 1;
    }
    let mut hi: usize = m.len();
    assert(mapped.skip(lo as int) =~= mapped.subrange(lo as int, hi as int));
    while hi > lo && m[hi - 1] == '-'
        invariant
            m@ == mapped,
            lo <= hi <= m@.len(),
            trim_dashes_start(mapped) == mapped.skip(lo as int),
            trim_dashes_end(mapped.skip(lo as int)) == trim_dashes_end(mapped.subrange(lo as int, hi as int)),
        decreases hi,
    {
        assert(mapped.subrange(lo as int, hi as int).drop_last() =~= mapped.subrange(lo as int, hi - 1));
        hi -= 1;
    }
    if hi == lo {
        return owned("sheet");
    }
    crate::text::string_of_range(&m, lo, hi)
}

/// What `Path::file_stem` gives for a path: its file name without the last
/// extension, when the path has a file name.
pub uninterp spec fn file_stem_of(path: Seq<char>) -> Option<Seq<char>>;

/// What `PathBuf::set_file_name` makes of `path` with the file name `name`.
pub uninterp spec fn with_file_name_of(path: Seq<char>, name: Seq<char>) -> Seq<char>;

/// Calls `std::path::Path::file_stem` and `OsStr::to_str`; the result is the
/// named stem of the path.
#[verifier::external_body]
fn path_file_stem(path: &str) -> (r: Option<String>)
    ensures
        match r {
            Some(s) => file_stem_of(path@) == Some(s@),
            None => file_stem_of(path@) is None,
        },
{
    std::path::Path::new(path).file_stem().and_then(|stem| stem.to_str()).map(|stem| stem.to_string())
}

/// Calls `std::path::PathBuf::set_file_name` and displays the result; the
/// result is the named path.
#[verifier::external_body]
fn path_with_file_name(path: &str, name: &str) -> (r: String)
    ensures
        r@ == with_file_name_of(path@, name@),
{
    let mut output = std::path::PathBuf::from(path);
    output.set_file_name(name);
    output.display().to_string()
}

pub open spec fn selector_fits(sheet: SheetSelector) -> bool {
    match sheet {
        SheetSelector::Index { index } => index < usize::MAX,
        SheetSelector::Name { .. } => true,
    }
}

/// The part of the CSV file name that names the sheet.
pub open spec fn sheet_suffix_spec(sheet: SheetSelector) -> Seq<char> {
    match sheet {
        SheetSelector::Name { name } => sanitize_sheet_name_spec(name@),
        SheetSelector::Index { index } => "sheet-"@ + decimal((index + 1) as nat),
    }
}

/// The CSV file name for a sheet of a workbook: `<stem>-<sheet>.csv`.
pub open spec fn csv_file_name_spec(workbook_path: Seq<char>, sheet: SheetSelector) -> Seq<char> {
    let stem = match file_stem_of(workbook_path) {
        Some(s) if s.len() > 0 => s,
        _ => "sheet"@,
    };
    stem + "-"@ + sheet_suffix_spec(sheet) + ".csv"@
}

pub fn default_output_csv_display_path(workbook_path: &str, sheet: &SheetSelector) -> (r: String)
    requires
        selector_fits(*sheet),
    ensures
        r@ == with_file_name_of(workbook_path@, csv_file_name_spec(workbook_path@, *sheet)),
{
    let mut name = match path_file_stem(workbook_path) {
        Some(stem) => if stem.unicode_len() > 0 {
            stem
        } else {
            owned("sheet")
        },
        None => owned("sheet"),
    };
    append_str(&mut name, "-");
    match sheet {
        SheetSelector::Name { name: sheet_name } => {
            let s = sanitize_sheet_name(sheet_name.as_str());
            append_str(&mut name, s.as_str());
        },
        SheetSelector::Index { index } => {
            append_str(&mut name, "sheet-");
            let digits = decimal_string(*index + 1);
            append_str(&mut name, digits.as_str());
        },
    }
    append_str(&mut name, ".csv");
    assert(name@ =~= csv_file_name_spec(workbook_path@, *sheet));
    path_with_file_name(workbook_path, name.as_str())
}


#[derive(Debug, Clone, Copy, PartialEq, Eq, Structural)]
pub enum WorkbookFormat {
    Xlsx,
    Xlsm,
    Xlsb,
    Unknown,
}

#[derive(Debug, Clone, Copy, PartialEq, Eq, Structural)]
pub enum SheetVisibility {
    Visible,
    Hidden,
    VeryHidden,
    Unknown,
}

#[derive(Debug, Clone, Copy, PartialEq, Eq, Structural)]
pub enum SheetKind {
    Worksheet,
    Chartsheet,
    DialogSheet,
    MacroSheet,
    Unknown,
}

/// One sheet entry of a workbook.
#[derive(Debug, Clone, PartialEq, Eq)]
pub struct SheetSummary {
    pub name: Option<String>,
    pub sheet_id: Option<u32>,
    pub relationship_id: Option<String>,
    pub part_path: Option<String>,
    pub visibility: SheetVisibility,
    pub kind: SheetKind,
}

#[derive(Debug, Clone, PartialEq, Eq)]
pub struct MarkerSummary {
    pub category: String,
    pub count: usize,
    pub part_paths_sample: Vec<String>,
}

/// Which kinds of content a workbook package holds.
#[derive(Debug, Clone, PartialEq, Eq)]
pub struct WorkbookMarkers {
    pub has_vba_project: bool,
    pub has_macro_enabled_package: bool,
    pub has_power_query: bool,
    pub has_connections: bool,
    pub has_custom_xml: bool,
    pub has_external_links: bool,
    pub has_tables: bool,
    pub has_comments: bool,
    pub has_drawings: bool,
    pub has_embedded_objects: bool,
    pub has_charts: bool,
    pub has_pivot_tables: bool,
    pub has_formulas: bool,
    pub has_xlsb_package: bool,
}

/// The structure of a workbook package.
#[derive(Debug, Clone, PartialEq, Eq)]
pub struct InspectWorkbookResult {
    pub path: String,
    pub format: WorkbookFormat,
    pub package_part_count: usize,
    pub package_parts_sample: Vec<String>,
    pub sheets: Vec<SheetSummary>,
    pub markers: WorkbookMarkers,
    pub marker_summaries: Vec<MarkerSummary>,
    pub warnings: Vec<String>,
}

/// The sheet that a preview or inventory was taken from.
#[derive(Debug, Clone, PartialEq, Eq)]
pub struct SheetPreview {
    pub name: String,
    pub sheet_id: Option<u32>,
    pub part_path: String,
}

#[derive(Debug, Clone, Copy, PartialEq, Eq, Structural)]
pub enum FormulaSqlPreviewState {
    ReviewOnly,
    Blocked,
}

#[derive(Debug, Clone, Copy, PartialEq, Eq, Structural)]
pub enum FormulaSqlReferenceKind {
    Cell,
    Range,
    DefinedName,
}

#[derive(Debug, Clone, PartialEq, Eq)]
pub struct FormulaSqlReferenceSummary {
    pub kind: FormulaSqlReferenceKind,
    pub reference: String,
    pub sheet_name: Option<String>,
    pub same_row: Option<bool>,
    pub sql_identifier: Option<String>,
}

#[derive(Debug, Clone, PartialEq, Eq)]
pub struct FormulaSqlPreviewSummary {
    pub state: FormulaSqlPreviewState,
    pub sql_expression: Option<String>,
    pub references: Vec<FormulaSqlReferenceSummary>,
    pub blocker_reasons: Vec<String>,
    pub cached_value_present: bool,
}

/// One formula cell of a sheet's formula inventory.
#[derive(Debug, PartialEq, Eq)]
pub struct SheetFormulaSummary {
    pub reference: String,
    pub formula: String,
    pub cached_value: Option<String>,
    pub parse: crate::formula_ast::FormulaAstSummary,
    pub sql_preview: FormulaSqlPreviewSummary,
    pub warnings: Vec<String>,
    pub formula_type: Option<String>,
    pub shared_index: Option<u32>,
    pub shared_range: Option<String>,
    pub style_index: Option<u32>,
    pub number_format_id: Option<u32>,
    pub number_format_code: Option<String>,
}

/// A workbook defined name.
#[derive(Debug, Clone, PartialEq, Eq)]
pub struct DefinedNameSummary {
    pub name: String,
    pub sheet_scope: Option<String>,
    pub local_sheet_id: Option<u32>,
    pub hidden: Option<bool>,
    pub target: String,
    pub truncated: bool,
}

/// The formula inventory of one sheet.
#[derive(Debug, PartialEq, Eq)]
pub struct InspectSheetFormulasResult {
    pub path: String,
    pub sheet: SheetPreview,
    pub max_formulas_applied: usize,
    pub formulas: Vec<SheetFormulaSummary>,
    pub calculation_mode: Option<String>,
    pub full_calc_on_load: Option<bool>,
    pub force_full_calc: Option<bool>,
    pub defined_names: Vec<DefinedNameSummary>,
    pub defined_names_sample: Vec<String>,
    pub has_external_links: bool,
    pub truncated: bool,
    pub warnings: Vec<String>,
}

/// Checks the workbook path that a model gave `excel.inspect_workbook`,
/// before the file system is looked at.
pub fn workbook_path_from_model_arg(path: &str, cwd: &str) -> (r: Result<ScopedPath, String>)
    ensures
        scoped_view(r) == scoped_outcome(
            "excel.inspect_workbook path"@,
            "workbook path"@,
            ".xlsx, .xlsm, or .xlsb"@,
            path@,
            cwd@,
            seq!["xlsx"@, "xlsm"@, "xlsb"@],
        ),
{
    let extensions = workbook_extensions();
    scoped_path_from_model_arg(
        "excel.inspect_workbook path",
        "workbook path",
        ".xlsx, .xlsm, or .xlsb",
        path,
        cwd,
        &extensions,
    )
}

/// Checks the CSV output path that a model gave `excel.export_sheet_to_csv`,
/// before the file system is looked at.
pub fn csv_output_path_from_model_arg(path: &str, cwd: &str) -> (r: Result<ScopedPath, String>)
    ensures
        scoped_view(r) == scoped_outcome(
            "excel.export_sheet_to_csv output_csv_path"@,
            "csv path"@,
            ".csv"@,
            path@,
            cwd@,
            seq!["csv"@],
        ),
{
    let extensions = vec![owned("csv")];
    assert(extensions.deep_view() =~= seq!["csv"@]);
    scoped_path_from_model_arg(
        "excel.export_sheet_to_csv output_csv_path",
        "csv path",
        ".csv",
        path,
        cwd,
        &extensions,
    )
}

/// The working directory of the current turn, as the tools see it: unset
/// until the turn sets it.
pub struct TurnWorkspace {
    current_cwd: Option<String>,
}

impl TurnWorkspace {
    /// The directory that was set last, if any.
    pub closed spec fn cwd(&self) -> Option<Seq<char>> {
        match self.current_cwd {
            Some(c) => Some(c@),
            None => None,
        }
    }

    pub fn new() -> (r: TurnWorkspace)
        ensures
            r.cwd() is None,
    {
        TurnWorkspace { current_cwd: None }
    }

    /// Sets the turn's working directory, replacing any earlier one.
    pub fn set_current_cwd(&mut self, cwd: String)
        ensures
            final(self).cwd() == Some(cwd@),
    {
        self.current_cwd = Some(cwd);
    }

    /// The turn's working directory, if one was set.
    pub fn current_cwd(&self) -> (r: Option<String>)
        ensures
            match r {
                Some(c) => self.cwd() == Some(c@),
                None => self.cwd() is None,
            },
    {
        match &self.current_cwd {
            Some(c) => Some(owned(c.as_str())),
            None => None,
        }
    }

    /// The working directory that the tool `tool_name` works in, or the
    /// message that the turn has none.
    pub fn cwd_for(&self, tool_name: &str) -> (r: Result<String, String>)
        ensures
            match self.cwd() {
                Some(c) => r matches Ok(p) && p@ == c,
                None => r matches Err(e) && e@ == tool_name@ + " workspace context is unavailable for this turn"@,
            },
    {
        match &self.current_cwd {
            Some(c) => Ok(owned(c.as_str())),
            None => {
                let mut m = owned(tool_name);
                append_str(&mut m, " workspace context is unavailable for this turn");
                Err(m)
            },
        }
    }
}


} // verus!
