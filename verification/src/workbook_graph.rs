//! A bounded, partial graph of a workbook: its worksheets, the formulas of
//! one selected sheet, and the dependency edges that the parsed formulas,
//! defined names, tables and Power Query references prove.
//!
//! Node identifiers are unique within a graph, and so is the triple of kind,
//! source and target of an edge; an edge that is emitted a second time is
//! dropped together with its evidence.
use vstd::prelude::*;
use crate::text::{
    decimal, decimal_string, lower_seq, lower_string, owned, append_str, eq_ignore_ascii_case,
    same_text, trim, trim_seq, chars_of, string_of_range,
};
use crate::tool::{
    DefinedNameSummary, InspectSheetFormulasResult, InspectWorkbookResult, SheetFormulaSummary, SheetKind,
    SheetPreview, SheetSummary,
};
use crate::workbook_tables::WorkbookTableParse;
use crate::powerquery_extract::PowerQueryExtraction;
use crate::formula_ast::FormulaAstParseState;
use crate::sorted_text::{insert_sorted, strictly_sorted};
use crate::workbook_tables::ParsedWorkbookTable;
use crate::powerquery_extract::{ExtractedPowerQueryQuery, PowerQueryLexicalReference, PowerQueryLexicalReferenceKind};
use crate::formula_ast::FormulaAstNode;
use crate::model_path::{scoped_outcome, scoped_path_from_model_arg, scoped_view, workbook_extensions, ScopedPath};
use crate::vba_onlyoffice_translate::{join_lines, join_seq};

verus! {

#[derive(Debug, Clone, Copy, PartialEq, Eq, Structural)]
pub enum WorkbookGraphMode {
    PackageStructurePlusPerSheetFormulaMembership,
}

#[derive(Debug, Clone, Copy, PartialEq, Eq, Structural)]
pub enum WorkbookGraphFormulaInventoryScope {
    SelectedSheetOnly,
}

#[derive(Debug, Clone, Copy, PartialEq, Eq, Structural)]
pub enum WorkbookGraphNodeKind {
    Workbook,
    Worksheet,
    CellFormula,
    PowerQueryQuery,
    DefinedName,
    DefinedNameFormulaText,
    Table,
    ReferencedCell,
    ReferencedRange,
}

#[derive(Debug, Clone, Copy, PartialEq, Eq, Structural)]
pub enum WorkbookGraphEdgeKind {
    WorkbookContainsWorksheet,
    WorksheetContainsFormula,
    PowerQueryReferencesQuery,
    PowerQueryReferencesDefinedName,
    PowerQueryReferencesTable,
    FormulaReferencesDefinedName,
    FormulaReferencesTable,
    FormulaReferencesWorksheet,
    FormulaReferencesCell,
    FormulaReferencesRange,
    DefinedNameTargetsCell,
    DefinedNameTargetsRange,
    DefinedNameTargetsFormulaText,
    TableHasRange,
}

#[derive(Debug, Clone, Copy, PartialEq, Eq, Structural)]
pub enum WorkbookGraphEvidenceKind {
    WorkbookSheetEntry,
    WorkbookRelationship,
    WorksheetFormulaCell,
    PowerQueryLexicalQueryReference,
    PowerQueryLexicalWorkbookNameReference,
    FormulaAstDefinedNameReference,
    FormulaAstStructuredReference,
    FormulaAstWorksheetReference,
    FormulaAstCellReference,
    FormulaAstRangeReference,
    WorkbookDefinedNameTarget,
    WorksheetTableRelationship,
    TableXmlRange,
}

/// A node of the graph.
#[derive(Debug, Clone, PartialEq, Eq)]
pub struct WorkbookGraphNode {
    pub id: String,
    pub kind: WorkbookGraphNodeKind,
    pub label: String,
    pub sheet_name: Option<String>,
    pub part_path: Option<String>,
    pub cell_reference: Option<String>,
    pub formula: Option<String>,
    pub cached_value: Option<String>,
}

/// Where in the package an edge was found.
#[derive(Debug, Clone, PartialEq, Eq)]
pub struct WorkbookGraphEvidence {
    pub kind: WorkbookGraphEvidenceKind,
    pub part_path: String,
    pub cell_reference: Option<String>,
    pub detail: String,
}

/// A directed edge of the graph.
#[derive(Debug, Clone, PartialEq, Eq)]
pub struct WorkbookGraphEdge {
    pub kind: WorkbookGraphEdgeKind,
    pub from: String,
    pub to: String,
    pub evidence: Vec<WorkbookGraphEvidence>,
}

pub open spec fn ov(o: Option<String>) -> Option<Seq<char>> {
    match o {
        Some(s) => Some(s@),
        None => None,
    }
}

pub struct NodeModel {
    pub id: Seq<char>,
    pub kind: WorkbookGraphNodeKind,
    pub label: Seq<char>,
    pub sheet_name: Option<Seq<char>>,
    pub part_path: Option<Seq<char>>,
    pub cell_reference: Option<Seq<char>>,
    pub formula: Option<Seq<char>>,
    pub cached_value: Option<Seq<char>>,
}

impl View for WorkbookGraphNode {
    type V = NodeModel;

    open spec fn view(&self) -> NodeModel {
        NodeModel {
            id: self.id@,
            kind: self.kind,
            label: self.label@,
            sheet_name: ov(self.sheet_name),
            part_path: ov(self.part_path),
            cell_reference: ov(self.cell_reference),
            formula: ov(self.formula),
            cached_value: ov(self.cached_value),
        }
    }
}

pub struct EvidenceModel {
    pub kind: WorkbookGraphEvidenceKind,
    pub part_path: Seq<char>,
    pub cell_reference: Option<Seq<char>>,
    pub detail: Seq<char>,
}

impl View for WorkbookGraphEvidence {
    type V = EvidenceModel;

    open spec fn view(&self) -> EvidenceModel {
        EvidenceModel {
            kind: self.kind,
            part_path: self.part_path@,
            cell_reference: ov(self.cell_reference),
            detail: self.detail@,
        }
    }
}

pub open spec fn evidence_view(v: Seq<WorkbookGraphEvidence>) -> Seq<EvidenceModel> {
    v.map_values(|e: WorkbookGraphEvidence| e@)
}

pub struct EdgeModel {
    pub kind: WorkbookGraphEdgeKind,
    pub from: Seq<char>,
    pub to: Seq<char>,
    pub evidence: Seq<EvidenceModel>,
}

impl View for WorkbookGraphEdge {
    type V = EdgeModel;

    open spec fn view(&self) -> EdgeModel {
        EdgeModel { kind: self.kind, from: self.from@, to: self.to@, evidence: evidence_view(self.evidence@) }
    }
}

pub open spec fn nodes_view(v: Seq<WorkbookGraphNode>) -> Seq<NodeModel> {
    v.map_values(|n: WorkbookGraphNode| n@)
}

pub open spec fn edges_view(v: Seq<WorkbookGraphEdge>) -> Seq<EdgeModel> {
    v.map_values(|e: WorkbookGraphEdge| e@)
}

pub struct SheetModel {
    pub name: Option<Seq<char>>,
    pub sheet_id: Option<u32>,
    pub relationship_id: Option<Seq<char>>,
    pub part_path: Option<Seq<char>>,
    pub kind: SheetKind,
}

pub open spec fn sheet_view(s: SheetSummary) -> SheetModel {
    SheetModel {
        name: ov(s.name),
        sheet_id: s.sheet_id,
        relationship_id: ov(s.relationship_id),
        part_path: ov(s.part_path),
        kind: s.kind,
    }
}

pub open spec fn sheets_view(v: Seq<SheetSummary>) -> Seq<SheetModel> {
    v.map_values(|s: SheetSummary| sheet_view(s))
}

pub struct DefinedNameModel {
    pub name: Seq<char>,
    pub sheet_scope: Option<Seq<char>>,
    pub hidden: Option<bool>,
    pub target: Seq<char>,
}

pub open spec fn defined_name_view(d: DefinedNameSummary) -> DefinedNameModel {
    DefinedNameModel { name: d.name@, sheet_scope: ov(d.sheet_scope), hidden: d.hidden, target: d.target@ }
}

pub open spec fn defined_names_view(v: Seq<DefinedNameSummary>) -> Seq<DefinedNameModel> {
    v.map_values(|d: DefinedNameSummary| defined_name_view(d))
}

pub struct TableModel {
    pub name: Seq<char>,
    pub alt_name: Option<Seq<char>>,
    pub sheet_name: Seq<char>,
    pub worksheet_index: usize,
    pub worksheet_part_path: Seq<char>,
    pub relationship_part_path: Seq<char>,
    pub relationship_id: Seq<char>,
    pub part_path: Seq<char>,
    pub range_reference: Seq<char>,
    pub start_reference: Seq<char>,
    pub end_reference: Seq<char>,
}

pub open spec fn table_view(t: ParsedWorkbookTable) -> TableModel {
    TableModel {
        name: t.name@,
        alt_name: ov(t.alt_name),
        sheet_name: t.sheet_name@,
        worksheet_index: t.worksheet_index,
        worksheet_part_path: t.worksheet_part_path@,
        relationship_part_path: t.relationship_part_path@,
        relationship_id: t.relationship_id@,
        part_path: t.part_path@,
        range_reference: t.range_reference@,
        start_reference: t.start_reference@,
        end_reference: t.end_reference@,
    }
}

pub open spec fn tables_view(v: Seq<ParsedWorkbookTable>) -> Seq<TableModel> {
    v.map_values(|t: ParsedWorkbookTable| table_view(t))
}

// ---------------------------------------------------------------------------
// Identifiers and labels

pub open spec fn worksheet_node_id_spec(worksheet_index: usize) -> Seq<char> {
    "worksheet:"@ + decimal(worksheet_index as nat)
}

pub fn worksheet_node_id(worksheet_index: usize) -> (r: String)
    ensures
        r@ == worksheet_node_id_spec(worksheet_index),
{
    let mut s = owned("worksheet:");
    let d = decimal_string(worksheet_index);
    append_str(&mut s, d.as_str());
    s
}

pub open spec fn formula_node_id_spec(worksheet_index: usize, reference: Seq<char>) -> Seq<char> {
    "formula:"@ + decimal(worksheet_index as nat) + ":"@ + reference
}

pub fn formula_node_id(worksheet_index: usize, reference: &str) -> (r: String)
    ensures
        r@ == formula_node_id_spec(worksheet_index, reference@),
{
    let mut s = owned("formula:");
    let d = decimal_string(worksheet_index);
    append_str(&mut s, d.as_str());
    append_str(&mut s, ":");
    append_str(&mut s, reference);
    s
}

pub open spec fn cell_reference_node_id_spec(worksheet_index: usize, reference: Seq<char>) -> Seq<char> {
    "ref-cell:"@ + decimal(worksheet_index as nat) + ":"@ + reference
}

pub fn cell_reference_node_id(worksheet_index: usize, reference: &str) -> (r: String)
    ensures
        r@ == cell_reference_node_id_spec(worksheet_index, reference@),
{
    let mut s = owned("ref-cell:");
    let d = decimal_string(worksheet_index);
    append_str(&mut s, d.as_str());
    append_str(&mut s, ":");
    append_str(&mut s, reference);
    s
}

pub open spec fn range_reference_node_id_spec(worksheet_index: usize, start: Seq<char>, end: Seq<char>) -> Seq<char> {
    "ref-range:"@ + decimal(worksheet_index as nat) + ":"@ + start + ":"@ + end
}

pub fn range_reference_node_id(worksheet_index: usize, start_reference: &str, end_reference: &str) -> (r: String)
    ensures
        r@ == range_reference_node_id_spec(worksheet_index, start_reference@, end_reference@),
{
    let mut s = owned("ref-range:");
    let d = decimal_string(worksheet_index);
    append_str(&mut s, d.as_str());
    append_str(&mut s, ":");
    append_str(&mut s, start_reference);
    append_str(&mut s, ":");
    append_str(&mut s, end_reference);
    s
}

pub open spec fn power_query_query_node_id_spec(name: Seq<char>) -> Seq<char> {
    "power-query:"@ + lower_seq(name)
}

pub fn power_query_query_node_id(name: &str) -> (r: String)
    ensures
        r@ == power_query_query_node_id_spec(name@),
{
    let mut s = owned("power-query:");
    let l = lower_string(name);
    append_str(&mut s, l.as_str());
    s
}

pub open spec fn table_node_id_spec(t: TableModel) -> Seq<char> {
    "table:"@ + decimal(t.worksheet_index as nat) + ":"@ + lower_seq(t.name)
}

pub fn table_node_id(table: &ParsedWorkbookTable) -> (r: String)
    ensures
        r@ == table_node_id_spec(table_view(*table)),
{
    let mut s = owned("table:");
    let d = decimal_string(table.worksheet_index);
    append_str(&mut s, d.as_str());
    append_str(&mut s, ":");
    let l = lower_string(table.name.as_str());
    append_str(&mut s, l.as_str());
    s
}

pub open spec fn defined_name_node_id_spec(d: DefinedNameModel) -> Seq<char> {
    let scope = match d.sheet_scope {
        Some(s) => s,
        None => "workbook"@,
    };
    "defined-name:"@ + lower_seq(scope) + ":"@ + lower_seq(d.name)
}

pub fn defined_name_node_id(defined_name: &DefinedNameSummary) -> (r: String)
    ensures
        r@ == defined_name_node_id_spec(defined_name_view(*defined_name)),
{
    let scope = match &defined_name.sheet_scope {
        Some(s) => lower_string(s.as_str()),
        None => lower_string("workbook"),
    };
    let mut s = owned("defined-name:");
    append_str(&mut s, scope.as_str());
    append_str(&mut s, ":");
    let l = lower_string(defined_name.name.as_str());
    append_str(&mut s, l.as_str());
    s
}

pub open spec fn defined_name_formula_text_node_id_spec(d: DefinedNameModel) -> Seq<char> {
    "defined-name-formula:"@ + defined_name_node_id_spec(d)
}

pub fn defined_name_formula_text_node_id(defined_name: &DefinedNameSummary) -> (r: String)
    ensures
        r@ == defined_name_formula_text_node_id_spec(defined_name_view(*defined_name)),
{
    let mut s = owned("defined-name-formula:");
    let id = defined_name_node_id(defined_name);
    append_str(&mut s, id.as_str());
    s
}

/// `Sheet!Name` for a sheet-scoped name, with ` [hidden]` for a hidden one.
pub open spec fn defined_name_label_spec(d: DefinedNameModel) -> Seq<char> {
    let prefix = match d.sheet_scope {
        Some(s) => s + "!"@,
        None => Seq::empty(),
    };
    let suffix = if d.hidden == Some(true) {
        " [hidden]"@
    } else {
        Seq::empty()
    };
    prefix + d.name + suffix
}

pub fn defined_name_label(defined_name: &DefinedNameSummary) -> (r: String)
    ensures
        r@ == defined_name_label_spec(defined_name_view(*defined_name)),
{
    let mut s = String::new();
    if let Some(scope) = &defined_name.sheet_scope {
        append_str(&mut s, scope.as_str());
        append_str(&mut s, "!");
    }
    append_str(&mut s, defined_name.name.as_str());
    let hidden = match defined_name.hidden {
        Some(h) => h,
        None => false,
    };
    if hidden {
        append_str(&mut s, " [hidden]");
    }
    assert(s@ =~= defined_name_label_spec(defined_name_view(*defined_name)));
    s
}

pub open spec fn worksheet_label_spec(s: SheetModel, worksheet_index: usize) -> Seq<char> {
    match s.name {
        Some(n) => n,
        None => "worksheet-"@ + decimal((worksheet_index + 1) as nat),
    }
}

pub fn worksheet_label(summary: &SheetSummary, worksheet_index: usize) -> (r: String)
    requires
        worksheet_index < usize::MAX,
    ensures
        r@ == worksheet_label_spec(sheet_view(*summary), worksheet_index),
{
    match &summary.name {
        Some(n) => n.clone(),
        None => {
            let mut s = owned("worksheet-");
            let d = decimal_string(worksheet_index + 1);
            append_str(&mut s, d.as_str());
            s
        },
    }
}


// ---------------------------------------------------------------------------
// Resolving names

pub open spec fn count_where<T>(s: Seq<T>, p: spec_fn(T) -> bool) -> nat
    decreases s.len(),
{
    if s.len() == 0 {
        0
    } else {
        count_where(s.drop_last(), p) + if p(s.last()) {
            1nat
        } else {
            0nat
        }
    }
}

/// `r` is the one element of `s` that satisfies `p`, or `None` when not
/// exactly one does.
pub open spec fn picks_unique<T>(s: Seq<T>, p: spec_fn(T) -> bool, r: Option<usize>) -> bool {
    match r {
        Some(i) => i < s.len() && p(s[i as int]) && count_where(s, p) == 1,
        None => count_where(s, p) != 1,
    }
}

pub open spec fn same_ci(a: Seq<char>, b: Seq<char>) -> bool {
    lower_seq(a) == lower_seq(b)
}

/// Which defined names a lookup considers, besides the name itself.
pub enum ScopeFilter {
    AnyScope,
    SheetScope(String),
    WorkbookScope,
}

pub enum ScopeFilterModel {
    AnyScope,
    SheetScope(Seq<char>),
    WorkbookScope,
}

pub open spec fn scope_filter_view(f: ScopeFilter) -> ScopeFilterModel {
    match f {
        ScopeFilter::AnyScope => ScopeFilterModel::AnyScope,
        ScopeFilter::SheetScope(s) => ScopeFilterModel::SheetScope(s@),
        ScopeFilter::WorkbookScope => ScopeFilterModel::WorkbookScope,
    }
}

pub open spec fn scope_matches(d: DefinedNameModel, f: ScopeFilterModel) -> bool {
    match f {
        ScopeFilterModel::AnyScope => true,
        ScopeFilterModel::SheetScope(s) => d.sheet_scope matches Some(sc) && same_ci(sc, s),
        ScopeFilterModel::WorkbookScope => d.sheet_scope is None,
    }
}

pub open spec fn name_in_scope(name: Seq<char>, f: ScopeFilterModel) -> spec_fn(DefinedNameModel) -> bool {
    |d: DefinedNameModel| same_ci(d.name, name) && scope_matches(d, f)
}

proof fn lemma_count_step<T>(s: Seq<T>, p: spec_fn(T) -> bool, i: int)
    requires
        0 <= i < s.len(),
    ensures
        count_where(s.take(i + 1), p) == count_where(s.take(i), p) + if p(s[i]) {
            1nat
        } else {
            0nat
        },
{
    assert(s.take(i + 1).drop_last() =~= s.take(i));
}

/// The number of defined names called `name` (ignoring ASCII case) within
/// the filter, and the one of them when there is exactly one.
fn find_defined_name(defined_names: &Vec<DefinedNameSummary>, name: &str, filter: &ScopeFilter) -> (r: (usize, Option<usize>))
    ensures
        r.0 == count_where(defined_names_view(defined_names@), name_in_scope(name@, scope_filter_view(*filter))),
        picks_unique(defined_names_view(defined_names@), name_in_scope(name@, scope_filter_view(*filter)), r.1),
{
    let ghost dv = defined_names_view(defined_names@);
    let ghost p = name_in_scope(name@, scope_filter_view(*filter));
    let mut count: usize = 0;
    let mut found: Option<usize> = None;
    let mut i: usize = 0;
    while i < defined_names.len()
        invariant
            dv == defined_names_view(defined_names@),
            p == name_in_scope(name@, scope_filter_view(*filter)),
            i <= dv.len(),
            count == count_where(dv.take(i as int), p),
            count <= i,
            count > 0 ==> (found matches Some(k) && k < i && p(dv[k as int])),
            count == 0 ==> found is None,
        decreases dv.len() - i,
    {
        proof {
            lemma_count_step(dv, p, i as int);
        }
        let d = &defined_names[i];
        assert(dv[i as int] == defined_name_view(*d));
        let scope_ok = match filter {
            ScopeFilter::AnyScope => true,
            ScopeFilter::SheetScope(s) => match &d.sheet_scope {
                Some(sc) => eq_ignore_ascii_case(sc.as_str(), s.as_str()),
                None => false,
            },
            ScopeFilter::WorkbookScope => d.sheet_scope.is_none(),
        };
        if eq_ignore_ascii_case(d.name.as_str(), name) && scope_ok {
            assert(p(dv[i as int]));
            if count == 0 {
                found = Some(i);
            }
            count += 1;
        } else {
            assert(!p(dv[i as int]));
        }
        i += 1;
    }
    assert(dv.take(dv.len() as int) =~= dv);
    if count == 1 {
        (count, found)
    } else {
        (count, None)
    }
}

/// The defined name that a formula reference to `name` means: the one
/// scoped to the explicit sheet; else the one scoped to the selected sheet,
/// else the workbook-scoped one; `None` when the choice is not unique.
pub open spec fn resolves_defined_name(
    dv: Seq<DefinedNameModel>,
    selected_sheet_name: Seq<char>,
    name: Seq<char>,
    explicit_sheet_name: Option<Seq<char>>,
    r: Option<usize>,
) -> bool {
    if count_where(dv, name_in_scope(name, ScopeFilterModel::AnyScope)) == 0 {
        r is None
    } else {
        match explicit_sheet_name {
            Some(s) => picks_unique(dv, name_in_scope(name, ScopeFilterModel::SheetScope(s)), r),
            None => if count_where(dv, name_in_scope(name, ScopeFilterModel::SheetScope(selected_sheet_name))) == 1 {
                picks_unique(dv, name_in_scope(name, ScopeFilterModel::SheetScope(selected_sheet_name)), r)
            } else {
                picks_unique(dv, name_in_scope(name, ScopeFilterModel::WorkbookScope), r)
            },
        }
    }
}

pub fn resolve_defined_name_reference(
    defined_names: &Vec<DefinedNameSummary>,
    selected_sheet_name: &str,
    name: &str,
    explicit_sheet_name: Option<&str>,
) -> (r: Option<usize>)
    ensures
        resolves_defined_name(
            defined_names_view(defined_names@),
            selected_sheet_name@,
            name@,
            match explicit_sheet_name {
                Some(s) => Some(s@),
                None => None,
            },
            r,
        ),
{
    let (any_count, _) = find_defined_name(defined_names, name, &ScopeFilter::AnyScope);
    if any_count == 0 {
        return None;
    }
    match explicit_sheet_name {
        Some(sheet_name) => {
            let filter = ScopeFilter::SheetScope(owned(sheet_name));
            let (_, found) = find_defined_name(defined_names, name, &filter);
            found
        },
        None => {
            let filter = ScopeFilter::SheetScope(owned(selected_sheet_name));
            let (count, found) = find_defined_name(defined_names, name, &filter);
            if count == 1 {
                return found;
            }
            let (_, workbook) = find_defined_name(defined_names, name, &ScopeFilter::WorkbookScope);
            workbook
        },
    }
}


pub open spec fn table_named(name: Seq<char>) -> spec_fn(TableModel) -> bool {
    |t: TableModel| same_ci(t.name, name) || (t.alt_name matches Some(a) && same_ci(a, name))
}

/// The number of tables called `name` (by name or alternate name, ignoring
/// ASCII case), and the one of them when there is exactly one.
fn find_table(tables: &Vec<ParsedWorkbookTable>, name: &str) -> (r: (usize, Option<usize>))
    ensures
        r.0 == count_where(tables_view(tables@), table_named(name@)),
        picks_unique(tables_view(tables@), table_named(name@), r.1),
{
    let ghost tv = tables_view(tables@);
    let ghost p = table_named(name@);
    let mut count: usize = 0;
    let mut found: Option<usize> = None;
    let mut i: usize = 0;
    while i < tables.len()
        invariant
            tv == tables_view(tables@),
            p == table_named(name@),
            i <= tv.len(),
            count == count_where(tv.take(i as int), p),
            count <= i,
            count > 0 ==> (found matches Some(k) && k < i && p(tv[k as int])),
            count == 0 ==> found is None,
        decreases tv.len() - i,
    {
        proof {
            lemma_count_step(tv, p, i as int);
        }
        let t = &tables[i];
        assert(tv[i as int] == table_view(*t));
        let alt = match &t.alt_name {
            Some(a) => eq_ignore_ascii_case(a.as_str(), name),
            None => false,
        };
        if eq_ignore_ascii_case(t.name.as_str(), name) || alt {
            if count == 0 {
                found = Some(i);
            }
            count += 1;
        }
        i += 1;
    }
    assert(tv.take(tv.len() as int) =~= tv);
    if count == 1 {
        (count, found)
    } else {
        (count, None)
    }
}

pub fn resolve_table_reference(tables: &Vec<ParsedWorkbookTable>, table_name: &str) -> (r: Option<usize>)
    ensures
        picks_unique(tables_view(tables@), table_named(table_name@), r),
{
    let (_, found) = find_table(tables, table_name);
    found
}

pub open spec fn query_named(name: Seq<char>) -> spec_fn(Seq<char>) -> bool {
    |q: Seq<char>| same_ci(q, name)
}

pub open spec fn query_names(queries: Seq<ExtractedPowerQueryQuery>) -> Seq<Seq<char>> {
    queries.map_values(|q: ExtractedPowerQueryQuery| q.name@)
}

pub fn resolve_power_query_reference(queries: &Vec<ExtractedPowerQueryQuery>, name: &str) -> (r: Option<usize>)
    ensures
        picks_unique(query_names(queries@), query_named(name@), r),
{
    let ghost qv = query_names(queries@);
    let ghost p = query_named(name@);
    let mut count: usize = 0;
    let mut found: Option<usize> = None;
    let mut i: usize = 0;
    while i < queries.len()
        invariant
            qv == query_names(queries@),
            p == query_named(name@),
            i <= qv.len(),
            count == count_where(qv.take(i as int), p),
            count <= i,
            count > 0 ==> (found matches Some(k) && k < i && p(qv[k as int])),
            count == 0 ==> found is None,
        decreases qv.len() - i,
    {
        proof {
            lemma_count_step(qv, p, i as int);
        }
        assert(qv[i as int] == queries@[i as int].name@);
        if eq_ignore_ascii_case(queries[i].name.as_str(), name) {
            if count == 0 {
                found = Some(i);
            }
            count += 1;
        }
        i += 1;
    }
    assert(qv.take(qv.len() as int) =~= qv);
    if count == 1 {
        found
    } else {
        None
    }
}

/// What an `Excel.CurrentWorkbook` name of a query stands for.
#[derive(Debug, Clone, Copy, PartialEq, Eq, Structural)]
pub enum PowerQueryWorkbookNameTarget {
    DefinedName(usize),
    Table(usize),
}

/// A workbook name read by a query is the one workbook-scoped defined name
/// of that name, or else the one table of that name; anything else is unresolved.
pub open spec fn resolves_workbook_name(
    dv: Seq<DefinedNameModel>,
    tv: Seq<TableModel>,
    name: Seq<char>,
    r: Option<PowerQueryWorkbookNameTarget>,
) -> bool {
    let dp = name_in_scope(name, ScopeFilterModel::WorkbookScope);
    let tp = table_named(name);
    let nd = count_where(dv, dp);
    let nt = count_where(tv, tp);
    if nd == 1 && nt == 0 {
        r matches Some(PowerQueryWorkbookNameTarget::DefinedName(i)) && i < dv.len() && dp(dv[i as int])
    } else if nd == 0 && nt == 1 {
        r matches Some(PowerQueryWorkbookNameTarget::Table(i)) && i < tv.len() && tp(tv[i as int])
    } else {
        r is None
    }
}

pub fn resolve_power_query_workbook_name_target(
    defined_names: &Vec<DefinedNameSummary>,
    tables: &Vec<ParsedWorkbookTable>,
    name: &str,
) -> (r: Option<PowerQueryWorkbookNameTarget>)
    ensures
        resolves_workbook_name(defined_names_view(defined_names@), tables_view(tables@), name@, r),
{
    let (nd, d) = find_defined_name(defined_names, name, &ScopeFilter::WorkbookScope);
    let (nt, t) = find_table(tables, name);
    if nd == 1 && nt == 0 {
        match d {
            Some(i) => Some(PowerQueryWorkbookNameTarget::DefinedName(i)),
            None => None,
        }
    } else if nd == 0 && nt == 1 {
        match t {
            Some(i) => Some(PowerQueryWorkbookNameTarget::Table(i)),
            None => None,
        }
    } else {
        None
    }
}

/// The first worksheet whose name matches (ignoring ASCII case), from `i` on.
pub open spec fn first_sheet_named_from(ws: Seq<SheetModel>, name: Seq<char>, i: int) -> Option<int>
    decreases ws.len() - i,
{
    if i < 0 || i >= ws.len() {
        None
    } else if ws[i].name matches Some(n) && same_ci(n, name) {
        Some(i)
    } else {
        first_sheet_named_from(ws, name, i + 1)
    }
}

/// The worksheet that a sheet name in a reference means: the first with
/// that name, with its index, name and part path (`None` when it has no part path).
pub open spec fn resolve_reference_sheet_spec(ws: Seq<SheetModel>, name: Seq<char>) -> Option<(usize, Seq<char>, Seq<char>)> {
    match first_sheet_named_from(ws, name, 0) {
        Some(i) => match (ws[i].name, ws[i].part_path) {
            (Some(n), Some(p)) => Some((i as usize, n, p)),
            _ => None,
        },
        None => None,
    }
}

pub open spec fn resolved_sheet_view(r: Option<(usize, String, String)>) -> Option<(usize, Seq<char>, Seq<char>)> {
    match r {
        Some((i, n, p)) => Some((i, n@, p@)),
        None => None,
    }
}

proof fn lemma_first_sheet_bounds(ws: Seq<SheetModel>, name: Seq<char>, i: int)
    ensures
        first_sheet_named_from(ws, name, i) matches Some(k) ==> 0 <= i <= k < ws.len(),
    decreases ws.len() - i,
{
    if i >= 0 && i < ws.len() {
        lemma_first_sheet_bounds(ws, name, i + 1);
    }
}

pub fn resolve_reference_sheet(worksheets: &Vec<SheetSummary>, sheet_name: &str) -> (r: Option<(usize, String, String)>)
    ensures
        resolved_sheet_view(r) == resolve_reference_sheet_spec(sheets_view(worksheets@), sheet_name@),
{
    let ghost wv = sheets_view(worksheets@);
    let mut i: usize = 0;
    while i < worksheets.len()
        invariant
            wv == sheets_view(worksheets@),
            i <= wv.len(),
            first_sheet_named_from(wv, sheet_name@, 0) == first_sheet_named_from(wv, sheet_name@, i as int),
        decreases wv.len() - i,
    {
        let summary = &worksheets[i];
        assert(wv[i as int] == sheet_view(*summary));
        let matches = match &summary.name {
            Some(n) => eq_ignore_ascii_case(n.as_str(), sheet_name),
            None => false,
        };
        if matches {
            return match (&summary.name, &summary.part_path) {
                (Some(n), Some(p)) => Some((i, n.clone(), p.clone())),
                _ => None,
            };
        }
        i += 1;
    }
    None
}

/// The worksheet of a defined name's target: the sheet the target names,
/// else the sheet the name is scoped to.
pub open spec fn resolve_target_sheet_spec(d: DefinedNameModel, ws: Seq<SheetModel>, parsed_sheet_name: Option<Seq<char>>) -> Option<(usize, Seq<char>, Seq<char>)> {
    match parsed_sheet_name {
        Some(s) => resolve_reference_sheet_spec(ws, s),
        None => match d.sheet_scope {
            Some(scope) => resolve_reference_sheet_spec(ws, scope),
            None => None,
        },
    }
}

pub fn resolve_defined_name_target_sheet(
    defined_name: &DefinedNameSummary,
    worksheets: &Vec<SheetSummary>,
    parsed_sheet_name: &Option<String>,
) -> (r: Option<(usize, String, String)>)
    ensures
        resolved_sheet_view(r) == resolve_target_sheet_spec(
            defined_name_view(*defined_name),
            sheets_view(worksheets@),
            ov(*parsed_sheet_name),
        ),
{
    if let Some(sheet_name) = parsed_sheet_name {
        return resolve_reference_sheet(worksheets, sheet_name.as_str());
    }
    match &defined_name.sheet_scope {
        Some(scope) => resolve_reference_sheet(worksheets, scope.as_str()),
        None => None,
    }
}

/// The table name of a structured reference: the trimmed text before its
/// first `[`, when there is such a bracket and the name is not empty.
pub open spec fn structured_reference_table_spec(text: Seq<char>) -> Option<Seq<char>> {
    match crate::text::index_of(text, '[') {
        Some(k) => {
            let t = trim_seq(text.take(k));
            if t.len() > 0 {
                Some(t)
            } else {
                None
            }
        },
        None => None,
    }
}

pub fn parse_structured_reference_table_name(text: &str) -> (r: Option<String>)
    ensures
        ov(r) == structured_reference_table_spec(text@),
{
    let v = chars_of(text);
    let k = match crate::text::find_char(&v, '[') {
        Some(k) => k,
        None => return None,
    };
    proof {
        crate::text::lemma_index_of_from_bounds(v@, '[', 0);
    }
    let head = string_of_range(&v, 0, k);
    assert(v@.subrange(0, k as int) =~= v@.take(k as int));
    let t = trim(head.as_str());
    if t.unicode_len() > 0 {
        Some(t)
    } else {
        None
    }
}


// ---------------------------------------------------------------------------
// Building the graph

/// The nodes and edges emitted so far.
pub struct GraphModel {
    pub nodes: Seq<NodeModel>,
    pub edges: Seq<EdgeModel>,
}

pub open spec fn has_node_id(nodes: Seq<NodeModel>, id: Seq<char>) -> bool {
    exists|i: int| 0 <= i < nodes.len() && (#[trigger] nodes[i]).id == id
}

/// The graph with `n` added unless a node with its id is already there.
pub open spec fn insert_node_spec(g: GraphModel, n: NodeModel) -> GraphModel {
    if has_node_id(g.nodes, n.id) {
        g
    } else {
        GraphModel { nodes: g.nodes.push(n), ..g }
    }
}

pub open spec fn has_edge_key(edges: Seq<EdgeModel>, kind: WorkbookGraphEdgeKind, from: Seq<char>, to: Seq<char>) -> bool {
    exists|i: int| 0 <= i < edges.len() && (#[trigger] edges[i]).kind == kind && edges[i].from == from && edges[i].to == to
}

/// The graph with `e` added unless an edge of the same kind, source and target is already there.
pub open spec fn push_edge_spec(g: GraphModel, e: EdgeModel) -> GraphModel {
    if has_edge_key(g.edges, e.kind, e.from, e.to) {
        g
    } else {
        GraphModel { edges: g.edges.push(e), ..g }
    }
}

/// The graph under construction.
pub struct GraphBuildState {
    pub nodes: Vec<WorkbookGraphNode>,
    pub edges: Vec<WorkbookGraphEdge>,
}

impl GraphBuildState {
    pub open spec fn model(&self) -> GraphModel {
        GraphModel { nodes: nodes_view(self.nodes@), edges: edges_view(self.edges@) }
    }
}

fn has_node(graph: &GraphBuildState, id: &str) -> (r: bool)
    ensures
        r == has_node_id(graph.model().nodes, id@),
{
    let ghost nv = graph.model().nodes;
    let mut i: usize = 0;
    while i < graph.nodes.len()
        invariant
            nv == graph.model().nodes,
            i <= nv.len(),
            forall|j: int| 0 <= j < i ==> (#[trigger] nv[j]).id != id@,
        decreases nv.len() - i,
    {
        assert(nv[i as int] == graph.nodes@[i as int]@);
        if same_text(graph.nodes[i].id.as_str(), id) {
            return true;
        }
        i += 1;
    }
    false
}

/// Adds `node` unless a node with its id is already there; whether it was added.
pub fn insert_node(graph: &mut GraphBuildState, node: WorkbookGraphNode) -> (r: bool)
    ensures
        final(graph).model() == insert_node_spec(old(graph).model(), node@),
        r == !has_node_id(old(graph).model().nodes, node@.id),
{
    if has_node(graph, node.id.as_str()) {
        return false;
    }
    let ghost before = graph.model();
    let ghost nm = node@;
    graph.nodes.push(node);
    assert(graph.model().nodes =~= before.nodes.push(nm));
    true
}

/// Adds `node` whatever the ids already there.
fn push_node(graph: &mut GraphBuildState, node: WorkbookGraphNode)
    ensures
        final(graph).model() == (GraphModel { nodes: old(graph).model().nodes.push(node@), ..old(graph).model() }),
{
    let ghost before = graph.model();
    let ghost nm = node@;
    graph.nodes.push(node);
    assert(graph.model().nodes =~= before.nodes.push(nm));
}

pub fn push_edge(
    graph: &mut GraphBuildState,
    kind: WorkbookGraphEdgeKind,
    from: String,
    to: String,
    evidence: Vec<WorkbookGraphEvidence>,
)
    ensures
        final(graph).model() == push_edge_spec(
            old(graph).model(),
            EdgeModel { kind, from: from@, to: to@, evidence: evidence_view(evidence@) },
        ),
{
    let ghost ev = old(graph).model().edges;
    let mut i: usize = 0;
    while i < graph.edges.len()
        invariant
            ev == graph.model().edges,
            graph.model() == old(graph).model(),
            i <= ev.len(),
            forall|j: int| 0 <= j < i ==> !((#[trigger] ev[j]).kind == kind && ev[j].from == from@ && ev[j].to == to@),
        decreases ev.len() - i,
    {
        assert(ev[i as int] == graph.edges@[i as int]@);
        let e = &graph.edges[i];
        if e.kind == kind && same_text(e.from.as_str(), from.as_str()) && same_text(e.to.as_str(), to.as_str()) {
            return;
        }
        i += 1;
    }
    let ghost before = graph.model();
    let edge = WorkbookGraphEdge { kind, from, to, evidence };
    let ghost em = edge@;
    graph.edges.push(edge);
    assert(graph.model().edges =~= before.edges.push(em));
}

/// A reference that a formula's syntax tree makes.
pub enum FormulaReference {
    Cell { reference: String, sheet_name: Option<String> },
    DefinedName { name: String, sheet_name: Option<String> },
    Range { start_reference: String, end_reference: String, sheet_name: Option<String> },
    StructuredReference { text: String },
}

pub enum RefModel {
    Cell { reference: Seq<char>, sheet_name: Option<Seq<char>> },
    DefinedName { name: Seq<char>, sheet_name: Option<Seq<char>> },
    Range { start_reference: Seq<char>, end_reference: Seq<char>, sheet_name: Option<Seq<char>> },
    StructuredReference { text: Seq<char> },
}

impl View for FormulaReference {
    type V = RefModel;

    open spec fn view(&self) -> RefModel {
        match self {
            FormulaReference::Cell { reference, sheet_name } => RefModel::Cell {
                reference: reference@,
                sheet_name: ov(*sheet_name),
            },
            FormulaReference::DefinedName { name, sheet_name } => RefModel::DefinedName {
                name: name@,
                sheet_name: ov(*sheet_name),
            },
            FormulaReference::Range { start_reference, end_reference, sheet_name } => RefModel::Range {
                start_reference: start_reference@,
                end_reference: end_reference@,
                sheet_name: ov(*sheet_name),
            },
            FormulaReference::StructuredReference { text } => RefModel::StructuredReference { text: text@ },
        }
    }
}

pub open spec fn refs_view(v: Seq<FormulaReference>) -> Seq<RefModel> {
    v.map_values(|r: FormulaReference| r@)
}

/// The references of a syntax tree, left to right: cells, ranges, defined
/// names, and the structured references that the parser left unsupported.
pub open spec fn refs_of(node: FormulaAstNode) -> Seq<RefModel>
    decreases node, 1nat,
{
    match node {
        FormulaAstNode::UnaryOperation { operand, .. } => refs_of(*operand),
        FormulaAstNode::Percent { operand } => refs_of(*operand),
        FormulaAstNode::BinaryOperation { left, right, .. } => refs_of(*left) + refs_of(*right),
        FormulaAstNode::FunctionCall { args, .. } => refs_of_args(args, args@.len() as nat),
        FormulaAstNode::CellReference { reference, sheet_name } => seq![
            RefModel::Cell { reference: reference@, sheet_name: ov(sheet_name) },
        ],
        FormulaAstNode::DefinedNameReference { name, sheet_name } => seq![
            RefModel::DefinedName { name: name@, sheet_name: ov(sheet_name) },
        ],
        FormulaAstNode::RangeReference { start_reference, end_reference, sheet_name } => seq![
            RefModel::Range {
                start_reference: start_reference@,
                end_reference: end_reference@,
                sheet_name: ov(sheet_name),
            },
        ],
        FormulaAstNode::Unsupported { reason, text } => if reason@ == "structured_reference"@ {
            seq![RefModel::StructuredReference { text: text@ }]
        } else {
            Seq::empty()
        },
        _ => Seq::empty(),
    }
}

/// The references of the first `k` arguments of a function call.
pub open spec fn refs_of_args(args: Vec<FormulaAstNode>, k: nat) -> Seq<RefModel>
    decreases args, 0nat, k,
{
    if k == 0 || k > args@.len() {
        Seq::empty()
    } else {
        refs_of_args(args, (k - 1) as nat) + refs_of(args@[k - 1])
    }
}


pub fn copy_opt(o: &Option<String>) -> (r: Option<String>)
    ensures
        ov(r) == ov(*o),
{
    match o {
        Some(s) => Some(s.clone()),
        None => None,
    }
}

pub fn collect_formula_references(node: &FormulaAstNode, references: &mut Vec<FormulaReference>)
    ensures
        refs_view(final(references)@) == refs_view(old(references)@) + refs_of(*node),
    decreases node,
{
    let ghost before = refs_view(references@);
    match node {
        FormulaAstNode::UnaryOperation { operand, .. } => {
            collect_formula_references(operand, references);
        },
        FormulaAstNode::Percent { operand } => {
            collect_formula_references(operand, references);
        },
        FormulaAstNode::BinaryOperation { left, right, .. } => {
            collect_formula_references(left, references);
            collect_formula_references(right, references);
            assert(refs_view(references@) =~= before + (refs_of(**left) + refs_of(**right)));
        },
        FormulaAstNode::FunctionCall { args, .. } => {
            let mut i: usize = 0;
            assert(refs_view(references@) =~= before + refs_of_args(*args, 0));
            proof {
                broadcast use vstd::std_specs::vec::axiom_vec_index_decreases;
                assert(decreases_to!(*node => (*node)->args));
                assert forall|j: int| 0 <= j < args@.len() implies decreases_to!(*node => #[trigger] args@[j]) by {
                    assert(decreases_to!(*args => args@[j]));
                }
            }
            while i < args.len()
                invariant
                    i <= args@.len(),
                    refs_view(references@) == before + refs_of_args(*args, i as nat),
                    forall|j: int| 0 <= j < args@.len() ==> decreases_to!(*node => #[trigger] args@[j]),
                decreases args@.len() - i,
            {
                collect_formula_references(&args[i], references);
                assert(refs_view(references@) =~= before + refs_of_args(*args, (i + 1) as nat));
                i += 1;
            }
        },
        FormulaAstNode::CellReference { reference, sheet_name } => {
            let r = FormulaReference::Cell { reference: reference.clone(), sheet_name: copy_opt(sheet_name) };
            let ghost rm = r@;
            references.push(r);
            assert(refs_view(references@) =~= before.push(rm));
        },
        FormulaAstNode::DefinedNameReference { name, sheet_name } => {
            let r = FormulaReference::DefinedName { name: name.clone(), sheet_name: copy_opt(sheet_name) };
            let ghost rm = r@;
            references.push(r);
            assert(refs_view(references@) =~= before.push(rm));
        },
        FormulaAstNode::RangeReference { start_reference, end_reference, sheet_name } => {
            let r = FormulaReference::Range {
                start_reference: start_reference.clone(),
                end_reference: end_reference.clone(),
                sheet_name: copy_opt(sheet_name),
            };
            let ghost rm = r@;
            references.push(r);
            assert(refs_view(references@) =~= before.push(rm));
        },
        FormulaAstNode::Unsupported { reason, text } => {
            if same_text(reason.as_str(), "structured_reference") {
                let r = FormulaReference::StructuredReference { text: text.clone() };
                let ghost rm = r@;
                references.push(r);
                assert(refs_view(references@) =~= before.push(rm));
            } else {
                assert(refs_view(references@) =~= before + Seq::<RefModel>::empty());
            }
        },
        _ => {
            assert(refs_view(references@) =~= before + Seq::<RefModel>::empty());
        },
    }
}


// ---------------------------------------------------------------------------
// Defined-name targets

/// What the warnings of a graph depend on besides its inputs.
#[derive(Debug, Clone, Copy, PartialEq, Eq)]
pub struct GraphWarningFlags {
    pub unresolved_defined_name_reference: bool,
    pub ambiguous_defined_name_target: bool,
    pub unresolved_table_reference: bool,
    pub unresolved_table_metadata: bool,
    pub unresolved_power_query_query_reference: bool,
    pub unresolved_power_query_workbook_name_reference: bool,
}

pub open spec fn workbook_part() -> Seq<char> {
    "xl/workbook.xml"@
}

pub open spec fn evidence_of(kind: WorkbookGraphEvidenceKind, part_path: Seq<char>, cell_reference: Option<Seq<char>>, detail: Seq<char>) -> EvidenceModel {
    EvidenceModel { kind, part_path, cell_reference, detail }
}

/// A node for a referenced cell or range.
pub open spec fn reference_node(id: Seq<char>, kind: WorkbookGraphNodeKind, sheet_name: Seq<char>, part_path: Seq<char>, reference: Seq<char>) -> NodeModel {
    NodeModel {
        id,
        kind,
        label: sheet_name + "!"@ + reference,
        sheet_name: Some(sheet_name),
        part_path: Some(part_path),
        cell_reference: Some(reference),
        formula: None,
        cached_value: None,
    }
}

pub open spec fn defined_name_node(d: DefinedNameModel) -> NodeModel {
    NodeModel {
        id: defined_name_node_id_spec(d),
        kind: WorkbookGraphNodeKind::DefinedName,
        label: defined_name_label_spec(d),
        sheet_name: d.sheet_scope,
        part_path: Some(workbook_part()),
        cell_reference: None,
        formula: None,
        cached_value: None,
    }
}

/// The graph with a defined name's target kept as opaque formula text.
pub open spec fn formula_text_edge_spec(g: GraphModel, d: DefinedNameModel, dn_id: Seq<char>) -> GraphModel {
    let id = defined_name_formula_text_node_id_spec(d);
    let g = insert_node_spec(
        g,
        NodeModel {
            id,
            kind: WorkbookGraphNodeKind::DefinedNameFormulaText,
            label: defined_name_label_spec(d) + "="@ + d.target,
            sheet_name: d.sheet_scope,
            part_path: Some(workbook_part()),
            cell_reference: None,
            formula: Some(d.target),
            cached_value: None,
        },
    );
    push_edge_spec(
        g,
        EdgeModel {
            kind: WorkbookGraphEdgeKind::DefinedNameTargetsFormulaText,
            from: dn_id,
            to: id,
            evidence: seq![
                evidence_of(
                    WorkbookGraphEvidenceKind::WorkbookDefinedNameTarget,
                    workbook_part(),
                    None,
                    "defined name "@ + defined_name_label_spec(d) + " keeps opaque formula text "@ + d.target,
                ),
            ],
        },
    )
}

fn workbook_part_string() -> (r: String)
    ensures
        r@ == workbook_part(),
{
    owned("xl/workbook.xml")
}

pub fn emit_defined_name_formula_text_edge(defined_name: &DefinedNameSummary, defined_name_node_id: &str, graph: &mut GraphBuildState)
    ensures
        final(graph).model() == formula_text_edge_spec(old(graph).model(), defined_name_view(*defined_name), defined_name_node_id@),
{
    let node_id = defined_name_formula_text_node_id(defined_name);
    let label = defined_name_label(defined_name);
    let mut node_label = label.clone();
    append_str(&mut node_label, "=");
    append_str(&mut node_label, defined_name.target.as_str());
    insert_node(
        graph,
        WorkbookGraphNode {
            id: node_id.clone(),
            kind: WorkbookGraphNodeKind::DefinedNameFormulaText,
            label: node_label,
            sheet_name: copy_opt(&defined_name.sheet_scope),
            part_path: Some(workbook_part_string()),
            cell_reference: None,
            formula: Some(defined_name.target.clone()),
            cached_value: None,
        },
    );
    let mut detail = owned("defined name ");
    append_str(&mut detail, label.as_str());
    append_str(&mut detail, " keeps opaque formula text ");
    append_str(&mut detail, defined_name.target.as_str());
    let evidence = vec![WorkbookGraphEvidence {
        kind: WorkbookGraphEvidenceKind::WorkbookDefinedNameTarget,
        part_path: workbook_part_string(),
        cell_reference: None,
        detail,
    }];
    let ghost evv = evidence_view(evidence@);
    assert(evv =~= seq![
        evidence_of(
            WorkbookGraphEvidenceKind::WorkbookDefinedNameTarget,
            workbook_part(),
            None,
            "defined name "@ + defined_name_label_spec(defined_name_view(*defined_name)) + " keeps opaque formula text "@
                + defined_name.target@,
        ),
    ]);
    push_edge(graph, WorkbookGraphEdgeKind::DefinedNameTargetsFormulaText, owned(defined_name_node_id), node_id, evidence);
}

/// The edges from a defined name to what its parsed target (`root`) points
/// at: a cell or range on a resolvable sheet, else the opaque formula text
/// (and an ambiguous-target warning when a cell or range has no sheet).
pub open spec fn target_edges_spec(
    g: GraphModel,
    flags: GraphWarningFlags,
    d: DefinedNameModel,
    root: Option<FormulaAstNode>,
    dn_id: Seq<char>,
    ws: Seq<SheetModel>,
) -> (GraphModel, GraphWarningFlags) {
    match root {
        Some(FormulaAstNode::CellReference { reference, sheet_name }) => match resolve_target_sheet_spec(d, ws, ov(sheet_name)) {
            None => (formula_text_edge_spec(g, d, dn_id), GraphWarningFlags { ambiguous_defined_name_target: true, ..flags }),
            Some((wi, sn, pp)) => {
                let id = cell_reference_node_id_spec(wi, reference@);
                let g = insert_node_spec(g, reference_node(id, WorkbookGraphNodeKind::ReferencedCell, sn, pp, reference@));
                (
                    push_edge_spec(
                        g,
                        EdgeModel {
                            kind: WorkbookGraphEdgeKind::DefinedNameTargetsCell,
                            from: dn_id,
                            to: id,
                            evidence: seq![
                                evidence_of(
                                    WorkbookGraphEvidenceKind::WorkbookDefinedNameTarget,
                                    workbook_part(),
                                    None,
                                    "defined name "@ + defined_name_label_spec(d) + " targets cell "@ + sn + "!"@
                                        + reference@,
                                ),
                            ],
                        },
                    ),
                    flags,
                )
            },
        },
        Some(FormulaAstNode::RangeReference { start_reference, end_reference, sheet_name }) => match resolve_target_sheet_spec(d, ws, ov(sheet_name)) {
            None => (formula_text_edge_spec(g, d, dn_id), GraphWarningFlags { ambiguous_defined_name_target: true, ..flags }),
            Some((wi, sn, pp)) => {
                let id = range_reference_node_id_spec(wi, start_reference@, end_reference@);
                let range = start_reference@ + ":"@ + end_reference@;
                let g = insert_node_spec(g, reference_node(id, WorkbookGraphNodeKind::ReferencedRange, sn, pp, range));
                (
                    push_edge_spec(
                        g,
                        EdgeModel {
                            kind: WorkbookGraphEdgeKind::DefinedNameTargetsRange,
                            from: dn_id,
                            to: id,
                            evidence: seq![
                                evidence_of(
                                    WorkbookGraphEvidenceKind::WorkbookDefinedNameTarget,
                                    workbook_part(),
                                    None,
                                    "defined name "@ + defined_name_label_spec(d) + " targets range "@ + sn + "!"@ + range,
                                ),
                            ],
                        },
                    ),
                    flags,
                )
            },
        },
        _ => (formula_text_edge_spec(g, d, dn_id), flags),
    }
}

fn reference_node_exec(id: &String, kind: WorkbookGraphNodeKind, sheet_name: &String, part_path: &String, reference: &String) -> (r: WorkbookGraphNode)
    ensures
        r@ == reference_node(id@, kind, sheet_name@, part_path@, reference@),
{
    let mut label = sheet_name.clone();
    append_str(&mut label, "!");
    append_str(&mut label, reference.as_str());
    WorkbookGraphNode {
        id: id.clone(),
        kind,
        label,
        sheet_name: Some(sheet_name.clone()),
        part_path: Some(part_path.clone()),
        cell_reference: Some(reference.clone()),
        formula: None,
        cached_value: None,
    }
}

fn single_evidence(kind: WorkbookGraphEvidenceKind, part_path: String, cell_reference: Option<String>, detail: String) -> (r: Vec<WorkbookGraphEvidence>)
    ensures
        evidence_view(r@) == seq![evidence_of(kind, part_path@, ov(cell_reference), detail@)],
{
    let v = vec![WorkbookGraphEvidence { kind, part_path, cell_reference, detail }];
    assert(evidence_view(v@) =~= seq![v@[0]@]);
    v
}

pub fn emit_defined_name_target_edges(
    defined_name: &DefinedNameSummary,
    target_root: &Option<FormulaAstNode>,
    defined_name_node_id: &str,
    worksheets: &Vec<SheetSummary>,
    graph: &mut GraphBuildState,
    warning_flags: &mut GraphWarningFlags,
)
    ensures
        (final(graph).model(), *final(warning_flags)) == target_edges_spec(
            old(graph).model(),
            *old(warning_flags),
            defined_name_view(*defined_name),
            *target_root,
            defined_name_node_id@,
            sheets_view(worksheets@),
        ),
{
    match target_root {
        Some(FormulaAstNode::CellReference { reference, sheet_name }) => {
            match resolve_defined_name_target_sheet(defined_name, worksheets, sheet_name) {
                None => {
                    warning_flags.ambiguous_defined_name_target = true;
                    emit_defined_name_formula_text_edge(defined_name, defined_name_node_id, graph);
                },
                Some((worksheet_index, sheet, part_path)) => {
                    let node_id = cell_reference_node_id(worksheet_index, reference.as_str());
                    let node = reference_node_exec(&node_id, WorkbookGraphNodeKind::ReferencedCell, &sheet, &part_path, reference);
                    insert_node(graph, node);
                    let mut detail = owned("defined name ");
                    let label = defined_name_label(defined_name);
                    append_str(&mut detail, label.as_str());
                    append_str(&mut detail, " targets cell ");
                    append_str(&mut detail, sheet.as_str());
                    append_str(&mut detail, "!");
                    append_str(&mut detail, reference.as_str());
                    let evidence = single_evidence(
                        WorkbookGraphEvidenceKind::WorkbookDefinedNameTarget,
                        workbook_part_string(),
                        None,
                        detail,
                    );
                    push_edge(graph, WorkbookGraphEdgeKind::DefinedNameTargetsCell, owned(defined_name_node_id), node_id, evidence);
                },
            }
        },
        Some(FormulaAstNode::RangeReference { start_reference, end_reference, sheet_name }) => {
            match resolve_defined_name_target_sheet(defined_name, worksheets, sheet_name) {
                None => {
                    warning_flags.ambiguous_defined_name_target = true;
                    emit_defined_name_formula_text_edge(defined_name, defined_name_node_id, graph);
                },
                Some((worksheet_index, sheet, part_path)) => {
                    let node_id = range_reference_node_id(worksheet_index, start_reference.as_str(), end_reference.as_str());
                    let mut range = start_reference.clone();
                    append_str(&mut range, ":");
                    append_str(&mut range, end_reference.as_str());
                    let node = reference_node_exec(&node_id, WorkbookGraphNodeKind::ReferencedRange, &sheet, &part_path, &range);
                    insert_node(graph, node);
                    let mut detail = owned("defined name ");
                    let label = defined_name_label(defined_name);
                    append_str(&mut detail, label.as_str());
                    append_str(&mut detail, " targets range ");
                    append_str(&mut detail, sheet.as_str());
                    append_str(&mut detail, "!");
                    append_str(&mut detail, range.as_str());
                    let evidence = single_evidence(
                        WorkbookGraphEvidenceKind::WorkbookDefinedNameTarget,
                        workbook_part_string(),
                        None,
                        detail,
                    );
                    push_edge(graph, WorkbookGraphEdgeKind::DefinedNameTargetsRange, owned(defined_name_node_id), node_id, evidence);
                },
            }
        },
        _ => {
            emit_defined_name_formula_text_edge(defined_name, defined_name_node_id, graph);
        },
    }
}

pub fn ensure_defined_name_node(graph: &mut GraphBuildState, defined_name: &DefinedNameSummary) -> (r: String)
    ensures
        r@ == defined_name_node_id_spec(defined_name_view(*defined_name)),
        final(graph).model() == insert_node_spec(old(graph).model(), defined_name_node(defined_name_view(*defined_name))),
{
    let node_id = defined_name_node_id(defined_name);
    insert_node(
        graph,
        WorkbookGraphNode {
            id: node_id.clone(),
            kind: WorkbookGraphNodeKind::DefinedName,
            label: defined_name_label(defined_name),
            sheet_name: copy_opt(&defined_name.sheet_scope),
            part_path: Some(workbook_part_string()),
            cell_reference: None,
            formula: None,
            cached_value: None,
        },
    );
    node_id
}


// ---------------------------------------------------------------------------
// Formula dependencies

/// The one element of `s` that satisfies `p`, `None` unless exactly one does.
pub open spec fn unique_index<T>(s: Seq<T>, p: spec_fn(T) -> bool) -> Option<usize> {
    if count_where(s, p) == 1 {
        Some(choose|i: usize| i < s.len() && p(s[i as int]))
    } else {
        None
    }
}

proof fn lemma_count_positive<T>(s: Seq<T>, p: spec_fn(T) -> bool, i: int)
    requires
        0 <= i < s.len(),
        p(s[i]),
    ensures
        count_where(s, p) >= 1,
    decreases s.len(),
{
    if i < s.len() - 1 {
        lemma_count_positive(s.drop_last(), p, i);
    }
}

proof fn lemma_count_one_unique<T>(s: Seq<T>, p: spec_fn(T) -> bool, i: int, j: int)
    requires
        count_where(s, p) == 1,
        0 <= i < s.len(),
        0 <= j < s.len(),
        p(s[i]),
        p(s[j]),
    ensures
        i == j,
    decreases s.len(),
{
    let last = s.len() - 1;
    if i < last && j < last {
        if p(s.last()) {
            lemma_count_positive(s.drop_last(), p, i);
        } else {
            lemma_count_one_unique(s.drop_last(), p, i, j);
        }
    } else if i < last {
        lemma_count_positive(s.drop_last(), p, i);
    } else if j < last {
        lemma_count_positive(s.drop_last(), p, j);
    }
}

pub proof fn lemma_picks_unique<T>(s: Seq<T>, p: spec_fn(T) -> bool, r: Option<usize>)
    requires
        picks_unique(s, p, r),
    ensures
        r == unique_index(s, p),
{
    if let Some(i) = r {
        let k = choose|k: usize| k < s.len() && p(s[k as int]);
        lemma_count_one_unique(s, p, i as int, k as int);
    }
}

/// The defined name that a formula reference means (see `resolves_defined_name`).
pub open spec fn resolve_defined_name_fn(
    dv: Seq<DefinedNameModel>,
    selected_sheet_name: Seq<char>,
    name: Seq<char>,
    explicit_sheet_name: Option<Seq<char>>,
) -> Option<usize> {
    if count_where(dv, name_in_scope(name, ScopeFilterModel::AnyScope)) == 0 {
        None
    } else {
        match explicit_sheet_name {
            Some(s) => unique_index(dv, name_in_scope(name, ScopeFilterModel::SheetScope(s))),
            None => if count_where(dv, name_in_scope(name, ScopeFilterModel::SheetScope(selected_sheet_name))) == 1 {
                unique_index(dv, name_in_scope(name, ScopeFilterModel::SheetScope(selected_sheet_name)))
            } else {
                unique_index(dv, name_in_scope(name, ScopeFilterModel::WorkbookScope))
            },
        }
    }
}

proof fn lemma_resolves_defined_name(
    dv: Seq<DefinedNameModel>,
    selected_sheet_name: Seq<char>,
    name: Seq<char>,
    explicit_sheet_name: Option<Seq<char>>,
    r: Option<usize>,
)
    requires
        resolves_defined_name(dv, selected_sheet_name, name, explicit_sheet_name, r),
    ensures
        r == resolve_defined_name_fn(dv, selected_sheet_name, name, explicit_sheet_name),
{
    if count_where(dv, name_in_scope(name, ScopeFilterModel::AnyScope)) != 0 {
        match explicit_sheet_name {
            Some(s) => lemma_picks_unique(dv, name_in_scope(name, ScopeFilterModel::SheetScope(s)), r),
            None => if count_where(dv, name_in_scope(name, ScopeFilterModel::SheetScope(selected_sheet_name))) == 1 {
                lemma_picks_unique(dv, name_in_scope(name, ScopeFilterModel::SheetScope(selected_sheet_name)), r)
            } else {
                lemma_picks_unique(dv, name_in_scope(name, ScopeFilterModel::WorkbookScope), r)
            },
        }
    }
}

/// What the dependency edges of the selected sheet's formulas are resolved against.
pub struct DependencyContext {
    pub selected_worksheet_index: usize,
    pub worksheets: Seq<SheetModel>,
    pub defined_names: Seq<DefinedNameModel>,
    pub name_targets: Seq<Option<FormulaAstNode>>,
    pub selected_sheet_name: Seq<char>,
    pub tables: Seq<TableModel>,
}

/// The parsed target of the `k`-th defined name, if it was parsed.
pub open spec fn name_target(ctx: DependencyContext, k: usize) -> Option<FormulaAstNode> {
    if k < ctx.name_targets.len() {
        ctx.name_targets[k as int]
    } else {
        None
    }
}

/// Where a reference to a cell or range lives: the named sheet when the
/// reference names one (with a formula-to-worksheet edge), else the selected sheet.
pub open spec fn reference_home(
    g: GraphModel,
    ctx: DependencyContext,
    fid: Seq<char>,
    fref: Seq<char>,
    selected_part: Seq<char>,
    sheet_name: Option<Seq<char>>,
) -> Option<(GraphModel, usize, Seq<char>, Seq<char>)> {
    match sheet_name {
        Some(s) => match resolve_reference_sheet_spec(ctx.worksheets, s) {
            None => None,
            Some((wi, sn, pp)) => Some(
                (
                    push_edge_spec(
                        g,
                        EdgeModel {
                            kind: WorkbookGraphEdgeKind::FormulaReferencesWorksheet,
                            from: fid,
                            to: worksheet_node_id_spec(wi),
                            evidence: seq![
                                evidence_of(
                                    WorkbookGraphEvidenceKind::FormulaAstWorksheetReference,
                                    pp,
                                    Some(fref),
                                    "ast reference resolved to worksheet "@ + sn,
                                ),
                            ],
                        },
                    ),
                    wi,
                    sn,
                    pp,
                ),
            ),
        },
        None => Some((g, ctx.selected_worksheet_index, ctx.selected_sheet_name, selected_part)),
    }
}

/// One reference of a formula turned into nodes, edges and warning flags.
pub open spec fn reference_step(
    g: GraphModel,
    flags: GraphWarningFlags,
    ctx: DependencyContext,
    fid: Seq<char>,
    fref: Seq<char>,
    selected_part: Seq<char>,
    r: RefModel,
) -> (GraphModel, GraphWarningFlags) {
    match r {
        RefModel::Cell { reference, sheet_name } => match reference_home(g, ctx, fid, fref, selected_part, sheet_name) {
            None => (g, flags),
            Some((g, wi, sn, pp)) => {
                let id = cell_reference_node_id_spec(wi, reference);
                let g = insert_node_spec(g, reference_node(id, WorkbookGraphNodeKind::ReferencedCell, sn, pp, reference));
                (
                    push_edge_spec(
                        g,
                        EdgeModel {
                            kind: WorkbookGraphEdgeKind::FormulaReferencesCell,
                            from: fid,
                            to: id,
                            evidence: seq![
                                evidence_of(
                                    WorkbookGraphEvidenceKind::FormulaAstCellReference,
                                    pp,
                                    Some(fref),
                                    "ast cell reference "@ + sn + "!"@ + reference,
                                ),
                            ],
                        },
                    ),
                    flags,
                )
            },
        },
        RefModel::Range { start_reference, end_reference, sheet_name } => match reference_home(g, ctx, fid, fref, selected_part, sheet_name) {
            None => (g, flags),
            Some((g, wi, sn, pp)) => {
                let id = range_reference_node_id_spec(wi, start_reference, end_reference);
                let range = start_reference + ":"@ + end_reference;
                let g = insert_node_spec(g, reference_node(id, WorkbookGraphNodeKind::ReferencedRange, sn, pp, range));
                (
                    push_edge_spec(
                        g,
                        EdgeModel {
                            kind: WorkbookGraphEdgeKind::FormulaReferencesRange,
                            from: fid,
                            to: id,
                            evidence: seq![
                                evidence_of(
                                    WorkbookGraphEvidenceKind::FormulaAstRangeReference,
                                    pp,
                                    Some(fref),
                                    "ast range reference "@ + sn + "!"@ + range,
                                ),
                            ],
                        },
                    ),
                    flags,
                )
            },
        },
        RefModel::DefinedName { name, sheet_name } => match resolve_defined_name_fn(
            ctx.defined_names,
            ctx.selected_sheet_name,
            name,
            sheet_name,
        ) {
            None => (g, GraphWarningFlags { unresolved_defined_name_reference: true, ..flags }),
            Some(k) => {
                let d = ctx.defined_names[k as int];
                let id = defined_name_node_id_spec(d);
                let g = insert_node_spec(g, defined_name_node(d));
                let g = push_edge_spec(
                    g,
                    EdgeModel {
                        kind: WorkbookGraphEdgeKind::FormulaReferencesDefinedName,
                        from: fid,
                        to: id,
                        evidence: seq![
                            evidence_of(
                                WorkbookGraphEvidenceKind::FormulaAstDefinedNameReference,
                                selected_part,
                                Some(fref),
                                "ast defined-name reference "@ + defined_name_label_spec(d),
                            ),
                        ],
                    },
                );
                target_edges_spec(g, flags, d, name_target(ctx, k), id, ctx.worksheets)
            },
        },
        RefModel::StructuredReference { text } => match structured_reference_table_spec(text) {
            None => (g, GraphWarningFlags { unresolved_table_reference: true, ..flags }),
            Some(table_name) => match unique_index(ctx.tables, table_named(table_name)) {
                None => (g, GraphWarningFlags { unresolved_table_reference: true, ..flags }),
                Some(k) => {
                    let t = ctx.tables[k as int];
                    (
                        push_edge_spec(
                            g,
                            EdgeModel {
                                kind: WorkbookGraphEdgeKind::FormulaReferencesTable,
                                from: fid,
                                to: table_node_id_spec(t),
                                evidence: seq![
                                    evidence_of(
                                        WorkbookGraphEvidenceKind::FormulaAstStructuredReference,
                                        selected_part,
                                        Some(fref),
                                        "structured reference "@ + text + " resolved to table "@ + t.sheet_name + "!"@
                                            + t.name,
                                    ),
                                ],
                            },
                        ),
                        flags,
                    )
                },
            },
        },
    }
}

/// The references among the first `k`, applied in order.
pub open spec fn references_fold(
    g: GraphModel,
    flags: GraphWarningFlags,
    ctx: DependencyContext,
    fid: Seq<char>,
    fref: Seq<char>,
    selected_part: Seq<char>,
    refs: Seq<RefModel>,
    k: nat,
) -> (GraphModel, GraphWarningFlags)
    decreases k,
{
    if k == 0 || k > refs.len() {
        (g, flags)
    } else {
        let prev = references_fold(g, flags, ctx, fid, fref, selected_part, refs, (k - 1) as nat);
        reference_step(prev.0, prev.1, ctx, fid, fref, selected_part, refs[k - 1])
    }
}

/// The dependency edges of one formula of the selected sheet: nothing when
/// its formula did not parse or the selected sheet has no part path.
pub open spec fn formula_edges_spec(
    g: GraphModel,
    flags: GraphWarningFlags,
    ctx: DependencyContext,
    fid: Seq<char>,
    fref: Seq<char>,
    root: Option<FormulaAstNode>,
) -> (GraphModel, GraphWarningFlags) {
    match root {
        None => (g, flags),
        Some(node) => if ctx.selected_worksheet_index >= ctx.worksheets.len() {
            (g, flags)
        } else {
            match ctx.worksheets[ctx.selected_worksheet_index as int].part_path {
                None => (g, flags),
                Some(selected_part) => {
                    let refs = refs_of(node);
                    references_fold(g, flags, ctx, fid, fref, selected_part, refs, refs.len())
                },
            }
        },
    }
}

/// The inputs of dependency resolution.
pub struct DependencyResolutionContext<'a> {
    pub selected_worksheet_index: usize,
    pub worksheets: &'a Vec<SheetSummary>,
    pub defined_names: &'a Vec<DefinedNameSummary>,
    pub defined_name_targets: &'a Vec<Option<FormulaAstNode>>,
    pub selected_sheet_name: &'a str,
    pub tables: &'a Vec<ParsedWorkbookTable>,
}

impl<'a> DependencyResolutionContext<'a> {
    pub open spec fn model(&self) -> DependencyContext {
        DependencyContext {
            selected_worksheet_index: self.selected_worksheet_index,
            worksheets: sheets_view(self.worksheets@),
            defined_names: defined_names_view(self.defined_names@),
            name_targets: self.defined_name_targets@,
            selected_sheet_name: self.selected_sheet_name@,
            tables: tables_view(self.tables@),
        }
    }
}


fn reference_home_exec(
    graph: &mut GraphBuildState,
    context: &DependencyResolutionContext,
    formula_node_id: &str,
    formula_reference: &str,
    selected_part: &String,
    sheet_name: &Option<String>,
) -> (r: Option<(usize, String, String)>)
    ensures
        match reference_home(old(graph).model(), context.model(), formula_node_id@, formula_reference@, selected_part@, ov(*sheet_name)) {
            None => r is None && final(graph).model() == old(graph).model(),
            Some((g, wi, sn, pp)) => resolved_sheet_view(r) == Some((wi, sn, pp)) && final(graph).model() == g,
        },
{
    match sheet_name {
        Some(s) => match resolve_reference_sheet(context.worksheets, s.as_str()) {
            None => None,
            Some((worksheet_index, sheet, part_path)) => {
                let mut detail = owned("ast reference resolved to worksheet ");
                append_str(&mut detail, sheet.as_str());
                let evidence = single_evidence(
                    WorkbookGraphEvidenceKind::FormulaAstWorksheetReference,
                    part_path.clone(),
                    Some(owned(formula_reference)),
                    detail,
                );
                push_edge(
                    graph,
                    WorkbookGraphEdgeKind::FormulaReferencesWorksheet,
                    owned(formula_node_id),
                    worksheet_node_id(worksheet_index),
                    evidence,
                );
                Some((worksheet_index, sheet, part_path))
            },
        },
        None => Some((context.selected_worksheet_index, owned(context.selected_sheet_name), selected_part.clone())),
    }
}

fn apply_reference(
    graph: &mut GraphBuildState,
    warning_flags: &mut GraphWarningFlags,
    context: &DependencyResolutionContext,
    formula_node_id: &str,
    formula_reference: &str,
    selected_part: &String,
    reference: &FormulaReference,
)
    ensures
        (final(graph).model(), *final(warning_flags)) == reference_step(
            old(graph).model(),
            *old(warning_flags),
            context.model(),
            formula_node_id@,
            formula_reference@,
            selected_part@,
            reference@,
        ),
{
    match reference {
        FormulaReference::Cell { reference, sheet_name } => {
            match reference_home_exec(graph, context, formula_node_id, formula_reference, selected_part, sheet_name) {
                None => {},
                Some((worksheet_index, sheet, part_path)) => {
                    let node_id = cell_reference_node_id(worksheet_index, reference.as_str());
                    let node = reference_node_exec(&node_id, WorkbookGraphNodeKind::ReferencedCell, &sheet, &part_path, reference);
                    insert_node(graph, node);
                    let mut detail = owned("ast cell reference ");
                    append_str(&mut detail, sheet.as_str());
                    append_str(&mut detail, "!");
                    append_str(&mut detail, reference.as_str());
                    let evidence = single_evidence(
                        WorkbookGraphEvidenceKind::FormulaAstCellReference,
                        part_path,
                        Some(owned(formula_reference)),
                        detail,
                    );
                    push_edge(graph, WorkbookGraphEdgeKind::FormulaReferencesCell, owned(formula_node_id), node_id, evidence);
                },
            }
        },
        FormulaReference::Range { start_reference, end_reference, sheet_name } => {
            match reference_home_exec(graph, context, formula_node_id, formula_reference, selected_part, sheet_name) {
                None => {},
                Some((worksheet_index, sheet, part_path)) => {
                    let node_id = range_reference_node_id(worksheet_index, start_reference.as_str(), end_reference.as_str());
                    let mut range = start_reference.clone();
                    append_str(&mut range, ":");
                    append_str(&mut range, end_reference.as_str());
                    let node = reference_node_exec(&node_id, WorkbookGraphNodeKind::ReferencedRange, &sheet, &part_path, &range);
                    insert_node(graph, node);
                    let mut detail = owned("ast range reference ");
                    append_str(&mut detail, sheet.as_str());
                    append_str(&mut detail, "!");
                    append_str(&mut detail, range.as_str());
                    let evidence = single_evidence(
                        WorkbookGraphEvidenceKind::FormulaAstRangeReference,
                        part_path,
                        Some(owned(formula_reference)),
                        detail,
                    );
                    push_edge(graph, WorkbookGraphEdgeKind::FormulaReferencesRange, owned(formula_node_id), node_id, evidence);
                },
            }
        },
        FormulaReference::DefinedName { name, sheet_name } => {
            let explicit = match sheet_name {
                Some(s) => Some(s.as_str()),
                None => None,
            };
            let resolved = resolve_defined_name_reference(
                context.defined_names,
                context.selected_sheet_name,
                name.as_str(),
                explicit,
            );
            proof {
                lemma_resolves_defined_name(
                    defined_names_view(context.defined_names@),
                    context.selected_sheet_name@,
                    name@,
                    ov(*sheet_name),
                    resolved,
                );
            }
            match resolved {
                None => {
                    warning_flags.unresolved_defined_name_reference = true;
                },
                Some(k) => {
                    let defined_name = &context.defined_names[k];
                    assert(context.model().defined_names[k as int] == defined_name_view(*defined_name));
                    let node_id = ensure_defined_name_node(graph, defined_name);
                    let mut detail = owned("ast defined-name reference ");
                    let label = defined_name_label(defined_name);
                    append_str(&mut detail, label.as_str());
                    let evidence = single_evidence(
                        WorkbookGraphEvidenceKind::FormulaAstDefinedNameReference,
                        selected_part.clone(),
                        Some(owned(formula_reference)),
                        detail,
                    );
                    push_edge(
                        graph,
                        WorkbookGraphEdgeKind::FormulaReferencesDefinedName,
                        owned(formula_node_id),
                        node_id.clone(),
                        evidence,
                    );
                    let none: Option<FormulaAstNode> = None;
                    let target = if k < context.defined_name_targets.len() {
                        &context.defined_name_targets[k]
                    } else {
                        &none
                    };
                    emit_defined_name_target_edges(defined_name, target, node_id.as_str(), context.worksheets, graph, warning_flags);
                },
            }
        },
        FormulaReference::StructuredReference { text } => {
            match parse_structured_reference_table_name(text.as_str()) {
                None => {
                    warning_flags.unresolved_table_reference = true;
                },
                Some(table_name) => {
                    let found = resolve_table_reference(context.tables, table_name.as_str());
                    proof {
                        lemma_picks_unique(tables_view(context.tables@), table_named(table_name@), found);
                    }
                    match found {
                        None => {
                            warning_flags.unresolved_table_reference = true;
                        },
                        Some(k) => {
                            let table = &context.tables[k];
                            assert(context.model().tables[k as int] == table_view(*table));
                            let mut detail = owned("structured reference ");
                            append_str(&mut detail, text.as_str());
                            append_str(&mut detail, " resolved to table ");
                            append_str(&mut detail, table.sheet_name.as_str());
                            append_str(&mut detail, "!");
                            append_str(&mut detail, table.name.as_str());
                            let evidence = single_evidence(
                                WorkbookGraphEvidenceKind::FormulaAstStructuredReference,
                                selected_part.clone(),
                                Some(owned(formula_reference)),
                                detail,
                            );
                            push_edge(
                                graph,
                                WorkbookGraphEdgeKind::FormulaReferencesTable,
                                owned(formula_node_id),
                                table_node_id(table),
                                evidence,
                            );
                        },
                    }
                },
            }
        },
    }
}

pub fn emit_formula_dependency_edges(
    formula: &SheetFormulaSummary,
    formula_node_id: &str,
    context: &DependencyResolutionContext,
    graph: &mut GraphBuildState,
    warning_flags: &mut GraphWarningFlags,
)
    ensures
        (final(graph).model(), *final(warning_flags)) == formula_edges_spec(
            old(graph).model(),
            *old(warning_flags),
            context.model(),
            formula_node_id@,
            formula.reference@,
            formula.parse.root,
        ),
{
    let root = match &formula.parse.root {
        Some(root) => root,
        None => return,
    };
    let mut references: Vec<FormulaReference> = Vec::new();
    collect_formula_references(root, &mut references);
    assert(refs_view(references@) =~= refs_of(*root));
    if context.selected_worksheet_index >= context.worksheets.len() {
        return;
    }
    let selected_summary = &context.worksheets[context.selected_worksheet_index];
    assert(context.model().worksheets[context.selected_worksheet_index as int] == sheet_view(*selected_summary));
    let selected_part = match &selected_summary.part_path {
        Some(p) => p.clone(),
        None => return,
    };
    let ghost g0 = graph.model();
    let ghost f0 = *warning_flags;
    let ghost rv = refs_view(references@);
    let mut i: usize = 0;
    while i < references.len()
        invariant
            rv == refs_view(references@),
            i <= rv.len(),
            (graph.model(), *warning_flags) == references_fold(
                g0,
                f0,
                context.model(),
                formula_node_id@,
                formula.reference@,
                selected_part@,
                rv,
                i as nat,
            ),
        decreases rv.len() - i,
    {
        assert(rv[i as int] == references@[i as int]@);
        apply_reference(graph, warning_flags, context, formula_node_id, formula.reference.as_str(), &selected_part, &references[i]);
        i += 1;
    }
}


// ---------------------------------------------------------------------------
// Power Query lineage

/// The target of a query's `Excel.CurrentWorkbook` name (see `resolves_workbook_name`).
pub open spec fn workbook_name_fn(dv: Seq<DefinedNameModel>, tv: Seq<TableModel>, name: Seq<char>) -> Option<PowerQueryWorkbookNameTarget> {
    let dp = name_in_scope(name, ScopeFilterModel::WorkbookScope);
    let tp = table_named(name);
    if count_where(dv, dp) == 1 && count_where(tv, tp) == 0 {
        Some(PowerQueryWorkbookNameTarget::DefinedName(unique_index(dv, dp).unwrap()))
    } else if count_where(dv, dp) == 0 && count_where(tv, tp) == 1 {
        Some(PowerQueryWorkbookNameTarget::Table(unique_index(tv, tp).unwrap()))
    } else {
        None
    }
}

proof fn lemma_resolves_workbook_name(dv: Seq<DefinedNameModel>, tv: Seq<TableModel>, name: Seq<char>, r: Option<PowerQueryWorkbookNameTarget>)
    requires
        resolves_workbook_name(dv, tv, name, r),
    ensures
        r == workbook_name_fn(dv, tv, name),
{
    let dp = name_in_scope(name, ScopeFilterModel::WorkbookScope);
    let tp = table_named(name);
    match r {
        Some(PowerQueryWorkbookNameTarget::DefinedName(i)) => {
            lemma_picks_unique(dv, dp, Some(i));
        },
        Some(PowerQueryWorkbookNameTarget::Table(i)) => {
            lemma_picks_unique(tv, tp, Some(i));
        },
        None => {},
    }
}

/// What Power Query lineage is resolved against.
pub struct LineageContext {
    pub queries: Seq<ExtractedPowerQueryQuery>,
    pub defined_names: Seq<DefinedNameModel>,
    pub name_targets: Seq<Option<FormulaAstNode>>,
    pub tables: Seq<TableModel>,
    pub worksheets: Seq<SheetModel>,
}

pub open spec fn lineage_name_target(ctx: LineageContext, k: usize) -> Option<FormulaAstNode> {
    if k < ctx.name_targets.len() {
        ctx.name_targets[k as int]
    } else {
        None
    }
}

pub open spec fn query_node(q: ExtractedPowerQueryQuery) -> NodeModel {
    NodeModel {
        id: power_query_query_node_id_spec(q.name@),
        kind: WorkbookGraphNodeKind::PowerQueryQuery,
        label: q.name@,
        sheet_name: None,
        part_path: Some(q.source_part@),
        cell_reference: None,
        formula: Some(q.source@),
        cached_value: None,
    }
}

pub open spec fn query_nodes_fold(g: GraphModel, queries: Seq<ExtractedPowerQueryQuery>, k: nat) -> GraphModel
    decreases k,
{
    if k == 0 || k > queries.len() {
        g
    } else {
        insert_node_spec(query_nodes_fold(g, queries, (k - 1) as nat), query_node(queries[k - 1]))
    }
}

/// One lexical reference of query `q` turned into edges and warning flags.
pub open spec fn lineage_step(
    g: GraphModel,
    flags: GraphWarningFlags,
    ctx: LineageContext,
    q: ExtractedPowerQueryQuery,
    r: PowerQueryLexicalReference,
) -> (GraphModel, GraphWarningFlags) {
    let from = power_query_query_node_id_spec(q.name@);
    let line = decimal(r.source_line as nat);
    match r.kind {
        PowerQueryLexicalReferenceKind::QueryName => match unique_index(
            query_names(ctx.queries),
            query_named(r.target_name@),
        ) {
            None => (g, GraphWarningFlags { unresolved_power_query_query_reference: true, ..flags }),
            Some(k) => {
                let target = ctx.queries[k as int];
                (
                    push_edge_spec(
                        g,
                        EdgeModel {
                            kind: WorkbookGraphEdgeKind::PowerQueryReferencesQuery,
                            from,
                            to: power_query_query_node_id_spec(target.name@),
                            evidence: seq![
                                evidence_of(
                                    WorkbookGraphEvidenceKind::PowerQueryLexicalQueryReference,
                                    q.source_part@,
                                    None,
                                    "Power Query "@ + q.name@ + " lexically references query "@ + target.name@
                                        + " on line "@ + line,
                                ),
                            ],
                        },
                    ),
                    flags,
                )
            },
        },
        PowerQueryLexicalReferenceKind::WorkbookName => match workbook_name_fn(
            ctx.defined_names,
            ctx.tables,
            r.target_name@,
        ) {
            None => (g, GraphWarningFlags { unresolved_power_query_workbook_name_reference: true, ..flags }),
            Some(PowerQueryWorkbookNameTarget::DefinedName(k)) => {
                let d = ctx.defined_names[k as int];
                let id = defined_name_node_id_spec(d);
                let g = insert_node_spec(g, defined_name_node(d));
                let g = push_edge_spec(
                    g,
                    EdgeModel {
                        kind: WorkbookGraphEdgeKind::PowerQueryReferencesDefinedName,
                        from,
                        to: id,
                        evidence: seq![
                            evidence_of(
                                WorkbookGraphEvidenceKind::PowerQueryLexicalWorkbookNameReference,
                                q.source_part@,
                                None,
                                "Power Query "@ + q.name@ + " resolved Excel.CurrentWorkbook name "@ + r.target_name@
                                    + " to defined name "@ + defined_name_label_spec(d) + " on line "@ + line,
                            ),
                        ],
                    },
                );
                target_edges_spec(g, flags, d, lineage_name_target(ctx, k), id, ctx.worksheets)
            },
            Some(PowerQueryWorkbookNameTarget::Table(k)) => {
                let t = ctx.tables[k as int];
                (
                    push_edge_spec(
                        g,
                        EdgeModel {
                            kind: WorkbookGraphEdgeKind::PowerQueryReferencesTable,
                            from,
                            to: table_node_id_spec(t),
                            evidence: seq![
                                evidence_of(
                                    WorkbookGraphEvidenceKind::PowerQueryLexicalWorkbookNameReference,
                                    q.source_part@,
                                    None,
                                    "Power Query "@ + q.name@ + " resolved Excel.CurrentWorkbook name "@ + r.target_name@
                                        + " to table "@ + t.sheet_name + "!"@ + t.name + " on line "@ + line,
                                ),
                            ],
                        },
                    ),
                    flags,
                )
            },
        },
    }
}

pub open spec fn query_refs_fold(
    g: GraphModel,
    flags: GraphWarningFlags,
    ctx: LineageContext,
    q: ExtractedPowerQueryQuery,
    k: nat,
) -> (GraphModel, GraphWarningFlags)
    decreases k,
{
    if k == 0 || k > q.lexical_references@.len() {
        (g, flags)
    } else {
        let prev = query_refs_fold(g, flags, ctx, q, (k - 1) as nat);
        lineage_step(prev.0, prev.1, ctx, q, q.lexical_references@[k - 1])
    }
}

pub open spec fn lineage_fold(g: GraphModel, flags: GraphWarningFlags, ctx: LineageContext, k: nat) -> (GraphModel, GraphWarningFlags)
    decreases k,
{
    if k == 0 || k > ctx.queries.len() {
        (g, flags)
    } else {
        let prev = lineage_fold(g, flags, ctx, (k - 1) as nat);
        let q = ctx.queries[k - 1];
        query_refs_fold(prev.0, prev.1, ctx, q, q.lexical_references@.len())
    }
}

/// The query nodes, then the edges of each query's lexical references in order.
pub open spec fn lineage_spec(g: GraphModel, flags: GraphWarningFlags, ctx: LineageContext) -> (GraphModel, GraphWarningFlags) {
    lineage_fold(query_nodes_fold(g, ctx.queries, ctx.queries.len()), flags, ctx, ctx.queries.len())
}

pub open spec fn lineage_context(
    queries: Seq<ExtractedPowerQueryQuery>,
    defined_names: Seq<DefinedNameSummary>,
    defined_name_targets: Seq<Option<FormulaAstNode>>,
    tables: Seq<ParsedWorkbookTable>,
    worksheets: Seq<SheetSummary>,
) -> LineageContext {
    LineageContext {
        queries,
        defined_names: defined_names_view(defined_names),
        name_targets: defined_name_targets,
        tables: tables_view(tables),
        worksheets: sheets_view(worksheets),
    }
}

fn apply_lineage_reference(
    queries: &Vec<ExtractedPowerQueryQuery>,
    defined_names: &Vec<DefinedNameSummary>,
    defined_name_targets: &Vec<Option<FormulaAstNode>>,
    tables: &Vec<ParsedWorkbookTable>,
    worksheets: &Vec<SheetSummary>,
    query: &ExtractedPowerQueryQuery,
    reference: &PowerQueryLexicalReference,
    graph: &mut GraphBuildState,
    warning_flags: &mut GraphWarningFlags,
)
    ensures
        (final(graph).model(), *final(warning_flags)) == lineage_step(
            old(graph).model(),
            *old(warning_flags),
            lineage_context(queries@, defined_names@, defined_name_targets@, tables@, worksheets@),
            *query,
            *reference,
        ),
{
    let from_id = power_query_query_node_id(query.name.as_str());
    let line = decimal_string(reference.source_line);
    match reference.kind {
        PowerQueryLexicalReferenceKind::QueryName => {
            let found = resolve_power_query_reference(queries, reference.target_name.as_str());
            proof {
                lemma_picks_unique(query_names(queries@), query_named(reference.target_name@), found);
            }
            match found {
                None => {
                    warning_flags.unresolved_power_query_query_reference = true;
                },
                Some(k) => {
                    let target = &queries[k];
                    let mut detail = owned("Power Query ");
                    append_str(&mut detail, query.name.as_str());
                    append_str(&mut detail, " lexically references query ");
                    append_str(&mut detail, target.name.as_str());
                    append_str(&mut detail, " on line ");
                    append_str(&mut detail, line.as_str());
                    let evidence = single_evidence(
                        WorkbookGraphEvidenceKind::PowerQueryLexicalQueryReference,
                        query.source_part.clone(),
                        None,
                        detail,
                    );
                    push_edge(
                        graph,
                        WorkbookGraphEdgeKind::PowerQueryReferencesQuery,
                        from_id,
                        power_query_query_node_id(target.name.as_str()),
                        evidence,
                    );
                },
            }
        },
        PowerQueryLexicalReferenceKind::WorkbookName => {
            let target = resolve_power_query_workbook_name_target(defined_names, tables, reference.target_name.as_str());
            proof {
                lemma_resolves_workbook_name(defined_names_view(defined_names@), tables_view(tables@), reference.target_name@, target);
            }
            match target {
                None => {
                    warning_flags.unresolved_power_query_workbook_name_reference = true;
                },
                Some(PowerQueryWorkbookNameTarget::DefinedName(k)) => {
                    let defined_name = &defined_names[k];
                    assert(defined_names_view(defined_names@)[k as int] == defined_name_view(*defined_name));
                    let node_id = ensure_defined_name_node(graph, defined_name);
                    let mut detail = owned("Power Query ");
                    append_str(&mut detail, query.name.as_str());
                    append_str(&mut detail, " resolved Excel.CurrentWorkbook name ");
                    append_str(&mut detail, reference.target_name.as_str());
                    append_str(&mut detail, " to defined name ");
                    let label = defined_name_label(defined_name);
                    append_str(&mut detail, label.as_str());
                    append_str(&mut detail, " on line ");
                    append_str(&mut detail, line.as_str());
                    let evidence = single_evidence(
                        WorkbookGraphEvidenceKind::PowerQueryLexicalWorkbookNameReference,
                        query.source_part.clone(),
                        None,
                        detail,
                    );
                    push_edge(graph, WorkbookGraphEdgeKind::PowerQueryReferencesDefinedName, from_id, node_id.clone(), evidence);
                    let none: Option<FormulaAstNode> = None;
                    let parsed = if k < defined_name_targets.len() {
                        &defined_name_targets[k]
                    } else {
                        &none
                    };
                    emit_defined_name_target_edges(defined_name, parsed, node_id.as_str(), worksheets, graph, warning_flags);
                },
                Some(PowerQueryWorkbookNameTarget::Table(k)) => {
                    let table = &tables[k];
                    assert(tables_view(tables@)[k as int] == table_view(*table));
                    let mut detail = owned("Power Query ");
                    append_str(&mut detail, query.name.as_str());
                    append_str(&mut detail, " resolved Excel.CurrentWorkbook name ");
                    append_str(&mut detail, reference.target_name.as_str());
                    append_str(&mut detail, " to table ");
                    append_str(&mut detail, table.sheet_name.as_str());
                    append_str(&mut detail, "!");
                    append_str(&mut detail, table.name.as_str());
                    append_str(&mut detail, " on line ");
                    append_str(&mut detail, line.as_str());
                    let evidence = single_evidence(
                        WorkbookGraphEvidenceKind::PowerQueryLexicalWorkbookNameReference,
                        query.source_part.clone(),
                        None,
                        detail,
                    );
                    push_edge(graph, WorkbookGraphEdgeKind::PowerQueryReferencesTable, from_id, table_node_id(table), evidence);
                },
            }
        },
    }
}

pub fn emit_power_query_lineage_edges(
    queries: &Vec<ExtractedPowerQueryQuery>,
    defined_names: &Vec<DefinedNameSummary>,
    defined_name_targets: &Vec<Option<FormulaAstNode>>,
    tables: &Vec<ParsedWorkbookTable>,
    worksheets: &Vec<SheetSummary>,
    graph: &mut GraphBuildState,
    warning_flags: &mut GraphWarningFlags,
)
    ensures
        (final(graph).model(), *final(warning_flags)) == lineage_spec(
            old(graph).model(),
            *old(warning_flags),
            lineage_context(queries@, defined_names@, defined_name_targets@, tables@, worksheets@),
        ),
{
    let ghost ctx = lineage_context(queries@, defined_names@, defined_name_targets@, tables@, worksheets@);
    let ghost g0 = graph.model();
    let mut i: usize = 0;
    while i < queries.len()
        invariant
            ctx == lineage_context(queries@, defined_names@, defined_name_targets@, tables@, worksheets@),
            i <= queries@.len(),
            graph.model() == query_nodes_fold(g0, queries@, i as nat),
        decreases queries@.len() - i,
    {
        let query = &queries[i];
        let node = WorkbookGraphNode {
            id: power_query_query_node_id(query.name.as_str()),
            kind: WorkbookGraphNodeKind::PowerQueryQuery,
            label: query.name.clone(),
            sheet_name: None,
            part_path: Some(query.source_part.clone()),
            cell_reference: None,
            formula: Some(query.source.clone()),
            cached_value: None,
        };
        assert(node@ == query_node(queries@[i as int]));
        insert_node(graph, node);
        i += 1;
    }
    let ghost g1 = graph.model();
    let ghost f1 = *warning_flags;
    let mut qi: usize = 0;
    while qi < queries.len()
        invariant
            ctx == lineage_context(queries@, defined_names@, defined_name_targets@, tables@, worksheets@),
            qi <= queries@.len(),
            (graph.model(), *warning_flags) == lineage_fold(g1, f1, ctx, qi as nat),
        decreases queries@.len() - qi,
    {
        let query = &queries[qi];
        let ghost gq = graph.model();
        let ghost fq = *warning_flags;
        let mut ri: usize = 0;
        while ri < query.lexical_references.len()
            invariant
                ctx == lineage_context(queries@, defined_names@, defined_name_targets@, tables@, worksheets@),
                *query == queries@[qi as int],
                ri <= query.lexical_references@.len(),
                (graph.model(), *warning_flags) == query_refs_fold(gq, fq, ctx, *query, ri as nat),
            decreases query.lexical_references@.len() - ri,
        {
            apply_lineage_reference(
                queries,
                defined_names,
                defined_name_targets,
                tables,
                worksheets,
                query,
                &query.lexical_references[ri],
                graph,
                warning_flags,
            );
            ri += 1;
        }
        qi += 1;
    }
}


// ---------------------------------------------------------------------------
// Warnings

pub open spec fn partial_graph_warning() -> Seq<char> {
    "workbook graph is partial: it emits workbook structure, selected-sheet formula membership, and AST-backed dependency edges only where proven"@
}

pub open spec fn any_unsupported(fs: Seq<SheetFormulaSummary>) -> bool {
    exists|i: int| 0 <= i < fs.len() && (#[trigger] fs[i]).parse.unsupported_reasons@.len() > 0
}

pub open spec fn any_missing(fs: Seq<SheetFormulaSummary>) -> bool {
    exists|i: int| 0 <= i < fs.len() && (#[trigger] fs[i]).parse.state == FormulaAstParseState::Missing
}

pub open spec fn any_malformed(fs: Seq<SheetFormulaSummary>) -> bool {
    exists|i: int| 0 <= i < fs.len() && (#[trigger] fs[i]).parse.diagnostics@.len() > 0
}

pub open spec fn when(cond: bool, warning: Seq<char>) -> Set<Seq<char>> {
    if cond {
        set![warning]
    } else {
        Set::empty()
    }
}

/// The warnings of a graph, as a set: those of its inputs, the partial-graph
/// notice, and one for each condition that leaves edges out.
pub open spec fn graph_warning_set(
    workbook_warnings: Seq<Seq<char>>,
    power_query_warnings: Seq<Seq<char>>,
    formula_warnings: Seq<Seq<char>>,
    has_external_links: bool,
    formulas: Seq<SheetFormulaSummary>,
    flags: GraphWarningFlags,
) -> Set<Seq<char>> {
    workbook_warnings.to_set() + power_query_warnings.to_set() + formula_warnings.to_set() + set![partial_graph_warning()]
        + when(has_external_links, "workbook has external links; phase 1 graph omits external-link lineage"@)
        + when(
        any_unsupported(formulas),
        "selected sheet contains unsupported formulas; graph omits dependency edges for unsupported constructs"@,
    ) + when(
        any_missing(formulas),
        "selected sheet contains formulas without parsed ASTs; graph omits dependency edges for missing formulas"@,
    ) + when(
        any_malformed(formulas),
        "selected sheet contains malformed formulas; graph omits dependency edges for malformed formulas"@,
    ) + when(formulas.len() == 0, "selected sheet emitted no formulas; phase 1 graph contains structure only"@)
        + when(
        flags.unresolved_defined_name_reference,
        "selected sheet contains unresolved defined-name references; graph omits dependency edges for unresolved names"@,
    ) + when(
        flags.ambiguous_defined_name_target,
        "workbook contains defined names with unqualified workbook-scope cell or range targets; graph keeps those targets as opaque formula text"@,
    ) + when(
        flags.unresolved_table_reference,
        "selected sheet contains unresolved structured table references; graph omits dependency edges for unresolved table targets"@,
    ) + when(
        flags.unresolved_table_metadata,
        "workbook contains unresolved table metadata; graph omits table edges unless worksheet ownership and table ranges are proven"@,
    ) + when(
        flags.unresolved_power_query_query_reference,
        "workbook contains unresolved Power Query shared-query references; graph omits lineage edges for unresolved query targets"@,
    ) + when(
        flags.unresolved_power_query_workbook_name_reference,
        "workbook contains unresolved Power Query Excel.CurrentWorkbook name references; graph omits lineage edges for unresolved workbook-name targets"@,
    )
}

fn insert_all(set: &mut Vec<String>, items: &Vec<String>)
    requires
        strictly_sorted(old(set).deep_view()),
    ensures
        strictly_sorted(final(set).deep_view()),
        final(set).deep_view().to_set() == old(set).deep_view().to_set() + items.deep_view().to_set(),
{
    let ghost s0 = set.deep_view().to_set();
    let ghost iv = items.deep_view();
    let mut i: usize = 0;
    while i < items.len()
        invariant
            iv == items.deep_view(),
            i <= iv.len(),
            strictly_sorted(set.deep_view()),
            set.deep_view().to_set() == s0 + iv.take(i as int).to_set(),
        decreases iv.len() - i,
    {
        assert(items@[i as int]@ == iv[i as int]);
        insert_sorted(set, items[i].clone());
        assert(iv.take(i + 1) =~= iv.take(i as int).push(iv[i as int]));
        proof {
            iv.take(i as int).lemma_push_to_set_commute(iv[i as int]);
        }
        assert(set.deep_view().to_set() =~= s0 + iv.take(i + 1).to_set());
        i += 1;
    }
    assert(iv.take(iv.len() as int) =~= iv);
}

fn insert_when(set: &mut Vec<String>, cond: bool, warning: &str)
    requires
        strictly_sorted(old(set).deep_view()),
    ensures
        strictly_sorted(final(set).deep_view()),
        final(set).deep_view().to_set() == old(set).deep_view().to_set() + when(cond, warning@),
{
    if cond {
        insert_sorted(set, owned(warning));
        assert(set.deep_view().to_set() =~= old(set).deep_view().to_set() + when(cond, warning@));
    } else {
        assert(set.deep_view().to_set() =~= old(set).deep_view().to_set() + when(cond, warning@));
    }
}

pub fn build_graph_warnings(
    workbook_warnings: &Vec<String>,
    power_query_warnings: &Vec<String>,
    formulas: &InspectSheetFormulasResult,
    warning_flags: GraphWarningFlags,
) -> (r: Vec<String>)
    ensures
        strictly_sorted(r.deep_view()),
        r.deep_view().to_set() == graph_warning_set(
            workbook_warnings.deep_view(),
            power_query_warnings.deep_view(),
            formulas.warnings.deep_view(),
            formulas.has_external_links,
            formulas.formulas@,
            warning_flags,
        ),
{
    let mut warnings: Vec<String> = Vec::new();
    assert(warnings.deep_view().to_set() =~= Set::<Seq<char>>::empty());
    insert_all(&mut warnings, workbook_warnings);
    insert_all(&mut warnings, power_query_warnings);
    insert_all(&mut warnings, &formulas.warnings);
    insert_when(
        &mut warnings,
        true,
        "workbook graph is partial: it emits workbook structure, selected-sheet formula membership, and AST-backed dependency edges only where proven",
    );
    insert_when(
        &mut warnings,
        formulas.has_external_links,
        "workbook has external links; phase 1 graph omits external-link lineage",
    );
    let fs = &formulas.formulas;
    let mut unsupported = false;
    let mut missing = false;
    let mut malformed = false;
    let mut i: usize = 0;
    while i < fs.len()
        invariant
            i <= fs@.len(),
            unsupported == exists|j: int| 0 <= j < i && (#[trigger] fs@[j]).parse.unsupported_reasons@.len() > 0,
            missing == exists|j: int| 0 <= j < i && (#[trigger] fs@[j]).parse.state == FormulaAstParseState::Missing,
            malformed == exists|j: int| 0 <= j < i && (#[trigger] fs@[j]).parse.diagnostics@.len() > 0,
        decreases fs@.len() - i,
    {
        let f = &fs[i];
        if f.parse.unsupported_reasons.len() > 0 {
            unsupported = true;
        }
        if f.parse.state == FormulaAstParseState::Missing {
            missing = true;
        }
        if f.parse.diagnostics.len() > 0 {
            malformed = true;
        }
        i += 1;
    }
    insert_when(
        &mut warnings,
        unsupported,
        "selected sheet contains unsupported formulas; graph omits dependency edges for unsupported constructs",
    );
    insert_when(
        &mut warnings,
        missing,
        "selected sheet contains formulas without parsed ASTs; graph omits dependency edges for missing formulas",
    );
    insert_when(
        &mut warnings,
        malformed,
        "selected sheet contains malformed formulas; graph omits dependency edges for malformed formulas",
    );
    insert_when(&mut warnings, fs.len() == 0, "selected sheet emitted no formulas; phase 1 graph contains structure only");
    insert_when(
        &mut warnings,
        warning_flags.unresolved_defined_name_reference,
        "selected sheet contains unresolved defined-name references; graph omits dependency edges for unresolved names",
    );
    insert_when(
        &mut warnings,
        warning_flags.ambiguous_defined_name_target,
        "workbook contains defined names with unqualified workbook-scope cell or range targets; graph keeps those targets as opaque formula text",
    );
    insert_when(
        &mut warnings,
        warning_flags.unresolved_table_reference,
        "selected sheet contains unresolved structured table references; graph omits dependency edges for unresolved table targets",
    );
    insert_when(
        &mut warnings,
        warning_flags.unresolved_table_metadata,
        "workbook contains unresolved table metadata; graph omits table edges unless worksheet ownership and table ranges are proven",
    );
    insert_when(
        &mut warnings,
        warning_flags.unresolved_power_query_query_reference,
        "workbook contains unresolved Power Query shared-query references; graph omits lineage edges for unresolved query targets",
    );
    insert_when(
        &mut warnings,
        warning_flags.unresolved_power_query_workbook_name_reference,
        "workbook contains unresolved Power Query Excel.CurrentWorkbook name references; graph omits lineage edges for unresolved workbook-name targets",
    );
    proof {
        assert(when(true, partial_graph_warning()) =~= set![partial_graph_warning()]);
    }
    assert(warnings.deep_view().to_set() =~= graph_warning_set(
        workbook_warnings.deep_view(),
        power_query_warnings.deep_view(),
        formulas.warnings.deep_view(),
        formulas.has_external_links,
        formulas.formulas@,
        warning_flags,
    ));
    warnings
}


// ---------------------------------------------------------------------------
// The whole graph

/// The graph preview of a workbook.
#[derive(Debug, PartialEq, Eq)]
pub struct InspectWorkbookGraphResult {
    pub path: String,
    pub mode: WorkbookGraphMode,
    pub is_partial: bool,
    pub formula_inventory_scope: WorkbookGraphFormulaInventoryScope,
    pub formula_inventory_sheet: SheetPreview,
    pub max_formulas_applied: usize,
    pub formula_inventory_truncated: bool,
    pub nodes: Vec<WorkbookGraphNode>,
    pub edges: Vec<WorkbookGraphEdge>,
    pub warnings: Vec<String>,
}

/// The worksheets among a workbook's sheets, in order.
pub open spec fn worksheets_of(sheets: Seq<SheetModel>) -> Seq<SheetModel>
    decreases sheets.len(),
{
    if sheets.len() == 0 {
        Seq::empty()
    } else if sheets.last().kind == SheetKind::Worksheet {
        worksheets_of(sheets.drop_last()).push(sheets.last())
    } else {
        worksheets_of(sheets.drop_last())
    }
}

/// The first worksheet, from `i` on, whose part is the given one.
pub open spec fn worksheet_with_part_from(ws: Seq<SheetModel>, part_path: Seq<char>, i: int) -> Option<int>
    decreases ws.len() - i,
{
    if i < 0 || i >= ws.len() {
        None
    } else if ws[i].part_path == Some(part_path) {
        Some(i)
    } else {
        worksheet_with_part_from(ws, part_path, i + 1)
    }
}

pub open spec fn sheet_entry_detail(s: SheetModel) -> Seq<char> {
    "sheet entry name="@ + (match s.name {
        Some(n) => n,
        None => "<unnamed>"@,
    }) + " sheet_id="@ + (match s.sheet_id {
        Some(id) => decimal(id as nat),
        None => "<missing>"@,
    }) + " relationship_id="@ + (match s.relationship_id {
        Some(r) => r,
        None => "<missing>"@,
    })
}

pub open spec fn worksheet_evidence(s: SheetModel) -> Seq<EvidenceModel> {
    let entry = seq![
        evidence_of(WorkbookGraphEvidenceKind::WorkbookSheetEntry, workbook_part(), None, sheet_entry_detail(s)),
    ];
    match s.part_path {
        Some(p) => entry.push(
            evidence_of(
                WorkbookGraphEvidenceKind::WorkbookRelationship,
                "xl/_rels/workbook.xml.rels"@,
                None,
                "worksheet part target "@ + p,
            ),
        ),
        None => entry,
    }
}

/// The worksheet nodes and workbook-to-worksheet edges of the first `k` worksheets.
pub open spec fn worksheet_phase(g: GraphModel, ws: Seq<SheetModel>, k: nat) -> GraphModel
    decreases k,
{
    if k == 0 || k > ws.len() {
        g
    } else {
        let prev = worksheet_phase(g, ws, (k - 1) as nat);
        let i = (k - 1) as usize;
        let s = ws[i as int];
        let id = worksheet_node_id_spec(i);
        let g1 = GraphModel {
            nodes: prev.nodes.push(
                NodeModel {
                    id,
                    kind: WorkbookGraphNodeKind::Worksheet,
                    label: worksheet_label_spec(s, i),
                    sheet_name: s.name,
                    part_path: s.part_path,
                    cell_reference: None,
                    formula: None,
                    cached_value: None,
                },
            ),
            ..prev
        };
        push_edge_spec(
            g1,
            EdgeModel {
                kind: WorkbookGraphEdgeKind::WorkbookContainsWorksheet,
                from: "workbook"@,
                to: id,
                evidence: worksheet_evidence(s),
            },
        )
    }
}

/// The table, range and table-to-range edge of the first `k` tables.
pub open spec fn table_phase(g: GraphModel, tv: Seq<TableModel>, k: nat) -> GraphModel
    decreases k,
{
    if k == 0 || k > tv.len() {
        g
    } else {
        let prev = table_phase(g, tv, (k - 1) as nat);
        let t = tv[k - 1];
        let tid = table_node_id_spec(t);
        let rid = range_reference_node_id_spec(t.worksheet_index, t.start_reference, t.end_reference);
        let g1 = insert_node_spec(
            prev,
            NodeModel {
                id: tid,
                kind: WorkbookGraphNodeKind::Table,
                label: t.sheet_name + "!"@ + t.name,
                sheet_name: Some(t.sheet_name),
                part_path: Some(t.part_path),
                cell_reference: Some(t.range_reference),
                formula: None,
                cached_value: None,
            },
        );
        let g2 = insert_node_spec(
            g1,
            reference_node(rid, WorkbookGraphNodeKind::ReferencedRange, t.sheet_name, t.worksheet_part_path, t.range_reference),
        );
        push_edge_spec(
            g2,
            EdgeModel {
                kind: WorkbookGraphEdgeKind::TableHasRange,
                from: tid,
                to: rid,
                evidence: seq![
                    evidence_of(
                        WorkbookGraphEvidenceKind::WorksheetTableRelationship,
                        t.relationship_part_path,
                        None,
                        "worksheet "@ + t.sheet_name + " table relationship "@ + t.relationship_id + " -> "@ + t.part_path,
                    ),
                    evidence_of(
                        WorkbookGraphEvidenceKind::TableXmlRange,
                        t.part_path,
                        None,
                        "table "@ + t.name + " range "@ + t.range_reference,
                    ),
                ],
            },
        )
    }
}

/// The formula nodes, worksheet-to-formula edges and dependency edges of the first `k` formulas.
pub open spec fn formula_phase(
    g: GraphModel,
    flags: GraphWarningFlags,
    ctx: DependencyContext,
    sheet_name: Seq<char>,
    sheet_part: Seq<char>,
    fs: Seq<SheetFormulaSummary>,
    k: nat,
) -> (GraphModel, GraphWarningFlags)
    decreases k,
{
    if k == 0 || k > fs.len() {
        (g, flags)
    } else {
        let prev = formula_phase(g, flags, ctx, sheet_name, sheet_part, fs, (k - 1) as nat);
        let f = fs[k - 1];
        let fid = formula_node_id_spec(ctx.selected_worksheet_index, f.reference@);
        let g1 = GraphModel {
            nodes: prev.0.nodes.push(
                NodeModel {
                    id: fid,
                    kind: WorkbookGraphNodeKind::CellFormula,
                    label: sheet_name + "!"@ + f.reference@,
                    sheet_name: Some(sheet_name),
                    part_path: Some(sheet_part),
                    cell_reference: Some(f.reference@),
                    formula: Some(f.formula@),
                    cached_value: ov(f.cached_value),
                },
            ),
            ..prev.0
        };
        let g2 = push_edge_spec(
            g1,
            EdgeModel {
                kind: WorkbookGraphEdgeKind::WorksheetContainsFormula,
                from: worksheet_node_id_spec(ctx.selected_worksheet_index),
                to: fid,
                evidence: seq![
                    evidence_of(
                        WorkbookGraphEvidenceKind::WorksheetFormulaCell,
                        sheet_part,
                        Some(f.reference@),
                        "selected-sheet formula inventory entry"@,
                    ),
                ],
            },
        );
        formula_edges_spec(g2, prev.1, ctx, fid, f.reference@, f.parse.root)
    }
}

pub open spec fn no_flags() -> GraphWarningFlags {
    GraphWarningFlags {
        unresolved_defined_name_reference: false,
        ambiguous_defined_name_target: false,
        unresolved_table_reference: false,
        unresolved_table_metadata: false,
        unresolved_power_query_query_reference: false,
        unresolved_power_query_workbook_name_reference: false,
    }
}

pub open spec fn workbook_node(display_path: Seq<char>) -> NodeModel {
    NodeModel {
        id: "workbook"@,
        kind: WorkbookGraphNodeKind::Workbook,
        label: display_path,
        sheet_name: None,
        part_path: None,
        cell_reference: None,
        formula: None,
        cached_value: None,
    }
}

pub open spec fn selected_sheet_error() -> Seq<char> {
    "excel.inspect_workbook_graph could not match the selected worksheet back to workbook structure"@
}


/// The graph and warning flags that a workbook's inputs give, once the
/// selected sheet is the worksheet at `si`.
pub open spec fn graph_build_spec(
    display_path: Seq<char>,
    workbook: InspectWorkbookResult,
    formulas: InspectSheetFormulasResult,
    defined_name_targets: Seq<Option<FormulaAstNode>>,
    table_parse: WorkbookTableParse,
    power_query: Option<PowerQueryExtraction>,
    si: usize,
) -> (GraphModel, GraphWarningFlags) {
    let ws = worksheets_of(sheets_view(workbook.sheets@));
    let g0 = GraphModel { nodes: seq![workbook_node(display_path)], edges: Seq::empty() };
    let g1 = worksheet_phase(g0, ws, ws.len());
    let tv = tables_view(table_parse.tables@);
    let g2 = table_phase(g1, tv, tv.len());
    let ctx = DependencyContext {
        selected_worksheet_index: si,
        worksheets: ws,
        defined_names: defined_names_view(formulas.defined_names@),
        name_targets: defined_name_targets,
        selected_sheet_name: formulas.sheet.name@,
        tables: tv,
    };
    let f3 = formula_phase(
        g2,
        no_flags(),
        ctx,
        formulas.sheet.name@,
        formulas.sheet.part_path@,
        formulas.formulas@,
        formulas.formulas@.len(),
    );
    let f4 = match power_query {
        Some(x) => if workbook.markers.has_power_query {
            lineage_spec(
                f3.0,
                f3.1,
                LineageContext {
                    queries: x.queries@,
                    defined_names: defined_names_view(formulas.defined_names@),
                    name_targets: defined_name_targets,
                    tables: tv,
                    worksheets: ws,
                },
            )
        } else {
            f3
        },
        None => f3,
    };
    let unresolved_metadata = (workbook.markers.has_tables && table_parse.tables@.len() == 0)
        || table_parse.had_unresolved_table_metadata;
    (
        f4.0,
        if unresolved_metadata {
            GraphWarningFlags { unresolved_table_metadata: true, ..f4.1 }
        } else {
            f4.1
        },
    )
}

pub open spec fn power_query_warnings_of(workbook: InspectWorkbookResult, power_query: Option<PowerQueryExtraction>) -> Seq<Seq<char>> {
    match power_query {
        Some(x) => if workbook.markers.has_power_query {
            x.warnings.deep_view()
        } else {
            Seq::empty()
        },
        None => Seq::empty(),
    }
}

fn copy_sheet(s: &SheetSummary) -> (r: SheetSummary)
    ensures
        sheet_view(r) == sheet_view(*s),
{
    SheetSummary {
        name: copy_opt(&s.name),
        sheet_id: s.sheet_id,
        relationship_id: copy_opt(&s.relationship_id),
        part_path: copy_opt(&s.part_path),
        visibility: s.visibility,
        kind: s.kind,
    }
}

fn worksheet_summaries(sheets: &Vec<SheetSummary>) -> (r: Vec<SheetSummary>)
    ensures
        sheets_view(r@) == worksheets_of(sheets_view(sheets@)),
{
    let mut out: Vec<SheetSummary> = Vec::new();
    let ghost sv = sheets_view(sheets@);
    let mut i: usize = 0;
    while i < sheets.len()
        invariant
            sv == sheets_view(sheets@),
            i <= sv.len(),
            sheets_view(out@) == worksheets_of(sv.take(i as int)),
        decreases sv.len() - i,
    {
        assert(sv.take(i + 1).drop_last() =~= sv.take(i as int));
        assert(sv[i as int] == sheet_view(sheets@[i as int]));
        if sheets[i].kind == SheetKind::Worksheet {
            let ghost before = sheets_view(out@);
            let c = copy_sheet(&sheets[i]);
            out.push(c);
            assert(sheets_view(out@) =~= before.push(sv[i as int]));
        }
        i += 1;
    }
    assert(sv.take(sv.len() as int) =~= sv);
    out
}

fn sheet_entry_detail_exec(s: &SheetSummary) -> (r: String)
    ensures
        r@ == sheet_entry_detail(sheet_view(*s)),
{
    let mut d = owned("sheet entry name=");
    match &s.name {
        Some(n) => append_str(&mut d, n.as_str()),
        None => append_str(&mut d, "<unnamed>"),
    }
    append_str(&mut d, " sheet_id=");
    match s.sheet_id {
        Some(id) => {
            let t = decimal_string(id as usize);
            append_str(&mut d, t.as_str());
        },
        None => append_str(&mut d, "<missing>"),
    }
    append_str(&mut d, " relationship_id=");
    match &s.relationship_id {
        Some(r) => append_str(&mut d, r.as_str()),
        None => append_str(&mut d, "<missing>"),
    }
    d
}

fn add_worksheets(graph: &mut GraphBuildState, worksheets: &Vec<SheetSummary>)
    ensures
        final(graph).model() == worksheet_phase(old(graph).model(), sheets_view(worksheets@), worksheets@.len() as nat),
{
    let ghost ws = sheets_view(worksheets@);
    let ghost g0 = graph.model();
    let mut i: usize = 0;
    while i < worksheets.len()
        invariant
            ws == sheets_view(worksheets@),
            i <= ws.len(),
            graph.model() == worksheet_phase(g0, ws, i as nat),
        decreases ws.len() - i,
    {
        let summary = &worksheets[i];
        assert(ws[i as int] == sheet_view(*summary));
        let node_id = worksheet_node_id(i);
        push_node(
            graph,
            WorkbookGraphNode {
                id: node_id.clone(),
                kind: WorkbookGraphNodeKind::Worksheet,
                label: worksheet_label(summary, i),
                sheet_name: copy_opt(&summary.name),
                part_path: copy_opt(&summary.part_path),
                cell_reference: None,
                formula: None,
                cached_value: None,
            },
        );
        let mut evidence = vec![WorkbookGraphEvidence {
            kind: WorkbookGraphEvidenceKind::WorkbookSheetEntry,
            part_path: workbook_part_string(),
            cell_reference: None,
            detail: sheet_entry_detail_exec(summary),
        }];
        if let Some(part_path) = &summary.part_path {
            let mut detail = owned("worksheet part target ");
            append_str(&mut detail, part_path.as_str());
            evidence.push(WorkbookGraphEvidence {
                kind: WorkbookGraphEvidenceKind::WorkbookRelationship,
                part_path: owned("xl/_rels/workbook.xml.rels"),
                cell_reference: None,
                detail,
            });
        }
        assert(evidence_view(evidence@) =~= worksheet_evidence(ws[i as int]));
        push_edge(graph, WorkbookGraphEdgeKind::WorkbookContainsWorksheet, owned("workbook"), node_id, evidence);
        i += 1;
    }
}

fn add_tables(graph: &mut GraphBuildState, tables: &Vec<ParsedWorkbookTable>)
    ensures
        final(graph).model() == table_phase(old(graph).model(), tables_view(tables@), tables@.len() as nat),
{
    let ghost tv = tables_view(tables@);
    let ghost g0 = graph.model();
    let mut i: usize = 0;
    while i < tables.len()
        invariant
            tv == tables_view(tables@),
            i <= tv.len(),
            graph.model() == table_phase(g0, tv, i as nat),
        decreases tv.len() - i,
    {
        let table = &tables[i];
        assert(tv[i as int] == table_view(*table));
        let table_id = table_node_id(table);
        let mut label = table.sheet_name.clone();
        append_str(&mut label, "!");
        append_str(&mut label, table.name.as_str());
        insert_node(
            graph,
            WorkbookGraphNode {
                id: table_id.clone(),
                kind: WorkbookGraphNodeKind::Table,
                label,
                sheet_name: Some(table.sheet_name.clone()),
                part_path: Some(table.part_path.clone()),
                cell_reference: Some(table.range_reference.clone()),
                formula: None,
                cached_value: None,
            },
        );
        let range_id = range_reference_node_id(table.worksheet_index, table.start_reference.as_str(), table.end_reference.as_str());
        let node = reference_node_exec(
            &range_id,
            WorkbookGraphNodeKind::ReferencedRange,
            &table.sheet_name,
            &table.worksheet_part_path,
            &table.range_reference,
        );
        insert_node(graph, node);
        let mut d1 = owned("worksheet ");
        append_str(&mut d1, table.sheet_name.as_str());
        append_str(&mut d1, " table relationship ");
        append_str(&mut d1, table.relationship_id.as_str());
        append_str(&mut d1, " -> ");
        append_str(&mut d1, table.part_path.as_str());
        let mut d2 = owned("table ");
        append_str(&mut d2, table.name.as_str());
        append_str(&mut d2, " range ");
        append_str(&mut d2, table.range_reference.as_str());
        let evidence = vec![
            WorkbookGraphEvidence {
                kind: WorkbookGraphEvidenceKind::WorksheetTableRelationship,
                part_path: table.relationship_part_path.clone(),
                cell_reference: None,
                detail: d1,
            },
            WorkbookGraphEvidence {
                kind: WorkbookGraphEvidenceKind::TableXmlRange,
                part_path: table.part_path.clone(),
                cell_reference: None,
                detail: d2,
            },
        ];
        assert(evidence_view(evidence@) =~= seq![
            evidence_of(
                WorkbookGraphEvidenceKind::WorksheetTableRelationship,
                tv[i as int].relationship_part_path,
                None,
                "worksheet "@ + tv[i as int].sheet_name + " table relationship "@ + tv[i as int].relationship_id + " -> "@
                    + tv[i as int].part_path,
            ),
            evidence_of(
                WorkbookGraphEvidenceKind::TableXmlRange,
                tv[i as int].part_path,
                None,
                "table "@ + tv[i as int].name + " range "@ + tv[i as int].range_reference,
            ),
        ]);
        push_edge(graph, WorkbookGraphEdgeKind::TableHasRange, table_id, range_id, evidence);
        i += 1;
    }
}

fn add_formulas(
    graph: &mut GraphBuildState,
    warning_flags: &mut GraphWarningFlags,
    context: &DependencyResolutionContext,
    sheet_name: &String,
    sheet_part: &String,
    formulas: &Vec<SheetFormulaSummary>,
)
    ensures
        (final(graph).model(), *final(warning_flags)) == formula_phase(
            old(graph).model(),
            *old(warning_flags),
            context.model(),
            sheet_name@,
            sheet_part@,
            formulas@,
            formulas@.len() as nat,
        ),
{
    let ghost g0 = graph.model();
    let ghost f0 = *warning_flags;
    let selected_node_id = worksheet_node_id(context.selected_worksheet_index);
    let mut i: usize = 0;
    while i < formulas.len()
        invariant
            i <= formulas@.len(),
            selected_node_id@ == worksheet_node_id_spec(context.selected_worksheet_index),
            (graph.model(), *warning_flags) == formula_phase(
                g0,
                f0,
                context.model(),
                sheet_name@,
                sheet_part@,
                formulas@,
                i as nat,
            ),
        decreases formulas@.len() - i,
    {
        let formula = &formulas[i];
        let fid = formula_node_id(context.selected_worksheet_index, formula.reference.as_str());
        let mut label = sheet_name.clone();
        append_str(&mut label, "!");
        append_str(&mut label, formula.reference.as_str());
        push_node(
            graph,
            WorkbookGraphNode {
                id: fid.clone(),
                kind: WorkbookGraphNodeKind::CellFormula,
                label,
                sheet_name: Some(sheet_name.clone()),
                part_path: Some(sheet_part.clone()),
                cell_reference: Some(formula.reference.clone()),
                formula: Some(formula.formula.clone()),
                cached_value: copy_opt(&formula.cached_value),
            },
        );
        let evidence = single_evidence(
            WorkbookGraphEvidenceKind::WorksheetFormulaCell,
            sheet_part.clone(),
            Some(formula.reference.clone()),
            owned("selected-sheet formula inventory entry"),
        );
        push_edge(graph, WorkbookGraphEdgeKind::WorksheetContainsFormula, selected_node_id.clone(), fid.clone(), evidence);
        emit_formula_dependency_edges(formula, fid.as_str(), context, graph, warning_flags);
        i += 1;
    }
}

pub fn inspect_workbook_graph_with_display_path(
    display_path: &str,
    workbook: &InspectWorkbookResult,
    formulas: &InspectSheetFormulasResult,
    defined_name_targets: &Vec<Option<FormulaAstNode>>,
    table_parse: &WorkbookTableParse,
    power_query: Option<&PowerQueryExtraction>,
) -> (r: Result<InspectWorkbookGraphResult, String>)
    ensures
        ({
            let ws = worksheets_of(sheets_view(workbook.sheets@));
            let pq = match power_query {
                Some(x) => Some(*x),
                None => None,
            };
            match worksheet_with_part_from(ws, formulas.sheet.part_path@, 0) {
                None => r matches Err(e) && e@ == selected_sheet_error(),
                Some(si) => r matches Ok(res) && {
                    let built = graph_build_spec(
                        display_path@,
                        *workbook,
                        *formulas,
                        defined_name_targets@,
                        *table_parse,
                        pq,
                        si as usize,
                    );
                    &&& res.path@ == display_path@
                    &&& res.mode == WorkbookGraphMode::PackageStructurePlusPerSheetFormulaMembership
                    &&& res.is_partial
                    &&& res.formula_inventory_scope == WorkbookGraphFormulaInventoryScope::SelectedSheetOnly
                    &&& res.formula_inventory_sheet.name@ == formulas.sheet.name@
                    &&& res.formula_inventory_sheet.sheet_id == formulas.sheet.sheet_id
                    &&& res.formula_inventory_sheet.part_path@ == formulas.sheet.part_path@
                    &&& res.max_formulas_applied == formulas.max_formulas_applied
                    &&& res.formula_inventory_truncated == formulas.truncated
                    &&& nodes_view(res.nodes@) == built.0.nodes
                    &&& edges_view(res.edges@) == built.0.edges
                    &&& strictly_sorted(res.warnings.deep_view())
                    &&& res.warnings.deep_view().to_set() == graph_warning_set(
                        workbook.warnings.deep_view(),
                        power_query_warnings_of(*workbook, pq),
                        formulas.warnings.deep_view(),
                        formulas.has_external_links,
                        formulas.formulas@,
                        built.1,
                    )
                },
            }
        }),
{
    let worksheets = worksheet_summaries(&workbook.sheets);
    let ghost ws = sheets_view(worksheets@);
    let mut selected: Option<usize> = None;
    let mut i: usize = 0;
    while i < worksheets.len()
        invariant_except_break
            selected is None,
        invariant
            ws == sheets_view(worksheets@),
            i <= ws.len(),
            worksheet_with_part_from(ws, formulas.sheet.part_path@, 0) == worksheet_with_part_from(
                ws,
                formulas.sheet.part_path@,
                i as int,
            ),
        ensures
            selected matches Some(si) ==> si < ws.len() && worksheet_with_part_from(
                ws,
                formulas.sheet.part_path@,
                0,
            ) == Some(si as int),
            selected is None ==> worksheet_with_part_from(ws, formulas.sheet.part_path@, 0) is None,
        decreases ws.len() - i,
    {
        assert(ws[i as int] == sheet_view(worksheets@[i as int]));
        let matches = match &worksheets[i].part_path {
            Some(p) => same_text(p.as_str(), formulas.sheet.part_path.as_str()),
            None => false,
        };
        if matches {
            selected = Some(i);
            break;
        }
        i += 1;
    }
    let selected_worksheet_index = match selected {
        Some(si) => si,
        None => {
            return Err(owned("excel.inspect_workbook_graph could not match the selected worksheet back to workbook structure"));
        },
    };
    assert(worksheet_with_part_from(ws, formulas.sheet.part_path@, 0) == Some(selected_worksheet_index as int));
    let mut graph = GraphBuildState { nodes: Vec::new(), edges: Vec::new() };
    push_node(
        &mut graph,
        WorkbookGraphNode {
            id: owned("workbook"),
            kind: WorkbookGraphNodeKind::Workbook,
            label: owned(display_path),
            sheet_name: None,
            part_path: None,
            cell_reference: None,
            formula: None,
            cached_value: None,
        },
    );
    assert(graph.model().nodes =~= seq![workbook_node(display_path@)]);
    assert(graph.model().edges =~= Seq::empty());
    assert(graph.model() == (GraphModel { nodes: seq![workbook_node(display_path@)], edges: Seq::empty() }));
    add_worksheets(&mut graph, &worksheets);
    add_tables(&mut graph, &table_parse.tables);
    let mut warning_flags = GraphWarningFlags {
        unresolved_defined_name_reference: false,
        ambiguous_defined_name_target: false,
        unresolved_table_reference: false,
        unresolved_table_metadata: false,
        unresolved_power_query_query_reference: false,
        unresolved_power_query_workbook_name_reference: false,
    };
    let context = DependencyResolutionContext {
        selected_worksheet_index,
        worksheets: &worksheets,
        defined_names: &formulas.defined_names,
        defined_name_targets,
        selected_sheet_name: formulas.sheet.name.as_str(),
        tables: &table_parse.tables,
    };
    add_formulas(&mut graph, &mut warning_flags, &context, &formulas.sheet.name, &formulas.sheet.part_path, &formulas.formulas);
    let empty: Vec<String> = Vec::new();
    let mut power_query_warnings = &empty;
    if workbook.markers.has_power_query {
        if let Some(extraction) = power_query {
            emit_power_query_lineage_edges(
                &extraction.queries,
                &formulas.defined_names,
                defined_name_targets,
                &table_parse.tables,
                &worksheets,
                &mut graph,
                &mut warning_flags,
            );
            power_query_warnings = &extraction.warnings;
        }
    }
    assert(empty.deep_view() =~= Seq::<Seq<char>>::empty());
    if (workbook.markers.has_tables && table_parse.tables.len() == 0) || table_parse.had_unresolved_table_metadata {
        warning_flags.unresolved_table_metadata = true;
    }
    let warnings = build_graph_warnings(&workbook.warnings, power_query_warnings, formulas, warning_flags);
    let GraphBuildState { nodes, edges } = graph;
    Ok(InspectWorkbookGraphResult {
        path: owned(display_path),
        mode: WorkbookGraphMode::PackageStructurePlusPerSheetFormulaMembership,
        is_partial: true,
        formula_inventory_scope: WorkbookGraphFormulaInventoryScope::SelectedSheetOnly,
        formula_inventory_sheet: SheetPreview {
            name: formulas.sheet.name.clone(),
            sheet_id: formulas.sheet.sheet_id,
            part_path: formulas.sheet.part_path.clone(),
        },
        max_formulas_applied: formulas.max_formulas_applied,
        formula_inventory_truncated: formulas.truncated,
        nodes,
        edges,
        warnings,
    })
}

// ---------------------------------------------------------------------------
// Paths handed over by a model

/// Checks a model path called `label` that must end in one of the given
/// lower-case extensions, before the file system is looked at.
pub fn local_relative_path_from_model_arg(path: &str, cwd: &str, label: &str, extensions: &Vec<String>) -> (r: Result<
    ScopedPath,
    String,
>)
    ensures
        scoped_view(r) == scoped_outcome(
            label@,
            "file path"@,
            "."@ + join_seq(extensions.deep_view(), ", ."@),
            path@,
            cwd@,
            extensions.deep_view(),
        ),
{
    let joined = join_lines(extensions, ", .");
    let mut ending = owned(".");
    append_str(&mut ending, joined.as_str());
    scoped_path_from_model_arg(label, "file path", ending.as_str(), path, cwd, extensions)
}

/// Checks the workbook path that a model gave `excel.inspect_workbook_graph`.
pub fn workbook_path_from_graph_arg(path: &str, cwd: &str) -> (r: Result<ScopedPath, String>)
    ensures
        scoped_view(r) == scoped_outcome(
            "excel.inspect_workbook_graph path"@,
            "file path"@,
            ".xlsx, .xlsm, .xlsb"@,
            path@,
            cwd@,
            seq!["xlsx"@, "xlsm"@, "xlsb"@],
        ),
{
    let extensions = workbook_extensions();
    let r = local_relative_path_from_model_arg(path, cwd, "excel.inspect_workbook_graph path", &extensions);
    proof {
        let ev = seq!["xlsx"@, "xlsm"@, "xlsb"@];
        reveal_strlit(", .");
        reveal_strlit("xlsx");
        reveal_strlit("xlsm");
        reveal_strlit("xlsb");
        reveal_strlit(".");
        reveal_strlit(".xlsx, .xlsm, .xlsb");
        assert(ev.drop_last().drop_last() =~= seq!["xlsx"@]);
        assert(ev.drop_last() =~= seq!["xlsx"@, "xlsm"@]);
        assert(join_seq(seq!["xlsx"@], ", ."@) == "xlsx"@);
        assert(join_seq(ev.drop_last(), ", ."@) == "xlsx"@ + ", ."@ + "xlsm"@);
        assert(join_seq(ev, ", ."@) == "xlsx"@ + ", ."@ + "xlsm"@ + ", ."@ + "xlsb"@);
        assert("."@ + join_seq(ev, ", ."@) =~= ".xlsx, .xlsm, .xlsb"@);
    }
    r
}

// ---------------------------------------------------------------------------
// The graph only grows

/// `h` keeps every node and edge of `g`, in place, and may add more after them.
pub open spec fn graph_extends(g: GraphModel, h: GraphModel) -> bool {
    &&& g.nodes.len() <= h.nodes.len()
    &&& g.edges.len() <= h.edges.len()
    &&& forall|i: int| 0 <= i < g.nodes.len() ==> #[trigger] h.nodes[i] == g.nodes[i]
    &&& forall|i: int| 0 <= i < g.edges.len() ==> #[trigger] h.edges[i] == g.edges[i]
}

/// Every warning flag set in `f` is still set in `h`.
pub open spec fn flags_extend(f: GraphWarningFlags, h: GraphWarningFlags) -> bool {
    &&& f.unresolved_defined_name_reference ==> h.unresolved_defined_name_reference
    &&& f.ambiguous_defined_name_target ==> h.ambiguous_defined_name_target
    &&& f.unresolved_table_reference ==> h.unresolved_table_reference
    &&& f.unresolved_table_metadata ==> h.unresolved_table_metadata
    &&& f.unresolved_power_query_query_reference ==> h.unresolved_power_query_query_reference
    &&& f.unresolved_power_query_workbook_name_reference ==> h.unresolved_power_query_workbook_name_reference
}

pub broadcast proof fn lemma_insert_node_extends(g: GraphModel, n: NodeModel)
    ensures
        #[trigger] graph_extends(g, insert_node_spec(g, n)),
{
}

pub broadcast proof fn lemma_push_edge_extends(g: GraphModel, e: EdgeModel)
    ensures
        #[trigger] graph_extends(g, push_edge_spec(g, e)),
{
}

proof fn lemma_extends_trans(a: GraphModel, b: GraphModel, c: GraphModel)
    requires
        graph_extends(a, b),
        graph_extends(b, c),
    ensures
        graph_extends(a, c),
{
}

/// Emitting a defined name's target edges only adds nodes and edges, and
/// only sets warning flags.
pub proof fn law_defined_name_target_edges_only_add(
    g: GraphModel,
    flags: GraphWarningFlags,
    d: DefinedNameModel,
    root: Option<FormulaAstNode>,
    dn_id: Seq<char>,
    ws: Seq<SheetModel>,
)
    ensures
        graph_extends(g, target_edges_spec(g, flags, d, root, dn_id, ws).0),
        flags_extend(flags, target_edges_spec(g, flags, d, root, dn_id, ws).1),
{
    broadcast use lemma_insert_node_extends, lemma_push_edge_extends;
    let id = defined_name_formula_text_node_id_spec(d);
    let ft_node = NodeModel {
        id,
        kind: WorkbookGraphNodeKind::DefinedNameFormulaText,
        label: defined_name_label_spec(d) + "="@ + d.target,
        sheet_name: d.sheet_scope,
        part_path: Some(workbook_part()),
        cell_reference: None,
        formula: Some(d.target),
        cached_value: None,
    };
    let ft = insert_node_spec(g, ft_node);
    assert(graph_extends(g, ft));
    lemma_extends_trans(g, ft, formula_text_edge_spec(g, d, dn_id));
    match root {
        Some(FormulaAstNode::CellReference { reference, sheet_name }) => match resolve_target_sheet_spec(d, ws, ov(sheet_name)) {
            None => {},
            Some((wi, sn, pp)) => {
                let id = cell_reference_node_id_spec(wi, reference@);
                let g1 = insert_node_spec(g, reference_node(id, WorkbookGraphNodeKind::ReferencedCell, sn, pp, reference@));
                lemma_extends_trans(g, g1, target_edges_spec(g, flags, d, root, dn_id, ws).0);
            },
        },
        Some(FormulaAstNode::RangeReference { start_reference, end_reference, sheet_name }) => match resolve_target_sheet_spec(d, ws, ov(sheet_name)) {
            None => {},
            Some((wi, sn, pp)) => {
                let id = range_reference_node_id_spec(wi, start_reference@, end_reference@);
                let range = start_reference@ + ":"@ + end_reference@;
                let g1 = insert_node_spec(g, reference_node(id, WorkbookGraphNodeKind::ReferencedRange, sn, pp, range));
                lemma_extends_trans(g, g1, target_edges_spec(g, flags, d, root, dn_id, ws).0);
            },
        },
        _ => {},
    }
}

proof fn lemma_reference_step_extends(
    g: GraphModel,
    flags: GraphWarningFlags,
    ctx: DependencyContext,
    fid: Seq<char>,
    fref: Seq<char>,
    selected_part: Seq<char>,
    r: RefModel,
)
    ensures
        graph_extends(g, reference_step(g, flags, ctx, fid, fref, selected_part, r).0),
        flags_extend(flags, reference_step(g, flags, ctx, fid, fref, selected_part, r).1),
{
    broadcast use lemma_insert_node_extends, lemma_push_edge_extends;
    let out = reference_step(g, flags, ctx, fid, fref, selected_part, r).0;
    match r {
        RefModel::Cell { reference, sheet_name } => match reference_home(g, ctx, fid, fref, selected_part, sheet_name) {
            None => {},
            Some((g1, wi, sn, pp)) => {
                let id = cell_reference_node_id_spec(wi, reference);
                let g2 = insert_node_spec(g1, reference_node(id, WorkbookGraphNodeKind::ReferencedCell, sn, pp, reference));
                lemma_extends_trans(g, g1, g2);
                lemma_extends_trans(g, g2, out);
            },
        },
        RefModel::Range { start_reference, end_reference, sheet_name } => match reference_home(g, ctx, fid, fref, selected_part, sheet_name) {
            None => {},
            Some((g1, wi, sn, pp)) => {
                let id = range_reference_node_id_spec(wi, start_reference, end_reference);
                let range = start_reference + ":"@ + end_reference;
                let g2 = insert_node_spec(g1, reference_node(id, WorkbookGraphNodeKind::ReferencedRange, sn, pp, range));
                lemma_extends_trans(g, g1, g2);
                lemma_extends_trans(g, g2, out);
            },
        },
        RefModel::DefinedName { name, sheet_name } => match resolve_defined_name_fn(
            ctx.defined_names,
            ctx.selected_sheet_name,
            name,
            sheet_name,
        ) {
            None => {},
            Some(k) => {
                let d = ctx.defined_names[k as int];
                let id = defined_name_node_id_spec(d);
                let g1 = insert_node_spec(g, defined_name_node(d));
                let g2 = push_edge_spec(
                    g1,
                    EdgeModel {
                        kind: WorkbookGraphEdgeKind::FormulaReferencesDefinedName,
                        from: fid,
                        to: id,
                        evidence: seq![
                            evidence_of(
                                WorkbookGraphEvidenceKind::FormulaAstDefinedNameReference,
                                selected_part,
                                Some(fref),
                                "ast defined-name reference "@ + defined_name_label_spec(d),
                            ),
                        ],
                    },
                );
                lemma_extends_trans(g, g1, g2);
                law_defined_name_target_edges_only_add(g2, flags, d, name_target(ctx, k), id, ctx.worksheets);
                lemma_extends_trans(g, g2, out);
            },
        },
        RefModel::StructuredReference { text } => {},
    }
}

proof fn lemma_references_fold_extends(
    g: GraphModel,
    flags: GraphWarningFlags,
    ctx: DependencyContext,
    fid: Seq<char>,
    fref: Seq<char>,
    selected_part: Seq<char>,
    refs: Seq<RefModel>,
    k: nat,
)
    ensures
        graph_extends(g, references_fold(g, flags, ctx, fid, fref, selected_part, refs, k).0),
        flags_extend(flags, references_fold(g, flags, ctx, fid, fref, selected_part, refs, k).1),
    decreases k,
{
    if !(k == 0 || k > refs.len()) {
        lemma_references_fold_extends(g, flags, ctx, fid, fref, selected_part, refs, (k - 1) as nat);
        let prev = references_fold(g, flags, ctx, fid, fref, selected_part, refs, (k - 1) as nat);
        lemma_reference_step_extends(prev.0, prev.1, ctx, fid, fref, selected_part, refs[k - 1]);
        lemma_extends_trans(g, prev.0, references_fold(g, flags, ctx, fid, fref, selected_part, refs, k).0);
    }
}

/// Emitting a formula's dependency edges only adds nodes and edges, and
/// only sets warning flags.
pub proof fn law_formula_dependency_edges_only_add(
    g: GraphModel,
    flags: GraphWarningFlags,
    ctx: DependencyContext,
    fid: Seq<char>,
    fref: Seq<char>,
    root: Option<FormulaAstNode>,
)
    ensures
        graph_extends(g, formula_edges_spec(g, flags, ctx, fid, fref, root).0),
        flags_extend(flags, formula_edges_spec(g, flags, ctx, fid, fref, root).1),
{
    match root {
        None => {},
        Some(node) => if ctx.selected_worksheet_index < ctx.worksheets.len() {
            match ctx.worksheets[ctx.selected_worksheet_index as int].part_path {
                None => {},
                Some(selected_part) => {
                    let refs = refs_of(node);
                    lemma_references_fold_extends(g, flags, ctx, fid, fref, selected_part, refs, refs.len());
                },
            }
        },
    }
}

proof fn lemma_lineage_step_extends(
    g: GraphModel,
    flags: GraphWarningFlags,
    ctx: LineageContext,
    q: ExtractedPowerQueryQuery,
    r: PowerQueryLexicalReference,
)
    ensures
        graph_extends(g, lineage_step(g, flags, ctx, q, r).0),
        flags_extend(flags, lineage_step(g, flags, ctx, q, r).1),
{
    broadcast use lemma_insert_node_extends, lemma_push_edge_extends;
    let from = power_query_query_node_id_spec(q.name@);
    let line = decimal(r.source_line as nat);
    match r.kind {
        PowerQueryLexicalReferenceKind::QueryName => {},
        PowerQueryLexicalReferenceKind::WorkbookName => match workbook_name_fn(
            ctx.defined_names,
            ctx.tables,
            r.target_name@,
        ) {
            Some(PowerQueryWorkbookNameTarget::DefinedName(k)) => {
                let d = ctx.defined_names[k as int];
                let id = defined_name_node_id_spec(d);
                let g1 = insert_node_spec(g, defined_name_node(d));
                let g2 = push_edge_spec(
                    g1,
                    EdgeModel {
                        kind: WorkbookGraphEdgeKind::PowerQueryReferencesDefinedName,
                        from,
                        to: id,
                        evidence: seq![
                            evidence_of(
                                WorkbookGraphEvidenceKind::PowerQueryLexicalWorkbookNameReference,
                                q.source_part@,
                                None,
                                "Power Query "@ + q.name@ + " resolved Excel.CurrentWorkbook name "@ + r.target_name@
                                    + " to defined name "@ + defined_name_label_spec(d) + " on line "@ + line,
                            ),
                        ],
                    },
                );
                lemma_extends_trans(g, g1, g2);
                law_defined_name_target_edges_only_add(g2, flags, d, lineage_name_target(ctx, k), id, ctx.worksheets);
                lemma_extends_trans(g, g2, lineage_step(g, flags, ctx, q, r).0);
            },
            _ => {},
        },
    }
}

proof fn lemma_query_refs_fold_extends(
    g: GraphModel,
    flags: GraphWarningFlags,
    ctx: LineageContext,
    q: ExtractedPowerQueryQuery,
    k: nat,
)
    ensures
        graph_extends(g, query_refs_fold(g, flags, ctx, q, k).0),
        flags_extend(flags, query_refs_fold(g, flags, ctx, q, k).1),
    decreases k,
{
    if !(k == 0 || k > q.lexical_references@.len()) {
        lemma_query_refs_fold_extends(g, flags, ctx, q, (k - 1) as nat);
        let prev = query_refs_fold(g, flags, ctx, q, (k - 1) as nat);
        lemma_lineage_step_extends(prev.0, prev.1, ctx, q, q.lexical_references@[k - 1]);
        lemma_extends_trans(g, prev.0, query_refs_fold(g, flags, ctx, q, k).0);
    }
}

proof fn lemma_lineage_fold_extends(g: GraphModel, flags: GraphWarningFlags, ctx: LineageContext, k: nat)
    ensures
        graph_extends(g, lineage_fold(g, flags, ctx, k).0),
        flags_extend(flags, lineage_fold(g, flags, ctx, k).1),
    decreases k,
{
    if !(k == 0 || k > ctx.queries.len()) {
        lemma_lineage_fold_extends(g, flags, ctx, (k - 1) as nat);
        let prev = lineage_fold(g, flags, ctx, (k - 1) as nat);
        let q = ctx.queries[k - 1];
        lemma_query_refs_fold_extends(prev.0, prev.1, ctx, q, q.lexical_references@.len());
        lemma_extends_trans(g, prev.0, lineage_fold(g, flags, ctx, k).0);
    }
}

proof fn lemma_query_nodes_fold_extends(g: GraphModel, queries: Seq<ExtractedPowerQueryQuery>, k: nat)
    ensures
        graph_extends(g, query_nodes_fold(g, queries, k)),
    decreases k,
{
    broadcast use lemma_insert_node_extends;
    if !(k == 0 || k > queries.len()) {
        lemma_query_nodes_fold_extends(g, queries, (k - 1) as nat);
        let prev = query_nodes_fold(g, queries, (k - 1) as nat);
        lemma_extends_trans(g, prev, query_nodes_fold(g, queries, k));
    }
}

/// Emitting Power Query lineage only adds nodes and edges, and only sets
/// warning flags.
pub proof fn law_power_query_lineage_only_add(g: GraphModel, flags: GraphWarningFlags, ctx: LineageContext)
    ensures
        graph_extends(g, lineage_spec(g, flags, ctx).0),
        flags_extend(flags, lineage_spec(g, flags, ctx).1),
{
    let g1 = query_nodes_fold(g, ctx.queries, ctx.queries.len());
    lemma_query_nodes_fold_extends(g, ctx.queries, ctx.queries.len());
    lemma_lineage_fold_extends(g1, flags, ctx, ctx.queries.len());
    lemma_extends_trans(g, g1, lineage_spec(g, flags, ctx).0);
}

// ---------------------------------------------------------------------------
// Every edge joins two nodes

/// Every edge starts and ends at a node of the graph.
pub open spec fn edges_have_nodes(g: GraphModel) -> bool {
    forall|i: int|
        0 <= i < g.edges.len() ==> has_node_id(g.nodes, (#[trigger] g.edges[i]).from) && has_node_id(
            g.nodes,
            g.edges[i].to,
        )
}

/// The nodes of every worksheet and every table are in the graph.
pub open spec fn holds_sheets_and_tables(g: GraphModel, ws: Seq<SheetModel>, tv: Seq<TableModel>) -> bool {
    &&& forall|i: int| 0 <= i < ws.len() ==> has_node_id(g.nodes, #[trigger] worksheet_node_id_spec(i as usize))
    &&& forall|k: int| 0 <= k < tv.len() ==> has_node_id(g.nodes, #[trigger] table_node_id_spec(tv[k]))
}

proof fn lemma_has_node_grows(g: GraphModel, h: GraphModel, id: Seq<char>)
    requires
        graph_extends(g, h),
        has_node_id(g.nodes, id),
    ensures
        has_node_id(h.nodes, id),
{
    let i = choose|i: int| 0 <= i < g.nodes.len() && (#[trigger] g.nodes[i]).id == id;
    assert(h.nodes[i] == g.nodes[i]);
}

proof fn lemma_edges_ok_grows(g: GraphModel, h: GraphModel)
    requires
        graph_extends(g, h),
        h.edges == g.edges,
        edges_have_nodes(g),
    ensures
        edges_have_nodes(h),
{
    assert forall|i: int| 0 <= i < h.edges.len() implies has_node_id(h.nodes, (#[trigger] h.edges[i]).from)
        && has_node_id(h.nodes, h.edges[i].to) by {
        assert(g.edges[i] == h.edges[i]);
        lemma_has_node_grows(g, h, h.edges[i].from);
        lemma_has_node_grows(g, h, h.edges[i].to);
    }
}

proof fn lemma_holds_grows(g: GraphModel, h: GraphModel, ws: Seq<SheetModel>, tv: Seq<TableModel>)
    requires
        graph_extends(g, h),
        holds_sheets_and_tables(g, ws, tv),
    ensures
        holds_sheets_and_tables(h, ws, tv),
{
    assert forall|i: int| 0 <= i < ws.len() implies has_node_id(h.nodes, #[trigger] worksheet_node_id_spec(i as usize)) by {
        lemma_has_node_grows(g, h, worksheet_node_id_spec(i as usize));
    }
    assert forall|k: int| 0 <= k < tv.len() implies has_node_id(h.nodes, #[trigger] table_node_id_spec(tv[k])) by {
        lemma_has_node_grows(g, h, table_node_id_spec(tv[k]));
    }
}

proof fn lemma_insert_node_ok(g: GraphModel, n: NodeModel)
    requires
        edges_have_nodes(g),
    ensures
        edges_have_nodes(insert_node_spec(g, n)),
        has_node_id(insert_node_spec(g, n).nodes, n.id),
        graph_extends(g, insert_node_spec(g, n)),
{
    let h = insert_node_spec(g, n);
    lemma_insert_node_extends(g, n);
    lemma_edges_ok_grows(g, h);
    if !has_node_id(g.nodes, n.id) {
        assert(h.nodes[g.nodes.len() as int] == n);
    }
}

proof fn lemma_push_edge_ok(g: GraphModel, e: EdgeModel)
    requires
        edges_have_nodes(g),
        has_node_id(g.nodes, e.from),
        has_node_id(g.nodes, e.to),
    ensures
        edges_have_nodes(push_edge_spec(g, e)),
        graph_extends(g, push_edge_spec(g, e)),
{
    lemma_push_edge_extends(g, e);
    let h = push_edge_spec(g, e);
    assert forall|i: int| 0 <= i < h.edges.len() implies has_node_id(h.nodes, (#[trigger] h.edges[i]).from)
        && has_node_id(h.nodes, h.edges[i].to) by {
        if i < g.edges.len() {
            assert(h.edges[i] == g.edges[i]);
        }
    }
}

proof fn lemma_target_edges_ok(
    g: GraphModel,
    flags: GraphWarningFlags,
    d: DefinedNameModel,
    root: Option<FormulaAstNode>,
    dn_id: Seq<char>,
    ws: Seq<SheetModel>,
)
    requires
        edges_have_nodes(g),
        has_node_id(g.nodes, dn_id),
    ensures
        edges_have_nodes(target_edges_spec(g, flags, d, root, dn_id, ws).0),
{
    let id = defined_name_formula_text_node_id_spec(d);
    let ft_node = NodeModel {
        id,
        kind: WorkbookGraphNodeKind::DefinedNameFormulaText,
        label: defined_name_label_spec(d) + "="@ + d.target,
        sheet_name: d.sheet_scope,
        part_path: Some(workbook_part()),
        cell_reference: None,
        formula: Some(d.target),
        cached_value: None,
    };
    lemma_insert_node_ok(g, ft_node);
    let ft = insert_node_spec(g, ft_node);
    lemma_has_node_grows(g, ft, dn_id);
    let e = EdgeModel {
        kind: WorkbookGraphEdgeKind::DefinedNameTargetsFormulaText,
        from: dn_id,
        to: id,
        evidence: seq![
            evidence_of(
                WorkbookGraphEvidenceKind::WorkbookDefinedNameTarget,
                workbook_part(),
                None,
                "defined name "@ + defined_name_label_spec(d) + " keeps opaque formula text "@ + d.target,
            ),
        ],
    };
    lemma_push_edge_ok(ft, e);
    match root {
        Some(FormulaAstNode::CellReference { reference, sheet_name }) => match resolve_target_sheet_spec(d, ws, ov(sheet_name)) {
            None => {},
            Some((wi, sn, pp)) => {
                let id = cell_reference_node_id_spec(wi, reference@);
                let n = reference_node(id, WorkbookGraphNodeKind::ReferencedCell, sn, pp, reference@);
                lemma_insert_node_ok(g, n);
                lemma_has_node_grows(g, insert_node_spec(g, n), dn_id);
                let e = EdgeModel {
                    kind: WorkbookGraphEdgeKind::DefinedNameTargetsCell,
                    from: dn_id,
                    to: id,
                    evidence: seq![
                        evidence_of(
                            WorkbookGraphEvidenceKind::WorkbookDefinedNameTarget,
                            workbook_part(),
                            None,
                            "defined name "@ + defined_name_label_spec(d) + " targets cell "@ + sn + "!"@ + reference@,
                        ),
                    ],
                };
                lemma_push_edge_ok(insert_node_spec(g, n), e);
            },
        },
        Some(FormulaAstNode::RangeReference { start_reference, end_reference, sheet_name }) => match resolve_target_sheet_spec(d, ws, ov(sheet_name)) {
            None => {},
            Some((wi, sn, pp)) => {
                let id = range_reference_node_id_spec(wi, start_reference@, end_reference@);
                let range = start_reference@ + ":"@ + end_reference@;
                let n = reference_node(id, WorkbookGraphNodeKind::ReferencedRange, sn, pp, range);
                lemma_insert_node_ok(g, n);
                lemma_has_node_grows(g, insert_node_spec(g, n), dn_id);
                let e = EdgeModel {
                    kind: WorkbookGraphEdgeKind::DefinedNameTargetsRange,
                    from: dn_id,
                    to: id,
                    evidence: seq![
                        evidence_of(
                            WorkbookGraphEvidenceKind::WorkbookDefinedNameTarget,
                            workbook_part(),
                            None,
                            "defined name "@ + defined_name_label_spec(d) + " targets range "@ + sn + "!"@ + range,
                        ),
                    ],
                };
                lemma_push_edge_ok(insert_node_spec(g, n), e);
            },
        },
        _ => {},
    }
}

pub broadcast proof fn lemma_push_edge_joins(g: GraphModel, e: EdgeModel)
    requires
        edges_have_nodes(g),
        has_node_id(g.nodes, e.from),
        has_node_id(g.nodes, e.to),
    ensures
        #[trigger] edges_have_nodes(push_edge_spec(g, e)),
{
    lemma_push_edge_ok(g, e);
}

proof fn lemma_count_witness<T>(s: Seq<T>, p: spec_fn(T) -> bool)
    requires
        count_where(s, p) >= 1,
    ensures
        exists|i: int| 0 <= i < s.len() && p(#[trigger] s[i]),
    decreases s.len(),
{
    if s.len() > 0 && !p(s.last()) {
        lemma_count_witness(s.drop_last(), p);
        let i = choose|i: int| 0 <= i < s.drop_last().len() && p(#[trigger] s.drop_last()[i]);
        assert(s[i] == s.drop_last()[i]);
    } else if s.len() > 0 {
        assert(p(s[s.len() - 1]));
    }
}

proof fn lemma_unique_index_bounds<T>(s: Seq<T>, p: spec_fn(T) -> bool)
    requires
        s.len() <= usize::MAX,
    ensures
        unique_index(s, p) matches Some(k) ==> k < s.len(),
{
    if count_where(s, p) == 1 {
        lemma_count_witness(s, p);
        let i = choose|i: int| 0 <= i < s.len() && p(#[trigger] s[i]);
        assert((i as usize) < s.len() && p(s[(i as usize) as int]));
    }
}

proof fn lemma_reference_home_ok(
    g: GraphModel,
    ctx: DependencyContext,
    fid: Seq<char>,
    fref: Seq<char>,
    selected_part: Seq<char>,
    sheet_name: Option<Seq<char>>,
)
    requires
        edges_have_nodes(g),
        has_node_id(g.nodes, fid),
        holds_sheets_and_tables(g, ctx.worksheets, ctx.tables),
    ensures
        reference_home(g, ctx, fid, fref, selected_part, sheet_name) matches Some((g1, wi, sn, pp)) ==> {
            &&& edges_have_nodes(g1)
            &&& graph_extends(g, g1)
            &&& has_node_id(g1.nodes, fid)
            &&& holds_sheets_and_tables(g1, ctx.worksheets, ctx.tables)
        },
{
    broadcast use lemma_push_edge_joins, lemma_push_edge_extends;
    match sheet_name {
        Some(s) => {
            lemma_first_sheet_bounds(ctx.worksheets, s, 0);
            match resolve_reference_sheet_spec(ctx.worksheets, s) {
                None => {},
                Some((wi, sn, pp)) => {
                    let i = first_sheet_named_from(ctx.worksheets, s, 0).unwrap();
                    assert(has_node_id(g.nodes, worksheet_node_id_spec(i as usize)));
                    let g1 = reference_home(g, ctx, fid, fref, selected_part, sheet_name).unwrap().0;
                    lemma_has_node_grows(g, g1, fid);
                    lemma_holds_grows(g, g1, ctx.worksheets, ctx.tables);
                },
            }
        },
        None => {},
    }
}

proof fn lemma_reference_step_ok(
    g: GraphModel,
    flags: GraphWarningFlags,
    ctx: DependencyContext,
    fid: Seq<char>,
    fref: Seq<char>,
    selected_part: Seq<char>,
    r: RefModel,
)
    requires
        edges_have_nodes(g),
        has_node_id(g.nodes, fid),
        holds_sheets_and_tables(g, ctx.worksheets, ctx.tables),
        ctx.tables.len() <= usize::MAX,
    ensures
        edges_have_nodes(reference_step(g, flags, ctx, fid, fref, selected_part, r).0),
{
    broadcast use lemma_push_edge_joins;
    match r {
        RefModel::Cell { reference, sheet_name } => {
            lemma_reference_home_ok(g, ctx, fid, fref, selected_part, sheet_name);
            match reference_home(g, ctx, fid, fref, selected_part, sheet_name) {
                None => {},
                Some((g1, wi, sn, pp)) => {
                    let id = cell_reference_node_id_spec(wi, reference);
                    let n = reference_node(id, WorkbookGraphNodeKind::ReferencedCell, sn, pp, reference);
                    lemma_insert_node_ok(g1, n);
                    lemma_has_node_grows(g1, insert_node_spec(g1, n), fid);
                },
            }
        },
        RefModel::Range { start_reference, end_reference, sheet_name } => {
            lemma_reference_home_ok(g, ctx, fid, fref, selected_part, sheet_name);
            match reference_home(g, ctx, fid, fref, selected_part, sheet_name) {
                None => {},
                Some((g1, wi, sn, pp)) => {
                    let id = range_reference_node_id_spec(wi, start_reference, end_reference);
                    let range = start_reference + ":"@ + end_reference;
                    let n = reference_node(id, WorkbookGraphNodeKind::ReferencedRange, sn, pp, range);
                    lemma_insert_node_ok(g1, n);
                    lemma_has_node_grows(g1, insert_node_spec(g1, n), fid);
                },
            }
        },
        RefModel::DefinedName { name, sheet_name } => match resolve_defined_name_fn(
            ctx.defined_names,
            ctx.selected_sheet_name,
            name,
            sheet_name,
        ) {
            None => {},
            Some(k) => {
                let d = ctx.defined_names[k as int];
                let id = defined_name_node_id_spec(d);
                lemma_insert_node_ok(g, defined_name_node(d));
                let g1 = insert_node_spec(g, defined_name_node(d));
                lemma_has_node_grows(g, g1, fid);
                let g2 = push_edge_spec(
                    g1,
                    EdgeModel {
                        kind: WorkbookGraphEdgeKind::FormulaReferencesDefinedName,
                        from: fid,
                        to: id,
                        evidence: seq![
                            evidence_of(
                                WorkbookGraphEvidenceKind::FormulaAstDefinedNameReference,
                                selected_part,
                                Some(fref),
                                "ast defined-name reference "@ + defined_name_label_spec(d),
                            ),
                        ],
                    },
                );
                assert(edges_have_nodes(g2));
                assert(g2.nodes == g1.nodes);
                lemma_target_edges_ok(g2, flags, d, name_target(ctx, k), id, ctx.worksheets);
            },
        },
        RefModel::StructuredReference { text } => match structured_reference_table_spec(text) {
            None => {},
            Some(table_name) => {
                lemma_unique_index_bounds(ctx.tables, table_named(table_name));
                match unique_index(ctx.tables, table_named(table_name)) {
                    None => {},
                    Some(k) => {
                        assert(has_node_id(g.nodes, table_node_id_spec(ctx.tables[k as int])));
                    },
                }
            },
        },
    }
}

proof fn lemma_references_fold_ok(
    g: GraphModel,
    flags: GraphWarningFlags,
    ctx: DependencyContext,
    fid: Seq<char>,
    fref: Seq<char>,
    selected_part: Seq<char>,
    refs: Seq<RefModel>,
    k: nat,
)
    requires
        edges_have_nodes(g),
        has_node_id(g.nodes, fid),
        holds_sheets_and_tables(g, ctx.worksheets, ctx.tables),
        ctx.tables.len() <= usize::MAX,
    ensures
        edges_have_nodes(references_fold(g, flags, ctx, fid, fref, selected_part, refs, k).0),
    decreases k,
{
    if !(k == 0 || k > refs.len()) {
        lemma_references_fold_ok(g, flags, ctx, fid, fref, selected_part, refs, (k - 1) as nat);
        lemma_references_fold_extends(g, flags, ctx, fid, fref, selected_part, refs, (k - 1) as nat);
        let prev = references_fold(g, flags, ctx, fid, fref, selected_part, refs, (k - 1) as nat);
        lemma_has_node_grows(g, prev.0, fid);
        lemma_holds_grows(g, prev.0, ctx.worksheets, ctx.tables);
        lemma_reference_step_ok(prev.0, prev.1, ctx, fid, fref, selected_part, refs[k - 1]);
    }
}

proof fn lemma_formula_phase_ok(
    g: GraphModel,
    flags: GraphWarningFlags,
    ctx: DependencyContext,
    sheet_name: Seq<char>,
    sheet_part: Seq<char>,
    fs: Seq<SheetFormulaSummary>,
    k: nat,
)
    requires
        edges_have_nodes(g),
        holds_sheets_and_tables(g, ctx.worksheets, ctx.tables),
        ctx.selected_worksheet_index < ctx.worksheets.len(),
        ctx.tables.len() <= usize::MAX,
    ensures
        edges_have_nodes(formula_phase(g, flags, ctx, sheet_name, sheet_part, fs, k).0),
        graph_extends(g, formula_phase(g, flags, ctx, sheet_name, sheet_part, fs, k).0),
    decreases k,
{
    broadcast use lemma_push_edge_joins, lemma_push_edge_extends;
    if !(k == 0 || k > fs.len()) {
        lemma_formula_phase_ok(g, flags, ctx, sheet_name, sheet_part, fs, (k - 1) as nat);
        let prev = formula_phase(g, flags, ctx, sheet_name, sheet_part, fs, (k - 1) as nat);
        lemma_holds_grows(g, prev.0, ctx.worksheets, ctx.tables);
        let f = fs[k - 1];
        let fid = formula_node_id_spec(ctx.selected_worksheet_index, f.reference@);
        let n = NodeModel {
            id: fid,
            kind: WorkbookGraphNodeKind::CellFormula,
            label: sheet_name + "!"@ + f.reference@,
            sheet_name: Some(sheet_name),
            part_path: Some(sheet_part),
            cell_reference: Some(f.reference@),
            formula: Some(f.formula@),
            cached_value: ov(f.cached_value),
        };
        let g1 = GraphModel { nodes: prev.0.nodes.push(n), ..prev.0 };
        assert(graph_extends(prev.0, g1));
        lemma_edges_ok_grows(prev.0, g1);
        lemma_holds_grows(prev.0, g1, ctx.worksheets, ctx.tables);
        assert(g1.nodes[prev.0.nodes.len() as int] == n);
        assert(has_node_id(g1.nodes, fid));
        let wid = worksheet_node_id_spec(ctx.selected_worksheet_index);
        assert(has_node_id(g1.nodes, worksheet_node_id_spec((ctx.selected_worksheet_index as int) as usize)));
        let g2 = push_edge_spec(
            g1,
            EdgeModel {
                kind: WorkbookGraphEdgeKind::WorksheetContainsFormula,
                from: wid,
                to: fid,
                evidence: seq![
                    evidence_of(
                        WorkbookGraphEvidenceKind::WorksheetFormulaCell,
                        sheet_part,
                        Some(f.reference@),
                        "selected-sheet formula inventory entry"@,
                    ),
                ],
            },
        );
        assert(edges_have_nodes(g2));
        assert(g2.nodes == g1.nodes);
        lemma_extends_trans(g, prev.0, g1);
        lemma_extends_trans(g, g1, g2);
        law_formula_dependency_edges_only_add(g2, prev.1, ctx, fid, f.reference@, f.parse.root);
        lemma_extends_trans(g, g2, formula_edges_spec(g2, prev.1, ctx, fid, f.reference@, f.parse.root).0);
        match f.parse.root {
            None => {},
            Some(node) => if ctx.selected_worksheet_index < ctx.worksheets.len() {
                match ctx.worksheets[ctx.selected_worksheet_index as int].part_path {
                    None => {},
                    Some(selected_part) => {
                        let refs = refs_of(node);
                        lemma_references_fold_ok(g2, prev.1, ctx, fid, f.reference@, selected_part, refs, refs.len());
                    },
                }
            },
        }
    }
}

proof fn lemma_worksheet_phase_ok(g: GraphModel, ws: Seq<SheetModel>, k: nat)
    requires
        edges_have_nodes(g),
        has_node_id(g.nodes, "workbook"@),
        k <= ws.len(),
    ensures
        edges_have_nodes(worksheet_phase(g, ws, k)),
        graph_extends(g, worksheet_phase(g, ws, k)),
        forall|i: int| 0 <= i < k ==> has_node_id(worksheet_phase(g, ws, k).nodes, #[trigger] worksheet_node_id_spec(i as usize)),
    decreases k,
{
    broadcast use lemma_push_edge_joins, lemma_push_edge_extends;
    if k > 0 {
        lemma_worksheet_phase_ok(g, ws, (k - 1) as nat);
        let prev = worksheet_phase(g, ws, (k - 1) as nat);
        let i = (k - 1) as usize;
        let s = ws[i as int];
        let id = worksheet_node_id_spec(i);
        let n = NodeModel {
            id,
            kind: WorkbookGraphNodeKind::Worksheet,
            label: worksheet_label_spec(s, i),
            sheet_name: s.name,
            part_path: s.part_path,
            cell_reference: None,
            formula: None,
            cached_value: None,
        };
        let g1 = GraphModel { nodes: prev.nodes.push(n), ..prev };
        assert(graph_extends(prev, g1));
        lemma_edges_ok_grows(prev, g1);
        lemma_has_node_grows(g, prev, "workbook"@);
        lemma_has_node_grows(prev, g1, "workbook"@);
        assert(g1.nodes[prev.nodes.len() as int] == n);
        assert(has_node_id(g1.nodes, id));
        let out = worksheet_phase(g, ws, k);
        assert(out.nodes == g1.nodes);
        lemma_extends_trans(g, prev, g1);
        lemma_extends_trans(g, g1, out);
        assert forall|j: int| 0 <= j < k implies has_node_id(out.nodes, #[trigger] worksheet_node_id_spec(j as usize)) by {
            if j < k - 1 {
                lemma_has_node_grows(prev, out, worksheet_node_id_spec(j as usize));
            }
        }
    }
}

proof fn lemma_table_phase_ok(g: GraphModel, tv: Seq<TableModel>, k: nat)
    requires
        edges_have_nodes(g),
        k <= tv.len(),
    ensures
        edges_have_nodes(table_phase(g, tv, k)),
        graph_extends(g, table_phase(g, tv, k)),
        forall|j: int| 0 <= j < k ==> has_node_id(table_phase(g, tv, k).nodes, #[trigger] table_node_id_spec(tv[j])),
    decreases k,
{
    broadcast use lemma_push_edge_joins, lemma_push_edge_extends;
    if k > 0 {
        lemma_table_phase_ok(g, tv, (k - 1) as nat);
        let prev = table_phase(g, tv, (k - 1) as nat);
        let t = tv[k - 1];
        let tid = table_node_id_spec(t);
        let rid = range_reference_node_id_spec(t.worksheet_index, t.start_reference, t.end_reference);
        let n1 = NodeModel {
            id: tid,
            kind: WorkbookGraphNodeKind::Table,
            label: t.sheet_name + "!"@ + t.name,
            sheet_name: Some(t.sheet_name),
            part_path: Some(t.part_path),
            cell_reference: Some(t.range_reference),
            formula: None,
            cached_value: None,
        };
        lemma_insert_node_ok(prev, n1);
        let g1 = insert_node_spec(prev, n1);
        let n2 = reference_node(rid, WorkbookGraphNodeKind::ReferencedRange, t.sheet_name, t.worksheet_part_path, t.range_reference);
        lemma_insert_node_ok(g1, n2);
        let g2 = insert_node_spec(g1, n2);
        lemma_has_node_grows(g1, g2, tid);
        let out = table_phase(g, tv, k);
        assert(out.nodes == g2.nodes);
        lemma_extends_trans(g, prev, g1);
        lemma_extends_trans(g, g1, g2);
        lemma_extends_trans(g, g2, out);
        assert forall|j: int| 0 <= j < k implies has_node_id(out.nodes, #[trigger] table_node_id_spec(tv[j])) by {
            if j < k - 1 {
                lemma_extends_trans(prev, g1, g2);
                lemma_extends_trans(prev, g2, out);
                lemma_has_node_grows(prev, out, table_node_id_spec(tv[j]));
            }
        }
    }
}

/// The node of every query is in the graph.
pub open spec fn holds_queries(g: GraphModel, queries: Seq<ExtractedPowerQueryQuery>) -> bool {
    forall|k: int| 0 <= k < queries.len() ==> has_node_id(g.nodes, #[trigger] power_query_query_node_id_spec(queries[k].name@))
}

proof fn lemma_holds_queries_grows(g: GraphModel, h: GraphModel, queries: Seq<ExtractedPowerQueryQuery>)
    requires
        graph_extends(g, h),
        holds_queries(g, queries),
    ensures
        holds_queries(h, queries),
{
    assert forall|k: int| 0 <= k < queries.len() implies has_node_id(h.nodes, #[trigger] power_query_query_node_id_spec(queries[k].name@)) by {
        lemma_has_node_grows(g, h, power_query_query_node_id_spec(queries[k].name@));
    }
}

proof fn lemma_query_nodes_fold_ok(g: GraphModel, queries: Seq<ExtractedPowerQueryQuery>, k: nat)
    requires
        edges_have_nodes(g),
        k <= queries.len(),
    ensures
        edges_have_nodes(query_nodes_fold(g, queries, k)),
        forall|j: int| 0 <= j < k ==> has_node_id(query_nodes_fold(g, queries, k).nodes, #[trigger] power_query_query_node_id_spec(queries[j].name@)),
    decreases k,
{
    if k > 0 {
        lemma_query_nodes_fold_ok(g, queries, (k - 1) as nat);
        let prev = query_nodes_fold(g, queries, (k - 1) as nat);
        lemma_insert_node_ok(prev, query_node(queries[k - 1]));
        let out = query_nodes_fold(g, queries, k);
        assert forall|j: int| 0 <= j < k implies has_node_id(out.nodes, #[trigger] power_query_query_node_id_spec(queries[j].name@)) by {
            if j < k - 1 {
                lemma_has_node_grows(prev, out, power_query_query_node_id_spec(queries[j].name@));
            }
        }
    }
}

proof fn lemma_lineage_step_ok(
    g: GraphModel,
    flags: GraphWarningFlags,
    ctx: LineageContext,
    q: ExtractedPowerQueryQuery,
    r: PowerQueryLexicalReference,
)
    requires
        edges_have_nodes(g),
        has_node_id(g.nodes, power_query_query_node_id_spec(q.name@)),
        holds_queries(g, ctx.queries),
        holds_sheets_and_tables(g, ctx.worksheets, ctx.tables),
        ctx.tables.len() <= usize::MAX,
        ctx.queries.len() <= usize::MAX,
    ensures
        edges_have_nodes(lineage_step(g, flags, ctx, q, r).0),
{
    broadcast use lemma_push_edge_joins;
    let from = power_query_query_node_id_spec(q.name@);
    let line = decimal(r.source_line as nat);
    match r.kind {
        PowerQueryLexicalReferenceKind::QueryName => {
            lemma_unique_index_bounds(query_names(ctx.queries), query_named(r.target_name@));
            match unique_index(query_names(ctx.queries), query_named(r.target_name@)) {
                None => {},
                Some(k) => {
                    assert(has_node_id(g.nodes, power_query_query_node_id_spec(ctx.queries[k as int].name@)));
                },
            }
        },
        PowerQueryLexicalReferenceKind::WorkbookName => {
            lemma_unique_index_bounds(ctx.tables, table_named(r.target_name@));
            match workbook_name_fn(ctx.defined_names, ctx.tables, r.target_name@) {
                Some(PowerQueryWorkbookNameTarget::DefinedName(k)) => {
                    let d = ctx.defined_names[k as int];
                    let id = defined_name_node_id_spec(d);
                    lemma_insert_node_ok(g, defined_name_node(d));
                    let g1 = insert_node_spec(g, defined_name_node(d));
                    lemma_has_node_grows(g, g1, from);
                    let g2 = push_edge_spec(
                        g1,
                        EdgeModel {
                            kind: WorkbookGraphEdgeKind::PowerQueryReferencesDefinedName,
                            from,
                            to: id,
                            evidence: seq![
                                evidence_of(
                                    WorkbookGraphEvidenceKind::PowerQueryLexicalWorkbookNameReference,
                                    q.source_part@,
                                    None,
                                    "Power Query "@ + q.name@ + " resolved Excel.CurrentWorkbook name "@ + r.target_name@
                                        + " to defined name "@ + defined_name_label_spec(d) + " on line "@ + line,
                                ),
                            ],
                        },
                    );
                    assert(edges_have_nodes(g2));
                    assert(g2.nodes == g1.nodes);
                    lemma_target_edges_ok(g2, flags, d, lineage_name_target(ctx, k), id, ctx.worksheets);
                },
                Some(PowerQueryWorkbookNameTarget::Table(k)) => {
                    assert(has_node_id(g.nodes, table_node_id_spec(ctx.tables[k as int])));
                },
                None => {},
            }
        },
    }
}

proof fn lemma_query_refs_fold_ok(
    g: GraphModel,
    flags: GraphWarningFlags,
    ctx: LineageContext,
    q: ExtractedPowerQueryQuery,
    k: nat,
)
    requires
        edges_have_nodes(g),
        has_node_id(g.nodes, power_query_query_node_id_spec(q.name@)),
        holds_queries(g, ctx.queries),
        holds_sheets_and_tables(g, ctx.worksheets, ctx.tables),
        ctx.tables.len() <= usize::MAX,
        ctx.queries.len() <= usize::MAX,
    ensures
        edges_have_nodes(query_refs_fold(g, flags, ctx, q, k).0),
    decreases k,
{
    if !(k == 0 || k > q.lexical_references@.len()) {
        lemma_query_refs_fold_ok(g, flags, ctx, q, (k - 1) as nat);
        lemma_query_refs_fold_extends(g, flags, ctx, q, (k - 1) as nat);
        let prev = query_refs_fold(g, flags, ctx, q, (k - 1) as nat);
        lemma_has_node_grows(g, prev.0, power_query_query_node_id_spec(q.name@));
        lemma_holds_queries_grows(g, prev.0, ctx.queries);
        lemma_holds_grows(g, prev.0, ctx.worksheets, ctx.tables);
        lemma_lineage_step_ok(prev.0, prev.1, ctx, q, q.lexical_references@[k - 1]);
    }
}

proof fn lemma_lineage_fold_ok(g: GraphModel, flags: GraphWarningFlags, ctx: LineageContext, k: nat)
    requires
        edges_have_nodes(g),
        holds_queries(g, ctx.queries),
        holds_sheets_and_tables(g, ctx.worksheets, ctx.tables),
        ctx.tables.len() <= usize::MAX,
        ctx.queries.len() <= usize::MAX,
    ensures
        edges_have_nodes(lineage_fold(g, flags, ctx, k).0),
    decreases k,
{
    if !(k == 0 || k > ctx.queries.len()) {
        lemma_lineage_fold_ok(g, flags, ctx, (k - 1) as nat);
        lemma_lineage_fold_extends(g, flags, ctx, (k - 1) as nat);
        let prev = lineage_fold(g, flags, ctx, (k - 1) as nat);
        let q = ctx.queries[k - 1];
        lemma_holds_queries_grows(g, prev.0, ctx.queries);
        lemma_holds_grows(g, prev.0, ctx.worksheets, ctx.tables);
        assert(has_node_id(prev.0.nodes, power_query_query_node_id_spec(ctx.queries[k - 1].name@)));
        lemma_query_refs_fold_ok(prev.0, prev.1, ctx, q, q.lexical_references@.len());
    }
}

/// Whatever the workbook, every edge of the graph starts and ends at one of
/// its nodes, given a selected worksheet among the workbook's worksheets
/// (and lists that fit in memory).
pub proof fn law_graph_edges_join_nodes(
    display_path: Seq<char>,
    workbook: InspectWorkbookResult,
    formulas: InspectSheetFormulasResult,
    defined_name_targets: Seq<Option<FormulaAstNode>>,
    table_parse: WorkbookTableParse,
    power_query: Option<PowerQueryExtraction>,
    si: usize,
)
    requires
        si < worksheets_of(sheets_view(workbook.sheets@)).len(),
        table_parse.tables@.len() <= usize::MAX,
        power_query matches Some(x) ==> x.queries@.len() <= usize::MAX,
    ensures
        edges_have_nodes(
            graph_build_spec(display_path, workbook, formulas, defined_name_targets, table_parse, power_query, si).0,
        ),
{
    let ws = worksheets_of(sheets_view(workbook.sheets@));
    let g0 = GraphModel { nodes: seq![workbook_node(display_path)], edges: Seq::empty() };
    assert(g0.nodes[0].id == "workbook"@);
    assert(has_node_id(g0.nodes, "workbook"@));
    lemma_worksheet_phase_ok(g0, ws, ws.len());
    let g1 = worksheet_phase(g0, ws, ws.len());
    let tv = tables_view(table_parse.tables@);
    lemma_table_phase_ok(g1, tv, tv.len());
    let g2 = table_phase(g1, tv, tv.len());
    assert forall|i: int| 0 <= i < ws.len() implies has_node_id(g2.nodes, #[trigger] worksheet_node_id_spec(i as usize)) by {
        lemma_has_node_grows(g1, g2, worksheet_node_id_spec(i as usize));
    }
    assert(holds_sheets_and_tables(g2, ws, tv));
    let ctx = DependencyContext {
        selected_worksheet_index: si,
        worksheets: ws,
        defined_names: defined_names_view(formulas.defined_names@),
        name_targets: defined_name_targets,
        selected_sheet_name: formulas.sheet.name@,
        tables: tv,
    };
    lemma_formula_phase_ok(
        g2,
        no_flags(),
        ctx,
        formulas.sheet.name@,
        formulas.sheet.part_path@,
        formulas.formulas@,
        formulas.formulas@.len(),
    );
    let f3 = formula_phase(
        g2,
        no_flags(),
        ctx,
        formulas.sheet.name@,
        formulas.sheet.part_path@,
        formulas.formulas@,
        formulas.formulas@.len(),
    );
    lemma_holds_grows(g2, f3.0, ws, tv);
    match power_query {
        Some(x) => if workbook.markers.has_power_query {
            let lctx = LineageContext {
                queries: x.queries@,
                defined_names: defined_names_view(formulas.defined_names@),
                name_targets: defined_name_targets,
                tables: tv,
                worksheets: ws,
            };
            lemma_query_nodes_fold_ok(f3.0, lctx.queries, lctx.queries.len());
            lemma_query_nodes_fold_extends(f3.0, lctx.queries, lctx.queries.len());
            let g4 = query_nodes_fold(f3.0, lctx.queries, lctx.queries.len());
            lemma_holds_grows(f3.0, g4, ws, tv);
            assert(holds_queries(g4, lctx.queries));
            lemma_lineage_fold_ok(g4, f3.1, lctx, lctx.queries.len());
        },
        None => {},
    }
}

// ---------------------------------------------------------------------------
// Node ids never repeat

/// No two nodes share an id.
pub open spec fn ids_unique(nodes: Seq<NodeModel>) -> bool {
    forall|i: int, j: int| 0 <= i < j < nodes.len() ==> (#[trigger] nodes[i]).id != (#[trigger] nodes[j]).id
}

/// Whether an id is not a formula node's id (those start with `f`).
pub open spec fn other_than_formula(id: Seq<char>) -> bool {
    id.len() > 0 && id[0] != 'f'
}

/// The ids are unique, and each is a formula id out of `formula_ids` or
/// the id of another kind of node.
pub open spec fn node_ids_ok(nodes: Seq<NodeModel>, formula_ids: Set<Seq<char>>) -> bool {
    &&& ids_unique(nodes)
    &&& forall|i: int|
        0 <= i < nodes.len() ==> other_than_formula((#[trigger] nodes[i]).id) || formula_ids.contains(nodes[i].id)
}

proof fn lemma_id_kinds()
    ensures
        forall|w: usize, r: Seq<char>| #[trigger] formula_node_id_spec(w, r)[0] == 'f' && formula_node_id_spec(w, r).len() > 8,
        forall|w: usize, r: Seq<char>| other_than_formula(#[trigger] cell_reference_node_id_spec(w, r)),
        forall|w: usize, a: Seq<char>, b: Seq<char>| other_than_formula(#[trigger] range_reference_node_id_spec(w, a, b)),
        forall|d: DefinedNameModel| other_than_formula(#[trigger] defined_name_node_id_spec(d)),
        forall|d: DefinedNameModel| other_than_formula(#[trigger] defined_name_formula_text_node_id_spec(d)),
        forall|t: TableModel| other_than_formula(#[trigger] table_node_id_spec(t)),
        forall|n: Seq<char>| other_than_formula(#[trigger] power_query_query_node_id_spec(n)),
        forall|w: usize| other_than_formula(#[trigger] worksheet_node_id_spec(w)),
        other_than_formula("workbook"@),
{
    reveal_strlit("formula:");
    reveal_strlit("ref-cell:");
    reveal_strlit("ref-range:");
    reveal_strlit("defined-name:");
    reveal_strlit("defined-name-formula:");
    reveal_strlit("table:");
    reveal_strlit("power-query:");
    reveal_strlit("worksheet:");
    reveal_strlit("workbook");
    assert forall|w: usize, r: Seq<char>| #[trigger] formula_node_id_spec(w, r)[0] == 'f' && formula_node_id_spec(w, r).len() > 8 by {
        assert(formula_node_id_spec(w, r)[0] == "formula:"@[0]);
    }
    assert forall|w: usize, r: Seq<char>| other_than_formula(#[trigger] cell_reference_node_id_spec(w, r)) by {
        assert(cell_reference_node_id_spec(w, r)[0] == "ref-cell:"@[0]);
    }
    assert forall|w: usize, a: Seq<char>, b: Seq<char>| other_than_formula(#[trigger] range_reference_node_id_spec(w, a, b)) by {
        assert(range_reference_node_id_spec(w, a, b)[0] == "ref-range:"@[0]);
    }
    assert forall|d: DefinedNameModel| other_than_formula(#[trigger] defined_name_node_id_spec(d)) by {
        assert(defined_name_node_id_spec(d)[0] == "defined-name:"@[0]);
    }
    assert forall|d: DefinedNameModel| other_than_formula(#[trigger] defined_name_formula_text_node_id_spec(d)) by {
        assert(defined_name_formula_text_node_id_spec(d)[0] == "defined-name-formula:"@[0]);
    }
    assert forall|t: TableModel| other_than_formula(#[trigger] table_node_id_spec(t)) by {
        assert(table_node_id_spec(t)[0] == "table:"@[0]);
    }
    assert forall|n: Seq<char>| other_than_formula(#[trigger] power_query_query_node_id_spec(n)) by {
        assert(power_query_query_node_id_spec(n)[0] == "power-query:"@[0]);
    }
    assert forall|w: usize| other_than_formula(#[trigger] worksheet_node_id_spec(w)) by {
        assert(worksheet_node_id_spec(w)[0] == "worksheet:"@[0]);
    }
}

proof fn lemma_insert_keeps_ids(g: GraphModel, n: NodeModel, f: Set<Seq<char>>)
    requires
        node_ids_ok(g.nodes, f),
        other_than_formula(n.id),
    ensures
        node_ids_ok(insert_node_spec(g, n).nodes, f),
{
    if !has_node_id(g.nodes, n.id) {
        let h = insert_node_spec(g, n).nodes;
        assert forall|i: int, j: int| 0 <= i < j < h.len() implies (#[trigger] h[i]).id != (#[trigger] h[j]).id by {
            if j == g.nodes.len() {
                assert(h[i] == g.nodes[i]);
                if h[i].id == n.id {
                    assert(has_node_id(g.nodes, n.id));
                }
            } else {
                assert(h[i] == g.nodes[i] && h[j] == g.nodes[j]);
            }
        }
        assert forall|i: int| 0 <= i < h.len() implies other_than_formula((#[trigger] h[i]).id) || f.contains(h[i].id) by {
            if i < g.nodes.len() {
                assert(h[i] == g.nodes[i]);
            }
        }
    }
}

proof fn lemma_target_edges_ids(
    g: GraphModel,
    flags: GraphWarningFlags,
    d: DefinedNameModel,
    root: Option<FormulaAstNode>,
    dn_id: Seq<char>,
    ws: Seq<SheetModel>,
    f: Set<Seq<char>>,
)
    requires
        node_ids_ok(g.nodes, f),
    ensures
        node_ids_ok(target_edges_spec(g, flags, d, root, dn_id, ws).0.nodes, f),
{
    lemma_id_kinds();
    let id = defined_name_formula_text_node_id_spec(d);
    let ft_node = NodeModel {
        id,
        kind: WorkbookGraphNodeKind::DefinedNameFormulaText,
        label: defined_name_label_spec(d) + "="@ + d.target,
        sheet_name: d.sheet_scope,
        part_path: Some(workbook_part()),
        cell_reference: None,
        formula: Some(d.target),
        cached_value: None,
    };
    lemma_insert_keeps_ids(g, ft_node, f);
    match root {
        Some(FormulaAstNode::CellReference { reference, sheet_name }) => match resolve_target_sheet_spec(d, ws, ov(sheet_name)) {
            None => {},
            Some((wi, sn, pp)) => {
                let id = cell_reference_node_id_spec(wi, reference@);
                lemma_insert_keeps_ids(g, reference_node(id, WorkbookGraphNodeKind::ReferencedCell, sn, pp, reference@), f);
            },
        },
        Some(FormulaAstNode::RangeReference { start_reference, end_reference, sheet_name }) => match resolve_target_sheet_spec(d, ws, ov(sheet_name)) {
            None => {},
            Some((wi, sn, pp)) => {
                let id = range_reference_node_id_spec(wi, start_reference@, end_reference@);
                let range = start_reference@ + ":"@ + end_reference@;
                lemma_insert_keeps_ids(g, reference_node(id, WorkbookGraphNodeKind::ReferencedRange, sn, pp, range), f);
            },
        },
        _ => {},
    }
}

proof fn lemma_reference_step_ids(
    g: GraphModel,
    flags: GraphWarningFlags,
    ctx: DependencyContext,
    fid: Seq<char>,
    fref: Seq<char>,
    selected_part: Seq<char>,
    r: RefModel,
    f: Set<Seq<char>>,
)
    requires
        node_ids_ok(g.nodes, f),
    ensures
        node_ids_ok(reference_step(g, flags, ctx, fid, fref, selected_part, r).0.nodes, f),
{
    lemma_id_kinds();
    match r {
        RefModel::Cell { reference, sheet_name } => match reference_home(g, ctx, fid, fref, selected_part, sheet_name) {
            None => {},
            Some((g1, wi, sn, pp)) => {
                assert(g1.nodes == g.nodes);
                let id = cell_reference_node_id_spec(wi, reference);
                lemma_insert_keeps_ids(g1, reference_node(id, WorkbookGraphNodeKind::ReferencedCell, sn, pp, reference), f);
            },
        },
        RefModel::Range { start_reference, end_reference, sheet_name } => match reference_home(g, ctx, fid, fref, selected_part, sheet_name) {
            None => {},
            Some((g1, wi, sn, pp)) => {
                assert(g1.nodes == g.nodes);
                let id = range_reference_node_id_spec(wi, start_reference, end_reference);
                let range = start_reference + ":"@ + end_reference;
                lemma_insert_keeps_ids(g1, reference_node(id, WorkbookGraphNodeKind::ReferencedRange, sn, pp, range), f);
            },
        },
        RefModel::DefinedName { name, sheet_name } => match resolve_defined_name_fn(
            ctx.defined_names,
            ctx.selected_sheet_name,
            name,
            sheet_name,
        ) {
            None => {},
            Some(k) => {
                let d = ctx.defined_names[k as int];
                let id = defined_name_node_id_spec(d);
                lemma_insert_keeps_ids(g, defined_name_node(d), f);
                let g1 = insert_node_spec(g, defined_name_node(d));
                let g2 = push_edge_spec(
                    g1,
                    EdgeModel {
                        kind: WorkbookGraphEdgeKind::FormulaReferencesDefinedName,
                        from: fid,
                        to: id,
                        evidence: seq![
                            evidence_of(
                                WorkbookGraphEvidenceKind::FormulaAstDefinedNameReference,
                                selected_part,
                                Some(fref),
                                "ast defined-name reference "@ + defined_name_label_spec(d),
                            ),
                        ],
                    },
                );
                assert(g2.nodes == g1.nodes);
                lemma_target_edges_ids(g2, flags, d, name_target(ctx, k), id, ctx.worksheets, f);
            },
        },
        RefModel::StructuredReference { text } => {},
    }
}

proof fn lemma_references_fold_ids(
    g: GraphModel,
    flags: GraphWarningFlags,
    ctx: DependencyContext,
    fid: Seq<char>,
    fref: Seq<char>,
    selected_part: Seq<char>,
    refs: Seq<RefModel>,
    k: nat,
    f: Set<Seq<char>>,
)
    requires
        node_ids_ok(g.nodes, f),
    ensures
        node_ids_ok(references_fold(g, flags, ctx, fid, fref, selected_part, refs, k).0.nodes, f),
    decreases k,
{
    if !(k == 0 || k > refs.len()) {
        lemma_references_fold_ids(g, flags, ctx, fid, fref, selected_part, refs, (k - 1) as nat, f);
        let prev = references_fold(g, flags, ctx, fid, fref, selected_part, refs, (k - 1) as nat);
        lemma_reference_step_ids(prev.0, prev.1, ctx, fid, fref, selected_part, refs[k - 1], f);
    }
}

/// The ids of the nodes of the first `k` formulas.
pub open spec fn formula_ids_of(si: usize, fs: Seq<SheetFormulaSummary>, k: nat) -> Set<Seq<char>> {
    Set::new(|id: Seq<char>| exists|j: int| 0 <= j < k && id == #[trigger] formula_node_id_spec(si, fs[j].reference@))
}

/// No two formulas of the inventory have the same cell reference.
pub open spec fn references_distinct(fs: Seq<SheetFormulaSummary>) -> bool {
    forall|i: int, j: int| 0 <= i < j < fs.len() ==> (#[trigger] fs[i]).reference@ != (#[trigger] fs[j]).reference@
}

proof fn lemma_formula_phase_ids(
    g: GraphModel,
    flags: GraphWarningFlags,
    ctx: DependencyContext,
    sheet_name: Seq<char>,
    sheet_part: Seq<char>,
    fs: Seq<SheetFormulaSummary>,
    k: nat,
)
    requires
        node_ids_ok(g.nodes, Set::empty()),
        references_distinct(fs),
        k <= fs.len(),
    ensures
        node_ids_ok(formula_phase(g, flags, ctx, sheet_name, sheet_part, fs, k).0.nodes, formula_ids_of(
            ctx.selected_worksheet_index,
            fs,
            k,
        )),
    decreases k,
{
    lemma_id_kinds();
    let si = ctx.selected_worksheet_index;
    if k == 0 {
        assert(formula_ids_of(si, fs, 0) =~= Set::<Seq<char>>::empty());
    } else {
        lemma_formula_phase_ids(g, flags, ctx, sheet_name, sheet_part, fs, (k - 1) as nat);
        let prev = formula_phase(g, flags, ctx, sheet_name, sheet_part, fs, (k - 1) as nat);
        let fprev = formula_ids_of(si, fs, (k - 1) as nat);
        let fnow = formula_ids_of(si, fs, k);
        let f = fs[k - 1];
        let fid = formula_node_id_spec(si, f.reference@);
        let n = NodeModel {
            id: fid,
            kind: WorkbookGraphNodeKind::CellFormula,
            label: sheet_name + "!"@ + f.reference@,
            sheet_name: Some(sheet_name),
            part_path: Some(sheet_part),
            cell_reference: Some(f.reference@),
            formula: Some(f.formula@),
            cached_value: ov(f.cached_value),
        };
        let nodes = prev.0.nodes;
        let h = nodes.push(n);
        assert forall|i: int| 0 <= i < nodes.len() implies (#[trigger] nodes[i]).id != fid by {
            if nodes[i].id == fid {
                assert(!other_than_formula(fid));
                assert(fprev.contains(fid));
                let j = choose|j: int| 0 <= j < k - 1 && fid == #[trigger] formula_node_id_spec(si, fs[j].reference@);
                let pre = "formula:"@ + decimal(si as nat) + ":"@;
                assert(fid.skip(pre.len() as int) =~= f.reference@);
                assert(formula_node_id_spec(si, fs[j].reference@).skip(pre.len() as int) =~= fs[j].reference@);
                assert(fs[j].reference@ != fs[k - 1].reference@);
            }
        }
        assert forall|i: int, j: int| 0 <= i < j < h.len() implies (#[trigger] h[i]).id != (#[trigger] h[j]).id by {
            if j == nodes.len() {
                assert(h[i] == nodes[i]);
            } else {
                assert(h[i] == nodes[i] && h[j] == nodes[j]);
            }
        }
        assert forall|id: Seq<char>| fprev.contains(id) implies fnow.contains(id) by {
            let j = choose|j: int| 0 <= j < k - 1 && id == #[trigger] formula_node_id_spec(si, fs[j].reference@);
            assert(0 <= j < k && id == formula_node_id_spec(si, fs[j].reference@));
        }
        assert(fnow.contains(fid)) by {
            assert(fid == formula_node_id_spec(si, fs[k - 1].reference@));
        }
        assert forall|i: int| 0 <= i < h.len() implies other_than_formula((#[trigger] h[i]).id) || fnow.contains(h[i].id) by {
            if i < nodes.len() {
                assert(h[i] == nodes[i]);
            }
        }
        let g1 = GraphModel { nodes: h, ..prev.0 };
        let g2 = push_edge_spec(
            g1,
            EdgeModel {
                kind: WorkbookGraphEdgeKind::WorksheetContainsFormula,
                from: worksheet_node_id_spec(si),
                to: fid,
                evidence: seq![
                    evidence_of(
                        WorkbookGraphEvidenceKind::WorksheetFormulaCell,
                        sheet_part,
                        Some(f.reference@),
                        "selected-sheet formula inventory entry"@,
                    ),
                ],
            },
        );
        assert(g2.nodes == h);
        assert(node_ids_ok(g2.nodes, fnow));
        match f.parse.root {
            None => {},
            Some(node) => if si < ctx.worksheets.len() {
                match ctx.worksheets[si as int].part_path {
                    None => {},
                    Some(selected_part) => {
                        let refs = refs_of(node);
                        lemma_references_fold_ids(g2, prev.1, ctx, fid, f.reference@, selected_part, refs, refs.len(), fnow);
                    },
                }
            },
        }
    }
}

proof fn lemma_decimal_len(n: nat)
    ensures
        decimal(n).len() >= 1,
        n >= 10 ==> decimal(n).len() >= 2,
    decreases n,
{
    if n >= 10 {
        lemma_decimal_len(n / 10);
    }
}

proof fn lemma_decimal_injective(a: nat, b: nat)
    requires
        decimal(a) == decimal(b),
    ensures
        a == b,
    decreases a + b,
{
    lemma_decimal_len(a);
    lemma_decimal_len(b);
    if a < 10 && b < 10 {
        assert(decimal(a) == seq![crate::text::digit_char(a)]);
        assert(decimal(b) == seq![crate::text::digit_char(b)]);
        let da = crate::text::digit_char(a);
        let db = crate::text::digit_char(b);
        assert(seq![da][0] == da);
        assert(seq![db][0] == db);
        assert(decimal(a)[0] == decimal(b)[0]);
        assert(da == db);
        assert(crate::text::digit_char(a) as u32 == 48 + a);
        assert(crate::text::digit_char(b) as u32 == 48 + b);
    } else if a >= 10 && b >= 10 {
        assert(decimal(a) == decimal(a / 10).push(crate::text::digit_char(a % 10)));
        assert(decimal(b) == decimal(b / 10).push(crate::text::digit_char(b % 10)));
        let la = crate::text::digit_char(a % 10);
        let lb = crate::text::digit_char(b % 10);
        assert(decimal(a / 10).push(la).last() == la);
        assert(decimal(b / 10).push(lb).last() == lb);
        assert(decimal(a).last() == decimal(b).last());
        assert(la == lb);
        assert(decimal(a).drop_last() =~= decimal(a / 10));
        assert(decimal(b).drop_last() =~= decimal(b / 10));
        lemma_decimal_injective(a / 10, b / 10);
        assert(crate::text::digit_char(a % 10) == crate::text::digit_char(b % 10));
        assert(crate::text::digit_char(a % 10) as u32 == 48 + a % 10);
        assert(crate::text::digit_char(b % 10) as u32 == 48 + b % 10);
    }
}

proof fn lemma_worksheet_ids_differ(a: usize, b: usize)
    requires
        a != b,
    ensures
        worksheet_node_id_spec(a) != worksheet_node_id_spec(b),
{
    if worksheet_node_id_spec(a) == worksheet_node_id_spec(b) {
        let pre = "worksheet:"@;
        assert(worksheet_node_id_spec(a).skip(pre.len() as int) =~= decimal(a as nat));
        assert(worksheet_node_id_spec(b).skip(pre.len() as int) =~= decimal(b as nat));
        lemma_decimal_injective(a as nat, b as nat);
    }
}

proof fn lemma_worksheet_phase_ids(g: GraphModel, ws: Seq<SheetModel>, k: nat)
    requires
        node_ids_ok(g.nodes, Set::empty()),
        forall|i: int| 0 <= i < g.nodes.len() ==> !(#[trigger] g.nodes[i]).id.take(10).is_prefix_of(seq!['w', 'o', 'r', 'k', 's', 'h', 'e', 'e', 't', ':']) || g.nodes[i].id.len() < 10,
        k <= ws.len(),
        ws.len() <= usize::MAX,
    ensures
        node_ids_ok(worksheet_phase(g, ws, k).nodes, Set::empty()),
        forall|i: int|
            g.nodes.len() <= i < worksheet_phase(g, ws, k).nodes.len() ==> (#[trigger] worksheet_phase(g, ws, k).nodes[i]).id
                == worksheet_node_id_spec((i - g.nodes.len()) as usize),
        worksheet_phase(g, ws, k).nodes.len() == g.nodes.len() + k,
        forall|i: int| 0 <= i < g.nodes.len() ==> #[trigger] worksheet_phase(g, ws, k).nodes[i] == g.nodes[i],
    decreases k,
{
    lemma_id_kinds();
    if k > 0 {
        lemma_worksheet_phase_ids(g, ws, (k - 1) as nat);
        let prev = worksheet_phase(g, ws, (k - 1) as nat);
        let i = (k - 1) as usize;
        let id = worksheet_node_id_spec(i);
        let out = worksheet_phase(g, ws, k);
        assert(out.nodes.len() == prev.nodes.len() + 1);
        assert(out.nodes.drop_last() =~= prev.nodes);
        assert(out.nodes.last().id == id);
        assert forall|a: int| 0 <= a < prev.nodes.len() implies (#[trigger] prev.nodes[a]).id != id by {
            if a >= g.nodes.len() {
                lemma_worksheet_ids_differ((a - g.nodes.len()) as usize, i);
            } else {
                reveal_strlit("worksheet:");
                assert(id.take(10) =~= "worksheet:"@);
                if prev.nodes[a].id == id {
                    assert(g.nodes[a].id.take(10) =~= seq!['w', 'o', 'r', 'k', 's', 'h', 'e', 'e', 't', ':']);
                }
            }
        }
        assert forall|a: int, b: int| 0 <= a < b < out.nodes.len() implies (#[trigger] out.nodes[a]).id != (#[trigger] out.nodes[b]).id by {
            assert(out.nodes[a] == prev.nodes[a]);
            if b < prev.nodes.len() {
                assert(out.nodes[b] == prev.nodes[b]);
            }
        }
        assert forall|a: int| 0 <= a < out.nodes.len() implies other_than_formula((#[trigger] out.nodes[a]).id) || Set::<Seq<char>>::empty().contains(out.nodes[a].id) by {
            if a < prev.nodes.len() {
                assert(out.nodes[a] == prev.nodes[a]);
            }
        }
        assert forall|a: int| g.nodes.len() <= a < out.nodes.len() implies (#[trigger] out.nodes[a]).id == worksheet_node_id_spec((a - g.nodes.len()) as usize) by {
            if a < prev.nodes.len() {
                assert(out.nodes[a] == prev.nodes[a]);
            }
        }
        assert forall|a: int| 0 <= a < g.nodes.len() implies #[trigger] out.nodes[a] == g.nodes[a] by {
            assert(out.nodes[a] == prev.nodes[a]);
        }
    }
}

proof fn lemma_table_phase_ids(g: GraphModel, tv: Seq<TableModel>, k: nat, f: Set<Seq<char>>)
    requires
        node_ids_ok(g.nodes, f),
    ensures
        node_ids_ok(table_phase(g, tv, k).nodes, f),
    decreases k,
{
    lemma_id_kinds();
    if !(k == 0 || k > tv.len()) {
        lemma_table_phase_ids(g, tv, (k - 1) as nat, f);
        let prev = table_phase(g, tv, (k - 1) as nat);
        let t = tv[k - 1];
        let tid = table_node_id_spec(t);
        let rid = range_reference_node_id_spec(t.worksheet_index, t.start_reference, t.end_reference);
        let n1 = NodeModel {
            id: tid,
            kind: WorkbookGraphNodeKind::Table,
            label: t.sheet_name + "!"@ + t.name,
            sheet_name: Some(t.sheet_name),
            part_path: Some(t.part_path),
            cell_reference: Some(t.range_reference),
            formula: None,
            cached_value: None,
        };
        lemma_insert_keeps_ids(prev, n1, f);
        let g1 = insert_node_spec(prev, n1);
        let n2 = reference_node(rid, WorkbookGraphNodeKind::ReferencedRange, t.sheet_name, t.worksheet_part_path, t.range_reference);
        lemma_insert_keeps_ids(g1, n2, f);
    }
}

proof fn lemma_query_nodes_fold_ids(g: GraphModel, queries: Seq<ExtractedPowerQueryQuery>, k: nat, f: Set<Seq<char>>)
    requires
        node_ids_ok(g.nodes, f),
    ensures
        node_ids_ok(query_nodes_fold(g, queries, k).nodes, f),
    decreases k,
{
    lemma_id_kinds();
    if !(k == 0 || k > queries.len()) {
        lemma_query_nodes_fold_ids(g, queries, (k - 1) as nat, f);
        lemma_insert_keeps_ids(query_nodes_fold(g, queries, (k - 1) as nat), query_node(queries[k - 1]), f);
    }
}

proof fn lemma_lineage_step_ids(
    g: GraphModel,
    flags: GraphWarningFlags,
    ctx: LineageContext,
    q: ExtractedPowerQueryQuery,
    r: PowerQueryLexicalReference,
    f: Set<Seq<char>>,
)
    requires
        node_ids_ok(g.nodes, f),
    ensures
        node_ids_ok(lineage_step(g, flags, ctx, q, r).0.nodes, f),
{
    lemma_id_kinds();
    let from = power_query_query_node_id_spec(q.name@);
    let line = decimal(r.source_line as nat);
    match r.kind {
        PowerQueryLexicalReferenceKind::QueryName => {},
        PowerQueryLexicalReferenceKind::WorkbookName => match workbook_name_fn(
            ctx.defined_names,
            ctx.tables,
            r.target_name@,
        ) {
            Some(PowerQueryWorkbookNameTarget::DefinedName(k)) => {
                let d = ctx.defined_names[k as int];
                let id = defined_name_node_id_spec(d);
                lemma_insert_keeps_ids(g, defined_name_node(d), f);
                let g1 = insert_node_spec(g, defined_name_node(d));
                let g2 = push_edge_spec(
                    g1,
                    EdgeModel {
                        kind: WorkbookGraphEdgeKind::PowerQueryReferencesDefinedName,
                        from,
                        to: id,
                        evidence: seq![
                            evidence_of(
                                WorkbookGraphEvidenceKind::PowerQueryLexicalWorkbookNameReference,
                                q.source_part@,
                                None,
                                "Power Query "@ + q.name@ + " resolved Excel.CurrentWorkbook name "@ + r.target_name@
                                    + " to defined name "@ + defined_name_label_spec(d) + " on line "@ + line,
                            ),
                        ],
                    },
                );
                assert(g2.nodes == g1.nodes);
                lemma_target_edges_ids(g2, flags, d, lineage_name_target(ctx, k), id, ctx.worksheets, f);
            },
            _ => {},
        },
    }
}

proof fn lemma_query_refs_fold_ids(
    g: GraphModel,
    flags: GraphWarningFlags,
    ctx: LineageContext,
    q: ExtractedPowerQueryQuery,
    k: nat,
    f: Set<Seq<char>>,
)
    requires
        node_ids_ok(g.nodes, f),
    ensures
        node_ids_ok(query_refs_fold(g, flags, ctx, q, k).0.nodes, f),
    decreases k,
{
    if !(k == 0 || k > q.lexical_references@.len()) {
        lemma_query_refs_fold_ids(g, flags, ctx, q, (k - 1) as nat, f);
        let prev = query_refs_fold(g, flags, ctx, q, (k - 1) as nat);
        lemma_lineage_step_ids(prev.0, prev.1, ctx, q, q.lexical_references@[k - 1], f);
    }
}

proof fn lemma_lineage_fold_ids(g: GraphModel, flags: GraphWarningFlags, ctx: LineageContext, k: nat, f: Set<Seq<char>>)
    requires
        node_ids_ok(g.nodes, f),
    ensures
        node_ids_ok(lineage_fold(g, flags, ctx, k).0.nodes, f),
    decreases k,
{
    if !(k == 0 || k > ctx.queries.len()) {
        lemma_lineage_fold_ids(g, flags, ctx, (k - 1) as nat, f);
        let prev = lineage_fold(g, flags, ctx, (k - 1) as nat);
        let q = ctx.queries[k - 1];
        lemma_query_refs_fold_ids(prev.0, prev.1, ctx, q, q.lexical_references@.len(), f);
    }
}

/// Whatever the workbook, no two nodes of the graph share an id, given a
/// formula inventory whose cell references are distinct (and a worksheet
/// list that fits in memory).
pub proof fn law_graph_node_ids_never_repeat(
    display_path: Seq<char>,
    workbook: InspectWorkbookResult,
    formulas: InspectSheetFormulasResult,
    defined_name_targets: Seq<Option<FormulaAstNode>>,
    table_parse: WorkbookTableParse,
    power_query: Option<PowerQueryExtraction>,
    si: usize,
)
    requires
        references_distinct(formulas.formulas@),
        worksheets_of(sheets_view(workbook.sheets@)).len() <= usize::MAX,
    ensures
        ids_unique(
            graph_build_spec(display_path, workbook, formulas, defined_name_targets, table_parse, power_query, si).0.nodes,
        ),
{
    lemma_id_kinds();
    let ws = worksheets_of(sheets_view(workbook.sheets@));
    let g0 = GraphModel { nodes: seq![workbook_node(display_path)], edges: Seq::empty() };
    reveal_strlit("workbook");
    assert(g0.nodes[0].id == "workbook"@);
    assert(node_ids_ok(g0.nodes, Set::empty()));
    lemma_worksheet_phase_ids(g0, ws, ws.len());
    let g1 = worksheet_phase(g0, ws, ws.len());
    let tv = tables_view(table_parse.tables@);
    lemma_table_phase_ids(g1, tv, tv.len(), Set::empty());
    let g2 = table_phase(g1, tv, tv.len());
    let ctx = DependencyContext {
        selected_worksheet_index: si,
        worksheets: ws,
        defined_names: defined_names_view(formulas.defined_names@),
        name_targets: defined_name_targets,
        selected_sheet_name: formulas.sheet.name@,
        tables: tv,
    };
    let fs = formulas.formulas@;
    lemma_formula_phase_ids(g2, no_flags(), ctx, formulas.sheet.name@, formulas.sheet.part_path@, fs, fs.len());
    let f3 = formula_phase(g2, no_flags(), ctx, formulas.sheet.name@, formulas.sheet.part_path@, fs, fs.len());
    let fids = formula_ids_of(si, fs, fs.len());
    match power_query {
        Some(x) => if workbook.markers.has_power_query {
            let lctx = LineageContext {
                queries: x.queries@,
                defined_names: defined_names_view(formulas.defined_names@),
                name_targets: defined_name_targets,
                tables: tv,
                worksheets: ws,
            };
            lemma_query_nodes_fold_ids(f3.0, lctx.queries, lctx.queries.len(), fids);
            let g4 = query_nodes_fold(f3.0, lctx.queries, lctx.queries.len());
            lemma_lineage_fold_ids(g4, f3.1, lctx, lctx.queries.len(), fids);
        },
        None => {},
    }
}

proof fn lemma_formula_phase_extends(
    g: GraphModel,
    flags: GraphWarningFlags,
    ctx: DependencyContext,
    sheet_name: Seq<char>,
    sheet_part: Seq<char>,
    fs: Seq<SheetFormulaSummary>,
    k: nat,
)
    ensures
        graph_extends(g, formula_phase(g, flags, ctx, sheet_name, sheet_part, fs, k).0),
    decreases k,
{
    broadcast use lemma_push_edge_extends;
    if !(k == 0 || k > fs.len()) {
        lemma_formula_phase_extends(g, flags, ctx, sheet_name, sheet_part, fs, (k - 1) as nat);
        let prev = formula_phase(g, flags, ctx, sheet_name, sheet_part, fs, (k - 1) as nat);
        let f = fs[k - 1];
        let fid = formula_node_id_spec(ctx.selected_worksheet_index, f.reference@);
        let n = NodeModel {
            id: fid,
            kind: WorkbookGraphNodeKind::CellFormula,
            label: sheet_name + "!"@ + f.reference@,
            sheet_name: Some(sheet_name),
            part_path: Some(sheet_part),
            cell_reference: Some(f.reference@),
            formula: Some(f.formula@),
            cached_value: ov(f.cached_value),
        };
        let g1 = GraphModel { nodes: prev.0.nodes.push(n), ..prev.0 };
        assert(graph_extends(prev.0, g1));
        let g2 = push_edge_spec(
            g1,
            EdgeModel {
                kind: WorkbookGraphEdgeKind::WorksheetContainsFormula,
                from: worksheet_node_id_spec(ctx.selected_worksheet_index),
                to: fid,
                evidence: seq![
                    evidence_of(
                        WorkbookGraphEvidenceKind::WorksheetFormulaCell,
                        sheet_part,
                        Some(f.reference@),
                        "selected-sheet formula inventory entry"@,
                    ),
                ],
            },
        );
        lemma_extends_trans(g, prev.0, g1);
        lemma_extends_trans(g, g1, g2);
        law_formula_dependency_edges_only_add(g2, prev.1, ctx, fid, f.reference@, f.parse.root);
        lemma_extends_trans(g, g2, formula_edges_spec(g2, prev.1, ctx, fid, f.reference@, f.parse.root).0);
    }
}

/// Whatever the workbook, the graph's first node is the workbook itself,
/// and every later stage only adds nodes and edges after it.
pub proof fn law_graph_starts_at_the_workbook(
    display_path: Seq<char>,
    workbook: InspectWorkbookResult,
    formulas: InspectSheetFormulasResult,
    defined_name_targets: Seq<Option<FormulaAstNode>>,
    table_parse: WorkbookTableParse,
    power_query: Option<PowerQueryExtraction>,
    si: usize,
)
    ensures
        ({
            let g = graph_build_spec(display_path, workbook, formulas, defined_name_targets, table_parse, power_query, si).0;
            &&& g.nodes.len() > 0
            &&& g.nodes[0] == workbook_node(display_path)
            &&& g.nodes[0].id == "workbook"@
        }),
{
    let ws = worksheets_of(sheets_view(workbook.sheets@));
    let g0 = GraphModel { nodes: seq![workbook_node(display_path)], edges: Seq::empty() };
    assert(g0.nodes[0].id == "workbook"@);
    assert(has_node_id(g0.nodes, "workbook"@));
    lemma_worksheet_phase_ok(g0, ws, ws.len());
    let g1 = worksheet_phase(g0, ws, ws.len());
    let tv = tables_view(table_parse.tables@);
    lemma_table_phase_ok(g1, tv, tv.len());
    let g2 = table_phase(g1, tv, tv.len());
    lemma_extends_trans(g0, g1, g2);
    let ctx = DependencyContext {
        selected_worksheet_index: si,
        worksheets: ws,
        defined_names: defined_names_view(formulas.defined_names@),
        name_targets: defined_name_targets,
        selected_sheet_name: formulas.sheet.name@,
        tables: tv,
    };
    let fs = formulas.formulas@;
    lemma_formula_phase_extends(g2, no_flags(), ctx, formulas.sheet.name@, formulas.sheet.part_path@, fs, fs.len());
    let f3 = formula_phase(g2, no_flags(), ctx, formulas.sheet.name@, formulas.sheet.part_path@, fs, fs.len());
    lemma_extends_trans(g0, g2, f3.0);
    assert(f3.0.nodes[0] == g0.nodes[0]);
    match power_query {
        Some(x) => if workbook.markers.has_power_query {
            let lctx = LineageContext {
                queries: x.queries@,
                defined_names: defined_names_view(formulas.defined_names@),
                name_targets: defined_name_targets,
                tables: tv,
                worksheets: ws,
            };
            law_power_query_lineage_only_add(f3.0, f3.1, lctx);
            let out = lineage_spec(f3.0, f3.1, lctx).0;
            assert(out.nodes[0] == f3.0.nodes[0]);
        },
        None => {},
    }
}

// ---------------------------------------------------------------------------
// Edge keys never repeat

/// No two edges share their kind, source and target.
pub open spec fn edges_unique(edges: Seq<EdgeModel>) -> bool {
    forall|i: int, j: int|
        0 <= i < j < edges.len() ==> !((#[trigger] edges[i]).kind == (#[trigger] edges[j]).kind && edges[i].from
            == edges[j].from && edges[i].to == edges[j].to)
}

pub broadcast proof fn lemma_push_edge_keeps_unique(g: GraphModel, e: EdgeModel)
    requires
        edges_unique(g.edges),
    ensures
        #[trigger] edges_unique(push_edge_spec(g, e).edges),
{
    let r = push_edge_spec(g, e).edges;
    if !has_edge_key(g.edges, e.kind, e.from, e.to) {
        assert forall|i: int, j: int| 0 <= i < j < r.len() implies !((#[trigger] r[i]).kind == (#[trigger] r[j]).kind
            && r[i].from == r[j].from && r[i].to == r[j].to) by {
            assert(r[i] == g.edges[i]);
            if j < g.edges.len() {
                assert(r[j] == g.edges[j]);
            } else if r[i].kind == r[j].kind && r[i].from == r[j].from && r[i].to == r[j].to {
                assert(has_edge_key(g.edges, e.kind, e.from, e.to));
            }
        }
    }
}

proof fn lemma_target_edges_unique(
    g: GraphModel,
    flags: GraphWarningFlags,
    d: DefinedNameModel,
    root: Option<FormulaAstNode>,
    dn_id: Seq<char>,
    ws: Seq<SheetModel>,
)
    requires
        edges_unique(g.edges),
    ensures
        edges_unique(target_edges_spec(g, flags, d, root, dn_id, ws).0.edges),
{
    broadcast use lemma_push_edge_keeps_unique;
    let id = defined_name_formula_text_node_id_spec(d);
    let ft = insert_node_spec(
        g,
        NodeModel {
            id,
            kind: WorkbookGraphNodeKind::DefinedNameFormulaText,
            label: defined_name_label_spec(d) + "="@ + d.target,
            sheet_name: d.sheet_scope,
            part_path: Some(workbook_part()),
            cell_reference: None,
            formula: Some(d.target),
            cached_value: None,
        },
    );
    assert(edges_unique(ft.edges));
    match root {
        Some(FormulaAstNode::CellReference { reference, sheet_name }) => match resolve_target_sheet_spec(d, ws, ov(sheet_name)) {
            None => {},
            Some((wi, sn, pp)) => {
                let id = cell_reference_node_id_spec(wi, reference@);
                let g1 = insert_node_spec(g, reference_node(id, WorkbookGraphNodeKind::ReferencedCell, sn, pp, reference@));
                assert(edges_unique(g1.edges));
            },
        },
        Some(FormulaAstNode::RangeReference { start_reference, end_reference, sheet_name }) => match resolve_target_sheet_spec(d, ws, ov(sheet_name)) {
            None => {},
            Some((wi, sn, pp)) => {
                let id = range_reference_node_id_spec(wi, start_reference@, end_reference@);
                let range = start_reference@ + ":"@ + end_reference@;
                let g1 = insert_node_spec(g, reference_node(id, WorkbookGraphNodeKind::ReferencedRange, sn, pp, range));
                assert(edges_unique(g1.edges));
            },
        },
        _ => {},
    }
}

proof fn lemma_reference_step_unique(
    g: GraphModel,
    flags: GraphWarningFlags,
    ctx: DependencyContext,
    fid: Seq<char>,
    fref: Seq<char>,
    selected_part: Seq<char>,
    r: RefModel,
)
    requires
        edges_unique(g.edges),
    ensures
        edges_unique(reference_step(g, flags, ctx, fid, fref, selected_part, r).0.edges),
{
    broadcast use lemma_push_edge_keeps_unique;
    match r {
        RefModel::Cell { reference, sheet_name } => match reference_home(g, ctx, fid, fref, selected_part, sheet_name) {
            None => {},
            Some((g1, wi, sn, pp)) => {
                assert(edges_unique(g1.edges));
                let id = cell_reference_node_id_spec(wi, reference);
                let g2 = insert_node_spec(g1, reference_node(id, WorkbookGraphNodeKind::ReferencedCell, sn, pp, reference));
                assert(edges_unique(g2.edges));
            },
        },
        RefModel::Range { start_reference, end_reference, sheet_name } => match reference_home(g, ctx, fid, fref, selected_part, sheet_name) {
            None => {},
            Some((g1, wi, sn, pp)) => {
                assert(edges_unique(g1.edges));
                let id = range_reference_node_id_spec(wi, start_reference, end_reference);
                let range = start_reference + ":"@ + end_reference;
                let g2 = insert_node_spec(g1, reference_node(id, WorkbookGraphNodeKind::ReferencedRange, sn, pp, range));
                assert(edges_unique(g2.edges));
            },
        },
        RefModel::DefinedName { name, sheet_name } => match resolve_defined_name_fn(
            ctx.defined_names,
            ctx.selected_sheet_name,
            name,
            sheet_name,
        ) {
            None => {},
            Some(k) => {
                let d = ctx.defined_names[k as int];
                let id = defined_name_node_id_spec(d);
                let g1 = insert_node_spec(g, defined_name_node(d));
                assert(edges_unique(g1.edges));
                let g2 = push_edge_spec(
                    g1,
                    EdgeModel {
                        kind: WorkbookGraphEdgeKind::FormulaReferencesDefinedName,
                        from: fid,
                        to: id,
                        evidence: seq![
                            evidence_of(
                                WorkbookGraphEvidenceKind::FormulaAstDefinedNameReference,
                                selected_part,
                                Some(fref),
                                "ast defined-name reference "@ + defined_name_label_spec(d),
                            ),
                        ],
                    },
                );
                lemma_target_edges_unique(g2, flags, d, name_target(ctx, k), id, ctx.worksheets);
            },
        },
        RefModel::StructuredReference { text } => {},
    }
}

proof fn lemma_references_fold_unique(
    g: GraphModel,
    flags: GraphWarningFlags,
    ctx: DependencyContext,
    fid: Seq<char>,
    fref: Seq<char>,
    selected_part: Seq<char>,
    refs: Seq<RefModel>,
    k: nat,
)
    requires
        edges_unique(g.edges),
    ensures
        edges_unique(references_fold(g, flags, ctx, fid, fref, selected_part, refs, k).0.edges),
    decreases k,
{
    if !(k == 0 || k > refs.len()) {
        lemma_references_fold_unique(g, flags, ctx, fid, fref, selected_part, refs, (k - 1) as nat);
        let prev = references_fold(g, flags, ctx, fid, fref, selected_part, refs, (k - 1) as nat);
        lemma_reference_step_unique(prev.0, prev.1, ctx, fid, fref, selected_part, refs[k - 1]);
    }
}

proof fn lemma_formula_phase_unique(
    g: GraphModel,
    flags: GraphWarningFlags,
    ctx: DependencyContext,
    sheet_name: Seq<char>,
    sheet_part: Seq<char>,
    fs: Seq<SheetFormulaSummary>,
    k: nat,
)
    requires
        edges_unique(g.edges),
    ensures
        edges_unique(formula_phase(g, flags, ctx, sheet_name, sheet_part, fs, k).0.edges),
    decreases k,
{
    broadcast use lemma_push_edge_keeps_unique;
    if !(k == 0 || k > fs.len()) {
        lemma_formula_phase_unique(g, flags, ctx, sheet_name, sheet_part, fs, (k - 1) as nat);
        let prev = formula_phase(g, flags, ctx, sheet_name, sheet_part, fs, (k - 1) as nat);
        let f = fs[k - 1];
        let fid = formula_node_id_spec(ctx.selected_worksheet_index, f.reference@);
        let g1 = GraphModel {
            nodes: prev.0.nodes.push(
                NodeModel {
                    id: fid,
                    kind: WorkbookGraphNodeKind::CellFormula,
                    label: sheet_name + "!"@ + f.reference@,
                    sheet_name: Some(sheet_name),
                    part_path: Some(sheet_part),
                    cell_reference: Some(f.reference@),
                    formula: Some(f.formula@),
                    cached_value: ov(f.cached_value),
                },
            ),
            ..prev.0
        };
        let g2 = push_edge_spec(
            g1,
            EdgeModel {
                kind: WorkbookGraphEdgeKind::WorksheetContainsFormula,
                from: worksheet_node_id_spec(ctx.selected_worksheet_index),
                to: fid,
                evidence: seq![
                    evidence_of(
                        WorkbookGraphEvidenceKind::WorksheetFormulaCell,
                        sheet_part,
                        Some(f.reference@),
                        "selected-sheet formula inventory entry"@,
                    ),
                ],
            },
        );
        assert(edges_unique(g2.edges));
        match f.parse.root {
            None => {},
            Some(node) => if ctx.selected_worksheet_index < ctx.worksheets.len() {
                match ctx.worksheets[ctx.selected_worksheet_index as int].part_path {
                    None => {},
                    Some(selected_part) => {
                        let refs = refs_of(node);
                        lemma_references_fold_unique(g2, prev.1, ctx, fid, f.reference@, selected_part, refs, refs.len());
                    },
                }
            },
        }
    }
}

proof fn lemma_worksheet_phase_unique(g: GraphModel, ws: Seq<SheetModel>, k: nat)
    requires
        edges_unique(g.edges),
    ensures
        edges_unique(worksheet_phase(g, ws, k).edges),
    decreases k,
{
    broadcast use lemma_push_edge_keeps_unique;
    if !(k == 0 || k > ws.len()) {
        lemma_worksheet_phase_unique(g, ws, (k - 1) as nat);
    }
}

proof fn lemma_table_phase_unique(g: GraphModel, tv: Seq<TableModel>, k: nat)
    requires
        edges_unique(g.edges),
    ensures
        edges_unique(table_phase(g, tv, k).edges),
    decreases k,
{
    broadcast use lemma_push_edge_keeps_unique;
    if !(k == 0 || k > tv.len()) {
        lemma_table_phase_unique(g, tv, (k - 1) as nat);
    }
}

proof fn lemma_query_nodes_fold_edges(g: GraphModel, queries: Seq<ExtractedPowerQueryQuery>, k: nat)
    ensures
        query_nodes_fold(g, queries, k).edges == g.edges,
    decreases k,
{
    if !(k == 0 || k > queries.len()) {
        lemma_query_nodes_fold_edges(g, queries, (k - 1) as nat);
    }
}

proof fn lemma_lineage_step_unique(
    g: GraphModel,
    flags: GraphWarningFlags,
    ctx: LineageContext,
    q: ExtractedPowerQueryQuery,
    r: PowerQueryLexicalReference,
)
    requires
        edges_unique(g.edges),
    ensures
        edges_unique(lineage_step(g, flags, ctx, q, r).0.edges),
{
    broadcast use lemma_push_edge_keeps_unique;
    let from = power_query_query_node_id_spec(q.name@);
    let line = decimal(r.source_line as nat);
    match r.kind {
        PowerQueryLexicalReferenceKind::QueryName => {},
        PowerQueryLexicalReferenceKind::WorkbookName => match workbook_name_fn(
            ctx.defined_names,
            ctx.tables,
            r.target_name@,
        ) {
            Some(PowerQueryWorkbookNameTarget::DefinedName(k)) => {
                let d = ctx.defined_names[k as int];
                let id = defined_name_node_id_spec(d);
                let g1 = insert_node_spec(g, defined_name_node(d));
                assert(edges_unique(g1.edges));
                let g2 = push_edge_spec(
                    g1,
                    EdgeModel {
                        kind: WorkbookGraphEdgeKind::PowerQueryReferencesDefinedName,
                        from,
                        to: id,
                        evidence: seq![
                            evidence_of(
                                WorkbookGraphEvidenceKind::PowerQueryLexicalWorkbookNameReference,
                                q.source_part@,
                                None,
                                "Power Query "@ + q.name@ + " resolved Excel.CurrentWorkbook name "@ + r.target_name@
                                    + " to defined name "@ + defined_name_label_spec(d) + " on line "@ + line,
                            ),
                        ],
                    },
                );
                lemma_target_edges_unique(g2, flags, d, lineage_name_target(ctx, k), id, ctx.worksheets);
            },
            _ => {},
        },
    }
}

proof fn lemma_query_refs_fold_unique(
    g: GraphModel,
    flags: GraphWarningFlags,
    ctx: LineageContext,
    q: ExtractedPowerQueryQuery,
    k: nat,
)
    requires
        edges_unique(g.edges),
    ensures
        edges_unique(query_refs_fold(g, flags, ctx, q, k).0.edges),
    decreases k,
{
    if !(k == 0 || k > q.lexical_references@.len()) {
        lemma_query_refs_fold_unique(g, flags, ctx, q, (k - 1) as nat);
        let prev = query_refs_fold(g, flags, ctx, q, (k - 1) as nat);
        lemma_lineage_step_unique(prev.0, prev.1, ctx, q, q.lexical_references@[k - 1]);
    }
}

proof fn lemma_lineage_fold_unique(g: GraphModel, flags: GraphWarningFlags, ctx: LineageContext, k: nat)
    requires
        edges_unique(g.edges),
    ensures
        edges_unique(lineage_fold(g, flags, ctx, k).0.edges),
    decreases k,
{
    if !(k == 0 || k > ctx.queries.len()) {
        lemma_lineage_fold_unique(g, flags, ctx, (k - 1) as nat);
        let prev = lineage_fold(g, flags, ctx, (k - 1) as nat);
        let q = ctx.queries[k - 1];
        lemma_query_refs_fold_unique(prev.0, prev.1, ctx, q, q.lexical_references@.len());
    }
}

/// Whatever the workbook, the graph never holds two edges of the same kind
/// between the same two nodes.
pub proof fn law_graph_edges_never_repeat(
    display_path: Seq<char>,
    workbook: InspectWorkbookResult,
    formulas: InspectSheetFormulasResult,
    defined_name_targets: Seq<Option<FormulaAstNode>>,
    table_parse: WorkbookTableParse,
    power_query: Option<PowerQueryExtraction>,
    si: usize,
)
    ensures
        edges_unique(
            graph_build_spec(display_path, workbook, formulas, defined_name_targets, table_parse, power_query, si).0.edges,
        ),
{
    let ws = worksheets_of(sheets_view(workbook.sheets@));
    let g0 = GraphModel { nodes: seq![workbook_node(display_path)], edges: Seq::empty() };
    lemma_worksheet_phase_unique(g0, ws, ws.len());
    let g1 = worksheet_phase(g0, ws, ws.len());
    let tv = tables_view(table_parse.tables@);
    lemma_table_phase_unique(g1, tv, tv.len());
    let g2 = table_phase(g1, tv, tv.len());
    let ctx = DependencyContext {
        selected_worksheet_index: si,
        worksheets: ws,
        defined_names: defined_names_view(formulas.defined_names@),
        name_targets: defined_name_targets,
        selected_sheet_name: formulas.sheet.name@,
        tables: tv,
    };
    lemma_formula_phase_unique(
        g2,
        no_flags(),
        ctx,
        formulas.sheet.name@,
        formulas.sheet.part_path@,
        formulas.formulas@,
        formulas.formulas@.len(),
    );
    let f3 = formula_phase(
        g2,
        no_flags(),
        ctx,
        formulas.sheet.name@,
        formulas.sheet.part_path@,
        formulas.formulas@,
        formulas.formulas@.len(),
    );
    match power_query {
        Some(x) => if workbook.markers.has_power_query {
            let lctx = LineageContext {
                queries: x.queries@,
                defined_names: defined_names_view(formulas.defined_names@),
                name_targets: defined_name_targets,
                tables: tv,
                worksheets: ws,
            };
            let gq = query_nodes_fold(f3.0, lctx.queries, lctx.queries.len());
            lemma_query_nodes_fold_edges(f3.0, lctx.queries, lctx.queries.len());
            lemma_lineage_fold_unique(gq, f3.1, lctx, lctx.queries.len());
        },
        None => {},
    }
}

proof fn lemma_first_sheet_named_at(ws: Seq<SheetModel>, name: Seq<char>, i: int, w: int)
    requires
        0 <= i <= w < ws.len(),
        ws[w].name matches Some(n) && same_ci(n, name),
        forall|j: int| 0 <= j < w ==> !((#[trigger] ws[j]).name matches Some(m) && same_ci(m, name)),
    ensures
        first_sheet_named_from(ws, name, i) == Some(w),
    decreases w - i,
{
    if i < w {
        lemma_first_sheet_named_at(ws, name, i + 1, w);
    }
}

proof fn lemma_push_edge_has(g: GraphModel, e: EdgeModel)
    ensures
        has_edge_key(push_edge_spec(g, e).edges, e.kind, e.from, e.to),
        push_edge_spec(g, e).nodes == g.nodes,
        forall|k: WorkbookGraphEdgeKind, a: Seq<char>, b: Seq<char>|
            has_edge_key(g.edges, k, a, b) ==> has_edge_key(#[trigger] push_edge_spec(g, e).edges, k, a, b),
{
    if !has_edge_key(g.edges, e.kind, e.from, e.to) {
        let r = push_edge_spec(g, e);
        assert(r.edges[g.edges.len() as int] == e);
        assert forall|k: WorkbookGraphEdgeKind, a: Seq<char>, b: Seq<char>|
            has_edge_key(g.edges, k, a, b) implies has_edge_key(#[trigger] push_edge_spec(g, e).edges, k, a, b) by {
            let i = choose|i: int| 0 <= i < g.edges.len() && (#[trigger] g.edges[i]).kind == k && g.edges[i].from == a && g.edges[i].to == b;
            assert(r.edges[i] == g.edges[i]);
        }
    }
}

proof fn lemma_insert_node_has(g: GraphModel, n: NodeModel)
    ensures
        has_node_id(insert_node_spec(g, n).nodes, n.id),
        insert_node_spec(g, n).edges == g.edges,
        !has_node_id(g.nodes, n.id) ==> insert_node_spec(g, n).nodes[g.nodes.len() as int] == n,
        g.nodes.len() <= insert_node_spec(g, n).nodes.len(),
{
    if !has_node_id(g.nodes, n.id) {
        assert(insert_node_spec(g, n).nodes[g.nodes.len() as int] == n);
    }
}

/// A range reference that names a sheet is placed on that sheet: when the
/// name picks worksheet `w` (the first whose name matches, ignoring ASCII case,
/// and it has a part), the formula gets an edge to worksheet `w` and an edge to
/// the range node whose id carries `w`; that node is there afterwards, and
/// when it is new it carries `w`'s name, part and the `Sheet!Start:End` label.
pub proof fn law_sheet_range_reference_lands_on_its_sheet(
    g: GraphModel,
    flags: GraphWarningFlags,
    ctx: DependencyContext,
    fid: Seq<char>,
    fref: Seq<char>,
    selected_part: Seq<char>,
    start: Seq<char>,
    end: Seq<char>,
    s: Seq<char>,
    w: int,
)
    requires
        0 <= w < ctx.worksheets.len(),
        ctx.worksheets[w].name matches Some(n) && same_ci(n, s),
        ctx.worksheets[w].part_path is Some,
        forall|j: int| 0 <= j < w ==> !((#[trigger] ctx.worksheets[j]).name matches Some(m) && same_ci(m, s)),
    ensures
        ({
            let (r, f) = reference_step(
                g, flags, ctx, fid, fref, selected_part,
                RefModel::Range { start_reference: start, end_reference: end, sheet_name: Some(s) },
            );
            let id = range_reference_node_id_spec(w as usize, start, end);
            &&& f == flags
            &&& has_edge_key(r.edges, WorkbookGraphEdgeKind::FormulaReferencesWorksheet, fid, worksheet_node_id_spec(w as usize))
            &&& has_edge_key(r.edges, WorkbookGraphEdgeKind::FormulaReferencesRange, fid, id)
            &&& has_node_id(r.nodes, id)
            &&& !has_node_id(g.nodes, id) ==> r.nodes[g.nodes.len() as int] == reference_node(
                id,
                WorkbookGraphNodeKind::ReferencedRange,
                ctx.worksheets[w].name.unwrap(),
                ctx.worksheets[w].part_path.unwrap(),
                start + ":"@ + end,
            )
        }),
{
    lemma_first_sheet_named_at(ctx.worksheets, s, 0, w);
    let n = ctx.worksheets[w].name.unwrap();
    let p = ctx.worksheets[w].part_path.unwrap();
    assert(resolve_reference_sheet_spec(ctx.worksheets, s) == Some((w as usize, n, p)));
    let (g1, wi, sn, pp) = reference_home(g, ctx, fid, fref, selected_part, Some(s)).unwrap();
    let e1 = EdgeModel {
        kind: WorkbookGraphEdgeKind::FormulaReferencesWorksheet,
        from: fid,
        to: worksheet_node_id_spec(w as usize),
        evidence: seq![
            evidence_of(
                WorkbookGraphEvidenceKind::FormulaAstWorksheetReference,
                p,
                Some(fref),
                "ast reference resolved to worksheet "@ + n,
            ),
        ],
    };
    assert(g1 == push_edge_spec(g, e1));
    lemma_push_edge_has(g, e1);
    let id = range_reference_node_id_spec(w as usize, start, end);
    let node = reference_node(id, WorkbookGraphNodeKind::ReferencedRange, n, p, start + ":"@ + end);
    let g2 = insert_node_spec(g1, node);
    lemma_insert_node_has(g1, node);
    let e2 = EdgeModel {
        kind: WorkbookGraphEdgeKind::FormulaReferencesRange,
        from: fid,
        to: id,
        evidence: seq![
            evidence_of(
                WorkbookGraphEvidenceKind::FormulaAstRangeReference,
                p,
                Some(fref),
                "ast range reference "@ + n + "!"@ + (start + ":"@ + end),
            ),
        ],
    };
    lemma_push_edge_has(g2, e2);
    assert(has_edge_key(g2.edges, WorkbookGraphEdgeKind::FormulaReferencesWorksheet, fid, worksheet_node_id_spec(w as usize)));
}

/// A cell reference that names a sheet is placed on that sheet: when the
/// name picks worksheet `w` (the first whose name matches, ignoring ASCII case,
/// and it has a part), the formula gets an edge to worksheet `w` and an edge to
/// the cell node whose id carries `w`; that node is there afterwards, and
/// when it is new it carries `w`'s name, part and the `Sheet!Cell` label.
pub proof fn law_sheet_cell_reference_lands_on_its_sheet(
    g: GraphModel,
    flags: GraphWarningFlags,
    ctx: DependencyContext,
    fid: Seq<char>,
    fref: Seq<char>,
    selected_part: Seq<char>,
    reference: Seq<char>,
    s: Seq<char>,
    w: int,
)
    requires
        0 <= w < ctx.worksheets.len(),
        ctx.worksheets[w].name matches Some(n) && same_ci(n, s),
        ctx.worksheets[w].part_path is Some,
        forall|j: int| 0 <= j < w ==> !((#[trigger] ctx.worksheets[j]).name matches Some(m) && same_ci(m, s)),
    ensures
        ({
            let (r, f) = reference_step(
                g, flags, ctx, fid, fref, selected_part,
                RefModel::Cell { reference, sheet_name: Some(s) },
            );
            let id = cell_reference_node_id_spec(w as usize, reference);
            &&& f == flags
            &&& has_edge_key(r.edges, WorkbookGraphEdgeKind::FormulaReferencesWorksheet, fid, worksheet_node_id_spec(w as usize))
            &&& has_edge_key(r.edges, WorkbookGraphEdgeKind::FormulaReferencesCell, fid, id)
            &&& has_node_id(r.nodes, id)
            &&& !has_node_id(g.nodes, id) ==> r.nodes[g.nodes.len() as int] == reference_node(
                id,
                WorkbookGraphNodeKind::ReferencedCell,
                ctx.worksheets[w].name.unwrap(),
                ctx.worksheets[w].part_path.unwrap(),
                reference,
            )
        }),
{
    lemma_first_sheet_named_at(ctx.worksheets, s, 0, w);
    let n = ctx.worksheets[w].name.unwrap();
    let p = ctx.worksheets[w].part_path.unwrap();
    assert(resolve_reference_sheet_spec(ctx.worksheets, s) == Some((w as usize, n, p)));
    let (g1, wi, sn, pp) = reference_home(g, ctx, fid, fref, selected_part, Some(s)).unwrap();
    let e1 = EdgeModel {
        kind: WorkbookGraphEdgeKind::FormulaReferencesWorksheet,
        from: fid,
        to: worksheet_node_id_spec(w as usize),
        evidence: seq![
            evidence_of(
                WorkbookGraphEvidenceKind::FormulaAstWorksheetReference,
                p,
                Some(fref),
                "ast reference resolved to worksheet "@ + n,
            ),
        ],
    };
    assert(g1 == push_edge_spec(g, e1));
    lemma_push_edge_has(g, e1);
    let id = cell_reference_node_id_spec(w as usize, reference);
    let node = reference_node(id, WorkbookGraphNodeKind::ReferencedCell, n, p, reference);
    let g2 = insert_node_spec(g1, node);
    lemma_insert_node_has(g1, node);
    let e2 = EdgeModel {
        kind: WorkbookGraphEdgeKind::FormulaReferencesCell,
        from: fid,
        to: id,
        evidence: seq![
            evidence_of(
                WorkbookGraphEvidenceKind::FormulaAstCellReference,
                p,
                Some(fref),
                "ast cell reference "@ + n + "!"@ + reference,
            ),
        ],
    };
    lemma_push_edge_has(g2, e2);
    assert(has_edge_key(g2.edges, WorkbookGraphEdgeKind::FormulaReferencesWorksheet, fid, worksheet_node_id_spec(w as usize)));
}

proof fn lemma_no_sheet_named_from(ws: Seq<SheetModel>, name: Seq<char>, i: int)
    requires
        forall|j: int| 0 <= j < ws.len() ==> !((#[trigger] ws[j]).name matches Some(m) && same_ci(m, name)),
    ensures
        first_sheet_named_from(ws, name, i) is None,
    decreases ws.len() - i,
{
    if 0 <= i < ws.len() {
        lemma_no_sheet_named_from(ws, name, i + 1);
    }
}

/// A cell or range reference that names a sheet which no worksheet has
/// (ignoring ASCII case) adds nothing: no node, no edge, no warning.
pub proof fn law_reference_to_unknown_sheet_adds_nothing(
    g: GraphModel,
    flags: GraphWarningFlags,
    ctx: DependencyContext,
    fid: Seq<char>,
    fref: Seq<char>,
    selected_part: Seq<char>,
    reference: Seq<char>,
    start: Seq<char>,
    end: Seq<char>,
    s: Seq<char>,
)
    requires
        forall|j: int| 0 <= j < ctx.worksheets.len() ==> !((#[trigger] ctx.worksheets[j]).name matches Some(m) && same_ci(m, s)),
    ensures
        reference_step(g, flags, ctx, fid, fref, selected_part, RefModel::Cell { reference, sheet_name: Some(s) }) == (g, flags),
        reference_step(
            g, flags, ctx, fid, fref, selected_part,
            RefModel::Range { start_reference: start, end_reference: end, sheet_name: Some(s) },
        ) == (g, flags),
{
    lemma_no_sheet_named_from(ctx.worksheets, s, 0);
}

/// A range reference without a sheet name lies on the selected sheet: the
/// formula gets an edge to the range node whose id carries the selected
/// sheet's index, the node is there afterwards (when new, with the selected
/// sheet's name and part), and no other edge is added.
pub proof fn law_unqualified_range_lies_on_the_selected_sheet(
    g: GraphModel,
    flags: GraphWarningFlags,
    ctx: DependencyContext,
    fid: Seq<char>,
    fref: Seq<char>,
    selected_part: Seq<char>,
    start: Seq<char>,
    end: Seq<char>,
)
    ensures
        ({
            let (r, f) = reference_step(
                g, flags, ctx, fid, fref, selected_part,
                RefModel::Range { start_reference: start, end_reference: end, sheet_name: None },
            );
            let id = range_reference_node_id_spec(ctx.selected_worksheet_index, start, end);
            &&& f == flags
            &&& has_edge_key(r.edges, WorkbookGraphEdgeKind::FormulaReferencesRange, fid, id)
            &&& r.edges.len() <= g.edges.len() + 1
            &&& r.edges.take(g.edges.len() as int) == g.edges
            &&& has_node_id(r.nodes, id)
            &&& !has_node_id(g.nodes, id) ==> r.nodes[g.nodes.len() as int] == reference_node(
                id,
                WorkbookGraphNodeKind::ReferencedRange,
                ctx.selected_sheet_name,
                selected_part,
                start + ":"@ + end,
            )
        }),
{
    let id = range_reference_node_id_spec(ctx.selected_worksheet_index, start, end);
    let node = reference_node(id, WorkbookGraphNodeKind::ReferencedRange, ctx.selected_sheet_name, selected_part, start + ":"@ + end);
    let g2 = insert_node_spec(g, node);
    lemma_insert_node_has(g, node);
    let e2 = EdgeModel {
        kind: WorkbookGraphEdgeKind::FormulaReferencesRange,
        from: fid,
        to: id,
        evidence: seq![
            evidence_of(
                WorkbookGraphEvidenceKind::FormulaAstRangeReference,
                selected_part,
                Some(fref),
                "ast range reference "@ + ctx.selected_sheet_name + "!"@ + (start + ":"@ + end),
            ),
        ],
    };
    lemma_push_edge_has(g2, e2);
    assert(push_edge_spec(g2, e2).edges.take(g.edges.len() as int) =~= g.edges);
}

/// A cell reference without a sheet name lies on the selected sheet: the
/// formula gets an edge to the cell node whose id carries the selected
/// sheet's index, the node is there afterwards (when new, with the selected
/// sheet's name and part), and no other edge is added.
pub proof fn law_unqualified_cell_lies_on_the_selected_sheet(
    g: GraphModel,
    flags: GraphWarningFlags,
    ctx: DependencyContext,
    fid: Seq<char>,
    fref: Seq<char>,
    selected_part: Seq<char>,
    reference: Seq<char>,
)
    ensures
        ({
            let (r, f) = reference_step(
                g, flags, ctx, fid, fref, selected_part,
                RefModel::Cell { reference, sheet_name: None },
            );
            let id = cell_reference_node_id_spec(ctx.selected_worksheet_index, reference);
            &&& f == flags
            &&& has_edge_key(r.edges, WorkbookGraphEdgeKind::FormulaReferencesCell, fid, id)
            &&& r.edges.len() <= g.edges.len() + 1
            &&& r.edges.take(g.edges.len() as int) == g.edges
            &&& has_node_id(r.nodes, id)
            &&& !has_node_id(g.nodes, id) ==> r.nodes[g.nodes.len() as int] == reference_node(
                id,
                WorkbookGraphNodeKind::ReferencedCell,
                ctx.selected_sheet_name,
                selected_part,
                reference,
            )
        }),
{
    let id = cell_reference_node_id_spec(ctx.selected_worksheet_index, reference);
    let node = reference_node(id, WorkbookGraphNodeKind::ReferencedCell, ctx.selected_sheet_name, selected_part, reference);
    let g2 = insert_node_spec(g, node);
    lemma_insert_node_has(g, node);
    let e2 = EdgeModel {
        kind: WorkbookGraphEdgeKind::FormulaReferencesCell,
        from: fid,
        to: id,
        evidence: seq![
            evidence_of(
                WorkbookGraphEvidenceKind::FormulaAstCellReference,
                selected_part,
                Some(fref),
                "ast cell reference "@ + ctx.selected_sheet_name + "!"@ + reference,
            ),
        ],
    };
    lemma_push_edge_has(g2, e2);
    assert(push_edge_spec(g2, e2).edges.take(g.edges.len() as int) =~= g.edges);
}

} // verus!
