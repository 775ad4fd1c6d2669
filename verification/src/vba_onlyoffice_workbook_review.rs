//! Review of a workbook's VBA modules for an ONLYOFFICE migration: each
//! selected module is analysed, and a macro preview is emitted only for the
//! modules that the analyzer approves.
use vstd::prelude::*;
use crate::text::{lower_seq, trim_seq, trim, owned, append_str, eq_ignore_ascii_case};
use crate::vba_extract::{
    extract_vba_modules_from_workbook, extraction_spec, read_stage, workbook_view, ExtractVbaModulesResult, ExtractedVbaModule, ExtractedModuleModel, ExtractionModel,
    VbaModuleKind, modules_view,
};
use crate::vba_onlyoffice_analyze::{
    analyze_spec, analyze_vba_onlyoffice_migration, copy_analysis, AnalysisModel,
    AnalyzeVbaOnlyofficeMigrationResult,
};
use crate::vba_onlyoffice_translate::{
    law_preview_fails_closed, translate_analyzed_spec, translate_analyzed_vba_to_onlyoffice_js_preview,
};

verus! {

pub const MAX_REQUESTED_MODULES: usize = 16;

pub const MAX_WARNINGS: usize = 32;

/// One reviewed module with its analysis and, when approved, its preview.
#[derive(Debug, Clone, PartialEq, Eq)]
pub struct ReviewedVbaOnlyofficeWorkbookModule {
    pub name: String,
    pub stream_name: String,
    pub module_kind: VbaModuleKind,
    pub source_truncated: bool,
    pub analysis: AnalyzeVbaOnlyofficeMigrationResult,
    pub warnings: Vec<String>,
    pub macro_value: String,
    pub function_body: String,
}

pub struct ReviewedModuleModel {
    pub name: Seq<char>,
    pub stream_name: Seq<char>,
    pub module_kind: VbaModuleKind,
    pub source_truncated: bool,
    pub analysis: AnalysisModel,
    pub warnings: Seq<Seq<char>>,
    pub macro_value: Seq<char>,
    pub function_body: Seq<char>,
}

impl View for ReviewedVbaOnlyofficeWorkbookModule {
    type V = ReviewedModuleModel;

    open spec fn view(&self) -> ReviewedModuleModel {
        ReviewedModuleModel {
            name: self.name@,
            stream_name: self.stream_name@,
            module_kind: self.module_kind,
            source_truncated: self.source_truncated,
            analysis: self.analysis@,
            warnings: self.warnings.deep_view(),
            macro_value: self.macro_value@,
            function_body: self.function_body@,
        }
    }
}

pub open spec fn reviewed_view(v: Seq<ReviewedVbaOnlyofficeWorkbookModule>) -> Seq<ReviewedModuleModel> {
    v.map_values(|m: ReviewedVbaOnlyofficeWorkbookModule| m@)
}

/// The review of one workbook.
#[derive(Debug, Clone, PartialEq, Eq)]
pub struct ReviewVbaOnlyofficeWorkbookResult {
    pub mode: String,
    pub path: String,
    pub has_vba_project: bool,
    pub code_page: Option<u16>,
    pub extracted_module_count: usize,
    pub reviewed_module_count: usize,
    pub requested_module_names: Vec<String>,
    pub modules: Vec<ReviewedVbaOnlyofficeWorkbookModule>,
    pub warnings: Vec<String>,
    pub success: bool,
}

pub struct ReviewModel {
    pub mode: Seq<char>,
    pub path: Seq<char>,
    pub has_vba_project: bool,
    pub code_page: Option<u16>,
    pub extracted_module_count: nat,
    pub reviewed_module_count: nat,
    pub requested_module_names: Seq<Seq<char>>,
    pub modules: Seq<ReviewedModuleModel>,
    pub warnings: Seq<Seq<char>>,
    pub success: bool,
}

impl View for ReviewVbaOnlyofficeWorkbookResult {
    type V = ReviewModel;

    open spec fn view(&self) -> ReviewModel {
        ReviewModel {
            mode: self.mode@,
            path: self.path@,
            has_vba_project: self.has_vba_project,
            code_page: self.code_page,
            extracted_module_count: self.extracted_module_count as nat,
            reviewed_module_count: self.reviewed_module_count as nat,
            requested_module_names: self.requested_module_names.deep_view(),
            modules: reviewed_view(self.modules@),
            warnings: self.warnings.deep_view(),
            success: self.success,
        }
    }
}

/// The requested names after the first `k`: trimmed, blanks dropped, at most
/// `MAX_REQUESTED_MODULES` kept.
pub open spec fn sanitize_fold(names: Seq<Seq<char>>, k: nat) -> Seq<Seq<char>>
    decreases k,
{
    if k == 0 {
        Seq::empty()
    } else {
        let prev = sanitize_fold(names, (k - 1) as nat);
        let t = trim_seq(names[k - 1]);
        if t.len() > 0 && prev.len() < MAX_REQUESTED_MODULES {
            prev.push(t)
        } else {
            prev
        }
    }
}

pub open spec fn sanitize_requested_spec(names: Option<Seq<Seq<char>>>) -> Seq<Seq<char>> {
    match names {
        Some(ns) => sanitize_fold(ns, ns.len()),
        None => Seq::empty(),
    }
}

pub open spec fn opt_names_view(names: Option<&Vec<String>>) -> Option<Seq<Seq<char>>> {
    match names {
        Some(v) => Some(v.deep_view()),
        None => None,
    }
}

pub fn sanitize_requested_module_names(requested_module_names: Option<&Vec<String>>) -> (r: Vec<String>)
    ensures
        r.deep_view() == sanitize_requested_spec(opt_names_view(requested_module_names)),
{
    let mut out: Vec<String> = Vec::new();
    match requested_module_names {
        None => {
            assert(out.deep_view() =~= Seq::<Seq<char>>::empty());
        },
        Some(names) => {
            let ghost nv = names.deep_view();
            let mut i: usize = 0;
            assert(out.deep_view() =~= sanitize_fold(nv, 0));
            while i < names.len()
                invariant
                    nv == names.deep_view(),
                    i <= names@.len(),
                    out.deep_view() == sanitize_fold(nv, i as nat),
                decreases names@.len() - i,
            {
                assert(names@[i as int]@ == nv[i as int]);
                let t = trim(names[i].as_str());
                if t.unicode_len() > 0 && out.len() < MAX_REQUESTED_MODULES {
                    let ghost before = out.deep_view();
                    out.push(t);
                    assert(out.deep_view() =~= before.push(trim_seq(nv[i as int])));
                }
                i += 1;
            }
        },
    }
    out
}

/// `name` equals `requested` without regard to ASCII case.
pub open spec fn same_name_ci(name: Seq<char>, requested: Seq<char>) -> bool {
    lower_seq(name) == lower_seq(requested)
}

/// A module is reviewed when nothing was requested, or when its name or
/// stream name matches a requested name.
pub open spec fn should_review_spec(name: Seq<char>, stream_name: Seq<char>, requested: Seq<Seq<char>>) -> bool {
    requested.len() == 0 || exists|i: int|
        0 <= i < requested.len() && (same_name_ci(name, #[trigger] requested[i]) || same_name_ci(
            stream_name,
            requested[i],
        ))
}

pub fn should_review_module(module: &ExtractedVbaModule, requested_module_names: &Vec<String>) -> (r: bool)
    ensures
        r == should_review_spec(module.name@, module.stream_name@, requested_module_names.deep_view()),
{
    if requested_module_names.len() == 0 {
        return true;
    }
    let ghost rv = requested_module_names.deep_view();
    let mut i: usize = 0;
    while i < requested_module_names.len()
        invariant
            rv == requested_module_names.deep_view(),
            i <= rv.len(),
            forall|j: int|
                0 <= j < i ==> !(same_name_ci(module.name@, #[trigger] rv[j]) || same_name_ci(
                    module.stream_name@,
                    rv[j],
                )),
        decreases rv.len() - i,
    {
        assert(requested_module_names@[i as int]@ == rv[i as int]);
        let requested = requested_module_names[i].as_str();
        if eq_ignore_ascii_case(module.name.as_str(), requested) || eq_ignore_ascii_case(
            module.stream_name.as_str(),
            requested,
        ) {
            return true;
        }
        i += 1;
    }
    false
}

/// The review of one module: its analysis, and the preview of it when the
/// analysis succeeded (empty macro text otherwise).
pub open spec fn review_module_spec(m: ExtractedModuleModel) -> ReviewedModuleModel {
    let a = analyze_spec(m.source);
    let p = translate_analyzed_spec(a);
    ReviewedModuleModel {
        name: m.name,
        stream_name: m.stream_name,
        module_kind: m.module_kind,
        source_truncated: m.source_truncated,
        analysis: a,
        warnings: if a.success {
            a.warnings + p.warnings
        } else {
            a.warnings
        },
        macro_value: if a.success {
            p.macro_value
        } else {
            Seq::empty()
        },
        function_body: if a.success {
            p.function_body
        } else {
            Seq::empty()
        },
    }
}

/// The reviews of the selected modules among the first `k`.
pub open spec fn review_fold(modules: Seq<ExtractedModuleModel>, requested: Seq<Seq<char>>, k: nat) -> Seq<ReviewedModuleModel>
    decreases k,
{
    if k == 0 {
        Seq::empty()
    } else {
        let prev = review_fold(modules, requested, (k - 1) as nat);
        let m = modules[k - 1];
        if should_review_spec(m.name, m.stream_name, requested) {
            prev.push(review_module_spec(m))
        } else {
            prev
        }
    }
}

/// Some reviewed module answers to `requested`.
pub open spec fn found_module(reviewed: Seq<ReviewedModuleModel>, requested: Seq<char>) -> bool {
    exists|i: int|
        0 <= i < reviewed.len() && (same_name_ci(#[trigger] reviewed[i].name, requested) || same_name_ci(
            reviewed[i].stream_name,
            requested,
        ))
}

/// One warning for each of the first `k` requested names that no reviewed module answers to.
pub open spec fn missing_fold(reviewed: Seq<ReviewedModuleModel>, requested: Seq<Seq<char>>, k: nat) -> Seq<Seq<char>>
    decreases k,
{
    if k == 0 {
        Seq::empty()
    } else {
        let prev = missing_fold(reviewed, requested, (k - 1) as nat);
        if found_module(reviewed, requested[k - 1]) {
            prev
        } else {
            prev.push(
                "requested module "@ + requested[k - 1] + " was not found in the workbook review set"@,
            )
        }
    }
}

pub open spec fn truncate_to<T>(s: Seq<T>, n: nat) -> Seq<T> {
    if n < s.len() {
        s.take(n as int)
    } else {
        s
    }
}

/// The review of an extraction for the requested module names.
pub open spec fn build_review_spec(x: ExtractionModel, names: Option<Seq<Seq<char>>>) -> ReviewModel {
    let requested = sanitize_requested_spec(names);
    let reviewed = review_fold(x.modules, requested, x.modules.len());
    let w = x.warnings + missing_fold(reviewed, requested, requested.len());
    let w = if x.has_vba_project && reviewed.len() == 0 && requested.len() == 0 {
        w.push("no VBA modules were available for ONLYOFFICE review"@)
    } else {
        w
    };
    ReviewModel {
        mode: "read_only_workbook_review"@,
        path: x.path,
        has_vba_project: x.has_vba_project,
        code_page: x.code_page,
        extracted_module_count: x.module_count,
        reviewed_module_count: reviewed.len(),
        requested_module_names: requested,
        modules: reviewed,
        warnings: truncate_to(w, MAX_WARNINGS as nat),
        success: x.has_vba_project && reviewed.len() > 0,
    }
}

fn review_module(module: ExtractedVbaModule) -> (r: ReviewedVbaOnlyofficeWorkbookModule)
    ensures
        r@ == review_module_spec(module@),
{
    let analysis = analyze_vba_onlyoffice_migration(module.source.as_str(), Some(module.name.as_str()));
    let mut warnings = analysis.warnings.clone();
    proof {
        assert(warnings.deep_view() =~= analysis.warnings.deep_view()) by {
            assert(forall|i: int| 0 <= i < warnings@.len() ==> #[trigger] warnings@[i] == analysis.warnings@[i]);
        }
    }
    let mut macro_value = String::new();
    let mut function_body = String::new();
    if analysis.success {
        let preview = translate_analyzed_vba_to_onlyoffice_js_preview(copy_analysis(&analysis));
        let ghost before = warnings.deep_view();
        let mut extra = preview.warnings;
        let ghost ev = extra.deep_view();
        warnings.append(&mut extra);
        assert(warnings.deep_view() =~= before + ev);
        macro_value = preview.macro_value;
        function_body = preview.function_body;
    }
    ReviewedVbaOnlyofficeWorkbookModule {
        name: module.name,
        stream_name: module.stream_name,
        module_kind: module.module_kind,
        source_truncated: module.source_truncated,
        analysis,
        warnings,
        macro_value,
        function_body,
    }
}

fn find_reviewed(modules: &Vec<ReviewedVbaOnlyofficeWorkbookModule>, requested: &str) -> (r: bool)
    ensures
        r == found_module(reviewed_view(modules@), requested@),
{
    let ghost mv = reviewed_view(modules@);
    let mut i: usize = 0;
    while i < modules.len()
        invariant
            mv == reviewed_view(modules@),
            i <= modules@.len(),
            forall|j: int|
                0 <= j < i ==> !(same_name_ci(#[trigger] mv[j].name, requested@) || same_name_ci(
                    mv[j].stream_name,
                    requested@,
                )),
        decreases modules@.len() - i,
    {
        assert(mv[i as int] == modules@[i as int]@);
        let a = eq_ignore_ascii_case(modules[i].name.as_str(), requested);
        let b = eq_ignore_ascii_case(modules[i].stream_name.as_str(), requested);
        assert(a == same_name_ci(mv[i as int].name, requested@));
        assert(b == same_name_ci(mv[i as int].stream_name, requested@));
        if a || b {
            return true;
        }
        assert forall|j: int| 0 <= j < i + 1 implies !(same_name_ci(#[trigger] mv[j].name, requested@) || same_name_ci(
            mv[j].stream_name,
            requested@,
        )) by {
            if j == i {
                assert(!a && !b);
            }
        }
        i += 1;
    }
    false
}

pub fn build_review_result(extraction: ExtractVbaModulesResult, requested_module_names: Option<&Vec<String>>) -> (r: ReviewVbaOnlyofficeWorkbookResult)
    ensures
        r@ == build_review_spec(extraction@, opt_names_view(requested_module_names)),
{
    let ghost x = extraction@;
    let requested = sanitize_requested_module_names(requested_module_names);
    let ghost rq = requested.deep_view();
    let ExtractVbaModulesResult { mode: _, path, has_vba_project, code_page, module_count, modules: extracted, warnings: mut warnings } = extraction;
    let mut modules: Vec<ReviewedVbaOnlyofficeWorkbookModule> = Vec::new();
    let ghost xm = modules_view(extracted@);
    let mut i: usize = 0;
    assert(reviewed_view(modules@) =~= review_fold(xm, rq, 0));
    while i < extracted.len()
        invariant
            xm == modules_view(extracted@),
            rq == requested.deep_view(),
            i <= extracted@.len(),
            reviewed_view(modules@) == review_fold(xm, rq, i as nat),
        decreases extracted@.len() - i,
    {
        assert(xm[i as int] == extracted@[i as int]@);
        if should_review_module(&extracted[i], &requested) {
            let m = ExtractedVbaModule {
                name: extracted[i].name.clone(),
                stream_name: extracted[i].stream_name.clone(),
                module_kind: extracted[i].module_kind,
                text_offset: extracted[i].text_offset,
                read_only: extracted[i].read_only,
                private: extracted[i].private,
                doc_string: extracted[i].doc_string.clone(),
                source: extracted[i].source.clone(),
                source_truncated: extracted[i].source_truncated,
            };
            assert(m@ == xm[i as int]);
            let reviewed = review_module(m);
            let ghost before = reviewed_view(modules@);
            modules.push(reviewed);
            assert(reviewed_view(modules@) =~= before.push(review_module_spec(xm[i as int])));
        }
        i += 1;
    }
    let ghost rv = reviewed_view(modules@);
    let ghost w0 = warnings.deep_view();
    let mut k: usize = 0;
    while k < requested.len()
        invariant
            rv == reviewed_view(modules@),
            rq == requested.deep_view(),
            k <= rq.len(),
            warnings.deep_view() == w0 + missing_fold(rv, rq, k as nat),
        decreases rq.len() - k,
    {
        assert(requested@[k as int]@ == rq[k as int]);
        if !find_reviewed(&modules, requested[k].as_str()) {
            let mut w = owned("requested module ");
            append_str(&mut w, requested[k].as_str());
            append_str(&mut w, " was not found in the workbook review set");
            let ghost before = warnings.deep_view();
            warnings.push(w);
            assert(warnings.deep_view() =~= before.push(
                "requested module "@ + rq[k as int] + " was not found in the workbook review set"@,
            ));
        }
        k += 1;
    }
    if has_vba_project && modules.len() == 0 && requested.len() == 0 {
        let ghost before = warnings.deep_view();
        warnings.push(owned("no VBA modules were available for ONLYOFFICE review"));
        assert(warnings.deep_view() =~= before.push("no VBA modules were available for ONLYOFFICE review"@));
    }
    let reviewed_module_count = modules.len();
    let ghost before_truncate = warnings.deep_view();
    warnings.truncate(MAX_WARNINGS);
    assert(warnings.deep_view() =~= truncate_to(before_truncate, MAX_WARNINGS as nat));
    ReviewVbaOnlyofficeWorkbookResult {
        mode: owned("read_only_workbook_review"),
        path,
        has_vba_project,
        code_page,
        extracted_module_count: module_count,
        reviewed_module_count,
        requested_module_names: requested,
        modules,
        warnings,
        success: has_vba_project && reviewed_module_count > 0,
    }
}


/// Extracts the workbook's VBA modules and reviews them: the review of
/// what the extraction gave.
pub fn review_vba_onlyoffice_workbook(
    workbook: Result<Vec<u8>, String>,
    display_path: &str,
    requested_module_names: Option<&Vec<String>>,
) -> (r: ReviewVbaOnlyofficeWorkbookResult)
    ensures
        r@ == build_review_spec(
            extraction_spec(workbook_view(workbook), display_path@),
            opt_names_view(requested_module_names),
        ),
{
    let extraction = extract_vba_modules_from_workbook(workbook, display_path);
    build_review_result(extraction, requested_module_names)
}

/// What holds of every reviewed module: it was selected by the request,
/// and it carries macro text only when its analysis succeeded and its
/// preview was emitted.
pub open spec fn reviewed_module_ok(m: ReviewedModuleModel, requested: Seq<Seq<char>>) -> bool {
    &&& should_review_spec(m.name, m.stream_name, requested)
    &&& m.macro_value.len() > 0 ==> m.analysis.success && translate_analyzed_spec(m.analysis).success
}

proof fn lemma_review_fold_ok(modules: Seq<ExtractedModuleModel>, requested: Seq<Seq<char>>, k: nat)
    requires
        k <= modules.len(),
    ensures
        review_fold(modules, requested, k).len() <= k,
        requested.len() == 0 ==> review_fold(modules, requested, k).len() == k,
        forall|i: int|
            0 <= i < review_fold(modules, requested, k).len() ==> reviewed_module_ok(
                #[trigger] review_fold(modules, requested, k)[i],
                requested,
            ),
    decreases k,
{
    if k > 0 {
        lemma_review_fold_ok(modules, requested, (k - 1) as nat);
        let m = modules[k - 1];
        law_preview_fails_closed(analyze_spec(m.source));
    }
}

proof fn lemma_sanitize_fold_ok(names: Seq<Seq<char>>, k: nat)
    requires
        k <= names.len(),
    ensures
        sanitize_fold(names, k).len() <= MAX_REQUESTED_MODULES,
        forall|i: int| 0 <= i < sanitize_fold(names, k).len() ==> (#[trigger] sanitize_fold(names, k)[i]).len() > 0,
    decreases k,
{
    if k > 0 {
        lemma_sanitize_fold_ok(names, (k - 1) as nat);
    }
}

/// A workbook review fails closed: at most sixteen non-blank module names
/// are requested; every reviewed module was selected by them (all modules
/// when none was requested), no more modules are reviewed than were
/// extracted, and macro text is only
/// returned for a module whose analysis succeeded and whose preview was
/// emitted; there are at most 32 warnings; and the review succeeds exactly
/// when the workbook has a VBA project and at least one module was reviewed.
pub proof fn law_review_fails_closed(x: ExtractionModel, names: Option<Seq<Seq<char>>>)
    ensures
        ({
            let r = build_review_spec(x, names);
            &&& r.requested_module_names.len() <= MAX_REQUESTED_MODULES
            &&& forall|i: int| 0 <= i < r.requested_module_names.len() ==> (#[trigger] r.requested_module_names[i]).len() > 0
            &&& r.modules.len() <= x.modules.len()
            &&& r.requested_module_names.len() == 0 ==> r.modules.len() == x.modules.len()
            &&& r.reviewed_module_count == r.modules.len()
            &&& forall|i: int| 0 <= i < r.modules.len() ==> reviewed_module_ok(#[trigger] r.modules[i], r.requested_module_names)
            &&& r.warnings.len() <= MAX_WARNINGS
            &&& r.success == (x.has_vba_project && r.modules.len() > 0)
        }),
{
    let requested = sanitize_requested_spec(names);
    match names {
        Some(ns) => lemma_sanitize_fold_ok(ns, ns.len()),
        None => {},
    }
    lemma_review_fold_ok(x.modules, requested, x.modules.len());
}

/// A module is reviewed exactly when no names were requested or one of the
/// requested names is its name or its stream name, ignoring ASCII case;
/// every requested name counts, wherever it stands in the request.
pub proof fn law_any_requested_name_selects(
    name: Seq<char>,
    stream_name: Seq<char>,
    requested: Seq<Seq<char>>,
    i: int,
)
    ensures
        requested.len() == 0 ==> should_review_spec(name, stream_name, requested),
        0 <= i < requested.len() && (crate::text::lower_seq(name) == crate::text::lower_seq(requested[i])
            || crate::text::lower_seq(stream_name) == crate::text::lower_seq(requested[i])) ==> should_review_spec(
            name,
            stream_name,
            requested,
        ),
        should_review_spec(name, stream_name, requested) && requested.len() > 0 ==> exists|j: int|
            0 <= j < requested.len() && (crate::text::lower_seq(name) == crate::text::lower_seq(#[trigger] requested[j])
                || crate::text::lower_seq(stream_name) == crate::text::lower_seq(requested[j])),
{
    if 0 <= i < requested.len() && (crate::text::lower_seq(name) == crate::text::lower_seq(requested[i])
        || crate::text::lower_seq(stream_name) == crate::text::lower_seq(requested[i])) {
        assert(same_name_ci(name, requested[i]) || same_name_ci(stream_name, requested[i]));
    }
}

} // verus!
