//! Offline VBA project metadata: module inventory, module-type counts and
//! reference-kind counts.
use vstd::prelude::*;
use crate::text::owned;
use crate::vba_extract::{
    parse_stage, parse_vba_project_from_workbook, project_code_page_of, project_modules_of, read_stage, vba_project_module,
    vba_project_module_count, workbook_view, ParsedVbaProjectResult, ProjectModule, VbaModuleKind,
};

verus! {

pub const MAX_MODULE_NAMES: usize = 32;

pub const MAX_DOC_CLS_DESIGNER_MODULE_NAMES: usize = 16;

/// The four kinds of project reference.
#[derive(Debug, Clone, Copy, PartialEq, Eq, Structural)]
pub enum VbaReferenceKind {
    Control,
    Original,
    Registered,
    Project,
}

#[derive(Debug, Clone, PartialEq, Eq)]
pub struct VbaProjectReferenceCounts {
    pub control: usize,
    pub original: usize,
    pub registered: usize,
    pub project: usize,
}

#[derive(Debug, Clone, PartialEq, Eq)]
pub struct InspectVbaProjectMetadataResult {
    pub mode: String,
    pub path: String,
    pub has_vba_project: bool,
    pub code_page: Option<u16>,
    pub module_count: usize,
    pub procedural_module_count: usize,
    pub doc_cls_designer_module_count: usize,
    pub module_names: Vec<String>,
    pub module_names_truncated: bool,
    pub doc_cls_designer_module_names: Vec<String>,
    pub doc_cls_designer_module_names_truncated: bool,
    pub reference_counts: VbaProjectReferenceCounts,
    pub warnings: Vec<String>,
}

/// The module inventory after the first `k` modules: the name sample and
/// whether it overflowed, the per-kind counts, the designer-name sample and
/// whether it overflowed.
pub struct ModuleTally {
    pub names: Seq<Seq<char>>,
    pub names_truncated: bool,
    pub procedural: nat,
    pub doc_cls_designer: nat,
    pub doc_names: Seq<Seq<char>>,
    pub doc_names_truncated: bool,
}

pub open spec fn module_tally(modules: Seq<(Seq<char>, VbaModuleKind)>, k: nat) -> ModuleTally
    decreases k,
{
    if k == 0 {
        ModuleTally {
            names: Seq::empty(),
            names_truncated: false,
            procedural: 0,
            doc_cls_designer: 0,
            doc_names: Seq::empty(),
            doc_names_truncated: false,
        }
    } else {
        let t = module_tally(modules, (k - 1) as nat);
        let (name, kind) = modules[k - 1];
        let t = if t.names.len() < MAX_MODULE_NAMES {
            ModuleTally { names: t.names.push(name), ..t }
        } else {
            ModuleTally { names_truncated: true, ..t }
        };
        match kind {
            VbaModuleKind::Procedural => ModuleTally { procedural: t.procedural + 1, ..t },
            VbaModuleKind::DocClsDesigner => {
                let t = ModuleTally { doc_cls_designer: t.doc_cls_designer + 1, ..t };
                if t.doc_names.len() < MAX_DOC_CLS_DESIGNER_MODULE_NAMES {
                    ModuleTally { doc_names: t.doc_names.push(name), ..t }
                } else {
                    ModuleTally { doc_names_truncated: true, ..t }
                }
            },
        }
    }
}

pub open spec fn count_kind(references: Seq<VbaReferenceKind>, kind: VbaReferenceKind) -> nat
    decreases references.len(),
{
    if references.len() == 0 {
        0
    } else {
        count_kind(references.drop_last(), kind) + if references.last() == kind {
            1nat
        } else {
            0nat
        }
    }
}

/// The warnings that the inventory adds after those of reading the project.
pub open spec fn metadata_warnings(t: ModuleTally, reference_total: nat) -> Seq<Seq<char>> {
    let w = Seq::<Seq<char>>::empty();
    let w = if reference_total > 0 {
        w.push("VBA reference detail strings are not exposed by the current parser; only reference-kind counts are reported"@)
    } else {
        w
    };
    let w = if t.doc_cls_designer > 0 {
        w.push("doc_cls_designer modules may represent document, class, or designer/forms metadata; current parser does not distinguish them further"@)
    } else {
        w
    };
    let w = if t.names_truncated {
        w.push("module_names is a bounded sample capped at 32 entries"@)
    } else {
        w
    };
    if t.doc_names_truncated {
        w.push("doc_cls_designer_module_names is a bounded sample capped at 16 entries"@)
    } else {
        w
    }
}

pub open spec fn module_list_view(v: Seq<(String, VbaModuleKind)>) -> Seq<(Seq<char>, VbaModuleKind)> {
    v.map_values(|m: (String, VbaModuleKind)| (m.0@, m.1))
}

/// The metadata of a parsed project from its modules (name and kind, in
/// project order) and the kinds of its references.
pub fn build_vba_project_metadata(
    display_path: &str,
    has_vba_project: bool,
    code_page: Option<u16>,
    modules: &Vec<(String, VbaModuleKind)>,
    references: &Vec<VbaReferenceKind>,
    warnings: Vec<String>,
) -> (r: InspectVbaProjectMetadataResult)
    ensures
        ({
            let t = module_tally(module_list_view(modules@), modules@.len() as nat);
            &&& r.mode@ == "read_only_inspection"@
            &&& r.path@ == display_path@
            &&& r.has_vba_project == has_vba_project
            &&& r.code_page == code_page
            &&& r.module_count == modules@.len()
            &&& r.procedural_module_count == t.procedural
            &&& r.doc_cls_designer_module_count == t.doc_cls_designer
            &&& r.module_names.deep_view() == t.names
            &&& r.module_names_truncated == t.names_truncated
            &&& r.doc_cls_designer_module_names.deep_view() == t.doc_names
            &&& r.doc_cls_designer_module_names_truncated == t.doc_names_truncated
            &&& r.reference_counts.control == count_kind(references@, VbaReferenceKind::Control)
            &&& r.reference_counts.original == count_kind(references@, VbaReferenceKind::Original)
            &&& r.reference_counts.registered == count_kind(references@, VbaReferenceKind::Registered)
            &&& r.reference_counts.project == count_kind(references@, VbaReferenceKind::Project)
            &&& r.warnings.deep_view() == warnings.deep_view() + metadata_warnings(t, references@.len() as nat)
        }),
{
    let ghost mv = module_list_view(modules@);
    let mut procedural_module_count: usize = 0;
    let mut doc_cls_designer_module_count: usize = 0;
    let mut module_names: Vec<String> = Vec::new();
    let mut module_names_truncated = false;
    let mut doc_names: Vec<String> = Vec::new();
    let mut doc_names_truncated = false;
    let mut i: usize = 0;
    while i < modules.len()
        invariant
            mv == module_list_view(modules@),
            i <= modules@.len(),
            ({
                let t = module_tally(mv, i as nat);
                &&& module_names.deep_view() == t.names
                &&& module_names_truncated == t.names_truncated
                &&& procedural_module_count == t.procedural
                &&& doc_cls_designer_module_count == t.doc_cls_designer
                &&& doc_names.deep_view() == t.doc_names
                &&& doc_names_truncated == t.doc_names_truncated
                &&& t.procedural + t.doc_cls_designer == i
            }),
        decreases modules@.len() - i,
    {
        assert(mv[i as int] == (modules@[i as int].0@, modules@[i as int].1));
        let name = &modules[i].0;
        if module_names.len() < MAX_MODULE_NAMES {
            let ghost before = module_names.deep_view();
            module_names.push(name.clone());
            assert(module_names.deep_view() =~= before.push(name@));
        } else {
            module_names_truncated = true;
        }
        match modules[i].1 {
            VbaModuleKind::Procedural => {
                procedural_module_count += 1;
            },
            VbaModuleKind::DocClsDesigner => {
                doc_cls_designer_module_count += 1;
                if doc_names.len() < MAX_DOC_CLS_DESIGNER_MODULE_NAMES {
                    let ghost before = doc_names.deep_view();
                    doc_names.push(name.clone());
                    assert(doc_names.deep_view() =~= before.push(name@));
                } else {
                    doc_names_truncated = true;
                }
            },
        }
        i += 1;
    }
    let mut counts = VbaProjectReferenceCounts { control: 0, original: 0, registered: 0, project: 0 };
    let mut j: usize = 0;
    while j < references.len()
        invariant
            j <= references@.len(),
            counts.control == count_kind(references@.take(j as int), VbaReferenceKind::Control),
            counts.original == count_kind(references@.take(j as int), VbaReferenceKind::Original),
            counts.registered == count_kind(references@.take(j as int), VbaReferenceKind::Registered),
            counts.project == count_kind(references@.take(j as int), VbaReferenceKind::Project),
            counts.control + counts.original + counts.registered + counts.project == j,
        decreases references@.len() - j,
    {
        assert(references@.take(j + 1).drop_last() =~= references@.take(j as int));
        match references[j] {
            VbaReferenceKind::Control => counts.control += 1,
            VbaReferenceKind::Original => counts.original += 1,
            VbaReferenceKind::Registered => counts.registered += 1,
            VbaReferenceKind::Project => counts.project += 1,
        }
        j += 1;
    }
    assert(references@.take(references@.len() as int) =~= references@);
    let ghost w0 = warnings.deep_view();
    let mut warnings = warnings;
    if references.len() > 0 {
        warnings.push(owned("VBA reference detail strings are not exposed by the current parser; only reference-kind counts are reported"));
    }
    if doc_cls_designer_module_count > 0 {
        warnings.push(owned("doc_cls_designer modules may represent document, class, or designer/forms metadata; current parser does not distinguish them further"));
    }
    if module_names_truncated {
        warnings.push(owned("module_names is a bounded sample capped at 32 entries"));
    }
    if doc_names_truncated {
        warnings.push(owned("doc_cls_designer_module_names is a bounded sample capped at 16 entries"));
    }
    assert(warnings.deep_view() =~= w0 + metadata_warnings(module_tally(mv, modules@.len() as nat), references@.len() as nat));
    InspectVbaProjectMetadataResult {
        mode: owned("read_only_inspection"),
        path: owned(display_path),
        has_vba_project,
        code_page,
        module_count: modules.len(),
        procedural_module_count,
        doc_cls_designer_module_count,
        module_names,
        module_names_truncated,
        doc_cls_designer_module_names: doc_names,
        doc_cls_designer_module_names_truncated: doc_names_truncated,
        reference_counts: counts,
        warnings,
    }
}

/// The kinds of the references that a parsed project holds
/// (`Project::references`), in order.
pub uninterp spec fn project_references_of(project: ovba::Project) -> Seq<VbaReferenceKind>;

/// Reads `project.references.len()`.
#[verifier::external_body]
fn vba_project_reference_count(project: &ovba::Project) -> (r: usize)
    ensures
        r == project_references_of(*project).len(),
{
    project.references.len()
}

/// The kind of `project.references[index]`, `None` past the end.
#[verifier::external_body]
fn vba_project_reference_kind(project: &ovba::Project, index: usize) -> (r: Option<VbaReferenceKind>)
    ensures
        match r {
            Some(k) => index < project_references_of(*project).len() && k == project_references_of(*project)[index as int],
            None => index >= project_references_of(*project).len(),
        },
{
    match project.references.get(index)? {
        ovba::Reference::Control(_) => Some(VbaReferenceKind::Control),
        ovba::Reference::Original(_) => Some(VbaReferenceKind::Original),
        ovba::Reference::Registered(_) => Some(VbaReferenceKind::Registered),
        ovba::Reference::Project(_) => Some(VbaReferenceKind::Project),
    }
}

/// The name and kind of each module of a project, in order.
pub open spec fn names_and_kinds(modules: Seq<ProjectModule>) -> Seq<(Seq<char>, VbaModuleKind)> {
    modules.map_values(|m: ProjectModule| (m.0, m.2))
}

/// The metadata of a parsed project (the module list and reference kinds
/// read from it), after the warnings of reading it.
pub fn project_metadata(
    display_path: &str,
    has_vba_project: bool,
    code_page: Option<u16>,
    project: &ovba::Project,
    warnings: Vec<String>,
) -> (r: InspectVbaProjectMetadataResult)
    ensures
        ({
            let t = module_tally(names_and_kinds(project_modules_of(*project)), project_modules_of(*project).len());
            let refs = project_references_of(*project);
            &&& r.mode@ == "read_only_inspection"@
            &&& r.path@ == display_path@
            &&& r.has_vba_project == has_vba_project
            &&& r.code_page == code_page
            &&& r.module_count == project_modules_of(*project).len()
            &&& r.procedural_module_count == t.procedural
            &&& r.doc_cls_designer_module_count == t.doc_cls_designer
            &&& r.module_names.deep_view() == t.names
            &&& r.module_names_truncated == t.names_truncated
            &&& r.doc_cls_designer_module_names.deep_view() == t.doc_names
            &&& r.doc_cls_designer_module_names_truncated == t.doc_names_truncated
            &&& r.reference_counts.control == count_kind(refs, VbaReferenceKind::Control)
            &&& r.reference_counts.original == count_kind(refs, VbaReferenceKind::Original)
            &&& r.reference_counts.registered == count_kind(refs, VbaReferenceKind::Registered)
            &&& r.reference_counts.project == count_kind(refs, VbaReferenceKind::Project)
            &&& r.warnings.deep_view() == warnings.deep_view() + metadata_warnings(t, refs.len())
        }),
{
    let ghost mods = project_modules_of(*project);
    let ghost refs = project_references_of(*project);
    let module_total = vba_project_module_count(project);
    let mut modules: Vec<(String, VbaModuleKind)> = Vec::new();
    let mut i: usize = 0;
    while i < module_total
        invariant
            mods == project_modules_of(*project),
            module_total == mods.len(),
            i <= module_total,
            module_list_view(modules@) == names_and_kinds(mods).take(i as int),
        decreases module_total - i,
    {
        match vba_project_module(project, i) {
            Some(entry) => {
                let ghost before = module_list_view(modules@);
                let ghost pair = (entry.name@, entry.module_kind);
                modules.push((entry.name, entry.module_kind));
                assert(module_list_view(modules@) =~= before.push(pair));
                assert(names_and_kinds(mods).take(i + 1) =~= names_and_kinds(mods).take(i as int).push(
                    names_and_kinds(mods)[i as int],
                ));
            },
            None => {
                assert(false);
            },
        }
        i += 1;
    }
    assert(names_and_kinds(mods).take(module_total as int) =~= names_and_kinds(mods));
    let reference_total = vba_project_reference_count(project);
    let mut references: Vec<VbaReferenceKind> = Vec::new();
    let mut j: usize = 0;
    while j < reference_total
        invariant
            refs == project_references_of(*project),
            reference_total == refs.len(),
            j <= reference_total,
            references@ == refs.take(j as int),
        decreases reference_total - j,
    {
        match vba_project_reference_kind(project, j) {
            Some(kind) => {
                references.push(kind);
                assert(refs.take(j + 1) =~= refs.take(j as int).push(refs[j as int]));
            },
            None => {
                assert(false);
            },
        }
        j += 1;
    }
    assert(refs.take(reference_total as int) =~= refs);
    build_vba_project_metadata(display_path, has_vba_project, code_page, &modules, &references, warnings)
}

pub fn inspect_vba_project_metadata_from_workbook(workbook: Result<Vec<u8>, String>, display_path: &str) -> (r: InspectVbaProjectMetadataResult)
    ensures
        ({
            let st = read_stage(workbook_view(workbook), display_path@);
            let ps = parse_stage(workbook_view(workbook), display_path@);
            &&& r.mode@ == "read_only_inspection"@
            &&& r.path@ == display_path@
            &&& r.has_vba_project == st.0 is Some
            &&& r.procedural_module_count + r.doc_cls_designer_module_count == r.module_count
            &&& match ps.0 {
                None => {
                    &&& r.code_page is None
                    &&& r.module_count == 0
                    &&& r.module_names@.len() == 0
                    &&& !r.module_names_truncated
                    &&& r.doc_cls_designer_module_names@.len() == 0
                    &&& !r.doc_cls_designer_module_names_truncated
                    &&& r.reference_counts == (VbaProjectReferenceCounts { control: 0, original: 0, registered: 0, project: 0 })
                    &&& r.warnings.deep_view() == ps.1
                },
                Some(parts) => {
                    let t = module_tally(names_and_kinds(parts.1), parts.1.len());
                    let refs = parts.2;
                    &&& r.code_page == Some(parts.0)
                    &&& r.module_count == parts.1.len()
                    &&& r.procedural_module_count == t.procedural
                    &&& r.doc_cls_designer_module_count == t.doc_cls_designer
                    &&& r.module_names.deep_view() == t.names
                    &&& r.module_names_truncated == t.names_truncated
                    &&& r.doc_cls_designer_module_names.deep_view() == t.doc_names
                    &&& r.doc_cls_designer_module_names_truncated == t.doc_names_truncated
                    &&& r.reference_counts.control == count_kind(refs, VbaReferenceKind::Control)
                    &&& r.reference_counts.original == count_kind(refs, VbaReferenceKind::Original)
                    &&& r.reference_counts.registered == count_kind(refs, VbaReferenceKind::Registered)
                    &&& r.reference_counts.project == count_kind(refs, VbaReferenceKind::Project)
                    &&& r.warnings.deep_view() == ps.1 + metadata_warnings(t, refs.len())
                },
            }
        }),
{
    let ghost st = read_stage(workbook_view(workbook), display_path@);
    let ParsedVbaProjectResult { has_vba_project, code_page, project, warnings } =
        parse_vba_project_from_workbook(workbook, display_path);
    let project = match project {
        Some(p) => p,
        None => {
            return InspectVbaProjectMetadataResult {
                mode: owned("read_only_inspection"),
                path: owned(display_path),
                has_vba_project,
                code_page,
                module_count: 0,
                procedural_module_count: 0,
                doc_cls_designer_module_count: 0,
                module_names: Vec::new(),
                module_names_truncated: false,
                doc_cls_designer_module_names: Vec::new(),
                doc_cls_designer_module_names_truncated: false,
                reference_counts: VbaProjectReferenceCounts { control: 0, original: 0, registered: 0, project: 0 },
                warnings,
            };
        },
    };
    let r = project_metadata(display_path, has_vba_project, code_page, &project, warnings);
    proof {
        law_module_inventory_adds_up(
            names_and_kinds(project_modules_of(project)),
            project_modules_of(project).len(),
        );
    }
    r
}

/// The module inventory adds up: every module is counted once, as
/// procedural or as document/class/designer; the name sample is the first
/// 32 module names in project order and is marked truncated exactly when
/// there were more; the designer sample holds at most 16 names and is
/// marked truncated exactly when there were more designer modules.
pub proof fn law_module_inventory_adds_up(modules: Seq<(Seq<char>, VbaModuleKind)>, k: nat)
    requires
        k <= modules.len(),
    ensures
        ({
            let t = module_tally(modules, k);
            &&& t.procedural + t.doc_cls_designer == k
            &&& t.names.len() == if k <= MAX_MODULE_NAMES { k } else { MAX_MODULE_NAMES as nat }
            &&& t.names_truncated == (k > MAX_MODULE_NAMES)
            &&& forall|i: int| 0 <= i < t.names.len() ==> #[trigger] t.names[i] == modules[i].0
            &&& t.doc_names.len() == if t.doc_cls_designer <= MAX_DOC_CLS_DESIGNER_MODULE_NAMES {
                t.doc_cls_designer
            } else {
                MAX_DOC_CLS_DESIGNER_MODULE_NAMES as nat
            }
            &&& t.doc_names_truncated == (t.doc_cls_designer > MAX_DOC_CLS_DESIGNER_MODULE_NAMES)
        }),
    decreases k,
{
    if k > 0 {
        law_module_inventory_adds_up(modules, (k - 1) as nat);
    }
}

} // verus!
