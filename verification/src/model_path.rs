//! Paths that a model hands to a tool: they must be local, relative, stay
//! inside the working directory and carry an expected extension; the
//! resolved path must not pass through a symbolic link.
use vstd::prelude::*;
use crate::text::{append_str, contains_seq, contains_str, lower_seq, lower_string, owned, chars_of, trim, trim_seq};

verus! {

/// Why a path was refused, before the file system is looked at.
#[derive(Debug, Clone, Copy, PartialEq, Eq, Structural)]
pub enum PathRefusal {
    Empty,
    NotLocal,
    NotRelative,
    BadExtension,
}

/// What the file system says of one prefix of a resolved path.
#[derive(Debug, Clone, Copy, PartialEq, Eq, Structural)]
pub enum PrefixState {
    Missing,
    Symlink,
    Present,
}

/// A path accepted before the file system is looked at: the working
/// directory joined with it, and the prefixes of that path to check for
/// symbolic links, one per path component.
#[derive(Debug, Clone, PartialEq, Eq)]
pub struct ScopedPath {
    pub resolved: String,
    pub prefixes: Vec<String>,
}

/// One component of a path, as `std::path::Path::components` reads it.
pub enum PathPart {
    Prefix,
    RootDir,
    CurDir,
    ParentDir,
    Normal(String),
}

pub enum PartModel {
    Prefix,
    RootDir,
    CurDir,
    ParentDir,
    Normal(Seq<char>),
}

impl View for PathPart {
    type V = PartModel;

    open spec fn view(&self) -> PartModel {
        match self {
            PathPart::Prefix => PartModel::Prefix,
            PathPart::RootDir => PartModel::RootDir,
            PathPart::CurDir => PartModel::CurDir,
            PathPart::ParentDir => PartModel::ParentDir,
            PathPart::Normal(s) => PartModel::Normal(s@),
        }
    }
}

pub open spec fn parts_view(v: Seq<PathPart>) -> Seq<PartModel> {
    v.map_values(|p: PathPart| p@)
}

/// The components of `path` as `Path::components` gives them on the
/// platform that the library is built for.
pub uninterp spec fn path_parts_of(path: Seq<char>) -> Seq<PartModel>;

/// What `Path::extension` gives for `path`, as text.
pub uninterp spec fn path_extension_of(path: Seq<char>) -> Option<Seq<char>>;

/// The text of `base` joined with `path` (`Path::join`, the same as
/// `PathBuf::push` of `path` onto `base`).
pub uninterp spec fn path_joined_of(base: Seq<char>, path: Seq<char>) -> Seq<char>;

/// Whether a component is a prefix, the root or the parent directory.
pub open spec fn leaves_scope_part(p: PartModel) -> bool {
    p is Prefix || p is RootDir || p is ParentDir
}

/// Whether any component of the parts is a prefix, the root or a parent.
pub open spec fn any_leaves_scope(parts: Seq<PartModel>) -> bool {
    exists|i: int| 0 <= i < parts.len() && leaves_scope_part(#[trigger] parts[i])
}

/// Calls `Path::components` on the path and copies each component.
#[verifier::external_body]
fn path_parts(path: &str) -> (r: Vec<PathPart>)
    ensures
        parts_view(r@) == path_parts_of(path@),
{
    std::path::Path::new(path).components().map(|c| match c {
        std::path::Component::Prefix(_) => PathPart::Prefix,
        std::path::Component::RootDir => PathPart::RootDir,
        std::path::Component::CurDir => PathPart::CurDir,
        std::path::Component::ParentDir => PathPart::ParentDir,
        std::path::Component::Normal(s) => PathPart::Normal(s.to_string_lossy().into_owned()),
    }).collect()
}

/// Calls `Path::extension` on the path; `None` also where the extension is
/// not valid text.
#[verifier::external_body]
fn path_extension(path: &str) -> (r: Option<String>)
    ensures
        match r {
            Some(e) => path_extension_of(path@) == Some(e@),
            None => path_extension_of(path@) is None,
        },
{
    std::path::Path::new(path).extension().and_then(|e| e.to_str()).map(|e| e.to_string())
}

/// Calls `Path::join`. Nothing is stated of how the result relates to
/// `base`: on some platforms `PathBuf::push` rebuilds a base with a
/// verbatim prefix from its components, so the base's text need not stay
/// in front.
#[verifier::external_body]
fn join_path(base: &str, path: &str) -> (r: String)
    ensures
        r@ == path_joined_of(base@, path@),
{
    std::path::Path::new(base).join(path).to_string_lossy().into_owned()
}

/// The named (normal) components of the parts, in order.
pub open spec fn normal_segments(parts: Seq<PartModel>) -> Seq<Seq<char>>
    decreases parts.len(),
{
    if parts.len() == 0 {
        Seq::empty()
    } else {
        let prev = normal_segments(parts.drop_last());
        match parts.last() {
            PartModel::Normal(s) => prev.push(s),
            _ => prev,
        }
    }
}

/// The extension of a path, as `Path::extension` reads it.
pub open spec fn extension_spec(path: Seq<char>) -> Option<Seq<char>> {
    path_extension_of(path)
}

/// The path has a prefix or a root, or names a parent.
pub open spec fn leaves_scope(path: Seq<char>) -> bool {
    any_leaves_scope(path_parts_of(path))
}

/// The refusal of a (trimmed) path with the given allowed lower-case extensions, if any.
pub open spec fn refusal_spec(path: Seq<char>, extensions: Seq<Seq<char>>) -> Option<PathRefusal> {
    if path.len() == 0 {
        Some(PathRefusal::Empty)
    } else if path.contains('\0') || contains_seq(path, "://"@) {
        Some(PathRefusal::NotLocal)
    } else if leaves_scope(path) {
        Some(PathRefusal::NotRelative)
    } else {
        match extension_spec(path) {
            None => Some(PathRefusal::BadExtension),
            Some(e) => if extensions.contains(lower_seq(e)) {
                None
            } else {
                Some(PathRefusal::BadExtension)
            },
        }
    }
}

/// The working directory with the first `k` segments pushed one by one.
pub open spec fn prefix_fold(cwd: Seq<char>, segs: Seq<Seq<char>>, k: nat) -> Seq<Seq<char>>
    decreases k,
{
    if k == 0 || k > segs.len() {
        Seq::empty()
    } else {
        let prev = prefix_fold(cwd, segs, (k - 1) as nat);
        let base = if k == 1 { cwd } else { prev.last() };
        prev.push(path_joined_of(base, segs[k - 1]))
    }
}

fn has_nul(v: &Vec<char>) -> (r: bool)
    ensures
        r == v@.contains('\0'),
{
    let mut i: usize = 0;
    while i < v.len()
        invariant
            i <= v@.len(),
            forall|j: int| 0 <= j < i ==> v@[j] != '\0',
        decreases v@.len() - i,
    {
        if v[i] == '\0' {
            assert(v@[i as int] == '\0');
            return true;
        }
        i += 1;
    }
    false
}

fn any_part_leaves_scope(parts: &Vec<PathPart>) -> (r: bool)
    ensures
        r == any_leaves_scope(parts_view(parts@)),
{
    let ghost pv = parts_view(parts@);
    let mut i: usize = 0;
    while i < parts.len()
        invariant
            pv == parts_view(parts@),
            i <= pv.len(),
            forall|j: int| 0 <= j < i ==> !leaves_scope_part(#[trigger] pv[j]),
        decreases pv.len() - i,
    {
        assert(pv[i as int] == parts@[i as int]@);
        match &parts[i] {
            PathPart::Prefix | PathPart::RootDir | PathPart::ParentDir => {
                assert(leaves_scope_part(pv[i as int]));
                return true;
            },
            _ => {},
        }
        i += 1;
    }
    false
}

fn normal_parts(parts: &Vec<PathPart>) -> (r: Vec<String>)
    ensures
        r.deep_view() == normal_segments(parts_view(parts@)),
{
    let ghost pv = parts_view(parts@);
    let mut out: Vec<String> = Vec::new();
    let mut i: usize = 0;
    while i < parts.len()
        invariant
            pv == parts_view(parts@),
            i <= pv.len(),
            out.deep_view() == normal_segments(pv.take(i as int)),
        decreases pv.len() - i,
    {
        assert(pv.take(i + 1).drop_last() =~= pv.take(i as int));
        assert(pv.take(i + 1).last() == parts@[i as int]@);
        match &parts[i] {
            PathPart::Normal(s) => {
                let ghost before = out.deep_view();
                out.push(s.clone());
                assert(out.deep_view() =~= before.push(s@));
            },
            _ => {},
        }
        i += 1;
    }
    assert(pv.take(pv.len() as int) =~= pv);
    out
}

fn allowed(extensions: &Vec<String>, e: &str) -> (r: bool)
    ensures
        r == extensions.deep_view().contains(e@),
{
    let ghost ev = extensions.deep_view();
    let mut i: usize = 0;
    while i < extensions.len()
        invariant
            ev == extensions.deep_view(),
            i <= ev.len(),
            forall|j: int| 0 <= j < i ==> ev[j] != e@,
        decreases ev.len() - i,
    {
        assert(extensions@[i as int]@ == ev[i as int]);
        if crate::text::same_text(extensions[i].as_str(), e) {
            assert(ev[i as int] == e@);
            return true;
        }
        i += 1;
    }
    false
}

/// Checks a path handed over by a model, without looking at the file
/// system: the refusal, or the path resolved against `cwd` with the
/// prefixes to check for symbolic links.
pub fn check_scoped_path(path: &str, cwd: &str, extensions: &Vec<String>) -> (r: Result<ScopedPath, PathRefusal>)
    ensures
        ({
            let t = trim_seq(path@);
            let segs = normal_segments(path_parts_of(t));
            match refusal_spec(t, extensions.deep_view()) {
                Some(why) => r == Err::<ScopedPath, PathRefusal>(why),
                None => r matches Ok(sp) && sp.resolved@ == path_joined_of(cwd@, t) && sp.prefixes.deep_view()
                    == prefix_fold(cwd@, segs, segs.len()),
            }
        }),
{
    let trimmed = trim(path);
    let t = trimmed.as_str();
    let v = chars_of(t);
    if v.len() == 0 {
        return Err(PathRefusal::Empty);
    }
    proof {
        reveal_strlit("://");
    }
    if has_nul(&v) || contains_str(t, "://") {
        return Err(PathRefusal::NotLocal);
    }
    let parts = path_parts(t);
    if any_part_leaves_scope(&parts) {
        return Err(PathRefusal::NotRelative);
    }
    let ext = match path_extension(t) {
        None => {
            return Err(PathRefusal::BadExtension);
        },
        Some(e) => e,
    };
    let lowered = lower_string(ext.as_str());
    if !allowed(extensions, lowered.as_str()) {
        return Err(PathRefusal::BadExtension);
    }
    let resolved = join_path(cwd, t);
    let segs = normal_parts(&parts);
    let ghost sv = segs.deep_view();
    let mut prefixes: Vec<String> = Vec::new();
    let mut i: usize = 0;
    while i < segs.len()
        invariant
            sv == segs.deep_view(),
            i <= sv.len(),
            prefixes@.len() == i,
            prefixes.deep_view() == prefix_fold(cwd@, sv, i as nat),
        decreases sv.len() - i,
    {
        assert(segs@[i as int]@ == sv[i as int]);
        let next = if i == 0 {
            join_path(cwd, segs[i].as_str())
        } else {
            assert(prefixes@[i - 1]@ == prefixes.deep_view()[i - 1]);
            join_path(prefixes[i - 1].as_str(), segs[i].as_str())
        };
        let ghost before = prefixes.deep_view();
        prefixes.push(next);
        assert(prefixes.deep_view() =~= before.push(next@));
        i += 1;
    }
    Ok(ScopedPath { resolved, prefixes })
}

/// The first prefix that is a symbolic link, before any prefix is missing.
pub open spec fn symlink_before_missing(states: Seq<PrefixState>) -> bool
    decreases states.len(),
{
    if states.len() == 0 {
        false
    } else if states[0] == PrefixState::Missing {
        false
    } else if states[0] == PrefixState::Symlink {
        true
    } else {
        symlink_before_missing(states.drop_first())
    }
}

/// Whether the prefixes of a resolved path, checked in order until one is
/// missing, pass through a symbolic link.
pub fn traverses_symlink(states: &Vec<PrefixState>) -> (r: bool)
    ensures
        r == symlink_before_missing(states@),
{
    let mut i: usize = 0;
    assert(states@.subrange(0, states@.len() as int) =~= states@);
    while i < states.len()
        invariant
            i <= states@.len(),
            symlink_before_missing(states@) == symlink_before_missing(states@.subrange(i as int, states@.len() as int)),
        decreases states@.len() - i,
    {
        assert(states@.subrange(i as int, states@.len() as int).drop_first() =~= states@.subrange(
            i + 1,
            states@.len() as int,
        ));
        match states[i] {
            PrefixState::Missing => {
                return false;
            },
            PrefixState::Symlink => {
                return true;
            },
            PrefixState::Present => {},
        }
        i += 1;
    }
    false
}

/// The message for a refusal of a path called `label`: `local_kind` names
/// what a local path should be, `ending` the accepted extensions.
pub open spec fn refusal_text(label: Seq<char>, local_kind: Seq<char>, ending: Seq<char>, why: PathRefusal) -> Seq<char> {
    match why {
        PathRefusal::Empty => label + " must not be empty"@,
        PathRefusal::NotLocal => label + " must be a local "@ + local_kind,
        PathRefusal::NotRelative => label + " must be relative and stay within the current working directory"@,
        PathRefusal::BadExtension => label + " must end in "@ + ending,
    }
}

pub fn refusal_message(label: &str, local_kind: &str, ending: &str, why: PathRefusal) -> (r: String)
    ensures
        r@ == refusal_text(label@, local_kind@, ending@, why),
{
    let mut m = owned(label);
    match why {
        PathRefusal::Empty => append_str(&mut m, " must not be empty"),
        PathRefusal::NotLocal => {
            append_str(&mut m, " must be a local ");
            append_str(&mut m, local_kind);
        },
        PathRefusal::NotRelative => append_str(&mut m, " must be relative and stay within the current working directory"),
        PathRefusal::BadExtension => {
            append_str(&mut m, " must end in ");
            append_str(&mut m, ending);
        },
    }
    m
}

/// A model path checked before the file system is looked at, as plain
/// values: the resolved path and the prefixes to check, or the message.
pub open spec fn scoped_outcome(
    label: Seq<char>,
    local_kind: Seq<char>,
    ending: Seq<char>,
    path: Seq<char>,
    cwd: Seq<char>,
    extensions: Seq<Seq<char>>,
) -> Result<(Seq<char>, Seq<Seq<char>>), Seq<char>> {
    let t = trim_seq(path);
    match refusal_spec(t, extensions) {
        Some(why) => Err(refusal_text(label, local_kind, ending, why)),
        None => Ok((path_joined_of(cwd, t), prefix_fold(cwd, normal_segments(path_parts_of(t)), normal_segments(path_parts_of(t)).len()))),
    }
}

pub open spec fn scoped_view(r: Result<ScopedPath, String>) -> Result<(Seq<char>, Seq<Seq<char>>), Seq<char>> {
    match r {
        Ok(sp) => Ok((sp.resolved@, sp.prefixes.deep_view())),
        Err(e) => Err(e@),
    }
}

/// Checks a model path, answering a refusal with its message.
pub fn scoped_path_from_model_arg(
    label: &str,
    local_kind: &str,
    ending: &str,
    path: &str,
    cwd: &str,
    extensions: &Vec<String>,
) -> (r: Result<ScopedPath, String>)
    ensures
        scoped_view(r) == scoped_outcome(label@, local_kind@, ending@, path@, cwd@, extensions.deep_view()),
{
    match check_scoped_path(path, cwd, extensions) {
        Ok(sp) => Ok(sp),
        Err(why) => Err(refusal_message(label, local_kind, ending, why)),
    }
}

/// The resolved path once the file system has described its prefixes, in
/// order: refused when a prefix is a symbolic link before any is missing.
pub fn finish_scoped_path(label: &str, scoped: ScopedPath, states: &Vec<PrefixState>) -> (r: Result<String, String>)
    ensures
        symlink_before_missing(states@) ==> (r matches Err(e) && e@ == label@ + " must not traverse symlinks"@),
        !symlink_before_missing(states@) ==> (r matches Ok(p) && p@ == scoped.resolved@),
{
    if traverses_symlink(states) {
        let mut m = owned(label);
        append_str(&mut m, " must not traverse symlinks");
        Err(m)
    } else {
        Ok(scoped.resolved)
    }
}

pub fn workbook_extensions() -> (r: Vec<String>)
    ensures
        r.deep_view() == seq!["xlsx"@, "xlsm"@, "xlsb"@],
{
    let r = vec![owned("xlsx"), owned("xlsm"), owned("xlsb")];
    assert(r.deep_view() =~= seq!["xlsx"@, "xlsm"@, "xlsb"@]);
    r
}

/// Whether a path reads, on its own, as one with no prefix, no root and no
/// parent component.
pub open spec fn reads_relative(path: Seq<char>) -> bool {
    !(exists|i: int| 0 <= i < path_parts_of(path).len() && leaves_scope_part(#[trigger] path_parts_of(path)[i]))
}

proof fn lemma_prefixes_extend(cwd: Seq<char>, segs: Seq<Seq<char>>, k: nat)
    requires
        k <= segs.len(),
        forall|i: int| 0 <= i < segs.len() ==> reads_relative(#[trigger] segs[i]),
        forall|base: Seq<char>, seg: Seq<char>|
            reads_relative(seg) ==> (#[trigger] path_joined_of(base, seg)).len() >= base.len()
                && path_joined_of(base, seg).take(base.len() as int) == base,
    ensures
        prefix_fold(cwd, segs, k).len() == k,
        forall|i: int|
            0 <= i < k ==> (#[trigger] prefix_fold(cwd, segs, k)[i]).len() >= cwd.len()
                && prefix_fold(cwd, segs, k)[i].take(cwd.len() as int) == cwd,
    decreases k,
{
    if k > 0 {
        lemma_prefixes_extend(cwd, segs, (k - 1) as nat);
        let prev = prefix_fold(cwd, segs, (k - 1) as nat);
        let base = if k == 1 { cwd } else { prev.last() };
        assert(reads_relative(segs[k - 1]));
        let next = path_joined_of(base, segs[k - 1]);
        if k > 1 {
            assert(next.take(cwd.len() as int) =~= base.take(cwd.len() as int));
        }
    }
}

/// A path a model hands over is only accepted when it is local, has no
/// prefix or root and names no parent, and has one of the allowed
/// extensions; it then resolves to the working directory joined with it,
/// one prefix is checked for symbolic links per named component, and,
/// on a platform where joining such a path keeps the text joined onto in
/// front (an assumption about `Path::join` that is not proved here), the
/// resolved path and every prefix lie inside the working directory.
pub proof fn law_accepted_paths_stay_in_scope(
    label: Seq<char>,
    local_kind: Seq<char>,
    ending: Seq<char>,
    path: Seq<char>,
    cwd: Seq<char>,
    extensions: Seq<Seq<char>>,
)
    requires
        forall|base: Seq<char>, seg: Seq<char>|
            reads_relative(seg) ==> (#[trigger] path_joined_of(base, seg)).len() >= base.len()
                && path_joined_of(base, seg).take(base.len() as int) == base,
        forall|i: int|
            0 <= i < normal_segments(path_parts_of(trim_seq(path))).len() ==> reads_relative(
                #[trigger] normal_segments(path_parts_of(trim_seq(path)))[i],
            ),
    ensures
        scoped_outcome(label, local_kind, ending, path, cwd, extensions) matches Ok((resolved, prefixes)) ==> {
            let t = trim_seq(path);
            &&& t.len() > 0
            &&& !t.contains('\0')
            &&& !contains_seq(t, "://"@)
            &&& !leaves_scope(t)
            &&& extension_spec(t) matches Some(e) && extensions.contains(lower_seq(e))
            &&& resolved == path_joined_of(cwd, t)
            &&& resolved.take(cwd.len() as int) == cwd
            &&& prefixes.len() == normal_segments(path_parts_of(t)).len()
            &&& forall|i: int|
                0 <= i < prefixes.len() ==> (#[trigger] prefixes[i]).take(cwd.len() as int) == cwd
        },
{
    let t = trim_seq(path);
    let segs = normal_segments(path_parts_of(t));
    lemma_prefixes_extend(cwd, segs, segs.len());
    if !leaves_scope(t) {
        assert(reads_relative(t)) by {
            if !reads_relative(t) {
                let i = choose|i: int| 0 <= i < path_parts_of(t).len() && leaves_scope_part(#[trigger] path_parts_of(t)[i]);
                assert(leaves_scope_part(path_parts_of(t)[i]));
            }
        }
    }
}

} // verus!
