//! Package-part paths of a workbook's external links: relationship part
//! names, relationship targets resolved against their source part, and the
//! bounded warning list of an inventory.
use vstd::prelude::*;
use quick_xml::events::Event;
use crate::text::{
    chars_of, push_char, string_of, owned, append_str, lower_seq, contains_seq, starts_with,
    contains_str, starts_with_str, eq_ignore_ascii_case, same_text, ends_with, ends_with_str,
    decimal, decimal_string, string_of_range,
};
use crate::vba_onlyoffice_analyze::opt_view;
use crate::vba_extract::{zip_entry_contents_of, zip_entry_read, zip_entry_size, zip_entry_size_of, zip_open_error, zip_open_error_of};
use crate::sorted_text::{lemma_text_lt_irreflexive, lemma_text_lt_transitive, text_less, text_lt};
use crate::tool::WorkbookFormat;

verus! {

pub const MAX_WARNINGS: usize = 32;

/// A relationship of a package part.
#[derive(Debug, Clone, PartialEq, Eq)]
pub struct Relationship {
    pub id: String,
    pub target: String,
    pub target_mode: Option<String>,
    pub relationship_type: String,
}

/// Pushes `warning` unless the list is full or already holds it.
pub open spec fn push_warning_spec(warnings: Seq<Seq<char>>, warning: Seq<char>) -> Seq<Seq<char>> {
    if warnings.len() < MAX_WARNINGS && !warnings.contains(warning) {
        warnings.push(warning)
    } else {
        warnings
    }
}

/// Pushing a warning keeps an inventory's warning list clean: what was
/// there stays, in order; the list never holds more than 32 warnings nor
/// the same warning twice; and the warning is in it afterwards unless the
/// list was already full.
pub proof fn law_push_warning_keeps_list_clean(warnings: Seq<Seq<char>>, warning: Seq<char>)
    requires
        warnings.len() <= MAX_WARNINGS,
        warnings.no_duplicates(),
    ensures
        push_warning_spec(warnings, warning).len() <= MAX_WARNINGS,
        push_warning_spec(warnings, warning).no_duplicates(),
        push_warning_spec(warnings, warning).take(warnings.len() as int) == warnings,
        warnings.len() < MAX_WARNINGS ==> push_warning_spec(warnings, warning).contains(warning),
{
    let r = push_warning_spec(warnings, warning);
    assert(r.take(warnings.len() as int) =~= warnings);
    if warnings.len() < MAX_WARNINGS && !warnings.contains(warning) {
        assert(r[warnings.len() as int] == warning);
        assert forall|i: int, j: int| 0 <= i < r.len() && 0 <= j < r.len() && i != j implies r[i] != r[j] by {
            if i == warnings.len() {
                assert(warnings[j] == r[j]);
            } else if j == warnings.len() {
                assert(warnings[i] == r[i]);
            } else {
                assert(warnings[i] == r[i] && warnings[j] == r[j]);
            }
        }
        assert(r.contains(warning));
    }
}

pub fn push_warning(warnings: &mut Vec<String>, warning: String)
    ensures
        final(warnings).deep_view() == push_warning_spec(old(warnings).deep_view(), warning@),
{
    if warnings.len() >= MAX_WARNINGS {
        return;
    }
    let ghost wv = warnings.deep_view();
    let mut i: usize = 0;
    while i < warnings.len()
        invariant
            wv == warnings.deep_view(),
            i <= wv.len(),
            forall|j: int| 0 <= j < i ==> wv[j] != warning@,
        decreases wv.len() - i,
    {
        assert(warnings@[i as int]@ == wv[i as int]);
        if same_text(warnings[i].as_str(), warning.as_str()) {
            assert(wv.contains(warning@)) by {
                assert(wv[i as int] == warning@);
            }
            return;
        }
        i += 1;
    }
    let ghost wview = warning@;
    warnings.push(warning);
    assert(warnings.deep_view() =~= wv.push(wview));
}

/// `s` split at `/` after `k` characters: the finished pieces (empty pieces
/// and `.` dropped, as path components drop them) and the current piece.
pub open spec fn components_fold(s: Seq<char>, k: nat) -> (Seq<Seq<char>>, Seq<char>)
    decreases k,
{
    if k == 0 {
        (Seq::empty(), Seq::empty())
    } else {
        let prev = components_fold(s, (k - 1) as nat);
        if s[k - 1] == '/' {
            (keep_component(prev.0, prev.1), Seq::empty())
        } else {
            (prev.0, prev.1.push(s[k - 1]))
        }
    }
}

pub open spec fn keep_component(done: Seq<Seq<char>>, piece: Seq<char>) -> Seq<Seq<char>> {
    if piece.len() == 0 || piece == seq!['.'] {
        done
    } else {
        done.push(piece)
    }
}

/// The named components of a `/`-separated path, in order (`..` kept).
pub open spec fn path_components(s: Seq<char>) -> Seq<Seq<char>> {
    let st = components_fold(s, s.len());
    keep_component(st.0, st.1)
}

pub open spec fn is_rooted(s: Seq<char>) -> bool {
    s.len() > 0 && s[0] == '/'
}

/// The components after resolving each `..` against the one before it.
pub open spec fn resolve_components(comps: Seq<Seq<char>>) -> Seq<Seq<char>>
    decreases comps.len(),
{
    if comps.len() == 0 {
        Seq::empty()
    } else {
        let prev = resolve_components(comps.drop_last());
        if comps.last() == seq!['.', '.'] {
            if prev.len() > 0 {
                prev.drop_last()
            } else {
                prev
            }
        } else {
            prev.push(comps.last())
        }
    }
}

pub open spec fn join_components(comps: Seq<Seq<char>>) -> Seq<char>
    decreases comps.len(),
{
    if comps.len() == 0 {
        Seq::empty()
    } else if comps.len() == 1 {
        comps[0]
    } else {
        join_components(comps.drop_last()) + seq!['/'] + comps.last()
    }
}

/// Every backslash turned into a slash.
pub open spec fn slashes(s: Seq<char>) -> Seq<char> {
    s.map_values(|c: char| if c == '\\' { '/' } else { c })
}

/// A path written from its components, with a leading `/` when rooted.
pub open spec fn render_path(rooted: bool, comps: Seq<Seq<char>>) -> Seq<char> {
    slashes(
        if rooted {
            seq!['/'] + join_components(comps)
        } else {
            join_components(comps)
        },
    )
}

/// A path with `.` and `..` components resolved and backslashes turned into slashes.
pub open spec fn normalize_path_spec(path: Seq<char>) -> Seq<char> {
    render_path(is_rooted(path), resolve_components(path_components(path)))
}

pub(crate) fn split_components(path: &str) -> (r: Vec<String>)
    ensures
        r.deep_view() == path_components(path@),
{
    let v = chars_of(path);
    let mut done: Vec<String> = Vec::new();
    let mut cur: Vec<char> = Vec::new();
    let mut i: usize = 0;
    while i < v.len()
        invariant
            v@ == path@,
            i <= v@.len(),
            (done.deep_view(), cur@) == components_fold(v@, i as nat),
        decreases v@.len() - i,
    {
        if v[i] == '/' {
            let piece = string_of(&cur);
            if !(cur.len() == 0 || (cur.len() == 1 && cur[0] == '.')) {
                let ghost before = done.deep_view();
                done.push(piece);
                assert(done.deep_view() =~= before.push(cur@));
            } else {
                assert(cur@.len() == 0 || cur@ =~= seq!['.']);
            }
            cur = Vec::new();
            assert(cur@ =~= Seq::<char>::empty());
        } else {
            cur.push(v[i]);
        }
        i += 1;
    }
    let piece = string_of(&cur);
    if !(cur.len() == 0 || (cur.len() == 1 && cur[0] == '.')) {
        let ghost before = done.deep_view();
        done.push(piece);
        assert(done.deep_view() =~= before.push(cur@));
    } else {
        assert(cur@.len() == 0 || cur@ =~= seq!['.']);
    }
    done
}

fn resolve_all(comps: Vec<String>) -> (r: Vec<String>)
    ensures
        r.deep_view() == resolve_components(comps.deep_view()),
{
    let ghost cv = comps.deep_view();
    let mut out: Vec<String> = Vec::new();
    let mut i: usize = 0;
    while i < comps.len()
        invariant
            cv == comps.deep_view(),
            i <= cv.len(),
            out.deep_view() == resolve_components(cv.take(i as int)),
        decreases cv.len() - i,
    {
        assert(cv.take(i + 1).drop_last() =~= cv.take(i as int));
        assert(comps@[i as int]@ == cv[i as int]);
        assert(cv.take(i + 1).last() == cv[i as int]);
        let c = comps[i].as_str();
        let ghost before = out.deep_view();
        proof {
            reveal_strlit("..");
            assert(".."@ =~= seq!['.', '.']);
        }
        if same_text(c, "..") {
            if out.len() > 0 {
                out.pop();
                assert(out.deep_view() =~= before.drop_last());
            }
        } else {
            out.push(owned(c));
            assert(out.deep_view() =~= before.push(cv[i as int]));
        }
        i += 1;
    }
    assert(cv.take(cv.len() as int) =~= cv);
    out
}

fn render(rooted: bool, comps: &Vec<String>) -> (r: String)
    ensures
        r@ == render_path(rooted, comps.deep_view()),
{
    let ghost cv = comps.deep_view();
    let mut joined = String::new();
    let mut i: usize = 0;
    while i < comps.len()
        invariant
            cv == comps.deep_view(),
            i <= cv.len(),
            joined@ == join_components(cv.take(i as int)),
        decreases cv.len() - i,
    {
        assert(cv.take(i + 1).drop_last() =~= cv.take(i as int));
        assert(comps@[i as int]@ == cv[i as int]);
        if i > 0 {
            push_char(&mut joined, '/');
        }
        append_str(&mut joined, comps[i].as_str());
        assert(joined@ =~= join_components(cv.take(i + 1)));
        i += 1;
    }
    assert(cv.take(cv.len() as int) =~= cv);
    let mut text = String::new();
    if rooted {
        push_char(&mut text, '/');
    }
    append_str(&mut text, joined.as_str());
    let ghost raw = text@;
    let v = chars_of(text.as_str());
    let mut out = String::new();
    let mut k: usize = 0;
    while k < v.len()
        invariant
            v@ == raw,
            k <= v@.len(),
            out@ == slashes(raw.take(k as int)),
        decreases v@.len() - k,
    {
        if v[k] == '\\' {
            push_char(&mut out, '/');
        } else {
            push_char(&mut out, v[k]);
        }
        assert(slashes(raw.take(k + 1)) =~= slashes(raw.take(k as int)).push(
            if raw[k as int] == '\\' { '/' } else { raw[k as int] },
        ));
        k += 1;
    }
    assert(raw.take(raw.len() as int) =~= raw);
    assert(raw =~= if rooted { seq!['/'] + join_components(cv) } else { join_components(cv) });
    out
}

pub fn normalize_path(path: &str) -> (r: String)
    ensures
        r@ == normalize_path_spec(path@),
{
    let rooted = starts_with_str(path, "/");
    proof {
        reveal_strlit("/");
        assert("/"@ =~= seq!['/']);
        assert(rooted == starts_with(path@, "/"@));
        if rooted {
            assert(path@.take(1) == seq!['/']);
            assert(path@.take(1)[0] == path@[0]);
        }
        if path@.len() > 0 {
            assert(path@.take(1) =~= seq![path@[0]]);
        }
    }
    assert(rooted == is_rooted(path@));
    let comps = split_components(path);
    let resolved = resolve_all(comps);
    render(rooted, &resolved)
}


/// The last component, unless it is `..` (what `Path::file_name` gives).
pub open spec fn file_name_of(comps: Seq<Seq<char>>) -> Seq<char> {
    if comps.len() > 0 && comps.last() != seq!['.', '.'] {
        comps.last()
    } else {
        Seq::empty()
    }
}

pub open spec fn parent_components(comps: Seq<Seq<char>>) -> Seq<Seq<char>> {
    if comps.len() > 0 {
        comps.drop_last()
    } else {
        comps
    }
}

/// The relationships part that belongs to a package part:
/// `<dir>/_rels/<file>.rels`.
pub open spec fn external_link_rels_path_spec(part_path: Seq<char>) -> Seq<char> {
    let comps = path_components(part_path);
    render_path(
        is_rooted(part_path),
        resolve_components(
            parent_components(comps).push("_rels"@).push(file_name_of(comps) + ".rels"@),
        ),
    )
}

fn parent_of(comps: &mut Vec<String>)
    ensures
        final(comps).deep_view() == parent_components(old(comps).deep_view()),
{
    if comps.len() > 0 {
        let ghost before = comps.deep_view();
        comps.pop();
        assert(comps.deep_view() =~= before.drop_last());
    }
}

pub fn external_link_rels_path(part_path: &str) -> (r: String)
    ensures
        r@ == external_link_rels_path_spec(part_path@),
{
    let rooted = starts_with_str(part_path, "/");
    proof {
        reveal_strlit("/");
        assert("/"@ =~= seq!['/']);
        if rooted {
            assert(part_path@.take(1) == seq!['/']);
            assert(part_path@.take(1)[0] == part_path@[0]);
        }
        if part_path@.len() > 0 {
            assert(part_path@.take(1) =~= seq![part_path@[0]]);
        }
    }
    let mut comps = split_components(part_path);
    let ghost cv = comps.deep_view();
    let mut file_name = String::new();
    if comps.len() > 0 {
        let last = comps.len() - 1;
        assert(comps@[last as int]@ == cv.last());
        proof {
            reveal_strlit("..");
            assert(".."@ =~= seq!['.', '.']);
        }
        if !same_text(comps[last].as_str(), "..") {
            file_name = comps[last].clone();
        }
    }
    assert(file_name@ == file_name_of(cv));
    parent_of(&mut comps);
    comps.push(owned("_rels"));
    append_str(&mut file_name, ".rels");
    comps.push(file_name);
    assert(comps.deep_view() =~= parent_components(cv).push("_rels"@).push(file_name_of(cv) + ".rels"@));
    let resolved = resolve_all(comps);
    render(rooted, &resolved)
}

/// A relationship target resolved against the directory of its source part;
/// a target that starts with `/` is taken from the package root.
pub open spec fn normalize_part_path_spec(base_part: Seq<char>, target: Seq<char>) -> Seq<char> {
    let from_root = is_rooted(target);
    let start = if from_root {
        Seq::empty()
    } else {
        parent_components(path_components(base_part))
    };
    render_path(
        from_root || is_rooted(base_part),
        resolve_components(start + path_components(target)),
    )
}

fn rooted_text(s: &str) -> (r: bool)
    ensures
        r == is_rooted(s@),
{
    let v = chars_of(s);
    v.len() > 0 && v[0] == '/'
}

pub fn normalize_part_path(base_part: &str, target: &str) -> (r: String)
    ensures
        r@ == normalize_part_path_spec(base_part@, target@),
{
    let from_root = rooted_text(target);
    let mut comps: Vec<String> = Vec::new();
    if !from_root {
        comps = split_components(base_part);
        parent_of(&mut comps);
    }
    let ghost start = comps.deep_view();
    let mut tail = split_components(target);
    let ghost tv = tail.deep_view();
    comps.append(&mut tail);
    assert(comps.deep_view() =~= start + tv);
    let resolved = resolve_all(comps);
    let rooted = from_root || rooted_text(base_part);
    render(rooted, &resolved)
}

/// `name` without leading `./` prefixes.
pub open spec fn trim_dot_slash(s: Seq<char>) -> Seq<char>
    decreases s.len(),
{
    if s.len() >= 2 && s[0] == '.' && s[1] == '/' {
        trim_dot_slash(s.skip(2))
    } else {
        s
    }
}

pub open spec fn normalize_part_name_spec(name: Seq<char>) -> Seq<char> {
    slashes(trim_dot_slash(name))
}

pub fn normalize_part_name(name: &str) -> (r: String)
    ensures
        r@ == normalize_part_name_spec(name@),
{
    let v = chars_of(name);
    let mut i: usize = 0;
    assert(v@.skip(0) =~= v@);
    while i < v.len() && v.len() - i >= 2 && v[i] == '.' && v[i + 1] == '/'
        invariant
            v@ == name@,
            i <= v@.len(),
            trim_dot_slash(v@) == trim_dot_slash(v@.skip(i as int)),
        decreases v@.len() - i,
    {
        assert(v@.skip(i as int).skip(2) =~= v@.skip(i + 2));
        i += 2;
    }
    let ghost rest = v@.skip(i as int);
    assert(trim_dot_slash(rest) == rest);
    let mut out = String::new();
    let mut k: usize = i;
    while k < v.len()
        invariant
            v@ == name@,
            i <= k <= v@.len(),
            rest == v@.skip(i as int),
            out@ == slashes(rest.take(k - i)),
        decreases v@.len() - k,
    {
        if v[k] == '\\' {
            push_char(&mut out, '/');
        } else {
            push_char(&mut out, v[k]);
        }
        assert(rest.take(k + 1 - i) =~= rest.take(k - i).push(v@[k as int]));
        assert(slashes(rest.take(k + 1 - i)) =~= slashes(rest.take(k - i)).push(
            if v@[k as int] == '\\' { '/' } else { v@[k as int] },
        ));
        k += 1;
    }
    assert(rest.take(k - i) =~= rest);
    out
}

pub open spec fn relationship_is_external(target: Seq<char>, target_mode: Option<Seq<char>>) -> bool {
    (target_mode matches Some(m) && lower_seq(m) == lower_seq("External"@)) || contains_seq(target, "://"@)
        || starts_with(target, "file:"@)
}

/// An external target as written; a package-internal one resolved against its source part.
pub open spec fn normalize_relationship_target_spec(base_part: Seq<char>, target: Seq<char>, target_mode: Option<Seq<char>>) -> Seq<char> {
    if relationship_is_external(target, target_mode) {
        target
    } else {
        normalize_part_path_spec(base_part, target)
    }
}

pub open spec fn mode_view(m: Option<String>) -> Option<Seq<char>> {
    match m {
        Some(s) => Some(s@),
        None => None,
    }
}

pub fn normalize_relationship_target(base_part: &str, relationship: &Relationship) -> (r: String)
    ensures
        r@ == normalize_relationship_target_spec(
            base_part@,
            relationship.target@,
            mode_view(relationship.target_mode),
        ),
{
    let external_mode = match &relationship.target_mode {
        Some(mode) => eq_ignore_ascii_case(mode.as_str(), "External"),
        None => false,
    };
    if external_mode || contains_str(relationship.target.as_str(), "://") || starts_with_str(
        relationship.target.as_str(),
        "file:",
    ) {
        return relationship.target.clone();
    }
    normalize_part_path(base_part, relationship.target.as_str())
}

// ---------------------------------------------------------------------------
// Reading the XML parts of the package

/// One event of an XML document: a start or empty tag with its name and the
/// raw text of its attributes, any other event, or a read that failed.
#[derive(Debug, Clone, PartialEq, Eq)]
pub enum XmlItem {
    Tag { name: String, attributes: String },
    Other,
    Failed { message: String },
}

pub enum XmlItemModel {
    Tag { name: Seq<char>, attributes: Seq<char> },
    Other,
    Failed { message: Seq<char> },
}

impl View for XmlItem {
    type V = XmlItemModel;

    open spec fn view(&self) -> XmlItemModel {
        match self {
            XmlItem::Tag { name, attributes } => XmlItemModel::Tag { name: name@, attributes: attributes@ },
            XmlItem::Other => XmlItemModel::Other,
            XmlItem::Failed { message } => XmlItemModel::Failed { message: message@ },
        }
    }
}

pub open spec fn items_view(v: Seq<XmlItem>) -> Seq<XmlItemModel> {
    v.map_values(|x: XmlItem| x@)
}

/// The events that `quick_xml::Reader` reads from a document (text
/// trimmed), up to its end or to the first read error, which is the last item.
pub uninterp spec fn xml_items_of(xml: Seq<char>) -> Seq<XmlItemModel>;

/// The attributes that quick-xml parses from the raw attribute text of a
/// tag, names and unescaped values in order, or the text of the first error.
pub uninterp spec fn xml_attributes_of(raw: Seq<char>) -> Result<Seq<(Seq<char>, Seq<char>)>, Seq<char>>;

/// Reads `xml` with `quick_xml::Reader::from_str`, text trimmed, calling
/// `read_event` until the end of the document or the first error: each
/// start or empty tag becomes its name and raw attribute text, any other
/// event `Other`, and an error its display text, which ends the list.
#[verifier::external_body]
fn xml_items(xml: &str) -> (r: Vec<XmlItem>)
    ensures
        items_view(r@) == xml_items_of(xml@),
{
    let mut reader = quick_xml::Reader::from_str(xml);
    reader.config_mut().trim_text(true);
    let mut items = Vec::new();
    loop {
        match reader.read_event() {
            Ok(Event::Start(e)) | Ok(Event::Empty(e)) => items.push(XmlItem::Tag { name: e.name().0.to_string(), attributes: e.attributes_raw().to_string() }),
            Ok(Event::Eof) => return items,
            Ok(_) => items.push(XmlItem::Other),
            Err(err) => {
                items.push(XmlItem::Failed { message: err.to_string() });
                return items;
            },
        }
    }
}

pub open spec fn pairs_view(v: Seq<(String, String)>) -> Seq<(Seq<char>, Seq<char>)> {
    v.map_values(|p: (String, String)| (p.0@, p.1@))
}

pub open spec fn attrs_view(r: Result<Vec<(String, String)>, String>) -> Result<Seq<(Seq<char>, Seq<char>)>, Seq<char>> {
    match r {
        Ok(v) => Ok(pairs_view(v@)),
        Err(e) => Err(e@),
    }
}

/// Parses raw attribute text with quick-xml (`BytesStart::from_content`,
/// then `attributes` and `unescape_value` on each): the names and values,
/// or the display text of the first error.
#[verifier::external_body]
fn xml_attributes(raw: &str) -> (r: Result<Vec<(String, String)>, String>)
    ensures
        attrs_view(r) == xml_attributes_of(raw@),
{
    let tag = quick_xml::events::BytesStart::from_content(raw, 0);
    let mut out = Vec::new();
    for attribute in tag.attributes() {
        let attribute = attribute.map_err(|err| err.to_string())?;
        #[allow(deprecated)]
        let value = attribute.unescape_value().map_err(|err| err.to_string())?;
        out.push((attribute.key.0.to_string(), value.into_owned()));
    }
    Ok(out)
}

/// The value of the first attribute named `key` from index `i` on.
pub open spec fn attr_from(attrs: Seq<(Seq<char>, Seq<char>)>, key: Seq<char>, i: int) -> Option<Seq<char>>
    decreases attrs.len() - i,
{
    if i < 0 || i >= attrs.len() {
        None
    } else if attrs[i].0 == key {
        Some(attrs[i].1)
    } else {
        attr_from(attrs, key, i + 1)
    }
}

fn attr_value(attrs: &Vec<(String, String)>, key: &str) -> (r: Option<String>)
    ensures
        opt_view(r) == attr_from(pairs_view(attrs@), key@, 0),
{
    let ghost av = pairs_view(attrs@);
    let mut i: usize = 0;
    while i < attrs.len()
        invariant
            av == pairs_view(attrs@),
            i <= av.len(),
            attr_from(av, key@, 0) == attr_from(av, key@, i as int),
        decreases av.len() - i,
    {
        assert(av[i as int] == (attrs@[i as int].0@, attrs@[i as int].1@));
        if same_text(attrs[i].0.as_str(), key) {
            return Some(attrs[i].1.clone());
        }
        i += 1;
    }
    None
}

pub struct RelModel {
    pub id: Seq<char>,
    pub target: Seq<char>,
    pub target_mode: Option<Seq<char>>,
    pub relationship_type: Seq<char>,
}

impl View for Relationship {
    type V = RelModel;

    open spec fn view(&self) -> RelModel {
        RelModel {
            id: self.id@,
            target: self.target@,
            target_mode: mode_view(self.target_mode),
            relationship_type: self.relationship_type@,
        }
    }
}

pub open spec fn rels_view(v: Seq<Relationship>) -> Seq<RelModel> {
    v.map_values(|r: Relationship| r@)
}

pub open spec fn or_empty(o: Option<Seq<char>>) -> Seq<char> {
    match o {
        Some(s) => s,
        None => Seq::empty(),
    }
}

/// The relationship that a `Relationship` tag's attributes describe.
pub open spec fn relationship_of(a: Seq<(Seq<char>, Seq<char>)>) -> RelModel {
    RelModel {
        id: or_empty(attr_from(a, "Id"@, 0)),
        target: or_empty(attr_from(a, "Target"@, 0)),
        target_mode: attr_from(a, "TargetMode"@, 0),
        relationship_type: or_empty(attr_from(a, "Type"@, 0)),
    }
}

pub open spec fn relationships_error(message: Seq<char>) -> Seq<char> {
    "failed to parse workbook relationships: "@ + message
}

/// The relationships among the first `k` events, or the first error.
pub open spec fn relationships_fold(items: Seq<XmlItemModel>, k: nat) -> Result<Seq<RelModel>, Seq<char>>
    decreases k,
{
    if k == 0 || k > items.len() {
        Ok(Seq::empty())
    } else {
        match relationships_fold(items, (k - 1) as nat) {
            Err(e) => Err(e),
            Ok(rels) => match items[k - 1] {
                XmlItemModel::Tag { name, attributes } => if name == "Relationship"@ {
                    match xml_attributes_of(attributes) {
                        Err(e) => Err(relationships_error(e)),
                        Ok(a) => Ok(rels.push(relationship_of(a))),
                    }
                } else {
                    Ok(rels)
                },
                XmlItemModel::Failed { message } => Err(relationships_error(message)),
                XmlItemModel::Other => Ok(rels),
            },
        }
    }
}

pub open spec fn parse_relationships_spec(xml: Seq<char>) -> Result<Seq<RelModel>, Seq<char>> {
    relationships_fold(xml_items_of(xml), xml_items_of(xml).len())
}

pub open spec fn rels_result_view(r: Result<Vec<Relationship>, String>) -> Result<Seq<RelModel>, Seq<char>> {
    match r {
        Ok(v) => Ok(rels_view(v@)),
        Err(e) => Err(e@),
    }
}

fn failure(prefix: &str, message: &str) -> (r: String)
    ensures
        r@ == prefix@ + message@,
{
    let mut m = owned(prefix);
    append_str(&mut m, message);
    m
}

/// The `Relationship` entries of a relationships part.
pub fn parse_relationships(xml: &str) -> (r: Result<Vec<Relationship>, String>)
    ensures
        rels_result_view(r) == parse_relationships_spec(xml@),
{
    let items = xml_items(xml);
    let ghost iv = items_view(items@);
    let mut rels: Vec<Relationship> = Vec::new();
    assert(rels_view(rels@) =~= Seq::<RelModel>::empty());
    let mut i: usize = 0;
    proof {
        reveal_strlit("Relationship");
        reveal_strlit("Id");
        reveal_strlit("Target");
        reveal_strlit("TargetMode");
        reveal_strlit("Type");
    }
    while i < items.len()
        invariant
            iv == items_view(items@),
            iv == xml_items_of(xml@),
            i <= iv.len(),
            relationships_fold(iv, i as nat) == Ok::<Seq<RelModel>, Seq<char>>(rels_view(rels@)),
        decreases iv.len() - i,
    {
        assert(iv[i as int] == items@[i as int]@);
        match &items[i] {
            XmlItem::Tag { name, attributes } => {
                if same_text(name.as_str(), "Relationship") {
                    match xml_attributes(attributes.as_str()) {
                        Err(e) => {
                            let m = failure("failed to parse workbook relationships: ", e.as_str());
                            proof {
                                lemma_relationships_fold_err(iv, (i + 1) as nat);
                            }
                            return Err(m);
                        },
                        Ok(a) => {
                            let rel = Relationship {
                                id: match attr_value(&a, "Id") {
                                    Some(v) => v,
                                    None => String::new(),
                                },
                                target: match attr_value(&a, "Target") {
                                    Some(v) => v,
                                    None => String::new(),
                                },
                                target_mode: attr_value(&a, "TargetMode"),
                                relationship_type: match attr_value(&a, "Type") {
                                    Some(v) => v,
                                    None => String::new(),
                                },
                            };
                            assert(rel@ == relationship_of(pairs_view(a@)));
                            let ghost before = rels_view(rels@);
                            rels.push(rel);
                            assert(rels_view(rels@) =~= before.push(relationship_of(pairs_view(a@))));
                        },
                    }
                }
            },
            XmlItem::Other => {},
            XmlItem::Failed { message } => {
                let m = failure("failed to parse workbook relationships: ", message.as_str());
                proof {
                    lemma_relationships_fold_err(iv, (i + 1) as nat);
                }
                return Err(m);
            },
        }
        i += 1;
    }
    Ok(rels)
}

/// Once the fold fails it stays failed with the same error.
proof fn lemma_relationships_fold_err(items: Seq<XmlItemModel>, k: nat)
    requires
        k <= items.len(),
        relationships_fold(items, k) is Err,
    ensures
        relationships_fold(items, items.len()) == relationships_fold(items, k),
    decreases items.len() - k,
{
    if k < items.len() {
        lemma_relationships_fold_err(items, k + 1);
    }
}

/// What an external-link part describes.
#[derive(Debug, Clone, PartialEq, Eq)]
pub struct ExternalLinkDetail {
    pub kind: String,
    pub relationship_id: Option<String>,
}

pub struct DetailModel {
    pub kind: Seq<char>,
    pub relationship_id: Option<Seq<char>>,
}

impl View for ExternalLinkDetail {
    type V = DetailModel;

    open spec fn view(&self) -> DetailModel {
        DetailModel { kind: self.kind@, relationship_id: opt_view(self.relationship_id) }
    }
}

pub open spec fn detail_error(part_path: Seq<char>, message: Seq<char>) -> Seq<char> {
    "failed to parse external-link part "@ + part_path + ": "@ + message
}

pub open spec fn plain_detail(kind: Seq<char>) -> DetailModel {
    DetailModel { kind, relationship_id: None }
}

/// The detail given by the first `externalBook`, `ddeLink` or `oleLink` tag
/// from event `i` on (`unknown` when there is none), or the first error.
pub open spec fn detail_from(items: Seq<XmlItemModel>, part_path: Seq<char>, i: int) -> Result<DetailModel, Seq<char>>
    decreases items.len() - i,
{
    if i < 0 || i >= items.len() {
        Ok(plain_detail("unknown"@))
    } else {
        match items[i] {
            XmlItemModel::Tag { name, attributes } => if name == "externalBook"@ {
                match xml_attributes_of(attributes) {
                    Err(e) => Err(detail_error(part_path, e)),
                    Ok(a) => Ok(
                        DetailModel {
                            kind: "external_book"@,
                            relationship_id: match attr_from(a, "r:id"@, 0) {
                                Some(v) => Some(v),
                                None => attr_from(a, "id"@, 0),
                            },
                        },
                    ),
                }
            } else if name == "ddeLink"@ {
                Ok(plain_detail("dde_link"@))
            } else if name == "oleLink"@ {
                Ok(plain_detail("ole_link"@))
            } else {
                detail_from(items, part_path, i + 1)
            },
            XmlItemModel::Failed { message } => Err(detail_error(part_path, message)),
            XmlItemModel::Other => detail_from(items, part_path, i + 1),
        }
    }
}

pub open spec fn detail_spec(xml: Seq<char>, part_path: Seq<char>) -> Result<DetailModel, Seq<char>> {
    detail_from(xml_items_of(xml), part_path, 0)
}

pub open spec fn detail_result_view(r: Result<ExternalLinkDetail, String>) -> Result<DetailModel, Seq<char>> {
    match r {
        Ok(d) => Ok(d@),
        Err(e) => Err(e@),
    }
}

fn plain(kind: &str) -> (r: ExternalLinkDetail)
    ensures
        r@ == plain_detail(kind@),
{
    ExternalLinkDetail { kind: owned(kind), relationship_id: None }
}

/// The kind of link that an external-link part describes.
pub fn parse_external_link_detail(xml: &str, part_path: &str) -> (r: Result<ExternalLinkDetail, String>)
    ensures
        detail_result_view(r) == detail_spec(xml@, part_path@),
{
    let items = xml_items(xml);
    let ghost iv = items_view(items@);
    let mut i: usize = 0;
    proof {
        reveal_strlit("externalBook");
        reveal_strlit("ddeLink");
        reveal_strlit("oleLink");
        reveal_strlit("external_book");
        reveal_strlit("dde_link");
        reveal_strlit("ole_link");
        reveal_strlit("unknown");
        reveal_strlit("r:id");
        reveal_strlit("id");
    }
    while i < items.len()
        invariant
            iv == items_view(items@),
            iv == xml_items_of(xml@),
            i <= iv.len(),
            detail_spec(xml@, part_path@) == detail_from(iv, part_path@, i as int),
        decreases iv.len() - i,
    {
        assert(iv[i as int] == items@[i as int]@);
        match &items[i] {
            XmlItem::Tag { name, attributes } => {
                if same_text(name.as_str(), "externalBook") {
                    return match xml_attributes(attributes.as_str()) {
                        Err(e) => {
                            let mut m = owned("failed to parse external-link part ");
                            append_str(&mut m, part_path);
                            append_str(&mut m, ": ");
                            append_str(&mut m, e.as_str());
                            Err(m)
                        },
                        Ok(a) => {
                            let relationship_id = match attr_value(&a, "r:id") {
                                Some(v) => Some(v),
                                None => attr_value(&a, "id"),
                            };
                            Ok(ExternalLinkDetail { kind: owned("external_book"), relationship_id })
                        },
                    };
                } else if same_text(name.as_str(), "ddeLink") {
                    return Ok(plain("dde_link"));
                } else if same_text(name.as_str(), "oleLink") {
                    return Ok(plain("ole_link"));
                }
            },
            XmlItem::Other => {},
            XmlItem::Failed { message } => {
                let mut m = owned("failed to parse external-link part ");
                append_str(&mut m, part_path);
                append_str(&mut m, ": ");
                append_str(&mut m, message.as_str());
                return Err(m);
            },
        }
        i += 1;
    }
    Ok(plain("unknown"))
}

/// `String::from_utf8`: the text that the bytes encode, when they are valid UTF-8.
#[verifier::external_body]
fn utf8_text(bytes: Vec<u8>) -> (r: Option<String>)
    ensures
        match r {
            Some(s) => vstd::utf8::valid_utf8(bytes@) && s@ == vstd::utf8::decode_utf8(bytes@),
            None => !vstd::utf8::valid_utf8(bytes@),
        },
{
    String::from_utf8(bytes).ok()
}

/// Reading a package part as text, at most `limit` bytes of it.
pub open spec fn read_xml_entry_spec(bytes: Seq<u8>, name: Seq<char>, limit: usize) -> Result<Seq<char>, Seq<char>> {
    match zip_entry_size_of(bytes, name) {
        None => Err("workbook entry "@ + name + " is missing"@),
        Some(size) => if size > limit {
            Err("workbook entry "@ + name + " exceeds "@ + decimal(limit as nat) + " bytes"@)
        } else {
            match zip_entry_contents_of(bytes, name) {
                Err(e) => Err("failed to read workbook entry "@ + name + ": "@ + e),
                Ok(c) => if vstd::utf8::valid_utf8(c) {
                    Ok(vstd::utf8::decode_utf8(c))
                } else {
                    Err("workbook entry "@ + name + " is not valid UTF-8"@)
                },
            }
        },
    }
}

pub open spec fn text_result_view(r: Result<String, String>) -> Result<Seq<char>, Seq<char>> {
    match r {
        Ok(t) => Ok(t@),
        Err(e) => Err(e@),
    }
}

/// The text of package part `name` of the archive in `bytes`.
pub fn read_xml_entry(bytes: &Vec<u8>, name: &str, limit: usize) -> (r: Result<String, String>)
    ensures
        text_result_view(r) == read_xml_entry_spec(bytes@, name@, limit),
{
    let size = match zip_entry_size(bytes, name) {
        None => {
            let mut m = owned("workbook entry ");
            append_str(&mut m, name);
            append_str(&mut m, " is missing");
            return Err(m);
        },
        Some(size) => size,
    };
    if size > limit as u64 {
        let mut m = owned("workbook entry ");
        append_str(&mut m, name);
        append_str(&mut m, " exceeds ");
        let d = decimal_string(limit);
        append_str(&mut m, d.as_str());
        append_str(&mut m, " bytes");
        return Err(m);
    }
    match zip_entry_read(bytes, name, size as usize) {
        Err(e) => {
            let mut m = owned("failed to read workbook entry ");
            append_str(&mut m, name);
            append_str(&mut m, ": ");
            append_str(&mut m, e.as_str());
            Err(m)
        },
        Ok(contents) => match utf8_text(contents) {
            Some(t) => Ok(t),
            None => {
                let mut m = owned("workbook entry ");
                append_str(&mut m, name);
                append_str(&mut m, " is not valid UTF-8");
                Err(m)
            },
        },
    }
}

pub const MAX_EXTERNAL_LINKS: usize = 64;

/// Reading an external-link part and the detail it describes.
pub open spec fn read_detail_spec(bytes: Seq<u8>, part_path: Seq<char>) -> Result<DetailModel, Seq<char>> {
    match read_xml_entry_spec(bytes, part_path, MAX_WORKBOOK_XML_BYTES) {
        Err(e) => Err(e),
        Ok(xml) => detail_spec(xml, part_path),
    }
}

/// Reads the external-link part `part_path` of the archive in `bytes` and
/// the kind of link it describes.
pub fn read_external_link_detail(bytes: &Vec<u8>, part_path: &str) -> (r: Result<ExternalLinkDetail, String>)
    ensures
        detail_result_view(r) == read_detail_spec(bytes@, part_path@),
{
    let xml = read_xml_entry(bytes, part_path, MAX_WORKBOOK_XML_BYTES)?;
    parse_external_link_detail(xml.as_str(), part_path)
}



pub const MAX_WORKBOOK_XML_BYTES: usize = 2097152;

pub const MAX_RELATIONSHIPS_XML_BYTES: usize = 2097152;

pub const MAX_PATH_CHARS: usize = 512;

pub const MAX_KIND_CHARS: usize = 64;

/// The relationships among `rels` whose type names an external link, in order.
pub open spec fn external_link_relationships(rels: Seq<RelModel>) -> Seq<RelModel>
    decreases rels.len(),
{
    if rels.len() == 0 {
        Seq::empty()
    } else {
        let prev = external_link_relationships(rels.drop_last());
        if contains_seq(rels.last().relationship_type, "/externalLink"@) {
            prev.push(rels.last())
        } else {
            prev
        }
    }
}

pub open spec fn workbook_relationships_spec(bytes: Seq<u8>) -> Result<Seq<RelModel>, Seq<char>> {
    match read_xml_entry_spec(bytes, "xl/_rels/workbook.xml.rels"@, MAX_RELATIONSHIPS_XML_BYTES) {
        Err(e) => Err(e),
        Ok(xml) => match parse_relationships_spec(xml) {
            Err(e) => Err(e),
            Ok(rels) => Ok(external_link_relationships(rels)),
        },
    }
}

fn copy_relationship(r: &Relationship) -> (c: Relationship)
    ensures
        c@ == r@,
{
    Relationship {
        id: r.id.clone(),
        target: r.target.clone(),
        target_mode: match &r.target_mode {
            Some(m) => Some(m.clone()),
            None => None,
        },
        relationship_type: r.relationship_type.clone(),
    }
}

/// The workbook's relationships to external-link parts.
pub fn read_workbook_external_link_relationships(bytes: &Vec<u8>) -> (r: Result<Vec<Relationship>, String>)
    ensures
        rels_result_view(r) == workbook_relationships_spec(bytes@),
{
    proof {
        reveal_strlit("xl/_rels/workbook.xml.rels");
        reveal_strlit("/externalLink");
    }
    let xml = read_xml_entry(bytes, "xl/_rels/workbook.xml.rels", MAX_RELATIONSHIPS_XML_BYTES)?;
    let rels = parse_relationships(xml.as_str())?;
    let ghost rv = rels_view(rels@);
    let mut out: Vec<Relationship> = Vec::new();
    let mut i: usize = 0;
    assert(rels_view(out@) =~= external_link_relationships(rv.take(0)));
    while i < rels.len()
        invariant
            rv == rels_view(rels@),
            i <= rv.len(),
            rels_view(out@) == external_link_relationships(rv.take(i as int)),
        decreases rv.len() - i,
    {
        assert(rv.take(i + 1).drop_last() =~= rv.take(i as int));
        assert(rv[i as int] == rels@[i as int]@);
        if contains_str(rels[i].relationship_type.as_str(), "/externalLink") {
            let c = copy_relationship(&rels[i]);
            let ghost before = rels_view(out@);
            out.push(c);
            assert(rels_view(out@) =~= before.push(rv[i as int]));
        }
        i += 1;
    }
    assert(rv.take(rv.len() as int) =~= rv);
    Ok(out)
}

/// The first relationship with id `id`, from index `i` on.
pub open spec fn relationship_with_id(rels: Seq<RelModel>, id: Seq<char>, i: int) -> Option<RelModel>
    decreases rels.len() - i,
{
    if i < 0 || i >= rels.len() {
        None
    } else if rels[i].id == id {
        Some(rels[i])
    } else {
        relationship_with_id(rels, id, i + 1)
    }
}

/// Where the relationship that an external-link part names points: `None`
/// when the part names none or its relationships part cannot be read.
pub open spec fn detail_target_spec(bytes: Seq<u8>, part_path: Seq<char>, d: DetailModel) -> Result<Option<Seq<char>>, Seq<char>> {
    match d.relationship_id {
        None => Ok(None),
        Some(rid) => match read_xml_entry_spec(bytes, external_link_rels_path_spec(part_path), MAX_RELATIONSHIPS_XML_BYTES) {
            Err(_) => Ok(None),
            Ok(xml) => match parse_relationships_spec(xml) {
                Err(e) => Err(e),
                Ok(rels) => Ok(
                    match relationship_with_id(rels, rid, 0) {
                        None => None,
                        Some(r) => Some(normalize_relationship_target_spec(part_path, r.target, r.target_mode)),
                    },
                ),
            },
        },
    }
}

pub open spec fn opt_text_result_view(r: Result<Option<String>, String>) -> Result<Option<Seq<char>>, Seq<char>> {
    match r {
        Ok(o) => Ok(opt_view(o)),
        Err(e) => Err(e@),
    }
}

pub fn read_external_link_relationship_target(bytes: &Vec<u8>, part_path: &str, detail: &ExternalLinkDetail) -> (r: Result<
    Option<String>,
    String,
>)
    ensures
        opt_text_result_view(r) == detail_target_spec(bytes@, part_path@, detail@),
{
    let rid = match &detail.relationship_id {
        None => {
            return Ok(None);
        },
        Some(rid) => rid,
    };
    let rels_path = external_link_rels_path(part_path);
    let xml = match read_xml_entry(bytes, rels_path.as_str(), MAX_RELATIONSHIPS_XML_BYTES) {
        Err(_) => {
            return Ok(None);
        },
        Ok(x) => x,
    };
    let rels = parse_relationships(xml.as_str())?;
    let ghost rv = rels_view(rels@);
    assert(detail@.relationship_id == Some(rid@));
    assert(read_xml_entry_spec(bytes@, external_link_rels_path_spec(part_path@), MAX_RELATIONSHIPS_XML_BYTES) == Ok::<Seq<char>, Seq<char>>(xml@));
    assert(parse_relationships_spec(xml@) == Ok::<Seq<RelModel>, Seq<char>>(rv));
    let mut i: usize = 0;
    while i < rels.len()
        invariant
            rv == rels_view(rels@),
            parse_relationships_spec(xml@) == Ok::<Seq<RelModel>, Seq<char>>(rv),
            read_xml_entry_spec(bytes@, external_link_rels_path_spec(part_path@), MAX_RELATIONSHIPS_XML_BYTES) == Ok::<Seq<char>, Seq<char>>(xml@),
            detail@.relationship_id == Some(rid@),
            i <= rv.len(),
            relationship_with_id(rv, rid@, 0) == relationship_with_id(rv, rid@, i as int),
        decreases rv.len() - i,
    {
        assert(rv[i as int] == rels@[i as int]@);
        if same_text(rels[i].id.as_str(), rid.as_str()) {
            assert(rv[i as int].id == rid@);
            assert(relationship_with_id(rv, rid@, i as int) == Some(rv[i as int]));
            let t = normalize_relationship_target(part_path, &rels[i]);
            assert(t@ == normalize_relationship_target_spec(part_path@, rv[i as int].target, rv[i as int].target_mode));
            return Ok(Some(t));
        }
        i += 1;
    }
    Ok(None)
}

/// The name of each entry of the archive in `bytes` by index
/// (`ZipArchive::by_index`), or the error of reading that entry; empty
/// when the archive does not open.
pub uninterp spec fn zip_entry_names_of(bytes: Seq<u8>) -> Seq<Result<Seq<char>, Seq<char>>>;

pub open spec fn names_view(v: Seq<Result<String, String>>) -> Seq<Result<Seq<char>, Seq<char>>> {
    v.map_values(|r: Result<String, String>| match r {
        Ok(n) => Ok(n@),
        Err(e) => Err(e@),
    })
}

/// Calls `ZipArchive::by_index` for each index of the archive in the bytes
/// and takes the entry's `ZipFile::name`, or the display text of the error
/// of either call.
#[verifier::external_body]
fn zip_entry_names(bytes: &Vec<u8>) -> (r: Vec<Result<String, String>>)
    ensures
        names_view(r@) == zip_entry_names_of(bytes@),
{
    let mut out = Vec::new();
    if let Ok(mut archive) = zip::ZipArchive::new(std::io::Cursor::new(bytes.as_slice())) {
        for index in 0..archive.len() {
            let name = match archive.by_index(index) {
                Ok(entry) => entry.name().map(|name| name.into_owned()),
                Err(err) => Err(err),
            };
            out.push(name.map_err(|err| err.to_string()));
        }
    }
    out
}

pub open spec fn is_external_link_part(p: Seq<char>) -> bool {
    starts_with(p, "xl/externalLinks/"@) && ends_with(p, ".xml"@)
}

/// The external-link part names among the first `k` entries, or the error
/// of the first entry that could not be read.
pub open spec fn parts_fold(names: Seq<Result<Seq<char>, Seq<char>>>, path: Seq<char>, k: nat) -> Result<Seq<Seq<char>>, Seq<char>>
    decreases k,
{
    if k == 0 || k > names.len() {
        Ok(Seq::empty())
    } else {
        match parts_fold(names, path, (k - 1) as nat) {
            Err(e) => Err(e),
            Ok(ps) => match names[k - 1] {
                Err(e) => Err(
                    "failed to read workbook entry "@ + decimal((k - 1) as nat) + " in "@ + path + ": "@ + e,
                ),
                Ok(n) => if is_external_link_part(normalize_part_name_spec(n)) {
                    Ok(ps.push(normalize_part_name_spec(n)))
                } else {
                    Ok(ps)
                },
            },
        }
    }
}

proof fn lemma_parts_fold_err(names: Seq<Result<Seq<char>, Seq<char>>>, path: Seq<char>, k: nat)
    requires
        k <= names.len(),
        parts_fold(names, path, k) is Err,
    ensures
        parts_fold(names, path, names.len()) == parts_fold(names, path, k),
    decreases names.len() - k,
{
    if k < names.len() {
        lemma_parts_fold_err(names, path, k + 1);
    }
}

pub open spec fn texts_result_view(r: Result<Vec<String>, String>) -> Result<Seq<Seq<char>>, Seq<char>> {
    match r {
        Ok(v) => Ok(v.deep_view()),
        Err(e) => Err(e@),
    }
}

fn external_link_parts(bytes: &Vec<u8>, path: &str) -> (r: Result<Vec<String>, String>)
    ensures
        texts_result_view(r) == parts_fold(zip_entry_names_of(bytes@), path@, zip_entry_names_of(bytes@).len()),
{
    let names = zip_entry_names(bytes);
    let ghost nv = names_view(names@);
    let mut parts: Vec<String> = Vec::new();
    let mut i: usize = 0;
    assert(parts.deep_view() =~= Seq::<Seq<char>>::empty());
    proof {
        reveal_strlit("xl/externalLinks/");
        reveal_strlit(".xml");
    }
    while i < names.len()
        invariant
            nv == names_view(names@),
            nv == zip_entry_names_of(bytes@),
            i <= nv.len(),
            parts_fold(nv, path@, i as nat) == Ok::<Seq<Seq<char>>, Seq<char>>(parts.deep_view()),
        decreases nv.len() - i,
    {
        match &names[i] {
            Err(e) => {
                assert(nv[i as int] == Err::<Seq<char>, Seq<char>>(e@));
                let mut m = owned("failed to read workbook entry ");
                let d = decimal_string(i);
                append_str(&mut m, d.as_str());
                append_str(&mut m, " in ");
                append_str(&mut m, path);
                append_str(&mut m, ": ");
                append_str(&mut m, e.as_str());
                proof {
                    lemma_parts_fold_err(nv, path@, (i + 1) as nat);
                }
                return Err(m);
            },
            Ok(n) => {
                assert(nv[i as int] == Ok::<Seq<char>, Seq<char>>(n@));
                let p = normalize_part_name(n.as_str());
                if starts_with_str(p.as_str(), "xl/externalLinks/") && ends_with_str(p.as_str(), ".xml") {
                    let ghost before = parts.deep_view();
                    parts.push(p);
                    assert(parts.deep_view() =~= before.push(normalize_part_name_spec(n@)));
                }
            },
        }
        i += 1;
    }
    Ok(parts)
}

/// The index at which `x` goes into the ordered `s`: before the first
/// element that comes after it, from index `i` on.
pub open spec fn first_after(s: Seq<Seq<char>>, x: Seq<char>, i: int) -> int
    decreases s.len() - i,
{
    if i < 0 || i >= s.len() {
        s.len() as int
    } else if text_lt(x, s[i]) {
        i
    } else {
        first_after(s, x, i + 1)
    }
}

proof fn lemma_first_after_bounds(s: Seq<Seq<char>>, x: Seq<char>, i: int)
    requires
        0 <= i <= s.len(),
    ensures
        i <= first_after(s, x, i) <= s.len(),
    decreases s.len() - i,
{
    if i < s.len() {
        lemma_first_after_bounds(s, x, i + 1);
    }
}

/// The texts in ascending order, equal texts in their order of arrival.
pub open spec fn sort_texts(s: Seq<Seq<char>>) -> Seq<Seq<char>>
    decreases s.len(),
{
    if s.len() == 0 {
        Seq::empty()
    } else {
        let prev = sort_texts(s.drop_last());
        prev.insert(first_after(prev, s.last(), 0), s.last())
    }
}

proof fn lemma_sort_texts_len(s: Seq<Seq<char>>)
    ensures
        sort_texts(s).len() == s.len(),
    decreases s.len(),
{
    if s.len() > 0 {
        lemma_sort_texts_len(s.drop_last());
        lemma_first_after_bounds(sort_texts(s.drop_last()), s.last(), 0);
    }
}

fn sort_parts(parts: &Vec<String>) -> (r: Vec<String>)
    ensures
        r.deep_view() == sort_texts(parts.deep_view()),
{
    let ghost pv = parts.deep_view();
    let mut out: Vec<String> = Vec::new();
    let mut i: usize = 0;
    assert(pv.take(0) =~= Seq::<Seq<char>>::empty());
    assert(out.deep_view() =~= sort_texts(pv.take(0)));
    while i < parts.len()
        invariant
            pv == parts.deep_view(),
            i <= pv.len(),
            out.deep_view() == sort_texts(pv.take(i as int)),
        decreases pv.len() - i,
    {
        assert(pv.take(i + 1).drop_last() =~= pv.take(i as int));
        assert(pv.take(i + 1).last() == pv[i as int]);
        assert(parts@[i as int]@ == pv[i as int]);
        let x = parts[i].clone();
        let ghost ov = out.deep_view();
        let mut j: usize = 0;
        while j < out.len() && !text_less(x.as_str(), out[j].as_str())
            invariant
                ov == out.deep_view(),
                x@ == pv[i as int],
                j <= ov.len(),
                first_after(ov, x@, 0) == first_after(ov, x@, j as int),
            decreases ov.len() - j,
        {
            assert(out@[j as int]@ == ov[j as int]);
            j += 1;
        }
        if j < out.len() {
            assert(out@[j as int]@ == ov[j as int]);
        }
        assert(first_after(ov, x@, j as int) == j);
        let ghost xv = x@;
        out.insert(j, x);
        assert(out.deep_view() =~= ov.insert(j as int, xv));
        i += 1;
    }
    assert(pv.take(pv.len() as int) =~= pv);
    out
}

/// The workbook relationship of a part: the last one whose target resolves to it.
pub open spec fn rel_for_part(rels: Seq<RelModel>, part: Seq<char>) -> Option<RelModel>
    decreases rels.len(),
{
    if rels.len() == 0 {
        None
    } else if normalize_part_path_spec("xl/workbook.xml"@, rels.last().target) == part {
        Some(rels.last())
    } else {
        rel_for_part(rels.drop_last(), part)
    }
}

/// A text kept whole up to `max` characters, else cut to `max - 3` and marked with `...`.
pub open spec fn clip(value: Seq<char>, max: nat) -> Seq<char> {
    if value.len() <= max {
        value
    } else {
        value.take(max - 3) + "..."@
    }
}

pub fn clip_text(value: &str, max: usize) -> (r: String)
    requires
        max >= 3,
    ensures
        r@ == clip(value@, max as nat),
{
    let v = chars_of(value);
    if v.len() <= max {
        return owned(value);
    }
    let mut out = string_of_range(&v, 0, max - 3);
    append_str(&mut out, "...");
    proof {
        reveal_strlit("...");
    }
    assert(v@.subrange(0, max - 3) =~= value@.take(max - 3));
    out
}

/// One external-link part of the inventory.
#[derive(Debug, Clone, PartialEq, Eq)]
pub struct WorkbookExternalLinkSummary {
    pub part_path: String,
    pub workbook_relationship_id: Option<String>,
    pub workbook_relationship_target: Option<String>,
    pub detail_kind: String,
    pub detail_relationship_id: Option<String>,
    pub detail_relationship_target: Option<String>,
}

pub struct LinkModel {
    pub part_path: Seq<char>,
    pub workbook_relationship_id: Option<Seq<char>>,
    pub workbook_relationship_target: Option<Seq<char>>,
    pub detail_kind: Seq<char>,
    pub detail_relationship_id: Option<Seq<char>>,
    pub detail_relationship_target: Option<Seq<char>>,
}

impl View for WorkbookExternalLinkSummary {
    type V = LinkModel;

    open spec fn view(&self) -> LinkModel {
        LinkModel {
            part_path: self.part_path@,
            workbook_relationship_id: opt_view(self.workbook_relationship_id),
            workbook_relationship_target: opt_view(self.workbook_relationship_target),
            detail_kind: self.detail_kind@,
            detail_relationship_id: opt_view(self.detail_relationship_id),
            detail_relationship_target: opt_view(self.detail_relationship_target),
        }
    }
}

pub open spec fn links_view(v: Seq<WorkbookExternalLinkSummary>) -> Seq<LinkModel> {
    v.map_values(|l: WorkbookExternalLinkSummary| l@)
}

/// The external-link inventory of a workbook.
#[derive(Debug, Clone, PartialEq, Eq)]
pub struct InspectWorkbookExternalLinksResult {
    pub mode: String,
    pub path: String,
    pub external_link_count: usize,
    pub external_links: Vec<WorkbookExternalLinkSummary>,
    pub inventory_truncated: bool,
    pub warnings: Vec<String>,
}

pub struct ExternalLinksModel {
    pub mode: Seq<char>,
    pub path: Seq<char>,
    pub external_link_count: nat,
    pub external_links: Seq<LinkModel>,
    pub inventory_truncated: bool,
    pub warnings: Seq<Seq<char>>,
}

impl View for InspectWorkbookExternalLinksResult {
    type V = ExternalLinksModel;

    open spec fn view(&self) -> ExternalLinksModel {
        ExternalLinksModel {
            mode: self.mode@,
            path: self.path@,
            external_link_count: self.external_link_count as nat,
            external_links: links_view(self.external_links@),
            inventory_truncated: self.inventory_truncated,
            warnings: self.warnings.deep_view(),
        }
    }
}

pub open spec fn clip_opt(o: Option<Seq<char>>, max: nat) -> Option<Seq<char>> {
    match o {
        Some(v) => Some(clip(v, max)),
        None => None,
    }
}

/// The summary of one part from its detail, the target of its nested
/// relationship and its workbook relationship.
pub open spec fn link_summary(part: Seq<char>, d: DetailModel, dt: Option<Seq<char>>, wr: Option<RelModel>) -> LinkModel {
    LinkModel {
        part_path: clip(part, MAX_PATH_CHARS as nat),
        workbook_relationship_id: match wr {
            Some(r) => Some(clip(r.id, MAX_PATH_CHARS as nat)),
            None => None,
        },
        workbook_relationship_target: match wr {
            Some(r) => Some(
                clip(normalize_relationship_target_spec("xl/workbook.xml"@, r.target, r.target_mode), MAX_PATH_CHARS as nat),
            ),
            None => None,
        },
        detail_kind: clip(d.kind, MAX_KIND_CHARS as nat),
        detail_relationship_id: clip_opt(d.relationship_id, MAX_PATH_CHARS as nat),
        detail_relationship_target: clip_opt(dt, MAX_PATH_CHARS as nat),
    }
}

/// The warnings of one part: no workbook relationship, a kind other than an
/// external book, or a nested relationship whose target was not found.
pub open spec fn link_warnings(w: Seq<Seq<char>>, part: Seq<char>, d: DetailModel, dt: Option<Seq<char>>, wr: Option<RelModel>) -> Seq<Seq<char>> {
    link_warnings_flag(w, part, d, dt, wr is Some)
}

/// Reading one part: its detail and the target of its nested relationship.
pub open spec fn link_read_spec(bytes: Seq<u8>, part: Seq<char>) -> Result<(DetailModel, Option<Seq<char>>), Seq<char>> {
    match read_detail_spec(bytes, part) {
        Err(e) => Err(e),
        Ok(d) => match detail_target_spec(bytes, part, d) {
            Err(e) => Err(e),
            Ok(dt) => Ok((d, dt)),
        },
    }
}

/// The summaries and warnings after the first `k` parts, or the first error.
pub open spec fn links_fold(
    bytes: Seq<u8>,
    rels: Seq<RelModel>,
    parts: Seq<Seq<char>>,
    w0: Seq<Seq<char>>,
    k: nat,
) -> Result<(Seq<LinkModel>, Seq<Seq<char>>), Seq<char>>
    decreases k,
{
    if k == 0 || k > parts.len() {
        Ok((Seq::empty(), w0))
    } else {
        match links_fold(bytes, rels, parts, w0, (k - 1) as nat) {
            Err(e) => Err(e),
            Ok((links, w)) => match link_read_spec(bytes, parts[k - 1]) {
                Err(e) => Err(e),
                Ok((d, dt)) => {
                    let wr = rel_for_part(rels, parts[k - 1]);
                    Ok((links.push(link_summary(parts[k - 1], d, dt, wr)), link_warnings(w, parts[k - 1], d, dt, wr)))
                },
            },
        }
    }
}

proof fn lemma_links_fold_err(bytes: Seq<u8>, rels: Seq<RelModel>, parts: Seq<Seq<char>>, w0: Seq<Seq<char>>, k: nat)
    requires
        k <= parts.len(),
        links_fold(bytes, rels, parts, w0, k) is Err,
    ensures
        links_fold(bytes, rels, parts, w0, parts.len()) == links_fold(bytes, rels, parts, w0, k),
    decreases parts.len() - k,
{
    if k < parts.len() {
        lemma_links_fold_err(bytes, rels, parts, w0, k + 1);
    }
}

/// The inventory once every kept part was read.
pub open spec fn inventory_of(
    folded: Result<(Seq<LinkModel>, Seq<Seq<char>>), Seq<char>>,
    display_path: Seq<char>,
    count: nat,
    truncated: bool,
) -> Result<ExternalLinksModel, Seq<char>> {
    match folded {
        Err(e) => Err(e),
        Ok((links, w)) => Ok(
            ExternalLinksModel {
                mode: "read_only_inspection"@,
                path: display_path,
                external_link_count: count,
                external_links: links,
                inventory_truncated: truncated,
                warnings: w,
            },
        ),
    }
}

/// The external-link inventory of the archive in `bytes`; `path` names the
/// workbook in messages, `display_path` in the result.
pub open spec fn external_links_spec(bytes: Seq<u8>, path: Seq<char>, display_path: Seq<char>) -> Result<ExternalLinksModel, Seq<char>> {
    match zip_open_error_of(bytes) {
        Some(e) => Err("failed to read workbook archive "@ + path + ": "@ + e),
        None => match parts_fold(zip_entry_names_of(bytes), path, zip_entry_names_of(bytes).len()) {
            Err(e) => Err(e),
            Ok(found) => {
                let parts = sort_texts(found);
                match workbook_relationships_spec(bytes) {
                    Err(e) => Err(e),
                    Ok(rels) => {
                        let count = parts.len();
                        let truncated = count > MAX_EXTERNAL_LINKS;
                        let w0 = if truncated {
                            push_warning_spec(
                                Seq::empty(),
                                "external-link inventory truncated to 64 of "@ + decimal(count) + " parts"@,
                            )
                        } else {
                            Seq::empty()
                        };
                        let kept = if truncated { parts.take(MAX_EXTERNAL_LINKS as int) } else { parts };
                        inventory_of(links_fold(bytes, rels, kept, w0, kept.len()), display_path, count, truncated)
                    },
                }
            },
        },
    }
}

pub open spec fn inventory_view(r: Result<InspectWorkbookExternalLinksResult, String>) -> Result<ExternalLinksModel, Seq<char>> {
    match r {
        Ok(x) => Ok(x@),
        Err(e) => Err(e@),
    }
}

fn clip_relationship_fields(part_path: &str, rel: &Relationship) -> (r: (String, String))
    ensures
        r.0@ == clip(rel.id@, MAX_PATH_CHARS as nat),
        r.1@ == clip(
            normalize_relationship_target_spec("xl/workbook.xml"@, rel.target@, mode_view(rel.target_mode)),
            MAX_PATH_CHARS as nat,
        ),
{
    let target = normalize_relationship_target("xl/workbook.xml", rel);
    (clip_text(rel.id.as_str(), MAX_PATH_CHARS), clip_text(target.as_str(), MAX_PATH_CHARS))
}

fn clip_option(o: &Option<String>, max: usize) -> (r: Option<String>)
    requires
        max >= 3,
    ensures
        opt_view(r) == clip_opt(opt_view(*o), max as nat),
{
    match o {
        Some(v) => Some(clip_text(v.as_str(), max)),
        None => None,
    }
}

/// The last relationship whose target resolves to `part`.
fn find_rel_for_part(rels: &Vec<Relationship>, part: &str) -> (r: Option<usize>)
    ensures
        match r {
            Some(i) => i < rels@.len() && rel_for_part(rels_view(rels@), part@) == Some(rels@[i as int]@),
            None => rel_for_part(rels_view(rels@), part@) is None,
        },
{
    let ghost rv = rels_view(rels@);
    let mut i: usize = rels.len();
    assert(rv.take(rv.len() as int) =~= rv);
    while i > 0
        invariant
            rv == rels_view(rels@),
            i <= rv.len(),
            rel_for_part(rv, part@) == rel_for_part(rv.take(i as int), part@),
        decreases i,
    {
        assert(rv.take(i as int).drop_last() =~= rv.take(i - 1));
        assert(rv.take(i as int).last() == rels@[i - 1]@);
        let t = normalize_part_path("xl/workbook.xml", rels[i - 1].target.as_str());
        proof {
            reveal_strlit("xl/workbook.xml");
        }
        if same_text(t.as_str(), part) {
            return Some(i - 1);
        }
        i -= 1;
    }
    assert(rv.take(0) =~= Seq::<RelModel>::empty());
    None
}

fn push_link_warnings(
    warnings: &mut Vec<String>,
    part: &str,
    detail: &ExternalLinkDetail,
    target: &Option<String>,
    has_relationship: bool,
)
    ensures
        final(warnings).deep_view() == link_warnings_flag(old(warnings).deep_view(), part@, detail@, opt_view(*target), has_relationship),
{
    if !has_relationship {
        let mut w = owned("external-link part `");
        append_str(&mut w, part);
        append_str(&mut w, "` has no matching workbook relationship entry");
        push_warning(warnings, w);
    }
    proof {
        reveal_strlit("external_book");
    }
    if !same_text(detail.kind.as_str(), "external_book") {
        let mut w = owned("external-link part `");
        append_str(&mut w, part);
        append_str(&mut w, "` uses unsupported detail kind `");
        append_str(&mut w, detail.kind.as_str());
        append_str(&mut w, "`; only bounded metadata is reported");
        push_warning(warnings, w);
    }
    if detail.relationship_id.is_some() && target.is_none() {
        let mut w = owned("external-link part `");
        append_str(&mut w, part);
        append_str(&mut w, "` references a nested relationship id but no target could be resolved");
        push_warning(warnings, w);
    }
}

/// The warnings of one part, told whether it has a workbook relationship.
pub open spec fn link_warnings_flag(w: Seq<Seq<char>>, part: Seq<char>, d: DetailModel, dt: Option<Seq<char>>, has_relationship: bool) -> Seq<Seq<char>> {
    let w = if !has_relationship {
        push_warning_spec(w, "external-link part `"@ + part + "` has no matching workbook relationship entry"@)
    } else {
        w
    };
    let w = if d.kind != "external_book"@ {
        push_warning_spec(
            w,
            "external-link part `"@ + part + "` uses unsupported detail kind `"@ + d.kind
                + "`; only bounded metadata is reported"@,
        )
    } else {
        w
    };
    if d.relationship_id is Some && dt is None {
        push_warning_spec(
            w,
            "external-link part `"@ + part + "` references a nested relationship id but no target could be resolved"@,
        )
    } else {
        w
    }
}

/// The external-link inventory of the workbook archive in `bytes`; `path`
/// names the workbook in messages, `display_path` in the result.
pub fn inspect_openxml_workbook_external_links(bytes: &Vec<u8>, path: &str, display_path: &str) -> (r: Result<
    InspectWorkbookExternalLinksResult,
    String,
>)
    ensures
        inventory_view(r) == external_links_spec(bytes@, path@, display_path@),
{
    if let Some(e) = zip_open_error(bytes) {
        let mut m = owned("failed to read workbook archive ");
        append_str(&mut m, path);
        append_str(&mut m, ": ");
        append_str(&mut m, e.as_str());
        return Err(m);
    }
    let found = external_link_parts(bytes, path)?;
    let parts = sort_parts(&found);
    let ghost pv = parts.deep_view();
    proof {
        lemma_sort_texts_len(found.deep_view());
    }
    let rels = read_workbook_external_link_relationships(bytes)?;
    let ghost rv = rels_view(rels@);
    let external_link_count = parts.len();
    let inventory_truncated = external_link_count > MAX_EXTERNAL_LINKS;
    let mut warnings: Vec<String> = Vec::new();
    assert(warnings.deep_view() =~= Seq::<Seq<char>>::empty());
    if inventory_truncated {
        let mut w = owned("external-link inventory truncated to 64 of ");
        let d = decimal_string(external_link_count);
        append_str(&mut w, d.as_str());
        append_str(&mut w, " parts");
        push_warning(&mut warnings, w);
    }
    let ghost w0 = warnings.deep_view();
    let kept_len = if inventory_truncated { MAX_EXTERNAL_LINKS } else { external_link_count };
    let ghost kept = pv.take(kept_len as int);
    assert(kept =~= if inventory_truncated { pv.take(MAX_EXTERNAL_LINKS as int) } else { pv });
    let mut links: Vec<WorkbookExternalLinkSummary> = Vec::new();
    assert(links_view(links@) =~= Seq::<LinkModel>::empty());
    let mut i: usize = 0;
    assert(external_links_spec(bytes@, path@, display_path@) == inventory_of(
        links_fold(bytes@, rv, kept, w0, kept.len()),
        display_path@,
        pv.len(),
        inventory_truncated,
    ));
    while i < kept_len
        invariant
            external_links_spec(bytes@, path@, display_path@) == inventory_of(
                links_fold(bytes@, rv, kept, w0, kept.len()),
                display_path@,
                pv.len(),
                inventory_truncated,
            ),
            kept.len() == kept_len,
            pv == parts.deep_view(),
            rv == rels_view(rels@),
            kept_len <= pv.len(),
            kept == pv.take(kept_len as int),
            i <= kept_len,
            links_fold(bytes@, rv, kept, w0, i as nat) == Ok::<(Seq<LinkModel>, Seq<Seq<char>>), Seq<char>>(
                (links_view(links@), warnings.deep_view()),
            ),
        decreases kept_len - i,
    {
        let part = parts[i].as_str();
        assert(part@ == kept[i as int]);
        let detail = match read_external_link_detail(bytes, part) {
            Ok(d) => d,
            Err(e) => {
                proof {
                    lemma_links_fold_err(bytes@, rv, kept, w0, (i + 1) as nat);
                }
                return Err(e);
            },
        };
        let target = match read_external_link_relationship_target(bytes, part, &detail) {
            Ok(t) => t,
            Err(e) => {
                proof {
                    lemma_links_fold_err(bytes@, rv, kept, w0, (i + 1) as nat);
                }
                return Err(e);
            },
        };
        let found_rel = find_rel_for_part(&rels, part);
        push_link_warnings(&mut warnings, part, &detail, &target, found_rel.is_some());
        let (workbook_relationship_id, workbook_relationship_target) = match found_rel {
            Some(k) => {
                let (id, t) = clip_relationship_fields(part, &rels[k]);
                (Some(id), Some(t))
            },
            None => (None, None),
        };
        let summary = WorkbookExternalLinkSummary {
            part_path: clip_text(part, MAX_PATH_CHARS),
            workbook_relationship_id,
            workbook_relationship_target,
            detail_kind: clip_text(detail.kind.as_str(), MAX_KIND_CHARS),
            detail_relationship_id: clip_option(&detail.relationship_id, MAX_PATH_CHARS),
            detail_relationship_target: clip_option(&target, MAX_PATH_CHARS),
        };
        assert(summary@ == link_summary(kept[i as int], detail@, opt_view(target), rel_for_part(rv, kept[i as int])));
        let ghost before = links_view(links@);
        links.push(summary);
        assert(links_view(links@) =~= before.push(link_summary(kept[i as int], detail@, opt_view(target), rel_for_part(rv, kept[i as int]))));
        i += 1;
    }
    Ok(InspectWorkbookExternalLinksResult {
        mode: owned("read_only_inspection"),
        path: owned(display_path),
        external_link_count,
        external_links: links,
        inventory_truncated,
        warnings,
    })
}

pub open spec fn external_links_format_refusal(format: WorkbookFormat) -> Option<Seq<char>> {
    match format {
        WorkbookFormat::Xlsb => Some(
            "excel.inspect_workbook_external_links supports only .xlsx and .xlsm in this stage; .xlsb external-link inventory remains unsupported"@,
        ),
        WorkbookFormat::Unknown => Some("excel.inspect_workbook_external_links supports only .xlsx and .xlsm in this stage"@),
        _ => None,
    }
}

/// The external-link inventory of a workbook of the given format, from its
/// bytes as read from disk (or the message of the failed read).
pub fn inspect_workbook_external_links_from_workbook(
    format: WorkbookFormat,
    workbook: Result<Vec<u8>, String>,
    path: &str,
    display_path: &str,
) -> (r: Result<InspectWorkbookExternalLinksResult, String>)
    ensures
        match external_links_format_refusal(format) {
            Some(message) => r matches Err(e) && e@ == message,
            None => match workbook {
                Err(e) => r matches Err(f) && f@ == e@,
                Ok(bytes) => inventory_view(r) == external_links_spec(bytes@, path@, display_path@),
            },
        },
{
    match format {
        WorkbookFormat::Xlsb => {
            return Err(owned(
                "excel.inspect_workbook_external_links supports only .xlsx and .xlsm in this stage; .xlsb external-link inventory remains unsupported",
            ));
        },
        WorkbookFormat::Unknown => {
            return Err(owned("excel.inspect_workbook_external_links supports only .xlsx and .xlsm in this stage"));
        },
        _ => {},
    }
    match workbook {
        Err(e) => Err(e),
        Ok(bytes) => inspect_openxml_workbook_external_links(&bytes, path, display_path),
    }
}

proof fn lemma_link_warnings_clean(w: Seq<Seq<char>>, part: Seq<char>, d: DetailModel, dt: Option<Seq<char>>, has_rel: bool)
    requires
        w.len() <= MAX_WARNINGS,
        w.no_duplicates(),
    ensures
        link_warnings_flag(w, part, d, dt, has_rel).len() <= MAX_WARNINGS,
        link_warnings_flag(w, part, d, dt, has_rel).no_duplicates(),
{
    let m1 = "external-link part `"@ + part + "` has no matching workbook relationship entry"@;
    law_push_warning_keeps_list_clean(w, m1);
    let w1 = if !has_rel { push_warning_spec(w, m1) } else { w };
    let m2 = "external-link part `"@ + part + "` uses unsupported detail kind `"@ + d.kind
        + "`; only bounded metadata is reported"@;
    law_push_warning_keeps_list_clean(w1, m2);
    let w2 = if d.kind != "external_book"@ { push_warning_spec(w1, m2) } else { w1 };
    law_push_warning_keeps_list_clean(
        w2,
        "external-link part `"@ + part + "` references a nested relationship id but no target could be resolved"@,
    );
}

proof fn lemma_links_fold_bounded(bytes: Seq<u8>, rels: Seq<RelModel>, parts: Seq<Seq<char>>, w0: Seq<Seq<char>>, k: nat)
    requires
        k <= parts.len(),
        w0.len() <= MAX_WARNINGS,
        w0.no_duplicates(),
    ensures
        links_fold(bytes, rels, parts, w0, k) matches Ok((links, w)) ==> links.len() == k && w.len() <= MAX_WARNINGS
            && w.no_duplicates(),
    decreases k,
{
    if k > 0 {
        lemma_links_fold_bounded(bytes, rels, parts, w0, (k - 1) as nat);
        match links_fold(bytes, rels, parts, w0, (k - 1) as nat) {
            Ok((links, w)) => match link_read_spec(bytes, parts[k - 1]) {
                Ok((d, dt)) => lemma_link_warnings_clean(w, parts[k - 1], d, dt, rel_for_part(rels, parts[k - 1]) is Some),
                Err(_) => {},
            },
            Err(_) => {},
        }
    }
}

/// The external-link inventory is bounded: it reports every external-link
/// part in its count, summarises the first 64 of them and says it was
/// truncated exactly when there were more, and
/// its warnings never exceed 32 nor repeat.
pub proof fn law_external_link_inventory_is_bounded(bytes: Seq<u8>, path: Seq<char>, display_path: Seq<char>)
    ensures
        external_links_spec(bytes, path, display_path) matches Ok(m) ==> {
            &&& m.inventory_truncated == (m.external_link_count > MAX_EXTERNAL_LINKS)
            &&& m.external_links.len() == if m.inventory_truncated {
                MAX_EXTERNAL_LINKS as nat
            } else {
                m.external_link_count
            }
            &&& m.warnings.len() <= MAX_WARNINGS
            &&& m.warnings.no_duplicates()
        },
{
    match zip_open_error_of(bytes) {
        Some(_) => {},
        None => match parts_fold(zip_entry_names_of(bytes), path, zip_entry_names_of(bytes).len()) {
            Err(_) => {},
            Ok(found) => {
                let parts = sort_texts(found);
                match workbook_relationships_spec(bytes) {
                    Err(_) => {},
                    Ok(rels) => {
                        let count = parts.len();
                        let truncated = count > MAX_EXTERNAL_LINKS;
                        let msg = "external-link inventory truncated to 64 of "@ + decimal(count) + " parts"@;
                        law_push_warning_keeps_list_clean(Seq::empty(), msg);
                        let w0 = if truncated { push_warning_spec(Seq::empty(), msg) } else { Seq::empty() };
                        let kept = if truncated { parts.take(MAX_EXTERNAL_LINKS as int) } else { parts };
                        lemma_links_fold_bounded(bytes, rels, kept, w0, kept.len());
                    },
                }
            },
        },
    }
}

/// No text of `s` comes before one that precedes it.
pub open spec fn texts_ordered(s: Seq<Seq<char>>) -> bool {
    forall|i: int, j: int| 0 <= i < j < s.len() ==> !text_lt(#[trigger] s[j], #[trigger] s[i])
}

proof fn lemma_first_after_props(s: Seq<Seq<char>>, x: Seq<char>, i: int)
    requires
        0 <= i <= s.len(),
    ensures
        i <= first_after(s, x, i) <= s.len(),
        forall|m: int| i <= m < first_after(s, x, i) ==> !text_lt(x, #[trigger] s[m]),
        first_after(s, x, i) < s.len() ==> text_lt(x, s[first_after(s, x, i)]),
    decreases s.len() - i,
{
    if i < s.len() && !text_lt(x, s[i]) {
        lemma_first_after_props(s, x, i + 1);
    }
}

/// The external-link parts are listed in ascending order of their names:
/// sorting keeps every part and puts no part before one that precedes it.
pub proof fn law_parts_come_in_order(s: Seq<Seq<char>>)
    ensures
        sort_texts(s).len() == s.len(),
        texts_ordered(sort_texts(s)),
    decreases s.len(),
{
    if s.len() > 0 {
        let prev = sort_texts(s.drop_last());
        law_parts_come_in_order(s.drop_last());
        let x = s.last();
        lemma_first_after_props(prev, x, 0);
        let k = first_after(prev, x, 0);
        let r = prev.insert(k, x);
        assert forall|i: int, j: int| 0 <= i < j < r.len() implies !text_lt(#[trigger] r[j], #[trigger] r[i]) by {
            if j < k {
                assert(r[i] == prev[i] && r[j] == prev[j]);
            } else if j == k {
                assert(r[i] == prev[i] && r[j] == x);
            } else if i < k {
                assert(r[i] == prev[i] && r[j] == prev[j - 1]);
            } else if i == k {
                assert(r[i] == x && r[j] == prev[j - 1]);
                if text_lt(prev[j - 1], x) {
                    if j - 1 > k {
                        assert(!text_lt(prev[j - 1], prev[k]));
                    }
                    lemma_text_lt_transitive(prev[j - 1], x, prev[k]);
                    lemma_text_lt_irreflexive(prev[k]);
                }
            } else {
                assert(r[i] == prev[i - 1] && r[j] == prev[j - 1]);
            }
        }
    }
}

} // verus!
