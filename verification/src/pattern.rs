//! Regular-expression matching, delegated to the `regex` crate.
//!
//! The semantics of a regular expression match take pages to state, so each
//! operation's result is given a name that depends on the pattern and the
//! haystack alone. A pattern that fails to compile matches nothing.
use vstd::prelude::*;

verus! {

/// The capture groups of the leftmost-first match of `pattern` in `haystack`
/// (index 0 is the whole match), or `None` when there is no match.
pub uninterp spec fn regex_captures_of(pattern: Seq<char>, haystack: Seq<char>) -> Option<Seq<Option<Seq<char>>>>;

/// Whether `pattern` matches somewhere in `haystack`.
pub uninterp spec fn regex_matches(pattern: Seq<char>, haystack: Seq<char>) -> bool;

/// `haystack` with the leftmost-first match of `pattern` replaced by `replacement`.
pub uninterp spec fn regex_replace_first(pattern: Seq<char>, haystack: Seq<char>, replacement: Seq<char>) -> Seq<char>;

/// `haystack` with every non-overlapping match of `pattern` replaced by `replacement`.
pub uninterp spec fn regex_replace_every(pattern: Seq<char>, haystack: Seq<char>, replacement: Seq<char>) -> Seq<char>;

pub open spec fn groups_view(v: Vec<Option<String>>) -> Seq<Option<Seq<char>>> {
    v@.map_values(|g: Option<String>| match g {
        Some(s) => Some(s@),
        None => None,
    })
}

pub open spec fn captures_view(r: Option<Vec<Option<String>>>) -> Option<Seq<Option<Seq<char>>>> {
    match r {
        Some(v) => Some(groups_view(v)),
        None => None,
    }
}

/// Text of capture group `i`, the empty text when the group did not take part.
pub open spec fn group_text(groups: Seq<Option<Seq<char>>>, i: int) -> Seq<char> {
    if 0 <= i < groups.len() {
        match groups[i] {
            Some(t) => t,
            None => Seq::empty(),
        }
    } else {
        Seq::empty()
    }
}

/// Calls `regex::Regex::new` and `Regex::captures`; the groups of the match
/// are copied out as owned strings. Claims only that the result is the named
/// capture result of the pattern on the haystack.
#[verifier::external_body]
pub(crate) fn regex_captures(pattern: &str, haystack: &str) -> (r: Option<Vec<Option<String>>>)
    ensures
        captures_view(r) == regex_captures_of(pattern@, haystack@),
{
    let re = match regex::Regex::new(pattern) {
        Ok(re) => re,
        Err(_) => return None,
    };
    re.captures(haystack).map(
        |caps| caps.iter().map(|m| m.map(|m| m.as_str().to_string())).collect(),
    )
}

/// Calls `regex::Regex::new` and `Regex::is_match`; claims only that the
/// result is the named match predicate of the pattern on the haystack.
#[verifier::external_body]
pub(crate) fn regex_is_match(pattern: &str, haystack: &str) -> (r: bool)
    ensures
        r == regex_matches(pattern@, haystack@),
{
    match regex::Regex::new(pattern) {
        Ok(re) => re.is_match(haystack),
        Err(_) => false,
    }
}

/// Calls `regex::Regex::new` and `Regex::replace` with a literal replacement
/// (one without `$`); claims only that the result is the named replacement.
#[verifier::external_body]
pub(crate) fn regex_replace(pattern: &str, haystack: &str, replacement: &str) -> (r: String)
    ensures
        r@ == regex_replace_first(pattern@, haystack@, replacement@),
{
    match regex::Regex::new(pattern) {
        Ok(re) => re.replace(haystack, regex::NoExpand(replacement)).into_owned(),
        Err(_) => haystack.to_string(),
    }
}

/// Calls `regex::Regex::new` and `Regex::replace_all` with a literal
/// replacement; claims only that the result is the named replacement.
#[verifier::external_body]
pub(crate) fn regex_replace_all(pattern: &str, haystack: &str, replacement: &str) -> (r: String)
    ensures
        r@ == regex_replace_every(pattern@, haystack@, replacement@),
{
    match regex::Regex::new(pattern) {
        Ok(re) => re.replace_all(haystack, regex::NoExpand(replacement)).into_owned(),
        Err(_) => haystack.to_string(),
    }
}

pub fn group_string(groups: &Vec<Option<String>>, i: usize) -> (r: String)
    ensures
        r@ == group_text(groups_view(*groups), i as int),
{
    if i < groups.len() {
        match &groups[i] {
            Some(t) => t.clone(),
            None => String::new(),
        }
    } else {
        String::new()
    }
}

/// Capture group `i`, `None` when the group did not take part.
pub open spec fn group_at(groups: Seq<Option<Seq<char>>>, i: int) -> Option<Seq<char>> {
    if 0 <= i < groups.len() {
        groups[i]
    } else {
        None
    }
}

pub fn group_opt(groups: &Vec<Option<String>>, i: usize) -> (r: Option<String>)
    ensures
        match r {
            Some(t) => group_at(groups_view(*groups), i as int) == Some(t@),
            None => group_at(groups_view(*groups), i as int) is None,
        },
{
    if i < groups.len() {
        match &groups[i] {
            Some(t) => Some(t.clone()),
            None => None,
        }
    } else {
        None
    }
}

/// The characters that `regex::escape` escapes (`regex_syntax::is_meta_character`).
pub open spec fn is_regex_meta(c: char) -> bool {
    c == '\\' || c == '.' || c == '+' || c == '*' || c == '?' || c == '(' || c == ')' || c == '|'
        || c == '[' || c == ']' || c == '{' || c == '}' || c == '^' || c == '$' || c == '#'
        || c == '&' || c == '-' || c == '~'
}

/// `s` with a backslash put before each meta character.
pub open spec fn regex_escape_seq(s: Seq<char>) -> Seq<char>
    decreases s.len(),
{
    if s.len() == 0 {
        s
    } else if is_regex_meta(s.last()) {
        regex_escape_seq(s.drop_last()) + seq!['\\', s.last()]
    } else {
        regex_escape_seq(s.drop_last()).push(s.last())
    }
}

/// Calls `regex::escape`, which (through `regex_syntax::escape_into`) copies
/// the text and puts a backslash before each meta character.
#[verifier::external_body]
pub(crate) fn regex_escape(text: &str) -> (r: String)
    ensures
        r@ == regex_escape_seq(text@),
{
    regex::escape(text)
}

} // verus!
