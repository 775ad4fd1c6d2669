//! Analysis of pasted VBA source for a bounded ONLYOFFICE macro migration:
//! which `Sub` procedures exist, which spreadsheet operations they perform,
//! and which statements block an automatic translation.
use vstd::prelude::*;
use crate::text::{
    append_str, byte_len, chars_of, contains_seq, contains_str, decimal, decimal_string, ends_with,
    ends_with_str, float_syntax, is_whitespace, is_ws, lower_seq, lower_string, owned, parse_u8,
    parse_u8_spec, parses_as_float, push_char, same_text, starts_with, starts_with_str,
    bounded_seq, bounded_text, string_of, string_of_range, trim, trim_end, trim_end_seq, trim_leading_quotes, trim_seq, trim_start, trim_start_quotes,
    trim_start_seq, unescape_quote_pairs,
    unescape_quotes, str_lines, lines_of, upper_seq, upper_string, index_of, find_char,
    lemma_index_of_from_bounds,
};
use crate::pattern::{
    captures_view, group_string, group_text, groups_view, regex_captures, regex_captures_of, regex_is_match,
    regex_matches,
};

verus! {

/// The model of `strip_comment` after reading `s`: the kept text, whether a
/// string literal is open, and whether a comment has started.
pub open spec fn strip_comment_fold(s: Seq<char>) -> (Seq<char>, bool, bool)
    decreases s.len(),
{
    if s.len() == 0 {
        (Seq::empty(), false, false)
    } else {
        let st = strip_comment_fold(s.drop_last());
        let c = s.last();
        if st.2 {
            st
        } else if c == '"' {
            (st.0.push(c), !st.1, false)
        } else if c == '\'' && !st.1 {
            (st.0, st.1, true)
        } else {
            (st.0.push(c), st.1, false)
        }
    }
}

/// The line up to the first apostrophe outside a string literal.
pub open spec fn strip_comment_spec(s: Seq<char>) -> Seq<char> {
    strip_comment_fold(s).0
}

pub fn strip_comment(line: &str) -> (r: String)
    ensures
        r@ == strip_comment_spec(line@),
{
    let v = chars_of(line);
    let mut output = String::new();
    let mut in_string = false;
    let mut stopped = false;
    let mut i: usize = 0;
    while i < v.len()
        invariant
            i <= v@.len(),
            v@ == line@,
            (output@, in_string, stopped) == strip_comment_fold(v@.take(i as int)),
        decreases v@.len() - i,
    {
        let ch = v[i];
        assert(v@.take(i + 1).drop_last() =~= v@.take(i as int));
        if !stopped {
            if ch == '"' {
                in_string = !in_string;
                push_char(&mut output, ch);
            } else if ch == '\'' && !in_string {
                stopped = true;
            } else {
                push_char(&mut output, ch);
            }
        }
        i += 1;
    }
    assert(v@.take(i as int) =~= v@);
    output
}

/// The model of `compact_whitespace` before trimming: text, open string,
/// previous character was a collapsed space.
pub open spec fn compact_fold(s: Seq<char>) -> (Seq<char>, bool, bool)
    decreases s.len(),
{
    if s.len() == 0 {
        (Seq::empty(), false, false)
    } else {
        let st = compact_fold(s.drop_last());
        let c = s.last();
        if c == '"' {
            (st.0.push(c), !st.1, false)
        } else if st.1 {
            (st.0.push(c), st.1, st.2)
        } else if is_ws(c) {
            if !st.2 {
                (st.0.push(' '), st.1, true)
            } else {
                st
            }
        } else {
            (st.0.push(c), st.1, false)
        }
    }
}

/// Runs of whitespace outside string literals collapsed to one space, then trimmed.
pub open spec fn compact_whitespace_spec(s: Seq<char>) -> Seq<char> {
    trim_seq(compact_fold(s).0)
}

pub fn compact_whitespace(value: &str) -> (r: String)
    ensures
        r@ == compact_whitespace_spec(value@),
{
    let v = chars_of(value);
    let mut output = String::new();
    let mut in_string = false;
    let mut previous_was_space = false;
    let mut i: usize = 0;
    while i < v.len()
        invariant
            i <= v@.len(),
            v@ == value@,
            (output@, in_string, previous_was_space) == compact_fold(v@.take(i as int)),
        decreases v@.len() - i,
    {
        let ch = v[i];
        assert(v@.take(i + 1).drop_last() =~= v@.take(i as int));
        if ch == '"' {
            push_char(&mut output, ch);
            in_string = !in_string;
            previous_was_space = false;
        } else if in_string {
            push_char(&mut output, ch);
        } else if is_whitespace(ch) {
            if !previous_was_space {
                push_char(&mut output, ' ');
                previous_was_space = true;
            }
        } else {
            push_char(&mut output, ch);
            previous_was_space = false;
        }
        i += 1;
    }
    assert(v@.take(i as int) =~= v@);
    trim(output.as_str())
}

proof fn lemma_compact_fold_stable(s: Seq<char>)
    ensures
        compact_fold(compact_fold(s).0) == compact_fold(s),
    decreases s.len(),
{
    if s.len() > 0 {
        let prev = compact_fold(s.drop_last());
        lemma_compact_fold_stable(s.drop_last());
        let o = compact_fold(s).0;
        if o.len() > prev.0.len() {
            assert(o.drop_last() =~= prev.0);
        }
    }
}

proof fn lemma_compact_fold_prefix(y: Seq<char>, k: int)
    requires
        0 <= k <= y.len(),
    ensures
        compact_fold(y).0.len() <= y.len(),
        compact_fold(y.take(k)).0.len() <= compact_fold(y).0.len(),
        compact_fold(y).0.len() - compact_fold(y.take(k)).0.len() <= y.len() - k,
        compact_fold(y).0.take(compact_fold(y.take(k)).0.len() as int) == compact_fold(y.take(k)).0,
    decreases y.len(),
{
    if y.len() == 0 {
        assert(y.take(k) =~= y);
    } else if k == y.len() {
        assert(y.take(k) =~= y);
        lemma_compact_fold_prefix(y.drop_last(), 0);
        assert(compact_fold(y).0.take(compact_fold(y).0.len() as int) =~= compact_fold(y).0);
    } else {
        lemma_compact_fold_prefix(y.drop_last(), k);
        assert(y.drop_last().take(k) =~= y.take(k));
        let a = compact_fold(y.take(k)).0;
        let b = compact_fold(y.drop_last()).0;
        let c = compact_fold(y).0;
        assert(c.take(a.len() as int) =~= b.take(a.len() as int));
    }
}

proof fn lemma_compact_stable_prefix(y: Seq<char>, k: int)
    requires
        compact_fold(y).0 == y,
        0 <= k <= y.len(),
    ensures
        compact_fold(y.take(k)).0 == y.take(k),
{
    lemma_compact_fold_prefix(y, k);
    lemma_compact_fold_prefix(y.take(k), 0);
}

proof fn lemma_trim_end_is_prefix(s: Seq<char>)
    ensures
        trim_end_seq(s).len() <= s.len(),
        trim_end_seq(s) == s.take(trim_end_seq(s).len() as int),
        trim_end_seq(s).len() > 0 ==> !is_ws(trim_end_seq(s).last()),
    decreases s.len(),
{
    if s.len() > 0 && is_ws(s.last()) {
        lemma_trim_end_is_prefix(s.drop_last());
        assert(s.drop_last().take(trim_end_seq(s).len() as int) =~= s.take(trim_end_seq(s).len() as int));
    } else {
        assert(s.take(s.len() as int) =~= s);
    }
}

proof fn lemma_compact_skip_space(y: Seq<char>, k: int)
    requires
        2 <= k <= y.len(),
        is_ws(y[0]),
        !is_ws(y[1]),
    ensures
        ({
            let f = compact_fold(y.take(k));
            let g = compact_fold(y.drop_first().take(k - 1));
            &&& f.0.len() >= 1
            &&& g == (f.0.drop_first(), f.1, f.2)
        }),
    decreases k,
{
    let z = y.drop_first();
    if k == 2 {
        assert(y.take(2).drop_last() =~= y.take(1));
        assert(y.take(1).drop_last() =~= Seq::<char>::empty());
        assert(z.take(1).drop_last() =~= Seq::<char>::empty());
        assert(z.take(1).last() == y[1]);
        assert(y.take(2).last() == y[1]);
        assert(y.take(1).last() == y[0]);
        assert(compact_fold(Seq::<char>::empty()) == (Seq::<char>::empty(), false, false));
        assert(compact_fold(y.take(1).drop_last()) == (Seq::<char>::empty(), false, false));
        assert(compact_fold(z.take(1).drop_last()) == (Seq::<char>::empty(), false, false));
        let f1 = compact_fold(y.take(1));
        assert(f1.0 =~= seq![' ']);
        assert(!f1.1 && f1.2);
        let f = compact_fold(y.take(2));
        assert(f.0 =~= seq![' ', y[1]]);
        assert(compact_fold(z.take(1)).0 =~= seq![y[1]]);
        assert(f.0.drop_first() =~= compact_fold(z.take(1)).0);
    } else {
        lemma_compact_skip_space(y, k - 1);
        assert(y.take(k).drop_last() =~= y.take(k - 1));
        assert(z.take(k - 1).drop_last() =~= z.take(k - 2));
        let f0 = compact_fold(y.take(k - 1));
        let f = compact_fold(y.take(k));
        if f.0.len() > f0.0.len() {
            assert(f.0.drop_first() =~= f0.0.drop_first().push(f.0.last()));
        }
    }
}

/// Compacting whitespace twice gives what compacting it once gives: runs
/// of whitespace outside string literals are already single spaces, and
/// the ends are already trimmed.
pub proof fn law_compact_whitespace_is_idempotent(s: Seq<char>)
    ensures
        compact_whitespace_spec(compact_whitespace_spec(s)) == compact_whitespace_spec(s),
{
    let o = compact_fold(s).0;
    lemma_compact_fold_stable(s);
    let u = trim_start_seq(o);
    if o.len() > 0 && is_ws(o[0]) {
        if o.len() == 1 {
            assert(o.drop_first() =~= Seq::<char>::empty());
            assert(o.drop_first().len() == 0);
            assert(trim_start_seq(o.drop_first()) =~= Seq::<char>::empty());
            assert(u =~= Seq::<char>::empty());
            assert(compact_fold(Seq::<char>::empty()).0 =~= Seq::<char>::empty());
            return;
        }
        lemma_compact_stable_prefix(o, 2);
        assert(o.take(2).drop_last() =~= o.take(1));
        assert(o.take(1).drop_last() =~= Seq::<char>::empty());
        assert(o.take(1).last() == o[0]);
        assert(o.take(2).last() == o[1]);
        assert(compact_fold(Seq::<char>::empty()) == (Seq::<char>::empty(), false, false));
        assert(compact_fold(o.take(1).drop_last()) == (Seq::<char>::empty(), false, false));
        assert(compact_fold(o.take(1)).0 =~= seq![' ']);
        assert(compact_fold(o.take(2)).0.len() == 2);
        assert(!is_ws(o[1]));
        assert(o.drop_first()[0] == o[1]);
        assert(trim_start_seq(o.drop_first()) == o.drop_first());
        assert(u == o.drop_first());
        lemma_compact_skip_space(o, o.len() as int);
        assert(o.take(o.len() as int) =~= o);
        assert(o.drop_first().take(o.len() - 1) =~= o.drop_first());
    }
    assert(compact_fold(u).0 == u);
    assert(u.len() > 0 ==> !is_ws(u[0]));
    let t = trim_end_seq(u);
    lemma_trim_end_is_prefix(u);
    lemma_compact_stable_prefix(u, t.len() as int);
    assert(compact_fold(t).0 == t);
    assert(t.len() > 0 ==> t[0] == u[0]);
    assert(trim_start_seq(t) == t);
    assert(trim_end_seq(t) == t);
}

/// Doubled quotes inside string literals read as one quote.
pub open spec fn canon_from(s: Seq<char>, i: int, in_string: bool) -> Seq<char>
    decreases s.len() - i,
{
    if i < 0 || i >= s.len() {
        Seq::empty()
    } else if s[i] == '"' {
        if in_string && i + 1 < s.len() && s[i + 1] == '"' {
            seq!['"'] + canon_from(s, i + 2, in_string)
        } else {
            seq!['"'] + canon_from(s, i + 1, !in_string)
        }
    } else {
        seq![s[i]] + canon_from(s, i + 1, in_string)
    }
}

/// How a string literal is shown in an analysis: quoted, or `<redacted>`
/// when it looks like a secret.
pub open spec fn shown_literal(lit: Seq<char>) -> Seq<char> {
    if is_secret_like_spec(lit) {
        "<redacted>"@
    } else {
        seq!['"'] + lit + seq!['"']
    }
}

/// The rest of `redact_literals_in_expression` from position `i`, with a
/// literal open (`in_string`) whose text so far is `current`.
pub open spec fn redact_from(s: Seq<char>, i: int, in_string: bool, current: Seq<char>) -> Seq<char>
    decreases s.len() - i,
{
    if i < 0 || i >= s.len() {
        if in_string {
            "<redacted>"@
        } else {
            Seq::empty()
        }
    } else if s[i] == '"' {
        if in_string && i + 1 < s.len() && s[i + 1] == '"' {
            redact_from(s, i + 2, in_string, current.push('"'))
        } else if in_string {
            shown_literal(current) + redact_from(s, i + 1, false, Seq::empty())
        } else {
            redact_from(s, i + 1, true, current)
        }
    } else if in_string {
        redact_from(s, i + 1, in_string, current.push(s[i]))
    } else {
        seq![s[i]] + redact_from(s, i + 1, in_string, current)
    }
}

pub open spec fn redact_literals_spec(s: Seq<char>) -> Seq<char> {
    redact_from(s, 0, false, Seq::empty())
}

pub open spec fn canonicalize_spec(s: Seq<char>) -> Seq<char> {
    redact_literals_spec(canon_from(compact_whitespace_spec(s), 0, false))
}

pub open spec fn secret_marker_in(l: Seq<char>) -> bool {
    ||| contains_seq(l, "password"@)
    ||| contains_seq(l, "passwd"@)
    ||| contains_seq(l, "pwd"@)
    ||| contains_seq(l, "token"@)
    ||| contains_seq(l, "secret"@)
    ||| contains_seq(l, "bearer"@)
    ||| contains_seq(l, "authorization"@)
    ||| contains_seq(l, "credential"@)
    ||| contains_seq(l, "keychain"@)
    ||| contains_seq(l, "client_secret"@)
    ||| contains_seq(l, "api_key"@)
    ||| contains_seq(l, "private_key"@)
    ||| contains_seq(l, "provider="@)
    ||| contains_seq(l, "data source="@)
    ||| contains_seq(l, "server="@)
    ||| contains_seq(l, "dsn="@)
    ||| contains_seq(l, "uid="@)
    ||| contains_seq(l, "user id="@)
}

/// A literal that looks like a credential, a connection string, a local
/// path, or is longer than 96 bytes.
pub open spec fn is_secret_like_spec(value: Seq<char>) -> bool {
    let t = trim_seq(value);
    if t.len() == 0 {
        false
    } else {
        ||| secret_marker_in(lower_seq(t))
        ||| (contains_seq(t, "://"@) && contains_seq(t, "@"@))
        ||| starts_with(t, "C:\\"@)
        ||| starts_with(t, "\\\\"@)
        ||| starts_with(t, "/"@)
        ||| contains_seq(t, "\\"@)
        ||| byte_len(t) > 96
    }
}

fn secret_marker_check(l: &str) -> (b: bool)
    ensures
        b == secret_marker_in(l@),
{
    contains_str(l, "password") || contains_str(l, "passwd") || contains_str(l, "pwd")
        || contains_str(l, "token") || contains_str(l, "secret") || contains_str(l, "bearer")
        || contains_str(l, "authorization") || contains_str(l, "credential") || contains_str(
        l,
        "keychain",
    ) || contains_str(l, "client_secret") || contains_str(l, "api_key") || contains_str(
        l,
        "private_key",
    ) || contains_str(l, "provider=") || contains_str(l, "data source=") || contains_str(
        l,
        "server=",
    ) || contains_str(l, "dsn=") || contains_str(l, "uid=") || contains_str(l, "user id=")
}

pub fn is_secret_like_literal(value: &str) -> (b: bool)
    ensures
        b == is_secret_like_spec(value@),
{
    let trimmed = trim(value);
    let t = trimmed.as_str();
    if t.unicode_len() == 0 {
        return false;
    }
    let lower = lower_string(t);
    if secret_marker_check(lower.as_str()) {
        return true;
    }
    if contains_str(t, "://") && contains_str(t, "@") {
        return true;
    }
    if starts_with_str(t, "C:\\") || starts_with_str(t, "\\\\") || starts_with_str(t, "/")
        || contains_str(t, "\\") {
        return true;
    }
    t.len() > 96
}

pub fn redact_literals_in_expression(value: &str) -> (r: String)
    ensures
        r@ == redact_literals_spec(value@),
{
    let v = chars_of(value);
    let mut output = String::new();
    let mut in_string = false;
    let mut current = String::new();
    let mut i: usize = 0;
    assert(output@ + redact_literals_spec(v@) =~= redact_literals_spec(v@));
    while i < v.len()
        invariant
            i <= v@.len(),
            v@ == value@,
            output@ + redact_from(v@, i as int, in_string, current@) == redact_literals_spec(
                v@,
            ),
        decreases v@.len() - i,
    {
        let ghost before = output@;
        let ghost rest = redact_from(v@, i as int, in_string, current@);
        let ch = v[i];
        if ch == '"' {
            if in_string && i + 1 < v.len() && v[i + 1] == '"' {
                push_char(&mut current, '"');
                i += 2;
            } else if in_string {
                let ghost lit = current@;
                if is_secret_like_literal(current.as_str()) {
                    append_str(&mut output, "<redacted>");
                } else {
                    push_char(&mut output, '"');
                    append_str(&mut output, current.as_str());
                    push_char(&mut output, '"');
                }
                assert(output@ =~= before + shown_literal(lit));
                current = String::new();
                in_string = false;
                i += 1;
                assert(rest == shown_literal(lit) + redact_from(v@, i as int, false, Seq::empty()));
                assert(output@ + redact_from(v@, i as int, in_string, current@) =~= before + rest);
            } else {
                in_string = true;
                i += 1;
            }
        } else if in_string {
            push_char(&mut current, ch);
            i += 1;
        } else {
            push_char(&mut output, ch);
            i += 1;
            assert(rest == seq![ch] + redact_from(v@, i as int, in_string, current@));
            assert(output@ + redact_from(v@, i as int, in_string, current@) =~= before + rest);
        }
    }
    if in_string {
        append_str(&mut output, "<redacted>");
    }
    output
}

pub fn canonicalize_expression(value: &str) -> (r: String)
    ensures
        r@ == canonicalize_spec(value@),
{
    let compact = compact_whitespace(value);
    let v = chars_of(compact.as_str());
    let mut output = String::new();
    let mut in_string = false;
    let mut i: usize = 0;
    assert(output@ + canon_from(v@, 0, false) =~= canon_from(v@, 0, false));
    while i < v.len()
        invariant
            i <= v@.len(),
            v@ == compact@,
            output@ + canon_from(v@, i as int, in_string) == canon_from(v@, 0, false),
        decreases v@.len() - i,
    {
        let ghost before = output@;
        let ghost rest = canon_from(v@, i as int, in_string);
        let ch = v[i];
        if ch == '"' {
            push_char(&mut output, '"');
            if in_string && i + 1 < v.len() && v[i + 1] == '"' {
                i += 2;
            } else {
                in_string = !in_string;
                i += 1;
            }
        } else {
            push_char(&mut output, ch);
            i += 1;
        }
        assert(output@ + canon_from(v@, i as int, in_string) =~= before + rest);
    }
    assert(output@ =~= canon_from(v@, 0, false));
    redact_literals_in_expression(output.as_str())
}

pub open spec fn is_boolean_literal_spec(value: Seq<char>) -> bool {
    let l = lower_seq(trim_seq(value));
    l == "true"@ || l == "false"@
}

pub fn is_boolean_literal(value: &str) -> (b: bool)
    ensures
        b == is_boolean_literal_spec(value@),
{
    let t = trim(value);
    let l = lower_string(t.as_str());
    same_text(l.as_str(), "true") || same_text(l.as_str(), "false")
}

pub open spec fn is_numeric_literal_spec(value: Seq<char>) -> bool {
    float_syntax(trim_seq(value))
}

/// Whether the trimmed text is a number that `f64` parsing accepts.
pub fn is_numeric_literal(value: &str) -> (b: bool)
    ensures
        b == is_numeric_literal_spec(value@),
{
    let t = trim(value);
    parses_as_float(t.as_str())
}

/// A quoted string literal, rendered with doubled quotes undone, or
/// `<redacted>` when its text looks like a secret.
pub open spec fn render_rhs_string_spec(rhs: Seq<char>) -> Option<Seq<char>> {
    let t = trim_seq(rhs);
    if !starts_with(t, "\""@) || !ends_with(t, "\""@) || byte_len(t) < 2 || t.len() < 2 {
        None
    } else {
        let inner = unescape_quotes(t.subrange(1, t.len() - 1));
        if is_secret_like_spec(inner) {
            Some("<redacted>"@)
        } else {
            Some(seq!['"'] + inner + seq!['"'])
        }
    }
}

pub fn render_rhs_string(rhs: &str) -> (r: Option<String>)
    ensures
        opt_view(r) == render_rhs_string_spec(rhs@),
{
    let trimmed = trim(rhs);
    let t = trimmed.as_str();
    if !starts_with_str(t, "\"") || !ends_with_str(t, "\"") || t.len() < 2 {
        return None;
    }
    let v = chars_of(t);
    if v.len() < 2 {
        return None;
    }
    let body = string_of_range(&v, 1, v.len() - 1);
    let inner = unescape_quote_pairs(body.as_str());
    if is_secret_like_literal(inner.as_str()) {
        Some(owned("<redacted>"))
    } else {
        let mut out = String::new();
        push_char(&mut out, '"');
        append_str(&mut out, inner.as_str());
        push_char(&mut out, '"');
        assert(out@ =~= seq!['"'] + inner@ + seq!['"']);
        Some(out)
    }
}

pub open spec fn opt_view(o: Option<String>) -> Option<Seq<char>> {
    match o {
        Some(s) => Some(s@),
        None => None,
    }
}

pub open spec fn rgb_pattern() -> Seq<char> {
    r"(?i)^RGB\s*\(\s*(\d{1,3})\s*,\s*(\d{1,3})\s*,\s*(\d{1,3})\s*\)$"@
}

/// `RGB(r, g, b)` with three byte-sized decimal components, normalised.
pub open spec fn render_rgb_spec(rhs: Seq<char>) -> Option<Seq<char>> {
    match regex_captures_of(rgb_pattern(), trim_seq(rhs)) {
        None => None,
        Some(g) => match (
            parse_u8_spec(group_text(g, 1)),
            parse_u8_spec(group_text(g, 2)),
            parse_u8_spec(group_text(g, 3)),
        ) {
            (Some(r), Some(gr), Some(b)) => Some(
                "RGB("@ + decimal(r as nat) + ", "@ + decimal(gr as nat) + ", "@ + decimal(
                    b as nat,
                ) + ")"@,
            ),
            _ => None,
        },
    }
}

pub fn render_rgb(rhs: &str) -> (r: Option<String>)
    ensures
        opt_view(r) == render_rgb_spec(rhs@),
{
    let trimmed = trim(rhs);
    let caps = regex_captures(
        r"(?i)^RGB\s*\(\s*(\d{1,3})\s*,\s*(\d{1,3})\s*,\s*(\d{1,3})\s*\)$",
        trimmed.as_str(),
    );
    let groups = match caps {
        Some(g) => g,
        None => return None,
    };
    let red = match parse_u8(group_string(&groups, 1).as_str()) {
        Some(x) => x,
        None => return None,
    };
    let green = match parse_u8(group_string(&groups, 2).as_str()) {
        Some(x) => x,
        None => return None,
    };
    let blue = match parse_u8(group_string(&groups, 3).as_str()) {
        Some(x) => x,
        None => return None,
    };
    let mut out = owned("RGB(");
    append_str(&mut out, decimal_string(red as usize).as_str());
    append_str(&mut out, ", ");
    append_str(&mut out, decimal_string(green as usize).as_str());
    append_str(&mut out, ", ");
    append_str(&mut out, decimal_string(blue as usize).as_str());
    append_str(&mut out, ")");
    Some(out)
}

/// The first rendering of a right-hand side that applies: string literal,
/// boolean, number, then colour.
pub open spec fn render_rhs_literal_spec(rhs: Seq<char>) -> Option<Seq<char>> {
    if render_rhs_string_spec(rhs) is Some {
        render_rhs_string_spec(rhs)
    } else if is_boolean_literal_spec(rhs) {
        Some(lower_seq(trim_seq(rhs)))
    } else if is_numeric_literal_spec(rhs) {
        Some(trim_seq(rhs))
    } else {
        render_rgb_spec(rhs)
    }
}

pub fn render_rhs_literal(rhs: &str) -> (r: Option<String>)
    ensures
        opt_view(r) == render_rhs_literal_spec(rhs@),
{
    if let Some(value) = render_rhs_string(rhs) {
        return Some(value);
    }
    if is_boolean_literal(rhs) {
        let t = trim(rhs);
        return Some(lower_string(t.as_str()));
    }
    if is_numeric_literal(rhs) {
        return Some(trim(rhs));
    }
    render_rgb(rhs)
}

/// The first `=` outside string literals splits a statement into a
/// left-hand side and a right-hand side, both trimmed; no split when a side
/// is empty or the `=` ends a comparison operator (`<=`, `>=`, `:=`).
pub open spec fn assignment_from(s: Seq<char>, i: int, in_string: bool) -> Option<(Seq<char>, Seq<char>)>
    decreases s.len() - i,
{
    if i < 0 || i >= s.len() {
        None
    } else if s[i] == '"' {
        if in_string && i + 1 < s.len() && s[i + 1] == '"' {
            assignment_from(s, i + 2, in_string)
        } else {
            assignment_from(s, i + 1, !in_string)
        }
    } else if in_string {
        assignment_from(s, i + 1, in_string)
    } else if s[i] == '=' {
        let lhs = trim_seq(s.take(i));
        let rhs = trim_seq(s.skip(i + 1));
        if lhs.len() == 0 || rhs.len() == 0 {
            None
        } else if ends_with(lhs, "<"@) || ends_with(lhs, ">"@) || ends_with(lhs, ":"@) {
            None
        } else {
            Some((lhs, rhs))
        }
    } else {
        assignment_from(s, i + 1, in_string)
    }
}

pub open spec fn split_assignment_spec(s: Seq<char>) -> Option<(Seq<char>, Seq<char>)> {
    assignment_from(s, 0, false)
}

pub open spec fn pair_view(o: Option<(String, String)>) -> Option<(Seq<char>, Seq<char>)> {
    match o {
        Some((a, b)) => Some((a@, b@)),
        None => None,
    }
}

pub fn split_assignment(statement: &str) -> (r: Option<(String, String)>)
    ensures
        pair_view(r) == split_assignment_spec(statement@),
{
    let v = chars_of(statement);
    let mut in_string = false;
    let mut index: usize = 0;
    while index < v.len()
        invariant
            index <= v@.len(),
            v@ == statement@,
            assignment_from(v@, index as int, in_string) == split_assignment_spec(v@),
        decreases v@.len() - index,
    {
        let ch = v[index];
        if ch == '"' {
            if in_string && index + 1 < v.len() && v[index + 1] == '"' {
                index += 2;
                continue;
            }
            in_string = !in_string;
            index += 1;
            continue;
        }
        if in_string {
            index += 1;
            continue;
        }
        if ch == '=' {
            let left = string_of_range(&v, 0, index);
            let right = string_of_range(&v, index + 1, v.len());
            assert(left@ =~= v@.take(index as int));
            assert(right@ =~= v@.skip(index + 1));
            let lhs = trim(left.as_str());
            let rhs = trim(right.as_str());
            if lhs.unicode_len() == 0 || rhs.unicode_len() == 0 {
                return None;
            }
            if ends_with_str(lhs.as_str(), "<") || ends_with_str(lhs.as_str(), ">")
                || ends_with_str(lhs.as_str(), ":") {
                return None;
            }
            return Some((lhs, rhs));
        }
        index += 1;
    }
    None
}

pub open spec fn is_supported_root_spec(lhs: Seq<char>) -> bool {
    let n = trim_start_seq(lhs);
    starts_with(n, "Selection"@) || starts_with(n, "ActiveCell"@) || starts_with(n, "Range("@)
        || starts_with(n, "Cells("@)
}

pub fn is_supported_root(lhs: &str) -> (b: bool)
    ensures
        b == is_supported_root_spec(lhs@),
{
    let n = trim_start(lhs);
    let t = n.as_str();
    starts_with_str(t, "Selection") || starts_with_str(t, "ActiveCell") || starts_with_str(
        t,
        "Range(",
    ) || starts_with_str(t, "Cells(")
}

pub open spec fn looks_like_supported_target_spec(lhs: Seq<char>) -> bool {
    let n = compact_whitespace_spec(lhs);
    is_supported_root_spec(n) && contains_seq(n, "."@) && !starts_with(n, "Dim "@)
        && !starts_with(n, "Set "@)
}

pub fn looks_like_supported_target(lhs: &str) -> (b: bool)
    ensures
        b == looks_like_supported_target_spec(lhs@),
{
    let n = compact_whitespace(lhs);
    let t = n.as_str();
    is_supported_root(t) && contains_str(t, ".") && !starts_with_str(t, "Dim ")
        && !starts_with_str(t, "Set ")
}

/// The recorder operation that an assignment target performs.
pub open spec fn classify_supported_operation_spec(lhs: Seq<char>) -> Option<Seq<char>> {
    let n = compact_whitespace_spec(lhs);
    if !is_supported_root_spec(n) {
        None
    } else if ends_with(n, ".Value"@) || ends_with(n, ".Text"@) {
        Some("SetCellValue"@)
    } else if ends_with(n, ".Formula"@) || ends_with(n, ".FormulaLocal"@) {
        Some("SetCellFormula"@)
    } else if ends_with(n, ".Font.Bold"@) {
        Some("SetFontBold"@)
    } else if ends_with(n, ".Font.Italic"@) {
        Some("SetFontItalic"@)
    } else if ends_with(n, ".Font.Name"@) {
        Some("SetFontName"@)
    } else if ends_with(n, ".Font.Size"@) {
        Some("SetFontSize"@)
    } else if ends_with(n, ".Font.Color"@) {
        Some("SetTextColor"@)
    } else if ends_with(n, ".Interior.Color"@) {
        Some("SetFillColor"@)
    } else if ends_with(n, ".NumberFormat"@) {
        Some("SetNumberFormat"@)
    } else if ends_with(n, ".WrapText"@) {
        Some("SetWrap"@)
    } else if ends_with(n, ".HorizontalAlignment"@) {
        Some("SetAlignHorizontal"@)
    } else if ends_with(n, ".VerticalAlignment"@) {
        Some("SetAlignVertical"@)
    } else {
        None
    }
}

pub fn classify_supported_operation(lhs: &str) -> (r: Option<String>)
    ensures
        opt_view(r) == classify_supported_operation_spec(lhs@),
{
    let normalized = compact_whitespace(lhs);
    let n = normalized.as_str();
    if !is_supported_root(n) {
        return None;
    }
    let operation = if ends_with_str(n, ".Value") || ends_with_str(n, ".Text") {
        "SetCellValue"
    } else if ends_with_str(n, ".Formula") || ends_with_str(n, ".FormulaLocal") {
        "SetCellFormula"
    } else if ends_with_str(n, ".Font.Bold") {
        "SetFontBold"
    } else if ends_with_str(n, ".Font.Italic") {
        "SetFontItalic"
    } else if ends_with_str(n, ".Font.Name") {
        "SetFontName"
    } else if ends_with_str(n, ".Font.Size") {
        "SetFontSize"
    } else if ends_with_str(n, ".Font.Color") {
        "SetTextColor"
    } else if ends_with_str(n, ".Interior.Color") {
        "SetFillColor"
    } else if ends_with_str(n, ".NumberFormat") {
        "SetNumberFormat"
    } else if ends_with_str(n, ".WrapText") {
        "SetWrap"
    } else if ends_with_str(n, ".HorizontalAlignment") {
        "SetAlignHorizontal"
    } else if ends_with_str(n, ".VerticalAlignment") {
        "SetAlignVertical"
    } else {
        return None;
    };
    Some(owned(operation))
}

/// Calls that the first analyzer slice refuses: pattern, operation name, reason.
pub open spec fn unsupported_calls() -> Seq<(Seq<char>, Seq<char>, Seq<char>)> {
    seq![
        (r"(?i)\bCreateObject\s*\("@, "CreateObject"@, "COM automation is not supported by the first ONLYOFFICE analyzer slice."@),
        (r"(?i)\bGetObject\s*\("@, "GetObject"@, "late-bound COM access is not supported by the first ONLYOFFICE analyzer slice."@),
        (r"(?i)\bCallByName\s*\("@, "CallByName"@, "dynamic invocation is not supported by the first ONLYOFFICE analyzer slice."@),
        (r"(?i)\bShell\s*\("@, "Shell"@, "shell execution is not supported by the first ONLYOFFICE analyzer slice."@),
        (r"(?i)\bOpen\b.*\bFor\b"@, "FileOpen"@, "file I/O is not supported by the first ONLYOFFICE analyzer slice."@),
        (r"(?i)\bKill\b"@, "Kill"@, "file deletion is not supported by the first ONLYOFFICE analyzer slice."@),
        (r"(?i)\bFileCopy\b"@, "FileCopy"@, "file copy operations are not supported by the first ONLYOFFICE analyzer slice."@),
        (r"(?i)\bMkDir\b"@, "MkDir"@, "directory creation is not supported by the first ONLYOFFICE analyzer slice."@),
        (r"(?i)\bOn\s+Error\b"@, "OnError"@, "error handling is not supported by the first ONLYOFFICE analyzer slice."@),
        (r"(?i)\bWith\b"@, "WithBlock"@, "With blocks are not supported by the first ONLYOFFICE analyzer slice."@),
        (r"(?i)\bSelect\s+Case\b"@, "SelectCase"@, "branching blocks are not supported by the first ONLYOFFICE analyzer slice."@),
        (r"(?i)\bEnviron\s*\("@, "EnvironmentRead"@, "environment reads are not supported by the first ONLYOFFICE analyzer slice."@),
    ]
}

fn unsupported_call(i: usize) -> (r: (&'static str, &'static str, &'static str))
    requires
        i < 12,
    ensures
        (r.0@, r.1@, r.2@) == unsupported_calls()[i as int],
{
    match i {
        0 => (r"(?i)\bCreateObject\s*\(", "CreateObject", "COM automation is not supported by the first ONLYOFFICE analyzer slice."),
        1 => (r"(?i)\bGetObject\s*\(", "GetObject", "late-bound COM access is not supported by the first ONLYOFFICE analyzer slice."),
        2 => (r"(?i)\bCallByName\s*\(", "CallByName", "dynamic invocation is not supported by the first ONLYOFFICE analyzer slice."),
        3 => (r"(?i)\bShell\s*\(", "Shell", "shell execution is not supported by the first ONLYOFFICE analyzer slice."),
        4 => (r"(?i)\bOpen\b.*\bFor\b", "FileOpen", "file I/O is not supported by the first ONLYOFFICE analyzer slice."),
        5 => (r"(?i)\bKill\b", "Kill", "file deletion is not supported by the first ONLYOFFICE analyzer slice."),
        6 => (r"(?i)\bFileCopy\b", "FileCopy", "file copy operations are not supported by the first ONLYOFFICE analyzer slice."),
        7 => (r"(?i)\bMkDir\b", "MkDir", "directory creation is not supported by the first ONLYOFFICE analyzer slice."),
        8 => (r"(?i)\bOn\s+Error\b", "OnError", "error handling is not supported by the first ONLYOFFICE analyzer slice."),
        9 => (r"(?i)\bWith\b", "WithBlock", "With blocks are not supported by the first ONLYOFFICE analyzer slice."),
        10 => (r"(?i)\bSelect\s+Case\b", "SelectCase", "branching blocks are not supported by the first ONLYOFFICE analyzer slice."),
        _ => (r"(?i)\bEnviron\s*\(", "EnvironmentRead", "environment reads are not supported by the first ONLYOFFICE analyzer slice."),
    }
}

/// The first refused call whose pattern matches the statement.
pub open spec fn unsupported_keyword_from(statement: Seq<char>, i: int) -> Option<(Seq<char>, Seq<char>)>
    decreases 12 - i,
{
    if i < 0 || i >= 12 {
        None
    } else if regex_matches(unsupported_calls()[i].0, statement) {
        Some((unsupported_calls()[i].1, unsupported_calls()[i].2))
    } else {
        unsupported_keyword_from(statement, i + 1)
    }
}

pub open spec fn classify_unsupported_keyword_spec(statement: Seq<char>) -> Option<(Seq<char>, Seq<char>)> {
    unsupported_keyword_from(statement, 0)
}

pub fn classify_unsupported_keyword(statement: &str) -> (r: Option<(&'static str, &'static str)>)
    ensures
        match r {
            Some((op, reason)) => classify_unsupported_keyword_spec(statement@) == Some((op@, reason@)),
            None => classify_unsupported_keyword_spec(statement@) is None,
        },
{
    let mut i: usize = 0;
    while i < 12
        invariant
            i <= 12,
            unsupported_keyword_from(statement@, i as int) == classify_unsupported_keyword_spec(statement@),
        decreases 12 - i,
    {
        let (pattern, operation, reason) = unsupported_call(i);
        if regex_is_match(pattern, statement) {
            return Some((operation, reason));
        }
        i += 1;
    }
    None
}

pub open spec fn unsupported_member_pattern() -> Seq<char> {
    r"(?i)^(.*?)(?:\.)(Merge|UnMerge|Sort|AutoFilter|AddComment|AddHyperlink|Comments\.Add|Hyperlinks\.Add|PasteSpecial|ClearContents|ClearFormats|Protect|Unprotect)\s*(?:(?:\(.*\))|(?:.+))?\s*$"@
}

/// A classified statement: operation, target, rendered value, whether it is
/// supported, the reason when it is not, and whether a value was redacted.
pub type ClassifiedStatement = (String, String, Option<String>, bool, Option<String>, bool);

pub type ClassifiedModel = (Seq<char>, Seq<char>, Option<Seq<char>>, bool, Option<Seq<char>>, bool);

pub open spec fn classified_view(c: ClassifiedStatement) -> ClassifiedModel {
    (c.0@, c.1@, opt_view(c.2), c.3, opt_view(c.4), c.5)
}

pub open spec fn opt_classified_view(c: Option<ClassifiedStatement>) -> Option<ClassifiedModel> {
    match c {
        Some(x) => Some(classified_view(x)),
        None => None,
    }
}

pub open spec fn refused(op: Seq<char>, target: Seq<char>, reason: Seq<char>) -> Option<ClassifiedModel> {
    Some((op, target, None, false, Some(reason), false))
}

pub open spec fn accepted(op: Seq<char>, target: Seq<char>, value: Seq<char>) -> Option<ClassifiedModel> {
    Some((op, target, Some(value), true, None, value == "<redacted>"@))
}

/// How a supported recorder operation's right-hand side is judged.
pub open spec fn classify_operation_spec(op: Seq<char>, target: Seq<char>, rhs: Seq<char>) -> Option<ClassifiedModel> {
    if op == "SetCellValue"@ {
        match render_rhs_literal_spec(rhs) {
            Some(v) => accepted(op, target, v),
            None => refused(op, target, "cell value assignments must use a literal or redacted literal."@),
        }
    } else if op == "SetCellFormula"@ {
        match render_rhs_string_spec(rhs) {
            None => refused(op, target, "cell formulas must use a string literal that starts with =."@),
            Some(v) => if !starts_with(trim_leading_quotes(v), "="@) {
                refused(op, target, "cell formulas must start with =."@)
            } else {
                accepted(op, target, v)
            },
        }
    } else if op == "SetFontBold"@ || op == "SetFontItalic"@ || op == "SetWrap"@ {
        if is_boolean_literal_spec(rhs) {
            Some((op, target, Some(lower_seq(trim_seq(rhs))), true, None, false))
        } else {
            refused(op, target, "the property expects a boolean literal."@)
        }
    } else if op == "SetFontSize"@ {
        if is_numeric_literal_spec(rhs) {
            Some((op, target, Some(trim_seq(rhs)), true, None, false))
        } else {
            refused(op, target, "font size expects a numeric literal."@)
        }
    } else if op == "SetFontName"@ || op == "SetNumberFormat"@ {
        match render_rhs_string_spec(rhs) {
            None => refused(op, target, "the property expects a string literal."@),
            Some(v) => accepted(op, target, v),
        }
    } else if op == "SetTextColor"@ || op == "SetFillColor"@ {
        match render_rgb_spec(rhs) {
            None => refused(op, target, "the color property expects RGB(r, g, b)."@),
            Some(v) => Some((op, target, Some(v), true, None, false)),
        }
    } else if op == "SetAlignHorizontal"@ || op == "SetAlignVertical"@ {
        if is_numeric_literal_spec(rhs) {
            Some((op, target, Some(trim_seq(rhs)), true, None, false))
        } else {
            match render_rhs_string_spec(rhs) {
                Some(v) => accepted(op, target, v),
                None => refused(op, target, "alignment expects a numeric literal or quoted string."@),
            }
        }
    } else {
        refused(op, target, "assignment target is not supported by the first ONLYOFFICE analyzer slice."@)
    }
}

/// How one statement of a `Sub` body is classified; `None` when it is not
/// an operation at all.
pub open spec fn classify_statement_spec(statement: Seq<char>) -> Option<ClassifiedModel> {
    classify_with_spec(
        statement,
        classify_unsupported_keyword_spec(statement),
        regex_captures_of(unsupported_member_pattern(), statement),
    )
}

/// How a statement is classified once it is known which unsupported
/// keyword (if any) it uses and what the deferred-member pattern captured
/// in it (if it matched).
pub open spec fn classify_with_spec(
    statement: Seq<char>,
    keyword: Option<(Seq<char>, Seq<char>)>,
    member: Option<Seq<Option<Seq<char>>>>,
) -> Option<ClassifiedModel> {
    match keyword {
        Some((op, reason)) => refused(op, canonicalize_spec(statement), reason),
        None => match member {
            Some(g) => refused(
                group_text(g, 2),
                canonicalize_spec(statement),
                "this spreadsheet operation is deferred from the first ONLYOFFICE analyzer slice."@,
            ),
            None => match split_assignment_spec(statement) {
                None => None,
                Some((lhs, rhs)) => if !looks_like_supported_target_spec(lhs) {
                    None
                } else {
                    match classify_supported_operation_spec(lhs) {
                        None => refused(
                            "UnsupportedAssignment"@,
                            canonicalize_spec(lhs),
                            "assignment target is outside the supported recorder subset."@,
                        ),
                        Some(op) => classify_operation_spec(op, canonicalize_spec(lhs), trim_seq(rhs)),
                    }
                },
            },
        },
    }
}

fn refuse(op: String, target: String, reason: &str) -> (r: Option<ClassifiedStatement>)
    ensures
        opt_classified_view(r) == refused(op@, target@, reason@),
{
    Some((op, target, None, false, Some(owned(reason)), false))
}

fn accept(op: String, target: String, value: String) -> (r: Option<ClassifiedStatement>)
    ensures
        opt_classified_view(r) == accepted(op@, target@, value@),
{
    let redacted = same_text(value.as_str(), "<redacted>");
    Some((op, target, Some(value), true, None, redacted))
}

fn classify_operation(op: String, target: String, rhs: &str) -> (r: Option<ClassifiedStatement>)
    ensures
        opt_classified_view(r) == classify_operation_spec(op@, target@, rhs@),
{
    let o = op.as_str();
    if same_text(o, "SetCellValue") {
        match render_rhs_literal(rhs) {
            Some(value) => accept(op, target, value),
            None => refuse(op, target, "cell value assignments must use a literal or redacted literal."),
        }
    } else if same_text(o, "SetCellFormula") {
        match render_rhs_string(rhs) {
            None => refuse(op, target, "cell formulas must use a string literal that starts with =."),
            Some(value) => {
                let unquoted = trim_start_quotes(value.as_str());
                if !starts_with_str(unquoted.as_str(), "=") {
                    refuse(op, target, "cell formulas must start with =.")
                } else {
                    accept(op, target, value)
                }
            },
        }
    } else if same_text(o, "SetFontBold") || same_text(o, "SetFontItalic") || same_text(o, "SetWrap") {
        if is_boolean_literal(rhs) {
            let t = trim(rhs);
            let value = lower_string(t.as_str());
            Some((op, target, Some(value), true, None, false))
        } else {
            refuse(op, target, "the property expects a boolean literal.")
        }
    } else if same_text(o, "SetFontSize") {
        if is_numeric_literal(rhs) {
            Some((op, target, Some(trim(rhs)), true, None, false))
        } else {
            refuse(op, target, "font size expects a numeric literal.")
        }
    } else if same_text(o, "SetFontName") || same_text(o, "SetNumberFormat") {
        match render_rhs_string(rhs) {
            None => refuse(op, target, "the property expects a string literal."),
            Some(value) => accept(op, target, value),
        }
    } else if same_text(o, "SetTextColor") || same_text(o, "SetFillColor") {
        match render_rgb(rhs) {
            None => refuse(op, target, "the color property expects RGB(r, g, b)."),
            Some(value) => Some((op, target, Some(value), true, None, false)),
        }
    } else if same_text(o, "SetAlignHorizontal") || same_text(o, "SetAlignVertical") {
        if is_numeric_literal(rhs) {
            Some((op, target, Some(trim(rhs)), true, None, false))
        } else {
            match render_rhs_string(rhs) {
                Some(value) => accept(op, target, value),
                None => refuse(op, target, "alignment expects a numeric literal or quoted string."),
            }
        }
    } else {
        refuse(op, target, "assignment target is not supported by the first ONLYOFFICE analyzer slice.")
    }
}

pub fn classify_statement(statement: &str) -> (r: Option<ClassifiedStatement>)
    ensures
        opt_classified_view(r) == classify_statement_spec(statement@),
{
    let keyword = classify_unsupported_keyword(statement);
    let member = regex_captures(
        r"(?i)^(.*?)(?:\.)(Merge|UnMerge|Sort|AutoFilter|AddComment|AddHyperlink|Comments\.Add|Hyperlinks\.Add|PasteSpecial|ClearContents|ClearFormats|Protect|Unprotect)\s*(?:(?:\(.*\))|(?:.+))?\s*$",
        statement,
    );
    classify_statement_with(statement, keyword, member)
}

/// Classifies a statement given the unsupported keyword it uses (if any)
/// and what the deferred-member pattern captured in it (if it matched).
pub fn classify_statement_with(
    statement: &str,
    keyword: Option<(&str, &str)>,
    member: Option<Vec<Option<String>>>,
) -> (r: Option<ClassifiedStatement>)
    ensures
        opt_classified_view(r) == classify_with_spec(
            statement@,
            match keyword {
                Some((op, reason)) => Some((op@, reason@)),
                None => None,
            },
            captures_view(member),
        ),
{
    if let Some((operation, reason)) = keyword {
        return refuse(owned(operation), canonicalize_expression(statement), reason);
    }
    if let Some(groups) = member {
        let target = canonicalize_expression(statement);
        return refuse(
            group_string(&groups, 2),
            target,
            "this spreadsheet operation is deferred from the first ONLYOFFICE analyzer slice.",
        );
    }
    let (lhs, rhs) = match split_assignment(statement) {
        Some(parts) => parts,
        None => return None,
    };
    if !looks_like_supported_target(lhs.as_str()) {
        return None;
    }
    let target = canonicalize_expression(lhs.as_str());
    let rhs = trim(rhs.as_str());
    match classify_supported_operation(lhs.as_str()) {
        None => refuse(
            owned("UnsupportedAssignment"),
            target,
            "assignment target is outside the supported recorder subset.",
        ),
        Some(operation) => classify_operation(operation, target, rhs.as_str()),
    }
}

pub open spec fn has_continuation_spec(line: Seq<char>) -> bool {
    ends_with(trim_end_seq(strip_comment_spec(line)), "_"@)
}

pub fn line_has_vba_continuation(line: &str) -> (b: bool)
    ensures
        b == has_continuation_spec(line@),
{
    let stripped = strip_comment(line);
    let t = trim_end(stripped.as_str());
    ends_with_str(t.as_str(), "_")
}

/// The line without trailing whitespace and one trailing underscore.
pub open spec fn trim_continuation_spec(line: Seq<char>) -> Seq<char> {
    let t = trim_end_seq(line);
    if t.len() > 0 && t.last() == '_' {
        trim_end_seq(t.drop_last())
    } else {
        trim_end_seq(t)
    }
}

pub fn trim_vba_line_continuation(line: &str) -> (r: String)
    ensures
        r@ == trim_continuation_spec(line@),
{
    let t = trim_end(line);
    let v = chars_of(t.as_str());
    if v.len() > 0 && v[v.len() - 1] == '_' {
        let cut = string_of_range(&v, 0, v.len() - 1);
        assert(cut@ =~= v@.drop_last());
        trim_end(cut.as_str())
    } else {
        trim_end(t.as_str())
    }
}

/// One step of joining continued lines: line `index` is appended to the
/// line that the open continuation started, if any.
pub open spec fn join_step(lines: Seq<Seq<char>>, anchor: Option<int>, index: int) -> (Seq<Seq<char>>, Option<int>) {
    let target = match anchor {
        Some(t) => t,
        None => index,
    };
    let joined = if index != target {
        let continuation = trim_start_seq(lines[index]);
        let base = trim_continuation_spec(lines[target]);
        let merged = if continuation.len() == 0 {
            base
        } else {
            base + seq![' '] + continuation
        };
        lines.update(target, merged).update(index, Seq::empty())
    } else {
        lines
    };
    (joined, if has_continuation_spec(joined[target]) { Some(target) } else { None })
}

pub open spec fn join_fold(lines: Seq<Seq<char>>, k: nat) -> (Seq<Seq<char>>, Option<int>)
    decreases k,
{
    if k == 0 {
        (lines, None)
    } else {
        let st = join_fold(lines, (k - 1) as nat);
        join_step(st.0, st.1, k - 1)
    }
}

/// The source lines with each continued line (ending in `_`) joined to the
/// lines that follow it; joined-in lines become empty, so line numbers are kept.
pub open spec fn split_lines_spec(value: Seq<char>) -> Seq<Seq<char>> {
    let l = str_lines(value);
    join_fold(l, l.len()).0
}

pub proof fn lemma_join_fold_shape(lines: Seq<Seq<char>>, k: nat)
    requires
        k <= lines.len(),
    ensures
        join_fold(lines, k).0.len() == lines.len(),
        join_fold(lines, k).1 matches Some(t) ==> 0 <= t < k,
    decreases k,
{
    if k > 0 {
        lemma_join_fold_shape(lines, (k - 1) as nat);
    }
}

pub fn split_lines(value: &str) -> (r: Vec<String>)
    ensures
        r.deep_view() == split_lines_spec(value@),
{
    let mut lines = lines_of(value);
    let ghost l0 = lines.deep_view();
    let mut anchor: Option<usize> = None;
    let mut index: usize = 0;
    while index < lines.len()
        invariant
            index <= lines@.len(),
            l0 == str_lines(value@),
            l0.len() == lines@.len(),
            (lines.deep_view(), match anchor {
                Some(t) => Some(t as int),
                None => None,
            }) == join_fold(l0, index as nat),
            anchor matches Some(t) ==> t < index,
        decreases lines@.len() - index,
    {
        proof {
            lemma_join_fold_shape(l0, index as nat);
        }
        let ghost pre = lines.deep_view();
        let target = match anchor {
            Some(t) => t,
            None => index,
        };
        if index != target {
            assert(pre[index as int] == lines@[index as int]@);
            assert(pre[target as int] == lines@[target as int]@);
            let continuation = trim_start(lines[index].as_str());
            let base = trim_vba_line_continuation(lines[target].as_str());
            let merged = if continuation.unicode_len() == 0 {
                base
            } else {
                let mut m = base;
                push_char(&mut m, ' ');
                append_str(&mut m, continuation.as_str());
                m
            };
            let ghost mv = merged@;
            assert(mv == (if trim_start_seq(pre[index as int]).len() == 0 {
                trim_continuation_spec(pre[target as int])
            } else {
                trim_continuation_spec(pre[target as int]) + seq![' '] + trim_start_seq(pre[index as int])
            }));
            lines.set(target, merged);
            lines.set(index, String::new());
            assert(lines.deep_view() =~= pre.update(target as int, mv).update(index as int, Seq::empty()));
        } else {
            assert(lines.deep_view() =~= pre);
        }
        assert(lines.deep_view() == join_step(pre, match anchor {
            Some(t) => Some(t as int),
            None => None,
        }, index as int).0);
        if line_has_vba_continuation(lines[target].as_str()) {
            anchor = Some(target);
        } else {
            anchor = None;
        }
        index += 1;
    }
    lines
}

pub open spec fn is_harmless_spec(statement: Seq<char>) -> bool {
    let n = upper_seq(compact_whitespace_spec(statement));
    ||| n == "END IF"@
    ||| n == "END SELECT"@
    ||| n == "ELSE"@
    ||| n == "ELSEIF"@
    ||| n == "CASE"@
    ||| n == "CASE ELSE"@
    ||| n == "NEXT"@
    ||| n == "LOOP"@
    ||| n == "WEND"@
    ||| starts_with(n, "DIM "@)
    ||| starts_with(n, "CONST "@)
    ||| starts_with(n, "STATIC "@)
    ||| starts_with(n, "ATTRIBUTE "@)
    ||| starts_with(n, "OPTION "@)
    ||| starts_with(n, "REM "@)
    ||| starts_with(n, "DECLARE "@)
    ||| starts_with(n, "EXIT "@)
}

/// Declarations, block ends and exits, which neither act nor block.
pub fn is_harmless_procedure_line(statement: &str) -> (b: bool)
    ensures
        b == is_harmless_spec(statement@),
{
    let c = compact_whitespace(statement);
    let u = upper_string(c.as_str());
    let n = u.as_str();
    same_text(n, "END IF") || same_text(n, "END SELECT") || same_text(n, "ELSE") || same_text(
        n,
        "ELSEIF",
    ) || same_text(n, "CASE") || same_text(n, "CASE ELSE") || same_text(n, "NEXT") || same_text(
        n,
        "LOOP",
    ) || same_text(n, "WEND") || starts_with_str(n, "DIM ") || starts_with_str(n, "CONST ")
        || starts_with_str(n, "STATIC ") || starts_with_str(n, "ATTRIBUTE ") || starts_with_str(
        n,
        "OPTION ",
    ) || starts_with_str(n, "REM ") || starts_with_str(n, "DECLARE ") || starts_with_str(
        n,
        "EXIT ",
    )
}

/// The part of a name before its first underscore.
pub open spec fn name_head(name: Seq<char>) -> Seq<char> {
    match index_of(name, '_') {
        Some(k) => name.take(k),
        None => name,
    }
}

pub open spec fn is_event_name_spec(name: Seq<char>) -> bool {
    let h = name_head(name);
    h == "Workbook"@ || h == "Worksheet"@ || h == "Application"@ || h == "Chart"@ || h
        == "Document"@
}

/// Event handlers are named after their host object: `Workbook_Open`.
pub fn is_event_procedure_name(name: &str) -> (b: bool)
    ensures
        b == is_event_name_spec(name@),
{
    let v = chars_of(name);
    let head = match find_char(&v, '_') {
        Some(k) => {
            proof {
                lemma_index_of_from_bounds(v@, '_', 0);
            }
            string_of_range(&v, 0, k)
        },
        None => string_of(&v),
    };
    assert(head@ =~= name_head(name@));
    let h = head.as_str();
    same_text(h, "Workbook") || same_text(h, "Worksheet") || same_text(h, "Application")
        || same_text(h, "Chart") || same_text(h, "Document")
}

pub open spec fn procedure_start_pattern() -> Seq<char> {
    r"(?i)^\s*(?:Public\s+|Private\s+|Friend\s+|Static\s+)?Sub\s+([A-Za-z_][A-Za-z0-9_]*)\s*(?:\([^)]*\))?\s*$"@
}

pub open spec fn function_start_pattern() -> Seq<char> {
    r"(?i)^\s*(?:Public\s+|Private\s+|Friend\s+|Static\s+)?Function\s+([A-Za-z_][A-Za-z0-9_]*)\s*(?:\([^)]*\))?\s*(?:As\s+[A-Za-z_][A-Za-z0-9_]*)?\s*$"@
}

pub open spec fn end_sub_pattern() -> Seq<char> {
    r"(?i)^\s*End\s+Sub\s*$"@
}

pub open spec fn end_function_pattern() -> Seq<char> {
    r"(?i)^\s*End\s+Function\s*$"@
}

/// A line without its comment, trimmed.
pub open spec fn statement_text(line: Seq<char>) -> Seq<char> {
    trim_seq(strip_comment_spec(line))
}

/// Index of the line that ends the procedure body starting at `i`: the first
/// `End Sub` (or `End Function`), else the last line.
pub open spec fn procedure_end_from(lines: Seq<Seq<char>>, i: int, function: bool) -> int
    decreases lines.len() - i,
{
    if i < 0 || i >= lines.len() {
        if lines.len() > 0 {
            lines.len() - 1
        } else {
            0
        }
    } else if regex_matches(
        if function {
            end_function_pattern()
        } else {
            end_sub_pattern()
        },
        statement_text(lines[i]),
    ) {
        i
    } else {
        procedure_end_from(lines, i + 1, function)
    }
}

/// Whether the procedure declared on the line before `start` is an event handler.
pub open spec fn starts_event_procedure(lines: Seq<Seq<char>>, start: int) -> bool {
    if start > 0 && start - 1 < lines.len() {
        match regex_captures_of(procedure_start_pattern(), statement_text(lines[start - 1])) {
            Some(g) => is_event_name_spec(group_text(g, 1)),
            None => false,
        }
    } else {
        false
    }
}

pub proof fn lemma_procedure_end_bounds(lines: Seq<Seq<char>>, i: int, function: bool)
    requires
        0 < i <= lines.len(),
    ensures
        i - 1 <= procedure_end_from(lines, i, function) < lines.len(),
    decreases lines.len() - i,
{
    if i < lines.len() {
        lemma_procedure_end_bounds(lines, i + 1, function);
    }
}

pub fn scan_procedure_end(lines: &Vec<String>, start_index: usize, function: bool) -> (r: (usize, bool))
    ensures
        r.0 == procedure_end_from(lines.deep_view(), start_index as int, function),
        r.1 == starts_event_procedure(lines.deep_view(), start_index as int),
{
    let ghost lv = lines.deep_view();
    let mut event_like = false;
    if start_index > 0 && start_index - 1 < lines.len() {
        let stripped = strip_comment(lines[start_index - 1].as_str());
        let start_line = trim(stripped.as_str());
        if let Some(groups) = regex_captures(
            r"(?i)^\s*(?:Public\s+|Private\s+|Friend\s+|Static\s+)?Sub\s+([A-Za-z_][A-Za-z0-9_]*)\s*(?:\([^)]*\))?\s*$",
            start_line.as_str(),
        ) {
            event_like = is_event_procedure_name(group_string(&groups, 1).as_str());
        }
    }
    let mut index = start_index;
    while index < lines.len()
        invariant
            lv == lines.deep_view(),
            event_like == starts_event_procedure(lv, start_index as int),
            start_index <= index,
            procedure_end_from(lv, index as int, function) == procedure_end_from(
                lv,
                start_index as int,
                function,
            ),
        decreases lines@.len() - index,
    {
        let stripped = strip_comment(lines[index].as_str());
        let trimmed = trim(stripped.as_str());
        let found = if function {
            regex_is_match(r"(?i)^\s*End\s+Function\s*$", trimmed.as_str())
        } else {
            regex_is_match(r"(?i)^\s*End\s+Sub\s*$", trimmed.as_str())
        };
        if found {
            return (index, event_like);
        }
        index += 1;
    }
    let last = if lines.len() > 0 {
        lines.len() - 1
    } else {
        0
    };
    (last, event_like)
}

/// Appending to a capped list: past the cap, the item is dropped and one
/// warning names the list.
pub open spec fn push_bounded_spec<T>(values: Seq<T>, max_items: nat, value: T, warnings: Seq<Seq<char>>, label: Seq<char>) -> (Seq<T>, Seq<Seq<char>>) {
    if values.len() < max_items {
        (values.push(value), warnings)
    } else if exists|i: int|
        0 <= i < warnings.len() && contains_seq(#[trigger] warnings[i], label) && contains_seq(
            warnings[i],
            "truncated"@,
        ) {
        (values, warnings)
    } else {
        (values, warnings.push(label + " truncated to "@ + decimal(max_items) + " entries"@))
    }
}

pub fn push_bounded<T>(values: &mut Vec<T>, max_items: usize, value: T, warnings: &mut Vec<String>, label: &str)
    ensures
        (final(values)@, final(warnings).deep_view()) == push_bounded_spec(
            old(values)@,
            max_items as nat,
            value,
            old(warnings).deep_view(),
            label@,
        ),
{
    if values.len() < max_items {
        values.push(value);
        return;
    }
    let mut i: usize = 0;
    while i < warnings.len()
        invariant
            i <= warnings@.len(),
            warnings.deep_view() == old(warnings).deep_view(),
            values@ == old(values)@,
            values@.len() >= max_items,
            forall|j: int|
                0 <= j < i ==> !(contains_seq(#[trigger] warnings.deep_view()[j], label@)
                    && contains_seq(warnings.deep_view()[j], "truncated"@)),
        decreases warnings@.len() - i,
    {
        if contains_str(warnings[i].as_str(), label) && contains_str(warnings[i].as_str(), "truncated") {
            assert(contains_seq(old(warnings).deep_view()[i as int], label@) && contains_seq(
                old(warnings).deep_view()[i as int],
                "truncated"@,
            ));
            return;
        }
        i += 1;
    }
    let mut w = owned(label);
    append_str(&mut w, " truncated to ");
    append_str(&mut w, decimal_string(max_items).as_str());
    append_str(&mut w, " entries");
    warnings.push(w);
    assert(warnings.deep_view() =~= old(warnings).deep_view().push(
        label@ + " truncated to "@ + decimal(max_items as nat) + " entries"@,
    ));
}

/// One `Sub` or `Function` found in the source.
#[derive(Debug, Clone, PartialEq, Eq)]
pub struct AnalyzeVbaProcedureSummary {
    pub name: String,
    pub kind: String,
    pub start_line: usize,
    pub end_line: usize,
    pub supported_operation_count: usize,
    pub unsupported_operation_count: usize,
    pub requires_manual_rewrite: bool,
}

/// One classified statement of a procedure.
#[derive(Debug, Clone, PartialEq, Eq)]
pub struct AnalyzeVbaOperationSummary {
    pub procedure: String,
    pub line: usize,
    pub operation: String,
    pub target: String,
    pub value: Option<String>,
    pub reason: Option<String>,
}

#[derive(Debug, Clone, PartialEq, Eq)]
pub struct AnalyzeVbaOnlyofficeMigrationResult {
    pub procedures: Vec<AnalyzeVbaProcedureSummary>,
    pub supported_operations: Vec<AnalyzeVbaOperationSummary>,
    pub unsupported_operations: Vec<AnalyzeVbaOperationSummary>,
    pub requires_manual_rewrite: bool,
    pub warnings: Vec<String>,
    pub success: bool,
}

pub struct ProcedureModel {
    pub name: Seq<char>,
    pub kind: Seq<char>,
    pub start_line: nat,
    pub end_line: nat,
    pub supported_operation_count: nat,
    pub unsupported_operation_count: nat,
    pub requires_manual_rewrite: bool,
}

pub struct OperationModel {
    pub procedure: Seq<char>,
    pub line: nat,
    pub operation: Seq<char>,
    pub target: Seq<char>,
    pub value: Option<Seq<char>>,
    pub reason: Option<Seq<char>>,
}

pub struct AnalysisModel {
    pub procedures: Seq<ProcedureModel>,
    pub supported_operations: Seq<OperationModel>,
    pub unsupported_operations: Seq<OperationModel>,
    pub requires_manual_rewrite: bool,
    pub warnings: Seq<Seq<char>>,
    pub success: bool,
}

impl View for AnalyzeVbaProcedureSummary {
    type V = ProcedureModel;

    open spec fn view(&self) -> ProcedureModel {
        ProcedureModel {
            name: self.name@,
            kind: self.kind@,
            start_line: self.start_line as nat,
            end_line: self.end_line as nat,
            supported_operation_count: self.supported_operation_count as nat,
            unsupported_operation_count: self.unsupported_operation_count as nat,
            requires_manual_rewrite: self.requires_manual_rewrite,
        }
    }
}

impl View for AnalyzeVbaOperationSummary {
    type V = OperationModel;

    open spec fn view(&self) -> OperationModel {
        OperationModel {
            procedure: self.procedure@,
            line: self.line as nat,
            operation: self.operation@,
            target: self.target@,
            value: opt_view(self.value),
            reason: opt_view(self.reason),
        }
    }
}

pub open spec fn procedures_view(v: Seq<AnalyzeVbaProcedureSummary>) -> Seq<ProcedureModel> {
    v.map_values(|p: AnalyzeVbaProcedureSummary| p@)
}

pub open spec fn operations_view(v: Seq<AnalyzeVbaOperationSummary>) -> Seq<OperationModel> {
    v.map_values(|o: AnalyzeVbaOperationSummary| o@)
}

impl View for AnalyzeVbaOnlyofficeMigrationResult {
    type V = AnalysisModel;

    open spec fn view(&self) -> AnalysisModel {
        AnalysisModel {
            procedures: procedures_view(self.procedures@),
            supported_operations: operations_view(self.supported_operations@),
            unsupported_operations: operations_view(self.unsupported_operations@),
            requires_manual_rewrite: self.requires_manual_rewrite,
            warnings: self.warnings.deep_view(),
            success: self.success,
        }
    }
}

fn copy_opt_string(o: &Option<String>) -> (r: Option<String>)
    ensures
        opt_view(r) == opt_view(*o),
{
    match o {
        Some(s) => Some(s.clone()),
        None => None,
    }
}

fn copy_procedures(v: &Vec<AnalyzeVbaProcedureSummary>) -> (r: Vec<AnalyzeVbaProcedureSummary>)
    ensures
        procedures_view(r@) == procedures_view(v@),
{
    let mut out: Vec<AnalyzeVbaProcedureSummary> = Vec::new();
    let mut i: usize = 0;
    while i < v.len()
        invariant
            i <= v@.len(),
            procedures_view(out@) == procedures_view(v@).take(i as int),
        decreases v@.len() - i,
    {
        let p = &v[i];
        let copy = AnalyzeVbaProcedureSummary {
            name: p.name.clone(),
            kind: p.kind.clone(),
            start_line: p.start_line,
            end_line: p.end_line,
            supported_operation_count: p.supported_operation_count,
            unsupported_operation_count: p.unsupported_operation_count,
            requires_manual_rewrite: p.requires_manual_rewrite,
        };
        let ghost before = out@;
        out.push(copy);
        assert(procedures_view(out@) =~= procedures_view(before).push(v@[i as int]@));
        assert(procedures_view(v@).take(i + 1) =~= procedures_view(v@).take(i as int).push(v@[i as int]@));
        i += 1;
    }
    assert(procedures_view(v@).take(v@.len() as int) =~= procedures_view(v@));
    out
}

fn copy_operations(v: &Vec<AnalyzeVbaOperationSummary>) -> (r: Vec<AnalyzeVbaOperationSummary>)
    ensures
        operations_view(r@) == operations_view(v@),
{
    let mut out: Vec<AnalyzeVbaOperationSummary> = Vec::new();
    let mut i: usize = 0;
    while i < v.len()
        invariant
            i <= v@.len(),
            operations_view(out@) == operations_view(v@).take(i as int),
        decreases v@.len() - i,
    {
        let o = &v[i];
        let copy = AnalyzeVbaOperationSummary {
            procedure: o.procedure.clone(),
            line: o.line,
            operation: o.operation.clone(),
            target: o.target.clone(),
            value: copy_opt_string(&o.value),
            reason: copy_opt_string(&o.reason),
        };
        let ghost before = out@;
        out.push(copy);
        assert(operations_view(out@) =~= operations_view(before).push(v@[i as int]@));
        assert(operations_view(v@).take(i + 1) =~= operations_view(v@).take(i as int).push(v@[i as int]@));
        i += 1;
    }
    assert(operations_view(v@).take(v@.len() as int) =~= operations_view(v@));
    out
}

fn copy_string_vec(v: &Vec<String>) -> (r: Vec<String>)
    ensures
        r.deep_view() == v.deep_view(),
{
    let mut out: Vec<String> = Vec::new();
    let mut i: usize = 0;
    while i < v.len()
        invariant
            i <= v@.len(),
            out.deep_view() == v.deep_view().take(i as int),
        decreases v@.len() - i,
    {
        let ghost before = out.deep_view();
        out.push(v[i].clone());
        assert(out.deep_view() =~= before.push(v@[i as int]@));
        assert(v.deep_view().take(i + 1) =~= v.deep_view().take(i as int).push(v@[i as int]@));
        i += 1;
    }
    assert(v.deep_view().take(v@.len() as int) =~= v.deep_view());
    out
}

/// A copy of an analysis with the same model.
pub fn copy_analysis(a: &AnalyzeVbaOnlyofficeMigrationResult) -> (r: AnalyzeVbaOnlyofficeMigrationResult)
    ensures
        r@ == a@,
{
    AnalyzeVbaOnlyofficeMigrationResult {
        procedures: copy_procedures(&a.procedures),
        supported_operations: copy_operations(&a.supported_operations),
        unsupported_operations: copy_operations(&a.unsupported_operations),
        requires_manual_rewrite: a.requires_manual_rewrite,
        warnings: copy_string_vec(&a.warnings),
        success: a.success,
    }
}

/// The analysis collected so far while the source is scanned.
pub struct ScanModel {
    pub warnings: Seq<Seq<char>>,
    pub procedures: Seq<ProcedureModel>,
    pub supported: Seq<OperationModel>,
    pub unsupported: Seq<OperationModel>,
    pub saw_supported: bool,
    pub redacted_seen: bool,
    pub procedure_truncated: bool,
}

pub open spec fn push_op(st: ScanModel, supported: bool, op: OperationModel) -> ScanModel {
    if supported {
        let r = push_bounded_spec(st.supported, 32, op, st.warnings, "supported operations"@);
        ScanModel { supported: r.0, warnings: r.1, ..st }
    } else {
        let r = push_bounded_spec(st.unsupported, 32, op, st.warnings, "unsupported operations"@);
        ScanModel { unsupported: r.0, warnings: r.1, ..st }
    }
}

/// One body line of procedure `name` at index `j`.
pub open spec fn body_step(lines: Seq<Seq<char>>, name: Seq<char>, j: int, st: ScanModel, summary: ProcedureModel) -> (ScanModel, ProcedureModel) {
    let text = statement_text(lines[j]);
    if text.len() == 0 {
        (st, summary)
    } else {
        match classify_statement_spec(text) {
            Some(c) => {
                let op = OperationModel {
                    procedure: name,
                    line: (j + 1) as nat,
                    operation: c.0,
                    target: c.1,
                    value: c.2,
                    reason: c.4,
                };
                let st1 = ScanModel { redacted_seen: st.redacted_seen || c.5, ..st };
                if c.3 {
                    (
                        push_op(ScanModel { saw_supported: true, ..st1 }, true, op),
                        ProcedureModel {
                            supported_operation_count: summary.supported_operation_count + 1,
                            ..summary
                        },
                    )
                } else {
                    (
                        push_op(st1, false, op),
                        ProcedureModel {
                            unsupported_operation_count: summary.unsupported_operation_count + 1,
                            requires_manual_rewrite: true,
                            ..summary
                        },
                    )
                }
            },
            None => if !is_harmless_spec(text) {
                let op = OperationModel {
                    procedure: name,
                    line: (j + 1) as nat,
                    operation: "UnsupportedStatement"@,
                    target: canonicalize_spec(text),
                    value: None,
                    reason: Some(
                        "unrecognized executable statements are not supported by the first ONLYOFFICE analyzer slice."@,
                    ),
                };
                (
                    push_op(st, false, op),
                    ProcedureModel {
                        unsupported_operation_count: summary.unsupported_operation_count + 1,
                        requires_manual_rewrite: true,
                        ..summary
                    },
                )
            } else {
                (st, summary)
            },
        }
    }
}

pub open spec fn body_from(lines: Seq<Seq<char>>, name: Seq<char>, j: int, end: int, st: ScanModel, summary: ProcedureModel) -> (ScanModel, ProcedureModel)
    decreases end - j,
{
    if j >= end || j < 0 || j >= lines.len() {
        (st, summary)
    } else {
        let r = body_step(lines, name, j, st, summary);
        body_from(lines, name, j + 1, end, r.0, r.1)
    }
}

/// Declarations (`Dim`, `Const`, `Static`, `Declare`), module options and
/// attributes, `Rem` lines, `Exit` statements and the closing words of blocks
/// (`End If`, `End Select`, `Else`, `ElseIf`, `Case`, `Case Else`, `Next`,
/// `Loop`, `Wend`), compared after whitespace is compacted and letters are
/// upper-cased.
pub open spec fn declaration_or_block_end(statement: Seq<char>) -> bool {
    let n = upper_seq(compact_whitespace_spec(statement));
    ||| starts_with(n, "DIM "@)
    ||| starts_with(n, "CONST "@)
    ||| starts_with(n, "STATIC "@)
    ||| starts_with(n, "DECLARE "@)
    ||| starts_with(n, "ATTRIBUTE "@)
    ||| starts_with(n, "OPTION "@)
    ||| starts_with(n, "REM "@)
    ||| starts_with(n, "EXIT "@)
    ||| n == "END IF"@
    ||| n == "END SELECT"@
    ||| n == "ELSE"@
    ||| n == "ELSEIF"@
    ||| n == "CASE"@
    ||| n == "CASE ELSE"@
    ||| n == "NEXT"@
    ||| n == "LOOP"@
    ||| n == "WEND"@
}

/// A declaration such as `Dim total As Long`, or the end of a block, that the
/// statement classifier passes over leaves the scan and the procedure's
/// summary as they were: it adds no operation, no count and no call for a
/// manual rewrite.
pub proof fn law_declarations_are_passed_over(
    lines: Seq<Seq<char>>,
    name: Seq<char>,
    j: int,
    st: ScanModel,
    summary: ProcedureModel,
)
    requires
        0 <= j < lines.len(),
        declaration_or_block_end(statement_text(lines[j])),
    ensures
        classify_statement_spec(statement_text(lines[j])) is None ==> body_step(lines, name, j, st, summary) == (
        st,
        summary,
        ),
{
}

/// The scan of the source from line index `index` on.
pub open spec fn scan_from(lines: Seq<Seq<char>>, index: int, st: ScanModel) -> ScanModel
    decreases lines.len() - index,
{
    if index < 0 || index >= lines.len() {
        st
    } else {
        let text = statement_text(lines[index]);
        if text.len() == 0 {
            scan_from(lines, index + 1, st)
        } else {
            match regex_captures_of(procedure_start_pattern(), text) {
                Some(g) => {
                    let name = group_text(g, 1);
                    let end = procedure_end_from(lines, index + 1, false);
                    let event = starts_event_procedure(lines, index + 1);
                    let summary0 = ProcedureModel {
                        name,
                        kind: if event { "event_sub"@ } else { "sub"@ },
                        start_line: (index + 1) as nat,
                        end_line: (end + 1) as nat,
                        supported_operation_count: 0,
                        unsupported_operation_count: 0,
                        requires_manual_rewrite: event,
                    };
                    let st1 = if event {
                        push_op(st, false, OperationModel {
                            procedure: name,
                            line: (index + 1) as nat,
                            operation: "EventProcedure"@,
                            target: canonicalize_spec(text),
                            value: None,
                            reason: Some(
                                "event procedures are not supported by the first ONLYOFFICE analyzer slice."@,
                            ),
                        })
                    } else {
                        st
                    };
                    let r = body_from(lines, name, index + 1, end, st1, summary0);
                    let summary = if r.1.supported_operation_count == 0 && !r.1.requires_manual_rewrite {
                        ProcedureModel { requires_manual_rewrite: true, ..r.1 }
                    } else {
                        r.1
                    };
                    let st2 = ScanModel { procedures: r.0.procedures.push(summary), ..r.0 };
                    if st2.procedures.len() >= 16 {
                        let truncated = end + 1 < lines.len();
                        ScanModel {
                            procedure_truncated: truncated,
                            warnings: if truncated {
                                st2.warnings.push("procedure analysis truncated to 16 procedures"@)
                            } else {
                                st2.warnings
                            },
                            ..st2
                        }
                    } else {
                        proof {
                            lemma_procedure_end_bounds(lines, index + 1, false);
                        }
                        scan_from(lines, end + 1, st2)
                    }
                },
                None => if regex_matches(function_start_pattern(), text) {
                    let name = match regex_captures_of(function_start_pattern(), text) {
                        Some(g) => group_text(g, 1),
                        None => "Function"@,
                    };
                    let end = procedure_end_from(lines, index + 1, true);
                    let st1 = ScanModel {
                        procedures: st.procedures.push(ProcedureModel {
                            name,
                            kind: "function"@,
                            start_line: (index + 1) as nat,
                            end_line: (end + 1) as nat,
                            supported_operation_count: 0,
                            unsupported_operation_count: 1,
                            requires_manual_rewrite: true,
                        }),
                        ..st
                    };
                    let st2 = push_op(st1, false, OperationModel {
                        procedure: name,
                        line: (index + 1) as nat,
                        operation: "FunctionProcedure"@,
                        target: canonicalize_spec(text),
                        value: None,
                        reason: Some(
                            "Function procedures are not supported by the first ONLYOFFICE analyzer slice."@,
                        ),
                    });
                    proof {
                        lemma_procedure_end_bounds(lines, index + 1, true);
                    }
                    scan_from(lines, end + 1, st2)
                } else {
                    scan_from(lines, index + 1, st)
                },
            }
        }
    }
}

pub open spec fn truncate_seq<T>(s: Seq<T>, n: nat) -> Seq<T> {
    if n <= s.len() {
        s.subrange(0, n as int)
    } else {
        s
    }
}

pub open spec fn any_manual_rewrite(p: Seq<ProcedureModel>) -> bool {
    exists|i: int| 0 <= i < p.len() && #[trigger] p[i].requires_manual_rewrite
}

pub open spec fn any_truncated(w: Seq<Seq<char>>) -> bool {
    exists|i: int| 0 <= i < w.len() && contains_seq(#[trigger] w[i], "truncated"@)
}

/// The analysis of a source text, as `analyze_vba_onlyoffice_migration` reports it.
pub open spec fn analyze_spec(source: Seq<char>) -> AnalysisModel {
    let bounded = bounded_seq(source, 32768);
    let source_truncated = bounded.1;
    let lines = split_lines_spec(bounded.0);
    let init = ScanModel {
        warnings: if source_truncated {
            seq!["source text truncated to 32768 characters for analysis"@]
        } else {
            Seq::empty()
        },
        procedures: Seq::empty(),
        supported: Seq::empty(),
        unsupported: Seq::empty(),
        saw_supported: false,
        redacted_seen: false,
        procedure_truncated: false,
    };
    let st = scan_from(lines, 0, init);
    let w1 = if st.procedures.len() == 0 {
        st.warnings.push("No supported Sub procedures were detected in the source preview."@)
    } else {
        st.warnings
    };
    let w2 = if !st.saw_supported {
        w1.push("No supported spreadsheet operations were detected in the source preview."@)
    } else {
        w1
    };
    let w3 = if st.redacted_seen {
        w2.push("Sensitive-looking literals were redacted from the analysis preview."@)
    } else {
        w2
    };
    let requires_manual_rewrite = source_truncated || st.procedure_truncated || any_manual_rewrite(
        st.procedures,
    ) || st.unsupported.len() > 0 || !st.saw_supported;
    let success = !requires_manual_rewrite && !source_truncated && !st.procedure_truncated
        && !any_truncated(w3);
    AnalysisModel {
        procedures: st.procedures,
        supported_operations: st.supported,
        unsupported_operations: st.unsupported,
        requires_manual_rewrite,
        warnings: truncate_seq(w3, 16),
        success,
    }
}

struct ScanState {
    warnings: Vec<String>,
    procedures: Vec<AnalyzeVbaProcedureSummary>,
    supported: Vec<AnalyzeVbaOperationSummary>,
    unsupported: Vec<AnalyzeVbaOperationSummary>,
    saw_supported: bool,
    redacted_seen: bool,
    procedure_truncated: bool,
}

impl ScanState {
    spec fn model(&self) -> ScanModel {
        ScanModel {
            warnings: self.warnings.deep_view(),
            procedures: procedures_view(self.procedures@),
            supported: operations_view(self.supported@),
            unsupported: operations_view(self.unsupported@),
            saw_supported: self.saw_supported,
            redacted_seen: self.redacted_seen,
            procedure_truncated: self.procedure_truncated,
        }
    }
}

fn push_operation(st: &mut ScanState, supported: bool, op: AnalyzeVbaOperationSummary)
    ensures
        final(st).model() == push_op(old(st).model(), supported, op@),
        final(st).procedures@ == old(st).procedures@,
        final(st).saw_supported == old(st).saw_supported,
        final(st).redacted_seen == old(st).redacted_seen,
        final(st).procedure_truncated == old(st).procedure_truncated,
{
    let ghost opv = op@;
    if supported {
        let ghost before = st.supported@;
        push_bounded(&mut st.supported, 32, op, &mut st.warnings, "supported operations");
        assert(operations_view(before.push(op)) =~= operations_view(before).push(opv));
    } else {
        let ghost before = st.unsupported@;
        push_bounded(&mut st.unsupported, 32, op, &mut st.warnings, "unsupported operations");
        assert(operations_view(before.push(op)) =~= operations_view(before).push(opv));
    }
}

fn make_operation(procedure: &str, line: usize, operation: String, target: String, value: Option<String>, reason: Option<String>) -> (r: AnalyzeVbaOperationSummary)
    ensures
        r@ == (OperationModel {
            procedure: procedure@,
            line: line as nat,
            operation: operation@,
            target: target@,
            value: opt_view(value),
            reason: opt_view(reason),
        }),
{
    AnalyzeVbaOperationSummary { procedure: owned(procedure), line, operation, target, value, reason }
}

fn scan_body(lines: &Vec<String>, name: &str, start: usize, end: usize, st: &mut ScanState, summary: &mut AnalyzeVbaProcedureSummary)
    requires
        end < lines@.len(),
        old(summary).supported_operation_count <= start,
        old(summary).unsupported_operation_count <= start,
    ensures
        (final(st).model(), final(summary)@) == body_from(
            lines.deep_view(),
            name@,
            start as int,
            end as int,
            old(st).model(),
            old(summary)@,
        ),
        final(st).procedures@ == old(st).procedures@,
        final(st).procedure_truncated == old(st).procedure_truncated,
{
    let ghost lv = lines.deep_view();
    let ghost target_model = body_from(lv, name@, start as int, end as int, st.model(), summary@);
    let mut j = start;
    while j < end
        invariant
            lv == lines.deep_view(),
            end < lines@.len(),
            start <= j,
            summary.supported_operation_count <= j,
            summary.unsupported_operation_count <= j,
            body_from(lv, name@, j as int, end as int, st.model(), summary@) == target_model,
            st.procedures@ == old(st).procedures@,
            st.procedure_truncated == old(st).procedure_truncated,
        decreases end - j,
    {
        let ghost pre_st = st.model();
        let ghost pre_summary = summary@;
        assert(lines@[j as int]@ == lv[j as int]);
        let stripped = strip_comment(lines[j].as_str());
        let body = trim(stripped.as_str());
        if body.unicode_len() > 0 {
            match classify_statement(body.as_str()) {
                Some((operation, target, value, supported, reason, redacted)) => {
                    let op = make_operation(name, j + 1, operation, target, value, reason);
                    if redacted {
                        st.redacted_seen = true;
                    }
                    if supported {
                        st.saw_supported = true;
                        summary.supported_operation_count = summary.supported_operation_count + 1;
                        push_operation(st, true, op);
                    } else {
                        summary.unsupported_operation_count = summary.unsupported_operation_count + 1;
                        summary.requires_manual_rewrite = true;
                        push_operation(st, false, op);
                    }
                },
                None => {
                    if !is_harmless_procedure_line(body.as_str()) {
                        summary.unsupported_operation_count = summary.unsupported_operation_count + 1;
                        summary.requires_manual_rewrite = true;
                        let op = make_operation(
                            name,
                            j + 1,
                            owned("UnsupportedStatement"),
                            canonicalize_expression(body.as_str()),
                            None,
                            Some(owned("unrecognized executable statements are not supported by the first ONLYOFFICE analyzer slice.")),
                        );
                        push_operation(st, false, op);
                    }
                },
            }
        }
        assert((st.model(), summary@) == body_step(lv, name@, j as int, pre_st, pre_summary));
        j += 1;
    }
}

pub fn analyze_vba_onlyoffice_migration(source_text: &str, source_name: Option<&str>) -> (r: AnalyzeVbaOnlyofficeMigrationResult)
    ensures
        r@ == analyze_spec(source_text@),
{
    let (bounded, source_truncated) = bounded_text(source_text, 32768);
    let lines = split_lines(bounded.as_str());
    let ghost lv = lines.deep_view();
    let mut st = ScanState {
        warnings: Vec::new(),
        procedures: Vec::new(),
        supported: Vec::new(),
        unsupported: Vec::new(),
        saw_supported: false,
        redacted_seen: false,
        procedure_truncated: false,
    };
    if source_truncated {
        st.warnings.push(owned("source text truncated to 32768 characters for analysis"));
        assert(st.warnings.deep_view() =~= seq!["source text truncated to 32768 characters for analysis"@]);
    } else {
        assert(st.warnings.deep_view() =~= Seq::<Seq<char>>::empty());
    }
    let ghost init = st.model();
    assert(init.procedures =~= Seq::<ProcedureModel>::empty());
    assert(init.supported =~= Seq::<OperationModel>::empty());
    assert(init.unsupported =~= Seq::<OperationModel>::empty());
    let ghost final_model = scan_from(lv, 0, init);
    let mut index: usize = 0;
    loop
        invariant_except_break
            lv == lines.deep_view(),
            scan_from(lv, index as int, st.model()) == final_model,
        ensures
            st.model() == final_model,
        decreases lines@.len() - index,
    {
        if index >= lines.len() {
            break;
        }
        let ghost pre = st.model();
        assert(lines@[index as int]@ == lv[index as int]);
        let stripped = strip_comment(lines[index].as_str());
        let line = trim(stripped.as_str());
        if line.unicode_len() == 0 {
            index += 1;
            continue;
        }
        if let Some(groups) = regex_captures(
            r"(?i)^\s*(?:Public\s+|Private\s+|Friend\s+|Static\s+)?Sub\s+([A-Za-z_][A-Za-z0-9_]*)\s*(?:\([^)]*\))?\s*$",
            line.as_str(),
        ) {
            let name = group_string(&groups, 1);
            let (end_index, event_like) = scan_procedure_end(&lines, index + 1, false);
            let ghost g = groups_view(groups);
            assert(statement_text(lv[index as int]) == line@);
            assert(regex_captures_of(procedure_start_pattern(), line@) == Some(g));
            assert(name@ == group_text(g, 1));
            proof {
                lemma_procedure_end_bounds(lv, index + 1, false);
            }
            let mut summary = AnalyzeVbaProcedureSummary {
                name: name.clone(),
                kind: if event_like {
                    owned("event_sub")
                } else {
                    owned("sub")
                },
                start_line: index + 1,
                end_line: end_index + 1,
                supported_operation_count: 0,
                unsupported_operation_count: 0,
                requires_manual_rewrite: event_like,
            };
            if event_like {
                let op = make_operation(
                    name.as_str(),
                    index + 1,
                    owned("EventProcedure"),
                    canonicalize_expression(line.as_str()),
                    None,
                    Some(owned("event procedures are not supported by the first ONLYOFFICE analyzer slice.")),
                );
                push_operation(&mut st, false, op);
            }
            let ghost st1 = st.model();
            let ghost summary0 = summary@;
            scan_body(&lines, name.as_str(), index + 1, end_index, &mut st, &mut summary);
            let ghost body_r = body_from(lv, name@, index + 1, end_index as int, st1, summary0);
            assert(st.model() == body_r.0 && summary@ == body_r.1);
            assert(st1 == (if event_like {
                push_op(pre, false, OperationModel {
                    procedure: name@,
                    line: (index + 1) as nat,
                    operation: "EventProcedure"@,
                    target: canonicalize_spec(line@),
                    value: None,
                    reason: Some(
                        "event procedures are not supported by the first ONLYOFFICE analyzer slice."@,
                    ),
                })
            } else {
                pre
            }));
            if summary.supported_operation_count == 0 && !summary.requires_manual_rewrite {
                summary.requires_manual_rewrite = true;
            }
            let ghost pv = st.procedures@;
            let ghost sv = summary@;
            st.procedures.push(summary);
            assert(procedures_view(st.procedures@) =~= procedures_view(pv).push(sv));
            if st.procedures.len() >= 16 {
                st.procedure_truncated = end_index + 1 < lines.len();
                if st.procedure_truncated {
                    let ghost wv = st.warnings.deep_view();
                    st.warnings.push(owned("procedure analysis truncated to 16 procedures"));
                    assert(st.warnings.deep_view() =~= wv.push("procedure analysis truncated to 16 procedures"@));
                }
                assert(st.model() == scan_from(lv, index as int, pre));
                break;
            }
            index = end_index + 1;
            continue;
        }
        if regex_is_match(
            r"(?i)^\s*(?:Public\s+|Private\s+|Friend\s+|Static\s+)?Function\s+([A-Za-z_][A-Za-z0-9_]*)\s*(?:\([^)]*\))?\s*(?:As\s+[A-Za-z_][A-Za-z0-9_]*)?\s*$",
            line.as_str(),
        ) {
            let name = match regex_captures(
                r"(?i)^\s*(?:Public\s+|Private\s+|Friend\s+|Static\s+)?Function\s+([A-Za-z_][A-Za-z0-9_]*)\s*(?:\([^)]*\))?\s*(?:As\s+[A-Za-z_][A-Za-z0-9_]*)?\s*$",
                line.as_str(),
            ) {
                Some(groups) => group_string(&groups, 1),
                None => owned("Function"),
            };
            let (end_index, _) = scan_procedure_end(&lines, index + 1, true);
            proof {
                lemma_procedure_end_bounds(lv, index + 1, true);
            }
            let summary = AnalyzeVbaProcedureSummary {
                name: name.clone(),
                kind: owned("function"),
                start_line: index + 1,
                end_line: end_index + 1,
                supported_operation_count: 0,
                unsupported_operation_count: 1,
                requires_manual_rewrite: true,
            };
            let ghost pv = st.procedures@;
            let ghost sv = summary@;
            st.procedures.push(summary);
            assert(procedures_view(st.procedures@) =~= procedures_view(pv).push(sv));
            let op = make_operation(
                name.as_str(),
                index + 1,
                owned("FunctionProcedure"),
                canonicalize_expression(line.as_str()),
                None,
                Some(owned("Function procedures are not supported by the first ONLYOFFICE analyzer slice.")),
            );
            push_operation(&mut st, false, op);
            index = end_index + 1;
            continue;
        }
        index += 1;
    }
    let ghost stm = st.model();
    let mut warnings = st.warnings;
    if st.procedures.len() == 0 {
        let ghost wv = warnings.deep_view();
        warnings.push(owned("No supported Sub procedures were detected in the source preview."));
        assert(warnings.deep_view() =~= wv.push("No supported Sub procedures were detected in the source preview."@));
    }
    if !st.saw_supported {
        let ghost wv = warnings.deep_view();
        warnings.push(owned("No supported spreadsheet operations were detected in the source preview."));
        assert(warnings.deep_view() =~= wv.push("No supported spreadsheet operations were detected in the source preview."@));
    }
    if st.redacted_seen {
        let ghost wv = warnings.deep_view();
        warnings.push(owned("Sensitive-looking literals were redacted from the analysis preview."));
        assert(warnings.deep_view() =~= wv.push("Sensitive-looking literals were redacted from the analysis preview."@));
    }
    let mut any_manual = false;
    let mut k: usize = 0;
    while k < st.procedures.len()
        invariant
            k <= st.procedures@.len(),
            any_manual == exists|i: int| 0 <= i < k && #[trigger] st.procedures@[i].requires_manual_rewrite,
        decreases st.procedures@.len() - k,
    {
        if st.procedures[k].requires_manual_rewrite {
            any_manual = true;
        }
        k += 1;
    }
    assert(any_manual == any_manual_rewrite(stm.procedures)) by {
        if any_manual {
            let i = choose|i: int| 0 <= i < k && #[trigger] st.procedures@[i].requires_manual_rewrite;
            assert(stm.procedures[i].requires_manual_rewrite);
        }
        if exists|i: int| 0 <= i < stm.procedures.len() && #[trigger] stm.procedures[i].requires_manual_rewrite {
            let i = choose|i: int| 0 <= i < stm.procedures.len() && #[trigger] stm.procedures[i].requires_manual_rewrite;
            assert(st.procedures@[i].requires_manual_rewrite);
        }
    }
    let requires_manual_rewrite = source_truncated || st.procedure_truncated || any_manual
        || st.unsupported.len() > 0 || !st.saw_supported;
    assert(stm.unsupported.len() == st.unsupported@.len());
    assert(source_truncated == bounded_seq(source_text@, 32768).1);
    let mut saw_truncated = false;
    let mut w: usize = 0;
    while w < warnings.len()
        invariant
            w <= warnings@.len(),
            saw_truncated == exists|i: int| 0 <= i < w && contains_seq(#[trigger] warnings.deep_view()[i], "truncated"@),
        decreases warnings@.len() - w,
    {
        if contains_str(warnings[w].as_str(), "truncated") {
            saw_truncated = true;
            assert(contains_seq(warnings.deep_view()[w as int], "truncated"@));
        }
        w += 1;
    }
    let success = !requires_manual_rewrite && !source_truncated && !st.procedure_truncated
        && !saw_truncated;
    let ghost w3 = warnings.deep_view();
    assert(saw_truncated == any_truncated(w3));
    warnings.truncate(16);
    assert(warnings.deep_view() =~= truncate_seq(w3, 16));
    let r = AnalyzeVbaOnlyofficeMigrationResult {
        procedures: st.procedures,
        supported_operations: st.supported,
        unsupported_operations: st.unsupported,
        requires_manual_rewrite,
        warnings,
        success,
    };
    assert(lv == split_lines_spec(bounded_seq(source_text@, 32768).0));
    assert(init == (ScanModel {
        warnings: if source_truncated {
            seq!["source text truncated to 32768 characters for analysis"@]
        } else {
            Seq::empty()
        },
        procedures: Seq::empty(),
        supported: Seq::empty(),
        unsupported: Seq::empty(),
        saw_supported: false,
        redacted_seen: false,
        procedure_truncated: false,
    }));
    assert(r@.procedures == analyze_spec(source_text@).procedures);
    assert(r@.requires_manual_rewrite == analyze_spec(source_text@).requires_manual_rewrite);
    assert(r@.success == analyze_spec(source_text@).success);
    assert(r.warnings.deep_view() =~= analyze_spec(source_text@).warnings);
    r
}

/// What every step of the scan keeps: both operation lists stay within
/// their cap, and once a supported operation was seen the supported list
/// holds at least one.
pub open spec fn scan_bounded(st: ScanModel) -> bool {
    &&& st.supported.len() <= 32
    &&& st.unsupported.len() <= 32
    &&& st.saw_supported ==> st.supported.len() > 0
    &&& ops_shaped(st.supported, true)
    &&& ops_shaped(st.unsupported, false)
}

/// A supported operation carries a value and no reason; an unsupported
/// one a reason and no value.
pub open spec fn op_shaped(op: OperationModel, supported: bool) -> bool {
    if supported {
        op.value is Some && op.reason is None
    } else {
        op.value is None && op.reason is Some
    }
}

pub open spec fn ops_shaped(ops: Seq<OperationModel>, supported: bool) -> bool {
    forall|i: int| 0 <= i < ops.len() ==> op_shaped(#[trigger] ops[i], supported)
}

proof fn lemma_push_op_bounded(st: ScanModel, supported: bool, op: OperationModel)
    requires
        st.supported.len() <= 32,
        st.unsupported.len() <= 32,
        supported ==> st.saw_supported,
        !supported ==> scan_bounded(st),
        ops_shaped(st.supported, true),
        ops_shaped(st.unsupported, false),
        op_shaped(op, supported),
    ensures
        scan_bounded(push_op(st, supported, op)),
{
    let r = push_op(st, supported, op);
    if supported {
        assert forall|i: int| 0 <= i < r.supported.len() implies op_shaped(#[trigger] r.supported[i], true) by {
            if i < st.supported.len() {
                assert(op_shaped(st.supported[i], true));
            }
        }
    } else {
        assert forall|i: int| 0 <= i < r.unsupported.len() implies op_shaped(#[trigger] r.unsupported[i], false) by {
            if i < st.unsupported.len() {
                assert(op_shaped(st.unsupported[i], false));
            }
        }
    }
}

proof fn lemma_classify_shaped(text: Seq<char>)
    ensures
        classify_statement_spec(text) matches Some(c) ==> if c.3 {
            c.2 is Some && c.4 is None
        } else {
            c.2 is None && c.4 is Some
        },
{
}

proof fn lemma_body_from_bounded(
    lines: Seq<Seq<char>>,
    name: Seq<char>,
    j: int,
    end: int,
    st: ScanModel,
    summary: ProcedureModel,
)
    requires
        scan_bounded(st),
    ensures
        scan_bounded(body_from(lines, name, j, end, st, summary).0),
    decreases end - j,
{
    if !(j >= end || j < 0 || j >= lines.len()) {
        let r = body_step(lines, name, j, st, summary);
        assert(scan_bounded(r.0)) by {
            let text = statement_text(lines[j]);
            if text.len() > 0 {
                match classify_statement_spec(text) {
                    Some(c) => {
                        lemma_classify_shaped(text);
                        let op = OperationModel {
                            procedure: name,
                            line: (j + 1) as nat,
                            operation: c.0,
                            target: c.1,
                            value: c.2,
                            reason: c.4,
                        };
                        let st1 = ScanModel { redacted_seen: st.redacted_seen || c.5, ..st };
                        if c.3 {
                            lemma_push_op_bounded(ScanModel { saw_supported: true, ..st1 }, true, op);
                        } else {
                            lemma_push_op_bounded(st1, false, op);
                        }
                    },
                    None => {},
                }
            }
        }
        lemma_body_from_bounded(lines, name, j + 1, end, r.0, r.1);
    }
}

proof fn lemma_scan_from_bounded(lines: Seq<Seq<char>>, index: int, st: ScanModel)
    requires
        scan_bounded(st),
    ensures
        scan_bounded(scan_from(lines, index, st)),
    decreases lines.len() - index,
{
    if 0 <= index < lines.len() {
        let text = statement_text(lines[index]);
        if text.len() == 0 {
            lemma_scan_from_bounded(lines, index + 1, st);
        } else {
            match regex_captures_of(procedure_start_pattern(), text) {
                Some(g) => {
                    let name = group_text(g, 1);
                    let end = procedure_end_from(lines, index + 1, false);
                    let event = starts_event_procedure(lines, index + 1);
                    let summary0 = ProcedureModel {
                        name,
                        kind: if event { "event_sub"@ } else { "sub"@ },
                        start_line: (index + 1) as nat,
                        end_line: (end + 1) as nat,
                        supported_operation_count: 0,
                        unsupported_operation_count: 0,
                        requires_manual_rewrite: event,
                    };
                    let st1 = if event {
                        push_op(st, false, OperationModel {
                            procedure: name,
                            line: (index + 1) as nat,
                            operation: "EventProcedure"@,
                            target: canonicalize_spec(text),
                            value: None,
                            reason: Some(
                                "event procedures are not supported by the first ONLYOFFICE analyzer slice."@,
                            ),
                        })
                    } else {
                        st
                    };
                    if event {
                        lemma_push_op_bounded(st, false, OperationModel {
                            procedure: name,
                            line: (index + 1) as nat,
                            operation: "EventProcedure"@,
                            target: canonicalize_spec(text),
                            value: None,
                            reason: Some(
                                "event procedures are not supported by the first ONLYOFFICE analyzer slice."@,
                            ),
                        });
                    }
                    lemma_body_from_bounded(lines, name, index + 1, end, st1, summary0);
                    let r = body_from(lines, name, index + 1, end, st1, summary0);
                    let summary = if r.1.supported_operation_count == 0 && !r.1.requires_manual_rewrite {
                        ProcedureModel { requires_manual_rewrite: true, ..r.1 }
                    } else {
                        r.1
                    };
                    let st2 = ScanModel { procedures: r.0.procedures.push(summary), ..r.0 };
                    if st2.procedures.len() < 16 {
                        lemma_procedure_end_bounds(lines, index + 1, false);
                        lemma_scan_from_bounded(lines, end + 1, st2);
                    }
                },
                None => if regex_matches(function_start_pattern(), text) {
                    let name = match regex_captures_of(function_start_pattern(), text) {
                        Some(g) => group_text(g, 1),
                        None => "Function"@,
                    };
                    let end = procedure_end_from(lines, index + 1, true);
                    let st1 = ScanModel {
                        procedures: st.procedures.push(ProcedureModel {
                            name,
                            kind: "function"@,
                            start_line: (index + 1) as nat,
                            end_line: (end + 1) as nat,
                            supported_operation_count: 0,
                            unsupported_operation_count: 1,
                            requires_manual_rewrite: true,
                        }),
                        ..st
                    };
                    let op = OperationModel {
                        procedure: name,
                        line: (index + 1) as nat,
                        operation: "FunctionProcedure"@,
                        target: canonicalize_spec(text),
                        value: None,
                        reason: Some(
                            "Function procedures are not supported by the first ONLYOFFICE analyzer slice."@,
                        ),
                    };
                    lemma_push_op_bounded(st1, false, op);
                    lemma_procedure_end_bounds(lines, index + 1, true);
                    lemma_scan_from_bounded(lines, end + 1, push_op(st1, false, op));
                } else {
                    lemma_scan_from_bounded(lines, index + 1, st);
                },
            }
        }
    }
}

/// Procedures come in source order without overlapping: each starts on
/// line 1 or later and ends on or after its start line, and each ends
/// before any later one starts.
pub open spec fn procedures_ordered(p: Seq<ProcedureModel>) -> bool {
    &&& forall|k: int| 0 <= k < p.len() ==> 1 <= #[trigger] p[k].start_line <= p[k].end_line
    &&& forall|a: int, b: int| 0 <= a < b < p.len() ==> #[trigger] p[a].end_line < #[trigger] p[b].start_line
}

proof fn lemma_body_from_keeps_procedures(
    lines: Seq<Seq<char>>,
    name: Seq<char>,
    j: int,
    end: int,
    st: ScanModel,
    summary: ProcedureModel,
)
    ensures
        body_from(lines, name, j, end, st, summary).0.procedures == st.procedures,
        body_from(lines, name, j, end, st, summary).1.start_line == summary.start_line,
        body_from(lines, name, j, end, st, summary).1.end_line == summary.end_line,
        body_from(lines, name, j, end, st, summary).1.kind == summary.kind,
    decreases end - j,
{
    if !(j >= end || j < 0 || j >= lines.len()) {
        let r = body_step(lines, name, j, st, summary);
        lemma_body_from_keeps_procedures(lines, name, j + 1, end, r.0, r.1);
    }
}

proof fn lemma_scan_from_ordered(lines: Seq<Seq<char>>, index: int, st: ScanModel)
    requires
        0 <= index,
        procedures_ordered(st.procedures),
        forall|k: int| 0 <= k < st.procedures.len() ==> #[trigger] st.procedures[k].end_line <= index,
    ensures
        procedures_ordered(scan_from(lines, index, st).procedures),
    decreases lines.len() - index,
{
    if 0 <= index < lines.len() {
        let text = statement_text(lines[index]);
        if text.len() == 0 {
            lemma_scan_from_ordered(lines, index + 1, st);
        } else {
            match regex_captures_of(procedure_start_pattern(), text) {
                Some(g) => {
                    let name = group_text(g, 1);
                    let end = procedure_end_from(lines, index + 1, false);
                    lemma_procedure_end_bounds(lines, index + 1, false);
                    let event = starts_event_procedure(lines, index + 1);
                    let summary0 = ProcedureModel {
                        name,
                        kind: if event { "event_sub"@ } else { "sub"@ },
                        start_line: (index + 1) as nat,
                        end_line: (end + 1) as nat,
                        supported_operation_count: 0,
                        unsupported_operation_count: 0,
                        requires_manual_rewrite: event,
                    };
                    let st1 = if event {
                        push_op(st, false, OperationModel {
                            procedure: name,
                            line: (index + 1) as nat,
                            operation: "EventProcedure"@,
                            target: canonicalize_spec(text),
                            value: None,
                            reason: Some(
                                "event procedures are not supported by the first ONLYOFFICE analyzer slice."@,
                            ),
                        })
                    } else {
                        st
                    };
                    assert(st1.procedures == st.procedures);
                    lemma_body_from_keeps_procedures(lines, name, index + 1, end, st1, summary0);
                    let r = body_from(lines, name, index + 1, end, st1, summary0);
                    let summary = if r.1.supported_operation_count == 0 && !r.1.requires_manual_rewrite {
                        ProcedureModel { requires_manual_rewrite: true, ..r.1 }
                    } else {
                        r.1
                    };
                    let st2 = ScanModel { procedures: r.0.procedures.push(summary), ..r.0 };
                    let ps = st2.procedures;
                    assert(ps.last() == summary);
                    assert forall|a: int, b: int| 0 <= a < b < ps.len() implies #[trigger] ps[a].end_line
                        < #[trigger] ps[b].start_line by {
                        if b == ps.len() - 1 {
                            assert(st.procedures[a].end_line <= index);
                        } else {
                            assert(ps[a] == st.procedures[a] && ps[b] == st.procedures[b]);
                        }
                    }
                    assert forall|k: int| 0 <= k < ps.len() implies 1 <= #[trigger] ps[k].start_line
                        <= ps[k].end_line by {
                        if k < ps.len() - 1 {
                            assert(ps[k] == st.procedures[k]);
                        }
                    }
                    if st2.procedures.len() < 16 {
                        assert forall|k: int| 0 <= k < ps.len() implies #[trigger] ps[k].end_line <= end + 1 by {
                            if k < ps.len() - 1 {
                                assert(ps[k] == st.procedures[k]);
                            }
                        }
                        lemma_scan_from_ordered(lines, end + 1, st2);
                    }
                },
                None => if regex_matches(function_start_pattern(), text) {
                    let name = match regex_captures_of(function_start_pattern(), text) {
                        Some(g) => group_text(g, 1),
                        None => "Function"@,
                    };
                    let end = procedure_end_from(lines, index + 1, true);
                    lemma_procedure_end_bounds(lines, index + 1, true);
                    let p = ProcedureModel {
                        name,
                        kind: "function"@,
                        start_line: (index + 1) as nat,
                        end_line: (end + 1) as nat,
                        supported_operation_count: 0,
                        unsupported_operation_count: 1,
                        requires_manual_rewrite: true,
                    };
                    let st1 = ScanModel { procedures: st.procedures.push(p), ..st };
                    let st2 = push_op(st1, false, OperationModel {
                        procedure: name,
                        line: (index + 1) as nat,
                        operation: "FunctionProcedure"@,
                        target: canonicalize_spec(text),
                        value: None,
                        reason: Some(
                            "Function procedures are not supported by the first ONLYOFFICE analyzer slice."@,
                        ),
                    });
                    let ps = st2.procedures;
                    assert(ps == st.procedures.push(p));
                    assert forall|a: int, b: int| 0 <= a < b < ps.len() implies #[trigger] ps[a].end_line
                        < #[trigger] ps[b].start_line by {
                        if b == ps.len() - 1 {
                            assert(st.procedures[a].end_line <= index);
                        } else {
                            assert(ps[a] == st.procedures[a] && ps[b] == st.procedures[b]);
                        }
                    }
                    assert forall|k: int| 0 <= k < ps.len() implies 1 <= #[trigger] ps[k].start_line
                        <= ps[k].end_line by {
                        if k < ps.len() - 1 {
                            assert(ps[k] == st.procedures[k]);
                        }
                    }
                    assert forall|k: int| 0 <= k < ps.len() implies #[trigger] ps[k].end_line <= end + 1 by {
                        if k < ps.len() - 1 {
                            assert(ps[k] == st.procedures[k]);
                        }
                    }
                    lemma_scan_from_ordered(lines, end + 1, st2);
                } else {
                    lemma_scan_from_ordered(lines, index + 1, st);
                },
            }
        }
    }
}

/// Whether operation `o` lies in a procedure of `p` of its name, between
/// that procedure's first and last line.
pub open spec fn placed_in(o: OperationModel, p: Seq<ProcedureModel>) -> bool {
    exists|k: int| 0 <= k < p.len() && (#[trigger] p[k]).name == o.procedure && p[k].start_line <= o.line <= p[k].end_line
}

pub open spec fn ops_placed(ops: Seq<OperationModel>, p: Seq<ProcedureModel>) -> bool {
    forall|i: int| 0 <= i < ops.len() ==> placed_in(#[trigger] ops[i], p)
}

/// Placed already, or belonging to the procedure `name` that spans lines
/// `lo` to `hi` and is still being read.
pub open spec fn ops_pending(ops: Seq<OperationModel>, p: Seq<ProcedureModel>, name: Seq<char>, lo: int, hi: int) -> bool {
    forall|i: int|
        0 <= i < ops.len() ==> placed_in(#[trigger] ops[i], p) || (ops[i].procedure == name && lo <= ops[i].line
            <= hi)
}

proof fn lemma_push_bounded_forms<T>(values: Seq<T>, max_items: nat, value: T, warnings: Seq<Seq<char>>, label: Seq<char>)
    ensures
        push_bounded_spec(values, max_items, value, warnings, label).0 == values
            || push_bounded_spec(values, max_items, value, warnings, label).0 == values.push(value),
{
}

proof fn lemma_push_op_pending(
    st: ScanModel,
    supported: bool,
    op: OperationModel,
    name: Seq<char>,
    lo: int,
    hi: int,
)
    requires
        ops_pending(st.supported, st.procedures, name, lo, hi),
        ops_pending(st.unsupported, st.procedures, name, lo, hi),
        placed_in(op, st.procedures) || (op.procedure == name && lo <= op.line <= hi),
    ensures
        push_op(st, supported, op).procedures == st.procedures,
        ops_pending(push_op(st, supported, op).supported, st.procedures, name, lo, hi),
        ops_pending(push_op(st, supported, op).unsupported, st.procedures, name, lo, hi),
{
    let r = push_op(st, supported, op);
    if supported {
        lemma_push_bounded_forms(st.supported, 32, op, st.warnings, "supported operations"@);
        assert forall|i: int| 0 <= i < r.supported.len() implies placed_in(#[trigger] r.supported[i], st.procedures)
            || (r.supported[i].procedure == name && lo <= r.supported[i].line <= hi) by {
            if i < st.supported.len() {
                assert(r.supported[i] == st.supported[i]);
            }
        }
    } else {
        lemma_push_bounded_forms(st.unsupported, 32, op, st.warnings, "unsupported operations"@);
        assert forall|i: int| 0 <= i < r.unsupported.len() implies placed_in(#[trigger] r.unsupported[i], st.procedures)
            || (r.unsupported[i].procedure == name && lo <= r.unsupported[i].line <= hi) by {
            if i < st.unsupported.len() {
                assert(r.unsupported[i] == st.unsupported[i]);
            }
        }
    }
}

proof fn lemma_pending_to_placed(ops: Seq<OperationModel>, p: Seq<ProcedureModel>, name: Seq<char>, lo: int, hi: int, q: ProcedureModel)
    requires
        ops_pending(ops, p, name, lo, hi),
        q.name == name,
        q.start_line <= lo,
        hi <= q.end_line,
    ensures
        ops_placed(ops, p.push(q)),
{
    let p2 = p.push(q);
    assert forall|i: int| 0 <= i < ops.len() implies placed_in(#[trigger] ops[i], p2) by {
        if placed_in(ops[i], p) {
            let k = choose|k: int| 0 <= k < p.len() && (#[trigger] p[k]).name == ops[i].procedure && p[k].start_line
                <= ops[i].line <= p[k].end_line;
            assert(p2[k] == p[k]);
        } else {
            assert(p2[p.len() as int] == q);
        }
    }
}

proof fn lemma_body_from_pending(
    lines: Seq<Seq<char>>,
    name: Seq<char>,
    j: int,
    end: int,
    st: ScanModel,
    summary: ProcedureModel,
    lo: int,
    hi: int,
)
    requires
        lo <= j + 1,
        end <= hi,
        ops_pending(st.supported, st.procedures, name, lo, hi),
        ops_pending(st.unsupported, st.procedures, name, lo, hi),
    ensures
        ({
            let r = body_from(lines, name, j, end, st, summary);
            &&& r.0.procedures == st.procedures
            &&& r.1.name == summary.name
            &&& ops_pending(r.0.supported, st.procedures, name, lo, hi)
            &&& ops_pending(r.0.unsupported, st.procedures, name, lo, hi)
        }),
    decreases end - j,
{
    if !(j >= end || j < 0 || j >= lines.len()) {
        let text = statement_text(lines[j]);
        if text.len() > 0 {
            match classify_statement_spec(text) {
                Some(c) => {
                    let op = OperationModel {
                        procedure: name,
                        line: (j + 1) as nat,
                        operation: c.0,
                        target: c.1,
                        value: c.2,
                        reason: c.4,
                    };
                    let st1 = ScanModel { redacted_seen: st.redacted_seen || c.5, ..st };
                    if c.3 {
                        lemma_push_op_pending(ScanModel { saw_supported: true, ..st1 }, true, op, name, lo, hi);
                    } else {
                        lemma_push_op_pending(st1, false, op, name, lo, hi);
                    }
                },
                None => if !is_harmless_spec(text) {
                    let op = OperationModel {
                        procedure: name,
                        line: (j + 1) as nat,
                        operation: "UnsupportedStatement"@,
                        target: canonicalize_spec(text),
                        value: None,
                        reason: Some(
                            "unrecognized executable statements are not supported by the first ONLYOFFICE analyzer slice."@,
                        ),
                    };
                    lemma_push_op_pending(st, false, op, name, lo, hi);
                },
            }
        }
        let r = body_step(lines, name, j, st, summary);
        lemma_body_from_pending(lines, name, j + 1, end, r.0, r.1, lo, hi);
    }
}

proof fn lemma_scan_from_placed(lines: Seq<Seq<char>>, index: int, st: ScanModel)
    requires
        0 <= index,
        ops_placed(st.supported, st.procedures),
        ops_placed(st.unsupported, st.procedures),
    ensures
        ops_placed(scan_from(lines, index, st).supported, scan_from(lines, index, st).procedures),
        ops_placed(scan_from(lines, index, st).unsupported, scan_from(lines, index, st).procedures),
    decreases lines.len() - index,
{
    if 0 <= index < lines.len() {
        let text = statement_text(lines[index]);
        if text.len() == 0 {
            lemma_scan_from_placed(lines, index + 1, st);
        } else {
            match regex_captures_of(procedure_start_pattern(), text) {
                Some(g) => {
                    let name = group_text(g, 1);
                    let end = procedure_end_from(lines, index + 1, false);
                    lemma_procedure_end_bounds(lines, index + 1, false);
                    let lo = index + 1;
                    let hi = end + 1;
                    let event = starts_event_procedure(lines, index + 1);
                    let summary0 = ProcedureModel {
                        name,
                        kind: if event { "event_sub"@ } else { "sub"@ },
                        start_line: (index + 1) as nat,
                        end_line: (end + 1) as nat,
                        supported_operation_count: 0,
                        unsupported_operation_count: 0,
                        requires_manual_rewrite: event,
                    };
                    assert(ops_pending(st.supported, st.procedures, name, lo, hi));
                    assert(ops_pending(st.unsupported, st.procedures, name, lo, hi));
                    let st1 = if event {
                        let op = OperationModel {
                            procedure: name,
                            line: (index + 1) as nat,
                            operation: "EventProcedure"@,
                            target: canonicalize_spec(text),
                            value: None,
                            reason: Some(
                                "event procedures are not supported by the first ONLYOFFICE analyzer slice."@,
                            ),
                        };
                        lemma_push_op_pending(st, false, op, name, lo, hi);
                        push_op(st, false, op)
                    } else {
                        st
                    };
                    lemma_body_from_pending(lines, name, index + 1, end, st1, summary0, lo, hi);
                    lemma_body_from_keeps_procedures(lines, name, index + 1, end, st1, summary0);
                    let r = body_from(lines, name, index + 1, end, st1, summary0);
                    let summary = if r.1.supported_operation_count == 0 && !r.1.requires_manual_rewrite {
                        ProcedureModel { requires_manual_rewrite: true, ..r.1 }
                    } else {
                        r.1
                    };
                    lemma_pending_to_placed(r.0.supported, st.procedures, name, lo, hi, summary);
                    lemma_pending_to_placed(r.0.unsupported, st.procedures, name, lo, hi, summary);
                    let st2 = ScanModel { procedures: r.0.procedures.push(summary), ..r.0 };
                    if st2.procedures.len() < 16 {
                        lemma_scan_from_placed(lines, end + 1, st2);
                    }
                },
                None => if regex_matches(function_start_pattern(), text) {
                    let name = match regex_captures_of(function_start_pattern(), text) {
                        Some(g) => group_text(g, 1),
                        None => "Function"@,
                    };
                    let end = procedure_end_from(lines, index + 1, true);
                    lemma_procedure_end_bounds(lines, index + 1, true);
                    let p = ProcedureModel {
                        name,
                        kind: "function"@,
                        start_line: (index + 1) as nat,
                        end_line: (end + 1) as nat,
                        supported_operation_count: 0,
                        unsupported_operation_count: 1,
                        requires_manual_rewrite: true,
                    };
                    let lo = index + 1;
                    assert(ops_pending(st.supported, st.procedures, name, lo, lo));
                    assert(ops_pending(st.unsupported, st.procedures, name, lo, lo));
                    let op = OperationModel {
                        procedure: name,
                        line: (index + 1) as nat,
                        operation: "FunctionProcedure"@,
                        target: canonicalize_spec(text),
                        value: None,
                        reason: Some(
                            "Function procedures are not supported by the first ONLYOFFICE analyzer slice."@,
                        ),
                    };
                    lemma_push_op_pending(st, false, op, name, lo, lo);
                    let pushed = push_op(st, false, op);
                    lemma_pending_to_placed(pushed.supported, st.procedures, name, lo, lo, p);
                    lemma_pending_to_placed(pushed.unsupported, st.procedures, name, lo, lo, p);
                    let st1 = ScanModel { procedures: st.procedures.push(p), ..st };
                    let st2 = push_op(st1, false, op);
                    assert(st2.supported == pushed.supported);
                    assert(st2.unsupported == pushed.unsupported);
                    lemma_scan_from_placed(lines, end + 1, st2);
                } else {
                    lemma_scan_from_placed(lines, index + 1, st);
                },
            }
        }
    }
}

/// Every operation that the analysis reports lies in a reported procedure
/// of its name, between that procedure's first and last line.
pub proof fn law_operations_lie_in_their_procedures(source: Seq<char>)
    ensures
        ops_placed(analyze_spec(source).supported_operations, analyze_spec(source).procedures),
        ops_placed(analyze_spec(source).unsupported_operations, analyze_spec(source).procedures),
{
    let bounded = bounded_seq(source, 32768);
    let lines = split_lines_spec(bounded.0);
    let init = ScanModel {
        warnings: if bounded.1 {
            seq!["source text truncated to 32768 characters for analysis"@]
        } else {
            Seq::empty()
        },
        procedures: Seq::empty(),
        supported: Seq::empty(),
        unsupported: Seq::empty(),
        saw_supported: false,
        redacted_seen: false,
        procedure_truncated: false,
    };
    lemma_scan_from_placed(lines, 0, init);
}

/// How many of the procedures are not `Function` blocks.
pub open spec fn sub_count(p: Seq<ProcedureModel>) -> nat
    decreases p.len(),
{
    if p.len() == 0 {
        0
    } else {
        sub_count(p.drop_last()) + if p.last().kind == "function"@ {
            0nat
        } else {
            1nat
        }
    }
}

proof fn lemma_sub_count_push(p: Seq<ProcedureModel>, x: ProcedureModel)
    ensures
        sub_count(p.push(x)) == sub_count(p) + if x.kind == "function"@ {
            0nat
        } else {
            1nat
        },
        sub_count(p) <= p.len(),
    decreases p.len(),
{
    assert(p.push(x).drop_last() =~= p);
    if p.len() > 0 {
        lemma_sub_count_push(p.drop_last(), p.last());
        assert(p.drop_last().push(p.last()) =~= p);
    }
}

proof fn lemma_scan_from_subs_capped(lines: Seq<Seq<char>>, index: int, st: ScanModel)
    requires
        sub_count(st.procedures) < 16,
    ensures
        sub_count(scan_from(lines, index, st).procedures) <= 16,
    decreases lines.len() - index,
{
    if 0 <= index < lines.len() {
        let text = statement_text(lines[index]);
        if text.len() == 0 {
            lemma_scan_from_subs_capped(lines, index + 1, st);
        } else {
            match regex_captures_of(procedure_start_pattern(), text) {
                Some(g) => {
                    let name = group_text(g, 1);
                    let end = procedure_end_from(lines, index + 1, false);
                    lemma_procedure_end_bounds(lines, index + 1, false);
                    let event = starts_event_procedure(lines, index + 1);
                    let summary0 = ProcedureModel {
                        name,
                        kind: if event { "event_sub"@ } else { "sub"@ },
                        start_line: (index + 1) as nat,
                        end_line: (end + 1) as nat,
                        supported_operation_count: 0,
                        unsupported_operation_count: 0,
                        requires_manual_rewrite: event,
                    };
                    let st1 = if event {
                        push_op(st, false, OperationModel {
                            procedure: name,
                            line: (index + 1) as nat,
                            operation: "EventProcedure"@,
                            target: canonicalize_spec(text),
                            value: None,
                            reason: Some(
                                "event procedures are not supported by the first ONLYOFFICE analyzer slice."@,
                            ),
                        })
                    } else {
                        st
                    };
                    lemma_body_from_keeps_procedures(lines, name, index + 1, end, st1, summary0);
                    let r = body_from(lines, name, index + 1, end, st1, summary0);
                    let summary = if r.1.supported_operation_count == 0 && !r.1.requires_manual_rewrite {
                        ProcedureModel { requires_manual_rewrite: true, ..r.1 }
                    } else {
                        r.1
                    };
                    reveal_strlit("function");
                    reveal_strlit("sub");
                    reveal_strlit("event_sub");
                    assert("sub"@.len() == 3 && "event_sub"@.len() == 9 && "function"@.len() == 8);
                    assert(summary.kind == summary0.kind);
                    assert(summary.kind != "function"@);
                    lemma_sub_count_push(st.procedures, summary);
                    let st2 = ScanModel { procedures: r.0.procedures.push(summary), ..r.0 };
                    if st2.procedures.len() < 16 {
                        lemma_sub_count_push(st2.procedures, summary);
                        lemma_scan_from_subs_capped(lines, end + 1, st2);
                    }
                },
                None => if regex_matches(function_start_pattern(), text) {
                    let name = match regex_captures_of(function_start_pattern(), text) {
                        Some(g) => group_text(g, 1),
                        None => "Function"@,
                    };
                    let end = procedure_end_from(lines, index + 1, true);
                    lemma_procedure_end_bounds(lines, index + 1, true);
                    let p = ProcedureModel {
                        name,
                        kind: "function"@,
                        start_line: (index + 1) as nat,
                        end_line: (end + 1) as nat,
                        supported_operation_count: 0,
                        unsupported_operation_count: 1,
                        requires_manual_rewrite: true,
                    };
                    lemma_sub_count_push(st.procedures, p);
                    let st1 = ScanModel { procedures: st.procedures.push(p), ..st };
                    let st2 = push_op(st1, false, OperationModel {
                        procedure: name,
                        line: (index + 1) as nat,
                        operation: "FunctionProcedure"@,
                        target: canonicalize_spec(text),
                        value: None,
                        reason: Some(
                            "Function procedures are not supported by the first ONLYOFFICE analyzer slice."@,
                        ),
                    });
                    assert(st2.procedures == st1.procedures);
                    lemma_scan_from_subs_capped(lines, end + 1, st2);
                } else {
                    lemma_scan_from_subs_capped(lines, index + 1, st);
                },
            }
        }
    }
}

/// Whatever the source, the analysis reports at most 16 procedures other
/// than `Function` blocks (a `Function` block is reported whatever the
/// count, so the total can exceed 16 only through them).
pub proof fn law_sub_procedures_are_capped(source: Seq<char>)
    ensures
        sub_count(analyze_spec(source).procedures) <= 16,
{
    let bounded = bounded_seq(source, 32768);
    let lines = split_lines_spec(bounded.0);
    let init = ScanModel {
        warnings: if bounded.1 {
            seq!["source text truncated to 32768 characters for analysis"@]
        } else {
            Seq::empty()
        },
        procedures: Seq::empty(),
        supported: Seq::empty(),
        unsupported: Seq::empty(),
        saw_supported: false,
        redacted_seen: false,
        procedure_truncated: false,
    };
    lemma_scan_from_subs_capped(lines, 0, init);
}

/// The lines that the analysis scans: those of the source's first 32768
/// characters.
pub open spec fn analyzed_lines(source: Seq<char>) -> Seq<Seq<char>> {
    split_lines_spec(bounded_seq(source, 32768).0)
}

/// Whether no scanned line opens a `Function` procedure.
pub open spec fn no_function_lines(lines: Seq<Seq<char>>) -> bool {
    forall|i: int| 0 <= i < lines.len() ==> !regex_matches(function_start_pattern(), statement_text(#[trigger] lines[i]))
}

proof fn lemma_scan_from_capped(lines: Seq<Seq<char>>, index: int, st: ScanModel)
    requires
        no_function_lines(lines),
        st.procedures.len() < 16,
    ensures
        scan_from(lines, index, st).procedures.len() <= 16,
    decreases lines.len() - index,
{
    if 0 <= index < lines.len() {
        let text = statement_text(lines[index]);
        if text.len() == 0 {
            lemma_scan_from_capped(lines, index + 1, st);
        } else {
            match regex_captures_of(procedure_start_pattern(), text) {
                Some(g) => {
                    let name = group_text(g, 1);
                    let end = procedure_end_from(lines, index + 1, false);
                    lemma_procedure_end_bounds(lines, index + 1, false);
                    let event = starts_event_procedure(lines, index + 1);
                    let summary0 = ProcedureModel {
                        name,
                        kind: if event { "event_sub"@ } else { "sub"@ },
                        start_line: (index + 1) as nat,
                        end_line: (end + 1) as nat,
                        supported_operation_count: 0,
                        unsupported_operation_count: 0,
                        requires_manual_rewrite: event,
                    };
                    let st1 = if event {
                        push_op(st, false, OperationModel {
                            procedure: name,
                            line: (index + 1) as nat,
                            operation: "EventProcedure"@,
                            target: canonicalize_spec(text),
                            value: None,
                            reason: Some(
                                "event procedures are not supported by the first ONLYOFFICE analyzer slice."@,
                            ),
                        })
                    } else {
                        st
                    };
                    lemma_body_from_keeps_procedures(lines, name, index + 1, end, st1, summary0);
                    let r = body_from(lines, name, index + 1, end, st1, summary0);
                    let summary = if r.1.supported_operation_count == 0 && !r.1.requires_manual_rewrite {
                        ProcedureModel { requires_manual_rewrite: true, ..r.1 }
                    } else {
                        r.1
                    };
                    let st2 = ScanModel { procedures: r.0.procedures.push(summary), ..r.0 };
                    if st2.procedures.len() < 16 {
                        lemma_scan_from_capped(lines, end + 1, st2);
                    }
                },
                None => {
                    assert(!regex_matches(function_start_pattern(), statement_text(lines[index])));
                    lemma_scan_from_capped(lines, index + 1, st);
                },
            }
        }
    }
}

/// The analysis reports at most 16 procedures, when no line of the
/// analyzed source opens a `Function` (a `Function` block is reported
/// whatever the count).
pub proof fn law_procedures_are_capped(source: Seq<char>)
    requires
        no_function_lines(analyzed_lines(source)),
    ensures
        analyze_spec(source).procedures.len() <= 16,
{
    let bounded = bounded_seq(source, 32768);
    let lines = split_lines_spec(bounded.0);
    let init = ScanModel {
        warnings: if bounded.1 {
            seq!["source text truncated to 32768 characters for analysis"@]
        } else {
            Seq::empty()
        },
        procedures: Seq::empty(),
        supported: Seq::empty(),
        unsupported: Seq::empty(),
        saw_supported: false,
        redacted_seen: false,
        procedure_truncated: false,
    };
    lemma_scan_from_capped(lines, 0, init);
}

/// The procedures that the analysis reports come in source order and do
/// not overlap: each starts on line 1 or later and ends on or after its
/// start, and each ends before any later one starts.
pub proof fn law_procedures_in_source_order(source: Seq<char>)
    ensures
        procedures_ordered(analyze_spec(source).procedures),
{
    let bounded = bounded_seq(source, 32768);
    let lines = split_lines_spec(bounded.0);
    let init = ScanModel {
        warnings: if bounded.1 {
            seq!["source text truncated to 32768 characters for analysis"@]
        } else {
            Seq::empty()
        },
        procedures: Seq::empty(),
        supported: Seq::empty(),
        unsupported: Seq::empty(),
        saw_supported: false,
        redacted_seen: false,
        procedure_truncated: false,
    };
    lemma_scan_from_ordered(lines, 0, init);
}

/// Every operation that the analysis reports carries its outcome in one
/// field: a supported operation has a value and no reason, an unsupported
/// one has a reason and no value.
pub proof fn law_operations_carry_value_or_reason(source: Seq<char>)
    ensures
        ops_shaped(analyze_spec(source).supported_operations, true),
        ops_shaped(analyze_spec(source).unsupported_operations, false),
{
    let bounded = bounded_seq(source, 32768);
    let lines = split_lines_spec(bounded.0);
    let init = ScanModel {
        warnings: if bounded.1 {
            seq!["source text truncated to 32768 characters for analysis"@]
        } else {
            Seq::empty()
        },
        procedures: Seq::empty(),
        supported: Seq::empty(),
        unsupported: Seq::empty(),
        saw_supported: false,
        redacted_seen: false,
        procedure_truncated: false,
    };
    lemma_scan_from_bounded(lines, 0, init);
}

/// Whatever the source, the analysis reports at most 32 supported and 32
/// unsupported operations and at most 16 warnings.
pub proof fn law_analysis_is_bounded(source: Seq<char>)
    ensures
        analyze_spec(source).supported_operations.len() <= 32,
        analyze_spec(source).unsupported_operations.len() <= 32,
        analyze_spec(source).warnings.len() <= 16,
{
    let bounded = bounded_seq(source, 32768);
    let lines = split_lines_spec(bounded.0);
    let init = ScanModel {
        warnings: if bounded.1 {
            seq!["source text truncated to 32768 characters for analysis"@]
        } else {
            Seq::empty()
        },
        procedures: Seq::empty(),
        supported: Seq::empty(),
        unsupported: Seq::empty(),
        saw_supported: false,
        redacted_seen: false,
        procedure_truncated: false,
    };
    lemma_scan_from_bounded(lines, 0, init);
}

/// An analysis succeeds only when nothing in it needs a manual rewrite: the
/// source was read whole, at least one supported operation was found, no
/// operation is unsupported, and no procedure needs rewriting.
pub proof fn law_analysis_success_is_clean(source: Seq<char>)
    ensures
        analyze_spec(source).success ==> {
            let a = analyze_spec(source);
            &&& !a.requires_manual_rewrite
            &&& a.supported_operations.len() > 0
            &&& a.unsupported_operations.len() == 0
            &&& forall|i: int| 0 <= i < a.procedures.len() ==> !(#[trigger] a.procedures[i]).requires_manual_rewrite
            &&& !bounded_seq(source, 32768).1
        },
{
    law_analysis_is_bounded(source);
    let bounded = bounded_seq(source, 32768);
    let lines = split_lines_spec(bounded.0);
    let init = ScanModel {
        warnings: if bounded.1 {
            seq!["source text truncated to 32768 characters for analysis"@]
        } else {
            Seq::empty()
        },
        procedures: Seq::empty(),
        supported: Seq::empty(),
        unsupported: Seq::empty(),
        saw_supported: false,
        redacted_seen: false,
        procedure_truncated: false,
    };
    lemma_scan_from_bounded(lines, 0, init);
    let a = analyze_spec(source);
    if a.success {
        assert forall|i: int| 0 <= i < a.procedures.len() implies !(#[trigger] a.procedures[i]).requires_manual_rewrite by {
            if a.procedures[i].requires_manual_rewrite {
                assert(any_manual_rewrite(a.procedures));
            }
        }
    }
}

} // verus!
