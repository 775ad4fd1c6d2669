//! Character-level text helpers with their mathematical models over `Seq<char>`.
use vstd::prelude::*;

verus! {

/// Unicode `White_Space` property, the set `char::is_whitespace` documents.
pub open spec fn is_ws(c: char) -> bool {
    ||| ('\u{9}' <= c && c <= '\u{d}')
    ||| c == ' '
    ||| c == '\u{85}'
    ||| c == '\u{a0}'
    ||| c == '\u{1680}'
    ||| ('\u{2000}' <= c && c <= '\u{200a}')
    ||| c == '\u{2028}'
    ||| c == '\u{2029}'
    ||| c == '\u{202f}'
    ||| c == '\u{205f}'
    ||| c == '\u{3000}'
}

/// Length in bytes of the UTF-8 encoding, as `str::len` reports it.
pub open spec fn byte_len(s: Seq<char>) -> usize {
    vstd::utf8::encode_utf8(s).len() as usize
}

pub open spec fn is_ascii_upper(c: char) -> bool {
    'A' <= c && c <= 'Z'
}

pub open spec fn is_ascii_digit(c: char) -> bool {
    '0' <= c && c <= '9'
}

pub open spec fn is_ascii_alnum(c: char) -> bool {
    is_ascii_digit(c) || is_ascii_upper(c) || ('a' <= c && c <= 'z')
}

/// ASCII lower-casing of one character; other characters are unchanged.
pub open spec fn lower_char(c: char) -> char {
    if is_ascii_upper(c) {
        ((c as u32) + 32) as char
    } else {
        c
    }
}

pub open spec fn lower_seq(s: Seq<char>) -> Seq<char> {
    s.map_values(|c: char| lower_char(c))
}

pub open spec fn trim_start_seq(s: Seq<char>) -> Seq<char>
    decreases s.len(),
{
    if s.len() > 0 && is_ws(s[0]) {
        trim_start_seq(s.drop_first())
    } else {
        s
    }
}

pub open spec fn trim_end_seq(s: Seq<char>) -> Seq<char>
    decreases s.len(),
{
    if s.len() > 0 && is_ws(s.last()) {
        trim_end_seq(s.drop_last())
    } else {
        s
    }
}

pub open spec fn trim_seq(s: Seq<char>) -> Seq<char> {
    trim_end_seq(trim_start_seq(s))
}

pub open spec fn starts_with(s: Seq<char>, p: Seq<char>) -> bool {
    p.len() <= s.len() && s.take(p.len() as int) == p
}

pub open spec fn ends_with(s: Seq<char>, p: Seq<char>) -> bool {
    p.len() <= s.len() && s.skip(s.len() - p.len()) == p
}

/// `needle` occurs in `hay` starting at `i`.
pub open spec fn occurs_at(hay: Seq<char>, needle: Seq<char>, i: int) -> bool {
    0 <= i && i + needle.len() <= hay.len() && hay.subrange(i, i + needle.len()) == needle
}

pub open spec fn contains_seq(hay: Seq<char>, needle: Seq<char>) -> bool {
    exists|i: int| occurs_at(hay, needle, i)
}

pub fn chars_of(s: &str) -> (v: Vec<char>)
    ensures
        v@ == s@,
{
    let mut v: Vec<char> = Vec::new();
    for c in it: s.chars()
        invariant
            v@ == it.seq().take(it.index() as int),
            it.seq() == s@,
    {
        v.push(c);
    }
    v
}

/// Calls `String::push`: the character is appended to the string.
#[verifier::external_body]
pub(crate) fn push_char(s: &mut String, c: char)
    ensures
        final(s)@ == old(s)@.push(c),
{
    s.push(c);
}

pub fn string_of_range(v: &Vec<char>, from: usize, to: usize) -> (r: String)
    requires
        from <= to <= v@.len(),
    ensures
        r@ == v@.subrange(from as int, to as int),
{
    let mut r = String::new();
    let mut i = from;
    while i < to
        invariant
            from <= i <= to <= v@.len(),
            r@ == v@.subrange(from as int, i as int),
        decreases to - i,
    {
        push_char(&mut r, v[i]);
        i += 1;
        assert(r@ =~= v@.subrange(from as int, i as int));
    }
    r
}

pub fn string_of(v: &Vec<char>) -> (r: String)
    ensures
        r@ == v@,
{
    let r = string_of_range(v, 0, v.len());
    assert(v@.subrange(0, v@.len() as int) =~= v@);
    r
}

pub fn is_whitespace(c: char) -> (b: bool)
    ensures
        b == is_ws(c),
{
    ('\u{9}' <= c && c <= '\u{d}') || c == ' ' || c == '\u{85}' || c == '\u{a0}' || c
        == '\u{1680}' || ('\u{2000}' <= c && c <= '\u{200a}') || c == '\u{2028}' || c
        == '\u{2029}' || c == '\u{202f}' || c == '\u{205f}' || c == '\u{3000}'
}

pub fn lower(c: char) -> (r: char)
    ensures
        r == lower_char(c),
{
    if 'A' <= c && c <= 'Z' {
        let b = c as u8;
        ((b + 32) as char)
    } else {
        c
    }
}

pub fn lower_string(s: &str) -> (r: String)
    ensures
        r@ == lower_seq(s@),
{
    let v = chars_of(s);
    let mut r = String::new();
    let mut i: usize = 0;
    while i < v.len()
        invariant
            i <= v@.len(),
            v@ == s@,
            r@ == lower_seq(v@.take(i as int)),
        decreases v@.len() - i,
    {
        let c = lower(v[i]);
        push_char(&mut r, c);
        i += 1;
        assert(lower_seq(v@.take(i as int)) =~= lower_seq(v@.take(i - 1)).push(c));
    }
    assert(v@.take(i as int) =~= v@);
    r
}

/// Index of the first character that is not whitespace, scanning from `from`.
fn skip_ws_forward(v: &Vec<char>) -> (i: usize)
    ensures
        i <= v@.len(),
        trim_start_seq(v@) == v@.skip(i as int),
{
    let mut i: usize = 0;
    assert(v@.skip(0) =~= v@);
    while i < v.len() && is_whitespace(v[i])
        invariant
            i <= v@.len(),
            trim_start_seq(v@) == trim_start_seq(v@.skip(i as int)),
        decreases v@.len() - i,
    {
        assert(v@.skip(i as int).drop_first() =~= v@.skip(i + 1));
        i += 1;
    }
    i
}

fn skip_ws_backward(v: &Vec<char>, lo: usize) -> (j: usize)
    requires
        lo <= v@.len(),
    ensures
        lo <= j <= v@.len(),
        trim_end_seq(v@.subrange(lo as int, v@.len() as int)) == v@.subrange(lo as int, j as int),
{
    let mut j: usize = v.len();
    while j > lo && is_whitespace(v[j - 1])
        invariant
            lo <= j <= v@.len(),
            trim_end_seq(v@.subrange(lo as int, v@.len() as int)) == trim_end_seq(
                v@.subrange(lo as int, j as int),
            ),
        decreases j,
    {
        assert(v@.subrange(lo as int, j as int).drop_last() =~= v@.subrange(lo as int, j - 1));
        j -= 1;
    }
    j
}

pub fn trim(s: &str) -> (r: String)
    ensures
        r@ == trim_seq(s@),
{
    let v = chars_of(s);
    let i = skip_ws_forward(&v);
    let j = skip_ws_backward(&v, i);
    assert(v@.skip(i as int) =~= v@.subrange(i as int, v@.len() as int));
    string_of_range(&v, i, j)
}

pub fn trim_start(s: &str) -> (r: String)
    ensures
        r@ == trim_start_seq(s@),
{
    let v = chars_of(s);
    let i = skip_ws_forward(&v);
    let r = string_of_range(&v, i, v.len());
    assert(v@.skip(i as int) =~= v@.subrange(i as int, v@.len() as int));
    r
}

pub fn trim_end(s: &str) -> (r: String)
    ensures
        r@ == trim_end_seq(s@),
{
    let v = chars_of(s);
    let j = skip_ws_backward(&v, 0);
    assert(v@.subrange(0, v@.len() as int) =~= v@);
    string_of_range(&v, 0, j)
}

fn seq_eq_at(hay: &Vec<char>, needle: &Vec<char>, at: usize) -> (b: bool)
    requires
        at + needle@.len() <= hay@.len(),
    ensures
        b == (hay@.subrange(at as int, at + needle@.len()) == needle@),
{
    let mut k: usize = 0;
    while k < needle.len()
        invariant
            k <= needle@.len(),
            at + needle@.len() <= hay.len(),
            forall|t: int| 0 <= t < k ==> hay@[at + t] == needle@[t],
        decreases needle@.len() - k,
    {
        if hay[at + k] != needle[k] {
            assert(hay@.subrange(at as int, at + needle@.len())[k as int] != needle@[k as int]);
            return false;
        }
        k += 1;
    }
    assert(hay@.subrange(at as int, at + needle@.len()) =~= needle@);
    true
}

pub fn starts_with_str(s: &str, p: &str) -> (b: bool)
    ensures
        b == starts_with(s@, p@),
{
    let v = chars_of(s);
    let w = chars_of(p);
    if w.len() > v.len() {
        return false;
    }
    let b = seq_eq_at(&v, &w, 0);
    assert(v@.subrange(0, w@.len() as int) =~= v@.take(w@.len() as int));
    b
}

pub fn ends_with_str(s: &str, p: &str) -> (b: bool)
    ensures
        b == ends_with(s@, p@),
{
    let v = chars_of(s);
    let w = chars_of(p);
    if w.len() > v.len() {
        return false;
    }
    let at = v.len() - w.len();
    let b = seq_eq_at(&v, &w, at);
    assert(v@.subrange(at as int, at + w@.len()) =~= v@.skip(at as int));
    b
}

pub fn contains_str(hay: &str, needle: &str) -> (b: bool)
    ensures
        b == contains_seq(hay@, needle@),
{
    let v = chars_of(hay);
    let w = chars_of(needle);
    if w.len() > v.len() {
        assert forall|i: int| !occurs_at(hay@, needle@, i) by {}
        return false;
    }
    let mut i: usize = 0;
    let last = v.len() - w.len();
    while i <= last
        invariant
            w@.len() <= v@.len(),
            last == v@.len() - w@.len(),
            v@ == hay@,
            w@ == needle@,
            i <= last + 1,
            forall|t: int| 0 <= t < i ==> !occurs_at(hay@, needle@, t),
        decreases last + 1 - i,
    {
        if seq_eq_at(&v, &w, i) {
            assert(occurs_at(hay@, needle@, i as int));
            return true;
        }
        if i == last {
            assert forall|t: int| !occurs_at(hay@, needle@, t) by {
                if 0 <= t <= i {
                }
            }
            return false;
        }
        i += 1;
    }
    assert forall|t: int| !occurs_at(hay@, needle@, t) by {
        if 0 <= t < i {
        }
    }
    false
}

/// Case-insensitive (ASCII) equality of two strings.
pub fn eq_ignore_ascii_case(a: &str, b: &str) -> (r: bool)
    ensures
        r == (lower_seq(a@) == lower_seq(b@)),
{
    let x = lower_string(a);
    let y = lower_string(b);
    let v = chars_of(x.as_str());
    let w = chars_of(y.as_str());
    if v.len() != w.len() {
        assert(lower_seq(a@).len() != lower_seq(b@).len());
        return false;
    }
    let e = seq_eq_at(&v, &w, 0);
    assert(v@.subrange(0, w@.len() as int) =~= v@);
    e
}

pub open spec fn upper_char(c: char) -> char {
    if 'a' <= c && c <= 'z' {
        ((c as u32) - 32) as char
    } else {
        c
    }
}

pub open spec fn upper_seq(s: Seq<char>) -> Seq<char> {
    s.map_values(|c: char| upper_char(c))
}

pub fn upper(c: char) -> (r: char)
    ensures
        r == upper_char(c),
{
    if 'a' <= c && c <= 'z' {
        let b = c as u8;
        ((b - 32) as char)
    } else {
        c
    }
}

pub fn upper_string(s: &str) -> (r: String)
    ensures
        r@ == upper_seq(s@),
{
    let v = chars_of(s);
    let mut r = String::new();
    let mut i: usize = 0;
    while i < v.len()
        invariant
            i <= v@.len(),
            v@ == s@,
            r@ == upper_seq(v@.take(i as int)),
        decreases v@.len() - i,
    {
        let c = upper(v[i]);
        push_char(&mut r, c);
        i += 1;
        assert(upper_seq(v@.take(i as int)) =~= upper_seq(v@.take(i - 1)).push(c));
    }
    assert(v@.take(i as int) =~= v@);
    r
}

/// The first `max` characters of `s`, and whether anything was cut off.
pub open spec fn bounded_seq(s: Seq<char>, max: nat) -> (Seq<char>, bool) {
    if s.len() <= max {
        (s, false)
    } else {
        (s.take(max as int), true)
    }
}

/// Copies at most `max_chars` characters of `value`, reporting whether the
/// copy is shorter than the input.
pub fn bounded_text(value: &str, max_chars: usize) -> (r: (String, bool))
    ensures
        (r.0@, r.1) == bounded_seq(value@, max_chars as nat),
{
    let v = chars_of(value);
    if v.len() <= max_chars {
        (string_of(&v), false)
    } else {
        let t = string_of_range(&v, 0, max_chars);
        assert(v@.subrange(0, max_chars as int) =~= v@.take(max_chars as int));
        (t, true)
    }
}

/// A carriage return that ends a line is part of its line ending.
pub open spec fn strip_cr(l: Seq<char>) -> Seq<char> {
    if l.len() > 0 && l.last() == '\r' {
        l.drop_last()
    } else {
        l
    }
}

/// Completed lines and the pending partial line after reading `s`.
pub open spec fn lines_fold(s: Seq<char>) -> (Seq<Seq<char>>, Seq<char>)
    decreases s.len(),
{
    if s.len() == 0 {
        (Seq::empty(), Seq::empty())
    } else {
        let st = lines_fold(s.drop_last());
        if s.last() == '\n' {
            (st.0.push(strip_cr(st.1)), Seq::empty())
        } else {
            (st.0, st.1.push(s.last()))
        }
    }
}

/// The lines of `s` as `str::lines` yields them: split at `\n` or `\r\n`,
/// with no empty line after a final line ending.
pub open spec fn str_lines(s: Seq<char>) -> Seq<Seq<char>> {
    let st = lines_fold(s);
    if st.1.len() > 0 {
        st.0.push(st.1)
    } else {
        st.0
    }
}

pub fn lines_of(s: &str) -> (r: Vec<String>)
    ensures
        r.deep_view() == str_lines(s@),
{
    let v = chars_of(s);
    let mut done: Vec<String> = Vec::new();
    let mut cur: Vec<char> = Vec::new();
    let mut i: usize = 0;
    while i < v.len()
        invariant
            i <= v@.len(),
            v@ == s@,
            (done.deep_view(), cur@) == lines_fold(v@.take(i as int)),
        decreases v@.len() - i,
    {
        let c = v[i];
        assert(v@.take(i + 1).drop_last() =~= v@.take(i as int));
        if c == '\n' {
            let mut n = cur.len();
            if n > 0 && cur[n - 1] == '\r' {
                n = n - 1;
            }
            let line = string_of_range(&cur, 0, n);
            assert(line@ =~= strip_cr(cur@));
            done.push(line);
            cur = Vec::new();
        } else {
            cur.push(c);
        }
        i += 1;
        assert(done.deep_view() =~= lines_fold(v@.take(i as int)).0);
    }
    assert(v@.take(i as int) =~= v@);
    if cur.len() > 0 {
        let last = string_of(&cur);
        done.push(last);
        assert(done.deep_view() =~= str_lines(s@));
    }
    done
}

pub open spec fn digit_char(d: nat) -> char {
    ((48 + d) as u32) as char
}

/// Decimal notation of a natural number, as `Display` writes it.
pub open spec fn decimal(n: nat) -> Seq<char>
    decreases n,
{
    if n < 10 {
        seq![digit_char(n)]
    } else {
        decimal(n / 10).push(digit_char(n % 10))
    }
}

pub fn decimal_string(n: usize) -> (r: String)
    ensures
        r@ == decimal(n as nat),
    decreases n,
{
    let d = (n % 10) as u8;
    let c = (48u8 + d) as char;
    if n < 10 {
        let mut r = String::new();
        push_char(&mut r, c);
        assert(r@ =~= seq![digit_char(n as nat)]);
        r
    } else {
        let mut r = decimal_string(n / 10);
        push_char(&mut r, c);
        r
    }
}

/// Owned copy of a string slice.
pub fn owned(s: &str) -> (r: String)
    ensures
        r@ == s@,
{
    s.to_owned()
}

pub fn append_str(s: &mut String, t: &str)
    ensures
        final(s)@ == old(s)@ + t@,
{
    s.append(t);
}

pub open spec fn all_digits(s: Seq<char>) -> bool {
    forall|i: int| 0 <= i < s.len() ==> is_ascii_digit(#[trigger] s[i])
}

pub open spec fn is_sign(c: char) -> bool {
    c == '+' || c == '-'
}

pub open spec fn drop_sign(s: Seq<char>) -> Seq<char> {
    if s.len() > 0 && is_sign(s[0]) {
        s.drop_first()
    } else {
        s
    }
}

/// First index at or after `i` where `c` occurs.
pub open spec fn index_of_from(s: Seq<char>, c: char, i: int) -> Option<int>
    decreases s.len() - i,
{
    if i < 0 || i >= s.len() {
        None
    } else if s[i] == c {
        Some(i)
    } else {
        index_of_from(s, c, i + 1)
    }
}

pub open spec fn index_of(s: Seq<char>, c: char) -> Option<int> {
    index_of_from(s, c, 0)
}

pub proof fn lemma_index_of_from_bounds(s: Seq<char>, c: char, i: int)
    ensures
        index_of_from(s, c, i) matches Some(k) ==> (i <= k < s.len() && s[k] == c && 0 <= i
            && forall|j: int| i <= j < k ==> s[j] != c),
        index_of_from(s, c, i) is None ==> forall|j: int| 0 <= i <= j < s.len() ==> s[j] != c,
    decreases s.len() - i,
{
    if i < 0 || i >= s.len() {
    } else if s[i] == c {
    } else {
        lemma_index_of_from_bounds(s, c, i + 1);
    }
}

/// Position of the first `c` in `v`.
pub fn find_char(v: &Vec<char>, c: char) -> (r: Option<usize>)
    ensures
        match r {
            Some(k) => index_of(v@, c) == Some(k as int),
            None => index_of(v@, c) is None,
        },
{
    let mut i: usize = 0;
    while i < v.len()
        invariant
            i <= v@.len(),
            index_of(v@, c) == index_of_from(v@, c, i as int),
        decreases v@.len() - i,
    {
        if v[i] == c {
            return Some(i);
        }
        i += 1;
    }
    None
}

fn digits_between(v: &Vec<char>, from: usize, to: usize) -> (b: bool)
    requires
        from <= to <= v@.len(),
    ensures
        b == all_digits(v@.subrange(from as int, to as int)),
{
    let mut i = from;
    while i < to
        invariant
            from <= i <= to <= v@.len(),
            forall|j: int| from <= j < i ==> is_ascii_digit(v@[j]),
        decreases to - i,
    {
        if !('0' <= v[i] && v[i] <= '9') {
            assert(!is_ascii_digit(v@.subrange(from as int, to as int)[i - from]));
            return false;
        }
        i += 1;
    }
    assert forall|j: int| 0 <= j < to - from implies is_ascii_digit(
        #[trigger] v@.subrange(from as int, to as int)[j],
    ) by {
        assert(v@.subrange(from as int, to as int)[j] == v@[from + j]);
    }
    true
}

pub open spec fn exponent_ok(x: Seq<char>) -> bool {
    let y = drop_sign(x);
    y.len() > 0 && all_digits(y)
}

pub open spec fn mantissa_ok(m: Seq<char>) -> bool {
    match index_of(m, '.') {
        Some(k) => all_digits(m.take(k)) && all_digits(m.skip(k + 1)) && (k > 0 || m.len() > k
            + 1),
        None => m.len() > 0 && all_digits(m),
    }
}

pub open spec fn number_ok(u: Seq<char>) -> bool {
    match index_of(u, 'e') {
        Some(k) => mantissa_ok(u.take(k)) && exponent_ok(u.skip(k + 1)),
        None => mantissa_ok(u),
    }
}

/// The grammar that `str::parse::<f64>` documents as accepted, applied to
/// the lower-cased text: an optional sign, then `inf`, `infinity`, `nan`, or
/// a decimal number with an optional exponent.
pub open spec fn float_syntax(s: Seq<char>) -> bool {
    let u = drop_sign(lower_seq(s));
    u == "inf"@ || u == "infinity"@ || u == "nan"@ || number_ok(u)
}

fn vec_range(v: &Vec<char>, from: usize, to: usize) -> (r: Vec<char>)
    requires
        from <= to <= v@.len(),
    ensures
        r@ == v@.subrange(from as int, to as int),
{
    let mut r: Vec<char> = Vec::new();
    let mut i = from;
    while i < to
        invariant
            from <= i <= to <= v@.len(),
            r@ == v@.subrange(from as int, i as int),
        decreases to - i,
    {
        r.push(v[i]);
        i += 1;
        assert(r@ =~= v@.subrange(from as int, i as int));
    }
    r
}

fn mantissa_check(m: &Vec<char>) -> (b: bool)
    ensures
        b == mantissa_ok(m@),
{
    match find_char(m, '.') {
        Some(k) => {
            proof {
                lemma_index_of_from_bounds(m@, '.', 0);
            }
            assert(k < m.len());
            let a = digits_between(m, 0, k);
            let b = digits_between(m, k + 1, m.len());
            assert(m@.subrange(0, k as int) =~= m@.take(k as int));
            assert(m@.subrange(k + 1, m@.len() as int) =~= m@.skip(k + 1));
            a && b && (k > 0 || m.len() > k + 1)
        },
        None => {
            let a = digits_between(m, 0, m.len());
            assert(m@.subrange(0, m@.len() as int) =~= m@);
            m.len() > 0 && a
        },
    }
}

fn vec_eq_str(v: &Vec<char>, lit: &str) -> (b: bool)
    ensures
        b == (v@ == lit@),
{
    let w = chars_of(lit);
    if v.len() != w.len() {
        return false;
    }
    let mut i: usize = 0;
    while i < v.len()
        invariant
            i <= v@.len(),
            v@.len() == w@.len(),
            w@ == lit@,
            forall|j: int| 0 <= j < i ==> v@[j] == w@[j],
        decreases v@.len() - i,
    {
        if v[i] != w[i] {
            return false;
        }
        i += 1;
    }
    assert(v@ =~= w@);
    true
}

/// Whether `s` is text that `str::parse::<f64>` accepts.
pub fn parses_as_float(s: &str) -> (b: bool)
    ensures
        b == float_syntax(s@),
{
    let l = lower_string(s);
    let lv = chars_of(l.as_str());
    let u = if lv.len() > 0 && (lv[0] == '+' || lv[0] == '-') {
        vec_range(&lv, 1, lv.len())
    } else {
        vec_range(&lv, 0, lv.len())
    };
    assert(lv@.subrange(1, lv@.len() as int) =~= lv@.drop_first());
    assert(lv@.subrange(0, lv@.len() as int) =~= lv@);
    if vec_eq_str(&u, "inf") || vec_eq_str(&u, "infinity") || vec_eq_str(&u, "nan") {
        return true;
    }
    match find_char(&u, 'e') {
        Some(k) => {
            proof {
                lemma_index_of_from_bounds(u@, 'e', 0);
            }
            let m = vec_range(&u, 0, k);
            let x = vec_range(&u, k + 1, u.len());
            assert(m@ =~= u@.take(k as int));
            assert(x@ =~= u@.skip(k + 1));
            let mok = mantissa_check(&m);
            let y = if x.len() > 0 && (x[0] == '+' || x[0] == '-') {
                vec_range(&x, 1, x.len())
            } else {
                vec_range(&x, 0, x.len())
            };
            assert(x@.subrange(1, x@.len() as int) =~= x@.drop_first());
            assert(x@.subrange(0, x@.len() as int) =~= x@);
            let yd = digits_between(&y, 0, y.len());
            assert(y@.subrange(0, y@.len() as int) =~= y@);
            mok && y.len() > 0 && yd
        },
        None => mantissa_check(&u),
    }
}

pub open spec fn digit_value(c: char) -> nat {
    ((c as u32) - 48) as nat
}

pub open spec fn digits_value(s: Seq<char>) -> nat
    decreases s.len(),
{
    if s.len() == 0 {
        0
    } else {
        digits_value(s.drop_last()) * 10 + digit_value(s.last())
    }
}

/// What `str::parse::<u8>` gives: an optional `+`, then decimal digits whose
/// value fits in a byte.
pub open spec fn parse_u8_spec(s: Seq<char>) -> Option<u8> {
    let d = if s.len() > 0 && s[0] == '+' {
        s.drop_first()
    } else {
        s
    };
    if d.len() == 0 || !all_digits(d) || digits_value(d) > 255 {
        None
    } else {
        Some(digits_value(d) as u8)
    }
}

pub fn parse_u8(s: &str) -> (r: Option<u8>)
    ensures
        r == parse_u8_spec(s@),
{
    let v = chars_of(s);
    let d = if v.len() > 0 && v[0] == '+' {
        vec_range(&v, 1, v.len())
    } else {
        vec_range(&v, 0, v.len())
    };
    assert(v@.subrange(1, v@.len() as int) =~= v@.drop_first());
    assert(v@.subrange(0, v@.len() as int) =~= v@);
    if d.len() == 0 {
        return None;
    }
    let mut value: u32 = 0;
    let mut big = false;
    let mut i: usize = 0;
    while i < d.len()
        invariant
            i <= d@.len(),
            d@.len() > 0,
            d@ == (if s@.len() > 0 && s@[0] == '+' {
                s@.drop_first()
            } else {
                s@
            }),
            forall|j: int| 0 <= j < i ==> is_ascii_digit(d@[j]),
            big ==> digits_value(d@.take(i as int)) > 255,
            !big ==> value == digits_value(d@.take(i as int)) && value <= 255,
        decreases d@.len() - i,
    {
        let c = d[i];
        if !('0' <= c && c <= '9') {
            assert(!all_digits(d@));
            return None;
        }
        assert(d@.take(i + 1).drop_last() =~= d@.take(i as int));
        let dv = (c as u32) - 48;
        if !big {
            value = value * 10 + dv;
            if value > 255 {
                big = true;
            }
        }
        i += 1;
    }
    assert(d@.take(i as int) =~= d@);
    if big {
        None
    } else {
        Some(value as u8)
    }
}

/// `s` with each doubled quote `""` read as one quote, scanning left to right
/// (what `str::replace("\"\"", "\"")` computes).
pub open spec fn unescape_quotes(s: Seq<char>) -> Seq<char>
    decreases s.len(),
{
    if s.len() == 0 {
        s
    } else if s.len() >= 2 && s[0] == '"' && s[1] == '"' {
        seq!['"'] + unescape_quotes(s.skip(2))
    } else {
        seq![s[0]] + unescape_quotes(s.drop_first())
    }
}

/// `s` with every quote doubled (what `str::replace('"', "\"\"")` computes).
pub open spec fn escape_quotes(s: Seq<char>) -> Seq<char>
    decreases s.len(),
{
    if s.len() == 0 {
        s
    } else if s.last() == '"' {
        escape_quotes(s.drop_last()) + seq!['"', '"']
    } else {
        escape_quotes(s.drop_last()).push(s.last())
    }
}

pub fn unescape_quote_pairs(value: &str) -> (r: String)
    ensures
        r@ == unescape_quotes(value@),
{
    let v = chars_of(value);
    let mut r = String::new();
    let mut i: usize = 0;
    assert(v@.skip(0) =~= v@);
    assert(r@ + unescape_quotes(v@) =~= unescape_quotes(v@));
    while i < v.len()
        invariant
            i <= v@.len(),
            v@ == value@,
            r@ + unescape_quotes(v@.skip(i as int)) == unescape_quotes(v@),
        decreases v@.len() - i,
    {
        let ghost before = r@;
        if i + 1 < v.len() && v[i] == '"' && v[i + 1] == '"' {
            push_char(&mut r, '"');
            assert(v@.skip(i as int).skip(2) =~= v@.skip(i + 2));
            assert(r@ + unescape_quotes(v@.skip(i + 2)) =~= before + unescape_quotes(v@.skip(i as int)));
            i += 2;
        } else {
            push_char(&mut r, v[i]);
            assert(v@.skip(i as int).drop_first() =~= v@.skip(i + 1));
            assert(r@ + unescape_quotes(v@.skip(i + 1)) =~= before + unescape_quotes(v@.skip(i as int)));
            i += 1;
        }
    }
    assert(v@.skip(i as int) =~= Seq::<char>::empty());
    assert(r@ + Seq::<char>::empty() =~= r@);
    r
}

pub fn escape_quote_chars(value: &str) -> (r: String)
    ensures
        r@ == escape_quotes(value@),
{
    let v = chars_of(value);
    let mut r = String::new();
    let mut i: usize = 0;
    while i < v.len()
        invariant
            i <= v@.len(),
            v@ == value@,
            r@ == escape_quotes(v@.take(i as int)),
        decreases v@.len() - i,
    {
        assert(v@.take(i + 1).drop_last() =~= v@.take(i as int));
        if v[i] == '"' {
            push_char(&mut r, '"');
            push_char(&mut r, '"');
            assert(r@ =~= escape_quotes(v@.take(i as int)) + seq!['"', '"']);
        } else {
            push_char(&mut r, v[i]);
        }
        i += 1;
    }
    assert(v@.take(i as int) =~= v@);
    r
}

/// Equality of two texts, character by character.
pub fn same_text(a: &str, b: &str) -> (r: bool)
    ensures
        r == (a@ == b@),
{
    let v = chars_of(a);
    vec_eq_str(&v, b)
}

/// `s` without its leading quote characters.
pub open spec fn trim_leading_quotes(s: Seq<char>) -> Seq<char>
    decreases s.len(),
{
    if s.len() > 0 && s[0] == '"' {
        trim_leading_quotes(s.drop_first())
    } else {
        s
    }
}

pub fn trim_start_quotes(s: &str) -> (r: String)
    ensures
        r@ == trim_leading_quotes(s@),
{
    let v = chars_of(s);
    let mut i: usize = 0;
    assert(v@.skip(0) =~= v@);
    while i < v.len() && v[i] == '"'
        invariant
            i <= v@.len(),
            v@ == s@,
            trim_leading_quotes(v@) == trim_leading_quotes(v@.skip(i as int)),
        decreases v@.len() - i,
    {
        assert(v@.skip(i as int).drop_first() =~= v@.skip(i + 1));
        i += 1;
    }
    assert(v@.skip(i as int) =~= v@.subrange(i as int, v@.len() as int));
    string_of_range(&v, i, v.len())
}

} // verus!
