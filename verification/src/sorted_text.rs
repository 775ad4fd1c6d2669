//! Sets of texts kept as strictly increasing sequences, in the order of
//! `String`'s `Ord`: character by character, which for UTF-8 is the order
//! of the bytes.
use vstd::prelude::*;
use crate::text::chars_of;

verus! {

/// `a` comes strictly before `b`.
pub open spec fn text_lt(a: Seq<char>, b: Seq<char>) -> bool
    decreases a.len(),
{
    if a.len() == 0 {
        b.len() > 0
    } else if b.len() == 0 {
        false
    } else if a[0] != b[0] {
        a[0] < b[0]
    } else {
        text_lt(a.drop_first(), b.drop_first())
    }
}

pub proof fn lemma_text_lt_irreflexive(a: Seq<char>)
    ensures
        !text_lt(a, a),
    decreases a.len(),
{
    if a.len() > 0 {
        lemma_text_lt_irreflexive(a.drop_first());
    }
}

pub proof fn lemma_text_lt_transitive(a: Seq<char>, b: Seq<char>, c: Seq<char>)
    requires
        text_lt(a, b),
        text_lt(b, c),
    ensures
        text_lt(a, c),
    decreases a.len(),
{
    if a.len() > 0 && b.len() > 0 && c.len() > 0 && a[0] == b[0] && b[0] == c[0] {
        lemma_text_lt_transitive(a.drop_first(), b.drop_first(), c.drop_first());
    }
}

pub proof fn lemma_text_lt_total(a: Seq<char>, b: Seq<char>)
    ensures
        a == b || text_lt(a, b) || text_lt(b, a),
    decreases a.len(),
{
    if a.len() > 0 && b.len() > 0 {
        if a[0] == b[0] {
            lemma_text_lt_total(a.drop_first(), b.drop_first());
            if a.drop_first() == b.drop_first() {
                assert(a =~= seq![a[0]] + a.drop_first());
                assert(b =~= seq![b[0]] + b.drop_first());
            }
        }
    } else if a.len() == 0 && b.len() == 0 {
        assert(a =~= b);
    }
}

pub proof fn lemma_text_lt_asymmetric(a: Seq<char>, b: Seq<char>)
    requires
        text_lt(a, b),
    ensures
        !text_lt(b, a),
{
    if text_lt(b, a) {
        lemma_text_lt_transitive(a, b, a);
        lemma_text_lt_irreflexive(a);
    }
}

/// Every text comes strictly before the ones after it.
pub open spec fn strictly_sorted(s: Seq<Seq<char>>) -> bool {
    forall|i: int, j: int| 0 <= i < j < s.len() ==> text_lt(#[trigger] s[i], #[trigger] s[j])
}

/// Two strictly increasing sequences with the same elements are equal.
pub proof fn lemma_sorted_unique(s: Seq<Seq<char>>, t: Seq<Seq<char>>)
    requires
        strictly_sorted(s),
        strictly_sorted(t),
        s.to_set() == t.to_set(),
    ensures
        s == t,
    decreases s.len() + t.len(),
{
    if s.len() == 0 {
        if t.len() > 0 {
            assert(t.to_set().contains(t[0]));
        }
        assert(t =~= s);
    } else if t.len() == 0 {
        assert(s.to_set().contains(s[0]));
    } else {
        // The least elements agree.
        assert(s.to_set().contains(s[0]));
        assert(t.to_set().contains(t[0]));
        let i = choose|i: int| 0 <= i < t.len() && t[i] == s[0];
        let j = choose|j: int| 0 <= j < s.len() && s[j] == t[0];
        if i > 0 {
            assert(text_lt(t[0], t[i]));
            if j > 0 {
                assert(text_lt(s[0], s[j]));
                lemma_text_lt_asymmetric(t[0], s[0]);
            } else {
                lemma_text_lt_irreflexive(t[0]);
            }
        }
        assert(s[0] == t[0]);
        let s1 = s.drop_first();
        let t1 = t.drop_first();
        assert forall|x: Seq<char>| s1.to_set().contains(x) implies t1.to_set().contains(x) by {
            let k = choose|k: int| 0 <= k < s1.len() && s1[k] == x;
            assert(s.to_set().contains(x)) by {
                assert(s[k + 1] == x);
            }
            assert(t.to_set().contains(x));
            let m = choose|m: int| 0 <= m < t.len() && t[m] == x;
            assert(text_lt(s[0], s[k + 1]));
            if m == 0 {
                lemma_text_lt_irreflexive(x);
            }
            assert(t1[m - 1] == x);
        }
        assert forall|x: Seq<char>| t1.to_set().contains(x) implies s1.to_set().contains(x) by {
            let k = choose|k: int| 0 <= k < t1.len() && t1[k] == x;
            assert(t.to_set().contains(x)) by {
                assert(t[k + 1] == x);
            }
            assert(s.to_set().contains(x));
            let m = choose|m: int| 0 <= m < s.len() && s[m] == x;
            assert(text_lt(t[0], t[k + 1]));
            if m == 0 {
                lemma_text_lt_irreflexive(x);
            }
            assert(s1[m - 1] == x);
        }
        assert(s1.to_set() =~= t1.to_set());
        assert(strictly_sorted(s1)) by {
            assert forall|a: int, b: int| 0 <= a < b < s1.len() implies text_lt(#[trigger] s1[a], #[trigger] s1[b]) by {
                assert(s1[a] == s[a + 1] && s1[b] == s[b + 1]);
            }
        }
        assert(strictly_sorted(t1)) by {
            assert forall|a: int, b: int| 0 <= a < b < t1.len() implies text_lt(#[trigger] t1[a], #[trigger] t1[b]) by {
                assert(t1[a] == t[a + 1] && t1[b] == t[b + 1]);
            }
        }
        lemma_sorted_unique(s1, t1);
        assert(s =~= seq![s[0]] + s1);
        assert(t =~= seq![t[0]] + t1);
    }
}

/// Whether `a` comes strictly before `b`.
pub fn text_less(a: &str, b: &str) -> (r: bool)
    ensures
        r == text_lt(a@, b@),
{
    let x = chars_of(a);
    let y = chars_of(b);
    let mut i: usize = 0;
    assert(x@.skip(0) =~= x@);
    assert(y@.skip(0) =~= y@);
    while i < x.len() && i < y.len() && x[i] == y[i]
        invariant
            x@ == a@,
            y@ == b@,
            i <= x@.len(),
            i <= y@.len(),
            text_lt(a@, b@) == text_lt(x@.skip(i as int), y@.skip(i as int)),
        decreases x@.len() - i,
    {
        assert(x@.skip(i as int).drop_first() =~= x@.skip(i + 1));
        assert(y@.skip(i as int).drop_first() =~= y@.skip(i + 1));
        i += 1;
    }
    if i == x.len() {
        i < y.len()
    } else if i == y.len() {
        false
    } else {
        x[i] < y[i]
    }
}

/// Adds `x` to the strictly increasing texts `v`, keeping them strictly increasing.
pub fn insert_sorted(v: &mut Vec<String>, x: String)
    requires
        strictly_sorted(old(v).deep_view()),
    ensures
        strictly_sorted(final(v).deep_view()),
        final(v).deep_view().to_set() == old(v).deep_view().to_set().insert(x@),
{
    let ghost old_v = v.deep_view();
    let mut i: usize = 0;
    while i < v.len() && text_less(v[i].as_str(), x.as_str())
        invariant
            old_v == v.deep_view(),
            i <= old_v.len(),
            forall|k: int| 0 <= k < i ==> text_lt(#[trigger] old_v[k], x@),
        decreases old_v.len() - i,
    {
        assert(v@[i as int]@ == old_v[i as int]);
        i += 1;
    }
    if i < v.len() {
        assert(v@[i as int]@ == old_v[i as int]);
        if crate::text::same_text(v[i].as_str(), x.as_str()) {
            assert(old_v.to_set().contains(x@)) by {
                assert(old_v[i as int] == x@);
            }
            assert(old_v.to_set().insert(x@) =~= old_v.to_set());
            return;
        }
        proof {
            lemma_text_lt_total(old_v[i as int], x@);
        }
        assert(text_lt(x@, old_v[i as int]));
    }
    let ghost xv = x@;
    v.insert(i, x);
    let ghost nv = v.deep_view();
    assert(nv =~= old_v.take(i as int).push(xv) + old_v.skip(i as int));
    assert forall|a: int, b: int| 0 <= a < b < nv.len() implies text_lt(#[trigger] nv[a], #[trigger] nv[b]) by {
        if b < i {
            assert(nv[a] == old_v[a] && nv[b] == old_v[b]);
        } else if b == i {
            assert(nv[a] == old_v[a]);
        } else if a < i {
            assert(nv[a] == old_v[a] && nv[b] == old_v[b - 1]);
            assert(text_lt(old_v[a], xv));
            assert(text_lt(xv, old_v[i as int]));
            if b - 1 > i {
                assert(text_lt(old_v[i as int], old_v[b - 1]));
                lemma_text_lt_transitive(xv, old_v[i as int], old_v[b - 1]);
            }
            lemma_text_lt_transitive(old_v[a], xv, old_v[b - 1]);
        } else if a == i {
            assert(nv[b] == old_v[b - 1]);
            if b - 1 > i {
                assert(text_lt(old_v[i as int], old_v[b - 1]));
                lemma_text_lt_transitive(xv, old_v[i as int], old_v[b - 1]);
            }
        } else {
            assert(nv[a] == old_v[a - 1] && nv[b] == old_v[b - 1]);
        }
    }
    assert forall|y: Seq<char>| nv.to_set().contains(y) <==> old_v.to_set().insert(xv).contains(y) by {
        if nv.to_set().contains(y) {
            let k = choose|k: int| 0 <= k < nv.len() && nv[k] == y;
            if k < i {
                assert(old_v[k] == y);
            } else if k > i {
                assert(old_v[k - 1] == y);
            }
        }
        if old_v.to_set().contains(y) {
            let k = choose|k: int| 0 <= k < old_v.len() && old_v[k] == y;
            if k < i {
                assert(nv[k] == y);
            } else {
                assert(nv[k + 1] == y);
            }
        }
        if y == xv {
            assert(nv[i as int] == y);
        }
    }
    assert(nv.to_set() =~= old_v.to_set().insert(xv));
}

} // verus!
