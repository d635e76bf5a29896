//! Lexicographic order on strings (the order `Ord` gives `String`: UTF-8
//! byte order, which is the order of code points) and sorting by it.
use vstd::prelude::*;
use crate::text::str_eq;

verus! {

broadcast use vstd::seq_lib::group_to_multiset_ensures;

/// `a` comes strictly before `b` in lexicographic order of code points.
pub open spec fn seq_lt(a: Seq<char>, b: Seq<char>) -> bool
    decreases a.len(),
{
    if a.len() == 0 {
        b.len() > 0
    } else if b.len() == 0 {
        false
    } else if a[0] != b[0] {
        a[0] < b[0]
    } else {
        seq_lt(a.drop_first(), b.drop_first())
    }
}

/// Every element is strictly before every later element.
pub open spec fn strictly_sorted(s: Seq<Seq<char>>) -> bool {
    forall|i: int, j: int| 0 <= i < j < s.len() ==> seq_lt(#[trigger] s[i], #[trigger] s[j])
}

/// No element is strictly before an earlier element.
pub open spec fn sorted(s: Seq<Seq<char>>) -> bool {
    forall|i: int, j: int| 0 <= i < j < s.len() ==> !seq_lt(#[trigger] s[j], #[trigger] s[i])
}

pub proof fn lemma_insert_contains<A>(s: Seq<A>, p: int, x: A, y: A)
    requires
        0 <= p <= s.len(),
    ensures
        s.insert(p, x).contains(y) <==> (s.contains(y) || y == x),
{
    let t = s.insert(p, x);
    if y == x {
        assert(t[p] == y);
    }
    if s.contains(y) {
        let k = choose|k: int| 0 <= k < s.len() && s[k] == y;
        if k < p {
            assert(t[k] == y);
        } else {
            assert(t[k + 1] == y);
        }
    }
    if t.contains(y) && y != x {
        let k = choose|k: int| 0 <= k < t.len() && t[k] == y;
        if k < p {
            assert(s[k] == y);
        } else {
            assert(s[k - 1] == y);
        }
    }
}

pub proof fn lemma_push_contains<A>(s: Seq<A>, x: A, y: A)
    ensures
        s.push(x).contains(y) <==> (s.contains(y) || y == x),
{
    assert(s.push(x) =~= s.insert(s.len() as int, x));
    lemma_insert_contains(s, s.len() as int, x, y);
}

pub proof fn lemma_lt_irreflexive(a: Seq<char>)
    ensures
        !seq_lt(a, a),
    decreases a.len(),
{
    if a.len() > 0 {
        lemma_lt_irreflexive(a.drop_first());
    }
}

pub proof fn lemma_lt_asymmetric(a: Seq<char>, b: Seq<char>)
    ensures
        !(seq_lt(a, b) && seq_lt(b, a)),
    decreases a.len(),
{
    if a.len() > 0 && b.len() > 0 && a[0] == b[0] {
        lemma_lt_asymmetric(a.drop_first(), b.drop_first());
    }
}

pub proof fn lemma_lt_transitive(a: Seq<char>, b: Seq<char>, c: Seq<char>)
    requires
        seq_lt(a, b),
        seq_lt(b, c),
    ensures
        seq_lt(a, c),
    decreases a.len(),
{
    if a.len() > 0 && b.len() > 0 && c.len() > 0 && a[0] == b[0] && b[0] == c[0] {
        lemma_lt_transitive(a.drop_first(), b.drop_first(), c.drop_first());
    }
}

pub proof fn lemma_lt_total(a: Seq<char>, b: Seq<char>)
    requires
        a != b,
    ensures
        seq_lt(a, b) || seq_lt(b, a),
    decreases a.len(),
{
    if a.len() > 0 && b.len() > 0 && a[0] == b[0] {
        if a.drop_first() == b.drop_first() {
            assert(a =~= seq![a[0]] + a.drop_first());
            assert(b =~= seq![b[0]] + b.drop_first());
        }
        lemma_lt_total(a.drop_first(), b.drop_first());
    } else if a.len() == 0 && b.len() == 0 {
        assert(a =~= b);
    }
}

/// Is `a` strictly before `b`?
pub fn str_lt(a: &str, b: &str) -> (r: bool)
    ensures
        r == seq_lt(a@, b@),
{
    let n = a.unicode_len();
    let m = b.unicode_len();
    let mut i: usize = 0;
    assert(a@.skip(0) =~= a@);
    assert(b@.skip(0) =~= b@);
    while i < n && i < m && a.get_char(i) == b.get_char(i)
        invariant
            n == a@.len(),
            m == b@.len(),
            i <= n,
            i <= m,
            seq_lt(a@, b@) == seq_lt(a@.skip(i as int), b@.skip(i as int)),
        decreases n - i,
    {
        assert(a@.skip(i as int).drop_first() =~= a@.skip(i + 1));
        assert(b@.skip(i as int).drop_first() =~= b@.skip(i + 1));
        i += 1;
    }
    if i == n {
        i < m
    } else if i == m {
        false
    } else {
        a.get_char(i) < b.get_char(i)
    }
}

/// The strings of `v` in increasing order with repetitions removed
/// (what `sort` followed by `dedup` leaves).
pub fn sort_dedup(v: &Vec<String>) -> (r: Vec<String>)
    ensures
        strictly_sorted(r.deep_view()),
        forall|s: Seq<char>| r.deep_view().contains(s) <==> v.deep_view().contains(s),
{
    let mut out: Vec<String> = Vec::new();
    let mut i: usize = 0;
    while i < v.len()
        invariant
            i <= v.len(),
            strictly_sorted(out.deep_view()),
            forall|s: Seq<char>|
                out.deep_view().contains(s) <==> v.deep_view().take(i as int).contains(s),
        decreases v.len() - i,
    {
        let x = &v[i];
        let ghost xv = x@;
        let ghost dv = out.deep_view();
        assert(v.deep_view().take(i + 1) =~= v.deep_view().take(i as int).push(xv));
        assert(forall|j: int| 0 <= j < out.len() ==> #[trigger] dv[j] == out@[j]@);
        let mut p: usize = 0;
        while p < out.len() && str_lt(out[p].as_str(), x.as_str())
            invariant
                p <= out.len(),
                dv == out.deep_view(),
                dv.len() == out.len(),
                forall|j: int| 0 <= j < out.len() ==> #[trigger] dv[j] == out@[j]@,
                forall|j: int| 0 <= j < p ==> seq_lt(#[trigger] dv[j], xv),
                xv == x@,
            decreases out.len() - p,
        {
            assert(dv[p as int] == out@[p as int]@);
            p += 1;
        }
        if p < out.len() && str_eq(out[p].as_str(), x.as_str()) {
            assert(dv[p as int] == xv);
            assert forall|s: Seq<char>| out.deep_view().contains(s) <==> v.deep_view().take(
                i + 1,
            ).contains(s) by {
                lemma_push_contains(v.deep_view().take(i as int), xv, s);
                if s == xv {
                    assert(out.deep_view()[p as int] == s);
                }
            }
        } else {
            proof {
                if p < out.len() {
                    lemma_lt_total(dv[p as int], xv);
                }
            }
            out.insert(p, x.clone());
            let ghost nv = out.deep_view();
            assert(nv =~= dv.insert(p as int, xv));
            assert forall|a: int, b: int| 0 <= a < b < nv.len() implies seq_lt(
                #[trigger] nv[a],
                #[trigger] nv[b],
            ) by {
                if b < p {
                } else if a < p && b == p {
                } else if a < p {
                    lemma_lt_transitive(nv[a], xv, dv[p as int]);
                    if b - 1 > p {
                        lemma_lt_transitive(nv[a], dv[p as int], nv[b]);
                    }
                } else if a == p {
                    if b - 1 > p {
                        lemma_lt_transitive(xv, dv[p as int], nv[b]);
                    }
                } else {
                }
            }
            assert forall|s: Seq<char>| nv.contains(s) <==> v.deep_view().take(
                i + 1,
            ).contains(s) by {
                lemma_insert_contains(dv, p as int, xv, s);
                lemma_push_contains(v.deep_view().take(i as int), xv, s);
            }
        }
        i += 1;
    }
    assert(v.deep_view().take(v.len() as int) =~= v.deep_view());
    out
}

/// The strings of `v` in increasing order, repetitions kept (what `sort`
/// leaves).
pub fn sort_strings(v: &Vec<String>) -> (r: Vec<String>)
    ensures
        sorted(r.deep_view()),
        r.deep_view().to_multiset() == v.deep_view().to_multiset(),
{
    let mut out: Vec<String> = Vec::new();
    let mut i: usize = 0;
    while i < v.len()
        invariant
            i <= v.len(),
            sorted(out.deep_view()),
            out.deep_view().to_multiset() == v.deep_view().take(i as int).to_multiset(),
        decreases v.len() - i,
    {
        let x = &v[i];
        let ghost xv = x@;
        let ghost dv = out.deep_view();
        assert(v.deep_view().take(i + 1) =~= v.deep_view().take(i as int).push(xv));
        assert(forall|j: int| 0 <= j < out.len() ==> #[trigger] dv[j] == out@[j]@);
        let mut p: usize = 0;
        while p < out.len() && str_lt(out[p].as_str(), x.as_str())
            invariant
                p <= out.len(),
                dv == out.deep_view(),
                dv.len() == out.len(),
                forall|j: int| 0 <= j < out.len() ==> #[trigger] dv[j] == out@[j]@,
                forall|j: int| 0 <= j < p ==> seq_lt(#[trigger] dv[j], xv),
                xv == x@,
            decreases out.len() - p,
        {
            assert(dv[p as int] == out@[p as int]@);
            p += 1;
        }
        out.insert(p, x.clone());
        let ghost nv = out.deep_view();
        assert(nv =~= dv.insert(p as int, xv));
        assert forall|a: int, b: int| 0 <= a < b < nv.len() implies !seq_lt(
            #[trigger] nv[b],
            #[trigger] nv[a],
        ) by {
            if b < p {
            } else if a < p && b == p {
                lemma_lt_asymmetric(nv[a], xv);
            } else if a < p {
                // nv[a] < x <= dv[p] <= nv[b]
                lemma_lt_asymmetric(nv[a], xv);
                if seq_lt(nv[b], nv[a]) {
                    lemma_lt_transitive(nv[b], nv[a], xv);
                    if b - 1 > p {
                        if seq_lt(nv[b], dv[p as int]) {
                        } else if nv[b] == dv[p as int] {
                        } else {
                            lemma_lt_total(nv[b], dv[p as int]);
                            lemma_lt_transitive(dv[p as int], nv[b], xv);
                        }
                    }
                }
            } else if a == p {
                if seq_lt(nv[b], xv) && b - 1 > p {
                    if dv[p as int] == nv[b] {
                    } else {
                        lemma_lt_total(nv[b], dv[p as int]);
                        lemma_lt_transitive(dv[p as int], nv[b], xv);
                    }
                }
            } else {
            }
        }
        i += 1;
    }
    assert(v.deep_view().take(v.len() as int) =~= v.deep_view());
    out
}

} // verus!
