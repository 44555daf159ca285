//! Lexicographic order of strings (by code point, which is the order of
//! their UTF-8 bytes) and sorting of distinct strings.
use vstd::prelude::*;
use crate::text::{chars_of, views};

verus! {

/// `a` comes strictly before `b`, comparing code points left to right, a
/// proper prefix first.
pub open spec fn seq_lt(a: Seq<char>, b: Seq<char>) -> bool
    decreases a.len(),
{
    if a.len() == 0 {
        b.len() > 0
    } else if b.len() == 0 {
        false
    } else if (a[0] as u32) < (b[0] as u32) {
        true
    } else if a[0] == b[0] {
        seq_lt(a.skip(1), b.skip(1))
    } else {
        false
    }
}

pub proof fn lemma_lt_irreflexive(a: Seq<char>)
    ensures
        !seq_lt(a, a),
    decreases a.len(),
{
    if a.len() > 0 {
        lemma_lt_irreflexive(a.skip(1));
    }
}

pub proof fn lemma_lt_transitive(a: Seq<char>, b: Seq<char>, c: Seq<char>)
    requires
        seq_lt(a, b),
        seq_lt(b, c),
    ensures
        seq_lt(a, c),
    decreases a.len(),
{
    if a.len() > 0 && b.len() > 0 && c.len() > 0 {
        if a[0] == b[0] && b[0] == c[0] {
            lemma_lt_transitive(a.skip(1), b.skip(1), c.skip(1));
        }
    }
}

proof fn lemma_char_u32_injective(c: char, d: char)
    ensures
        (c as u32 == d as u32) ==> c == d,
{
}

pub proof fn lemma_lt_total(a: Seq<char>, b: Seq<char>)
    requires
        a != b,
    ensures
        seq_lt(a, b) || seq_lt(b, a),
    decreases a.len(),
{
    if a.len() > 0 && b.len() > 0 {
        if a[0] == b[0] {
            if a.skip(1) == b.skip(1) {
                assert(a =~= seq![a[0]] + a.skip(1));
                assert(b =~= seq![b[0]] + b.skip(1));
            }
            lemma_lt_total(a.skip(1), b.skip(1));
        } else {
            lemma_char_u32_injective(a[0], b[0]);
        }
    } else if a.len() == 0 && b.len() == 0 {
        assert(a =~= b);
    }
}

/// Whether `a` comes strictly before `b`.
pub fn chars_lt(a: &[char], b: &[char]) -> (res: bool)
    ensures
        res == seq_lt(a@, b@),
{
    let n = a.len();
    let m = b.len();
    let mut i: usize = 0;
    assert(a@.skip(0) =~= a@);
    assert(b@.skip(0) =~= b@);
    while i < n && i < m && a[i] == b[i]
        invariant
            i <= n == a@.len(),
            i <= m == b@.len(),
            seq_lt(a@, b@) == seq_lt(a@.skip(i as int), b@.skip(i as int)),
        decreases n - i,
    {
        assert(a@.skip(i as int).skip(1) =~= a@.skip(i + 1));
        assert(b@.skip(i as int).skip(1) =~= b@.skip(i + 1));
        assert(a@.skip(i as int)[0] == a@[i as int]);
        assert(b@.skip(i as int)[0] == b@[i as int]);
        i = i + 1;
    }
    if i == n {
        i < m
    } else if i == m {
        false
    } else {
        assert(a@.skip(i as int)[0] == a@[i as int]);
        assert(b@.skip(i as int)[0] == b@[i as int]);
        (a[i] as u32) < (b[i] as u32)
    }
}

/// Strictly increasing.
pub open spec fn strictly_sorted(s: Seq<Seq<char>>) -> bool {
    forall|i: int, j: int| 0 <= i < j < s.len() ==> seq_lt(#[trigger] s[i], #[trigger] s[j])
}

/// Sorts distinct strings into increasing order.
pub fn sort_distinct(xs: &Vec<String>) -> (res: Vec<String>)
    requires
        views(xs@).no_duplicates(),
    ensures
        strictly_sorted(views(res@)),
        views(res@).to_set() == views(xs@).to_set(),
        res@.len() == xs@.len(),
{
    let n = xs.len();
    let mut out: Vec<String> = Vec::new();
    let mut i: usize = 0;
    assert(views(xs@).take(0).to_set() =~= Set::<Seq<char>>::empty());
    assert(views(out@).to_set() =~= Set::<Seq<char>>::empty());
    while i < n
        invariant
            i <= n == xs@.len(),
            views(xs@).no_duplicates(),
            strictly_sorted(views(out@)),
            views(out@).to_set() == views(xs@).take(i as int).to_set(),
            out@.len() == i,
        decreases n - i,
    {
        let x = xs[i].clone();
        let xc = chars_of(x.as_str());
        let ghost xv = x@;
        let ghost ov = views(out@);
        proof {
            assert(!ov.to_set().contains(xv)) by {
                if ov.to_set().contains(xv) {
                    assert(views(xs@).take(i as int).to_set().contains(xv));
                    let k = choose|k: int|
                        0 <= k < views(xs@).take(i as int).len() && views(xs@).take(i as int)[k]
                            == xv;
                    assert(views(xs@)[k] == views(xs@)[i as int]);
                }
            }
        }
        // first position whose string does not come before x
        let m = out.len();
        let mut p: usize = 0;
        while p < m && chars_lt(chars_of(out[p].as_str()).as_slice(), xc.as_slice())
            invariant
                p <= m == out@.len(),
                ov == views(out@),
                xc@ == xv,
                forall|q: int| 0 <= q < p ==> seq_lt(#[trigger] ov[q], xv),
            decreases m - p,
        {
            assert(ov[p as int] == out@[p as int]@);
            p = p + 1;
        }
        proof {
            if p < m {
                assert(ov[p as int] == out@[p as int]@);
                assert(!seq_lt(ov[p as int], xv));
                assert(ov[p as int] != xv) by {
                    assert(ov.to_set().contains(ov[p as int]));
                }
                lemma_lt_total(ov[p as int], xv);
                assert forall|q: int| p <= q < m implies seq_lt(xv, #[trigger] ov[q]) by {
                    if q > p {
                        lemma_lt_transitive(xv, ov[p as int], ov[q]);
                    }
                }
            }
        }
        out.insert(p, x);
        let ghost nv = views(out@);
        assert(nv =~= ov.take(p as int).push(xv) + ov.skip(p as int)) by {
            assert forall|k: int| 0 <= k < nv.len() implies nv[k] == (ov.take(p as int).push(xv)
                + ov.skip(p as int))[k] by {
                assert(nv[k] == out@[k]@);
            }
        }
        assert forall|a: int, b: int| 0 <= a < b < nv.len() implies seq_lt(
            #[trigger] nv[a],
            #[trigger] nv[b],
        ) by {
            if a < p && b == p {
                assert(nv[a] == ov[a]);
            } else if a < p && b > p {
                assert(nv[a] == ov[a]);
                assert(nv[b] == ov[b - 1]);
                assert(seq_lt(ov[a], ov[b - 1]));
            } else if a == p {
                assert(nv[b] == ov[b - 1]);
            } else if a > p {
                assert(nv[a] == ov[a - 1]);
                assert(nv[b] == ov[b - 1]);
            } else {
                assert(nv[a] == ov[a]);
                assert(nv[b] == ov[b]);
            }
        }
        assert(views(xs@).take(i + 1) =~= views(xs@).take(i as int).push(xv));
        assert(nv.to_set() =~= ov.to_set().insert(xv)) by {
            assert forall|y: Seq<char>| nv.to_set().contains(y) implies ov.to_set().insert(
                xv,
            ).contains(y) by {
                let k = choose|k: int| 0 <= k < nv.len() && nv[k] == y;
                if k < p {
                    assert(nv[k] == ov[k]);
                } else if k > p {
                    assert(nv[k] == ov[k - 1]);
                }
            }
            assert forall|y: Seq<char>| ov.to_set().insert(xv).contains(y) implies nv.to_set().contains(
                y,
            ) by {
                if y == xv {
                    assert(nv[p as int] == xv);
                } else {
                    let k = choose|k: int| 0 <= k < ov.len() && ov[k] == y;
                    if k < p {
                        assert(nv[k] == ov[k]);
                    } else {
                        assert(nv[k + 1] == ov[k]);
                    }
                }
            }
        }
        proof {
            views(xs@).take(i as int).lemma_push_to_set_commute(xv);
        }
        i = i + 1;
    }
    assert(views(xs@).take(n as int) =~= views(xs@));
    out
}

} // verus!
