//! Lexicographic order of texts by code point (the order of their UTF-8
//! bytes, which is how file names compare), and sorting lists of names.

use vstd::prelude::*;
use vstd::seq_lib::{to_multiset_build, to_multiset_insert};
use crate::executor::views;
use crate::text::chars_of;

verus! {

/// `a` comes before `b`, comparing from position `i` on.
pub open spec fn lex_lt_at(a: Seq<char>, b: Seq<char>, i: int) -> bool
    decreases a.len() - i,
{
    if i < 0 {
        false
    } else if i >= a.len() {
        i < b.len()
    } else if i >= b.len() {
        false
    } else if a[i] != b[i] {
        (a[i] as int) < (b[i] as int)
    } else {
        lex_lt_at(a, b, i + 1)
    }
}

/// `a` comes strictly before `b` in lexicographic code point order.
pub open spec fn lex_lt(a: Seq<char>, b: Seq<char>) -> bool {
    lex_lt_at(a, b, 0)
}

/// `a` comes before `b` or equals it.
pub open spec fn lex_le(a: Seq<char>, b: Seq<char>) -> bool {
    a == b || lex_lt(a, b)
}

/// The texts are in lexicographic order.
pub open spec fn is_sorted(s: Seq<Seq<char>>) -> bool {
    forall|i: int, j: int| 0 <= i < j < s.len() ==> lex_le(#[trigger] s[i], #[trigger] s[j])
}


proof fn lemma_lt_total(a: Seq<char>, b: Seq<char>, i: int)
    requires
        0 <= i <= a.len(),
        i <= b.len(),
        forall|k: int| 0 <= k < i ==> a[k] == b[k],
    ensures
        a == b || lex_lt_at(a, b, i) || lex_lt_at(b, a, i),
    decreases a.len() - i,
{
    if i == a.len() && i == b.len() {
        assert(a =~= b);
    } else if i < a.len() && i < b.len() && a[i] == b[i] {
        lemma_lt_total(a, b, i + 1);
    } else if i < a.len() && i < b.len() {
        assert((a[i] as int) != (b[i] as int));
    }
}

proof fn lemma_lt_trans(a: Seq<char>, b: Seq<char>, c: Seq<char>, i: int)
    requires
        0 <= i,
        lex_lt_at(a, b, i),
        lex_lt_at(b, c, i),
    ensures
        lex_lt_at(a, c, i),
    decreases a.len() - i,
{
    if i < a.len() && i < b.len() && i < c.len() && a[i] == b[i] && b[i] == c[i] {
        lemma_lt_trans(a, b, c, i + 1);
    }
}

/// `lex_le` is a total order: any two texts compare.
pub proof fn lemma_le_total(a: Seq<char>, b: Seq<char>)
    ensures
        lex_le(a, b) || lex_le(b, a),
        !lex_lt(a, b) ==> lex_le(b, a),
{
    lemma_lt_total(a, b, 0);
}

/// `lex_lt` followed by `lex_le` is `lex_lt`.
pub proof fn lemma_lt_le_trans(a: Seq<char>, b: Seq<char>, c: Seq<char>)
    requires
        lex_lt(a, b),
        lex_le(b, c),
    ensures
        lex_lt(a, c),
{
    if b != c {
        lemma_lt_trans(a, b, c, 0);
    }
}



/// Whether `a` comes strictly before `b`.
pub fn lex_less(a: &Vec<char>, b: &Vec<char>) -> (r: bool)
    ensures
        r == lex_lt(a@, b@),
{
    let mut i: usize = 0;
    while i < a.len() && i < b.len() && a[i] == b[i]
        invariant
            i <= a@.len(),
            i <= b@.len(),
            lex_lt(a@, b@) == lex_lt_at(a@, b@, i as int),
        decreases a@.len() - i,
    {
        i = i + 1;
    }
    if i >= a.len() {
        i < b.len()
    } else if i >= b.len() {
        false
    } else {
        a[i] < b[i]
    }
}

/// The same strings in lexicographic order.
pub fn sort_strings(v: &Vec<String>) -> (r: Vec<String>)
    ensures
        is_sorted(views(r@)),
        views(r@).to_multiset() == views(v@).to_multiset(),
{
    let mut out: Vec<String> = Vec::new();
    let mut k: usize = 0;
    assert(views(v@.take(0)) =~= Seq::<Seq<char>>::empty());
    assert(views(out@) =~= Seq::<Seq<char>>::empty());
    while k < v.len()
        invariant
            k <= v@.len(),
            is_sorted(views(out@)),
            views(out@).to_multiset() == views(v@.take(k as int)).to_multiset(),
        decreases v@.len() - k,
    {
        let x = v[k].clone();
        let xc = chars_of(x.as_str());
        let mut p: usize = 0;
        while p < out.len() && !lex_less(&xc, &chars_of(out[p].as_str()))
            invariant
                p <= out@.len(),
                xc@ == x@,
                forall|q: int| 0 <= q < p ==> !lex_lt(x@, #[trigger] out@[q]@),
            decreases out@.len() - p,
        {
            p = p + 1;
        }
        let ghost old_views = views(out@);
        out.insert(p, x);
        assert(views(out@) =~= old_views.insert(p as int, x@));
        proof {
            let nv = views(out@);
            assert forall|i: int, j: int| 0 <= i < j < nv.len() implies lex_le(
                #[trigger] nv[i],
                #[trigger] nv[j],
            ) by {
                if j < p {
                    assert(nv[i] == old_views[i] && nv[j] == old_views[j]);
                } else if j == p {
                    assert(nv[i] == old_views[i]);
                    assert(!lex_lt(x@, old_views[i]));
                    lemma_le_total(x@, old_views[i]);
                } else if i == p {
                    assert(nv[j] == old_views[j - 1]);
                    assert(lex_lt(x@, old_views[p as int]));
                    if j - 1 > p {
                        assert(lex_le(old_views[p as int], old_views[j - 1]));
                    }
                    lemma_lt_le_trans(x@, old_views[p as int], old_views[j - 1]);
                } else if i < p {
                    assert(nv[i] == old_views[i] && nv[j] == old_views[j - 1]);
                } else {
                    assert(nv[i] == old_views[i - 1] && nv[j] == old_views[j - 1]);
                }
            }
            to_multiset_insert(old_views, p as int, x@);
            assert(views(v@.take(k + 1)) =~= views(v@.take(k as int)).push(v@[k as int]@));
            to_multiset_build(views(v@.take(k as int)), v@[k as int]@);
        }
        k = k + 1;
    }
    assert(v@.take(v@.len() as int) =~= v@);
    out
}

} // verus!
