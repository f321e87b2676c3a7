//! Paths, held as strings, and how they are joined.

use vstd::prelude::*;
use crate::text::{chars_of, push_span, span_eq, span_texts, spans_within};

verus! {

/// A Unix path is absolute when it starts at the root.
pub open spec fn is_absolute(p: Seq<char>) -> bool {
    p.len() > 0 && p[0] == '/'
}

/// What `Path::join` gives for two paths.
pub uninterp spec fn path_joined(base: Seq<char>, rel: Seq<char>) -> Seq<char>;

/// `std::path::Path::join` on Unix. Its documentation (with `PathBuf::push`)
/// says that an absolute `rel` replaces `base`, and its examples show a
/// relative `rel` added after a `'/'`; that is what the contract states.
/// For a `base` that is empty or ends in `'/'` nothing more is claimed than
/// that the result is a function of the two paths.
#[verifier::external_body]
pub(crate) fn path_join(base: &str, rel: &str) -> (r: String)
    ensures
        r@ == path_joined(base@, rel@),
        is_absolute(rel@) ==> r@ == rel@,
        !is_absolute(rel@) && base@.len() > 0 && base@.last() != '/' ==> r@ == base@ + seq!['/']
            + rel@,
{
    std::path::Path::new(base).join(rel).to_string_lossy().into_owned()
}

/// The components of `p[..n]` that a `'/'` has already closed, and the one
/// still being read.
pub open spec fn split_prefix(p: Seq<char>, n: int) -> (Seq<Seq<char>>, Seq<char>)
    decreases n,
{
    if n <= 0 || n > p.len() {
        (Seq::empty(), Seq::empty())
    } else {
        let (cs, cur) = split_prefix(p, n - 1);
        if p[n - 1] == '/' {
            (if cur.len() > 0 { cs.push(cur) } else { cs }, Seq::empty())
        } else {
            (cs, cur.push(p[n - 1]))
        }
    }
}

/// The non-empty pieces of `p` between `'/'`s, in order.
pub open spec fn components(p: Seq<char>) -> Seq<Seq<char>> {
    let (cs, cur) = split_prefix(p, p.len() as int);
    if cur.len() > 0 {
        cs.push(cur)
    } else {
        cs
    }
}

/// The component `"."`.
pub open spec fn dot() -> Seq<char> {
    seq!['.']
}

/// The component `".."`.
pub open spec fn dot_dot() -> Seq<char> {
    seq!['.', '.']
}

/// One component added to a resolved path: `"."` stays where it is, `".."`
/// goes up one level (at the root of an absolute path it stays there; a
/// relative path that has nothing left to leave keeps it), anything else
/// goes down.
pub open spec fn norm_step(stack: Seq<Seq<char>>, c: Seq<char>, abs: bool) -> Seq<Seq<char>> {
    if c == dot() {
        stack
    } else if c == dot_dot() {
        if stack.len() > 0 && stack.last() != dot_dot() {
            stack.drop_last()
        } else if abs {
            stack
        } else {
            stack.push(c)
        }
    } else {
        stack.push(c)
    }
}

/// Components resolved one after the other.
pub open spec fn normalize(cs: Seq<Seq<char>>, abs: bool) -> Seq<Seq<char>>
    decreases cs.len(),
{
    if cs.len() == 0 {
        Seq::empty()
    } else {
        norm_step(normalize(cs.drop_last(), abs), cs.last(), abs)
    }
}

/// The components of a path once `"."` and `".."` are resolved by its text
/// alone.
pub open spec fn normalized(p: Seq<char>) -> Seq<Seq<char>> {
    normalize(components(p), is_absolute(p))
}

/// `p` lies in `base` (or is `base`) once both are resolved by their text:
/// both absolute or both relative, the resolved `base` is a leading part of
/// the resolved `p`, and nothing after that part goes up again.
pub open spec fn within(p: Seq<char>, base: Seq<char>) -> bool {
    let b = normalized(base);
    let q = normalized(p);
    &&& is_absolute(p) == is_absolute(base)
    &&& b.len() <= q.len()
    &&& q.take(b.len() as int) == b
    &&& forall|i: int| b.len() <= i < q.len() ==> q[i] != dot_dot()
}

/// A directory lies in itself.
pub proof fn law_within_itself(p: Seq<char>)
    ensures
        within(p, p),
{
    assert(normalized(p).take(normalized(p).len() as int) =~= normalized(p));
}

/// The components of a list that are not `"."`.
pub open spec fn without_dots(cs: Seq<Seq<char>>) -> Seq<Seq<char>>
    decreases cs.len(),
{
    if cs.len() == 0 {
        Seq::empty()
    } else if cs.last() == dot() {
        without_dots(cs.drop_last())
    } else {
        without_dots(cs.drop_last()).push(cs.last())
    }
}

/// Splitting a text depends only on the part already read.
proof fn lemma_split_prefix_of_longer(a: Seq<char>, x: Seq<char>, n: int)
    requires
        0 <= n <= a.len(),
    ensures
        split_prefix(a + x, n) == split_prefix(a, n),
    decreases n,
{
    if n > 0 {
        lemma_split_prefix_of_longer(a, x, n - 1);
        assert((a + x)[n - 1] == a[n - 1]);
    }
}

/// Splitting `a + "/" + b`: the components of `a`, then those of `b` so far.
proof fn lemma_split_prefix_after_slash(a: Seq<char>, b: Seq<char>, n: int)
    requires
        0 <= n <= b.len(),
    ensures
        split_prefix(a + seq!['/'] + b, a.len() + 1 + n) == (
            components(a) + split_prefix(b, n).0,
            split_prefix(b, n).1,
        ),
    decreases n,
{
    let s = a + seq!['/'] + b;
    if n == 0 {
        lemma_split_prefix_of_longer(a, seq!['/'] + b, a.len() as int);
        assert(a + (seq!['/'] + b) =~= s);
        assert(s[a.len() as int] == '/');
        assert(components(a) + Seq::<Seq<char>>::empty() =~= components(a));
    } else {
        lemma_split_prefix_after_slash(a, b, n - 1);
        assert(s[a.len() + 1 + n - 1] == b[n - 1]);
        let (cs, cur) = split_prefix(b, n - 1);
        if b[n - 1] == '/' {
            if cur.len() > 0 {
                assert(components(a) + cs.push(cur) =~= (components(a) + cs).push(cur));
            }
        } else {
        }
    }
}

/// The components of `a + "/" + b` are those of `a`, then those of `b`.
proof fn lemma_components_join(a: Seq<char>, b: Seq<char>)
    ensures
        components(a + seq!['/'] + b) == components(a) + components(b),
{
    let s = a + seq!['/'] + b;
    lemma_split_prefix_after_slash(a, b, b.len() as int);
    assert(s.len() == a.len() + 1 + b.len());
    let (cs, cur) = split_prefix(b, b.len() as int);
    if cur.len() > 0 {
        assert(components(a) + cs.push(cur) =~= (components(a) + cs).push(cur));
    } else {
    }
}

/// Resolving components that never go up only drops their `"."`s.
proof fn lemma_normalize_descending(c1: Seq<Seq<char>>, c2: Seq<Seq<char>>, abs: bool)
    requires
        forall|i: int| 0 <= i < c2.len() ==> c2[i] != dot_dot(),
    ensures
        normalize(c1 + c2, abs) == normalize(c1, abs) + without_dots(c2),
    decreases c2.len(),
{
    if c2.len() == 0 {
        assert(c1 + c2 =~= c1);
        assert(normalize(c1, abs) + without_dots(c2) =~= normalize(c1, abs));
    } else {
        let c2d = c2.drop_last();
        lemma_normalize_descending(c1, c2d, abs);
        assert((c1 + c2).drop_last() =~= c1 + c2d);
        assert((c1 + c2).last() == c2.last());
        assert(c2.last() != dot_dot());
        if c2.last() != dot() {
            assert(normalize(c1, abs) + without_dots(c2d).push(c2.last()) =~= (normalize(c1, abs)
                + without_dots(c2d)).push(c2.last()));
        }
    }
}

/// The components left by [`without_dots`] are among those given.
proof fn lemma_without_dots_from(cs: Seq<Seq<char>>)
    ensures
        forall|i: int| 0 <= i < without_dots(cs).len() ==> exists|j: int| 0 <= j < cs.len()
            && #[trigger] without_dots(cs)[i] == cs[j],
    decreases cs.len(),
{
    if cs.len() > 0 {
        lemma_without_dots_from(cs.drop_last());
        let w = without_dots(cs.drop_last());
        assert forall|i: int| 0 <= i < without_dots(cs).len() implies exists|j: int| 0 <= j
            < cs.len() && #[trigger] without_dots(cs)[i] == cs[j] by {
            if i < w.len() {
                let j = choose|j: int| 0 <= j < cs.drop_last().len() && w[i] == cs.drop_last()[j];
                assert(cs[j] == cs.drop_last()[j]);
            } else {
                assert(without_dots(cs)[i] == cs[cs.len() - 1]);
            }
        }
    }
}

/// A path that only goes down from a directory lies in that directory:
/// `rel` put under `base`, when no component of `rel` is `".."`.
pub proof fn law_descending_path_within(base: Seq<char>, rel: Seq<char>)
    requires
        base.len() > 0,
        forall|i: int| 0 <= i < components(rel).len() ==> components(rel)[i] != dot_dot(),
    ensures
        within(base + seq!['/'] + rel, base),
{
    let p = base + seq!['/'] + rel;
    assert(p[0] == base[0]);
    assert(is_absolute(p) == is_absolute(base));
    lemma_components_join(base, rel);
    lemma_normalize_descending(components(base), components(rel), is_absolute(base));
    lemma_without_dots_from(components(rel));
    let b = normalized(base);
    let q = normalized(p);
    let w = without_dots(components(rel));
    assert(q == b + w);
    assert(q.take(b.len() as int) =~= b);
    assert forall|i: int| b.len() <= i < q.len() implies q[i] != dot_dot() by {
        assert(q[i] == w[i - b.len()]);
        let j = choose|j: int| 0 <= j < components(rel).len() && #[trigger] w[i - b.len()]
            == components(rel)[j];
    }
}

/// The spans of the components of `p`.
fn component_spans(p: &Vec<char>) -> (r: Vec<(usize, usize)>)
    ensures
        spans_within(p@.len(), r@),
        span_texts(p@, r@) == components(p@),
{
    let mut out: Vec<(usize, usize)> = Vec::new();
    let mut start: usize = 0;
    let mut i: usize = 0;
    while i < p.len()
        invariant
            start <= i <= p@.len(),
            spans_within(p@.len(), out@),
            split_prefix(p@, i as int) == (span_texts(p@, out@), p@.subrange(
                start as int,
                i as int,
            )),
        decreases p@.len() - i,
    {
        let ghost old_out = out@;
        if p[i] == '/' {
            if start < i {
                out.push((start, i));
                assert(span_texts(p@, out@) =~= span_texts(p@, old_out).push(
                    p@.subrange(start as int, i as int),
                ));
            }
            start = i + 1;
            assert(p@.subrange(start as int, i + 1) =~= Seq::<char>::empty());
        } else {
            assert(p@.subrange(start as int, i + 1) =~= p@.subrange(start as int, i as int).push(
                p@[i as int],
            ));
        }
        i = i + 1;
    }
    let ghost before = out@;
    if start < i {
        out.push((start, i));
        assert(span_texts(p@, out@) =~= span_texts(p@, before).push(
            p@.subrange(start as int, i as int),
        ));
    }
    out
}

/// Whether `p[lo..hi]` is `"."`.
fn span_is_dot(p: &Vec<char>, lo: usize, hi: usize) -> (b: bool)
    requires
        lo <= hi <= p@.len(),
    ensures
        b == (p@.subrange(lo as int, hi as int) == dot()),
{
    if hi - lo == 1 && p[lo] == '.' {
        assert(p@.subrange(lo as int, hi as int) =~= dot());
        true
    } else {
        assert(hi - lo != 1 ==> p@.subrange(lo as int, hi as int).len() != dot().len());
        assert(hi - lo == 1 ==> p@.subrange(lo as int, hi as int)[0] != dot()[0]);
        false
    }
}

/// Whether `p[lo..hi]` is `".."`.
fn span_is_dot_dot(p: &Vec<char>, lo: usize, hi: usize) -> (b: bool)
    requires
        lo <= hi <= p@.len(),
    ensures
        b == (p@.subrange(lo as int, hi as int) == dot_dot()),
{
    if hi - lo == 2 && p[lo] == '.' && p[lo + 1] == '.' {
        assert(p@.subrange(lo as int, hi as int) =~= dot_dot());
        true
    } else {
        assert(hi - lo != 2 ==> p@.subrange(lo as int, hi as int).len() != dot_dot().len());
        assert(hi - lo == 2 && p[lo as int] != '.' ==> p@.subrange(lo as int, hi as int)[0]
            != dot_dot()[0]);
        assert(hi - lo == 2 && p[lo + 1] != '.' ==> p@.subrange(lo as int, hi as int)[1]
            != dot_dot()[1]);
        false
    }
}

/// The spans of the components of `p` once `"."` and `".."` are resolved.
fn normalized_spans(p: &Vec<char>) -> (r: Vec<(usize, usize)>)
    ensures
        spans_within(p@.len(), r@),
        span_texts(p@, r@) == normalized(p@),
{
    let cs = component_spans(p);
    let abs = p.len() > 0 && p[0] == '/';
    let ghost all = span_texts(p@, cs@);
    let mut st: Vec<(usize, usize)> = Vec::new();
    let mut k: usize = 0;
    while k < cs.len()
        invariant
            k <= cs@.len(),
            spans_within(p@.len(), cs@),
            spans_within(p@.len(), st@),
            all == span_texts(p@, cs@),
            all == components(p@),
            abs == is_absolute(p@),
            span_texts(p@, st@) == normalize(all.take(k as int), abs),
        decreases cs@.len() - k,
    {
        let (lo, hi) = cs[k];
        assert(cs@[k as int].0 <= cs@[k as int].1 <= p@.len());
        let ghost c = p@.subrange(lo as int, hi as int);
        let ghost before = st@;
        assert(all.take(k + 1).drop_last() =~= all.take(k as int));
        assert(all.take(k + 1).last() == c);
        if span_is_dot(p, lo, hi) {
        } else if span_is_dot_dot(p, lo, hi) {
            let n = st.len();
            let up = if n > 0 {
                let (a, b) = st[n - 1];
                assert(st@[n - 1].0 <= st@[n - 1].1 <= p@.len());
                !span_is_dot_dot(p, a, b)
            } else {
                false
            };
            if up {
                st.pop();
                assert(span_texts(p@, st@) =~= span_texts(p@, before).drop_last());
            } else if !abs {
                st.push((lo, hi));
                assert(span_texts(p@, st@) =~= span_texts(p@, before).push(c));
            }
        } else {
            st.push((lo, hi));
            assert(span_texts(p@, st@) =~= span_texts(p@, before).push(c));
        }
        k = k + 1;
    }
    assert(all.take(cs@.len() as int) =~= all);
    st
}

/// Whether `p` lies in `base` once both are resolved by their text (see
/// [`within`]).
pub fn is_within(p: &str, base: &str) -> (b: bool)
    ensures
        b == within(p@, base@),
{
    let pc = chars_of(p);
    let bc = chars_of(base);
    let pa = pc.len() > 0 && pc[0] == '/';
    let ba = bc.len() > 0 && bc[0] == '/';
    if pa != ba {
        return false;
    }
    let q = normalized_spans(&pc);
    let bs = normalized_spans(&bc);
    let ghost qt = span_texts(pc@, q@);
    let ghost bt = span_texts(bc@, bs@);
    if bs.len() > q.len() {
        return false;
    }
    let mut i: usize = 0;
    while i < bs.len()
        invariant
            i <= bs@.len() <= q@.len(),
            spans_within(pc@.len(), q@),
            spans_within(bc@.len(), bs@),
            qt == span_texts(pc@, q@),
            bt == span_texts(bc@, bs@),
            qt == normalized(p@),
            bt == normalized(base@),
            forall|j: int| 0 <= j < i ==> qt[j] == bt[j],
        decreases bs@.len() - i,
    {
        let (a1, b1) = q[i];
        let (a2, b2) = bs[i];
        assert(q@[i as int].0 <= q@[i as int].1 <= pc@.len());
        assert(bs@[i as int].0 <= bs@[i as int].1 <= bc@.len());
        let mut piece: Vec<char> = Vec::new();
        push_span(&mut piece, &bc, a2, b2);
        assert(piece@ =~= bt[i as int]);
        if !span_eq(&pc, a1, b1, &piece) {
            assert(qt.take(bt.len() as int)[i as int] != bt[i as int]);
            assert(qt.take(bt.len() as int) != bt);
            return false;
        }
        i = i + 1;
    }
    assert(qt.take(bt.len() as int) =~= bt);
    while i < q.len()
        invariant
            bs@.len() <= i <= q@.len(),
            spans_within(pc@.len(), q@),
            qt == span_texts(pc@, q@),
            qt == normalized(p@),
            bt == normalized(base@),
            bt.len() == bs@.len(),
            forall|j: int| bs@.len() <= j < i ==> qt[j] != dot_dot(),
        decreases q@.len() - i,
    {
        let (a1, b1) = q[i];
        assert(q@[i as int].0 <= q@[i as int].1 <= pc@.len());
        if span_is_dot_dot(&pc, a1, b1) {
            assert(qt[i as int] == dot_dot());
            return false;
        }
        i = i + 1;
    }
    true
}

/// Position of the last `'.'` in `name[..i]`.
pub open spec fn last_dot_before(name: Seq<char>, i: int) -> Option<int>
    decreases i,
{
    if i <= 0 || i > name.len() {
        None
    } else if name[i - 1] == '.' {
        Some(i - 1)
    } else {
        last_dot_before(name, i - 1)
    }
}

/// The extension of a file name, as `Path::extension` documents it: none if
/// there is no `'.'` or the only `'.'` starts the name (and none for `".."`),
/// else the part after the final `'.'`.
pub open spec fn extension_of(name: Seq<char>) -> Option<Seq<char>> {
    if name == seq!['.', '.'] {
        None
    } else {
        match last_dot_before(name, name.len() as int) {
            Some(i) => if i > 0 {
                Some(name.subrange(i + 1, name.len() as int))
            } else {
                None
            },
            None => None,
        }
    }
}

/// The stem of a file name, as `Path::file_stem` documents it: the whole
/// name if it has no `'.'` or only a leading one, else the part before the
/// final `'.'`.
pub open spec fn stem_of(name: Seq<char>) -> Seq<char> {
    if name == seq!['.', '.'] {
        name
    } else {
        match last_dot_before(name, name.len() as int) {
            Some(i) => if i > 0 {
                name.subrange(0, i)
            } else {
                name
            },
            None => name,
        }
    }
}

/// Position of the last `'.'` in `name`.
pub fn find_last_dot(name: &Vec<char>) -> (r: Option<usize>)
    ensures
        match r {
            Some(k) => last_dot_before(name@, name@.len() as int) == Some(k as int) && k
                < name@.len(),
            None => last_dot_before(name@, name@.len() as int) is None,
        },
{
    let mut i = name.len();
    while i > 0 && name[i - 1] != '.'
        invariant
            i <= name@.len(),
            last_dot_before(name@, name@.len() as int) == last_dot_before(name@, i as int),
        decreases i,
    {
        i = i - 1;
    }
    if i == 0 {
        None
    } else {
        Some(i - 1)
    }
}

/// Whether the name is `".."`.
fn is_dot_dot(name: &Vec<char>) -> (b: bool)
    ensures
        b == (name@ == seq!['.', '.']),
{
    if name.len() == 2 && name[0] == '.' && name[1] == '.' {
        assert(name@ =~= seq!['.', '.']);
        true
    } else {
        false
    }
}

/// The span of the extension of a file name, if it has one.
pub fn extension_span(name: &Vec<char>) -> (r: Option<(usize, usize)>)
    ensures
        match r {
            Some((a, b)) => a <= b == name@.len() && extension_of(name@) == Some(
                name@.subrange(a as int, b as int),
            ),
            None => extension_of(name@) is None,
        },
{
    if is_dot_dot(name) {
        return None;
    }
    let n = name.len();
    match find_last_dot(name) {
        Some(k) => if k > 0 {
            assert(k < n);
            Some((k + 1, n))
        } else {
            None
        },
        None => None,
    }
}

/// The stem of a file name.
pub fn stem(name: &Vec<char>) -> (r: Vec<char>)
    ensures
        r@ == stem_of(name@),
{
    let mut out: Vec<char> = Vec::new();
    let end = if is_dot_dot(name) {
        name.len()
    } else {
        match find_last_dot(name) {
            Some(k) => if k > 0 {
                k
            } else {
                name.len()
            },
            None => name.len(),
        }
    };
    crate::text::push_span(&mut out, name, 0, end);
    assert(name@.subrange(0, name@.len() as int) =~= name@);
    out
}

} // verus!
