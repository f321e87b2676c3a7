//! Text utilities over character sequences, with their meaning stated as
//! spec functions: line splitting, Unicode whitespace trimming, joining,
//! prefix tests and decimal rendering.

use vstd::prelude::*;

verus! {

broadcast use vstd::string::group_string_axioms;

// ---------------------------------------------------------------------
// Specifications
// ---------------------------------------------------------------------

/// The Unicode `White_Space` property, which `char::is_whitespace` and
/// `str::trim` use.
pub open spec fn is_ws(c: char) -> bool {
    let u = c as u32;
    ||| 0x9 <= u <= 0xD
    ||| u == 0x20
    ||| u == 0x85
    ||| u == 0xA0
    ||| u == 0x1680
    ||| 0x2000 <= u <= 0x200A
    ||| u == 0x2028
    ||| u == 0x2029
    ||| u == 0x202F
    ||| u == 0x205F
    ||| u == 0x3000
}

/// `s` without its leading whitespace.
pub open spec fn trim_front(s: Seq<char>) -> Seq<char>
    decreases s.len(),
{
    if s.len() > 0 && is_ws(s[0]) {
        trim_front(s.drop_first())
    } else {
        s
    }
}

/// `s` without its trailing whitespace.
pub open spec fn trim_back(s: Seq<char>) -> Seq<char>
    decreases s.len(),
{
    if s.len() > 0 && is_ws(s.last()) {
        trim_back(s.drop_last())
    } else {
        s
    }
}

/// `s` without leading and trailing whitespace (what `str::trim` gives).
pub open spec fn trim(s: Seq<char>) -> Seq<char> {
    trim_back(trim_front(s))
}

/// Position of the first `'\n'` at or after `i`, or `s.len()` if there is none.
pub open spec fn next_newline(s: Seq<char>, i: int) -> int
    decreases s.len() - i,
{
    if i >= s.len() {
        s.len() as int
    } else if s[i] == '\n' {
        i
    } else {
        next_newline(s, i + 1)
    }
}

/// A line ended by `"\r\n"` loses its `'\r'` as well.
pub open spec fn strip_cr(t: Seq<char>) -> Seq<char> {
    if t.len() > 0 && t.last() == '\r' {
        t.drop_last()
    } else {
        t
    }
}

/// The lines of `s` that start at or after position `i`.
pub open spec fn lines_from(s: Seq<char>, i: int) -> Seq<Seq<char>>
    decreases s.len() - i,
{
    if i < 0 || i >= s.len() {
        Seq::empty()
    } else {
        proof {
            lemma_next_newline_bounds(s, i);
        }
        let j = next_newline(s, i);
        let piece = s.subrange(i, j);
        if j < s.len() {
            seq![strip_cr(piece)] + lines_from(s, j + 1)
        } else {
            seq![piece]
        }
    }
}

/// The lines of `s`, as `str::lines` yields them: split at `'\n'`, a line
/// terminator `"\r\n"` counts as one, and a final terminator is optional.
pub open spec fn lines(s: Seq<char>) -> Seq<Seq<char>> {
    lines_from(s, 0)
}

/// Parts joined with `'\n'` between them (what `join("\n")` gives).
pub open spec fn join_nl(parts: Seq<Seq<char>>) -> Seq<char>
    decreases parts.len(),
{
    if parts.len() == 0 {
        Seq::empty()
    } else if parts.len() == 1 {
        parts[0]
    } else {
        join_nl(parts.drop_last()) + seq!['\n'] + parts.last()
    }
}

/// `p` is a prefix of `t`.
pub open spec fn is_prefix(p: Seq<char>, t: Seq<char>) -> bool {
    p.len() <= t.len() && t.subrange(0, p.len() as int) == p
}

/// `p` occurs in `t` as a contiguous block.
pub open spec fn contains_seq(t: Seq<char>, p: Seq<char>) -> bool {
    exists|i: int| 0 <= i && i + p.len() <= t.len() && #[trigger] t.subrange(i, i + p.len()) == p
}

/// The texts that a list of spans marks out in `s`.
pub open spec fn span_texts(s: Seq<char>, spans: Seq<(usize, usize)>) -> Seq<Seq<char>> {
    Seq::new(spans.len(), |k: int| s.subrange(spans[k].0 as int, spans[k].1 as int))
}

/// Every span lies within `s` and is well ordered.
pub open spec fn spans_within(len: nat, spans: Seq<(usize, usize)>) -> bool {
    forall|k: int| 0 <= k < spans.len() ==> #[trigger] spans[k].0 <= spans[k].1 <= len
}

/// The decimal digit for `d < 10`.
pub open spec fn digit_char(d: nat) -> char {
    if d == 0 { '0' }
    else if d == 1 { '1' }
    else if d == 2 { '2' }
    else if d == 3 { '3' }
    else if d == 4 { '4' }
    else if d == 5 { '5' }
    else if d == 6 { '6' }
    else if d == 7 { '7' }
    else if d == 8 { '8' }
    else { '9' }
}

/// Decimal rendering of a natural number, without leading zeros.
pub open spec fn decimal(n: nat) -> Seq<char>
    decreases n,
{
    if n < 10 {
        seq![digit_char(n)]
    } else {
        decimal(n / 10).push(digit_char(n % 10))
    }
}

/// Position of the first `c` in `s` at or after `i`.
pub open spec fn find_from(s: Seq<char>, c: char, i: int) -> Option<int>
    decreases s.len() - i,
{
    if i < 0 || i >= s.len() {
        None
    } else if s[i] == c {
        Some(i)
    } else {
        find_from(s, c, i + 1)
    }
}

/// Position of the last `c` in `s[..i]`.
pub open spec fn rfind_before(s: Seq<char>, c: char, i: int) -> Option<int>
    decreases i,
{
    if i <= 0 || i > s.len() {
        None
    } else if s[i - 1] == c {
        Some(i - 1)
    } else {
        rfind_before(s, c, i - 1)
    }
}

// ---------------------------------------------------------------------
// Lemmas
// ---------------------------------------------------------------------

pub proof fn lemma_next_newline_bounds(s: Seq<char>, i: int)
    requires
        0 <= i,
    ensures
        i <= s.len() ==> i <= next_newline(s, i) <= s.len(),
        i <= next_newline(s, i) || i > s.len(),
        next_newline(s, i) < s.len() ==> s[next_newline(s, i)] == '\n',
        forall|k: int| i <= k < next_newline(s, i) ==> s[k] != '\n',
    decreases s.len() - i,
{
    if i < s.len() && s[i] != '\n' {
        lemma_next_newline_bounds(s, i + 1);
    }
}

pub proof fn lemma_trim_front_skip(s: Seq<char>, a: int, b: int)
    requires
        0 <= a < b <= s.len(),
        is_ws(s[a]),
    ensures
        trim_front(s.subrange(a, b)) == trim_front(s.subrange(a + 1, b)),
{
    assert(s.subrange(a, b).drop_first() =~= s.subrange(a + 1, b));
}

pub proof fn lemma_trim_back_skip(s: Seq<char>, a: int, b: int)
    requires
        0 <= a < b <= s.len(),
        is_ws(s[b - 1]),
    ensures
        trim_back(s.subrange(a, b)) == trim_back(s.subrange(a, b - 1)),
{
    assert(s.subrange(a, b).drop_last() =~= s.subrange(a, b - 1));
}

pub proof fn lemma_join_nl_step(parts: Seq<Seq<char>>, from: int, k: int)
    requires
        0 <= from < k < parts.len(),
    ensures
        join_nl(parts.subrange(from, k + 1)) == join_nl(parts.subrange(from, k)) + seq!['\n']
            + parts[k],
{
    assert(parts.subrange(from, k + 1).drop_last() =~= parts.subrange(from, k));
}

// ---------------------------------------------------------------------
// Executable functions
// ---------------------------------------------------------------------

/// The characters of a string slice, in order.
pub fn chars_of(s: &str) -> (r: Vec<char>)
    ensures
        r@ == s@,
{
    let mut v: Vec<char> = Vec::new();
    for c in it: s.chars()
        invariant
            it.seq() == s@,
            v@ == s@.take(it.index()),
    {
        v.push(c);
        assert(s@.take(it.index() + 1) =~= v@);
    }
    assert(s@.take(s@.len() as int) =~= s@);
    v
}

/// The string holding exactly the given characters, built by std's
/// `FromIterator<char> for String` (`collect`); the contract states that the
/// string's characters are those of the vector, in order.
#[verifier::external_body]
pub(crate) fn string_from_chars(v: &Vec<char>) -> (s: String)
    ensures
        s@ == v@,
{
    v.iter().collect()
}

/// Whether `c` has the Unicode `White_Space` property.
pub fn is_whitespace(c: char) -> (b: bool)
    ensures
        b == is_ws(c),
{
    let u = c as u32;
    (0x9 <= u && u <= 0xD) || u == 0x20 || u == 0x85 || u == 0xA0 || u == 0x1680 || (0x2000
        <= u && u <= 0x200A) || u == 0x2028 || u == 0x2029 || u == 0x202F || u == 0x205F || u
        == 0x3000
}

/// The span of `s[lo..hi]` left after trimming whitespace on both ends.
pub fn trim_span(s: &Vec<char>, lo: usize, hi: usize) -> (r: (usize, usize))
    requires
        lo <= hi <= s@.len(),
    ensures
        lo <= r.0 <= r.1 <= hi,
        s@.subrange(r.0 as int, r.1 as int) == trim(s@.subrange(lo as int, hi as int)),
{
    let mut a = lo;
    while a < hi && is_whitespace(s[a])
        invariant
            lo <= a <= hi <= s@.len(),
            trim_front(s@.subrange(lo as int, hi as int)) == trim_front(
                s@.subrange(a as int, hi as int),
            ),
        decreases hi - a,
    {
        proof {
            lemma_trim_front_skip(s@, a as int, hi as int);
        }
        a = a + 1;
    }
    assert(trim_front(s@.subrange(a as int, hi as int)) == s@.subrange(a as int, hi as int)) by {
        if a < hi {
            assert(s@.subrange(a as int, hi as int)[0] == s@[a as int]);
        }
    }
    let mut b = hi;
    while b > a && is_whitespace(s[b - 1])
        invariant
            lo <= a <= b <= hi <= s@.len(),
            trim_back(s@.subrange(a as int, hi as int)) == trim_back(
                s@.subrange(a as int, b as int),
            ),
        decreases b - a,
    {
        proof {
            lemma_trim_back_skip(s@, a as int, b as int);
        }
        b = b - 1;
    }
    assert(trim_back(s@.subrange(a as int, b as int)) == s@.subrange(a as int, b as int)) by {
        if a < b {
            assert(s@.subrange(a as int, b as int).last() == s@[b - 1]);
        }
    }
    (a, b)
}

/// Whether `s[lo..hi]` holds exactly the characters of `p`.
pub fn span_eq(s: &Vec<char>, lo: usize, hi: usize, p: &Vec<char>) -> (b: bool)
    requires
        lo <= hi <= s@.len(),
    ensures
        b == (s@.subrange(lo as int, hi as int) == p@),
{
    if hi - lo != p.len() {
        return false;
    }
    let mut k: usize = 0;
    while k < p.len()
        invariant
            lo <= hi <= s@.len(),
            hi - lo == p@.len(),
            k <= p@.len(),
            forall|m: int| 0 <= m < k ==> s@[lo + m] == p@[m],
        decreases p@.len() - k,
    {
        if s[lo + k] != p[k] {
            assert(s@.subrange(lo as int, hi as int)[k as int] != p@[k as int]);
            return false;
        }
        k = k + 1;
    }
    assert(s@.subrange(lo as int, hi as int) =~= p@);
    true
}

/// Whether `p` is a prefix of `s[lo..hi]`.
pub fn span_starts_with(s: &Vec<char>, lo: usize, hi: usize, p: &Vec<char>) -> (b: bool)
    requires
        lo <= hi <= s@.len(),
    ensures
        b == is_prefix(p@, s@.subrange(lo as int, hi as int)),
{
    if p.len() > hi - lo {
        return false;
    }
    let r = span_eq(s, lo, lo + p.len(), p);
    assert(s@.subrange(lo as int, hi as int).subrange(0, p@.len() as int) =~= s@.subrange(
        lo as int,
        lo + p@.len(),
    ));
    r
}

/// Appends `s[lo..hi]` to `out`.
pub fn push_span(out: &mut Vec<char>, s: &Vec<char>, lo: usize, hi: usize)
    requires
        lo <= hi <= s@.len(),
    ensures
        final(out)@ == old(out)@ + s@.subrange(lo as int, hi as int),
{
    let mut k = lo;
    while k < hi
        invariant
            lo <= k <= hi <= s@.len(),
            out@ == old(out)@ + s@.subrange(lo as int, k as int),
        decreases hi - k,
    {
        out.push(s[k]);
        assert(old(out)@ + s@.subrange(lo as int, k + 1) =~= out@);
        k = k + 1;
    }
}

/// Appends all of `p` to `out`.
pub fn push_all(out: &mut Vec<char>, p: &Vec<char>)
    ensures
        final(out)@ == old(out)@ + p@,
{
    push_span(out, p, 0, p.len());
    assert(p@.subrange(0, p@.len() as int) =~= p@);
}

/// Position of the first `'\n'` at or after `i`, or the length of `s`.
pub fn find_newline(s: &Vec<char>, i: usize) -> (j: usize)
    requires
        i <= s@.len(),
    ensures
        j == next_newline(s@, i as int),
        i <= j <= s@.len(),
{
    proof {
        lemma_next_newline_bounds(s@, i as int);
    }
    let mut j = i;
    while j < s.len() && s[j] != '\n'
        invariant
            i <= j <= s@.len(),
            next_newline(s@, i as int) == next_newline(s@, j as int),
        decreases s@.len() - j,
    {
        j = j + 1;
    }
    j
}

/// The spans of the lines of `s`, in order (see [`lines`]).
pub fn line_spans(s: &Vec<char>) -> (r: Vec<(usize, usize)>)
    ensures
        spans_within(s@.len(), r@),
        span_texts(s@, r@) == lines(s@),
        r@.len() <= s@.len(),
{
    let mut spans: Vec<(usize, usize)> = Vec::new();
    let mut i: usize = 0;
    let n = s.len();
    while i < n
        invariant
            n == s@.len(),
            i <= n,
            spans@.len() <= i,
            spans_within(s@.len(), spans@),
            span_texts(s@, spans@) + lines_from(s@, i as int) == lines(s@),
        decreases n - i,
    {
        let j = find_newline(s, i);
        let end = if j < n && j > i && s[j - 1] == '\r' {
            j - 1
        } else {
            j
        };
        let ghost piece = s@.subrange(i as int, j as int);
        assert(s@.subrange(i as int, end as int) == (if j < s@.len() {
            strip_cr(piece)
        } else {
            piece
        })) by {
            if j < s@.len() && piece.len() > 0 && piece.last() == '\r' {
                assert(piece.drop_last() =~= s@.subrange(i as int, end as int));
            }
            if j < s@.len() && !(piece.len() > 0 && piece.last() == '\r') {
                assert(end == j);
            }
        }
        let ghost old_spans = spans@;
        spans.push((i, end));
        assert(span_texts(s@, spans@) =~= span_texts(s@, old_spans).push(
            s@.subrange(i as int, end as int),
        ));
        assert(spans_within(s@.len(), spans@)) by {
            assert forall|k: int| 0 <= k < spans@.len() implies #[trigger] spans@[k].0
                <= spans@[k].1 <= s@.len() by {
                if k < old_spans.len() {
                    assert(spans@[k] == old_spans[k]);
                }
            }
        }
        if j >= n {
            assert(span_texts(s@, spans@) + lines_from(s@, n as int) =~= span_texts(s@, old_spans)
                + lines_from(s@, i as int));
            i = n;
        } else {
            assert(span_texts(s@, spans@) + lines_from(s@, j + 1) =~= span_texts(s@, old_spans)
                + lines_from(s@, i as int));
            i = j + 1;
        }
    }
    assert(span_texts(s@, spans@) + lines_from(s@, i as int) =~= span_texts(s@, spans@));
    spans
}

/// The spans `spans[from..to]` of `s`, joined with `'\n'`.
pub fn join_spans(s: &Vec<char>, spans: &Vec<(usize, usize)>, from: usize, to: usize) -> (r: Vec<
    char,
>)
    requires
        from <= to <= spans@.len(),
        spans_within(s@.len(), spans@),
    ensures
        r@ == join_nl(span_texts(s@, spans@).subrange(from as int, to as int)),
{
    let ghost texts = span_texts(s@, spans@);
    let mut out: Vec<char> = Vec::new();
    let mut k = from;
    assert(texts.subrange(from as int, from as int) =~= Seq::<Seq<char>>::empty());
    while k < to
        invariant
            from <= k <= to <= spans@.len(),
            spans_within(s@.len(), spans@),
            texts == span_texts(s@, spans@),
            out@ == join_nl(texts.subrange(from as int, k as int)),
        decreases to - k,
    {
        let (a, b) = spans[k];
        assert(spans@[k as int].0 <= spans@[k as int].1 <= s@.len());
        assert(texts[k as int] == s@.subrange(a as int, b as int));
        let ghost before = out@;
        if k > from {
            out.push('\n');
            proof {
                lemma_join_nl_step(texts, from as int, k as int);
            }
        } else {
            assert(texts.subrange(from as int, k + 1) =~= seq![texts[k as int]]);
        }
        push_span(&mut out, s, a, b);
        assert(out@ == join_nl(texts.subrange(from as int, k + 1)));
        k = k + 1;
    }
    out
}

/// Position of the first `c` in `s[lo..hi]`.
pub fn find_char_in(s: &Vec<char>, lo: usize, hi: usize, c: char) -> (r: Option<usize>)
    requires
        lo <= hi <= s@.len(),
    ensures
        match r {
            Some(k) => find_from(s@.subrange(lo as int, hi as int), c, 0) == Some(k - lo) && lo
                <= k < hi,
            None => find_from(s@.subrange(lo as int, hi as int), c, 0) is None,
        },
{
    let ghost t = s@.subrange(lo as int, hi as int);
    let mut k = lo;
    while k < hi
        invariant
            lo <= k <= hi <= s@.len(),
            t == s@.subrange(lo as int, hi as int),
            find_from(t, c, 0) == find_from(t, c, k - lo),
        decreases hi - k,
    {
        assert(t[k - lo] == s@[k as int]);
        if s[k] == c {
            return Some(k);
        }
        k = k + 1;
    }
    None
}

/// Position of the last `c` in `s[lo..hi]`.
pub fn rfind_char_in(s: &Vec<char>, lo: usize, hi: usize, c: char) -> (r: Option<usize>)
    requires
        lo <= hi <= s@.len(),
    ensures
        match r {
            Some(k) => rfind_before(s@.subrange(lo as int, hi as int), c, hi - lo) == Some(k
                - lo) && lo <= k < hi,
            None => rfind_before(s@.subrange(lo as int, hi as int), c, hi - lo) is None,
        },
{
    let ghost t = s@.subrange(lo as int, hi as int);
    let mut k = hi;
    while k > lo && s[k - 1] != c
        invariant
            lo <= k <= hi <= s@.len(),
            t == s@.subrange(lo as int, hi as int),
            rfind_before(t, c, hi - lo) == rfind_before(t, c, k - lo),
        decreases k - lo,
    {
        assert(t[k - 1 - lo] == s@[k - 1]);
        k = k - 1;
    }
    if k == lo {
        None
    } else {
        assert(t[k - 1 - lo] == s@[k - 1]);
        Some(k - 1)
    }
}

/// Whether `p` occurs in `s[lo..hi]`.
pub fn span_contains(s: &Vec<char>, lo: usize, hi: usize, p: &Vec<char>) -> (b: bool)
    requires
        lo <= hi <= s@.len(),
    ensures
        b == contains_seq(s@.subrange(lo as int, hi as int), p@),
{
    let ghost t = s@.subrange(lo as int, hi as int);
    if p.len() > hi - lo {
        return false;
    }
    let last = hi - p.len();
    let mut i = lo;
    loop
        invariant
            lo <= i <= last,
            last + p@.len() == hi,
            hi <= s@.len(),
            t == s@.subrange(lo as int, hi as int),
            forall|j: int| 0 <= j < i - lo ==> #[trigger] t.subrange(j, j + p@.len()) != p@,
        decreases last - i,
    {
        assert(t.subrange(i - lo, i - lo + p@.len()) =~= s@.subrange(
            i as int,
            i + p@.len(),
        ));
        if span_eq(s, i, i + p.len(), p) {
            return true;
        }
        if i == last {
            assert forall|j: int| 0 <= j && j + p@.len() <= t.len() implies #[trigger] t.subrange(
                j,
                j + p@.len(),
            ) != p@ by {}
            return false;
        }
        i = i + 1;
    }
}

/// The signed decimal rendering of an integer.
pub open spec fn signed_decimal(n: int) -> Seq<char> {
    if n < 0 {
        seq!['-'] + decimal((-n) as nat)
    } else {
        decimal(n as nat)
    }
}

/// The signed decimal rendering of `n`.
pub fn signed_decimal_chars(n: i32) -> (r: Vec<char>)
    ensures
        r@ == signed_decimal(n as int),
{
    if n < 0 {
        let m: i64 = -(n as i64);
        let mut v: Vec<char> = Vec::new();
        v.push('-');
        let digits = decimal_chars(m as usize);
        push_all(&mut v, &digits);
        v
    } else {
        decimal_chars(n as usize)
    }
}

/// Decimal rendering of `n`.
pub fn decimal_chars(n: usize) -> (r: Vec<char>)
    ensures
        r@ == decimal(n as nat),
    decreases n,
{
    let d = n % 10;
    let c = if d == 0 {
        '0'
    } else if d == 1 {
        '1'
    } else if d == 2 {
        '2'
    } else if d == 3 {
        '3'
    } else if d == 4 {
        '4'
    } else if d == 5 {
        '5'
    } else if d == 6 {
        '6'
    } else if d == 7 {
        '7'
    } else if d == 8 {
        '8'
    } else {
        '9'
    };
    if n < 10 {
        let mut v = Vec::new();
        v.push(c);
        assert(v@ =~= seq![digit_char(n as nat)]);
        v
    } else {
        let mut v = decimal_chars(n / 10);
        v.push(c);
        v
    }
}

} // verus!
