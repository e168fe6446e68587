//! Unicode display of rendered items in the terminal: widths, truncation and highlighted spans.
//!
//! Offsets into rendered text are byte offsets into its UTF-8 encoding, as in the matcher's
//! representation of items.
use std::ops::Range;

use vstd::prelude::*;

use crate::segment::{
    byte_size, char_index, char_index_of_byte, cluster_lens, cluster_start, cluster_widths,
    clusters, clusters_ok, lemma_ascii_byte_size, lemma_byte_size_mono, lemma_byte_size_take,
    lemma_char_index_at_boundary, lemma_cluster_start_bounds, lemma_int_sum_take, text_width,
    utf8_len, utf8_width, width_of,
};
use crate::text::str_chars;

verus! {

/// The grapheme steps of a text are well formed: each is `(character index, byte offset,
/// width)` with the byte offset that of the character, and the character indices increase.
pub open spec fn steps_ok(input: Seq<char>, steps: Seq<(int, int, int)>) -> bool {
    &&& forall|k: int|
        0 <= k < steps.len() ==> {
            &&& 0 <= (#[trigger] steps[k]).0 < input.len()
            &&& steps[k].1 == byte_size(input.take(steps[k].0))
            &&& steps[k].2 >= 0
        }
    &&& forall|j: int, k: int| 0 <= j < k < steps.len() ==> (#[trigger] steps[j]).0 < (#[trigger] steps[k]).0
}

/// Seals [`Processor`]: it has exactly the implementations of this module.
pub trait Sealed {}

/// The Unicode operations needed to display a rendered item: its width, the width of each of
/// its graphemes, and the width of its last grapheme.
///
/// There are two implementations: [`UnicodeProcessor`] segments into extended grapheme clusters
/// (so that `\r\n` is one grapheme), [`AsciiProcessor`] takes every byte as a grapheme of width 1.
/// Each is for the texts its `accepts` admits.
pub trait Processor: Sealed {
    /// The texts this processor is for.
    spec fn accepts(input: Seq<char>) -> bool;

    /// The width of a text.
    spec fn spec_width(input: Seq<char>) -> int;

    /// The graphemes of a text: character index, byte offset and width of each.
    spec fn spec_steps(input: Seq<char>) -> Seq<(int, int, int)>;

    /// The width of the last grapheme of a text.
    spec fn spec_last_width(input: Seq<char>) -> int;

    /// The texts this processor is for include every part of them.
    proof fn lemma_accepts_subrange(input: Seq<char>, a: int, b: int)
        requires
            Self::accepts(input),
            0 <= a <= b <= input.len(),
        ensures
            Self::accepts(input.subrange(a, b)),
    ;

    /// Compute the width (in terms of visible columns) of the input string.
    fn width(input: &str) -> (r: usize)
        requires
            Self::accepts(input@),
        ensures
            r == Self::spec_width(input@),
    ;

    /// The pairs `(offset, grapheme_width)` for the graphemes in `input`.
    fn grapheme_index_widths(input: &str) -> (r: Vec<(usize, usize)>)
        requires
            Self::accepts(input@),
        ensures
            r@.len() == Self::spec_steps(input@).len(),
            forall|k: int|
                0 <= k < r@.len() ==> (#[trigger] r@[k]).0 == Self::spec_steps(input@)[k].1
                    && r@[k].1 == Self::spec_steps(input@)[k].2,
            steps_ok(input@, Self::spec_steps(input@)),
    ;

    /// Compute the width (in terms of visible columns) of the last grapheme.
    fn last_grapheme_width(input: &str) -> (r: usize)
        requires
            Self::accepts(input@),
        ensures
            r == Self::spec_last_width(input@),
    ;
}

/// Whether a text is safe to use with a [`UnicodeProcessor`]: it holds no carriage return, or it
/// is not all ASCII.
pub open spec fn unicode_safe(s: Seq<char>) -> bool {
    !s.contains('\r') || !vstd::utf8::is_ascii_chars(s)
}

/// Whether or not a given string slice is safe to use with a [`UnicodeProcessor`].
pub fn is_unicode_safe(input: &str) -> (r: bool)
    ensures
        r == unicode_safe(input@),
{
    let chars = str_chars(input);
    let n = chars.len();
    let mut has_cr = false;
    let mut i: usize = 0;
    while i < n
        invariant
            n == chars@.len(),
            chars@ == input@,
            i <= n,
            has_cr == exists|k: int| 0 <= k < i && chars@[k] == '\r',
        decreases n - i,
    {
        if chars[i] == '\r' {
            has_cr = true;
        }
        i = i + 1;
    }
    proof {
        if input@.contains('\r') {
            let k = choose|k: int| 0 <= k < input@.len() && input@[k] == '\r';
            assert(chars@[k] == '\r');
        }
    }
    !has_cr || !input.is_ascii()
}

/// Whether or not a given string slice is safe to use with an [`AsciiProcessor`].
pub fn is_ascii_safe(input: &str) -> (r: bool)
    ensures
        r == vstd::utf8::is_ascii_chars(input@),
{
    input.is_ascii()
}

/// A [`Processor`] which is safe to use on strings for which `is_ascii()` returns false.
pub struct UnicodeProcessor;

impl Sealed for UnicodeProcessor {}

impl Processor for UnicodeProcessor {
    open spec fn accepts(input: Seq<char>) -> bool {
        true
    }

    open spec fn spec_width(input: Seq<char>) -> int {
        text_width(input) as int
    }

    open spec fn spec_steps(input: Seq<char>) -> Seq<(int, int, int)> {
        Seq::new(
            cluster_lens(input).len(),
            |k: int|
                (
                    cluster_start(input, k),
                    byte_size(input.take(cluster_start(input, k))),
                    cluster_widths(input)[k],
                ),
        )
    }

    open spec fn spec_last_width(input: Seq<char>) -> int {
        let c = cluster_lens(input).len() as int;
        if c > 0 {
            cluster_widths(input)[c - 1]
        } else {
            0
        }
    }

    proof fn lemma_accepts_subrange(input: Seq<char>, a: int, b: int) {
    }

    fn width(input: &str) -> (r: usize) {
        let chars = str_chars(input);
        width_of(chars.as_slice())
    }

    fn grapheme_index_widths(input: &str) -> (r: Vec<(usize, usize)>) {
        let chars = str_chars(input);
        let total = input.as_bytes().len();
        let (lens, widths) = clusters(chars.as_slice());
        let ghost s = input@;
        let cl = chars.len();
        let n = lens.len();
        let mut r: Vec<(usize, usize)> = Vec::new();
        let mut ci: usize = 0;
        let mut bi: usize = 0;
        let mut k: usize = 0;
        proof {
            assert(s.take(0) =~= Seq::<char>::empty());
            assert(cluster_lens(s).take(0) =~= Seq::<int>::empty());
            assert(s.take(s.len() as int) =~= s);
        }
        while k < n
            invariant
                chars@ == s,
                cl == s.len(),
                s == input@,
                total == byte_size(s),
                clusters_ok(s),
                n == lens@.len(),
                n == widths@.len(),
                n == cluster_lens(s).len(),
                forall|j: int| 0 <= j < n ==> lens@[j] == #[trigger] cluster_lens(s)[j],
                forall|j: int| 0 <= j < n ==> widths@[j] == #[trigger] cluster_widths(s)[j],
                k <= n,
                ci == cluster_start(s, k as int),
                bi == byte_size(s.take(ci as int)),
                r@.len() == k,
                forall|j: int|
                    0 <= j < k ==> (#[trigger] r@[j]).0 == Self::spec_steps(s)[j].1 && r@[j].1
                        == Self::spec_steps(s)[j].2,
            decreases n - k,
        {
            r.push((bi, widths[k]));
            proof {
                lemma_int_sum_take(cluster_lens(s), k as int);
                lemma_cluster_start_bounds(s, k as int + 1, n as int);
                assert(s.take(s.len() as int) =~= s);
            }
            let end = ci + lens[k];
            let mut i = ci;
            while i < end
                invariant
                    chars@ == s,
                    ci <= i <= end,
                    end <= s.len(),
                    total == byte_size(s),
                    bi == byte_size(s.take(i as int)),
                decreases end - i,
            {
                proof {
                    lemma_byte_size_take(s, i as int);
                    lemma_byte_size_mono(s, i as int + 1, s.len() as int);
                    assert(s.take(s.len() as int) =~= s);
                }
                bi = bi + utf8_len(chars[i]);
                i = i + 1;
            }
            ci = end;
            k = k + 1;
        }
        proof {
            assert forall|j: int| 0 <= j < Self::spec_steps(s).len() implies {
                &&& 0 <= (#[trigger] Self::spec_steps(s)[j]).0 < s.len()
                &&& Self::spec_steps(s)[j].1 == byte_size(s.take(Self::spec_steps(s)[j].0))
                &&& Self::spec_steps(s)[j].2 >= 0
            } by {
                lemma_cluster_start_bounds(s, j, j + 1);
                lemma_cluster_start_bounds(s, j + 1, n as int);
            }
            assert forall|j: int, k2: int|
                0 <= j < k2 < Self::spec_steps(s).len() implies (#[trigger] Self::spec_steps(s)[j]).0
                < (#[trigger] Self::spec_steps(s)[k2]).0 by {
                lemma_cluster_start_bounds(s, j, k2);
            }
        }
        r
    }

    fn last_grapheme_width(input: &str) -> (r: usize) {
        let chars = str_chars(input);
        let (_, widths) = clusters(chars.as_slice());
        let c = widths.len();
        if c > 0 {
            widths[c - 1]
        } else {
            0
        }
    }
}

/// A [`Processor`] for ASCII text: every byte is a grapheme of width 1.
pub struct AsciiProcessor;

impl Sealed for AsciiProcessor {}

impl Processor for AsciiProcessor {
    open spec fn accepts(input: Seq<char>) -> bool {
        vstd::utf8::is_ascii_chars(input)
    }

    open spec fn spec_width(input: Seq<char>) -> int {
        byte_size(input)
    }

    open spec fn spec_steps(input: Seq<char>) -> Seq<(int, int, int)> {
        Seq::new(byte_size(input) as nat, |i: int| (i, i, 1))
    }

    open spec fn spec_last_width(input: Seq<char>) -> int {
        1
    }

    proof fn lemma_accepts_subrange(input: Seq<char>, a: int, b: int) {
        assert forall|i: int| 0 <= i < input.subrange(a, b).len() implies '\0' <= #[trigger] input.subrange(
            a,
            b,
        )[i] <= '\u{7f}' by {
            assert(input.subrange(a, b)[i] == input[a + i]);
        }
    }

    fn width(input: &str) -> (r: usize) {
        input.as_bytes().len()
    }

    fn grapheme_index_widths(input: &str) -> (r: Vec<(usize, usize)>) {
        let n = input.as_bytes().len();
        let ghost s = input@;
        proof {
            lemma_ascii_byte_size(s, s.len() as int);
            assert(s.take(s.len() as int) =~= s);
        }
        let mut r: Vec<(usize, usize)> = Vec::new();
        let mut i: usize = 0;
        while i < n
            invariant
                n == byte_size(s),
                n == s.len(),
                i <= n,
                r@.len() == i,
                forall|j: int| 0 <= j < i ==> (#[trigger] r@[j]).0 == j && r@[j].1 == 1,
            decreases n - i,
        {
            r.push((i, 1));
            i = i + 1;
        }
        proof {
            assert forall|j: int| 0 <= j < Self::spec_steps(s).len() implies {
                &&& 0 <= (#[trigger] Self::spec_steps(s)[j]).0 < s.len()
                &&& Self::spec_steps(s)[j].1 == byte_size(s.take(Self::spec_steps(s)[j].0))
                &&& Self::spec_steps(s)[j].2 >= 0
            } by {
                lemma_ascii_byte_size(s, j);
            }
        }
        r
    }

    fn last_grapheme_width(input: &str) -> (r: usize) {
        1
    }
}

/// The result of `consume` on a text with the given grapheme steps: walking over the graphemes
/// from step `k` with `initial` columns consumed, stop at the first grapheme reached once at least
/// `offset` columns are consumed; its byte offset and the excess columns.
pub open spec fn consume_result(steps: Seq<(int, int, int)>, k: int, initial: int, offset: int, total: int) -> (
    int,
    int,
)
    decreases steps.len() - k,
{
    if k < 0 || k >= steps.len() {
        (total, if initial >= offset { initial - offset } else { 0 })
    } else if initial >= offset {
        (steps[k].1, initial - offset)
    } else {
        let next = if initial + steps[k].2 > usize::MAX { usize::MAX as int } else { initial + steps[k].2 };
        consume_result(steps, k + 1, next, offset, total)
    }
}

/// The result of `truncate`: `Ok` with the capacity left if the text fits, else `Err` with the
/// number of characters of the longest prefix of whole graphemes that fits, and the columns left
/// after it.
pub open spec fn truncate_result(width: int, steps: Seq<(int, int, int)>, capacity: int) -> Result<
    int,
    (int, int),
> {
    if width <= capacity {
        Ok(capacity - width)
    } else {
        truncate_walk(steps, 0, 0, capacity)
    }
}

/// Walking over the graphemes from step `k` with `current` columns used.
pub open spec fn truncate_walk(steps: Seq<(int, int, int)>, k: int, current: int, capacity: int) -> Result<
    int,
    (int, int),
>
    decreases steps.len() - k,
{
    if k < 0 || k >= steps.len() {
        Ok(capacity - current)
    } else {
        let next = if current + steps[k].2 > usize::MAX { usize::MAX as int } else { current + steps[k].2 };
        if next > capacity {
            Err((steps[k].0, capacity - current))
        } else {
            truncate_walk(steps, k + 1, next, capacity)
        }
    }
}

/// Attempt to fit `input` into `capacity` columns.
///
/// - `Ok` holds the capacity that remains when the input fits.
/// - `Err` holds the longest prefix of `input` made of whole graphemes that fits, and the
///   capacity that remains after it because the next grapheme is too wide.
pub fn truncate<'a, P: Processor>(input: &'a str, capacity: u16) -> (r: Result<u16, (&'a str, usize)>)
    requires
        P::accepts(input@),
    ensures
        match r {
            Ok(v) => truncate_result(P::spec_width(input@), P::spec_steps(input@), capacity as int)
                == Ok::<int, (int, int)>(v as int),
            Err((prefix, a)) => {
                let t = truncate_result(P::spec_width(input@), P::spec_steps(input@), capacity as int);
                &&& t is Err
                &&& 0 <= t->Err_0.0 <= input@.len()
                &&& prefix@ == input@.take(t->Err_0.0)
                &&& a == t->Err_0.1
            },
        },
{
    let w = P::width(input);
    if w <= capacity as usize {
        return Ok((capacity as usize - w) as u16);
    }
    let steps = P::grapheme_index_widths(input);
    let ghost st = P::spec_steps(input@);
    let n = steps.len();
    let mut current: usize = 0;
    let mut k: usize = 0;
    while k < n
        invariant
            n == steps@.len(),
            n == st.len(),
            st == P::spec_steps(input@),
            steps_ok(input@, st),
            forall|j: int| 0 <= j < n ==> (#[trigger] steps@[j]).0 == st[j].1 && steps@[j].1 == st[j].2,
            k <= n,
            P::spec_width(input@) > capacity,
            current <= capacity,
            truncate_walk(st, 0, 0, capacity as int) == truncate_walk(st, k as int, current as int, capacity as int),
        decreases n - k,
    {
        let next = current.saturating_add(steps[k].1);
        if next > capacity as usize {
            let chars = str_chars(input);
            let c = char_index(chars.as_slice(), steps[k].0);
            proof {
                lemma_char_index_at_boundary(input@, st[k as int].0);
            }
            let prefix = input.substring_char(0, c);
            proof {
                assert(steps@[k as int].0 == st[k as int].1);
                assert(truncate_result(P::spec_width(input@), st, capacity as int) == truncate_walk(
                    st,
                    0,
                    0,
                    capacity as int,
                ));
                assert(truncate_walk(st, k as int, current as int, capacity as int) == Err::<
                    int,
                    (int, int),
                >((st[k as int].0, capacity - current)));
                assert(prefix@ =~= input@.take(st[k as int].0));
            }
            return Err((prefix, capacity as usize - current));
        }
        current = next;
        k = k + 1;
    }
    Ok(capacity - current as u16)
}

/// Consume a prefix of whole graphemes from `input` until their width reaches `offset`. Returns the
/// byte index of the first grapheme not consumed and the number of columns by which the consumed
/// graphemes exceed `offset`.
pub fn consume<P: Processor>(input: &str, offset: usize) -> (r: (usize, usize))
    requires
        P::accepts(input@),
    ensures
        (r.0 as int, r.1 as int) == consume_result(P::spec_steps(input@), 0, 0, offset as int, byte_size(input@)),
        0 <= char_index_of_byte(input@, r.0 as int) <= input@.len(),
        r.0 == byte_size(input@.take(char_index_of_byte(input@, r.0 as int))),
{
    let steps = P::grapheme_index_widths(input);
    let ghost st = P::spec_steps(input@);
    let total = input.as_bytes().len();
    let n = steps.len();
    let mut initial: usize = 0;
    let mut k: usize = 0;
    while k < n
        invariant
            n == steps@.len(),
            n == st.len(),
            st == P::spec_steps(input@),
            total == byte_size(input@),
            forall|j: int| 0 <= j < n ==> (#[trigger] steps@[j]).0 == st[j].1 && steps@[j].1 == st[j].2,
            steps_ok(input@, st),
            k <= n,
            consume_result(st, 0, 0, offset as int, total as int) == consume_result(st, k as int, initial as int, offset as int, total as int),
        decreases n - k,
    {
        if initial >= offset {
            assert(steps@[k as int].0 == st[k as int].1);
            proof {
                lemma_char_index_at_boundary(input@, st[k as int].0);
            }
            assert(consume_result(st, k as int, initial as int, offset as int, total as int) == (
            st[k as int].1, initial - offset));
            return (steps[k].0, initial - offset);
        }
        initial = initial.saturating_add(steps[k].1);
        k = k + 1;
    }
    proof {
        assert(input@.take(input@.len() as int) =~= input@);
        lemma_char_index_at_boundary(input@, input@.len() as int);
    }
    (total, initial.saturating_sub(offset))
}

/// A span of rendered text, as a range of byte offsets, highlighted or not.
#[derive(Debug, PartialEq)]
pub struct Span {
    /// The byte range of the span.
    pub range: Range<usize>,
    /// Whether the span is part of a match.
    pub is_match: bool,
}

/// The index where the run of consecutive values of `ix` that starts at `c` ends.
pub open spec fn run_end(ix: Seq<u32>, c: int) -> int
    decreases ix.len() - c,
{
    if 0 <= c && c + 1 < ix.len() && ix[c + 1] == ix[c] + 1 {
        run_end(ix, c + 1)
    } else {
        c + 1
    }
}

/// A run ends after it starts, within the indices, and holds consecutive values.
pub proof fn lemma_run_end(ix: Seq<u32>, c: int)
    requires
        0 <= c < ix.len(),
    ensures
        c < run_end(ix, c) <= ix.len(),
        ix[run_end(ix, c) - 1] == ix[c] + (run_end(ix, c) - 1 - c),
    decreases ix.len() - c,
{
    if c + 1 < ix.len() && ix[c + 1] == ix[c] + 1 {
        lemma_run_end(ix, c + 1);
    }
}

/// The runs of consecutive values in `ix` from index `c` on, as pairs of first and last value.
pub open spec fn runs_from(ix: Seq<u32>, c: int) -> Seq<(int, int)>
    decreases ix.len() - c,
{
    if c < 0 || c >= ix.len() {
        Seq::empty()
    } else {
        let e = run_end(ix, c);
        if e <= c || e > ix.len() {
            Seq::empty()
        } else {
            seq![(ix[c] as int, ix[e - 1] as int)] + runs_from(ix, e)
        }
    }
}

/// The runs of consecutive indices in a slice of indices.
pub struct IndexSpans<'a> {
    indices: &'a [u32],
    cursor: usize,
}

impl<'a> IndexSpans<'a> {
    /// The indices.
    pub closed spec fn ix(&self) -> Seq<u32> {
        self.indices@
    }

    /// The position of the next run.
    pub closed spec fn at(&self) -> int {
        self.cursor as int
    }

    /// Start at the first index.
    pub fn new(indices: &'a [u32]) -> (r: Self)
        ensures
            r.ix() == indices@,
            r.at() == 0,
    {
        Self { indices, cursor: 0 }
    }

    /// The position of the next run.
    pub fn cursor(&self) -> (r: usize)
        ensures
            r == self.at(),
    {
        self.cursor
    }

    /// The next run of consecutive indices, as its first and last index.
    pub fn next(&mut self) -> (r: Option<(usize, usize)>)
        ensures
            final(self).ix() == old(self).ix(),
            old(self).at() >= old(self).ix().len() ==> r is None && final(self).at() == old(self).at(),
            old(self).at() < old(self).ix().len() ==> {
                let e = run_end(old(self).ix(), old(self).at());
                &&& r == Some(
                    (old(self).ix()[old(self).at()] as usize, old(self).ix()[e - 1] as usize),
                )
                &&& final(self).at() == e
            },
    {
        let n = self.indices.len();
        if self.cursor >= n {
            return None;
        }
        let first = self.indices[self.cursor];
        let mut last = first;
        let ghost c0 = self.cursor as int;
        let mut cursor = self.cursor + 1;
        while cursor < n && last < u32::MAX && self.indices[cursor] == last + 1
            invariant
                n == self.indices@.len(),
                0 <= c0 < cursor <= n,
                last == self.indices@[cursor - 1],
                first == self.indices@[c0],
                run_end(self.indices@, c0) == run_end(self.indices@, cursor - 1),
            decreases n - cursor,
        {
            assert(run_end(self.indices@, cursor - 1) == run_end(self.indices@, cursor as int));
            last = last + 1;
            cursor = cursor + 1;
        }
        self.cursor = cursor;
        Some((first as usize, last as usize))
    }
}

/// The first newline in `t` from `a` (inclusive) to `b` (exclusive), or `b` if there is none.
pub open spec fn first_newline(t: Seq<char>, a: int, b: int) -> int
    decreases b - a,
{
    if a >= b {
        b
    } else if t[a] == '\n' {
        a
    } else {
        first_newline(t, a + 1, b)
    }
}

/// The pieces of an unmatched block of `t` from character `a` to `b`: it is cut at each
/// newline, a carriage return just before a newline is dropped, and empty pieces are left out.
/// Each item is `(start, end, kind)`: kind 0 is an unmatched piece, kind 2 a line break.
pub open spec fn block_items(t: Seq<char>, a: int, b: int) -> Seq<(int, int, int)>
    decreases b - a,
{
    if a >= b {
        Seq::empty()
    } else {
        let p = first_newline(t, a, b);
        if p >= b || p < a {
            seq![(a, b, 0)]
        } else {
            let e = if p > a && t[p - 1] == '\r' {
                p - 1
            } else {
                p
            };
            let head = if a < e {
                seq![(a, e, 0)]
            } else {
                Seq::empty()
            };
            head + seq![(p, p, 2)] + block_items(t, p + 1, b)
        }
    }
}

/// The items of a whole text, given its grapheme steps and the runs of matched graphemes still
/// to come, from character `start` on: each run of matched graphemes becomes one matched piece
/// (kind 1), and the text between runs is cut as by `block_items`.
pub open spec fn span_items(
    t: Seq<char>,
    steps: Seq<(int, int, int)>,
    runs: Seq<(int, int)>,
    start: int,
) -> Seq<(int, int, int)>
    decreases runs.len(),
{
    if runs.len() == 0 {
        block_items(t, start, t.len() as int)
    } else {
        let l = runs[0].0;
        let r = runs[0].1;
        let m = steps[l].0;
        let e = if r + 1 < steps.len() {
            steps[r + 1].0
        } else {
            t.len() as int
        };
        block_items(t, start, m) + (if m != e {
            seq![(m, e, 1)]
        } else {
            Seq::empty()
        }) + span_items(t, steps, runs.drop_first(), e)
    }
}

/// The pieces among the items.
pub open spec fn pieces(items: Seq<(int, int, int)>) -> Seq<(int, int, int)>
    decreases items.len(),
{
    if items.len() == 0 {
        Seq::empty()
    } else if items.last().2 == 2 {
        pieces(items.drop_last())
    } else {
        pieces(items.drop_last()).push(items.last())
    }
}

/// The index of the first piece of the line that is still open after the items.
pub open spec fn line_start(items: Seq<(int, int, int)>) -> int
    decreases items.len(),
{
    if items.len() == 0 {
        0
    } else if items.last().2 == 2 {
        pieces(items.drop_last()).len() as int
    } else {
        line_start(items.drop_last())
    }
}

/// The lines closed by the line breaks among the items, as ranges of piece indices.
pub open spec fn closed_lines(items: Seq<(int, int, int)>) -> Seq<(int, int)>
    decreases items.len(),
{
    if items.len() == 0 {
        Seq::empty()
    } else if items.last().2 == 2 {
        closed_lines(items.drop_last()).push(
            (line_start(items.drop_last()), pieces(items.drop_last()).len() as int),
        )
    } else {
        closed_lines(items.drop_last())
    }
}

/// All lines of the items: the closed ones and the last one.
pub open spec fn all_lines(items: Seq<(int, int, int)>) -> Seq<(int, int)> {
    closed_lines(items).push((line_start(items), pieces(items).len() as int))
}

/// A span holds the bytes of a piece of `t`.
pub open spec fn span_holds(sp: Span, t: Seq<char>, it: (int, int, int)) -> bool {
    &&& sp.range.start == byte_size(t.take(it.0))
    &&& sp.range.end == byte_size(t.take(it.1))
    &&& sp.is_match == (it.2 == 1)
}

/// The spans hold the pieces of the items.
pub open spec fn spans_hold(spans: Seq<Span>, t: Seq<char>, items: Seq<(int, int, int)>) -> bool {
    &&& spans.len() == pieces(items).len()
    &&& forall|k: int| 0 <= k < spans.len() ==> span_holds(#[trigger] spans[k], t, pieces(items)[k])
}

/// The line ranges hold the given lines.
pub open spec fn lines_hold(lines: Seq<Range<usize>>, ls: Seq<(int, int)>) -> bool {
    &&& lines.len() == ls.len()
    &&& forall|k: int|
        0 <= k < lines.len() ==> (#[trigger] lines[k]).start == ls[k].0 && lines[k].end == ls[k].1
}

/// The spans and lines built so far hold the items.
pub open spec fn built(
    spans: Seq<Span>,
    lines: Seq<Range<usize>>,
    ls: int,
    le: int,
    t: Seq<char>,
    items: Seq<(int, int, int)>,
) -> bool {
    &&& spans_hold(spans, t, items)
    &&& lines_hold(lines, closed_lines(items))
    &&& ls == line_start(items)
    &&& le == pieces(items).len()
}

/// The pieces of the items lie in order within `[0, bound]`, and each line is a range of
/// pieces.
pub open spec fn in_order(items: Seq<(int, int, int)>, bound: int, n: int) -> bool {
    &&& 0 <= bound <= n
    &&& forall|k: int|
        0 <= k < pieces(items).len() ==> 0 <= (#[trigger] pieces(items)[k]).0 <= pieces(items)[k].1
            <= bound
    &&& forall|j: int, k: int|
        0 <= j < k < pieces(items).len() ==> (#[trigger] pieces(items)[j]).1 <= (#[trigger] pieces(
            items,
        )[k]).0
    &&& forall|k: int|
        0 <= k < closed_lines(items).len() ==> 0 <= (#[trigger] closed_lines(items)[k]).0
            <= closed_lines(items)[k].1 <= pieces(items).len()
    &&& 0 <= line_start(items) <= pieces(items).len()
}

/// The byte offset of each character boundary of `t`.
fn byte_table(t: &[char], total: usize) -> (r: Vec<usize>)
    requires
        total == byte_size(t@),
    ensures
        r@.len() == t@.len() + 1,
        forall|i: int| 0 <= i <= t@.len() ==> r@[i] == byte_size(t@.take(i)),
{
    let n = t.len();
    let mut r: Vec<usize> = Vec::new();
    let mut b: usize = 0;
    let mut i: usize = 0;
    assert(t@.take(0) =~= Seq::<char>::empty());
    assert(t@.take(n as int) =~= t@);
    while i < n
        invariant
            n == t@.len(),
            total == byte_size(t@),
            t@.take(n as int) == t@,
            i <= n,
            r@.len() == i,
            b == byte_size(t@.take(i as int)),
            forall|j: int| 0 <= j < i ==> r@[j] == byte_size(t@.take(j)),
        decreases n - i,
    {
        r.push(b);
        proof {
            lemma_byte_size_take(t@, i as int);
            lemma_byte_size_mono(t@, i as int + 1, n as int);
        }
        b = b + utf8_len(t[i]);
        i = i + 1;
    }
    r.push(b);
    r
}

/// Add an item to the spans and lines built so far.
fn push_item(
    spans: &mut Vec<Span>,
    lines: &mut Vec<Range<usize>>,
    ls: &mut usize,
    le: &mut usize,
    bytes: &Vec<usize>,
    t: &[char],
    item: (usize, usize, usize),
    Ghost(items): Ghost<Seq<(int, int, int)>>,
    Ghost(bound): Ghost<int>,
)
    requires
        built(old(spans)@, old(lines)@, *old(ls) as int, *old(le) as int, t@, items),
        in_order(items, bound, t@.len() as int),
        bytes@.len() == t@.len() + 1,
        forall|i: int| 0 <= i <= t@.len() ==> bytes@[i] == byte_size(t@.take(i)),
        item.0 <= item.1 <= t@.len(),
        item.2 <= 2,
        item.2 != 2 ==> bound <= item.0,
    ensures
        built(
            final(spans)@,
            final(lines)@,
            *final(ls) as int,
            *final(le) as int,
            t@,
            items.push((item.0 as int, item.1 as int, item.2 as int)),
        ),
        in_order(
            items.push((item.0 as int, item.1 as int, item.2 as int)),
            if item.2 == 2 { bound } else { item.1 as int },
            t@.len() as int,
        ),
{
    let ghost it = (item.0 as int, item.1 as int, item.2 as int);
    let ghost next = items.push(it);
    assert(next.drop_last() =~= items);
    assert(next.last() == it);
    if item.2 == 2 {
        lines.push(Range { start: *ls, end: *le });
        *ls = *le;
        assert(closed_lines(next) == closed_lines(items).push((line_start(items), pieces(items).len() as int)));
    } else {
        spans.push(Span { range: Range { start: bytes[item.0], end: bytes[item.1] }, is_match: item.2 == 1 });
        *le = spans.len();
        assert(pieces(next) == pieces(items).push(it));
        assert forall|k: int| 0 <= k < spans@.len() implies span_holds(#[trigger] spans@[k], t@, pieces(next)[k]) by {
            if k < spans@.len() - 1 {
                assert(spans@[k] == old(spans)@[k]);
            }
        }
    }
}

/// Add the items of an unmatched block of `t` from character `a` to `b`.
fn push_block(
    spans: &mut Vec<Span>,
    lines: &mut Vec<Range<usize>>,
    ls: &mut usize,
    le: &mut usize,
    bytes: &Vec<usize>,
    t: &[char],
    a: usize,
    b: usize,
    Ghost(items): Ghost<Seq<(int, int, int)>>,
    Ghost(bound): Ghost<int>,
)
    requires
        built(old(spans)@, old(lines)@, *old(ls) as int, *old(le) as int, t@, items),
        in_order(items, bound, t@.len() as int),
        bound <= a,
        bytes@.len() == t@.len() + 1,
        forall|i: int| 0 <= i <= t@.len() ==> bytes@[i] == byte_size(t@.take(i)),
        a <= b <= t@.len(),
    ensures
        built(
            final(spans)@,
            final(lines)@,
            *final(ls) as int,
            *final(le) as int,
            t@,
            items + block_items(t@, a as int, b as int),
        ),
        in_order(items + block_items(t@, a as int, b as int), b as int, t@.len() as int),
{
    let ghost target = items + block_items(t@, a as int, b as int);
    let ghost mut cur = items;
    let mut span_start = a;
    let mut i = a;
    assert(cur + block_items(t@, span_start as int, b as int) == target);
    assert(in_order(cur, span_start as int, t@.len() as int));
    while i < b
        invariant
            bytes@.len() == t@.len() + 1,
            forall|j: int| 0 <= j <= t@.len() ==> bytes@[j] == byte_size(t@.take(j)),
            b <= t@.len(),
            span_start <= i <= b,
            built(spans@, lines@, *ls as int, *le as int, t@, cur),
            in_order(cur, span_start as int, t@.len() as int),
            cur + block_items(t@, span_start as int, b as int) == target,
            first_newline(t@, span_start as int, b as int) == first_newline(t@, i as int, b as int),
        decreases b - i,
    {
        if t[i] == '\n' {
            let e = if i > span_start && t[i - 1] == '\r' {
                i - 1
            } else {
                i
            };
            let ghost head = if span_start < e {
                seq![(span_start as int, e as int, 0int)]
            } else {
                Seq::empty()
            };
            assert(block_items(t@, span_start as int, b as int) == head + seq![(i as int, i as int, 2int)]
                + block_items(t@, i + 1, b as int));
            if span_start < e {
                push_item(spans, lines, ls, le, bytes, t, (span_start, e, 0), Ghost(cur), Ghost(span_start as int));
                proof {
                    cur = cur.push((span_start as int, e as int, 0int));
                }
            }
            let ghost bd: int = if span_start < e { e as int } else { span_start as int };
            push_item(spans, lines, ls, le, bytes, t, (i, i, 2), Ghost(cur), Ghost(bd));
            proof {
                let before = cur;
                cur = cur.push((i as int, i as int, 2int));
                assert(cur + block_items(t@, i + 1, b as int) =~= target);
            }
            span_start = i + 1;
        } else {
            assert(first_newline(t@, i as int, b as int) == first_newline(t@, i + 1, b as int));
        }
        i = i + 1;
    }
    if span_start != b {
        assert(block_items(t@, span_start as int, b as int) == seq![(span_start as int, b as int, 0int)]);
        push_item(spans, lines, ls, le, bytes, t, (span_start, b, 0), Ghost(cur), Ghost(span_start as int));
        proof {
            assert(cur.push((span_start as int, b as int, 0int)) =~= target);
        }
    } else {
        assert(block_items(t@, span_start as int, b as int) =~= Seq::<(int, int, int)>::empty());
        assert(cur =~= target);
    }
}

/// Runs start where the previous one ended, and their indices increase.
proof fn lemma_runs_unfold(ix: Seq<u32>, c: int)
    requires
        0 <= c < ix.len(),
    ensures
        runs_from(ix, c).len() > 0,
        runs_from(ix, c)[0] == (ix[c] as int, ix[run_end(ix, c) - 1] as int),
        runs_from(ix, c).drop_first() == runs_from(ix, run_end(ix, c)),
{
    lemma_run_end(ix, c);
    let e = run_end(ix, c);
    assert((seq![(ix[c] as int, ix[e - 1] as int)] + runs_from(ix, e)).drop_first() =~= runs_from(
        ix,
        e,
    ));
}

/// Compute the spans and lines of `rendered` with the graphemes at the given indices
/// highlighted: see `span_items` for the spans, which hold byte ranges, and `all_lines` for the
/// lines, which are ranges of consecutive spans. Both buffers are cleared first.
pub fn spans_from_indices<P: Processor>(
    indices: &[u32],
    rendered: &str,
    spans: &mut Vec<Span>,
    lines: &mut Vec<Range<usize>>,
)
    requires
        P::accepts(rendered@),
        forall|j: int, k: int| 0 <= j < k < indices@.len() ==> indices@[j] < indices@[k],
        forall|k: int| 0 <= k < indices@.len() ==> indices@[k] < P::spec_steps(rendered@).len(),
    ensures
        spans_hold(
            final(spans)@,
            rendered@,
            span_items(rendered@, P::spec_steps(rendered@), runs_from(indices@, 0), 0),
        ),
        lines_hold(
            final(lines)@,
            all_lines(span_items(rendered@, P::spec_steps(rendered@), runs_from(indices@, 0), 0)),
        ),
        in_order(
            span_items(rendered@, P::spec_steps(rendered@), runs_from(indices@, 0), 0),
            rendered@.len() as int,
            rendered@.len() as int,
        ),
{
    spans.clear();
    lines.clear();
    let chars = str_chars(rendered);
    let ghost t = rendered@;
    let n = chars.len();
    let steps = P::grapheme_index_widths(rendered);
    let ghost st = P::spec_steps(rendered@);
    let total = rendered.as_bytes().len();
    let bytes = byte_table(chars.as_slice(), total);
    let ghost ix = indices@;
    let ghost target = span_items(t, st, runs_from(ix, 0), 0);
    let mut is = IndexSpans::new(indices);
    let mut start: usize = 0;
    let mut ls: usize = 0;
    let mut le: usize = 0;
    let ghost mut cur: Seq<(int, int, int)> = Seq::empty();
    proof {
        assert(line_start(cur) == 0);
        assert(closed_lines(cur) =~= Seq::<(int, int)>::empty());
        assert(pieces(cur) =~= Seq::<(int, int, int)>::empty());
        assert(spans@ =~= Seq::<Span>::empty());
        assert(lines@ =~= Seq::<Range<usize>>::empty());
        assert(cur + target =~= target);
    }
    let count = steps.len();
    loop
        invariant
            chars@ == t,
            t == rendered@,
            n == t.len(),
            st == P::spec_steps(rendered@),
            count == st.len(),
            count == steps@.len(),
            steps_ok(t, st),
            forall|j: int| 0 <= j < count ==> (#[trigger] steps@[j]).0 == st[j].1 && steps@[j].1 == st[j].2,
            bytes@.len() == t.len() + 1,
            forall|i: int| 0 <= i <= t.len() ==> bytes@[i] == byte_size(t.take(i)),
            ix == indices@,
            is.ix() == ix,
            0 <= is.at() <= ix.len(),
            forall|j: int, k: int| 0 <= j < k < ix.len() ==> ix[j] < ix[k],
            forall|k: int| 0 <= k < ix.len() ==> ix[k] < count,
            start <= n,
            forall|k: int| is.at() <= k < ix.len() ==> start <= #[trigger] st[ix[k] as int].0,
            built(spans@, lines@, ls as int, le as int, t, cur),
            in_order(cur, start as int, n as int),
            cur + span_items(t, st, runs_from(ix, is.at()), start as int) == target,
        ensures
            in_order(cur, start as int, n as int),
            is.at() >= ix.len(),
            built(spans@, lines@, ls as int, le as int, t, cur),
            cur + span_items(t, st, runs_from(ix, is.at()), start as int) == target,
            start <= n,
        decreases ix.len() - is.at(),
    {
        let ghost c = is.at();
        match is.next() {
            Some((left, right)) => {
                proof {
                    lemma_runs_unfold(ix, c);
                    lemma_run_end(ix, c);
                    assert(ix[c] < count);
                    assert(ix[run_end(ix, c) - 1] < count);
                }
                let ghost e_run = run_end(ix, c);
                let ghost runs = runs_from(ix, c);
                let m = char_index(chars.as_slice(), steps[left].0);
                proof {
                    assert(steps@[left as int].0 == st[left as int].1);
                    lemma_char_index_at_boundary(t, st[left as int].0);
                    assert(start <= st[ix[c] as int].0);
                }
                let e = if right + 1 < count {
                    let x = char_index(chars.as_slice(), steps[right + 1].0);
                    proof {
                        assert(steps@[right + 1].0 == st[right + 1].1);
                        lemma_char_index_at_boundary(t, st[right + 1].0);
                        assert(st[left as int].0 < st[right + 1].0);
                    }
                    x
                } else {
                    n
                };
                assert(span_items(t, st, runs, start as int) == block_items(t, start as int, m as int)
                    + (if m != e {
                    seq![(m as int, e as int, 1int)]
                } else {
                    Seq::empty()
                }) + span_items(t, st, runs.drop_first(), e as int));
                push_block(spans, lines, &mut ls, &mut le, &bytes, chars.as_slice(), start, m, Ghost(cur), Ghost(start as int));
                proof {
                    cur = cur + block_items(t, start as int, m as int);
                }
                proof {
                    assert(in_order(cur, m as int, n as int));
                }
                if m != e {
                    push_item(spans, lines, &mut ls, &mut le, &bytes, chars.as_slice(), (m, e, 1), Ghost(cur), Ghost(m as int));
                    proof {
                        cur = cur.push((m as int, e as int, 1int));
                    }
                }
                proof {
                    assert(cur + span_items(t, st, runs_from(ix, is.at()), e as int) =~= target);
                    assert forall|k: int| is.at() <= k < ix.len() implies e <= #[trigger] st[ix[k] as int].0 by {
                        assert(ix[e_run - 1] < ix[k]);
                        if right + 1 < count {
                            if ix[k] as int > right + 1 {
                                assert(st[right + 1].0 < st[ix[k] as int].0);
                            }
                        }
                    }
                }
                start = e;
            },
            None => {
                break;
            },
        }
    }
    proof {
        assert(runs_from(ix, is.at()) =~= Seq::<(int, int)>::empty());
    }
    push_block(spans, lines, &mut ls, &mut le, &bytes, chars.as_slice(), start, n, Ghost(cur), Ghost(start as int));
    proof {
        cur = cur + block_items(t, start as int, n as int);
        assert(cur =~= target);
    }
    lines.push(Range { start: ls, end: le });
}

} // verus!
