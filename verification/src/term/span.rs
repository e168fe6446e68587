//! Rendered items cut into highlighted and plain spans, line by line, and the room they need on
//! screen.
use std::marker::PhantomData;
use std::ops::Range;

use vstd::prelude::*;

use super::unicode::{
    all_lines, consume, consume_result, in_order, lines_hold, pieces, runs_from, span_items,
    spans_from_indices, spans_hold, truncate, truncate_result, Processor, Span,
};
use crate::segment::{
    byte_size, char_index, char_index_of_byte, lemma_byte_size_mono, lemma_char_index_at_boundary,
    lemma_encode_concat,
};
use crate::text::str_chars;

verus! {

/// Which lines of an item to keep.
pub trait KeepLines: Sized {
    /// The first kept line of `n` lines.
    spec fn keep_from(&self, n: int) -> int;

    /// The end of the kept lines of `n` lines.
    spec fn keep_to(&self, n: int) -> int;

    /// Whether lines can be kept this way out of `n` lines.
    spec fn keeps(&self, n: int) -> bool;

    /// Keep `offset` lines.
    fn from_offset(offset: u16) -> Self;

    /// The kept lines.
    fn subslice<'a>(&self, lines: &'a [Range<usize>]) -> (r: &'a [Range<usize>])
        requires
            self.keeps(lines@.len() as int),
        ensures
            0 <= self.keep_from(lines@.len() as int) <= self.keep_to(lines@.len() as int)
                <= lines@.len(),
            r@ == lines@.subrange(
                self.keep_from(lines@.len() as int),
                self.keep_to(lines@.len() as int),
            ),
    ;
}

/// Keep the last lines.
pub struct Tail(usize);

impl KeepLines for Tail {
    closed spec fn keep_from(&self, n: int) -> int {
        n - self.0
    }

    closed spec fn keep_to(&self, n: int) -> int {
        n
    }

    closed spec fn keeps(&self, n: int) -> bool {
        self.0 <= n
    }

    fn from_offset(offset: u16) -> (r: Self)
        ensures
            forall|n: int|
                #![trigger r.keeps(n)]
                #![trigger r.keep_from(n)]
                #![trigger r.keep_to(n)]
                (r.keeps(n) <==> offset <= n) && r.keep_from(n) == n - offset && r.keep_to(n) == n,
    {
        Self(offset as usize)
    }

    fn subslice<'a>(&self, lines: &'a [Range<usize>]) -> (r: &'a [Range<usize>]) {
        let n = lines.len();
        vstd::slice::slice_subrange(lines, n - self.0, n)
    }
}

/// Keep the first lines.
pub struct Head(usize);

impl KeepLines for Head {
    closed spec fn keep_from(&self, n: int) -> int {
        0
    }

    closed spec fn keep_to(&self, n: int) -> int {
        self.0 as int
    }

    closed spec fn keeps(&self, n: int) -> bool {
        self.0 <= n
    }

    fn from_offset(offset: u16) -> (r: Self)
        ensures
            forall|n: int|
                #![trigger r.keeps(n)]
                #![trigger r.keep_from(n)]
                #![trigger r.keep_to(n)]
                (r.keeps(n) <==> offset <= n) && r.keep_from(n) == 0 && r.keep_to(n) == offset,
    {
        Self(offset as usize)
    }

    fn subslice<'a>(&self, lines: &'a [Range<usize>]) -> (r: &'a [Range<usize>]) {
        vstd::slice::slice_subrange(lines, 0, self.0)
    }
}

/// Keep all lines.
pub struct All;

impl KeepLines for All {
    open spec fn keep_from(&self, n: int) -> int {
        0
    }

    open spec fn keep_to(&self, n: int) -> int {
        n
    }

    open spec fn keeps(&self, n: int) -> bool {
        true
    }

    fn from_offset(offset: u16) -> (r: Self) {
        Self
    }

    fn subslice<'a>(&self, lines: &'a [Range<usize>]) -> (r: &'a [Range<usize>]) {
        assert(lines@.subrange(0, lines@.len() as int) =~= lines@);
        lines
    }
}

/// The character index where a span starts.
pub open spec fn start_char(t: Seq<char>, sp: Span) -> int {
    char_index_of_byte(t, sp.range.start as int)
}

/// The character index where a span ends.
pub open spec fn end_char(t: Seq<char>, sp: Span) -> int {
    char_index_of_byte(t, sp.range.end as int)
}

/// The spans lie at character boundaries of `t`, in order, and each line is a range of spans.
pub open spec fn spans_ok(t: Seq<char>, spans: Seq<Span>, lines: Seq<Range<usize>>) -> bool {
    &&& forall|k: int|
        0 <= k < spans.len() ==> {
            &&& 0 <= start_char(t, #[trigger] spans[k]) <= end_char(t, spans[k]) <= t.len()
            &&& spans[k].range.start == byte_size(t.take(start_char(t, spans[k])))
            &&& spans[k].range.end == byte_size(t.take(end_char(t, spans[k])))
        }
    &&& forall|j: int, k: int|
        0 <= j < k < spans.len() ==> end_char(t, #[trigger] spans[j]) <= start_char(
            t,
            #[trigger] spans[k],
        )
    &&& forall|k: int|
        0 <= k < lines.len() ==> (#[trigger] lines[k]).start <= lines[k].end <= spans.len()
}

/// The last highlighted span among spans `s` to `e`, or -1.
pub open spec fn last_match(spans: Seq<Span>, s: int, e: int) -> int
    decreases e - s,
{
    if e <= s {
        -1
    } else if spans[e - 1].is_match {
        e - 1
    } else {
        last_match(spans, s, e - 1)
    }
}

/// The first highlighted span among spans `s` to `e`, or -1.
pub open spec fn first_match(spans: Seq<Span>, s: int, e: int) -> int
    decreases e - s,
{
    if e <= s {
        -1
    } else if spans[s].is_match {
        s
    } else {
        first_match(spans, s + 1, e)
    }
}

/// The width needed by line `l`: that of its text up to the end of its last highlighted span.
pub open spec fn line_width<P: Processor>(t: Seq<char>, spans: Seq<Span>, l: Range<usize>) -> int {
    let j = last_match(spans, l.start as int, l.end as int);
    if j >= l.start {
        P::spec_width(t.subrange(start_char(t, spans[l.start as int]), end_char(t, spans[j])))
    } else {
        0
    }
}

/// The width needed by the first `k` lines.
pub open spec fn lines_width<P: Processor>(
    t: Seq<char>,
    spans: Seq<Span>,
    lines: Seq<Range<usize>>,
    k: int,
) -> int
    decreases k,
{
    if k <= 0 {
        0
    } else {
        let w = line_width::<P>(t, spans, lines[k - 1]);
        let prev = lines_width::<P>(t, spans, lines, k - 1);
        if w > prev {
            w
        } else {
            prev
        }
    }
}

/// The offset after reducing it over the first `k` lines so that it stays before the first
/// highlighted span of each, and whether some line forced it.
pub open spec fn sharp_offset<P: Processor>(
    t: Seq<char>,
    spans: Seq<Span>,
    lines: Seq<Range<usize>>,
    k: int,
    offset: int,
) -> (int, bool)
    decreases k,
{
    if k <= 0 {
        (offset, false)
    } else {
        let prev = sharp_offset::<P>(t, spans, lines, k - 1, offset);
        let l = lines[k - 1];
        let j = first_match(spans, l.start as int, l.end as int);
        if j >= l.start {
            let w = P::spec_width(
                t.subrange(start_char(t, spans[l.start as int]), start_char(t, spans[j])),
            );
            if w <= prev.0 {
                (w, true)
            } else {
                prev
            }
        } else {
            prev
        }
    }
}

/// The offset at which lines are printed so that highlighted spans are seen on a screen
/// `max_width` columns wide with `right_buffer` columns kept free (0 when nothing needs to move).
pub open spec fn offset_for<P: Processor>(
    t: Seq<char>,
    spans: Seq<Span>,
    lines: Seq<Range<usize>>,
    max_width: int,
    right_buffer: int,
) -> int {
    let sum = lines_width::<P>(t, spans, lines, lines.len() as int) + right_buffer;
    let sum = if sum > usize::MAX {
        usize::MAX as int
    } else {
        sum
    };
    if sum <= max_width {
        0
    } else {
        let s = sharp_offset::<P>(t, spans, lines, lines.len() as int, sum - max_width);
        let o = if s.1 {
            s.0
        } else if s.0 + 1 > usize::MAX {
            usize::MAX as int
        } else {
            s.0 + 1
        };
        if o == 1 {
            0
        } else {
            o
        }
    }
}

/// What to print of a line: ellipses, a span of the rendered text, or a move of the cursor.
#[derive(Debug, PartialEq)]
pub enum Piece {
    /// The ellipsis, this many times.
    Ellipsis(usize),
    /// The text in this byte range of the rendered text, highlighted or not.
    Text(Span),
    /// Move the cursor to this column of the screen.
    MoveToColumn(u16),
}

/// The piece that prints characters `a` to `b` of `t`.
pub open spec fn text_piece(t: Seq<char>, a: int, b: int, is_match: bool) -> Piece {
    Piece::Text(
        Span {
            range: Range { start: byte_size(t.take(a)) as usize, end: byte_size(t.take(b)) as usize },
            is_match,
        },
    )
}

/// What to print of spans `i` to `e`, span `i` starting at character `a` of `t`, with
/// `remaining` columns left on a line `capacity` columns wide; and the columns left after. A span
/// that does not fit is cut at a grapheme; the columns left after the cut are filled with
/// ellipses, or, when none is left, the last grapheme printed is overwritten by ellipses.
pub open spec fn span_pieces<P: Processor>(
    t: Seq<char>,
    sp: Seq<Span>,
    i: int,
    e: int,
    a: int,
    remaining: int,
    capacity: int,
) -> (Seq<Piece>, int)
    decreases e - i,
{
    if i < 0 || i >= e {
        (Seq::empty(), remaining)
    } else {
        let b = end_char(t, sp[i]);
        let sub = t.subrange(a, b);
        let m = sp[i].is_match;
        match truncate_result(P::spec_width(sub), P::spec_steps(sub), remaining) {
            Ok(v) => {
                let rest = span_pieces::<P>(t, sp, i + 1, e, start_char(t, sp[i + 1]), v, capacity);
                (seq![text_piece(t, a, b, m)] + rest.0, rest.1)
            },
            Err((k, left)) => {
                let cut = text_piece(t, a, a + k, m);
                if left > 0 {
                    (seq![cut, Piece::Ellipsis(left as usize)], 0)
                } else {
                    let u = P::spec_last_width(t.take(a + k));
                    let col = capacity + 2 - u;
                    (
                        seq![
                            cut,
                            Piece::MoveToColumn((if col >= 0 { col } else { 0 }) as u16),
                            Piece::Ellipsis(u as usize),
                        ],
                        0,
                    )
                }
            },
        }
    }
}

/// What to print of line `l` at `offset` columns on a line `capacity` columns wide, and the
/// columns left after: nothing on an empty line or screen; an ellipsis when the offset is not 0;
/// then the first span without the graphemes that cover the offset (ellipses standing for the
/// columns by which they exceed it), and the other spans, as far as they fit.
pub open spec fn line_plan<P: Processor>(
    t: Seq<char>,
    sp: Seq<Span>,
    l: Range<usize>,
    offset: int,
    capacity: int,
) -> (Seq<Piece>, int) {
    let s = l.start as int;
    let e = l.end as int;
    if s >= e || capacity == 0 {
        (Seq::empty(), capacity)
    } else {
        let lead: Seq<Piece> = if offset > 0 {
            seq![Piece::Ellipsis(1)]
        } else {
            Seq::empty()
        };
        let rem = if offset > 0 {
            capacity - 1
        } else {
            capacity
        };
        let first = sp[s];
        let sub = t.subrange(start_char(t, first), end_char(t, first));
        let consumed = consume_result(P::spec_steps(sub), 0, 0, offset, byte_size(sub));
        let align = consumed.1;
        if rem < align {
            (lead, rem)
        } else {
            let lead = if align > 0 {
                lead.push(Piece::Ellipsis(align as usize))
            } else {
                lead
            };
            let a = start_char(t, first) + char_index_of_byte(sub, consumed.0);
            let rest = span_pieces::<P>(t, sp, s, e, a, rem - align, capacity);
            (lead + rest.0, rest.1)
        }
    }
}

/// Every line fits in `w` bytes.
pub open spec fn lines_fit_bytes(sp: Seq<Span>, ls: Seq<Range<usize>>, w: int) -> bool {
    forall|k: int|
        0 <= k < ls.len() && ls[k].start < ls[k].end ==> sp[ls[k].end - 1].range.end
            - sp[ls[k].start as int].range.start <= w
}

/// Every span of line `l`, printed whole.
pub open spec fn line_full(sp: Seq<Span>, l: Range<usize>) -> Seq<Piece> {
    sp.subrange(l.start as int, l.end as int).map_values(|x: Span| Piece::Text(x))
}

/// The bytes of the first `a + k` characters are those of the first `a`, and of the first `k`
/// characters from `a` on.
proof fn lemma_byte_size_split(t: Seq<char>, a: int, b: int, k: int)
    requires
        0 <= a <= b <= t.len(),
        0 <= k <= b - a,
    ensures
        byte_size(t.take(a + k)) == byte_size(t.take(a)) + byte_size(t.subrange(a, b).take(k)),
{
    assert(t.take(a + k) =~= t.take(a) + t.subrange(a, b).take(k));
    lemma_encode_concat(t.take(a), t.subrange(a, b).take(k));
}

/// Rendered text with its spans and lines.
#[derive(Debug)]
pub struct Spanned<'a, P> {
    rendered: &'a str,
    spans: &'a [Span],
    lines: &'a [Range<usize>],
    _marker: PhantomData<P>,
}

/// An iterator over the lines of a [`Spanned`], each as its slice of spans.
pub struct SpannedLines<'a> {
    lines: &'a [Range<usize>],
    spans: &'a [Span],
    next: usize,
}

impl<'a> SpannedLines<'a> {
    /// The lines still to come.
    pub closed spec fn rest(&self) -> Seq<Range<usize>> {
        self.lines@.skip(self.next as int)
    }

    /// The spans the lines index.
    pub closed spec fn all_spans(&self) -> Seq<Span> {
        self.spans@
    }

    /// Each line is a range of spans.
    pub closed spec fn wf(&self) -> bool {
        &&& self.next <= self.lines@.len()
        &&& forall|k: int|
            0 <= k < self.lines@.len() ==> (#[trigger] self.lines@[k]).start <= self.lines@[k].end
                <= self.spans@.len()
    }

    /// The spans of the next line.
    pub fn next(&mut self) -> (r: Option<&'a [Span]>)
        requires
            old(self).wf(),
        ensures
            final(self).wf(),
            final(self).all_spans() == old(self).all_spans(),
            old(self).rest().len() == 0 ==> r is None && final(self).rest() == old(self).rest(),
            old(self).rest().len() > 0 ==> {
                let l = old(self).rest()[0];
                &&& r matches Some(sl) && sl@ == old(self).all_spans().subrange(
                    l.start as int,
                    l.end as int,
                )
                &&& final(self).rest() == old(self).rest().drop_first()
            },
    {
        if self.next < self.lines.len() {
            let l = &self.lines[self.next];
            let r = vstd::slice::slice_subrange(self.spans, l.start, l.end);
            assert(self.lines@.skip(self.next as int)[0] == self.lines@[self.next as int]);
            self.next = self.next + 1;
            assert(old(self).rest().drop_first() =~= self.rest());
            Some(r)
        } else {
            None
        }
    }
}

impl<'a, P: Processor> Spanned<'a, P> {
    /// The rendered text.
    pub closed spec fn text(&self) -> Seq<char> {
        self.rendered@
    }

    /// The spans.
    pub closed spec fn span_seq(&self) -> Seq<Span> {
        self.spans@
    }

    /// The kept lines.
    pub closed spec fn line_seq(&self) -> Seq<Range<usize>> {
        self.lines@
    }

    /// The spans lie in order at character boundaries, and the text is one the processor is for.
    pub open spec fn wf(&self) -> bool {
        &&& spans_ok(self.text(), self.span_seq(), self.line_seq())
        &&& P::accepts(self.text())
    }

    /// Cut `rendered` into spans, highlighting the graphemes at `indices` (see
    /// `spans_from_indices`), and keep the lines that `keep_lines` selects.
    pub fn new<L: KeepLines>(
        indices: &[u32],
        rendered: &'a str,
        spans: &'a mut Vec<Span>,
        lines: &'a mut Vec<Range<usize>>,
        keep_lines: L,
    ) -> (r: Self)
        requires
            P::accepts(rendered@),
            forall|j: int, k: int| 0 <= j < k < indices@.len() ==> indices@[j] < indices@[k],
            forall|k: int|
                0 <= k < indices@.len() ==> indices@[k] < P::spec_steps(rendered@).len(),
            keep_lines.keeps(
                all_lines(
                    span_items(rendered@, P::spec_steps(rendered@), runs_from(indices@, 0), 0),
                ).len() as int,
            ),
        ensures
            r.wf(),
            r.text() == rendered@,
            spans_hold(
                r.span_seq(),
                rendered@,
                span_items(rendered@, P::spec_steps(rendered@), runs_from(indices@, 0), 0),
            ),
            ({
                let ls = all_lines(
                    span_items(rendered@, P::spec_steps(rendered@), runs_from(indices@, 0), 0),
                );
                lines_hold(
                    r.line_seq(),
                    ls.subrange(keep_lines.keep_from(ls.len() as int), keep_lines.keep_to(ls.len() as int)),
                )
            }),
    {
        spans_from_indices::<P>(indices, rendered, spans, lines);
        let ghost items = span_items(rendered@, P::spec_steps(rendered@), runs_from(indices@, 0), 0);
        let ghost t = rendered@;
        let spans: &'a Vec<Span> = spans;
        let lines: &'a Vec<Range<usize>> = lines;
        let kept = keep_lines.subslice(lines.as_slice());
        proof {
            let ps = pieces(items);
            assert forall|k: int| 0 <= k < spans@.len() implies {
                &&& 0 <= start_char(t, #[trigger] spans@[k]) <= end_char(t, spans@[k]) <= t.len()
                &&& spans@[k].range.start == byte_size(t.take(start_char(t, spans@[k])))
                &&& spans@[k].range.end == byte_size(t.take(end_char(t, spans@[k])))
            } by {
                assert(ps[k].0 <= ps[k].1);
                lemma_char_index_at_boundary(t, ps[k].0);
                lemma_char_index_at_boundary(t, ps[k].1);
            }
            assert forall|j: int, k: int| 0 <= j < k < spans@.len() implies end_char(
                t,
                #[trigger] spans@[j],
            ) <= start_char(t, #[trigger] spans@[k]) by {
                assert(ps[j].1 <= ps[k].0);
                assert(ps[j].0 <= ps[j].1 <= t.len());
                assert(ps[k].0 <= ps[k].1 <= t.len());
                lemma_char_index_at_boundary(t, ps[j].1);
                lemma_char_index_at_boundary(t, ps[k].0);
            }
            let all = all_lines(items);
            let a = keep_lines.keep_from(all.len() as int);
            assert forall|k: int| 0 <= k < kept@.len() implies (#[trigger] kept@[k]).start
                <= kept@[k].end <= spans@.len() by {
                assert(kept@[k] == lines@[a + k]);
                if a + k < all.len() - 1 {
                    assert(all[a + k] == crate::term::unicode::closed_lines(items)[a + k]);
                }
            }
        }
        Spanned { rendered, spans: spans.as_slice(), lines: kept, _marker: PhantomData }
    }

    /// The lines, each as its slice of spans.
    pub fn lines(&self) -> (r: SpannedLines<'a>)
        requires
            self.wf(),
        ensures
            r.wf(),
            r.rest() == self.line_seq(),
            r.all_spans() == self.span_seq(),
    {
        let r = SpannedLines { lines: self.lines, spans: self.spans, next: 0 };
        assert(self.lines@.skip(0) =~= self.lines@);
        r
    }

    /// The text of spans from the start of span `a` to the end (or start) of span `b`.
    fn text_between(&self, a: usize, b: usize, to_end: bool) -> (r: &'a str)
        requires
            self.wf(),
            a <= b < self.span_seq().len(),
        ensures
            r@ == self.text().subrange(
                start_char(self.text(), self.span_seq()[a as int]),
                if to_end {
                    end_char(self.text(), self.span_seq()[b as int])
                } else {
                    start_char(self.text(), self.span_seq()[b as int])
                },
            ),
            P::accepts(r@),
    {
        let chars = str_chars(self.rendered);
        let ghost t = self.text();
        let ghost sp = self.span_seq();
        let s = char_index(chars.as_slice(), self.spans[a].range.start);
        let e = if to_end {
            char_index(chars.as_slice(), self.spans[b].range.end)
        } else {
            char_index(chars.as_slice(), self.spans[b].range.start)
        };
        proof {
            assert(0 <= start_char(t, sp[a as int]) <= end_char(t, sp[a as int]) <= t.len());
            assert(0 <= start_char(t, sp[b as int]) <= end_char(t, sp[b as int]) <= t.len());
            if a < b {
                assert(end_char(t, sp[a as int]) <= start_char(t, sp[b as int]));
            }
            P::lemma_accepts_subrange(t, s as int, e as int);
        }
        self.rendered.substring_char(s, e)
    }

    /// Compute the maximum number of bytes over all lines.
    pub fn max_line_bytes(&self) -> (r: usize)
        requires
            self.wf(),
        ensures
            forall|k: int|
                0 <= k < self.line_seq().len() && self.line_seq()[k].start < self.line_seq()[k].end
                    ==> self.span_seq()[self.line_seq()[k].end - 1].range.end - self.span_seq()[self.line_seq()[k].start as int].range.start
                    <= r,
            r == 0 || exists|k: int|
                0 <= k < self.line_seq().len() && self.line_seq()[k].start < self.line_seq()[k].end
                    && r == self.span_seq()[self.line_seq()[k].end - 1].range.end - self.span_seq()[self.line_seq()[k].start as int].range.start,
    {
        let ghost t = self.text();
        let ghost sp = self.span_seq();
        let ghost ls = self.line_seq();
        let mut max_line_bytes: usize = 0;
        let n = self.lines.len();
        let mut i: usize = 0;
        while i < n
            invariant
                self.wf(),
                n == ls.len(),
                t == self.text(),
                sp == self.span_seq(),
                ls == self.line_seq(),
                i <= n,
                forall|k: int|
                    0 <= k < i && ls[k].start < ls[k].end ==> sp[ls[k].end - 1].range.end - sp[ls[k].start as int].range.start
                        <= max_line_bytes,
                max_line_bytes == 0 || exists|k: int|
                    0 <= k < i && ls[k].start < ls[k].end && max_line_bytes == sp[ls[k].end - 1].range.end - sp[ls[k].start as int].range.start,
            decreases n - i,
        {
            let l = &self.lines[i];
            if l.start < l.end {
                let first = &self.spans[l.start];
                let last = &self.spans[l.end - 1];
                proof {
                    let a = ls[i as int].start as int;
                    let b = ls[i as int].end - 1;
                    assert(start_char(t, sp[a]) <= end_char(t, sp[a]));
                    assert(start_char(t, sp[b]) <= end_char(t, sp[b]));
                    if a < b {
                        assert(end_char(t, sp[a]) <= start_char(t, sp[b]));
                    }
                    crate::segment::lemma_byte_size_mono(t, start_char(t, sp[a]), end_char(t, sp[b]));
                }
                let bytes = last.range.end - first.range.start;
                if bytes > max_line_bytes {
                    max_line_bytes = bytes;
                }
            }
            i = i + 1;
        }
        max_line_bytes
    }

    /// The width (possibly 0) needed to show every highlighted span: over all lines, the width of
    /// the text up to the end of its last highlighted span.
    pub fn required_width(&self) -> (r: usize)
        requires
            self.wf(),
        ensures
            r == lines_width::<P>(
                self.text(),
                self.span_seq(),
                self.line_seq(),
                self.line_seq().len() as int,
            ),
    {
        let ghost t = self.text();
        let ghost sp = self.span_seq();
        let ghost ls = self.line_seq();
        let mut required_width: usize = 0;
        let n = self.lines.len();
        let mut i: usize = 0;
        while i < n
            invariant
                self.wf(),
                n == ls.len(),
                t == self.text(),
                sp == self.span_seq(),
                ls == self.line_seq(),
                i <= n,
                required_width == lines_width::<P>(t, sp, ls, i as int),
            decreases n - i,
        {
            let s = self.lines[i].start;
            let mut j = self.lines[i].end;
            assert(last_match(sp, s as int, j as int) == last_match(sp, s as int, ls[i as int].end as int));
            while j > s && !self.spans[j - 1].is_match
                invariant
                    self.wf(),
                    t == self.text(),
                    sp == self.span_seq(),
                    ls == self.line_seq(),
                    i < n,
                    n == ls.len(),
                    s == ls[i as int].start,
                    s <= j <= ls[i as int].end,
                    ls[i as int].end <= sp.len(),
                    last_match(sp, s as int, j as int) == last_match(sp, s as int, ls[i as int].end as int),
                decreases j,
            {
                j = j - 1;
            }
            if j > s {
                let w = P::width(self.text_between(s, j - 1, true));
                if w > required_width {
                    required_width = w;
                }
            }
            i = i + 1;
        }
        required_width
    }

    /// The offset (in terminal columns) at which to print the lines: see `offset_for`. An
    /// ellipsis is printed whenever it is not 0.
    pub fn required_offset(&self, max_width: u16, right_buffer: u16) -> (r: usize)
        requires
            self.wf(),
        ensures
            r == offset_for::<P>(
                self.text(),
                self.span_seq(),
                self.line_seq(),
                max_width as int,
                right_buffer as int,
            ),
    {
        let ghost t = self.text();
        let ghost sp = self.span_seq();
        let ghost ls = self.line_seq();
        let sum = self.required_width().saturating_add(right_buffer as usize);
        if sum <= max_width as usize {
            return 0;
        }
        let mut offset = sum - max_width as usize;
        let mut is_sharp = false;
        let n = self.lines.len();
        let mut i: usize = 0;
        assert(sharp_offset::<P>(t, sp, ls, 0, (sum - max_width) as int) == (offset as int, is_sharp));
        while i < n
            invariant
                self.wf(),
                n == ls.len(),
                t == self.text(),
                sp == self.span_seq(),
                ls == self.line_seq(),
                i <= n,
                sum > max_width,
                sharp_offset::<P>(t, sp, ls, i as int, (sum - max_width) as int) == (offset as int, is_sharp),
            decreases n - i,
        {
            let e = self.lines[i].end;
            let mut j = self.lines[i].start;
            let ghost s = ls[i as int].start as int;
            assert(first_match(sp, j as int, e as int) == first_match(sp, s, e as int));
            while j < e && !self.spans[j].is_match
                invariant
                    self.wf(),
                    t == self.text(),
                    sp == self.span_seq(),
                    ls == self.line_seq(),
                    i < n,
                    n == ls.len(),
                    e == ls[i as int].end,
                    s <= j <= e,
                    e <= sp.len(),
                    first_match(sp, j as int, e as int) == first_match(sp, s, e as int),
                decreases e - j,
            {
                j = j + 1;
            }
            if j < e {
                let s0 = self.lines[i].start;
                let w = P::width(self.text_between(s0, j, false));
                if w <= offset {
                    offset = w;
                    is_sharp = true;
                }
            }
            i = i + 1;
        }
        if !is_sharp {
            offset = offset.saturating_add(1);
        }
        if offset == 1 {
            0
        } else {
            offset
        }
    }

    /// Characters `a` to `b` of the text.
    fn chars_between(&self, a: usize, b: usize) -> (r: &'a str)
        requires
            self.wf(),
            a <= b <= self.text().len(),
        ensures
            r@ == self.text().subrange(a as int, b as int),
            P::accepts(r@),
    {
        proof {
            P::lemma_accepts_subrange(self.text(), a as int, b as int);
        }
        self.rendered.substring_char(a, b)
    }

    /// What to print of line `l` at `offset` columns on a line `capacity` columns wide, and the
    /// columns left: see `line_plan`.
    pub fn queue_print_line(&self, l: usize, offset: usize, capacity: u16) -> (r: (Vec<Piece>, u16))
        requires
            self.wf(),
            l < self.line_seq().len(),
            capacity < u16::MAX - 1,
        ensures
            (r.0@, r.1 as int) == line_plan::<P>(
                self.text(),
                self.span_seq(),
                self.line_seq()[l as int],
                offset as int,
                capacity as int,
            ),
    {
        let ghost t = self.text();
        let ghost sp = self.span_seq();
        let ghost target = line_plan::<P>(t, sp, self.line_seq()[l as int], offset as int, capacity as int);
        let s = self.lines[l].start;
        let e = self.lines[l].end;
        let mut pieces: Vec<Piece> = Vec::new();
        if s >= e || capacity == 0 {
            assert(pieces@ =~= Seq::<Piece>::empty());
            return (pieces, capacity);
        }
        let mut remaining = capacity;
        if offset > 0 {
            remaining = remaining - 1;
            pieces.push(Piece::Ellipsis(1));
        }
        let total = self.rendered.as_bytes().len();
        let chars = str_chars(self.rendered);
        let a0 = char_index(chars.as_slice(), self.spans[s].range.start);
        let b0 = char_index(chars.as_slice(), self.spans[s].range.end);
        assert(0 <= start_char(t, sp[s as int]) <= end_char(t, sp[s as int]) <= t.len());
        let sub = self.chars_between(a0, b0);
        let (init, alignment) = consume::<P>(sub, offset);
        if (remaining as usize) < alignment {
            assert(pieces@ =~= target.0);
            return (pieces, remaining);
        }
        remaining = remaining - alignment as u16;
        if alignment > 0 {
            pieces.push(Piece::Ellipsis(alignment));
        }
        let sub_chars = str_chars(sub);
        let c = char_index(sub_chars.as_slice(), init);
        let mut a = a0 + c;
        proof {
            lemma_byte_size_split(t, a0 as int, b0 as int, c as int);
            lemma_byte_size_mono(t, a as int, t.len() as int);
            assert(t.take(t.len() as int) =~= t);
        }
        let mut start_byte = self.spans[s].range.start + init;
        let mut i = s;
        while i < e
            invariant
                self.wf(),
                t == self.text(),
                sp == self.span_seq(),
                chars@ == t,
                total == byte_size(t),
                capacity < u16::MAX - 1,
                l < self.line_seq().len(),
                target == line_plan::<P>(t, sp, self.line_seq()[l as int], offset as int, capacity as int),
                s <= i <= e,
                e <= sp.len(),
                0 <= a <= t.len(),
                i < e ==> a <= end_char(t, sp[i as int]),
                start_byte == byte_size(t.take(a as int)),
                target == (pieces@ + span_pieces::<P>(t, sp, i as int, e as int, a as int, remaining as int, capacity as int).0,
                    span_pieces::<P>(t, sp, i as int, e as int, a as int, remaining as int, capacity as int).1),
            decreases e - i,
        {
            let b = char_index(chars.as_slice(), self.spans[i].range.end);
            assert(0 <= start_char(t, sp[i as int]) <= end_char(t, sp[i as int]) <= t.len());
            let text = self.chars_between(a, b);
            let is_match = self.spans[i].is_match;
            let ghost rest = span_pieces::<P>(t, sp, i as int, e as int, a as int, remaining as int, capacity as int);
            match truncate::<P>(text, remaining) {
                Ok(v) => {
                    let piece = Piece::Text(Span { range: start_byte..self.spans[i].range.end, is_match });
                    assert(piece == text_piece(t, a as int, b as int, is_match));
                    let ghost next = span_pieces::<P>(t, sp, i + 1, e as int, start_char(t, sp[i + 1]), v as int, capacity as int);
                    assert(rest == (seq![piece] + next.0, next.1));
                    assert(pieces@.push(piece) + next.0 =~= pieces@ + (seq![piece] + next.0));
                    pieces.push(piece);
                    remaining = v;
                    i = i + 1;
                    if i < e {
                        a = char_index(chars.as_slice(), self.spans[i].range.start);
                        start_byte = self.spans[i].range.start;
                        assert(0 <= start_char(t, sp[i as int]) <= end_char(t, sp[i as int]) <= t.len());
                    } else {
                        assert(span_pieces::<P>(t, sp, i as int, e as int, a as int, v as int, capacity as int) == next);
                    }
                },
                Err((prefix, left)) => {
                    let ghost k = truncate_result(P::spec_width(text@), P::spec_steps(text@), remaining as int)->Err_0.0;
                    proof {
                        lemma_byte_size_split(t, a as int, b as int, k);
                        lemma_byte_size_mono(t, a + k, t.len() as int);
                        assert(t.take(t.len() as int) =~= t);
                    }
                    let end_byte = start_byte + prefix.as_bytes().len();
                    let piece = Piece::Text(Span { range: start_byte..end_byte, is_match });
                    assert(piece == text_piece(t, a as int, a + k, is_match));
                    let ghost before_pieces = pieces@;
                    if left > 0 {
                        let tail = Piece::Ellipsis(left);
                        assert(rest.0 =~= seq![piece, tail]);
                        pieces.push(piece);
                        pieces.push(tail);
                        assert(pieces@ =~= before_pieces + seq![piece, tail]);
                    } else {
                        let n = prefix.unicode_len();
                        let before = self.chars_between(0, a + n);
                        assert(before@ =~= t.take(a + k));
                        let undo = P::last_grapheme_width(before);
                        let col = (2 + capacity as usize).saturating_sub(undo);
                        let mv = Piece::MoveToColumn(col as u16);
                        let tail = Piece::Ellipsis(undo);
                        assert(col == (if capacity + 2 - undo >= 0 { capacity + 2 - undo } else { 0 }));
                        assert(rest.0 =~= seq![piece, mv, tail]);
                        pieces.push(piece);
                        pieces.push(mv);
                        pieces.push(tail);
                        assert(pieces@ =~= before_pieces + seq![piece, mv, tail]);
                    }
                    assert(rest.1 == 0);
                    assert(target.0 == before_pieces + rest.0);
                    assert(pieces@ =~= target.0);
                    return (pieces, 0);
                },
            }
        }
        assert(pieces@ + Seq::<Piece>::empty() =~= pieces@);
        (pieces, remaining)
    }

    /// What to print of each line, in order, on a screen `max_width` columns wide with
    /// `right_buffer` columns kept free: every span whole when every line fits in `max_width`
    /// bytes (so in `max_width` columns); otherwise each line at the offset of `required_offset`,
    /// see `line_plan`. The caller prints the pieces, starting and finishing each line.
    pub fn queue_print(&self, max_width: u16, right_buffer: u16) -> (r: Vec<Vec<Piece>>)
        requires
            self.wf(),
            max_width < u16::MAX - 1,
        ensures
            r@.len() == self.line_seq().len(),
            forall|k: int|
                0 <= k < r@.len() ==> (#[trigger] r@[k])@ == if lines_fit_bytes(
                    self.span_seq(),
                    self.line_seq(),
                    max_width as int,
                ) {
                    line_full(self.span_seq(), self.line_seq()[k])
                } else {
                    line_plan::<P>(
                        self.text(),
                        self.span_seq(),
                        self.line_seq()[k],
                        offset_for::<P>(
                            self.text(),
                            self.span_seq(),
                            self.line_seq(),
                            max_width as int,
                            right_buffer as int,
                        ),
                        max_width as int,
                    ).0
                },
    {
        let ghost sp = self.span_seq();
        let ghost ls = self.line_seq();
        let fits = self.max_line_bytes() <= max_width as usize;
        assert(fits == lines_fit_bytes(sp, ls, max_width as int));
        let offset = if fits {
            0
        } else {
            self.required_offset(max_width, right_buffer)
        };
        let n = self.lines.len();
        let mut out: Vec<Vec<Piece>> = Vec::new();
        let mut i: usize = 0;
        while i < n
            invariant
                self.wf(),
                sp == self.span_seq(),
                ls == self.line_seq(),
                n == ls.len(),
                i <= n,
                max_width < u16::MAX - 1,
                fits == lines_fit_bytes(sp, ls, max_width as int),
                !fits ==> offset == offset_for::<P>(self.text(), sp, ls, max_width as int, right_buffer as int),
                out@.len() == i,
                forall|k: int|
                    0 <= k < i ==> (#[trigger] out@[k])@ == if fits {
                        line_full(sp, ls[k])
                    } else {
                        line_plan::<P>(self.text(), sp, ls[k], offset as int, max_width as int).0
                    },
            decreases n - i,
        {
            if fits {
                let s = self.lines[i].start;
                let e = self.lines[i].end;
                let mut line: Vec<Piece> = Vec::new();
                let mut j = s;
                while j < e
                    invariant
                        self.wf(),
                        sp == self.span_seq(),
                        s <= j <= e,
                        e <= sp.len(),
                        line@ =~= sp.subrange(s as int, j as int).map_values(|x: Span| Piece::Text(x)),
                    decreases e - j,
                {
                    let sj = &self.spans[j];
                    line.push(Piece::Text(Span { range: sj.range.start..sj.range.end, is_match: sj.is_match }));
                    j = j + 1;
                }
                out.push(line);
            } else {
                let (line, _) = self.queue_print_line(i, offset, max_width);
                out.push(line);
            }
            i = i + 1;
        }
        out
    }
}

} // verus!
