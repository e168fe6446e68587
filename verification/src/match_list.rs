//! # The list of match candidates
//!
//! The layout of the match list on the screen: which items are drawn, and how many lines of each.
use vstd::prelude::*;

pub mod layout;
pub mod draw;
pub mod selected;

pub use selected::SelectedIndices;

verus! {

/// Context from the previous render used to update the screen correctly.
#[derive(Debug, Clone, Copy)]
pub struct MatchListState {
    /// The selected item.
    pub selection: u32,
    /// The lines below and including the selection.
    pub below: u16,
    /// The lines above the selection.
    pub above: u16,
    /// The height of the screen.
    pub size: u16,
}

} // verus!

verus! {

use crate::incremental::{laid_out, seq_sum, Incremental};
use crate::match_list::layout::{reset, resize, selection, update};

/// An event that modifies the selection in the match list.
#[derive(Debug, PartialEq, Eq)]
pub enum MatchListEvent {
    /// Move the selection up `usize` items.
    Up(usize),
    /// Toggle the selection then move up `usize` items.
    ToggleUp(usize),
    /// Move the selection down `usize` items.
    Down(usize),
    /// Toggle the selection then move down `usize` items.
    ToggleDown(usize),
    /// Deselect all queued selections.
    DeselectAll,
    /// Reset the selection to the start of the match list.
    Reset,
}

/// Whether the match engine reported changes during an update.
#[derive(Debug, Clone, Copy, PartialEq, Eq)]
pub struct MatchListStatus {
    /// Whether the list of matched items changed.
    pub items_changed: bool,
    /// Whether matching is still in progress.
    pub matching: bool,
    /// Whether items are still being injected.
    pub injecting: bool,
}

/// Configuration of the match list layout and drawing.
#[derive(Debug, Clone, Copy)]
pub struct MatchListConfig {
    /// Whether or not to do match highlighting.
    pub highlight: bool,
    /// Whether or not to highlight the whole selected line.
    pub highlight_line: bool,
    /// Whether or not the screen is reversed.
    pub reversed: bool,
    /// The amount of padding around highlighted matches.
    pub highlight_padding: u16,
    /// The amount of padding when scrolling.
    pub scroll_padding: u16,
}

impl MatchListConfig {
    /// The default configuration.
    pub fn new() -> (r: Self)
        ensures
            r.highlight,
            !r.highlight_line,
            !r.reversed,
            r.highlight_padding == 3,
            r.scroll_padding == 3,
    {
        Self {
            highlight: true,
            highlight_line: false,
            reversed: false,
            highlight_padding: 3,
            scroll_padding: 3,
        }
    }
}

/// The sizes of the selection and the items below it, nearest first.
pub open spec fn lower_incl(items: Seq<usize>, sel: int) -> Seq<usize> {
    items.take(sel + 1).reverse()
}

/// The sizes of the items below the selection, nearest first.
pub open spec fn lower(items: Seq<usize>, sel: int) -> Seq<usize> {
    items.take(sel).reverse()
}

/// The sizes of the items above the selection, nearest first.
pub open spec fn higher(items: Seq<usize>, sel: int) -> Seq<usize> {
    items.skip(sel + 1)
}

/// The sizes of the selection and the items above it, nearest first.
pub open spec fn higher_incl(items: Seq<usize>, sel: int) -> Seq<usize> {
    items.skip(sel)
}

/// The first `end` sizes, in reverse order.
pub(crate) fn collect_rev(items: &[usize], end: usize) -> (r: Vec<usize>)
    requires
        end <= items@.len(),
    ensures
        r@ == items@.take(end as int).reverse(),
{
    let mut r: Vec<usize> = Vec::new();
    let mut i: usize = end;
    while i > 0
        invariant
            i <= end <= items@.len(),
            r@ == items@.subrange(i as int, end as int).reverse(),
        decreases i,
    {
        i = i - 1;
        r.push(items[i]);
        assert(r@ =~= items@.subrange(i as int, end as int).reverse());
    }
    assert(items@.subrange(0, end as int) =~= items@.take(end as int));
    r
}

/// The sizes from `start` onwards.
pub(crate) fn collect_from(items: &[usize], start: usize) -> (r: Vec<usize>)
    requires
        start <= items@.len(),
    ensures
        r@ == items@.skip(start as int),
{
    let mut r: Vec<usize> = Vec::new();
    let mut i: usize = start;
    let ghost s = i;
    while i < items.len()
        invariant
            s <= i <= items@.len(),
            s == start,
            r@ == items@.subrange(s as int, i as int),
        decreases items@.len() - i,
    {
        r.push(items[i]);
        i = i + 1;
        assert(r@ =~= items@.subrange(s as int, i as int));
    }
    assert(items@.subrange(s as int, items@.len() as int) =~= items@.skip(start as int));
    r
}

/// A fresh extension of `vec` (which is cleared) by the given sizes.
pub(crate) fn fresh(vec: Vec<usize>, sizes: Vec<usize>) -> (r: Incremental)
    ensures
        r.wf(),
        r.items() == sizes@,
        r.state() == (0nat, 0nat),
        r.initial() == Seq::<usize>::empty(),
        r.total() == 0,
{
    let mut vec = vec;
    vec.clear();
    let r = Incremental::new(vec, sizes);
    assert(r.filled() =~= Seq::<usize>::empty());
    r
}

/// The sum of a vector of line counts, which fits the given bound.
pub(crate) fn sum_lines(v: &Vec<usize>, bound: u16) -> (r: u16)
    requires
        seq_sum(v@) <= bound,
    ensures
        r == seq_sum(v@),
{
    MatchList::sum_lines(v, bound)
}

/// The layout of the match list on the screen: the selected item, and the number of lines
/// drawn for each item below and including the selection, and for each item above it.
///
/// Items are given by their sizes (lines on screen), in match order.
pub struct MatchList {
    /// The current selection.
    selection: u32,
    /// The size of the screen last time the screen changed.
    size: u16,
    /// The lines drawn for the selection and each item below it, nearest first.
    below: Vec<usize>,
    /// The lines drawn for each item above the selection, nearest first.
    above: Vec<usize>,
    /// Configuration for drawing.
    config: MatchListConfig,
}

/// The top padding kept for a screen of the given size.
pub open spec fn padding_for(scroll_padding: u16, size: u16) -> u16 {
    let half = (if size >= 1 { size - 1 } else { 0 }) / 2;
    if scroll_padding <= half { scroll_padding } else { half as u16 }
}

impl MatchList {
    /// The current selection.
    pub closed spec fn sel(&self) -> u32 {
        self.selection
    }

    /// The screen height.
    pub closed spec fn height(&self) -> u16 {
        self.size
    }

    /// The lines drawn for the selection and each item below it.
    pub closed spec fn below_lines(&self) -> Seq<usize> {
        self.below@
    }

    /// The lines drawn for each item above the selection.
    pub closed spec fn above_lines(&self) -> Seq<usize> {
        self.above@
    }

    /// Whether the layout is reversed.
    pub closed spec fn is_reversed(&self) -> bool {
        self.config.reversed
    }

    /// The configured scroll padding.
    pub closed spec fn scroll_padding(&self) -> u16 {
        self.config.scroll_padding
    }

    /// The invariant: the drawn lines fit on the screen.
    pub open spec fn wf(&self) -> bool {
        seq_sum(self.below_lines()) + seq_sum(self.above_lines()) <= self.height()
    }

    /// The state used by the layout updates.
    pub open spec fn spec_state(&self) -> MatchListState {
        MatchListState {
            selection: self.sel(),
            below: (self.height() - seq_sum(self.above_lines())) as u16,
            above: (self.height() - seq_sum(self.below_lines())) as u16,
            size: self.height(),
        }
    }

    /// Initialize a new, empty [`MatchList`] with the provided configuration.
    pub fn new(config: MatchListConfig) -> (r: Self)
        ensures
            r.wf(),
            r.sel() == 0,
            r.height() == 0,
            r.below_lines() == Seq::<usize>::empty(),
            r.above_lines() == Seq::<usize>::empty(),
            r.is_reversed() == config.reversed,
            r.scroll_padding() == config.scroll_padding,
    {
        Self { selection: 0, size: 0, below: Vec::new(), above: Vec::new(), config }
    }

    /// Whether the layout is reversed.
    pub fn reversed(&self) -> (r: bool)
        ensures
            r == self.is_reversed(),
    {
        self.config.reversed
    }

    /// The current selection.
    pub fn selection(&self) -> (r: u32)
        ensures
            r == self.sel(),
    {
        self.selection
    }

    /// The screen height of the layout.
    pub fn size(&self) -> (r: u16)
        ensures
            r == self.height(),
    {
        self.size
    }

    /// The lines drawn for the selection and the items below it, nearest first.
    pub fn below(&self) -> (r: &[usize])
        ensures
            r@ == self.below_lines(),
    {
        self.below.as_slice()
    }

    /// The lines drawn for the items above the selection, nearest first.
    pub fn above(&self) -> (r: &[usize])
        ensures
            r@ == self.above_lines(),
    {
        self.above.as_slice()
    }

    /// The sum of a vector of line counts, which fits the screen.
    fn sum_lines(v: &Vec<usize>, bound: u16) -> (r: u16)
        requires
            seq_sum(v@) <= bound,
        ensures
            r == seq_sum(v@),
    {
        let mut total: u16 = 0;
        let mut i: usize = 0;
        while i < v.len()
            invariant
                i <= v@.len(),
                total == seq_sum(v@.take(i as int)),
                seq_sum(v@) <= bound,
            decreases v@.len() - i,
        {
            proof {
                crate::incremental::lemma_seq_sum_concat(v@.take(i + 1), v@.skip(i + 1));
                assert(v@.take(i + 1) + v@.skip(i + 1) =~= v@);
                crate::incremental::lemma_seq_sum_nonneg(v@.skip(i + 1));
                assert(v@.take(i + 1).drop_last() =~= v@.take(i as int));
            }
            total = total + v[i] as u16;
            i = i + 1;
        }
        assert(v@.take(v@.len() as int) =~= v@);
        total
    }

    /// Returns a self-contained representation of the screen state required for correct layout
    /// update computations.
    fn state(&self) -> (r: MatchListState)
        requires
            self.wf(),
        ensures
            r == self.spec_state(),
    {
        proof {
            crate::incremental::lemma_seq_sum_nonneg(self.below@);
            crate::incremental::lemma_seq_sum_nonneg(self.above@);
        }
        let below = Self::sum_lines(&self.below, self.size);
        let above = Self::sum_lines(&self.above, self.size);
        MatchListState {
            selection: self.selection,
            below: self.size - above,
            above: self.size - below,
            size: self.size,
        }
    }

    /// The total amount of whitespace present in the displayed match list.
    pub fn whitespace(&self) -> (r: u16)
        requires
            self.wf(),
        ensures
            r == self.height() - seq_sum(self.below_lines()) - seq_sum(self.above_lines()),
    {
        proof {
            crate::incremental::lemma_seq_sum_nonneg(self.below@);
            crate::incremental::lemma_seq_sum_nonneg(self.above@);
        }
        let below = Self::sum_lines(&self.below, self.size);
        let above = Self::sum_lines(&self.above, self.size);
        self.size - below - above
    }

    /// The amount of padding corresponding to the provided size.
    pub fn padding(&self, size: u16) -> (r: u16)
        ensures
            r == padding_for(self.scroll_padding(), size),
    {
        let half: u16 = size.saturating_sub(1) / 2;
        if self.config.scroll_padding <= half {
            self.config.scroll_padding
        } else {
            half
        }
    }
}

} // verus!

verus! {

use crate::match_list::layout::resize::{larger_spec, smaller_spec, larger_rev_spec, smaller_rev_spec};
use crate::match_list::layout::update::{items_spec, items_rev_spec};
use crate::match_list::layout::reset::{reset_spec, reset_rev_spec};
use crate::match_list::layout::selection::{incr_spec, decr_spec, incr_rev_spec, decr_rev_spec};

/// `x` clamped to `[lo, hi]`.
pub open spec fn clamp_u16(x: u16, lo: u16, hi: u16) -> u16 {
    if x < lo {
        lo
    } else if x > hi {
        hi
    } else {
        x
    }
}

/// The vectors laid out from the final states of two extensions over `bi` and `ai`.
pub open spec fn lines_of(
    bi: Seq<usize>,
    ai: Seq<usize>,
    st: ((nat, nat), (nat, nat)),
) -> (Seq<usize>, Seq<usize>) {
    (laid_out(bi, st.0.0, st.0.1), laid_out(ai, st.1.0, st.1.1))
}

/// The layout after resizing a non-empty, well-formed layout to `total > 0` lines.
pub open spec fn resize_lines(
    m: MatchList,
    total: u16,
    items: Seq<usize>,
) -> (Seq<usize>, Seq<usize>) {
    let p = padding_for(m.scroll_padding(), total);
    let prev = m.spec_state();
    let sel = m.sel() as int;
    if m.is_reversed() {
        let prev2 = MatchListState { below: clamp_u16(prev.below, p, (total - p - 1) as u16), ..prev };
        let bi = higher_incl(items, sel);
        let ai = lower(items, sel);
        if m.height() <= total {
            lines_of(bi, ai, larger_rev_spec(prev2, total as int, p as int, bi, (0, 0), ai, (0, 0)))
        } else {
            lines_of(
                bi,
                ai,
                smaller_rev_spec(prev2, total as int, p as int, p as int, bi, (0, 0), ai, (0, 0)),
            )
        }
    } else {
        let prev2 = MatchListState { above: clamp_u16(prev.above, p, (total - p - 1) as u16), ..prev };
        let bi = lower_incl(items, sel);
        let ai = higher(items, sel);
        if m.height() <= total {
            lines_of(bi, ai, larger_spec(prev2, total as int, bi, (0, 0), ai, (0, 0)))
        } else {
            lines_of(bi, ai, smaller_spec(prev2, total as int, p as int, bi, (0, 0), ai, (0, 0)))
        }
    }
}

impl MatchList {
    /// Extensions of the two buffers, which are cleared, by the sizes around `sel` in the
    /// direction of the layout.
    fn extensions(&mut self, items: &[usize], sel: u32) -> (r: (Incremental, Incremental))
        requires
            (sel as int) < items@.len(),
        ensures
            r.0.wf(),
            r.1.wf(),
            r.0.items() == if old(self).is_reversed() {
                higher_incl(items@, sel as int)
            } else {
                lower_incl(items@, sel as int)
            },
            r.1.items() == if old(self).is_reversed() {
                lower(items@, sel as int)
            } else {
                higher(items@, sel as int)
            },
            r.0.state() == (0nat, 0nat),
            r.1.state() == (0nat, 0nat),
            r.0.initial() == Seq::<usize>::empty(),
            r.1.initial() == Seq::<usize>::empty(),
            r.0.total() == 0,
            r.1.total() == 0,
            final(self).sel() == old(self).sel(),
            final(self).height() == old(self).height(),
            final(self).is_reversed() == old(self).is_reversed(),
            final(self).scroll_padding() == old(self).scroll_padding(),
    {
        let mut below: Vec<usize> = Vec::new();
        let mut above: Vec<usize> = Vec::new();
        std::mem::swap(&mut below, &mut self.below);
        std::mem::swap(&mut above, &mut self.above);
        let s = sel as usize;
        let n = items.len();
        assert(s < n);
        if self.config.reversed {
            (fresh(below, collect_from(items, s)), fresh(above, collect_rev(items, s)))
        } else {
            (fresh(below, collect_rev(items, s + 1)), fresh(above, collect_from(items, s + 1)))
        }
    }

    /// Store the results of two extensions as the new layout.
    fn store(&mut self, below: Incremental, above: Incremental)
        requires
            below.wf(),
            above.wf(),
            below.initial() == Seq::<usize>::empty(),
            above.initial() == Seq::<usize>::empty(),
        ensures
            final(self).below_lines() == laid_out(below.items(), below.pos(), below.partial()),
            final(self).above_lines() == laid_out(above.items(), above.pos(), above.partial()),
            seq_sum(final(self).below_lines()) == below.total(),
            seq_sum(final(self).above_lines()) == above.total(),
            final(self).sel() == old(self).sel(),
            final(self).height() == old(self).height(),
            final(self).is_reversed() == old(self).is_reversed(),
            final(self).scroll_padding() == old(self).scroll_padding(),
    {
        proof {
            below.lemma_contents();
            above.lemma_contents();
            assert(below.buffer() =~= below.filled());
            assert(above.buffer() =~= above.filled());
        }
        self.below = below.into_vec();
        self.above = above.into_vec();
    }

    /// Recompute the match layout when the screen size has changed.
    pub fn resize(&mut self, total_size: u16, items: &[usize])
        requires
            old(self).wf(),
            items@.len() > 0 ==> (old(self).sel() as int) < items@.len(),
            items@.len() == 0 && total_size > 0 ==> seq_sum(old(self).below_lines()) + seq_sum(
                old(self).above_lines(),
            ) <= total_size,
        ensures
            final(self).wf(),
            final(self).height() == total_size,
            final(self).sel() == old(self).sel(),
            final(self).is_reversed() == old(self).is_reversed(),
            final(self).scroll_padding() == old(self).scroll_padding(),
            total_size == 0 ==> final(self).below_lines() == Seq::<usize>::empty()
                && final(self).above_lines() == Seq::<usize>::empty(),
            total_size > 0 && items@.len() == 0 ==> final(self).below_lines()
                == old(self).below_lines() && final(self).above_lines() == old(self).above_lines(),
            total_size > 0 && items@.len() > 0 ==> (final(self).below_lines(), final(self).above_lines())
                == resize_lines(*old(self), total_size, items@),
    {
        if total_size == 0 {
            self.size = 0;
            self.above.clear();
            self.below.clear();
            return;
        }
        if items.len() == 0 {
            self.size = total_size;
            return;
        }
        let padding = self.padding(total_size);
        let mut previous = self.state();
        let sel = self.selection;
        let old_size = self.size;
        let (mut below, mut above) = self.extensions(items, sel);
        if self.config.reversed {
            previous.below = if previous.below < padding {
                padding
            } else if previous.below > total_size - padding - 1 {
                total_size - padding - 1
            } else {
                previous.below
            };
            if old_size <= total_size {
                resize::larger_rev(previous, total_size, padding, &mut below, &mut above);
            } else {
                resize::smaller_rev(previous, total_size, padding, padding, &mut below, &mut above);
            }
        } else {
            previous.above = if previous.above < padding {
                padding
            } else if previous.above > total_size - padding - 1 {
                total_size - padding - 1
            } else {
                previous.above
            };
            if old_size <= total_size {
                resize::larger(previous, total_size, &mut below, &mut above);
            } else {
                resize::smaller(previous, total_size, padding, &mut below, &mut above);
            }
        }
        self.store(below, above);
        self.size = total_size;
    }
}

} // verus!

verus! {

/// The selection clamped to the last of `len` items (0 when there are none).
pub open spec fn clamp_selection(sel: int, len: int) -> int {
    let last = if len >= 1 { len - 1 } else { 0 };
    if sel <= last { sel } else { last }
}

/// Whether the layout can move the selection to `new`: always on a screen with rows; on one with
/// none, only to the start, nowhere, or away from the bottom edge (up in the normal order, down
/// when reversed), since the other moves need a row for the bottom padding.
pub open spec fn movable(m: MatchList, new: int) -> bool {
    ||| m.height() > 0
    ||| new == 0
    ||| new == m.sel()
    ||| !m.is_reversed() && new > m.sel()
    ||| m.is_reversed() && new < m.sel()
}

/// The layout after the items change, with the (clamped) selection kept.
pub open spec fn update_lines(m: MatchList, items: Seq<usize>) -> (Seq<usize>, Seq<usize>) {
    let sel = clamp_selection(m.sel() as int, items.len() as int);
    let p = padding_for(m.scroll_padding(), m.height()) as int;
    let prev = MatchListState { selection: sel as u32, ..m.spec_state() };
    if m.is_reversed() {
        let bi = higher_incl(items, sel);
        let ai = lower(items, sel);
        lines_of(bi, ai, items_rev_spec(prev, p, bi, (0, 0), ai, (0, 0)))
    } else {
        let bi = lower_incl(items, sel);
        let ai = higher(items, sel);
        lines_of(bi, ai, items_spec(prev, p, bi, (0, 0), ai, (0, 0)))
    }
}

/// The layout after the selection is reset to the first item.
pub open spec fn reset_lines(m: MatchList, items: Seq<usize>) -> (Seq<usize>, Seq<usize>) {
    let p = padding_for(m.scroll_padding(), m.height()) as int;
    let total = m.height() as int;
    if m.is_reversed() {
        let bi = higher_incl(items, 0);
        (laid_out(bi, reset_rev_spec(total, bi, (0, 0)).0, reset_rev_spec(total, bi, (0, 0)).1), Seq::empty())
    } else {
        let bi = lower_incl(items, 0);
        let ai = higher(items, 0);
        lines_of(bi, ai, reset_spec(total, p, bi, (0, 0), ai, (0, 0)))
    }
}

/// The layout after the selection moves to `new > 0`, different from the current selection.
pub open spec fn select_lines(m: MatchList, new: int, items: Seq<usize>) -> (Seq<usize>, Seq<usize>) {
    let p = padding_for(m.scroll_padding(), m.height()) as int;
    let prev = m.spec_state();
    if m.is_reversed() {
        let bi = higher_incl(items, new);
        let ai = lower(items, new);
        if new > m.sel() {
            lines_of(bi, ai, incr_rev_spec(prev, new, p, p, bi, (0, 0), ai, (0, 0)))
        } else {
            lines_of(bi, ai, decr_rev_spec(prev, new, p, bi, (0, 0), ai, (0, 0)))
        }
    } else {
        let bi = lower_incl(items, new);
        let ai = higher(items, new);
        if new > m.sel() {
            lines_of(bi, ai, incr_spec(prev, new, p, bi, (0, 0), ai, (0, 0)))
        } else {
            lines_of(bi, ai, decr_spec(prev, new, p, p, bi, (0, 0), ai, (0, 0)))
        }
    }
}

impl MatchList {
    /// Update the layout with the modified item list.
    pub fn update_items(&mut self, items: &[usize])
        requires
            old(self).wf(),
        ensures
            final(self).wf(),
            final(self).sel() == clamp_selection(old(self).sel() as int, items@.len() as int),
            final(self).height() == old(self).height(),
            final(self).is_reversed() == old(self).is_reversed(),
            final(self).scroll_padding() == old(self).scroll_padding(),
            items@.len() == 0 ==> final(self).below_lines() == Seq::<usize>::empty()
                && final(self).above_lines() == Seq::<usize>::empty(),
            items@.len() > 0 ==> (final(self).below_lines(), final(self).above_lines())
                == update_lines(*old(self), items@),
    {
        let last = if items.len() >= 1 { items.len() - 1 } else { 0 };
        if (self.selection as usize) > last {
            self.selection = last as u32;
        }
        if items.len() > 0 {
            let previous = self.state();
            let padding = self.padding(self.size);
            let sel = self.selection;
            let (mut below, mut above) = self.extensions(items, sel);
            if self.config.reversed {
                update::items_rev(previous, padding, &mut below, &mut above);
            } else {
                update::items(previous, padding, &mut below, &mut above);
            }
            self.store(below, above);
        } else {
            self.below.clear();
            self.above.clear();
            self.selection = 0;
        }
    }

    /// Reset the layout, setting the cursor to '0' and rendering the items; returns whether the
    /// selection changed.
    pub fn reset(&mut self, items: &[usize]) -> (r: bool)
        requires
            old(self).wf(),
            old(self).sel() != 0 ==> items@.len() > 0,
        ensures
            final(self).wf(),
            r == (old(self).sel() != 0),
            final(self).sel() == 0,
            final(self).height() == old(self).height(),
            final(self).is_reversed() == old(self).is_reversed(),
            final(self).scroll_padding() == old(self).scroll_padding(),
            r ==> (final(self).below_lines(), final(self).above_lines()) == reset_lines(
                *old(self),
                items@,
            ),
            !r ==> final(self).below_lines() == old(self).below_lines()
                && final(self).above_lines() == old(self).above_lines(),
    {
        if self.selection != 0 {
            let padding = self.padding(self.size);
            let size = self.size;
            let (mut below, mut above) = self.extensions(items, 0);
            if self.config.reversed {
                reset::reset_rev(size, &mut below);
                let ghost a0 = above;
                self.store(below, above);
                assert(laid_out(a0.items(), 0, 0) =~= Seq::<usize>::empty());
            } else {
                reset::reset(size, padding, &mut below, &mut above);
                self.store(below, above);
            }
            self.selection = 0;
            true
        } else {
            false
        }
    }

    /// Move the selection to `new_selection` (clamped to the last item), updating the layout;
    /// returns whether the selection changed.
    pub fn set_selection(&mut self, new_selection: u32, items: &[usize]) -> (r: bool)
        requires
            old(self).wf(),
            items@.len() > 0 ==> (old(self).sel() as int) < items@.len(),
            old(self).sel() != 0 ==> items@.len() > 0,
            movable(*old(self), clamp_selection(new_selection as int, items@.len() as int)),
        ensures
            final(self).wf(),
            final(self).sel() == if clamp_selection(new_selection as int, items@.len() as int)
                == 0 {
                0
            } else {
                clamp_selection(new_selection as int, items@.len() as int)
            },
            r == (clamp_selection(new_selection as int, items@.len() as int) != old(self).sel()),
            final(self).height() == old(self).height(),
            final(self).is_reversed() == old(self).is_reversed(),
            final(self).scroll_padding() == old(self).scroll_padding(),
            ({
                let new = clamp_selection(new_selection as int, items@.len() as int);
                &&& new == 0 && r ==> (final(self).below_lines(), final(self).above_lines())
                    == reset_lines(*old(self), items@)
                &&& new != 0 && r ==> (final(self).below_lines(), final(self).above_lines())
                    == select_lines(*old(self), new, items@)
                &&& !r ==> final(self).below_lines() == old(self).below_lines()
                    && final(self).above_lines() == old(self).above_lines()
            }),
    {
        let last = if items.len() >= 1 { items.len() - 1 } else { 0 };
        let new_selection = if (new_selection as usize) <= last {
            new_selection
        } else {
            last as u32
        };
        if new_selection == 0 {
            return self.reset(items);
        }
        proof {
            crate::incremental::lemma_seq_sum_nonneg(self.below@);
            crate::incremental::lemma_seq_sum_nonneg(self.above@);
        }
        let previous = self.state();
        let padding = self.padding(self.size);
        if new_selection > self.selection {
            let (mut below, mut above) = self.extensions(items, new_selection);
            if self.config.reversed {
                selection::incr_rev(previous, new_selection, padding, padding, &mut below, &mut above);
            } else {
                selection::incr(previous, new_selection, padding, &mut below, &mut above);
            }
            self.store(below, above);
            self.selection = new_selection;
            true
        } else if new_selection < self.selection {
            let (mut below, mut above) = self.extensions(items, new_selection);
            if self.config.reversed {
                selection::decr_rev(previous, new_selection, padding, &mut below, &mut above);
            } else {
                selection::decr(previous, new_selection, padding, padding, &mut below, &mut above);
            }
            self.store(below, above);
            self.selection = new_selection;
            true
        } else {
            false
        }
    }

    /// Whether the layout can move the selection to `new_selection` among `items_len` items: see
    /// `movable`.
    pub fn can_move_to(&self, new_selection: u32, items_len: usize) -> (r: bool)
        ensures
            r == movable(*self, clamp_selection(new_selection as int, items_len as int)),
    {
        let last = if items_len >= 1 { items_len - 1 } else { 0 };
        let new = if (new_selection as usize) <= last { new_selection as usize } else { last };
        self.size > 0 || new == 0 || new == self.selection as usize || (!self.config.reversed
            && new > self.selection as usize) || (self.config.reversed && new < self.selection as usize)
    }

    /// Increment the selection by the given amount.
    pub fn selection_incr(&mut self, increase: u32, items: &[usize]) -> (r: bool)
        requires
            old(self).wf(),
            items@.len() > 0 ==> (old(self).sel() as int) < items@.len(),
            old(self).sel() != 0 ==> items@.len() > 0,
            old(self).height() > 0,
        ensures
            final(self).wf(),
            final(self).sel() == clamp_selection(
                if old(self).sel() + increase <= u32::MAX {
                    old(self).sel() + increase
                } else {
                    u32::MAX as int
                },
                items@.len() as int,
            ),
            r == (final(self).sel() != old(self).sel()),
    {
        let new_selection = self.selection.saturating_add(increase);
        self.set_selection(new_selection, items)
    }

    /// Decrement the selection by the given amount.
    pub fn selection_decr(&mut self, decrease: u32, items: &[usize]) -> (r: bool)
        requires
            old(self).wf(),
            items@.len() > 0 ==> (old(self).sel() as int) < items@.len(),
            old(self).sel() != 0 ==> items@.len() > 0,
            old(self).height() > 0,
        ensures
            final(self).wf(),
            final(self).sel() == clamp_selection(
                if old(self).sel() >= decrease { old(self).sel() - decrease } else { 0 },
                items@.len() as int,
            ),
            r == (final(self).sel() != old(self).sel()),
    {
        let new_selection = self.selection.saturating_sub(decrease);
        self.set_selection(new_selection, items)
    }

    /// The range `(first, last)` (inclusive, in match order) of the items visible on the screen.
    pub fn selection_range(&self) -> (r: (usize, usize))
        requires
            self.below_lines().len() >= 1,
            self.is_reversed() ==> self.above_lines().len() <= self.sel(),
            !self.is_reversed() ==> self.below_lines().len() <= self.sel() + 1,
            self.sel() + self.below_lines().len() + self.above_lines().len() <= usize::MAX,
        ensures
            self.is_reversed() ==> r == ((self.sel() - self.above_lines().len()) as usize, (self.sel()
                + self.below_lines().len() - 1) as usize),
            !self.is_reversed() ==> r == ((self.sel() + 1 - self.below_lines().len()) as usize, (
            self.sel() + self.above_lines().len()) as usize),
    {
        let sel = self.selection as usize;
        if self.config.reversed {
            (sel - self.above.len(), sel + self.below.len() - 1)
        } else {
            (sel + 1 - self.below.len(), sel + self.above.len())
        }
    }
}

} // verus!

verus! {

/// A buffer to hold match highlight information and cached line information of a rendered item.
pub struct IndexBuffer {
    /// Spans used to render items.
    pub spans: Vec<crate::term::unicode::Span>,
    /// Sub-slices of `spans` corresponding to lines.
    pub lines: Vec<std::ops::Range<usize>>,
    /// Indices generated from a match.
    pub indices: Vec<u32>,
}

impl IndexBuffer {
    /// Create a new, empty buffer.
    pub fn new() -> (r: Self)
        ensures
            r.spans@.len() == 0,
            r.lines@.len() == 0,
            r.indices@.len() == 0,
    {
        Self {
            spans: Vec::with_capacity(16),
            lines: Vec::with_capacity(4),
            indices: Vec::with_capacity(16),
        }
    }
}

/// How the matcher takes a new query, given the query it parsed last: `None` when the two are
/// equal (nothing to reparse), `Some(true)` when the new query extends the previous one (the
/// matcher may keep narrowing its current matches), `Some(false)` otherwise.
pub open spec fn spec_reparse_mode(previous: Seq<char>, new: Seq<char>) -> Option<bool> {
    if previous.is_prefix_of(new) {
        if new.len() == previous.len() {
            None
        } else {
            Some(true)
        }
    } else {
        Some(false)
    }
}

/// Decide how the matcher should take the query `new` after it last parsed `previous`.
pub fn reparse_mode(previous: &str, new: &str) -> (r: Option<bool>)
    ensures
        r == spec_reparse_mode(previous@, new@),
{
    let prev = crate::text::str_chars(previous);
    let next = crate::text::str_chars(new);
    if prev.len() > next.len() {
        return Some(false);
    }
    let mut i: usize = 0;
    while i < prev.len()
        invariant
            i <= prev.len() <= next.len(),
            prev@ == previous@,
            next@ == new@,
            forall|j: int| 0 <= j < i ==> prev@[j] == next@[j],
        decreases prev.len() - i,
    {
        if prev[i] != next[i] {
            assert(!previous@.is_prefix_of(new@)) by {
                assert(new@.subrange(0, previous@.len() as int)[i as int] != previous@[i as int]);
            }
            return Some(false);
        }
        i += 1;
    }
    assert(previous@.is_prefix_of(new@)) by {
        assert(new@.subrange(0, previous@.len() as int) =~= previous@);
    }
    if prev.len() == next.len() {
        None
    } else {
        Some(true)
    }
}

} // verus!
