//! The layout of matches in the terminal picker: which items are drawn below and above the
//! selection, and how many lines of each.
//!
//! Items are given by their sizes (lines on screen), in match order.
use vstd::prelude::*;

use crate::incremental::{laid_out, seq_sum, Incremental};
use crate::match_list::layout::reset::reset_spec;
use crate::match_list::layout::resize::{larger_spec, smaller_spec};
use crate::match_list::layout::selection::{decr_spec, incr_spec};
use crate::match_list::layout::update::items_spec;
use crate::match_list::{
    clamp_selection, clamp_u16, collect_from, collect_rev, fresh, higher, lines_of, lower_incl,
    sum_lines, MatchListState,
};

pub mod resize;
pub mod selection;

verus! {

/// The layout state the updates start from.
#[derive(Debug, Clone, Copy)]
pub struct ScreenAlignment {
    /// The selected item.
    pub selection: u32,
    /// The lines above the selection.
    pub above: u16,
    /// The height of the screen.
    pub size: u16,
    /// The padding kept above the selection.
    pub padding_top: u16,
    /// The padding kept below the selection.
    pub padding_bottom: u16,
}

/// The state of the shared layout routines that corresponds to an alignment.
pub open spec fn as_state(a: ScreenAlignment) -> MatchListState {
    MatchListState { selection: a.selection, below: 0, above: a.above, size: a.size }
}

/// The state of the shared layout routines that corresponds to an alignment.
pub fn state_of(a: ScreenAlignment) -> (r: MatchListState)
    ensures
        r == as_state(a),
{
    MatchListState { selection: a.selection, below: 0, above: a.above, size: a.size }
}

/// A view of the layout: the lines drawn for the selection and each item below it, and for each
/// item above it, nearest first.
#[derive(Debug, Clone, PartialEq)]
pub struct LayoutView<'a> {
    /// The number of lines to render for each item beginning below the screen index and rendering
    /// downwards.
    pub below: &'a [usize],
    /// The number of lines to render for each item beginning above the screen index and rendering
    /// upwards.
    pub above: &'a [usize],
}

/// Stateful representation of the screen layout.
#[derive(Debug)]
pub struct Matcher {
    previous: ScreenAlignment,
    below: Vec<usize>,
    above: Vec<usize>,
}

/// The layout after resizing to `total` lines with the given paddings.
pub open spec fn matcher_resize_lines(
    prev: ScreenAlignment,
    total: u16,
    padding_top: u16,
    padding_bottom: u16,
    items: Seq<usize>,
) -> (Seq<usize>, Seq<usize>) {
    let prev2 = ScreenAlignment {
        above: clamp_u16(prev.above, padding_top, (total - padding_bottom - 1) as u16),
        ..prev
    };
    let bi = lower_incl(items, prev.selection as int);
    let ai = higher(items, prev.selection as int);
    if prev.size <= total {
        lines_of(bi, ai, larger_spec(as_state(prev2), total as int, bi, (0, 0), ai, (0, 0)))
    } else {
        lines_of(
            bi,
            ai,
            smaller_spec(as_state(prev2), total as int, padding_top as int, bi, (0, 0), ai, (0, 0)),
        )
    }
}

impl Matcher {
    /// The layout state.
    pub closed spec fn alignment(&self) -> ScreenAlignment {
        self.previous
    }

    /// The lines drawn for the selection and each item below it.
    pub closed spec fn below_lines(&self) -> Seq<usize> {
        self.below@
    }

    /// The lines drawn for each item above the selection.
    pub closed spec fn above_lines(&self) -> Seq<usize> {
        self.above@
    }

    /// The drawn lines fit on the screen, the space above is what the lines below leave, and the
    /// paddings leave room for the selection.
    pub open spec fn wf(&self) -> bool {
        &&& seq_sum(self.below_lines()) + seq_sum(self.above_lines()) <= self.alignment().size
        &&& self.alignment().above == self.alignment().size - seq_sum(self.below_lines())
        &&& self.alignment().padding_bottom + self.alignment().padding_top < self.alignment().size
    }

    /// Set the space above to what the lines below leave.
    fn reset_above(&mut self)
        requires
            seq_sum(old(self).below_lines()) <= old(self).alignment().size,
        ensures
            final(self).alignment() == (ScreenAlignment {
                above: (old(self).alignment().size - seq_sum(old(self).below_lines())) as u16,
                ..old(self).alignment()
            }),
            final(self).below_lines() == old(self).below_lines(),
            final(self).above_lines() == old(self).above_lines(),
    {
        proof {
            crate::incremental::lemma_seq_sum_nonneg(self.below@);
        }
        let below = sum_lines(&self.below, self.previous.size);
        self.previous.above = self.previous.size - below;
    }

    /// An empty layout on a screen of `size` lines with the given paddings.
    pub fn new(size: u16, padding_bottom: u16, padding_top: u16) -> (r: Self)
        requires
            padding_bottom + padding_top < size,
        ensures
            r.wf(),
            r.alignment() == (ScreenAlignment {
                selection: 0,
                above: size,
                size,
                padding_top,
                padding_bottom,
            }),
            r.below_lines() == Seq::<usize>::empty(),
            r.above_lines() == Seq::<usize>::empty(),
    {
        Self {
            previous: ScreenAlignment { selection: 0, above: size, size, padding_top, padding_bottom },
            below: Vec::with_capacity(size as usize),
            above: Vec::with_capacity(size as usize),
        }
    }

    /// The selected item.
    pub fn selection(&self) -> (r: u32)
        ensures
            r == self.alignment().selection,
    {
        self.previous.selection
    }

    /// The range `(first, last)` (inclusive) of the items drawn on the screen.
    pub fn selection_range(&self) -> (r: (u32, u32))
        requires
            self.below_lines().len() <= self.alignment().selection + 1,
            self.alignment().selection + self.above_lines().len() <= u32::MAX,
        ensures
            r == ((self.alignment().selection + 1 - self.below_lines().len()) as u32, (
            self.alignment().selection + self.above_lines().len()) as u32),
    {
        let sel = self.previous.selection as u64;
        let first = sel + 1 - self.below.len() as u64;
        let last = sel + self.above.len() as u64;
        (first as u32, last as u32)
    }

    /// Get a representation of the current layout to be used for rendering.
    pub fn view(&self) -> (r: LayoutView<'_>)
        ensures
            r.below@ == self.below_lines(),
            r.above@ == self.above_lines(),
    {
        LayoutView { below: self.below.as_slice(), above: self.above.as_slice() }
    }

    /// Extensions of the two buffers, which are cleared, by the sizes below (and including) and
    /// above `sel`.
    fn extensions(&mut self, items: &[usize], sel: u32) -> (r: (Incremental, Incremental))
        requires
            (sel as int) < items@.len(),
        ensures
            r.0.wf(),
            r.1.wf(),
            r.0.items() == lower_incl(items@, sel as int),
            r.1.items() == higher(items@, sel as int),
            r.0.state() == (0nat, 0nat),
            r.1.state() == (0nat, 0nat),
            r.0.initial() == Seq::<usize>::empty(),
            r.1.initial() == Seq::<usize>::empty(),
            r.0.total() == 0,
            r.1.total() == 0,
            final(self).alignment() == old(self).alignment(),
    {
        let mut below: Vec<usize> = Vec::new();
        let mut above: Vec<usize> = Vec::new();
        std::mem::swap(&mut below, &mut self.below);
        std::mem::swap(&mut above, &mut self.above);
        let s = sel as usize;
        let n = items.len();
        assert(s < n);
        (fresh(below, collect_rev(items, s + 1)), fresh(above, collect_from(items, s + 1)))
    }

    /// Store the results of two extensions as the new layout.
    fn store(&mut self, below: Incremental, above: Incremental)
        requires
            below.wf(),
            above.wf(),
            below.initial() == Seq::<usize>::empty(),
            above.initial() == Seq::<usize>::empty(),
        ensures
            final(self).below_lines() == laid_out(below.items(), below.pos(), below.partial()),
            final(self).above_lines() == laid_out(above.items(), above.pos(), above.partial()),
            seq_sum(final(self).below_lines()) == below.total(),
            seq_sum(final(self).above_lines()) == above.total(),
            final(self).alignment() == old(self).alignment(),
    {
        proof {
            below.lemma_contents();
            above.lemma_contents();
            assert(below.buffer() =~= below.filled());
            assert(above.buffer() =~= above.filled());
        }
        self.below = below.into_vec();
        self.above = above.into_vec();
    }

    /// Recompute the layout when the screen size or the paddings change.
    pub fn resize(&mut self, total_size: u16, padding_bottom: u16, padding_top: u16, items: &[usize])
        requires
            old(self).wf(),
            padding_bottom + padding_top < total_size,
            items@.len() > 0 ==> (old(self).alignment().selection as int) < items@.len(),
        ensures
            final(self).wf(),
            final(self).alignment().selection == old(self).alignment().selection,
            final(self).alignment().size == total_size,
            final(self).alignment().padding_top == padding_top,
            final(self).alignment().padding_bottom == padding_bottom,
            items@.len() == 0 ==> final(self).below_lines() == Seq::<usize>::empty()
                && final(self).above_lines() == Seq::<usize>::empty(),
            items@.len() > 0 ==> (final(self).below_lines(), final(self).above_lines())
                == matcher_resize_lines(
                old(self).alignment(),
                total_size,
                padding_top,
                padding_bottom,
                items@,
            ),
    {
        let hi = total_size - padding_bottom - 1;
        self.previous.above = if self.previous.above < padding_top {
            padding_top
        } else if self.previous.above > hi {
            hi
        } else {
            self.previous.above
        };
        if items.len() == 0 {
            self.below.clear();
            self.above.clear();
        } else {
            let sel = self.previous.selection;
            let previous = self.previous;
            let (mut below, mut above) = self.extensions(items, sel);
            if previous.size <= total_size {
                resize::larger(previous, total_size, &mut below, &mut above);
            } else {
                resize::smaller(previous, total_size, padding_top, &mut below, &mut above);
            }
            self.store(below, above);
        }
        self.previous.size = total_size;
        self.previous.padding_bottom = padding_bottom;
        self.previous.padding_top = padding_top;
        proof {
            crate::incremental::lemma_seq_sum_nonneg(self.below@);
            crate::incremental::lemma_seq_sum_nonneg(self.above@);
            if items@.len() == 0 {
                assert(seq_sum(self.below@) == 0);
                assert(seq_sum(self.above@) == 0);
            }
        }
        self.reset_above();
    }

    /// Reset the layout, setting the selection to the first item; returns whether it moved.
    pub fn reset(&mut self, items: &[usize]) -> (r: bool)
        requires
            old(self).wf(),
            old(self).alignment().selection != 0 ==> items@.len() > 0,
        ensures
            final(self).wf(),
            r == (old(self).alignment().selection != 0),
            final(self).alignment().selection == 0,
            final(self).alignment().size == old(self).alignment().size,
            final(self).alignment().padding_top == old(self).alignment().padding_top,
            final(self).alignment().padding_bottom == old(self).alignment().padding_bottom,
            r ==> (final(self).below_lines(), final(self).above_lines()) == lines_of(
                lower_incl(items@, 0),
                higher(items@, 0),
                reset_spec(
                    old(self).alignment().size as int,
                    old(self).alignment().padding_top as int,
                    lower_incl(items@, 0),
                    (0, 0),
                    higher(items@, 0),
                    (0, 0),
                ),
            ),
            !r ==> final(self).below_lines() == old(self).below_lines()
                && final(self).above_lines() == old(self).above_lines(),
    {
        proof {
            crate::incremental::lemma_seq_sum_nonneg(self.below@);
        }
        if self.previous.selection != 0 {
            let size = self.previous.size;
            let padding_top = self.previous.padding_top;
            let (mut below, mut above) = self.extensions(items, 0);
            crate::match_list::layout::reset::reset(size, padding_top, &mut below, &mut above);
            self.store(below, above);
            proof {
                crate::incremental::lemma_seq_sum_nonneg(self.below@);
                crate::incremental::lemma_seq_sum_nonneg(self.above@);
            }
            self.previous.selection = 0;
            self.reset_above();
            true
        } else {
            false
        }
    }

    /// Update the layout with the modified item list, keeping the (clamped) selection.
    pub fn update_items(&mut self, items: &[usize])
        requires
            old(self).wf(),
            items@.len() <= u32::MAX,
        ensures
            final(self).wf(),
            final(self).alignment().selection == clamp_selection(
                old(self).alignment().selection as int,
                items@.len() as int,
            ),
            final(self).alignment().size == old(self).alignment().size,
            final(self).alignment().padding_top == old(self).alignment().padding_top,
            final(self).alignment().padding_bottom == old(self).alignment().padding_bottom,
            items@.len() == 0 ==> final(self).below_lines() == Seq::<usize>::empty()
                && final(self).above_lines() == Seq::<usize>::empty(),
            items@.len() > 0 ==> {
                let sel = clamp_selection(old(self).alignment().selection as int, items@.len() as int);
                let prev = ScreenAlignment { selection: sel as u32, ..old(self).alignment() };
                let bi = lower_incl(items@, sel);
                let ai = higher(items@, sel);
                (final(self).below_lines(), final(self).above_lines()) == lines_of(
                    bi,
                    ai,
                    items_spec(as_state(prev), prev.padding_top as int, bi, (0, 0), ai, (0, 0)),
                )
            },
    {
        let total = items.len() as u32;
        let last = total.saturating_sub(1);
        if self.previous.selection > last {
            self.previous.selection = last;
        }
        if total > 0 {
            let sel = self.previous.selection;
            let previous = self.previous;
            let (mut below, mut above) = self.extensions(items, sel);
            crate::match_list::layout::update::items(
                state_of(previous),
                previous.padding_top,
                &mut below,
                &mut above,
            );
            self.store(below, above);
        } else {
            self.below.clear();
            self.above.clear();
            self.previous.selection = 0;
        }
        proof {
            crate::incremental::lemma_seq_sum_nonneg(self.below@);
            crate::incremental::lemma_seq_sum_nonneg(self.above@);
            if items@.len() == 0 {
                assert(seq_sum(self.below@) == 0);
                assert(seq_sum(self.above@) == 0);
            }
        }
        self.reset_above();
    }

    /// Increment the selection by the given amount (up to the last item); returns whether it
    /// moved.
    pub fn selection_incr(&mut self, increase: u32, items: &[usize]) -> (r: bool)
        requires
            old(self).wf(),
            items@.len() <= u32::MAX,
            items@.len() > 0 ==> (old(self).alignment().selection as int) < items@.len(),
            items@.len() == 0 ==> old(self).alignment().selection == 0,
        ensures
            final(self).wf(),
            final(self).alignment().selection == clamp_selection(
                if old(self).alignment().selection + increase <= u32::MAX {
                    old(self).alignment().selection + increase
                } else {
                    u32::MAX as int
                },
                items@.len() as int,
            ),
            r == (final(self).alignment().selection != old(self).alignment().selection),
            final(self).alignment().size == old(self).alignment().size,
            r ==> {
                let new = final(self).alignment().selection as int;
                let bi = lower_incl(items@, new);
                let ai = higher(items@, new);
                (final(self).below_lines(), final(self).above_lines()) == lines_of(
                    bi,
                    ai,
                    incr_spec(
                        as_state(old(self).alignment()),
                        new,
                        old(self).alignment().padding_top as int,
                        bi,
                        (0, 0),
                        ai,
                        (0, 0),
                    ),
                )
            },
            !r ==> final(self).below_lines() == old(self).below_lines()
                && final(self).above_lines() == old(self).above_lines(),
    {
        let total = items.len() as u32;
        let last = total.saturating_sub(1);
        let raised = self.previous.selection.saturating_add(increase);
        let new_selection = if raised <= last {
            raised
        } else {
            last
        };
        proof {
            crate::incremental::lemma_seq_sum_nonneg(self.below@);
        }
        if new_selection != self.previous.selection {
            let previous = self.previous;
            let (mut below, mut above) = self.extensions(items, new_selection);
            selection::incr(previous, new_selection, &mut below, &mut above);
            self.store(below, above);
            proof {
                crate::incremental::lemma_seq_sum_nonneg(self.below@);
                crate::incremental::lemma_seq_sum_nonneg(self.above@);
            }
            self.previous.selection = new_selection;
            self.reset_above();
            true
        } else {
            false
        }
    }

    /// Decrement the selection by the given amount (down to the first item); returns whether it
    /// moved.
    pub fn selection_decr(&mut self, decrease: u32, items: &[usize]) -> (r: bool)
        requires
            old(self).wf(),
            items@.len() > 0 ==> (old(self).alignment().selection as int) < items@.len(),
            items@.len() == 0 ==> old(self).alignment().selection == 0,
        ensures
            final(self).wf(),
            final(self).alignment().selection == if old(self).alignment().selection >= decrease {
                old(self).alignment().selection - decrease
            } else {
                0
            },
            r == (final(self).alignment().selection != old(self).alignment().selection),
            final(self).alignment().size == old(self).alignment().size,
            r ==> {
                let new = final(self).alignment().selection as int;
                let bi = lower_incl(items@, new);
                let ai = higher(items@, new);
                (final(self).below_lines(), final(self).above_lines()) == lines_of(
                    bi,
                    ai,
                    decr_spec(
                        as_state(old(self).alignment()),
                        new,
                        old(self).alignment().padding_top as int,
                        old(self).alignment().padding_bottom as int,
                        bi,
                        (0, 0),
                        ai,
                        (0, 0),
                    ),
                )
            },
            !r ==> final(self).below_lines() == old(self).below_lines()
                && final(self).above_lines() == old(self).above_lines(),
    {
        let new_selection = self.previous.selection.saturating_sub(decrease);
        proof {
            crate::incremental::lemma_seq_sum_nonneg(self.below@);
        }
        if new_selection != self.previous.selection {
            let previous = self.previous;
            let (mut below, mut above) = self.extensions(items, new_selection);
            selection::decr(previous, new_selection, &mut below, &mut above);
            self.store(below, above);
            proof {
                crate::incremental::lemma_seq_sum_nonneg(self.below@);
                crate::incremental::lemma_seq_sum_nonneg(self.above@);
            }
            self.previous.selection = new_selection;
            self.reset_above();
            true
        } else {
            false
        }
    }
}

} // verus!
