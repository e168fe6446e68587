//! Layout when the selection moves.
use vstd::prelude::*;

use crate::incremental::{amt, ext, ExtendIncremental, Incremental};
use crate::match_list::MatchListState;
use crate::util::as_usize;

verus! {

/// The number of items a selection change moves by, as a step bound.
pub open spec fn step_bound(d: int) -> nat {
    if d <= usize::MAX { d as nat } else { usize::MAX as nat }
}

/// The states reached by [`incr`].
pub open spec fn incr_spec(
    previous: MatchListState,
    cursor: int,
    padding_top: int,
    bi: Seq<usize>,
    bs: (nat, nat),
    ai: Seq<usize>,
    as_: (nat, nat),
) -> ((nat, nat), (nat, nat)) {
    let total = previous.size as int;
    let steps = Some(step_bound(cursor - previous.selection));
    let s1 = bs;
    let n = amt(bi, s1, total - padding_top, steps);
    let s2 = ext(bi, s1, total - padding_top, steps);
    let shrunk = if previous.above >= n { previous.above - n } else { 0 };
    let max_above = if shrunk >= padding_top { shrunk } else { padding_top };
    (ext(bi, s2, total - n - max_above, None), ext(ai, as_, max_above, None))
}

/// The selection moved up: render the new items between the old and the new selection, reduce the
/// space above by as much (keeping the top padding), render above, then below.
pub fn incr(
    previous: MatchListState,
    cursor: u32,
    padding_top: u16,
    sizes_below_incl: &mut Incremental,
    sizes_above: &mut Incremental,
)
    requires
        padding_top <= previous.size,
        previous.above <= previous.size,
        previous.selection <= cursor,
        old(sizes_below_incl).wf(),
        old(sizes_above).wf(),
    ensures
        final(sizes_below_incl).wf(),
        final(sizes_above).wf(),
        old(sizes_below_incl).same_source(final(sizes_below_incl)),
        old(sizes_above).same_source(final(sizes_above)),
        (final(sizes_below_incl).state(), final(sizes_above).state()) == incr_spec(
            previous,
            cursor as int,
            padding_top as int,
            old(sizes_below_incl).items(),
            old(sizes_below_incl).state(),
            old(sizes_above).items(),
            old(sizes_above).state(),
        ),
        final(sizes_below_incl).total() - old(sizes_below_incl).total() + final(sizes_above).total()
            - old(sizes_above).total() <= previous.size,
{
    let mut total_remaining = previous.size;
    let new_size_above = sizes_below_incl.extend_bounded(
        total_remaining - padding_top,
        as_usize(cursor - previous.selection),
    );
    total_remaining = total_remaining - new_size_above;
    let shrunk = previous.above.saturating_sub(new_size_above);
    let max_allowed_above = if shrunk >= padding_top { shrunk } else { padding_top };
    sizes_above.extend_unbounded(max_allowed_above);
    sizes_below_incl.extend_unbounded(total_remaining - max_allowed_above);
}

/// The states reached by [`decr`].
pub open spec fn decr_spec(
    previous: MatchListState,
    cursor: int,
    padding_top: int,
    padding_bottom: int,
    bi: Seq<usize>,
    bs: (nat, nat),
    ai: Seq<usize>,
    as_: (nat, nat),
) -> ((nat, nat), (nat, nat)) {
    let total = previous.size as int;
    let b1 = bs;
    let sel = amt(bi, b1, total - padding_top, Some(1));
    let b2 = ext(bi, b1, total - padding_top, Some(1));
    let t1 = total - sel;
    let lim_pad = if padding_bottom + 1 >= sel { padding_bottom + 1 - sel } else { 0 };
    let r2 = amt(bi, b2, lim_pad, None);
    let b3 = ext(bi, b2, lim_pad, None);
    let t2 = t1 - r2;
    let a1 = as_;
    let steps = Some(step_bound(previous.selection - cursor));
    let r3 = amt(ai, a1, t2, steps);
    let a2 = ext(ai, a1, t2, steps);
    let t3 = t2 - r3;
    let max_below = t3 - if t3 <= previous.above { t3 } else { previous.above as int };
    let r4 = amt(bi, b3, max_below, None);
    let b4 = ext(bi, b3, max_below, None);
    (b4, ext(ai, a2, t3 - r4, None))
}

/// The selection moved down: render as much of the selection as possible and the bottom padding,
/// then the items up to the old selection, then below without scrolling unnecessarily, then above.
pub fn decr(
    previous: MatchListState,
    cursor: u32,
    padding_top: u16,
    padding_bottom: u16,
    sizes_below_incl: &mut Incremental,
    sizes_above: &mut Incremental,
)
    requires
        padding_top <= previous.size,
        padding_bottom < previous.size,
        cursor <= previous.selection,
        old(sizes_below_incl).wf(),
        old(sizes_above).wf(),
    ensures
        final(sizes_below_incl).wf(),
        final(sizes_above).wf(),
        old(sizes_below_incl).same_source(final(sizes_below_incl)),
        old(sizes_above).same_source(final(sizes_above)),
        (final(sizes_below_incl).state(), final(sizes_above).state()) == decr_spec(
            previous,
            cursor as int,
            padding_top as int,
            padding_bottom as int,
            old(sizes_below_incl).items(),
            old(sizes_below_incl).state(),
            old(sizes_above).items(),
            old(sizes_above).state(),
        ),
        final(sizes_below_incl).total() - old(sizes_below_incl).total() + final(sizes_above).total()
            - old(sizes_above).total() <= previous.size,
{
    let mut total_remaining = previous.size;
    let selection_rendered = sizes_below_incl.extend_bounded(total_remaining - padding_top, 1);
    total_remaining = total_remaining - selection_rendered;
    total_remaining = total_remaining - sizes_below_incl.extend_unbounded(
        (padding_bottom + 1).saturating_sub(selection_rendered),
    );
    total_remaining = total_remaining - sizes_above.extend_bounded(
        total_remaining,
        as_usize(previous.selection - cursor),
    );
    let kept = if total_remaining <= previous.above { total_remaining } else { previous.above };
    let max_space_below = total_remaining - kept;
    total_remaining = total_remaining - sizes_below_incl.extend_unbounded(max_space_below);
    sizes_above.extend_unbounded(total_remaining);
}

/// The states reached by [`incr_rev`].
pub open spec fn incr_rev_spec(
    previous: MatchListState,
    cursor: int,
    padding_top: int,
    padding_bottom: int,
    bi: Seq<usize>,
    bs: (nat, nat),
    ai: Seq<usize>,
    as_: (nat, nat),
) -> ((nat, nat), (nat, nat)) {
    let total = previous.size as int;
    let b1 = bs;
    let sel = amt(bi, b1, total - padding_top, Some(1));
    let b2 = ext(bi, b1, total - padding_top, Some(1));
    let t1 = total - sel;
    let lim = if t1 <= total - padding_bottom - 1 { t1 } else { total - padding_bottom - 1 };
    let steps = Some(step_bound(cursor - previous.selection));
    let a1 = as_;
    let ra = amt(ai, a1, lim, steps);
    let a2 = ext(ai, a1, lim, steps);
    let t2 = t1 - ra;
    let reserved = ra + if sel >= padding_bottom + 1 { sel } else { padding_bottom + 1 };
    let max_above = total - if reserved >= previous.below { reserved } else { previous.below as int };
    let r3 = amt(ai, a2, max_above, None);
    let a3 = ext(ai, a2, max_above, None);
    (ext(bi, b2, t2 - r3, None), a3)
}

/// The selection moved up in the reversed layout: render as much of the selection as possible,
/// then the items up to the old selection without filling the bottom padding, then above, then
/// anything remaining below.
pub fn incr_rev(
    previous: MatchListState,
    cursor: u32,
    padding_top: u16,
    padding_bottom: u16,
    sizes_below_incl: &mut Incremental,
    sizes_above: &mut Incremental,
)
    requires
        padding_top <= previous.size,
        padding_bottom < previous.size,
        previous.below <= previous.size,
        previous.selection <= cursor,
        old(sizes_below_incl).wf(),
        old(sizes_above).wf(),
    ensures
        final(sizes_below_incl).wf(),
        final(sizes_above).wf(),
        old(sizes_below_incl).same_source(final(sizes_below_incl)),
        old(sizes_above).same_source(final(sizes_above)),
        (final(sizes_below_incl).state(), final(sizes_above).state()) == incr_rev_spec(
            previous,
            cursor as int,
            padding_top as int,
            padding_bottom as int,
            old(sizes_below_incl).items(),
            old(sizes_below_incl).state(),
            old(sizes_above).items(),
            old(sizes_above).state(),
        ),
        final(sizes_below_incl).total() - old(sizes_below_incl).total() + final(sizes_above).total()
            - old(sizes_above).total() <= previous.size,
{
    let mut total_remaining = previous.size;
    let selection_rendered = sizes_below_incl.extend_bounded(total_remaining - padding_top, 1);
    total_remaining = total_remaining - selection_rendered;
    let cap = previous.size - padding_bottom - 1;
    let lim = if total_remaining <= cap { total_remaining } else { cap };
    let rendered_above = sizes_above.extend_bounded(lim, as_usize(cursor - previous.selection));
    total_remaining = total_remaining - rendered_above;
    let sel_or_pad = if selection_rendered >= padding_bottom + 1 {
        selection_rendered
    } else {
        padding_bottom + 1
    };
    let reserved = rendered_above + sel_or_pad;
    let max_space_above = previous.size - if reserved >= previous.below {
        reserved
    } else {
        previous.below
    };
    total_remaining = total_remaining - sizes_above.extend_unbounded(max_space_above);
    sizes_below_incl.extend_unbounded(total_remaining);
}

/// The states reached by [`decr_rev`].
pub open spec fn decr_rev_spec(
    previous: MatchListState,
    cursor: int,
    padding_top: int,
    bi: Seq<usize>,
    bs: (nat, nat),
    ai: Seq<usize>,
    as_: (nat, nat),
) -> ((nat, nat), (nat, nat)) {
    let total = previous.size as int;
    let steps = Some(step_bound(previous.selection - cursor));
    let b1 = bs;
    let n = amt(bi, b1, total - padding_top, steps);
    let b2 = ext(bi, b1, total - padding_top, steps);
    let free = previous.size - previous.below;
    let shrunk = if free >= n { free - n } else { 0 };
    let max_above = if shrunk >= padding_top { shrunk } else { padding_top };
    let ra = amt(ai, as_, max_above, None);
    (ext(bi, b2, total - n - ra, None), ext(ai, as_, max_above, None))
}

/// The selection moved down in the reversed layout: render the new items between the new and the
/// old selection, reduce the space above by as much (keeping the top padding), render above, then
/// below.
pub fn decr_rev(
    previous: MatchListState,
    cursor: u32,
    padding_top: u16,
    sizes_below_incl: &mut Incremental,
    sizes_above: &mut Incremental,
)
    requires
        padding_top <= previous.size,
        previous.below <= previous.size,
        cursor <= previous.selection,
        old(sizes_below_incl).wf(),
        old(sizes_above).wf(),
    ensures
        final(sizes_below_incl).wf(),
        final(sizes_above).wf(),
        old(sizes_below_incl).same_source(final(sizes_below_incl)),
        old(sizes_above).same_source(final(sizes_above)),
        (final(sizes_below_incl).state(), final(sizes_above).state()) == decr_rev_spec(
            previous,
            cursor as int,
            padding_top as int,
            old(sizes_below_incl).items(),
            old(sizes_below_incl).state(),
            old(sizes_above).items(),
            old(sizes_above).state(),
        ),
        final(sizes_below_incl).total() - old(sizes_below_incl).total() + final(sizes_above).total()
            - old(sizes_above).total() <= previous.size,
{
    let mut total_remaining = previous.size;
    let new_size_above = sizes_below_incl.extend_bounded(
        total_remaining - padding_top,
        as_usize(previous.selection - cursor),
    );
    total_remaining = total_remaining - new_size_above;
    let shrunk = (previous.size - previous.below).saturating_sub(new_size_above);
    let max_space_above = if shrunk >= padding_top { shrunk } else { padding_top };
    total_remaining = total_remaining - sizes_above.extend_unbounded(max_space_above);
    sizes_below_incl.extend_unbounded(total_remaining);
}

} // verus!
