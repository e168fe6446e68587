//! Layout when the screen size changes.
use vstd::prelude::*;

use crate::incremental::{amt, ext, ExtendIncremental, Incremental};
use crate::match_list::MatchListState;

verus! {

/// The states reached by [`larger`].
pub open spec fn larger_spec(
    previous: MatchListState,
    total: int,
    bi: Seq<usize>,
    bs: (nat, nat),
    ai: Seq<usize>,
    as_: (nat, nat),
) -> ((nat, nat), (nat, nat)) {
    let lim = total - previous.above;
    let r = amt(bi, bs, lim, None);
    (ext(bi, bs, lim, None), ext(ai, as_, total - r, None))
}

/// The screen grew: fill the space below as far as possible, then anything remaining above.
pub fn larger(
    previous: MatchListState,
    total_remaining: u16,
    sizes_below_incl: &mut Incremental,
    sizes_above: &mut Incremental,
)
    requires
        previous.above <= total_remaining,
        old(sizes_below_incl).wf(),
        old(sizes_above).wf(),
    ensures
        final(sizes_below_incl).wf(),
        final(sizes_above).wf(),
        old(sizes_below_incl).same_source(final(sizes_below_incl)),
        old(sizes_above).same_source(final(sizes_above)),
        (final(sizes_below_incl).state(), final(sizes_above).state()) == larger_spec(
            previous,
            total_remaining as int,
            old(sizes_below_incl).items(),
            old(sizes_below_incl).state(),
            old(sizes_above).items(),
            old(sizes_above).state(),
        ),
        final(sizes_below_incl).total() - old(sizes_below_incl).total() + final(sizes_above).total()
            - old(sizes_above).total() <= total_remaining,
{
    let mut total_remaining = total_remaining;
    total_remaining = total_remaining - sizes_below_incl.extend_unbounded(
        total_remaining - previous.above,
    );
    sizes_above.extend_unbounded(total_remaining);
}

/// The space kept above the selection when the screen shrinks to `total`.
pub open spec fn smaller_allowed_above(previous: MatchListState, total: int, padding_top: int) -> int {
    let shrunk = if previous.above >= previous.size - total {
        previous.above - (previous.size - total)
    } else {
        0
    };
    if shrunk >= padding_top {
        shrunk
    } else {
        padding_top
    }
}

/// The states reached by [`smaller`].
pub open spec fn smaller_spec(
    previous: MatchListState,
    total: int,
    padding_top: int,
    bi: Seq<usize>,
    bs: (nat, nat),
    ai: Seq<usize>,
    as_: (nat, nat),
) -> ((nat, nat), (nat, nat)) {
    let lim = total - smaller_allowed_above(previous, total, padding_top);
    let r = amt(bi, bs, lim, None);
    (ext(bi, bs, lim, None), ext(ai, as_, total - r, None))
}

/// The screen shrank: take the lost lines from above the selection (keeping the top padding),
/// render below, then above.
pub fn smaller(
    previous: MatchListState,
    total_remaining: u16,
    padding_top: u16,
    sizes_below_incl: &mut Incremental,
    sizes_above: &mut Incremental,
)
    requires
        total_remaining <= previous.size,
        smaller_allowed_above(previous, total_remaining as int, padding_top as int)
            <= total_remaining,
        old(sizes_below_incl).wf(),
        old(sizes_above).wf(),
    ensures
        final(sizes_below_incl).wf(),
        final(sizes_above).wf(),
        old(sizes_below_incl).same_source(final(sizes_below_incl)),
        old(sizes_above).same_source(final(sizes_above)),
        (final(sizes_below_incl).state(), final(sizes_above).state()) == smaller_spec(
            previous,
            total_remaining as int,
            padding_top as int,
            old(sizes_below_incl).items(),
            old(sizes_below_incl).state(),
            old(sizes_above).items(),
            old(sizes_above).state(),
        ),
        final(sizes_below_incl).total() - old(sizes_below_incl).total() + final(sizes_above).total()
            - old(sizes_above).total() <= total_remaining,
{
    let mut total_remaining = total_remaining;
    let shrunk = previous.above.saturating_sub(previous.size - total_remaining);
    let max_allowed_above = if shrunk >= padding_top { shrunk } else { padding_top };
    let max_allowed_below = total_remaining - max_allowed_above;
    total_remaining = total_remaining - sizes_below_incl.extend_unbounded(max_allowed_below);
    sizes_above.extend_unbounded(total_remaining);
}

/// The states reached by [`larger_rev`].
pub open spec fn larger_rev_spec(
    previous: MatchListState,
    total: int,
    padding_top: int,
    bi: Seq<usize>,
    bs: (nat, nat),
    ai: Seq<usize>,
    as_: (nat, nat),
) -> ((nat, nat), (nat, nat)) {
    let s1 = bs;
    let r1 = amt(bi, s1, total - padding_top, Some(1));
    let s2 = ext(bi, s1, total - padding_top, Some(1));
    let t1 = total - r1;
    let lim2 = if t1 <= total - previous.below { t1 } else { total - previous.below };
    let r2 = amt(ai, as_, lim2, None);
    (ext(bi, s2, t1 - r2, None), ext(ai, as_, lim2, None))
}

/// The screen grew in the reversed layout: render as much of the selection as possible, then the
/// new space above, then anything remaining below.
pub fn larger_rev(
    previous: MatchListState,
    total_remaining: u16,
    padding_top: u16,
    sizes_below_incl: &mut Incremental,
    sizes_above: &mut Incremental,
)
    requires
        padding_top <= total_remaining,
        previous.below <= total_remaining,
        old(sizes_below_incl).wf(),
        old(sizes_above).wf(),
    ensures
        final(sizes_below_incl).wf(),
        final(sizes_above).wf(),
        old(sizes_below_incl).same_source(final(sizes_below_incl)),
        old(sizes_above).same_source(final(sizes_above)),
        (final(sizes_below_incl).state(), final(sizes_above).state()) == larger_rev_spec(
            previous,
            total_remaining as int,
            padding_top as int,
            old(sizes_below_incl).items(),
            old(sizes_below_incl).state(),
            old(sizes_above).items(),
            old(sizes_above).state(),
        ),
        final(sizes_below_incl).total() - old(sizes_below_incl).total() + final(sizes_above).total()
            - old(sizes_above).total() <= total_remaining,
{
    let new_size = total_remaining;
    let mut total_remaining = total_remaining;
    total_remaining = total_remaining - sizes_below_incl.extend_bounded(
        total_remaining - padding_top,
        1,
    );
    let lim = if total_remaining <= new_size - previous.below {
        total_remaining
    } else {
        new_size - previous.below
    };
    total_remaining = total_remaining - sizes_above.extend_unbounded(lim);
    sizes_below_incl.extend_unbounded(total_remaining);
}

/// The space kept below the selection when the reversed screen shrinks to `total`.
pub open spec fn smaller_rev_allowed_below(
    previous: MatchListState,
    total: int,
    padding_bottom: int,
    selection_size: int,
) -> int {
    let shrunk = if previous.below >= previous.size - total {
        previous.below - (previous.size - total)
    } else {
        0
    };
    let a = if shrunk >= padding_bottom + 1 {
        shrunk
    } else {
        padding_bottom + 1
    };
    if a >= selection_size {
        a
    } else {
        selection_size
    }
}

/// The states reached by [`smaller_rev`].
pub open spec fn smaller_rev_spec(
    previous: MatchListState,
    total: int,
    padding_top: int,
    padding_bottom: int,
    bi: Seq<usize>,
    bs: (nat, nat),
    ai: Seq<usize>,
    as_: (nat, nat),
) -> ((nat, nat), (nat, nat)) {
    let s1 = bs;
    let sel = amt(bi, s1, total - padding_top, Some(1));
    let s2 = ext(bi, s1, total - padding_top, Some(1));
    let lim_above = total - smaller_rev_allowed_below(previous, total, padding_bottom, sel);
    let ra = amt(ai, as_, lim_above, None);
    (ext(bi, s2, total - sel - ra, None), ext(ai, as_, lim_above, None))
}

/// The screen shrank in the reversed layout: render as much of the selection as possible, take the
/// lost lines from below (keeping the bottom padding and the selection), render above, then below.
pub fn smaller_rev(
    previous: MatchListState,
    total_remaining: u16,
    padding_top: u16,
    padding_bottom: u16,
    sizes_below_incl: &mut Incremental,
    sizes_above: &mut Incremental,
)
    requires
        total_remaining <= previous.size,
        padding_top <= total_remaining,
        padding_bottom < total_remaining,
        previous.below <= previous.size,
        old(sizes_below_incl).wf(),
        old(sizes_above).wf(),
    ensures
        final(sizes_below_incl).wf(),
        final(sizes_above).wf(),
        old(sizes_below_incl).same_source(final(sizes_below_incl)),
        old(sizes_above).same_source(final(sizes_above)),
        (final(sizes_below_incl).state(), final(sizes_above).state()) == smaller_rev_spec(
            previous,
            total_remaining as int,
            padding_top as int,
            padding_bottom as int,
            old(sizes_below_incl).items(),
            old(sizes_below_incl).state(),
            old(sizes_above).items(),
            old(sizes_above).state(),
        ),
        final(sizes_below_incl).total() - old(sizes_below_incl).total() + final(sizes_above).total()
            - old(sizes_above).total() <= total_remaining,
{
    let mut total_remaining = total_remaining;
    let screen_delta = previous.size - total_remaining;
    let selection_size = sizes_below_incl.extend_bounded(total_remaining - padding_top, 1);
    let shrunk = previous.below.saturating_sub(screen_delta);
    let a = if shrunk >= padding_bottom + 1 { shrunk } else { padding_bottom + 1 };
    let max_allowed_below = if a >= selection_size { a } else { selection_size };
    let max_allowed_above = total_remaining - max_allowed_below;
    total_remaining = total_remaining - selection_size;
    total_remaining = total_remaining - sizes_above.extend_unbounded(max_allowed_above);
    sizes_below_incl.extend_unbounded(total_remaining);
}

} // verus!
