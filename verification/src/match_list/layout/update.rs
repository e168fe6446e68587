//! Layout when the list of items changes.
use vstd::prelude::*;

use crate::incremental::{amt, ext, ExtendIncremental, Incremental};
use crate::match_list::MatchListState;

verus! {

/// The states reached by [`items`].
pub open spec fn items_spec(
    previous: MatchListState,
    padding_top: int,
    bi: Seq<usize>,
    bs: (nat, nat),
    ai: Seq<usize>,
    as_: (nat, nat),
) -> ((nat, nat), (nat, nat)) {
    let total = previous.size as int;
    let s1 = bs;
    let r1 = amt(bi, s1, total - padding_top, Some(1));
    let s2 = ext(bi, s1, total - padding_top, Some(1));
    let t1 = total - r1;
    let lim2 = if t1 >= previous.above { t1 - previous.above } else { 0 };
    let r2 = amt(bi, s2, lim2, None);
    let s3 = ext(bi, s2, lim2, None);
    (s3, ext(ai, as_, t1 - r2, None))
}

/// Render the selection, then below it while keeping the space previously above the selection if
/// possible, then anything remaining above.
pub fn items(
    previous: MatchListState,
    padding_top: u16,
    sizes_below_incl: &mut Incremental,
    sizes_above: &mut Incremental,
)
    requires
        padding_top <= previous.size,
        old(sizes_below_incl).wf(),
        old(sizes_above).wf(),
    ensures
        final(sizes_below_incl).wf(),
        final(sizes_above).wf(),
        old(sizes_below_incl).same_source(final(sizes_below_incl)),
        old(sizes_above).same_source(final(sizes_above)),
        (final(sizes_below_incl).state(), final(sizes_above).state()) == items_spec(
            previous,
            padding_top as int,
            old(sizes_below_incl).items(),
            old(sizes_below_incl).state(),
            old(sizes_above).items(),
            old(sizes_above).state(),
        ),
        final(sizes_below_incl).total() - old(sizes_below_incl).total() + final(sizes_above).total()
            - old(sizes_above).total() <= previous.size,
{
    let mut total_remaining = previous.size;
    total_remaining = total_remaining - sizes_below_incl.extend_bounded(
        total_remaining - padding_top,
        1,
    );
    total_remaining = total_remaining - sizes_below_incl.extend_unbounded(
        total_remaining.saturating_sub(previous.above),
    );
    sizes_above.extend_unbounded(total_remaining);
}

/// The states reached by [`items_rev`].
pub open spec fn items_rev_spec(
    previous: MatchListState,
    padding_top: int,
    bi: Seq<usize>,
    bs: (nat, nat),
    ai: Seq<usize>,
    as_: (nat, nat),
) -> ((nat, nat), (nat, nat)) {
    let total = previous.size as int;
    let s1 = bs;
    let sel = amt(bi, s1, total - padding_top, Some(1));
    let s2 = ext(bi, s1, total - padding_top, Some(1));
    let keep = if previous.below >= sel { previous.below as int } else { sel };
    let lim = if total >= keep { total - keep } else { 0 };
    let ra = amt(ai, as_, lim, None);
    (ext(bi, s2, total - ra - sel, None), ext(ai, as_, lim, None))
}

/// Render the selection and the space above it while keeping the space previously below the
/// selection if possible, then anything remaining below.
pub fn items_rev(
    previous: MatchListState,
    padding_top: u16,
    sizes_below_incl: &mut Incremental,
    sizes_above: &mut Incremental,
)
    requires
        padding_top <= previous.size,
        old(sizes_below_incl).wf(),
        old(sizes_above).wf(),
    ensures
        final(sizes_below_incl).wf(),
        final(sizes_above).wf(),
        old(sizes_below_incl).same_source(final(sizes_below_incl)),
        old(sizes_above).same_source(final(sizes_above)),
        (final(sizes_below_incl).state(), final(sizes_above).state()) == items_rev_spec(
            previous,
            padding_top as int,
            old(sizes_below_incl).items(),
            old(sizes_below_incl).state(),
            old(sizes_above).items(),
            old(sizes_above).state(),
        ),
        final(sizes_below_incl).total() - old(sizes_below_incl).total() + final(sizes_above).total()
            - old(sizes_above).total() <= previous.size,
{
    let mut total_remaining = previous.size;
    let selection_size = sizes_below_incl.extend_bounded(total_remaining - padding_top, 1);
    let keep = if previous.below >= selection_size { previous.below } else { selection_size };
    total_remaining = total_remaining - sizes_above.extend_unbounded(
        total_remaining.saturating_sub(keep),
    );
    total_remaining = total_remaining - selection_size;
    sizes_below_incl.extend_unbounded(total_remaining);
}

} // verus!
