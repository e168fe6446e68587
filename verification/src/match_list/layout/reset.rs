//! Layout when the selection is reset to the first item.
use vstd::prelude::*;

use crate::incremental::{amt, ext, ExtendIncremental, Incremental};

verus! {

/// The states reached by [`reset`].
pub open spec fn reset_spec(
    total: int,
    padding_top: int,
    bi: Seq<usize>,
    bs: (nat, nat),
    ai: Seq<usize>,
    as_: (nat, nat),
) -> ((nat, nat), (nat, nat)) {
    let lim = total - padding_top;
    let r = amt(bi, bs, lim, None);
    (ext(bi, bs, lim, None), ext(ai, as_, total - r, None))
}

/// Render from the first item: fill below without taking the top padding, then fill above.
pub fn reset(
    total_remaining: u16,
    padding_top: u16,
    sizes_below_incl: &mut Incremental,
    sizes_above: &mut Incremental,
)
    requires
        padding_top <= total_remaining,
        old(sizes_below_incl).wf(),
        old(sizes_above).wf(),
    ensures
        final(sizes_below_incl).wf(),
        final(sizes_above).wf(),
        old(sizes_below_incl).same_source(final(sizes_below_incl)),
        old(sizes_above).same_source(final(sizes_above)),
        (final(sizes_below_incl).state(), final(sizes_above).state()) == reset_spec(
            total_remaining as int,
            padding_top as int,
            old(sizes_below_incl).items(),
            old(sizes_below_incl).state(),
            old(sizes_above).items(),
            old(sizes_above).state(),
        ),
        final(sizes_below_incl).total() - old(sizes_below_incl).total() + final(sizes_above).total()
            - old(sizes_above).total() <= total_remaining,
{
    let mut total_remaining = total_remaining;
    total_remaining = total_remaining - sizes_below_incl.extend_unbounded(total_remaining - padding_top);
    sizes_above.extend_unbounded(total_remaining);
}

/// The state reached by [`reset_rev`].
pub open spec fn reset_rev_spec(total: int, bi: Seq<usize>, bs: (nat, nat)) -> (nat, nat) {
    ext(bi, bs, total, None)
}

/// Render from the first item in the reversed layout: fill the screen below.
pub fn reset_rev(total_remaining: u16, sizes_below_incl: &mut Incremental)
    requires
        old(sizes_below_incl).wf(),
    ensures
        final(sizes_below_incl).wf(),
        old(sizes_below_incl).same_source(final(sizes_below_incl)),
        final(sizes_below_incl).state() == reset_rev_spec(
            total_remaining as int,
            old(sizes_below_incl).items(),
            old(sizes_below_incl).state(),
        ),
        final(sizes_below_incl).total() - old(sizes_below_incl).total() <= total_remaining,
{
    sizes_below_incl.extend_unbounded(total_remaining);
}

} // verus!
