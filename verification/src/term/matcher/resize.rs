//! Layout of the terminal matcher when the screen size changes.
use vstd::prelude::*;

use super::{as_state, state_of, ScreenAlignment};
use crate::incremental::Incremental;
use crate::match_list::layout::resize::{larger_spec, smaller_allowed_above, smaller_spec};

verus! {

/// The screen grew: fill the space below as far as possible, then anything remaining above.
pub fn larger(
    previous: ScreenAlignment,
    total_remaining: u16,
    sizes_below_incl: &mut Incremental,
    sizes_above: &mut Incremental,
)
    requires
        previous.above <= total_remaining,
        old(sizes_below_incl).wf(),
        old(sizes_above).wf(),
    ensures
        final(sizes_below_incl).wf(),
        final(sizes_above).wf(),
        old(sizes_below_incl).same_source(final(sizes_below_incl)),
        old(sizes_above).same_source(final(sizes_above)),
        (final(sizes_below_incl).state(), final(sizes_above).state()) == larger_spec(
            as_state(previous),
            total_remaining as int,
            old(sizes_below_incl).items(),
            old(sizes_below_incl).state(),
            old(sizes_above).items(),
            old(sizes_above).state(),
        ),
        final(sizes_below_incl).total() - old(sizes_below_incl).total() + final(sizes_above).total()
            - old(sizes_above).total() <= total_remaining,
{
    crate::match_list::layout::resize::larger(
        state_of(previous),
        total_remaining,
        sizes_below_incl,
        sizes_above,
    );
}

/// The screen shrank: take the lost lines from above the selection (keeping the top padding),
/// render below, then above.
pub fn smaller(
    previous: ScreenAlignment,
    total_remaining: u16,
    padding_top: u16,
    sizes_below_incl: &mut Incremental,
    sizes_above: &mut Incremental,
)
    requires
        total_remaining <= previous.size,
        smaller_allowed_above(as_state(previous), total_remaining as int, padding_top as int)
            <= total_remaining,
        old(sizes_below_incl).wf(),
        old(sizes_above).wf(),
    ensures
        final(sizes_below_incl).wf(),
        final(sizes_above).wf(),
        old(sizes_below_incl).same_source(final(sizes_below_incl)),
        old(sizes_above).same_source(final(sizes_above)),
        (final(sizes_below_incl).state(), final(sizes_above).state()) == smaller_spec(
            as_state(previous),
            total_remaining as int,
            padding_top as int,
            old(sizes_below_incl).items(),
            old(sizes_below_incl).state(),
            old(sizes_above).items(),
            old(sizes_above).state(),
        ),
        final(sizes_below_incl).total() - old(sizes_below_incl).total() + final(sizes_above).total()
            - old(sizes_above).total() <= total_remaining,
{
    crate::match_list::layout::resize::smaller(
        state_of(previous),
        total_remaining,
        padding_top,
        sizes_below_incl,
        sizes_above,
    );
}

} // verus!
