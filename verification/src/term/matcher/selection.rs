//! Layout of the terminal matcher when the selection moves.
use vstd::prelude::*;

use super::{as_state, state_of, ScreenAlignment};
use crate::incremental::Incremental;
use crate::match_list::layout::selection::{decr_spec, incr_spec};

verus! {

/// The selection moved up to `cursor`: render the new items above the old selection, then fill
/// the space above (keeping the top padding) and below.
pub fn incr(
    previous: ScreenAlignment,
    cursor: u32,
    sizes_below_incl: &mut Incremental,
    sizes_above: &mut Incremental,
)
    requires
        previous.padding_top <= previous.size,
        previous.above <= previous.size,
        previous.selection <= cursor,
        old(sizes_below_incl).wf(),
        old(sizes_above).wf(),
    ensures
        final(sizes_below_incl).wf(),
        final(sizes_above).wf(),
        old(sizes_below_incl).same_source(final(sizes_below_incl)),
        old(sizes_above).same_source(final(sizes_above)),
        (final(sizes_below_incl).state(), final(sizes_above).state()) == incr_spec(
            as_state(previous),
            cursor as int,
            previous.padding_top as int,
            old(sizes_below_incl).items(),
            old(sizes_below_incl).state(),
            old(sizes_above).items(),
            old(sizes_above).state(),
        ),
        final(sizes_below_incl).total() - old(sizes_below_incl).total() + final(sizes_above).total()
            - old(sizes_above).total() <= previous.size,
{
    crate::match_list::layout::selection::incr(
        state_of(previous),
        cursor,
        previous.padding_top,
        sizes_below_incl,
        sizes_above,
    );
}

/// The selection moved down to `cursor`: render the selection and the bottom padding, then the
/// items above up to the old selection, then what space remains.
pub fn decr(
    previous: ScreenAlignment,
    cursor: u32,
    sizes_below_incl: &mut Incremental,
    sizes_above: &mut Incremental,
)
    requires
        previous.padding_top <= previous.size,
        previous.padding_bottom < previous.size,
        cursor <= previous.selection,
        old(sizes_below_incl).wf(),
        old(sizes_above).wf(),
    ensures
        final(sizes_below_incl).wf(),
        final(sizes_above).wf(),
        old(sizes_below_incl).same_source(final(sizes_below_incl)),
        old(sizes_above).same_source(final(sizes_above)),
        (final(sizes_below_incl).state(), final(sizes_above).state()) == decr_spec(
            as_state(previous),
            cursor as int,
            previous.padding_top as int,
            previous.padding_bottom as int,
            old(sizes_below_incl).items(),
            old(sizes_below_incl).state(),
            old(sizes_above).items(),
            old(sizes_above).state(),
        ),
        final(sizes_below_incl).total() - old(sizes_below_incl).total() + final(sizes_above).total()
            - old(sizes_above).total() <= previous.size,
{
    crate::match_list::layout::selection::decr(
        state_of(previous),
        cursor,
        previous.padding_top,
        previous.padding_bottom,
        sizes_below_incl,
        sizes_above,
    );
}

} // verus!
