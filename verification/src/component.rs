//! Components of the picker screen.
use vstd::prelude::*;

pub mod cursor;
pub mod editable;

pub use cursor::{Cursor, WindowView};

verus! {

/// The status returned by a component after handling an event.
pub trait ComponentStatus {
    /// Whether the component needs to be redrawn.
    spec fn spec_needs_redraw(&self) -> bool;

    /// Whether the component needs to be redrawn.
    fn needs_redraw(&self) -> (r: bool)
        ensures
            r == self.spec_needs_redraw(),
    ;
}

impl ComponentStatus for bool {
    open spec fn spec_needs_redraw(&self) -> bool {
        *self
    }

    fn needs_redraw(&self) -> (r: bool) {
        *self
    }
}

} // verus!
