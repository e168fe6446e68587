//! The layout computations of the match list, one module per kind of change.
pub mod reset;
pub mod resize;
pub mod selection;
pub mod update;
