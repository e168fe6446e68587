//! Events that drive the picker.
use std::convert::Infallible;
use std::io;

use vstd::prelude::*;

pub use crate::match_list::MatchListEvent;
pub use crate::prompt::PromptEvent;

pub mod bind;

verus! {

/// An event which controls the picker.
///
/// The type parameter `A` is an application-defined error by which the application can abort the
/// picker.
#[non_exhaustive]
pub enum Event<A = Infallible> {
    /// Modify the prompt.
    Prompt(PromptEvent),
    /// Modify the list of matches.
    MatchList(MatchListEvent),
    /// Quit the picker (no selection).
    Quit,
    /// Quit the picker (no selection) if the prompt is empty.
    QuitPromptEmpty,
    /// Abort the picker (error) at user request.
    UserInterrupt,
    /// Abort the picker (error) for another reason.
    Abort(A),
    /// Redraw the screen.
    Redraw,
    /// Quit the picker and select the current item, or the queued items.
    Select,
    /// Restart the picker: the matcher starts over, and a new injector is handed out.
    Restart,
}

/// Why no event was received: like a channel's receive-with-timeout error, but also permitting an
/// IO error from reading standard input.
#[non_exhaustive]
pub enum RecvError {
    /// No event was received because we timed out.
    Timeout,
    /// The source is disconnected and there are no more messages.
    Disconnected,
    /// An IO error occurred while trying to read an event.
    IO(io::Error),
}

impl RecvError {
    /// The error for an IO error.
    pub fn from_io(err: io::Error) -> (r: Self)
        ensures
            r == RecvError::IO(err),
    {
        RecvError::IO(err)
    }

    /// The error for a channel that timed out (`true`) or disconnected (`false`).
    pub fn from_channel(timed_out: bool) -> (r: Self)
        ensures
            timed_out ==> r is Timeout,
            !timed_out ==> r is Disconnected,
    {
        if timed_out {
            RecvError::Timeout
        } else {
            RecvError::Disconnected
        }
    }
}

} // verus!
