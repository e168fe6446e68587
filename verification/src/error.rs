//! Errors during interactive picker usage.
use std::convert::Infallible;
use std::io;

use vstd::prelude::*;

verus! {

#[verifier::external_type_specification]
#[verifier::external_body]
pub struct ExIoError(io::Error);

/// An error which may be returned while running the picker interactively.
///
/// The type parameter `A` is an application-defined error by which the application can abort the
/// picker; this library never aborts by itself.
#[derive(Debug)]
#[non_exhaustive]
pub enum PickError<A = Infallible> {
    /// A read or write resulted in an IO error.
    IO(io::Error),
    /// The event stream disconnected while the picker was still running.
    Disconnected,
    /// The picker quit at the user's request.
    UserInterrupted,
    /// The picker could not be started since the writer is not interactive.
    NotInteractive,
    /// The picker was aborted because of an upstream error.
    Aborted(A),
}

impl<A> PickError<A> {
    /// The error for an IO error.
    pub fn from_io(err: io::Error) -> (r: Self)
        ensures
            r == PickError::<A>::IO(err),
    {
        PickError::IO(err)
    }

    /// The message of the variants that carry no error of their own; `None` for `IO` and
    /// `Aborted`, which are described by the error they carry.
    pub fn message(&self) -> (r: Option<&'static str>)
        ensures
            r is None <==> (self is IO || self is Aborted),
            self is Disconnected ==> r is Some && r->0@
                == "event source disconnected while picker was still active"@,
            self is UserInterrupted ==> r is Some && r->0@ == "keyboard interrupt"@,
            self is NotInteractive ==> r is Some && r->0@
                == "picker could not start since the screen is not interactive"@,
    {
        match self {
            PickError::Disconnected => Some("event source disconnected while picker was still active"),
            PickError::UserInterrupted => Some("keyboard interrupt"),
            PickError::NotInteractive => Some("picker could not start since the screen is not interactive"),
            _ => None,
        }
    }
}

} // verus!
