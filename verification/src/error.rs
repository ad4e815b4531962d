//! The error type of the library.

use vstd::prelude::*;
use vstd::string::*;

verus! {

/// What can go wrong. Each variant carries the message shown to the host.
#[derive(Debug)]
pub enum Error {
    /// A failure that the library itself reports.
    Custom(String),
    /// A lock was poisoned by a writer that panicked.
    Poison(String),
    /// A job could not be handed to a worker.
    Send(String),
    /// A failure reported by another crate, kept as its message.
    Other(String),
}

impl Error {
    /// The message that the error carries.
    pub open spec fn message(self) -> Seq<char> {
        match self {
            Error::Custom(s) => s@,
            Error::Poison(s) => s@,
            Error::Send(s) => s@,
            Error::Other(s) => s@,
        }
    }

    /// A `Custom` error with the given message.
    pub fn new(msg: &str) -> (e: Error)
        ensures
            e == Error::Custom(e->Custom_0),
            e is Custom,
            e.message() == msg@,
    {
        Error::Custom(String::from_str(msg))
    }

    /// `Err` of a `Custom` error with the given message.
    pub fn err<T>(msg: &str) -> (r: Result<T, Error>)
        ensures
            r is Err,
            r->Err_0 is Custom,
            r->Err_0.message() == msg@,
    {
        Err(Error::Custom(String::from_str(msg)))
    }

    /// The message, as text.
    pub fn to_string(&self) -> (s: String)
        ensures
            s@ == self.message(),
    {
        match self {
            Error::Custom(s) => s.clone(),
            Error::Poison(s) => s.clone(),
            Error::Send(s) => s.clone(),
            Error::Other(s) => s.clone(),
        }
    }
}

/// Replaces whatever error a `Result` holds by a `Custom` error with a fixed
/// message.
pub trait MapResultString<T> {
    /// The `Ok` value unchanged, or `Error::Custom(msg)` in place of the error.
    fn or_display(self, msg: &str) -> (r: Result<T, Error>);
}

impl<T, E> MapResultString<T> for Result<T, E> {
    fn or_display(self, msg: &str) -> (r: Result<T, Error>)
        ensures
            self is Ok ==> r == Ok::<T, Error>(self->Ok_0),
            self is Err ==> r is Err && r->Err_0 is Custom && r->Err_0.message() == msg@,
    {
        match self {
            Ok(v) => Ok(v),
            Err(_) => Err(Error::new(msg)),
        }
    }
}

} // verus!
