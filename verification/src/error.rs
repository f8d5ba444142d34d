//! Parse errors.

use std::ops::Range;
use vstd::prelude::*;

verus! {

/// A range of bytes in the source text.
pub type Span = Range<usize>;

/// A parse error: what went wrong and, where known, at which token.
#[derive(Debug, PartialEq)]
pub struct Error {
    pub message: String,
    pub location: Option<Span>,
}

/// What an [`Error`] says, as mathematical values.
pub struct ErrorView {
    pub message: Seq<char>,
    pub location: Option<Span>,
}

impl View for Error {
    type V = ErrorView;

    open spec fn view(&self) -> ErrorView {
        ErrorView { message: self.message@, location: self.location }
    }
}

impl Error {
    pub fn new(message: String, location: Option<Span>) -> (error: Error)
        ensures
            error.message == message,
            error.location == location,
    {
        Error { message, location }
    }
}

} // verus!
