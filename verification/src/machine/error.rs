//! Errors of command construction and execution. Each carries the place in
//! the program where it arose.

use vstd::prelude::*;
use crate::machine::LocationInfo;

verus! {

/// What went wrong.
#[derive(Debug, PartialEq)]
pub enum ErrorKind {
    /// A prototype without a command name.
    NoCommandPresent,
    /// A command name that the instruction set does not have.
    UnknownCommand(String),
    /// Arguments that the command cannot be built from.
    InvalidCommandBody(String),
    /// Text that could not be read as what was expected.
    ParseError(String),
    /// No variable of the expected kind under the address.
    FailedGettingVariable(String),
    /// Anything else, with a message.
    Other(String),
}

/// The mathematical content of an `ErrorKind`.
pub enum ErrorKindView {
    NoCommandPresent,
    UnknownCommand(Seq<char>),
    InvalidCommandBody(Seq<char>),
    ParseError(Seq<char>),
    FailedGettingVariable(Seq<char>),
    Other(Seq<char>),
}

impl View for ErrorKind {
    type V = ErrorKindView;

    open spec fn view(&self) -> ErrorKindView {
        match self {
            ErrorKind::NoCommandPresent => ErrorKindView::NoCommandPresent,
            ErrorKind::UnknownCommand(m) => ErrorKindView::UnknownCommand(m@),
            ErrorKind::InvalidCommandBody(m) => ErrorKindView::InvalidCommandBody(m@),
            ErrorKind::ParseError(m) => ErrorKindView::ParseError(m@),
            ErrorKind::FailedGettingVariable(m) => ErrorKindView::FailedGettingVariable(m@),
            ErrorKind::Other(m) => ErrorKindView::Other(m@),
        }
    }
}

/// Whether an error is `InvalidCommandBody` with the given message at the
/// given place.
pub open spec fn is_body_error(e: Error, location: LocationInfo, message: Seq<char>) -> bool {
    e.location == location && e.kind@ == ErrorKindView::InvalidCommandBody(message)
}

/// Whether an error is `Other` with the given message at the given place.
pub open spec fn is_other_error(e: Error, location: LocationInfo, message: Seq<char>) -> bool {
    e.location == location && e.kind@ == ErrorKindView::Other(message)
}

/// Whether an error is `FailedGettingVariable` with the given message at
/// the given place.
pub open spec fn is_missing_error(e: Error, location: LocationInfo, message: Seq<char>) -> bool {
    e.location == location && e.kind@ == ErrorKindView::FailedGettingVariable(message)
}

/// The error without the place it came from.
pub open spec fn unplaced(e: Error) -> Error {
    Error { location: LocationInfo { comp_name: None, line: None }, kind: e.kind }
}

/// Whether an error is `ParseError` with the given message at the given
/// place.
pub open spec fn is_parse_error(e: Error, location: LocationInfo, message: Seq<char>) -> bool {
    e.location == location && e.kind@ == ErrorKindView::ParseError(message)
}

impl Clone for ErrorKind {
    fn clone(&self) -> (r: Self)
        ensures
            r == *self,
    {
        match self {
            ErrorKind::NoCommandPresent => ErrorKind::NoCommandPresent,
            ErrorKind::UnknownCommand(s) => ErrorKind::UnknownCommand(s.clone()),
            ErrorKind::InvalidCommandBody(s) => ErrorKind::InvalidCommandBody(s.clone()),
            ErrorKind::ParseError(s) => ErrorKind::ParseError(s.clone()),
            ErrorKind::FailedGettingVariable(s) => ErrorKind::FailedGettingVariable(s.clone()),
            ErrorKind::Other(s) => ErrorKind::Other(s.clone()),
        }
    }
}

/// An error with the place where it arose.
#[derive(Debug, PartialEq)]
pub struct Error {
    pub location: LocationInfo,
    pub kind: ErrorKind,
}

impl Error {
    /// An error of the given kind at the given place.
    pub fn new(location: LocationInfo, kind: ErrorKind) -> (r: Error)
        ensures
            r.location == location,
            r.kind == kind,
    {
        Error { location, kind }
    }
}

impl Clone for Error {
    fn clone(&self) -> (r: Self)
        ensures
            r == *self,
    {
        Error { location: self.location.clone(), kind: self.kind.clone() }
    }
}

/// What construction and execution of commands return.
pub type Result<T> = core::result::Result<T, Error>;

} // verus!
