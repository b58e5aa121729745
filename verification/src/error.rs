//! Errors of the store and of model loading.

use vstd::prelude::*;

verus! {

/// What can go wrong outside the execution of commands.
#[derive(Debug, PartialEq)]
pub enum Error {
    /// No variable is stored under the address; holds the address as text.
    FailedGettingVariable(String),
    /// A version or a version requirement could not be read; holds the text.
    ParsingError(String),
    /// A module that the scenario lists, or that another module depends on,
    /// is not there.
    ScenarioMissingModules,
    /// Anything else, with a message.
    Other(String),
}

/// Whether an error is `Other` with the given message.
pub open spec fn is_other(e: Error, message: Seq<char>) -> bool {
    e matches Error::Other(t) && t@ == message
}

impl Clone for Error {
    fn clone(&self) -> (r: Self)
        ensures
            r == *self,
    {
        match self {
            Error::FailedGettingVariable(s) => Error::FailedGettingVariable(s.clone()),
            Error::ParsingError(s) => Error::ParsingError(s.clone()),
            Error::ScenarioMissingModules => Error::ScenarioMissingModules,
            Error::Other(s) => Error::Other(s.clone()),
        }
    }
}

} // verus!
