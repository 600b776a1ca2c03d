//! What every operation of the service shares: its errors, and the shape of
//! one step of an operation that talks to the cache.

use vstd::prelude::*;
use crate::port::{CacheError, Command, CommandView};

verus! {

/// Why an operation of the service failed.
#[derive(Clone, Copy, Debug, PartialEq, Eq, Structural)]
pub enum ServiceError {
    /// A cache command failed and the operation could not go on without it.
    Cache(CacheError),
    /// Prizes were asked for in a competition that nobody has entered.
    NoParticipants,
    /// The date of a submission lies outside the calendar.
    InvalidDate,
    /// A running total has left the range of its number type.
    TotalsOutOfRange,
    /// The cache answered a command with a reply of another command's kind.
    UnexpectedReply,
}

impl ServiceError {
    /// The text that describes this error to a caller.
    pub open spec fn message_text(self) -> Seq<char> {
        match self {
            ServiceError::Cache(CacheError::NotFound) => "Key not found"@,
            ServiceError::Cache(CacheError::Serialization) => "Serialization error"@,
            ServiceError::Cache(CacheError::Deserialization) => "Deserialization error"@,
            ServiceError::Cache(CacheError::StoreUnavailable) => "Store unavailable"@,
            ServiceError::NoParticipants => "No participants in competition"@,
            ServiceError::InvalidDate => "Date out of range"@,
            ServiceError::TotalsOutOfRange => "Totals out of range"@,
            ServiceError::UnexpectedReply => "Unexpected reply from the cache"@,
        }
    }

    /// The text that describes this error to a caller.
    pub fn message(&self) -> (text: String)
        ensures
            text@ == self.message_text(),
    {
        match self {
            ServiceError::Cache(CacheError::NotFound) => "Key not found".to_owned(),
            ServiceError::Cache(CacheError::Serialization) => "Serialization error".to_owned(),
            ServiceError::Cache(CacheError::Deserialization) => "Deserialization error".to_owned(),
            ServiceError::Cache(CacheError::StoreUnavailable) => "Store unavailable".to_owned(),
            ServiceError::NoParticipants => "No participants in competition".to_owned(),
            ServiceError::InvalidDate => "Date out of range".to_owned(),
            ServiceError::TotalsOutOfRange => "Totals out of range".to_owned(),
            ServiceError::UnexpectedReply => "Unexpected reply from the cache".to_owned(),
        }
    }
}

/// `done` ends as `expected` does: both well, or both with the same failure.
pub open spec fn same_outcome(done: Result<(), ServiceError>, expected: Result<(), ServiceError>)
    -> bool {
    match (done, expected) {
        (Ok(_), Ok(_)) => true,
        (Err(error), Err(expected_error)) => error == expected_error,
        _ => false,
    }
}

/// One step of an operation: either the next command for the cache, with
/// the operation that waits for its reply, or the operation's outcome.
#[derive(Debug, PartialEq, Eq)]
pub enum Step<M, T> {
    Ask(M, Command),
    Finished(Result<T, ServiceError>),
}

/// What one step of an operation is expected to be, over views.
pub enum Expected<M, T> {
    Ask(M, CommandView),
    Finished(Result<T, ServiceError>),
}

} // verus!
