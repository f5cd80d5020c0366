//! The error taxonomy of the ingestion pipeline.

use vstd::prelude::*;

verus! {

/// Why a timestamp or duration string was rejected.
#[derive(Clone, Copy, Debug, PartialEq, Eq, Structural)]
pub enum ParseError {
    /// The string is not a valid date-time-with-offset.
    InvalidTimestamp,
    /// The string does not follow the restricted duration grammar.
    InvalidDuration,
    /// The duration carries a year or month component, whose real-world
    /// length is calendar-dependent and cannot be converted to a fixed
    /// millisecond count.
    CalendarDuration,
}

/// Why a store operation failed.
#[derive(Clone, Copy, Debug, PartialEq, Eq, Structural)]
pub enum PersistenceError {
    /// An insert was attempted for an id that is already stored.
    DuplicateId,
    /// An insert affected a row count other than exactly one.
    RowCount(u64),
}

/// An ingestion-level failure for one channel.
#[derive(Clone, Debug, PartialEq, Eq)]
pub enum IngestError {
    /// The transport itself failed (connection, timeout).
    Transport(String),
    /// The response did not have the expected shape.
    Schema(String),
    /// The remote API reported an error inside a successful response body.
    Domain { code: Option<i64>, message: String },
    /// A timestamp or duration in the payload could not be parsed.
    Parse(ParseError),
    /// The store refused an insert.
    Persistence(PersistenceError),
}

impl IngestError {
    /// A short, fixed label for the error category.
    pub fn kind_label(&self) -> (r: &'static str)
        ensures
            r@ == match self {
                IngestError::Transport(_) => "transport error"@,
                IngestError::Schema(_) => "unexpected response"@,
                IngestError::Domain { .. } => "API error"@,
                IngestError::Parse(_) => "parse error"@,
                IngestError::Persistence(_) => "persistence error"@,
            },
    {
        match self {
            IngestError::Transport(_) => "transport error",
            IngestError::Schema(_) => "unexpected response",
            IngestError::Domain { .. } => "API error",
            IngestError::Parse(_) => "parse error",
            IngestError::Persistence(_) => "persistence error",
        }
    }
}

} // verus!
