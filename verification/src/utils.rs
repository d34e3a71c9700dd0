//! Failures of the fragment store and the result type built on them.
use vstd::prelude::*;
use vstd::string::StringExecFns;

verus! {

/// Why an operation on the fragment store was refused.
#[derive(Debug, Clone, Copy, PartialEq, Eq, Structural)]
pub enum StoreError {
    /// A lookup by identifier matched no row.
    NotFound,
    /// The store itself refused the statement: a key that is already
    /// present, or a rank that would leave the 32-bit range.
    StoreFailure,
    /// A rank collision was detected that reordering cannot resolve;
    /// nothing was committed.
    InvariantRisk,
}

/// Result of an operation on the fragment store.
pub type ApiResult<T> = Result<T, StoreError>;

/// The text of `error`.
pub open spec fn error_text(error: StoreError) -> Seq<char> {
    match error {
        StoreError::NotFound => "Record not found"@,
        StoreError::StoreFailure => "The store refused the statement"@,
        StoreError::InvariantRisk => "Rank collision, nothing was changed; try again"@,
    }
}

impl StoreError {
    /// The error as text.
    pub fn message(&self) -> (text: String)
        ensures
            text@ == error_text(*self),
    {
        match self {
            StoreError::NotFound => String::from_str("Record not found"),
            StoreError::StoreFailure => String::from_str("The store refused the statement"),
            StoreError::InvariantRisk => String::from_str(
                "Rank collision, nothing was changed; try again",
            ),
        }
    }

    /// Whether the error says that the row asked for does not exist.
    pub fn is_not_found(&self) -> (found: bool)
        ensures
            found == (*self == StoreError::NotFound),
    {
        match self {
            StoreError::NotFound => true,
            _ => false,
        }
    }
}

} // verus!
