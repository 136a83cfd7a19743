//! The errors that an operation surfaces to its caller.

use vstd::prelude::*;

verus! {

/// Why an operation was refused. An operation that fails leaves the record it
/// addresses as it was.
#[derive(Clone, Copy, Debug, PartialEq, Eq, Structural)]
pub enum ErrorCode {
    /// The rating is not between 1 and 5.
    InvalidRating,
    /// A review has already been written under this address.
    ReviewAlreadyExists,
    /// The confidence level is not between 1 and 10.
    InvalidConfidenceLevel,
    /// The address to initialize is already occupied.
    AlreadyInitialized,
    /// There is no record of the expected kind under the address.
    NotFound,
}

impl ErrorCode {
    /// The text shown to the caller for this error.
    pub open spec fn spec_message(self) -> Seq<char> {
        match self {
            ErrorCode::InvalidRating => "Rating must be between 1 and 5"@,
            ErrorCode::ReviewAlreadyExists => {
                "You have already submitted a review for this restaurant."@
            },
            ErrorCode::InvalidConfidenceLevel => "Confidence level must be between 1 and 10"@,
            ErrorCode::AlreadyInitialized => "This record has already been initialized."@,
            ErrorCode::NotFound => "There is no such record."@,
        }
    }

    /// The text shown to the caller for this error.
    pub fn message(&self) -> (text: &'static str)
        ensures
            text@ == self.spec_message(),
    {
        match self {
            ErrorCode::InvalidRating => "Rating must be between 1 and 5",
            ErrorCode::ReviewAlreadyExists => {
                "You have already submitted a review for this restaurant."
            },
            ErrorCode::InvalidConfidenceLevel => "Confidence level must be between 1 and 10",
            ErrorCode::AlreadyInitialized => "This record has already been initialized.",
            ErrorCode::NotFound => "There is no such record.",
        }
    }
}

} // verus!
