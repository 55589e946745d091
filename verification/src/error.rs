//! The failures a generation request can end in.

use vstd::prelude::*;
use vstd::string::StringExecFns;

verus! {

/// Why a request was turned down.
#[derive(Clone, Copy, Debug, PartialEq, Eq, Structural)]
pub enum GenerateError {
    /// The length is below what the partitioning of a password needs.
    InvalidLength,
    /// Fewer than one password was asked for.
    InvalidCount,
    /// The length or the count is above the ceiling of a request.
    OutOfRange,
    /// Characters were asked from a class whose alphabet is empty.
    EmptyAlphabet,
}

impl GenerateError {
    /// The text of the message that describes this failure.
    pub open spec fn message_text(self) -> Seq<char> {
        match self {
            GenerateError::InvalidLength =>
                "Length of the password must be greater than 5 to protect secure."@,
            GenerateError::InvalidCount =>
                "Number of passwords must be greater than or equal to 1."@,
            GenerateError::OutOfRange =>
                "Password length and number of passwords should be less than or equal to 1000"@,
            GenerateError::EmptyAlphabet =>
                "Cannot draw a character from an empty alphabet."@,
        }
    }

    /// A human-readable description of the failure.
    pub fn message(&self) -> (text: String)
        ensures
            text@ == self.message_text(),
    {
        match self {
            GenerateError::InvalidLength => String::from_str(
                "Length of the password must be greater than 5 to protect secure.",
            ),
            GenerateError::InvalidCount => String::from_str(
                "Number of passwords must be greater than or equal to 1.",
            ),
            GenerateError::OutOfRange => String::from_str(
                "Password length and number of passwords should be less than or equal to 1000",
            ),
            GenerateError::EmptyAlphabet => String::from_str(
                "Cannot draw a character from an empty alphabet.",
            ),
        }
    }
}

} // verus!
