//! The ways in which an operation of this library fails.

use vstd::prelude::*;

verus! {

/// Why a call failed. A failure is final for that call and leaves its inputs
/// as they were.
#[derive(Clone, Copy, Debug, PartialEq, Eq, Structural)]
pub enum CloudError {
    /// The file is not a well-formed point-cloud file: a header token is
    /// malformed, the body is shorter than the header declares, a compressed
    /// body does not decompress, or a number does not parse.
    FormatError,
    /// The operation is not defined on this input.
    InvalidInput,
}

impl CloudError {
    /// A sentence for the user.
    pub fn message(&self) -> (text: &'static str)
        ensures
            text@ == match *self {
                CloudError::FormatError => "the point-cloud file is malformed"@,
                CloudError::InvalidInput => "the input is outside what the operation accepts"@,
            },
    {
        match self {
            CloudError::FormatError => "the point-cloud file is malformed",
            CloudError::InvalidInput => "the input is outside what the operation accepts",
        }
    }
}

} // verus!
