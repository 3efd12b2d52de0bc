//! Input errors the pure pipeline stages report.  Failures of external
//! processes are never errors of the library: they are encoded in
//! [`crate::outcome::ExecutionOutcome`].

use vstd::prelude::*;
use vstd::string::*;

verus! {

/// Why a pipeline stage rejected its input.
#[derive(Clone, Copy, PartialEq, Eq, Structural, Debug)]
pub enum InputError {
    /// The timeline holds no timestamps, or a segment list is empty.
    EmptyInput,
    /// The overlay and background segment lists differ in length.
    SegmentCountMismatch,
    /// A persisted export document does not have the expected shape.
    MalformedDocument,
}

/// The human-readable description of each input error.
pub open spec fn error_message(e: InputError) -> Seq<char> {
    match e {
        InputError::EmptyInput => "No timestamps found in export data"@,
        InputError::SegmentCountMismatch => "The number of overlay segments must match the number of background segments."@,
        InputError::MalformedDocument => "Malformed export document"@,
    }
}

impl InputError {
    /// The human-readable description of the error.
    pub fn message(&self) -> (r: String)
        ensures
            r@ == error_message(*self),
    {
        match self {
            InputError::EmptyInput => String::from_str("No timestamps found in export data"),
            InputError::SegmentCountMismatch => String::from_str(
                "The number of overlay segments must match the number of background segments.",
            ),
            InputError::MalformedDocument => String::from_str("Malformed export document"),
        }
    }
}

} // verus!
