//! The closed set of reasons an operation rejects its inputs.

use vstd::prelude::*;

verus! {

/// Why an operation refused to run: one variant per violated precondition,
/// so callers branch on the kind instead of parsing text.
///
/// Every operation of the toolkit returns this error instead of panicking;
/// a failure is always local to the call that reported it.
#[derive(Clone, Copy, Debug, PartialEq, Eq, Structural)]
pub enum ValidationError {
    /// The two paired sample sequences do not have the same length.
    LengthMismatch,
    /// A sequence that must hold at least one sample is empty.
    EmptyInput,
}

impl ValidationError {
    /// The human-readable description of each violation.
    pub open spec fn message_spec(self) -> Seq<char> {
        match self {
            ValidationError::LengthMismatch => "mismatched lengths"@,
            ValidationError::EmptyInput => "empty input"@,
        }
    }

    /// Renders the violated precondition as a short message for display.
    pub fn message(&self) -> (s: String)
        ensures
            s@ == self.message_spec(),
    {
        match self {
            ValidationError::LengthMismatch => "mismatched lengths".to_owned(),
            ValidationError::EmptyInput => "empty input".to_owned(),
        }
    }
}

} // verus!
