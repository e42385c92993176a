//! Errors that abort a batch run.

use vstd::prelude::*;

verus! {

/// Why processing a replay failed.  Any one failure aborts the whole batch.
#[derive(PartialEq, Eq, Structural, Clone, Copy, Debug)]
pub enum ReplayError {
    /// The outside parser rejected the replay's bytes.
    Parse,
    /// The replay's property tree has no `"PlayerStats"` property.
    MissingProperty,
}

impl ReplayError {
    /// A human-readable description of the failure.
    pub fn describe(&self) -> (r: String)
        ensures
            self is Parse ==> r@ == "Failed to parse replay file!"@,
            self is MissingProperty ==> r@ == "PlayerStats Property not found!"@,
    {
        match self {
            ReplayError::Parse => String::from_str("Failed to parse replay file!"),
            ReplayError::MissingProperty => String::from_str("PlayerStats Property not found!"),
        }
    }
}

} // verus!
