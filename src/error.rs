//! The failures that abort a decision.

use vstd::prelude::*;

verus! {

/// Why a decision could not be made. Each of them is fatal to the run.
#[derive(Debug, Clone, Copy, PartialEq, Eq, Structural)]
pub enum DeponError {
    /// A watched path's metadata could not be read.
    PathUnreadable,
    /// A watched path's modification time lies before the epoch.
    ClockAnomaly,
    /// The record exists but could not be read as a mapping from path to time.
    RecordCorrupt,
    /// The new record could not be written.
    RecordWriteFailure,
}

impl DeponError {
    /// A sentence that describes the failure.
    pub fn message(&self) -> (m: &'static str) {
        match self {
            DeponError::PathUnreadable => "unable to read the metadata of a watched file",
            DeponError::ClockAnomaly => "a watched file was modified before the epoch",
            DeponError::RecordCorrupt => "the lock file is present but cannot be read as a state",
            DeponError::RecordWriteFailure => "unable to write the lock file",
        }
    }
}

} // verus!
