//! The modification time of a watched file, in whole seconds since the epoch.

use vstd::prelude::*;
use crate::error::DeponError;

verus! {

/// A file's modification time, measured from the epoch.
#[derive(Debug, Clone, Copy, PartialEq, Eq, Structural)]
pub enum EpochTime {
    /// The time lies before the epoch.
    BeforeEpoch,
    /// The time lies `secs` seconds and `nanos` nanoseconds after the epoch.
    Since { secs: u64, nanos: u32 },
}

/// The modification time of a watched file in whole seconds since the
/// epoch, given what its metadata reported (`None` where the metadata could
/// not be read). The fraction of a second is dropped.
pub fn when_modified(modified: Option<EpochTime>) -> (r: Result<u64, DeponError>)
    ensures
        r == match modified {
            None => Err::<u64, DeponError>(DeponError::PathUnreadable),
            Some(EpochTime::BeforeEpoch) => Err::<u64, DeponError>(DeponError::ClockAnomaly),
            Some(EpochTime::Since { secs, nanos: _ }) => Ok::<u64, DeponError>(secs),
        },
{
    match modified {
        None => Err(DeponError::PathUnreadable),
        Some(EpochTime::BeforeEpoch) => Err(DeponError::ClockAnomaly),
        Some(EpochTime::Since { secs, nanos: _ }) => Ok(secs),
    }
}

} // verus!
