//! Change-detection gate: decides whether a dependent action should run by
//! comparing the modification times of watched files with the last record.

pub mod compare;
pub mod driver;
pub mod error;
pub mod laws;
pub mod record;
pub mod state;
pub mod timestamp;

pub use compare::compare_state;
pub use driver::{current_state, decide, run, Decision, Outcome};
pub use error::DeponError;
pub use record::{read_state, write_state, RecordFile};
pub use state::DeponState;
pub use timestamp::{when_modified, EpochTime};
