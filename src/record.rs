//! Loading and saving a state as the text of the persisted record.
//!
//! The text is YAML: a mapping from path to modification time.

use vstd::prelude::*;
use crate::error::DeponError;
use crate::state::{map_of, rows_of, DeponState};

verus! {

/// The rows that YAML text holds as a mapping from string to unsigned 64-bit
/// integer, ordered by path, or `None` where it holds no such mapping.
pub uninterp spec fn yaml_rows_of(text: Seq<char>) -> Option<Seq<(Seq<char>, u64)>>;

/// The YAML text of a mapping that holds the rows in their order, or `None`
/// where it cannot be rendered.
pub uninterp spec fn yaml_text_of(rows: Seq<(Seq<char>, u64)>) -> Option<Seq<char>>;

/// Relies on `serde_yaml::from_str` into a `BTreeMap<String, u64>`: the text
/// either parses into such a map, whose pairs are taken in key order, or is
/// refused. The outcome depends on the text alone.
#[verifier::external_body]
fn parse_rows(text: &str) -> (r: Option<Vec<(String, u64)>>)
    ensures
        match r {
            Some(pairs) => yaml_rows_of(text@) == Some(rows_of(pairs@)),
            None => yaml_rows_of(text@) is None,
        },
{
    serde_yaml::from_str::<std::collections::BTreeMap<String, u64>>(text).ok().map(
        |m| m.into_iter().collect(),
    )
}

/// Relies on `serde_yaml::to_string` of a `serde_yaml::Mapping`, which keeps
/// the order in which the pairs were inserted: the outcome depends on the
/// rows alone.
#[verifier::external_body]
fn render_rows(pairs: &Vec<(String, u64)>) -> (r: Option<String>)
    ensures
        match r {
            Some(text) => yaml_text_of(rows_of(pairs@)) == Some(text@),
            None => yaml_text_of(rows_of(pairs@)) is None,
        },
{
    let mapping: serde_yaml::Mapping = pairs.iter().map(
        |(path, modified)| (serde_yaml::Value::from(path.clone()), serde_yaml::Value::from(*modified)),
    ).collect();
    serde_yaml::to_string(&mapping).ok()
}

/// What was found at the record's location.
pub enum RecordFile {
    /// No record exists: this is the first run.
    Absent,
    /// A record exists but its content could not be read.
    Unreadable,
    /// A record exists and holds this text.
    Text(String),
}

/// Loads the previous state from what was found at the record's location.
///
/// An absent record means that there is no previous state. A record that
/// exists but cannot be read, or does not parse as a mapping from path to
/// time, is an error, never taken for an absent one.
pub fn read_state(record: &RecordFile) -> (r: Result<Option<DeponState>, DeponError>)
    ensures
        match record {
            RecordFile::Absent => (r matches Ok(None)),
            RecordFile::Unreadable => r == Err::<Option<DeponState>, DeponError>(
                DeponError::RecordCorrupt,
            ),
            RecordFile::Text(text) => match yaml_rows_of(text@) {
                Some(rows) => (r matches Ok(Some(s)) && s@ == map_of(rows)),
                None => r == Err::<Option<DeponState>, DeponError>(DeponError::RecordCorrupt),
            },
        },
{
    match record {
        RecordFile::Absent => Ok(None),
        RecordFile::Unreadable => Err(DeponError::RecordCorrupt),
        RecordFile::Text(text) => match parse_rows(text.as_str()) {
            Some(pairs) => Ok(Some(DeponState::from_entries(&pairs))),
            None => Err(DeponError::RecordCorrupt),
        },
    }
}

/// The text that records `state`, rows in the state's order.
pub fn write_state(state: &DeponState) -> (r: Result<String, DeponError>)
    ensures
        match yaml_text_of(state.rows()) {
            Some(text) => (r matches Ok(t) && t@ == text),
            None => r == Err::<String, DeponError>(DeponError::RecordWriteFailure),
        },
{
    match render_rows(state.entries()) {
        Some(text) => Ok(text),
        None => Err(DeponError::RecordWriteFailure),
    }
}

} // verus!
