//! The decision: whether the dependent action runs, and which state is saved.

use vstd::prelude::*;
use crate::compare::compare_state;
use crate::error::DeponError;
use crate::state::{map_of, rows_of, DeponState};

verus! {

/// Whether the dependent action should run.
#[derive(Debug, Clone, Copy, PartialEq, Eq, Structural)]
pub enum Decision {
    /// The action should proceed.
    Act,
    /// The action should be skipped.
    Skip,
}

/// The result of a run that reached a decision.
pub struct Outcome {
    /// Whether the action runs.
    pub decision: Decision,
    /// Whether a previous state was found.
    pub prior_found: bool,
    /// The state to persist, replacing the record; `None` leaves the record as it is.
    pub save: Option<DeponState>,
}

/// The rows that pair each watched path with the time observed for it.
pub open spec fn observed_rows(paths: Seq<String>, stamps: Seq<u64>) -> Seq<(Seq<char>, u64)> {
    Seq::new(paths.len(), |i: int| (paths[i]@, stamps[i]))
}

/// The state of the watched paths: each path maps to the time observed for
/// its last occurrence.
pub open spec fn watched_state(paths: Seq<String>, stamps: Seq<u64>) -> Map<Seq<char>, u64> {
    map_of(observed_rows(paths, stamps))
}

/// The decision, given the previous state if any and the current one.
pub open spec fn decision_of(
    previous: Option<Map<Seq<char>, u64>>,
    current: Map<Seq<char>, u64>,
) -> Decision {
    match previous {
        None => Decision::Act,
        Some(p) => if p != current {
            Decision::Act
        } else {
            Decision::Skip
        },
    }
}

/// The view of an optional state.
pub open spec fn prior_of(previous: Option<DeponState>) -> Option<Map<Seq<char>, u64>> {
    match previous {
        Some(s) => Some(s@),
        None => None,
    }
}

/// What an outcome holds when the previous state was `previous` and the
/// current one `current`: the decision, whether a prior state was found, and
/// `current` to be saved exactly when the action runs.
pub open spec fn outcome_for(
    o: Outcome,
    previous: Option<Map<Seq<char>, u64>>,
    current: Map<Seq<char>, u64>,
) -> bool {
    &&& o.decision == decision_of(previous, current)
    &&& o.prior_found == previous is Some
    &&& match o.save {
        Some(s) => o.decision == Decision::Act && s@ == current,
        None => o.decision == Decision::Skip,
    }
}

/// The first error among the observations, if any.
pub open spec fn first_error(observed: Seq<Result<u64, DeponError>>) -> Option<DeponError>
    decreases observed.len(),
{
    if observed.len() == 0 {
        None
    } else {
        match observed[0] {
            Err(e) => Some(e),
            Ok(_) => first_error(observed.drop_first()),
        }
    }
}

/// The times among the observations, where all of them succeeded.
pub open spec fn stamps_of(observed: Seq<Result<u64, DeponError>>) -> Seq<u64> {
    observed.map_values(
        |r: Result<u64, DeponError>|
            match r {
                Ok(t) => t,
                Err(_) => 0,
            },
    )
}

/// The current state: each watched path with the time observed for it. A
/// path given twice is held once, with its later time.
pub fn current_state(watch_set: &Vec<String>, stamps: &Vec<u64>) -> (s: DeponState)
    requires
        watch_set.len() == stamps.len(),
    ensures
        s@ == watched_state(watch_set@, stamps@),
{
    let mut pairs: Vec<(String, u64)> = Vec::new();
    let mut i: usize = 0;
    while i < watch_set.len()
        invariant
            i <= watch_set.len(),
            watch_set.len() == stamps.len(),
            pairs.len() == i,
            rows_of(pairs@) == observed_rows(watch_set@, stamps@).subrange(0, i as int),
        decreases watch_set.len() - i,
    {
        let ghost before = pairs@;
        pairs.push((watch_set[i].clone(), stamps[i]));
        proof {
            let want = observed_rows(watch_set@, stamps@).subrange(0, i + 1);
            assert(pairs@[i as int].0@ == watch_set@[i as int]@);
            assert forall|j: int| 0 <= j < i implies rows_of(pairs@)[j] == want[j] by {
                assert(pairs@[j] == before[j]);
                assert(rows_of(before)[j] == want[j]);
            }
            assert(rows_of(pairs@) =~= want);
        }
        i = i + 1;
    }
    assert(observed_rows(watch_set@, stamps@).subrange(0, i as int) =~= observed_rows(
        watch_set@,
        stamps@,
    ));
    DeponState::from_entries(&pairs)
}

/// Decides on the current state against the previous one, if any: the
/// action runs on a first run, or where the states differ, and the current
/// state is then saved.
pub fn decide(previous: Option<DeponState>, current: DeponState) -> (o: Outcome)
    ensures
        outcome_for(o, prior_of(previous), current@),
{
    match previous {
        None => Outcome { decision: Decision::Act, prior_found: false, save: Some(current) },
        Some(last) => {
            let snapshot = current.clone();
            if compare_state(snapshot, last) {
                Outcome { decision: Decision::Act, prior_found: true, save: Some(current) }
            } else {
                Outcome { decision: Decision::Skip, prior_found: true, save: None }
            }
        },
    }
}

/// One invocation over `watch_set`, given the result of loading the
/// previous state and the time observed for each watched path.
///
/// An empty watch set always acts, saves nothing and ignores the record.
/// Otherwise a failed load, then the first failed observation, aborts the
/// run; else the decision is that of `decide` on the current state.
pub fn run(
    watch_set: &Vec<String>,
    previous: Result<Option<DeponState>, DeponError>,
    observed: &Vec<Result<u64, DeponError>>,
) -> (r: Result<Outcome, DeponError>)
    requires
        observed.len() == watch_set.len(),
    ensures
        watch_set.len() == 0 ==> (r matches Ok(o) && o.decision == Decision::Act && !o.prior_found
            && o.save is None),
        watch_set.len() > 0 ==> match previous {
            Err(e) => r == Err::<Outcome, DeponError>(e),
            Ok(p) => match first_error(observed@) {
                Some(e) => r == Err::<Outcome, DeponError>(e),
                None => (r matches Ok(o) && outcome_for(
                    o,
                    prior_of(p),
                    watched_state(watch_set@, stamps_of(observed@)),
                )),
            },
        },
{
    if watch_set.len() == 0 {
        return Ok(Outcome { decision: Decision::Act, prior_found: false, save: None });
    }
    let prior = match previous {
        Err(e) => {
            return Err(e);
        },
        Ok(p) => p,
    };
    let mut stamps: Vec<u64> = Vec::new();
    let mut i: usize = 0;
    assert(observed@.subrange(0, observed.len() as int) =~= observed@);
    while i < observed.len()
        invariant
            i <= observed.len(),
            observed.len() == watch_set.len() > 0,
            previous == Ok::<Option<DeponState>, DeponError>(prior),
            stamps@ == stamps_of(observed@).subrange(0, i as int),
            first_error(observed@) == first_error(observed@.subrange(i as int, observed.len() as int)),
        decreases observed.len() - i,
    {
        proof {
            let rest = observed@.subrange(i as int, observed.len() as int);
            assert(rest.drop_first() =~= observed@.subrange(i + 1, observed.len() as int));
            assert(rest[0] == observed@[i as int]);
        }
        match observed[i] {
            Ok(t) => {
                stamps.push(t);
                proof {
                    assert(stamps@ =~= stamps_of(observed@).subrange(0, i + 1));
                }
            },
            Err(e) => {
                return Err(e);
            },
        }
        i = i + 1;
    }
    proof {
        assert(observed@.subrange(i as int, observed.len() as int).len() == 0);
        assert(stamps@ =~= stamps_of(observed@));
    }
    let current = current_state(watch_set, &stamps);
    Ok(decide(prior, current))
}

} // verus!
