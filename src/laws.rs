//! Laws that tie the decision, the comparison and the recorded state together.

use vstd::prelude::*;
use crate::driver::{decision_of, observed_rows, outcome_for, prior_of, watched_state, Decision, Outcome};
use crate::state::{keys_distinct, lemma_map_of_dom, lemma_map_of_last, lemma_map_of_value, map_of};

verus! {

/// The paths of a watch set, as character sequences.
pub open spec fn watched_paths(paths: Seq<String>) -> Set<Seq<char>> {
    paths.map_values(|p: String| p@).to_set()
}

/// On a first run over a non-empty watch set the action runs, and the state
/// saved holds exactly the watched paths, each with the time observed for it
/// (for a path given twice, its later time).
pub proof fn lemma_first_run(paths: Seq<String>, stamps: Seq<u64>, o: Outcome)
    requires
        paths.len() > 0,
        paths.len() == stamps.len(),
        outcome_for(o, None, watched_state(paths, stamps)),
    ensures
        o.decision == Decision::Act,
        o.save is Some,
        o.save->Some_0@.dom() == watched_paths(paths),
        forall|i: int|
            0 <= i < paths.len() && (forall|j: int| i < j < paths.len() ==> paths[j]@ != paths[i]@)
                ==> o.save->Some_0@[#[trigger] paths[i]@] == stamps[i],
{
    let rows = observed_rows(paths, stamps);
    let m = watched_state(paths, stamps);
    let views = paths.map_values(|p: String| p@);
    lemma_map_of_dom(rows);
    assert forall|k: Seq<char>| m.contains_key(k) <==> watched_paths(paths).contains(k) by {
        if m.contains_key(k) {
            let i = choose|i: int| 0 <= i < rows.len() && rows[i].0 == k;
            assert(views[i] == k);
            assert(views.contains(k));
        }
        if watched_paths(paths).contains(k) {
            assert(views.contains(k));
            let i = choose|i: int| 0 <= i < views.len() && #[trigger] views[i] == k;
            assert(rows[i].0 == k);
        }
    }
    assert(m.dom() =~= watched_paths(paths));
    assert forall|i: int|
        0 <= i < paths.len() && (forall|j: int| i < j < paths.len() ==> paths[j]@ != paths[i]@)
            implies m[#[trigger] paths[i]@] == stamps[i] by {
        assert forall|j: int| i < j < rows.len() implies rows[j].0 != rows[i].0 by {
            assert(paths[j]@ != paths[i]@);
        }
        lemma_map_of_last(rows, i);
    }
}

/// Two runs in a row over the same non-empty watch set with unchanged times,
/// the first with no record and the second against what the first saved:
/// the first acts and the second skips.
pub proof fn lemma_second_run_skips(
    paths: Seq<String>,
    stamps: Seq<u64>,
    first: Outcome,
    second: Outcome,
)
    requires
        paths.len() > 0,
        paths.len() == stamps.len(),
        outcome_for(first, None, watched_state(paths, stamps)),
        outcome_for(second, prior_of(first.save), watched_state(paths, stamps)),
    ensures
        first.decision == Decision::Act,
        second.decision == Decision::Skip,
        second.save is None,
{
}

/// A state does not depend on the order of its rows: two orderings of the
/// same pairs, each holding a path once, denote the same state.
pub proof fn lemma_order_irrelevant(a: Seq<(Seq<char>, u64)>, b: Seq<(Seq<char>, u64)>)
    requires
        keys_distinct(a),
        keys_distinct(b),
        a.to_set() == b.to_set(),
    ensures
        map_of(a) == map_of(b),
{
    lemma_map_of_dom(a);
    lemma_map_of_dom(b);
    assert forall|k: Seq<char>| #[trigger] map_of(a).contains_key(k) implies map_of(b).contains_key(k)
        && map_of(b)[k] == map_of(a)[k] by {
        let i = choose|i: int| 0 <= i < a.len() && a[i].0 == k;
        assert(a.to_set().contains(a[i]));
        let j = choose|j: int| 0 <= j < b.len() && b[j] == a[i];
        lemma_map_of_value(a, i);
        lemma_map_of_value(b, j);
    }
    assert forall|k: Seq<char>| #[trigger] map_of(b).contains_key(k) implies map_of(a).contains_key(k) by {
        let j = choose|j: int| 0 <= j < b.len() && b[j].0 == k;
        assert(b.to_set().contains(b[j]));
        assert(a.to_set().contains(b[j]));
        let i = choose|i: int| 0 <= i < a.len() && a[i] == b[j];
        assert(a[i].0 == k);
    }
    assert(map_of(a) =~= map_of(b));
}

} // verus!
