//! Whether two states differ.

use vstd::prelude::*;
use vstd::set_lib::lemma_subset_equality;
use crate::state::{keys_distinct, lemma_map_of_dom, lemma_map_of_value, map_of, rows_of, DeponState};

verus! {

/// Reports whether `current_state` and `last_state` map different sets of
/// paths, or map some path to different times.
///
/// A difference in the number of paths decides at once; otherwise each path
/// of `current_state` is looked up in `last_state`, and the first one that is
/// missing there or holds another time decides.
pub fn compare_state(current_state: DeponState, last_state: DeponState) -> (differs: bool)
    ensures
        differs == (current_state@ != last_state@),
{
    let n = current_state.len();
    if last_state.len() != n {
        return true;
    }
    let entries = current_state.entries();
    let ghost rows = current_state.rows();
    proof {
        lemma_map_of_dom(rows);
    }
    let mut i: usize = 0;
    while i < entries.len()
        invariant
            rows_of(entries@) == rows,
            n == rows.len(),
            current_state@ == map_of(rows),
            keys_distinct(rows),
            0 <= i <= entries.len(),
            forall|j: int|
                #![trigger rows[j]]
                0 <= j < i ==> last_state@.contains_key(rows[j].0) && last_state@[rows[j].0]
                    == rows[j].1,
        decreases entries.len() - i,
    {
        let path = &entries[i].0;
        let modified = entries[i].1;
        proof {
            assert(rows[i as int] == (entries@[i as int].0@, entries@[i as int].1));
            lemma_map_of_value(rows, i as int);
        }
        match last_state.get(path) {
            Some(last_modified) => {
                if last_modified != modified {
                    return true;
                }
            },
            None => {
                return true;
            },
        }
        i = i + 1;
    }
    proof {
        let cur = current_state@;
        let last = last_state@;
        assert forall|k: Seq<char>| cur.contains_key(k) implies last.contains_key(k) && last[k]
            == cur[k] by {
            let j = choose|j: int| 0 <= j < rows.len() && rows[j].0 == k;
            lemma_map_of_value(rows, j);
            assert(last.contains_key(rows[j].0));
        }
        lemma_subset_equality(cur.dom(), last.dom());
        assert(cur =~= last);
    }
    false
}

} // verus!
