//! The recorded state: a mapping from file path to modification time.

use vstd::prelude::*;

verus! {

/// The mapping that a sequence of rows denotes; a later row for a path
/// overrides an earlier one.
pub open spec fn map_of(rows: Seq<(Seq<char>, u64)>) -> Map<Seq<char>, u64>
    decreases rows.len(),
{
    if rows.len() == 0 {
        Map::empty()
    } else {
        map_of(rows.drop_last()).insert(rows.last().0, rows.last().1)
    }
}

/// No path occurs in two rows.
pub open spec fn keys_distinct(rows: Seq<(Seq<char>, u64)>) -> bool {
    forall|i: int, j: int| 0 <= i < j < rows.len() ==> rows[i].0 != rows[j].0
}

/// The rows of a vector of owned pairs, with each path taken as its characters.
pub open spec fn rows_of(pairs: Seq<(String, u64)>) -> Seq<(Seq<char>, u64)> {
    pairs.map_values(|p: (String, u64)| (p.0@, p.1))
}

/// A path is a key of `map_of(rows)` exactly when some row holds it, and
/// the domain is finite.
pub proof fn lemma_map_of_dom(rows: Seq<(Seq<char>, u64)>)
    ensures
        map_of(rows).dom().finite(),
        forall|k: Seq<char>|
            #![trigger map_of(rows).contains_key(k)]
            map_of(rows).contains_key(k) <==> exists|i: int| 0 <= i < rows.len() && rows[i].0 == k,
    decreases rows.len(),
{
    if rows.len() > 0 {
        let init = rows.drop_last();
        lemma_map_of_dom(init);
        assert forall|k: Seq<char>| map_of(rows).contains_key(k) implies exists|i: int|
            0 <= i < rows.len() && rows[i].0 == k by {
            if k != rows.last().0 {
                let i = choose|i: int| 0 <= i < init.len() && init[i].0 == k;
                assert(rows[i] == init[i]);
            } else {
                assert(rows[rows.len() - 1].0 == k);
            }
        }
        assert forall|k: Seq<char>|
            (exists|i: int| 0 <= i < rows.len() && rows[i].0 == k) implies map_of(
            rows,
        ).contains_key(k) by {
            let i = choose|i: int| 0 <= i < rows.len() && rows[i].0 == k;
            if i < rows.len() - 1 {
                assert(init[i] == rows[i]);
            }
        }
    }
}

/// A row whose path no later row holds gives the time of that path.
pub proof fn lemma_map_of_last(rows: Seq<(Seq<char>, u64)>, i: int)
    requires
        0 <= i < rows.len(),
        forall|j: int| i < j < rows.len() ==> rows[j].0 != rows[i].0,
    ensures
        map_of(rows).contains_key(rows[i].0),
        map_of(rows)[rows[i].0] == rows[i].1,
    decreases rows.len(),
{
    if i < rows.len() - 1 {
        let init = rows.drop_last();
        assert(init[i] == rows[i]);
        lemma_map_of_last(init, i);
        assert(rows[i].0 != rows.last().0);
    }
}

/// Where no path repeats, each row's path maps to that row's time.
pub proof fn lemma_map_of_value(rows: Seq<(Seq<char>, u64)>, i: int)
    requires
        keys_distinct(rows),
        0 <= i < rows.len(),
    ensures
        map_of(rows).contains_key(rows[i].0),
        map_of(rows)[rows[i].0] == rows[i].1,
{
    lemma_map_of_last(rows, i);
}

/// Where no path repeats, the mapping has one key per row.
pub proof fn lemma_map_of_len(rows: Seq<(Seq<char>, u64)>)
    requires
        keys_distinct(rows),
    ensures
        map_of(rows).len() == rows.len(),
    decreases rows.len(),
{
    if rows.len() > 0 {
        let init = rows.drop_last();
        lemma_map_of_len(init);
        lemma_map_of_dom(init);
        if map_of(init).contains_key(rows.last().0) {
            let i = choose|i: int| 0 <= i < init.len() && init[i].0 == rows.last().0;
            assert(rows[i] == init[i]);
        }
    }
}

/// A mapping from file path to last-modified time, in seconds since the epoch.
///
/// It is held as rows in which no path occurs twice; two states are equal
/// when they map the same paths to the same times, whatever the order of
/// their rows.
pub struct DeponState {
    entries: Vec<(String, u64)>,
}

impl View for DeponState {
    type V = Map<Seq<char>, u64>;

    open spec fn view(&self) -> Map<Seq<char>, u64> {
        map_of(self.rows())
    }
}

impl DeponState {
    #[verifier::type_invariant]
    spec fn well_formed(self) -> bool {
        keys_distinct(rows_of(self.entries@))
    }

    /// The rows of the state, in the order in which their paths first came.
    pub closed spec fn rows(&self) -> Seq<(Seq<char>, u64)> {
        rows_of(self.entries@)
    }

    /// The state that maps no path.
    pub fn new() -> (s: Self)
        ensures
            s@ == Map::<Seq<char>, u64>::empty(),
            s.rows().len() == 0,
    {
        let s = DeponState { entries: Vec::new() };
        assert(s.rows() =~= Seq::<(Seq<char>, u64)>::empty());
        s
    }

    /// The state that the pairs denote; a later pair for a path overrides an
    /// earlier one.
    pub fn from_entries(pairs: &Vec<(String, u64)>) -> (s: Self)
        ensures
            s@ == map_of(rows_of(pairs@)),
    {
        let mut s = DeponState::new();
        let ghost all = rows_of(pairs@);
        let mut i: usize = 0;
        while i < pairs.len()
            invariant
                i <= pairs.len(),
                all == rows_of(pairs@),
                s@ == map_of(all.subrange(0, i as int)),
            decreases pairs.len() - i,
        {
            let path = pairs[i].0.clone();
            let modified = pairs[i].1;
            proof {
                assert(all.subrange(0, i + 1).drop_last() =~= all.subrange(0, i as int));
                assert(all[i as int] == (path@, modified));
            }
            s.insert(path, modified);
            i = i + 1;
        }
        assert(all.subrange(0, pairs.len() as int) =~= all);
        s
    }

    /// The number of paths in the state.
    pub fn len(&self) -> (n: usize)
        ensures
            n == self@.len(),
            n == self.rows().len(),
            keys_distinct(self.rows()),
            self@.dom().finite(),
    {
        proof {
            use_type_invariant(self);
            lemma_map_of_len(self.rows());
            lemma_map_of_dom(self.rows());
        }
        self.entries.len()
    }

    /// The rows of the state.
    pub fn entries(&self) -> (r: &Vec<(String, u64)>)
        ensures
            rows_of(r@) == self.rows(),
            keys_distinct(self.rows()),
    {
        proof {
            use_type_invariant(self);
        }
        &self.entries
    }

    /// The position of `path` among the rows, if it is there.
    fn position(&self, path: &String) -> (r: Option<usize>)
        ensures
            match r {
                Some(i) => i < self.rows().len() && self.rows()[i as int].0 == path@,
                None => !self@.contains_key(path@),
            },
    {
        proof {
            lemma_map_of_dom(self.rows());
        }
        let mut i: usize = 0;
        while i < self.entries.len()
            invariant
                0 <= i <= self.entries.len(),
                forall|j: int| 0 <= j < i ==> self.rows()[j].0 != path@,
            decreases self.entries.len() - i,
        {
            if self.entries[i].0 == *path {
                return Some(i);
            }
            i = i + 1;
        }
        None
    }

    /// The time recorded for `path`, if the state holds it.
    pub fn get(&self, path: &String) -> (r: Option<u64>)
        ensures
            r == (if self@.contains_key(path@) {
                Some(self@[path@])
            } else {
                None
            }),
    {
        proof {
            use_type_invariant(self);
        }
        match self.position(path) {
            Some(i) => {
                proof {
                    lemma_map_of_value(self.rows(), i as int);
                }
                Some(self.entries[i].1)
            },
            None => None,
        }
    }

    /// Records `modified` for `path`, replacing any time held for it.
    pub fn insert(&mut self, path: String, modified: u64)
        ensures
            final(self)@ == old(self)@.insert(path@, modified),
    {
        proof {
            use_type_invariant(&*self);
        }
        let ghost old_rows = self.rows();
        let pos = self.position(&path);
        let mut entries: Vec<(String, u64)> = Vec::new();
        std::mem::swap(&mut entries, &mut self.entries);
        assert(rows_of(entries@) == old_rows);
        match pos {
            Some(i) => {
                let ghost key = path@;
                entries.set(i, (path, modified));
                let ghost new_rows = rows_of(entries@);
                assert(new_rows =~= old_rows.update(i as int, (key, modified)));
                proof {
                    lemma_map_of_update(old_rows, i as int, modified);
                }
            },
            None => {
                let ghost key = path@;
                entries.push((path, modified));
                let ghost new_rows = rows_of(entries@);
                assert(new_rows =~= old_rows.push((key, modified)));
                assert(new_rows.drop_last() =~= old_rows);
                proof {
                    lemma_map_of_dom(old_rows);
                    assert forall|a: int, b: int| 0 <= a < b < new_rows.len() implies new_rows[a].0
                        != new_rows[b].0 by {
                        if b == new_rows.len() - 1 {
                            assert(old_rows[a] == new_rows[a]);
                        }
                    }
                }
            },
        }
        self.entries = entries;
    }
}

impl Clone for DeponState {
    /// A state that maps the same paths to the same times.
    fn clone(&self) -> (s: Self)
        ensures
            s@ == self@,
    {
        DeponState::from_entries(&self.entries)
    }
}

/// Replacing the time of one row changes the mapping at that row's path only.
proof fn lemma_map_of_update(rows: Seq<(Seq<char>, u64)>, i: int, v: u64)
    requires
        keys_distinct(rows),
        0 <= i < rows.len(),
    ensures
        keys_distinct(rows.update(i, (rows[i].0, v))),
        map_of(rows.update(i, (rows[i].0, v))) == map_of(rows).insert(rows[i].0, v),
    decreases rows.len(),
{
    let new_rows = rows.update(i, (rows[i].0, v));
    assert(new_rows.drop_last().len() == rows.drop_last().len());
    if i == rows.len() - 1 {
        assert(new_rows.drop_last() =~= rows.drop_last());
        assert(map_of(new_rows) =~= map_of(rows).insert(rows[i].0, v));
    } else {
        let init = rows.drop_last();
        assert(new_rows.drop_last() =~= init.update(i, (init[i].0, v)));
        lemma_map_of_update(init, i, v);
        assert(rows[i].0 != rows.last().0);
        assert(map_of(new_rows) =~= map_of(rows).insert(rows[i].0, v));
    }
}

} // verus!
