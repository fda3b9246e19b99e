//! `Table`: a map from string identifiers to rows that keeps the order in
//! which the identifiers were first inserted.
//!
//! The block update walks its entities in table order, so every node that
//! builds its tables in the same order reaches the same result.

use vstd::prelude::*;

verus! {

/// Whether `key` occurs among `ids`.
pub open spec fn holds(ids: Seq<String>, key: Seq<char>) -> bool {
    exists|i: int| 0 <= i < ids.len() && #[trigger] ids[i]@ == key
}

/// An index at which `key` occurs among `ids`, where there is one. Among
/// distinct identifiers it is the only one.
pub open spec fn index_of(ids: Seq<String>, key: Seq<char>) -> int {
    choose|i: int| 0 <= i < ids.len() && #[trigger] ids[i]@ == key
}

/// Whether no identifier occurs twice.
pub open spec fn distinct(ids: Seq<String>) -> bool {
    forall|i: int, j: int| 0 <= i < j < ids.len() ==> ids[i]@ != ids[j]@
}

/// Among distinct identifiers, the place where a key is found is its index.
pub proof fn lemma_index_unique(ids: Seq<String>, key: Seq<char>, i: int)
    requires
        distinct(ids),
        0 <= i < ids.len(),
        ids[i]@ == key,
    ensures
        holds(ids, key),
        index_of(ids, key) == i,
{
    let j = index_of(ids, key);
    assert(0 <= j < ids.len() && ids[j]@ == key);
    if j < i {
        assert(ids[j]@ != ids[i]@);
    } else if i < j {
        assert(ids[i]@ != ids[j]@);
    }
}

/// The index of a key that occurs is in range and holds the key.
pub proof fn lemma_index_in_range(ids: Seq<String>, key: Seq<char>)
    requires
        holds(ids, key),
    ensures
        0 <= index_of(ids, key) < ids.len(),
        ids[index_of(ids, key)]@ == key,
{
}

/// The first place at which `key` occurs among `ids`, or `None` where it
/// does not occur.
pub fn find(ids: &Vec<String>, key: &String) -> (r: Option<usize>)
    ensures
        match r {
            Some(i) => {
                &&& i < ids.len()
                &&& ids[i as int]@ == key@
                &&& forall|j: int| 0 <= j < i ==> ids[j]@ != key@
                &&& holds(ids@, key@)
                &&& distinct(ids@) ==> index_of(ids@, key@) == i
            },
            None => !holds(ids@, key@),
        },
{
    let mut i: usize = 0;
    while i < ids.len()
        invariant
            i <= ids.len(),
            forall|j: int| 0 <= j < i ==> ids[j]@ != key@,
        decreases ids.len() - i,
    {
        if ids[i] == *key {
            proof {
                if distinct(ids@) {
                    lemma_index_unique(ids@, key@, i as int);
                }
            }
            return Some(i);
        }
        i = i + 1;
    }
    None
}

/// Whether no identifier occurs twice among `ids`.
pub fn all_distinct(ids: &Vec<String>) -> (r: bool)
    ensures
        r == distinct(ids@),
{
    let mut j: usize = 0;
    while j < ids.len()
        invariant
            j <= ids.len(),
            forall|a: int, b: int| 0 <= a < b < j ==> ids[a]@ != ids[b]@,
        decreases ids.len() - j,
    {
        let mut i: usize = 0;
        while i < j
            invariant
                i <= j < ids.len(),
                forall|a: int| 0 <= a < i ==> ids[a]@ != ids[j as int]@,
            decreases j - i,
        {
            if ids[i] == ids[j] {
                return false;
            }
            i = i + 1;
        }
        j = j + 1;
    }
    true
}

/// Rows keyed by distinct string identifiers, in insertion order: row `i`
/// belongs to identifier `i`.
#[derive(Clone, Debug, PartialEq, Eq)]
pub struct Table<V> {
    pub ids: Vec<String>,
    pub rows: Vec<V>,
}

impl<V> View for Table<V> {
    type V = Map<Seq<char>, V>;

    /// The table as a map from identifier to row.
    open spec fn view(&self) -> Map<Seq<char>, V> {
        Map::new(
            |key: Seq<char>| holds(self.ids@, key),
            |key: Seq<char>| self.rows@[index_of(self.ids@, key)],
        )
    }
}

impl<V> Table<V> {
    /// Every identifier has its row, and none occurs twice.
    pub open spec fn wf(&self) -> bool {
        &&& self.ids@.len() == self.rows@.len()
        &&& distinct(self.ids@)
    }

    /// The number of rows, as a spec value.
    pub open spec fn count(&self) -> int {
        self.ids@.len() as int
    }

    /// An empty table.
    pub fn new() -> (r: Self)
        ensures
            r.wf(),
            r.ids@.len() == 0,
            r@ == Map::<Seq<char>, V>::empty(),
    {
        let r = Table { ids: Vec::new(), rows: Vec::new() };
        assert(r@ =~= Map::<Seq<char>, V>::empty());
        r
    }

    /// The number of rows.
    pub fn len(&self) -> (r: usize)
        ensures
            r == self.ids@.len(),
    {
        self.ids.len()
    }

    /// Whether the table is well formed.
    pub fn is_well_formed(&self) -> (r: bool)
        ensures
            r == self.wf(),
    {
        self.ids.len() == self.rows.len() && all_distinct(&self.ids)
    }

    /// The place of the row of `id`, or `None` where the table has none.
    pub fn position(&self, id: &String) -> (r: Option<usize>)
        requires
            self.wf(),
        ensures
            match r {
                Some(i) => {
                    &&& self@.contains_key(id@)
                    &&& i == index_of(self.ids@, id@)
                    &&& i < self.ids@.len()
                    &&& self.ids@[i as int]@ == id@
                },
                None => !self@.contains_key(id@),
            },
    {
        find(&self.ids, id)
    }

    /// Whether the table has a row for `id`.
    pub fn contains(&self, id: &String) -> (r: bool)
        requires
            self.wf(),
        ensures
            r == self@.contains_key(id@),
    {
        self.position(id).is_some()
    }

    /// The row of `id`, or `None` where the table has none.
    pub fn get(&self, id: &String) -> (r: Option<&V>)
        requires
            self.wf(),
        ensures
            match r {
                Some(row) => self@.contains_key(id@) && *row == self@[id@],
                None => !self@.contains_key(id@),
            },
    {
        match self.position(id) {
            Some(i) => Some(&self.rows[i]),
            None => None,
        }
    }

    /// Sets the row of `id` to `row`. An identifier that the table has keeps
    /// its place and its old row is returned; a new one goes to the end.
    pub fn insert(&mut self, id: String, row: V) -> (r: Option<V>)
        requires
            old(self).wf(),
        ensures
            final(self).wf(),
            final(self)@ == old(self)@.insert(id@, row),
            match r {
                Some(previous) => {
                    &&& old(self)@.contains_key(id@)
                    &&& previous == old(self)@[id@]
                    &&& final(self).ids@ == old(self).ids@
                    &&& final(self).rows@ == old(self).rows@.update(index_of(old(self).ids@, id@), row)
                },
                None => {
                    &&& !old(self)@.contains_key(id@)
                    &&& final(self).ids@ == old(self).ids@.push(id)
                    &&& final(self).rows@ == old(self).rows@.push(row)
                },
            },
    {
        let ghost before = *self;
        match find(&self.ids, &id) {
            Some(i) => {
                let mut row = row;
                core::mem::swap(&mut self.rows[i], &mut row);
                proof {
                    assert forall|key: Seq<char>| #[trigger]
                        self@.contains_key(key) == before@.insert(id@, self.rows@[i as int]).contains_key(
                            key,
                        ) by {}
                    assert forall|key: Seq<char>| self@.contains_key(key) implies #[trigger] self@[key]
                        == before@.insert(id@, self.rows@[i as int])[key] by {
                        if key == id@ {
                        } else {
                            lemma_index_in_range(before.ids@, key);
                        }
                    }
                    assert(self@ =~= before@.insert(id@, self.rows@[i as int]));
                }
                Some(row)
            },
            None => {
                self.ids.push(id);
                self.rows.push(row);
                proof {
                    let n = before.ids@.len() as int;
                    assert(self.ids@[n]@ == id@);
                    assert forall|a: int, b: int| 0 <= a < b < self.ids@.len() implies self.ids@[a]@
                        != self.ids@[b]@ by {
                        if b == n {
                            assert(before.ids@[a]@ == self.ids@[a]@);
                        } else {
                            assert(before.ids@[a]@ == self.ids@[a]@);
                            assert(before.ids@[b]@ == self.ids@[b]@);
                        }
                    }
                    lemma_index_unique(self.ids@, id@, n);
                    assert forall|key: Seq<char>| #[trigger]
                        self@.contains_key(key) == before@.insert(id@, row).contains_key(key) by {
                        if holds(before.ids@, key) {
                            let k = index_of(before.ids@, key);
                            assert(self.ids@[k]@ == key);
                        }
                        if holds(self.ids@, key) && key != id@ {
                            let k = index_of(self.ids@, key);
                            assert(k < n);
                            assert(before.ids@[k]@ == key);
                        }
                    }
                    assert forall|key: Seq<char>| self@.contains_key(key) implies #[trigger] self@[key]
                        == before@.insert(id@, row)[key] by {
                        if key != id@ {
                            let k = index_of(self.ids@, key);
                            assert(k < n);
                            assert(before.ids@[k]@ == key);
                            lemma_index_unique(before.ids@, key, k);
                        }
                    }
                    assert(self@ =~= before@.insert(id@, row));
                }
                None
            },
        }
    }
}

} // verus!
