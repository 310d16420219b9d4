//! The collection of the store: records under their identities.
//!
//! A [`Docs`] value is read as a finite map from identity to record. It is
//! kept as a list of entries in which no identity occurs twice, which a
//! lookup walks and which can be handed out whole when the collection is to
//! be encoded. The order of the list is no part of what a collection is.

use vstd::prelude::*;

verus! {

/// Equality of two string slices, `<str as PartialEq>::eq` of the standard
/// library: two slices are equal exactly when they hold the same characters.
pub assume_specification[ <str as PartialEq>::eq ](a: &str, b: &str) -> (res: bool)
    ensures
        res == (a@ == b@),
;

/// Records under their identities.
#[derive(Debug)]
pub struct Docs<T> {
    entries: Vec<(String, T)>,
}

impl<T> View for Docs<T> {
    type V = Map<Seq<char>, T>;

    closed spec fn view(&self) -> Map<Seq<char>, T> {
        entries_map(self.entries@)
    }
}

/// Whether `entries` holds a record under `key` at position `i`.
pub open spec fn holds_at<T>(entries: Seq<(String, T)>, i: int, key: Seq<char>) -> bool {
    0 <= i < entries.len() && entries[i].0@ == key
}

/// Whether no identity occurs twice in `entries`.
pub open spec fn distinct_keys<T>(entries: Seq<(String, T)>) -> bool {
    forall|i: int, j: int|
        0 <= i < j < entries.len() ==> (#[trigger] entries[i]).0@ != (#[trigger] entries[j]).0@
}

/// The map that a list of entries stands for. Where an identity occurs more
/// than once, its last entry counts.
pub open spec fn entries_map<T>(entries: Seq<(String, T)>) -> Map<Seq<char>, T>
    decreases entries.len(),
{
    if entries.len() == 0 {
        Map::empty()
    } else {
        entries_map(entries.drop_last()).insert(entries.last().0@, entries.last().1)
    }
}

impl<T> Docs<T> {
    #[verifier::type_invariant]
    spec fn no_key_twice(&self) -> bool {
        distinct_keys(self.entries@)
    }

    /// A collection holds finitely many records.
    pub proof fn lemma_finite(self)
        ensures
            self@.dom().finite(),
    {
        lemma_entries_map_finite(self.entries@);
    }

    /// The empty collection.
    pub fn new() -> (docs: Self)
        ensures
            docs@ == Map::<Seq<char>, T>::empty(),
    {
        Docs { entries: Vec::new() }
    }

    /// The number of records.
    pub fn len(&self) -> (n: usize)
        ensures
            self@.dom().finite(),
            n == self@.len(),
    {
        proof {
            use_type_invariant(self);
            lemma_entries_map_len(self.entries@);
        }
        self.entries.len()
    }

    /// Whether the collection holds no record.
    pub fn is_empty(&self) -> (empty: bool)
        ensures
            empty == (self@ == Map::<Seq<char>, T>::empty()),
    {
        proof {
            lemma_entries_map_dom(self.entries@);
            if self.entries@.len() > 0 {
                assert(holds_at(self.entries@, 0, self.entries@[0].0@));
                assert(self@.contains_key(self.entries@[0].0@));
            }
        }
        self.entries.len() == 0
    }

    /// The records with their identities: each identity once, with the
    /// record kept under it, in no order that a caller may count on.
    pub fn entries(&self) -> (entries: &Vec<(String, T)>)
        ensures
            distinct_keys(entries@),
            entries_map(entries@) == self@,
    {
        proof {
            use_type_invariant(self);
        }
        &self.entries
    }

    /// The position of the entry under `id`, if there is one.
    fn position(&self, id: &str) -> (at: Option<usize>)
        ensures
            match at {
                Some(i) => holds_at(self.entries@, i as int, id@),
                None => forall|i: int| !holds_at(self.entries@, i, id@),
            },
    {
        let mut i: usize = 0;
        while i < self.entries.len()
            invariant
                i <= self.entries.len(),
                forall|j: int| 0 <= j < i ==> !holds_at(self.entries@, j, id@),
            decreases self.entries.len() - i,
        {
            if self.entries[i].0.as_str().eq(id) {
                return Some(i);
            }
            i = i + 1;
        }
        None
    }

    /// Whether a record is kept under `id`.
    pub fn contains_key(&self, id: &str) -> (found: bool)
        ensures
            found == self@.contains_key(id@),
    {
        proof {
            lemma_entries_map_dom(self.entries@);
        }
        self.position(id).is_some()
    }

    /// The record kept under `id`, if there is one.
    pub fn get(&self, id: &str) -> (found: Option<&T>)
        ensures
            match found {
                Some(doc) => self@.contains_key(id@) && *doc == self@[id@],
                None => !self@.contains_key(id@),
            },
    {
        proof {
            use_type_invariant(self);
            lemma_entries_map_dom(self.entries@);
        }
        match self.position(id) {
            Some(i) => {
                proof {
                    lemma_entries_map_value(self.entries@, i as int);
                }
                Some(&self.entries[i].1)
            },
            None => None,
        }
    }

    /// Puts `doc` under `key`, in place of the record that was kept there,
    /// if any.
    pub fn insert(&mut self, key: String, doc: T)
        ensures
            final(self)@ == old(self)@.insert(key@, doc),
    {
        proof {
            use_type_invariant(&*self);
            lemma_entries_map_dom(self.entries@);
        }
        let at = self.position(key.as_str());
        let ghost before = self.entries@;
        let mut entries: Vec<(String, T)> = Vec::new();
        std::mem::swap(&mut entries, &mut self.entries);
        match at {
            Some(i) => {
                proof {
                    lemma_entries_map_update(before, i as int, key, doc);
                }
                entries.set(i, (key, doc));
            },
            None => {
                entries.push((key, doc));
                proof {
                    assert(entries@.drop_last() == before);
                    assert forall|a: int, b: int| 0 <= a < b < entries@.len() implies
                        (#[trigger] entries@[a]).0@ != (#[trigger] entries@[b]).0@ by {
                        if b == before.len() {
                            assert(!holds_at(before, a, key@));
                        }
                    }
                }
            },
        }
        self.entries = entries;
    }

    /// Takes out the record kept under `id` and returns it, if there is one.
    pub fn remove(&mut self, id: &str) -> (taken: Option<T>)
        ensures
            match taken {
                Some(doc) => old(self)@.contains_key(id@) && doc == old(self)@[id@]
                    && final(self)@ == old(self)@.remove(id@),
                None => !old(self)@.contains_key(id@) && final(self)@ == old(self)@,
            },
    {
        proof {
            use_type_invariant(&*self);
            lemma_entries_map_dom(self.entries@);
        }
        match self.position(id) {
            Some(i) => {
                proof {
                    lemma_entries_map_value(self.entries@, i as int);
                    lemma_entries_map_remove(self.entries@, i as int);
                }
                let mut entries: Vec<(String, T)> = Vec::new();
                std::mem::swap(&mut entries, &mut self.entries);
                let entry = entries.remove(i);
                self.entries = entries;
                Some(entry.1)
            },
            None => None,
        }
    }
}

impl<T: Clone> Clone for Docs<T> {
    /// Copies the collection: the same identities, and under each a copy of
    /// its record.
    fn clone(&self) -> (copy: Self)
        ensures
            copy@.dom() == self@.dom(),
            forall|key: Seq<char>|
                self@.contains_key(key) ==> cloned(self@[key], #[trigger] copy@[key]),
    {
        proof {
            use_type_invariant(self);
        }
        let mut entries: Vec<(String, T)> = Vec::new();
        let mut i: usize = 0;
        while i < self.entries.len()
            invariant
                i <= self.entries.len(),
                entries@.len() == i,
                forall|j: int|
                    0 <= j < i ==> (#[trigger] entries@[j]).0@ == self.entries@[j].0@ && cloned(
                        self.entries@[j].1,
                        entries@[j].1,
                    ),
            decreases self.entries.len() - i,
        {
            let key = self.entries[i].0.clone();
            let doc = self.entries[i].1.clone();
            entries.push((key, doc));
            i = i + 1;
        }
        proof {
            lemma_entries_map_copy(self.entries@, entries@);
        }
        Docs { entries }
    }
}

/// Every entry's identity is in the map, and nothing else is.
pub proof fn lemma_entries_map_dom<T>(entries: Seq<(String, T)>)
    ensures
        forall|k: Seq<char>|
            entries_map(entries).contains_key(k) <==> exists|i: int| holds_at(entries, i, k),
    decreases entries.len(),
{
    if entries.len() > 0 {
        let front = entries.drop_last();
        let last = entries.last();
        lemma_entries_map_dom(front);
        assert(entries_map(entries) == entries_map(front).insert(last.0@, last.1));
        assert forall|k: Seq<char>|
            entries_map(entries).contains_key(k) <==> exists|i: int| holds_at(entries, i, k) by {
            if entries_map(entries).contains_key(k) {
                if k == last.0@ {
                    assert(holds_at(entries, entries.len() - 1, k));
                } else {
                    assert(entries_map(front).contains_key(k));
                    let i = choose|i: int| holds_at(front, i, k);
                    assert(holds_at(entries, i, k));
                }
            }
            if exists|i: int| holds_at(entries, i, k) {
                let i = choose|i: int| holds_at(entries, i, k);
                if i < entries.len() - 1 {
                    assert(holds_at(front, i, k));
                    assert(entries_map(front).contains_key(k));
                }
            }
        }
    }
}

/// The map of a list of entries holds finitely many records.
pub proof fn lemma_entries_map_finite<T>(entries: Seq<(String, T)>)
    ensures
        entries_map(entries).dom().finite(),
    decreases entries.len(),
{
    if entries.len() > 0 {
        lemma_entries_map_finite(entries.drop_last());
    }
}

/// Where no identity occurs twice, each entry's record is the one that the
/// map gives for its identity.
pub proof fn lemma_entries_map_value<T>(entries: Seq<(String, T)>, i: int)
    requires
        distinct_keys(entries),
        0 <= i < entries.len(),
    ensures
        entries_map(entries).contains_key(entries[i].0@),
        entries_map(entries)[entries[i].0@] == entries[i].1,
    decreases entries.len(),
{
    let front = entries.drop_last();
    if i < entries.len() - 1 {
        assert(front[i] == entries[i]);
        lemma_entries_map_value(front, i);
    }
}

/// Where no identity occurs twice, the map has as many records as there are
/// entries.
pub proof fn lemma_entries_map_len<T>(entries: Seq<(String, T)>)
    requires
        distinct_keys(entries),
    ensures
        entries_map(entries).dom().finite(),
        entries_map(entries).len() == entries.len(),
    decreases entries.len(),
{
    if entries.len() > 0 {
        let front = entries.drop_last();
        let last = entries.last();
        lemma_entries_map_len(front);
        lemma_entries_map_dom(front);
        assert(!entries_map(front).contains_key(last.0@)) by {
            if entries_map(front).contains_key(last.0@) {
                let i = choose|i: int| holds_at(front, i, last.0@);
                assert(entries[i].0@ != entries[entries.len() - 1].0@);
            }
        }
        assert(entries_map(entries).dom() =~= entries_map(front).dom().insert(last.0@));
    }
}

/// Replacing the record of an entry replaces it in the map.
pub proof fn lemma_entries_map_update<T>(entries: Seq<(String, T)>, i: int, key: String, doc: T)
    requires
        distinct_keys(entries),
        holds_at(entries, i, key@),
    ensures
        distinct_keys(entries.update(i, (key, doc))),
        entries_map(entries.update(i, (key, doc))) == entries_map(entries).insert(key@, doc),
{
    let after = entries.update(i, (key, doc));
    assert(distinct_keys(after)) by {
        assert forall|a: int, b: int| 0 <= a < b < after.len() implies
            (#[trigger] after[a]).0@ != (#[trigger] after[b]).0@ by {
            assert(entries[a].0@ != entries[b].0@);
        }
    }
    lemma_entries_map_dom(entries);
    lemma_entries_map_dom(after);
    let want = entries_map(entries).insert(key@, doc);
    assert forall|k: Seq<char>| entries_map(after).contains_key(k) <==> want.contains_key(k) by {
        if entries_map(after).contains_key(k) {
            let a = choose|a: int| holds_at(after, a, k);
            assert(holds_at(entries, a, k));
        }
        if want.contains_key(k) {
            if k == key@ {
                assert(holds_at(after, i, k));
            } else {
                let a = choose|a: int| holds_at(entries, a, k);
                assert(holds_at(after, a, k));
            }
        }
    }
    assert forall|k: Seq<char>| entries_map(after).contains_key(k) implies
        entries_map(after)[k] == want[k] by {
        let a = choose|a: int| holds_at(after, a, k);
        lemma_entries_map_value(after, a);
        if a != i {
            lemma_entries_map_value(entries, a);
        }
    }
    assert(entries_map(after) =~= want);
}

/// Taking an entry out takes its identity out of the map.
pub proof fn lemma_entries_map_remove<T>(entries: Seq<(String, T)>, i: int)
    requires
        distinct_keys(entries),
        0 <= i < entries.len(),
    ensures
        distinct_keys(entries.remove(i)),
        entries_map(entries.remove(i)) == entries_map(entries).remove(entries[i].0@),
{
    let after = entries.remove(i);
    let key = entries[i].0@;
    assert(distinct_keys(after)) by {
        assert forall|a: int, b: int| 0 <= a < b < after.len() implies
            (#[trigger] after[a]).0@ != (#[trigger] after[b]).0@ by {
            let a0 = if a < i { a } else { a + 1 };
            let b0 = if b < i { b } else { b + 1 };
            assert(after[a] == entries[a0]);
            assert(after[b] == entries[b0]);
        }
    }
    lemma_entries_map_dom(entries);
    lemma_entries_map_dom(after);
    let want = entries_map(entries).remove(key);
    assert forall|k: Seq<char>| entries_map(after).contains_key(k) <==> want.contains_key(k) by {
        if entries_map(after).contains_key(k) {
            let a = choose|a: int| holds_at(after, a, k);
            let a0 = if a < i { a } else { a + 1 };
            assert(after[a] == entries[a0]);
            assert(holds_at(entries, a0, k));
            assert(entries[a0].0@ != entries[i].0@);
        }
        if want.contains_key(k) {
            let a0 = choose|a0: int| holds_at(entries, a0, k);
            let a = if a0 < i { a0 } else { a0 - 1 };
            assert(after[a] == entries[a0]);
            assert(holds_at(after, a, k));
        }
    }
    assert forall|k: Seq<char>| entries_map(after).contains_key(k) implies
        entries_map(after)[k] == want[k] by {
        let a = choose|a: int| holds_at(after, a, k);
        let a0 = if a < i { a } else { a + 1 };
        assert(after[a] == entries[a0]);
        lemma_entries_map_value(after, a);
        lemma_entries_map_value(entries, a0);
    }
    assert(entries_map(after) =~= want);
}

/// A list that holds, entry by entry, the same identities as another and
/// copies of its records stands for a map with the same identities and,
/// under each, a copy of the record.
pub proof fn lemma_entries_map_copy<T: Clone>(from: Seq<(String, T)>, to: Seq<(String, T)>)
    requires
        distinct_keys(from),
        to.len() == from.len(),
        forall|j: int|
            0 <= j < from.len()
                ==> (#[trigger] to[j]).0@ == from[j].0@ && cloned(from[j].1, to[j].1),
    ensures
        distinct_keys(to),
        entries_map(to).dom() == entries_map(from).dom(),
        forall|key: Seq<char>|
            entries_map(from).contains_key(key)
                ==> cloned(entries_map(from)[key], #[trigger] entries_map(to)[key]),
{
    assert(distinct_keys(to)) by {
        assert forall|a: int, b: int| 0 <= a < b < to.len() implies
            (#[trigger] to[a]).0@ != (#[trigger] to[b]).0@ by {
            assert(from[a].0@ != from[b].0@);
        }
    }
    lemma_entries_map_dom(from);
    lemma_entries_map_dom(to);
    assert forall|key: Seq<char>|
        entries_map(to).contains_key(key) <==> entries_map(from).contains_key(key) by {
        if entries_map(to).contains_key(key) {
            let a = choose|a: int| holds_at(to, a, key);
            assert(holds_at(from, a, key));
        }
        if entries_map(from).contains_key(key) {
            let a = choose|a: int| holds_at(from, a, key);
            assert(holds_at(to, a, key));
        }
    }
    assert(entries_map(to).dom() =~= entries_map(from).dom());
    assert forall|key: Seq<char>| entries_map(from).contains_key(key) implies
        cloned(entries_map(from)[key], #[trigger] entries_map(to)[key]) by {
        let a = choose|a: int| holds_at(from, a, key);
        assert(to[a].0@ == from[a].0@);
        lemma_entries_map_value(from, a);
        lemma_entries_map_value(to, a);
    }
}

} // verus!
