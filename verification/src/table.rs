//! A small map keyed by strings, kept as a list of entries in which no key
//! occurs twice.

use vstd::prelude::*;

verus! {

/// No two entries of `entries` share a key.
pub open spec fn keys_distinct<V>(entries: Seq<(Seq<char>, V)>) -> bool {
    forall|i: int, j: int|
        0 <= i < entries.len() && 0 <= j < entries.len() && i != j ==> #[trigger] entries[i].0
            != #[trigger] entries[j].0
}

/// `key` is the key of some entry.
pub open spec fn has_key<V>(entries: Seq<(Seq<char>, V)>, key: Seq<char>) -> bool {
    exists|i: int| 0 <= i < entries.len() && #[trigger] entries[i].0 == key
}

/// The value stored under `key`, if any.
pub open spec fn lookup<V>(entries: Seq<(Seq<char>, V)>, key: Seq<char>) -> Option<V> {
    if has_key(entries, key) {
        let i = choose|i: int| 0 <= i < entries.len() && #[trigger] entries[i].0 == key;
        Some(entries[i].1)
    } else {
        None
    }
}

/// The entries after storing `value` under `key`: the entry with that key
/// is replaced in place, or a new entry is added at the end.
pub open spec fn insert_entry<V>(entries: Seq<(Seq<char>, V)>, key: Seq<char>, value: V) -> Seq<
    (Seq<char>, V),
> {
    if has_key(entries, key) {
        let i = choose|i: int| 0 <= i < entries.len() && #[trigger] entries[i].0 == key;
        entries.update(i, (key, value))
    } else {
        entries.push((key, value))
    }
}

/// With distinct keys, the entry that holds a key is the one `lookup` reads.
pub proof fn lemma_lookup_at<V>(entries: Seq<(Seq<char>, V)>, i: int)
    requires
        keys_distinct(entries),
        0 <= i < entries.len(),
    ensures
        lookup(entries, entries[i].0) == Some(entries[i].1),
{
    let key = entries[i].0;
    assert(has_key(entries, key));
    let j = choose|j: int| 0 <= j < entries.len() && #[trigger] entries[j].0 == key;
    if j != i {
        assert(entries[i].0 != entries[j].0);
    }
}

/// What a lookup gives back after an insert: the inserted value under the
/// inserted key, the old value under every other key, and keys stay
/// distinct.
pub proof fn law_lookup_after_insert<V>(
    entries: Seq<(Seq<char>, V)>,
    key: Seq<char>,
    value: V,
    other: Seq<char>,
)
    requires
        keys_distinct(entries),
    ensures
        keys_distinct(insert_entry(entries, key, value)),
        lookup(insert_entry(entries, key, value), key) == Some(value),
        other != key ==> lookup(insert_entry(entries, key, value), other) == lookup(entries, other),
{
    let after = insert_entry(entries, key, value);
    if has_key(entries, key) {
        let i = choose|i: int| 0 <= i < entries.len() && #[trigger] entries[i].0 == key;
        assert forall|a: int, b: int|
            0 <= a < after.len() && 0 <= b < after.len() && a != b implies #[trigger] after[a].0
                != #[trigger] after[b].0 by {
            if a != i && b != i {
                assert(entries[a].0 != entries[b].0);
            } else if a == i {
                assert(entries[i].0 != entries[b].0);
            } else {
                assert(entries[a].0 != entries[i].0);
            }
        }
        lemma_lookup_at(after, i);
        if other != key && has_key(entries, other) {
            let j = choose|j: int| 0 <= j < entries.len() && #[trigger] entries[j].0 == other;
            lemma_lookup_at(entries, j);
            assert(j != i);
            assert(after[j] == entries[j]);
            lemma_lookup_at(after, j);
        } else if other != key {
            assert forall|j: int| 0 <= j < after.len() implies #[trigger] after[j].0 != other by {
                if j != i {
                    assert(after[j] == entries[j]);
                }
            }
        }
    } else {
        let n = entries.len() as int;
        assert forall|a: int, b: int|
            0 <= a < after.len() && 0 <= b < after.len() && a != b implies #[trigger] after[a].0
                != #[trigger] after[b].0 by {
            if a != n && b != n {
                assert(entries[a].0 != entries[b].0);
            } else if a == n {
                assert(after[b] == entries[b]);
            } else {
                assert(after[a] == entries[a]);
            }
        }
        lemma_lookup_at(after, n);
        if other != key && has_key(entries, other) {
            let j = choose|j: int| 0 <= j < entries.len() && #[trigger] entries[j].0 == other;
            lemma_lookup_at(entries, j);
            assert(after[j] == entries[j]);
            lemma_lookup_at(after, j);
        } else if other != key {
            assert forall|j: int| 0 <= j < after.len() implies #[trigger] after[j].0 != other by {
                if j != n {
                    assert(after[j] == entries[j]);
                }
            }
        }
    }
}

/// A map from strings to values of type `V`.
pub struct Table<V> {
    entries: Vec<(String, V)>,
}

impl<V> Table<V> {
    /// The entries, each key taken by its characters, in insertion order.
    pub closed spec fn entries(&self) -> Seq<(Seq<char>, V)> {
        self.entries@.map_values(|e: (String, V)| (e.0@, e.1))
    }

    #[verifier::type_invariant]
    spec fn distinct(&self) -> bool {
        keys_distinct(self.entries())
    }

    /// An empty table.
    pub fn new() -> (t: Self)
        ensures
            t.entries() == Seq::<(Seq<char>, V)>::empty(),
    {
        let t = Table { entries: Vec::new() };
        assert(t.entries() =~= Seq::<(Seq<char>, V)>::empty());
        t
    }

    /// The number of entries.
    pub fn len(&self) -> (n: usize)
        ensures
            n == self.entries().len(),
    {
        self.entries.len()
    }

    /// The key of entry `i`.
    pub fn key_at(&self, i: usize) -> (k: &String)
        requires
            i < self.entries().len(),
        ensures
            k@ == self.entries()[i as int].0,
    {
        &self.entries[i].0
    }

    /// The value of entry `i`.
    pub fn value_at(&self, i: usize) -> (v: &V)
        requires
            i < self.entries().len(),
        ensures
            *v == self.entries()[i as int].1,
    {
        &self.entries[i].1
    }

    /// The position of the entry whose key is `key`, if there is one.
    fn position(&self, key: &String) -> (r: Option<usize>)
        ensures
            r matches Some(i) ==> i < self.entries().len() && self.entries()[i as int].0 == key@,
            r is None ==> !has_key(self.entries(), key@),
    {
        let mut i: usize = 0;
        while i < self.entries.len()
            invariant
                i <= self.entries@.len(),
                forall|j: int| 0 <= j < i ==> self.entries()[j].0 != key@,
            decreases self.entries@.len() - i,
        {
            if self.entries[i].0 == *key {
                return Some(i);
            }
            i = i + 1;
        }
        None
    }

    /// Whether some entry has key `key`.
    pub fn contains_key(&self, key: &String) -> (b: bool)
        ensures
            b == has_key(self.entries(), key@),
    {
        self.position(key).is_some()
    }

    /// The value stored under `key`, if any.
    pub fn get(&self, key: &String) -> (r: Option<&V>)
        ensures
            r is Some <==> has_key(self.entries(), key@),
            r matches Some(v) ==> lookup(self.entries(), key@) == Some(*v),
    {
        proof {
            use_type_invariant(self);
        }
        match self.position(key) {
            Some(i) => {
                proof {
                    lemma_lookup_at(self.entries(), i as int);
                }
                Some(&self.entries[i].1)
            },
            None => None,
        }
    }

    /// Stores `value` under `key`, replacing the value held there before.
    pub fn insert(&mut self, key: String, value: V)
        ensures
            final(self).entries() == insert_entry(old(self).entries(), key@, value),
    {
        proof {
            use_type_invariant(&*self);
        }
        let ghost old_entries = self.entries();
        let pos = self.position(&key);
        let ghost key_view = key@;
        match pos {
            Some(i) => {
                proof {
                    let j = choose|j: int|
                        0 <= j < old_entries.len() && #[trigger] old_entries[j].0 == key_view;
                    if j != i {
                        assert(old_entries[i as int].0 != old_entries[j].0);
                    }
                }
                let mut entries = Vec::new();
                std::mem::swap(&mut entries, &mut self.entries);
                entries.set(i, (key, value));
                proof {
                    let new_view = entries@.map_values(|e: (String, V)| (e.0@, e.1));
                    assert(new_view =~= old_entries.update(i as int, (key_view, value)));
                    assert forall|a: int, b: int|
                        0 <= a < new_view.len() && 0 <= b < new_view.len() && a != b implies #[trigger] new_view[a].0
                            != #[trigger] new_view[b].0 by {
                        if a != i && b != i {
                            assert(old_entries[a].0 != old_entries[b].0);
                        } else if a == i {
                            assert(old_entries[i as int].0 != old_entries[b].0);
                        } else {
                            assert(old_entries[a].0 != old_entries[i as int].0);
                        }
                    }
                }
                self.entries = entries;
                assert(self.entries() =~= insert_entry(old_entries, key_view, value));
            },
            None => {
                let mut entries = Vec::new();
                std::mem::swap(&mut entries, &mut self.entries);
                entries.push((key, value));
                proof {
                    let new_view = entries@.map_values(|e: (String, V)| (e.0@, e.1));
                    assert(new_view =~= old_entries.push((key_view, value)));
                    assert forall|a: int, b: int|
                        0 <= a < new_view.len() && 0 <= b < new_view.len() && a != b implies #[trigger] new_view[a].0
                            != #[trigger] new_view[b].0 by {
                        let n = old_entries.len() as int;
                        if a != n && b != n {
                            assert(old_entries[a].0 != old_entries[b].0);
                        } else if a == n {
                            assert(old_entries[b].0 != key_view);
                        } else {
                            assert(old_entries[a].0 != key_view);
                        }
                    }
                }
                self.entries = entries;
                assert(self.entries() =~= insert_entry(old_entries, key_view, value));
            },
        }
    }
}

} // verus!
