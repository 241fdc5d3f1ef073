//! An insertion-ordered map from text keys to values.
//!
//! Entries keep the order in which their keys were first inserted, so walking
//! a dictionary always visits the entries in the same order.

use crate::text::{first_index_from, first_index_in_range, first_index_of};
use vstd::prelude::*;
use vstd::string::*;

verus! {

/// The keys of a list of entries, in order.
pub open spec fn keys<T>(entries: Seq<(Seq<char>, T)>) -> Seq<Seq<char>> {
    entries.map_values(|e: (Seq<char>, T)| e.0)
}

/// Whether some entry has the key.
pub open spec fn has_key<T>(entries: Seq<(Seq<char>, T)>, key: Seq<char>) -> bool {
    first_index_of(keys(entries), key) < entries.len()
}

/// The value stored under the key, if any.
pub open spec fn lookup<T>(entries: Seq<(Seq<char>, T)>, key: Seq<char>) -> Option<T> {
    let i = first_index_of(keys(entries), key);
    if i < entries.len() {
        Some(entries[i].1)
    } else {
        None
    }
}

/// The entries after storing `value` under `key`: an entry that already has
/// the key keeps its place and takes the new value; otherwise a new entry is
/// added at the end.
pub open spec fn put<T>(entries: Seq<(Seq<char>, T)>, key: Seq<char>, value: T) -> Seq<
    (Seq<char>, T),
> {
    let i = first_index_of(keys(entries), key);
    if i < entries.len() {
        entries.update(i, (key, value))
    } else {
        entries.push((key, value))
    }
}

/// Storing a value keeps keys distinct, makes the key present with that
/// value, and leaves every other key as it was.
pub proof fn put_facts<T>(entries: Seq<(Seq<char>, T)>, key: Seq<char>, value: T)
    requires
        keys(entries).no_duplicates(),
    ensures
        keys(put(entries, key, value)).no_duplicates(),
        lookup(put(entries, key, value), key) == Some(value),
        forall|other: Seq<char>|
            other != key ==> lookup(put(entries, key, value), other) == lookup(entries, other),
        put(entries, key, value).len() == if has_key(entries, key) {
            entries.len()
        } else {
            entries.len() + 1
        },
{
    let ks = keys(entries);
    let after = put(entries, key, value);
    let ka = keys(after);
    let i = first_index_of(ks, key);
    first_index_in_range(ks, key);
    assert(ka =~= if i < entries.len() {
        ks
    } else {
        ks.push(key)
    });
    assert(ka[i] == key);
    first_index_from(ka, key, 0, i);
    assert(ka.skip(0) =~= ka);
    assert forall|other: Seq<char>| other != key implies lookup(after, other) == lookup(
        entries,
        other,
    ) by {
        first_index_in_range(ks, other);
        let j = first_index_of(ks, other);
        if j < ks.len() {
            first_index_from(ka, other, 0, j);
        } else {
            first_index_from(ka, other, 0, ka.len() as int);
        }
    }
}

/// What is stored under a key is found under it.
pub proof fn put_is_found<T>(entries: Seq<(Seq<char>, T)>, key: Seq<char>, value: T)
    ensures
        lookup(put(entries, key, value), key) == Some(value),
{
    let ks = keys(entries);
    let i = first_index_of(ks, key);
    first_index_in_range(ks, key);
    let ka = keys(put(entries, key, value));
    assert forall|j: int| 0 <= j < i implies ka[j] != key by {
        assert(ka[j] == ks[j]);
    }
    assert(ka[i] == key);
    first_index_from(ka, key, 0, i);
    assert(ka.skip(0) =~= ka);
}

/// Storing a value under a key that no entry has adds an entry at the end.
pub proof fn put_fresh<T>(entries: Seq<(Seq<char>, T)>, key: Seq<char>, value: T)
    requires
        forall|j: int| 0 <= j < entries.len() ==> entries[j].0 != key,
    ensures
        put(entries, key, value) == entries.push((key, value)),
{
    assert forall|j: int| 0 <= j < entries.len() implies keys(entries)[j] != key by {
        assert(keys(entries)[j] == entries[j].0);
    }
    first_index_from(keys(entries), key, 0, entries.len() as int);
    assert(keys(entries).skip(0) =~= keys(entries));
}

/// Storing the entries of a list with distinct keys one after the other
/// rebuilds the list: storing entry `i` on top of the first `i` entries
/// gives the first `i + 1`.
pub proof fn put_next<T>(entries: Seq<(Seq<char>, T)>, i: int)
    requires
        keys(entries).no_duplicates(),
        0 <= i < entries.len(),
    ensures
        put(entries.take(i), entries[i].0, entries[i].1) == entries.take(i + 1),
{
    let before = entries.take(i);
    let key = entries[i].0;
    assert forall|j: int| 0 <= j < i implies keys(before)[j] != key by {
        assert(keys(before)[j] == keys(entries)[j]);
        assert(keys(entries)[i] == key);
    }
    first_index_from(keys(before), key, 0, i);
    assert(keys(before).skip(0) =~= keys(before));
    assert(before.push((key, entries[i].1)) =~= entries.take(i + 1));
}

/// A map from text keys to values that keeps its entries in the order in
/// which their keys were first inserted. Its view is the list of entries,
/// each as its key and the view of its value; no two entries share a key.
pub struct Dict<V: View> {
    entries: Vec<(String, V)>,
}

impl<V: View> View for Dict<V> {
    type V = Seq<(Seq<char>, V::V)>;

    closed spec fn view(&self) -> Seq<(Seq<char>, V::V)> {
        self.entries@.map_values(|e: (String, V)| (e.0@, e.1@))
    }
}

impl<V: View> Dict<V> {
    #[verifier::type_invariant]
    spec fn distinct_keys(&self) -> bool {
        keys(self@).no_duplicates()
    }

    /// A dictionary without entries.
    pub fn new() -> (d: Self)
        ensures
            d@ == Seq::<(Seq<char>, V::V)>::empty(),
    {
        let d = Dict { entries: Vec::new() };
        assert(d@ =~= Seq::<(Seq<char>, V::V)>::empty());
        d
    }

    /// Number of entries. No two of them share a key.
    pub fn len(&self) -> (n: usize)
        ensures
            n == self@.len(),
            keys(self@).no_duplicates(),
    {
        proof {
            use_type_invariant(self);
        }
        self.entries.len()
    }

    /// The key of the entry at a position.
    pub fn key_at(&self, i: usize) -> (k: &String)
        requires
            i < self@.len(),
        ensures
            k@ == self@[i as int].0,
    {
        &self.entries[i].0
    }

    /// The value of the entry at a position.
    pub fn value_at(&self, i: usize) -> (v: &V)
        requires
            i < self@.len(),
        ensures
            v@ == self@[i as int].1,
    {
        &self.entries[i].1
    }

    /// Position of the entry that has the key.
    pub fn position(&self, key: &str) -> (r: Option<usize>)
        ensures
            match r {
                Some(i) => i == first_index_of(keys(self@), key@) && i < self@.len(),
                None => !has_key(self@, key@),
            },
    {
        let n: usize = self.entries.len();
        let wanted: String = String::from_str(key);
        let mut i: usize = 0;
        while i < n
            invariant
                i <= n,
                n == self@.len(),
                wanted@ == key@,
                forall|j: int| 0 <= j < i ==> keys(self@)[j] != key@,
            decreases n - i,
        {
            if self.entries[i].0 == wanted {
                proof {
                    assert(keys(self@)[i as int] == key@);
                    first_index_from(keys(self@), key@, 0, i as int);
                    assert(keys(self@).skip(0) =~= keys(self@));
                }
                return Some(i);
            }
            i += 1;
        }
        proof {
            first_index_from(keys(self@), key@, 0, n as int);
            assert(keys(self@).skip(0) =~= keys(self@));
        }
        None
    }

    /// Whether some entry has the key.
    pub fn contains_key(&self, key: &str) -> (b: bool)
        ensures
            b == has_key(self@, key@),
    {
        self.position(key).is_some()
    }

    /// The value stored under the key, if any.
    pub fn get(&self, key: &str) -> (r: Option<&V>)
        ensures
            match r {
                Some(v) => lookup(self@, key@) == Some(v@),
                None => lookup(self@, key@) is None,
            },
    {
        match self.position(key) {
            Some(i) => Some(&self.entries[i].1),
            None => None,
        }
    }

    /// Stores `value` under `key`, replacing the value of an entry that
    /// already has the key.
    pub fn insert(&mut self, key: String, value: V)
        ensures
            final(self)@ == put(old(self)@, key@, value@),
    {
        proof {
            use_type_invariant(&*self);
            put_facts(self@, key@, value@);
        }
        let found: Option<usize> = self.position(key.as_str());
        let mut entries: Vec<(String, V)> = Vec::new();
        core::mem::swap(&mut entries, &mut self.entries);
        match found {
            Some(i) => {
                entries.set(i, (key, value));
            },
            None => {
                entries.push((key, value));
            },
        }
        assert(entries@.map_values(|e: (String, V)| (e.0@, e.1@)) =~= put(
            old(self)@,
            key@,
            value@,
        ));
        self.entries = entries;
    }

    /// Gives up the entries, in order.
    pub fn into_entries(self) -> (list: Vec<(String, V)>)
        ensures
            list@.map_values(|e: (String, V)| (e.0@, e.1@)) == self@,
    {
        self.entries
    }
}

} // verus!
