//! Values kept under text keys, in the order the keys first came; a key
//! occurs at most once. Registries of the runtime are built on it.

use vstd::prelude::*;
use crate::text::str_eq;

verus! {

/// The keys of entries, in order.
pub open spec fn entry_keys<V>(entries: Seq<(String, V)>) -> Seq<Seq<char>> {
    entries.map_values(|e: (String, V)| e.0@)
}

/// Index of the first key equal to `k`, or -1.
pub open spec fn entry_index(keys: Seq<Seq<char>>, k: Seq<char>) -> int
    decreases keys.len(),
{
    if keys.len() == 0 {
        -1
    } else if entry_index(keys.drop_last(), k) >= 0 {
        entry_index(keys.drop_last(), k)
    } else if keys.last() == k {
        keys.len() - 1
    } else {
        -1
    }
}

/// `entry_index` is the first index holding `k`.
pub proof fn lemma_entry_index(keys: Seq<Seq<char>>, k: Seq<char>)
    ensures
        -1 <= entry_index(keys, k) < keys.len(),
        entry_index(keys, k) >= 0 ==> keys[entry_index(keys, k)] == k,
        forall|j: int|
            0 <= j < keys.len() && (entry_index(keys, k) < 0 || j < entry_index(keys, k))
                ==> keys[j] != k,
    decreases keys.len(),
{
    if keys.len() > 0 {
        lemma_entry_index(keys.drop_last(), k);
        assert forall|j: int|
            0 <= j < keys.len() && (entry_index(keys, k) < 0 || j < entry_index(keys, k)) implies keys[j]
            != k by {
            if j < keys.len() - 1 {
                assert(keys.drop_last()[j] == keys[j]);
            }
        }
    }
}

/// In unique keys, the index of the key at `i` is `i`.
pub proof fn lemma_entry_index_unique(keys: Seq<Seq<char>>, i: int)
    requires
        keys.no_duplicates(),
        0 <= i < keys.len(),
    ensures
        entry_index(keys, keys[i]) == i,
{
    lemma_entry_index(keys, keys[i]);
}

/// The entries after putting `v` under `k`: an existing key keeps its
/// place and takes the new value; a new key goes last.
pub open spec fn entries_insert<V>(entries: Seq<(String, V)>, k: String, v: V) -> Seq<(String, V)> {
    let i = entry_index(entry_keys(entries), k@);
    if i >= 0 {
        entries.update(i, (k, v))
    } else {
        entries.push((k, v))
    }
}

/// The entries without key `k`.
pub open spec fn entries_remove<V>(entries: Seq<(String, V)>, k: Seq<char>) -> Seq<(String, V)> {
    let i = entry_index(entry_keys(entries), k);
    if i >= 0 {
        entries.remove(i)
    } else {
        entries
    }
}

/// The value under `k`, if any.
pub open spec fn entries_get<V>(entries: Seq<(String, V)>, k: Seq<char>) -> Option<V> {
    let i = entry_index(entry_keys(entries), k);
    if i >= 0 {
        Some(entries[i].1)
    } else {
        None
    }
}

/// Values under text keys.
pub struct Keyed<V> {
    pub entries: Vec<(String, V)>,
}

impl<V> Keyed<V> {
    /// The keys, in order.
    pub open spec fn keys(&self) -> Seq<Seq<char>> {
        entry_keys(self.entries@)
    }

    /// No entries.
    pub fn new() -> (res: Self)
        ensures
            res.entries@.len() == 0,
    {
        Keyed { entries: Vec::new() }
    }

    fn position(&self, key: &str) -> (r: Option<usize>)
        ensures
            match r {
                Some(i) => entry_index(self.keys(), key@) == i && i < self.entries@.len(),
                None => entry_index(self.keys(), key@) == -1,
            },
    {
        proof {
            lemma_entry_index(self.keys(), key@);
        }
        let mut i: usize = 0;
        while i < self.entries.len()
            invariant
                i <= self.entries.len(),
                forall|j: int| 0 <= j < i ==> self.keys()[j] != key@,
                -1 <= entry_index(self.keys(), key@) < self.keys().len(),
                entry_index(self.keys(), key@) >= 0 ==> self.keys()[entry_index(self.keys(), key@)]
                    == key@,
                forall|j: int|
                    0 <= j < self.keys().len() && (entry_index(self.keys(), key@) < 0 || j
                        < entry_index(self.keys(), key@)) ==> self.keys()[j] != key@,
            decreases self.entries.len() - i,
        {
            assert(self.keys()[i as int] == self.entries@[i as int].0@);
            if str_eq(self.entries[i].0.as_str(), key) {
                return Some(i);
            }
            i += 1;
        }
        None
    }

    /// The value under `key`, if any.
    pub fn get(&self, key: &str) -> (res: Option<&V>)
        ensures
            entry_index(self.keys(), key@) >= 0 ==> res == Some(
                &self.entries@[entry_index(self.keys(), key@)].1,
            ),
            entry_index(self.keys(), key@) < 0 ==> res is None,
    {
        match self.position(key) {
            Some(i) => Some(&self.entries[i].1),
            None => None,
        }
    }

    /// Puts `value` under `key`, replacing the value there before; a new
    /// key goes last.
    pub fn insert(&mut self, key: String, value: V)
        ensures
            final(self).entries@ == entries_insert(old(self).entries@, key, value),
    {
        match self.position(key.as_str()) {
            Some(i) => {
                self.entries.set(i, (key, value));
            },
            None => {
                self.entries.push((key, value));
            },
        }
    }

    /// Takes out the value under `key`, if any; the other entries keep
    /// their order.
    pub fn remove(&mut self, key: &str) -> (res: Option<V>)
        ensures
            final(self).entries@ == entries_remove(old(self).entries@, key@),
            res == entries_get(old(self).entries@, key@),
    {
        match self.position(key) {
            Some(i) => {
                let (_, v) = self.entries.remove(i);
                Some(v)
            },
            None => None,
        }
    }
}

/// Keyed values behave as a map on insertion: after putting a value under
/// a key, that key gives that value, every other key gives what it gave
/// before, and keys stay unique.
pub proof fn lemma_keyed_insert<V>(entries: Seq<(String, V)>, key: String, value: V, other: Seq<char>)
    requires
        entry_keys(entries).no_duplicates(),
    ensures
        entries_get(entries_insert(entries, key, value), key@) == Some(value),
        other != key@ ==> entries_get(entries_insert(entries, key, value), other) == entries_get(
            entries,
            other,
        ),
        entry_keys(entries_insert(entries, key, value)).no_duplicates(),
{
    let ks = entry_keys(entries);
    let i = entry_index(ks, key@);
    let after = entries_insert(entries, key, value);
    let ka = entry_keys(after);
    lemma_entry_index(ks, key@);
    lemma_entry_index(ks, other);
    lemma_entry_index(ka, key@);
    lemma_entry_index(ka, other);
    if i >= 0 {
        assert(ka =~= ks);
        assert(ka[i] == key@);
        if other != key@ && entry_index(ks, other) >= 0 {
            let a = entry_index(ks, other);
            assert(a != i);
            assert(after[a] == entries[a]);
        }
    } else {
        assert(ka =~= ks.push(key@));
        assert(ka.drop_last() =~= ks);
        assert(ka[ks.len() as int] == key@);
        assert forall|a: int, b: int| 0 <= a < ka.len() && 0 <= b < ka.len() && a != b implies ka[a]
            != ka[b] by {
            if a == ks.len() {
                assert(ks[b] != key@);
            } else if b == ks.len() {
                assert(ks[a] != key@);
            } else {
                assert(ks[a] != ks[b]);
            }
        }
        if other != key@ && entry_index(ks, other) >= 0 {
            assert(after[entry_index(ks, other)] == entries[entry_index(ks, other)]);
        }
    }
}

/// Keyed values behave as a map on removal: after removing a key, it gives
/// nothing, every other key gives what it gave before, and keys stay unique.
pub proof fn lemma_keyed_remove<V>(entries: Seq<(String, V)>, key: Seq<char>, other: Seq<char>)
    requires
        entry_keys(entries).no_duplicates(),
    ensures
        entries_get(entries_remove(entries, key), key) is None,
        other != key ==> entries_get(entries_remove(entries, key), other) == entries_get(
            entries,
            other,
        ),
        entry_keys(entries_remove(entries, key)).no_duplicates(),
{
    let ks = entry_keys(entries);
    let i = entry_index(ks, key);
    lemma_entry_index(ks, key);
    lemma_entry_index(ks, other);
    let rem = entries_remove(entries, key);
    let kr = entry_keys(rem);
    lemma_entry_index(kr, key);
    lemma_entry_index(kr, other);
    if i >= 0 {
        assert(kr =~= ks.remove(i));
        assert forall|a: int, b: int| 0 <= a < kr.len() && 0 <= b < kr.len() && a != b implies kr[a]
            != kr[b] by {
            let a2 = if a < i { a } else { a + 1 };
            let b2 = if b < i { b } else { b + 1 };
            assert(kr[a] == ks[a2] && kr[b] == ks[b2]);
        }
        assert forall|j: int| 0 <= j < kr.len() implies kr[j] != key by {
            let j2 = if j < i { j } else { j + 1 };
            assert(kr[j] == ks[j2]);
        }
        if other != key {
            let a = entry_index(ks, other);
            let b = entry_index(kr, other);
            if a >= 0 {
                let a2 = if a < i { a } else { a - 1 };
                assert(kr[a2] == ks[a]);
                lemma_entry_index_unique(kr, a2);
                assert(rem[a2] == entries[a]);
            } else if b >= 0 {
                let b2 = if b < i { b } else { b + 1 };
                assert(kr[b] == ks[b2]);
            }
        }
    } else {
        assert(kr =~= ks);
    }
}

} // verus!
