//! Insertion-ordered association tables keyed by names or by small integers.
//!
//! A table is modelled by the sequence of its entries. A key occurs at most
//! once; a replaced entry keeps its place.

use vstd::prelude::*;

use crate::text::same_text;

verus! {

/// The first position at or after `i` whose entry has the given key.
pub open spec fn key_position<K, W>(entries: Seq<(K, W)>, key: K, i: int) -> Option<int>
    decreases entries.len() - i,
{
    if i < 0 || i >= entries.len() {
        None
    } else if entries[i].0 == key {
        Some(i)
    } else {
        key_position(entries, key, i + 1)
    }
}

/// The value stored under `key`.
pub open spec fn value_of<K, W>(entries: Seq<(K, W)>, key: K) -> Option<W> {
    match key_position(entries, key, 0) {
        Some(i) => Some(entries[i].1),
        None => None,
    }
}

pub open spec fn has_key<K, W>(entries: Seq<(K, W)>, key: K) -> bool {
    key_position(entries, key, 0) is Some
}

/// The table after storing `value` under `key`.
pub open spec fn with_entry<K, W>(entries: Seq<(K, W)>, key: K, value: W) -> Seq<(K, W)> {
    match key_position(entries, key, 0) {
        Some(i) => entries.update(i, (key, value)),
        None => entries.push((key, value)),
    }
}

/// The table after removing `key`.
pub open spec fn without_key<K, W>(entries: Seq<(K, W)>, key: K) -> Seq<(K, W)> {
    match key_position(entries, key, 0) {
        Some(i) => entries.remove(i),
        None => entries,
    }
}

/// No key occurs twice.
pub open spec fn unique_keys<K, W>(entries: Seq<(K, W)>) -> bool {
    forall|i: int, j: int|
        0 <= i < j < entries.len() ==> (#[trigger] entries[i]).0 != (#[trigger] entries[j]).0
}

/// What [`key_position`] finds.
pub proof fn key_position_is_first<K, W>(entries: Seq<(K, W)>, key: K, i: int)
    requires
        0 <= i,
    ensures
        match key_position(entries, key, i) {
            Some(p) => i <= p < entries.len() && entries[p].0 == key && forall|j: int|
                i <= j < p ==> (#[trigger] entries[j]).0 != key,
            None => forall|j: int| i <= j < entries.len() ==> (#[trigger] entries[j]).0 != key,
        },
    decreases entries.len() - i,
{
    if i < entries.len() && entries[i].0 != key {
        key_position_is_first(entries, key, i + 1);
    }
}

/// What was stored last under a key is found there.
pub proof fn stored_values_are_found<K, W>(entries: Seq<(K, W)>, key: K, value: W)
    ensures
        value_of(with_entry(entries, key, value), key) == Some(value),
{
    let put = with_entry(entries, key, value);
    key_position_is_first(entries, key, 0);
    key_position_is_first(put, key, 0);
    match key_position(entries, key, 0) {
        Some(p) => {
            assert(put[p] == (key, value));
        },
        None => {
            assert(put[entries.len() as int] == (key, value));
        },
    }
}

/// Storing and removing keep keys unique; a lookup gives back what was stored
/// last under its key, and nothing after the key was removed; other keys are
/// not affected.
pub proof fn tables_read_back_what_was_stored<K, W>(
    entries: Seq<(K, W)>,
    key: K,
    value: W,
    other: K,
)
    requires
        unique_keys(entries),
    ensures
        unique_keys(with_entry(entries, key, value)),
        unique_keys(without_key(entries, key)),
        value_of(with_entry(entries, key, value), key) == Some(value),
        value_of(without_key(entries, key), key) is None,
        other != key ==> value_of(with_entry(entries, key, value), other) == value_of(
            entries,
            other,
        ),
        other != key ==> value_of(without_key(entries, key), other) == value_of(entries, other),
{
    let put = with_entry(entries, key, value);
    let cut = without_key(entries, key);
    key_position_is_first(entries, key, 0);
    key_position_is_first(entries, other, 0);
    key_position_is_first(put, key, 0);
    key_position_is_first(put, other, 0);
    key_position_is_first(cut, key, 0);
    key_position_is_first(cut, other, 0);
    match key_position(entries, key, 0) {
        Some(p) => {
            assert(put[p].0 == key);
            assert forall|j: int| 0 <= j < cut.len() implies (#[trigger] cut[j]) == (if j < p {
                entries[j]
            } else {
                entries[j + 1]
            }) by {}
            assert forall|i: int, j: int| 0 <= i < j < cut.len() implies (#[trigger] cut[i]).0 != (
            #[trigger] cut[j]).0 by {
                let a = if i < p { i } else { i + 1 };
                let b = if j < p { j } else { j + 1 };
                assert(entries[a].0 != entries[b].0);
            }
            match key_position(entries, other, 0) {
                Some(q) => {
                    if other != key {
                        assert(put[q].0 == other);
                        let moved = if q < p { q } else { q - 1 };
                        assert(cut[moved].0 == other);
                        match key_position(put, other, 0) {
                            Some(r) => {
                                if r != q {
                                    assert(entries[r].0 == other);
                                }
                            },
                            None => {},
                        }
                        match key_position(cut, other, 0) {
                            Some(r) => {
                                let back = if r < p { r } else { r + 1 };
                                assert(entries[back].0 == other);
                                if back != q {
                                    if back < q {
                                        assert(entries[back].0 != entries[q].0);
                                    } else {
                                        assert(entries[q].0 != entries[back].0);
                                    }
                                }
                            },
                            None => {},
                        }
                    }
                },
                None => {
                    if other != key {
                        match key_position(put, other, 0) {
                            Some(r) => {
                                assert(r != p);
                                assert(entries[r].0 == other);
                            },
                            None => {},
                        }
                        match key_position(cut, other, 0) {
                            Some(r) => {
                                let back = if r < p { r } else { r + 1 };
                                assert(entries[back].0 == other);
                            },
                            None => {},
                        }
                    }
                },
            }
            match key_position(cut, key, 0) {
                Some(r) => {
                    let back = if r < p { r } else { r + 1 };
                    assert(entries[back].0 == key);
                    if back < p {
                        assert(entries[back].0 != entries[p].0);
                    } else {
                        assert(entries[p].0 != entries[back].0);
                    }
                },
                None => {},
            }
        },
        None => {
            let last = entries.len() as int;
            assert(put[last].0 == key);
            match key_position(put, key, 0) {
                Some(r) => {
                    if r != last {
                        assert(entries[r].0 == key);
                    }
                },
                None => {},
            }
            match key_position(entries, other, 0) {
                Some(q) => {
                    assert(put[q].0 == other);
                },
                None => {},
            }
            match key_position(put, other, 0) {
                Some(r) => {
                    if r != last {
                        assert(entries[r].0 == other);
                    }
                },
                None => {},
            }
        },
    }
}

/// A table keyed by names.
#[derive(Debug, Clone, PartialEq, Eq)]
pub struct NameMap<V> {
    entries: Vec<(String, V)>,
}

impl<V> View for NameMap<V> {
    type V = Seq<(Seq<char>, V)>;

    closed spec fn view(&self) -> Seq<(Seq<char>, V)> {
        Seq::new(self.entries@.len(), |i: int| (self.entries@[i].0@, self.entries@[i].1))
    }
}

impl<V> NameMap<V> {
    pub fn new() -> (table: NameMap<V>)
        ensures
            table@ == Seq::<(Seq<char>, V)>::empty(),
    {
        let table = NameMap { entries: Vec::new() };
        assert(table@ =~= Seq::<(Seq<char>, V)>::empty());
        table
    }

    pub fn len(&self) -> (len: usize)
        ensures
            len == self@.len(),
    {
        self.entries.len()
    }

    pub fn name_at(&self, i: usize) -> (name: &String)
        requires
            i < self@.len(),
        ensures
            name@ == self@[i as int].0,
    {
        &self.entries[i].0
    }

    pub fn value_at(&self, i: usize) -> (value: &V)
        requires
            i < self@.len(),
        ensures
            *value == self@[i as int].1,
    {
        &self.entries[i].1
    }

    fn position(&self, name: &str) -> (position: Option<usize>)
        ensures
            match position {
                Some(p) => p < self@.len() && key_position(self@, name@, 0) == Some(p as int),
                None => key_position(self@, name@, 0) is None,
            },
    {
        let mut i: usize = 0;
        while i < self.entries.len()
            invariant
                i <= self.entries.len(),
                key_position(self@, name@, 0) == key_position(self@, name@, i as int),
            decreases self.entries.len() - i,
        {
            if same_text(self.entries[i].0.as_str(), name) {
                return Some(i);
            }
            i += 1;
        }
        None
    }

    pub fn get(&self, name: &str) -> (value: Option<&V>)
        ensures
            match value {
                Some(v) => value_of(self@, name@) == Some(*v),
                None => value_of(self@, name@) is None,
            },
    {
        match self.position(name) {
            Some(p) => Some(&self.entries[p].1),
            None => None,
        }
    }

    pub fn contains_key(&self, name: &str) -> (present: bool)
        ensures
            present == has_key(self@, name@),
    {
        self.position(name).is_some()
    }

    pub fn insert(&mut self, name: String, value: V)
        ensures
            final(self)@ == with_entry(old(self)@, name@, value),
    {
        match self.position(name.as_str()) {
            Some(p) => {
                self.entries[p] = (name, value);
            },
            None => {
                self.entries.push((name, value));
            },
        }
        assert(self@ =~= with_entry(old(self)@, name@, value));
    }

    pub fn remove(&mut self, name: &str)
        ensures
            final(self)@ == without_key(old(self)@, name@),
    {
        match self.position(name) {
            Some(p) => {
                self.entries.remove(p);
            },
            None => {},
        }
        assert(self@ =~= without_key(old(self)@, name@));
    }
}

/// A table keyed by integers.
#[derive(Debug, Clone, PartialEq, Eq)]
pub struct IdMap<V> {
    entries: Vec<(u32, V)>,
}

impl<V> View for IdMap<V> {
    type V = Seq<(u32, V)>;

    closed spec fn view(&self) -> Seq<(u32, V)> {
        self.entries@
    }
}

impl<V> IdMap<V> {
    pub fn new() -> (table: IdMap<V>)
        ensures
            table@ == Seq::<(u32, V)>::empty(),
    {
        IdMap { entries: Vec::new() }
    }

    pub fn len(&self) -> (len: usize)
        ensures
            len == self@.len(),
    {
        self.entries.len()
    }

    pub fn key_at(&self, i: usize) -> (key: u32)
        requires
            i < self@.len(),
        ensures
            key == self@[i as int].0,
    {
        self.entries[i].0
    }

    pub fn value_at(&self, i: usize) -> (value: &V)
        requires
            i < self@.len(),
        ensures
            *value == self@[i as int].1,
    {
        &self.entries[i].1
    }

    fn position(&self, key: u32) -> (position: Option<usize>)
        ensures
            match position {
                Some(p) => p < self@.len() && key_position(self@, key, 0) == Some(p as int),
                None => key_position(self@, key, 0) is None,
            },
    {
        let mut i: usize = 0;
        while i < self.entries.len()
            invariant
                i <= self.entries.len(),
                key_position(self@, key, 0) == key_position(self@, key, i as int),
            decreases self.entries.len() - i,
        {
            if self.entries[i].0 == key {
                return Some(i);
            }
            i += 1;
        }
        None
    }

    pub fn get(&self, key: u32) -> (value: Option<&V>)
        ensures
            match value {
                Some(v) => value_of(self@, key) == Some(*v),
                None => value_of(self@, key) is None,
            },
    {
        match self.position(key) {
            Some(p) => Some(&self.entries[p].1),
            None => None,
        }
    }

    pub fn contains_key(&self, key: u32) -> (present: bool)
        ensures
            present == has_key(self@, key),
    {
        self.position(key).is_some()
    }

    pub fn insert(&mut self, key: u32, value: V)
        ensures
            final(self)@ == with_entry(old(self)@, key, value),
    {
        match self.position(key) {
            Some(p) => {
                self.entries[p] = (key, value);
            },
            None => {
                self.entries.push((key, value));
            },
        }
    }

    pub fn remove(&mut self, key: u32)
        ensures
            final(self)@ == without_key(old(self)@, key),
    {
        match self.position(key) {
            Some(p) => {
                self.entries.remove(p);
            },
            None => {},
        }
    }
}

} // verus!
