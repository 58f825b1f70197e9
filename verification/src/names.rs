//! Maps keyed by text that remember the order in which keys were added.

use vstd::prelude::*;

verus! {

/// The model of a [`NameMap`]: its entries in insertion order, each a key
/// with the view of its value.
pub type Entries<T> = Seq<(Seq<char>, T)>;

/// The view of what an `Option` holds.
pub open spec fn viewed<T: View>(value: Option<T>) -> Option<T::V> {
    match value {
        Some(v) => Some(v@),
        None => None,
    }
}

/// `key` occurs among `entries`.
pub open spec fn has_key<T>(entries: Entries<T>, key: Seq<char>) -> bool {
    exists|i: int| 0 <= i < entries.len() && #[trigger] entries[i].0 == key
}

/// The position of some entry with `key`; meaningful when `has_key` holds.
pub open spec fn position<T>(entries: Entries<T>, key: Seq<char>) -> int {
    choose|i: int| 0 <= i < entries.len() && #[trigger] entries[i].0 == key
}

/// The value stored under `key`, if any.
pub open spec fn lookup<T>(entries: Entries<T>, key: Seq<char>) -> Option<T> {
    if has_key(entries, key) {
        Some(entries[position(entries, key)].1)
    } else {
        None
    }
}

/// No key occurs twice.
pub open spec fn distinct_keys<T>(entries: Entries<T>) -> bool {
    forall|i: int, j: int|
        0 <= i < j < entries.len() ==> #[trigger] entries[i].0 != #[trigger] entries[j].0
}

/// `entries` after storing `value` under `key`: an existing entry keeps its
/// place and takes the new value, a new key goes to the end.
pub open spec fn put<T>(entries: Entries<T>, key: Seq<char>, value: T) -> Entries<T> {
    if has_key(entries, key) {
        entries.update(position(entries, key), (key, value))
    } else {
        entries.push((key, value))
    }
}

/// With distinct keys, the entry at `i` is the one `lookup` finds.
pub proof fn lemma_lookup_at<T>(entries: Entries<T>, i: int)
    requires
        distinct_keys(entries),
        0 <= i < entries.len(),
    ensures
        has_key(entries, entries[i].0),
        position(entries, entries[i].0) == i,
        lookup(entries, entries[i].0) == Some(entries[i].1),
{
    let p = position(entries, entries[i].0);
    if p < i {
    } else if i < p {
    }
}

/// `put` keeps keys distinct, and afterwards `lookup` finds the new value
/// under `key` and the old values under every other key.
pub proof fn lemma_put<T>(entries: Entries<T>, key: Seq<char>, value: T)
    requires
        distinct_keys(entries),
    ensures
        distinct_keys(put(entries, key, value)),
        lookup(put(entries, key, value), key) == Some(value),
        forall|other: Seq<char>|
            other != key ==> #[trigger] lookup(put(entries, key, value), other) == lookup(
                entries,
                other,
            ),
        forall|other: Seq<char>|
            #[trigger] has_key(put(entries, key, value), other) <==> (other == key || has_key(
                entries,
                other,
            )),
{
    let after = put(entries, key, value);
    let at = if has_key(entries, key) {
        position(entries, key)
    } else {
        entries.len() as int
    };
    assert forall|i: int| 0 <= i < after.len() && i != at implies after[i] == entries[i]
        && entries[i].0 != key by {}
    lemma_lookup_at(after, at);
    assert forall|other: Seq<char>| other != key implies #[trigger] lookup(after, other)
        == lookup(entries, other) by {
        if has_key(entries, other) {
            let p = position(entries, other);
            lemma_lookup_at(entries, p);
            lemma_lookup_at(after, p);
        } else if has_key(after, other) {
            let p = position(after, other);
        }
    }
    assert forall|other: Seq<char>| #[trigger]
        has_key(after, other) <==> (other == key || has_key(entries, other)) by {
        if has_key(entries, other) {
            let p = position(entries, other);
        }
        if has_key(after, other) && other != key {
            let p = position(after, other);
        }
    }
}

/// `b` is the view of a clone of a value whose view is `a`.
pub open spec fn cloned_view<V: View + Clone>(a: V::V, b: V::V) -> bool {
    exists|x: V, y: V| x@ == a && y@ == b && cloned(x, y)
}

/// A map from text to `V` that keeps its keys in insertion order.
#[derive(Debug)]
pub struct NameMap<V: View> {
    entries: Vec<(String, V)>,
}

impl<V: View> View for NameMap<V> {
    type V = Entries<V::V>;

    closed spec fn view(&self) -> Entries<V::V> {
        model(self.entries@)
    }
}

spec fn model<V: View>(entries: Seq<(String, V)>) -> Entries<V::V> {
    Seq::new(entries.len(), |i: int| (entries[i].0@, entries[i].1@))
}

impl<V: View> NameMap<V> {
    #[verifier::type_invariant]
    spec fn keys_are_distinct(&self) -> bool {
        distinct_keys(self@)
    }

    /// An empty map.
    pub fn new() -> (map: Self)
        ensures
            map@ == Entries::<V::V>::empty(),
    {
        let map = NameMap { entries: Vec::new() };
        map
    }

    /// The number of keys.
    pub fn len(&self) -> (n: usize)
        ensures
            n == self@.len(),
            distinct_keys(self@),
    {
        proof {
            use_type_invariant(self);
        }
        self.entries.len()
    }

    /// The key at position `i`.
    pub fn key(&self, i: usize) -> (key: &String)
        requires
            i < self@.len(),
        ensures
            key@ == self@[i as int].0,
    {
        &self.entries[i].0
    }

    /// The value at position `i`.
    pub fn value(&self, i: usize) -> (value: &V)
        requires
            i < self@.len(),
        ensures
            value@ == self@[i as int].1,
    {
        &self.entries[i].1
    }

    fn find(&self, key: &String) -> (at: Option<usize>)
        ensures
            distinct_keys(self@),
            match at {
                Some(i) => i < self@.len() && self@[i as int].0 == key@ && has_key(self@, key@)
                    && position(self@, key@) == i,
                None => !has_key(self@, key@),
            },
    {
        proof {
            use_type_invariant(self);
        }
        let mut i: usize = 0;
        while i < self.entries.len()
            invariant
                i <= self.entries.len(),
                self@.len() == self.entries.len(),
                distinct_keys(self@),
                forall|j: int| 0 <= j < i ==> (#[trigger] self@[j]).0 != key@,
            decreases self.entries.len() - i,
        {
            if self.entries[i].0 == *key {
                proof {
                    lemma_lookup_at(self@, i as int);
                }
                return Some(i);
            }
            i += 1;
        }
        None
    }

    /// Whether `key` is present.
    pub fn contains_key(&self, key: &str) -> (found: bool)
        ensures
            found == has_key(self@, key@),
    {
        let owned = key.to_owned();
        self.find(&owned).is_some()
    }

    /// The value stored under `key`.
    pub fn get(&self, key: &str) -> (value: Option<&V>)
        ensures
            distinct_keys(self@),
            match value {
                Some(v) => lookup(self@, key@) == Some(v@),
                None => lookup(self@, key@) is None,
            },
    {
        let owned = key.to_owned();
        match self.find(&owned) {
            Some(i) => Some(&self.entries[i].1),
            None => None,
        }
    }

    /// Stores `value` under `key` and returns the value it replaces, if any.
    pub fn insert(&mut self, key: String, value: V) -> (replaced: Option<V>)
        ensures
            final(self)@ == put(old(self)@, key@, value@),
            distinct_keys(final(self)@),
            match replaced {
                Some(v) => lookup(old(self)@, key@) == Some(v@),
                None => lookup(old(self)@, key@) is None,
            },
    {
        let at = self.find(&key);
        proof {
            lemma_put(self@, key@, value@);
        }
        let mut entries = Vec::new();
        std::mem::swap(&mut entries, &mut self.entries);
        let replaced = match at {
            Some(i) => {
                let mut slot = (key, value);
                std::mem::swap(&mut slot, &mut entries[i]);
                Some(slot.1)
            },
            None => {
                entries.push((key, value));
                None
            },
        };
        assert(model(entries@) =~= put(old(self)@, key@, value@));
        self.entries = entries;
        replaced
    }
}

impl<V: View> Default for NameMap<V> {
    /// An empty map.
    fn default() -> (map: Self)
        ensures
            map@ == Entries::<V::V>::empty(),
    {
        NameMap::new()
    }
}

impl<V: View + Clone> Clone for NameMap<V> {
    /// A map with the same keys in the same order, each value cloned.
    fn clone(&self) -> (copy: Self)
        ensures
            copy@.len() == self@.len(),
            forall|i: int|
                0 <= i < self@.len() ==> (#[trigger] copy@[i]).0 == self@[i].0 && cloned_view::<V>(
                    self@[i].1,
                    copy@[i].1,
                ),
    {
        proof {
            use_type_invariant(self);
        }
        let mut entries: Vec<(String, V)> = Vec::new();
        let mut i: usize = 0;
        while i < self.entries.len()
            invariant
                i <= self.entries.len(),
                entries.len() == i,
                forall|j: int|
                    0 <= j < i ==> (#[trigger] entries@[j]).0@ == self.entries@[j].0@ && cloned(
                        self.entries@[j].1,
                        entries@[j].1,
                    ),
            decreases self.entries.len() - i,
        {
            let key = self.entries[i].0.clone();
            let value = self.entries[i].1.clone();
            entries.push((key, value));
            i += 1;
        }
        assert forall|j: int| 0 <= j < self@.len() implies (#[trigger] model(entries@)[j]).0
            == self@[j].0 && cloned_view::<V>(self@[j].1, model(entries@)[j].1) by {
        }
        NameMap { entries }
    }
}

} // verus!
