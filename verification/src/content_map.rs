//! The argument of a multi-format write: one payload per content type.

use crate::common::{CanonicalType, ContentType};
use vstd::prelude::*;

verus! {

/// True when some entry of `entries` stands under `key`.
pub open spec fn has_key(entries: Seq<(CanonicalType, Seq<u8>)>, key: CanonicalType) -> bool {
    exists|i: int| 0 <= i < entries.len() && (#[trigger] entries[i]).0 == key
}

/// True when no two entries of `entries` stand under the same key.
pub open spec fn keys_distinct(entries: Seq<(CanonicalType, Seq<u8>)>) -> bool {
    forall|i: int, j: int|
        0 <= i < j < entries.len() ==> (#[trigger] entries[i]).0 != (#[trigger] entries[j]).0
}

/// The mathematical value of a list of entries.
pub open spec fn entries_view(entries: Seq<(ContentType, Vec<u8>)>) -> Seq<
    (CanonicalType, Seq<u8>),
> {
    Seq::new(entries.len(), |i: int| (entries[i].0@, entries[i].1@))
}

/// A map from content types to payloads that remembers the order in which
/// its keys were first inserted.
pub struct ContentMap {
    entries: Vec<(ContentType, Vec<u8>)>,
}

impl View for ContentMap {
    type V = Seq<(CanonicalType, Seq<u8>)>;

    /// The entries in insertion order.
    closed spec fn view(&self) -> Seq<(CanonicalType, Seq<u8>)> {
        entries_view(self.entries@)
    }
}

impl ContentMap {
    #[verifier::type_invariant]
    spec fn well_formed(&self) -> bool {
        keys_distinct(entries_view(self.entries@))
    }

    /// An empty map.
    pub fn new() -> (r: ContentMap)
        ensures
            r@ == Seq::<(CanonicalType, Seq<u8>)>::empty(),
    {
        ContentMap { entries: Vec::new() }
    }

    /// The number of entries.
    pub fn len(&self) -> (n: usize)
        ensures
            n == self@.len(),
    {
        self.entries.len()
    }

    /// Where the entry under `key` stands, if there is one.
    fn position(&self, key: &ContentType) -> (r: Option<usize>)
        ensures
            match r {
                Some(i) => i < self@.len() && self@[i as int].0 == key@,
                None => !has_key(self@, key@),
            },
    {
        let mut i: usize = 0;
        while i < self.entries.len()
            invariant
                i <= self.entries.len(),
                forall|k: int| 0 <= k < i ==> (#[trigger] self@[k]).0 != key@,
            decreases self.entries.len() - i,
        {
            if self.entries[i].0 == *key {
                return Some(i);
            }
            i += 1;
        }
        None
    }

    /// The payload stored under `key`.
    pub fn get(&self, key: &ContentType) -> (r: Option<&Vec<u8>>)
        ensures
            match r {
                Some(data) => exists|i: int|
                    0 <= i < self@.len() && #[trigger] self@[i] == (key@, data@),
                None => !has_key(self@, key@),
            },
    {
        match self.position(key) {
            Some(i) => Some(&self.entries[i].1),
            None => None,
        }
    }

    /// Stores `data` under `key`. A key that is already present keeps its
    /// place and hands back the payload it held; a new key goes last.
    pub fn insert(&mut self, key: ContentType, data: Vec<u8>) -> (previous: Option<Vec<u8>>)
        ensures
            match previous {
                Some(replaced) => exists|i: int|
                    0 <= i < old(self)@.len() && #[trigger] old(self)@[i] == (key@, replaced@)
                        && final(self)@ == old(self)@.update(i, (key@, data@)),
                None => !has_key(old(self)@, key@) && final(self)@ == old(self)@.push(
                    (key@, data@),
                ),
            },
    {
        proof {
            use_type_invariant(&*self);
        }
        let found = self.position(&key);
        let ghost before = self@;
        let ghost entry = (key@, data@);
        let mut entries: Vec<(ContentType, Vec<u8>)> = Vec::new();
        core::mem::swap(&mut self.entries, &mut entries);
        entries.push((key, data));
        assert(entries_view(entries@) =~= before.push(entry));
        let previous = match found {
            Some(i) => {
                let replaced = entries.swap_remove(i);
                assert(entries_view(entries@) =~= before.update(i as int, entry));
                Some(replaced.1)
            },
            None => None,
        };
        self.entries = entries;
        previous
    }

    /// Gives up the map for its entries, in insertion order.
    pub fn into_entries(self) -> (r: Vec<(ContentType, Vec<u8>)>)
        ensures
            entries_view(r@) == self@,
            keys_distinct(self@),
    {
        proof {
            use_type_invariant(&self);
        }
        self.entries
    }
}

} // verus!
