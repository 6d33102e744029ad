//! A durable table of records of one kind, each stored under its own key.

use crate::model::views;
use crate::record::{storable, Record};
use crate::stable::{byte_map_entries, ByteMap, MAX_RECORD_BYTES};
use std::marker::PhantomData;
use vstd::prelude::*;

verus! {

/// The records that the bytes in `raw` stand for.
pub open spec fn decoded<E: Record>(raw: Map<u64, Seq<u8>>) -> Map<u64, E::V> {
    Map::new(|key: u64| raw.contains_key(key), |key: u64| E::decoding(raw[key]).unwrap())
}

/// Whether every value in `raw` stands for a sound record that belongs under
/// its key.
pub open spec fn well_kept<E: Record>(raw: Map<u64, Seq<u8>>) -> bool {
    forall|key: u64| #[trigger]
        raw.contains_key(key) ==> {
            &&& E::decoding(raw[key]) is Some
            &&& E::key(E::decoding(raw[key]).unwrap()) == key
            &&& E::sound(E::decoding(raw[key]).unwrap())
        }
}

/// Whether a byte map can serve as a table of `E`: every value in it stands
/// for a sound record that belongs under its key, and no key exceeds `limit`.
pub open spec fn adoptable<E: Record>(map: ByteMap, limit: u64) -> bool {
    well_kept::<E>(byte_map_entries(map)) && forall|key: u64| #[trigger]
        byte_map_entries(map).contains_key(key) ==> key <= limit
}

/// Whether `items` is what a scan of `entries` yields: every entry once, in
/// ascending order of the keys.
pub open spec fn lists<E: Record>(items: Seq<E::V>, entries: Map<u64, E::V>) -> bool {
    &&& forall|i: int|
        0 <= i < items.len() ==> entries.contains_key(E::key(#[trigger] items[i]))
            && entries[E::key(items[i])] == items[i]
    &&& forall|i: int, j: int|
        0 <= i < j < items.len() ==> E::key(#[trigger] items[i]) < E::key(#[trigger] items[j])
    &&& forall|key: u64| #[trigger]
        entries.contains_key(key) ==> exists|i: int|
            0 <= i < items.len() && E::key(#[trigger] items[i]) == key
}

/// A durable table of the records of kind `E`.
pub struct Table<E: Record> {
    map: ByteMap,
    kind: PhantomData<E>,
}

impl<E: Record> Table<E> {
    /// The bytes the table holds, by key.
    pub closed spec fn raw(&self) -> Map<u64, Seq<u8>> {
        byte_map_entries(self.map)
    }

    /// The records the table holds, by key.
    pub open spec fn entries(&self) -> Map<u64, E::V> {
        decoded::<E>(self.raw())
    }

    /// Every stored value stands for a sound record that belongs under its
    /// key.
    pub open spec fn wf(&self) -> bool {
        well_kept::<E>(self.raw())
    }

    /// Takes over a byte map as a table, after checking every value in it:
    /// each must stand for a sound record that belongs under its key, and no
    /// key may exceed `limit`.
    pub fn adopt(map: ByteMap, limit: u64) -> (table: Option<Table<E>>)
        ensures
            table is Some <==> adoptable::<E>(map, limit),
            table matches Some(t) ==> t.raw() == byte_map_entries(map),
    {
        let pairs = map.scan();
        let ghost raw = byte_map_entries(map);
        let mut i: usize = 0;
        while i < pairs.len()
            invariant
                i <= pairs@.len(),
                raw == byte_map_entries(map),
                forall|j: int|
                    0 <= j < pairs@.len() ==> raw.contains_key((#[trigger] pairs@[j]).0)
                        && raw[pairs@[j].0] == pairs@[j].1@,
                forall|j: int|
                    0 <= j < i ==> {
                        let key = (#[trigger] pairs@[j]).0;
                        &&& key <= limit
                        &&& E::decoding(raw[key]) is Some
                        &&& E::key(E::decoding(raw[key]).unwrap()) == key
                        &&& E::sound(E::decoding(raw[key]).unwrap())
                    },
            decreases pairs@.len() - i,
        {
            let key = pairs[i].0;
            let fine = match E::decode(pairs[i].1.as_slice()) {
                Some(record) => key <= limit && record.key_of() == key && record.is_sound(),
                None => false,
            };
            if !fine {
                assert(raw.contains_key(pairs@[i as int].0));
                return None;
            }
            i += 1;
        }
        proof {
            assert forall|key: u64| #[trigger] raw.contains_key(key) implies {
                &&& key <= limit
                &&& E::decoding(raw[key]) is Some
                &&& E::key(E::decoding(raw[key]).unwrap()) == key
                &&& E::sound(E::decoding(raw[key]).unwrap())
            } by {
                let j = choose|j: int| 0 <= j < pairs@.len() && (#[trigger] pairs@[j]).0 == key;
                assert(pairs@[j].0 == key);
            }
        }
        Some(Table { map, kind: PhantomData })
    }

    /// The record stored under `key`, if there is one.
    pub fn get(&self, key: u64) -> (record: Option<E>)
        requires
            self.wf(),
        ensures
            match record {
                Some(record) => self.entries().contains_key(key) && record@ == self.entries()[key],
                None => !self.entries().contains_key(key),
            },
    {
        match self.map.get(key) {
            Some(bytes) => E::decode(bytes.as_slice()),
            None => None,
        }
    }

    /// Whether `record` is small enough to store.
    pub fn fits(record: &E) -> (fits: bool)
        ensures
            fits == storable::<E>(record@),
    {
        record.encode().len() <= MAX_RECORD_BYTES
    }

    /// Stores `record` under its key, in place of what was there.
    pub fn insert(&mut self, record: &E)
        requires
            old(self).wf(),
            E::sound(record@),
            storable::<E>(record@),
        ensures
            final(self).wf(),
            final(self).entries() == old(self).entries().insert(E::key(record@), record@),
    {
        let key = record.key_of();
        let bytes = record.encode();
        proof {
            E::lemma_decoding_of_encoding(record@);
        }
        self.map.insert(key, bytes);
        assert(self.entries() =~= old(self).entries().insert(E::key(record@), record@));
    }

    /// Every record of the table, in ascending order of the keys.
    pub fn scan(&self) -> (records: Vec<E>)
        requires
            self.wf(),
        ensures
            lists::<E>(views(records@), self.entries()),
    {
        let pairs = self.map.scan();
        let ghost raw = self.raw();
        let mut records: Vec<E> = Vec::new();
        let mut i: usize = 0;
        while i < pairs.len()
            invariant
                i <= pairs@.len(),
                raw == self.raw(),
                self.wf(),
                forall|j: int|
                    0 <= j < pairs@.len() ==> raw.contains_key((#[trigger] pairs@[j]).0)
                        && raw[pairs@[j].0] == pairs@[j].1@,
                records@.len() == i,
                forall|j: int|
                    0 <= j < i ==> (#[trigger] records@[j])@ == E::decoding(
                        raw[pairs@[j].0],
                    ).unwrap(),
            decreases pairs@.len() - i,
        {
            assert(raw.contains_key(pairs@[i as int].0));
            match E::decode(pairs[i].1.as_slice()) {
                Some(record) => {
                    records.push(record);
                },
                None => {
                    // A well-formed table holds nothing that fails to decode.
                    assert(false);
                },
            }
            i += 1;
        }
        proof {
            let items = views(records@);
            let entries = self.entries();
            assert forall|j: int| 0 <= j < items.len() implies E::key(#[trigger] items[j])
                == pairs@[j].0 && entries.contains_key(pairs@[j].0) && entries[pairs@[j].0]
                == items[j] by {
                assert(raw.contains_key(pairs@[j].0));
                assert(items[j] == records@[j]@);
            }
            assert forall|key: u64| #[trigger] entries.contains_key(key) implies exists|j: int|
                0 <= j < items.len() && E::key(#[trigger] items[j]) == key by {
                assert(raw.contains_key(key));
                let j = choose|j: int| 0 <= j < pairs@.len() && (#[trigger] pairs@[j]).0 == key;
                assert(E::key(items[j]) == key);
            }
        }
        records
    }
}

} // verus!
