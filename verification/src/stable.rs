//! The stable-memory structures the registry is built on.
//!
//! Everything here is a thin, unverified shell around `ic_stable_structures`:
//! the types hide one structure of that crate each, and every function makes
//! one call into it. Their contracts are assumptions about that crate; the
//! rest of the library is proved against them.
//!
//! Two things are taken for granted throughout, as that crate does. Each
//! structure has its region to itself: nothing else writes there while the
//! structure is in use. And stable memory behaves like memory: a call traps,
//! as an allocation does, when the memory cannot grow, or when a region holds
//! bytes that none of these structures wrote.

use ic_stable_structures::memory_manager::{MemoryId, MemoryManager, VirtualMemory};
use ic_stable_structures::cell::InitError;
use ic_stable_structures::{Cell, DefaultMemoryImpl, StableBTreeMap};
use vstd::prelude::*;

verus! {

/// The largest record a [`ByteMap`] stores faithfully: the tree writes the
/// length of a value as a 32-bit number.
pub const MAX_RECORD_BYTES: usize = 0xffff_ffff;

/// The memory manager that divides the canister's stable memory into
/// independent regions. Holds a `MemoryManager<DefaultMemoryImpl>`.
#[verifier::external_body]
pub struct Regions {
    inner: MemoryManager<DefaultMemoryImpl>,
}

/// One region of stable memory, for one structure to live in. Holds a
/// `VirtualMemory<DefaultMemoryImpl>`.
#[verifier::external_body]
pub struct Region {
    inner: VirtualMemory<DefaultMemoryImpl>,
}

/// A durable map from a 64-bit key to the bytes of a record. Holds a
/// `StableBTreeMap<u64, Vec<u8>, VirtualMemory<DefaultMemoryImpl>>`.
#[verifier::external_body]
pub struct ByteMap {
    inner: StableBTreeMap<u64, Vec<u8>, VirtualMemory<DefaultMemoryImpl>>,
}

/// A durable 64-bit number. Holds a `Cell<u64, VirtualMemory<DefaultMemoryImpl>>`.
#[verifier::external_body]
pub struct IdCell {
    inner: Cell<u64, VirtualMemory<DefaultMemoryImpl>>,
}

/// Why `Cell::init` could not hand out a cell.
#[verifier::external_type_specification]
#[verifier::external_body]
pub struct ExInitError(InitError);

/// The key/value pairs that a [`ByteMap`] currently holds.
pub uninterp spec fn byte_map_entries(map: ByteMap) -> Map<u64, Seq<u8>>;

/// The number that an [`IdCell`] currently holds.
pub uninterp spec fn id_cell_value(cell: IdCell) -> u64;

impl Regions {
    /// Calls `MemoryManager::init` on `DefaultMemoryImpl::default()`: the
    /// manager found in that memory is loaded, or a new one is written. On a
    /// canister that memory is the canister's stable memory, the same at
    /// every call; elsewhere it is a new vector. Nothing is claimed of what
    /// the regions hold.
    #[verifier::external_body]
    pub(crate) fn over_default_memory() -> (regions: Regions) {
        Regions { inner: MemoryManager::init(DefaultMemoryImpl::default()) }
    }

    /// Calls `MemoryManager::get` with `MemoryId::new(id)`. The identifier
    /// 255 is reserved by the manager and makes `MemoryId::new` panic, so it
    /// is excluded. Nothing is claimed of what the region holds.
    #[verifier::external_body]
    pub(crate) fn region(&self, id: u8) -> (region: Region)
        requires
            id < 255,
    {
        Region { inner: self.inner.get(MemoryId::new(id)) }
    }
}

impl ByteMap {
    /// Calls `StableBTreeMap::init`: the map found in the region is loaded,
    /// or a new one is written there. What it holds depends on the region,
    /// so nothing is claimed of it.
    #[verifier::external_body]
    pub(crate) fn open(region: Region) -> (map: ByteMap) {
        ByteMap { inner: StableBTreeMap::init(region.inner) }
    }

    /// Calls `StableBTreeMap::get`: the value stored under `key`, if any.
    #[verifier::external_body]
    pub(crate) fn get(&self, key: u64) -> (value: Option<Vec<u8>>)
        ensures
            match value {
                Some(bytes) => byte_map_entries(*self).contains_key(key) && bytes@
                    == byte_map_entries(*self)[key],
                None => !byte_map_entries(*self).contains_key(key),
            },
    {
        self.inner.get(&key)
    }

    /// Calls `StableBTreeMap::insert`: `value` is stored under `key`, in
    /// place of what was there, and every other key keeps its value. The tree
    /// records a value's length in 32 bits, hence the bound.
    #[verifier::external_body]
    pub(crate) fn insert(&mut self, key: u64, value: Vec<u8>)
        requires
            value@.len() <= MAX_RECORD_BYTES,
        ensures
            byte_map_entries(*final(self)) == byte_map_entries(*old(self)).insert(key, value@),
    {
        self.inner.insert(key, value);
    }

    /// Calls `StableBTreeMap::iter` and collects what it yields: every pair
    /// the map holds, once, in strictly ascending order of the keys.
    #[verifier::external_body]
    pub(crate) fn scan(&self) -> (pairs: Vec<(u64, Vec<u8>)>)
        ensures
            forall|i: int|
                0 <= i < pairs@.len() ==> byte_map_entries(*self).contains_key(
                    (#[trigger] pairs@[i]).0,
                ) && byte_map_entries(*self)[pairs@[i].0] == pairs@[i].1@,
            forall|i: int, j: int|
                0 <= i < j < pairs@.len() ==> (#[trigger] pairs@[i]).0 < (#[trigger] pairs@[j]).0,
            forall|key: u64| #[trigger]
                byte_map_entries(*self).contains_key(key) ==> exists|i: int|
                    0 <= i < pairs@.len() && (#[trigger] pairs@[i]).0 == key,
    {
        self.inner.iter().collect()
    }
}

impl IdCell {
    /// Calls `Cell::init` with the default 0: the cell found in the region is
    /// loaded, or a new one holding 0 is written there. Whether that succeeds
    /// and what a loaded cell holds depend on the region, so nothing is
    /// claimed of either.
    #[verifier::external_body]
    pub(crate) fn open(region: Region) -> (cell: Result<IdCell, InitError>) {
        match Cell::init(region.inner, 0u64) {
            Ok(inner) => Ok(IdCell { inner }),
            Err(error) => Err(error),
        }
    }

    /// Calls `Cell::get`: the number the cell holds.
    #[verifier::external_body]
    pub(crate) fn get(&self) -> (value: u64)
        ensures
            value == id_cell_value(*self),
    {
        *self.inner.get()
    }

    /// Calls `Cell::set`: the cell holds `value` afterwards. `Cell::set`
    /// refuses a value only when its encoding does not fit the cell's memory
    /// and that memory cannot grow; a `u64` is eight bytes and the memory of
    /// an existing cell has at least one page, so the write always lands.
    #[verifier::external_body]
    pub(crate) fn set(&mut self, value: u64)
        ensures
            id_cell_value(*final(self)) == value,
    {
        self.inner.set(value).expect("a u64 fits the cell's first page");
    }
}

} // verus!
