//! The durable layer: ordered maps and a counter cell in stable memory.
//!
//! The structures themselves come from `ic_stable_structures`. Verus cannot
//! look inside them, so each is held in a struct that is opaque to the
//! verifier, what it stores is given a name, and every call into it goes
//! through a method whose contract is taken on trust from that crate's
//! source. Nothing else in the library is trusted about storage.
//!
//! Two structures on one region of memory would write over each other. The
//! calls that open a structure are private to this module, and the rest of
//! the library reaches them through a `MemoryPool`, which keeps account of
//! the regions that it has handed out and hands out none twice.
//!
//! Every structure grows its memory on demand; a call aborts where the host
//! refuses to grow it, as an allocation by `Vec` would. Opening a structure
//! aborts where its region holds one that another program wrote in another
//! layout, which memory that only this library has written never does.

use ic_stable_structures::cell::{InitError, ValueError};
use ic_stable_structures::memory_manager::{MemoryId, MemoryManager, VirtualMemory};
use ic_stable_structures::storable::Blob;
use ic_stable_structures::{Cell, DefaultMemoryImpl, StableBTreeMap};
use vstd::prelude::*;

verus! {

/// The longest value, in bytes, that a slot of a durable map takes.
pub const SLOT_BYTES: usize = 1024;

/// `ic_stable_structures::cell::InitError`: why a cell could not be opened.
#[verifier::external_type_specification]
#[verifier::external_body]
pub struct ExInitError(InitError);

/// `ic_stable_structures::cell::ValueError`: why a cell refused a value.
#[verifier::external_type_specification]
#[verifier::external_body]
pub struct ExValueError(ValueError);

/// Stable memory, divided into numbered regions by
/// `ic_stable_structures::memory_manager::MemoryManager`.
#[verifier::external_body]
pub struct Regions {
    inner: MemoryManager<DefaultMemoryImpl>,
}

/// A pool of stable memory that hands out each of its regions once.
pub struct MemoryPool {
    regions: Regions,
    opened: Ghost<Set<u8>>,
}

/// An ordered map from identifier to bytes in one region of a pool:
/// `ic_stable_structures::StableBTreeMap` with values of at most
/// `SLOT_BYTES` bytes.
#[verifier::external_body]
pub struct DurableMap {
    inner: StableBTreeMap<u64, Blob<SLOT_BYTES>, VirtualMemory<DefaultMemoryImpl>>,
}

/// A 64-bit value in one region of a pool: `ic_stable_structures::Cell`.
#[verifier::external_body]
pub struct IdCell {
    inner: Cell<u64, VirtualMemory<DefaultMemoryImpl>>,
}

/// The entries that a durable map holds.
pub uninterp spec fn durable_map_entries(map: DurableMap) -> Map<u64, Seq<u8>>;

/// The value that a cell holds.
pub uninterp spec fn id_cell_value(cell: IdCell) -> u64;

impl Regions {
    /// `MemoryManager::init` on the default memory of the platform. Nothing
    /// is claimed of what the memory holds. Where the platform has one
    /// default memory, as a canister has, every call gives that memory, and
    /// only one is to be made.
    #[verifier::external_body]
    fn open() -> (regions: Regions) {
        Regions { inner: MemoryManager::init(DefaultMemoryImpl::default()) }
    }
}

impl MemoryPool {
    /// The regions that the pool has handed out.
    pub closed spec fn opened(&self) -> Set<u8> {
        self.opened@
    }

    /// Whether the pool can hand out the region `region`: it has a number
    /// that a region can have, and it was not handed out before.
    pub open spec fn offers(&self, region: u8) -> bool {
        region != 255 && !self.opened().contains(region)
    }

    /// A pool on the default memory of the platform, with every region
    /// still to hand out. Where the platform has one default memory, as a
    /// canister has, every pool is that memory, and only one is to be
    /// opened.
    pub(crate) fn open() -> (pool: MemoryPool)
        ensures
            pool.opened() == Set::<u8>::empty(),
    {
        MemoryPool { regions: Regions::open(), opened: Ghost(Set::empty()) }
    }

    /// The map that the region `region` holds, or an empty one where it
    /// holds none.
    pub(crate) fn open_map(&mut self, region: u8) -> (map: DurableMap)
        requires
            old(self).offers(region),
        ensures
            final(self).opened() == old(self).opened().insert(region),
    {
        self.opened = Ghost(self.opened@.insert(region));
        DurableMap::open(&self.regions, region)
    }

    /// An empty map in the region `region`, over whatever it held.
    pub(crate) fn create_map(&mut self, region: u8) -> (map: DurableMap)
        requires
            old(self).offers(region),
        ensures
            final(self).opened() == old(self).opened().insert(region),
            map@ == Map::<u64, Seq<u8>>::empty(),
    {
        self.opened = Ghost(self.opened@.insert(region));
        let map = DurableMap::create(&self.regions, region);
        assert(map@ =~= Map::<u64, Seq<u8>>::empty());
        map
    }

    /// The cell that the region `region` holds, or one with the value
    /// `default_value` where it holds none.
    pub(crate) fn open_cell(&mut self, region: u8, default_value: u64) -> (r: Result<
        IdCell,
        InitError,
    >)
        requires
            old(self).offers(region),
        ensures
            final(self).opened() == old(self).opened().insert(region),
    {
        self.opened = Ghost(self.opened@.insert(region));
        IdCell::open(&self.regions, region, default_value)
    }

    /// A cell with the value `value` in the region `region`, over whatever
    /// it held.
    pub(crate) fn create_cell(&mut self, region: u8, value: u64) -> (r: Result<
        IdCell,
        ValueError,
    >)
        requires
            old(self).offers(region),
        ensures
            final(self).opened() == old(self).opened().insert(region),
            r is Ok ==> r->Ok_0@ == value,
    {
        self.opened = Ghost(self.opened@.insert(region));
        IdCell::create(&self.regions, region, value)
    }
}

impl View for DurableMap {
    type V = Map<u64, Seq<u8>>;

    open spec fn view(&self) -> Map<u64, Seq<u8>> {
        durable_map_entries(*self)
    }
}

impl DurableMap {
    /// `StableBTreeMap::init` on region `region` of the memory, which loads
    /// the map that the region holds or starts an empty one. Nothing is
    /// claimed of the entries. `MemoryId::new` refuses the number 255. A
    /// region is to be opened once, which `MemoryPool` sees to.
    #[verifier::external_body]
    fn open(regions: &Regions, region: u8) -> (map: DurableMap)
        requires
            region != 255,
    {
        DurableMap { inner: StableBTreeMap::init(regions.inner.get(MemoryId::new(region))) }
    }

    /// `StableBTreeMap::new` on region `region` of the memory, which starts an
    /// empty map whatever the region held.
    #[verifier::external_body]
    fn create(regions: &Regions, region: u8) -> (r: DurableMap)
        requires
            region != 255,
        ensures
            forall|key: u64| !durable_map_entries(r).contains_key(key),
    {
        DurableMap { inner: StableBTreeMap::new(regions.inner.get(MemoryId::new(region))) }
    }

    /// `StableBTreeMap::get`: the value stored under `key`, if there is one.
    /// The map hands a value out as a `Blob`, which is no longer than a
    /// slot.
    #[verifier::external_body]
    pub(crate) fn get(&self, key: u64) -> (r: Option<Vec<u8>>)
        ensures
            r is Some <==> durable_map_entries(*self).contains_key(key),
            r is Some ==> r->Some_0@ == durable_map_entries(*self)[key],
            r is Some ==> r->Some_0@.len() <= SLOT_BYTES,
    {
        match self.inner.get(&key) {
            Some(blob) => Some(blob.as_slice().to_vec()),
            None => None,
        }
    }

    /// `StableBTreeMap::insert`: stores `value` under `key`, in place of
    /// what was stored there. A value longer than a slot cannot be made
    /// into a `Blob`, so it is left out.
    #[verifier::external_body]
    pub(crate) fn insert(&mut self, key: u64, value: &Vec<u8>)
        requires
            value@.len() <= SLOT_BYTES,
        ensures
            durable_map_entries(*final(self)) == durable_map_entries(*old(self)).insert(
                key,
                value@,
            ),
    {
        let blob = Blob::<SLOT_BYTES>::try_from(value.as_slice()).unwrap();
        self.inner.insert(key, blob);
    }

    /// `StableBTreeMap::remove`: takes the entry under `key` out and returns
    /// its value, if there was one, as a `Blob`, which is no longer than a
    /// slot.
    #[verifier::external_body]
    pub(crate) fn remove(&mut self, key: u64) -> (r: Option<Vec<u8>>)
        ensures
            durable_map_entries(*final(self)) == durable_map_entries(*old(self)).remove(key),
            r is Some <==> durable_map_entries(*old(self)).contains_key(key),
            r is Some ==> r->Some_0@ == durable_map_entries(*old(self))[key],
            r is Some ==> r->Some_0@.len() <= SLOT_BYTES,
    {
        match self.inner.remove(&key) {
            Some(previous) => Some(previous.as_slice().to_vec()),
            None => None,
        }
    }
}

impl View for IdCell {
    type V = u64;

    open spec fn view(&self) -> u64 {
        id_cell_value(*self)
    }
}

impl IdCell {
    /// `Cell::init` on region `region` of the memory, which loads the value
    /// that the region holds or, where it holds no cell, stores
    /// `default_value`. Nothing is claimed of the value.
    #[verifier::external_body]
    fn open(regions: &Regions, region: u8, default_value: u64) -> (r: Result<
        IdCell,
        InitError,
    >)
        requires
            region != 255,
    {
        match Cell::init(regions.inner.get(MemoryId::new(region)), default_value) {
            Ok(inner) => Ok(IdCell { inner }),
            Err(e) => Err(e),
        }
    }

    /// `Cell::new` on region `region` of the memory, which stores `value`
    /// over whatever the region held, unless the memory refuses the write.
    #[verifier::external_body]
    fn create(regions: &Regions, region: u8, value: u64) -> (r: Result<
        IdCell,
        ValueError,
    >)
        requires
            region != 255,
        ensures
            r is Ok ==> id_cell_value(r->Ok_0) == value,
    {
        match Cell::new(regions.inner.get(MemoryId::new(region)), value) {
            Ok(inner) => Ok(IdCell { inner }),
            Err(e) => Err(e),
        }
    }

    /// `Cell::get`: the value in the cell.
    #[verifier::external_body]
    pub(crate) fn get(&self) -> (r: u64)
        ensures
            r == id_cell_value(*self),
    {
        *self.inner.get()
    }

    /// `Cell::set`: replaces the value and returns the one before. The write
    /// is always taken: `Cell::set` fails only where the memory must grow
    /// for the value, and a cell that exists has a page, of which eight
    /// bytes use the smallest part.
    #[verifier::external_body]
    pub(crate) fn set(&mut self, value: u64) -> (r: Result<u64, ValueError>)
        ensures
            r is Ok,
            r->Ok_0 == id_cell_value(*old(self)),
            id_cell_value(*final(self)) == value,
    {
        self.inner.set(value)
    }
}

} // verus!
