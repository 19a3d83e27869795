//! The state of one run: the storage map, the resource meter and the fault
//! that ended the run, if one did; and the three storage operations on it.

use crate::codec::MAX_LEN;
use crate::hashing::{blake2_256, hash_key};
use crate::meter::{AccessKind, MeterCounts, ResourceMeter};
use crate::storage::{
    decoding_of, entries_of, lemma_entries_of_view, map_of, StorageDecodeError, StorageMap,
};
use vstd::prelude::*;
use vstd::slice::slice_to_vec;

verus! {

/// Why a storage operation was refused. A fault ends the run.
#[derive(Clone, Copy, Debug, PartialEq, Eq, Structural)]
pub enum Fault {
    /// One more read would go over the read quota.
    ExceededReads,
    /// One more write or removal would go over the write quota.
    ExceededWrites,
    /// The program named bytes outside its memory to read from, or has no
    /// memory.
    MemoryRead,
    /// The program gave a buffer that is too small for the value, or that
    /// lies outside its memory.
    MemoryWrite,
    /// The storage map has no room for one more entry.
    StorageFull,
}

/// What the state of a run holds.
pub struct StoreState {
    pub meter: MeterCounts,
    pub storage: Map<Seq<u8>, Seq<u8>>,
    pub fault: Option<Fault>,
}

/// The map has room for `value` under the hashed key `key`: the value is
/// of at most `MAX_LEN` bytes, and the key is there already or the map
/// holds fewer than `MAX_LEN` entries.
pub open spec fn has_room(storage: Map<Seq<u8>, Seq<u8>>, key: Seq<u8>, value: Seq<u8>) -> bool {
    &&& value.len() <= MAX_LEN
    &&& storage.contains_key(key) || entries_of(storage).len() < MAX_LEN
}

impl StoreState {
    /// The state at the start of a run on `storage`: nothing counted, no
    /// fault.
    pub open spec fn initial(storage: Map<Seq<u8>, Seq<u8>>, max_reads: nat, max_writes: nat) -> StoreState {
        StoreState { meter: MeterCounts::fresh(max_reads, max_writes), storage, fault: None }
    }

    /// The state with one more access counted.
    pub open spec fn charged(self, kind: AccessKind) -> StoreState {
        StoreState { meter: self.meter.charged(kind), ..self }
    }

    /// The state once `fault` has ended the run: the first fault stays.
    pub open spec fn raised(self, fault: Fault) -> StoreState {
        StoreState {
            fault: if self.fault is None {
                Some(fault)
            } else {
                self.fault
            },
            ..self
        }
    }

    /// A write of `value` under the hash of `key`: it is counted as a write,
    /// then stored.
    pub open spec fn after_set(self, key: Seq<u8>, value: Seq<u8>) -> (StoreState, Result<(), Fault>) {
        if !self.meter.allows(AccessKind::Write) {
            (self, Err(Fault::ExceededWrites))
        } else if !has_room(self.storage, blake2_256(key), value) {
            (self.charged(AccessKind::Write), Err(Fault::StorageFull))
        } else {
            (
                StoreState {
                    storage: self.storage.insert(blake2_256(key), value),
                    ..self.charged(AccessKind::Write)
                },
                Ok(()),
            )
        }
    }

    /// A read of the value under the hash of `key`: it is counted as a read,
    /// and gives the value, or nothing where the key was never written.
    pub open spec fn after_get(self, key: Seq<u8>) -> (StoreState, Result<Option<Seq<u8>>, Fault>) {
        if !self.meter.allows(AccessKind::Read) {
            (self, Err(Fault::ExceededReads))
        } else if self.storage.contains_key(blake2_256(key)) {
            (self.charged(AccessKind::Read), Ok(Some(self.storage[blake2_256(key)])))
        } else {
            (self.charged(AccessKind::Read), Ok(None))
        }
    }

    /// A removal of the entry under the hash of `key`: it is counted as a
    /// write, and leaves a map without that key.
    pub open spec fn after_remove(self, key: Seq<u8>) -> (StoreState, Result<(), Fault>) {
        if !self.meter.allows(AccessKind::Write) {
            (self, Err(Fault::ExceededWrites))
        } else {
            (
                StoreState {
                    storage: self.storage.remove(blake2_256(key)),
                    ..self.charged(AccessKind::Write)
                },
                Ok(()),
            )
        }
    }
}

/// The state of one run.
#[derive(Debug)]
pub struct KontractStore {
    meter: ResourceMeter,
    storage: StorageMap,
    fault: Option<Fault>,
}

impl View for KontractStore {
    type V = StoreState;

    closed spec fn view(&self) -> StoreState {
        StoreState { meter: self.meter@, storage: self.storage@, fault: self.fault }
    }
}

impl KontractStore {
    /// The entries of the storage map, in key order.
    pub closed spec fn entries(&self) -> Seq<(Seq<u8>, Seq<u8>)> {
        self.storage.entries()
    }

    /// The state at the start of a run: the storage as the caller gave it,
    /// nothing counted, no fault.
    pub fn new(storage: StorageMap, max_read: u32, max_write: u32) -> (store: KontractStore)
        ensures
            store@ == StoreState::initial(storage@, max_read as nat, max_write as nat),
            store.entries() == storage.entries(),
    {
        KontractStore { meter: ResourceMeter::new(max_read, max_write), storage, fault: None }
    }

    /// The state at the start of a run on the storage that `bytes`
    /// serialize. Bytes that are not the serialized form of a storage map
    /// are refused.
    pub fn open(bytes: &[u8], max_read: u32, max_write: u32) -> (r: Result<
        KontractStore,
        StorageDecodeError,
    >)
        ensures
            match decoding_of(bytes@) {
                Some(entries) => r matches Ok(store) && store.entries() == entries && store@
                    == StoreState::initial(map_of(entries), max_read as nat, max_write as nat),
                None => r is Err,
            },
    {
        match StorageMap::decode(bytes) {
            Ok(storage) => Ok(KontractStore::new(storage, max_read, max_write)),
            Err(error) => Err(error),
        }
    }

    /// The storage map.
    pub fn storage(&self) -> (storage: &StorageMap)
        ensures
            storage@ == self@.storage,
            storage.entries() == self.entries(),
            storage.wf(),
            self.entries() == entries_of(self@.storage),
    {
        proof {
            use_type_invariant(&self.storage);
            lemma_entries_of_view(self.storage);
        }
        &self.storage
    }

    /// The meter.
    pub fn meter(&self) -> (meter: &ResourceMeter)
        ensures
            meter@ == self@.meter,
    {
        &self.meter
    }

    /// The fault that ended the run, if one did.
    pub fn fault(&self) -> (fault: Option<Fault>)
        ensures
            fault == self@.fault,
    {
        self.fault
    }

    /// Records the fault that ends the run. A fault that was recorded before
    /// stays.
    pub fn raise(&mut self, fault: Fault)
        ensures
            final(self)@ == old(self)@.raised(fault),
            final(self).entries() == old(self).entries(),
    {
        if self.fault.is_none() {
            self.fault = Some(fault);
        }
    }
}

/// The storage operation "set": counts one write, then stores `value` under
/// the hash of `key`, in place of what was there. It fails, with nothing
/// stored, where the write quota is used up (nothing is counted then), or
/// where the map has no room for one more entry.
pub fn kontracts_set(store: &mut KontractStore, key: Vec<u8>, value: Vec<u8>) -> (r: Result<
    (),
    Fault,
>)
    ensures
        (final(store)@, r) == old(store)@.after_set(key@, value@),
{
    if store.meter.check_and_increment(AccessKind::Write).is_err() {
        return Err(Fault::ExceededWrites);
    }
    let hashed = hash_key(key.as_slice());
    proof {
        use_type_invariant(&store.storage);
        lemma_entries_of_view(store.storage);
    }
    if store.storage.insert(hashed, value) {
        Ok(())
    } else {
        Err(Fault::StorageFull)
    }
}

/// The storage operation "get": counts one read, then looks up the hash of
/// `key`. A key that was never written gives `None`, which is no fault. It
/// fails where the read quota is used up (nothing is counted then).
pub fn kontracts_get(store: &mut KontractStore, key: Vec<u8>) -> (r: Result<Option<Vec<u8>>, Fault>)
    ensures
        final(store)@ == old(store)@.after_get(key@).0,
        final(store).entries() == old(store).entries(),
        match old(store)@.after_get(key@).1 {
            Ok(Some(value)) => r matches Ok(Some(v)) && v@ == value,
            Ok(None) => r == Ok::<Option<Vec<u8>>, Fault>(None),
            Err(fault) => r == Err::<Option<Vec<u8>>, Fault>(fault),
        },
{
    if store.meter.check_and_increment(AccessKind::Read).is_err() {
        return Err(Fault::ExceededReads);
    }
    let hashed = hash_key(key.as_slice());
    match store.storage.get(hashed.as_slice()) {
        Some(value) => Ok(Some(slice_to_vec(value.as_slice()))),
        None => Ok(None),
    }
}

/// The storage operation "remove": counts one write, then takes out the
/// entry under the hash of `key`. To remove a key that is not there changes
/// nothing and is no fault. It fails where the write quota is used up
/// (nothing is counted then).
pub fn kontracts_remove(store: &mut KontractStore, key: Vec<u8>) -> (r: Result<(), Fault>)
    ensures
        (final(store)@, r) == old(store)@.after_remove(key@),
{
    if store.meter.check_and_increment(AccessKind::Write).is_err() {
        return Err(Fault::ExceededWrites);
    }
    let hashed = hash_key(key.as_slice());
    store.storage.remove(hashed.as_slice());
    Ok(())
}

} // verus!
