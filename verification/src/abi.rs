//! The host side of the three operations that a program can call: they take
//! offsets and lengths into the program's memory, check them against its
//! size, and act on the state of the run.

use crate::codec::{bytes_encoding, lemma_compact_encoding_len, scale_encode_bytes, MAX_LEN};
use crate::store::{kontracts_get, kontracts_remove, kontracts_set, Fault, KontractStore, StoreState};
use vstd::prelude::*;
use vstd::slice::{slice_subrange, slice_to_vec};

verus! {

/// The `size` bytes of `memory` from `ptr` on, if they lie within it.
pub open spec fn read_outcome(memory: Seq<u8>, ptr: u32, size: u32) -> Option<Seq<u8>> {
    if ptr + size <= memory.len() {
        Some(memory.subrange(ptr as int, ptr + size))
    } else {
        None
    }
}

/// The memory after `value` was written at `ptr` into a buffer of `size`
/// bytes: the value stands there in its serialized form, its length in
/// compact form in front. Nothing if that form is longer than the buffer,
/// or does not lie within the memory.
pub open spec fn write_outcome(memory: Seq<u8>, value: Seq<u8>, ptr: u32, size: u32) -> Option<
    Seq<u8>,
> {
    let written = bytes_encoding(value);
    if written.len() <= size && ptr + written.len() <= memory.len() {
        Some(
            memory.subrange(0, ptr as int) + written + memory.subrange(
                ptr + written.len(),
                memory.len() as int,
            ),
        )
    } else {
        None
    }
}

/// Copies `size` bytes out of the program's memory, from `ptr` on. Bytes
/// that do not all lie within the memory are a fault.
pub fn read_vec(memory: &[u8], ptr: u32, size: u32) -> (r: Result<Vec<u8>, Fault>)
    ensures
        match read_outcome(memory@, ptr, size) {
            Some(bytes) => r matches Ok(v) && v@ == bytes,
            None => r == Err::<Vec<u8>, Fault>(Fault::MemoryRead),
        },
{
    if ptr as u64 + size as u64 > memory.len() as u64 {
        return Err(Fault::MemoryRead);
    }
    let from = ptr as usize;
    let to = from + size as usize;
    Ok(slice_to_vec(slice_subrange(memory, from, to)))
}

/// Writes `vec` into the program's memory at `ptr`, in serialized form: its
/// length in compact form, then its bytes. `size` is the length of the
/// buffer that the program gave. A buffer that is shorter than the
/// serialized form, or that does not lie within the memory, is a fault, and
/// the memory stays as it was.
pub fn write_vec(memory: &mut [u8], vec: Vec<u8>, ptr: u32, size: u32) -> (r: Result<(), Fault>)
    ensures
        match write_outcome(old(memory)@, vec@, ptr, size) {
            Some(after) => r is Ok && final(memory)@ == after,
            None => r == Err::<(), Fault>(Fault::MemoryWrite) && final(memory)@ == old(memory)@,
        },
{
    proof {
        lemma_compact_encoding_len(vec@.len());
    }
    if vec.len() > MAX_LEN {
        return Err(Fault::MemoryWrite);
    }
    let written = scale_encode_bytes(&vec);
    if written.len() as u64 > size as u64 || ptr as u64 + written.len() as u64 > memory.len() as u64 {
        return Err(Fault::MemoryWrite);
    }
    let at = ptr as usize;
    let end = memory.len();
    let ghost before = memory@;
    let mut i: usize = 0;
    while i < written.len()
        invariant
            i <= written@.len(),
            at + written@.len() <= memory@.len(),
            memory@.len() == before.len(),
            before.len() == end,
            forall|j: int| 0 <= j < at ==> memory@[j] == before[j],
            forall|j: int| at <= j < at + i ==> memory@[j] == written@[j - at],
            forall|j: int| at + i <= j < before.len() ==> memory@[j] == before[j],
        decreases written@.len() - i,
    {
        memory[at + i] = written[i];
        i = i + 1;
    }
    assert(memory@ =~= before.subrange(0, at as int) + written@ + before.subrange(
        at + written@.len(),
        before.len() as int,
    ));
    Ok(())
}

/// What "set" does, called with offsets and lengths into `memory`: the key
/// and the value are read from the memory, then the write is made. The first
/// fault ends the call and is recorded in the state.
pub open spec fn set_call(
    state: StoreState,
    memory: Seq<u8>,
    key_ptr: u32,
    key_len: u32,
    value_ptr: u32,
    value_len: u32,
) -> (StoreState, Result<(), Fault>) {
    match (read_outcome(memory, key_ptr, key_len), read_outcome(memory, value_ptr, value_len)) {
        (Some(key), Some(value)) => {
            let (after, r) = state.after_set(key, value);
            match r {
                Ok(_) => (after, r),
                Err(fault) => (after.raised(fault), r),
            }
        },
        _ => (state.raised(Fault::MemoryRead), Err(Fault::MemoryRead)),
    }
}

/// What "get" does, called with offsets and lengths into `memory`: the key
/// is read from the memory, the read is made, and the value, or the empty
/// value where the key was never written, is written into the buffer. The
/// result holds the state and the memory after the call. The first fault
/// ends the call and is recorded in the state.
pub open spec fn get_call(
    state: StoreState,
    memory: Seq<u8>,
    key_ptr: u32,
    key_len: u32,
    value_ptr: u32,
    value_max_len: u32,
) -> (StoreState, Seq<u8>, Result<(), Fault>) {
    match read_outcome(memory, key_ptr, key_len) {
        None => (state.raised(Fault::MemoryRead), memory, Err(Fault::MemoryRead)),
        Some(key) => {
            let (after, r) = state.after_get(key);
            match r {
                Err(fault) => (after.raised(fault), memory, Err(fault)),
                Ok(found) => {
                    let value = match found {
                        Some(value) => value,
                        None => Seq::empty(),
                    };
                    match write_outcome(memory, value, value_ptr, value_max_len) {
                        Some(written) => (after, written, Ok(())),
                        None => (
                            after.raised(Fault::MemoryWrite),
                            memory,
                            Err(Fault::MemoryWrite),
                        ),
                    }
                },
            }
        },
    }
}

/// What "remove" does, called with an offset and a length into `memory`: the
/// key is read from the memory, then the removal is made. The first fault
/// ends the call and is recorded in the state.
pub open spec fn remove_call(state: StoreState, memory: Seq<u8>, key_ptr: u32, key_len: u32) -> (
    StoreState,
    Result<(), Fault>,
) {
    match read_outcome(memory, key_ptr, key_len) {
        None => (state.raised(Fault::MemoryRead), Err(Fault::MemoryRead)),
        Some(key) => {
            let (after, r) = state.after_remove(key);
            match r {
                Ok(_) => (after, r),
                Err(fault) => (after.raised(fault), r),
            }
        },
    }
}

/// What "set" does for a program with this memory, or without one: a
/// program without memory cannot name a key.
pub open spec fn host_set_call(
    state: StoreState,
    memory: Option<Seq<u8>>,
    key_ptr: u32,
    key_len: u32,
    value_ptr: u32,
    value_len: u32,
) -> (StoreState, Result<(), Fault>) {
    match memory {
        Some(memory) => set_call(state, memory, key_ptr, key_len, value_ptr, value_len),
        None => (state.raised(Fault::MemoryRead), Err(Fault::MemoryRead)),
    }
}

/// What "get" does for a program with this memory, or without one.
pub open spec fn host_get_call(
    state: StoreState,
    memory: Option<Seq<u8>>,
    key_ptr: u32,
    key_len: u32,
    value_ptr: u32,
    value_max_len: u32,
) -> (StoreState, Option<Seq<u8>>, Result<(), Fault>) {
    match memory {
        Some(memory) => {
            let (after, written, r) = get_call(
                state,
                memory,
                key_ptr,
                key_len,
                value_ptr,
                value_max_len,
            );
            (after, Some(written), r)
        },
        None => (state.raised(Fault::MemoryRead), None, Err(Fault::MemoryRead)),
    }
}

/// What "remove" does for a program with this memory, or without one.
pub open spec fn host_remove_call(
    state: StoreState,
    memory: Option<Seq<u8>>,
    key_ptr: u32,
    key_len: u32,
) -> (StoreState, Result<(), Fault>) {
    match memory {
        Some(memory) => remove_call(state, memory, key_ptr, key_len),
        None => (state.raised(Fault::MemoryRead), Err(Fault::MemoryRead)),
    }
}

/// The operation "set" as a program calls it.
pub fn storage_set(
    store: &mut KontractStore,
    memory: &[u8],
    key_ptr: u32,
    key_len: u32,
    value_ptr: u32,
    value_len: u32,
) -> (r: Result<(), Fault>)
    ensures
        (final(store)@, r) == set_call(old(store)@, memory@, key_ptr, key_len, value_ptr, value_len),
{
    let key = match read_vec(memory, key_ptr, key_len) {
        Ok(key) => key,
        Err(fault) => {
            store.raise(fault);
            return Err(fault);
        },
    };
    let value = match read_vec(memory, value_ptr, value_len) {
        Ok(value) => value,
        Err(fault) => {
            store.raise(fault);
            return Err(fault);
        },
    };
    match kontracts_set(store, key, value) {
        Ok(()) => Ok(()),
        Err(fault) => {
            store.raise(fault);
            Err(fault)
        },
    }
}

/// The operation "get" as a program calls it. A key that was never written
/// gives the empty value, which is written as the single byte 0: it is no
/// fault.
pub fn storage_get(
    store: &mut KontractStore,
    memory: &mut [u8],
    key_ptr: u32,
    key_len: u32,
    value_ptr: u32,
    value_max_len: u32,
) -> (r: Result<(), Fault>)
    ensures
        (final(store)@, final(memory)@, r) == get_call(
            old(store)@,
            old(memory)@,
            key_ptr,
            key_len,
            value_ptr,
            value_max_len,
        ),
        final(store).entries() == old(store).entries(),
{
    let key = match read_vec(memory, key_ptr, key_len) {
        Ok(key) => key,
        Err(fault) => {
            store.raise(fault);
            return Err(fault);
        },
    };
    let value = match kontracts_get(store, key) {
        Ok(Some(value)) => value,
        Ok(None) => Vec::new(),
        Err(fault) => {
            store.raise(fault);
            return Err(fault);
        },
    };
    match write_vec(memory, value, value_ptr, value_max_len) {
        Ok(()) => Ok(()),
        Err(fault) => {
            store.raise(fault);
            Err(fault)
        },
    }
}

/// The operation "remove" as a program calls it.
pub fn storage_remove(store: &mut KontractStore, memory: &[u8], key_ptr: u32, key_len: u32) -> (r:
    Result<(), Fault>)
    ensures
        (final(store)@, r) == remove_call(old(store)@, memory@, key_ptr, key_len),
{
    let key = match read_vec(memory, key_ptr, key_len) {
        Ok(key) => key,
        Err(fault) => {
            store.raise(fault);
            return Err(fault);
        },
    };
    match kontracts_remove(store, key) {
        Ok(()) => Ok(()),
        Err(fault) => {
            store.raise(fault);
            Err(fault)
        },
    }
}

} // verus!
