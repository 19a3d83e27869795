//! What holds of every run, stated over the storage operations that a program
//! makes, in the order in which it makes them.

use crate::abi::{get_call, read_outcome, remove_call, set_call, write_outcome};
use crate::codec::{bytes_encoding, compact_encoding, le_bytes};
use crate::hashing::blake2_256;
use crate::meter::AccessKind;
use crate::runner::{fault_error, run_error, ExecutionErrors, RunEnd};
use crate::storage::{
    decoding_of, encoding_of, law_decoded_bytes_are_canonical, lemma_entries_of_map, entries_of,
    map_of, well_formed,
};
use crate::store::{Fault, StoreState};
use vstd::prelude::*;

verus! {

/// A storage operation with the key and the value that it names.
pub enum StoreCall {
    SetKey { key: Seq<u8>, value: Seq<u8> },
    GetKey { key: Seq<u8> },
    RemoveKey { key: Seq<u8> },
}

/// The fault of a result, if it is one.
pub open spec fn fault_of<T>(r: Result<T, Fault>) -> Option<Fault> {
    match r {
        Ok(_) => None,
        Err(fault) => Some(fault),
    }
}

/// The state after one operation, and the fault that it ended with, if any.
pub open spec fn after_call(state: StoreState, call: StoreCall) -> (StoreState, Option<Fault>) {
    match call {
        StoreCall::SetKey { key, value } => (
            state.after_set(key, value).0,
            fault_of(state.after_set(key, value).1),
        ),
        StoreCall::GetKey { key } => (state.after_get(key).0, fault_of(state.after_get(key).1)),
        StoreCall::RemoveKey { key } => (
            state.after_remove(key).0,
            fault_of(state.after_remove(key).1),
        ),
    }
}

/// The state after the operations of a run, made one after the other up to
/// the first that faults, and that fault, if there is one.
pub open spec fn after_calls(state: StoreState, calls: Seq<StoreCall>) -> (
    StoreState,
    Option<Fault>,
)
    decreases calls.len(),
{
    if calls.len() == 0 {
        (state, None)
    } else {
        let (next, fault) = after_call(state, calls[0]);
        if fault is Some {
            (next, fault)
        } else {
            after_calls(next, calls.skip(1))
        }
    }
}

/// Two states that differ at most in their quotas, the second having no
/// less of either than the first.
pub open spec fn no_less_quota(low: StoreState, high: StoreState) -> bool {
    &&& low.storage == high.storage
    &&& low.fault == high.fault
    &&& low.meter.reads == high.meter.reads
    &&& low.meter.writes == high.meter.writes
    &&& low.meter.max_reads <= high.meter.max_reads
    &&& low.meter.max_writes <= high.meter.max_writes
}

/// One operation that does not fault under a quota does not fault under a
/// greater one, and leaves the same storage and the same counts.
pub proof fn law_more_quota_one_call(low: StoreState, high: StoreState, call: StoreCall)
    requires
        no_less_quota(low, high),
        after_call(low, call).1 is None,
    ensures
        after_call(high, call).1 is None,
        no_less_quota(after_call(low, call).0, after_call(high, call).0),
        call matches StoreCall::GetKey { key } ==> high.after_get(key).1 == low.after_get(key).1,
{
}

/// More quota never makes a run fail: operations that all succeed with at
/// most `r` reads and `w` writes succeed with any greater quotas too, and
/// leave the same storage.
pub proof fn law_more_quota_never_fails(low: StoreState, high: StoreState, calls: Seq<StoreCall>)
    requires
        no_less_quota(low, high),
        after_calls(low, calls).1 is None,
    ensures
        after_calls(high, calls).1 is None,
        after_calls(high, calls).0.storage == after_calls(low, calls).0.storage,
        no_less_quota(after_calls(low, calls).0, after_calls(high, calls).0),
    decreases calls.len(),
{
    if calls.len() > 0 {
        law_more_quota_one_call(low, high, calls[0]);
        law_more_quota_never_fails(
            after_call(low, calls[0]).0,
            after_call(high, calls[0]).0,
            calls.skip(1),
        );
    }
}

/// The counts of a meter never pass their maxima, whatever a program calls.
pub proof fn law_counts_stay_within(state: StoreState, calls: Seq<StoreCall>)
    requires
        state.meter.within(),
    ensures
        after_calls(state, calls).0.meter.within(),
        after_calls(state, calls).0.meter.max_reads == state.meter.max_reads,
        after_calls(state, calls).0.meter.max_writes == state.meter.max_writes,
    decreases calls.len(),
{
    if calls.len() > 0 {
        let (next, fault) = after_call(state, calls[0]);
        if fault is None {
            law_counts_stay_within(next, calls.skip(1));
        }
    }
}

/// An operation that the quota refuses is not counted and changes nothing.
pub proof fn law_refused_call_changes_nothing(state: StoreState, call: StoreCall)
    requires
        after_call(state, call).1 == Some(Fault::ExceededReads) || after_call(state, call).1
            == Some(Fault::ExceededWrites),
    ensures
        after_call(state, call).0 == state,
{
}

/// A removal is counted as a write.
pub proof fn law_remove_counts_as_write(state: StoreState, key: Seq<u8>)
    ensures
        state.after_remove(key).1 is Ok <==> state.meter.allows(AccessKind::Write),
        state.after_remove(key).1 is Ok ==> state.after_remove(key).0.meter
            == state.meter.charged(AccessKind::Write),
{
}

/// To read a key that was never written is no fault: the program gets the
/// empty value, written as the single byte 0, wherever a read is within the
/// quota and the buffer has room for that byte.
pub proof fn law_absent_key_reads_empty(
    state: StoreState,
    memory: Seq<u8>,
    key_ptr: u32,
    key_len: u32,
    value_ptr: u32,
    value_max_len: u32,
)
    requires
        read_outcome(memory, key_ptr, key_len) matches Some(key) && !state.storage.contains_key(
            blake2_256(key),
        ),
        state.meter.allows(AccessKind::Read),
        value_max_len >= 1,
        value_ptr < memory.len(),
    ensures
        get_call(state, memory, key_ptr, key_len, value_ptr, value_max_len).2 is Ok,
        get_call(state, memory, key_ptr, key_len, value_ptr, value_max_len).1 == memory.update(
            value_ptr as int,
            0u8,
        ),
        get_call(state, memory, key_ptr, key_len, value_ptr, value_max_len).0.storage
            == state.storage,
{
    let empty = Seq::<u8>::empty();
    reveal_with_fuel(le_bytes, 2);
    assert(compact_encoding(0) =~= seq![0u8]);
    assert(bytes_encoding(empty) =~= seq![0u8]);
    let written = write_outcome(memory, empty, value_ptr, value_max_len);
    assert(written is Some);
    assert(written->0 =~= memory.update(value_ptr as int, 0u8));
}

/// Without write quota nothing is written: every write and every removal
/// is refused, and the storage stays as it was.
pub proof fn law_no_write_quota_no_write(state: StoreState, call: StoreCall)
    requires
        state.meter.within(),
        state.meter.max_writes == 0,
        !(call is GetKey),
    ensures
        after_call(state, call) == (state, Some(Fault::ExceededWrites)),
{
}

/// Without write quota a run leaves the storage as it found it, whatever
/// the program calls.
pub proof fn law_no_write_quota_same_storage(state: StoreState, calls: Seq<StoreCall>)
    requires
        state.meter.within(),
        state.meter.max_writes == 0,
    ensures
        after_calls(state, calls).0.storage == state.storage,
    decreases calls.len(),
{
    if calls.len() > 0 {
        let (next, fault) = after_call(state, calls[0]);
        if fault is None {
            law_no_write_quota_same_storage(next, calls.skip(1));
        }
    }
}

/// No fault is swallowed: a host operation that faults in a run without an
/// earlier fault records its fault, and the run then ends with the error of
/// that fault, however the engine says the call ended: with the quota that
/// was used up, or with a panic.
pub proof fn law_fault_decides_the_run(
    state: StoreState,
    memory: Seq<u8>,
    key_ptr: u32,
    key_len: u32,
    value_ptr: u32,
    value_len: u32,
    end: RunEnd,
)
    requires
        state.fault is None,
    ensures
        set_call(state, memory, key_ptr, key_len, value_ptr, value_len).1 matches Err(fault)
            ==> run_error(
            end,
            set_call(state, memory, key_ptr, key_len, value_ptr, value_len).0.fault,
        ) == Some(fault_error(fault)),
        get_call(state, memory, key_ptr, key_len, value_ptr, value_len).2 matches Err(fault)
            ==> run_error(
            end,
            get_call(state, memory, key_ptr, key_len, value_ptr, value_len).0.fault,
        ) == Some(fault_error(fault)),
        remove_call(state, memory, key_ptr, key_len).1 matches Err(fault) ==> run_error(
            end,
            remove_call(state, memory, key_ptr, key_len).0.fault,
        ) == Some(fault_error(fault)),
        set_call(state, memory, key_ptr, key_len, value_ptr, value_len).1 == Err::<(), Fault>(
            Fault::ExceededWrites,
        ) ==> state.meter.writes + 1 > state.meter.max_writes,
        get_call(state, memory, key_ptr, key_len, value_ptr, value_len).2 == Err::<(), Fault>(
            Fault::ExceededReads,
        ) ==> state.meter.reads + 1 > state.meter.max_reads,
{
}

/// A run that is out of reads or out of writes is one in which a host
/// operation recorded that fault.
pub proof fn law_quota_error_has_its_fault(end: RunEnd, fault: Option<Fault>)
    ensures
        run_error(end, fault) == Some(ExecutionErrors::OutOfReads) <==> fault == Some(
            Fault::ExceededReads,
        ),
        run_error(end, fault) == Some(ExecutionErrors::OutOfWrites) <==> fault == Some(
            Fault::ExceededWrites,
        ),
        run_error(end, fault) == Some(ExecutionErrors::OutOfFuel) <==> fault is None && end
            == RunEnd::OutOfFuel,
        run_error(end, fault) is None <==> fault is None && end == RunEnd::Returned,
{
}

/// What was written under a key is what is read under it.
pub proof fn law_read_after_write(state: StoreState, key: Seq<u8>, value: Seq<u8>)
    requires
        state.after_set(key, value).1 is Ok,
        state.meter.allows(AccessKind::Read),
    ensures
        state.after_set(key, value).0.after_get(key).1 == Ok::<Option<Seq<u8>>, Fault>(
            Some(value),
        ),
{
}

/// A key that was removed reads as a key that was never written.
pub proof fn law_read_after_remove(state: StoreState, key: Seq<u8>)
    requires
        state.after_remove(key).1 is Ok,
        state.meter.allows(AccessKind::Read),
    ensures
        state.after_remove(key).0.after_get(key).1 == Ok::<Option<Seq<u8>>, Fault>(None),
{
}

/// Two writes under the same key leave one entry, with the second value.
pub proof fn law_second_write_overwrites(
    state: StoreState,
    key: Seq<u8>,
    first: Seq<u8>,
    second: Seq<u8>,
)
    requires
        state.after_set(key, first).1 is Ok,
        state.after_set(key, first).0.after_set(key, second).1 is Ok,
    ensures
        state.after_set(key, first).0.after_set(key, second).0.storage == state.storage.insert(
            blake2_256(key),
            second,
        ),
{
    assert(state.storage.insert(blake2_256(key), first).insert(blake2_256(key), second)
        =~= state.storage.insert(blake2_256(key), second));
}

/// A read changes nothing but the count of reads.
pub proof fn law_read_leaves_the_storage(state: StoreState, key: Seq<u8>)
    ensures
        state.after_get(key).0.storage == state.storage,
        state.after_get(key).0.meter.writes == state.meter.writes,
        state.after_get(key).0.fault == state.fault,
{
}

/// What a run returns on `storage` when the program makes `calls` and the
/// engine says that its call ended with `end`: the serialized storage that
/// the calls leave if none of them faults and the entry point returned,
/// else the error.
pub open spec fn run_result(
    storage: Seq<u8>,
    max_reads: nat,
    max_writes: nat,
    calls: Seq<StoreCall>,
    end: RunEnd,
) -> Result<Seq<u8>, ExecutionErrors> {
    match decoding_of(storage) {
        None => Err(ExecutionErrors::ImpossibleDecodingKontractStorage),
        Some(entries) => {
            let (state, fault) = after_calls(
                StoreState::initial(map_of(entries), max_reads, max_writes),
                calls,
            );
            match run_error(end, fault) {
                Some(error) => Err(error),
                None => Ok(encoding_of(state.storage)),
            }
        },
    }
}

/// More quota never makes a run fail: a run that completes with at most
/// `r` reads and `w` writes completes with any greater quotas too, and
/// returns the same bytes.
pub proof fn law_more_quota_same_run(
    storage: Seq<u8>,
    max_reads: nat,
    max_writes: nat,
    more_reads: nat,
    more_writes: nat,
    calls: Seq<StoreCall>,
    end: RunEnd,
)
    requires
        max_reads <= more_reads,
        max_writes <= more_writes,
        run_result(storage, max_reads, max_writes, calls, end) is Ok,
    ensures
        run_result(storage, more_reads, more_writes, calls, end) == run_result(
            storage,
            max_reads,
            max_writes,
            calls,
            end,
        ),
{
    let entries = decoding_of(storage)->0;
    law_more_quota_never_fails(
        StoreState::initial(map_of(entries), max_reads, max_writes),
        StoreState::initial(map_of(entries), more_reads, more_writes),
        calls,
    );
}

/// Without write quota a run that completes returns the storage that it was
/// given, byte for byte.
pub proof fn law_no_write_quota_same_bytes(
    storage: Seq<u8>,
    max_reads: nat,
    calls: Seq<StoreCall>,
    end: RunEnd,
)
    requires
        run_result(storage, max_reads, 0, calls, end) is Ok,
    ensures
        run_result(storage, max_reads, 0, calls, end) == Ok::<Seq<u8>, ExecutionErrors>(storage),
{
    let entries = decoding_of(storage)->0;
    law_decoded_bytes_are_canonical(storage);
    law_no_write_quota_same_storage(StoreState::initial(map_of(entries), max_reads, 0), calls);
    assert(well_formed(entries));
    lemma_entries_of_map(entries_of(map_of(entries)), entries);
}

/// A run gives bytes only for a storage that it could read, and it is
/// refused for its storage exactly where the storage is not the serialized
/// form of a storage map.
pub proof fn law_storage_is_read_or_refused(
    storage: Seq<u8>,
    max_reads: nat,
    max_writes: nat,
    calls: Seq<StoreCall>,
    end: RunEnd,
)
    ensures
        run_result(storage, max_reads, max_writes, calls, end) matches Ok(bytes)
            ==> decoding_of(storage) is Some,
        run_result(storage, max_reads, max_writes, calls, end)
            == Err::<Seq<u8>, ExecutionErrors>(ExecutionErrors::ImpossibleDecodingKontractStorage)
            <==> decoding_of(storage) is None,
{
    if decoding_of(storage) is Some {
        let entries = decoding_of(storage)->0;
        let (state, fault) = after_calls(
            StoreState::initial(map_of(entries), max_reads, max_writes),
            calls,
        );
        law_quota_error_has_its_fault(end, fault);
    }
}

} // verus!
