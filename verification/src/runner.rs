//! The sandbox runner: one run of a program, from its code and the serialized
//! storage to the new serialized storage or the error that ended the run.

use crate::abi::{
    host_get_call, host_remove_call, host_set_call, storage_get, storage_remove, storage_set,
};
use crate::engine::{
    call_entry, caller_memory, caller_state, compile, entry_point, guest_memory, guest_parts,
    guest_state, instantiate, link_host, new_engine, new_linker, new_store, set_fuel,
    store_state, trap_error,
};
use crate::storage::is_storage_encoding;
use crate::store::{Fault, KontractStore};
use vstd::prelude::*;
use wasmtime::{Caller, Error};

verus! {

/// How a run can fail.
#[derive(Clone, Copy, Debug, PartialEq, Eq, Structural)]
pub enum ExecutionErrors {
    /// The code is no well-formed module.
    IncorrectBinary,
    /// The store or the instance of the module could not be made.
    ImpossibleCreateInstance,
    /// The module exports no function "main" without parameters and results.
    MainEntryPointNotDefined,
    /// The program aborted, or a host operation found a bad pointer, a bad
    /// length or a buffer that is too small.
    WasmPanic,
    /// The engine did not take the fuel.
    ImpossibleAddFuel,
    /// The engine could not be made.
    ImpossibleCreateEngine,
    /// The host operations could not be linked.
    ImpossibleCreateHostFunction,
    /// The storage handed in is not the serialized form of a storage map.
    ImpossibleDecodingKontractStorage,
    /// Kept for the ledger, which reports with it a storage that it cannot
    /// read back. No run ends with it.
    UnexpectedBehaviour,
    /// The fuel was used up.
    OutOfFuel,
    /// The read quota was used up.
    OutOfReads,
    /// The write quota was used up.
    OutOfWrites,
}

/// The steps of a run before the program is called.
#[derive(Clone, Copy, Debug, PartialEq, Eq, Structural)]
pub enum Stage {
    /// Making the engine.
    Starting,
    /// Validating and compiling the code.
    Compiling,
    /// Reading the storage handed in.
    Decoding,
    /// Making the store and the instance.
    Instantiating,
    /// Handing the fuel to the engine.
    Fueling,
    /// Attaching the host operations.
    Linking,
    /// Looking up the entry point.
    Locating,
}

/// How the call of the entry point ended, as the engine tells it.
#[derive(Clone, Copy, Debug, PartialEq, Eq, Structural)]
pub enum RunEnd {
    /// The entry point returned.
    Returned,
    /// The engine stopped the program when the fuel was used up.
    OutOfFuel,
    /// The program aborted, or a host operation ended the run.
    Aborted,
}

/// The error of a run that fails at `stage`.
pub open spec fn stage_error(stage: Stage) -> ExecutionErrors {
    match stage {
        Stage::Starting => ExecutionErrors::ImpossibleCreateEngine,
        Stage::Compiling => ExecutionErrors::IncorrectBinary,
        Stage::Decoding => ExecutionErrors::ImpossibleDecodingKontractStorage,
        Stage::Instantiating => ExecutionErrors::ImpossibleCreateInstance,
        Stage::Fueling => ExecutionErrors::ImpossibleAddFuel,
        Stage::Linking => ExecutionErrors::ImpossibleCreateHostFunction,
        Stage::Locating => ExecutionErrors::MainEntryPointNotDefined,
    }
}

/// The error of a run that a host operation ended with `fault`: a quota
/// that was used up is named, every other fault is a panic of the program.
pub open spec fn fault_error(fault: Fault) -> ExecutionErrors {
    match fault {
        Fault::ExceededReads => ExecutionErrors::OutOfReads,
        Fault::ExceededWrites => ExecutionErrors::OutOfWrites,
        _ => ExecutionErrors::WasmPanic,
    }
}

/// The outcome of a run whose call ended with `end`, with `fault` recorded
/// by the host operations: `None` for a run that completed. A recorded
/// fault decides; without one, the engine's answer does.
pub open spec fn run_error(end: RunEnd, fault: Option<Fault>) -> Option<ExecutionErrors> {
    match fault {
        Some(fault) => Some(fault_error(fault)),
        None => match end {
            RunEnd::Returned => None,
            RunEnd::OutOfFuel => Some(ExecutionErrors::OutOfFuel),
            RunEnd::Aborted => Some(ExecutionErrors::WasmPanic),
        },
    }
}

/// The error of a run that fails at `stage`.
pub fn setup_error(stage: Stage) -> (e: ExecutionErrors)
    ensures
        e == stage_error(stage),
{
    match stage {
        Stage::Starting => ExecutionErrors::ImpossibleCreateEngine,
        Stage::Compiling => ExecutionErrors::IncorrectBinary,
        Stage::Decoding => ExecutionErrors::ImpossibleDecodingKontractStorage,
        Stage::Instantiating => ExecutionErrors::ImpossibleCreateInstance,
        Stage::Fueling => ExecutionErrors::ImpossibleAddFuel,
        Stage::Linking => ExecutionErrors::ImpossibleCreateHostFunction,
        Stage::Locating => ExecutionErrors::MainEntryPointNotDefined,
    }
}

/// The error of a run that a host operation ended with `fault`.
pub fn classify_fault(fault: Fault) -> (e: ExecutionErrors)
    ensures
        e == fault_error(fault),
{
    match fault {
        Fault::ExceededReads => ExecutionErrors::OutOfReads,
        Fault::ExceededWrites => ExecutionErrors::OutOfWrites,
        Fault::MemoryRead => ExecutionErrors::WasmPanic,
        Fault::MemoryWrite => ExecutionErrors::WasmPanic,
        Fault::StorageFull => ExecutionErrors::WasmPanic,
    }
}

/// What a run returns once the call of the entry point has ended with `end`
/// and left `store`: the serialized storage if the run completed, else the
/// error. A run that did not complete gives no storage.
pub fn conclude(end: RunEnd, store: &KontractStore) -> (r: Result<Vec<u8>, ExecutionErrors>)
    ensures
        match run_error(end, store@.fault) {
            None => r matches Ok(bytes) && bytes@ == crate::storage::encoding_of(store@.storage),
            Some(e) => r == Err::<Vec<u8>, ExecutionErrors>(e),
        },
        r matches Ok(bytes) ==> is_storage_encoding(bytes@),
{
    match store.fault() {
        Some(fault) => Err(classify_fault(fault)),
        None => match end {
            RunEnd::Returned => Ok(store.storage().encode()),
            RunEnd::OutOfFuel => Err(ExecutionErrors::OutOfFuel),
            RunEnd::Aborted => Err(ExecutionErrors::WasmPanic),
        },
    }
}

/// The message of the error that ends a run after `fault`.
pub open spec fn fault_message_of(fault: Fault) -> Seq<char> {
    match fault {
        Fault::ExceededReads => "ExceededReads"@,
        Fault::ExceededWrites => "ExceededWrites"@,
        Fault::MemoryRead => "Impossible reading wasm memory"@,
        Fault::MemoryWrite => "Impossible write data in wasm memory"@,
        Fault::StorageFull => "Impossible write data in storage"@,
    }
}

/// The message of the error that ends a run after `fault`.
pub fn fault_message(fault: Fault) -> (message: &'static str)
    ensures
        message@ == fault_message_of(fault),
{
    match fault {
        Fault::ExceededReads => "ExceededReads",
        Fault::ExceededWrites => "ExceededWrites",
        Fault::MemoryRead => "Impossible reading wasm memory",
        Fault::MemoryWrite => "Impossible write data in wasm memory",
        Fault::StorageFull => "Impossible write data in storage",
    }
}

/// "set" as the engine calls it: finds the program's memory and the state of
/// the run behind the caller, and makes the operation on them. A fault is
/// recorded in the state, and the error that is returned ends the run.
pub(crate) fn host_set(
    caller: &mut Caller<'_, KontractStore>,
    key_ptr: u32,
    key_len: u32,
    value_ptr: u32,
    value_len: u32,
) -> (r: Result<(), Error>)
    ensures
        caller_state(*final(caller)) == host_set_call(
            caller_state(*old(caller)),
            caller_memory(*old(caller)),
            key_ptr,
            key_len,
            value_ptr,
            value_len,
        ).0,
        r is Ok <==> host_set_call(
            caller_state(*old(caller)),
            caller_memory(*old(caller)),
            key_ptr,
            key_len,
            value_ptr,
            value_len,
        ).1 is Ok,
        caller_memory(*final(caller)) == caller_memory(*old(caller)),
{
    let memory = match guest_memory(caller) {
        Some(memory) => memory,
        None => {
            guest_state(caller).raise(Fault::MemoryRead);
            return Err(trap_error(fault_message(Fault::MemoryRead)));
        },
    };
    let (bytes, state) = guest_parts(caller, &memory);
    match storage_set(state, bytes, key_ptr, key_len, value_ptr, value_len) {
        Ok(()) => Ok(()),
        Err(fault) => Err(trap_error(fault_message(fault))),
    }
}

/// "get" as the engine calls it.
pub(crate) fn host_get(
    caller: &mut Caller<'_, KontractStore>,
    key_ptr: u32,
    key_len: u32,
    value_ptr: u32,
    value_max_len: u32,
) -> (r: Result<(), Error>)
    ensures
        caller_state(*final(caller)) == host_get_call(
            caller_state(*old(caller)),
            caller_memory(*old(caller)),
            key_ptr,
            key_len,
            value_ptr,
            value_max_len,
        ).0,
        caller_memory(*final(caller)) == host_get_call(
            caller_state(*old(caller)),
            caller_memory(*old(caller)),
            key_ptr,
            key_len,
            value_ptr,
            value_max_len,
        ).1,
        r is Ok <==> host_get_call(
            caller_state(*old(caller)),
            caller_memory(*old(caller)),
            key_ptr,
            key_len,
            value_ptr,
            value_max_len,
        ).2 is Ok,
{
    let memory = match guest_memory(caller) {
        Some(memory) => memory,
        None => {
            guest_state(caller).raise(Fault::MemoryRead);
            return Err(trap_error(fault_message(Fault::MemoryRead)));
        },
    };
    let (bytes, state) = guest_parts(caller, &memory);
    match storage_get(state, bytes, key_ptr, key_len, value_ptr, value_max_len) {
        Ok(()) => Ok(()),
        Err(fault) => Err(trap_error(fault_message(fault))),
    }
}

/// "remove" as the engine calls it.
pub(crate) fn host_remove(caller: &mut Caller<'_, KontractStore>, key_ptr: u32, key_len: u32) -> (r:
    Result<(), Error>)
    ensures
        caller_state(*final(caller)) == host_remove_call(
            caller_state(*old(caller)),
            caller_memory(*old(caller)),
            key_ptr,
            key_len,
        ).0,
        r is Ok <==> host_remove_call(
            caller_state(*old(caller)),
            caller_memory(*old(caller)),
            key_ptr,
            key_len,
        ).1 is Ok,
        caller_memory(*final(caller)) == caller_memory(*old(caller)),
{
    let memory = match guest_memory(caller) {
        Some(memory) => memory,
        None => {
            guest_state(caller).raise(Fault::MemoryRead);
            return Err(trap_error(fault_message(Fault::MemoryRead)));
        },
    };
    let (bytes, state) = guest_parts(caller, &memory);
    match storage_remove(state, bytes, key_ptr, key_len) {
        Ok(()) => Ok(()),
        Err(fault) => Err(trap_error(fault_message(fault))),
    }
}

/// The sandbox runner. Each call of `execute_code` is a run of its own, on
/// an engine, a store and a meter that no other run sees.
#[derive(Debug)]
pub struct KontractsExecutor {}

impl KontractsExecutor {
    /// A runner.
    pub fn new() -> (runner: KontractsExecutor) {
        KontractsExecutor {  }
    }

    /// Runs the entry point "main" of `code` on the storage map that
    /// `storage` serializes, with `fuel` units of compute and at most
    /// `max_read` reads and `max_write` writes and removals, and returns the
    /// serialized storage map that the run leaves.
    ///
    /// The steps are taken in this order, and the first that fails gives the
    /// error: the engine is made, the code compiled, the storage read, the
    /// store made, the fuel handed over, the host operations linked, the
    /// module instantiated, the entry point found and called. Whether the
    /// engine accepts the code and how the program runs is the engine's
    /// matter; what is returned for each of its answers is stated by
    /// `setup_error` and `conclude`.
    pub fn execute_code(
        &mut self,
        code: Vec<u8>,
        storage: Vec<u8>,
        fuel: u32,
        max_read: u32,
        max_write: u32,
    ) -> (r: Result<Vec<u8>, ExecutionErrors>)
        ensures
            match r {
                Ok(bytes) => is_storage_encoding(storage@) && is_storage_encoding(bytes@),
                Err(e) => e != ExecutionErrors::UnexpectedBehaviour && (e
                    == ExecutionErrors::ImpossibleDecodingKontractStorage ==> !is_storage_encoding(
                    storage@,
                )),
            },
            !is_storage_encoding(storage@) ==> r == Err::<Vec<u8>, ExecutionErrors>(
                ExecutionErrors::ImpossibleCreateEngine,
            ) || r == Err::<Vec<u8>, ExecutionErrors>(ExecutionErrors::IncorrectBinary) || r == Err::<
                Vec<u8>,
                ExecutionErrors,
            >(ExecutionErrors::ImpossibleDecodingKontractStorage),
    {
        let engine = match new_engine() {
            Ok(engine) => engine,
            Err(_) => {
                return Err(setup_error(Stage::Starting));
            },
        };
        let module = match compile(&engine, code.as_slice()) {
            Ok(module) => module,
            Err(_) => {
                return Err(setup_error(Stage::Compiling));
            },
        };
        let state = match KontractStore::open(storage.as_slice(), max_read, max_write) {
            Ok(state) => state,
            Err(_) => {
                return Err(setup_error(Stage::Decoding));
            },
        };
        let mut store = match new_store(&engine, state) {
            Ok(store) => store,
            Err(_) => {
                return Err(setup_error(Stage::Instantiating));
            },
        };
        if set_fuel(&mut store, fuel as u64).is_err() {
            return Err(setup_error(Stage::Fueling));
        }
        let mut linker = new_linker(&store);
        if link_host(&mut linker).is_err() {
            return Err(setup_error(Stage::Linking));
        }
        let instance = match instantiate(&linker, &mut store, &module) {
            Ok(instance) => instance,
            Err(_) => {
                return Err(setup_error(Stage::Instantiating));
            },
        };
        let main = match entry_point(&instance, &mut store) {
            Ok(main) => main,
            Err(_) => {
                return Err(setup_error(Stage::Locating));
            },
        };
        let end = call_entry(&main, &mut store);
        conclude(end, store_state(&store))
    }
}

} // verus!
