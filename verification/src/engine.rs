//! The execution engine, `wasmtime`, as the sandbox runner sees it: the types
//! it hands out, which of them belong together, and one trusted function for
//! each call that the runner and the host operations make into it.
//!
//! Verus reads none of the engine's code. Every contract in this file is
//! believed, and says no more than the engine's documentation does.

use crate::runner::{host_get, host_remove, host_set, RunEnd};
use crate::store::{KontractStore, StoreState};
use vstd::prelude::*;
use wasmtime::{
    Caller, Config, Engine, Error, Extern, Instance, Linker, Memory, Module, Store, Trap, TypedFunc,
};

verus! {

// The engine's types. Their values are carried through; nothing is known of
// what is inside them but what the functions below state.

#[verifier::external_type_specification]
#[verifier::external_body]
pub struct ExEngine(wasmtime::Engine);

#[verifier::external_type_specification]
#[verifier::external_body]
pub struct ExModule(wasmtime::Module);

#[verifier::external_type_specification]
#[verifier::external_body]
pub struct ExError(wasmtime::Error);

#[verifier::external_type_specification]
#[verifier::external_body]
pub struct ExInstance(wasmtime::Instance);

#[verifier::external_type_specification]
#[verifier::external_body]
pub struct ExMemory(wasmtime::Memory);

#[verifier::external_type_specification]
#[verifier::external_body]
#[verifier::reject_recursive_types(T)]
pub struct ExStore<T: 'static>(wasmtime::Store<T>);

#[verifier::external_type_specification]
#[verifier::external_body]
#[verifier::reject_recursive_types(T)]
pub struct ExLinker<T>(wasmtime::Linker<T>);

#[verifier::external_type_specification]
#[verifier::external_body]
#[verifier::reject_recursive_types(T)]
pub struct ExCaller<'a, T: 'static>(wasmtime::Caller<'a, T>);

#[verifier::external_type_specification]
#[verifier::external_body]
#[verifier::reject_recursive_types(Params)]
#[verifier::reject_recursive_types(Results)]
pub struct ExTypedFunc<Params, Results>(wasmtime::TypedFunc<Params, Results>);

/// The identity of a store. The engine panics where an instance, a function
/// or a memory is used with another store than its own.
pub uninterp spec fn store_id(store: Store<KontractStore>) -> int;

/// The identity of the engine that a store was made for.
pub uninterp spec fn store_engine(store: Store<KontractStore>) -> int;

/// The identity of the engine that a linker was made for.
pub uninterp spec fn linker_engine(linker: Linker<KontractStore>) -> int;

/// The identity of the store that owns an instance.
pub uninterp spec fn instance_store(instance: Instance) -> int;

/// The identity of the store that owns a function.
pub uninterp spec fn func_store(func: TypedFunc<(), ()>) -> int;

/// What the state of the run holds, behind the caller of a host function.
pub uninterp spec fn caller_state(caller: Caller<'_, KontractStore>) -> StoreState;

/// The bytes of the memory that the calling program exports under the name
/// "memory", if it exports one.
pub uninterp spec fn caller_memory(caller: Caller<'_, KontractStore>) -> Option<Seq<u8>>;

/// `memory` is the memory that the calling program exports under the name
/// "memory".
pub uninterp spec fn is_guest_memory(caller: Caller<'_, KontractStore>, memory: Memory) -> bool;

/// `Engine::new`, on a `Config` that meters fuel (`consume_fuel`) and that
/// reserves no address space for a memory beyond its size
/// (`memory_reservation`, `memory_guard_size`,
/// `memory_reservation_for_growth`). Trusted: nothing; the engine may refuse.
#[verifier::external_body]
pub(crate) fn new_engine() -> (r: Result<Engine, Error>) {
    Engine::new(
        Config::new().consume_fuel(true).memory_reservation(0).memory_guard_size(
            0,
        ).memory_reservation_for_growth(0),
    )
}

/// `Module::new`: validates and compiles a program, given as a binary module
/// or as its text form. Trusted: nothing; `Err` is a program that the engine
/// does not accept.
#[verifier::external_body]
pub(crate) fn compile(engine: &Engine, code: &[u8]) -> (r: Result<Module, Error>) {
    Module::new(engine, code)
}

/// `Store::try_new`: a store for `engine` that owns `state`. Trusted:
/// nothing; the engine may find no memory for it.
#[verifier::external_body]
pub(crate) fn new_store(engine: &Engine, state: KontractStore) -> (r: Result<
    Store<KontractStore>,
    Error,
>) {
    Store::try_new(engine, state)
}

/// `Store::set_fuel`. Trusted: the store stays the same store of the same
/// engine.
#[verifier::external_body]
pub(crate) fn set_fuel(store: &mut Store<KontractStore>, fuel: u64) -> (r: Result<(), Error>)
    ensures
        store_id(*final(store)) == store_id(*old(store)),
        store_engine(*final(store)) == store_engine(*old(store)),
{
    store.set_fuel(fuel)
}

/// `Linker::new` for the engine of `store` (`Store::engine`). Trusted: the
/// linker is made for that engine.
#[verifier::external_body]
pub(crate) fn new_linker(store: &Store<KontractStore>) -> (linker: Linker<KontractStore>)
    ensures
        linker_engine(linker) == store_engine(*store),
{
    Linker::new(store.engine())
}

/// `Linker::func_wrap` for the three host operations, under the names "set",
/// "get" and "remove" of the namespace "env". Trusted: the linker stays of
/// the same engine.
#[verifier::external_body]
pub(crate) fn link_host(linker: &mut Linker<KontractStore>) -> (r: Result<(), Error>)
    ensures
        linker_engine(*final(linker)) == linker_engine(*old(linker)),
{
    linker.func_wrap("env", "set", |mut c: Caller<'_, KontractStore>, kp: u32, kl: u32, vp: u32, vl: u32| host_set(&mut c, kp, kl, vp, vl))?;
    linker.func_wrap("env", "get", |mut c: Caller<'_, KontractStore>, kp: u32, kl: u32, vp: u32, vl: u32| host_get(&mut c, kp, kl, vp, vl))?;
    linker.func_wrap("env", "remove", |mut c: Caller<'_, KontractStore>, kp: u32, kl: u32| host_remove(&mut c, kp, kl))?;
    Ok(())
}

/// `Linker::instantiate`. It panics where the linker and the store are of
/// two engines, which `requires` leaves out. Trusted: the store stays the
/// same store of the same engine, and owns the instance.
#[verifier::external_body]
pub(crate) fn instantiate(
    linker: &Linker<KontractStore>,
    store: &mut Store<KontractStore>,
    module: &Module,
) -> (r: Result<Instance, Error>)
    requires
        linker_engine(*linker) == store_engine(*old(store)),
    ensures
        store_id(*final(store)) == store_id(*old(store)),
        store_engine(*final(store)) == store_engine(*old(store)),
        r matches Ok(instance) ==> instance_store(instance) == store_id(*old(store)),
{
    linker.instantiate(store, module)
}

/// `Instance::get_typed_func` for the export "main" without parameters or
/// results. It panics where the store does not own the instance, which
/// `requires` leaves out. Trusted: the store stays the same store, and owns
/// the function.
#[verifier::external_body]
pub(crate) fn entry_point(instance: &Instance, store: &mut Store<KontractStore>) -> (r: Result<
    TypedFunc<(), ()>,
    Error,
>)
    requires
        instance_store(*instance) == store_id(*old(store)),
    ensures
        store_id(*final(store)) == store_id(*old(store)),
        r matches Ok(main) ==> func_store(main) == store_id(*old(store)),
{
    instance.get_typed_func::<(), ()>(store, "main")
}

/// `TypedFunc::call`. It panics where the store does not own the function,
/// which `requires` leaves out; it returns, whatever the program does,
/// because every engine that `new_engine` makes meters fuel. The answer
/// tells a return from a trap, and among the traps the one that the engine
/// raises when the fuel is used up (`Trap::OutOfFuel`). Trusted: the store
/// stays the same store.
#[verifier::external_body]
pub(crate) fn call_entry(main: &TypedFunc<(), ()>, store: &mut Store<KontractStore>) -> (end: RunEnd)
    requires
        func_store(*main) == store_id(*old(store)),
    ensures
        store_id(*final(store)) == store_id(*old(store)),
{
    match main.call(store, ()) {
        Ok(()) => RunEnd::Returned,
        Err(error) => match error.downcast_ref::<Trap>() {
            Some(Trap::OutOfFuel) => RunEnd::OutOfFuel,
            _ => RunEnd::Aborted,
        },
    }
}

/// `Store::data`: the state that the store owns.
#[verifier::external_body]
pub(crate) fn store_state(store: &Store<KontractStore>) -> (state: &KontractStore) {
    store.data()
}

/// `Caller::get_export` for the name "memory". Trusted: a memory is found
/// where the program exports one under that name, and it is that memory;
/// the state and the memory stay as they are.
#[verifier::external_body]
pub(crate) fn guest_memory(caller: &mut Caller<'_, KontractStore>) -> (r: Option<Memory>)
    ensures
        r is Some <==> caller_memory(*old(caller)) is Some,
        r matches Some(memory) ==> is_guest_memory(*final(caller), memory),
        caller_state(*final(caller)) == caller_state(*old(caller)),
        caller_memory(*final(caller)) == caller_memory(*old(caller)),
{
    match caller.get_export("memory") {
        Some(Extern::Memory(memory)) => Some(memory),
        _ => None,
    }
}

/// `Memory::data_and_store_mut`: the bytes of the memory and the state of the
/// run, both open to change. It panics where the memory is not of the
/// caller's store, which `requires` leaves out. Trusted: the two are what
/// the caller holds, and what is written to them is what the caller holds
/// afterwards.
#[verifier::external_body]
pub(crate) fn guest_parts<'a>(caller: &'a mut Caller<'_, KontractStore>, memory: &Memory) -> (r: (
    &'a mut [u8],
    &'a mut KontractStore,
))
    requires
        is_guest_memory(*old(caller), *memory),
    ensures
        Some(r.0@) == caller_memory(*old(caller)),
        r.1@ == caller_state(*old(caller)),
        Some(final(r.0)@) == caller_memory(*final(caller)),
        final(r.1)@ == caller_state(*final(caller)),
{
    memory.data_and_store_mut(caller)
}

/// `Caller::data_mut`: the state of the run, open to change. Trusted: it is
/// what the caller holds, and what is written to it is what the caller holds
/// afterwards; the memory stays as it is.
#[verifier::external_body]
pub(crate) fn guest_state<'a>(caller: &'a mut Caller<'_, KontractStore>) -> (state:
    &'a mut KontractStore)
    ensures
        state@ == caller_state(*old(caller)),
        final(state)@ == caller_state(*final(caller)),
        caller_memory(*final(caller)) == caller_memory(*old(caller)),
{
    caller.data_mut()
}

/// `Error::msg`: the error that a host operation hands to the engine to end
/// the run.
#[verifier::external_body]
pub(crate) fn trap_error(message: &'static str) -> (error: Error) {
    Error::msg(message)
}

} // verus!
