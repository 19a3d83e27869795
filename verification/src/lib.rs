//! A sandbox that runs small untrusted programs over a private key-value
//! store, within limits on compute, reads and writes.
//!
//! A caller hands over the code of a program, the serialized storage of that
//! program and three limits. The runner reads the storage into a storage map,
//! lets the engine run the program's entry point, and serves the three
//! operations that the program may call: set, get and remove. Each operation
//! is counted by the resource meter, and takes its key and its value from the
//! program's memory, checked against the size of that memory. A run that
//! completes gives the storage map back in serialized form; any other run
//! gives an error and no storage.
//!
//! - `bytes`: the order of keys.
//! - `codec`: the serialized form, read and written by `parity-scale-codec`.
//! - `storage`: the storage map.
//! - `hashing`: the hash that turns a program's key into a key of the map.
//! - `meter`: the resource meter.
//! - `store`: the state of a run and the three operations on it.
//! - `abi`: the three operations as a program calls them, on its memory.
//! - `engine`: the calls into `wasmtime`.
//! - `runner`: one run, and the error for each way in which it can end.
//! - `deposit`: the settlement of a run by the ledger.
//! - `laws`: what holds of every sequence of operations.

pub mod abi;
pub mod bytes;
pub mod codec;
pub mod deposit;
pub mod engine;
pub mod hashing;
pub mod laws;
pub mod meter;
pub mod runner;
pub mod storage;
pub mod store;

pub use abi::{read_vec, storage_get, storage_remove, storage_set, write_vec};
pub use deposit::{settle, size_delta, storage_size, Settlement};
pub use meter::{AccessKind, QuotaError, ResourceMeter};
pub use runner::{
    classify_fault, conclude, fault_message, setup_error, ExecutionErrors, KontractsExecutor,
    RunEnd, Stage,
};
pub use storage::{StorageDecodeError, StorageMap};
pub use store::{kontracts_get, kontracts_remove, kontracts_set, Fault, KontractStore};
