//! Whole runs, with a small ledger around the runner: an account with a free
//! and a reserved balance, and the storage of one program.

use kontracts_executor::{
    settle, size_delta, storage_size, ExecutionErrors, KontractsExecutor, Settlement, StorageMap,
};
use parity_scale_codec::{Decode, Encode};
use sp_core::{Blake2Hasher, Hasher};

const EMPTY_EXECUTION: &str = r#"(module (func (export "main")))"#;

const WRITE_8B: &str = r#"(module
  (import "env" "set" (func $set (param i32 i32 i32 i32)))
  (memory (export "memory") 1)
  (data (i32.const 0) "\0c\01\00\00\00\02\00\00\00\03\00\00\00")
  (data (i32.const 16) "\0c\04\00\00\00\05\00\00\00\06\00\00\00")
  (func (export "main")
    (call $set (i32.const 0) (i32.const 13) (i32.const 16) (i32.const 13))))"#;

const DELETE: &str = r#"(module
  (import "env" "remove" (func $remove (param i32 i32)))
  (memory (export "memory") 1)
  (data (i32.const 0) "\0c\01\00\00\00\02\00\00\00\03\00\00\00")
  (func (export "main")
    (call $remove (i32.const 0) (i32.const 13))))"#;

const READ: &str = r#"(module
  (import "env" "get" (func $get (param i32 i32 i32 i32)))
  (memory (export "memory") 1)
  (data (i32.const 0) "\0c\01\00\00\00\02\00\00\00\03\00\00\00")
  (func (export "main")
    (call $get (i32.const 0) (i32.const 13) (i32.const 64) (i32.const 100))
    (if (i32.ne (i32.load8_u (i32.const 64)) (i32.const 52)) (then unreachable))
    (if (i32.ne (i32.load8_u (i32.const 65)) (i32.const 12)) (then unreachable))
    (if (i32.ne (i32.load (i32.const 66)) (i32.const 4)) (then unreachable))))"#;

const WRITE_AND_READ_16B: &str = r#"(module
  (import "env" "set" (func $set (param i32 i32 i32 i32)))
  (import "env" "get" (func $get (param i32 i32 i32 i32)))
  (memory (export "memory") 1)
  (data (i32.const 0) "\0c\01\00\00\00\02\00\00\00\03\00\00\00")
  (data (i32.const 16) "\0c\04\00\00\00\05\00\00\00\06\00\00\00")
  (func (export "main")
    (call $set (i32.const 0) (i32.const 13) (i32.const 16) (i32.const 13))
    (call $get (i32.const 0) (i32.const 13) (i32.const 64) (i32.const 100))
    (call $set (i32.const 16) (i32.const 13) (i32.const 65) (i32.const 13))))"#;

const COLLANTZ_CONJECTURE: &str = r#"(module
  (import "env" "set" (func $set (param i32 i32 i32 i32)))
  (import "env" "get" (func $get (param i32 i32 i32 i32)))
  (memory (export "memory") 1)
  (data (i32.const 0) "\01\00\00\00")
  (func (export "main") (local $val i32)
    (call $get (i32.const 0) (i32.const 4) (i32.const 16) (i32.const 100))
    (if (i32.eq (i32.load8_u (i32.const 16)) (i32.const 16))
      (then (local.set $val (i32.load (i32.const 17))))
      (else (local.set $val (i32.const 5))))
    (if (i32.eqz (i32.rem_u (local.get $val) (i32.const 2)))
      (then (local.set $val (i32.div_u (local.get $val) (i32.const 2))))
      (else (local.set $val (i32.add (i32.mul (local.get $val) (i32.const 3)) (i32.const 1)))))
    (i32.store (i32.const 128) (local.get $val))
    (call $set (i32.const 0) (i32.const 4) (i32.const 128) (i32.const 4))))"#;

const PANIC: &str = r#"(module (func (export "main") unreachable))"#;

const LOOP: &str = r#"(module (func (export "main") (loop $again (br $again))))"#;

fn load_wasm(name: &str) -> Vec<u8> {
    let text = match name {
        "empty_execution" => EMPTY_EXECUTION,
        "write_8B" => WRITE_8B,
        "delete" => DELETE,
        "read" => READ,
        "write_and_read_16B" => WRITE_AND_READ_16B,
        "collantz_conjecture" => COLLANTZ_CONJECTURE,
        "panic" => PANIC,
        "loop" => LOOP,
        _ => panic!("Wrong path"),
    };
    text.as_bytes().to_vec()
}

#[derive(Debug, PartialEq)]
enum Event {
    NewCodeUploaded,
    CodeExecuted,
    ExceededStorage,
}

#[derive(Debug, PartialEq)]
enum LedgerError {
    ExecutionCode(ExecutionErrors),
    DepositError,
}

/// One account and the storage of one program, as the ledger keeps them.
struct Ledger {
    free: u64,
    reserved: u64,
    code: Vec<u8>,
    storage: StorageMap,
    last_event: Event,
}

impl Ledger {
    fn new(name: &str, free: u64, reserved: u64) -> Ledger {
        Ledger {
            free,
            reserved,
            code: load_wasm(name),
            storage: StorageMap::new(),
            last_event: Event::NewCodeUploaded,
        }
    }

    fn reserved_balance(&self) -> u64 {
        self.reserved
    }

    fn free_balance(&self) -> u64 {
        self.free
    }

    fn execute_code(
        &mut self,
        expected_modified_storage: i32,
        fuel: u32,
        expected_read: u32,
        expected_write: u32,
    ) -> Result<(), LedgerError> {
        let old_storage_raw = self.storage.encode();
        let old_storage_size = storage_size(&old_storage_raw).expect("the ledger's own storage");
        let new_storage_raw = KontractsExecutor::new()
            .execute_code(self.code.clone(), old_storage_raw, fuel, expected_read, expected_write)
            .map_err(LedgerError::ExecutionCode)?;
        let new_storage_size = storage_size(&new_storage_raw).expect("the runner's storage");
        let delta = size_delta(old_storage_size, new_storage_size).expect("a small storage");
        match settle(delta, expected_modified_storage) {
            Settlement::Unchanged => (),
            Settlement::Unreserve(amount) => {
                let moved = self.reserved.min(amount as u64);
                self.reserved -= moved;
                self.free += moved;
            }
            Settlement::Reserve(amount) => {
                if self.free < amount as u64 {
                    return Err(LedgerError::DepositError);
                }
                self.free -= amount as u64;
                self.reserved += amount as u64;
            }
            Settlement::Slash(amount) => {
                let from_free = self.free.min(amount as u64);
                self.free -= from_free;
                let from_reserved = self.reserved.min(amount as u64 - from_free);
                self.reserved -= from_reserved;
                self.last_event = Event::ExceededStorage;
                return Ok(());
            }
        }
        self.storage = StorageMap::decode(&new_storage_raw)
            .map_err(|_| LedgerError::ExecutionCode(ExecutionErrors::UnexpectedBehaviour))?;
        self.last_event = Event::CodeExecuted;
        Ok(())
    }
}

fn key_hashed(key: Vec<u8>) -> Vec<u8> {
    Blake2Hasher::hash(&key[..])[..].to_vec()
}

fn write_b_kontract(code: &str, start_balance: u64, expected_storage: i32) -> (Ledger, Result<(), LedgerError>) {
    let mut ledger = Ledger::new(code, start_balance, 0);
    assert_eq!(ledger.last_event, Event::NewCodeUploaded);
    let res = ledger.execute_code(expected_storage, u32::MAX, u32::MAX, u32::MAX);
    (ledger, res)
}

#[test]
fn execute_empty_kontract() {
    let mut ledger = Ledger::new("empty_execution", 0, 0);
    assert_eq!(ledger.last_event, Event::NewCodeUploaded);
    ledger.execute_code(0, u32::MAX, u32::MAX, u32::MAX).expect("Impossible execute code");
    assert_eq!(ledger.last_event, Event::CodeExecuted);
}

#[test]
#[allow(non_snake_case)]
fn write_8B_equal_kontract() {
    let (ledger, res_execution) = write_b_kontract("write_8B", 47, 47);

    assert_eq!(Ok(()), res_execution);
    assert_eq!(47, ledger.reserved_balance());
    assert_eq!(0, ledger.free_balance());
}

#[test]
#[allow(non_snake_case)]
fn write_8B_less_kontract() {
    // The caller declares 30 bytes where 47 are taken: the run is settled by
    // a slash, and the call itself is no error.
    let (ledger, res_execution) = write_b_kontract("write_8B", 47, 30);

    assert_eq!(Ok(()), res_execution);
    assert_eq!(0, ledger.reserved_balance());
    assert_eq!(0, ledger.free_balance());
    assert_eq!(ledger.last_event, Event::ExceededStorage);
}

#[test]
#[allow(non_snake_case)]
fn write_8B_more_kontract() {
    // The caller declares more than is taken: the deposit is what is taken.
    let (ledger, res_execution) = write_b_kontract("write_8B", 50, 50);

    assert_eq!(Ok(()), res_execution);
    assert_eq!(47, ledger.reserved_balance());
    assert_eq!(3, ledger.free_balance());
}

#[test]
#[allow(non_snake_case)]
fn write_8B_negative_kontract() {
    // 55 is the deposit for the storage that is there before the run.
    let mut ledger = Ledger::new("write_8B", 45, 55);

    // a bigger value under the same key
    let mut kontract_storage = StorageMap::new();
    assert!(kontract_storage.insert(
        key_hashed(vec![1u32, 2u32, 3u32].encode()),
        vec![4u32, 5u32, 6u32, 7u32, 8u32].encode(),
    ));
    ledger.storage = kontract_storage;

    let res_execution = ledger.execute_code(-8, u32::MAX, u32::MAX, u32::MAX);

    assert_eq!(Ok(()), res_execution);
    assert_eq!(47, ledger.reserved_balance());
    assert_eq!(53, ledger.free_balance());
}

#[test]
fn delete_kontract() {
    let mut ledger = Ledger::new("delete", 53, 47);

    let mut kontract_storage = StorageMap::new();
    assert!(kontract_storage
        .insert(key_hashed(vec![1u32, 2u32, 3u32].encode()), vec![4u32, 5u32, 6u32].encode()));
    ledger.storage = kontract_storage;

    let res_execution = ledger.execute_code(-47, u32::MAX, u32::MAX, u32::MAX);

    assert_eq!(Ok(()), res_execution);
    assert_eq!(0, ledger.reserved_balance());
    assert_eq!(100, ledger.free_balance());
}

#[test]
fn read_kontract() {
    let mut ledger = Ledger::new("read", 0, 0);

    let mut kontract_storage = StorageMap::new();
    assert!(kontract_storage
        .insert(key_hashed(vec![1u32, 2u32, 3u32].encode()), vec![4u32, 5u32, 6u32].encode()));
    ledger.storage = kontract_storage;

    ledger.execute_code(0, u32::MAX, u32::MAX, u32::MAX).expect("Impossible execute code");

    assert_eq!(ledger.last_event, Event::CodeExecuted);
}

#[test]
fn read_and_multiple_write_ok() {
    let start_balance = 100;
    let deposit_for_storage = 94;
    let remain_balance_expected = start_balance - deposit_for_storage;

    let mut ledger = Ledger::new("write_and_read_16B", start_balance, 0);

    ledger
        .execute_code(deposit_for_storage as i32, u32::MAX, u32::MAX, u32::MAX)
        .expect("Impossible execute code");

    assert_eq!(ledger.last_event, Event::CodeExecuted);

    let mut expected_kontract_storage = StorageMap::new();
    let key_1 = key_hashed(vec![1u32, 2u32, 3u32].encode());
    let vec_2 = vec![4u32, 5u32, 6u32].encode();
    let key_2 = key_hashed(vec![4u32, 5u32, 6u32].encode());
    assert!(expected_kontract_storage.insert(key_1, vec_2.clone()));
    assert!(expected_kontract_storage.insert(key_2, vec_2));

    assert_eq!(ledger.storage.encode(), expected_kontract_storage.encode());
    let remain_balance = ledger.free_balance();
    let reserved_balance = ledger.reserved_balance();
    assert_eq!((remain_balance_expected, deposit_for_storage), (remain_balance, reserved_balance))
}

#[test]
fn collantz_conjecture_kontract() {
    let mut ledger = Ledger::new("collantz_conjecture", 100, 0);

    let next_collantz = |val: u32| match val % 2 {
        0 => val / 2,
        _ => (val * 3) + 1,
    };

    let mut collantz_numbers: Vec<u32> = vec![];
    for _ in 0..100 {
        collantz_numbers.push(next_collantz(*collantz_numbers.last().unwrap_or(&5u32)));
    }

    let key = key_hashed(1u32.encode());

    // 5 bytes for the number: its four bytes, and their length in front
    let new_storage_size = (key.encode().len() + 5) as i32;

    println!("Test new_storage_size: {}", new_storage_size);

    for collantz_number in collantz_numbers.iter() {
        ledger
            .execute_code(new_storage_size, u32::MAX, u32::MAX, u32::MAX)
            .expect("Impossible execute code");
        let stored = ledger
            .storage
            .get(&key)
            .expect("Number not defined in the storage of the kontract")
            .clone();
        let val: u32 = Decode::decode(&mut &stored[..])
            .expect("Impossibel decode collants number from storage");

        assert_eq!(*collantz_number, val);
    }

    assert_eq!(ledger.last_event, Event::CodeExecuted);
}

#[test]
fn panic_kontract() {
    let mut ledger = Ledger::new("panic", 0, 0);
    let before = ledger.storage.encode();

    assert_eq!(
        ledger.execute_code(0, u32::MAX, u32::MAX, u32::MAX),
        Err(LedgerError::ExecutionCode(ExecutionErrors::WasmPanic))
    );
    assert_eq!(ledger.storage.encode(), before);
    assert_eq!(ledger.last_event, Event::NewCodeUploaded);
}

#[test]
fn out_of_fuel_kontract() {
    let mut ledger = Ledger::new("loop", 0, 0);
    let before = ledger.storage.encode();

    assert_eq!(
        ledger.execute_code(0, 10, u32::MAX, u32::MAX),
        Err(LedgerError::ExecutionCode(ExecutionErrors::OutOfFuel))
    );
    assert_eq!(ledger.storage.encode(), before);
    assert_eq!(ledger.last_event, Event::NewCodeUploaded);
}

fn out_of_reads_or_writes(code: &str, max_read: u32, max_write: u32, expected_err: ExecutionErrors) {
    let mut ledger = Ledger::new(code, 0, 0);
    let before = ledger.storage.encode();

    assert_eq!(
        ledger.execute_code(0, u32::MAX, max_read, max_write),
        Err(LedgerError::ExecutionCode(expected_err))
    );
    assert_eq!(ledger.storage.encode(), before);
    assert_eq!((0, 0), (ledger.free_balance(), ledger.reserved_balance()));
    assert_eq!(ledger.last_event, Event::NewCodeUploaded);
}

#[test]
fn out_of_reads() {
    out_of_reads_or_writes("read", 0, 0, ExecutionErrors::OutOfReads);
}

#[test]
fn out_of_writes() {
    out_of_reads_or_writes("write_8B", 0, 0, ExecutionErrors::OutOfWrites);
}
