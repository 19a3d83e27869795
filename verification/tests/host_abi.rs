//! The host operations, called on a memory and a state as the engine hands
//! them over.

use kontracts_executor::{
    kontracts_get, kontracts_remove, kontracts_set, read_vec, storage_get, storage_remove,
    storage_set, write_vec, Fault, KontractStore, StorageMap,
};
use sp_core::{Blake2Hasher, Hasher};

fn hashed(key: &[u8]) -> Vec<u8> {
    Blake2Hasher::hash(key)[..].to_vec()
}

fn store(max_read: u32, max_write: u32) -> KontractStore {
    KontractStore::new(StorageMap::new(), max_read, max_write)
}

fn counts(store: &KontractStore) -> (u32, u32) {
    (store.meter().reads(), store.meter().writes())
}

#[test]
fn a_run_opens_on_the_storage_handed_in() {
    let mut map = StorageMap::new();
    assert!(map.insert(vec![1], vec![2, 3]));
    let store = KontractStore::open(&map.encode(), 7, 9).expect("the bytes of a storage map");
    assert_eq!(store.storage().len(), 1);
    assert_eq!(store.storage().get(&[1]), Some(&vec![2, 3]));
    assert_eq!(counts(&store), (0, 0));
    assert_eq!((store.meter().max_reads(), store.meter().max_writes()), (7, 9));
    assert_eq!(store.fault(), None);
    assert!(KontractStore::open(&[4, 4, 1], 7, 9).is_err());
    assert!(KontractStore::open(&[], 7, 9).is_err());
}

#[test]
fn read_vec_copies_the_bytes_named() {
    let memory = [10u8, 11, 12, 13, 14];
    assert_eq!(read_vec(&memory, 1, 3), Ok(vec![11, 12, 13]));
    assert_eq!(read_vec(&memory, 0, 5), Ok(vec![10, 11, 12, 13, 14]));
    assert_eq!(read_vec(&memory, 5, 0), Ok(vec![]));
    assert_eq!(read_vec(&memory, 0, 0), Ok(vec![]));
}

#[test]
fn read_vec_faults_outside_the_memory() {
    let memory = [10u8, 11, 12, 13, 14];
    assert_eq!(read_vec(&memory, 3, 3), Err(Fault::MemoryRead));
    assert_eq!(read_vec(&memory, 6, 0), Err(Fault::MemoryRead));
    assert_eq!(read_vec(&memory, 0, 6), Err(Fault::MemoryRead));
    assert_eq!(read_vec(&memory, u32::MAX, 1), Err(Fault::MemoryRead));
    assert_eq!(read_vec(&memory, u32::MAX, u32::MAX), Err(Fault::MemoryRead));
    assert_eq!(read_vec(&[], 0, 1), Err(Fault::MemoryRead));
}

#[test]
fn write_vec_writes_the_length_and_the_bytes() {
    let mut memory = [9u8; 8];
    assert_eq!(write_vec(&mut memory, vec![1, 2, 3], 2, 4), Ok(()));
    assert_eq!(memory, [9, 9, 12, 1, 2, 3, 9, 9]);
    assert_eq!(write_vec(&mut memory, vec![], 7, 1), Ok(()));
    assert_eq!(memory, [9, 9, 12, 1, 2, 3, 9, 0]);
}

#[test]
fn write_vec_writes_a_longer_length_in_two_bytes() {
    let mut memory = vec![9u8; 70];
    assert_eq!(write_vec(&mut memory, vec![7; 64], 1, 66), Ok(()));
    assert_eq!(memory[..4], [9, 1, 1, 7]);
    assert_eq!(memory[66..], [7, 9, 9, 9]);
}

#[test]
fn write_vec_faults_on_a_buffer_shorter_than_the_serialized_value() {
    let mut memory = [9u8; 8];
    // three bytes take four with their length
    assert_eq!(write_vec(&mut memory, vec![1, 2, 3], 2, 3), Err(Fault::MemoryWrite));
    assert_eq!(memory, [9u8; 8]);
    assert_eq!(write_vec(&mut memory, vec![], 0, 0), Err(Fault::MemoryWrite));
    assert_eq!(memory, [9u8; 8]);
    let mut memory = vec![9u8; 70];
    assert_eq!(write_vec(&mut memory, vec![7; 64], 1, 65), Err(Fault::MemoryWrite));
    assert_eq!(memory, vec![9u8; 70]);
}

#[test]
fn write_vec_faults_outside_the_memory() {
    let mut memory = [9u8; 8];
    assert_eq!(write_vec(&mut memory, vec![1, 2, 3], 5, 100), Err(Fault::MemoryWrite));
    assert_eq!(write_vec(&mut memory, vec![], 8, 100), Err(Fault::MemoryWrite));
    assert_eq!(write_vec(&mut memory, vec![], u32::MAX, u32::MAX), Err(Fault::MemoryWrite));
    assert_eq!(memory, [9u8; 8]);
    assert_eq!(write_vec(&mut memory, vec![1, 2, 3], 4, 100), Ok(()));
    assert_eq!(memory, [9, 9, 9, 9, 12, 1, 2, 3]);
}

#[test]
fn set_stores_under_the_hash_of_the_key() {
    let mut store = store(0, 1);
    assert_eq!(kontracts_set(&mut store, vec![1, 2, 3], vec![4, 5, 6]), Ok(()));
    assert_eq!(store.storage().len(), 1);
    assert_eq!(store.storage().get(&hashed(&[1, 2, 3])), Some(&vec![4, 5, 6]));
    assert_eq!(store.storage().get(&[1, 2, 3]), None);
    assert_eq!(hashed(&[1, 2, 3]).len(), 32);
    assert_eq!(counts(&store), (0, 1));
    assert_eq!(store.fault(), None);
}

#[test]
fn set_overwrites_and_counts_each_write() {
    let mut store = store(0, 3);
    assert_eq!(kontracts_set(&mut store, vec![1], vec![4]), Ok(()));
    assert_eq!(kontracts_set(&mut store, vec![1], vec![5, 5]), Ok(()));
    assert_eq!(kontracts_set(&mut store, vec![2], vec![]), Ok(()));
    assert_eq!(store.storage().len(), 2);
    assert_eq!(store.storage().get(&hashed(&[1])), Some(&vec![5, 5]));
    assert_eq!(store.storage().get(&hashed(&[2])), Some(&vec![]));
    assert_eq!(counts(&store), (0, 3));
    assert_eq!(kontracts_set(&mut store, vec![3], vec![1]), Err(Fault::ExceededWrites));
    assert_eq!(store.storage().len(), 2);
    assert_eq!(counts(&store), (0, 3));
}

#[test]
fn get_counts_a_read_and_gives_the_value() {
    let mut store = store(2, 1);
    assert_eq!(kontracts_set(&mut store, vec![1], vec![4, 4]), Ok(()));
    assert_eq!(kontracts_get(&mut store, vec![1]), Ok(Some(vec![4, 4])));
    assert_eq!(counts(&store), (1, 1));
    assert_eq!(kontracts_get(&mut store, vec![1]), Ok(Some(vec![4, 4])));
    assert_eq!(kontracts_get(&mut store, vec![1]), Err(Fault::ExceededReads));
    assert_eq!(counts(&store), (2, 1));
}

#[test]
fn get_of_a_key_never_written_is_no_fault() {
    let mut store = store(1, 0);
    assert_eq!(kontracts_get(&mut store, vec![1, 2, 3]), Ok(None));
    assert_eq!(counts(&store), (1, 0));
    assert_eq!(store.fault(), None);
}

#[test]
fn remove_counts_as_a_write() {
    let mut store = store(0, 2);
    assert_eq!(kontracts_set(&mut store, vec![1], vec![4]), Ok(()));
    assert_eq!(kontracts_remove(&mut store, vec![1]), Ok(()));
    assert_eq!(store.storage().len(), 0);
    assert_eq!(counts(&store), (0, 2));
    assert_eq!(kontracts_remove(&mut store, vec![1]), Err(Fault::ExceededWrites));
    assert_eq!(counts(&store), (0, 2));
}

#[test]
fn remove_of_an_absent_key_is_no_fault_and_is_counted() {
    let mut store = store(0, 1);
    assert_eq!(kontracts_remove(&mut store, vec![1]), Ok(()));
    assert_eq!(store.storage().len(), 0);
    assert_eq!(counts(&store), (0, 1));
}

#[test]
fn storage_set_reads_key_and_value_from_the_memory() {
    let mut store = store(0, 5);
    let memory = [1u8, 2, 3, 4, 5, 6, 7];
    assert_eq!(storage_set(&mut store, &memory, 0, 3, 3, 4), Ok(()));
    assert_eq!(store.storage().get(&hashed(&[1, 2, 3])), Some(&vec![4, 5, 6, 7]));
    // key and value may overlap, and may be empty
    assert_eq!(storage_set(&mut store, &memory, 2, 2, 0, 7), Ok(()));
    assert_eq!(store.storage().get(&hashed(&[3, 4])), Some(&vec![1, 2, 3, 4, 5, 6, 7]));
    assert_eq!(storage_set(&mut store, &memory, 7, 0, 7, 0), Ok(()));
    assert_eq!(store.storage().get(&hashed(&[])), Some(&vec![]));
    assert_eq!(counts(&store), (0, 3));
    assert_eq!(store.fault(), None);
}

#[test]
fn storage_set_faults_on_a_bad_pointer_before_it_counts() {
    let mut store = store(0, 5);
    let memory = [1u8, 2, 3, 4, 5, 6, 7];
    assert_eq!(storage_set(&mut store, &memory, 5, 3, 0, 1), Err(Fault::MemoryRead));
    assert_eq!(store.fault(), Some(Fault::MemoryRead));
    assert_eq!(counts(&store), (0, 0));
    assert_eq!(store.storage().len(), 0);
    let mut store = self::store(0, 5);
    assert_eq!(storage_set(&mut store, &memory, 0, 1, 0, 8), Err(Fault::MemoryRead));
    assert_eq!(store.fault(), Some(Fault::MemoryRead));
    assert_eq!(counts(&store), (0, 0));
}

#[test]
fn storage_set_records_the_quota_fault() {
    let mut store = store(5, 0);
    let memory = [1u8, 2, 3, 4, 5, 6, 7];
    assert_eq!(storage_set(&mut store, &memory, 0, 3, 3, 4), Err(Fault::ExceededWrites));
    assert_eq!(store.fault(), Some(Fault::ExceededWrites));
    assert_eq!(store.storage().len(), 0);
    // the first fault stays
    assert_eq!(storage_set(&mut store, &memory, 9, 9, 9, 9), Err(Fault::MemoryRead));
    assert_eq!(store.fault(), Some(Fault::ExceededWrites));
}

#[test]
fn storage_get_writes_the_value_with_its_length() {
    let mut store = store(5, 5);
    let mut memory = [1u8, 2, 3, 4, 5, 6, 7, 0, 0, 0, 0, 0];
    assert_eq!(storage_set(&mut store, &memory, 0, 3, 3, 4), Ok(()));
    assert_eq!(storage_get(&mut store, &mut memory, 0, 3, 7, 5), Ok(()));
    assert_eq!(memory, [1, 2, 3, 4, 5, 6, 7, 16, 4, 5, 6, 7]);
    assert_eq!(counts(&store), (1, 1));
    assert_eq!(store.fault(), None);
}

#[test]
fn storage_get_of_a_key_never_written_writes_the_empty_value() {
    let mut store = store(5, 5);
    let mut memory = [1u8, 2, 3, 9, 9, 9];
    assert_eq!(storage_get(&mut store, &mut memory, 0, 3, 4, 1), Ok(()));
    assert_eq!(memory, [1, 2, 3, 9, 0, 9]);
    assert_eq!(counts(&store), (1, 0));
    assert_eq!(store.fault(), None);
}

#[test]
fn storage_get_faults_on_a_buffer_that_is_too_small() {
    let mut store = store(5, 5);
    let mut memory = [1u8, 2, 3, 4, 5, 6, 7, 0, 0, 0, 0, 0];
    assert_eq!(storage_set(&mut store, &memory, 0, 3, 3, 4), Ok(()));
    // the value has four bytes: a buffer of four has no room for its length
    assert_eq!(storage_get(&mut store, &mut memory, 0, 3, 7, 4), Err(Fault::MemoryWrite));
    assert_eq!(memory, [1, 2, 3, 4, 5, 6, 7, 0, 0, 0, 0, 0]);
    assert_eq!(store.fault(), Some(Fault::MemoryWrite));
    // the read was made and is counted
    assert_eq!(counts(&store), (1, 1));
}

#[test]
fn storage_get_faults_on_a_buffer_outside_the_memory() {
    let mut store = store(5, 5);
    let mut memory = [1u8, 2, 3, 4, 5, 6, 7, 0, 0, 0, 0, 0];
    assert_eq!(storage_set(&mut store, &memory, 0, 3, 3, 4), Ok(()));
    assert_eq!(storage_get(&mut store, &mut memory, 0, 3, 8, 100), Err(Fault::MemoryWrite));
    assert_eq!(store.fault(), Some(Fault::MemoryWrite));
    assert_eq!(memory, [1, 2, 3, 4, 5, 6, 7, 0, 0, 0, 0, 0]);
}

#[test]
fn storage_get_records_the_quota_fault() {
    let mut store = store(0, 5);
    let mut memory = [1u8, 2, 3, 9, 9, 9];
    assert_eq!(storage_get(&mut store, &mut memory, 0, 3, 4, 1), Err(Fault::ExceededReads));
    assert_eq!(store.fault(), Some(Fault::ExceededReads));
    assert_eq!(memory, [1, 2, 3, 9, 9, 9]);
    assert_eq!(counts(&store), (0, 0));
}

#[test]
fn storage_remove_reads_the_key_from_the_memory() {
    let mut store = store(0, 5);
    let memory = [1u8, 2, 3, 4, 5, 6, 7];
    assert_eq!(storage_set(&mut store, &memory, 0, 3, 3, 4), Ok(()));
    assert_eq!(storage_remove(&mut store, &memory, 1, 3), Ok(()));
    assert_eq!(store.storage().len(), 1);
    assert_eq!(storage_remove(&mut store, &memory, 0, 3), Ok(()));
    assert_eq!(store.storage().len(), 0);
    assert_eq!(counts(&store), (0, 3));
    assert_eq!(storage_remove(&mut store, &memory, 6, 2), Err(Fault::MemoryRead));
    assert_eq!(store.fault(), Some(Fault::MemoryRead));
    assert_eq!(counts(&store), (0, 3));
}

#[test]
fn storage_remove_records_the_quota_fault() {
    let mut store = store(5, 0);
    let memory = [1u8, 2, 3];
    assert_eq!(storage_remove(&mut store, &memory, 0, 3), Err(Fault::ExceededWrites));
    assert_eq!(store.fault(), Some(Fault::ExceededWrites));
}

#[test]
fn more_quota_never_makes_an_operation_fail() {
    let memory = [1u8, 2, 3, 4, 5, 6, 7, 0, 0, 0, 0, 0];
    let mut outcomes = vec![];
    for (max_read, max_write) in [(1, 2), (1, 3), (2, 2), (70, 80), (u32::MAX, u32::MAX)] {
        let mut store = store(max_read, max_write);
        let mut memory = memory;
        assert_eq!(storage_set(&mut store, &memory, 0, 3, 3, 4), Ok(()));
        assert_eq!(storage_get(&mut store, &mut memory, 0, 3, 7, 5), Ok(()));
        assert_eq!(storage_remove(&mut store, &memory, 7, 5), Ok(()));
        outcomes.push((store.storage().encode(), memory, counts(&store)));
    }
    for outcome in &outcomes {
        assert_eq!(outcome, &outcomes[0]);
    }
}
