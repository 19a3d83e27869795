//! What the ledger settles after a run: it measures the serialized storage
//! before and after, and holds the change against what the caller declared.

use crate::codec::{compact_len, entries_payload};
use crate::storage::{decoding_of, StorageMap};
use vstd::prelude::*;

verus! {

/// What the ledger does with the caller's balance after a run.
#[derive(Clone, Copy, Debug, PartialEq, Eq, Structural)]
pub enum Settlement {
    /// The storage kept its size: nothing moves.
    Unchanged,
    /// The storage shrank by this many bytes, as declared or by more: that
    /// much is released.
    Unreserve(u32),
    /// The storage grew by this many bytes, within what was declared: that
    /// much is reserved.
    Reserve(u32),
    /// The change is above what was declared: that much is taken, and the
    /// new storage is not kept.
    Slash(u32),
}

/// The settlement for a storage that changed by `delta` bytes where the
/// caller declared `expected`. A change above the declared one is slashed
/// by the change taken as an unsigned number of 32 bits.
pub open spec fn settlement_of(delta: int, expected: int) -> Settlement {
    if delta == 0 {
        Settlement::Unchanged
    } else if delta <= expected && delta < 0 {
        Settlement::Unreserve((-delta) as u32)
    } else if delta <= expected {
        Settlement::Reserve(delta as u32)
    } else if delta >= 0 {
        Settlement::Slash(delta as u32)
    } else {
        Settlement::Slash((delta + 0x1_0000_0000) as u32)
    }
}

/// The settlement for a storage that changed by `delta` bytes where the
/// caller declared `expected`.
pub fn settle(delta: i32, expected: i32) -> (s: Settlement)
    ensures
        s == settlement_of(delta as int, expected as int),
{
    if delta == 0 {
        Settlement::Unchanged
    } else if delta <= expected && delta < 0 {
        Settlement::Unreserve((0 - delta as i64) as u32)
    } else if delta <= expected {
        Settlement::Reserve(delta as u32)
    } else if delta >= 0 {
        Settlement::Slash(delta as u32)
    } else {
        Settlement::Slash((delta as i64 + 0x1_0000_0000) as u32)
    }
}

/// The change from `old_size` to `new_size`, if it can be written with 32
/// bits and a sign.
pub fn size_delta(old_size: usize, new_size: usize) -> (r: Option<i32>)
    ensures
        match r {
            Some(delta) => delta == new_size - old_size,
            None => new_size - old_size < i32::MIN || new_size - old_size > i32::MAX,
        },
{
    if new_size >= old_size {
        let grown = new_size - old_size;
        if grown <= 0x7fff_ffff {
            Some(grown as i32)
        } else {
            None
        }
    } else {
        let shrunk = old_size - new_size;
        if shrunk <= 0x8000_0000 {
            Some((0 - shrunk as i64) as i32)
        } else {
            None
        }
    }
}

/// The size of a serialized storage map as the ledger counts it: the bytes
/// of its entries, without the number of entries in front. `None` for bytes
/// that are not the serialized form of a storage map.
pub fn storage_size(encoded: &[u8]) -> (r: Option<usize>)
    ensures
        match decoding_of(encoded@) {
            Some(es) => r == Some(entries_payload(es).len() as usize),
            None => r is None,
        },
{
    match StorageMap::decode(encoded) {
        Ok(map) => {
            let count = map.len();
            let prefix = compact_len(count as u32);
            Some(encoded.len() - prefix)
        },
        Err(_) => None,
    }
}

} // verus!
