//! Geometry of a mapped region: a fixed header followed by one ring.

use vstd::prelude::*;

verus! {

/// Boundary to which every record is aligned.
pub const RECORD_ALIGNMENT: usize = 8;

/// Largest ring whose cursor distances are unambiguous.
pub const MAX_RING_CAPACITY: u32 = 0x8000_0000;

/// Largest payload of one record.
pub const MAX_INLINE_MESSAGE_SIZE: u32 = 0x0100_0000;

/// `length` rounded up to the next record boundary.
pub open spec fn aligned(length: int) -> int {
    (length + 7) / 8 * 8
}

/// Whether a ring may have the given capacity.
pub open spec fn valid_capacity(capacity: int) -> bool {
    0 < capacity <= MAX_RING_CAPACITY && capacity % 8 == 0
}

/// Returns the aligned size of a record with the given payload, if it fits 32 bits.
pub fn align_record(payload_length: u32) -> (record_length: Option<u32>)
    ensures
        match record_length {
            Some(length) => length == aligned(24 + payload_length),
            None => aligned(24 + payload_length) > u32::MAX,
        },
{
    let unaligned: u64 = 24 + payload_length as u64;
    let length: u64 = (unaligned + 7) / 8 * 8;
    if length <= u32::MAX as u64 {
        Some(length as u32)
    } else {
        None
    }
}

/// Returns whether a ring may have the given capacity.
pub fn capacity_is_valid(capacity: u32) -> (answer: bool)
    ensures
        answer == valid_capacity(capacity as int),
{
    capacity != 0 && capacity <= MAX_RING_CAPACITY && capacity % 8 == 0
}

/// A record is aligned to the next boundary at or behind its end, and to no later one.
pub proof fn law_records_are_aligned_tightly(length: int)
    requires
        0 <= length,
    ensures
        aligned(length) % RECORD_ALIGNMENT as int == 0,
        length <= aligned(length) < length + RECORD_ALIGNMENT,
{
}

/// A ring may have every capacity that is a positive number of records' boundaries and that leaves
/// half of the cursor range between a full ring and an empty one.
pub proof fn law_capacities_are_whole_boundaries(capacity: int)
    ensures
        valid_capacity(capacity) <==> exists|boundaries: int|
            capacity == #[trigger] (boundaries * 8) && 0 < boundaries <= 0x1000_0000,
{
    if valid_capacity(capacity) {
        assert(capacity == (capacity / 8) * 8);
    }
}

} // verus!
