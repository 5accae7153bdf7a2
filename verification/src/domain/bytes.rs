//! Little-endian integers and byte-string helpers used by the wire formats.

use vstd::prelude::*;
use vstd::slice::slice_subrange;

verus! {

/// The `count` low-order bytes of `value`, least significant first.
pub open spec fn le_bytes(value: nat, count: nat) -> Seq<u8>
    decreases count,
{
    if count == 0 {
        Seq::empty()
    } else {
        seq![(value % 256) as u8] + le_bytes(value / 256, (count - 1) as nat)
    }
}

/// The number that `bytes` holds, least significant byte first.
pub open spec fn le_value(bytes: Seq<u8>) -> nat
    decreases bytes.len(),
{
    if bytes.len() == 0 {
        0
    } else {
        bytes[0] as nat + 256 * le_value(bytes.subrange(1, bytes.len() as int))
    }
}

/// The first number that does not fit in `count` bytes.
pub open spec fn le_limit(count: nat) -> nat
    decreases count,
{
    if count == 0 {
        1
    } else {
        256 * le_limit((count - 1) as nat)
    }
}

/// The number held by the `count` bytes of `bytes` at `offset`.
pub open spec fn le_at(bytes: Seq<u8>, offset: int, count: int) -> nat {
    le_value(bytes.subrange(offset, offset + count))
}

/// The limits of the integer widths that the wire formats use.
pub proof fn lemma_le_limits()
    ensures
        le_limit(1) == 0x100,
        le_limit(2) == 0x1_0000,
        le_limit(4) == 0x1_0000_0000,
        le_limit(8) == 0x1_0000_0000_0000_0000,
        le_limit(16) == 0x1_0000_0000_0000_0000_0000_0000_0000_0000,
{
    reveal_with_fuel(le_limit, 17);
}

/// An encoding has the width that was asked for.
pub proof fn lemma_le_bytes_len(value: nat, count: nat)
    ensures
        le_bytes(value, count).len() == count,
    decreases count,
{
    if count > 0 {
        lemma_le_bytes_len(value / 256, (count - 1) as nat);
    }
}

/// The number read back from bytes is below the limit of their width.
pub proof fn lemma_le_value_bound(bytes: Seq<u8>)
    ensures
        le_value(bytes) < le_limit(bytes.len()),
    decreases bytes.len(),
{
    if bytes.len() > 0 {
        lemma_le_value_bound(bytes.subrange(1, bytes.len() as int));
    }
}

/// Decoding an encoding gives the number back, for every number that fits its width.
pub proof fn lemma_le_round_trip(value: nat, count: nat)
    requires
        value < le_limit(count),
    ensures
        le_bytes(value, count).len() == count,
        le_value(le_bytes(value, count)) == value,
    decreases count,
{
    if count > 0 {
        let rest = (count - 1) as nat;
        lemma_le_round_trip(value / 256, rest);
        let tail = le_bytes(value / 256, rest);
        let all = le_bytes(value, count);
        assert(all =~= seq![(value % 256) as u8] + tail);
        assert(all.subrange(1, all.len() as int) =~= tail);
    }
}

/// Encoding a decoded number gives the bytes back.
pub proof fn lemma_le_canonical(bytes: Seq<u8>)
    ensures
        le_bytes(le_value(bytes), bytes.len()) == bytes,
    decreases bytes.len(),
{
    if bytes.len() > 0 {
        let tail = bytes.subrange(1, bytes.len() as int);
        lemma_le_canonical(tail);
        assert(le_bytes(le_value(bytes), bytes.len()) =~= bytes);
    } else {
        assert(le_bytes(le_value(bytes), bytes.len()) =~= bytes);
    }
}

/// A number read at an offset of a concatenation is found in the part that holds it.
pub proof fn lemma_le_at_append(left: Seq<u8>, value: nat, count: nat, right: Seq<u8>)
    requires
        value < le_limit(count),
    ensures
        le_at(left + le_bytes(value, count) + right, left.len() as int, count as int) == value,
{
    lemma_le_round_trip(value, count);
    let all = left + le_bytes(value, count) + right;
    assert(all.subrange(left.len() as int, left.len() + count as int) =~= le_bytes(value, count));
}

/// Appends the low-order `count` bytes of `value`.
fn push_le(output: &mut Vec<u8>, value: u128, count: usize)
    ensures
        final(output)@ == old(output)@ + le_bytes(value as nat, count as nat),
{
    let mut rest: u128 = value;
    let mut done: usize = 0;
    let ghost start = output@;
    proof {
        assert(output@ + le_bytes(rest as nat, count as nat) =~= start + le_bytes(
            value as nat,
            count as nat,
        ));
    }
    while done < count
        invariant
            done <= count,
            output@ + le_bytes(rest as nat, (count - done) as nat) == start + le_bytes(
                value as nat,
                count as nat,
            ),
        decreases count - done,
    {
        let ghost before = output@;
        let ghost tail = le_bytes((rest / 256) as nat, (count - done - 1) as nat);
        output.push((rest % 256) as u8);
        proof {
            assert(le_bytes(rest as nat, (count - done) as nat) == seq![(rest % 256) as u8] + tail);
            assert(output@ + tail =~= before + (seq![(rest % 256) as u8] + tail));
        }
        rest = rest / 256;
        done = done + 1;
    }
    proof {
        assert(output@ =~= output@ + le_bytes(rest as nat, 0));
    }
}

/// Reads `count` bytes at `offset` as a number.
fn read_le(input: &[u8], offset: usize, count: usize) -> (value: u128)
    requires
        offset + count <= input@.len(),
        count <= 16,
    ensures
        value == le_at(input@, offset as int, count as int),
        value < le_limit(count as nat),
{
    let total: usize = input.len();
    let mut value: u128 = 0;
    let mut index: usize = count;
    let ghost all = input@.subrange(offset as int, offset + count);
    proof {
        assert(all.subrange(count as int, count as int) =~= Seq::<u8>::empty());
    }
    while index > 0
        invariant
            index <= count <= 16,
            offset + count <= total,
            total == input@.len(),
            all == input@.subrange(offset as int, offset + count),
            value == le_value(all.subrange(index as int, count as int)),
            value < le_limit((count - index) as nat),
        decreases index,
    {
        let ghost tail = all.subrange(index as int, count as int);
        index = index - 1;
        let byte: u8 = input[offset + index];
        proof {
            let next = all.subrange(index as int, count as int);
            assert(next.subrange(1, next.len() as int) =~= tail);
            assert(next[0] == byte);
            lemma_le_value_bound(next);
            lemma_limit_monotonic((count - index) as nat, 16);
            lemma_le_limits();
        }
        value = byte as u128 + 256 * value;
    }
    proof {
        assert(all.subrange(0, count as int) =~= all);
        lemma_le_value_bound(all);
    }
    value
}

proof fn lemma_limit_monotonic(small: nat, large: nat)
    requires
        small <= large,
    ensures
        le_limit(small) <= le_limit(large),
    decreases large,
{
    if small < large {
        lemma_limit_monotonic(small, (large - 1) as nat);
    }
}

/// Appends a 16-bit number.
pub fn push_u16(output: &mut Vec<u8>, value: u16)
    ensures
        final(output)@ == old(output)@ + le_bytes(value as nat, 2),
{
    push_le(output, value as u128, 2);
}

/// Appends a 32-bit number.
pub fn push_u32(output: &mut Vec<u8>, value: u32)
    ensures
        final(output)@ == old(output)@ + le_bytes(value as nat, 4),
{
    push_le(output, value as u128, 4);
}

/// Appends a 64-bit number.
pub fn push_u64(output: &mut Vec<u8>, value: u64)
    ensures
        final(output)@ == old(output)@ + le_bytes(value as nat, 8),
{
    push_le(output, value as u128, 8);
}

/// Appends a 128-bit number.
pub fn push_u128(output: &mut Vec<u8>, value: u128)
    ensures
        final(output)@ == old(output)@ + le_bytes(value as nat, 16),
{
    push_le(output, value, 16);
}

/// Reads a 16-bit number at `offset`.
pub fn read_u16(input: &[u8], offset: usize) -> (value: u16)
    requires
        offset + 2 <= input@.len(),
    ensures
        value == le_at(input@, offset as int, 2),
{
    let value: u128 = read_le(input, offset, 2);
    proof {
        lemma_le_limits();
    }
    value as u16
}

/// Reads a 32-bit number at `offset`.
pub fn read_u32(input: &[u8], offset: usize) -> (value: u32)
    requires
        offset + 4 <= input@.len(),
    ensures
        value == le_at(input@, offset as int, 4),
{
    let value: u128 = read_le(input, offset, 4);
    proof {
        lemma_le_limits();
    }
    value as u32
}

/// Reads a 64-bit number at `offset`.
pub fn read_u64(input: &[u8], offset: usize) -> (value: u64)
    requires
        offset + 8 <= input@.len(),
    ensures
        value == le_at(input@, offset as int, 8),
{
    let value: u128 = read_le(input, offset, 8);
    proof {
        lemma_le_limits();
    }
    value as u64
}

/// Reads a 128-bit number at `offset`.
pub fn read_u128(input: &[u8], offset: usize) -> (value: u128)
    requires
        offset + 16 <= input@.len(),
    ensures
        value == le_at(input@, offset as int, 16),
{
    read_le(input, offset, 16)
}

/// Compares two byte strings.
pub fn bytes_equal(left: &[u8], right: &[u8]) -> (equal: bool)
    ensures
        equal == (left@ == right@),
{
    if left.len() != right.len() {
        return false;
    }
    let mut index: usize = 0;
    while index < left.len()
        invariant
            index <= left@.len(),
            left@.len() == right@.len(),
            forall|i: int| 0 <= i < index ==> left@[i] == right@[i],
        decreases left@.len() - index,
    {
        if left[index] != right[index] {
            return false;
        }
        index = index + 1;
    }
    proof {
        assert(left@ =~= right@);
    }
    true
}

/// Whether `input` begins with `prefix`.
pub fn starts_with(input: &[u8], prefix: &[u8]) -> (found: bool)
    ensures
        found == (prefix@.len() <= input@.len() && input@.subrange(0, prefix@.len() as int)
            == prefix@),
{
    if prefix.len() > input.len() {
        return false;
    }
    bytes_equal(slice_subrange(input, 0, prefix.len()), prefix)
}

/// Appends a byte string.
pub fn push_bytes(output: &mut Vec<u8>, bytes: &[u8])
    ensures
        final(output)@ == old(output)@ + bytes@,
{
    let mut index: usize = 0;
    let ghost start = output@;
    while index < bytes.len()
        invariant
            index <= bytes@.len(),
            output@ == start + bytes@.subrange(0, index as int),
        decreases bytes@.len() - index,
    {
        output.push(bytes[index]);
        proof {
            assert(output@ =~= start + bytes@.subrange(0, index + 1));
        }
        index = index + 1;
    }
    proof {
        assert(bytes@.subrange(0, bytes@.len() as int) =~= bytes@);
    }
}

/// Copies the bytes of `input` from `start` up to `end`.
pub fn copy_range(input: &[u8], start: usize, end: usize) -> (output: Vec<u8>)
    requires
        start <= end <= input@.len(),
    ensures
        output@ == input@.subrange(start as int, end as int),
{
    let mut output: Vec<u8> = Vec::new();
    push_bytes(&mut output, slice_subrange(input, start, end));
    proof {
        assert(output@ =~= input@.subrange(start as int, end as int));
    }
    output
}

/// Where a byte stands first, or the length of a byte string without it.
pub open spec fn first_place(input: Seq<u8>, byte: u8) -> nat
    decreases input.len(),
{
    if input.len() == 0 || input[0] == byte {
        0
    } else {
        1 + first_place(input.drop_first(), byte)
    }
}

/// The first place of a byte is where it stands with no such byte in front of it.
pub proof fn lemma_first_place(input: Seq<u8>, byte: u8, place: int)
    requires
        0 <= place <= input.len(),
        forall|index: int| 0 <= index < place ==> input[index] != byte,
        place < input.len() ==> input[place] == byte,
    ensures
        first_place(input, byte) == place,
    decreases input.len(),
{
    if place > 0 {
        assert forall|index: int| 0 <= index < place - 1 implies input.drop_first()[index]
            != byte by {
            assert(input[index + 1] != byte);
        }
        lemma_first_place(input.drop_first(), byte, place - 1);
    }
}

/// Finds where a byte stands first, or the length of a byte string without it.
pub fn find_place(input: &[u8], byte: u8) -> (place: usize)
    ensures
        place == first_place(input@, byte),
        place <= input@.len(),
{
    let mut place: usize = 0;
    while place < input.len()
        invariant
            place <= input@.len(),
            forall|index: int| 0 <= index < place ==> input@[index] != byte,
        decreases input@.len() - place,
    {
        if input[place] == byte {
            proof {
                lemma_first_place(input@, byte, place as int);
            }
            return place;
        }
        place = place + 1;
    }
    proof {
        lemma_first_place(input@, byte, place as int);
    }
    place
}

/// Whether a byte string stands in another one at a place.
pub open spec fn stands_at(input: Seq<u8>, part: Seq<u8>, place: int) -> bool {
    0 <= place && place + part.len() <= input.len() && input.subrange(place, place + part.len())
        == part
}

/// Whether a byte string stands in another one.
pub open spec fn has_part(input: Seq<u8>, part: Seq<u8>) -> bool {
    exists|place: int| stands_at(input, part, place)
}

/// Whether `part` stands in `input`.
pub fn contains_part(input: &[u8], part: &[u8]) -> (found: bool)
    ensures
        found == has_part(input@, part@),
{
    if part.len() > input.len() {
        return false;
    }
    let length: usize = input.len();
    let last: usize = length - part.len();
    let mut place: usize = 0;
    while place <= last
        invariant
            place <= last,
            length == input@.len(),
            last + part@.len() == length,
            forall|earlier: int| 0 <= earlier < place ==> !stands_at(input@, part@, earlier),
        decreases last + 1 - place,
    {
        if bytes_equal(slice_subrange(input, place, place + part.len()), part) {
            proof {
                assert(stands_at(input@, part@, place as int));
            }
            return true;
        }
        if place == last {
            return false;
        }
        place = place + 1;
    }
    false
}

/// Bytes carry a number least significant first: the first one is its remainder by 256, and the
/// others are those of its quotient.
pub proof fn law_bytes_are_least_significant_first(value: nat, count: nat)
    requires
        count > 0,
    ensures
        le_bytes(value, count).len() == count,
        le_bytes(value, count)[0] == value % 256,
        le_bytes(value, count).subrange(1, count as int) == le_bytes(
            value / 256,
            (count - 1) as nat,
        ),
{
    lemma_le_bytes_len(value, count);
    lemma_le_bytes_len(value / 256, (count - 1) as nat);
    assert(le_bytes(value, count).subrange(1, count as int) =~= le_bytes(
        value / 256,
        (count - 1) as nat,
    ));
}

} // verus!
