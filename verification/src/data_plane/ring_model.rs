//! What a ring holds: the records that its consumer will read, in order.
//!
//! A ring state is read as a list of records. Publishing a record appends it to the list, and a
//! read takes the first one away, so records come out in the order in which they were published.

use vstd::prelude::*;

use crate::data_plane::fragment::Fragment;
use crate::data_plane::layout::valid_capacity;
use crate::data_plane::record::{
    decoded_header, law_header_round_trip, lemma_decoded_header_wf, padding_header, record_size,
    ParsedRecordHeader, RecordFlags, RecordKind, RECORD_PREFIX_SIZE,
};
use crate::data_plane::ring_core::{
    cursor_after, cursor_distance, write_plan, RingSnapshot, WritePlan, CURSOR_RANGE, PREFIX,
};
use crate::data_plane::ring_memory::{
    accesses_added, consume_allowed, overwritten, publish_allowed, write_range, MemoryOperation,
    RingAccess, RingImage,
};
use crate::data_plane::ring_reader::{
    consumption, contiguous_length, next_item, reader_report, receipt_parts, CommittedItem,
    ConsumeOutcome, ReadReceipt,
};
use crate::data_plane::ring_writer::{
    after_plan, padding_bytes, planned_batch, planned_record, sequence_after, staged_writes,
    unpublished, zeros,
};
use crate::domain::error::{ErrorCode, ErrorReport};
use crate::domain::types::{MessageId, Sequence};

verus! {

broadcast use receipt_parts;

/// One record as its reader sees it.
pub struct RingRecord {
    /// Decoded prefix.
    pub header: ParsedRecordHeader,
    /// Exact payload.
    pub payload: Seq<u8>,
}

/// What stands at the read offset of a ring.
pub enum RingStep {
    /// Nothing is committed.
    Empty,
    /// Bytes to skip.
    Skip(int),
    /// A record and the bytes that it occupies.
    Take(int, RingRecord),
    /// Bytes that no reader accepts.
    Malformed,
}

/// The offset that follows `offset` by at most one turn of the ring.
pub open spec fn wrapped(capacity: int, offset: int) -> int {
    if offset >= capacity {
        offset - capacity
    } else {
        offset
    }
}

/// The step at a physical offset with `used` committed bytes.
#[verifier::opaque]
pub open spec fn step_at(
    bytes: Seq<u8>,
    offset: int,
    used: int,
    maximum_inline_message: u32,
    expected: Sequence,
) -> RingStep {
    let tail = bytes.len() - offset;
    let contiguous = if tail < used {
        tail
    } else {
        used
    };
    if used == 0 {
        RingStep::Empty
    } else if tail < PREFIX && tail <= used {
        RingStep::Skip(tail)
    } else if contiguous < PREFIX {
        RingStep::Malformed
    } else {
        match decoded_header(bytes.subrange(offset, offset + contiguous), maximum_inline_message) {
            Err(_) => RingStep::Malformed,
            Ok(header) => if header.record_length > contiguous {
                RingStep::Malformed
            } else if header.kind is Padding {
                RingStep::Skip(header.record_length as int)
            } else if header.sequence != expected {
                RingStep::Malformed
            } else {
                RingStep::Take(
                    header.record_length as int,
                    RingRecord {
                        header,
                        payload: bytes.subrange(offset, offset + contiguous).subrange(
                            RECORD_PREFIX_SIZE as int,
                            RECORD_PREFIX_SIZE + header.payload_length,
                        ),
                    },
                )
            },
        }
    }
}

/// The records from a physical offset on, or `None` where a reader would reject the ring.
pub open spec fn records_at(
    bytes: Seq<u8>,
    offset: int,
    used: int,
    maximum_inline_message: u32,
    expected: Sequence,
) -> Option<Seq<RingRecord>>
    decreases used,
{
    match step_at(bytes, offset, used, maximum_inline_message, expected) {
        RingStep::Empty => Some(Seq::empty()),
        RingStep::Skip(length) => if 0 < length <= used {
            records_at(
                bytes,
                wrapped(bytes.len() as int, offset + length),
                used - length,
                maximum_inline_message,
                expected,
            )
        } else {
            None
        },
        RingStep::Take(length, record) => if 0 < length <= used {
            match records_at(
                bytes,
                wrapped(bytes.len() as int, offset + length),
                used - length,
                maximum_inline_message,
                expected.next(),
            ) {
                Some(rest) => Some(seq![record] + rest),
                None => None,
            }
        } else {
            None
        },
        RingStep::Malformed => None,
    }
}

/// The bytes and cursors of a ring.
pub struct RingModel {
    /// Ring bytes.
    pub bytes: Seq<u8>,
    /// Number of ring bytes.
    pub capacity: u32,
    /// Cursor behind the last committed byte.
    pub producer: u32,
    /// Cursor of the first committed byte.
    pub consumer: u32,
}

impl View for RingImage {
    type V = RingModel;

    open spec fn view(&self) -> RingModel {
        RingModel {
            bytes: self.bytes@,
            capacity: self.capacity,
            producer: self.producer,
            consumer: self.consumer,
        }
    }
}

impl RingModel {
    /// Whether the capacity is valid and no more bytes are committed than the ring holds.
    pub open spec fn wf(self) -> bool {
        &&& valid_capacity(self.capacity as int)
        &&& self.bytes.len() == self.capacity
        &&& cursor_distance(self.consumer, self.producer) <= self.capacity
    }

    /// Whether physical offsets follow the cursors: either a whole number of rings fits the cursor
    /// range, or the cursors do not wrap within the next turn of the ring.
    pub open spec fn cursors_are_linear(self) -> bool {
        CURSOR_RANGE as int % self.capacity as int == 0 || self.consumer + self.capacity
            < CURSOR_RANGE
    }

    /// The snapshot of the ring's cursors.
    pub open spec fn snapshot(self) -> RingSnapshot {
        RingSnapshot {
            capacity: self.capacity,
            producer: self.producer,
            consumer: self.consumer,
            used: cursor_distance(self.consumer, self.producer),
        }
    }

    /// The ring after one access. An access that is not in order changes nothing.
    pub open spec fn apply(self, operation: MemoryOperation) -> RingModel {
        match operation {
            MemoryOperation::Write(cursor, source) => match write_range(
                self.capacity,
                self.producer,
                self.consumer,
                cursor,
                source.len() as int,
            ) {
                Ok(start) => RingModel {
                    bytes: overwritten(self.bytes, start as int, source),
                    ..self
                },
                Err(_) => self,
            },
            MemoryOperation::Publish(cursor) => if publish_allowed(
                self.capacity,
                self.producer,
                self.consumer,
                cursor,
            ) {
                RingModel { producer: cursor, ..self }
            } else {
                self
            },
            MemoryOperation::Consume(cursor) => if consume_allowed(
                self.capacity,
                self.producer,
                self.consumer,
                cursor,
            ) {
                RingModel { consumer: cursor, ..self }
            } else {
                self
            },
        }
    }

    /// The ring after several accesses.
    pub open spec fn apply_all(self, operations: Seq<MemoryOperation>) -> RingModel
        decreases operations.len(),
    {
        if operations.len() == 0 {
            self
        } else {
            self.apply_all(operations.drop_last()).apply(operations.last())
        }
    }

    /// The records that the ring holds for a reader that expects the given sequence.
    pub open spec fn records(self, maximum_inline_message: u32, expected: Sequence) -> Option<
        Seq<RingRecord>,
    > {
        records_at(
            self.bytes,
            self.consumer as int % self.capacity as int,
            cursor_distance(self.consumer, self.producer) as int,
            maximum_inline_message,
            expected,
        )
    }
}

/// Headers are decoded from the 24 prefix bytes alone.
proof fn lemma_decoded_header_prefix(left: Seq<u8>, right: Seq<u8>, maximum_inline_message: u32)
    requires
        left.len() >= RECORD_PREFIX_SIZE,
        right.len() >= RECORD_PREFIX_SIZE,
        left.subrange(0, RECORD_PREFIX_SIZE as int) == right.subrange(0, RECORD_PREFIX_SIZE as int),
    ensures
        decoded_header(left, maximum_inline_message) == decoded_header(
            right,
            maximum_inline_message,
        ),
{
    let common = left.subrange(0, RECORD_PREFIX_SIZE as int);
    assert(left.subrange(0, 4) =~= common.subrange(0, 4));
    assert(right.subrange(0, 4) =~= common.subrange(0, 4));
    assert(left.subrange(4, 8) =~= common.subrange(4, 8));
    assert(right.subrange(4, 8) =~= common.subrange(4, 8));
    assert(left.subrange(8, 16) =~= common.subrange(8, 16));
    assert(right.subrange(8, 16) =~= common.subrange(8, 16));
    assert(left.subrange(16, 20) =~= common.subrange(16, 20));
    assert(right.subrange(16, 20) =~= common.subrange(16, 20));
    assert(left.subrange(20, 22) =~= common.subrange(20, 22));
    assert(right.subrange(20, 22) =~= common.subrange(20, 22));
    assert(left.subrange(22, 24) =~= common.subrange(22, 24));
    assert(right.subrange(22, 24) =~= common.subrange(22, 24));
}

/// Whether a physical offset is one of the `used` bytes from `offset` on.
spec fn covered(ring: int, offset: int, used: int, at: int) -> bool {
    0 <= at < ring && (offset <= at < offset + used || at < offset + used - ring)
}

/// Whether two rings agree on the `used` bytes from `offset` on.
spec fn agree(left: Seq<u8>, right: Seq<u8>, offset: int, used: int) -> bool {
    &&& left.len() == right.len()
    &&& forall|at: int|
        covered(left.len() as int, offset, used, at) ==> #[trigger] left[at] == right[at]
}

/// More committed bytes behind a step do not change it.
proof fn lemma_step_is_stable(
    bytes: Seq<u8>,
    grown: Seq<u8>,
    offset: int,
    used: int,
    extra: int,
    maximum_inline_message: u32,
    expected: Sequence,
)
    requires
        0 <= offset < bytes.len(),
        0 < used,
        0 <= extra,
        used + extra <= bytes.len(),
        agree(bytes, grown, offset, used),
        step_at(bytes, offset, used, maximum_inline_message, expected) !is Malformed,
    ensures
        step_at(grown, offset, used + extra, maximum_inline_message, expected) == step_at(
            bytes,
            offset,
            used,
            maximum_inline_message,
            expected,
        ),
        match step_at(bytes, offset, used, maximum_inline_message, expected) {
            RingStep::Skip(length) => 0 < length <= used && offset + length <= bytes.len(),
            RingStep::Take(length, _) => 0 < length <= used && offset + length <= bytes.len(),
            _ => false,
        },
{
    reveal(step_at);
    let tail = bytes.len() - offset;
    if tail < PREFIX && tail <= used {
    } else {
        let before = if tail < used {
            tail
        } else {
            used
        };
        let after = if tail < used + extra {
            tail
        } else {
            used + extra
        };
        let old_piece = bytes.subrange(offset, offset + before);
        let new_piece = grown.subrange(offset, offset + after);
        assert forall|i: int| 0 <= i < before implies old_piece[i] == #[trigger] new_piece[i] by {
            assert(bytes[offset + i] == grown[offset + i]);
        }
        assert(old_piece.subrange(0, 24) =~= new_piece.subrange(0, 24));
        lemma_decoded_header_prefix(old_piece, new_piece, maximum_inline_message);
        lemma_decoded_header_wf(old_piece, maximum_inline_message);
        match decoded_header(old_piece, maximum_inline_message) {
            Ok(header) => {
                assert(old_piece.subrange(24, 24 + header.payload_length as int)
                    =~= new_piece.subrange(24, 24 + header.payload_length as int));
            },
            Err(_) => {},
        }
    }
}

/// The records of a ring that grew are the old records followed by those of the new bytes.
proof fn lemma_records_extend(
    bytes: Seq<u8>,
    grown: Seq<u8>,
    offset: int,
    used: int,
    extra: int,
    maximum_inline_message: u32,
    expected: Sequence,
)
    requires
        0 <= offset < bytes.len(),
        0 <= used,
        0 <= extra,
        used + extra <= bytes.len(),
        agree(bytes, grown, offset, used),
        records_at(bytes, offset, used, maximum_inline_message, expected) is Some,
    ensures
        ({
            let known = records_at(bytes, offset, used, maximum_inline_message, expected)->0;
            records_at(grown, offset, used + extra, maximum_inline_message, expected) == (
            match records_at(
                grown,
                wrapped(bytes.len() as int, offset + used),
                extra,
                maximum_inline_message,
                sequence_after(expected, known.len()),
            ) {
                Some(fresh) => Some(known + fresh),
                None => None,
            })
        }),
    decreases used,
{
    let ring = bytes.len() as int;
    if used == 0 {
        reveal(step_at);
        match records_at(grown, offset, extra, maximum_inline_message, expected) {
            Some(fresh) => {
                assert(Seq::<RingRecord>::empty() + fresh =~= fresh);
            },
            None => {},
        }
    } else {
        lemma_step_is_stable(
            bytes,
            grown,
            offset,
            used,
            extra,
            maximum_inline_message,
            expected,
        );
        match step_at(bytes, offset, used, maximum_inline_message, expected) {
            RingStep::Skip(length) => {
                let next = wrapped(ring, offset + length);
                lemma_agree_onward(bytes, grown, offset, used, length);
                lemma_records_extend(
                    bytes,
                    grown,
                    next,
                    used - length,
                    extra,
                    maximum_inline_message,
                    expected,
                );
                assert(wrapped(ring, next + (used - length)) == wrapped(ring, offset + used));
            },
            RingStep::Take(length, record) => {
                let next = wrapped(ring, offset + length);
                lemma_agree_onward(bytes, grown, offset, used, length);
                lemma_records_extend(
                    bytes,
                    grown,
                    next,
                    used - length,
                    extra,
                    maximum_inline_message,
                    expected.next(),
                );
                assert(wrapped(ring, next + (used - length)) == wrapped(ring, offset + used));
                let rest = records_at(
                    bytes,
                    next,
                    used - length,
                    maximum_inline_message,
                    expected.next(),
                )->0;
                assert(sequence_after(expected, (seq![record] + rest).len()) == sequence_after(
                    expected.next(),
                    rest.len(),
                ));
                match records_at(
                    grown,
                    wrapped(ring, offset + used),
                    extra,
                    maximum_inline_message,
                    sequence_after(expected.next(), rest.len()),
                ) {
                    Some(fresh) => {
                        assert(seq![record] + (rest + fresh) =~= (seq![record] + rest) + fresh);
                    },
                    None => {},
                }
            },
            _ => {},
        }
    }
}

proof fn lemma_agree_onward(
    bytes: Seq<u8>,
    grown: Seq<u8>,
    offset: int,
    used: int,
    length: int,
)
    requires
        0 <= offset < bytes.len(),
        0 <= length <= used <= bytes.len(),
        offset + length <= bytes.len(),
        agree(bytes, grown, offset, used),
    ensures
        agree(bytes, grown, wrapped(bytes.len() as int, offset + length), used - length),
{
    let ring = bytes.len() as int;
    let next = wrapped(ring, offset + length);
    assert forall|at: int| covered(ring, next, used - length, at) implies #[trigger] bytes[at]
        == grown[at] by {
        assert(covered(ring, offset, used, at));
    }
}

/// A ring region that holds exactly one encoded record reads as that record.
proof fn lemma_single_record(
    bytes: Seq<u8>,
    offset: int,
    header: ParsedRecordHeader,
    payload: Seq<u8>,
    maximum_inline_message: u32,
)
    requires
        0 <= offset,
        offset + header.record_length <= bytes.len(),
        header.wf(),
        header.kind !is Padding,
        payload.len() == header.payload_length,
        payload.len() <= maximum_inline_message,
        bytes.subrange(offset, offset + header.record_length) == header.record_bytes(payload),
    ensures
        records_at(
            bytes,
            offset,
            header.record_length as int,
            maximum_inline_message,
            header.sequence,
        ) == Some(seq![RingRecord { header, payload }]),
{
    let length = header.record_length as int;
    let piece = header.record_bytes(payload);
    header.lemma_prefix_len();
    header.lemma_record_len(payload);
    let rest = payload + zeros((length - RECORD_PREFIX_SIZE - payload.len()) as nat);
    assert(piece =~= header.prefix_bytes() + rest);
    law_header_round_trip(header, rest, maximum_inline_message);
    assert(piece.subrange(24, 24 + payload.len() as int) =~= payload);
    let record = RingRecord { header, payload };
    assert(step_at(bytes, offset, length, maximum_inline_message, header.sequence)
        == RingStep::Take(length, record)) by {
        reveal(step_at);
    }
    reveal(step_at);
    assert(records_at(
        bytes,
        wrapped(bytes.len() as int, offset + length),
        0,
        maximum_inline_message,
        header.sequence.next(),
    ) == Some(Seq::<RingRecord>::empty()));
    assert(seq![record] + Seq::<RingRecord>::empty() =~= seq![record]);
}

/// Padding up to the ring end is skipped.
proof fn lemma_padding_is_skipped(
    bytes: Seq<u8>,
    offset: int,
    padding: u32,
    sequence: Sequence,
    extra: int,
    maximum_inline_message: u32,
    expected: Sequence,
)
    requires
        0 <= offset,
        0 < padding,
        offset + padding == bytes.len(),
        padding % 8 == 0,
        0 <= extra,
        bytes.subrange(offset, offset + padding) == padding_bytes(padding, sequence),
    ensures
        records_at(bytes, offset, padding + extra, maximum_inline_message, expected) == records_at(
            bytes,
            0,
            extra,
            maximum_inline_message,
            expected,
        ),
{
    if padding >= PREFIX {
        let header = padding_header(padding, sequence);
        let payload = zeros((padding - PREFIX) as nat);
        header.lemma_prefix_len();
        let rest = payload + zeros((padding - RECORD_PREFIX_SIZE - payload.len()) as nat);
        assert(header.record_bytes(payload) =~= header.prefix_bytes() + rest);
        law_header_round_trip(header, rest, maximum_inline_message);
    }
    assert(step_at(bytes, offset, padding + extra, maximum_inline_message, expected)
        == RingStep::Skip(padding as int)) by {
        reveal(step_at);
    }
}

/// Cursors within one turn of the ring stand at consecutive physical offsets.
proof fn lemma_linear_offset(model: RingModel, distance: u32)
    requires
        model.wf(),
        model.cursors_are_linear(),
        distance <= model.capacity,
    ensures
        cursor_after(model.consumer, distance) as int % model.capacity as int == wrapped(
            model.capacity as int,
            model.consumer as int % model.capacity as int + distance,
        ) % model.capacity as int,
        0 <= model.consumer as int % model.capacity as int,
        (model.consumer as int % model.capacity as int) < model.capacity,
        distance < model.capacity ==> cursor_after(model.consumer, distance) as int
            % model.capacity as int == wrapped(
            model.capacity as int,
            model.consumer as int % model.capacity as int + distance,
        ),
        distance == model.capacity ==> cursor_after(model.consumer, distance) as int
            % model.capacity as int == model.consumer as int % model.capacity as int,
{
    let ring = model.capacity as int;
    let base = model.consumer as int;
    let reached = base + distance;
    let offset = base % ring;
    vstd::arithmetic::div_mod::lemma_mod_bound(base, ring);
    vstd::arithmetic::div_mod::lemma_fundamental_div_mod(base, ring);
    let turns = base / ring;
    // The unwrapped sum has the wrapped offset.
    if offset + distance >= ring {
        assert(reached == (turns + 1) * ring + (offset + distance - ring)) by (nonlinear_arith)
            requires
                reached == base + distance,
                base == ring * turns + offset,
        ;
        if offset + distance - ring < ring {
            vstd::arithmetic::div_mod::lemma_fundamental_div_mod_converse(
                reached,
                ring,
                turns + 1,
                offset + distance - ring,
            );
        }
    } else {
        assert(reached == turns * ring + (offset + distance)) by (nonlinear_arith)
            requires
                reached == base + distance,
                base == ring * turns + offset,
        ;
        vstd::arithmetic::div_mod::lemma_fundamental_div_mod_converse(
            reached,
            ring,
            turns,
            offset + distance,
        );
    }
    if reached >= CURSOR_RANGE {
        let range = CURSOR_RANGE as int;
        vstd::arithmetic::div_mod::lemma_fundamental_div_mod(range, ring);
        let whole = range / ring;
        vstd::arithmetic::div_mod::lemma_mod_multiples_vanish(-whole, reached, ring);
        assert(ring * (-whole) + reached == reached - range) by (nonlinear_arith)
            requires
                range == ring * whole,
        ;
    }
    let target = wrapped(ring, offset + distance);
    vstd::arithmetic::div_mod::lemma_small_mod(target as nat, ring as nat);
}

/// A write at the end of the committed bytes lands at the next physical offset and keeps every
/// committed byte.
proof fn lemma_write_extends(model: RingModel, distance: u32, source: Seq<u8>)
    requires
        model.wf(),
        model.cursors_are_linear(),
        cursor_distance(model.consumer, model.producer) <= distance,
        source.len() > 0,
        distance + source.len() <= model.capacity,
        wrapped(
            model.capacity as int,
            model.consumer as int % model.capacity as int + distance,
        ) + source.len() <= model.capacity,
    ensures
        ({
            let offset = model.consumer as int % model.capacity as int;
            let start = wrapped(model.capacity as int, offset + distance);
            let written = model.apply(
                MemoryOperation::Write(cursor_after(model.consumer, distance), source),
            );
            &&& written.wf()
            &&& written == (RingModel { bytes: written.bytes, ..model })
            &&& written.bytes == overwritten(model.bytes, start, source)
            &&& written.bytes.subrange(start, start + source.len()) == source
            &&& agree(model.bytes, written.bytes, offset, distance as int)
        }),
{
    let ring = model.capacity as int;
    let offset = model.consumer as int % ring;
    let start = wrapped(ring, offset + distance);
    let cursor = cursor_after(model.consumer, distance);
    lemma_linear_offset(model, distance);
    let used = cursor_distance(model.consumer, model.producer);
    assert(cursor_distance(model.producer, cursor) == distance - used);
    let written = model.apply(MemoryOperation::Write(cursor, source));
    assert(written.bytes == overwritten(model.bytes, start, source));
    assert(written.bytes.subrange(start, start + source.len()) =~= source);
    assert forall|at: int| covered(ring, offset, distance as int, at) implies
        #[trigger] model.bytes[at] == written.bytes[at] by {
        assert(!(start <= at < start + source.len()));
    }
}

/// Rings that agree with a third one agree with each other on what both cover.
proof fn lemma_agree_through(
    first: Seq<u8>,
    second: Seq<u8>,
    third: Seq<u8>,
    offset: int,
    used: int,
    more: int,
)
    requires
        used <= more,
        agree(first, second, offset, used),
        agree(second, third, offset, more),
    ensures
        agree(first, third, offset, used),
{
    let ring = first.len() as int;
    assert forall|at: int| covered(ring, offset, used, at) implies #[trigger] first[at]
        == third[at] by {
        assert(covered(ring, offset, more, at));
        assert(second[at] == third[at]);
    }
}

/// The snapshot of a ring once `at` bytes are committed.
spec fn committed_through(model: RingModel, at: u32) -> RingSnapshot {
    RingSnapshot {
        capacity: model.capacity,
        producer: cursor_after(model.consumer, at),
        consumer: model.consumer,
        used: at,
    }
}

/// Accesses made one after the other.
proof fn lemma_apply_all_append(
    model: RingModel,
    first: Seq<MemoryOperation>,
    second: Seq<MemoryOperation>,
)
    ensures
        model.apply_all(first + second) == model.apply_all(first).apply_all(second),
    decreases second.len(),
{
    if second.len() == 0 {
        assert(first + second =~= first);
    } else {
        assert((first + second).drop_last() =~= first + second.drop_last());
        lemma_apply_all_append(model, first, second.drop_last());
    }
}

/// The writes of one planned record, seen as bytes at consecutive offsets.
#[verifier::spinoff_prover]
#[verifier::rlimit(100)]
proof fn lemma_staged_bytes(
    model: RingModel,
    at: u32,
    plan: WritePlan,
    header: ParsedRecordHeader,
    payload: Seq<u8>,
)
    requires
        model.wf(),
        model.cursors_are_linear(),
        cursor_distance(model.consumer, model.producer) <= at < model.capacity,
        header.wf(),
        payload.len() == header.payload_length,
        write_plan(committed_through(model, at), header.record_length) == Ok::<
            WritePlan,
            ErrorReport,
        >(plan),
    ensures
        ({
            let ring = model.capacity as int;
            let offset = model.consumer as int % ring;
            let start = wrapped(ring, offset + at);
            let written = model.apply_all(staged_writes(plan, header, payload));
            let record_start = wrapped(ring, offset + at + plan.padding_length);
            &&& written.wf()
            &&& written == (RingModel { bytes: written.bytes, ..model })
            &&& agree(model.bytes, written.bytes, offset, at as int)
            &&& at + plan.padding_length + header.record_length <= ring
            &&& record_start + header.record_length <= ring
            &&& written.bytes.subrange(record_start, record_start + header.record_length)
                == header.record_bytes(payload)
            &&& plan.padding_length > 0 ==> start + plan.padding_length == ring && record_start
                == 0 && written.bytes.subrange(start, ring) == padding_bytes(
                plan.padding_length,
                header.sequence,
            )
        }),
{
    let ring = model.capacity as int;
    let offset = model.consumer as int % ring;
    let start = wrapped(ring, offset + at);
    let padding = plan.padding_length;
    let snapshot = committed_through(model, at);
    lemma_linear_offset(model, at);
    crate::data_plane::ring_core::law_plans_stay_in_free_space(snapshot, header.record_length);
    assert(plan.start_cursor as int % ring == start);
    header.lemma_record_len(payload);
    let record = header.record_bytes(payload);
    let record_start = wrapped(ring, offset + at + padding);
    let last = MemoryOperation::Write(cursor_after(plan.start_cursor, padding), record);
    assert(cursor_after(plan.start_cursor, padding) == cursor_after(
        model.consumer,
        (at + padding) as u32,
    ));
    reveal_with_fuel(RingModel::apply_all, 3);
    let writes = staged_writes(plan, header, payload);
    if padding == 0 {
        lemma_write_extends(model, at, record);
        assert(writes.drop_last() =~= Seq::<MemoryOperation>::empty());
    } else {
        let filler = padding_bytes(padding, header.sequence);
        let first = MemoryOperation::Write(plan.start_cursor, filler);
        lemma_padding_len(padding, header.sequence);
        lemma_write_extends(model, at, filler);
        let padded = model.apply(first);
        lemma_write_extends(padded, (at + padding) as u32, record);
        assert(writes.drop_last() =~= seq![first]);
        assert(writes.drop_last().drop_last() =~= Seq::<MemoryOperation>::empty());
        let written = padded.apply(last);
        assert(written.bytes.subrange(start, ring) =~= filler) by {
            assert forall|i: int| 0 <= i < padding implies #[trigger] written.bytes[start + i]
                == filler[i] by {
                assert(covered(ring, offset, at + padding, start + i));
                assert(padded.bytes[start + i] == written.bytes[start + i]);
                assert(padded.bytes.subrange(start, start + padding)[i] == filler[i]);
            }
        }
        lemma_agree_through(model.bytes, padded.bytes, written.bytes, offset, at as int, at + padding);
    }
}

/// The writes of one planned record read as that record.
#[verifier::spinoff_prover]
#[verifier::rlimit(100)]
proof fn lemma_staged_record(
    model: RingModel,
    at: u32,
    plan: WritePlan,
    header: ParsedRecordHeader,
    payload: Seq<u8>,
    maximum_inline_message: u32,
)
    requires
        model.wf(),
        model.cursors_are_linear(),
        cursor_distance(model.consumer, model.producer) <= at < model.capacity,
        header.wf(),
        header.kind !is Padding,
        payload.len() == header.payload_length,
        payload.len() <= maximum_inline_message,
        model.consumer % 8 == 0,
        at % 8 == 0,
        write_plan(committed_through(model, at), header.record_length) == Ok::<
            WritePlan,
            ErrorReport,
        >(plan),
    ensures
        ({
            let ring = model.capacity as int;
            let offset = model.consumer as int % ring;
            let written = model.apply_all(staged_writes(plan, header, payload));
            &&& written.wf()
            &&& written == (RingModel { bytes: written.bytes, ..model })
            &&& agree(model.bytes, written.bytes, offset, at as int)
            &&& at + plan.padding_length + header.record_length <= ring
            &&& plan.padding_length % 8 == 0
            &&& records_at(
                written.bytes,
                wrapped(ring, offset + at),
                plan.padding_length + header.record_length,
                maximum_inline_message,
                header.sequence,
            ) == Some(seq![RingRecord { header, payload }])
        }),
{
    let ring = model.capacity as int;
    let offset = model.consumer as int % ring;
    let start = wrapped(ring, offset + at);
    let written = model.apply_all(staged_writes(plan, header, payload));
    lemma_staged_bytes(model, at, plan, header, payload);
    lemma_linear_offset(model, at);
    lemma_single_record(
        written.bytes,
        wrapped(ring, offset + at + plan.padding_length),
        header,
        payload,
        maximum_inline_message,
    );
    lemma_offset_alignment(model);
    if plan.padding_length > 0 {
        lemma_padding_is_skipped(
            written.bytes,
            start,
            plan.padding_length,
            header.sequence,
            header.record_length as int,
            maximum_inline_message,
            header.sequence,
        );
    }
}

/// What a planned record is.
proof fn lemma_planned(
    snapshot: RingSnapshot,
    message_id: MessageId,
    sequence: Sequence,
    kind: RecordKind,
    flags: RecordFlags,
    payload: Seq<u8>,
    maximum_inline_message: u32,
)
    requires
        snapshot.wf(),
        kind.wf(),
        message_id@ != 0,
        payload.len() <= maximum_inline_message,
    ensures
        planned_record(
            snapshot,
            message_id,
            sequence,
            kind,
            flags,
            payload,
        ) matches Ok((header, plan)) ==> {
            let step = plan.padding_length + header.record_length;
            &&& header.wf()
            &&& header.kind !is Padding
            &&& header.sequence == sequence
            &&& header == (ParsedRecordHeader {
                record_length: record_size(payload.len() as int) as u32,
                payload_length: payload.len() as u32,
                message_id: Some(message_id),
                sequence,
                kind,
                flags,
            })
            &&& header.payload_length == payload.len()
            &&& write_plan(snapshot, header.record_length) == Ok::<WritePlan, ErrorReport>(plan)
            &&& snapshot.used < snapshot.capacity
            &&& plan.record_length == header.record_length
            &&& header.record_length % 8 == 0
            &&& snapshot.used + step <= snapshot.capacity
            &&& plan.publish_cursor == cursor_after(snapshot.producer, step as u32)
        },
{
}

/// Publishing behind freshly written bytes adds their records to what the ring holds.
proof fn lemma_published(
    model: RingModel,
    bytes: Seq<u8>,
    step: u32,
    maximum_inline_message: u32,
    expected: Sequence,
    fresh: Seq<RingRecord>,
)
    requires
        model.wf(),
        model.records(maximum_inline_message, expected) is Some,
        cursor_distance(model.consumer, model.producer) + step <= model.capacity,
        agree(
            model.bytes,
            bytes,
            model.consumer as int % model.capacity as int,
            cursor_distance(model.consumer, model.producer) as int,
        ),
        records_at(
            bytes,
            wrapped(
                model.capacity as int,
                model.consumer as int % model.capacity as int + cursor_distance(
                    model.consumer,
                    model.producer,
                ),
            ),
            step as int,
            maximum_inline_message,
            sequence_after(
                expected,
                model.records(maximum_inline_message, expected)->0.len(),
            ),
        ) == Some(fresh),
    ensures
        ({
            let held = model.records(maximum_inline_message, expected)->0;
            let producer = cursor_after(model.producer, step);
            let written = RingModel { bytes, ..model };
            let sent = written.apply(MemoryOperation::Publish(producer));
            &&& sent == (RingModel { producer, ..written })
            &&& sent.wf()
            &&& sent.records(maximum_inline_message, expected) == Some(held + fresh)
        }),
{
    let ring = model.capacity as int;
    let offset = model.consumer as int % ring;
    let used = cursor_distance(model.consumer, model.producer);
    let producer = cursor_after(model.producer, step);
    vstd::arithmetic::div_mod::lemma_mod_bound(model.consumer as int, ring);
    crate::data_plane::ring_core::lemma_distance_advance(model.producer, step);
    assert(cursor_distance(model.consumer, producer) == used + step);
    lemma_records_extend(
        model.bytes,
        bytes,
        offset,
        used as int,
        step as int,
        maximum_inline_message,
        expected,
    );
}

/// The records of one message that is sent in several fragments.
pub open spec fn batch_records(
    message_id: MessageId,
    sequence: Sequence,
    kind: RecordKind,
    fragments: Seq<Fragment>,
) -> Seq<RingRecord>
    decreases fragments.len(),
{
    if fragments.len() == 0 {
        Seq::empty()
    } else {
        let payload = fragments[0].payload@;
        seq![
            RingRecord {
                header: ParsedRecordHeader {
                    record_length: record_size(payload.len() as int) as u32,
                    payload_length: payload.len() as u32,
                    message_id: Some(message_id),
                    sequence,
                    kind,
                    flags: fragments[0].flags,
                },
                payload,
            },
        ] + batch_records(
            message_id,
            sequence.next(),
            kind,
            fragments.subrange(1, fragments.len() as int),
        )
    }
}

/// Whether every fragment fits the reader's limit.
pub open spec fn fragments_fit(fragments: Seq<Fragment>, maximum_inline_message: u32) -> bool {
    forall|i: int|
        0 <= i < fragments.len() ==> (#[trigger] fragments[i]).payload@.len()
            <= maximum_inline_message
}

/// One record followed by others reads as all of them.
#[verifier::spinoff_prover]
#[verifier::rlimit(100)]
proof fn lemma_batch_step(
    bytes: Seq<u8>,
    first: Seq<u8>,
    written: Seq<u8>,
    offset: int,
    at: int,
    next: int,
    end: int,
    maximum_inline_message: u32,
    sequence: Sequence,
    record: RingRecord,
    others: Seq<RingRecord>,
)
    requires
        0 <= offset < bytes.len(),
        0 <= at < next <= end <= bytes.len(),
        at < bytes.len(),
        agree(bytes, first, offset, at),
        agree(first, written, offset, next),
        records_at(
            first,
            wrapped(bytes.len() as int, offset + at),
            next - at,
            maximum_inline_message,
            sequence,
        ) == Some(seq![record]),
        records_at(
            written,
            wrapped(bytes.len() as int, offset + next),
            end - next,
            maximum_inline_message,
            sequence.next(),
        ) == Some(others),
    ensures
        agree(bytes, written, offset, at),
        records_at(
            written,
            wrapped(bytes.len() as int, offset + at),
            end - at,
            maximum_inline_message,
            sequence,
        ) == Some(seq![record] + others),
{
    let ring = bytes.len() as int;
    let start = wrapped(ring, offset + at);
    lemma_agree_through(bytes, first, written, offset, at, next);
    assert(agree(first, written, start, next - at)) by {
        assert forall|j: int| covered(ring, start, next - at, j) implies #[trigger] first[j]
            == written[j] by {
            assert(covered(ring, offset, next, j));
        }
    }
    reveal_with_fuel(sequence_after, 2);
    assert(sequence_after(sequence, 1) == sequence.next());
    if start + (next - at) == 2 * ring {
        assert(false);
    }
    assert(wrapped(ring, start + (next - at)) == wrapped(ring, offset + next));
    lemma_records_extend(
        first,
        written,
        start,
        next - at,
        end - next,
        maximum_inline_message,
        sequence,
    );
}

/// The first record of a planned batch, and the batch behind it.
#[verifier::spinoff_prover]
#[verifier::rlimit(100)]
proof fn lemma_batch_head(
    model: RingModel,
    at: u32,
    message_id: MessageId,
    sequence: Sequence,
    kind: RecordKind,
    fragments: Seq<Fragment>,
    maximum_inline_message: u32,
) -> (parts: (ParsedRecordHeader, WritePlan, Seq<MemoryOperation>))
    requires
        model.wf(),
        at <= model.capacity,
        kind.wf(),
        message_id@ != 0,
        fragments.len() > 0,
        fragments_fit(fragments, maximum_inline_message),
        planned_batch(
            committed_through(model, at),
            message_id,
            sequence,
            kind,
            fragments,
        ) is Ok,
    ensures
        ({
            let (header, plan, others) = parts;
            let payload = fragments[0].payload@;
            let (writes, end) = planned_batch(
                committed_through(model, at),
                message_id,
                sequence,
                kind,
                fragments,
            )->Ok_0;
            let next = at + plan.padding_length + header.record_length;
            let rest = fragments.subrange(1, fragments.len() as int);
            &&& header.wf()
            &&& header.kind !is Padding
            &&& header.sequence == sequence
            &&& header.payload_length == payload.len()
            &&& payload.len() <= maximum_inline_message
            &&& header.record_length % 8 == 0
            &&& header.record_length > 0
            &&& at < next <= model.capacity
            &&& write_plan(committed_through(model, at), header.record_length) == Ok::<
                WritePlan,
                ErrorReport,
            >(plan)
            &&& writes == staged_writes(plan, header, payload) + others
            &&& planned_batch(
                committed_through(model, next as u32),
                message_id,
                sequence.next(),
                kind,
                rest,
            ) == Ok::<(Seq<MemoryOperation>, RingSnapshot), ErrorReport>((others, end))
            &&& fragments_fit(rest, maximum_inline_message)
            &&& batch_records(message_id, sequence, kind, fragments) == seq![
                RingRecord { header, payload },
            ] + batch_records(message_id, sequence.next(), kind, rest)
        }),
{
    reveal(planned_batch);
    let snapshot = committed_through(model, at);
    let payload = fragments[0].payload@;
    let rest = fragments.subrange(1, fragments.len() as int);
    assert(fragments[0].payload@.len() <= maximum_inline_message);
    crate::data_plane::ring_core::lemma_distance_advance(model.consumer, at);
    lemma_planned(
        snapshot,
        message_id,
        sequence,
        kind,
        fragments[0].flags,
        payload,
        maximum_inline_message,
    );
    let (header, plan) = planned_record(
        snapshot,
        message_id,
        sequence,
        kind,
        fragments[0].flags,
        payload,
    )->Ok_0;
    let next = (at + plan.padding_length + header.record_length) as u32;
    assert(after_plan(snapshot, plan) == committed_through(model, next));
    let (others, end) = planned_batch(
        committed_through(model, next),
        message_id,
        sequence.next(),
        kind,
        rest,
    )->Ok_0;
    assert forall|i: int| 0 <= i < rest.len() implies (#[trigger] rest[i]).payload@.len()
        <= maximum_inline_message by {
        assert(rest[i] == fragments[i + 1]);
    }
    (header, plan, others)
}

/// The writes of a planned batch read as its records.
#[verifier::spinoff_prover]
#[verifier::rlimit(100)]
proof fn lemma_batch(
    model: RingModel,
    at: u32,
    message_id: MessageId,
    sequence: Sequence,
    kind: RecordKind,
    fragments: Seq<Fragment>,
    maximum_inline_message: u32,
)
    requires
        model.wf(),
        model.cursors_are_linear(),
        cursor_distance(model.consumer, model.producer) <= at <= model.capacity,
        model.consumer % 8 == 0,
        at % 8 == 0,
        kind.wf(),
        message_id@ != 0,
        fragments_fit(fragments, maximum_inline_message),
        planned_batch(
            committed_through(model, at),
            message_id,
            sequence,
            kind,
            fragments,
        ) is Ok,
    ensures
        ({
            let (writes, end) = planned_batch(
                committed_through(model, at),
                message_id,
                sequence,
                kind,
                fragments,
            )->Ok_0;
            let ring = model.capacity as int;
            let offset = model.consumer as int % ring;
            let written = model.apply_all(writes);
            &&& at <= end.used <= ring
            &&& end.used % 8 == 0
            &&& end == committed_through(model, end.used)
            &&& written.wf()
            &&& written == (RingModel { bytes: written.bytes, ..model })
            &&& agree(model.bytes, written.bytes, offset, at as int)
            &&& records_at(
                written.bytes,
                wrapped(ring, offset + at),
                end.used - at,
                maximum_inline_message,
                sequence,
            ) == Some(batch_records(message_id, sequence, kind, fragments))
        }),
    decreases fragments.len(),
{
    let ring = model.capacity as int;
    let offset = model.consumer as int % ring;
    vstd::arithmetic::div_mod::lemma_mod_bound(model.consumer as int, ring);
    if fragments.len() == 0 {
        reveal(planned_batch);
        reveal(step_at);
        assert(model.apply_all(Seq::empty()) == model);
    } else {
        let (header, plan, others) = lemma_batch_head(
            model,
            at,
            message_id,
            sequence,
            kind,
            fragments,
            maximum_inline_message,
        );
        let payload = fragments[0].payload@;
        let rest = fragments.subrange(1, fragments.len() as int);
        let next = (at + plan.padding_length + header.record_length) as u32;
        lemma_staged_record(model, at, plan, header, payload, maximum_inline_message);
        let staged = staged_writes(plan, header, payload);
        let first = model.apply_all(staged);
        assert(committed_through(model, next) == committed_through(first, next));
        lemma_batch(
            first,
            next,
            message_id,
            sequence.next(),
            kind,
            rest,
            maximum_inline_message,
        );
        lemma_apply_all_append(model, staged, others);
        let end = planned_batch(
            committed_through(first, next),
            message_id,
            sequence.next(),
            kind,
            rest,
        )->Ok_0.1;
        lemma_batch_step(
            model.bytes,
            first.bytes,
            first.apply_all(others).bytes,
            offset,
            at as int,
            next as int,
            end.used as int,
            maximum_inline_message,
            sequence,
            RingRecord { header, payload },
            batch_records(message_id, sequence.next(), kind, rest),
        );
    }
}

/// Publishing all fragments of one message appends them, in order and together, to what the ring
/// holds.
///
/// The writes and the publication are those that the writer makes for one batch.
#[verifier::spinoff_prover]
#[verifier::rlimit(100)]
pub proof fn law_send_appends_a_batch(
    model: RingModel,
    message_id: MessageId,
    kind: RecordKind,
    fragments: Seq<Fragment>,
    maximum_inline_message: u32,
    expected: Sequence,
)
    requires
        model.wf(),
        model.cursors_are_linear(),
        model.consumer % 8 == 0,
        model.producer % 8 == 0,
        kind.wf(),
        message_id@ != 0,
        fragments_fit(fragments, maximum_inline_message),
        model.records(maximum_inline_message, expected) is Some,
    ensures
        ({
            let held = model.records(maximum_inline_message, expected)->0;
            let sequence = sequence_after(expected, held.len());
            planned_batch(
                model.snapshot(),
                message_id,
                sequence,
                kind,
                fragments,
            ) matches Ok((writes, end)) ==> {
                let sent = model.apply_all(writes.push(MemoryOperation::Publish(end.producer)));
                &&& sent.wf()
                &&& sent.consumer == model.consumer
                &&& sent.producer == end.producer
                &&& sent.producer % 8 == 0
                &&& sent.records(maximum_inline_message, expected) == Some(
                    held + batch_records(message_id, sequence, kind, fragments),
                )
            }
        }),
{
    let held = model.records(maximum_inline_message, expected)->0;
    let sequence = sequence_after(expected, held.len());
    let ring = model.capacity as int;
    let offset = model.consumer as int % ring;
    let used = cursor_distance(model.consumer, model.producer);
    vstd::arithmetic::div_mod::lemma_mod_bound(model.consumer as int, ring);
    crate::data_plane::ring_core::lemma_advance_distance(model.consumer, model.producer);
    assert(model.snapshot() == committed_through(model, used));
    if let Ok((writes, end)) = planned_batch(
        model.snapshot(),
        message_id,
        sequence,
        kind,
        fragments,
    ) {
        lemma_batch(
            model,
            used,
            message_id,
            sequence,
            kind,
            fragments,
            maximum_inline_message,
        );
        let publish = MemoryOperation::Publish(end.producer);
        let written = model.apply_all(writes);
        let step = (end.used - used) as u32;
        assert(writes.push(publish).drop_last() =~= writes);
        assert(writes.push(publish).last() == publish);
        assert(end.producer == cursor_after(model.producer, step));
        lemma_published(
            model,
            written.bytes,
            step,
            maximum_inline_message,
            expected,
            batch_records(message_id, sequence, kind, fragments),
        );
    }
}

/// Publishing a prepared record appends it to what the ring holds.
///
/// The writes and the publication are those that the writer makes for one record.
#[verifier::spinoff_prover]
pub proof fn law_send_appends_one_record(
    model: RingModel,
    message_id: MessageId,
    kind: RecordKind,
    flags: RecordFlags,
    payload: Seq<u8>,
    maximum_inline_message: u32,
    expected: Sequence,
)
    requires
        model.wf(),
        model.cursors_are_linear(),
        model.consumer % 8 == 0,
        model.producer % 8 == 0,
        kind.wf(),
        message_id@ != 0,
        payload.len() <= maximum_inline_message,
        model.records(maximum_inline_message, expected) is Some,
    ensures
        ({
            let held = model.records(maximum_inline_message, expected)->0;
            planned_record(
                model.snapshot(),
                message_id,
                sequence_after(expected, held.len()),
                kind,
                flags,
                payload,
            ) matches Ok((header, plan)) ==> {
                let sent = model.apply_all(
                    staged_writes(plan, header, payload).push(
                        MemoryOperation::Publish(plan.publish_cursor),
                    ),
                );
                &&& sent.wf()
                &&& sent.consumer == model.consumer
                &&& sent.producer == plan.publish_cursor
                &&& sent.producer % 8 == 0
                &&& sent.records(maximum_inline_message, expected) == Some(
                    held.push(RingRecord { header, payload }),
                )
            }
        }),
{
    let held = model.records(maximum_inline_message, expected)->0;
    let sequence = sequence_after(expected, held.len());
    let snapshot = model.snapshot();
    if let Ok((header, plan)) = planned_record(
        snapshot,
        message_id,
        sequence,
        kind,
        flags,
        payload,
    ) {
        lemma_planned(
            snapshot,
            message_id,
            sequence,
            kind,
            flags,
            payload,
            maximum_inline_message,
        );
        lemma_record_appended(
            model,
            plan,
            header,
            payload,
            maximum_inline_message,
            expected,
        );
    }
}

/// A record that is written as planned and published stands behind the others.
#[verifier::spinoff_prover]
#[verifier::rlimit(50)]
proof fn lemma_record_appended(
    model: RingModel,
    plan: WritePlan,
    header: ParsedRecordHeader,
    payload: Seq<u8>,
    maximum_inline_message: u32,
    expected: Sequence,
)
    requires
        model.wf(),
        model.cursors_are_linear(),
        model.consumer % 8 == 0,
        model.producer % 8 == 0,
        model.snapshot().used < model.capacity,
        header.wf(),
        header.kind !is Padding,
        payload.len() == header.payload_length,
        payload.len() <= maximum_inline_message,
        model.records(maximum_inline_message, expected) is Some,
        header.sequence == sequence_after(
            expected,
            model.records(maximum_inline_message, expected)->0.len(),
        ),
        write_plan(model.snapshot(), header.record_length) == Ok::<WritePlan, ErrorReport>(plan),
        plan.publish_cursor == cursor_after(
            model.producer,
            (plan.padding_length + header.record_length) as u32,
        ),
    ensures
        ({
            let held = model.records(maximum_inline_message, expected)->0;
            let sent = model.apply_all(
                staged_writes(plan, header, payload).push(
                    MemoryOperation::Publish(plan.publish_cursor),
                ),
            );
            &&& sent.wf()
            &&& sent.consumer == model.consumer
            &&& sent.producer == plan.publish_cursor
            &&& sent.producer % 8 == 0
            &&& sent.records(maximum_inline_message, expected) == Some(
                held.push(RingRecord { header, payload }),
            )
        }),
{
    let held = model.records(maximum_inline_message, expected)->0;
    let used = model.snapshot().used;
    crate::data_plane::ring_core::lemma_advance_distance(model.consumer, model.producer);
    assert(model.snapshot() == committed_through(model, used));
    lemma_staged_record(model, used, plan, header, payload, maximum_inline_message);
    let writes = staged_writes(plan, header, payload);
    let publish = MemoryOperation::Publish(plan.publish_cursor);
    let written = model.apply_all(writes);
    let step = (plan.padding_length + header.record_length) as u32;
    assert(writes.push(publish).drop_last() =~= writes);
    assert(writes.push(publish).last() == publish);
    lemma_published(
        model,
        written.bytes,
        step,
        maximum_inline_message,
        expected,
        seq![RingRecord { header, payload }],
    );
    assert(held + seq![RingRecord { header, payload }] =~= held.push(
        RingRecord { header, payload },
    ));
    assert(plan.publish_cursor % 8 == 0);
}

proof fn lemma_padding_len(padding: u32, sequence: Sequence)
    ensures
        padding_bytes(padding, sequence).len() == padding,
{
    if padding >= PREFIX {
        padding_header(padding, sequence).lemma_prefix_len();
    }
}

/// An aligned consumer cursor stands at an aligned offset.
proof fn lemma_offset_alignment(model: RingModel)
    requires
        model.wf(),
        model.consumer % 8 == 0,
    ensures
        (model.consumer as int % model.capacity as int) % 8 == 0,
{
    let ring = model.capacity as int;
    let cursor = model.consumer as int;
    vstd::arithmetic::div_mod::lemma_fundamental_div_mod(cursor, ring);
    let turns = cursor / ring;
    let eighth = ring / 8;
    assert(ring * turns == 8 * (eighth * turns)) by (nonlinear_arith)
        requires
            ring == 8 * eighth,
    ;
}

/// The reader's next item is the step at the consumer's physical offset.
pub proof fn law_next_item_is_the_next_step(
    model: RingModel,
    maximum_inline_message: u32,
    expected: Sequence,
)
    requires
        model.wf(),
    ensures
        ({
            let offset = model.consumer as int % model.capacity as int;
            let snapshot = model.snapshot();
            let committed = model.bytes.subrange(offset, offset + contiguous_length(snapshot));
            match step_at(
                model.bytes,
                offset,
                snapshot.used as int,
                maximum_inline_message,
                expected,
            ) {
                RingStep::Empty => next_item(
                    snapshot,
                    maximum_inline_message,
                    expected,
                    committed,
                ) == Ok::<CommittedItem, ErrorReport>(CommittedItem::Empty),
                RingStep::Skip(length) => next_item(
                    snapshot,
                    maximum_inline_message,
                    expected,
                    committed,
                ) == Ok::<CommittedItem, ErrorReport>(
                    CommittedItem::Padding(
                        ReadReceipt::of(
                            model.consumer,
                            cursor_after(model.consumer, length as u32),
                            None,
                        ),
                    ),
                ),
                RingStep::Take(length, record) => next_item(
                    snapshot,
                    maximum_inline_message,
                    expected,
                    committed,
                ) == Ok::<CommittedItem, ErrorReport>(
                    CommittedItem::Record(
                        record.header,
                        record.payload,
                        ReadReceipt::of(
                            model.consumer,
                            cursor_after(model.consumer, length as u32),
                            Some(expected),
                        ),
                    ),
                ),
                RingStep::Malformed => next_item(
                    snapshot,
                    maximum_inline_message,
                    expected,
                    committed,
                ) is Err,
            }
        }),
{
    reveal(step_at);
    vstd::arithmetic::div_mod::lemma_mod_bound(model.consumer as int, model.capacity as int);
}

/// The receipt of the next item is consumed once.
///
/// Where no other side moves the cursors, consuming it reports exactly the bytes that are left
/// behind the item. It is stale from then on, and consuming it again changes nothing.
pub proof fn law_a_receipt_is_consumed_once(
    model: RingModel,
    maximum_inline_message: u32,
    expected: Sequence,
    receipt: ReadReceipt,
)
    requires
        model.wf(),
        match item_ahead(model, maximum_inline_message, expected) {
            Ok(CommittedItem::Padding(given)) => receipt == given,
            Ok(CommittedItem::Record(_, _, given)) => receipt == given,
            _ => false,
        },
    ensures
        ({
            let used = model.snapshot().used;
            let length = cursor_distance(model.consumer, receipt.next());
            let read = model.apply(MemoryOperation::Consume(receipt.next()));
            &&& 0 < length <= used
            &&& consumption(
                model.capacity,
                model.producer,
                model.consumer,
                expected,
                receipt,
            ) == Ok::<ConsumeOutcome, ErrorReport>(
                ConsumeOutcome {
                    remaining: (used - length) as u32,
                    drained: used == length,
                },
            )
            &&& read == (RingModel { consumer: receipt.next(), ..model })
            &&& forall|next: Sequence| #[trigger]
                consumption(model.capacity, model.producer, read.consumer, next, receipt) == Err::<
                    ConsumeOutcome,
                    ErrorReport,
                >(reader_report(ErrorCode::InvalidCursor, "stale read receipt"))
        }),
{
    let ring = model.capacity as int;
    let offset = model.consumer as int % ring;
    let used = model.snapshot().used;
    reveal(item_ahead);
    vstd::arithmetic::div_mod::lemma_mod_bound(model.consumer as int, ring);
    law_next_item_is_the_next_step(model, maximum_inline_message, expected);
    lemma_step_is_stable(
        model.bytes,
        model.bytes,
        offset,
        used as int,
        0,
        maximum_inline_message,
        expected,
    );
}

/// Consuming the next item takes the first record away, and skipping padding takes nothing.
pub proof fn law_consuming_takes_the_oldest_record(
    model: RingModel,
    maximum_inline_message: u32,
    expected: Sequence,
)
    requires
        model.wf(),
        model.cursors_are_linear(),
        model.records(maximum_inline_message, expected) is Some,
    ensures
        ({
            let offset = model.consumer as int % model.capacity as int;
            let held = model.records(maximum_inline_message, expected)->0;
            match step_at(
                model.bytes,
                offset,
                model.snapshot().used as int,
                maximum_inline_message,
                expected,
            ) {
                RingStep::Empty => held == Seq::<RingRecord>::empty(),
                RingStep::Skip(length) => {
                    let read = model.apply(
                        MemoryOperation::Consume(cursor_after(model.consumer, length as u32)),
                    );
                    read.wf() && read.records(maximum_inline_message, expected) == Some(held)
                },
                RingStep::Take(length, record) => {
                    let read = model.apply(
                        MemoryOperation::Consume(cursor_after(model.consumer, length as u32)),
                    );
                    &&& read.wf()
                    &&& held.len() > 0
                    &&& held[0] == record
                    &&& read.records(maximum_inline_message, expected.next()) == Some(
                        held.subrange(1, held.len() as int),
                    )
                },
                RingStep::Malformed => false,
            }
        }),
{
    let ring = model.capacity as int;
    let offset = model.consumer as int % ring;
    let used = model.snapshot().used;
    let held = model.records(maximum_inline_message, expected)->0;
    vstd::arithmetic::div_mod::lemma_mod_bound(model.consumer as int, ring);
    if used > 0 {
        lemma_step_is_stable(
            model.bytes,
            model.bytes,
            offset,
            used as int,
            0,
            maximum_inline_message,
            expected,
        );
        match step_at(model.bytes, offset, used as int, maximum_inline_message, expected) {
            RingStep::Skip(length) => {
                lemma_consumed(model, length as u32);
            },
            RingStep::Take(length, record) => {
                lemma_consumed(model, length as u32);
                let rest = records_at(
                    model.bytes,
                    wrapped(ring, offset + length),
                    used - length,
                    maximum_inline_message,
                    expected.next(),
                )->0;
                assert((seq![record] + rest)[0] == record);
                assert((seq![record] + rest).subrange(1, rest.len() as int + 1) =~= rest);
            },
            _ => {},
        }
    } else {
        reveal(step_at);
    }
}

proof fn lemma_consumed(model: RingModel, length: u32)
    requires
        model.wf(),
        model.cursors_are_linear(),
        length <= cursor_distance(model.consumer, model.producer),
        model.consumer as int % model.capacity as int + length <= model.capacity,
    ensures
        ({
            let read = model.apply(
                MemoryOperation::Consume(cursor_after(model.consumer, length)),
            );
            &&& read == (RingModel { consumer: cursor_after(model.consumer, length), ..model })
            &&& read.wf()
            &&& read.snapshot().used == cursor_distance(model.consumer, model.producer) - length
            &&& read.consumer as int % model.capacity as int == wrapped(
                model.capacity as int,
                model.consumer as int % model.capacity as int + length,
            )
        }),
{
    lemma_linear_offset(model, length);
}

/// The committed bytes in front of the consumer that do not wrap.
pub open spec fn committed_ahead(model: RingModel) -> Seq<u8> {
    let offset = model.consumer as int % model.capacity as int;
    model.bytes.subrange(offset, offset + contiguous_length(model.snapshot()))
}

/// The next item of a ring, or why it is rejected.
#[verifier::opaque]
pub open spec fn item_ahead(
    model: RingModel,
    maximum_inline_message: u32,
    expected: Sequence,
) -> Result<CommittedItem, ErrorReport> {
    next_item(model.snapshot(), maximum_inline_message, expected, committed_ahead(model))
}

/// Whether consuming through a cursor brings one ring state to another, and frees bytes.
pub open spec fn cursor_taken(before: RingModel, cursor: u32, after: RingModel) -> bool {
    &&& after == before.apply(MemoryOperation::Consume(cursor))
    &&& after == (RingModel { consumer: cursor, ..before })
    &&& after.wf()
    &&& after.consumer % 8 == 0
    &&& 0 < cursor_distance(before.consumer, cursor) <= before.snapshot().used
    &&& after.snapshot().used == before.snapshot().used - cursor_distance(before.consumer, cursor)
}

/// The next item of a ring is its first record, or padding in front of it.
#[verifier::spinoff_prover]
pub proof fn lemma_item_taken(model: RingModel, maximum_inline_message: u32, expected: Sequence)
    requires
        model.wf(),
        model.cursors_are_linear(),
        model.consumer % 8 == 0,
        model.records(maximum_inline_message, expected) is Some,
    ensures
        ({
            let held = model.records(maximum_inline_message, expected)->0;
            match item_ahead(model, maximum_inline_message, expected) {
                Ok(CommittedItem::Empty) => held == Seq::<RingRecord>::empty(),
                Ok(CommittedItem::Padding(receipt)) => {
                    let read = model.apply(MemoryOperation::Consume(receipt.next()));
                    &&& cursor_taken(model, receipt.next(), read)
                    &&& read.records(maximum_inline_message, expected) == Some(held)
                },
                Ok(CommittedItem::Record(header, payload, receipt)) => {
                    let read = model.apply(MemoryOperation::Consume(receipt.next()));
                    &&& cursor_taken(model, receipt.next(), read)
                    &&& held.len() > 0
                    &&& held[0] == (RingRecord { header, payload })
                    &&& read.records(maximum_inline_message, expected.next()) == Some(
                        held.subrange(1, held.len() as int),
                    )
                },
                Err(_) => false,
            }
        }),
{
    reveal(item_ahead);
    law_next_item_is_the_next_step(model, maximum_inline_message, expected);
    law_consuming_takes_the_oldest_record(model, maximum_inline_message, expected);
    lemma_step_taken(model, maximum_inline_message, expected);
}

/// A step leads to an aligned cursor within the committed bytes.
#[verifier::spinoff_prover]
proof fn lemma_step_taken(model: RingModel, maximum_inline_message: u32, expected: Sequence)
    requires
        model.wf(),
        model.cursors_are_linear(),
        model.consumer % 8 == 0,
        model.records(maximum_inline_message, expected) is Some,
    ensures
        match step_at(
            model.bytes,
            model.consumer as int % model.capacity as int,
            model.snapshot().used as int,
            maximum_inline_message,
            expected,
        ) {
            RingStep::Empty => true,
            RingStep::Skip(length) => {
                let cursor = cursor_after(model.consumer, length as u32);
                cursor_taken(model, cursor, model.apply(MemoryOperation::Consume(cursor)))
            },
            RingStep::Take(length, _) => {
                let cursor = cursor_after(model.consumer, length as u32);
                cursor_taken(model, cursor, model.apply(MemoryOperation::Consume(cursor)))
            },
            RingStep::Malformed => false,
        },
{
    let ring = model.capacity as int;
    let offset = model.consumer as int % ring;
    let used = model.snapshot().used;
    vstd::arithmetic::div_mod::lemma_mod_bound(model.consumer as int, ring);
    lemma_offset_alignment(model);
    lemma_step_alignment(model.bytes, offset, used as int, maximum_inline_message, expected);
    if used > 0 {
        lemma_step_is_stable(
            model.bytes,
            model.bytes,
            offset,
            used as int,
            0,
            maximum_inline_message,
            expected,
        );
        match step_at(model.bytes, offset, used as int, maximum_inline_message, expected) {
            RingStep::Skip(length) => lemma_consumed(model, length as u32),
            RingStep::Take(length, _) => lemma_consumed(model, length as u32),
            _ => {},
        }
    } else {
        assert(step_at(model.bytes, offset, used as int, maximum_inline_message, expected)
            is Empty) by {
            reveal(step_at);
        }
    }
}

/// A step from an aligned offset ends at one.
proof fn lemma_step_alignment(
    bytes: Seq<u8>,
    offset: int,
    used: int,
    maximum_inline_message: u32,
    expected: Sequence,
)
    requires
        0 <= offset < bytes.len(),
        bytes.len() % 8 == 0,
        offset % 8 == 0,
    ensures
        match step_at(bytes, offset, used, maximum_inline_message, expected) {
            RingStep::Skip(length) => length % 8 == 0,
            RingStep::Take(length, _) => length % 8 == 0,
            _ => true,
        },
{
    reveal(step_at);
    let tail = bytes.len() - offset;
    let contiguous = if tail < used {
        tail
    } else {
        used
    };
    lemma_decoded_header_wf(bytes.subrange(offset, offset + contiguous), maximum_inline_message);
}

/// The accesses that were made since then.
pub open spec fn since(before: Seq<RingAccess>, after: Seq<RingAccess>) -> Seq<RingAccess> {
    after.subrange(before.len() as int, after.len() as int)
}

/// The ring behind some accesses, `None` where it would have answered one of them otherwise.
///
/// Accesses that a ring replays are those of one side while the other side stands still.
pub open spec fn replayed(ring: RingModel, accesses: Seq<RingAccess>) -> Option<RingModel>
    decreases accesses.len(),
{
    if accesses.len() == 0 {
        Some(ring)
    } else {
        match replayed(ring, accesses.drop_last()) {
            None => None,
            Some(now) => answered(now, accesses.last()),
        }
    }
}

/// The ring behind one access, `None` where it would have answered otherwise.
pub open spec fn answered(ring: RingModel, access: RingAccess) -> Option<RingModel> {
    match access {
        RingAccess::Producer(Ok(cursor)) => if cursor == ring.producer {
            Some(ring)
        } else {
            None
        },
        RingAccess::Consumer(Ok(cursor)) => if cursor == ring.consumer {
            Some(ring)
        } else {
            None
        },
        RingAccess::Bytes(cursor, length, Ok(bytes)) => {
            let offset = cursor as int % ring.capacity as int;
            if bytes == ring.bytes.subrange(offset, offset + length) {
                Some(ring)
            } else {
                None
            }
        },
        RingAccess::Changed(operation, Ok(_)) => Some(ring.apply(operation)),
        _ => None,
    }
}

/// What a reader takes from a ring that nothing else moves: the ring and the expected sequence
/// behind it, and the record, or why it is rejected.
pub open spec fn record_taken(
    ring: RingModel,
    maximum_inline_message: u32,
    expected: Sequence,
) -> (RingModel, Sequence, Result<Option<RingRecord>, ErrorReport>)
    decreases ring.snapshot().used,
{
    match item_ahead(ring, maximum_inline_message, expected) {
        Err(error) => (ring, expected, Err(error)),
        Ok(CommittedItem::Empty) => (ring, expected, Ok(None)),
        Ok(CommittedItem::Padding(receipt)) => {
            let read = ring.apply(MemoryOperation::Consume(receipt.next()));
            if read.snapshot().used < ring.snapshot().used {
                record_taken(read, maximum_inline_message, expected)
            } else {
                (read, expected, Ok(None))
            }
        },
        Ok(CommittedItem::Record(header, payload, receipt)) => (
            ring.apply(MemoryOperation::Consume(receipt.next())),
            expected.next(),
            Ok(Some(RingRecord { header, payload })),
        ),
    }
}

/// The changes that took effect among some accesses, in order.
pub open spec fn changes(accesses: Seq<RingAccess>) -> Seq<MemoryOperation>
    decreases accesses.len(),
{
    if accesses.len() == 0 {
        Seq::empty()
    } else {
        match accesses.last() {
            RingAccess::Changed(operation, Ok(_)) => changes(accesses.drop_last()).push(operation),
            _ => changes(accesses.drop_last()),
        }
    }
}

/// One more access adds its change, where it took effect.
pub broadcast proof fn changes_push(accesses: Seq<RingAccess>, access: RingAccess)
    ensures
        #[trigger] changes(accesses.push(access)) == match access {
            RingAccess::Changed(operation, Ok(_)) => changes(accesses).push(operation),
            _ => changes(accesses),
        },
{
    assert(accesses.push(access).drop_last() =~= accesses);
}

/// The cursor that the last publication among some changes set, zero where nothing was published.
///
/// Only its producer moves the producer cursor of a ring, so this is where the producer of a ring
/// that was made empty stands behind its changes.
pub open spec fn last_published(operations: Seq<MemoryOperation>) -> u32
    decreases operations.len(),
{
    if operations.len() == 0 {
        0
    } else {
        match operations.last() {
            MemoryOperation::Publish(cursor) => cursor,
            _ => last_published(operations.drop_last()),
        }
    }
}

/// One more change sets the published cursor where it is a publication.
pub broadcast proof fn last_published_push(
    operations: Seq<MemoryOperation>,
    operation: MemoryOperation,
)
    ensures
        #[trigger] last_published(operations.push(operation)) == match operation {
            MemoryOperation::Publish(cursor) => cursor,
            _ => last_published(operations),
        },
{
    assert(operations.push(operation).drop_last() =~= operations);
}

/// The cursor that the last consumption among some changes set, zero where nothing was consumed.
///
/// Only its consumer moves the consumer cursor of a ring, so this is where the consumer of a ring
/// that was made empty stands behind its changes.
pub open spec fn last_consumed(operations: Seq<MemoryOperation>) -> u32
    decreases operations.len(),
{
    if operations.len() == 0 {
        0
    } else {
        match operations.last() {
            MemoryOperation::Consume(cursor) => cursor,
            _ => last_consumed(operations.drop_last()),
        }
    }
}

/// One more change sets the consumed cursor where it is a consumption.
pub broadcast proof fn last_consumed_push(
    operations: Seq<MemoryOperation>,
    operation: MemoryOperation,
)
    ensures
        #[trigger] last_consumed(operations.push(operation)) == match operation {
            MemoryOperation::Consume(cursor) => cursor,
            _ => last_consumed(operations),
        },
{
    assert(operations.push(operation).drop_last() =~= operations);
}

/// Whether every load of the producer cursor among some accesses found the cursor where the changes
/// before it left it.
pub open spec fn producer_loads_hold(accesses: Seq<RingAccess>) -> bool
    decreases accesses.len(),
{
    accesses.len() == 0 || {
        &&& producer_loads_hold(accesses.drop_last())
        &&& accesses.last() matches RingAccess::Producer(loaded) ==> loaded == Ok::<
            u32,
            ErrorReport,
        >(last_published(changes(accesses.drop_last())))
    }
}

/// One more access has to find the producer cursor there where it loads it.
pub broadcast proof fn producer_loads_hold_push(accesses: Seq<RingAccess>, access: RingAccess)
    ensures
        #[trigger] producer_loads_hold(accesses.push(access)) == (producer_loads_hold(accesses) && (
        access matches RingAccess::Producer(loaded) ==> loaded == Ok::<u32, ErrorReport>(
            last_published(changes(accesses)),
        ))),
{
    assert(accesses.push(access).drop_last() =~= accesses);
}

/// Whether every load of the consumer cursor among some accesses found the cursor where the changes
/// before it left it.
pub open spec fn consumer_loads_hold(accesses: Seq<RingAccess>) -> bool
    decreases accesses.len(),
{
    accesses.len() == 0 || {
        &&& consumer_loads_hold(accesses.drop_last())
        &&& accesses.last() matches RingAccess::Consumer(loaded) ==> loaded == Ok::<
            u32,
            ErrorReport,
        >(last_consumed(changes(accesses.drop_last())))
    }
}

/// One more access has to find the consumer cursor there where it loads it.
pub broadcast proof fn consumer_loads_hold_push(accesses: Seq<RingAccess>, access: RingAccess)
    ensures
        #[trigger] consumer_loads_hold(accesses.push(access)) == (consumer_loads_hold(accesses) && (
        access matches RingAccess::Consumer(loaded) ==> loaded == Ok::<u32, ErrorReport>(
            last_consumed(changes(accesses)),
        ))),
{
    assert(accesses.push(access).drop_last() =~= accesses);
}

/// The changes among all accesses are those at first, and those since then.
pub proof fn lemma_changes_since(before: Seq<RingAccess>, after: Seq<RingAccess>)
    requires
        accesses_added(before, after),
    ensures
        changes(after) == changes(before) + changes(since(before, after)),
    decreases after.len(),
{
    if after.len() == before.len() {
        assert(after =~= before);
        assert(since(before, after) =~= Seq::<RingAccess>::empty());
        assert(changes(before) + Seq::<MemoryOperation>::empty() =~= changes(before));
    } else {
        let shorter = after.drop_last();
        lemma_changes_since(before, shorter);
        assert(since(before, after).drop_last() =~= since(before, shorter));
        assert(since(before, after).last() == after.last());
        if let RingAccess::Changed(operation, Ok(_)) = after.last() {
            assert(changes(before) + changes(since(before, shorter)).push(operation) =~= (changes(
                before,
            ) + changes(since(before, shorter))).push(operation));
        }
    }
}

/// A ring that replays accesses is changed by what they changed.
pub proof fn lemma_replayed_applies(ring: RingModel, accesses: Seq<RingAccess>)
    ensures
        replayed(ring, accesses) matches Some(end) ==> end == ring.apply_all(changes(accesses)),
    decreases accesses.len(),
{
    if accesses.len() > 0 {
        lemma_replayed_applies(ring, accesses.drop_last());
        let earlier = changes(accesses.drop_last());
        if let RingAccess::Changed(operation, Ok(_)) = accesses.last() {
            assert(earlier.push(operation).drop_last() =~= earlier);
        }
    }
}

/// Accesses that follow others are replayed behind them.
pub proof fn lemma_replayed_onward(
    ring: RingModel,
    before: Seq<RingAccess>,
    middle: Seq<RingAccess>,
    after: Seq<RingAccess>,
)
    requires
        accesses_added(before, middle),
        accesses_added(middle, after),
    ensures
        replayed(ring, since(before, after)) == match replayed(ring, since(before, middle)) {
            None => None::<RingModel>,
            Some(now) => replayed(now, since(middle, after)),
        },
    decreases after.len(),
{
    if after.len() == middle.len() {
        assert(since(before, after) =~= since(before, middle));
        assert(since(middle, after) =~= Seq::<RingAccess>::empty());
    } else {
        let shorter = after.drop_last();
        lemma_replayed_onward(ring, before, middle, shorter);
        assert(since(before, after).drop_last() =~= since(before, shorter));
        assert(since(middle, after).drop_last() =~= since(middle, shorter));
        assert(since(before, after).last() == after.last());
        assert(since(middle, after).last() == after.last());
    }
}

/// One more access is answered by the ring behind the others.
pub proof fn lemma_replayed_push(
    ring: RingModel,
    before: Seq<RingAccess>,
    after: Seq<RingAccess>,
    access: RingAccess,
)
    requires
        accesses_added(before, after),
    ensures
        replayed(ring, since(before, after.push(access))) == match replayed(
            ring,
            since(before, after),
        ) {
            None => None::<RingModel>,
            Some(now) => answered(now, access),
        },
{
    assert(since(before, after.push(access)).drop_last() =~= since(before, after));
    assert(since(before, after.push(access)).last() == access);
}

/// Without accesses a ring stays as it is.
pub proof fn lemma_replayed_none(ring: RingModel, before: Seq<RingAccess>)
    ensures
        replayed(ring, since(before, before)) == Some(ring),
{
    assert(since(before, before) =~= Seq::<RingAccess>::empty());
}

/// A write leaves the cursors and the records of a ring as they are.
#[verifier::spinoff_prover]
proof fn lemma_write_spares(
    model: RingModel,
    cursor: u32,
    source: Seq<u8>,
    maximum_inline_message: u32,
    expected: Sequence,
)
    requires
        model.wf(),
        model.cursors_are_linear(),
        model.records(maximum_inline_message, expected) is Some,
    ensures
        ({
            let written = model.apply(MemoryOperation::Write(cursor, source));
            &&& written.wf()
            &&& written == (RingModel { bytes: written.bytes, ..model })
            &&& written.records(maximum_inline_message, expected) == model.records(
                maximum_inline_message,
                expected,
            )
        }),
{
    let ring = model.capacity as int;
    let offset = model.consumer as int % ring;
    let used = cursor_distance(model.consumer, model.producer);
    let written = model.apply(MemoryOperation::Write(cursor, source));
    vstd::arithmetic::div_mod::lemma_mod_bound(model.consumer as int, ring);
    if write_range(
        model.capacity,
        model.producer,
        model.consumer,
        cursor,
        source.len() as int,
    ) is Ok {
        if source.len() == 0 {
            assert(written.bytes =~= model.bytes);
        } else {
            let distance = (used + cursor_distance(model.producer, cursor)) as u32;
            assert(cursor_after(model.consumer, distance) == cursor);
            lemma_linear_offset(model, distance);
            lemma_write_extends(model, distance, source);
            let held = model.records(maximum_inline_message, expected)->0;
            lemma_records_extend(
                model.bytes,
                written.bytes,
                offset,
                used as int,
                0,
                maximum_inline_message,
                expected,
            );
            lemma_nothing_at(
                written.bytes,
                wrapped(ring, offset + used),
                maximum_inline_message,
                sequence_after(expected, held.len()),
            );
            assert(held + Seq::<RingRecord>::empty() =~= held);
        }
    }
}

/// No record stands in no bytes.
proof fn lemma_nothing_at(
    bytes: Seq<u8>,
    offset: int,
    maximum_inline_message: u32,
    expected: Sequence,
)
    ensures
        records_at(bytes, offset, 0, maximum_inline_message, expected) == Some(
            Seq::<RingRecord>::empty(),
        ),
{
    reveal(step_at);
}

/// Bytes that are written and not published change nothing that a reader sees.
pub proof fn law_unpublished_writes_are_not_seen(
    model: RingModel,
    writes: Seq<MemoryOperation>,
    maximum_inline_message: u32,
    expected: Sequence,
)
    requires
        model.wf(),
        model.cursors_are_linear(),
        model.records(maximum_inline_message, expected) is Some,
        unpublished(writes),
    ensures
        ({
            let written = model.apply_all(writes);
            &&& written.wf()
            &&& written == (RingModel { bytes: written.bytes, ..model })
            &&& written.records(maximum_inline_message, expected) == model.records(
                maximum_inline_message,
                expected,
            )
        }),
    decreases writes.len(),
{
    if writes.len() > 0 {
        let earlier = writes.drop_last();
        assert forall|i: int| 0 <= i < earlier.len() implies #[trigger] earlier[i] is Write by {
            assert(writes[i] is Write);
        }
        law_unpublished_writes_are_not_seen(model, earlier, maximum_inline_message, expected);
        let before = model.apply_all(earlier);
        if let MemoryOperation::Write(cursor, source) = writes.last() {
            lemma_write_spares(before, cursor, source, maximum_inline_message, expected);
        } else {
            assert(writes[writes.len() - 1] is Write);
        }
    }
}

/// No access changes the capacity of a ring.
pub proof fn lemma_capacity_stays(model: RingModel, operations: Seq<MemoryOperation>)
    ensures
        model.apply_all(operations).capacity == model.capacity,
    decreases operations.len(),
{
    if operations.len() > 0 {
        lemma_capacity_stays(model, operations.drop_last());
    }
}

} // verus!
