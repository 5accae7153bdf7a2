//! Pure single-producer, single-consumer ring geometry and wrap planning.

use vstd::prelude::*;

use crate::data_plane::layout::{capacity_is_valid, valid_capacity};
use crate::domain::error::{report, ErrorCategory, ErrorCode, ErrorReport, Recoverability};

verus! {

/// Bytes of a record prefix, as a cursor distance.
pub const PREFIX: u32 = 24;

/// The number of distinct cursor values.
pub const CURSOR_RANGE: u64 = 0x1_0000_0000;

/// The forward distance from one wrapping cursor to another.
pub open spec fn cursor_distance(from: u32, to: u32) -> u32 {
    if to >= from {
        (to - from) as u32
    } else {
        (to - from + CURSOR_RANGE) as u32
    }
}

/// The wrapping cursor `length` bytes onward.
pub open spec fn cursor_after(cursor: u32, length: u32) -> u32 {
    if cursor + length < CURSOR_RANGE {
        (cursor + length) as u32
    } else {
        (cursor + length - CURSOR_RANGE) as u32
    }
}

/// Returns the forward distance from one wrapping cursor to another.
pub fn distance_between(from: u32, to: u32) -> (distance: u32)
    ensures
        distance == cursor_distance(from, to),
{
    to.wrapping_sub(from)
}

/// Returns the wrapping cursor `length` bytes onward.
pub fn advance(cursor: u32, length: u32) -> (next: u32)
    ensures
        next == cursor_after(cursor, length),
{
    cursor.wrapping_add(length)
}

/// The report of a ring that cannot accept or hold what it is asked to.
pub open spec fn ring_report(code: ErrorCode, operation: &'static str) -> ErrorReport {
    report(
        ErrorCategory::Resource,
        code,
        if code is Backpressured {
            Recoverability::Retryable
        } else {
            Recoverability::ReplaceEndpoint
        },
        operation,
    )
}

fn ring_error(code: ErrorCode, operation: &'static str) -> (created: ErrorReport)
    ensures
        created == ring_report(code, operation),
{
    ErrorReport::new(
        ErrorCategory::Resource,
        code,
        if code == ErrorCode::Backpressured {
            Recoverability::Retryable
        } else {
            Recoverability::ReplaceEndpoint
        },
        operation,
    )
}

/// A validated snapshot of the two wrapping byte cursors.
#[derive(Clone, Copy, Debug, PartialEq, Eq, Structural)]
pub struct RingSnapshot {
    /// Bytes in the ring.
    pub capacity: u32,
    /// Cursor behind the last committed byte.
    pub producer: u32,
    /// Cursor of the first committed byte.
    pub consumer: u32,
    /// Committed bytes.
    pub used: u32,
}

/// The snapshot of a ring with the given cursors.
pub open spec fn snapshot_of(capacity: u32, producer: u32, consumer: u32) -> Result<
    RingSnapshot,
    ErrorReport,
> {
    if !valid_capacity(capacity as int) {
        Err(ring_report(ErrorCode::InvalidRange, "ring capacity"))
    } else if cursor_distance(consumer, producer) > capacity {
        Err(ring_report(ErrorCode::InvalidCursor, "ring cursor distance"))
    } else {
        Ok(
            RingSnapshot {
                capacity,
                producer,
                consumer,
                used: cursor_distance(consumer, producer),
            },
        )
    }
}

impl RingSnapshot {
    /// Whether the capacity is valid and the cursors are no further apart than it.
    pub open spec fn wf(self) -> bool {
        &&& valid_capacity(self.capacity as int)
        &&& self.used == cursor_distance(self.consumer, self.producer)
        &&& self.used <= self.capacity
    }

    /// Validates capacity and the unambiguous forward cursor distance.
    ///
    /// `InvalidCursor` is returned when shared cursors imply more committed bytes than capacity.
    pub fn new(capacity: u32, producer: u32, consumer: u32) -> (created: Result<Self, ErrorReport>)
        ensures
            created == snapshot_of(capacity, producer, consumer),
            created matches Ok(snapshot) ==> snapshot.wf(),
    {
        if !capacity_is_valid(capacity) {
            return Err(ring_error(ErrorCode::InvalidRange, "ring capacity"));
        }
        let used: u32 = distance_between(consumer, producer);
        if used > capacity {
            return Err(ring_error(ErrorCode::InvalidCursor, "ring cursor distance"));
        }
        Ok(RingSnapshot { capacity, producer, consumer, used })
    }

    /// Returns committed but unconsumed bytes.
    pub fn used(self) -> (used: u32)
        ensures
            used == self.used,
    {
        self.used
    }

    /// Returns bytes currently available to the producer.
    pub fn free(self) -> (free: u32)
        requires
            self.wf(),
        ensures
            free == self.capacity - self.used,
    {
        self.capacity - self.used
    }

    /// Returns whether no record is committed.
    pub fn is_empty(self) -> (answer: bool)
        ensures
            answer == (self.used == 0),
    {
        self.used == 0
    }

    /// Returns the physical producer offset.
    pub fn producer_offset(self) -> (offset: u32)
        requires
            self.wf(),
        ensures
            offset == self.producer as int % self.capacity as int,
            offset < self.capacity,
    {
        self.producer % self.capacity
    }

    /// Returns the physical consumer offset.
    pub fn consumer_offset(self) -> (offset: u32)
        requires
            self.wf(),
        ensures
            offset == self.consumer as int % self.capacity as int,
            offset < self.capacity,
    {
        self.consumer % self.capacity
    }

    /// Returns the absolute wrapping producer cursor.
    pub fn producer_cursor(self) -> (cursor: u32)
        ensures
            cursor == self.producer,
    {
        self.producer
    }

    /// Returns the absolute wrapping consumer cursor.
    pub fn consumer_cursor(self) -> (cursor: u32)
        ensures
            cursor == self.consumer,
    {
        self.consumer
    }

    /// Plans a contiguous record, with any physical tail that is skipped before wrapping.
    ///
    /// `Backpressured` is returned when free capacity cannot fit the record and its wrap tail.
    pub fn plan_write(self, record_length: u32) -> (planned: Result<WritePlan, ErrorReport>)
        requires
            self.wf(),
        ensures
            planned == write_plan(self, record_length),
    {
        if record_length < PREFIX || record_length > self.capacity || record_length % 8 != 0 {
            return Err(ring_error(ErrorCode::InvalidRange, "ring record length"));
        }
        let tail: u32 = self.capacity - self.producer_offset();
        let padding_length: u32 = if record_length > tail {
            tail
        } else {
            0
        };
        let required: u32 = padding_length + record_length;
        if required > self.free() {
            return Err(ring_error(ErrorCode::Backpressured, "ring write capacity"));
        }
        let record_offset: u32 = if padding_length == 0 {
            self.producer_offset()
        } else {
            0
        };
        Ok(
            WritePlan {
                start_cursor: self.producer,
                record_offset,
                record_length,
                padding_offset: self.producer_offset(),
                padding_length,
                publish_cursor: advance(self.producer, required),
                signal_non_empty: self.is_empty(),
            },
        )
    }

    /// Returns an implicit tail that cannot contain a record prefix, if present.
    pub fn implicit_read_padding(self) -> (padding: u32)
        requires
            self.wf(),
        ensures
            padding == implicit_padding(self),
    {
        let tail: u32 = self.capacity - self.consumer_offset();
        if tail < PREFIX && tail <= self.used {
            tail
        } else {
            0
        }
    }
}

/// The bytes between the consumer and the physical ring end, where they are committed and too few
/// for a record prefix.
pub open spec fn implicit_padding(snapshot: RingSnapshot) -> u32 {
    let tail = snapshot.capacity - snapshot.consumer as int % snapshot.capacity as int;
    if tail < PREFIX && tail <= snapshot.used {
        tail as u32
    } else {
        0
    }
}

/// Producer geometry for one atomic publication.
#[derive(Clone, Copy, Debug, PartialEq, Eq, Structural)]
pub struct WritePlan {
    /// Absolute producer cursor before this write.
    pub start_cursor: u32,
    /// Physical start of the actual record.
    pub record_offset: u32,
    /// Aligned bytes occupied by the actual record.
    pub record_length: u32,
    /// Physical start of a wrap tail.
    pub padding_offset: u32,
    /// Bytes consumed at the end before wrapping.
    pub padding_length: u32,
    /// Absolute cursor published after all writes complete.
    pub publish_cursor: u32,
    /// Whether publication changes the ring from empty to non-empty.
    pub signal_non_empty: bool,
}

impl WritePlan {
    /// Returns whether the wrap tail can encode an explicit padding record.
    pub fn has_explicit_padding(self) -> (answer: bool)
        ensures
            answer == (self.padding_length >= PREFIX),
    {
        self.padding_length >= PREFIX
    }
}

/// The bytes skipped before a record of the given length, so that it does not cross the ring end.
pub open spec fn wrap_padding(snapshot: RingSnapshot, record_length: u32) -> u32 {
    let tail = snapshot.capacity - snapshot.producer as int % snapshot.capacity as int;
    if record_length > tail {
        tail as u32
    } else {
        0
    }
}

/// The plan for one record.
pub open spec fn write_plan(snapshot: RingSnapshot, record_length: u32) -> Result<
    WritePlan,
    ErrorReport,
> {
    let offset = (snapshot.producer as int % snapshot.capacity as int) as u32;
    let padding = wrap_padding(snapshot, record_length);
    if record_length < PREFIX || record_length > snapshot.capacity || record_length % 8 != 0 {
        Err(ring_report(ErrorCode::InvalidRange, "ring record length"))
    } else if padding + record_length > snapshot.capacity - snapshot.used {
        Err(ring_report(ErrorCode::Backpressured, "ring write capacity"))
    } else {
        Ok(
            WritePlan {
                start_cursor: snapshot.producer,
                record_offset: if padding == 0 {
                    offset
                } else {
                    0
                },
                record_length,
                padding_offset: offset,
                padding_length: padding,
                publish_cursor: cursor_after(
                    snapshot.producer,
                    (padding + record_length) as u32,
                ),
                signal_non_empty: snapshot.used == 0,
            },
        )
    }
}

/// Advancing by a distance reaches the cursor that the distance was measured to.
pub proof fn lemma_advance_distance(from: u32, to: u32)
    ensures
        cursor_after(from, cursor_distance(from, to)) == to,
{
}

/// The distance covered by an advance is its length.
pub proof fn lemma_distance_advance(cursor: u32, length: u32)
    ensures
        cursor_distance(cursor, cursor_after(cursor, length)) == length,
{
}

/// Committed and free bytes together fill the ring.
pub proof fn law_used_and_free_fill_the_ring(capacity: u32, producer: u32, consumer: u32)
    ensures
        snapshot_of(capacity, producer, consumer) matches Ok(snapshot) ==> snapshot.used + (
        snapshot.capacity - snapshot.used) == capacity && snapshot.used <= capacity,
{
}

/// A planned record lies in one physical piece inside the ring, its padding reaches exactly to the
/// ring end, and what it publishes was free.
pub proof fn law_plans_stay_in_free_space(snapshot: RingSnapshot, record_length: u32)
    requires
        snapshot.wf(),
    ensures
        write_plan(snapshot, record_length) matches Ok(plan) ==> {
            &&& plan.record_offset + plan.record_length <= snapshot.capacity
            &&& plan.padding_length > 0 ==> plan.padding_offset + plan.padding_length
                == snapshot.capacity
            &&& plan.padding_length + plan.record_length <= snapshot.capacity - snapshot.used
            &&& snapshot_of(snapshot.capacity, plan.publish_cursor, snapshot.consumer) == Ok::<
                RingSnapshot,
                ErrorReport,
            >(
                RingSnapshot {
                    capacity: snapshot.capacity,
                    producer: plan.publish_cursor,
                    consumer: snapshot.consumer,
                    used: (snapshot.used + plan.padding_length + plan.record_length) as u32,
                },
            )
        },
{
    vstd::arithmetic::div_mod::lemma_mod_bound(
        snapshot.producer as int,
        snapshot.capacity as int,
    );
}

/// An empty ring accepts every record that fits it when the cursor stands at the ring start.
pub proof fn law_aligned_empty_ring_accepts(snapshot: RingSnapshot, record_length: u32)
    requires
        snapshot.wf(),
        snapshot.used == 0,
        snapshot.producer as int % snapshot.capacity as int == 0,
        PREFIX <= record_length <= snapshot.capacity,
        record_length % 8 == 0,
    ensures
        write_plan(snapshot, record_length) is Ok,
{
}

/// Cursors count bytes modulo their range: an advance adds its length, and a distance is what has
/// to be added.
pub proof fn law_cursors_count_bytes(cursor: u32, length: u32, other: u32)
    ensures
        cursor_after(cursor, length) as int == (cursor + length) % CURSOR_RANGE as int,
        (cursor + cursor_distance(cursor, other)) % CURSOR_RANGE as int == other,
        cursor_distance(cursor, cursor) == 0,
        cursor != other ==> cursor_distance(cursor, other) + cursor_distance(other, cursor)
            == CURSOR_RANGE,
{
}

/// A plan holds the record that it was made for and wastes nothing: bytes are skipped exactly where
/// the record would cross the ring end, up to that end, and the record stands behind them. A hint
/// is called for exactly where the ring was empty.
pub proof fn law_plans_waste_nothing(snapshot: RingSnapshot, record_length: u32)
    requires
        snapshot.wf(),
    ensures
        write_plan(snapshot, record_length) matches Ok(plan) ==> {
            let offset = snapshot.producer as int % snapshot.capacity as int;
            &&& plan.record_length == record_length
            &&& plan.start_cursor == snapshot.producer
            &&& plan.padding_length > 0 <==> offset + record_length > snapshot.capacity
            &&& plan.padding_length == 0 ==> plan.record_offset == offset
            &&& plan.padding_length > 0 ==> plan.padding_offset == offset && plan.record_offset == 0
                && offset + plan.padding_length == snapshot.capacity
            &&& cursor_distance(snapshot.producer, plan.publish_cursor) == plan.padding_length
                + record_length
            &&& plan.signal_non_empty <==> snapshot.consumer == snapshot.producer
        },
{
    vstd::arithmetic::div_mod::lemma_mod_bound(snapshot.producer as int, snapshot.capacity as int);
    lemma_advance_distance(snapshot.consumer, snapshot.producer);
}

/// A record that does not fit is refused for a while, and one that never fits for good; room that
/// becomes free never turns an accepted record away.
pub proof fn law_room_decides_what_is_accepted(
    snapshot: RingSnapshot,
    drained: RingSnapshot,
    record_length: u32,
)
    requires
        snapshot.wf(),
        drained.wf(),
        drained.capacity == snapshot.capacity,
        drained.producer == snapshot.producer,
        drained.used <= snapshot.used,
    ensures
        write_plan(snapshot, record_length) is Ok ==> write_plan(drained, record_length) is Ok,
        write_plan(snapshot, record_length) matches Err(error) ==> (error.recoverability
            is Retryable <==> error.code is Backpressured) && (error.code is Backpressured
            <==> PREFIX <= record_length <= snapshot.capacity && record_length % 8 == 0),
        record_length <= snapshot.capacity - snapshot.used && PREFIX <= record_length
            && record_length % 8 == 0 && snapshot.producer as int % snapshot.capacity as int
            + record_length <= snapshot.capacity ==> write_plan(snapshot, record_length) is Ok,
{
    vstd::arithmetic::div_mod::lemma_mod_bound(snapshot.producer as int, snapshot.capacity as int);
}

/// A reader skips without looking exactly the bytes in which a writer could not put a padding
/// record.
pub proof fn law_readers_skip_what_writers_left(snapshot: RingSnapshot, record_length: u32)
    requires
        snapshot.wf(),
    ensures
        write_plan(snapshot, record_length) matches Ok(plan) ==> implicit_padding(
            RingSnapshot {
                capacity: snapshot.capacity,
                producer: plan.publish_cursor,
                consumer: plan.start_cursor,
                used: (plan.padding_length + plan.record_length) as u32,
            },
        ) == if plan.padding_length < PREFIX {
            plan.padding_length
        } else {
            0
        },
{
    vstd::arithmetic::div_mod::lemma_mod_bound(snapshot.producer as int, snapshot.capacity as int);
}

/// A failure of a ring keeps its code and is one of resources; only a full ring is worth another
/// try, anything else takes another endpoint.
pub proof fn law_only_full_rings_are_tried_again(code: ErrorCode, operation: &'static str)
    ensures
        ring_report(code, operation).code == code,
        ring_report(code, operation).context == operation,
        ring_report(code, operation).category is Resource,
        ring_report(code, operation).recoverability is Retryable <==> code is Backpressured,
        ring_report(code, operation).recoverability is ReplaceEndpoint
            <==> !(code is Backpressured),
{
}

/// Cursors are refused only where their capacity is one of a ring, and a capacity before any
/// cursor; a record is refused for its length before it is for the room that is left.
pub proof fn law_refused_rings_are_told_apart(
    capacity: u32,
    producer: u32,
    consumer: u32,
    snapshot: RingSnapshot,
    record_length: u32,
)
    ensures
        snapshot_of(capacity, producer, consumer) matches Err(error) ==> {
            &&& error.code is InvalidRange <==> !valid_capacity(capacity as int)
            &&& error.code is InvalidCursor <==> valid_capacity(capacity as int)
        },
        write_plan(snapshot, record_length) matches Err(error) ==> {
            &&& error.code is InvalidRange <==> record_length < 24 || record_length
                > snapshot.capacity || record_length % 8 != 0
            &&& error.code is Backpressured <==> !(error.code is InvalidRange)
        },
{
}

/// A reader skips the end of the ring exactly where it is too short for a record and all of it is
/// committed; it then skips all of it.
pub proof fn law_short_ends_are_skipped_whole(snapshot: RingSnapshot)
    requires
        snapshot.wf(),
    ensures
        ({
            let end = snapshot.capacity - snapshot.consumer as int % snapshot.capacity as int;
            &&& implicit_padding(snapshot) != 0 <==> end < 24 && snapshot.used >= end
            &&& implicit_padding(snapshot) != 0 ==> implicit_padding(snapshot) == end
        }),
        implicit_padding(snapshot) <= snapshot.used,
{
    vstd::arithmetic::div_mod::lemma_mod_bound(snapshot.consumer as int, snapshot.capacity as int);
}

} // verus!
