//! Shared ring bytes and cursors, and the accesses that each side may make.
//!
//! The producer writes only unpublished bytes and advances only its own cursor; the consumer reads
//! only committed bytes and advances only its own. [`RingImage`] holds the bytes and cursors of one
//! ring and states each access exactly. [`ProducerMemory`] and [`ConsumerMemory`] are the two
//! non-cloneable handles of one shared image.

use std::sync::atomic::{AtomicU32, Ordering};
use std::sync::Arc;

use vstd::prelude::*;
use vstd::rwlock::{RwLock, RwLockPredicate};

use crate::data_plane::layout::{capacity_is_valid, valid_capacity};
use crate::data_plane::ring_core::{cursor_distance, distance_between};
use crate::data_plane::ring_model::{
    changes, changes_push, consumer_loads_hold, consumer_loads_hold_push, last_consumed,
    last_consumed_push, last_published, last_published_push, producer_loads_hold,
    producer_loads_hold_push,
};
use crate::domain::bytes::copy_range;
use crate::domain::error::{
    plain_outcome, report, ErrorCategory, ErrorCode, ErrorReport, Recoverability,
};
use crate::memory::api::copied_bytes;

verus! {

broadcast use {
    changes_push,
    last_published_push,
    last_consumed_push,
    producer_loads_hold_push,
    consumer_loads_hold_push,
};

/// The report of a rejected access to ring memory.
pub open spec fn memory_report(code: ErrorCode) -> ErrorReport {
    report(ErrorCategory::Memory, code, Recoverability::ReplaceEndpoint, "shared ring memory")
}

pub(crate) fn memory_error(code: ErrorCode) -> (created: ErrorReport)
    ensures
        created == memory_report(code),
{
    ErrorReport::new(
        ErrorCategory::Memory,
        code,
        Recoverability::ReplaceEndpoint,
        "shared ring memory",
    )
}

/// An aligned shared `u32` accessed with the wire-defined memory orderings.
///
/// Another process may change the value at any moment, so nothing is stated of what a load
/// returns.
#[derive(Debug)]
pub struct SharedAtomic<'mapping> {
    atomic: &'mapping AtomicU32,
}

impl<'mapping> SharedAtomic<'mapping> {
    /// The location that the atomic accesses.
    pub closed spec fn location(&self) -> &'mapping AtomicU32 {
        self.atomic
    }

    /// Wraps an ordinary aligned atomic.
    pub fn new(atomic: &'mapping AtomicU32) -> (created: Self)
        ensures
            created.location() == atomic,
    {
        SharedAtomic { atomic }
    }

    /// Loads a cursor after observing all bytes published before it.
    pub fn load_acquire(&self) -> u32 {
        self.atomic.load(Ordering::Acquire)
    }

    /// Publishes a cursor after all preceding byte accesses.
    pub fn store_release(&self, value: u32) {
        self.atomic.store(value, Ordering::Release);
    }

    /// Atomically advances an epoch and returns its previous value.
    pub fn fetch_add_acq_rel(&self, value: u32) -> u32 {
        self.atomic.fetch_add(value, Ordering::AcqRel)
    }
}

/// Where the producer may write `length` bytes at a logical cursor.
pub open spec fn write_range(
    capacity: u32,
    producer: u32,
    consumer: u32,
    cursor: u32,
    length: int,
) -> Result<u32, ErrorReport> {
    let used = cursor_distance(consumer, producer);
    let start = cursor as int % capacity as int;
    if used > capacity {
        Err(memory_report(ErrorCode::InvalidCursor))
    } else if cursor_distance(producer, cursor) + length > capacity - used {
        Err(memory_report(ErrorCode::InvalidRange))
    } else if start + length > capacity {
        Err(memory_report(ErrorCode::InvalidRange))
    } else {
        Ok(start as u32)
    }
}

/// Whether the producer may publish through a cursor.
pub open spec fn publish_allowed(
    capacity: u32,
    producer: u32,
    consumer: u32,
    cursor: u32,
) -> bool {
    cursor_distance(consumer, producer) + cursor_distance(producer, cursor) <= capacity
}

/// Where the consumer may read `length` bytes at a logical cursor.
pub open spec fn read_range(
    capacity: u32,
    producer: u32,
    consumer: u32,
    cursor: u32,
    length: int,
) -> Result<u32, ErrorReport> {
    let used = cursor_distance(consumer, producer);
    let start = cursor as int % capacity as int;
    if used > capacity || cursor_distance(consumer, cursor) + length > used || start + length
        > capacity {
        Err(memory_report(ErrorCode::InvalidRange))
    } else {
        Ok(start as u32)
    }
}

/// Whether the consumer may release everything before a cursor.
pub open spec fn consume_allowed(
    capacity: u32,
    producer: u32,
    consumer: u32,
    cursor: u32,
) -> bool {
    let used = cursor_distance(consumer, producer);
    used <= capacity && cursor_distance(consumer, cursor) <= used
}

/// Returns the physical start of a producer write, or why it is rejected.
pub fn check_write(
    capacity: u32,
    producer: u32,
    consumer: u32,
    cursor: u32,
    length: usize,
) -> (checked: Result<u32, ErrorReport>)
    requires
        valid_capacity(capacity as int),
    ensures
        checked == write_range(capacity, producer, consumer, cursor, length as int),
        checked matches Ok(start) ==> start + length <= capacity,
{
    let used: u32 = distance_between(consumer, producer);
    if used > capacity {
        return Err(memory_error(ErrorCode::InvalidCursor));
    }
    let free: u32 = capacity - used;
    let distance: u32 = distance_between(producer, cursor);
    if distance > free || length > (free - distance) as usize {
        return Err(memory_error(ErrorCode::InvalidRange));
    }
    let start: u32 = cursor % capacity;
    if start as u64 + length as u64 > capacity as u64 {
        return Err(memory_error(ErrorCode::InvalidRange));
    }
    Ok(start)
}

/// Returns whether a publication is in order, or why it is rejected.
pub fn check_publish(capacity: u32, producer: u32, consumer: u32, cursor: u32) -> (checked: Result<
    (),
    ErrorReport,
>)
    ensures
        checked == if publish_allowed(capacity, producer, consumer, cursor) {
            Ok::<(), ErrorReport>(())
        } else {
            Err(memory_report(ErrorCode::InvalidCursor))
        },
{
    let used: u32 = distance_between(consumer, producer);
    let advance: u32 = distance_between(producer, cursor);
    if used > capacity || advance > capacity - used {
        return Err(memory_error(ErrorCode::InvalidCursor));
    }
    Ok(())
}

/// Returns the physical start of a consumer read, or why it is rejected.
pub fn check_read(
    capacity: u32,
    producer: u32,
    consumer: u32,
    cursor: u32,
    length: usize,
) -> (checked: Result<u32, ErrorReport>)
    requires
        valid_capacity(capacity as int),
    ensures
        checked == read_range(capacity, producer, consumer, cursor, length as int),
        checked matches Ok(start) ==> start + length <= capacity,
{
    let used: u32 = distance_between(consumer, producer);
    let distance: u32 = distance_between(consumer, cursor);
    if used > capacity || distance > used || length > (used - distance) as usize {
        return Err(memory_error(ErrorCode::InvalidRange));
    }
    let start: u32 = cursor % capacity;
    if start as u64 + length as u64 > capacity as u64 {
        return Err(memory_error(ErrorCode::InvalidRange));
    }
    Ok(start)
}

/// Returns whether a consumption is in order, or why it is rejected.
pub fn check_consume(capacity: u32, producer: u32, consumer: u32, cursor: u32) -> (checked: Result<
    (),
    ErrorReport,
>)
    ensures
        checked == if consume_allowed(capacity, producer, consumer, cursor) {
            Ok::<(), ErrorReport>(())
        } else {
            Err(memory_report(ErrorCode::InvalidCursor))
        },
{
    let used: u32 = distance_between(consumer, producer);
    let advance: u32 = distance_between(consumer, cursor);
    if used > capacity || advance > used {
        return Err(memory_error(ErrorCode::InvalidCursor));
    }
    Ok(())
}

/// `bytes` with `source` laid over them at `offset`.
pub open spec fn overwritten(bytes: Seq<u8>, offset: int, source: Seq<u8>) -> Seq<u8> {
    Seq::new(
        bytes.len(),
        |i: int|
            if offset <= i < offset + source.len() {
                source[i - offset]
            } else {
                bytes[i]
            },
    )
}

/// The bytes and cursors of one ring at one moment.
pub struct RingImage {
    /// Ring bytes.
    pub bytes: Vec<u8>,
    /// Number of ring bytes.
    pub capacity: u32,
    /// Cursor behind the last committed byte.
    pub producer: u32,
    /// Cursor of the first committed byte.
    pub consumer: u32,
}

impl RingImage {
    /// Whether the capacity is valid and no more bytes are committed than the ring holds.
    pub open spec fn wf(self) -> bool {
        &&& valid_capacity(self.capacity as int)
        &&& self.bytes@.len() == self.capacity
        &&& cursor_distance(self.consumer, self.producer) <= self.capacity
    }

    /// Creates an empty ring of zero bytes.
    ///
    /// `InvalidRange` is returned unless capacity is non-zero, record-aligned, and unambiguous.
    pub fn new(capacity: u32) -> (created: Result<Self, ErrorReport>)
        ensures
            match created {
                Ok(image) => {
                    &&& valid_capacity(capacity as int)
                    &&& image.wf()
                    &&& image.capacity == capacity
                    &&& image.producer == 0
                    &&& image.consumer == 0
                    &&& forall|i: int| 0 <= i < capacity ==> image.bytes@[i] == 0
                },
                Err(error) => !valid_capacity(capacity as int) && error == memory_report(
                    ErrorCode::InvalidRange,
                ),
            },
    {
        if !capacity_is_valid(capacity) {
            return Err(memory_error(ErrorCode::InvalidRange));
        }
        let bytes: Vec<u8> = vec![0; capacity as usize];
        Ok(RingImage { bytes, capacity, producer: 0, consumer: 0 })
    }

    /// Writes a contiguous unpublished range at an absolute logical cursor, for a producer that
    /// stands at its own cursor.
    pub fn write(&mut self, producer: u32, cursor: u32, source: &[u8]) -> (written: Result<
        (),
        ErrorReport,
    >)
        requires
            old(self).wf(),
        ensures
            final(self).wf(),
            final(self).capacity == old(self).capacity,
            final(self).producer == old(self).producer,
            final(self).consumer == old(self).consumer,
            match write_range(
                old(self).capacity,
                producer,
                old(self).consumer,
                cursor,
                source@.len() as int,
            ) {
                Ok(start) => written is Ok && final(self).bytes@ == overwritten(
                    old(self).bytes@,
                    start as int,
                    source@,
                ),
                Err(error) => written == Err::<(), ErrorReport>(error)
                    && final(self).bytes@ == old(self).bytes@,
            },
    {
        match check_write(self.capacity, producer, self.consumer, cursor, source.len()) {
            Err(error) => Err(error),
            Ok(start) => {
                lay_over(&mut self.bytes, start as usize, source);
                Ok(())
            },
        }
    }

    /// Publishes all writes through `cursor`, for a producer that stands at its own cursor.
    pub fn publish(&mut self, producer: u32, cursor: u32) -> (published: Result<(), ErrorReport>)
        requires
            old(self).wf(),
        ensures
            final(self).wf(),
            final(self).bytes == old(self).bytes,
            final(self).capacity == old(self).capacity,
            final(self).consumer == old(self).consumer,
            if publish_allowed(old(self).capacity, producer, old(self).consumer, cursor) {
                published is Ok && final(self).producer == cursor
            } else {
                published == Err::<(), ErrorReport>(memory_report(ErrorCode::InvalidCursor))
                    && final(self).producer == old(self).producer
            },
    {
        check_publish(self.capacity, producer, self.consumer, cursor)?;
        self.producer = cursor;
        Ok(())
    }

    /// Copies one contiguous committed range at an absolute logical cursor, for a consumer that
    /// stands at its own cursor.
    pub fn read(&self, consumer: u32, cursor: u32, length: usize) -> (bytes: Result<
        Vec<u8>,
        ErrorReport,
    >)
        requires
            self.wf(),
        ensures
            match read_range(self.capacity, self.producer, consumer, cursor, length as int) {
                Ok(start) => bytes matches Ok(copied) && copied@ == self.bytes@.subrange(
                    start as int,
                    start + length,
                ),
                Err(error) => bytes == Err::<Vec<u8>, ErrorReport>(error),
            },
    {
        match check_read(self.capacity, self.producer, consumer, cursor, length) {
            Err(error) => Err(error),
            Ok(start) => Ok(
                copy_range(self.bytes.as_slice(), start as usize, start as usize + length),
            ),
        }
    }

    /// Releases everything before `cursor`, for a consumer that stands at its own cursor.
    pub fn consume(&mut self, consumer: u32, cursor: u32) -> (consumed: Result<(), ErrorReport>)
        requires
            old(self).wf(),
        ensures
            final(self).wf(),
            final(self).bytes == old(self).bytes,
            final(self).capacity == old(self).capacity,
            final(self).producer == old(self).producer,
            if consume_allowed(old(self).capacity, old(self).producer, consumer, cursor) {
                consumed is Ok && final(self).consumer == cursor
            } else {
                consumed == Err::<(), ErrorReport>(memory_report(ErrorCode::InvalidCursor))
                    && final(self).consumer == old(self).consumer
            },
    {
        check_consume(self.capacity, self.producer, consumer, cursor)?;
        self.consumer = cursor;
        Ok(())
    }
}

fn lay_over(bytes: &mut Vec<u8>, offset: usize, source: &[u8])
    requires
        offset + source@.len() <= old(bytes)@.len(),
    ensures
        final(bytes)@ == overwritten(old(bytes)@, offset as int, source@),
{
    let ghost before = bytes@;
    let total: usize = bytes.len();
    let mut index: usize = 0;
    while index < source.len()
        invariant
            index <= source@.len(),
            offset + source@.len() <= total,
            total == before.len(),
            bytes@ == overwritten(before, offset as int, source@.subrange(0, index as int)),
        decreases source@.len() - index,
    {
        bytes[offset + index] = source[index];
        proof {
            assert(bytes@ =~= overwritten(
                before,
                offset as int,
                source@.subrange(0, index + 1),
            ));
        }
        index = index + 1;
    }
    proof {
        assert(source@.subrange(0, source@.len() as int) =~= source@);
        assert(bytes@ =~= overwritten(before, offset as int, source@));
    }
}

/// One access that changed ring memory.
pub enum MemoryOperation {
    /// Unpublished bytes were written at a logical cursor.
    Write(u32, Seq<u8>),
    /// Everything before a cursor was published.
    Publish(u32),
    /// Everything before a cursor was released.
    Consume(u32),
}

/// One access to shared ring memory, with what became of it. The other side may run at any time,
/// so nothing is known of an access before it was made.
pub enum RingAccess {
    /// The producer cursor was loaded.
    Producer(Result<u32, ErrorReport>),
    /// The consumer cursor was loaded.
    Consumer(Result<u32, ErrorReport>),
    /// Bytes at a cursor were copied.
    Bytes(u32, nat, Result<Seq<u8>, ErrorReport>),
    /// Bytes or a cursor were to be changed.
    Changed(MemoryOperation, Result<(), ErrorReport>),
}

/// The error of an access that failed.
pub open spec fn access_error(access: RingAccess) -> Option<ErrorReport> {
    match access {
        RingAccess::Producer(Err(error)) => Some(error),
        RingAccess::Consumer(Err(error)) => Some(error),
        RingAccess::Bytes(_, _, Err(error)) => Some(error),
        RingAccess::Changed(_, Err(error)) => Some(error),
        _ => None,
    }
}

/// Whether the last of the accesses that were made since then failed with this error.
pub open spec fn access_failed(
    before: Seq<RingAccess>,
    after: Seq<RingAccess>,
    error: ErrorReport,
) -> bool {
    after.len() > before.len() && access_error(after.last()) == Some(error)
}

/// Whether these cursors were seen first of all since then.
pub open spec fn cursors_seen(
    before: Seq<RingAccess>,
    after: Seq<RingAccess>,
    producer: u32,
    consumer: u32,
) -> bool {
    &&& after.len() >= before.len() + 2
    &&& after[before.len() as int] == RingAccess::Producer(Ok(producer))
    &&& after[before.len() as int + 1] == RingAccess::Consumer(Ok(consumer))
}

/// Whether accesses were only added since then.
pub open spec fn accesses_added(before: Seq<RingAccess>, after: Seq<RingAccess>) -> bool {
    &&& before.len() <= after.len()
    &&& forall|index: int| 0 <= index < before.len() ==> #[trigger] after[index] == before[index]
}

/// Accesses that follow others keep them.
pub proof fn lemma_accesses_added(
    first: Seq<RingAccess>,
    second: Seq<RingAccess>,
    third: Seq<RingAccess>,
)
    requires
        accesses_added(first, second),
        accesses_added(second, third),
    ensures
        accesses_added(first, third),
{
    assert forall|index: int| 0 <= index < first.len() implies #[trigger] third[index]
        == first[index] by {
        assert(third[index] == second[index]);
    }
}

/// Producer side of a ring, shared with a consumer that may run at any time.
pub trait RingProducer {
    /// Number of ring bytes. It never changes.
    open spec fn capacity_of(&self) -> u32 {
        arbitrary()
    }

    /// The in-process ring that this is one side of, if it is one of such a ring. It never
    /// changes.
    open spec fn ring(&self) -> Option<Arc<RwLock<RingImage, RingPredicate>>> {
        arbitrary()
    }

    /// The accesses that took effect, in order.
    open spec fn operations(&self) -> Seq<MemoryOperation> {
        arbitrary()
    }

    /// The accesses that were made, in order.
    open spec fn accesses(&self) -> Seq<RingAccess> {
        arbitrary()
    }

    /// Whether a load of the producer cursor may turn out so.
    open spec fn loads_producer(&self, outcome: Result<u32, ErrorReport>) -> bool {
        arbitrary()
    }

    /// Whether a load of the consumer cursor may turn out so.
    open spec fn loads_consumer(&self, outcome: Result<u32, ErrorReport>) -> bool {
        arbitrary()
    }

    /// What took effect is what the accesses changed.
    proof fn operations_are_changes(&self)
        ensures
            self.operations() == changes(self.accesses()),
    ;

    /// Returns the ring's byte capacity.
    fn capacity(&self) -> (capacity: u32)
        ensures
            capacity == self.capacity_of(),
            valid_capacity(capacity as int),
    ;

    /// Returns the producer cursor.
    fn load_producer(&self) -> (loaded: Result<u32, ErrorReport>)
        ensures
            self.loads_producer(loaded),
    ;

    /// Acquires the latest consumer cursor.
    fn load_consumer(&self) -> (loaded: Result<u32, ErrorReport>)
        ensures
            self.loads_consumer(loaded),
    ;

    /// Loads the producer cursor before a change.
    fn observe_producer(&mut self) -> (seen: Result<u32, ErrorReport>)
        ensures
            final(self).capacity_of() == old(self).capacity_of(),
            final(self).ring() == old(self).ring(),
            final(self).operations() == old(self).operations(),
            final(self).accesses() == old(self).accesses().push(RingAccess::Producer(seen)),
            old(self).loads_producer(seen),
            forall|outcome: Result<u32, ErrorReport>| #[trigger]
                final(self).loads_consumer(outcome) == old(self).loads_consumer(outcome),
    ;

    /// Acquires the latest consumer cursor before or behind a change.
    fn observe_consumer(&mut self) -> (seen: Result<u32, ErrorReport>)
        ensures
            final(self).capacity_of() == old(self).capacity_of(),
            final(self).ring() == old(self).ring(),
            final(self).operations() == old(self).operations(),
            final(self).accesses() == old(self).accesses().push(RingAccess::Consumer(seen)),
            old(self).loads_consumer(seen),
    ;

    /// Writes a contiguous unpublished range at an absolute logical cursor.
    fn write_at(&mut self, cursor: u32, source: &[u8]) -> (written: Result<(), ErrorReport>)
        ensures
            final(self).capacity_of() == old(self).capacity_of(),
            final(self).ring() == old(self).ring(),
            final(self).operations() == if written is Ok {
                old(self).operations().push(MemoryOperation::Write(cursor, source@))
            } else {
                old(self).operations()
            },
            final(self).accesses() == old(self).accesses().push(
                RingAccess::Changed(
                    MemoryOperation::Write(cursor, source@),
                    plain_outcome(written),
                ),
            ),
    ;

    /// Publishes all writes through `cursor`.
    fn publish_through(&mut self, cursor: u32) -> (published: Result<(), ErrorReport>)
        ensures
            final(self).capacity_of() == old(self).capacity_of(),
            final(self).ring() == old(self).ring(),
            final(self).operations() == if published is Ok {
                old(self).operations().push(MemoryOperation::Publish(cursor))
            } else {
                old(self).operations()
            },
            final(self).accesses() == old(self).accesses().push(
                RingAccess::Changed(MemoryOperation::Publish(cursor), plain_outcome(published)),
            ),
    ;
}

/// Consumer side of a ring, shared with a producer that may run at any time.
pub trait RingConsumer {
    /// Number of ring bytes. It never changes.
    open spec fn capacity_of(&self) -> u32 {
        arbitrary()
    }

    /// The in-process ring that this is one side of, if it is one of such a ring. It never
    /// changes.
    open spec fn ring(&self) -> Option<Arc<RwLock<RingImage, RingPredicate>>> {
        arbitrary()
    }

    /// The accesses that took effect, in order.
    open spec fn operations(&self) -> Seq<MemoryOperation> {
        arbitrary()
    }

    /// The accesses that were made, in order.
    open spec fn accesses(&self) -> Seq<RingAccess> {
        arbitrary()
    }

    /// Whether a load of the producer cursor may turn out so.
    open spec fn loads_producer(&self, outcome: Result<u32, ErrorReport>) -> bool {
        arbitrary()
    }

    /// Whether a load of the consumer cursor may turn out so.
    open spec fn loads_consumer(&self, outcome: Result<u32, ErrorReport>) -> bool {
        arbitrary()
    }

    /// Whether a copy of committed bytes may turn out so.
    open spec fn reads_bytes(
        &self,
        cursor: u32,
        length: usize,
        outcome: Result<Seq<u8>, ErrorReport>,
    ) -> bool {
        arbitrary()
    }

    /// What took effect is what the accesses changed.
    proof fn operations_are_changes(&self)
        ensures
            self.operations() == changes(self.accesses()),
    ;

    /// Returns the ring's byte capacity.
    fn capacity(&self) -> (capacity: u32)
        ensures
            capacity == self.capacity_of(),
            valid_capacity(capacity as int),
    ;

    /// Acquires the latest producer cursor.
    fn load_producer(&self) -> (loaded: Result<u32, ErrorReport>)
        ensures
            self.loads_producer(loaded),
    ;

    /// Returns the consumer cursor.
    fn load_consumer(&self) -> (loaded: Result<u32, ErrorReport>)
        ensures
            self.loads_consumer(loaded),
    ;

    /// Acquires the latest producer cursor before or behind a change.
    fn observe_producer(&mut self) -> (seen: Result<u32, ErrorReport>)
        ensures
            final(self).capacity_of() == old(self).capacity_of(),
            final(self).ring() == old(self).ring(),
            final(self).operations() == old(self).operations(),
            final(self).accesses() == old(self).accesses().push(RingAccess::Producer(seen)),
            old(self).loads_producer(seen),
            forall|outcome: Result<u32, ErrorReport>| #[trigger]
                final(self).loads_consumer(outcome) == old(self).loads_consumer(outcome),
    ;

    /// Loads the consumer cursor before a change.
    fn observe_consumer(&mut self) -> (seen: Result<u32, ErrorReport>)
        ensures
            final(self).capacity_of() == old(self).capacity_of(),
            final(self).ring() == old(self).ring(),
            final(self).operations() == old(self).operations(),
            final(self).accesses() == old(self).accesses().push(RingAccess::Consumer(seen)),
            old(self).loads_consumer(seen),
    ;

    /// Copies one contiguous committed range before it is released.
    fn observe_bytes(&mut self, cursor: u32, length: usize) -> (seen: Result<Vec<u8>, ErrorReport>)
        ensures
            seen matches Ok(copied) ==> copied@.len() == length,
            final(self).capacity_of() == old(self).capacity_of(),
            final(self).ring() == old(self).ring(),
            final(self).operations() == old(self).operations(),
            final(self).accesses() == old(self).accesses().push(
                RingAccess::Bytes(cursor, length as nat, copied_bytes(seen)),
            ),
            old(self).reads_bytes(cursor, length, copied_bytes(seen)),
    ;

    /// Copies one contiguous committed range at an absolute logical cursor.
    fn read_at(&self, cursor: u32, length: usize) -> (bytes: Result<Vec<u8>, ErrorReport>)
        ensures
            bytes matches Ok(copied) ==> copied@.len() == length,
            self.reads_bytes(cursor, length, copied_bytes(bytes)),
    ;

    /// Releases everything before `cursor`.
    fn consume_through(&mut self, cursor: u32) -> (consumed: Result<(), ErrorReport>)
        ensures
            final(self).capacity_of() == old(self).capacity_of(),
            final(self).ring() == old(self).ring(),
            final(self).operations() == if consumed is Ok {
                old(self).operations().push(MemoryOperation::Consume(cursor))
            } else {
                old(self).operations()
            },
            final(self).accesses() == old(self).accesses().push(
                RingAccess::Changed(MemoryOperation::Consume(cursor), plain_outcome(consumed)),
            ),
    ;
}

/// What every holder of one shared ring keeps.
pub struct RingPredicate {
    /// Capacity of the ring.
    pub capacity: u32,
}

impl RwLockPredicate<RingImage> for RingPredicate {
    open spec fn inv(self, image: RingImage) -> bool {
        image.wf() && image.capacity == self.capacity
    }
}

/// Creates a bounded in-process single-producer, single-consumer byte ring.
///
/// `InvalidRange` is returned unless capacity is non-zero, record-aligned, and unambiguous.
pub fn in_process_ring(capacity: u32) -> (created: Result<
    (ProducerMemory, ConsumerMemory),
    ErrorReport,
>)
    ensures
        match created {
            Ok(pair) => {
                &&& valid_capacity(capacity as int)
                &&& pair.0.capacity_of() == capacity
                &&& pair.1.capacity_of() == capacity
                &&& pair.0.operations() == Seq::<MemoryOperation>::empty()
                &&& pair.1.operations() == Seq::<MemoryOperation>::empty()
                &&& pair.0.accesses() == Seq::<RingAccess>::empty()
                &&& pair.1.accesses() == Seq::<RingAccess>::empty()
                &&& pair.0.shares_ring(pair.1)
            },
            Err(error) => !valid_capacity(capacity as int) && error == memory_report(
                ErrorCode::InvalidRange,
            ),
        },
{
    let image = RingImage::new(capacity)?;
    let shared = Arc::new(RwLock::new(image, Ghost(RingPredicate { capacity })));
    Ok(
        (
            ProducerMemory {
                shared: shared.clone(),
                capacity,
                own: OwnedCursor { cursor: 0, made: Ghost(Seq::empty()) },
            },
            ConsumerMemory {
                shared,
                capacity,
                own: OwnedCursor { cursor: 0, made: Ghost(Seq::empty()) },
            },
        ),
    )
}

/// Whether a write of a producer at its own cursor took a ring from one state to the other, and
/// turned out so.
pub open spec fn ring_wrote(
    before: RingImage,
    after: RingImage,
    producer: u32,
    cursor: u32,
    source: Seq<u8>,
    written: Result<(), ErrorReport>,
) -> bool {
    &&& before.wf()
    &&& after.wf()
    &&& after.capacity == before.capacity
    &&& after.producer == before.producer
    &&& after.consumer == before.consumer
    &&& match write_range(
        before.capacity,
        producer,
        before.consumer,
        cursor,
        source.len() as int,
    ) {
        Ok(start) => written is Ok && after.bytes@ == overwritten(
            before.bytes@,
            start as int,
            source,
        ),
        Err(error) => written == Err::<(), ErrorReport>(error) && after.bytes@ == before.bytes@,
    }
}

/// Whether a publication of a producer at its own cursor took a ring from one state to the other,
/// and turned out so.
pub open spec fn ring_published_through(
    before: RingImage,
    after: RingImage,
    producer: u32,
    cursor: u32,
    published: Result<(), ErrorReport>,
) -> bool {
    &&& before.wf()
    &&& after.wf()
    &&& after.capacity == before.capacity
    &&& after.bytes@ == before.bytes@
    &&& after.consumer == before.consumer
    &&& if publish_allowed(before.capacity, producer, before.consumer, cursor) {
        published is Ok && after.producer == cursor
    } else {
        published == Err::<(), ErrorReport>(memory_report(ErrorCode::InvalidCursor))
            && after.producer == before.producer
    }
}

/// Whether a copy of committed bytes of a ring, for a consumer at its own cursor, turns out so.
pub open spec fn ring_read(
    image: RingImage,
    consumer: u32,
    cursor: u32,
    length: int,
    bytes: Result<Seq<u8>, ErrorReport>,
) -> bool {
    &&& image.wf()
    &&& bytes == match read_range(image.capacity, image.producer, consumer, cursor, length) {
        Ok(start) => Ok(image.bytes@.subrange(start as int, start + length)),
        Err(error) => Err(error),
    }
}

/// Whether a consumption of a consumer at its own cursor took a ring from one state to the other,
/// and turned out so.
pub open spec fn ring_consumed_through(
    before: RingImage,
    after: RingImage,
    consumer: u32,
    cursor: u32,
    consumed: Result<(), ErrorReport>,
) -> bool {
    &&& before.wf()
    &&& after.wf()
    &&& after.capacity == before.capacity
    &&& after.bytes@ == before.bytes@
    &&& after.producer == before.producer
    &&& if consume_allowed(before.capacity, before.producer, consumer, cursor) {
        consumed is Ok && after.consumer == cursor
    } else {
        consumed == Err::<(), ErrorReport>(memory_report(ErrorCode::InvalidCursor))
            && after.consumer == before.consumer
    }
}

/// The cursor that one side of a ring owns, and the accesses that it made.
struct OwnedCursor {
    cursor: u32,
    made: Ghost<Seq<RingAccess>>,
}

/// Producer-owned view of shared bytes and cursors.
///
/// Only this handle moves the producer cursor, so it keeps the cursor itself; the shared ring shows
/// it to the consumer.
pub struct ProducerMemory {
    shared: Arc<RwLock<RingImage, RingPredicate>>,
    capacity: u32,
    own: OwnedCursor,
}

impl ProducerMemory {
    #[verifier::type_invariant]
    spec fn wf(self) -> bool {
        &&& valid_capacity(self.capacity as int)
        &&& self.shared.pred() == (RingPredicate { capacity: self.capacity })
        &&& self.own.cursor == last_published(changes(self.own.made@))
        &&& producer_loads_hold(self.own.made@)
    }

    /// Whether this side and a consumer are the two sides of one ring.
    pub open spec fn shares_ring(self, consumer: ConsumerMemory) -> bool {
        self.ring() is Some && self.ring() == consumer.ring()
    }

    /// Returns the ring's byte capacity.
    pub fn capacity(&self) -> (capacity: u32)
        ensures
            capacity == self.capacity_of(),
            valid_capacity(capacity as int),
    {
        proof {
            use_type_invariant(self);
        }
        self.capacity
    }

    /// Returns the locally owned producer cursor: where this handle published last. Every earlier
    /// load of it found it where the handle stood then.
    pub fn producer_cursor(&self) -> (cursor: u32)
        ensures
            cursor == last_published(self.operations()),
            producer_loads_hold(self.accesses()),
    {
        proof {
            use_type_invariant(self);
        }
        self.own.cursor
    }

    /// Acquires the latest consumer cursor.
    pub fn consumer_cursor(&self) -> u32 {
        let (image, handle) = self.shared.acquire_write();
        let cursor: u32 = image.consumer;
        handle.release_write(image);
        cursor
    }

    /// Writes a contiguous unpublished range at an absolute logical cursor.
    ///
    /// `InvalidRange` is returned when the range crosses the physical ring end or is not wholly
    /// inside producer-owned free space. The consumer cursor is that of the moment of the call.
    pub fn write(&mut self, cursor: u32, source: &[u8]) -> (written: Result<(), ErrorReport>)
        ensures
            final(self).capacity_of() == old(self).capacity_of(),
            final(self).ring() == old(self).ring(),
            exists|before: RingImage, after: RingImage|
                before.capacity == old(self).capacity_of() && #[trigger] ring_wrote(
                    before,
                    after,
                    last_published(old(self).operations()),
                    cursor,
                    source@,
                    written,
                ),
            final(self).operations() == if written is Ok {
                old(self).operations().push(MemoryOperation::Write(cursor, source@))
            } else {
                old(self).operations()
            },
            final(self).accesses() == old(self).accesses().push(
                RingAccess::Changed(
                    MemoryOperation::Write(cursor, source@),
                    plain_outcome(written),
                ),
            ),
    {
        proof {
            use_type_invariant(&*self);
        }
        let (mut image, handle) = self.shared.acquire_write();
        let ghost before = image;
        let written = image.write(self.own.cursor, cursor, source);
        let ghost after = image;
        handle.release_write(image);
        proof {
            assert(ring_wrote(
                before,
                after,
                last_published(self.operations()),
                cursor,
                source@,
                written,
            ));
        }
        self.own = OwnedCursor {
            cursor: self.own.cursor,
            made: Ghost(
                self.own.made@.push(
                    RingAccess::Changed(
                        MemoryOperation::Write(cursor, source@),
                        plain_outcome(written),
                    ),
                ),
            ),
        };
        written
    }

    /// Publishes all writes through `cursor`.
    ///
    /// `InvalidCursor` is returned rather than publishing beyond producer-owned free space. The
    /// consumer cursor is that of the moment of the call.
    pub fn publish(&mut self, cursor: u32) -> (published: Result<(), ErrorReport>)
        ensures
            final(self).capacity_of() == old(self).capacity_of(),
            final(self).ring() == old(self).ring(),
            exists|before: RingImage, after: RingImage|
                before.capacity == old(self).capacity_of() && #[trigger] ring_published_through(
                    before,
                    after,
                    last_published(old(self).operations()),
                    cursor,
                    published,
                ),
            final(self).operations() == if published is Ok {
                old(self).operations().push(MemoryOperation::Publish(cursor))
            } else {
                old(self).operations()
            },
            final(self).accesses() == old(self).accesses().push(
                RingAccess::Changed(MemoryOperation::Publish(cursor), plain_outcome(published)),
            ),
            last_published(final(self).operations()) == if published is Ok {
                cursor
            } else {
                last_published(old(self).operations())
            },
    {
        proof {
            use_type_invariant(&*self);
        }
        let (mut image, handle) = self.shared.acquire_write();
        let ghost before = image;
        let published = image.publish(self.own.cursor, cursor);
        let ghost after = image;
        handle.release_write(image);
        proof {
            assert(ring_published_through(
                before,
                after,
                last_published(self.operations()),
                cursor,
                published,
            ));
        }
        self.own = OwnedCursor {
            cursor: if published.is_ok() {
                cursor
            } else {
                self.own.cursor
            },
            made: Ghost(
                self.own.made@.push(
                    RingAccess::Changed(MemoryOperation::Publish(cursor), plain_outcome(published)),
                ),
            ),
        };
        published
    }
}

impl RingProducer for ProducerMemory {
    closed spec fn capacity_of(&self) -> u32 {
        self.capacity
    }

    closed spec fn ring(&self) -> Option<Arc<RwLock<RingImage, RingPredicate>>> {
        Some(self.shared)
    }

    closed spec fn operations(&self) -> Seq<MemoryOperation> {
        changes(self.own.made@)
    }

    closed spec fn accesses(&self) -> Seq<RingAccess> {
        self.own.made@
    }

    open spec fn loads_producer(&self, outcome: Result<u32, ErrorReport>) -> bool {
        outcome == Ok::<u32, ErrorReport>(last_published(self.operations()))
    }

    open spec fn loads_consumer(&self, outcome: Result<u32, ErrorReport>) -> bool {
        outcome is Ok
    }

    proof fn operations_are_changes(&self) {
    }

    fn capacity(&self) -> (capacity: u32) {
        proof {
            use_type_invariant(self);
        }
        self.capacity
    }

    fn load_producer(&self) -> (cursor: Result<u32, ErrorReport>) {
        Ok(self.producer_cursor())
    }

    fn load_consumer(&self) -> (cursor: Result<u32, ErrorReport>)
        ensures
            cursor is Ok,
    {
        Ok(self.consumer_cursor())
    }

    fn observe_producer(&mut self) -> (seen: Result<u32, ErrorReport>) {
        let seen: Result<u32, ErrorReport> = Ok(self.producer_cursor());
        proof {
            use_type_invariant(&*self);
        }
        self.own = OwnedCursor {
            cursor: self.own.cursor,
            made: Ghost(self.own.made@.push(RingAccess::Producer(seen))),
        };
        seen
    }

    fn observe_consumer(&mut self) -> (seen: Result<u32, ErrorReport>)
        ensures
            seen is Ok,
    {
        let seen: Result<u32, ErrorReport> = Ok(self.consumer_cursor());
        proof {
            use_type_invariant(&*self);
        }
        self.own = OwnedCursor {
            cursor: self.own.cursor,
            made: Ghost(self.own.made@.push(RingAccess::Consumer(seen))),
        };
        seen
    }

    fn write_at(&mut self, cursor: u32, source: &[u8]) -> (written: Result<(), ErrorReport>)
        ensures
            exists|before: RingImage, after: RingImage|
                before.capacity == old(self).capacity_of() && #[trigger] ring_wrote(
                    before,
                    after,
                    last_published(old(self).operations()),
                    cursor,
                    source@,
                    written,
                ),
    {
        self.write(cursor, source)
    }

    fn publish_through(&mut self, cursor: u32) -> (published: Result<(), ErrorReport>)
        ensures
            exists|before: RingImage, after: RingImage|
                before.capacity == old(self).capacity_of() && #[trigger] ring_published_through(
                    before,
                    after,
                    last_published(old(self).operations()),
                    cursor,
                    published,
                ),
    {
        self.publish(cursor)
    }
}

/// Consumer-owned view of shared bytes and cursors.
///
/// Only this handle moves the consumer cursor, so it keeps the cursor itself; the shared ring shows
/// it to the producer.
pub struct ConsumerMemory {
    shared: Arc<RwLock<RingImage, RingPredicate>>,
    capacity: u32,
    own: OwnedCursor,
}

impl ConsumerMemory {
    #[verifier::type_invariant]
    spec fn wf(self) -> bool {
        &&& valid_capacity(self.capacity as int)
        &&& self.shared.pred() == (RingPredicate { capacity: self.capacity })
        &&& self.own.cursor == last_consumed(changes(self.own.made@))
        &&& consumer_loads_hold(self.own.made@)
    }

    /// Returns the ring's byte capacity.
    pub fn capacity(&self) -> (capacity: u32)
        ensures
            capacity == self.capacity_of(),
            valid_capacity(capacity as int),
    {
        proof {
            use_type_invariant(self);
        }
        self.capacity
    }

    /// Acquires the latest producer cursor.
    pub fn producer_cursor(&self) -> u32 {
        let (image, handle) = self.shared.acquire_write();
        let cursor: u32 = image.producer;
        handle.release_write(image);
        cursor
    }

    /// Returns the locally owned consumer cursor: where this handle consumed last. Every earlier
    /// load of it found it where the handle stood then.
    pub fn consumer_cursor(&self) -> (cursor: u32)
        ensures
            cursor == last_consumed(self.operations()),
            consumer_loads_hold(self.accesses()),
    {
        proof {
            use_type_invariant(self);
        }
        self.own.cursor
    }

    /// Copies one contiguous committed range at an absolute logical cursor.
    ///
    /// `InvalidRange` is returned when the range crosses the physical ring end or is not wholly
    /// inside consumer-owned committed space. The bytes and the producer cursor are those of the
    /// moment of the call.
    pub fn read(&self, cursor: u32, length: usize) -> (bytes: Result<Vec<u8>, ErrorReport>)
        ensures
            bytes matches Ok(copied) ==> copied@.len() == length,
            exists|image: RingImage|
                image.capacity == self.capacity_of() && #[trigger] ring_read(
                    image,
                    last_consumed(self.operations()),
                    cursor,
                    length as int,
                    copied_bytes(bytes),
                ),
    {
        proof {
            use_type_invariant(self);
        }
        let (image, handle) = self.shared.acquire_write();
        let bytes = image.read(self.own.cursor, cursor, length);
        proof {
            vstd::arithmetic::div_mod::lemma_mod_bound(cursor as int, image.capacity as int);
            assert(ring_read(
                image,
                last_consumed(self.operations()),
                cursor,
                length as int,
                copied_bytes(bytes),
            ));
        }
        handle.release_write(image);
        bytes
    }

    /// Releases everything before `cursor`.
    ///
    /// `InvalidCursor` is returned rather than consuming beyond committed bytes. The producer
    /// cursor is that of the moment of the call.
    pub fn consume(&mut self, cursor: u32) -> (consumed: Result<(), ErrorReport>)
        ensures
            final(self).capacity_of() == old(self).capacity_of(),
            final(self).ring() == old(self).ring(),
            exists|before: RingImage, after: RingImage|
                before.capacity == old(self).capacity_of() && #[trigger] ring_consumed_through(
                    before,
                    after,
                    last_consumed(old(self).operations()),
                    cursor,
                    consumed,
                ),
            final(self).operations() == if consumed is Ok {
                old(self).operations().push(MemoryOperation::Consume(cursor))
            } else {
                old(self).operations()
            },
            final(self).accesses() == old(self).accesses().push(
                RingAccess::Changed(MemoryOperation::Consume(cursor), plain_outcome(consumed)),
            ),
            last_consumed(final(self).operations()) == if consumed is Ok {
                cursor
            } else {
                last_consumed(old(self).operations())
            },
    {
        proof {
            use_type_invariant(&*self);
        }
        let (mut image, handle) = self.shared.acquire_write();
        let ghost before = image;
        let consumed = image.consume(self.own.cursor, cursor);
        let ghost after = image;
        handle.release_write(image);
        proof {
            assert(ring_consumed_through(
                before,
                after,
                last_consumed(self.operations()),
                cursor,
                consumed,
            ));
        }
        self.own = OwnedCursor {
            cursor: if consumed.is_ok() {
                cursor
            } else {
                self.own.cursor
            },
            made: Ghost(
                self.own.made@.push(
                    RingAccess::Changed(MemoryOperation::Consume(cursor), plain_outcome(consumed)),
                ),
            ),
        };
        consumed
    }
}

impl RingConsumer for ConsumerMemory {
    closed spec fn capacity_of(&self) -> u32 {
        self.capacity
    }

    closed spec fn ring(&self) -> Option<Arc<RwLock<RingImage, RingPredicate>>> {
        Some(self.shared)
    }

    closed spec fn operations(&self) -> Seq<MemoryOperation> {
        changes(self.own.made@)
    }

    closed spec fn accesses(&self) -> Seq<RingAccess> {
        self.own.made@
    }

    open spec fn loads_producer(&self, outcome: Result<u32, ErrorReport>) -> bool {
        outcome is Ok
    }

    open spec fn loads_consumer(&self, outcome: Result<u32, ErrorReport>) -> bool {
        outcome == Ok::<u32, ErrorReport>(last_consumed(self.operations()))
    }

    open spec fn reads_bytes(
        &self,
        cursor: u32,
        length: usize,
        outcome: Result<Seq<u8>, ErrorReport>,
    ) -> bool {
        exists|image: RingImage|
            image.capacity == self.capacity_of() && #[trigger] ring_read(
                image,
                last_consumed(self.operations()),
                cursor,
                length as int,
                outcome,
            )
    }

    proof fn operations_are_changes(&self) {
    }

    fn capacity(&self) -> (capacity: u32) {
        proof {
            use_type_invariant(self);
        }
        self.capacity
    }

    fn load_producer(&self) -> (cursor: Result<u32, ErrorReport>)
        ensures
            cursor is Ok,
    {
        Ok(self.producer_cursor())
    }

    fn load_consumer(&self) -> (cursor: Result<u32, ErrorReport>) {
        Ok(self.consumer_cursor())
    }

    fn observe_producer(&mut self) -> (seen: Result<u32, ErrorReport>)
        ensures
            seen is Ok,
    {
        let seen: Result<u32, ErrorReport> = Ok(self.producer_cursor());
        proof {
            use_type_invariant(&*self);
        }
        self.own = OwnedCursor {
            cursor: self.own.cursor,
            made: Ghost(self.own.made@.push(RingAccess::Producer(seen))),
        };
        seen
    }

    fn observe_consumer(&mut self) -> (seen: Result<u32, ErrorReport>) {
        let seen: Result<u32, ErrorReport> = Ok(self.consumer_cursor());
        proof {
            use_type_invariant(&*self);
        }
        self.own = OwnedCursor {
            cursor: self.own.cursor,
            made: Ghost(self.own.made@.push(RingAccess::Consumer(seen))),
        };
        seen
    }

    fn observe_bytes(&mut self, cursor: u32, length: usize) -> (seen: Result<
        Vec<u8>,
        ErrorReport,
    >) {
        let seen = self.read(cursor, length);
        proof {
            use_type_invariant(&*self);
        }
        self.own = OwnedCursor {
            cursor: self.own.cursor,
            made: Ghost(
                self.own.made@.push(RingAccess::Bytes(cursor, length as nat, copied_bytes(seen))),
            ),
        };
        seen
    }

    fn read_at(&self, cursor: u32, length: usize) -> (bytes: Result<Vec<u8>, ErrorReport>) {
        self.read(cursor, length)
    }

    fn consume_through(&mut self, cursor: u32) -> (consumed: Result<(), ErrorReport>)
        ensures
            exists|before: RingImage, after: RingImage|
                before.capacity == old(self).capacity_of() && #[trigger] ring_consumed_through(
                    before,
                    after,
                    last_consumed(old(self).operations()),
                    cursor,
                    consumed,
                ),
    {
        self.consume(cursor)
    }
}

/// A publication goes by the free space of the ring.
///
/// Where the consumer stands at a cursor meanwhile, it succeeds exactly where the advance from the
/// cursor that its producer published last fits the bytes that are free, and the producer then
/// stands at the given cursor. Otherwise the producer stays where it was. The bytes and the
/// consumer cursor stay in both cases.
pub proof fn law_a_publication_takes_free_space(
    before: RingImage,
    after: RingImage,
    operations: Seq<MemoryOperation>,
    cursor: u32,
    published: Result<(), ErrorReport>,
)
    requires
        ring_published_through(before, after, last_published(operations), cursor, published),
    ensures
        ({
            let own = last_published(operations);
            let used = cursor_distance(before.consumer, own);
            let advance = cursor_distance(own, cursor);
            let behind = last_published(
                if published is Ok {
                    operations.push(MemoryOperation::Publish(cursor))
                } else {
                    operations
                },
            );
            &&& published is Ok <==> used <= before.capacity && advance <= before.capacity - used
            &&& published is Ok ==> behind == cursor && after.producer == cursor
            &&& published matches Err(error) ==> error == memory_report(ErrorCode::InvalidCursor)
                && behind == own && after.producer == before.producer
            &&& after.consumer == before.consumer
            &&& after.bytes@ == before.bytes@
        }),
{
}

/// A consumption goes by the committed bytes of the ring.
///
/// Where the producer stands at a cursor meanwhile, it succeeds exactly where the advance from the
/// cursor that its consumer consumed last is committed, and the consumer then stands at the given
/// cursor. Otherwise the consumer stays where it was. The bytes and the producer cursor stay in
/// both cases.
pub proof fn law_a_consumption_takes_committed_bytes(
    before: RingImage,
    after: RingImage,
    operations: Seq<MemoryOperation>,
    cursor: u32,
    consumed: Result<(), ErrorReport>,
)
    requires
        ring_consumed_through(before, after, last_consumed(operations), cursor, consumed),
    ensures
        ({
            let own = last_consumed(operations);
            let used = cursor_distance(own, before.producer);
            let advance = cursor_distance(own, cursor);
            let behind = last_consumed(
                if consumed is Ok {
                    operations.push(MemoryOperation::Consume(cursor))
                } else {
                    operations
                },
            );
            &&& consumed is Ok <==> used <= before.capacity && advance <= used
            &&& consumed is Ok ==> behind == cursor && after.consumer == cursor
            &&& consumed matches Err(error) ==> error == memory_report(ErrorCode::InvalidCursor)
                && behind == own && after.consumer == before.consumer
            &&& after.producer == before.producer
            &&& after.bytes@ == before.bytes@
        }),
{
}

/// Writing never touches a committed byte: a byte at a cursor between the consumer and the producer
/// keeps its value.
pub proof fn law_writes_spare_committed_bytes(
    bytes: Seq<u8>,
    capacity: u32,
    producer: u32,
    consumer: u32,
    cursor: u32,
    source: Seq<u8>,
    position: int,
)
    requires
        valid_capacity(capacity as int),
        bytes.len() == capacity,
        consumer <= producer <= cursor,
        cursor + source.len() <= u32::MAX,
        consumer <= position < producer,
    ensures
        write_range(capacity, producer, consumer, cursor, source.len() as int) matches Ok(start)
            ==> overwritten(bytes, start as int, source)[position % capacity as int]
            == bytes[position % capacity as int],
{
    let ring = capacity as int;
    let start = cursor as int % ring;
    vstd::arithmetic::div_mod::lemma_mod_bound(position, ring);
    vstd::arithmetic::div_mod::lemma_mod_bound(cursor as int, ring);
    if write_range(capacity, producer, consumer, cursor, source.len() as int) is Ok {
        let at = position % ring;
        if start <= at < start + source.len() {
            // The written cursor with the same physical offset lies less than one ring ahead.
            let twin = cursor + (at - start);
            vstd::arithmetic::div_mod::lemma_fundamental_div_mod(position, ring);
            vstd::arithmetic::div_mod::lemma_fundamental_div_mod(cursor as int, ring);
            let turns = cursor as int / ring - position / ring;
            assert(twin - position == ring * turns) by (nonlinear_arith)
                requires
                    twin == cursor + (at - start),
                    position == ring * (position / ring) + at,
                    cursor as int == ring * (cursor as int / ring) + start,
                    turns == cursor as int / ring - position / ring,
            ;
            assert(0 < twin - position < ring);
            assert(false) by (nonlinear_arith)
                requires
                    0 < ring * turns < ring,
                    ring > 0,
            ;
        }
    }
}

/// A range that may be written lies in one piece inside of the ring, right where its cursor points,
/// and beyond everything that is committed and not consumed.
pub proof fn law_writable_ranges_are_free(
    capacity: u32,
    producer: u32,
    consumer: u32,
    cursor: u32,
    length: usize,
    checked: Result<u32, ErrorReport>,
)
    requires
        valid_capacity(capacity as int),
        call_ensures(check_write, (capacity, producer, consumer, cursor, length), checked),
    ensures
        checked is Ok <==> cursor_distance(consumer, producer) + cursor_distance(producer, cursor)
            + length <= capacity && cursor as int % capacity as int + length <= capacity,
        checked matches Ok(start) ==> start == cursor % capacity && start + length <= capacity,
        checked matches Err(error) ==> (error.code is InvalidCursor <==> cursor_distance(
            consumer,
            producer,
        ) > capacity),
{
}

/// A range that may be read lies in one piece inside of the ring, right where its cursor points,
/// and within what is committed and not consumed.
pub proof fn law_readable_ranges_are_committed(
    capacity: u32,
    producer: u32,
    consumer: u32,
    cursor: u32,
    length: usize,
    checked: Result<u32, ErrorReport>,
)
    requires
        valid_capacity(capacity as int),
        call_ensures(check_read, (capacity, producer, consumer, cursor, length), checked),
    ensures
        checked is Ok <==> cursor_distance(consumer, producer) <= capacity && cursor_distance(
            consumer,
            cursor,
        ) + length <= cursor_distance(consumer, producer) && cursor as int % capacity as int
            + length <= capacity,
        checked matches Ok(start) ==> start == cursor % capacity && start + length <= capacity,
{
}

/// A cursor may be published exactly where what is committed then still fits the ring, and consumed
/// exactly where it does not pass what is committed; the committed bytes move by the distance of
/// the cursors.
pub proof fn law_cursors_move_within_the_ring(
    capacity: u32,
    producer: u32,
    consumer: u32,
    cursor: u32,
    published: Result<(), ErrorReport>,
    consumed: Result<(), ErrorReport>,
)
    requires
        call_ensures(check_publish, (capacity, producer, consumer, cursor), published),
        call_ensures(check_consume, (capacity, producer, consumer, cursor), consumed),
    ensures
        published is Ok ==> cursor_distance(consumer, cursor) == cursor_distance(consumer, producer)
            + cursor_distance(producer, cursor) && cursor_distance(consumer, cursor) <= capacity,
        published is Err <==> cursor_distance(consumer, producer) + cursor_distance(
            producer,
            cursor,
        ) > capacity,
        consumed is Ok ==> cursor_distance(cursor, producer) == cursor_distance(consumer, producer)
            - cursor_distance(consumer, cursor) && cursor_distance(cursor, producer) <= capacity,
        consumed is Err <==> cursor_distance(consumer, producer) > capacity || cursor_distance(
            consumer,
            cursor,
        ) > cursor_distance(consumer, producer),
{
}

/// Bytes that were laid over a ring are read back from where they were laid, and nothing else
/// changed.
pub proof fn law_overwritten_bytes_are_read_back(
    bytes: Seq<u8>,
    offset: int,
    source: Seq<u8>,
)
    requires
        0 <= offset,
        offset + source.len() <= bytes.len(),
    ensures
        overwritten(bytes, offset, source).len() == bytes.len(),
        overwritten(bytes, offset, source).subrange(offset, offset + source.len()) == source,
        overwritten(bytes, offset, source).subrange(0, offset) == bytes.subrange(0, offset),
        overwritten(bytes, offset, source).skip(offset + source.len()) == bytes.skip(
            offset + source.len(),
        ),
        overwritten(overwritten(bytes, offset, source), offset, bytes.subrange(
            offset,
            offset + source.len(),
        )) == bytes,
{
    let after = overwritten(bytes, offset, source);
    assert(after.subrange(offset, offset + source.len()) =~= source);
    assert(after.subrange(0, offset) =~= bytes.subrange(0, offset));
    assert(after.skip(offset + source.len()) =~= bytes.skip(offset + source.len()));
    assert(overwritten(after, offset, bytes.subrange(offset, offset + source.len())) =~= bytes);
}

/// A failure of shared ring memory keeps its code; it is one of memory, and another endpoint gets
/// over it.
pub proof fn law_memory_failures_are_replaced(code: ErrorCode)
    ensures
        memory_report(code).code == code,
        memory_report(code).category is Memory,
        memory_report(code).recoverability is ReplaceEndpoint,
{
}

/// A range that may not be read is refused as a range, and so is one that may not be written
/// between cursors that agree.
pub proof fn law_refused_ranges_are_told_apart(
    capacity: u32,
    producer: u32,
    consumer: u32,
    cursor: u32,
    length: int,
)
    ensures
        read_range(capacity, producer, consumer, cursor, length) matches Err(error)
            ==> error.code is InvalidRange,
        write_range(capacity, producer, consumer, cursor, length) matches Err(error) ==> {
            &&& error.code is InvalidCursor <==> cursor_distance(consumer, producer) > capacity
            &&& error.code is InvalidRange <==> cursor_distance(consumer, producer) <= capacity
        },
{
}

} // verus!
