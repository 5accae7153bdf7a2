//! The two halves of a ring that lives in a mapped region.

use std::sync::Arc;

use vstd::prelude::*;
use vstd::rwlock::RwLock;

use crate::data_plane::layout::{capacity_is_valid, valid_capacity};
use crate::data_plane::region_layout::{
    CONSUMER_CURSOR_OFFSET, PRODUCER_CURSOR_OFFSET, REGION_HEADER_SIZE,
};
use crate::data_plane::ring_core::cursor_distance;
use crate::data_plane::ring_memory::{
    check_consume, check_publish, check_read, check_write, consume_allowed, memory_error,
    memory_report, publish_allowed, read_range, write_range, MemoryOperation, RingAccess,
    RingConsumer, RingImage, RingPredicate, RingProducer,
};
use crate::data_plane::ring_model::{changes, changes_push};
use crate::domain::error::{plain_outcome, ErrorCode, ErrorReport};
use crate::memory::api::{copied_bytes, MappedRegion, MappingAccess, RegionStore};

verus! {

broadcast use changes_push;

/// A ring capacity that was checked.
pub struct RingCapacity {
    value: u32,
}

impl View for RingCapacity {
    type V = u32;

    closed spec fn view(&self) -> u32 {
        self.value
    }
}

impl RingCapacity {
    #[verifier::type_invariant]
    spec fn is_valid(self) -> bool {
        valid_capacity(self.value as int)
    }

    /// Checks a capacity.
    pub fn new(value: u32) -> (created: Option<Self>)
        ensures
            match created {
                Some(capacity) => valid_capacity(value as int) && capacity@ == value,
                None => !valid_capacity(value as int),
            },
    {
        if capacity_is_valid(value) {
            Some(RingCapacity { value })
        } else {
            None
        }
    }

    /// The checked capacity.
    pub fn get(&self) -> (value: u32)
        ensures
            value == self@,
            valid_capacity(value as int),
    {
        proof {
            use_type_invariant(self);
        }
        self.value
    }
}

/// Whether a region can hold a ring of this capacity for a side that stores cursors.
pub open spec fn can_hold<Region: MappedRegion>(region: Region, capacity: u32) -> bool {
    &&& valid_capacity(capacity as int)
    &&& region.granted() is ReadWrite
    &&& region.mapped_len() == REGION_HEADER_SIZE + capacity
}

fn checked_capacity<Region: MappedRegion>(region: &Region, capacity: u32) -> (checked: Result<
    RingCapacity,
    ErrorReport,
>)
    ensures
        match checked {
            Ok(found) => can_hold(*region, capacity) && found@ == capacity,
            Err(error) => !can_hold(*region, capacity) && error == memory_report(
                ErrorCode::InvalidRange,
            ),
        },
{
    let length: usize = region.len();
    let access = region.access();
    let found = RingCapacity::new(capacity);
    match (found, access) {
        (Some(checked), MappingAccess::ReadWrite) => {
            if length < REGION_HEADER_SIZE || length - REGION_HEADER_SIZE != capacity as usize {
                return Err(memory_error(ErrorCode::InvalidRange));
            }
            Ok(checked)
        },
        _ => Err(memory_error(ErrorCode::InvalidRange)),
    }
}

/// Whether loading both cursors of a ring, the producer's first, may turn out so.
pub open spec fn cursors_loaded<Region: MappedRegion>(
    region: Region,
    outcome: Result<(u32, u32), ErrorReport>,
) -> bool {
    match outcome {
        Ok((producer, consumer)) => {
            &&& region.loads(PRODUCER_CURSOR_OFFSET, Ok(producer))
            &&& region.loads(CONSUMER_CURSOR_OFFSET, Ok(consumer))
        },
        Err(error) => {
            ||| region.loads(PRODUCER_CURSOR_OFFSET, Err(error))
            ||| region.loads(CONSUMER_CURSOR_OFFSET, Err(error)) && exists|producer: u32| #[trigger]
                region.loads(PRODUCER_CURSOR_OFFSET, Ok(producer))
        },
    }
}

/// Whether writing bytes at a cursor may turn out so: both cursors are loaded, the range has to be
/// free between them, and the bytes are then copied behind the header.
pub open spec fn ring_written<Region: MappedRegion>(
    region: Region,
    capacity: u32,
    cursor: u32,
    source: Seq<u8>,
    outcome: Result<(), ErrorReport>,
) -> bool {
    ||| outcome matches Err(error) && cursors_loaded(region, Err(error))
    ||| exists|producer: u32, consumer: u32| #[trigger]
        cursors_loaded(region, Ok((producer, consumer))) && match write_range(
            capacity,
            producer,
            consumer,
            cursor,
            source.len() as int,
        ) {
            Err(error) => outcome == Err::<(), ErrorReport>(error),
            Ok(start) => if REGION_HEADER_SIZE + start > usize::MAX {
                outcome == Err::<(), ErrorReport>(memory_report(ErrorCode::InvalidRange))
            } else {
                region.writes((REGION_HEADER_SIZE + start) as usize, source, outcome)
            },
        }
}

/// Whether publishing through a cursor may turn out so.
pub open spec fn ring_published<Region: MappedRegion>(
    region: Region,
    capacity: u32,
    cursor: u32,
    outcome: Result<(), ErrorReport>,
) -> bool {
    ||| outcome matches Err(error) && cursors_loaded(region, Err(error))
    ||| exists|producer: u32, consumer: u32| #[trigger]
        cursors_loaded(region, Ok((producer, consumer))) && if publish_allowed(
            capacity,
            producer,
            consumer,
            cursor,
        ) {
            region.releases(PRODUCER_CURSOR_OFFSET, cursor, outcome)
        } else {
            outcome == Err::<(), ErrorReport>(memory_report(ErrorCode::InvalidCursor))
        }
}

/// Whether reading bytes at a cursor may turn out so: both cursors are loaded, the range has to be
/// committed between them, and the bytes are then copied from behind the header.
pub open spec fn ring_read<Region: MappedRegion>(
    region: Region,
    capacity: u32,
    cursor: u32,
    length: usize,
    outcome: Result<Seq<u8>, ErrorReport>,
) -> bool {
    ||| outcome matches Err(error) && cursors_loaded(region, Err(error))
    ||| exists|producer: u32, consumer: u32| #[trigger]
        cursors_loaded(region, Ok((producer, consumer))) && match read_range(
            capacity,
            producer,
            consumer,
            cursor,
            length as int,
        ) {
            Err(error) => outcome == Err::<Seq<u8>, ErrorReport>(error),
            Ok(start) => if REGION_HEADER_SIZE + start > usize::MAX {
                outcome == Err::<Seq<u8>, ErrorReport>(memory_report(ErrorCode::InvalidRange))
            } else {
                region.reads((REGION_HEADER_SIZE + start) as usize, length, outcome)
            },
        }
}

/// Whether releasing everything before a cursor may turn out so.
pub open spec fn ring_consumed<Region: MappedRegion>(
    region: Region,
    capacity: u32,
    cursor: u32,
    outcome: Result<(), ErrorReport>,
) -> bool {
    ||| outcome matches Err(error) && cursors_loaded(region, Err(error))
    ||| exists|producer: u32, consumer: u32| #[trigger]
        cursors_loaded(region, Ok((producer, consumer))) && if consume_allowed(
            capacity,
            producer,
            consumer,
            cursor,
        ) {
            region.releases(CONSUMER_CURSOR_OFFSET, cursor, outcome)
        } else {
            outcome == Err::<(), ErrorReport>(memory_report(ErrorCode::InvalidCursor))
        }
}

/// Loads both cursors of a ring, the producer's first.
fn load_cursors<Region: MappedRegion>(region: &Region) -> (loaded: Result<
    (u32, u32),
    ErrorReport,
>)
    ensures
        cursors_loaded(*region, loaded),
{
    let producer: u32 = region.load_u32_acquire(PRODUCER_CURSOR_OFFSET)?;
    let consumer: u32 = region.load_u32_acquire(CONSUMER_CURSOR_OFFSET)?;
    Ok((producer, consumer))
}

/// Producer half of a mapped ring.
pub struct MappedProducer<Region> {
    region: Region,
    capacity: RingCapacity,
    made: Ghost<Seq<RingAccess>>,
}

impl<Region: MappedRegion> MappedProducer<Region> {
    /// The region of the ring.
    pub closed spec fn mapping(self) -> Region {
        self.region
    }

    fn store_bytes(&mut self, cursor: u32, source: &[u8]) -> (written: Result<(), ErrorReport>)
        ensures
            final(self).capacity_of() == old(self).capacity_of(),
            final(self).operations() == old(self).operations(),
            final(self).accesses() == old(self).accesses(),
            written is Ok ==> final(self).mapping().stores() == old(self).mapping().stores().push(
                RegionStore::Bytes(
                    ring_offset(old(self).capacity_of(), cursor) as usize,
                    source@,
                ),
            ),
            written is Err ==> final(self).mapping().stores() == old(self).mapping().stores(),
            ring_written(
                old(self).mapping(),
                old(self).capacity_of(),
                cursor,
                source@,
                plain_outcome(written),
            ),
    {
        let (producer, consumer) = load_cursors(&self.region)?;
        let start: u32 = check_write(
            self.capacity.get(),
            producer,
            consumer,
            cursor,
            source.len(),
        )?;
        match (start as usize).checked_add(REGION_HEADER_SIZE) {
            Some(offset) => self.region.write(offset, source),
            None => Err(memory_error(ErrorCode::InvalidRange)),
        }
    }

    fn store_cursor(&mut self, cursor: u32) -> (published: Result<(), ErrorReport>)
        ensures
            final(self).capacity_of() == old(self).capacity_of(),
            final(self).operations() == old(self).operations(),
            final(self).accesses() == old(self).accesses(),
            published is Ok
                ==> final(self).mapping().stores()
                    == old(self).mapping().stores().push(
                    RegionStore::Word(PRODUCER_CURSOR_OFFSET, cursor),
                ),
            published is Err ==> final(self).mapping().stores() == old(self).mapping().stores(),
            ring_published(
                old(self).mapping(),
                old(self).capacity_of(),
                cursor,
                plain_outcome(published),
            ),
    {
        let (producer, consumer) = load_cursors(&self.region)?;
        check_publish(self.capacity.get(), producer, consumer, cursor)?;
        self.region.store_u32_release(PRODUCER_CURSOR_OFFSET, cursor)
    }
}

/// Where the byte at a cursor stands in the region of a ring.
pub open spec fn ring_offset(capacity: u32, cursor: u32) -> int {
    REGION_HEADER_SIZE + cursor as int % capacity as int
}

/// Attaches the producer half of a ring to a region.
///
/// `InvalidRange` is returned for a read-only region or one of another size.
pub fn mapped_producer<Region: MappedRegion>(region: Region, capacity: u32) -> (attached: Result<
    MappedProducer<Region>,
    ErrorReport,
>)
    ensures
        match attached {
            Ok(memory) => {
                &&& can_hold(region, capacity)
                &&& memory.capacity_of() == capacity
                &&& memory.operations() == Seq::<MemoryOperation>::empty()
                &&& memory.mapping() == region
            },
            Err(error) => !can_hold(region, capacity) && error == memory_report(
                ErrorCode::InvalidRange,
            ),
        },
{
    let checked = checked_capacity(&region, capacity)?;
    Ok(
        MappedProducer {
            region,
            capacity: checked,
            made: Ghost(Seq::empty()),
        },
    )
}

impl<Region: MappedRegion> RingProducer for MappedProducer<Region> {
    closed spec fn capacity_of(&self) -> u32 {
        self.capacity@
    }

    open spec fn ring(&self) -> Option<Arc<RwLock<RingImage, RingPredicate>>> {
        None
    }

    closed spec fn operations(&self) -> Seq<MemoryOperation> {
        changes(self.made@)
    }

    closed spec fn accesses(&self) -> Seq<RingAccess> {
        self.made@
    }

    open spec fn loads_producer(&self, outcome: Result<u32, ErrorReport>) -> bool {
        self.mapping().loads(PRODUCER_CURSOR_OFFSET, outcome)
    }

    open spec fn loads_consumer(&self, outcome: Result<u32, ErrorReport>) -> bool {
        self.mapping().loads(CONSUMER_CURSOR_OFFSET, outcome)
    }

    proof fn operations_are_changes(&self) {
    }

    fn capacity(&self) -> (capacity: u32) {
        self.capacity.get()
    }

    fn load_producer(&self) -> (loaded: Result<u32, ErrorReport>) {
        self.region.load_u32_acquire(PRODUCER_CURSOR_OFFSET)
    }

    fn load_consumer(&self) -> (loaded: Result<u32, ErrorReport>) {
        self.region.load_u32_acquire(CONSUMER_CURSOR_OFFSET)
    }

    fn observe_producer(&mut self) -> (seen: Result<u32, ErrorReport>)
        ensures
            final(self).mapping() == old(self).mapping(),
    {
        let seen = self.load_producer();
        self.made = Ghost(self.made@.push(RingAccess::Producer(seen)));
        seen
    }

    fn observe_consumer(&mut self) -> (seen: Result<u32, ErrorReport>)
        ensures
            final(self).mapping() == old(self).mapping(),
    {
        let seen = self.load_consumer();
        self.made = Ghost(self.made@.push(RingAccess::Consumer(seen)));
        seen
    }

    fn write_at(&mut self, cursor: u32, source: &[u8]) -> (written: Result<(), ErrorReport>)
        ensures
            written is Ok ==> final(self).mapping().stores() == old(self).mapping().stores().push(
                RegionStore::Bytes(
                    ring_offset(old(self).capacity_of(), cursor) as usize,
                    source@,
                ),
            ),
            written is Err ==> final(self).mapping().stores() == old(self).mapping().stores(),
            ring_written(
                old(self).mapping(),
                old(self).capacity_of(),
                cursor,
                source@,
                plain_outcome(written),
            ),
    {
        let written = self.store_bytes(cursor, source);
        self.made = Ghost(
            self.made@.push(
                RingAccess::Changed(
                    MemoryOperation::Write(cursor, source@),
                    plain_outcome(written),
                ),
            ),
        );
        written
    }

    fn publish_through(&mut self, cursor: u32) -> (published: Result<(), ErrorReport>)
        ensures
            published is Ok
                ==> final(self).mapping().stores()
                    == old(self).mapping().stores().push(
                    RegionStore::Word(PRODUCER_CURSOR_OFFSET, cursor),
                ),
            published is Err ==> final(self).mapping().stores() == old(self).mapping().stores(),
            ring_published(
                old(self).mapping(),
                old(self).capacity_of(),
                cursor,
                plain_outcome(published),
            ),
    {
        let published = self.store_cursor(cursor);
        self.made = Ghost(
            self.made@.push(
                RingAccess::Changed(MemoryOperation::Publish(cursor), plain_outcome(published)),
            ),
        );
        published
    }
}

/// Consumer half of a mapped ring.
pub struct MappedConsumer<Region> {
    region: Region,
    capacity: RingCapacity,
    made: Ghost<Seq<RingAccess>>,
}

impl<Region: MappedRegion> MappedConsumer<Region> {
    /// The region of the ring.
    pub closed spec fn mapping(self) -> Region {
        self.region
    }

    fn store_cursor(&mut self, cursor: u32) -> (consumed: Result<(), ErrorReport>)
        ensures
            final(self).capacity_of() == old(self).capacity_of(),
            final(self).operations() == old(self).operations(),
            final(self).accesses() == old(self).accesses(),
            consumed is Ok ==> final(self).mapping().stores() == old(self).mapping().stores().push(
                RegionStore::Word(CONSUMER_CURSOR_OFFSET, cursor),
            ),
            consumed is Err ==> final(self).mapping().stores() == old(self).mapping().stores(),
            ring_consumed(
                old(self).mapping(),
                old(self).capacity_of(),
                cursor,
                plain_outcome(consumed),
            ),
    {
        let (producer, consumer) = load_cursors(&self.region)?;
        check_consume(self.capacity.get(), producer, consumer, cursor)?;
        self.region.store_u32_release(CONSUMER_CURSOR_OFFSET, cursor)
    }
}

/// Attaches the consumer half of a ring to a region.
///
/// `InvalidRange` is returned for a read-only region or one of another size.
pub fn mapped_consumer<Region: MappedRegion>(region: Region, capacity: u32) -> (attached: Result<
    MappedConsumer<Region>,
    ErrorReport,
>)
    ensures
        match attached {
            Ok(memory) => {
                &&& can_hold(region, capacity)
                &&& memory.capacity_of() == capacity
                &&& memory.operations() == Seq::<MemoryOperation>::empty()
                &&& memory.mapping() == region
            },
            Err(error) => !can_hold(region, capacity) && error == memory_report(
                ErrorCode::InvalidRange,
            ),
        },
{
    let checked = checked_capacity(&region, capacity)?;
    Ok(
        MappedConsumer {
            region,
            capacity: checked,
            made: Ghost(Seq::empty()),
        },
    )
}

impl<Region: MappedRegion> RingConsumer for MappedConsumer<Region> {
    closed spec fn capacity_of(&self) -> u32 {
        self.capacity@
    }

    open spec fn ring(&self) -> Option<Arc<RwLock<RingImage, RingPredicate>>> {
        None
    }

    closed spec fn operations(&self) -> Seq<MemoryOperation> {
        changes(self.made@)
    }

    closed spec fn accesses(&self) -> Seq<RingAccess> {
        self.made@
    }

    open spec fn loads_producer(&self, outcome: Result<u32, ErrorReport>) -> bool {
        self.mapping().loads(PRODUCER_CURSOR_OFFSET, outcome)
    }

    open spec fn loads_consumer(&self, outcome: Result<u32, ErrorReport>) -> bool {
        self.mapping().loads(CONSUMER_CURSOR_OFFSET, outcome)
    }

    open spec fn reads_bytes(
        &self,
        cursor: u32,
        length: usize,
        outcome: Result<Seq<u8>, ErrorReport>,
    ) -> bool {
        ring_read(self.mapping(), self.capacity_of(), cursor, length, outcome)
    }

    proof fn operations_are_changes(&self) {
    }

    fn capacity(&self) -> (capacity: u32) {
        self.capacity.get()
    }

    fn load_producer(&self) -> (loaded: Result<u32, ErrorReport>) {
        self.region.load_u32_acquire(PRODUCER_CURSOR_OFFSET)
    }

    fn load_consumer(&self) -> (loaded: Result<u32, ErrorReport>) {
        self.region.load_u32_acquire(CONSUMER_CURSOR_OFFSET)
    }

    fn observe_producer(&mut self) -> (seen: Result<u32, ErrorReport>)
        ensures
            final(self).mapping() == old(self).mapping(),
    {
        let seen = self.load_producer();
        self.made = Ghost(self.made@.push(RingAccess::Producer(seen)));
        seen
    }

    fn observe_consumer(&mut self) -> (seen: Result<u32, ErrorReport>)
        ensures
            final(self).mapping() == old(self).mapping(),
    {
        let seen = self.load_consumer();
        self.made = Ghost(self.made@.push(RingAccess::Consumer(seen)));
        seen
    }

    fn observe_bytes(&mut self, cursor: u32, length: usize) -> (seen: Result<Vec<u8>, ErrorReport>)
        ensures
            final(self).mapping() == old(self).mapping(),
    {
        let seen = self.read_at(cursor, length);
        self.made = Ghost(
            self.made@.push(RingAccess::Bytes(cursor, length as nat, copied_bytes(seen))),
        );
        seen
    }

    fn read_at(&self, cursor: u32, length: usize) -> (bytes: Result<Vec<u8>, ErrorReport>) {
        let (producer, consumer) = load_cursors(&self.region)?;
        let start: u32 = check_read(self.capacity.get(), producer, consumer, cursor, length)?;
        match (start as usize).checked_add(REGION_HEADER_SIZE) {
            Some(offset) => self.region.read(offset, length),
            None => Err(memory_error(ErrorCode::InvalidRange)),
        }
    }

    fn consume_through(&mut self, cursor: u32) -> (consumed: Result<(), ErrorReport>)
        ensures
            consumed is Ok ==> final(self).mapping().stores() == old(self).mapping().stores().push(
                RegionStore::Word(CONSUMER_CURSOR_OFFSET, cursor),
            ),
            consumed is Err ==> final(self).mapping().stores() == old(self).mapping().stores(),
            ring_consumed(
                old(self).mapping(),
                old(self).capacity_of(),
                cursor,
                plain_outcome(consumed),
            ),
    {
        let consumed = self.store_cursor(cursor);
        self.made = Ghost(
            self.made@.push(
                RingAccess::Changed(MemoryOperation::Consume(cursor), plain_outcome(consumed)),
            ),
        );
        consumed
    }
}

/// A cursor that was published was stored where the producer's is, and what is committed with it
/// fits the ring between the cursors that were found.
pub proof fn law_published_cursors_fit_the_ring<Region: MappedRegion>(
    region: Region,
    capacity: u32,
    cursor: u32,
)
    requires
        ring_published(region, capacity, cursor, Ok(())),
    ensures
        region.releases(PRODUCER_CURSOR_OFFSET, cursor, Ok(())),
        exists|producer: u32, consumer: u32|
            {
                &&& #[trigger] cursors_loaded(region, Ok((producer, consumer)))
                &&& cursor_distance(consumer, producer) + cursor_distance(producer, cursor)
                    <= capacity
            },
{
    let (producer, consumer) = choose|producer: u32, consumer: u32| #[trigger]
        cursors_loaded(region, Ok((producer, consumer))) && if publish_allowed(
            capacity,
            producer,
            consumer,
            cursor,
        ) {
            region.releases(PRODUCER_CURSOR_OFFSET, cursor, Ok(()))
        } else {
            Ok::<(), ErrorReport>(()) == Err::<(), ErrorReport>(
                memory_report(ErrorCode::InvalidCursor),
            )
        };
    assert(cursors_loaded(region, Ok((producer, consumer))));
    assert(publish_allowed(capacity, producer, consumer, cursor));
}

/// A cursor that was consumed was stored where the consumer's is, and does not pass what was
/// committed between the cursors that were found.
pub proof fn law_consumed_cursors_stay_behind<Region: MappedRegion>(
    region: Region,
    capacity: u32,
    cursor: u32,
)
    requires
        ring_consumed(region, capacity, cursor, Ok(())),
    ensures
        region.releases(CONSUMER_CURSOR_OFFSET, cursor, Ok(())),
        exists|producer: u32, consumer: u32|
            {
                &&& #[trigger] cursors_loaded(region, Ok((producer, consumer)))
                &&& cursor_distance(consumer, cursor) <= cursor_distance(consumer, producer)
                    <= capacity
            },
{
    let (producer, consumer) = choose|producer: u32, consumer: u32| #[trigger]
        cursors_loaded(region, Ok((producer, consumer))) && if consume_allowed(
            capacity,
            producer,
            consumer,
            cursor,
        ) {
            region.releases(CONSUMER_CURSOR_OFFSET, cursor, Ok(()))
        } else {
            Ok::<(), ErrorReport>(()) == Err::<(), ErrorReport>(
                memory_report(ErrorCode::InvalidCursor),
            )
        };
    assert(cursors_loaded(region, Ok((producer, consumer))));
    assert(consume_allowed(capacity, producer, consumer, cursor));
}

/// Whatever is refused once the cursors are known is refused as a range or as a cursor.
pub proof fn law_ring_refusals_are_of_ranges_and_cursors<Region: MappedRegion>(
    region: Region,
    capacity: u32,
    cursor: u32,
    source: Seq<u8>,
    length: usize,
    error: ErrorReport,
)
    requires
        !cursors_loaded(region, Err(error)),
    ensures
        ring_published(region, capacity, cursor, Err(error)) ==> error.code is InvalidCursor
            || region.releases(PRODUCER_CURSOR_OFFSET, cursor, Err(error)),
        ring_consumed(region, capacity, cursor, Err(error)) ==> error.code is InvalidCursor
            || region.releases(CONSUMER_CURSOR_OFFSET, cursor, Err(error)),
        ring_written(region, capacity, cursor, source, Err(error)) ==> error.code is InvalidCursor
            || error.code is InvalidRange || exists|offset: usize| #[trigger]
            region.writes(offset, source, Err(error)),
        ring_read(region, capacity, cursor, length, Err(error)) ==> error.code is InvalidRange
            || exists|offset: usize| #[trigger] region.reads(offset, length, Err(error)),
{
}

} // verus!
