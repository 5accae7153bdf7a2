//! Committed record reading and consumption on the consumer side of a ring.

use vstd::prelude::*;

use crate::data_plane::record::{
    decoded_header, ParsedRecordHeader, RecordFlags, RecordKind, RECORD_PREFIX_SIZE,
};
use crate::data_plane::ring_core::{
    advance, cursor_after, cursor_distance, distance_between, implicit_padding, snapshot_of,
    RingSnapshot, PREFIX,
};
use crate::data_plane::ring_memory::{
    access_failed, accesses_added, cursors_seen, lemma_accesses_added, ConsumerMemory,
    MemoryOperation, RingAccess, RingConsumer,
};
use crate::data_plane::ring_model::{
    answered, item_ahead, last_consumed, last_consumed_push, law_a_receipt_is_consumed_once,
    lemma_replayed_none, lemma_replayed_onward, lemma_replayed_push, record_taken, replayed, since,
    RingModel, RingRecord,
};
use crate::domain::bytes::copy_range;
use crate::domain::error::{
    plain_outcome, report, ErrorCategory, ErrorCode, ErrorReport, Recoverability,
};
use crate::domain::types::{MessageId, Sequence};
use crate::memory::api::copied_bytes;

verus! {

/// The report of a malformed or out-of-order ring.
pub open spec fn reader_report(code: ErrorCode, operation: &'static str) -> ErrorReport {
    report(ErrorCategory::Protocol, code, Recoverability::ReplaceEndpoint, operation)
}

fn reader_error(code: ErrorCode, operation: &'static str) -> (created: ErrorReport)
    ensures
        created == reader_report(code, operation),
{
    ErrorReport::new(ErrorCategory::Protocol, code, Recoverability::ReplaceEndpoint, operation)
}

/// Opaque proof of a validated committed range.
#[derive(Clone, Copy, Debug, PartialEq, Eq, Structural)]
pub struct ReadReceipt {
    current_cursor: u32,
    next_cursor: u32,
    sequence: Option<Sequence>,
}

impl ReadReceipt {
    /// The receipt of a range that begins at one cursor and ends at another.
    pub closed spec fn of(current: u32, next: u32, sequence: Option<Sequence>) -> ReadReceipt {
        ReadReceipt { current_cursor: current, next_cursor: next, sequence }
    }

    /// Cursor of the range.
    pub closed spec fn current(self) -> u32 {
        self.current_cursor
    }

    /// Cursor behind the range.
    pub closed spec fn next(self) -> u32 {
        self.next_cursor
    }

    /// Sequence of the record, absent from padding.
    pub closed spec fn record_sequence(self) -> Option<Sequence> {
        self.sequence
    }
}

/// A receipt holds what it was made from.
pub broadcast proof fn receipt_parts(current: u32, next: u32, sequence: Option<Sequence>)
    ensures
        (#[trigger] ReadReceipt::of(current, next, sequence)).current() == current,
        ReadReceipt::of(current, next, sequence).next() == next,
        ReadReceipt::of(current, next, sequence).record_sequence() == sequence,
{
}

/// Next committed item in physical ring order.
pub enum ReadItem {
    /// No bytes are committed.
    Empty,
    /// Wrap padding to consume before peeking again.
    Padding(ReadReceipt),
    /// A validated record with copied payload bytes.
    Record(PeekedRecord),
}

/// A committed item, with its payload as a mathematical sequence.
pub enum CommittedItem {
    /// No bytes are committed.
    Empty,
    /// Bytes to skip.
    Padding(ReadReceipt),
    /// A record with its header, payload and receipt.
    Record(ParsedRecordHeader, Seq<u8>, ReadReceipt),
}

impl View for ReadItem {
    type V = CommittedItem;

    open spec fn view(&self) -> CommittedItem {
        match *self {
            ReadItem::Empty => CommittedItem::Empty,
            ReadItem::Padding(receipt) => CommittedItem::Padding(receipt),
            ReadItem::Record(record) => CommittedItem::Record(
                record.header,
                record.payload@,
                record.receipt,
            ),
        }
    }
}

/// A validated record copied before its shared range is consumed.
pub struct PeekedRecord {
    /// Parsed fixed-width record header.
    pub header: ParsedRecordHeader,
    /// Exact payload without alignment padding.
    pub payload: Vec<u8>,
    /// Token of the record's range.
    pub receipt: ReadReceipt,
}

impl PeekedRecord {
    /// Returns the token used to publish consumption after inspection ends.
    pub fn receipt(&self) -> (receipt: ReadReceipt)
        ensures
            receipt == self.receipt,
    {
        self.receipt
    }
}

/// Owned record returned by the convenience receive path.
#[derive(Clone, Debug, PartialEq, Eq)]
pub struct OwnedRecord {
    /// Parsed record header.
    pub header: ParsedRecordHeader,
    /// Exact copied payload bytes.
    pub payload: Vec<u8>,
}

impl OwnedRecord {
    /// Returns the message identity, if the record has one.
    pub fn message_id(&self) -> (message_id: Option<MessageId>)
        ensures
            message_id == self.header.message_id,
    {
        self.header.message_id
    }

    /// Returns the record kind.
    pub fn kind(&self) -> (kind: RecordKind)
        ensures
            kind == self.header.kind,
    {
        self.header.kind
    }

    /// Returns the preserved record flags.
    pub fn flags(&self) -> (flags: RecordFlags)
        ensures
            flags == self.header.flags,
    {
        self.header.flags
    }
}

/// Result of publishing consumption.
#[derive(Clone, Copy, Debug, PartialEq, Eq, Structural)]
pub struct ConsumeOutcome {
    /// Committed bytes remaining after consumption.
    pub remaining: u32,
    /// Whether consumption drained the ring completely.
    pub drained: bool,
}

/// The committed bytes that can be read in one physical piece.
pub open spec fn contiguous_length(snapshot: RingSnapshot) -> u32 {
    let tail = snapshot.capacity - snapshot.consumer as int % snapshot.capacity as int;
    if tail < snapshot.used {
        tail as u32
    } else {
        snapshot.used
    }
}

/// Whether the next item is decided by the bytes at the consumer cursor.
pub open spec fn needs_bytes(snapshot: RingSnapshot) -> bool {
    snapshot.used != 0 && implicit_padding(snapshot) == 0 && contiguous_length(snapshot) >= PREFIX
}

/// The next item of a ring whose contiguous committed bytes are `committed`.
pub open spec fn next_item(
    snapshot: RingSnapshot,
    maximum_inline_message: u32,
    expected: Sequence,
    committed: Seq<u8>,
) -> Result<CommittedItem, ErrorReport> {
    let padding = implicit_padding(snapshot);
    if snapshot.used == 0 {
        Ok(CommittedItem::Empty)
    } else if padding != 0 {
        Ok(
            CommittedItem::Padding(
                ReadReceipt::of(
                    snapshot.consumer,
                    cursor_after(snapshot.consumer, padding),
                    None,
                ),
            ),
        )
    } else if contiguous_length(snapshot) < PREFIX {
        Err(reader_report(ErrorCode::Truncated, "committed record prefix"))
    } else {
        match decoded_header(committed, maximum_inline_message) {
            Err(error) => Err(error),
            Ok(header) => {
                let next = cursor_after(snapshot.consumer, header.record_length);
                if header.record_length > contiguous_length(snapshot) {
                    Err(reader_report(ErrorCode::Truncated, "committed record range"))
                } else if header.kind is Padding {
                    Ok(CommittedItem::Padding(ReadReceipt::of(snapshot.consumer, next, None)))
                } else if header.sequence != expected {
                    Err(reader_report(ErrorCode::ProtocolViolation, "record sequence"))
                } else {
                    Ok(
                        CommittedItem::Record(
                            header,
                            committed.subrange(
                                RECORD_PREFIX_SIZE as int,
                                RECORD_PREFIX_SIZE + header.payload_length,
                            ),
                            ReadReceipt::of(snapshot.consumer, next, Some(header.sequence)),
                        ),
                    )
                }
            },
        }
    }
}

/// Decides the next item from the contiguous committed bytes.
///
/// A protocol error is returned before malformed or out-of-range bytes are exposed.
pub fn inspect(
    snapshot: RingSnapshot,
    maximum_inline_message: u32,
    expected: Sequence,
    committed: &[u8],
) -> (item: Result<ReadItem, ErrorReport>)
    requires
        snapshot.wf(),
        needs_bytes(snapshot) ==> committed@.len() == contiguous_length(snapshot),
    ensures
        match item {
            Ok(found) => next_item(
                snapshot,
                maximum_inline_message,
                expected,
                committed@,
            ) == Ok::<CommittedItem, ErrorReport>(found@),
            Err(error) => next_item(
                snapshot,
                maximum_inline_message,
                expected,
                committed@,
            ) == Err::<CommittedItem, ErrorReport>(error),
        },
{
    if snapshot.is_empty() {
        return Ok(ReadItem::Empty);
    }
    let padding: u32 = snapshot.implicit_read_padding();
    if padding != 0 {
        return Ok(
            ReadItem::Padding(
                ReadReceipt {
                    current_cursor: snapshot.consumer,
                    next_cursor: advance(snapshot.consumer, padding),
                    sequence: None,
                },
            ),
        );
    }
    let contiguous: u32 = contiguous_bytes(snapshot);
    if contiguous < PREFIX {
        return Err(reader_error(ErrorCode::Truncated, "committed record prefix"));
    }
    let header = ParsedRecordHeader::decode_committed(committed, maximum_inline_message)?;
    if header.record_length > contiguous {
        return Err(reader_error(ErrorCode::Truncated, "committed record range"));
    }
    let next: u32 = advance(snapshot.consumer, header.record_length);
    if header.kind == RecordKind::Padding {
        return Ok(
            ReadItem::Padding(
                ReadReceipt {
                    current_cursor: snapshot.consumer,
                    next_cursor: next,
                    sequence: None,
                },
            ),
        );
    }
    if header.sequence != expected {
        return Err(reader_error(ErrorCode::ProtocolViolation, "record sequence"));
    }
    let payload_end: usize = RECORD_PREFIX_SIZE + header.payload_length as usize;
    let payload = copy_range(committed, RECORD_PREFIX_SIZE, payload_end);
    Ok(
        ReadItem::Record(
            PeekedRecord {
                header,
                payload,
                receipt: ReadReceipt {
                    current_cursor: snapshot.consumer,
                    next_cursor: next,
                    sequence: Some(header.sequence),
                },
            },
        ),
    )
}

fn contiguous_bytes(snapshot: RingSnapshot) -> (length: u32)
    requires
        snapshot.wf(),
    ensures
        length == contiguous_length(snapshot),
{
    let tail: u32 = snapshot.capacity - snapshot.consumer_offset();
    if tail < snapshot.used {
        tail
    } else {
        snapshot.used
    }
}

/// Whether an item is the next one of some state of a ring with the given capacity.
pub open spec fn observable(
    capacity: u32,
    maximum_inline_message: u32,
    expected: Sequence,
    item: CommittedItem,
) -> bool {
    exists|producer: u32, consumer: u32, committed: Seq<u8>|
        #[trigger] observed_in(
            capacity,
            maximum_inline_message,
            expected,
            producer,
            consumer,
            committed,
            item,
        )
}

/// Whether a record is the next one of some state of a ring with the given capacity.
pub open spec fn receivable(
    capacity: u32,
    maximum_inline_message: u32,
    expected: Sequence,
    header: ParsedRecordHeader,
    payload: Seq<u8>,
) -> bool {
    exists|receipt: ReadReceipt|
        #[trigger] observable(
            capacity,
            maximum_inline_message,
            expected,
            CommittedItem::Record(header, payload, receipt),
        )
}

/// Whether an item is the next one of a ring with the given cursors and contiguous bytes.
pub open spec fn observed_in(
    capacity: u32,
    maximum_inline_message: u32,
    expected: Sequence,
    producer: u32,
    consumer: u32,
    committed: Seq<u8>,
    item: CommittedItem,
) -> bool {
    snapshot_of(capacity, producer, consumer) matches Ok(snapshot) && next_item(
        snapshot,
        maximum_inline_message,
        expected,
        committed,
    ) == Ok::<CommittedItem, ErrorReport>(item) && (needs_bytes(snapshot) ==> committed.len()
        == contiguous_length(snapshot))
}

/// Whether the bytes that decide the next item, if any do, were seen behind the cursors.
pub open spec fn bytes_seen(
    before: Seq<RingAccess>,
    after: Seq<RingAccess>,
    snapshot: RingSnapshot,
    committed: Seq<u8>,
) -> bool {
    needs_bytes(snapshot) ==> {
        &&& after.len() >= before.len() + 3
        &&& after[before.len() as int + 2] == RingAccess::Bytes(
            snapshot.consumer,
            contiguous_length(snapshot) as nat,
            Ok(committed),
        )
    }
}

/// What the next item of a ring with the given cursors and contiguous bytes is, or what is wrong
/// with it.
pub open spec fn item_found(
    capacity: u32,
    maximum_inline_message: u32,
    expected: Sequence,
    producer: u32,
    consumer: u32,
    committed: Seq<u8>,
) -> Result<CommittedItem, ErrorReport> {
    match snapshot_of(capacity, producer, consumer) {
        Err(error) => Err(error),
        Ok(snapshot) => next_item(snapshot, maximum_inline_message, expected, committed),
    }
}

/// Whether looking at a ring came to this item, or this error, by the cursors and bytes that were
/// seen first of all since then.
pub open spec fn item_seen(
    before: Seq<RingAccess>,
    after: Seq<RingAccess>,
    capacity: u32,
    maximum_inline_message: u32,
    expected: Sequence,
    found: Result<CommittedItem, ErrorReport>,
) -> bool {
    exists|producer: u32, consumer: u32, committed: Seq<u8>|
        {
            &&& cursors_seen(before, after, producer, consumer)
            &&& #[trigger] item_found(
                capacity,
                maximum_inline_message,
                expected,
                producer,
                consumer,
                committed,
            ) == found
            &&& snapshot_of(capacity, producer, consumer) is Ok ==> bytes_seen(
                before,
                after,
                snapshot_of(capacity, producer, consumer)->Ok_0,
                committed,
            )
        }
}

/// Whether consuming a receipt failed for this reason: an access failed, the reader stands
/// elsewhere by now, or the producer cursor is corrupt.
pub open spec fn consumption_failed(
    before: Seq<RingAccess>,
    after: Seq<RingAccess>,
    capacity: u32,
    expected: Sequence,
    receipt: ReadReceipt,
    error: ErrorReport,
) -> bool {
    ||| access_failed(before, after, error)
    ||| after.len() > before.len() && match after.last() {
        RingAccess::Consumer(Ok(consumer)) => if consumer != receipt.current() {
            error == reader_report(ErrorCode::InvalidCursor, "stale read receipt")
        } else {
            receipt.record_sequence() is Some && receipt.record_sequence() != Some(expected)
                && error == reader_report(ErrorCode::ProtocolViolation, "record sequence")
        },
        RingAccess::Producer(Ok(producer)) => cursor_distance(receipt.next(), producer) > capacity
            && error == reader_report(ErrorCode::InvalidCursor, "ring cursor distance"),
        _ => false,
    }
}

/// Why a receipt is refused where the reader stands at a cursor, if it is.
pub open spec fn receipt_refusal(
    consumer: u32,
    expected: Sequence,
    receipt: ReadReceipt,
) -> Option<ErrorReport> {
    if consumer != receipt.current() {
        Some(reader_report(ErrorCode::InvalidCursor, "stale read receipt"))
    } else if receipt.record_sequence() is Some && receipt.record_sequence() != Some(expected) {
        Some(reader_report(ErrorCode::ProtocolViolation, "record sequence"))
    } else {
        None
    }
}

/// Whether consuming a receipt goes by the cursor at which the reader stands: a receipt of another
/// position is refused and changes nothing, and what is consumed is released. The bytes that are
/// left are counted to the producer cursor that was seen last.
pub open spec fn receipt_used<Memory: RingConsumer>(
    before: RingReader<Memory>,
    after: RingReader<Memory>,
    receipt: ReadReceipt,
    consumed: Result<ConsumeOutcome, ErrorReport>,
) -> bool {
    &&& exists|loaded: Result<u32, ErrorReport>| #[trigger]
        before.memory.loads_consumer(loaded) && match loaded {
            Err(error) => {
                &&& consumed == Err::<ConsumeOutcome, ErrorReport>(error)
                &&& after.memory.operations() == before.memory.operations()
                &&& after.expected_sequence == before.expected_sequence
            },
            Ok(consumer) => receipt_refusal(
                consumer,
                before.expected_sequence,
                receipt,
            ) matches Some(error) ==> {
                &&& consumed == Err::<ConsumeOutcome, ErrorReport>(error)
                &&& after.memory.operations() == before.memory.operations()
                &&& after.expected_sequence == before.expected_sequence
            },
        }
    &&& consumed matches Ok(outcome) ==> {
        &&& after.memory.operations() == before.memory.operations().push(
            MemoryOperation::Consume(receipt.next()),
        )
        &&& outcome.drained == (outcome.remaining == 0)
        &&& exists|producer: u32|
            after.memory.accesses().last() == RingAccess::Producer(Ok(producer))
                && outcome.remaining == #[trigger] cursor_distance(receipt.next(), producer)
    }
}

/// What consuming a receipt gives where the cursors are these.
pub open spec fn consumption(
    capacity: u32,
    producer: u32,
    consumer: u32,
    expected: Sequence,
    receipt: ReadReceipt,
) -> Result<ConsumeOutcome, ErrorReport> {
    let remaining = cursor_distance(receipt.next(), producer);
    if consumer != receipt.current() {
        Err(reader_report(ErrorCode::InvalidCursor, "stale read receipt"))
    } else if receipt.record_sequence() is Some && receipt.record_sequence() != Some(expected) {
        Err(reader_report(ErrorCode::ProtocolViolation, "record sequence"))
    } else if remaining > capacity {
        Err(reader_report(ErrorCode::InvalidCursor, "ring cursor distance"))
    } else {
        Ok(ConsumeOutcome { remaining, drained: remaining == 0 })
    }
}

/// The ring behind a consumption that nothing else moves.
pub open spec fn released(ring: RingModel, expected: Sequence, receipt: ReadReceipt) -> RingModel {
    if ring.consumer != receipt.current() || receipt.record_sequence() is Some
        && receipt.record_sequence() != Some(expected) {
        ring
    } else {
        ring.apply(MemoryOperation::Consume(receipt.next()))
    }
}

/// Whether what a reader returned is what a ring that nothing else moves holds next.
///
/// Every ring that would have answered the reader's accesses as they were answered is such a ring.
pub open spec fn taken_from_any<Memory: RingConsumer>(
    before: RingReader<Memory>,
    after: RingReader<Memory>,
    received: Result<Option<RingRecord>, ErrorReport>,
) -> bool {
    let accesses = since(before.memory.accesses(), after.memory.accesses());
    forall|ring: RingModel|
        ring.wf() && ring.capacity == before.memory.capacity_of() && (#[trigger] replayed(
            ring,
            accesses,
        )) is Some ==> record_taken(
            ring,
            before.maximum_inline_message,
            before.expected_sequence,
        ) == (replayed(ring, accesses)->0, after.expected_sequence, received)
}

/// Whether a reader has only passed padding between two states of a ring.
pub open spec fn only_passed(
    ring: RingModel,
    now: RingModel,
    maximum_inline_message: u32,
    expected: Sequence,
    count: int,
) -> bool {
    &&& now.wf()
    &&& now.capacity == ring.capacity
    &&& now.snapshot().used + count <= ring.snapshot().used
    &&& record_taken(ring, maximum_inline_message, expected) == record_taken(
        now,
        maximum_inline_message,
        expected,
    )
}

/// Whether a reader has only passed padding of every ring that would have answered its accesses as
/// they were answered.
#[verifier::opaque]
spec fn passed_by_any(
    start: Seq<RingAccess>,
    now: Seq<RingAccess>,
    capacity: u32,
    maximum_inline_message: u32,
    expected: Sequence,
    count: int,
) -> bool {
    forall|ring: RingModel|
        ring.wf() && ring.capacity == capacity && (#[trigger] replayed(ring, since(start, now)))
            is Some ==> only_passed(
            ring,
            replayed(ring, since(start, now))->0,
            maximum_inline_message,
            expected,
            count,
        )
}

/// Whether looking came to what is ahead in every ring that would have answered so, and changed
/// none of them.
#[verifier::opaque]
spec fn shown_by_any(
    last: Seq<RingAccess>,
    looked: Seq<RingAccess>,
    capacity: u32,
    maximum_inline_message: u32,
    expected: Sequence,
    found: Result<CommittedItem, ErrorReport>,
) -> bool {
    forall|ring: RingModel|
        ring.wf() && ring.capacity == capacity && (#[trigger] replayed(ring, since(last, looked)))
            is Some ==> {
            &&& replayed(ring, since(last, looked)) == Some(ring)
            &&& item_ahead(ring, maximum_inline_message, expected) == found
        }
}

/// Whether a receipt was consumed as every ring that would have answered so lets it be.
#[verifier::opaque]
spec fn released_by_any(
    looked: Seq<RingAccess>,
    ended: Seq<RingAccess>,
    capacity: u32,
    expected: Sequence,
    receipt: ReadReceipt,
    consumed: Result<ConsumeOutcome, ErrorReport>,
) -> bool {
    forall|ring: RingModel|
        (#[trigger] replayed(ring, since(looked, ended))) matches Some(end) ==> {
            &&& consumed == consumption(
                capacity,
                ring.producer,
                ring.consumer,
                expected,
                receipt,
            )
            &&& end == released(ring, expected, receipt)
        }
}

/// The item that was found as a mathematical value.
pub open spec fn item_of(found: Result<ReadItem, ErrorReport>) -> Result<
    CommittedItem,
    ErrorReport,
> {
    match found {
        Ok(item) => Ok(item@),
        Err(error) => Err(error),
    }
}

/// The record that was received as a mathematical value.
pub open spec fn record_of(received: Result<Option<OwnedRecord>, ErrorReport>) -> Result<
    Option<RingRecord>,
    ErrorReport,
> {
    match received {
        Ok(Some(record)) => Ok(
            Some(RingRecord { header: record.header, payload: record.payload@ }),
        ),
        Ok(None) => Ok(None),
        Err(error) => Err(error),
    }
}

/// Whether reading behind some accesses failed for this reason.
pub open spec fn reading_failed(
    before: Seq<RingAccess>,
    after: Seq<RingAccess>,
    capacity: u32,
    maximum_inline_message: u32,
    expected: Sequence,
    error: ErrorReport,
) -> bool {
    ||| access_failed(before, after, error)
    ||| item_seen(before, after, capacity, maximum_inline_message, expected, Err(error))
    ||| exists|receipt: ReadReceipt| #[trigger]
        consumption_failed(before, after, capacity, expected, receipt, error)
}

/// What consuming receipts one after the other does to the ring memory.
pub open spec fn consumptions(receipts: Seq<ReadReceipt>) -> Seq<MemoryOperation> {
    Seq::new(receipts.len(), |index: int| MemoryOperation::Consume(receipts[index].next()))
}

/// Whether an item was seen somewhere among the accesses that were made since then.
pub open spec fn item_shown(
    before: Seq<RingAccess>,
    after: Seq<RingAccess>,
    capacity: u32,
    maximum_inline_message: u32,
    expected: Sequence,
    item: CommittedItem,
) -> bool {
    exists|last: Seq<RingAccess>|
        #[trigger] accesses_added(before, last) && item_seen(
            last,
            after,
            capacity,
            maximum_inline_message,
            expected,
            Ok(item),
        )
}

/// Whether every receipt is one of padding that was seen in front of the expected record.
pub open spec fn only_padding(
    before: Seq<RingAccess>,
    after: Seq<RingAccess>,
    capacity: u32,
    maximum_inline_message: u32,
    expected: Sequence,
    receipts: Seq<ReadReceipt>,
) -> bool {
    forall|index: int|
        0 <= index < receipts.len() ==> observable(
            capacity,
            maximum_inline_message,
            expected,
            CommittedItem::Padding(#[trigger] receipts[index]),
        ) && item_shown(
            before,
            after,
            capacity,
            maximum_inline_message,
            expected,
            CommittedItem::Padding(receipts[index]),
        )
}

/// Whether a reader consumed these receipts, in this order, to come to what it returned: padding,
/// then the record, and the record is never handed out without being consumed.
pub open spec fn items_taken<Memory: RingConsumer>(
    before: RingReader<Memory>,
    after: RingReader<Memory>,
    receipts: Seq<ReadReceipt>,
    received: Result<Option<OwnedRecord>, ErrorReport>,
) -> bool {
    let capacity = before.memory.capacity_of();
    let maximum = before.maximum_inline_message;
    let expected = before.expected_sequence;
    &&& after.memory.operations() == before.memory.operations() + consumptions(receipts)
    &&& accesses_added(before.memory.accesses(), after.memory.accesses())
    &&& exists|last: Seq<RingAccess>|
        #[trigger] accesses_added(before.memory.accesses(), last) && match received {
            Ok(Some(record)) => item_seen(
                last,
                after.memory.accesses(),
                capacity,
                maximum,
                expected,
                Ok(CommittedItem::Record(record.header, record.payload@, receipts.last())),
            ),
            Ok(None) => receipts.len() < u64::MAX ==> item_seen(
                last,
                after.memory.accesses(),
                capacity,
                maximum,
                expected,
                Ok(CommittedItem::Empty),
            ),
            Err(error) => reading_failed(
                last,
                after.memory.accesses(),
                capacity,
                maximum,
                expected,
                error,
            ),
        }
    &&& match received {
        Ok(Some(record)) => {
            &&& receipts.len() > 0
            &&& only_padding(
                before.memory.accesses(),
                after.memory.accesses(),
                capacity,
                maximum,
                expected,
                receipts.drop_last(),
            )
            &&& observable(
                capacity,
                maximum,
                expected,
                CommittedItem::Record(record.header, record.payload@, receipts.last()),
            )
        },
        Ok(None) => {
            &&& only_padding(
                before.memory.accesses(),
                after.memory.accesses(),
                capacity,
                maximum,
                expected,
                receipts,
            )
            &&& receipts.len() < u64::MAX ==> observable(
                capacity,
                maximum,
                expected,
                CommittedItem::Empty,
            )
        },
        Err(_) => {
            ||| only_padding(
                before.memory.accesses(),
                after.memory.accesses(),
                capacity,
                maximum,
                expected,
                receipts,
            )
            ||| receipts.len() > 0 && only_padding(
                before.memory.accesses(),
                after.memory.accesses(),
                capacity,
                maximum,
                expected,
                receipts.drop_last(),
            )
        },
    }
}

/// Whether looking at the cursors of a ring from its consumer side may turn out so.
pub open spec fn read_snapshot<Memory: RingConsumer>(
    memory: Memory,
    outcome: Result<RingSnapshot, ErrorReport>,
) -> bool {
    ||| outcome matches Err(error) && memory.loads_producer(Err(error))
    ||| outcome matches Err(error) && memory.loads_consumer(Err(error)) && exists|producer: u32|
        #[trigger] memory.loads_producer(Ok(producer))
    ||| exists|producer: u32, consumer: u32| #[trigger]
        memory.loads_producer(Ok(producer)) && #[trigger] memory.loads_consumer(Ok(consumer))
            && outcome == snapshot_of(memory.capacity_of(), producer, consumer)
}

/// What peeking came to.
pub open spec fn item_outcome(item: Result<ReadItem, ErrorReport>) -> Result<
    CommittedItem,
    ErrorReport,
> {
    match item {
        Ok(found) => Ok(found@),
        Err(error) => Err(error),
    }
}

/// Whether peeking may come to this: the cursors are looked at, then the bytes between them where
/// they decide, and the next item follows from both.
pub open spec fn item_told<Memory: RingConsumer>(
    reader: RingReader<Memory>,
    outcome: Result<CommittedItem, ErrorReport>,
) -> bool {
    exists|looked: Result<RingSnapshot, ErrorReport>| #[trigger]
        read_snapshot(reader.memory, looked) && match looked {
            Err(error) => outcome == Err::<CommittedItem, ErrorReport>(error),
            Ok(snapshot) => if needs_bytes(snapshot) {
                exists|copied: Result<Seq<u8>, ErrorReport>| #[trigger]
                    reader.memory.reads_bytes(
                        snapshot.consumer,
                        contiguous_length(snapshot) as usize,
                        copied,
                    ) && outcome == match copied {
                        Err(error) => Err::<CommittedItem, ErrorReport>(error),
                        Ok(committed) => next_item(
                            snapshot,
                            reader.maximum_inline_message,
                            reader.expected_sequence,
                            committed,
                        ),
                    }
            } else {
                outcome == next_item(
                    snapshot,
                    reader.maximum_inline_message,
                    reader.expected_sequence,
                    Seq::empty(),
                )
            },
        }
}

/// Consumer half of one record ring.
pub struct RingReader<Memory = ConsumerMemory> {
    /// Unique consumer side of the ring.
    pub memory: Memory,
    /// Largest accepted payload of one record.
    pub maximum_inline_message: u32,
    /// Sequence of the next record.
    pub expected_sequence: Sequence,
}

impl<Memory: RingConsumer> RingReader<Memory> {
    /// Creates a reader over its unique consumer mapping.
    pub fn new(memory: Memory, maximum_inline_message: u32) -> (created: Self)
        ensures
            created.memory == memory,
            created.maximum_inline_message == maximum_inline_message,
            created.expected_sequence.value == 0,
    {
        RingReader { memory, maximum_inline_message, expected_sequence: Sequence::new(0) }
    }

    /// Copies the next committed item without consuming it.
    ///
    /// Explicit and implicit padding are returned as `Padding` receipts. Callers must consume
    /// those receipts and peek again until a record or empty state is reached. A protocol error is
    /// returned before malformed or out-of-range bytes are exposed.
    pub fn peek(&self) -> (item: Result<ReadItem, ErrorReport>)
        ensures
            item_told(*self, item_outcome(item)),
            item matches Ok(found) ==> observable(
                self.memory.capacity_of(),
                self.maximum_inline_message,
                self.expected_sequence,
                found@,
            ),
    {
        let looked = self.snapshot();
        assert(read_snapshot(self.memory, looked));
        let snapshot = looked?;
        let contiguous: u32 = contiguous_bytes(snapshot);
        let committed: Vec<u8> = if !snapshot.is_empty() && snapshot.implicit_read_padding() == 0
            && contiguous >= PREFIX {
            self.memory.read_at(snapshot.consumer_cursor(), contiguous as usize)?
        } else {
            Vec::new()
        };
        let item = inspect(
            snapshot,
            self.maximum_inline_message,
            self.expected_sequence,
            committed.as_slice(),
        );
        proof {
            if item is Ok {
                assert(observed_in(
                    self.memory.capacity_of(),
                    self.maximum_inline_message,
                    self.expected_sequence,
                    snapshot.producer,
                    snapshot.consumer,
                    committed@,
                    item->Ok_0@,
                ));
            }
        }
        item
    }

    /// Copies the next committed item that is about to be consumed.
    fn look(&mut self) -> (item: Result<ReadItem, ErrorReport>)
        ensures
            final(self).memory.capacity_of() == old(self).memory.capacity_of(),
            final(self).memory.ring() == old(self).memory.ring(),
            final(self).memory.operations() == old(self).memory.operations(),
            final(self).maximum_inline_message == old(self).maximum_inline_message,
            final(self).expected_sequence == old(self).expected_sequence,
            accesses_added(old(self).memory.accesses(), final(self).memory.accesses()),
            match item {
                Ok(found) => {
                    &&& observable(
                        old(self).memory.capacity_of(),
                        old(self).maximum_inline_message,
                        old(self).expected_sequence,
                        found@,
                    )
                    &&& item_seen(
                        old(self).memory.accesses(),
                        final(self).memory.accesses(),
                        old(self).memory.capacity_of(),
                        old(self).maximum_inline_message,
                        old(self).expected_sequence,
                        Ok(found@),
                    )
                },
                Err(error) => reading_failed(
                    old(self).memory.accesses(),
                    final(self).memory.accesses(),
                    old(self).memory.capacity_of(),
                    old(self).maximum_inline_message,
                    old(self).expected_sequence,
                    error,
                ),
            },
            forall|ring: RingModel|
                ring.wf() && ring.capacity == old(self).memory.capacity_of() && (
                #[trigger] replayed(
                    ring,
                    since(old(self).memory.accesses(), final(self).memory.accesses()),
                )) is Some ==> {
                    &&& replayed(
                        ring,
                        since(old(self).memory.accesses(), final(self).memory.accesses()),
                    ) == Some(ring)
                    &&& item_ahead(
                        ring,
                        old(self).maximum_inline_message,
                        old(self).expected_sequence,
                    ) == item_of(item)
                },
    {
        let ghost before = self.memory.accesses();
        let first = self.memory.observe_producer();
        let ghost loaded = self.memory.accesses();
        proof {
            assert forall|ring: RingModel| #[trigger] replayed(ring, since(before, loaded))
                == answered(ring, RingAccess::Producer(first)) by {
                lemma_replayed_none(ring, before);
                lemma_replayed_push(ring, before, before, RingAccess::Producer(first));
            }
        }
        let producer: u32 = first?;
        let second = self.memory.observe_consumer();
        let ghost looked = self.memory.accesses();
        proof {
            assert forall|ring: RingModel|
                (#[trigger] replayed(ring, since(before, looked))) is Some implies replayed(
                ring,
                since(before, looked),
            ) == Some(ring) && producer == ring.producer && second == Ok::<u32, ErrorReport>(
                ring.consumer,
            ) by {
                lemma_replayed_push(ring, before, loaded, RingAccess::Consumer(second));
            }
        }
        let consumer: u32 = second?;
        let snapshot = match RingSnapshot::new(self.memory.capacity(), producer, consumer) {
            Ok(found) => found,
            Err(error) => {
                assert(item_found(
                    old(self).memory.capacity_of(),
                    old(self).maximum_inline_message,
                    old(self).expected_sequence,
                    producer,
                    consumer,
                    Seq::<u8>::empty(),
                ) == Err::<CommittedItem, ErrorReport>(error));
                return Err(error);
            },
        };
        let contiguous: u32 = contiguous_bytes(snapshot);
        let committed: Vec<u8> = if !snapshot.is_empty() && snapshot.implicit_read_padding() == 0
            && contiguous >= PREFIX {
            let third = self.memory.observe_bytes(snapshot.consumer_cursor(), contiguous as usize);
            proof {
                assert forall|ring: RingModel|
                    (#[trigger] replayed(ring, since(before, self.memory.accesses())))
                        is Some implies replayed(ring, since(before, self.memory.accesses()))
                    == Some(ring) && producer == ring.producer && consumer == ring.consumer
                    && third is Ok && third->Ok_0@ == ring.bytes.subrange(
                    consumer as int % ring.capacity as int,
                    consumer as int % ring.capacity as int + contiguous,
                ) by {
                    lemma_replayed_push(
                        ring,
                        before,
                        looked,
                        RingAccess::Bytes(consumer, contiguous as nat, copied_bytes(third)),
                    );
                }
            }
            third?
        } else {
            Vec::new()
        };
        let item = inspect(
            snapshot,
            self.maximum_inline_message,
            self.expected_sequence,
            committed.as_slice(),
        );
        proof {
            reveal(item_ahead);
            assert(item_found(
                old(self).memory.capacity_of(),
                old(self).maximum_inline_message,
                old(self).expected_sequence,
                producer,
                consumer,
                committed@,
            ) == match item {
                Ok(read) => Ok(read@),
                Err(error) => Err(error),
            });
            if item is Ok {
                assert(observed_in(
                    old(self).memory.capacity_of(),
                    old(self).maximum_inline_message,
                    old(self).expected_sequence,
                    producer,
                    consumer,
                    committed@,
                    item->Ok_0@,
                ));
            }
        }
        item
    }

    /// Consumes a receipt previously returned by [`Self::peek`].
    ///
    /// `InvalidCursor` is returned if the receipt is stale or belongs to another reader position.
    pub fn consume(&mut self, receipt: ReadReceipt) -> (consumed: Result<
        ConsumeOutcome,
        ErrorReport,
    >)
        ensures
            final(self).memory.capacity_of() == old(self).memory.capacity_of(),
            final(self).memory.ring() == old(self).memory.ring(),
            final(self).maximum_inline_message == old(self).maximum_inline_message,
            consumed matches Ok(outcome) ==> {
                &&& outcome.remaining <= old(self).memory.capacity_of()
                &&& outcome.drained == (outcome.remaining == 0)
                &&& exists|producer: u32|
                    final(self).memory.accesses().last() == RingAccess::Producer(Ok(producer))
                        && outcome.remaining == #[trigger] cursor_distance(receipt.next(), producer)
                &&& receipt.record_sequence() matches Some(sequence)
                    ==> sequence == old(self).expected_sequence
                &&& final(self).memory.operations() == old(self).memory.operations().push(
                    MemoryOperation::Consume(receipt.next()),
                )
                &&& final(self).expected_sequence == if receipt.record_sequence() is Some {
                    old(self).expected_sequence.next()
                } else {
                    old(self).expected_sequence
                }
            },
            receipt.record_sequence() matches Some(sequence)
                && sequence != old(self).expected_sequence ==> consumed is Err
                    && final(self).expected_sequence == old(self).expected_sequence
                        && final(self).memory.operations() == old(self).memory.operations(),
            receipt_used(*old(self), *final(self), receipt, consumed),
            accesses_added(old(self).memory.accesses(), final(self).memory.accesses()),
            consumed matches Err(error) ==> consumption_failed(
                old(self).memory.accesses(),
                final(self).memory.accesses(),
                old(self).memory.capacity_of(),
                old(self).expected_sequence,
                receipt,
                error,
            ),
            consumed is Err ==> final(self).memory.operations() == old(self).memory.operations()
                || final(self).memory.operations() == old(self).memory.operations().push(
                MemoryOperation::Consume(receipt.next()),
            ),
            forall|ring: RingModel|
                (#[trigger] replayed(
                    ring,
                    since(old(self).memory.accesses(), final(self).memory.accesses()),
                )) matches Some(end) ==> {
                    &&& consumed == consumption(
                        old(self).memory.capacity_of(),
                        ring.producer,
                        ring.consumer,
                        old(self).expected_sequence,
                        receipt,
                    )
                    &&& end == released(ring, old(self).expected_sequence, receipt)
                    &&& ring.consumer != receipt.current() ==> final(self).memory.operations()
                        == old(self).memory.operations()
                            && final(self).expected_sequence == old(self).expected_sequence
                },
    {
        let ghost before = self.memory.accesses();
        let loaded = self.memory.observe_consumer();
        proof {
            assert(old(self).memory.loads_consumer(loaded));
        }
        let consumer: u32 = loaded?;
        let ghost looked = self.memory.accesses();
        proof {
            assert forall|ring: RingModel| #[trigger] replayed(ring, since(before, looked))
                == answered(ring, RingAccess::Consumer(Ok(consumer))) by {
                lemma_replayed_none(ring, before);
                lemma_replayed_push(ring, before, before, RingAccess::Consumer(Ok(consumer)));
            }
        }
        if consumer != receipt.current_cursor {
            return Err(reader_error(ErrorCode::InvalidCursor, "stale read receipt"));
        }
        if let Some(sequence) = receipt.sequence {
            if sequence != self.expected_sequence {
                return Err(reader_error(ErrorCode::ProtocolViolation, "record sequence"));
            }
            self.expected_sequence = self.expected_sequence.wrapping_next();
        }
        let changed = self.memory.consume_through(receipt.next_cursor);
        let ghost moved = self.memory.accesses();
        proof {
            let access = RingAccess::Changed(
                MemoryOperation::Consume(receipt.next_cursor),
                plain_outcome(changed),
            );
            assert forall|ring: RingModel|
                (#[trigger] replayed(ring, since(before, moved))) is Some implies ring.consumer
                == consumer && changed is Ok && replayed(ring, since(before, moved)) == Some(
                ring.apply(MemoryOperation::Consume(receipt.next_cursor)),
            ) by {
                lemma_replayed_push(ring, before, looked, access);
            }
        }
        changed?;
        let seen = self.memory.observe_producer();
        proof {
            let ended = self.memory.accesses();
            assert forall|ring: RingModel|
                (#[trigger] replayed(ring, since(before, ended))) is Some implies ring.consumer
                == consumer && seen == Ok::<u32, ErrorReport>(ring.producer) && replayed(
                ring,
                since(before, ended),
            ) == Some(ring.apply(MemoryOperation::Consume(receipt.next_cursor))) by {
                lemma_replayed_push(ring, before, moved, RingAccess::Producer(seen));
            }
        }
        let producer: u32 = seen?;
        let remaining: u32 = distance_between(receipt.next_cursor, producer);
        assert(self.memory.accesses().last() == RingAccess::Producer(Ok(producer)));
        if remaining > self.memory.capacity() {
            return Err(reader_error(ErrorCode::InvalidCursor, "ring cursor distance"));
        }
        assert(remaining == cursor_distance(receipt.next(), producer));
        Ok(ConsumeOutcome { remaining, drained: remaining == 0 })
    }

    /// Copies and consumes the next application record, transparently skipping padding.
    ///
    /// A stable validation error is returned for malformed shared bytes.
    #[verifier::rlimit(40)]
    pub fn receive(&mut self) -> (received: Result<Option<OwnedRecord>, ErrorReport>)
        ensures
            final(self).memory.capacity_of() == old(self).memory.capacity_of(),
            final(self).memory.ring() == old(self).memory.ring(),
            final(self).maximum_inline_message == old(self).maximum_inline_message,
            received matches Ok(None)
                ==> final(self).expected_sequence == old(self).expected_sequence,
            received matches Ok(Some(record)) ==> {
                &&& record.header.wf()
                &&& record.header.kind !is Padding
                &&& record.header.sequence == old(self).expected_sequence
                &&& record.payload@.len() == record.header.payload_length
                &&& record.payload@.len() <= old(self).maximum_inline_message
                &&& final(self).expected_sequence == old(self).expected_sequence.next()
                &&& receivable(
                    old(self).memory.capacity_of(),
                    old(self).maximum_inline_message,
                    old(self).expected_sequence,
                    record.header,
                    record.payload@,
                )
            },
            exists|receipts: Seq<ReadReceipt>| #[trigger]
                items_taken(*old(self), *final(self), receipts, received),
            taken_from_any(*old(self), *final(self), record_of(received)),
    {
        let mut skips: u64 = u64::MAX;
        let ghost mut receipts: Seq<ReadReceipt> = Seq::empty();
        let ghost capacity = self.memory.capacity_of();
        let ghost maximum = self.maximum_inline_message;
        let ghost expected = self.expected_sequence;
        let ghost start = self.memory.accesses();
        proof {
            lemma_nothing_passed(start, capacity, maximum, expected);
            assert(self.memory.operations() =~= self.memory.operations() + consumptions(receipts));
        }
        while skips > 0
            invariant
                capacity == old(self).memory.capacity_of(),
                maximum == old(self).maximum_inline_message,
                expected == old(self).expected_sequence,
                start == old(self).memory.accesses(),
                self.memory.capacity_of() == capacity,
                self.memory.ring() == old(self).memory.ring(),
                self.maximum_inline_message == maximum,
                self.expected_sequence == expected,
                receipts.len() == u64::MAX - skips,
                accesses_added(start, self.memory.accesses()),
                self.memory.operations() == old(self).memory.operations() + consumptions(receipts),
                only_padding(
                    start,
                    self.memory.accesses(),
                    capacity,
                    maximum,
                    expected,
                    receipts,
                ),
                passed_by_any(
                    start,
                    self.memory.accesses(),
                    capacity,
                    maximum,
                    expected,
                    u64::MAX - skips,
                ),
            decreases skips,
        {
            let ghost count = u64::MAX - skips;
            let ghost last = self.memory.accesses();
            let peeked = self.look();
            let ghost looked = self.memory.accesses();
            let ghost found = item_of(peeked);
            proof {
                assert(shown_by_any(last, looked, capacity, maximum, expected, found)) by {
                    reveal(shown_by_any);
                }
                lemma_accesses_added(start, last, looked);
                lemma_padding_still_shown(
                    start,
                    last,
                    looked,
                    capacity,
                    maximum,
                    expected,
                    receipts,
                );
                if found is Err || found == Ok::<CommittedItem, ErrorReport>(CommittedItem::Empty) {
                    lemma_reading_stops(*old(self), *self, last, count, found);
                }
                assert(peeked is Err ==> items_taken(
                    *old(self),
                    *self,
                    receipts,
                    Err(peeked->Err_0),
                ));
            }
            match peeked? {
                ReadItem::Empty => {
                    proof {
                        assert(items_taken(*old(self), *self, receipts, Ok(None)));
                    }
                    return Ok(None);
                },
                ReadItem::Padding(receipt) => {
                    let ghost before = receipts;
                    let outcome = self.consume(receipt);
                    proof {
                        let ended = self.memory.accesses();
                        assert(released_by_any(
                            looked,
                            ended,
                            capacity,
                            expected,
                            receipt,
                            outcome,
                        )) by {
                            reveal(released_by_any);
                        }
                        lemma_padding_has_no_sequence(capacity, maximum, expected, receipt);
                        lemma_one_more_consumption(
                            old(self).memory.operations(),
                            before,
                            receipt,
                        );
                        lemma_accesses_added(last, looked, ended);
                        lemma_accesses_added(start, looked, ended);
                        lemma_padding_passed(
                            *old(self),
                            *self,
                            last,
                            looked,
                            receipt,
                            outcome,
                            count,
                        );
                        lemma_padding_still_shown(
                            start,
                            looked,
                            ended,
                            capacity,
                            maximum,
                            expected,
                            before,
                        );
                        lemma_item_still_seen(
                            last,
                            looked,
                            ended,
                            capacity,
                            maximum,
                            expected,
                            Ok(CommittedItem::Padding(receipt)),
                        );
                        receipts = before.push(receipt);
                        if outcome is Err {
                            assert(items_taken(*old(self), *self, before, Err(outcome->Err_0))
                                || items_taken(*old(self), *self, receipts, Err(outcome->Err_0)));
                        }
                    }
                    let _outcome = outcome?;
                },
                ReadItem::Record(record) => {
                    let receipt = record.receipt;
                    let outcome = self.consume(receipt);
                    let ghost longer = receipts.push(receipt);
                    proof {
                        let ended = self.memory.accesses();
                        assert(released_by_any(
                            looked,
                            ended,
                            capacity,
                            expected,
                            receipt,
                            outcome,
                        )) by {
                            reveal(released_by_any);
                        }
                        lemma_record_is_expected(
                            capacity,
                            maximum,
                            expected,
                            record.header,
                            record.payload@,
                            receipt,
                        );
                        lemma_one_more_consumption(
                            old(self).memory.operations(),
                            receipts,
                            receipt,
                        );
                        lemma_accesses_added(last, looked, ended);
                        lemma_accesses_added(start, looked, ended);
                        lemma_record_reached(
                            *old(self),
                            *self,
                            last,
                            looked,
                            RingRecord { header: record.header, payload: record.payload@ },
                            receipt,
                            outcome,
                            count,
                        );
                        lemma_padding_still_shown(
                            start,
                            looked,
                            ended,
                            capacity,
                            maximum,
                            expected,
                            receipts,
                        );
                        lemma_item_still_seen(
                            last,
                            looked,
                            ended,
                            capacity,
                            maximum,
                            expected,
                            Ok(CommittedItem::Record(record.header, record.payload@, receipt)),
                        );
                        assert(longer.drop_last() =~= receipts);
                        if outcome is Err {
                            assert(items_taken(*old(self), *self, receipts, Err(outcome->Err_0))
                                || items_taken(*old(self), *self, longer, Err(outcome->Err_0)));
                        }
                    }
                    let _outcome = outcome?;
                    let taken = OwnedRecord { header: record.header, payload: record.payload };
                    proof {
                        assert(items_taken(*old(self), *self, longer, Ok(Some(taken))));
                    }
                    return Ok(Some(taken));
                },
            }
            skips = skips - 1;
        }
        proof {
            lemma_passing_ends(*old(self), *self);
            assert(items_taken(*old(self), *self, receipts, Ok(None)));
        }
        Ok(None)
    }

    fn snapshot(&self) -> (snapshot: Result<RingSnapshot, ErrorReport>)
        ensures
            read_snapshot(self.memory, snapshot),
            snapshot matches Ok(found) ==> found.wf() && found.capacity == self.memory.capacity_of()
                && snapshot_of(self.memory.capacity_of(), found.producer, found.consumer) == Ok::<
                RingSnapshot,
                ErrorReport,
            >(found),
    {
        let producer: u32 = self.memory.load_producer()?;
        let consumer: u32 = self.memory.load_consumer()?;
        RingSnapshot::new(self.memory.capacity(), producer, consumer)
    }
}

/// The receipt that comes with an item, if one does.
pub open spec fn receipt_of(item: CommittedItem) -> Option<ReadReceipt> {
    match item {
        CommittedItem::Empty => None,
        CommittedItem::Padding(receipt) => Some(receipt),
        CommittedItem::Record(_, _, receipt) => Some(receipt),
    }
}

/// A receipt is consumed once.
///
/// The reader is one of an in-process ring, and its producer may run at any time. Once the receipt
/// of a peeked item was consumed, the reader stands behind the item. Where the producer still
/// stands where the item was peeked, exactly the bytes of the item were taken. Consuming the
/// receipt again is refused as stale, and the reader stays where it is.
pub proof fn law_a_consumed_receipt_is_stale(
    before: RingReader<ConsumerMemory>,
    producer: u32,
    consumer: u32,
    committed: Seq<u8>,
    item: CommittedItem,
    receipt: ReadReceipt,
    between: RingReader<ConsumerMemory>,
    outcome: ConsumeOutcome,
    after: RingReader<ConsumerMemory>,
    again: Result<ConsumeOutcome, ErrorReport>,
)
    requires
        observed_in(
            before.memory.capacity_of(),
            before.maximum_inline_message,
            before.expected_sequence,
            producer,
            consumer,
            committed,
            item,
        ),
        receipt_of(item) == Some(receipt),
        receipt_used(before, between, receipt, Ok(outcome)),
        receipt_used(between, after, receipt, again),
    ensures
        last_consumed(before.memory.operations()) == consumer,
        last_consumed(between.memory.operations()) == receipt.next(),
        0 < cursor_distance(consumer, receipt.next()) <= cursor_distance(consumer, producer),
        between.memory.accesses().last() == RingAccess::Producer(Ok(producer))
            ==> outcome.remaining == cursor_distance(consumer, producer) - cursor_distance(
            consumer,
            receipt.next(),
        ),
        outcome.drained == (outcome.remaining == 0),
        again == Err::<ConsumeOutcome, ErrorReport>(
            reader_report(ErrorCode::InvalidCursor, "stale read receipt"),
        ),
        last_consumed(after.memory.operations()) == receipt.next(),
        after.expected_sequence == between.expected_sequence,
{
    broadcast use last_consumed_push;

    crate::data_plane::record::lemma_decoded_header_wf(committed, before.maximum_inline_message);
}

/// Consuming the next item of a ring that nothing else moves frees its bytes.
proof fn lemma_item_released(
    ring: RingModel,
    maximum_inline_message: u32,
    expected: Sequence,
    receipt: ReadReceipt,
)
    requires
        ring.wf(),
        match item_ahead(ring, maximum_inline_message, expected) {
            Ok(CommittedItem::Padding(given)) => receipt == given,
            Ok(CommittedItem::Record(_, _, given)) => receipt == given,
            _ => false,
        },
    ensures
        ({
            let read = released(ring, expected, receipt);
            &&& read == ring.apply(MemoryOperation::Consume(receipt.next()))
            &&& read.wf()
            &&& read.capacity == ring.capacity
            &&& read.snapshot().used < ring.snapshot().used
            &&& consumption(ring.capacity, ring.producer, ring.consumer, expected, receipt) is Ok
        }),
{
    law_a_receipt_is_consumed_once(ring, maximum_inline_message, expected, receipt);
}

/// A reader that made no access passed nothing.
proof fn lemma_nothing_passed(
    start: Seq<RingAccess>,
    capacity: u32,
    maximum_inline_message: u32,
    expected: Sequence,
)
    ensures
        passed_by_any(start, start, capacity, maximum_inline_message, expected, 0),
{
    reveal(passed_by_any);
    assert forall|ring: RingModel|
        ring.wf() && ring.capacity == capacity && (#[trigger] replayed(ring, since(start, start)))
            is Some implies only_passed(
        ring,
        replayed(ring, since(start, start))->0,
        maximum_inline_message,
        expected,
        0,
    ) by {
        lemma_replayed_none(ring, start);
    }
}

/// Reading stops where nothing is ahead, or something malformed.
proof fn lemma_reading_stops<Memory: RingConsumer>(
    before: RingReader<Memory>,
    after: RingReader<Memory>,
    last: Seq<RingAccess>,
    count: int,
    found: Result<CommittedItem, ErrorReport>,
)
    requires
        accesses_added(before.memory.accesses(), last),
        accesses_added(last, after.memory.accesses()),
        after.expected_sequence == before.expected_sequence,
        passed_by_any(
            before.memory.accesses(),
            last,
            before.memory.capacity_of(),
            before.maximum_inline_message,
            before.expected_sequence,
            count,
        ),
        shown_by_any(
            last,
            after.memory.accesses(),
            before.memory.capacity_of(),
            before.maximum_inline_message,
            before.expected_sequence,
            found,
        ),
        found is Err || found == Ok::<CommittedItem, ErrorReport>(CommittedItem::Empty),
    ensures
        taken_from_any(
            before,
            after,
            match found {
                Err(error) => Err(error),
                Ok(_) => Ok(None),
            },
        ),
{
    reveal(passed_by_any);
    reveal(shown_by_any);
    let start = before.memory.accesses();
    let ended = after.memory.accesses();
    assert forall|ring: RingModel|
        ring.wf() && ring.capacity == before.memory.capacity_of() && (#[trigger] replayed(
            ring,
            since(start, ended),
        )) is Some implies record_taken(
        ring,
        before.maximum_inline_message,
        before.expected_sequence,
    ) == (
        replayed(ring, since(start, ended))->0,
        after.expected_sequence,
        match found {
            Err(error) => Err::<Option<RingRecord>, ErrorReport>(error),
            Ok(_) => Ok(None),
        },
    ) by {
        lemma_replayed_onward(ring, start, last, ended);
    }
}

/// Padding that was consumed is passed.
proof fn lemma_padding_passed<Memory: RingConsumer>(
    before: RingReader<Memory>,
    after: RingReader<Memory>,
    last: Seq<RingAccess>,
    looked: Seq<RingAccess>,
    receipt: ReadReceipt,
    consumed: Result<ConsumeOutcome, ErrorReport>,
    count: int,
)
    requires
        accesses_added(before.memory.accesses(), last),
        accesses_added(last, looked),
        accesses_added(before.memory.accesses(), looked),
        accesses_added(looked, after.memory.accesses()),
        passed_by_any(
            before.memory.accesses(),
            last,
            before.memory.capacity_of(),
            before.maximum_inline_message,
            before.expected_sequence,
            count,
        ),
        shown_by_any(
            last,
            looked,
            before.memory.capacity_of(),
            before.maximum_inline_message,
            before.expected_sequence,
            Ok(CommittedItem::Padding(receipt)),
        ),
        released_by_any(
            looked,
            after.memory.accesses(),
            before.memory.capacity_of(),
            before.expected_sequence,
            receipt,
            consumed,
        ),
    ensures
        passed_by_any(
            before.memory.accesses(),
            after.memory.accesses(),
            before.memory.capacity_of(),
            before.maximum_inline_message,
            before.expected_sequence,
            count + 1,
        ),
        consumed matches Err(error) ==> taken_from_any(before, after, Err(error)),
{
    reveal(passed_by_any);
    reveal(shown_by_any);
    reveal(released_by_any);
    let start = before.memory.accesses();
    let ended = after.memory.accesses();
    assert forall|ring: RingModel|
        ring.wf() && ring.capacity == before.memory.capacity_of() && (#[trigger] replayed(
            ring,
            since(start, ended),
        )) is Some implies consumed is Ok && only_passed(
        ring,
        replayed(ring, since(start, ended))->0,
        before.maximum_inline_message,
        before.expected_sequence,
        count + 1,
    ) by {
        lemma_replayed_onward(ring, start, looked, ended);
        lemma_replayed_onward(ring, start, last, looked);
        lemma_item_released(
            replayed(ring, since(start, looked))->0,
            before.maximum_inline_message,
            before.expected_sequence,
            receipt,
        );
    }
}

/// A record that was consumed is the one that was ahead.
proof fn lemma_record_reached<Memory: RingConsumer>(
    before: RingReader<Memory>,
    after: RingReader<Memory>,
    last: Seq<RingAccess>,
    looked: Seq<RingAccess>,
    record: RingRecord,
    receipt: ReadReceipt,
    consumed: Result<ConsumeOutcome, ErrorReport>,
    count: int,
)
    requires
        accesses_added(before.memory.accesses(), last),
        accesses_added(last, looked),
        accesses_added(before.memory.accesses(), looked),
        accesses_added(looked, after.memory.accesses()),
        passed_by_any(
            before.memory.accesses(),
            last,
            before.memory.capacity_of(),
            before.maximum_inline_message,
            before.expected_sequence,
            count,
        ),
        shown_by_any(
            last,
            looked,
            before.memory.capacity_of(),
            before.maximum_inline_message,
            before.expected_sequence,
            Ok(CommittedItem::Record(record.header, record.payload, receipt)),
        ),
        released_by_any(
            looked,
            after.memory.accesses(),
            before.memory.capacity_of(),
            before.expected_sequence,
            receipt,
            consumed,
        ),
        consumed is Ok ==> after.expected_sequence == before.expected_sequence.next(),
    ensures
        taken_from_any(
            before,
            after,
            match consumed {
                Err(error) => Err(error),
                Ok(_) => Ok(Some(record)),
            },
        ),
{
    reveal(passed_by_any);
    reveal(shown_by_any);
    reveal(released_by_any);
    let start = before.memory.accesses();
    let ended = after.memory.accesses();
    assert forall|ring: RingModel|
        ring.wf() && ring.capacity == before.memory.capacity_of() && (#[trigger] replayed(
            ring,
            since(start, ended),
        )) is Some implies consumed is Ok && record_taken(
        ring,
        before.maximum_inline_message,
        before.expected_sequence,
    ) == (
        replayed(ring, since(start, ended))->0,
        before.expected_sequence.next(),
        Ok::<Option<RingRecord>, ErrorReport>(Some(record)),
    ) by {
        lemma_replayed_onward(ring, start, looked, ended);
        lemma_replayed_onward(ring, start, last, looked);
        lemma_item_released(
            replayed(ring, since(start, looked))->0,
            before.maximum_inline_message,
            before.expected_sequence,
            receipt,
        );
    }
}

/// No ring holds that much padding.
proof fn lemma_passing_ends<Memory: RingConsumer>(
    before: RingReader<Memory>,
    after: RingReader<Memory>,
)
    requires
        passed_by_any(
            before.memory.accesses(),
            after.memory.accesses(),
            before.memory.capacity_of(),
            before.maximum_inline_message,
            before.expected_sequence,
            u64::MAX as int,
        ),
    ensures
        taken_from_any(before, after, Ok(None)),
{
    reveal(passed_by_any);
}

/// Taking a record from a ring that nothing else moves frees its bytes.
pub proof fn lemma_record_taken(ring: RingModel, maximum_inline_message: u32, expected: Sequence)
    requires
        ring.wf(),
    ensures
        ({
            let (read, _, found) = record_taken(ring, maximum_inline_message, expected);
            &&& read.wf()
            &&& read.capacity == ring.capacity
            &&& read.snapshot().used <= ring.snapshot().used
            &&& found matches Ok(Some(_)) ==> read.snapshot().used < ring.snapshot().used
        }),
    decreases ring.snapshot().used,
{
    match item_ahead(ring, maximum_inline_message, expected) {
        Ok(CommittedItem::Padding(receipt)) => {
            lemma_item_released(ring, maximum_inline_message, expected, receipt);
            lemma_record_taken(
                ring.apply(MemoryOperation::Consume(receipt.next())),
                maximum_inline_message,
                expected,
            );
        },
        Ok(CommittedItem::Record(_, _, receipt)) => {
            lemma_item_released(ring, maximum_inline_message, expected, receipt);
        },
        _ => {},
    }
}

/// Accesses that follow leave an item seen.
pub proof fn lemma_item_still_shown(
    before: Seq<RingAccess>,
    after: Seq<RingAccess>,
    longer: Seq<RingAccess>,
    capacity: u32,
    maximum_inline_message: u32,
    expected: Sequence,
    item: CommittedItem,
)
    requires
        item_shown(before, after, capacity, maximum_inline_message, expected, item),
        accesses_added(after, longer),
    ensures
        item_shown(before, longer, capacity, maximum_inline_message, expected, item),
{
    let last = choose|last: Seq<RingAccess>|
        #[trigger] accesses_added(before, last) && item_seen(
            last,
            after,
            capacity,
            maximum_inline_message,
            expected,
            Ok(item),
        );
    lemma_item_still_seen(
        last,
        after,
        longer,
        capacity,
        maximum_inline_message,
        expected,
        Ok(item),
    );
}

/// Accesses that follow leave padding seen.
proof fn lemma_padding_still_shown(
    before: Seq<RingAccess>,
    after: Seq<RingAccess>,
    longer: Seq<RingAccess>,
    capacity: u32,
    maximum_inline_message: u32,
    expected: Sequence,
    receipts: Seq<ReadReceipt>,
)
    requires
        only_padding(before, after, capacity, maximum_inline_message, expected, receipts),
        accesses_added(after, longer),
    ensures
        only_padding(before, longer, capacity, maximum_inline_message, expected, receipts),
{
    assert forall|index: int| 0 <= index < receipts.len() implies item_shown(
        before,
        longer,
        capacity,
        maximum_inline_message,
        expected,
        CommittedItem::Padding(#[trigger] receipts[index]),
    ) by {
        lemma_item_still_shown(
            before,
            after,
            longer,
            capacity,
            maximum_inline_message,
            expected,
            CommittedItem::Padding(receipts[index]),
        );
    }
}

proof fn lemma_padding_has_no_sequence(
    capacity: u32,
    maximum_inline_message: u32,
    expected: Sequence,
    receipt: ReadReceipt,
)
    requires
        observable(
            capacity,
            maximum_inline_message,
            expected,
            CommittedItem::Padding(receipt),
        ),
    ensures
        receipt.record_sequence() is None,
{
}

proof fn lemma_record_is_expected(
    capacity: u32,
    maximum_inline_message: u32,
    expected: Sequence,
    header: ParsedRecordHeader,
    payload: Seq<u8>,
    receipt: ReadReceipt,
)
    requires
        observable(
            capacity,
            maximum_inline_message,
            expected,
            CommittedItem::Record(header, payload, receipt),
        ),
    ensures
        header.wf(),
        header.kind !is Padding,
        header.sequence == expected,
        payload.len() == header.payload_length,
        payload.len() <= maximum_inline_message,
        receipt.record_sequence() == Some(expected),
        receivable(capacity, maximum_inline_message, expected, header, payload),
{
    let (producer, consumer, committed) = choose|
        producer: u32,
        consumer: u32,
        committed: Seq<u8>,
    |
        #[trigger] observed_in(
            capacity,
            maximum_inline_message,
            expected,
            producer,
            consumer,
            committed,
            CommittedItem::Record(header, payload, receipt),
        );
    crate::data_plane::record::lemma_decoded_header_wf(committed, maximum_inline_message);
}

proof fn lemma_one_more_consumption(
    start: Seq<MemoryOperation>,
    receipts: Seq<ReadReceipt>,
    receipt: ReadReceipt,
)
    ensures
        (start + consumptions(receipts)).push(MemoryOperation::Consume(receipt.next())) == start
            + consumptions(receipts.push(receipt)),
{
    assert((start + consumptions(receipts)).push(MemoryOperation::Consume(receipt.next())) =~= start
        + consumptions(receipts.push(receipt)));
}

/// What was seen is not undone by what is accessed later.
proof fn lemma_item_still_seen(
    before: Seq<RingAccess>,
    after: Seq<RingAccess>,
    later: Seq<RingAccess>,
    capacity: u32,
    maximum_inline_message: u32,
    expected: Sequence,
    found: Result<CommittedItem, ErrorReport>,
)
    requires
        accesses_added(after, later),
        item_seen(before, after, capacity, maximum_inline_message, expected, found),
    ensures
        item_seen(before, later, capacity, maximum_inline_message, expected, found),
{
    let (producer, consumer, committed) = choose|
        producer: u32,
        consumer: u32,
        committed: Seq<u8>,
    |
        {
            &&& cursors_seen(before, after, producer, consumer)
            &&& #[trigger] item_found(
                capacity,
                maximum_inline_message,
                expected,
                producer,
                consumer,
                committed,
            ) == found
            &&& snapshot_of(capacity, producer, consumer) is Ok ==> bytes_seen(
                before,
                after,
                snapshot_of(capacity, producer, consumer)->Ok_0,
                committed,
            )
        };
    assert(later[before.len() as int] == after[before.len() as int]);
    assert(later[before.len() as int + 1] == after[before.len() as int + 1]);
    if snapshot_of(capacity, producer, consumer) is Ok && needs_bytes(
        snapshot_of(capacity, producer, consumer)->Ok_0,
    ) {
        assert(later[before.len() as int + 2] == after[before.len() as int + 2]);
    }
    assert(item_found(
        capacity,
        maximum_inline_message,
        expected,
        producer,
        consumer,
        committed,
    ) == found);
}

/// A failure of a reader keeps its code; it is one of the protocol, and another endpoint gets over
/// it.
pub proof fn law_reader_failures_are_of_the_protocol(code: ErrorCode, operation: &'static str)
    ensures
        reader_report(code, operation).code == code,
        reader_report(code, operation).context == operation,
        reader_report(code, operation).category is Protocol,
        reader_report(code, operation).recoverability is ReplaceEndpoint,
{
}

/// A receipt is refused for its cursor, or for its sequence where its cursor is the right one, and
/// a ring for what it says of itself.
pub proof fn law_refused_receipts_are_told_apart(
    capacity: u32,
    producer: u32,
    consumer: u32,
    expected: Sequence,
    receipt: ReadReceipt,
)
    ensures
        receipt_refusal(consumer, expected, receipt) matches Some(error) ==> {
            &&& error.code is InvalidCursor <==> consumer != receipt.current()
            &&& error.code is ProtocolViolation <==> consumer == receipt.current()
        },
        consumption(capacity, producer, consumer, expected, receipt) matches Err(error) ==> {
            &&& error.code is ProtocolViolation || error.code is InvalidCursor
            &&& error.code is ProtocolViolation ==> consumer == receipt.current()
                && receipt.record_sequence() is Some && receipt.record_sequence() != Some(expected)
        },
        receipt_refusal(consumer, expected, receipt) is None ==> (consumption(
            capacity,
            producer,
            consumer,
            expected,
            receipt,
        ) is Err <==> cursor_distance(receipt.next(), producer) > capacity),
{
}

/// Committed bytes that are no whole record are truncated, and a record out of its order is against
/// the protocol.
pub proof fn law_refused_records_are_told_apart(
    snapshot: RingSnapshot,
    maximum_inline_message: u32,
    expected: Sequence,
    committed: Seq<u8>,
)
    ensures
        next_item(snapshot, maximum_inline_message, expected, committed) matches Err(error) ==> {
            &&& snapshot.used != 0
            &&& contiguous_length(snapshot) < PREFIX ==> error.code is Truncated
            &&& contiguous_length(snapshot) >= PREFIX && decoded_header(
                committed,
                maximum_inline_message,
            ) is Ok ==> {
                let header = decoded_header(committed, maximum_inline_message)->Ok_0;
                &&& error.code is Truncated <==> header.record_length > contiguous_length(snapshot)
                &&& error.code is ProtocolViolation <==> header.record_length <= contiguous_length(
                    snapshot,
                )
                &&& error.code is ProtocolViolation ==> header.sequence != expected
            }
        },
{
}

/// A reader tells the item that its ring shows it, or why its ring could not be read.
pub proof fn law_items_are_what_the_ring_shows<Memory: RingConsumer>(
    reader: RingReader<Memory>,
    outcome: Result<CommittedItem, ErrorReport>,
)
    requires
        item_told(reader, outcome),
        outcome matches Ok(CommittedItem::Record(..)),
    ensures
        exists|snapshot: RingSnapshot, committed: Seq<u8>|
            {
                &&& #[trigger] read_snapshot(reader.memory, Ok(snapshot))
                &&& #[trigger] reader.memory.reads_bytes(
                    snapshot.consumer,
                    contiguous_length(snapshot) as usize,
                    Ok(committed),
                )
                &&& outcome == next_item(
                    snapshot,
                    reader.maximum_inline_message,
                    reader.expected_sequence,
                    committed,
                )
            },
{
}

/// A reader is told that there is nothing exactly where nothing is committed.
pub proof fn law_only_empty_rings_tell_nothing(
    snapshot: RingSnapshot,
    maximum_inline_message: u32,
    expected: Sequence,
    committed: Seq<u8>,
)
    ensures
        (next_item(snapshot, maximum_inline_message, expected, committed) matches Ok(
            CommittedItem::Empty,
        )) == (snapshot.used == 0),
{
}

} // verus!
