//! Record construction and publication on the producer side of a ring.

use vstd::prelude::*;

use crate::data_plane::fragment::Fragment;
use crate::data_plane::layout::MAX_INLINE_MESSAGE_SIZE;
use crate::data_plane::record::{
    application_header, padding_header, record_report, ParsedRecordHeader, RecordFlags, RecordKind,
};
use crate::data_plane::ring_core::{
    advance, cursor_after, cursor_distance, distance_between, snapshot_of, write_plan,
    RingSnapshot, WritePlan, PREFIX,
};
use crate::data_plane::ring_memory::{
    access_failed, accesses_added, cursors_seen, lemma_accesses_added, MemoryOperation,
    ProducerMemory, RingAccess, RingProducer,
};
use crate::data_plane::ring_model::{last_published, last_published_push};
use crate::domain::error::{report, ErrorCategory, ErrorCode, ErrorReport, Recoverability};
use crate::domain::types::{group_identities, MessageId, Sequence};

verus! {

broadcast use group_identities;

/// The report of a record that cannot be written.
pub open spec fn writer_report(code: ErrorCode, operation: &'static str) -> ErrorReport {
    report(
        ErrorCategory::Resource,
        code,
        if code is Backpressured {
            Recoverability::Retryable
        } else {
            Recoverability::Terminal
        },
        operation,
    )
}

fn writer_error(code: ErrorCode, operation: &'static str) -> (created: ErrorReport)
    ensures
        created == writer_report(code, operation),
{
    ErrorReport::new(
        ErrorCategory::Resource,
        code,
        if matches!(code, ErrorCode::Backpressured) {
            Recoverability::Retryable
        } else {
            Recoverability::Terminal
        },
        operation,
    )
}

/// The message number that follows `number`. Zero is never used.
pub open spec fn next_message_number(number: u32) -> u32 {
    if number == u32::MAX {
        1
    } else {
        (number + 1) as u32
    }
}

/// Zero bytes.
pub open spec fn zeros(length: nat) -> Seq<u8> {
    Seq::new(length, |i: int| 0u8)
}

/// The bytes that fill the ring up to its physical end: a padding record where its prefix fits,
/// zero bytes otherwise.
pub open spec fn padding_bytes(length: u32, sequence: Sequence) -> Seq<u8> {
    if length >= PREFIX {
        padding_header(length, sequence).record_bytes(zeros((length - PREFIX) as nat))
    } else {
        zeros(length as nat)
    }
}

/// The writes that put one planned record into unpublished ring bytes.
pub open spec fn staged_writes(
    plan: WritePlan,
    header: ParsedRecordHeader,
    payload: Seq<u8>,
) -> Seq<MemoryOperation> {
    let record = MemoryOperation::Write(
        cursor_after(plan.start_cursor, plan.padding_length),
        header.record_bytes(payload),
    );
    if plan.padding_length == 0 {
        seq![record]
    } else {
        seq![
            MemoryOperation::Write(
                plan.start_cursor,
                padding_bytes(plan.padding_length, header.sequence),
            ),
            record,
        ]
    }
}

/// The ring after a planned record is published.
pub open spec fn after_plan(snapshot: RingSnapshot, plan: WritePlan) -> RingSnapshot {
    RingSnapshot {
        capacity: snapshot.capacity,
        producer: plan.publish_cursor,
        consumer: snapshot.consumer,
        used: (snapshot.used + plan.padding_length + plan.record_length) as u32,
    }
}

/// The header and plan of one record, or why it is rejected.
pub open spec fn planned_record(
    snapshot: RingSnapshot,
    message_id: MessageId,
    sequence: Sequence,
    kind: RecordKind,
    flags: RecordFlags,
    payload: Seq<u8>,
) -> Result<(ParsedRecordHeader, WritePlan), ErrorReport> {
    match application_header(payload.len() as u32, message_id, sequence, kind, flags) {
        Err(error) => Err(error),
        Ok(header) => match write_plan(snapshot, header.record_length) {
            Err(error) => Err(error),
            Ok(plan) => Ok((header, plan)),
        },
    }
}

/// Why the padding of a plan cannot be written, if it cannot: a cursor that is not aligned leaves
/// padding that no record can fill.
pub open spec fn padding_obstacle(plan: WritePlan) -> Option<ErrorReport> {
    if plan.padding_length >= PREFIX && plan.padding_length % 8 != 0 {
        Some(record_report(ErrorCode::InvalidRange, "padding length"))
    } else {
        None
    }
}

/// Why a record cannot be written behind a ring, if it cannot.
pub open spec fn staging_obstacle(
    snapshot: RingSnapshot,
    message_id: MessageId,
    sequence: Sequence,
    kind: RecordKind,
    flags: RecordFlags,
    payload: Seq<u8>,
) -> Option<ErrorReport> {
    match planned_record(snapshot, message_id, sequence, kind, flags, payload) {
        Err(error) => Some(error),
        Ok((_, plan)) => padding_obstacle(plan),
    }
}

/// The writes of several consecutive records of one message, with the ring after all of them, or
/// why the batch is rejected.
#[verifier::opaque]
pub open spec fn planned_batch(
    snapshot: RingSnapshot,
    message_id: MessageId,
    sequence: Sequence,
    kind: RecordKind,
    fragments: Seq<Fragment>,
) -> Result<(Seq<MemoryOperation>, RingSnapshot), ErrorReport>
    decreases fragments.len(),
{
    if fragments.len() == 0 {
        Ok((Seq::empty(), snapshot))
    } else {
        match planned_record(
            snapshot,
            message_id,
            sequence,
            kind,
            fragments[0].flags,
            fragments[0].payload@,
        ) {
            Err(error) => Err(error),
            Ok((header, plan)) => match planned_batch(
                after_plan(snapshot, plan),
                message_id,
                sequence.next(),
                kind,
                fragments.subrange(1, fragments.len() as int),
            ) {
                Err(error) => Err(error),
                Ok((rest, end)) => Ok(
                    (staged_writes(plan, header, fragments[0].payload@) + rest, end),
                ),
            },
        }
    }
}

/// The sequence `count` records onward.
pub open spec fn sequence_after(sequence: Sequence, count: nat) -> Sequence
    decreases count,
{
    if count == 0 {
        sequence
    } else {
        sequence_after(sequence.next(), (count - 1) as nat)
    }
}

/// One more record takes the number behind the last one.
pub proof fn lemma_sequence_after(sequence: Sequence, count: nat)
    ensures
        sequence_after(sequence, count + 1) == sequence_after(sequence, count).next(),
    decreases count,
{
    if count > 0 {
        lemma_sequence_after(sequence.next(), (count - 1) as nat);
    } else {
        reveal_with_fuel(sequence_after, 2);
    }
}

/// Whether no operation publishes anything.
pub open spec fn unpublished(operations: Seq<MemoryOperation>) -> bool {
    forall|i: int| 0 <= i < operations.len() ==> #[trigger] operations[i] is Write
}

/// Whether looking at the cursors of a ring from its producer side may turn out so.
pub open spec fn written_snapshot<Memory: RingProducer>(
    memory: Memory,
    outcome: Result<RingSnapshot, ErrorReport>,
) -> bool {
    ||| outcome matches Err(error) && memory.loads_producer(Err(error))
    ||| outcome matches Err(error) && memory.loads_consumer(Err(error)) && exists|producer: u32|
        #[trigger] memory.loads_producer(Ok(producer))
    ||| exists|producer: u32, consumer: u32| #[trigger]
        memory.loads_producer(Ok(producer)) && #[trigger] memory.loads_consumer(Ok(consumer))
            && outcome == snapshot_of(memory.capacity_of(), producer, consumer)
}

/// Whether asking for the committed bytes that are not yet consumed may turn out so.
pub open spec fn amount_told<Memory: RingProducer>(
    memory: Memory,
    amount: Result<u32, ErrorReport>,
) -> bool {
    exists|snapshot: Result<RingSnapshot, ErrorReport>| #[trigger]
        written_snapshot(memory, snapshot) && amount == match snapshot {
            Ok(found) => Ok::<u32, ErrorReport>(found.used),
            Err(error) => Err(error),
        }
}

/// Producer half of one record ring.
pub struct RingWriter<Memory = ProducerMemory> {
    /// Unique producer side of the ring.
    pub memory: Memory,
    /// Largest payload of one record.
    pub maximum_inline_message: u32,
    /// Identity of the next message.
    pub next_message_id: u32,
    /// Sequence of the next record.
    pub next_sequence: Sequence,
}

impl<Memory: RingProducer> RingWriter<Memory> {
    /// Whether the message limit fits one record and the next identity is not zero.
    pub open spec fn wf(self) -> bool {
        self.maximum_inline_message <= MAX_INLINE_MESSAGE_SIZE && self.next_message_id != 0
    }

    /// Whether these cursors were seen first of all since then, as the ring may show them.
    pub open spec fn saw_cursors(self, after: Self, producer: u32, consumer: u32) -> bool {
        &&& cursors_seen(self.memory.accesses(), after.memory.accesses(), producer, consumer)
        &&& self.memory.loads_producer(Ok(producer))
        &&& self.memory.loads_consumer(Ok(consumer))
    }

    /// What is wrong with a record before ring memory is looked at.
    pub open spec fn rejection(self, kind: RecordKind, payload: Seq<u8>) -> Option<ErrorReport> {
        if payload.len() > self.maximum_inline_message {
            Some(writer_report(ErrorCode::MessageTooLarge, "inline message size"))
        } else if kind is Padding {
            Some(writer_report(ErrorCode::ProtocolViolation, "application padding"))
        } else {
            None
        }
    }

    /// Everything but the ring memory is the same.
    pub open spec fn same_position(self, other: Self) -> bool {
        &&& self.maximum_inline_message == other.maximum_inline_message
        &&& self.next_message_id == other.next_message_id
        &&& self.next_sequence == other.next_sequence
        &&& self.memory.capacity_of() == other.memory.capacity_of()
        &&& self.memory.ring() == other.memory.ring()
    }

    /// Whether nothing was published and the next record is still the same, though bytes beyond
    /// the published ones may have been written.
    pub open spec fn nothing_published(self, after: Self) -> bool {
        &&& after.same_position(self)
        &&& accesses_added(self.memory.accesses(), after.memory.accesses())
        &&& exists|extra: Seq<MemoryOperation>|
            #[trigger] unpublished(extra) && after.memory.operations() == self.memory.operations()
                + extra
    }

    /// Why one record does not fit a ring with the given cursors, if it does not.
    pub open spec fn record_obstacle(
        self,
        kind: RecordKind,
        flags: RecordFlags,
        payload: Seq<u8>,
        producer: u32,
        consumer: u32,
    ) -> Option<ErrorReport> {
        match snapshot_of(self.memory.capacity_of(), producer, consumer) {
            Err(error) => Some(error),
            Ok(snapshot) => staging_obstacle(
                snapshot,
                MessageId::of(self.next_message_id as u64),
                self.next_sequence,
                kind,
                flags,
                payload,
            ),
        }
    }

    /// Whether a record failed for this reason: the cursors that were seen leave no room for it or
    /// are corrupt, or an access to the ring failed.
    pub open spec fn record_failed(
        self,
        after: Self,
        kind: RecordKind,
        flags: RecordFlags,
        payload: Seq<u8>,
        error: ErrorReport,
    ) -> bool {
        ||| access_failed(self.memory.accesses(), after.memory.accesses(), error)
        ||| exists|producer: u32, consumer: u32| #[trigger]
            self.saw_cursors(after, producer, consumer)
                && self.record_obstacle(kind, flags, payload, producer, consumer) == Some(error)
    }

    /// Why the records of one message do not fit a ring with the given cursors, if they do not.
    pub open spec fn batch_obstacle(
        self,
        kind: RecordKind,
        fragments: Seq<Fragment>,
        producer: u32,
        consumer: u32,
    ) -> Option<ErrorReport> {
        match snapshot_of(self.memory.capacity_of(), producer, consumer) {
            Err(error) => Some(error),
            Ok(snapshot) => self.unfit_batch(snapshot, self.next_sequence, kind, fragments),
        }
    }

    /// Why records with the numbers behind a sequence do not fit behind a ring, if they do not.
    pub open spec fn unfit_batch(
        self,
        snapshot: RingSnapshot,
        sequence: Sequence,
        kind: RecordKind,
        fragments: Seq<Fragment>,
    ) -> Option<ErrorReport>
        decreases fragments.len(),
    {
        if fragments.len() == 0 {
            None
        } else if self.rejection(kind, fragments[0].payload@) is Some {
            self.rejection(kind, fragments[0].payload@)
        } else {
            match planned_record(
                snapshot,
                MessageId::of(self.next_message_id as u64),
                sequence,
                kind,
                fragments[0].flags,
                fragments[0].payload@,
            ) {
                Err(error) => Some(error),
                Ok((_, plan)) => if padding_obstacle(plan) is Some {
                    padding_obstacle(plan)
                } else {
                    self.unfit_batch(
                        after_plan(snapshot, plan),
                        sequence.next(),
                        kind,
                        fragments.subrange(1, fragments.len() as int),
                    )
                },
            }
        }
    }

    /// Whether a message failed for this reason: the cursors that were seen leave no room for it or
    /// are corrupt, or an access to the ring failed.
    pub open spec fn batch_failed(
        self,
        after: Self,
        kind: RecordKind,
        fragments: Seq<Fragment>,
        error: ErrorReport,
    ) -> bool {
        ||| access_failed(self.memory.accesses(), after.memory.accesses(), error)
        ||| exists|producer: u32, consumer: u32| #[trigger]
            self.saw_cursors(after, producer, consumer)
                && self.batch_obstacle(kind, fragments, producer, consumer) == Some(error)
    }

    /// Whether only the cursors were looked at.
    pub open spec fn only_looked(self, after: Self) -> bool {
        &&& after.same_position(self)
        &&& after.memory.operations() == self.memory.operations()
        &&& accesses_added(self.memory.accesses(), after.memory.accesses())
    }

    /// Whether looking at the cursors failed for this reason: an access failed, or the cursors that
    /// were seen are corrupt.
    pub open spec fn look_failed(self, after: Self, error: ErrorReport) -> bool {
        ||| access_failed(self.memory.accesses(), after.memory.accesses(), error)
        ||| exists|producer: u32, consumer: u32| #[trigger]
            self.saw_cursors(after, producer, consumer)
                && snapshot_of(self.memory.capacity_of(), producer, consumer) == Err::<
                RingSnapshot,
                ErrorReport,
            >(error)
    }

    /// Whether the cursors that were seen are this many committed bytes apart.
    pub open spec fn amount_seen(self, after: Self, amount: u32) -> bool {
        exists|producer: u32, consumer: u32| #[trigger]
            self.saw_cursors(after, producer, consumer)
                && snapshot_of(self.memory.capacity_of(), producer, consumer) is Ok && amount
                == cursor_distance(consumer, producer)
    }

    /// Whether the bytes behind a published cursor were counted with the consumer seen last.
    pub open spec fn remainder_seen(self, published: u32, buffered_amount: u32) -> bool {
        exists|consumer: u32|
            self.memory.accesses().len() > 0 && self.memory.accesses().last()
                == RingAccess::Consumer(Ok(consumer)) && buffered_amount
                == #[trigger] cursor_distance(consumer, published)
    }

    /// Whether one record was written and published on a ring with the given cursors.
    pub open spec fn record_published(
        self,
        after: Self,
        kind: RecordKind,
        flags: RecordFlags,
        payload: Seq<u8>,
        producer: u32,
        consumer: u32,
    ) -> bool {
        &&& self.saw_cursors(after, producer, consumer)
        &&& after.next_sequence == self.next_sequence.next()
        &&& after.next_message_id == next_message_number(self.next_message_id)
        &&& snapshot_of(self.memory.capacity_of(), producer, consumer) matches Ok(snapshot)
            && planned_record(
            snapshot,
            MessageId::of(self.next_message_id as u64),
            self.next_sequence,
            kind,
            flags,
            payload,
        ) matches Ok((header, plan)) && after.memory.operations() == self.memory.operations()
            + staged_writes(plan, header, payload) + seq![
            MemoryOperation::Publish(plan.publish_cursor),
        ]
    }

    /// Whether all records of one message were written and published together on a ring with the
    /// given cursors.
    pub open spec fn batch_published(
        self,
        after: Self,
        kind: RecordKind,
        fragments: Seq<Fragment>,
        producer: u32,
        consumer: u32,
    ) -> bool {
        &&& accesses_added(self.memory.accesses(), after.memory.accesses())
        &&& self.saw_cursors(after, producer, consumer)
        &&& after.next_sequence == sequence_after(self.next_sequence, fragments.len())
        &&& after.next_message_id == next_message_number(self.next_message_id)
        &&& snapshot_of(self.memory.capacity_of(), producer, consumer) matches Ok(snapshot)
            && planned_batch(
            snapshot,
            MessageId::of(self.next_message_id as u64),
            self.next_sequence,
            kind,
            fragments,
        ) matches Ok((writes, end)) && after.memory.operations() == self.memory.operations()
            + writes + seq![MemoryOperation::Publish(end.producer)]
    }

    /// Creates a writer over its unique producer mapping.
    pub fn new(memory: Memory, maximum_inline_message: u32) -> (created: Self)
        ensures
            created.wf(),
            created.memory == memory,
            created.maximum_inline_message == if maximum_inline_message < MAX_INLINE_MESSAGE_SIZE {
                maximum_inline_message
            } else {
                MAX_INLINE_MESSAGE_SIZE
            },
            created.next_message_id == 1,
            created.next_sequence.value == 0,
    {
        let limit: u32 = if maximum_inline_message < MAX_INLINE_MESSAGE_SIZE {
            maximum_inline_message
        } else {
            MAX_INLINE_MESSAGE_SIZE
        };
        RingWriter {
            memory,
            maximum_inline_message: limit,
            next_message_id: 1,
            next_sequence: Sequence::new(0),
        }
    }

    /// Returns committed bytes that have not yet been consumed.
    ///
    /// `InvalidCursor` is returned for corrupted shared cursors.
    pub fn buffered_amount(&self) -> (amount: Result<u32, ErrorReport>)
        ensures
            amount_told(self.memory, amount),
            amount matches Ok(used) ==> used <= self.memory.capacity_of(),
    {
        let snapshot = self.snapshot();
        assert(written_snapshot(self.memory, snapshot));
        Ok(snapshot?.used())
    }

    /// Looks how many committed bytes have not yet been consumed.
    ///
    /// `InvalidCursor` is returned for corrupted shared cursors.
    pub(crate) fn observe_amount(&mut self) -> (amount: Result<u32, ErrorReport>)
        ensures
            old(self).only_looked(*final(self)),
            match amount {
                Ok(used) => old(self).amount_seen(*final(self), used),
                Err(error) => old(self).look_failed(*final(self), error),
            },
    {
        Ok(self.look()?.used())
    }

    /// Writes a complete record without publishing it.
    ///
    /// Dropping the returned value leaves the producer cursor unchanged: bytes may have changed,
    /// but the consumer cannot observe a partial record.
    ///
    /// `MessageTooLarge`, `Backpressured`, or a stable wire or ring validation error is returned.
    pub fn prepare<'writer>(
        &'writer mut self,
        kind: RecordKind,
        flags: RecordFlags,
        payload: &[u8],
    ) -> (prepared: Result<PendingWrite<'writer, Memory>, ErrorReport>)
        requires
            old(self).wf(),
            kind.wf(),
        ensures
            old(self).rejection(kind, payload@) matches Some(error) ==> {
                &&& prepared matches Err(found) && found == error
                &&& *final(self) == *old(self)
            },
            match prepared {
                Ok(pending) => {
                    &&& old(self).rejection(kind, payload@) is None
                    &&& pending.wf()
                    &&& *final(pending.writer) == *final(self)
                    &&& pending.writer.same_position(*old(self))
                    &&& pending.writer.memory.operations() == old(self).memory.operations()
                        + staged_writes(pending.plan, pending.header, payload@)
                    &&& accesses_added(
                        old(self).memory.accesses(),
                        pending.writer.memory.accesses(),
                    )
                    &&& exists|producer: u32, consumer: u32|
                        {
                        &&& old(self).saw_cursors(*pending.writer, producer, consumer)
                        &&& #[trigger] snapshot_of(
                            old(self).memory.capacity_of(),
                            producer,
                            consumer,
                        ) matches Ok(snapshot) && planned_record(
                            snapshot,
                            MessageId::of(old(self).next_message_id as u64),
                            old(self).next_sequence,
                            kind,
                            flags,
                            payload@,
                        ) == Ok::<(ParsedRecordHeader, WritePlan), ErrorReport>(
                            (pending.header, pending.plan),
                        )
                    }
                },
                Err(error) => {
                    &&& final(self).wf()
                    &&& old(self).nothing_published(*final(self))
                    &&& old(self).rejection(kind, payload@) is None ==> old(self).record_failed(
                        *final(self),
                        kind,
                        flags,
                        payload@,
                        error,
                    )
                },
            },
    {
        if payload.len() > self.maximum_inline_message as usize {
            proof {
                lemma_nothing_written(self.memory.operations());
            }
            return Err(writer_error(ErrorCode::MessageTooLarge, "inline message size"));
        }
        if kind == RecordKind::Padding {
            proof {
                lemma_nothing_written(self.memory.operations());
            }
            return Err(writer_error(ErrorCode::ProtocolViolation, "application padding"));
        }
        let snapshot = match self.look() {
            Ok(snapshot) => snapshot,
            Err(error) => {
                proof {
                    lemma_nothing_written(self.memory.operations());
                }
                return Err(error);
            },
        };
        let ghost looked = self.memory.accesses();
        let message_id = match MessageId::new(self.next_message_id as u64) {
            Some(message_id) => message_id,
            None => {
                proof {
                    lemma_nothing_written(self.memory.operations());
                }
                return Err(writer_error(ErrorCode::Internal, "writer message id"));
            },
        };
        let sequence = self.next_sequence;
        let staged = self.stage(snapshot, message_id, sequence, kind, flags, payload);
        proof {
            lemma_accesses_added(old(self).memory.accesses(), looked, self.memory.accesses());
            assert(old(self).saw_cursors(*self, snapshot.producer, snapshot.consumer));
        }
        let (header, plan) = staged?;
        Ok(PendingWrite { writer: self, plan, header })
    }

    /// Prepares and immediately publishes one record.
    ///
    /// The errors are those of [`Self::prepare`] and [`PendingWrite::commit`].
    pub fn send(&mut self, kind: RecordKind, flags: RecordFlags, payload: &[u8]) -> (sent: Result<
        SendOutcome,
        ErrorReport,
    >)
        requires
            old(self).wf(),
            kind.wf(),
        ensures
            final(self).wf(),
            final(self).memory.capacity_of() == old(self).memory.capacity_of(),
            final(self).memory.ring() == old(self).memory.ring(),
            final(self).maximum_inline_message == old(self).maximum_inline_message,
            old(self).rejection(kind, payload@) matches Some(error) ==> {
                &&& sent == Err::<SendOutcome, ErrorReport>(error)
                &&& *final(self) == *old(self)
            },
            sent matches Ok(outcome) ==> {
                &&& old(self).rejection(kind, payload@) is None
                &&& final(self).next_sequence == old(self).next_sequence.next()
                &&& final(self).next_message_id == next_message_number(old(self).next_message_id)
                &&& exists|producer: u32, consumer: u32|
                    {
                        &&& old(self).saw_cursors(*final(self), producer, consumer)
                        &&& #[trigger] snapshot_of(
                        old(self).memory.capacity_of(),
                        producer,
                        consumer,
                    ) matches Ok(snapshot) && planned_record(
                        snapshot,
                        MessageId::of(old(self).next_message_id as u64),
                        old(self).next_sequence,
                        kind,
                        flags,
                        payload@,
                    ) matches Ok((header, plan)) && outcome.signal_non_empty
                        == plan.signal_non_empty && final(self).remainder_seen(
                        plan.publish_cursor,
                        outcome.buffered_amount,
                    ) && final(self).memory.operations()
                        == old(self).memory.operations() + staged_writes(plan, header, payload@)
                        + seq![MemoryOperation::Publish(plan.publish_cursor)]
                    }
            },
            accesses_added(old(self).memory.accesses(), final(self).memory.accesses()),
            sent matches Err(error)
                ==> old(self).rejection(kind, payload@) is Some || old(self).record_failed(
                *final(self),
                kind,
                flags,
                payload@,
                error,
            ),
            sent is Err ==> {
                ||| old(self).nothing_published(*final(self))
                ||| access_failed(
                    old(self).memory.accesses(),
                    final(self).memory.accesses(),
                    sent->Err_0,
                ) && exists|producer: u32, consumer: u32| #[trigger]
                    old(self).record_published(
                        *final(self),
                        kind,
                        flags,
                        payload@,
                        producer,
                        consumer,
                    )
            },
    {
        let pending = self.prepare(kind, flags, payload)?;
        let ghost staged = pending.writer.memory.operations();
        let ghost looked = *pending.writer;
        let ghost plan = pending.plan;
        let ghost header = pending.header;
        let committed = pending.commit();
        proof {
            let (producer, consumer) = choose|producer: u32, consumer: u32|
                {
                    &&& old(self).saw_cursors(looked, producer, consumer)
                    &&& #[trigger] snapshot_of(
                    old(self).memory.capacity_of(),
                    producer,
                    consumer,
                ) matches Ok(snapshot) && planned_record(
                    snapshot,
                    MessageId::of(old(self).next_message_id as u64),
                    old(self).next_sequence,
                    kind,
                    flags,
                    payload@,
                ) == Ok::<(ParsedRecordHeader, WritePlan), ErrorReport>((header, plan))
                };
            lemma_accesses_added(
                old(self).memory.accesses(),
                looked.memory.accesses(),
                self.memory.accesses(),
            );
            assert(old(self).saw_cursors(*self, producer, consumer));
            let published = staged + seq![MemoryOperation::Publish(plan.publish_cursor)];
            assert(staged.push(MemoryOperation::Publish(plan.publish_cursor)) =~= published);
            if self.memory.operations() == published {
                assert(old(self).record_published(
                    *self,
                    kind,
                    flags,
                    payload@,
                    producer,
                    consumer,
                ));
            } else {
                assert(unpublished(staged_writes(plan, header, payload@)));
            }
        }
        committed
    }

    /// Writes all records of one message and publishes them together.
    ///
    /// Every record carries the same message identity. When one of them does not fit, nothing is
    /// published.
    pub fn send_fragments(&mut self, kind: RecordKind, fragments: &[Fragment<'_>]) -> (sent: Result<
        SendOutcome,
        ErrorReport,
    >)
        requires
            old(self).wf(),
            kind.wf(),
        ensures
            final(self).wf(),
            final(self).memory.capacity_of() == old(self).memory.capacity_of(),
            final(self).memory.ring() == old(self).memory.ring(),
            final(self).maximum_inline_message == old(self).maximum_inline_message,
            (exists|i: int|
                0 <= i < fragments@.len() && old(self).rejection(
                    kind,
                    (#[trigger] fragments@[i]).payload@,
                ) is Some) ==> sent is Err,
            sent matches Ok(outcome) ==> {
                &&& final(self).next_sequence == sequence_after(
                    old(self).next_sequence,
                    fragments@.len(),
                )
                &&& final(self).next_message_id == next_message_number(old(self).next_message_id)
                &&& exists|producer: u32, consumer: u32|
                    {
                        &&& old(self).saw_cursors(*final(self), producer, consumer)
                        &&& #[trigger] snapshot_of(
                        old(self).memory.capacity_of(),
                        producer,
                        consumer,
                    ) matches Ok(snapshot) && planned_batch(
                        snapshot,
                        MessageId::of(old(self).next_message_id as u64),
                        old(self).next_sequence,
                        kind,
                        fragments@,
                    ) matches Ok((writes, end)) && outcome.signal_non_empty == (snapshot.used == 0)
                        && final(self).remainder_seen(end.producer, outcome.buffered_amount)
                        && final(self).memory.operations() == old(self).memory.operations() + writes
                        + seq![MemoryOperation::Publish(end.producer)]
                    }
            },
            accesses_added(old(self).memory.accesses(), final(self).memory.accesses()),
            sent matches Err(error) ==> old(self).batch_failed(
                *final(self),
                kind,
                fragments@,
                error,
            ),
            sent is Err ==> {
                ||| old(self).nothing_published(*final(self))
                ||| access_failed(
                    old(self).memory.accesses(),
                    final(self).memory.accesses(),
                    sent->Err_0,
                ) && exists|producer: u32, consumer: u32| #[trigger]
                    old(self).batch_published(*final(self), kind, fragments@, producer, consumer)
            },
    {
        proof {
            lemma_nothing_written(self.memory.operations());
        }
        let snapshot = self.look()?;
        let ghost looked = self.memory.accesses();
        let ghost (producer, consumer) = (snapshot.producer, snapshot.consumer);
        let message_id = match MessageId::new(self.next_message_id as u64) {
            Some(message_id) => message_id,
            None => {
                return Err(writer_error(ErrorCode::Internal, "writer message id"));
            },
        };
        let ghost start = self.memory.operations();
        let ghost mut writes = Seq::<MemoryOperation>::empty();
        let mut sequence = self.next_sequence;
        let mut at = snapshot;
        let mut index: usize = 0;
        proof {
            assert(fragments@.subrange(0, fragments@.len() as int) =~= fragments@);
            assert(self.memory.operations() =~= start + writes);
            match planned_batch(snapshot, message_id, sequence, kind, fragments@) {
                Ok((rest, _)) => {
                    assert(writes + rest =~= rest);
                },
                Err(_) => {},
            }
        }
        while index < fragments.len()
            invariant
                old(self).wf(),
                kind.wf(),
                index <= fragments@.len(),
                at.wf(),
                at.capacity == self.memory.capacity_of(),
                self.same_position(*old(self)),
                start == old(self).memory.operations(),
                self.memory.operations() == start + writes,
                unpublished(writes),
                accesses_added(old(self).memory.accesses(), self.memory.accesses()),
                old(self).saw_cursors(*self, producer, consumer),
                snapshot_of(old(self).memory.capacity_of(), producer, consumer) == Ok::<
                    RingSnapshot,
                    ErrorReport,
                >(snapshot),
                old(self).unfit_batch(snapshot, old(self).next_sequence, kind, fragments@)
                    == old(self).unfit_batch(
                    at,
                    sequence,
                    kind,
                    fragments@.subrange(index as int, fragments@.len() as int),
                ),
                forall|i: int|
                    0 <= i < index ==> old(self).rejection(
                        kind,
                        (#[trigger] fragments@[i]).payload@,
                    ) is None,
                message_id == MessageId::of(old(self).next_message_id as u64),
                sequence_after(old(self).next_sequence, fragments@.len()) == sequence_after(
                    sequence,
                    (fragments@.len() - index) as nat,
                ),
                planned_batch(
                    snapshot,
                    message_id,
                    old(self).next_sequence,
                    kind,
                    fragments@,
                ) == (match planned_batch(
                    at,
                    message_id,
                    sequence,
                    kind,
                    fragments@.subrange(index as int, fragments@.len() as int),
                ) {
                    Ok((rest, end)) => Ok::<(Seq<MemoryOperation>, RingSnapshot), ErrorReport>(
                        (writes + rest, end),
                    ),
                    Err(error) => Err(error),
                }),
            decreases fragments@.len() - index,
        {
            let fragment = fragments[index];
            let ghost tried = self.memory.accesses();
            let ghost remaining = fragments@.subrange(index as int, fragments@.len() as int);
            let ghost before = writes;
            let payload: &[u8] = fragment.payload;
            proof {
                assert(remaining[0] == fragment);
            }
            if payload.len() > self.maximum_inline_message as usize {
                return Err(writer_error(ErrorCode::MessageTooLarge, "inline message size"));
            }
            if kind == RecordKind::Padding {
                return Err(writer_error(ErrorCode::ProtocolViolation, "application padding"));
            }
            let (header, plan) = match self.stage(
                at,
                message_id,
                sequence,
                kind,
                fragment.flags,
                payload,
            ) {
                Ok(staged) => staged,
                Err(error) => {
                    proof {
                        lemma_more_written(start, before, self.memory.operations());
                        lemma_accesses_added(
                            old(self).memory.accesses(),
                            tried,
                            self.memory.accesses(),
                        );
                        assert(old(self).saw_cursors(*self, producer, consumer));
                    }
                    return Err(error);
                },
            };
            proof {
                lemma_accesses_added(old(self).memory.accesses(), tried, self.memory.accesses());
                reveal(planned_batch);
                let staged = staged_writes(plan, header, payload@);
                writes = before + staged;
                let tail = fragments@.subrange(index + 1, fragments@.len() as int);
                assert(remaining[0] == fragment);
                assert(remaining.subrange(1, remaining.len() as int) =~= tail);
                crate::data_plane::ring_core::law_plans_stay_in_free_space(
                    at,
                    header.record_length,
                );
                assert(self.memory.operations() =~= start + writes);
                match planned_batch(
                    after_plan(at, plan),
                    message_id,
                    sequence.next(),
                    kind,
                    tail,
                ) {
                    Ok((rest, end)) => {
                        assert(before + (staged + rest) =~= writes + rest);
                    },
                    Err(_) => {},
                }
            }
            at = RingSnapshot {
                capacity: at.capacity,
                producer: plan.publish_cursor,
                consumer: at.consumer,
                used: at.used + plan.padding_length + plan.record_length,
            };
            sequence = sequence.wrapping_next();
            index = index + 1;
        }
        proof {
            let rest = fragments@.subrange(index as int, fragments@.len() as int);
            reveal(planned_batch);
            assert(rest =~= Seq::<Fragment>::empty());
            assert(writes + Seq::<MemoryOperation>::empty() =~= writes);
        }
        let ghost staged = self.memory.accesses();
        let published = self.memory.publish_through(at.producer);
        proof {
            lemma_accesses_added(old(self).memory.accesses(), staged, self.memory.accesses());
        }
        published?;
        let ghost told = self.memory.accesses();
        self.next_sequence = sequence;
        self.next_message_id = following_number(self.next_message_id);
        proof {
            assert(self.memory.operations() =~= old(self).memory.operations() + writes + seq![
                MemoryOperation::Publish(at.producer),
            ]);
        }
        let remaining = self.memory.observe_consumer();
        proof {
            lemma_accesses_added(old(self).memory.accesses(), told, self.memory.accesses());
            assert(old(self).batch_published(*self, kind, fragments@, producer, consumer));
        }
        let consumer: u32 = remaining?;
        Ok(
            SendOutcome {
                buffered_amount: distance_between(consumer, at.producer),
                signal_non_empty: snapshot.is_empty(),
            },
        )
    }

    /// Writes the padding and the bytes of one record at the end of `snapshot`.
    fn stage(
        &mut self,
        snapshot: RingSnapshot,
        message_id: MessageId,
        sequence: Sequence,
        kind: RecordKind,
        flags: RecordFlags,
        payload: &[u8],
    ) -> (staged: Result<(ParsedRecordHeader, WritePlan), ErrorReport>)
        requires
            old(self).wf(),
            kind.wf(),
            snapshot.wf(),
            payload@.len() <= old(self).maximum_inline_message,
        ensures
            final(self).wf(),
            final(self).same_position(*old(self)),
            match staged {
                Ok((header, plan)) => {
                    &&& header.wf()
                    &&& padding_obstacle(plan) is None
                    &&& planned_record(
                        snapshot,
                        message_id,
                        sequence,
                        kind,
                        flags,
                        payload@,
                    ) == Ok::<(ParsedRecordHeader, WritePlan), ErrorReport>((header, plan))
                    &&& final(self).memory.operations() == old(self).memory.operations()
                        + staged_writes(plan, header, payload@)
                },
                Err(error) => {
                    &&& exists|extra: Seq<MemoryOperation>|
                        #[trigger] unpublished(extra)
                            && final(self).memory.operations()
                                == old(self).memory.operations() + extra
                    &&& {
                        ||| access_failed(
                            old(self).memory.accesses(),
                            final(self).memory.accesses(),
                            error,
                        )
                        ||| staging_obstacle(
                            snapshot,
                            message_id,
                            sequence,
                            kind,
                            flags,
                            payload@,
                        ) == Some(error)
                    }
                },
            },
            accesses_added(old(self).memory.accesses(), final(self).memory.accesses()),
    {
        proof {
            lemma_nothing_written(self.memory.operations());
        }
        let ghost start = self.memory.operations();
        let header = ParsedRecordHeader::new(
            payload.len() as u32,
            message_id,
            sequence,
            kind,
            flags,
        )?;
        let plan = snapshot.plan_write(header.record_length)?;
        write_padding(&mut self.memory, plan, sequence)?;
        let ghost padded = self.memory.operations();
        proof {
            assert(padded =~= start + padded.subrange(start.len() as int, padded.len() as int));
            assert(unpublished(padded.subrange(start.len() as int, padded.len() as int)));
        }
        let encoded = header.encode_unpublished(payload);
        self.memory.write_at(
            advance(plan.start_cursor, plan.padding_length),
            encoded.as_slice(),
        )?;
        proof {
            assert(self.memory.operations() =~= start + staged_writes(plan, header, payload@));
        }
        Ok((header, plan))
    }

    /// Looks at the cursors before a change.
    fn look(&mut self) -> (snapshot: Result<RingSnapshot, ErrorReport>)
        ensures
            old(self).only_looked(*final(self)),
            match snapshot {
                Ok(found) => {
                    &&& found.wf()
                    &&& found.capacity == old(self).memory.capacity_of()
                    &&& snapshot_of(
                        old(self).memory.capacity_of(),
                        found.producer,
                        found.consumer,
                    ) == Ok::<RingSnapshot, ErrorReport>(found)
                    &&& old(self).saw_cursors(*final(self), found.producer, found.consumer)
                },
                Err(error) => old(self).look_failed(*final(self), error),
            },
    {
        let producer: u32 = self.memory.observe_producer()?;
        let consumer: u32 = self.memory.observe_consumer()?;
        proof {
            assert(old(self).saw_cursors(*self, producer, consumer));
        }
        RingSnapshot::new(self.memory.capacity(), producer, consumer)
    }

    fn snapshot(&self) -> (snapshot: Result<RingSnapshot, ErrorReport>)
        ensures
            written_snapshot(self.memory, snapshot),
            snapshot matches Ok(found) ==> found.wf() && found.capacity == self.memory.capacity_of()
                && snapshot_of(self.memory.capacity_of(), found.producer, found.consumer) == Ok::<
                RingSnapshot,
                ErrorReport,
            >(found),
    {
        let producer: u32 = self.memory.load_producer()?;
        let consumer: u32 = self.memory.load_consumer()?;
        RingSnapshot::new(self.memory.capacity(), producer, consumer)
    }
}

fn following_number(number: u32) -> (next: u32)
    ensures
        next == next_message_number(number),
{
    if number == u32::MAX {
        1
    } else {
        number + 1
    }
}

/// Writing nothing publishes nothing.
pub proof fn lemma_nothing_written(operations: Seq<MemoryOperation>)
    ensures
        unpublished(Seq::<MemoryOperation>::empty()),
        operations == operations + Seq::<MemoryOperation>::empty(),
{
    assert(operations =~= operations + Seq::<MemoryOperation>::empty());
}

proof fn lemma_more_written(
    start: Seq<MemoryOperation>,
    before: Seq<MemoryOperation>,
    end: Seq<MemoryOperation>,
)
    requires
        unpublished(before),
        exists|extra: Seq<MemoryOperation>|
            #[trigger] unpublished(extra) && end == start + before + extra,
    ensures
        exists|extra: Seq<MemoryOperation>| #[trigger] unpublished(extra) && end == start + extra,
{
    let extra = choose|extra: Seq<MemoryOperation>|
        #[trigger] unpublished(extra) && end == start + before + extra;
    assert(unpublished(before + extra));
    assert(end =~= start + (before + extra));
}

/// Fully written but not yet published record.
pub struct PendingWrite<'writer, Memory = ProducerMemory> {
    /// Writer whose next record this is.
    pub writer: &'writer mut RingWriter<Memory>,
    /// Place of the record in the ring.
    pub plan: WritePlan,
    /// Header written into ring bytes.
    pub header: ParsedRecordHeader,
}

impl<'writer, Memory: RingProducer> PendingWrite<'writer, Memory> {
    /// Whether the writer and the header are well formed.
    pub open spec fn wf(self) -> bool {
        self.writer.wf() && self.header.wf()
    }

    /// Returns the record header written into shared bytes.
    pub fn header(&self) -> (header: ParsedRecordHeader)
        ensures
            header == self.header,
    {
        self.header
    }

    /// Publishes the complete record.
    ///
    /// `InvalidCursor` is returned if shared cursor state changed inconsistently before
    /// publication.
    pub fn commit(self) -> (committed: Result<SendOutcome, ErrorReport>)
        requires
            self.wf(),
        ensures
            final(self.writer).wf(),
            final(self.writer).memory.capacity_of() == old(self.writer).memory.capacity_of(),
            final(self.writer).memory.ring() == old(self.writer).memory.ring(),
            final(self.writer).maximum_inline_message == old(self.writer).maximum_inline_message,
            committed matches Ok(outcome) ==> {
                &&& final(self.writer).memory.operations()
                    == old(self.writer).memory.operations().push(
                    MemoryOperation::Publish(self.plan.publish_cursor),
                )
                &&& final(self.writer).next_sequence == old(self.writer).next_sequence.next()
                &&& final(self.writer).next_message_id == next_message_number(
                    old(self.writer).next_message_id,
                )
                &&& outcome.signal_non_empty == self.plan.signal_non_empty
                &&& final(self.writer).remainder_seen(
                    self.plan.publish_cursor,
                    outcome.buffered_amount,
                )
            },
            accesses_added(
                old(self.writer).memory.accesses(),
                final(self.writer).memory.accesses(),
            ),
            committed matches Err(error) ==> access_failed(
                old(self.writer).memory.accesses(),
                final(self.writer).memory.accesses(),
                error,
            ),
            committed is Err ==> {
                ||| *final(self.writer) == (RingWriter {
                    memory: final(self.writer).memory,
                    ..*old(self.writer)
                }) && final(self.writer).memory.operations() == old(self.writer).memory.operations()
                ||| final(self.writer).memory.operations()
                    == old(self.writer).memory.operations().push(
                    MemoryOperation::Publish(self.plan.publish_cursor),
                ) && final(self.writer).next_sequence == old(self.writer).next_sequence.next()
                    && final(self.writer).next_message_id == next_message_number(
                    old(self.writer).next_message_id,
                )
            },
    {
        self.writer.memory.publish_through(self.plan.publish_cursor)?;
        self.writer.next_sequence = self.writer.next_sequence.wrapping_next();
        self.writer.next_message_id = following_number(self.writer.next_message_id);
        let consumer: u32 = self.writer.memory.observe_consumer()?;
        Ok(
            SendOutcome {
                buffered_amount: distance_between(consumer, self.plan.publish_cursor),
                signal_non_empty: self.plan.signal_non_empty,
            },
        )
    }
}

/// Result of a committed send.
#[derive(Clone, Copy, Debug, PartialEq, Eq, Structural)]
pub struct SendOutcome {
    /// Bytes committed after publication.
    pub buffered_amount: u32,
    /// Whether the ring crossed from empty to non-empty.
    pub signal_non_empty: bool,
}

fn write_padding<Memory: RingProducer>(
    memory: &mut Memory,
    plan: WritePlan,
    sequence: Sequence,
) -> (written: Result<(), ErrorReport>)
    ensures
        final(memory).capacity_of() == old(memory).capacity_of(),
        final(memory).ring() == old(memory).ring(),
        written is Err ==> final(memory).operations() == old(memory).operations(),
        accesses_added(old(memory).accesses(), final(memory).accesses()),
        written matches Err(error) ==> padding_obstacle(plan) == Some(error) || access_failed(
            old(memory).accesses(),
            final(memory).accesses(),
            error,
        ),
        written is Ok ==> padding_obstacle(plan) is None,
        written is Ok ==> final(memory).operations() == if plan.padding_length == 0 {
            old(memory).operations()
        } else {
            old(memory).operations().push(
                MemoryOperation::Write(
                    plan.start_cursor,
                    padding_bytes(plan.padding_length, sequence),
                ),
            )
        },
{
    if plan.padding_length == 0 {
        return Ok(());
    }
    let padding: Vec<u8> = if plan.has_explicit_padding() {
        let header = ParsedRecordHeader::padding(plan.padding_length, sequence)?;
        let payload: Vec<u8> = vec![0; header.payload_length as usize];
        proof {
            assert(payload@ =~= zeros((plan.padding_length - PREFIX) as nat));
        }
        header.encode_unpublished(payload.as_slice())
    } else {
        vec![0; plan.padding_length as usize]
    };
    proof {
        if plan.padding_length < PREFIX {
            assert(padding@ =~= zeros(plan.padding_length as nat));
        }
    }
    memory.write_at(plan.start_cursor, padding.as_slice())
}

/// Messages follow each other without a gap.
///
/// The writer is one of an in-process ring, and its consumer may run at any time. The records of a
/// message are planned from the cursor at which the last publication ended, and the next message
/// is planned from the cursor at which they end.
pub proof fn law_messages_follow_each_other(
    before: RingWriter<ProducerMemory>,
    after: RingWriter<ProducerMemory>,
    kind: RecordKind,
    fragments: Seq<Fragment>,
    producer: u32,
    consumer: u32,
)
    requires
        before.batch_published(after, kind, fragments, producer, consumer),
    ensures
        producer == last_published(before.memory.operations()),
        snapshot_of(before.memory.capacity_of(), producer, consumer) matches Ok(snapshot)
            && planned_batch(
            snapshot,
            MessageId::of(before.next_message_id as u64),
            before.next_sequence,
            kind,
            fragments,
        ) matches Ok((_, end)) && last_published(after.memory.operations()) == end.producer,
        after.memory.loads_producer(Ok(last_published(after.memory.operations()))),
{
}

/// A message that was not published leaves its producer where it stood, whatever was written.
pub proof fn law_an_unpublished_message_leaves_the_cursor(
    before: RingWriter<ProducerMemory>,
    after: RingWriter<ProducerMemory>,
)
    requires
        before.nothing_published(after),
    ensures
        last_published(after.memory.operations()) == last_published(before.memory.operations()),
{
    let extra = choose|extra: Seq<MemoryOperation>|
        #[trigger] unpublished(extra) && after.memory.operations() == before.memory.operations()
            + extra;
    lemma_writes_leave_the_cursor(before.memory.operations(), extra);
}

/// Writes do not publish.
proof fn lemma_writes_leave_the_cursor(
    operations: Seq<MemoryOperation>,
    writes: Seq<MemoryOperation>,
)
    requires
        unpublished(writes),
    ensures
        last_published(operations + writes) == last_published(operations),
    decreases writes.len(),
{
    broadcast use last_published_push;

    if writes.len() == 0 {
        assert(operations + writes =~= operations);
    } else {
        let fewer = writes.drop_last();
        assert(unpublished(fewer)) by {
            assert forall|i: int| 0 <= i < fewer.len() implies #[trigger] fewer[i] is Write by {
                assert(fewer[i] == writes[i]);
            }
        }
        lemma_writes_leave_the_cursor(operations, fewer);
        assert(operations + writes =~= (operations + fewer).push(writes.last()));
        assert(writes[writes.len() - 1] is Write);
    }
}

/// A failure of a writer keeps its code and is one of resources; only backpressure is worth another
/// try, anything else is final.
pub proof fn law_only_writers_under_pressure_try_again(code: ErrorCode, operation: &'static str)
    ensures
        writer_report(code, operation).code == code,
        writer_report(code, operation).context == operation,
        writer_report(code, operation).category is Resource,
        writer_report(code, operation).recoverability is Retryable <==> code is Backpressured,
        writer_report(code, operation).recoverability is Terminal <==> !(code is Backpressured),
{
}

/// A payload that is too large is told so before its kind is looked at.
pub proof fn law_refused_payloads_are_told_apart<Memory: RingProducer>(
    writer: RingWriter<Memory>,
    kind: RecordKind,
    payload: Seq<u8>,
)
    ensures
        writer.rejection(kind, payload) is None <==> payload.len() <= writer.maximum_inline_message
            && !(kind is Padding),
        writer.rejection(kind, payload) matches Some(error) ==> {
            &&& error.code is MessageTooLarge <==> payload.len() > writer.maximum_inline_message
            &&& error.code is ProtocolViolation <==> payload.len() <= writer.maximum_inline_message
        },
{
}

/// A record that was published takes the next number of its writer, and its bytes were staged
/// before its cursor was published, which is the last thing that its ring saw.
pub proof fn law_published_records_are_numbered<Memory: RingProducer>(
    before: RingWriter<Memory>,
    after: RingWriter<Memory>,
    kind: RecordKind,
    flags: RecordFlags,
    payload: Seq<u8>,
    producer: u32,
    consumer: u32,
)
    requires
        before.record_published(after, kind, flags, payload, producer, consumer),
    ensures
        after.next_sequence == before.next_sequence.next(),
        after.next_message_id != before.next_message_id,
        before.memory.operations().is_prefix_of(after.memory.operations()),
        after.memory.operations().len() > before.memory.operations().len(),
        after.memory.operations().last() is Publish,
{
}

} // verus!
