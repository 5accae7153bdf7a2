//! Bidirectional channel composed from two opposite-owner rings.
//!
//! Notifications are deliberately absent from the correctness path. [`ChannelSend`] tells an
//! adapter when an empty-to-non-empty hint is useful, while [`ChannelEndpoint::receive`] always
//! inspects acquired cursors and drains records without requiring that hint.

use vstd::prelude::*;

use crate::data_plane::channel_model::{lemma_received_onward, ChannelLane};
use crate::data_plane::flow_control::{
    backpressure_after, flow_report, observed, watermarks_agree, FlowControl, FlowUpdate,
};
use crate::data_plane::fragment::{
    carries, cut_into, encoded_size_report, fragment_report, law_fragments_reassemble,
    law_pieces_join_to_the_payload, lemma_pieces_count, lemma_several_pieces, limits_agree,
    limits_report, piece_flags, pieces, pushed, pushed_all, wire_size, Fragment, Fragmenter,
    PartialView, Reassembler, Reassembly,
};
use crate::data_plane::layout::valid_capacity;
use crate::data_plane::record::{
    record_size, ParsedRecordHeader, RecordFlags, RecordKind, FLAG_END_OF_MESSAGE,
    FLAG_FRAGMENTED,
};
use crate::data_plane::ring_core::{cursor_distance, snapshot_of};
use crate::data_plane::ring_memory::{
    access_failed, accesses_added, in_process_ring, lemma_accesses_added,
    memory_report, ConsumerMemory, MemoryOperation, ProducerMemory, RingAccess, RingConsumer,
    RingProducer,
};
use crate::data_plane::ring_model::{
    batch_records, lemma_replayed_none, lemma_replayed_onward, replayed, since, RingModel,
    RingRecord,
};
use crate::data_plane::ring_reader::{
    consumptions, item_seen, item_shown, items_taken, lemma_item_still_shown, reading_failed,
    record_of, taken_from_any, CommittedItem, OwnedRecord, ReadReceipt, RingReader,
};
use crate::data_plane::ring_writer::{
    amount_told, lemma_nothing_written, lemma_sequence_after, next_message_number, planned_batch,
    planned_record, sequence_after, staged_writes, RingWriter, SendOutcome,
};
use crate::domain::error::{report, ErrorCategory, ErrorCode, ErrorReport, Recoverability};
use crate::domain::types::{MessageId, Sequence};

verus! {

/// The report of a send that the channel refuses.
pub open spec fn channel_report(code: ErrorCode, recoverability: Recoverability) -> ErrorReport {
    report(
        if code is Closed {
            ErrorCategory::Closed
        } else {
            ErrorCategory::Resource
        },
        code,
        recoverability,
        "channel send",
    )
}

fn channel_error(code: ErrorCode, recoverability: Recoverability) -> (created: ErrorReport)
    ensures
        created == channel_report(code, recoverability),
{
    ErrorReport::new(
        if code == ErrorCode::Closed {
            ErrorCategory::Closed
        } else {
            ErrorCategory::Resource
        },
        code,
        recoverability,
        "channel send",
    )
}

/// The report of a record that the channel does not accept.
pub open spec fn channel_protocol_report(operation: &'static str) -> ErrorReport {
    report(
        ErrorCategory::Protocol,
        ErrorCode::ProtocolViolation,
        Recoverability::ReplaceEndpoint,
        operation,
    )
}

fn channel_protocol_error(operation: &'static str) -> (created: ErrorReport)
    ensures
        created == channel_protocol_report(operation),
{
    ErrorReport::new(
        ErrorCategory::Protocol,
        ErrorCode::ProtocolViolation,
        Recoverability::ReplaceEndpoint,
        operation,
    )
}

/// The report of limits that the ring cannot hold.
pub open spec fn invalid_channel_report() -> ErrorReport {
    report(
        ErrorCategory::Configuration,
        ErrorCode::InvalidRange,
        Recoverability::Terminal,
        "channel fragmentation capacity",
    )
}

fn invalid_channel_configuration() -> (created: ErrorReport)
    ensures
        created == invalid_channel_report(),
{
    ErrorReport::new(
        ErrorCategory::Configuration,
        ErrorCode::InvalidRange,
        Recoverability::Terminal,
        "channel fragmentation capacity",
    )
}

/// Bounded channel configuration.
#[derive(Clone, Copy, Debug, PartialEq, Eq, Structural)]
pub struct ChannelConfig {
    /// Directional ring capacity in bytes.
    pub capacity: u32,
    /// Maximum payload bytes stored in one record.
    pub maximum_inline_message: u32,
    /// Maximum payload bytes in one reassembled logical message.
    pub maximum_message: u32,
    /// Occupancy at or below which a writable edge is emitted.
    pub low_watermark: u32,
    /// Occupancy at or above which new sends are backpressured.
    pub high_watermark: u32,
}

impl ChannelConfig {
    /// Ring bytes that the largest logical message can take.
    pub open spec fn worst_case_bytes(self) -> int {
        let inline = self.maximum_inline_message as int;
        let wire = wire_size(inline, self.maximum_message as int);
        if self.maximum_message > self.maximum_inline_message {
            wire + record_size(inline) - 8
        } else {
            wire
        }
    }

    /// Whether the worst case cannot be represented in 32 bits.
    pub open spec fn worst_case_overflows(self) -> bool {
        let inline = self.maximum_inline_message as int;
        let wire = wire_size(inline, self.maximum_message as int);
        wire > u32::MAX || (self.maximum_message > self.maximum_inline_message && wire
            + record_size(inline) > u32::MAX)
    }

    /// Why an endpoint over rings of the given capacities cannot have this configuration.
    pub open spec fn rejection(self, outbound: u32, inbound: u32) -> Option<ErrorReport> {
        if !limits_agree(self.maximum_inline_message, self.maximum_message) {
            Some(limits_report())
        } else if self.worst_case_overflows() {
            Some(encoded_size_report())
        } else if self.worst_case_bytes() > self.capacity || outbound != self.capacity || inbound
            != self.capacity {
            Some(invalid_channel_report())
        } else if !watermarks_agree(self.capacity, self.low_watermark, self.high_watermark) {
            Some(flow_report(ErrorCode::InvalidRange))
        } else {
            None
        }
    }

    fn fragmenter(self) -> (policy: Result<Fragmenter, ErrorReport>)
        ensures
            policy == if limits_agree(self.maximum_inline_message, self.maximum_message) {
                Ok::<Fragmenter, ErrorReport>(
                    Fragmenter {
                        maximum_inline_message: self.maximum_inline_message,
                        maximum_message: self.maximum_message,
                    },
                )
            } else {
                Err(limits_report())
            },
    {
        Fragmenter::new(self.maximum_inline_message, self.maximum_message)
    }

    fn validate_capacity(self, fragmenter: Fragmenter) -> (checked: Result<(), ErrorReport>)
        requires
            fragmenter.wf(),
            fragmenter.maximum_inline_message == self.maximum_inline_message,
            fragmenter.maximum_message == self.maximum_message,
        ensures
            match checked {
                Ok(_) => !self.worst_case_overflows() && self.worst_case_bytes() <= self.capacity,
                Err(error) => if self.worst_case_overflows() {
                    error == encoded_size_report()
                } else {
                    self.worst_case_bytes() > self.capacity && error == invalid_channel_report()
                },
            },
    {
        proof {
            crate::data_plane::fragment::lemma_wire_size_bounds(
                self.maximum_inline_message as int,
                self.maximum_message as int,
            );
        }
        let wire_bytes: u32 = fragmenter.maximum_wire_bytes()?;
        let worst_case_bytes: u32 = if self.maximum_message > self.maximum_inline_message {
            fragmenter.maximum_batch_bytes()?
        } else {
            wire_bytes
        };
        if worst_case_bytes > self.capacity {
            return Err(invalid_channel_configuration());
        }
        Ok(())
    }
}

/// Creates two endpoints connected by opposite-direction rings.
///
/// `InvalidRange` is returned for invalid capacity or watermark configuration.
pub fn in_process_channel(
    capacity: u32,
    maximum_inline_message: u32,
    low_watermark: u32,
    high_watermark: u32,
) -> (created: Result<(ChannelEndpoint, ChannelEndpoint), ErrorReport>)
    ensures
        opened(
            ChannelConfig {
                capacity,
                maximum_inline_message,
                maximum_message: maximum_inline_message,
                low_watermark,
                high_watermark,
            },
            created,
        ),
{
    in_process_channel_with_config(
        ChannelConfig {
            capacity,
            maximum_inline_message,
            maximum_message: maximum_inline_message,
            low_watermark,
            high_watermark,
        },
    )
}

/// Whether a pair of endpoints, or the right error, was made from a configuration.
pub open spec fn opened(
    config: ChannelConfig,
    created: Result<(ChannelEndpoint, ChannelEndpoint), ErrorReport>,
) -> bool {
    match created {
        Ok(pair) => {
            &&& valid_capacity(config.capacity as int)
            &&& config.rejection(config.capacity, config.capacity) is None
            &&& pair.0.is_fresh(config)
            &&& pair.1.is_fresh(config)
            &&& pair.0.sends_to(pair.1)
            &&& pair.1.sends_to(pair.0)
        },
        Err(error) => if !valid_capacity(config.capacity as int) {
            error == memory_report(ErrorCode::InvalidRange)
        } else {
            config.rejection(config.capacity, config.capacity) == Some(error)
        },
    }
}

/// Creates two endpoints with explicit inline and logical-message limits.
///
/// `InvalidRange` is returned when limits, capacity, or watermarks are inconsistent.
pub fn in_process_channel_with_config(config: ChannelConfig) -> (created: Result<
    (ChannelEndpoint, ChannelEndpoint),
    ErrorReport,
>)
    ensures
        opened(config, created),
{
    let (a_to_b_producer, a_to_b_consumer) = in_process_ring(config.capacity)?;
    let (b_to_a_producer, b_to_a_consumer) = in_process_ring(config.capacity)?;
    let endpoint_a = ChannelEndpoint::from_memories(a_to_b_producer, b_to_a_consumer, config)?;
    let endpoint_b = ChannelEndpoint::from_memories(b_to_a_producer, a_to_b_consumer, config)?;
    Ok((endpoint_a, endpoint_b))
}

/// Sender result consumed by a signal adapter.
#[derive(Clone, Copy, Debug, PartialEq, Eq, Structural)]
pub struct ChannelSend {
    /// Current committed byte count in this direction.
    pub buffered_amount: u32,
    /// Whether an empty-to-non-empty notification hint should be posted.
    pub notify: bool,
}

fn channel_send(outcome: SendOutcome) -> (sent: ChannelSend)
    ensures
        sent.buffered_amount == outcome.buffered_amount,
        sent.notify == outcome.signal_non_empty,
{
    ChannelSend { buffered_amount: outcome.buffered_amount, notify: outcome.signal_non_empty }
}

/// Received channel event.
#[derive(Clone, Debug, PartialEq, Eq)]
pub enum ChannelEvent {
    /// One complete FIFO application message.
    Message(Vec<u8>),
    /// Graceful remote close.
    Closed,
    /// Immediate remote reset.
    Reset,
    /// A known or future non-application record.
    Control(ControlRecord),
}

/// Preserved control record not interpreted by the channel.
#[derive(Clone, Debug, PartialEq, Eq)]
pub struct ControlRecord {
    /// Wire record kind.
    pub kind: RecordKind,
    /// Complete owned record.
    pub record: OwnedRecord,
}

/// A channel event as a mathematical value.
pub enum EventView {
    /// One complete application message.
    Message(Seq<u8>),
    /// Graceful remote close.
    Closed,
    /// Immediate remote reset.
    Reset,
    /// A record that is not interpreted.
    Control(RecordKind, ParsedRecordHeader, Seq<u8>),
}

impl View for ChannelEvent {
    type V = EventView;

    open spec fn view(&self) -> EventView {
        match *self {
            ChannelEvent::Message(payload) => EventView::Message(payload@),
            ChannelEvent::Closed => EventView::Closed,
            ChannelEvent::Reset => EventView::Reset,
            ChannelEvent::Control(control) => EventView::Control(
                control.kind,
                control.record.header,
                control.record.payload@,
            ),
        }
    }
}

/// What one received record means: the incomplete message behind it, and the event, `None` where
/// the message needs more records, or the error.
pub open spec fn interpreted(
    fragmentation_enabled: bool,
    maximum_inline_message: u32,
    maximum_message: u32,
    partial: Option<PartialView>,
    header: ParsedRecordHeader,
    payload: Seq<u8>,
) -> (Option<PartialView>, Result<Option<EventView>, ErrorReport>) {
    let fragmented = header.flags.bits & FLAG_FRAGMENTED != 0;
    match header.kind {
        RecordKind::Data => if fragmented && !fragmentation_enabled {
            (partial, Err(channel_protocol_report("fragmentation not enabled")))
        } else {
            let outcome = pushed(
                maximum_inline_message,
                maximum_message,
                partial,
                header,
                payload,
            );
            (
                outcome.0,
                match outcome.1 {
                    Ok(Some(message)) => Ok(Some(EventView::Message(message))),
                    Ok(None) => Ok(None),
                    Err(error) => Err(error),
                },
            )
        },
        RecordKind::Close => if fragmented {
            (partial, Err(channel_protocol_report("fragmented close")))
        } else {
            (None, Ok(Some(EventView::Closed)))
        },
        RecordKind::Reset => if fragmented {
            (partial, Err(channel_protocol_report("fragmented reset")))
        } else {
            (None, Ok(Some(EventView::Reset)))
        },
        _ => if fragmented {
            (partial, Err(channel_protocol_report("fragmented control record")))
        } else {
            (partial, Ok(Some(EventView::Control(header.kind, header, payload))))
        },
    }
}

/// One side of a bidirectional channel.
pub struct ChannelEndpoint<Outbound = ProducerMemory, Inbound = ConsumerMemory> {
    /// Outbound ring.
    pub writer: RingWriter<Outbound>,
    /// Inbound ring.
    pub reader: RingReader<Inbound>,
    /// Outbound watermarks.
    pub flow: FlowControl,
    /// Outbound message limits.
    pub fragmenter: Fragmenter,
    /// Inbound incomplete message.
    pub reassembler: Reassembler,
    /// Whether messages may span records.
    pub fragmentation_enabled: bool,
    /// Whether this side sent a close or reset.
    pub local_closed: bool,
    /// Whether the other side sent a close or reset.
    pub remote_closed: bool,
}

impl<Outbound: RingProducer, Inbound: RingConsumer> ChannelEndpoint<Outbound, Inbound> {
    /// Whether the other endpoint reads the ring that this one writes.
    pub open spec fn sends_to(self, other: Self) -> bool {
        &&& self.writer.memory.ring() is Some
        &&& self.writer.memory.ring() == other.reader.memory.ring()
    }

    /// Whether the parts are well formed.
    pub open spec fn wf(self) -> bool {
        self.writer.wf() && self.fragmenter.wf() && self.reassembler.wf()
    }

    /// Whether the endpoint was just made from a configuration.
    pub open spec fn is_fresh(self, config: ChannelConfig) -> bool {
        &&& self.wf()
        &&& self.writer.memory.capacity_of() == config.capacity
        &&& self.writer.memory.operations() == Seq::<MemoryOperation>::empty()
        &&& self.writer.next_message_id == 1
        &&& self.writer.next_sequence.value == 0
        &&& self.reader.memory.capacity_of() == config.capacity
        &&& self.reader.memory.operations() == Seq::<MemoryOperation>::empty()
        &&& self.reader.maximum_inline_message == config.maximum_inline_message
        &&& self.reader.expected_sequence.value == 0
        &&& self.flow == (FlowControl {
            capacity: config.capacity,
            high: config.high_watermark,
            low: config.low_watermark,
            backpressured: false,
            buffered: 0,
        })
        &&& self.fragmenter == (Fragmenter {
            maximum_inline_message: config.maximum_inline_message,
            maximum_message: config.maximum_message,
        })
        &&& self.reassembler.maximum_inline_message == config.maximum_inline_message
        &&& self.reassembler.maximum_message == config.maximum_message
        &&& self.reassembler.partial is None
        &&& self.fragmentation_enabled == (config.maximum_message > config.maximum_inline_message)
        &&& !self.local_closed
        &&& !self.remote_closed
    }

    /// Everything that only receiving changes is the same.
    pub open spec fn same_inbound(self, other: Self) -> bool {
        &&& self.reader == other.reader
        &&& self.reassembler == other.reassembler
        &&& self.remote_closed == other.remote_closed
        &&& self.fragmenter == other.fragmenter
        &&& self.fragmentation_enabled == other.fragmentation_enabled
    }

    /// What several records mean to this endpoint.
    pub open spec fn meaning_of(self, records: Seq<RingRecord>) -> (
        Option<PartialView>,
        Result<Option<EventView>, ErrorReport>,
    ) {
        interpreted_all(
            self.fragmentation_enabled,
            self.reassembler.maximum_inline_message,
            self.reassembler.maximum_message,
            self.reassembler.pending(),
            records,
        )
    }

    /// Whether the reader and the reassembler go by the same limits.
    pub open spec fn inbound_limits_agree(self) -> bool {
        &&& self.reader.maximum_inline_message == self.reassembler.maximum_inline_message
        &&& self.fragmentation_enabled == (self.reassembler.maximum_message
            > self.reassembler.maximum_inline_message)
    }

    /// The inbound direction where the ring is this and the sender stands there.
    pub open spec fn lane(self, ring: RingModel, sequence: Sequence) -> ChannelLane {
        ChannelLane {
            ring,
            sequence,
            expected: self.reader.expected_sequence,
            partial: self.reassembler.pending(),
            maximum_inline_message: self.reader.maximum_inline_message,
            maximum_message: self.reassembler.maximum_message,
        }
    }

    /// The inbound ring behind what was read since then, where it was `ring` at first and nothing
    /// else moved it.
    pub open spec fn ring_behind(self, before: Self, ring: RingModel) -> RingModel {
        replayed(ring, since(before.reader.memory.accesses(), self.reader.memory.accesses()))->0
    }

    /// Whether the inbound ring may have been `ring` at first, and nothing else moved it since
    /// then: it answers as was answered.
    pub open spec fn may_face(self, after: Self, ring: RingModel) -> bool {
        &&& self.inbound_limits_agree()
        &&& ring.wf()
        &&& ring.capacity == self.reader.memory.capacity_of()
        &&& replayed(
            ring,
            since(self.reader.memory.accesses(), after.reader.memory.accesses()),
        ) is Some
    }

    /// Whether the next event is still to be received, and at least `count` bytes were taken.
    pub open spec fn leads_to(
        self,
        after: Self,
        ring: RingModel,
        sequence: Sequence,
        count: int,
    ) -> bool {
        let now = after.ring_behind(self, ring);
        &&& now.wf()
        &&& now.capacity == ring.capacity
        &&& now.snapshot().used + count <= ring.snapshot().used
        &&& self.lane(ring, sequence).received() == after.lane(now, sequence).received()
    }

    /// Everything that only sending changes is the same.
    pub open spec fn same_outbound(self, other: Self) -> bool {
        &&& self.writer == other.writer
        &&& self.flow == other.flow
        &&& self.local_closed == other.local_closed
        &&& self.fragmenter == other.fragmenter
        &&& self.fragmentation_enabled == other.fragmentation_enabled
    }

    /// Builds one endpoint from opposite-direction mapped or in-process ring halves.
    ///
    /// Mismatched ring capacity and invalid channel configurations are rejected.
    pub fn from_memories(
        writer_memory: Outbound,
        reader_memory: Inbound,
        config: ChannelConfig,
    ) -> (created: Result<Self, ErrorReport>)
        ensures
            match created {
                Ok(endpoint) => {
                    &&& config.rejection(
                        writer_memory.capacity_of(),
                        reader_memory.capacity_of(),
                    ) is None
                    &&& endpoint.writer.memory == writer_memory
                    &&& endpoint.reader.memory == reader_memory
                    &&& writer_memory.operations().len() == 0 && reader_memory.operations().len()
                        == 0 ==> endpoint.is_fresh(config)
                    &&& endpoint.wf()
                    &&& endpoint.flow.capacity == config.capacity
                    &&& endpoint.flow.low == config.low_watermark
                    &&& endpoint.flow.high == config.high_watermark
                    &&& endpoint.fragmenter.maximum_message == config.maximum_message
                    &&& endpoint.fragmenter.maximum_inline_message == config.maximum_inline_message
                },
                Err(error) => config.rejection(
                    writer_memory.capacity_of(),
                    reader_memory.capacity_of(),
                ) == Some(error),
            },
    {
        let fragmenter = config.fragmenter()?;
        config.validate_capacity(fragmenter)?;
        if writer_memory.capacity() != config.capacity || reader_memory.capacity()
            != config.capacity {
            return Err(invalid_channel_configuration());
        }
        let flow = FlowControl::new(config.capacity, config.low_watermark, config.high_watermark)?;
        let reassembler = Reassembler::new(config.maximum_inline_message, config.maximum_message)?;
        let endpoint = ChannelEndpoint {
            writer: RingWriter::new(writer_memory, config.maximum_inline_message),
            reader: RingReader::new(reader_memory, config.maximum_inline_message),
            flow,
            fragmenter,
            reassembler,
            fragmentation_enabled: config.maximum_message > config.maximum_inline_message,
            local_closed: false,
            remote_closed: false,
        };
        proof {
            if writer_memory.operations().len() == 0 && reader_memory.operations().len() == 0 {
                assert(writer_memory.operations() =~= Seq::<MemoryOperation>::empty());
                assert(reader_memory.operations() =~= Seq::<MemoryOperation>::empty());
            }
        }
        Ok(endpoint)
    }

    /// Sends one complete application message.
    ///
    /// `Closed`, `MessageTooLarge`, `Backpressured`, or a shared-state error is returned.
    pub fn send(&mut self, payload: &[u8]) -> (sent: Result<ChannelSend, ErrorReport>)
        requires
            old(self).wf(),
        ensures
            message_sent(*old(self), *final(self), payload@, sent),
    {
        if self.local_closed || self.remote_closed {
            return Err(channel_error(ErrorCode::Closed, Recoverability::Terminal));
        }
        let refreshed = self.refresh_flow();
        let ghost looked = self.writer;
        let flow = match refreshed {
            Ok(flow) => flow,
            Err(error) => {
                return Err(error);
            },
        };
        if flow.backpressured {
            proof {
                assert(message_tried(
                    *old(self),
                    looked,
                    flow.buffered,
                    *self,
                    payload@,
                    Err(channel_report(ErrorCode::Backpressured, Recoverability::Retryable)),
                ));
            }
            return Err(channel_error(ErrorCode::Backpressured, Recoverability::Retryable));
        }
        let fragments = match self.fragmenter.fragments(payload) {
            Ok(fragments) => fragments,
            Err(error) => {
                proof {
                    assert(message_tried(
                        *old(self),
                        looked,
                        flow.buffered,
                        *self,
                        payload@,
                        Err(error),
                    ));
                }
                return Err(error);
            },
        };
        let sent = self.writer.send_fragments(RecordKind::Data, fragments.as_slice());
        let outcome = match sent {
            Ok(outcome) => outcome,
            Err(error) => {
                proof {
                    assert(fragments_tried(
                        looked,
                        observed(old(self).flow, flow.buffered),
                        fragments@,
                        *self,
                        Err(error),
                    ));
                    assert(message_tried(
                        *old(self),
                        looked,
                        flow.buffered,
                        *self,
                        payload@,
                        Err(error),
                    ));
                }
                return Err(error);
            },
        };
        let ghost mut ring: (u32, u32) = (0, 0);
        proof {
            let (producer, consumer) = choose|producer: u32, consumer: u32|
                {
                    &&& looked.saw_cursors(self.writer, producer, consumer)
                    &&& #[trigger] snapshot_of(
                        looked.memory.capacity_of(),
                        producer,
                        consumer,
                    ) matches Ok(snapshot) && planned_batch(
                        snapshot,
                        MessageId::of(looked.next_message_id as u64),
                        looked.next_sequence,
                        RecordKind::Data,
                        fragments@,
                    ) matches Ok((writes, end)) && outcome.signal_non_empty == (snapshot.used == 0)
                        && self.writer.remainder_seen(end.producer, outcome.buffered_amount)
                        && self.writer.memory.operations() == looked.memory.operations() + writes
                        + seq![MemoryOperation::Publish(end.producer)]
                };
            ring = (producer, consumer);
            assert(looked.batch_published(
                self.writer,
                RecordKind::Data,
                fragments@,
                producer,
                consumer,
            ));
        }
        let updated = self.flow.update(outcome.buffered_amount);
        let result = match updated {
            Ok(_) => Ok(channel_send(outcome)),
            Err(error) => Err(error),
        };
        proof {
            assert(looked.batch_published(
                self.writer,
                RecordKind::Data,
                fragments@,
                ring.0,
                ring.1,
            ));
            if result is Err {
                assert(excess_published(
                    looked,
                    self.writer,
                    observed(old(self).flow, flow.buffered),
                    fragments@,
                    ring.0,
                    ring.1,
                    outcome.buffered_amount,
                ));
            }
            assert(fragments_tried(
                looked,
                observed(old(self).flow, flow.buffered),
                fragments@,
                *self,
                result,
            ));
            assert(message_tried(
                *old(self),
                looked,
                flow.buffered,
                *self,
                payload@,
                result,
            ));
        }
        result
    }

    /// Sends a graceful close after previously accepted records.
    ///
    /// A typed error is returned if already closed or the close record cannot be queued.
    pub fn close(&mut self) -> (sent: Result<ChannelSend, ErrorReport>)
        requires
            old(self).wf(),
        ensures
            marker_sent(*old(self), *final(self), RecordKind::Close, sent),
    {
        self.send_marker(RecordKind::Close)
    }

    /// Sends an immediate reset marker for this channel generation.
    ///
    /// A typed error is returned if already closed or the reset cannot be queued.
    pub fn reset(&mut self) -> (sent: Result<ChannelSend, ErrorReport>)
        requires
            old(self).wf(),
        ensures
            marker_sent(*old(self), *final(self), RecordKind::Reset, sent),
    {
        self.send_marker(RecordKind::Reset)
    }

    fn send_marker(&mut self, kind: RecordKind) -> (sent: Result<ChannelSend, ErrorReport>)
        requires
            old(self).wf(),
            kind is Close || kind is Reset,
        ensures
            marker_sent(*old(self), *final(self), kind, sent),
    {
        if self.local_closed {
            proof {
                lemma_nothing_written(self.writer.memory.operations());
            }
            return Err(channel_error(ErrorCode::Closed, Recoverability::Terminal));
        }
        let empty: Vec<u8> = Vec::new();
        proof {
            assert(empty@ =~= Seq::<u8>::empty());
        }
        let outcome = self.writer.send(kind, RecordFlags::end_of_message(), empty.as_slice())?;
        self.local_closed = true;
        Ok(channel_send(outcome))
    }

    /// Decides what one received record means and updates the incomplete message.
    pub fn interpret(&mut self, record: OwnedRecord) -> (event: Result<
        Option<ChannelEvent>,
        ErrorReport,
    >)
        requires
            old(self).wf(),
        ensures
            final(self).wf(),
            final(self).same_outbound(*old(self)),
            final(self).reader == old(self).reader,
            final(self).reassembler.maximum_inline_message
                == old(self).reassembler.maximum_inline_message,
            final(self).reassembler.maximum_message == old(self).reassembler.maximum_message,
            ({
                let expected = interpreted(
                    old(self).fragmentation_enabled,
                    old(self).reassembler.maximum_inline_message,
                    old(self).reassembler.maximum_message,
                    old(self).reassembler.pending(),
                    record.header,
                    record.payload@,
                );
                &&& final(self).reassembler.pending() == expected.0
                &&& final(self).remote_closed == (old(self).remote_closed || match expected.1 {
                    Ok(Some(EventView::Closed)) => true,
                    Ok(Some(EventView::Reset)) => true,
                    _ => false,
                })
                &&& match event {
                    Ok(Some(found)) => expected.1 == Ok::<Option<EventView>, ErrorReport>(
                        Some(found@),
                    ),
                    Ok(None) => expected.1 == Ok::<Option<EventView>, ErrorReport>(None),
                    Err(error) => expected.1 == Err::<Option<EventView>, ErrorReport>(error),
                }
            }),
    {
        let fragmented = record.flags().bits() & FLAG_FRAGMENTED != 0;
        match record.kind() {
            RecordKind::Data => {
                if fragmented && !self.fragmentation_enabled {
                    return Err(channel_protocol_error("fragmentation not enabled"));
                }
                match self.reassembler.push(record.header, record.payload.as_slice())? {
                    Reassembly::Pending => Ok(None),
                    Reassembly::Complete(payload) => Ok(Some(ChannelEvent::Message(payload))),
                }
            },
            RecordKind::Close => {
                if fragmented {
                    return Err(channel_protocol_error("fragmented close"));
                }
                self.reassembler.discard();
                self.remote_closed = true;
                Ok(Some(ChannelEvent::Closed))
            },
            RecordKind::Reset => {
                if fragmented {
                    return Err(channel_protocol_error("fragmented reset"));
                }
                self.reassembler.discard();
                self.remote_closed = true;
                Ok(Some(ChannelEvent::Reset))
            },
            kind => {
                if fragmented {
                    return Err(channel_protocol_error("fragmented control record"));
                }
                Ok(Some(ChannelEvent::Control(ControlRecord { kind, record })))
            },
        }
    }

    /// Receives and consumes records until one of them is an event, based only on committed
    /// cursors.
    ///
    /// Call repeatedly until `None` after any signal, poll tick, or application opportunity. A
    /// validation error is returned for malformed or out-of-sequence shared records.
    pub fn receive(&mut self) -> (received: Result<Option<ChannelEvent>, ErrorReport>)
        requires
            old(self).wf(),
        ensures
            event_received(*old(self), *final(self), event_of(received)),
            exists|records: Seq<RingRecord>|
                #[trigger] records_received(*old(self), records, *final(self), received),
            match received {
                Ok(Some(ChannelEvent::Message(payload))) => {
                    &&& payload@.len() <= old(self).reassembler.maximum_message
                    &&& final(self).reassembler.partial is None
                    &&& final(self).remote_closed == old(self).remote_closed
                },
                Ok(Some(ChannelEvent::Closed)) => final(self).remote_closed
                    && final(self).reassembler.partial is None,
                Ok(Some(ChannelEvent::Reset)) => final(self).remote_closed
                    && final(self).reassembler.partial is None,
                Ok(Some(ChannelEvent::Control(control))) => control.kind
                    == control.record.header.kind && control.record.header.kind is Other
                        && final(self).remote_closed == old(self).remote_closed,
                _ => final(self).remote_closed == old(self).remote_closed,
            },
    {
        let mut budget: u64 = u64::MAX;
        let ghost mut records: Seq<RingRecord> = Seq::empty();
        let ghost mut receipts: Seq<ReadReceipt> = Seq::empty();
        proof {
            lemma_receive_begins(*self);
            assert(self.reader.memory.operations() =~= self.reader.memory.operations()
                + consumptions(receipts));
        }
        while budget > 0
            invariant
                receipts.len() >= records.len(),
                self.reader.memory.operations() == old(self).reader.memory.operations()
                    + consumptions(receipts),
                self.wf(),
                self.same_outbound(*old(self)),
                self.remote_closed == old(self).remote_closed,
                self.reader.maximum_inline_message == old(self).reader.maximum_inline_message,
                self.reader.memory.capacity_of() == old(self).reader.memory.capacity_of(),
                self.reader.memory.ring() == old(self).reader.memory.ring(),
                self.reassembler.maximum_message == old(self).reassembler.maximum_message,
                self.reassembler.maximum_inline_message
                    == old(self).reassembler.maximum_inline_message,
                self.reader.expected_sequence == sequence_after(
                    old(self).reader.expected_sequence,
                    records.len(),
                ),
                records.len() == u64::MAX - budget,
                records_taken(*old(self), records, *self),
                old(self).meaning_of(records).1 == Ok::<Option<EventView>, ErrorReport>(None),
                before_event(*old(self), *self, u64::MAX - budget),
            decreases budget,
        {
            let ghost before = *self;
            let next = self.reader.receive();
            proof {
                let newer = choose|newer: Seq<ReadReceipt>| #[trigger]
                    items_taken(before.reader, self.reader, newer, next);
                assert(old(self).reader.memory.operations() + consumptions(receipts)
                    + consumptions(newer) =~= old(self).reader.memory.operations() + consumptions(
                    receipts + newer,
                ));
                receipts = receipts + newer;
                lemma_accesses_added(
                    old(self).reader.memory.accesses(),
                    before.reader.memory.accesses(),
                    self.reader.memory.accesses(),
                );
                let last = choose|last: Seq<RingAccess>|
                    #[trigger] accesses_added(before.reader.memory.accesses(), last) && match next {
                        Ok(Some(record)) => item_seen(
                            last,
                            self.reader.memory.accesses(),
                            before.reader.memory.capacity_of(),
                            before.reader.maximum_inline_message,
                            before.reader.expected_sequence,
                            Ok(
                                CommittedItem::Record(
                                    record.header,
                                    record.payload@,
                                    newer.last(),
                                ),
                            ),
                        ),
                        Ok(None) => newer.len() < u64::MAX ==> item_seen(
                            last,
                            self.reader.memory.accesses(),
                            before.reader.memory.capacity_of(),
                            before.reader.maximum_inline_message,
                            before.reader.expected_sequence,
                            Ok(CommittedItem::Empty),
                        ),
                        Err(error) => reading_failed(
                            last,
                            self.reader.memory.accesses(),
                            before.reader.memory.capacity_of(),
                            before.reader.maximum_inline_message,
                            before.reader.expected_sequence,
                            error,
                        ),
                    };
                lemma_accesses_added(
                    old(self).reader.memory.accesses(),
                    before.reader.memory.accesses(),
                    last,
                );
                lemma_records_still_shown(
                    old(self).reader.memory.accesses(),
                    before.reader.memory.accesses(),
                    self.reader.memory.accesses(),
                    old(self).reader.memory.capacity_of(),
                    old(self).reader.maximum_inline_message,
                    old(self).reader.expected_sequence,
                    records,
                );
                if next matches Ok(Some(_)) {
                    let record = next->Ok_0->Some_0;
                    assert(item_shown(
                        old(self).reader.memory.accesses(),
                        self.reader.memory.accesses(),
                        old(self).reader.memory.capacity_of(),
                        old(self).reader.maximum_inline_message,
                        before.reader.expected_sequence,
                        CommittedItem::Record(record.header, record.payload@, newer.last()),
                    ));
                }
                if next matches Ok(None) {
                    assert(drained_at(
                        old(self).reader,
                        self.reader,
                        last,
                        receipts,
                        records.len(),
                    ));
                }
            }
            let record = match next {
                Err(error) => {
                    proof {
                        assert(records_received(*old(self), records, *self, Err(error)));
                        lemma_receive_goes_on(
                            *old(self),
                            before,
                            *self,
                            u64::MAX - budget,
                            record_of(next),
                        );
                    }
                    return Err(error);
                },
                Ok(None) => {
                    proof {
                        assert(records_received(*old(self), records, *self, Ok(None)));
                        lemma_receive_goes_on(
                            *old(self),
                            before,
                            *self,
                            u64::MAX - budget,
                            record_of(next),
                        );
                    }
                    return Ok(None);
                },
                Ok(Some(record)) => record,
            };
            let ghost taken = RingRecord { header: record.header, payload: record.payload@ };
            let ghost longer = records.push(taken);
            let outcome = self.interpret(record);
            proof {
                lemma_one_meaning(before, taken);
                lemma_receive_goes_on(
                    *old(self),
                    before,
                    *self,
                    u64::MAX - budget,
                    Ok(Some(taken)),
                );
                lemma_sequence_after(old(self).reader.expected_sequence, records.len());
                assert(longer.drop_last() =~= records);
                assert forall|count: int| 0 <= count < longer.len() implies old(self).meaning_of(
                    #[trigger] longer.take(count),
                ).1 == Ok::<Option<EventView>, ErrorReport>(None) by {
                    if count < records.len() {
                        assert(longer.take(count) =~= records.take(count));
                    } else {
                        assert(longer.take(count) =~= records);
                        assert(records.take(count) =~= records);
                    }
                }
                assert(records_taken(*old(self), longer, *self));
                if !(outcome matches Ok(None)) {
                    assert(records_received(*old(self), longer, *self, outcome));
                }
                records = longer;
            }
            match outcome {
                Err(error) => {
                    return Err(error);
                },
                Ok(Some(event)) => {
                    return Ok(Some(event));
                },
                Ok(None) => {},
            }
            budget = budget - 1;
        }
        proof {
            assert(drained_at(
                old(self).reader,
                self.reader,
                self.reader.memory.accesses(),
                receipts,
                records.len(),
            ));
            assert(records_received(*old(self), records, *self, Ok(None)));
            lemma_receive_ends(*old(self), *self);
        }
        Ok(None)
    }

    /// Re-observes byte occupancy and reports the backpressured-to-writable edge once.
    ///
    /// `InvalidCursor` is returned if shared cursor state is corrupt.
    pub fn refresh_flow(&mut self) -> (update: Result<FlowUpdate, ErrorReport>)
        requires
            old(self).wf(),
        ensures
            final(self).wf(),
            final(self).same_inbound(*old(self)),
            final(self).local_closed == old(self).local_closed,
            old(self).writer.only_looked(final(self).writer),
            match update {
                Ok(found) => {
                    &&& found.buffered <= old(self).flow.capacity
                    &&& old(self).writer.amount_seen(final(self).writer, found.buffered)
                    &&& final(self).flow == observed(old(self).flow, found.buffered)
                    &&& found.backpressured == backpressure_after(old(self).flow, found.buffered)
                    &&& found.became_writable == (old(self).flow.backpressured
                        && !found.backpressured)
                },
                Err(error) => {
                    &&& final(self).flow == old(self).flow
                    &&& flow_unseen(*old(self), final(self).writer, error)
                },
            },
    {
        let buffered: u32 = self.writer.observe_amount()?;
        self.flow.update(buffered)
    }

    /// Returns committed outbound bytes not yet consumed by the remote endpoint.
    ///
    /// `InvalidCursor` is returned if shared cursor state is corrupt.
    pub fn buffered_amount(&self) -> (amount: Result<u32, ErrorReport>)
        ensures
            amount_told(self.writer.memory, amount),
            amount matches Ok(used) ==> used <= self.writer.memory.capacity_of(),
    {
        self.writer.buffered_amount()
    }

    /// Returns whether either side has closed this endpoint.
    pub fn is_closed(&self) -> (answer: bool)
        ensures
            answer == (self.local_closed || self.remote_closed),
    {
        self.local_closed || self.remote_closed
    }
}

/// The event that was received as a mathematical value.
pub open spec fn event_of(received: Result<Option<ChannelEvent>, ErrorReport>) -> Result<
    Option<EventView>,
    ErrorReport,
> {
    match received {
        Ok(Some(event)) => Ok(Some(event@)),
        Ok(None) => Ok(None),
        Err(error) => Err(error),
    }
}

/// Whether what an endpoint received is what the inbound direction holds next, where nothing but
/// the endpoint moved the ring.
///
/// Every ring that would have answered the endpoint's accesses as they were answered may be that
/// ring.
#[verifier::opaque]
pub open spec fn received_from_any<Outbound: RingProducer, Inbound: RingConsumer>(
    before: ChannelEndpoint<Outbound, Inbound>,
    after: ChannelEndpoint<Outbound, Inbound>,
    received: Result<Option<EventView>, ErrorReport>,
) -> bool {
    forall|ring: RingModel, sequence: Sequence|
        #![trigger before.lane(ring, sequence)]
        before.may_face(after, ring) ==> before.lane(ring, sequence).received() == (
            after.lane(after.ring_behind(before, ring), sequence),
            received,
        )
}

/// How receiving the next event changes an endpoint.
pub open spec fn event_received<Outbound: RingProducer, Inbound: RingConsumer>(
    before: ChannelEndpoint<Outbound, Inbound>,
    after: ChannelEndpoint<Outbound, Inbound>,
    received: Result<Option<EventView>, ErrorReport>,
) -> bool {
    &&& after.wf()
    &&& after.same_outbound(before)
    &&& after.reader.memory.ring() == before.reader.memory.ring()
    &&& after.reader.memory.capacity_of() == before.reader.memory.capacity_of()
    &&& after.reader.maximum_inline_message == before.reader.maximum_inline_message
    &&& after.reassembler.maximum_message == before.reassembler.maximum_message
    &&& after.reassembler.maximum_inline_message == before.reassembler.maximum_inline_message
    &&& received_from_any(before, after, received)
}

/// Whether the next event is still to be received, whatever ring was read, and at least `count`
/// bytes of it were taken.
#[verifier::opaque]
pub open spec fn before_event<Outbound: RingProducer, Inbound: RingConsumer>(
    before: ChannelEndpoint<Outbound, Inbound>,
    after: ChannelEndpoint<Outbound, Inbound>,
    count: int,
) -> bool {
    forall|ring: RingModel, sequence: Sequence|
        #![trigger before.lane(ring, sequence)]
        before.may_face(after, ring) ==> before.leads_to(after, ring, sequence, count)
}

proof fn lemma_receive_begins<Outbound: RingProducer, Inbound: RingConsumer>(
    start: ChannelEndpoint<Outbound, Inbound>,
)
    ensures
        before_event(start, start, 0),
{
    reveal(before_event);
    assert forall|ring: RingModel, sequence: Sequence|
        #![trigger start.lane(ring, sequence)]
        start.may_face(start, ring) implies start.leads_to(start, ring, sequence, 0) by {
        lemma_replayed_none(ring, start.reader.memory.accesses());
    }
}

/// One record that was read leads to the event, or to what is received behind it.
proof fn lemma_receive_goes_on<Outbound: RingProducer, Inbound: RingConsumer>(
    start: ChannelEndpoint<Outbound, Inbound>,
    before: ChannelEndpoint<Outbound, Inbound>,
    after: ChannelEndpoint<Outbound, Inbound>,
    count: int,
    found: Result<Option<RingRecord>, ErrorReport>,
)
    requires
        before_event(start, before, count),
        accesses_added(start.reader.memory.accesses(), before.reader.memory.accesses()),
        accesses_added(before.reader.memory.accesses(), after.reader.memory.accesses()),
        taken_from_any(before.reader, after.reader, found),
        before.reader.memory.capacity_of() == start.reader.memory.capacity_of(),
        before.reader.maximum_inline_message == start.reader.maximum_inline_message,
        after.reader.maximum_inline_message == start.reader.maximum_inline_message,
        before.reassembler.maximum_inline_message == start.reassembler.maximum_inline_message,
        before.reassembler.maximum_message == start.reassembler.maximum_message,
        after.reassembler.maximum_message == start.reassembler.maximum_message,
        before.fragmentation_enabled == start.fragmentation_enabled,
        after.reassembler.pending() == match found {
            Ok(Some(record)) => before.meaning_of(seq![record]).0,
            _ => before.reassembler.pending(),
        },
    ensures
        match found {
            Err(error) => received_from_any(start, after, Err(error)),
            Ok(None) => received_from_any(start, after, Ok(None)),
            Ok(Some(record)) => if before.meaning_of(seq![record]).1 == Ok::<
                Option<EventView>,
                ErrorReport,
            >(None) {
                before_event(start, after, count + 1)
            } else {
                received_from_any(start, after, before.meaning_of(seq![record]).1)
            },
        },
{
    reveal(before_event);
    reveal(received_from_any);
    assert forall|ring: RingModel, sequence: Sequence|
        #![trigger start.lane(ring, sequence)]
        start.may_face(after, ring) implies match found {
        Ok(Some(record)) if before.meaning_of(seq![record]).1 == Ok::<
            Option<EventView>,
            ErrorReport,
        >(None) => start.leads_to(after, ring, sequence, count + 1),
        Ok(Some(record)) => start.lane(ring, sequence).received() == (
            after.lane(after.ring_behind(start, ring), sequence),
            before.meaning_of(seq![record]).1,
        ),
        Ok(None) => start.lane(ring, sequence).received() == (
            after.lane(after.ring_behind(start, ring), sequence),
            Ok::<Option<EventView>, ErrorReport>(None),
        ),
        Err(error) => start.lane(ring, sequence).received() == (
            after.lane(after.ring_behind(start, ring), sequence),
            Err::<Option<EventView>, ErrorReport>(error),
        ),
    } by {
        lemma_replayed_onward(
            ring,
            start.reader.memory.accesses(),
            before.reader.memory.accesses(),
            after.reader.memory.accesses(),
        );
        assert(start.may_face(before, ring));
        let lane = start.lane(ring, sequence);
        assert(start.leads_to(before, ring, sequence, count));
        let now = before.ring_behind(start, ring);
        assert(replayed(
            now,
            since(before.reader.memory.accesses(), after.reader.memory.accesses()),
        ) is Some);
        lemma_received_onward(before.lane(now, sequence));
        if let Ok(Some(record)) = found {
            lemma_one_meaning(before, record);
        }
    }
}

/// Rings do not hold so many bytes that no event would be received.
proof fn lemma_receive_ends<Outbound: RingProducer, Inbound: RingConsumer>(
    start: ChannelEndpoint<Outbound, Inbound>,
    after: ChannelEndpoint<Outbound, Inbound>,
)
    requires
        before_event(start, after, u64::MAX as int),
    ensures
        received_from_any(start, after, Ok(None)),
{
    reveal(before_event);
    reveal(received_from_any);
    assert forall|ring: RingModel, sequence: Sequence|
        #![trigger start.lane(ring, sequence)]
        start.may_face(after, ring) implies false by {
        let lane = start.lane(ring, sequence);
        assert(start.leads_to(after, ring, sequence, u64::MAX as int));
    }
}

/// One record alone means what it is interpreted as.
proof fn lemma_one_meaning<Outbound: RingProducer, Inbound: RingConsumer>(
    endpoint: ChannelEndpoint<Outbound, Inbound>,
    record: RingRecord,
)
    ensures
        endpoint.meaning_of(seq![record]) == interpreted(
            endpoint.fragmentation_enabled,
            endpoint.reassembler.maximum_inline_message,
            endpoint.reassembler.maximum_message,
            endpoint.reassembler.pending(),
            record.header,
            record.payload,
        ),
{
    assert(seq![record].drop_last() =~= Seq::<RingRecord>::empty());
    assert(seq![record].last() == record);
    reveal_with_fuel(interpreted_all, 2);
}

/// Whether a record was seen as the next one somewhere among the accesses that were made since
/// then.
pub open spec fn record_shown(
    before: Seq<RingAccess>,
    after: Seq<RingAccess>,
    capacity: u32,
    maximum_inline_message: u32,
    expected: Sequence,
    record: RingRecord,
) -> bool {
    exists|receipt: ReadReceipt| #[trigger]
        item_shown(
            before,
            after,
            capacity,
            maximum_inline_message,
            expected,
            CommittedItem::Record(record.header, record.payload, receipt),
        )
}

/// Whether records are the ones that were read from a ring one after the other.
pub open spec fn taken_in_order(
    before: Seq<RingAccess>,
    after: Seq<RingAccess>,
    capacity: u32,
    maximum_inline_message: u32,
    expected: Sequence,
    records: Seq<RingRecord>,
) -> bool {
    forall|index: int|
        0 <= index < records.len() ==> record_shown(
            before,
            after,
            capacity,
            maximum_inline_message,
            sequence_after(expected, index as nat),
            #[trigger] records[index],
        ) && records[index].header.sequence == sequence_after(expected, index as nat)
}

/// Accesses that follow leave records read.
proof fn lemma_records_still_shown(
    before: Seq<RingAccess>,
    after: Seq<RingAccess>,
    longer: Seq<RingAccess>,
    capacity: u32,
    maximum_inline_message: u32,
    expected: Sequence,
    records: Seq<RingRecord>,
)
    requires
        taken_in_order(before, after, capacity, maximum_inline_message, expected, records),
        accesses_added(after, longer),
    ensures
        taken_in_order(before, longer, capacity, maximum_inline_message, expected, records),
{
    assert forall|index: int| 0 <= index < records.len() implies record_shown(
        before,
        longer,
        capacity,
        maximum_inline_message,
        sequence_after(expected, index as nat),
        #[trigger] records[index],
    ) by {
        let sequence = sequence_after(expected, index as nat);
        let record = records[index];
        let receipt = choose|receipt: ReadReceipt| #[trigger]
            item_shown(
                before,
                after,
                capacity,
                maximum_inline_message,
                sequence,
                CommittedItem::Record(record.header, record.payload, receipt),
            );
        lemma_item_still_shown(
            before,
            after,
            longer,
            capacity,
            maximum_inline_message,
            sequence,
            CommittedItem::Record(record.header, record.payload, receipt),
        );
    }
}

/// Whether an endpoint took these records from its ring, and no record before the last one was an
/// event.
pub open spec fn records_taken<Outbound: RingProducer, Inbound: RingConsumer>(
    before: ChannelEndpoint<Outbound, Inbound>,
    records: Seq<RingRecord>,
    after: ChannelEndpoint<Outbound, Inbound>,
) -> bool {
    &&& taken_in_order(
        before.reader.memory.accesses(),
        after.reader.memory.accesses(),
        before.reader.memory.capacity_of(),
        before.reader.maximum_inline_message,
        before.reader.expected_sequence,
        records,
    )
    &&& forall|count: int|
        0 <= count < records.len() ==> before.meaning_of(#[trigger] records.take(count)).1 == Ok::<
            Option<EventView>,
            ErrorReport,
        >(None)
    &&& after.reassembler.pending() == before.meaning_of(records).0
    &&& accesses_added(before.reader.memory.accesses(), after.reader.memory.accesses())
    &&& exists|receipts: Seq<ReadReceipt>|
        receipts.len() >= records.len() && after.reader.memory.operations()
            == before.reader.memory.operations() + #[trigger] consumptions(receipts)
}

/// Whether an endpoint took these records from its ring, and made of them what it returned: the
/// last of them is the event, or the ring was seen empty behind them, or reading on failed.
pub open spec fn records_received<Outbound: RingProducer, Inbound: RingConsumer>(
    before: ChannelEndpoint<Outbound, Inbound>,
    records: Seq<RingRecord>,
    after: ChannelEndpoint<Outbound, Inbound>,
    received: Result<Option<ChannelEvent>, ErrorReport>,
) -> bool {
    let meaning = before.meaning_of(records);
    &&& records_taken(before, records, after)
    &&& received is Ok ==> after.reader.expected_sequence == sequence_after(
        before.reader.expected_sequence,
        records.len(),
    )
    &&& match received {
        Ok(Some(event)) => records.len() > 0 && meaning.1 == Ok::<Option<EventView>, ErrorReport>(
            Some(event@),
        ),
        Ok(None) => {
            &&& meaning.1 == Ok::<Option<EventView>, ErrorReport>(None)
            &&& exists|last: Seq<RingAccess>, receipts: Seq<ReadReceipt>| #[trigger]
                drained_at(before.reader, after.reader, last, receipts, records.len())
        },
        Err(error) => {
            ||| meaning.1 == Err::<Option<EventView>, ErrorReport>(error)
            ||| meaning.1 == Ok::<Option<EventView>, ErrorReport>(None) && exists|
                last: Seq<RingAccess>,
            |
                #[trigger] accesses_added(before.reader.memory.accesses(), last)
                    && reading_failed(
                    last,
                    after.reader.memory.accesses(),
                    before.reader.memory.capacity_of(),
                    before.reader.maximum_inline_message,
                    sequence_after(before.reader.expected_sequence, records.len()),
                    error,
                )
        },
    }
}

/// Whether a reader that took these receipts saw its ring empty behind the records it took. A
/// reader that took more receipts than can be counted gives up without having seen it.
pub open spec fn drained_at<Inbound: RingConsumer>(
    before: RingReader<Inbound>,
    after: RingReader<Inbound>,
    last: Seq<RingAccess>,
    receipts: Seq<ReadReceipt>,
    count: nat,
) -> bool {
    &&& accesses_added(before.memory.accesses(), last)
    &&& after.memory.operations() == before.memory.operations() + consumptions(receipts)
    &&& receipts.len() < u64::MAX ==> item_seen(
        last,
        after.memory.accesses(),
        before.memory.capacity_of(),
        before.maximum_inline_message,
        sequence_after(before.expected_sequence, count),
        Ok(CommittedItem::Empty),
    )
}

/// How sending one application message changes an endpoint.
pub open spec fn message_sent<Outbound: RingProducer, Inbound: RingConsumer>(
    before: ChannelEndpoint<Outbound, Inbound>,
    after: ChannelEndpoint<Outbound, Inbound>,
    payload: Seq<u8>,
    sent: Result<ChannelSend, ErrorReport>,
) -> bool {
    &&& after.wf()
    &&& after.same_inbound(before)
    &&& after.writer.memory.ring() == before.writer.memory.ring()
    &&& after.writer.memory.capacity_of() == before.writer.memory.capacity_of()
    &&& accesses_added(before.writer.memory.accesses(), after.writer.memory.accesses())
    &&& after.local_closed == before.local_closed
    &&& before.local_closed || before.remote_closed ==> sent == Err::<ChannelSend, ErrorReport>(
        channel_report(ErrorCode::Closed, Recoverability::Terminal),
    ) && after == before
    &&& !before.local_closed && !before.remote_closed ==> {
        ||| sent matches Err(error) && after.flow == before.flow && before.writer.only_looked(
            after.writer,
        ) && flow_unseen(before, after.writer, error)
        ||| exists|looked: RingWriter<Outbound>, buffered: u32| #[trigger]
            message_tried(before, looked, buffered, after, payload, sent)
    }
}

/// Whether the occupancy of the outbound ring could not be learned, for this reason.
pub open spec fn flow_unseen<Outbound: RingProducer, Inbound: RingConsumer>(
    before: ChannelEndpoint<Outbound, Inbound>,
    after: RingWriter<Outbound>,
    error: ErrorReport,
) -> bool {
    ||| before.writer.look_failed(after, error)
    ||| exists|amount: u32| #[trigger]
        before.writer.amount_seen(after, amount) && amount > before.flow.capacity && error
            == flow_report(ErrorCode::InvalidCursor)
}

/// What became of a message after `buffered` bytes were seen in the ring: it is refused under
/// backpressure or for its length, where nothing but the flow control changes, or it is cut and its
/// records are written.
pub open spec fn message_tried<Outbound: RingProducer, Inbound: RingConsumer>(
    before: ChannelEndpoint<Outbound, Inbound>,
    looked: RingWriter<Outbound>,
    buffered: u32,
    after: ChannelEndpoint<Outbound, Inbound>,
    payload: Seq<u8>,
    sent: Result<ChannelSend, ErrorReport>,
) -> bool {
    let flow = observed(before.flow, buffered);
    &&& before.writer.only_looked(looked)
    &&& before.writer.amount_seen(looked, buffered)
    &&& buffered <= before.flow.capacity
    &&& if backpressure_after(before.flow, buffered) {
        &&& sent == Err::<ChannelSend, ErrorReport>(
            channel_report(ErrorCode::Backpressured, Recoverability::Retryable),
        )
        &&& after.writer == looked
        &&& after.flow == flow
    } else if payload.len() > before.fragmenter.maximum_message {
        &&& sent == Err::<ChannelSend, ErrorReport>(
            fragment_report(
                ErrorCode::MessageTooLarge,
                Recoverability::Terminal,
                "logical message size",
            ),
        )
        &&& after.writer == looked
        &&& after.flow == flow
    } else {
        exists|fragments: Seq<Fragment>|
            cut_into(fragments, payload, before.fragmenter.maximum_inline_message as nat)
                && #[trigger] fragments_tried(looked, flow, fragments, after, sent)
    }
}

/// Whether a message was published, and more bytes were counted behind it than the ring holds.
pub open spec fn excess_published<Outbound: RingProducer>(
    looked: RingWriter<Outbound>,
    after: RingWriter<Outbound>,
    flow: FlowControl,
    fragments: Seq<Fragment>,
    producer: u32,
    consumer: u32,
    remaining: u32,
) -> bool {
    &&& looked.batch_published(after, RecordKind::Data, fragments, producer, consumer)
    &&& after.memory.operations().last() matches MemoryOperation::Publish(published)
        && after.remainder_seen(published, remaining)
    &&& remaining > flow.capacity
}

/// What became of the records of one message: all of them are published together, or none of them
/// is. Where all are published and the occupancy behind them cannot be learned, the outcome is an
/// error nevertheless.
pub open spec fn fragments_tried<Outbound: RingProducer, Inbound: RingConsumer>(
    looked: RingWriter<Outbound>,
    flow: FlowControl,
    fragments: Seq<Fragment>,
    after: ChannelEndpoint<Outbound, Inbound>,
    sent: Result<ChannelSend, ErrorReport>,
) -> bool {
    match sent {
        Ok(result) => {
            &&& result.buffered_amount <= flow.capacity
            &&& after.flow == observed(flow, result.buffered_amount)
            &&& exists|producer: u32, consumer: u32|
                {
                    &&& #[trigger] looked.batch_published(
                        after.writer,
                        RecordKind::Data,
                        fragments,
                        producer,
                        consumer,
                    )
                    &&& result.notify == (cursor_distance(consumer, producer) == 0)
                    &&& after.writer.memory.operations().last() matches MemoryOperation::Publish(
                        published,
                    ) && after.writer.remainder_seen(published, result.buffered_amount)
                }
        },
        Err(error) => {
            &&& after.flow == flow
            &&& {
                ||| looked.batch_failed(after.writer, RecordKind::Data, fragments, error) && {
                    ||| looked.nothing_published(after.writer)
                    ||| access_failed(
                        looked.memory.accesses(),
                        after.writer.memory.accesses(),
                        error,
                    ) && exists|producer: u32, consumer: u32| #[trigger]
                        looked.batch_published(
                            after.writer,
                            RecordKind::Data,
                            fragments,
                            producer,
                            consumer,
                        )
                }
                ||| error == flow_report(ErrorCode::InvalidCursor) && exists|
                    producer: u32,
                    consumer: u32,
                    remaining: u32,
                | #[trigger]
                    excess_published(
                        looked,
                        after.writer,
                        flow,
                        fragments,
                        producer,
                        consumer,
                        remaining,
                    )
            }
        },
    }
}

/// Whether a close or reset marker was refused, failed or published.
pub open spec fn marker_sent<Outbound: RingProducer, Inbound: RingConsumer>(
    before: ChannelEndpoint<Outbound, Inbound>,
    after: ChannelEndpoint<Outbound, Inbound>,
    kind: RecordKind,
    sent: Result<ChannelSend, ErrorReport>,
) -> bool {
    &&& after.wf()
    &&& after.same_inbound(before)
    &&& after.writer.memory.ring() == before.writer.memory.ring()
    &&& after.writer.memory.capacity_of() == before.writer.memory.capacity_of()
    &&& accesses_added(before.writer.memory.accesses(), after.writer.memory.accesses())
    &&& after.flow == before.flow
    &&& before.local_closed ==> after == before && sent == Err::<ChannelSend, ErrorReport>(
        channel_report(ErrorCode::Closed, Recoverability::Terminal),
    )
    &&& sent matches Err(error) ==> {
        &&& after.local_closed == before.local_closed
        &&& before.local_closed || before.writer.record_failed(
            after.writer,
            kind,
            RecordFlags { bits: 1 },
            Seq::empty(),
            error,
        )
        &&& {
            ||| before.writer.nothing_published(after.writer)
            ||| exists|producer: u32, consumer: u32| #[trigger]
                before.writer.record_published(
                    after.writer,
                    kind,
                    RecordFlags { bits: 1 },
                    Seq::empty(),
                    producer,
                    consumer,
                )
        }
    }
    &&& sent matches Ok(result) ==> {
        &&& !before.local_closed
        &&& after.local_closed
        &&& after.writer.next_sequence == before.writer.next_sequence.next()
        &&& after.writer.next_message_id == next_message_number(before.writer.next_message_id)
        &&& exists|producer: u32, consumer: u32|
            {
                &&& before.writer.saw_cursors(after.writer, producer, consumer)
                &&& #[trigger] snapshot_of(
                    before.writer.memory.capacity_of(),
                    producer,
                    consumer,
                ) matches Ok(snapshot) && planned_record(
                    snapshot,
                    MessageId::of(before.writer.next_message_id as u64),
                    before.writer.next_sequence,
                    kind,
                    RecordFlags { bits: 1 },
                    Seq::empty(),
                ) matches Ok((header, plan)) && result.notify == plan.signal_non_empty
                    && after.writer.remainder_seen(plan.publish_cursor, result.buffered_amount)
                    && after.writer.memory.operations() == before.writer.memory.operations()
                    + staged_writes(plan, header, Seq::empty()) + seq![
                    MemoryOperation::Publish(plan.publish_cursor),
                ]
            }
    }
}

/// A close or reset discards the incomplete message and is reported whatever was pending.
pub proof fn law_close_discards_incomplete_messages(
    fragmentation_enabled: bool,
    maximum_inline_message: u32,
    maximum_message: u32,
    partial: Option<PartialView>,
    header: ParsedRecordHeader,
    payload: Seq<u8>,
)
    requires
        header.kind is Close || header.kind is Reset,
        header.flags.bits & FLAG_FRAGMENTED == 0,
    ensures
        ({
            let outcome = interpreted(
                fragmentation_enabled,
                maximum_inline_message,
                maximum_message,
                partial,
                header,
                payload,
            );
            outcome.0 is None && outcome.1 == Ok::<Option<EventView>, ErrorReport>(
                Some(
                    if header.kind is Close {
                        EventView::Closed
                    } else {
                        EventView::Reset
                    },
                ),
            )
        }),
{
}

/// What remains incomplete, and what the last record meant, after several records.
pub open spec fn interpreted_all(
    fragmentation_enabled: bool,
    maximum_inline_message: u32,
    maximum_message: u32,
    partial: Option<PartialView>,
    records: Seq<RingRecord>,
) -> (Option<PartialView>, Result<Option<EventView>, ErrorReport>)
    decreases records.len(),
{
    if records.len() == 0 {
        (partial, Ok(None))
    } else {
        interpreted(
            fragmentation_enabled,
            maximum_inline_message,
            maximum_message,
            interpreted_all(
                fragmentation_enabled,
                maximum_inline_message,
                maximum_message,
                partial,
                records.drop_last(),
            ).0,
            records.last().header,
            records.last().payload,
        )
    }
}

/// The records of a message that was cut and sent are received as exactly that message: none before
/// the last one is an event.
pub proof fn law_a_message_comes_out_as_it_went_in(
    maximum_inline_message: u32,
    maximum_message: u32,
    message_id: MessageId,
    sequence: Sequence,
    payload: Seq<u8>,
    fragments: Seq<Fragment>,
)
    requires
        limits_agree(maximum_inline_message, maximum_message),
        payload.len() <= maximum_message,
        cut_into(fragments, payload, maximum_inline_message as nat),
    ensures
        interpreted_all(
            maximum_message > maximum_inline_message,
            maximum_inline_message,
            maximum_message,
            None,
            batch_records(message_id, sequence, RecordKind::Data, fragments),
        ) == (
            None::<PartialView>,
            Ok::<Option<EventView>, ErrorReport>(Some(EventView::Message(payload))),
        ),
        ({
            let records = batch_records(message_id, sequence, RecordKind::Data, fragments);
            &&& records.len() == fragments.len() > 0
            &&& forall|count: int|
                0 <= count < records.len() ==> interpreted_all(
                    maximum_message > maximum_inline_message,
                    maximum_inline_message,
                    maximum_message,
                    None,
                    #[trigger] records.subrange(0, count),
                ).1 == Ok::<Option<EventView>, ErrorReport>(None)
        }),
{
    let records = batch_records(message_id, sequence, RecordKind::Data, fragments);
    let inline = maximum_inline_message as nat;
    let cut = pieces(payload, inline);
    lemma_batch_record(message_id, sequence, RecordKind::Data, fragments);
    law_pieces_join_to_the_payload(payload, inline);
    let pairs = Seq::new(records.len(), |i: int| (records[i].header, records[i].payload));
    assert forall|i: int| 0 <= i < cut.len() implies {
        &&& (#[trigger] pairs[i]).0.message_id == Some(message_id)
        &&& pairs[i].0.flags == piece_flags(i, cut.len())
        &&& pairs[i].0.payload_length == cut[i].len()
        &&& pairs[i].1 == cut[i]
    } by {
        assert(fragments[i].payload@ == cut[i]);
        assert(records[i].header.flags == fragments[i].flags);
    }
    assert(carries(pairs, message_id, cut));
    law_fragments_reassemble(
        maximum_inline_message,
        maximum_message,
        message_id,
        payload,
        pairs,
    );
    if cut.len() != 1 {
        lemma_several_pieces(payload, inline);
    }
    lemma_interpreted_data(
        maximum_inline_message,
        maximum_message,
        records,
        pairs,
        cut.len(),
        records.len() as int,
    );
    lemma_pieces_count(payload, inline);
    assert forall|count: int| 0 <= count < records.len() implies interpreted_all(
        maximum_message > maximum_inline_message,
        maximum_inline_message,
        maximum_message,
        None,
        #[trigger] records.subrange(0, count),
    ).1 == Ok::<Option<EventView>, ErrorReport>(None) by {
        lemma_interpreted_data(
            maximum_inline_message,
            maximum_message,
            records,
            pairs,
            cut.len(),
            count,
        );
    }
    assert(records.subrange(0, records.len() as int) =~= records);
    assert(pairs.subrange(0, pairs.len() as int) =~= pairs);
}

/// Data records mean what the reassembler makes of them.
proof fn lemma_interpreted_data(
    maximum_inline_message: u32,
    maximum_message: u32,
    records: Seq<RingRecord>,
    pairs: Seq<(ParsedRecordHeader, Seq<u8>)>,
    count: nat,
    upto: int,
)
    requires
        records.len() == pairs.len(),
        0 <= upto <= records.len(),
        forall|i: int|
            #![trigger records[i]]
            0 <= i < records.len() ==> {
                &&& pairs[i] == (records[i].header, records[i].payload)
                &&& records[i].header.kind is Data
                &&& records[i].header.flags == piece_flags(i, count)
            },
        count != 1 ==> maximum_message > maximum_inline_message,
    ensures
        ({
            let made = pushed_all(
                maximum_inline_message,
                maximum_message,
                None,
                pairs.subrange(0, upto),
            );
            interpreted_all(
                maximum_message > maximum_inline_message,
                maximum_inline_message,
                maximum_message,
                None,
                records.subrange(0, upto),
            ) == (
                made.0,
                match made.1 {
                    Ok(Some(message)) => Ok::<Option<EventView>, ErrorReport>(
                        Some(EventView::Message(message)),
                    ),
                    Ok(None) => Ok(None),
                    Err(error) => Err(error),
                },
            )
        }),
    decreases upto,
{
    if upto > 0 {
        let last = upto - 1;
        lemma_interpreted_data(
            maximum_inline_message,
            maximum_message,
            records,
            pairs,
            count,
            last,
        );
        let prefix = records.subrange(0, upto);
        let pair_prefix = pairs.subrange(0, upto);
        assert(prefix.drop_last() =~= records.subrange(0, last));
        assert(pair_prefix.drop_last() =~= pairs.subrange(0, last));
        assert(prefix.last() == records[last]);
        assert(pair_prefix.last() == pairs[last]);
        assert(FLAG_END_OF_MESSAGE & FLAG_FRAGMENTED == 0) by (bit_vector);
    }
}

/// Each record of a batch carries its fragment.
proof fn lemma_batch_record(
    message_id: MessageId,
    sequence: Sequence,
    kind: RecordKind,
    fragments: Seq<Fragment>,
)
    ensures
        ({
            let records = batch_records(message_id, sequence, kind, fragments);
            &&& records.len() == fragments.len()
            &&& forall|i: int|
                #![trigger records[i]]
                0 <= i < fragments.len() ==> {
                    &&& records[i].header.kind == kind
                    &&& records[i].header.message_id == Some(message_id)
                    &&& records[i].header.flags == fragments[i].flags
                    &&& records[i].header.payload_length == fragments[i].payload@.len() as u32
                    &&& records[i].payload == fragments[i].payload@
                }
        }),
    decreases fragments.len(),
{
    if fragments.len() > 0 {
        let rest = fragments.subrange(1, fragments.len() as int);
        lemma_batch_record(message_id, sequence.next(), kind, rest);
        let records = batch_records(message_id, sequence, kind, fragments);
        let others = batch_records(message_id, sequence.next(), kind, rest);
        assert forall|i: int| 0 <= i < fragments.len() implies {
            &&& (#[trigger] records[i]).header.kind == kind
            &&& records[i].header.message_id == Some(message_id)
            &&& records[i].header.flags == fragments[i].flags
            &&& records[i].header.payload_length == fragments[i].payload@.len() as u32
            &&& records[i].payload == fragments[i].payload@
        } by {
            if i > 0 {
                assert(records[i] == others[i - 1]);
                assert(rest[i - 1] == fragments[i]);
            }
        }
    }
}

/// Data are messages or parts of them, and nothing else is; a close and a reset are told as what
/// they are, and a record of any other kind is handed out untouched, without a message in progress
/// noticing. Nothing but data comes in fragments, and those only where messages may span records.
pub proof fn law_records_mean_what_their_kind_says(
    fragmentation_enabled: bool,
    maximum_inline_message: u32,
    maximum_message: u32,
    partial: Option<PartialView>,
    header: ParsedRecordHeader,
    payload: Seq<u8>,
)
    ensures
        ({
            let (left, outcome) = interpreted(
                fragmentation_enabled,
                maximum_inline_message,
                maximum_message,
                partial,
                header,
                payload,
            );
            let fragmented = header.flags.bits & FLAG_FRAGMENTED != 0;
            &&& outcome matches Ok(Some(EventView::Message(_))) ==> header.kind is Data
            &&& outcome matches Ok(None) ==> header.kind is Data
            &&& (outcome matches Ok(Some(EventView::Closed))) == (header.kind is Close
                && !fragmented)
            &&& (outcome matches Ok(Some(EventView::Reset))) == (header.kind is Reset
                && !fragmented)
            &&& outcome matches Ok(Some(EventView::Control(kind, found, bytes))) ==> kind
                == header.kind && found == header && bytes == payload && left == partial
            &&& !(header.kind is Data || header.kind is Close || header.kind is Reset)
                && !fragmented ==> (outcome matches Ok(Some(EventView::Control(_, _, _))))
            &&& !(header.kind is Data) && fragmented ==> outcome is Err && left == partial
            &&& header.kind is Data && fragmented && !fragmentation_enabled ==> outcome is Err
        }),
{
}

/// A channel that either side closed sends no message and writes nothing; where it is open, a
/// channel at its high watermark asks to try again, and one at its low watermark refuses only what
/// is larger than a message may be. Nothing is written for a refused message.
pub proof fn law_messages_are_refused_for_a_reason<Outbound: RingProducer, Inbound: RingConsumer>(
    before: ChannelEndpoint<Outbound, Inbound>,
    looked: RingWriter<Outbound>,
    buffered: u32,
    after: ChannelEndpoint<Outbound, Inbound>,
    payload: Seq<u8>,
    sent: Result<ChannelSend, ErrorReport>,
)
    requires
        before.flow.low < before.flow.high,
    ensures
        message_sent(before, after, payload, sent) && (before.local_closed || before.remote_closed)
            ==> after == before && (sent matches Err(error) && error.code is Closed),
        message_tried(before, looked, buffered, after, payload, sent) && buffered
            >= before.flow.high ==> after.writer == looked && (sent matches Err(error)
            && error.code is Backpressured && error.recoverability is Retryable),
        message_tried(before, looked, buffered, after, payload, sent) && buffered
            <= before.flow.low && payload.len() > before.fragmenter.maximum_message ==> after.writer
            == looked && (sent matches Err(error) && error.code is MessageTooLarge),
        message_tried(before, looked, buffered, after, payload, sent) && sent is Ok
            ==> payload.len() <= before.fragmenter.maximum_message && buffered < before.flow.high
            && after.flow.buffered == sent->Ok_0.buffered_amount,
{
}

/// A side closes its channel once: after a close or reset went out, no second one and no message
/// does, and nothing changes any more.
pub proof fn law_sides_close_once<Outbound: RingProducer, Inbound: RingConsumer>(
    before: ChannelEndpoint<Outbound, Inbound>,
    closed: ChannelEndpoint<Outbound, Inbound>,
    kind: RecordKind,
    sent: ChannelSend,
    after: ChannelEndpoint<Outbound, Inbound>,
    other_kind: RecordKind,
    again: Result<ChannelSend, ErrorReport>,
    payload: Seq<u8>,
)
    requires
        marker_sent(before, closed, kind, Ok(sent)),
    ensures
        closed.local_closed,
        closed.remote_closed == before.remote_closed,
        marker_sent(closed, after, other_kind, again) ==> after == closed && (again matches Err(
            error,
        ) && error.code is Closed),
        message_sent(closed, after, payload, again) ==> after == closed && (again matches Err(
            error,
        ) && error.code is Closed),
{
}

/// A configuration is accepted exactly where a record holds something, a message at least that
/// much, both rings have the capacity that was asked for, the largest message fits into an empty
/// ring wherever it starts, and the watermarks leave a gap below the capacity.
pub proof fn law_accepted_channels_hold_their_largest_message(
    config: ChannelConfig,
    outbound: u32,
    inbound: u32,
)
    ensures
        ({
            let inline = config.maximum_inline_message as int;
            let message = config.maximum_message as int;
            let wire = wire_size(inline, message);
            config.rejection(outbound, inbound) is None <==> {
                &&& 0 < inline <= message
                &&& outbound == config.capacity
                &&& inbound == config.capacity
                &&& wire <= config.capacity
                &&& message > inline ==> wire + record_size(inline) <= u32::MAX && wire
                    + record_size(inline) - 8 <= config.capacity
                &&& watermarks_agree(config.capacity, config.low_watermark, config.high_watermark)
            }
        }),
        config.rejection(outbound, inbound) is None ==> config.low_watermark
            < config.high_watermark <= config.capacity,
{
}

/// A failure to send keeps its code and its recoverability; a closed channel is told apart from one
/// without resources.
pub proof fn law_channel_failures_have_their_class(code: ErrorCode, recoverability: Recoverability)
    ensures
        channel_report(code, recoverability).code == code,
        channel_report(code, recoverability).recoverability == recoverability,
        channel_report(code, recoverability).category is Closed <==> code is Closed,
        channel_report(code, recoverability).category is Resource <==> !(code is Closed),
{
}

} // verus!
