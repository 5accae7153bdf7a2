//! Provider-neutral mapped channel and notification adapter.

use vstd::prelude::*;

use crate::data_plane::channel::{
    flow_unseen, marker_sent, message_sent, records_received, ChannelConfig, ChannelEndpoint,
    ChannelEvent, ChannelSend, ControlRecord,
};
use crate::data_plane::flow_control::{backpressure_after, observed};
use crate::data_plane::mapped_ring::{
    can_hold, mapped_consumer, mapped_producer, MappedConsumer, MappedProducer,
};
use crate::data_plane::record::RecordKind;
use crate::data_plane::region_layout::{
    region_header, region_validated, validate_region, RegionExpectation, RegionLayout,
    REGION_HEADER_SIZE,
};
use crate::data_plane::ring_memory::{memory_report, RingConsumer, RingProducer};
use crate::data_plane::ring_model::RingRecord;
use crate::data_plane::ring_writer::amount_told;
use crate::domain::capabilities::{
    TransportCapabilities, BINARY_MESSAGES, BOUNDED_BACKPRESSURE, FRAGMENTATION,
    SHARED_MEMORY_DATA_PLANE,
};
use crate::domain::error::{
    plain_outcome, report, ErrorCategory, ErrorCode, ErrorReport, Recoverability,
};
use crate::memory::api::{MappedRegion, MappingAccess, RegionStore};
use crate::protocol::NegotiatedProtocol;
use crate::renderer::TransportDiagnostics;

verus! {

/// The report of a rejected transport.
pub open spec fn transport_report(code: ErrorCode, operation: &'static str) -> ErrorReport {
    report(
        if code is RequiredCapabilityMissing {
            ErrorCategory::Protocol
        } else {
            ErrorCategory::Configuration
        },
        code,
        Recoverability::ReplaceEndpoint,
        operation,
    )
}

fn transport_error(code: ErrorCode, operation: &'static str) -> (created: ErrorReport)
    ensures
        created == transport_report(code, operation),
{
    let category = match code {
        ErrorCode::RequiredCapabilityMissing => ErrorCategory::Protocol,
        _ => ErrorCategory::Configuration,
    };
    ErrorReport::new(category, code, Recoverability::ReplaceEndpoint, operation)
}

/// Why a mapping cannot be initialized with a layout, if it cannot.
pub open spec fn initialization_rejection<Region: MappedRegion>(
    mapping: Region,
    layout: RegionLayout,
) -> Option<ErrorReport> {
    if layout.total() > usize::MAX {
        Some(transport_report(ErrorCode::InvalidRange, "initialize region length"))
    } else if !(mapping.granted() is ReadWrite) || mapping.mapped_len() != layout.total() {
        Some(transport_report(ErrorCode::InvalidRange, "initialize mapped region"))
    } else {
        None
    }
}

/// Writes immutable layout metadata and zero cursors into a newly created mapping.
///
/// Read-only or length-mismatched mappings are rejected, and provider failures are passed on.
pub fn initialize_region<Region: MappedRegion>(mapping: &mut Region, layout: RegionLayout) -> (
    initialized: Result<(), ErrorReport>)
    ensures
        match initialization_rejection(*old(mapping), layout) {
            Some(error) => {
                &&& initialized is Err
                &&& initialized->Err_0 == error
                &&& *final(mapping) == *old(mapping)
            },
            None => {
                &&& old(mapping).writes(0, region_header(layout), plain_outcome(initialized))
                &&& final(mapping).stores() == if initialized is Ok {
                    old(mapping).stores().push(RegionStore::Bytes(0, region_header(layout)))
                } else {
                    old(mapping).stores()
                }
            },
        },
        final(mapping).identity() == old(mapping).identity(),
{
    let total: u64 = layout.total_length();
    if total > usize::MAX as u64 {
        return Err(transport_error(ErrorCode::InvalidRange, "initialize region length"));
    }
    if mapping.access() != MappingAccess::ReadWrite || mapping.len() != total as usize {
        return Err(transport_error(ErrorCode::InvalidRange, "initialize mapped region"));
    }
    let header = layout.encode();
    mapping.write(0, header.as_slice())
}

/// The capabilities without which a production channel is useless.
pub open spec fn production_bits() -> u64 {
    SHARED_MEMORY_DATA_PLANE | BINARY_MESSAGES | BOUNDED_BACKPRESSURE
}

/// The channel limits that a negotiated protocol allows.
pub open spec fn negotiated_config(
    capacity: u32,
    layout_inline_limit: u32,
    low_watermark: u32,
    high_watermark: u32,
    negotiated: NegotiatedProtocol,
) -> Result<ChannelConfig, ErrorReport> {
    let capabilities = negotiated.capabilities.set;
    let inline = if layout_inline_limit <= negotiated.maximum_message {
        layout_inline_limit
    } else {
        negotiated.maximum_message
    };
    if !capabilities.includes(TransportCapabilities { bits: production_bits() }) {
        Err(
            transport_report(
                ErrorCode::RequiredCapabilityMissing,
                "production channel capabilities",
            ),
        )
    } else if inline == 0 {
        Err(transport_report(ErrorCode::InvalidRange, "negotiated inline message limit"))
    } else {
        Ok(
            ChannelConfig {
                capacity,
                maximum_inline_message: inline,
                maximum_message: if capabilities.includes(
                    TransportCapabilities { bits: FRAGMENTATION },
                ) {
                    negotiated.maximum_message
                } else {
                    inline
                },
                low_watermark,
                high_watermark,
            },
        )
    }
}

/// Negotiated channel limits derived from the common protocol selection.
///
/// Missing production capabilities and an empty negotiated message range are rejected.
pub fn negotiated_channel_config(
    capacity: u32,
    layout_inline_limit: u32,
    low_watermark: u32,
    high_watermark: u32,
    negotiated: NegotiatedProtocol,
) -> (config: Result<ChannelConfig, ErrorReport>)
    ensures
        config == negotiated_config(
            capacity,
            layout_inline_limit,
            low_watermark,
            high_watermark,
            negotiated,
        ),
{
    let capabilities = negotiated.capabilities.capabilities();
    let required = TransportCapabilities::from_bits(SHARED_MEMORY_DATA_PLANE).union(
        TransportCapabilities::from_bits(BINARY_MESSAGES),
    ).union(TransportCapabilities::from_bits(BOUNDED_BACKPRESSURE));
    if !capabilities.contains(required) {
        return Err(
            transport_error(
                ErrorCode::RequiredCapabilityMissing,
                "production channel capabilities",
            ),
        );
    }
    let maximum_inline_message: u32 = if layout_inline_limit <= negotiated.maximum_message {
        layout_inline_limit
    } else {
        negotiated.maximum_message
    };
    if maximum_inline_message == 0 {
        return Err(
            transport_error(ErrorCode::InvalidRange, "negotiated inline message limit"),
        );
    }
    let maximum_message: u32 = if capabilities.contains(
        TransportCapabilities::from_bits(FRAGMENTATION),
    ) {
        negotiated.maximum_message
    } else {
        maximum_inline_message
    };
    Ok(
        ChannelConfig {
            capacity,
            maximum_inline_message,
            maximum_message,
            low_watermark,
            high_watermark,
        },
    )
}

/// Without the fragmentation capability no message is larger than one record, and with it none
/// is larger than negotiated.
pub proof fn law_fragmentation_is_negotiated(
    capacity: u32,
    layout_inline_limit: u32,
    low_watermark: u32,
    high_watermark: u32,
    negotiated: NegotiatedProtocol,
)
    ensures
        negotiated_config(
            capacity,
            layout_inline_limit,
            low_watermark,
            high_watermark,
            negotiated,
        ) matches Ok(config) ==> {
            &&& config.maximum_inline_message <= layout_inline_limit
            &&& config.maximum_message <= negotiated.maximum_message
            &&& config.maximum_message > config.maximum_inline_message
                ==> negotiated.capabilities.set.includes(
                TransportCapabilities { bits: FRAGMENTATION },
            )
        },
{
}

/// Whether two expectations are the two directions of one session generation.
pub open spec fn direction_pair(outbound: RegionExpectation, inbound: RegionExpectation) -> bool {
    &&& outbound.owner != inbound.owner
    &&& outbound.session_id == inbound.session_id
    &&& outbound.generation == inbound.generation
}

/// What attaching gives for the layouts of the two mappings, before the rings are attached.
pub open spec fn attachment_config(
    outbound: RegionLayout,
    inbound: RegionLayout,
    negotiated: NegotiatedProtocol,
    low_watermark: u32,
    high_watermark: u32,
) -> Result<ChannelConfig, ErrorReport> {
    if outbound.capacity != inbound.capacity || outbound.maximum_inline_message
        != inbound.maximum_inline_message {
        Err(transport_report(ErrorCode::InvalidRange, "mapped channel layout pair"))
    } else {
        negotiated_config(
            outbound.capacity,
            outbound.maximum_inline_message,
            low_watermark,
            high_watermark,
            negotiated,
        )
    }
}

/// Decides the channel limits of two mappings from their layouts.
///
/// Unequal layouts and an invalid negotiation are rejected.
pub fn configure_attachment(
    outbound: RegionLayout,
    inbound: RegionLayout,
    negotiated: NegotiatedProtocol,
    low_watermark: u32,
    high_watermark: u32,
) -> (config: Result<ChannelConfig, ErrorReport>)
    ensures
        config == attachment_config(
            outbound,
            inbound,
            negotiated,
            low_watermark,
            high_watermark,
        ),
{
    if outbound.capacity() != inbound.capacity() || outbound.maximum_inline_message()
        != inbound.maximum_inline_message() {
        return Err(transport_error(ErrorCode::InvalidRange, "mapped channel layout pair"));
    }
    negotiated_channel_config(
        outbound.capacity(),
        outbound.maximum_inline_message(),
        low_watermark,
        high_watermark,
        negotiated,
    )
}

/// Whether validating a mapping may turn out so: its header is read, and its layout then has to be
/// the expected one.
pub open spec fn mapping_validated<Region: MappedRegion>(
    mapping: Region,
    expectation: RegionExpectation,
    outcome: Result<RegionLayout, ErrorReport>,
) -> bool {
    ||| outcome matches Err(error) && mapping.reads(0, REGION_HEADER_SIZE, Err(error))
    ||| exists|header: Seq<u8>| #[trigger]
        mapping.reads(0, REGION_HEADER_SIZE, Ok(header)) && outcome == region_validated(
            header,
            mapping.mapped_len(),
            expectation,
        )
}

fn validate_mapping<Region: MappedRegion>(
    mapping: &Region,
    expectation: RegionExpectation,
) -> (validated: Result<RegionLayout, ErrorReport>)
    ensures
        mapping_validated(*mapping, expectation, validated),
{
    let header = mapping.read(0, REGION_HEADER_SIZE)?;
    validate_region(header.as_slice(), mapping.len(), expectation)
}

/// Why the rings of two mappings cannot carry a channel with these limits, if they cannot.
pub open spec fn channel_rejection<Outbound: MappedRegion, Inbound: MappedRegion>(
    outbound: Outbound,
    inbound: Inbound,
    config: ChannelConfig,
) -> Option<ErrorReport> {
    if !can_hold(outbound, config.capacity) || !can_hold(inbound, config.capacity) {
        Some(memory_report(ErrorCode::InvalidRange))
    } else {
        config.rejection(config.capacity, config.capacity)
    }
}

/// Whether attaching two mappings may give a channel with these limits.
pub open spec fn attachment_allows<Outbound: MappedRegion, Inbound: MappedRegion>(
    outbound: Outbound,
    inbound: Inbound,
    outbound_expectation: RegionExpectation,
    inbound_expectation: RegionExpectation,
    negotiated: NegotiatedProtocol,
    low_watermark: u32,
    high_watermark: u32,
    config: ChannelConfig,
) -> bool {
    &&& direction_pair(outbound_expectation, inbound_expectation)
    &&& exists|written: RegionLayout, read: RegionLayout|
        {
            &&& #[trigger] mapping_validated(outbound, outbound_expectation, Ok(written))
            &&& #[trigger] mapping_validated(inbound, inbound_expectation, Ok(read))
            &&& attachment_config(
                written,
                read,
                negotiated,
                low_watermark,
                high_watermark,
            ) == Ok::<ChannelConfig, ErrorReport>(config)
        }
    &&& channel_rejection(outbound, inbound, config) is None
}

/// Whether attaching two mappings may fail so. The outbound mapping is validated first, and the
/// inbound one is looked at only where that went well.
pub open spec fn attachment_failed<Outbound: MappedRegion, Inbound: MappedRegion>(
    outbound: Outbound,
    inbound: Inbound,
    outbound_expectation: RegionExpectation,
    inbound_expectation: RegionExpectation,
    negotiated: NegotiatedProtocol,
    low_watermark: u32,
    high_watermark: u32,
    error: ErrorReport,
) -> bool {
    if !direction_pair(outbound_expectation, inbound_expectation) {
        error == transport_report(ErrorCode::ProtocolViolation, "mapped channel direction pair")
    } else {
        ||| mapping_validated(outbound, outbound_expectation, Err(error))
        ||| mapping_validated(inbound, inbound_expectation, Err(error)) && exists|
            written: RegionLayout,
        | #[trigger]
            mapping_validated(outbound, outbound_expectation, Ok(written))
        ||| exists|written: RegionLayout, read: RegionLayout|
            {
                &&& #[trigger] mapping_validated(outbound, outbound_expectation, Ok(written))
                &&& #[trigger] mapping_validated(inbound, inbound_expectation, Ok(read))
                &&& match attachment_config(
                    written,
                    read,
                    negotiated,
                    low_watermark,
                    high_watermark,
                ) {
                    Err(found) => error == found,
                    Ok(config) => channel_rejection(outbound, inbound, config) == Some(error),
                }
            }
    }
}

/// Attaches opposite-direction mappings to one endpoint after common validation.
///
/// Malformed layout metadata, stale identity, direction mismatch, and an invalid negotiation are
/// rejected.
pub fn attach_mapped_endpoint<Outbound: MappedRegion, Inbound: MappedRegion>(
    outbound: Outbound,
    inbound: Inbound,
    outbound_expectation: RegionExpectation,
    inbound_expectation: RegionExpectation,
    negotiated: NegotiatedProtocol,
    low_watermark: u32,
    high_watermark: u32,
) -> (attached: Result<
    ChannelEndpoint<MappedProducer<Outbound>, MappedConsumer<Inbound>>,
    ErrorReport,
>)
    ensures
        match attached {
            Ok(endpoint) => {
                &&& endpoint.wf()
                &&& endpoint.writer.memory.mapping() == outbound
                &&& endpoint.reader.memory.mapping() == inbound
                &&& exists|config: ChannelConfig|
                    {
                        &&& #[trigger] attachment_allows(
                            outbound,
                            inbound,
                            outbound_expectation,
                            inbound_expectation,
                            negotiated,
                            low_watermark,
                            high_watermark,
                            config,
                        )
                        &&& endpoint.is_fresh(config)
                    }
            },
            Err(error) => attachment_failed(
                outbound,
                inbound,
                outbound_expectation,
                inbound_expectation,
                negotiated,
                low_watermark,
                high_watermark,
                error,
            ),
        },
{
    if outbound_expectation.owner == inbound_expectation.owner || outbound_expectation.session_id
        != inbound_expectation.session_id || outbound_expectation.generation
        != inbound_expectation.generation {
        return Err(
            transport_error(ErrorCode::ProtocolViolation, "mapped channel direction pair"),
        );
    }
    let outbound_layout = validate_mapping(&outbound, outbound_expectation)?;
    let inbound_layout = validate_mapping(&inbound, inbound_expectation)?;
    let config = configure_attachment(
        outbound_layout,
        inbound_layout,
        negotiated,
        low_watermark,
        high_watermark,
    )?;
    let producer = mapped_producer(outbound, config.capacity)?;
    let consumer = mapped_consumer(inbound, config.capacity)?;
    let attached = ChannelEndpoint::from_memories(producer, consumer, config);
    proof {
        if attached is Ok {
            assert(attachment_allows(
                outbound,
                inbound,
                outbound_expectation,
                inbound_expectation,
                negotiated,
                low_watermark,
                high_watermark,
                config,
            ));
        }
    }
    attached
}

/// Endpoint event including the local writable-return edge.
#[derive(Debug, PartialEq, Eq)]
pub enum TransportEvent {
    /// One complete application message.
    Message(Vec<u8>),
    /// Graceful remote close.
    Closed,
    /// Immediate remote reset.
    Reset,
    /// Local outbound capacity crossed below its low watermark.
    Writable,
    /// Preserved control record.
    Control(ControlRecord),
}

/// Posts a hint to the other process.
pub trait SignalSender {
    /// What became of the hints that were posted, in order.
    open spec fn posts(&self) -> Seq<Result<(), ErrorReport>> {
        arbitrary()
    }

    /// Posts one hint. Hints may be lost or coalesced.
    ///
    /// A provider failure is returned.
    fn notify(&mut self) -> (posted: Result<(), ErrorReport>)
        ensures
            final(self).posts() == old(self).posts().push(posted),
    ;
}

/// One call of a source of wakeups.
pub enum WakeCall<Cause> {
    /// A wait of no more than some nanoseconds, and what ended it.
    Waited(u128, Result<Cause, ErrorReport>),
    /// The progress that was made after a wait.
    Drained(Cause, bool),
    /// Cancellation of the waits.
    Cancelled,
}

/// Waits for hints of the other process, bounded by correctness polls.
pub trait WakeSource {
    /// What ended a wait.
    type Cause;

    /// The calls that were made, in order.
    open spec fn calls(&self) -> Seq<WakeCall<Self::Cause>> {
        arbitrary()
    }

    /// Waits for a hint or a poll tick, but no longer than `nanos`.
    ///
    /// A provider failure is returned.
    fn wait_timeout(&mut self, nanos: u128) -> (cause: Result<Self::Cause, ErrorReport>)
        ensures
            final(self).calls() == old(self).calls().push(WakeCall::Waited(nanos, cause)),
    ;

    /// Learns whether looking at the shared state after a wait made progress.
    fn record_drain(&mut self, cause: Self::Cause, progressed: bool)
        ensures
            final(self).calls() == old(self).calls().push(WakeCall::Drained(cause, progressed)),
    ;

    /// Cancels the waits. Cancellation is idempotent.
    fn cancel(&mut self)
        ensures
            final(self).calls() == old(self).calls().push(WakeCall::Cancelled),
    ;

    /// Wakeups that the source counted.
    open spec fn counted(&self) -> TransportDiagnostics {
        arbitrary()
    }

    /// Wakeups that the source counted.
    fn counters(&self) -> (counters: TransportDiagnostics)
        ensures
            counters == self.counted(),
    ;
}

/// A mapped channel combined with primary notification hints and correctness polling.
pub struct ChannelTransport<Outbound, Inbound, Sender, Wake> {
    /// The channel.
    pub channel: ChannelEndpoint<Outbound, Inbound>,
    /// Hints of sent records.
    pub outbound_sender: Sender,
    /// Hints of consumed records.
    pub inbound_sender: Sender,
    /// Hints of records that the other side consumed.
    pub outbound_wake: Wake,
    /// Hints of records that the other side sent.
    pub inbound_wake: Wake,
}

/// What a channel operation and the hint after it make of a call: a hint is posted if and only if
/// the operation calls for one, and a hint that cannot be posted fails the call.
pub open spec fn hinted<Sender: SignalSender, T>(
    before: Sender,
    after: Sender,
    outcome: Result<ChannelSend, ErrorReport>,
    told: Result<T, ErrorReport>,
) -> bool {
    match outcome {
        Err(error) => told is Err && told->Err_0 == error && after == before,
        Ok(sent) => if sent.notify {
            after.posts() == before.posts().push(
                match told {
                    Ok(_) => Ok(()),
                    Err(error) => Err(error),
                },
            )
        } else {
            told is Ok && after == before
        },
    }
}

/// The transport event of a channel event.
pub open spec fn event_of(event: ChannelEvent) -> TransportEvent {
    match event {
        ChannelEvent::Message(payload) => TransportEvent::Message(payload),
        ChannelEvent::Closed => TransportEvent::Closed,
        ChannelEvent::Reset => TransportEvent::Reset,
        ChannelEvent::Control(record) => TransportEvent::Control(record),
    }
}

/// What looking at the outbound occupancy makes of the watermarks: the writable edge where they
/// were crossed, and nothing where the occupancy cannot be learned.
pub open spec fn edge_polled<Outbound: RingProducer, Inbound: RingConsumer>(
    before: ChannelEndpoint<Outbound, Inbound>,
    after: ChannelEndpoint<Outbound, Inbound>,
    polled: Result<Option<TransportEvent>, ErrorReport>,
) -> bool {
    &&& before.writer.only_looked(after.writer)
    &&& match polled {
        Err(error) => after.flow == before.flow && flow_unseen(before, after.writer, error),
        Ok(event) => exists|buffered: u32|
            {
                &&& buffered <= before.flow.capacity
                &&& before.writer.amount_seen(after.writer, buffered)
                &&& after.flow == #[trigger] observed(before.flow, buffered)
                &&& event == if before.flow.backpressured && !backpressure_after(
                    before.flow,
                    buffered,
                ) {
                    Some(TransportEvent::Writable)
                } else {
                    None
                }
            },
    }
}

/// What polling makes of the records that a channel took: their event, with a hint that they were
/// consumed, or the writable edge where they are no event. An event whose hint cannot be posted is
/// lost to its caller.
pub open spec fn records_polled<
    Outbound: RingProducer,
    Inbound: RingConsumer,
    Sender: SignalSender,
    Wake: WakeSource,
>(
    before: ChannelTransport<Outbound, Inbound, Sender, Wake>,
    after: ChannelTransport<Outbound, Inbound, Sender, Wake>,
    records: Seq<RingRecord>,
    received: Result<Option<ChannelEvent>, ErrorReport>,
    polled: Result<Option<TransportEvent>, ErrorReport>,
) -> bool {
    let drained = ChannelEndpoint {
        flow: before.channel.flow,
        writer: before.channel.writer,
        ..after.channel
    };
    &&& records_received(before.channel, records, drained, received)
    &&& drained.same_outbound(before.channel)
    &&& drained.wf()
    &&& drained.reassembler.maximum_message == before.channel.reassembler.maximum_message
    &&& drained.reassembler.maximum_inline_message
        == before.channel.reassembler.maximum_inline_message
    &&& drained.reader.maximum_inline_message == before.channel.reader.maximum_inline_message
    &&& drained.remote_closed == (before.channel.remote_closed || (received matches Ok(
        Some(event),
    ) && (event is Closed || event is Reset)))
    &&& after.outbound_sender == before.outbound_sender
    &&& after.outbound_wake == before.outbound_wake
    &&& after.inbound_wake == before.inbound_wake
    &&& match received {
        Err(error) => {
            &&& polled == Err::<Option<TransportEvent>, ErrorReport>(error)
            &&& after.channel == drained
            &&& after.inbound_sender == before.inbound_sender
        },
        Ok(Some(event)) => {
            &&& after.channel == drained
            &&& match polled {
                Ok(found) => {
                    &&& found == Some(event_of(event))
                    &&& after.inbound_sender.posts() == before.inbound_sender.posts().push(Ok(()))
                },
                Err(error) => after.inbound_sender.posts() == before.inbound_sender.posts().push(
                    Err(error),
                ),
            }
        },
        Ok(None) => {
            &&& after.inbound_sender == before.inbound_sender
            &&& edge_polled(before.channel, after.channel, polled)
        },
    }
}

/// Whether one look at the shared state came to this.
pub open spec fn polled_once<
    Outbound: RingProducer,
    Inbound: RingConsumer,
    Sender: SignalSender,
    Wake: WakeSource,
>(
    before: ChannelTransport<Outbound, Inbound, Sender, Wake>,
    after: ChannelTransport<Outbound, Inbound, Sender, Wake>,
    polled: Result<Option<TransportEvent>, ErrorReport>,
) -> bool {
    exists|records: Seq<RingRecord>, received: Result<Option<ChannelEvent>, ErrorReport>| #[trigger]
        records_polled(before, after, records, received, polled)
}

/// Whether the inbound listener waited, and then the outbound one without waiting any longer.
pub open spec fn waited_for_hints<
    Outbound: RingProducer,
    Inbound: RingConsumer,
    Sender: SignalSender,
    Wake: WakeSource,
>(
    before: ChannelTransport<Outbound, Inbound, Sender, Wake>,
    after: ChannelTransport<Outbound, Inbound, Sender, Wake>,
    nanos: u128,
    inbound: Result<Wake::Cause, ErrorReport>,
    outbound: Result<Wake::Cause, ErrorReport>,
) -> bool {
    &&& after.channel == before.channel
    &&& after.outbound_sender == before.outbound_sender
    &&& after.inbound_sender == before.inbound_sender
    &&& after.inbound_wake.calls() == before.inbound_wake.calls().push(
        WakeCall::Waited(nanos, inbound),
    )
    &&& if inbound is Ok {
        after.outbound_wake.calls() == before.outbound_wake.calls().push(
            WakeCall::Waited(0, outbound),
        )
    } else {
        after.outbound_wake == before.outbound_wake
    }
}

/// Whether both listeners learned what a look after their wait came to.
pub open spec fn drain_recorded<
    Outbound: RingProducer,
    Inbound: RingConsumer,
    Sender: SignalSender,
    Wake: WakeSource,
>(
    before: ChannelTransport<Outbound, Inbound, Sender, Wake>,
    after: ChannelTransport<Outbound, Inbound, Sender, Wake>,
    inbound: Wake::Cause,
    outbound: Wake::Cause,
    progressed: bool,
) -> bool {
    &&& after.channel == before.channel
    &&& after.outbound_sender == before.outbound_sender
    &&& after.inbound_sender == before.inbound_sender
    &&& after.inbound_wake.calls() == before.inbound_wake.calls().push(
        WakeCall::Drained(inbound, progressed),
    )
    &&& after.outbound_wake.calls() == before.outbound_wake.calls().push(
        WakeCall::Drained(outbound, progressed),
    )
}

/// Whether a wait that nothing preceded came to this: the listeners waited, the shared state was
/// looked at once, and the listeners learned of the progress.
pub open spec fn woken<
    Outbound: RingProducer,
    Inbound: RingConsumer,
    Sender: SignalSender,
    Wake: WakeSource,
>(
    before: ChannelTransport<Outbound, Inbound, Sender, Wake>,
    after: ChannelTransport<Outbound, Inbound, Sender, Wake>,
    nanos: u128,
    inbound: Result<Wake::Cause, ErrorReport>,
    outbound: Result<Wake::Cause, ErrorReport>,
    polled: Result<Option<TransportEvent>, ErrorReport>,
) -> bool {
    match (inbound, outbound) {
        (Err(error), _) => {
            &&& polled == Err::<Option<TransportEvent>, ErrorReport>(error)
            &&& waited_for_hints(before, after, nanos, inbound, outbound)
        },
        (Ok(_), Err(error)) => {
            &&& polled == Err::<Option<TransportEvent>, ErrorReport>(error)
            &&& waited_for_hints(before, after, nanos, inbound, outbound)
        },
        (Ok(inbound_cause), Ok(outbound_cause)) => exists|
            waited: ChannelTransport<Outbound, Inbound, Sender, Wake>,
            looked: ChannelTransport<Outbound, Inbound, Sender, Wake>,
        |
            {
                &&& waited_for_hints(before, waited, nanos, inbound, outbound)
                &&& #[trigger] polled_once(waited, looked, polled)
                &&& match polled {
                    Err(_) => after == looked,
                    Ok(event) => drain_recorded(
                        looked,
                        after,
                        inbound_cause,
                        outbound_cause,
                        event is Some,
                    ),
                }
            },
    }
}

/// Whether waiting for an event came to this: what is there already is returned without a wait.
pub open spec fn transport_waited<
    Outbound: RingProducer,
    Inbound: RingConsumer,
    Sender: SignalSender,
    Wake: WakeSource,
>(
    before: ChannelTransport<Outbound, Inbound, Sender, Wake>,
    after: ChannelTransport<Outbound, Inbound, Sender, Wake>,
    nanos: u128,
    polled: Result<Option<TransportEvent>, ErrorReport>,
) -> bool {
    ||| polled_once(before, after, polled) && !(polled matches Ok(None))
    ||| exists|
        idle: ChannelTransport<Outbound, Inbound, Sender, Wake>,
        inbound: Result<Wake::Cause, ErrorReport>,
        outbound: Result<Wake::Cause, ErrorReport>,
    |
        polled_once(before, idle, Ok(None)) && #[trigger] woken(
            idle,
            after,
            nanos,
            inbound,
            outbound,
            polled,
        )
}

fn channel_event(event: ChannelEvent) -> (converted: TransportEvent)
    ensures
        converted == event_of(event),
{
    match event {
        ChannelEvent::Message(payload) => TransportEvent::Message(payload),
        ChannelEvent::Closed => TransportEvent::Closed,
        ChannelEvent::Reset => TransportEvent::Reset,
        ChannelEvent::Control(record) => TransportEvent::Control(record),
    }
}

impl<
    Outbound: RingProducer,
    Inbound: RingConsumer,
    Sender: SignalSender,
    Wake: WakeSource,
> ChannelTransport<Outbound, Inbound, Sender, Wake> {
    /// Everything but the channel and the hints of sent records is the same.
    pub open spec fn same_listeners(self, other: Self) -> bool {
        &&& self.inbound_sender == other.inbound_sender
        &&& self.outbound_wake == other.outbound_wake
        &&& self.inbound_wake == other.inbound_wake
    }

    /// Whether a message was sent, or failed to be, and its hint was posted where it needs one.
    pub open spec fn message_handed(
        self,
        after: Self,
        payload: Seq<u8>,
        sent: Result<ChannelSend, ErrorReport>,
    ) -> bool {
        &&& after.same_listeners(self)
        &&& exists|outcome: Result<ChannelSend, ErrorReport>|
            {
                &&& #[trigger] message_sent(self.channel, after.channel, payload, outcome)
                &&& hinted(self.outbound_sender, after.outbound_sender, outcome, sent)
                &&& sent is Ok ==> sent == outcome
            }
    }

    /// Whether a marker was sent, or failed to be, and its hint was posted where it needs one.
    pub open spec fn marker_handed(
        self,
        after: Self,
        kind: RecordKind,
        closed: Result<(), ErrorReport>,
    ) -> bool {
        &&& after.same_listeners(self)
        &&& exists|outcome: Result<ChannelSend, ErrorReport>|
            {
                &&& #[trigger] marker_sent(self.channel, after.channel, kind, outcome)
                &&& hinted(self.outbound_sender, after.outbound_sender, outcome, closed)
            }
    }

    /// Whether both listeners were cancelled, and nothing else changed.
    pub open spec fn waits_cancelled(self, after: Self) -> bool {
        &&& after.channel == self.channel
        &&& after.outbound_sender == self.outbound_sender
        &&& after.inbound_sender == self.inbound_sender
        &&& after.outbound_wake.calls() == self.outbound_wake.calls().push(WakeCall::Cancelled)
        &&& after.inbound_wake.calls() == self.inbound_wake.calls().push(WakeCall::Cancelled)
    }

    /// Creates the common signal adapter for fake or platform providers.
    pub fn new(
        channel: ChannelEndpoint<Outbound, Inbound>,
        outbound_sender: Sender,
        outbound_wake: Wake,
        inbound_sender: Sender,
        inbound_wake: Wake,
    ) -> (transport: Self)
        ensures
            transport.channel == channel,
            transport.outbound_sender == outbound_sender,
            transport.inbound_sender == inbound_sender,
            transport.outbound_wake == outbound_wake,
            transport.inbound_wake == inbound_wake,
    {
        ChannelTransport { channel, outbound_sender, inbound_sender, outbound_wake, inbound_wake }
    }

    /// Sends a complete message and posts an empty-to-non-empty hint when useful.
    ///
    /// Channel and signal-provider failures are passed on.
    pub fn send(&mut self, payload: &[u8]) -> (sent: Result<ChannelSend, ErrorReport>)
        requires
            old(self).channel.wf(),
        ensures
            old(self).message_handed(*final(self), payload@, sent),
    {
        let outcome = self.channel.send(payload);
        proof {
            assert(message_sent(old(self).channel, self.channel, payload@, outcome));
        }
        let result = outcome?;
        self.notify_outbound(result)?;
        Ok(result)
    }

    /// Sends a FIFO close marker and notifies the remote consumer.
    ///
    /// Channel and signal-provider failures are passed on.
    pub fn close(&mut self) -> (closed: Result<(), ErrorReport>)
        requires
            old(self).channel.wf(),
        ensures
            old(self).marker_handed(*final(self), RecordKind::Close, closed),
    {
        let outcome = self.channel.close();
        proof {
            assert(marker_sent(old(self).channel, self.channel, RecordKind::Close, outcome));
        }
        let result = outcome?;
        self.notify_outbound(result)
    }

    /// Sends an immediate reset marker and notifies the remote consumer.
    ///
    /// Channel and signal-provider failures are passed on.
    pub fn reset(&mut self) -> (closed: Result<(), ErrorReport>)
        requires
            old(self).channel.wf(),
        ensures
            old(self).marker_handed(*final(self), RecordKind::Reset, closed),
    {
        let outcome = self.channel.reset();
        proof {
            assert(marker_sent(old(self).channel, self.channel, RecordKind::Reset, outcome));
        }
        let result = outcome?;
        self.notify_outbound(result)
    }

    /// Inspects shared state without relying on a delivered notification.
    ///
    /// Shared-state validation and signal-provider failures are passed on.
    pub fn poll(&mut self) -> (polled: Result<Option<TransportEvent>, ErrorReport>)
        requires
            old(self).channel.wf(),
        ensures
            final(self).channel.wf(),
            polled_once(*old(self), *final(self), polled),
            polled matches Ok(Some(TransportEvent::Message(payload)))
                ==> payload@.len() <= old(self).channel.reassembler.maximum_message,
    {
        let received = self.channel.receive();
        let ghost drained = self.channel;
        let ghost records = choose|records: Seq<RingRecord>| #[trigger]
            records_received(old(self).channel, records, drained, received);
        match received {
            Err(error) => {
                proof {
                    assert(records_polled(*old(self), *self, records, received, Err(error)));
                }
                Err(error)
            },
            Ok(Some(event)) => {
                let told = self.inbound_sender.notify();
                let polled = match told {
                    Ok(()) => Ok(Some(channel_event(event))),
                    Err(error) => Err(error),
                };
                proof {
                    match told {
                        Ok(posted) => assert(posted == ()),
                        Err(_) => {},
                    }
                    assert(records_polled(*old(self), *self, records, received, polled));
                }
                polled
            },
            Ok(None) => {
                let update = self.channel.refresh_flow();
                let polled = match update {
                    Err(error) => Err(error),
                    Ok(flow) => if flow.became_writable {
                        Ok(Some(TransportEvent::Writable))
                    } else {
                        Ok(None)
                    },
                };
                proof {
                    assert(ChannelEndpoint {
                        flow: old(self).channel.flow,
                        writer: old(self).channel.writer,
                        ..self.channel
                    } == drained);
                    if update is Ok {
                        let seen = observed(old(self).channel.flow, update->Ok_0.buffered);
                        assert(self.channel.flow == seen);
                    }
                    assert(records_polled(*old(self), *self, records, received, polled));
                }
                polled
            },
        }
    }

    /// Returns committed bytes which have not yet been consumed by the remote endpoint.
    ///
    /// Shared cursor validation failures are passed on.
    pub fn buffered_amount(&self) -> (amount: Result<u32, ErrorReport>)
        ensures
            amount_told(self.channel.writer.memory, amount),
            amount matches Ok(used) ==> used <= self.channel.writer.memory.capacity_of(),
    {
        self.channel.buffered_amount()
    }

    /// Wakeups that the listener of the inbound direction counted.
    pub fn diagnostics(&self) -> (diagnostics: TransportDiagnostics)
        ensures
            diagnostics == self.inbound_wake.counted(),
    {
        self.inbound_wake.counters()
    }

    /// Waits for a primary hint or bounded correctness poll, then uses the common drain path.
    ///
    /// An event that is there already is returned without waiting. Channel and signal-provider
    /// failures are passed on.
    pub fn wait_timeout(&mut self, nanos: u128) -> (polled: Result<
        Option<TransportEvent>,
        ErrorReport,
    >)
        requires
            old(self).channel.wf(),
        ensures
            final(self).channel.wf(),
            transport_waited(*old(self), *final(self), nanos, polled),
            polled matches Ok(Some(TransportEvent::Message(payload)))
                ==> payload@.len() <= old(self).channel.reassembler.maximum_message,
    {
        let early = self.poll()?;
        if early.is_some() {
            return Ok(early);
        }
        let ghost idle = *self;
        let inbound = self.inbound_wake.wait_timeout(nanos);
        let ghost waited_inbound = inbound;
        let inbound_cause = match inbound {
            Ok(cause) => cause,
            Err(error) => {
                proof {
                    let unused: Result<Wake::Cause, ErrorReport> = Err(error);
                    assert(woken(idle, *self, nanos, waited_inbound, unused, Err(error)));
                }
                return Err(error);
            },
        };
        let outbound = self.outbound_wake.wait_timeout(0);
        let ghost waited_outbound = outbound;
        let outbound_cause = match outbound {
            Ok(cause) => cause,
            Err(error) => {
                proof {
                    assert(woken(idle, *self, nanos, waited_inbound, waited_outbound, Err(error)));
                }
                return Err(error);
            },
        };
        let ghost waited = *self;
        let polled = self.poll();
        let ghost looked = *self;
        let event = match polled {
            Ok(event) => event,
            Err(error) => {
                proof {
                    assert(polled_once(waited, looked, Err(error)));
                    assert(woken(idle, *self, nanos, waited_inbound, waited_outbound, Err(error)));
                }
                return Err(error);
            },
        };
        let progressed = event.is_some();
        self.inbound_wake.record_drain(inbound_cause, progressed);
        self.outbound_wake.record_drain(outbound_cause, progressed);
        proof {
            assert(polled_once(waited, looked, Ok(event)));
            assert(woken(idle, *self, nanos, waited_inbound, waited_outbound, Ok(event)));
        }
        Ok(event)
    }

    /// Cancels both direction-specific listeners. Cancellation is idempotent.
    pub fn cancel(&mut self)
        ensures
            old(self).waits_cancelled(*final(self)),
    {
        self.outbound_wake.cancel();
        self.inbound_wake.cancel();
    }

    /// Posts a hint if the outcome of a send calls for one.
    pub(crate) fn notify_outbound(&mut self, sent: ChannelSend) -> (told: Result<(), ErrorReport>)
        ensures
            final(self).channel == old(self).channel,
            final(self).same_listeners(*old(self)),
            hinted(old(self).outbound_sender, final(self).outbound_sender, Ok(sent), told),
    {
        if sent.notify {
            self.outbound_sender.notify()?;
        }
        Ok(())
    }
}

/// The return of room is told exactly where the channel was backpressured before the look and is
/// not any more after it, so it is told once.
pub proof fn law_the_return_of_room_is_told_once<Outbound: RingProducer, Inbound: RingConsumer>(
    before: ChannelEndpoint<Outbound, Inbound>,
    after: ChannelEndpoint<Outbound, Inbound>,
    polled: Result<Option<TransportEvent>, ErrorReport>,
    later: ChannelEndpoint<Outbound, Inbound>,
    again: Result<Option<TransportEvent>, ErrorReport>,
)
    requires
        edge_polled(before, after, polled),
        edge_polled(after, later, again),
    ensures
        polled matches Ok(event) ==> (event is Some <==> before.flow.backpressured
            && !after.flow.backpressured),
        polled matches Ok(Some(event)) ==> event is Writable,
        polled is Err ==> after.flow == before.flow,
        polled matches Ok(Some(_)) ==> !(again matches Ok(Some(_))),
{
}

/// One hint is posted for an operation that calls for one, and none for any other; a caller is
/// told of success exactly where the operation and its hint went well.
pub proof fn law_hints_are_posted_where_they_are_called_for<Sender: SignalSender, T>(
    before: Sender,
    after: Sender,
    outcome: Result<ChannelSend, ErrorReport>,
    told: Result<T, ErrorReport>,
)
    requires
        hinted(before, after, outcome, told),
    ensures
        outcome matches Ok(sent) ==> sent.notify ==> after.posts().len() == before.posts().len()
            + 1 && (told is Ok <==> after.posts().last() is Ok),
        !(outcome matches Ok(sent) && sent.notify) ==> after == before,
        outcome is Err ==> told is Err && told->Err_0 == outcome->Err_0,
        told is Ok ==> outcome is Ok,
        (outcome matches Ok(sent) && !sent.notify) ==> told is Ok,
{
}

/// A message that a poll tells is the one that the channel took, to the byte, and its sender is
/// hinted at once; where the channel took nothing, nothing but the return of room is told and no
/// hint is posted.
pub proof fn law_polls_tell_what_the_channel_took<
    Outbound: RingProducer,
    Inbound: RingConsumer,
    Sender: SignalSender,
    Wake: WakeSource,
>(
    before: ChannelTransport<Outbound, Inbound, Sender, Wake>,
    after: ChannelTransport<Outbound, Inbound, Sender, Wake>,
    records: Seq<RingRecord>,
    received: Result<Option<ChannelEvent>, ErrorReport>,
    polled: Result<Option<TransportEvent>, ErrorReport>,
)
    requires
        records_polled(before, after, records, received, polled),
    ensures
        polled matches Ok(Some(TransportEvent::Message(payload))) ==> received == Ok::<
            Option<ChannelEvent>,
            ErrorReport,
        >(Some(ChannelEvent::Message(payload))),
        polled matches Ok(Some(TransportEvent::Closed)) ==> received == Ok::<
            Option<ChannelEvent>,
            ErrorReport,
        >(Some(ChannelEvent::Closed)),
        polled matches Ok(Some(TransportEvent::Reset)) ==> received == Ok::<
            Option<ChannelEvent>,
            ErrorReport,
        >(Some(ChannelEvent::Reset)),
        polled matches Ok(Some(TransportEvent::Control(record))) ==> received == Ok::<
            Option<ChannelEvent>,
            ErrorReport,
        >(Some(ChannelEvent::Control(record))),
        received matches Ok(Some(_)) ==> after.inbound_sender.posts().len()
            == before.inbound_sender.posts().len() + 1 && !(polled matches Ok(None)) && !(
        polled matches Ok(Some(TransportEvent::Writable))),
        !(received matches Ok(Some(_))) ==> after.inbound_sender == before.inbound_sender,
        received matches Err(error) ==> polled is Err && polled->Err_0 == error,
        received matches Ok(None) ==> (polled matches Ok(Some(event)) ==> event is Writable),
        after.outbound_sender == before.outbound_sender,
{
}

/// The limits of a channel are the tightest that layout and negotiation allow: one record carries
/// no more than either of them, and exactly one of the two where it carries the most, a message is
/// larger only by fragmentation, and capacity and watermarks are the given ones.
pub proof fn law_channel_limits_are_the_tightest(
    capacity: u32,
    layout_inline_limit: u32,
    low_watermark: u32,
    high_watermark: u32,
    negotiated: NegotiatedProtocol,
    config: Result<ChannelConfig, ErrorReport>,
)
    requires
        call_ensures(
            negotiated_channel_config,
            (capacity, layout_inline_limit, low_watermark, high_watermark, negotiated),
            config,
        ),
    ensures
        config is Ok <==> layout_inline_limit > 0 && negotiated.maximum_message > 0
            && negotiated.capabilities.set.includes(
            TransportCapabilities {
                bits: SHARED_MEMORY_DATA_PLANE | BINARY_MESSAGES | BOUNDED_BACKPRESSURE,
            },
        ),
        config matches Ok(config) ==> {
            &&& config.capacity == capacity
            &&& config.low_watermark == low_watermark
            &&& config.high_watermark == high_watermark
            &&& 0 < config.maximum_inline_message <= layout_inline_limit
            &&& config.maximum_inline_message <= negotiated.maximum_message
            &&& config.maximum_inline_message == layout_inline_limit
                || config.maximum_inline_message == negotiated.maximum_message
            &&& config.maximum_message == if negotiated.capabilities.set.includes(
                TransportCapabilities { bits: FRAGMENTATION },
            ) {
                negotiated.maximum_message
            } else {
                config.maximum_inline_message
            }
        },
        config matches Err(error) ==> (error.code is RequiredCapabilityMissing
            <==> !negotiated.capabilities.set.includes(
            TransportCapabilities {
                bits: SHARED_MEMORY_DATA_PLANE | BINARY_MESSAGES | BOUNDED_BACKPRESSURE,
            },
        )),
{
}

/// Two mappings carry one channel exactly where their layouts agree on what a ring and a record
/// hold.
pub proof fn law_layouts_of_a_channel_agree(
    outbound: RegionLayout,
    inbound: RegionLayout,
    negotiated: NegotiatedProtocol,
    low_watermark: u32,
    high_watermark: u32,
    config: Result<ChannelConfig, ErrorReport>,
    reversed: Result<ChannelConfig, ErrorReport>,
)
    requires
        call_ensures(
            configure_attachment,
            (outbound, inbound, negotiated, low_watermark, high_watermark),
            config,
        ),
        call_ensures(
            configure_attachment,
            (inbound, outbound, negotiated, low_watermark, high_watermark),
            reversed,
        ),
    ensures
        config is Ok ==> outbound.capacity == inbound.capacity && outbound.maximum_inline_message
            == inbound.maximum_inline_message && config->Ok_0.capacity == outbound.capacity,
        config == reversed,
{
}

/// The two ends of a session generation expect each other's directions.
pub proof fn law_directions_pair_both_ways(outbound: RegionExpectation, inbound: RegionExpectation)
    ensures
        direction_pair(outbound, inbound) == direction_pair(inbound, outbound),
        !direction_pair(outbound, outbound),
        direction_pair(outbound, inbound) ==> outbound.owner != inbound.owner
            && outbound.session_id == inbound.session_id && outbound.generation
            == inbound.generation,
{
}

/// What a wait tells without an event was looked at twice; an event that was there already is
/// told without a wait of either listener.
pub proof fn law_events_are_told_without_a_wait<
    Outbound: RingProducer,
    Inbound: RingConsumer,
    Sender: SignalSender,
    Wake: WakeSource,
>(
    before: ChannelTransport<Outbound, Inbound, Sender, Wake>,
    waited: ChannelTransport<Outbound, Inbound, Sender, Wake>,
    nanos: u128,
    inbound: Result<Wake::Cause, ErrorReport>,
    outbound: Result<Wake::Cause, ErrorReport>,
)
    requires
        waited_for_hints(before, waited, nanos, inbound, outbound),
    ensures
        waited.channel == before.channel,
        waited.inbound_wake.calls().len() == before.inbound_wake.calls().len() + 1,
        waited.inbound_wake.calls().last() == WakeCall::Waited(nanos, inbound),
        waited.outbound_wake.calls().len() <= before.outbound_wake.calls().len() + 1,
        waited.outbound_wake.calls().len() > before.outbound_wake.calls().len() ==> (
        waited.outbound_wake.calls().last() matches WakeCall::Waited(bound, _) && bound == 0),
{
}

/// A failure to set up a channel keeps its code; a missing capability is a matter of the protocol,
/// anything else one of the configuration.
pub proof fn law_transport_failures_have_their_class(code: ErrorCode, operation: &'static str)
    ensures
        transport_report(code, operation).code == code,
        transport_report(code, operation).context == operation,
        transport_report(code, operation).category is Protocol
            <==> code is RequiredCapabilityMissing,
        transport_report(code, operation).category is Configuration
            <==> !(code is RequiredCapabilityMissing),
        transport_report(code, operation).recoverability is ReplaceEndpoint,
{
}

/// A channel is refused for a missing capability before it is for its limits.
pub proof fn law_refused_channels_are_told_apart(
    capacity: u32,
    layout_inline_limit: u32,
    low_watermark: u32,
    high_watermark: u32,
    negotiated: NegotiatedProtocol,
)
    ensures
        negotiated_config(
            capacity,
            layout_inline_limit,
            low_watermark,
            high_watermark,
            negotiated,
        ) matches Err(error) ==> {
            let complete = negotiated.capabilities.set.includes(
                TransportCapabilities { bits: production_bits() },
            );
            &&& error.code is RequiredCapabilityMissing <==> !complete
            &&& error.code is InvalidRange <==> complete
            &&& complete ==> layout_inline_limit == 0 || negotiated.maximum_message == 0
        },
{
}

/// A mapping that cannot be written, or is not of the very length of its layout, is not a region
/// that can be initialized.
pub proof fn law_initialized_mappings_are_written_whole<Region: MappedRegion>(
    mapping: Region,
    layout: RegionLayout,
)
    ensures
        initialization_rejection(mapping, layout) is None <==> mapping.granted() is ReadWrite
            && mapping.mapped_len() == layout.total(),
        initialization_rejection(mapping, layout) matches Some(error)
            ==> error.code is InvalidRange,
{
}

/// Layouts that differ make no channel.
pub proof fn law_unequal_layouts_are_refused(
    outbound: RegionLayout,
    inbound: RegionLayout,
    negotiated: NegotiatedProtocol,
    low_watermark: u32,
    high_watermark: u32,
)
    requires
        outbound.capacity != inbound.capacity || outbound.maximum_inline_message
            != inbound.maximum_inline_message,
    ensures
        attachment_config(
            outbound,
            inbound,
            negotiated,
            low_watermark,
            high_watermark,
        ) matches Err(error) && error.code is InvalidRange,
{
}

} // verus!
