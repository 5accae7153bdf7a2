//! Two connected endpoints: what one of them sent comes out of the other.
//!
//! The ring between two endpoints stands behind a lock, so no contract says what it holds between
//! two calls. Here a run of calls is given with the ring of each moment. The ring answers every
//! access of both endpoints, and nothing else changes it.

use vstd::prelude::*;

use crate::data_plane::channel::{
    event_received, excess_published, fragments_tried, message_sent, message_tried, opened,
    received_from_any, ChannelConfig, ChannelEndpoint, ChannelSend, EventView,
};
use crate::data_plane::channel_model::{
    lane_holds, lemma_empty_ring, lemma_next_message, lemma_receiving_advances, lemma_sent,
    parcel_records, ChannelLane, Parcel,
};
use crate::data_plane::flow_control::observed;
use crate::data_plane::fragment::{cut_into, Fragment};
use crate::data_plane::record::RecordKind;
use crate::data_plane::ring_core::cursor_distance;
use crate::data_plane::ring_memory::{
    access_failed, accesses_added, cursors_seen, lemma_accesses_added, MemoryOperation, RingAccess,
    RingConsumer, RingProducer,
};
use crate::data_plane::ring_model::{
    changes, law_unpublished_writes_are_not_seen, lemma_changes_since, lemma_replayed_applies,
    lemma_replayed_none, lemma_replayed_onward, lemma_replayed_push, replayed, since, RingModel,
    RingRecord,
};
use crate::data_plane::ring_writer::{planned_batch, unpublished, RingWriter};
use crate::domain::error::ErrorReport;
use crate::domain::types::{message_id_view_of, MessageId};

verus! {

/// The ring behind what an endpoint did to its outbound ring, where the ring was `ring` at first
/// and nothing else moved it; `None` where it would have answered otherwise.
pub open spec fn outbound_ring<Outbound: RingProducer, Inbound: RingConsumer>(
    before: ChannelEndpoint<Outbound, Inbound>,
    after: ChannelEndpoint<Outbound, Inbound>,
    ring: RingModel,
) -> Option<RingModel> {
    replayed(ring, since(before.writer.memory.accesses(), after.writer.memory.accesses()))
}

/// Whether an endpoint sends on the lane: by its limits and its position.
pub open spec fn feeds<Outbound: RingProducer, Inbound: RingConsumer>(
    sender: ChannelEndpoint<Outbound, Inbound>,
    lane: ChannelLane,
) -> bool {
    &&& sender.wf()
    &&& lane.ring.capacity == sender.writer.memory.capacity_of()
    &&& lane.ring.capacity == sender.flow.capacity
    &&& lane.sequence == sender.writer.next_sequence
    &&& lane.maximum_inline_message == sender.fragmenter.maximum_inline_message
    &&& lane.maximum_message == sender.fragmenter.maximum_message
}

/// What was published made of the ring what the lane has behind the message.
proof fn lemma_published_on_lane<Outbound: RingProducer, Inbound: RingConsumer>(
    before: ChannelEndpoint<Outbound, Inbound>,
    after: ChannelEndpoint<Outbound, Inbound>,
    looked: RingWriter<Outbound>,
    fragments: Seq<Fragment>,
    payload: Seq<u8>,
    producer: u32,
    consumer: u32,
    lane: ChannelLane,
)
    requires
        feeds(before, lane),
        lane.ring.wf(),
        before.writer.only_looked(looked),
        looked.batch_published(after.writer, RecordKind::Data, fragments, producer, consumer),
        accesses_added(
            looked.memory.accesses(),
            after.writer.memory.accesses(),
        ),
        outbound_ring(before, after, lane.ring) is Some,
    ensures
        lane.sent(
            Parcel {
                message_id: MessageId::of(before.writer.next_message_id as u64),
                fragments,
                payload,
            },
        ) == Ok::<ChannelLane, ErrorReport>(
            ChannelLane {
                ring: outbound_ring(before, after, lane.ring)->0,
                sequence: after.writer.next_sequence,
                ..lane
            },
        ),
        after.writer.memory.operations().last() matches MemoryOperation::Publish(published)
            && planned_batch(
            lane.ring.snapshot(),
            MessageId::of(before.writer.next_message_id as u64),
            lane.sequence,
            RecordKind::Data,
            fragments,
        ) matches Ok((_, end)) && published == end.producer,
{
    let ring = lane.ring;
    let first = before.writer.memory.accesses();
    let middle = looked.memory.accesses();
    let last = after.writer.memory.accesses();
    before.writer.memory.operations_are_changes();
    looked.memory.operations_are_changes();
    after.writer.memory.operations_are_changes();
    lemma_changes_since(first, middle);
    lemma_accesses_added(first, middle, last);
    lemma_changes_since(first, last);
    assert(changes(since(first, middle)) =~= Seq::<MemoryOperation>::empty());
    lemma_replayed_onward(ring, first, middle, last);
    lemma_replayed_applies(ring, since(first, middle));
    lemma_first_answers(ring, middle, last, producer, consumer);
    lemma_replayed_applies(ring, since(first, last));
    let message_id = MessageId::of(before.writer.next_message_id as u64);
    if let Ok((writes, end)) = planned_batch(
        ring.snapshot(),
        message_id,
        lane.sequence,
        RecordKind::Data,
        fragments,
    ) {
        let done = changes(first);
        let added = changes(since(first, last));
        let publish = MemoryOperation::Publish(end.producer);
        assert(done + added == done + writes + seq![publish]);
        assert(added =~= (done + added).subrange(
            done.len() as int,
            (done + added).len() as int,
        ));
        assert(writes.push(publish) =~= (done + writes + seq![publish]).subrange(
            done.len() as int,
            (done + added).len() as int,
        ));
    }
}

/// The cursors that are loaded first are those of the ring.
proof fn lemma_first_answers(
    ring: RingModel,
    before: Seq<RingAccess>,
    after: Seq<RingAccess>,
    producer: u32,
    consumer: u32,
)
    requires
        accesses_added(before, after),
        cursors_seen(before, after, producer, consumer),
        replayed(ring, since(before, after)) is Some,
    ensures
        producer == ring.producer,
        consumer == ring.consumer,
{
    let one = before.push(RingAccess::Producer(Ok(producer)));
    let two = one.push(RingAccess::Consumer(Ok(consumer)));
    assert(accesses_added(before, two));
    assert(accesses_added(two, after));
    lemma_replayed_onward(ring, before, two, after);
    lemma_replayed_none(ring, before);
    lemma_replayed_push(ring, before, before, RingAccess::Producer(Ok(producer)));
    lemma_replayed_push(ring, before, one, RingAccess::Consumer(Ok(consumer)));
}

/// A message that was sent enters the lane behind the others, whole.
pub proof fn law_a_sent_message_enters_the_lane<Outbound: RingProducer, Inbound: RingConsumer>(
    before: ChannelEndpoint<Outbound, Inbound>,
    after: ChannelEndpoint<Outbound, Inbound>,
    payload: Seq<u8>,
    result: ChannelSend,
    lane: ChannelLane,
)
    requires
        feeds(before, lane),
        lane.ring.wf(),
        message_sent(before, after, payload, Ok(result)),
        outbound_ring(before, after, lane.ring) is Some,
    ensures
        exists|parcel: Parcel|
            parcel.payload == payload && #[trigger] lane.admits(parcel)
                && lane.sent(parcel) == Ok::<
                ChannelLane,
                ErrorReport,
            >(
                ChannelLane {
                    ring: outbound_ring(before, after, lane.ring)->0,
                    sequence: after.writer.next_sequence,
                    ..lane
                },
            ),
        after.flow.capacity == before.flow.capacity,
{
    let sent: Result<ChannelSend, ErrorReport> = Ok(result);
    let (looked, buffered) = choose|looked: RingWriter<Outbound>, buffered: u32| #[trigger]
        message_tried(before, looked, buffered, after, payload, sent);
    let flow = observed(before.flow, buffered);
    let fragments = choose|fragments: Seq<Fragment>|
        cut_into(fragments, payload, before.fragmenter.maximum_inline_message as nat)
            && #[trigger] fragments_tried(looked, flow, fragments, after, sent);
    let (producer, consumer) = choose|producer: u32, consumer: u32|
        {
            &&& #[trigger] looked.batch_published(
                after.writer,
                RecordKind::Data,
                fragments,
                producer,
                consumer,
            )
            &&& result.notify == (cursor_distance(consumer, producer) == 0)
            &&& after.writer.memory.operations().last() matches MemoryOperation::Publish(published)
                && after.writer.remainder_seen(published, result.buffered_amount)
        };
    lemma_published_on_lane(
        before,
        after,
        looked,
        fragments,
        payload,
        producer,
        consumer,
        lane,
    );
    message_id_view_of(before.writer.next_message_id as u64);
    let parcel = Parcel {
        message_id: MessageId::of(before.writer.next_message_id as u64),
        fragments,
        payload,
    };
    assert(lane.admits(parcel));
}

/// Whether a message that was refused left the lane as it was, but for bytes that no reader sees.
pub open spec fn left_alone(before: RingModel, after: RingModel, lane: ChannelLane) -> bool {
    &&& after.wf()
    &&& after == (RingModel { bytes: after.bytes, ..before })
    &&& after.records(lane.maximum_inline_message, lane.expected) == before.records(
        lane.maximum_inline_message,
        lane.expected,
    )
}

/// A message that was refused leaves nothing on the lane.
pub proof fn law_a_refused_message_leaves_nothing<Outbound: RingProducer, Inbound: RingConsumer>(
    before: ChannelEndpoint<Outbound, Inbound>,
    after: ChannelEndpoint<Outbound, Inbound>,
    payload: Seq<u8>,
    error: ErrorReport,
    lane: ChannelLane,
    parcels: Seq<Parcel>,
)
    requires
        feeds(before, lane),
        lane_holds(lane, parcels),
        lane.ring.cursors_are_linear(),
        message_sent(before, after, payload, Err(error)),
        outbound_ring(before, after, lane.ring) is Some,
    ensures
        left_alone(lane.ring, outbound_ring(before, after, lane.ring)->0, lane),
        after.writer.next_sequence == before.writer.next_sequence,
        after.flow.capacity == before.flow.capacity,
{
    let sent: Result<ChannelSend, ErrorReport> = Err(error);
    let nothing = Seq::<MemoryOperation>::empty();
    assert(unpublished(nothing));
    if before.local_closed || before.remote_closed {
        assert(before.writer.memory.operations() + nothing =~= before.writer.memory.operations());
        lemma_only_written(before, after, lane, nothing);
    } else if before.writer.only_looked(after.writer) && after.flow == before.flow {
        assert(before.writer.memory.operations() + nothing =~= before.writer.memory.operations());
        lemma_only_written(before, after, lane, nothing);
    } else {
        let (looked, buffered) = choose|looked: RingWriter<Outbound>, buffered: u32| #[trigger]
            message_tried(before, looked, buffered, after, payload, sent);
        let flow = observed(before.flow, buffered);
        if after.writer == looked {
            assert(before.writer.memory.operations() + nothing
                =~= before.writer.memory.operations());
            lemma_only_written(before, after, lane, nothing);
        } else {
            let fragments = choose|fragments: Seq<Fragment>|
                cut_into(fragments, payload, before.fragmenter.maximum_inline_message as nat)
                    && #[trigger] fragments_tried(looked, flow, fragments, after, sent);
            if looked.nothing_published(after.writer) {
                let extra = choose|extra: Seq<MemoryOperation>|
                    #[trigger] unpublished(extra) && after.writer.memory.operations()
                        == looked.memory.operations() + extra;
                lemma_only_written(before, after, lane, extra);
            } else if access_failed(
                looked.memory.accesses(),
                after.writer.memory.accesses(),
                error,
            ) {
                lemma_failures_are_not_answered(
                    lane.ring,
                    before.writer.memory.accesses(),
                    after.writer.memory.accesses(),
                    error,
                );
            } else {
                let (producer, consumer, remaining) = choose|
                    producer: u32,
                    consumer: u32,
                    remaining: u32,
                | #[trigger]
                    excess_published(
                        looked,
                        after.writer,
                        flow,
                        fragments,
                        producer,
                        consumer,
                        remaining,
                    );
                lemma_published_on_lane(
                    before,
                    after,
                    looked,
                    fragments,
                    payload,
                    producer,
                    consumer,
                    lane,
                );
                message_id_view_of(before.writer.next_message_id as u64);
                let parcel = Parcel {
                    message_id: MessageId::of(before.writer.next_message_id as u64),
                    fragments,
                    payload,
                };
                assert(lane.admits(parcel));
                lemma_sent(lane, parcels, parcel);
                lemma_count_fits(before, after, lane, remaining);
            }
        }
    }
}

/// No ring answers with a failure.
proof fn lemma_failures_are_not_answered(
    ring: RingModel,
    before: Seq<RingAccess>,
    after: Seq<RingAccess>,
    error: ErrorReport,
)
    requires
        accesses_added(before, after),
        access_failed(before, after, error),
    ensures
        replayed(ring, since(before, after)) is None,
{
    let earlier = after.drop_last();
    assert(earlier.push(after.last()) =~= after);
    lemma_replayed_push(ring, before, earlier, after.last());
}

/// Writes without a publication leave the lane as it was.
proof fn lemma_only_written<Outbound: RingProducer, Inbound: RingConsumer>(
    before: ChannelEndpoint<Outbound, Inbound>,
    after: ChannelEndpoint<Outbound, Inbound>,
    lane: ChannelLane,
    extra: Seq<MemoryOperation>,
)
    requires
        lane.ring.wf(),
        lane.ring.cursors_are_linear(),
        lane.ring.records(lane.maximum_inline_message, lane.expected) is Some,
        accesses_added(before.writer.memory.accesses(), after.writer.memory.accesses()),
        unpublished(extra),
        after.writer.memory.operations() == before.writer.memory.operations() + extra,
        outbound_ring(before, after, lane.ring) is Some,
    ensures
        left_alone(lane.ring, outbound_ring(before, after, lane.ring)->0, lane),
{
    let first = before.writer.memory.accesses();
    let last = after.writer.memory.accesses();
    before.writer.memory.operations_are_changes();
    after.writer.memory.operations_are_changes();
    lemma_changes_since(first, last);
    let done = changes(first);
    let added = changes(since(first, last));
    assert(added =~= (done + added).subrange(done.len() as int, (done + added).len() as int));
    assert(extra =~= (done + extra).subrange(done.len() as int, (done + extra).len() as int));
    lemma_replayed_applies(lane.ring, since(first, last));
    law_unpublished_writes_are_not_seen(
        lane.ring,
        extra,
        lane.maximum_inline_message,
        lane.expected,
    );
}

/// The bytes that are counted behind a message fit the ring.
proof fn lemma_count_fits<Outbound: RingProducer, Inbound: RingConsumer>(
    before: ChannelEndpoint<Outbound, Inbound>,
    after: ChannelEndpoint<Outbound, Inbound>,
    lane: ChannelLane,
    remaining: u32,
)
    requires
        accesses_added(before.writer.memory.accesses(), after.writer.memory.accesses()),
        before.writer.memory.accesses().len() < after.writer.memory.accesses().len(),
        outbound_ring(before, after, lane.ring) matches Some(end) && end.wf()
            && after.writer.remainder_seen(end.producer, remaining),
    ensures
        remaining <= (outbound_ring(before, after, lane.ring)->0).capacity,
{
    let first = before.writer.memory.accesses();
    let last = after.writer.memory.accesses();
    let earlier = last.drop_last();
    assert(earlier.push(last.last()) =~= last);
    lemma_replayed_push(lane.ring, first, earlier, last.last());
}

/// Two endpoints, and what the ring from the one to the other holds.
pub struct PairMoment {
    /// Endpoint that writes the ring.
    pub sender: ChannelEndpoint,
    /// Endpoint that reads the ring.
    pub receiver: ChannelEndpoint,
    /// The ring between them.
    pub ring: RingModel,
}

/// One call of one of the endpoints, with what it returned.
pub enum PairStep {
    /// The sender was given a message.
    Sent(Seq<u8>, Result<ChannelSend, ErrorReport>),
    /// The receiver was asked for the next event.
    Received(Result<Option<EventView>, ErrorReport>),
    /// The receiver was given a message for the sender.
    Replied(Seq<u8>, Result<ChannelSend, ErrorReport>),
    /// The sender was asked for the next event.
    Heard(Result<Option<EventView>, ErrorReport>),
}

/// Whether a call took a pair from one moment to the other, as its contract says, and the ring
/// between the endpoints answered it.
pub open spec fn pair_moved(before: PairMoment, step: PairStep, after: PairMoment) -> bool {
    match step {
        PairStep::Sent(payload, sent) => {
            &&& message_sent(before.sender, after.sender, payload, sent)
            &&& after.receiver == before.receiver
            &&& outbound_ring(before.sender, after.sender, before.ring) == Some(after.ring)
        },
        PairStep::Received(answer) => {
            &&& event_received(before.receiver, after.receiver, answer)
            &&& after.sender == before.sender
            &&& replayed(
                before.ring,
                since(
                    before.receiver.reader.memory.accesses(),
                    after.receiver.reader.memory.accesses(),
                ),
            ) == Some(after.ring)
        },
        PairStep::Replied(payload, sent) => {
            &&& message_sent(before.receiver, after.receiver, payload, sent)
            &&& after.sender == before.sender
            &&& after.ring == before.ring
        },
        PairStep::Heard(answer) => {
            &&& event_received(before.sender, after.sender, answer)
            &&& after.receiver == before.receiver
            &&& after.ring == before.ring
        },
    }
}

/// Whether calls took a pair that was just made through these moments. Cursors that no longer stand
/// at consecutive offsets end a run.
pub open spec fn pair_run(
    config: ChannelConfig,
    moments: Seq<PairMoment>,
    steps: Seq<PairStep>,
) -> bool {
    &&& moments.len() == steps.len() + 1
    &&& opened(config, Ok((moments[0].sender, moments[0].receiver)))
    &&& moments[0].ring.wf()
    &&& moments[0].ring.capacity == config.capacity
    &&& moments[0].ring.producer == 0
    &&& moments[0].ring.consumer == 0
    &&& forall|index: int|
        0 <= index < moments.len() ==> (#[trigger] moments[index]).ring.cursors_are_linear()
    &&& forall|index: int|
        0 <= index < steps.len() ==> pair_moved(
            moments[index],
            #[trigger] steps[index],
            moments[index + 1],
        )
}

/// The messages that were sent and not refused, in order.
pub open spec fn sent_messages(steps: Seq<PairStep>) -> Seq<Seq<u8>>
    decreases steps.len(),
{
    if steps.len() == 0 {
        Seq::empty()
    } else {
        match steps.last() {
            PairStep::Sent(payload, Ok(_)) => sent_messages(steps.drop_last()).push(payload),
            _ => sent_messages(steps.drop_last()),
        }
    }
}

/// The events that the receiver returned, in order.
pub open spec fn returned_events(steps: Seq<PairStep>) -> Seq<EventView>
    decreases steps.len(),
{
    if steps.len() == 0 {
        Seq::empty()
    } else {
        match steps.last() {
            PairStep::Received(Ok(Some(event))) => returned_events(steps.drop_last()).push(event),
            _ => returned_events(steps.drop_last()),
        }
    }
}

/// Whether the endpoints are connected and go by the same limits.
pub open spec fn pair_ready(moment: PairMoment) -> bool {
    &&& feeds(moment.sender, lane_of(moment))
    &&& moment.receiver.wf()
    &&& moment.receiver.inbound_limits_agree()
    &&& moment.receiver.reader.memory.capacity_of() == moment.ring.capacity
    &&& moment.sender.sends_to(moment.receiver)
}

/// The direction from the sender to the receiver.
pub open spec fn lane_of(moment: PairMoment) -> ChannelLane {
    moment.receiver.lane(moment.ring, moment.sender.writer.next_sequence)
}

/// What one endpoint sent comes out of the other, first in, first out.
///
/// The endpoints are those of one in-process channel. However sends and receives of both follow
/// each other, the events that the receiver returned are the first messages that the sender took,
/// each of them whole; messages that were refused are not among them. The next receive returns the
/// oldest message not yet received, and nothing where every message was. The endpoints stay
/// connected.
pub proof fn law_connected_endpoints_are_first_in_first_out(
    config: ChannelConfig,
    moments: Seq<PairMoment>,
    steps: Seq<PairStep>,
)
    requires
        pair_run(config, moments, steps),
    ensures
        ({
            let sent = sent_messages(steps);
            let received = returned_events(steps);
            &&& received.len() <= sent.len()
            &&& forall|index: int|
                0 <= index < received.len() ==> #[trigger] received[index] == EventView::Message(
                    sent[index],
                )
            &&& forall|after: PairMoment, answer: Result<Option<EventView>, ErrorReport>|
                #[trigger] pair_moved(moments.last(), PairStep::Received(answer), after)
                    && after.ring.cursors_are_linear() ==> answer == Ok::<
                    Option<EventView>,
                    ErrorReport,
                >(
                    if received.len() < sent.len() {
                        Some(EventView::Message(sent[received.len() as int]))
                    } else {
                        None
                    },
                )
            &&& moments.last().sender.sends_to(moments.last().receiver)
        }),
{
    let parcels = lemma_pair(config, moments, steps);
    let sent = sent_messages(steps);
    let received = returned_events(steps);
    let last = moments.last();
    assert forall|after: PairMoment, answer: Result<Option<EventView>, ErrorReport>|
        #[trigger] pair_moved(last, PairStep::Received(answer), after)
            && after.ring.cursors_are_linear() implies answer == Ok::<
        Option<EventView>,
        ErrorReport,
    >(
        if received.len() < sent.len() {
            Some(EventView::Message(sent[received.len() as int]))
        } else {
            None
        },
    ) by {
        lemma_pair_received(last, after, answer, parcels);
        if parcels.len() > 0 {
            assert(parcels[0].payload == sent[received.len() as int]);
        }
    }
}

/// A receive returns the oldest message on the lane, and takes it away.
proof fn lemma_pair_received(
    before: PairMoment,
    after: PairMoment,
    answer: Result<Option<EventView>, ErrorReport>,
    parcels: Seq<Parcel>,
)
    requires
        pair_ready(before),
        lane_holds(lane_of(before), parcels),
        before.ring.cursors_are_linear(),
        after.ring.cursors_are_linear(),
        pair_moved(before, PairStep::Received(answer), after),
    ensures
        pair_ready(after),
        if parcels.len() == 0 {
            answer == Ok::<Option<EventView>, ErrorReport>(None) && lane_holds(
                lane_of(after),
                parcels,
            )
        } else {
            answer == Ok::<Option<EventView>, ErrorReport>(
                Some(EventView::Message(parcels[0].payload)),
            ) && lane_holds(lane_of(after), parcels.subrange(1, parcels.len() as int))
        },
{
    reveal(received_from_any);
    let sequence = before.sender.writer.next_sequence;
    let lane = before.receiver.lane(before.ring, sequence);
    assert(before.receiver.may_face(after.receiver, before.ring));
    assert(lane.received() == (lane_of(after), answer));
    lemma_next_message(lane, parcels);
    lemma_receiving_advances(lane);
}

/// A pair stays as it was made, and the lane holds what was sent and not yet received.
proof fn lemma_pair<'a>(
    config: ChannelConfig,
    moments: Seq<PairMoment>,
    steps: Seq<PairStep>,
) -> (parcels: Seq<Parcel<'a>>)
    requires
        pair_run(config, moments, steps),
    ensures
        ({
            let sent = sent_messages(steps);
            let received = returned_events(steps);
            &&& pair_ready(moments.last())
            &&& lane_holds(lane_of(moments.last()), parcels)
            &&& received.len() + parcels.len() == sent.len()
            &&& forall|index: int|
                0 <= index < received.len() ==> #[trigger] received[index] == EventView::Message(
                    sent[index],
                )
            &&& forall|index: int|
                0 <= index < parcels.len() ==> (#[trigger] parcels[index]).payload
                    == sent[received.len() + index]
        }),
    decreases steps.len(),
{
    if steps.len() == 0 {
        let moment = moments[0];
        let lane = lane_of(moment);
        lemma_empty_ring(lane.ring, lane.maximum_inline_message, lane.expected);
        assert(parcel_records(Seq::<Parcel>::empty(), lane.expected)
            =~= Seq::<RingRecord>::empty());
        Seq::empty()
    } else {
        let earlier = steps.drop_last();
        let states = moments.drop_last();
        assert forall|index: int| 0 <= index < earlier.len() implies pair_moved(
            states[index],
            #[trigger] earlier[index],
            states[index + 1],
        ) by {
            assert(earlier[index] == steps[index]);
        }
        let parcels = lemma_pair(config, states, earlier);
        let last = steps.len() - 1;
        let before = moments[last];
        let after = moments[last + 1];
        assert(states.last() == before);
        assert(pair_moved(before, steps[last], after));
        let lane = lane_of(before);
        match steps[last] {
            PairStep::Sent(payload, Ok(result)) => {
                law_a_sent_message_enters_the_lane(
                    before.sender,
                    after.sender,
                    payload,
                    result,
                    lane,
                );
                let parcel = choose|parcel: Parcel|
                    parcel.payload == payload && #[trigger] lane.admits(parcel) && lane.sent(parcel)
                        == Ok::<ChannelLane, ErrorReport>(lane_of(after));
                lemma_sent(lane, parcels, parcel);
                parcels.push(parcel)
            },
            PairStep::Sent(payload, Err(error)) => {
                law_a_refused_message_leaves_nothing(
                    before.sender,
                    after.sender,
                    payload,
                    error,
                    lane,
                    parcels,
                );
                parcels
            },
            PairStep::Received(answer) => {
                lemma_pair_received(before, after, answer, parcels);
                if parcels.len() == 0 {
                    parcels
                } else {
                    parcels.subrange(1, parcels.len() as int)
                }
            },
            PairStep::Replied(_, _) => parcels,
            PairStep::Heard(_) => parcels,
        }
    }
}

} // verus!
