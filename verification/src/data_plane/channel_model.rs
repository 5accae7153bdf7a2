//! One direction of a channel: messages come out whole, in the order in which they were sent.

use vstd::prelude::*;

use crate::data_plane::channel::{
    interpreted, interpreted_all, law_a_message_comes_out_as_it_went_in, EventView,
};
use crate::data_plane::fragment::{
    cut_into, law_pieces_join_to_the_payload, limits_agree, Fragment, PartialView,
};
use crate::data_plane::record::RecordKind;
use crate::data_plane::ring_core::cursor_distance;
use crate::data_plane::ring_memory::MemoryOperation;
use crate::data_plane::ring_model::{
    batch_records, fragments_fit, item_ahead, law_send_appends_a_batch, lemma_capacity_stays,
    lemma_item_taken,
    record_taken, RingModel, RingRecord,
};
use crate::data_plane::ring_reader::{lemma_record_taken, CommittedItem};
use crate::data_plane::ring_writer::{planned_batch, sequence_after};
use crate::domain::error::ErrorReport;
use crate::domain::types::{MessageId, Sequence};

verus! {

/// The ring between a sending and a receiving endpoint, and where the two stand.
pub struct ChannelLane {
    /// Ring that the sender writes and the receiver reads.
    pub ring: RingModel,
    /// Sequence of the next record to be sent.
    pub sequence: Sequence,
    /// Sequence of the next record to be received.
    pub expected: Sequence,
    /// What the receiver holds of an incomplete message.
    pub partial: Option<PartialView>,
    /// Largest payload of one record.
    pub maximum_inline_message: u32,
    /// Largest message.
    pub maximum_message: u32,
}

/// A message with the pieces that it is sent in.
pub struct Parcel<'a> {
    /// Identity of the message.
    pub message_id: MessageId,
    /// Pieces in order.
    pub fragments: Seq<Fragment<'a>>,
    /// The message.
    pub payload: Seq<u8>,
}

/// One call of an endpoint that succeeded, with what it returned.
pub enum LaneStep<'a> {
    /// A message was sent.
    Sent(Parcel<'a>),
    /// The receiver was asked for the next event.
    Received(Result<Option<EventView>, ErrorReport>),
}

impl ChannelLane {
    /// Whether a parcel is one message within the limits, cut as the sender cuts it.
    pub open spec fn admits(self, parcel: Parcel) -> bool {
        &&& parcel.message_id@ != 0
        &&& parcel.payload.len() <= self.maximum_message
        &&& cut_into(parcel.fragments, parcel.payload, self.maximum_inline_message as nat)
    }

    /// The lane behind a message that was sent, or why it was not.
    pub open spec fn sent(self, parcel: Parcel) -> Result<ChannelLane, ErrorReport> {
        match planned_batch(
            self.ring.snapshot(),
            parcel.message_id,
            self.sequence,
            RecordKind::Data,
            parcel.fragments,
        ) {
            Ok((writes, end)) => Ok(
                ChannelLane {
                    ring: self.ring.apply_all(writes.push(MemoryOperation::Publish(end.producer))),
                    sequence: sequence_after(self.sequence, parcel.fragments.len()),
                    ..self
                },
            ),
            Err(error) => Err(error),
        }
    }

    /// What one record means to the receiver.
    #[verifier::opaque]
    pub open spec fn meaning_of(self, partial: Option<PartialView>, record: RingRecord) -> (
        Option<PartialView>,
        Result<Option<EventView>, ErrorReport>,
    ) {
        interpreted(
            self.maximum_message > self.maximum_inline_message,
            self.maximum_inline_message,
            self.maximum_message,
            partial,
            record.header,
            record.payload,
        )
    }

    /// The lane behind the next event, and the event: records are taken one after the other until
    /// one is an event, or the ring is empty, or a record is rejected.
    pub open spec fn received(self) -> (ChannelLane, Result<Option<EventView>, ErrorReport>)
        decreases self.ring.snapshot().used,
    {
        let taken = record_taken(self.ring, self.maximum_inline_message, self.expected);
        let read = ChannelLane { ring: taken.0, expected: taken.1, ..self };
        match taken.2 {
            Err(error) => (read, Err(error)),
            Ok(None) => (read, Ok(None)),
            Ok(Some(record)) => {
                let meaning = self.meaning_of(self.partial, record);
                let behind = ChannelLane { partial: meaning.0, ..read };
                if meaning.1 == Ok::<Option<EventView>, ErrorReport>(None)
                    && behind.ring.snapshot().used < self.ring.snapshot().used {
                    behind.received()
                } else {
                    (behind, meaning.1)
                }
            },
        }
    }

    /// How many records the first event takes, what is incomplete behind it, and the event.
    pub open spec fn first_event(
        self,
        partial: Option<PartialView>,
        records: Seq<RingRecord>,
    ) -> (nat, Option<PartialView>, Result<Option<EventView>, ErrorReport>)
        decreases records.len(),
    {
        if records.len() == 0 {
            (0, partial, Ok(None))
        } else {
            let meaning = self.meaning_of(partial, records[0]);
            if meaning.1 == Ok::<Option<EventView>, ErrorReport>(None) {
                let later = self.first_event(
                    meaning.0,
                    records.subrange(1, records.len() as int),
                );
                (later.0 + 1, later.1, later.2)
            } else {
                (1, meaning.0, meaning.1)
            }
        }
    }
}

/// The records of several messages.
pub open spec fn parcel_records(parcels: Seq<Parcel>, sequence: Sequence) -> Seq<RingRecord>
    decreases parcels.len(),
{
    if parcels.len() == 0 {
        Seq::empty()
    } else {
        let first = parcels[0];
        batch_records(first.message_id, sequence, RecordKind::Data, first.fragments)
            + parcel_records(
            parcels.subrange(1, parcels.len() as int),
            sequence_after(sequence, first.fragments.len()),
        )
    }
}

/// Whether a lane holds exactly these messages, and the receiver none of their records.
pub open spec fn lane_holds(lane: ChannelLane, parcels: Seq<Parcel>) -> bool {
    let held = parcel_records(parcels, lane.expected);
    &&& lane.ring.wf()
    &&& lane.ring.consumer % 8 == 0
    &&& lane.ring.producer % 8 == 0
    &&& limits_agree(lane.maximum_inline_message, lane.maximum_message)
    &&& lane.partial is None
    &&& lane.sequence == sequence_after(lane.expected, held.len())
    &&& lane.ring.records(lane.maximum_inline_message, lane.expected) == Some(held)
    &&& forall|index: int| 0 <= index < parcels.len() ==> lane.admits(#[trigger] parcels[index])
}

/// Whether a call took a lane from one state to the other.
pub open spec fn lane_moved(before: ChannelLane, step: LaneStep, after: ChannelLane) -> bool {
    match step {
        LaneStep::Sent(parcel) => before.admits(parcel) && before.sent(parcel) == Ok::<
            ChannelLane,
            ErrorReport,
        >(after),
        LaneStep::Received(answer) => before.received() == (after, answer),
    }
}

/// Whether calls took an empty lane through these states. Cursors that no longer stand at
/// consecutive offsets end a run.
pub open spec fn lane_run(lanes: Seq<ChannelLane>, steps: Seq<LaneStep>) -> bool {
    &&& lanes.len() == steps.len() + 1
    &&& lanes[0].ring.wf()
    &&& lanes[0].ring.producer == lanes[0].ring.consumer
    &&& lanes[0].ring.consumer % 8 == 0
    &&& limits_agree(lanes[0].maximum_inline_message, lanes[0].maximum_message)
    &&& lanes[0].partial is None
    &&& lanes[0].sequence == lanes[0].expected
    &&& forall|index: int|
        0 <= index < lanes.len() ==> (#[trigger] lanes[index]).ring.cursors_are_linear()
    &&& forall|index: int|
        0 <= index < steps.len() ==> lane_moved(
            lanes[index],
            #[trigger] steps[index],
            lanes[index + 1],
        )
}

/// The messages that were sent, in order.
pub open spec fn sent_parcels<'a>(steps: Seq<LaneStep<'a>>) -> Seq<Parcel<'a>>
    decreases steps.len(),
{
    if steps.len() == 0 {
        Seq::empty()
    } else {
        match steps.last() {
            LaneStep::Sent(parcel) => sent_parcels(steps.drop_last()).push(parcel),
            _ => sent_parcels(steps.drop_last()),
        }
    }
}

/// The events that were received, in order.
pub open spec fn received_events(steps: Seq<LaneStep>) -> Seq<EventView>
    decreases steps.len(),
{
    if steps.len() == 0 {
        Seq::empty()
    } else {
        match steps.last() {
            LaneStep::Received(Ok(Some(event))) => received_events(steps.drop_last()).push(event),
            _ => received_events(steps.drop_last()),
        }
    }
}

/// Messages are first in, first out.
///
/// However sends and receives follow each other, the events received are the first messages sent,
/// each of them whole. The next receive returns the oldest message not yet received, and nothing
/// where every message was.
pub proof fn law_messages_are_first_in_first_out(lanes: Seq<ChannelLane>, steps: Seq<LaneStep>)
    requires
        lane_run(lanes, steps),
    ensures
        ({
            let sent = sent_parcels(steps);
            let received = received_events(steps);
            let lane = lanes.last();
            &&& received.len() <= sent.len()
            &&& forall|index: int|
                0 <= index < received.len() ==> #[trigger] received[index] == EventView::Message(
                    sent[index].payload,
                )
            &&& lane.received().0.ring.cursors_are_linear() ==> lane.received().1 == Ok::<
                Option<EventView>,
                ErrorReport,
            >(
                if received.len() < sent.len() {
                    Some(EventView::Message(sent[received.len() as int].payload))
                } else {
                    None
                },
            )
        }),
{
    lemma_run(lanes, steps);
    let sent = sent_parcels(steps);
    let received = received_events(steps);
    if lanes.last().received().0.ring.cursors_are_linear() {
        lemma_next_message(
            lanes.last(),
            sent.subrange(received.len() as int, sent.len() as int),
        );
    }
}

/// A lane holds the messages that were sent and not yet received.
proof fn lemma_run(lanes: Seq<ChannelLane>, steps: Seq<LaneStep>)
    requires
        lane_run(lanes, steps),
    ensures
        ({
            let sent = sent_parcels(steps);
            let received = received_events(steps);
            &&& received.len() <= sent.len()
            &&& forall|index: int|
                0 <= index < received.len() ==> #[trigger] received[index] == EventView::Message(
                    sent[index].payload,
                )
            &&& lane_holds(
                lanes.last(),
                sent.subrange(received.len() as int, sent.len() as int),
            )
        }),
    decreases steps.len(),
{
    if steps.len() == 0 {
        let lane = lanes[0];
        assert(sent_parcels(steps).subrange(0, 0) =~= Seq::<Parcel>::empty());
        lemma_empty_ring(lane.ring, lane.maximum_inline_message, lane.expected);
    } else {
        let earlier = steps.drop_last();
        let states = lanes.drop_last();
        assert forall|index: int| 0 <= index < earlier.len() implies lane_moved(
            states[index],
            #[trigger] earlier[index],
            states[index + 1],
        ) by {
            assert(earlier[index] == steps[index]);
        }
        lemma_run(states, earlier);
        let last = steps.len() - 1;
        let before = lanes[last];
        let after = lanes[last + 1];
        assert(states.last() == before);
        assert(lane_moved(before, steps[last], after));
        let sent = sent_parcels(earlier);
        let received = received_events(earlier);
        let pending = sent.subrange(received.len() as int, sent.len() as int);
        match steps[last] {
            LaneStep::Sent(parcel) => {
                lemma_sent(before, pending, parcel);
                assert(sent.push(parcel).subrange(received.len() as int, sent.len() as int + 1)
                    =~= pending.push(parcel));
            },
            LaneStep::Received(_) => {
                lemma_next_message(before, pending);
                if pending.len() > 0 {
                    assert(pending[0] == sent[received.len() as int]);
                    assert(sent.subrange(received.len() as int + 1, sent.len() as int)
                        =~= pending.subrange(1, pending.len() as int));
                }
            },
        }
    }
}

/// A ring without committed bytes holds no record.
pub proof fn lemma_empty_ring(ring: RingModel, maximum_inline_message: u32, expected: Sequence)
    requires
        ring.wf(),
        ring.producer == ring.consumer,
    ensures
        ring.records(maximum_inline_message, expected) == Some(Seq::<RingRecord>::empty()),
{
    reveal(crate::data_plane::ring_model::step_at);
}

/// A message that is sent is behind those that the lane holds.
pub proof fn lemma_sent(lane: ChannelLane, parcels: Seq<Parcel>, parcel: Parcel)
    requires
        lane_holds(lane, parcels),
        lane.ring.cursors_are_linear(),
        lane.admits(parcel),
        lane.sent(parcel) is Ok,
    ensures
        lane_holds(lane.sent(parcel)->Ok_0, parcels.push(parcel)),
        lane.sent(parcel)->Ok_0.ring.capacity == lane.ring.capacity,
        planned_batch(
            lane.ring.snapshot(),
            parcel.message_id,
            lane.sequence,
            RecordKind::Data,
            parcel.fragments,
        ) matches Ok((_, end)) && lane.sent(parcel)->Ok_0.ring.producer == end.producer,
{
    if let Ok((writes, end)) = planned_batch(
        lane.ring.snapshot(),
        parcel.message_id,
        lane.sequence,
        RecordKind::Data,
        parcel.fragments,
    ) {
        lemma_capacity_stays(lane.ring, writes.push(MemoryOperation::Publish(end.producer)));
    }
    let after = lane.sent(parcel)->Ok_0;
    let held = parcel_records(parcels, lane.expected);
    law_pieces_join_to_the_payload(parcel.payload, lane.maximum_inline_message as nat);
    assert(fragments_fit(parcel.fragments, lane.maximum_inline_message));
    law_send_appends_a_batch(
        lane.ring,
        parcel.message_id,
        RecordKind::Data,
        parcel.fragments,
        lane.maximum_inline_message,
        lane.expected,
    );
    lemma_parcels_push(parcels, parcel, lane.expected);
    lemma_sequence_sum(lane.expected, held.len(), parcel.fragments.len());
    law_a_message_comes_out_as_it_went_in(
        lane.maximum_inline_message,
        lane.maximum_message,
        parcel.message_id,
        lane.sequence,
        parcel.payload,
        parcel.fragments,
    );
    let grown = parcels.push(parcel);
    assert forall|index: int| 0 <= index < grown.len() implies after.admits(
        #[trigger] grown[index],
    ) by {
        if index < parcels.len() {
            assert(lane.admits(parcels[index]));
        }
    }
}

/// The next event is the oldest message that the lane holds.
pub proof fn lemma_next_message(lane: ChannelLane, parcels: Seq<Parcel>)
    requires
        lane_holds(lane, parcels),
        lane.ring.cursors_are_linear(),
        lane.received().0.ring.cursors_are_linear(),
    ensures
        ({
            let (after, answer) = lane.received();
            if parcels.len() == 0 {
                answer == Ok::<Option<EventView>, ErrorReport>(None) && lane_holds(after, parcels)
            } else {
                &&& answer == Ok::<Option<EventView>, ErrorReport>(
                    Some(EventView::Message(parcels[0].payload)),
                )
                &&& lane_holds(after, parcels.subrange(1, parcels.len() as int))
            }
        }),
{
    reveal(ChannelLane::meaning_of);
    let held = parcel_records(parcels, lane.expected);
    lemma_received(lane);
    if parcels.len() == 0 {
        assert(held.subrange(0, 0) =~= held);
    } else {
        let first = parcels[0];
        let later = parcels.subrange(1, parcels.len() as int);
        let batch = batch_records(
            first.message_id,
            lane.expected,
            RecordKind::Data,
            first.fragments,
        );
        let count = batch.len();
        assert(lane.admits(first));
        law_a_message_comes_out_as_it_went_in(
            lane.maximum_inline_message,
            lane.maximum_message,
            first.message_id,
            lane.expected,
            first.payload,
            first.fragments,
        );
        let rest = parcel_records(later, sequence_after(lane.expected, count));
        assert(held == batch + rest);
        lemma_first_event(lane, held, batch, (count - 1) as nat);
        let last = held.subrange(count - 1, held.len() as int);
        assert(last[0] == batch.last());
        assert(batch.drop_last() =~= batch.subrange(0, count - 1));
        assert(held.subrange(count as int, held.len() as int) =~= rest);
        lemma_sequence_sum(lane.expected, count, rest.len());
        let after = lane.received().0;
        assert forall|index: int| 0 <= index < later.len() implies after.admits(
            #[trigger] later[index],
        ) by {
            assert(lane.admits(parcels[index + 1]));
        }
    }
}

/// Records that are no event lead to the event of the records behind them.
proof fn lemma_first_event(
    lane: ChannelLane,
    records: Seq<RingRecord>,
    batch: Seq<RingRecord>,
    count: nat,
)
    requires
        count < batch.len() <= records.len(),
        forall|index: int| 0 <= index < batch.len() ==> records[index] == #[trigger] batch[index],
        forall|index: int|
            0 <= index < batch.len() ==> interpreted_all(
                lane.maximum_message > lane.maximum_inline_message,
                lane.maximum_inline_message,
                lane.maximum_message,
                None,
                #[trigger] batch.subrange(0, index),
            ).1 == Ok::<Option<EventView>, ErrorReport>(None),
    ensures
        ({
            let partial = interpreted_all(
                lane.maximum_message > lane.maximum_inline_message,
                lane.maximum_inline_message,
                lane.maximum_message,
                None,
                batch.subrange(0, count as int),
            ).0;
            let later = lane.first_event(
                partial,
                records.subrange(count as int, records.len() as int),
            );
            lane.first_event(None, records) == (later.0 + count, later.1, later.2)
        }),
    decreases count,
{
    reveal(ChannelLane::meaning_of);
    if count == 0 {
        assert(records.subrange(0, records.len() as int) =~= records);
    } else {
        let earlier = (count - 1) as nat;
        lemma_first_event(lane, records, batch, earlier);
        let tail = records.subrange(earlier as int, records.len() as int);
        let prefix = batch.subrange(0, count as int);
        assert(prefix.drop_last() =~= batch.subrange(0, earlier as int));
        assert(prefix.last() == batch[earlier as int]);
        assert(tail[0] == batch[earlier as int]);
        assert(tail.subrange(1, tail.len() as int) =~= records.subrange(
            count as int,
            records.len() as int,
        ));
    }
}

/// A reader takes the first record that a ring holds.
#[verifier::spinoff_prover]
proof fn lemma_taken(ring: RingModel, maximum_inline_message: u32, expected: Sequence)
    requires
        ring.wf(),
        ring.consumer % 8 == 0,
        ring.cursors_are_linear(),
        ring.records(maximum_inline_message, expected) is Some,
        record_taken(ring, maximum_inline_message, expected).0.cursors_are_linear(),
    ensures
        ({
            let held = ring.records(maximum_inline_message, expected)->0;
            let (read, behind, found) = record_taken(ring, maximum_inline_message, expected);
            &&& read.wf()
            &&& read.consumer % 8 == 0
            &&& if held.len() == 0 {
                &&& found == Ok::<Option<RingRecord>, ErrorReport>(None)
                &&& behind == expected
                &&& read.records(maximum_inline_message, expected) == Some(held)
            } else {
                &&& found == Ok::<Option<RingRecord>, ErrorReport>(Some(held[0]))
                &&& behind == expected.next()
                &&& read.snapshot().used < ring.snapshot().used
                &&& read.records(maximum_inline_message, behind) == Some(
                    held.subrange(1, held.len() as int),
                )
            }
        }),
    decreases ring.snapshot().used,
{
    lemma_item_taken(ring, maximum_inline_message, expected);
    if let Ok(CommittedItem::Padding(receipt)) = item_ahead(
        ring,
        maximum_inline_message,
        expected,
    ) {
        let read = ring.apply(MemoryOperation::Consume(receipt.next()));
        lemma_taking_advances(read, maximum_inline_message, expected);
        lemma_stays_linear(
            ring,
            read,
            record_taken(read, maximum_inline_message, expected).0,
        );
        lemma_taken(read, maximum_inline_message, expected);
    }
}

/// Receiving takes the records of the first event from the ring.
#[verifier::spinoff_prover]
#[verifier::rlimit(50)]
proof fn lemma_received(lane: ChannelLane)
    requires
        lane.ring.wf(),
        lane.ring.consumer % 8 == 0,
        lane.ring.cursors_are_linear(),
        lane.ring.records(lane.maximum_inline_message, lane.expected) is Some,
        lane.received().0.ring.cursors_are_linear(),
    ensures
        ({
            let held = lane.ring.records(lane.maximum_inline_message, lane.expected)->0;
            let event = lane.first_event(lane.partial, held);
            let (after, answer) = lane.received();
            &&& event.0 <= held.len()
            &&& answer == event.2
            &&& after == (ChannelLane {
                ring: RingModel { consumer: after.ring.consumer, ..lane.ring },
                expected: sequence_after(lane.expected, event.0),
                partial: event.1,
                ..lane
            })
            &&& after.ring.wf()
            &&& after.ring.consumer % 8 == 0
            &&& after.ring.records(lane.maximum_inline_message, after.expected) == Some(
                held.subrange(event.0 as int, held.len() as int),
            )
        }),
    decreases lane.ring.snapshot().used,
{
    let held = lane.ring.records(lane.maximum_inline_message, lane.expected)->0;
    let taken = record_taken(lane.ring, lane.maximum_inline_message, lane.expected);
    lemma_taking_advances(lane.ring, lane.maximum_inline_message, lane.expected);
    lemma_receive_starts(lane);
    lemma_taken(lane.ring, lane.maximum_inline_message, lane.expected);
    if held.len() == 0 {
        assert(held.subrange(0, 0) =~= held);
    } else {
        let meaning = lane.meaning_of(lane.partial, held[0]);
        let behind = ChannelLane {
            ring: taken.0,
            expected: taken.1,
            partial: meaning.0,
            ..lane
        };
        let rest = held.subrange(1, held.len() as int);
        if meaning.1 == Ok::<Option<EventView>, ErrorReport>(None) {
            lemma_received(behind);
            lemma_same_limits(lane, behind, meaning.0, rest);
            let count = behind.first_event(meaning.0, rest).0;
            assert(rest.subrange(count as int, rest.len() as int) =~= held.subrange(
                count as int + 1,
                held.len() as int,
            ));
        } else {
            assert(sequence_after(lane.expected, 1) == lane.expected.next()) by {
                reveal_with_fuel(sequence_after, 2);
            }
        }
    }
}

/// Where cursors stand at consecutive offsets before and behind a receive, they do so behind its
/// first record.
proof fn lemma_receive_starts(lane: ChannelLane)
    requires
        lane.ring.wf(),
        lane.ring.cursors_are_linear(),
        lane.received().0.ring.cursors_are_linear(),
    ensures
        record_taken(
            lane.ring,
            lane.maximum_inline_message,
            lane.expected,
        ).0.cursors_are_linear(),
{
    let taken = record_taken(lane.ring, lane.maximum_inline_message, lane.expected);
    lemma_taking_advances(lane.ring, lane.maximum_inline_message, lane.expected);
    if let Ok(Some(record)) = taken.2 {
        let meaning = lane.meaning_of(lane.partial, record);
        let behind = ChannelLane {
            ring: taken.0,
            expected: taken.1,
            partial: meaning.0,
            ..lane
        };
        lemma_receiving_advances(behind);
    }
}

/// What is received depends on the limits of a lane alone.
proof fn lemma_same_limits(
    left: ChannelLane,
    right: ChannelLane,
    partial: Option<PartialView>,
    records: Seq<RingRecord>,
)
    requires
        left.maximum_inline_message == right.maximum_inline_message,
        left.maximum_message == right.maximum_message,
    ensures
        left.first_event(partial, records) == right.first_event(partial, records),
    decreases records.len(),
{
    reveal(ChannelLane::meaning_of);
    if records.len() > 0 {
        lemma_same_limits(
            left,
            right,
            left.meaning_of(partial, records[0]).0,
            records.subrange(1, records.len() as int),
        );
    }
}

/// Cursors that stand at consecutive offsets at first and at last do so in between.
proof fn lemma_stays_linear(ring: RingModel, read: RingModel, end: RingModel)
    requires
        ring.wf(),
        ring.cursors_are_linear(),
        read == (RingModel { consumer: read.consumer, ..ring }),
        cursor_distance(ring.consumer, read.consumer) <= ring.snapshot().used,
        end.cursors_are_linear(),
        end.capacity == ring.capacity,
        read.consumer <= read.producer ==> read.consumer <= end.consumer,
    ensures
        read.cursors_are_linear(),
{
}

/// Taking a record changes nothing but the consumer, which moves forward.
proof fn lemma_taking_advances(ring: RingModel, maximum_inline_message: u32, expected: Sequence)
    ensures
        ({
            let read = record_taken(ring, maximum_inline_message, expected).0;
            &&& read == (RingModel { consumer: read.consumer, ..ring })
            &&& ring.consumer <= ring.producer ==> ring.consumer <= read.consumer <= ring.producer
        }),
    decreases ring.snapshot().used,
{
    if let Ok(CommittedItem::Padding(receipt)) = item_ahead(
        ring,
        maximum_inline_message,
        expected,
    ) {
        let read = ring.apply(MemoryOperation::Consume(receipt.next()));
        if read.snapshot().used < ring.snapshot().used {
            lemma_taking_advances(read, maximum_inline_message, expected);
        }
    }
}

/// A receive changes nothing of the ring but the consumer, which moves forward.
pub proof fn lemma_receiving_advances(lane: ChannelLane)
    ensures
        ({
            let read = lane.received().0.ring;
            &&& read == (RingModel { consumer: read.consumer, ..lane.ring })
            &&& lane.ring.consumer <= lane.ring.producer ==> lane.ring.consumer <= read.consumer
        }),
    decreases lane.ring.snapshot().used,
{
    let taken = record_taken(lane.ring, lane.maximum_inline_message, lane.expected);
    lemma_taking_advances(lane.ring, lane.maximum_inline_message, lane.expected);
    if let Ok(Some(record)) = taken.2 {
        let meaning = lane.meaning_of(lane.partial, record);
        let behind = ChannelLane {
            ring: taken.0,
            expected: taken.1,
            partial: meaning.0,
            ..lane
        };
        if meaning.1 == Ok::<Option<EventView>, ErrorReport>(None)
            && behind.ring.snapshot().used < lane.ring.snapshot().used {
            lemma_receiving_advances(behind);
        }
    }
}

/// The records of one more message stand behind those of the others.
proof fn lemma_parcels_push(parcels: Seq<Parcel>, parcel: Parcel, sequence: Sequence)
    ensures
        ({
            let held = parcel_records(parcels, sequence);
            parcel_records(parcels.push(parcel), sequence) == held + batch_records(
                parcel.message_id,
                sequence_after(sequence, held.len()),
                RecordKind::Data,
                parcel.fragments,
            )
        }),
    decreases parcels.len(),
{
    let all = parcels.push(parcel);
    let held = parcel_records(parcels, sequence);
    if parcels.len() == 0 {
        assert(all.subrange(1, 1) =~= Seq::<Parcel>::empty());
        assert(parcel_records(Seq::<Parcel>::empty(), sequence_after(
            sequence,
            parcel.fragments.len(),
        )) =~= Seq::<RingRecord>::empty());
        assert(parcel_records(all, sequence) =~= held + batch_records(
            parcel.message_id,
            sequence,
            RecordKind::Data,
            parcel.fragments,
        ));
    } else {
        let first = parcels[0];
        let rest = parcels.subrange(1, parcels.len() as int);
        let behind = sequence_after(sequence, first.fragments.len());
        let batch = batch_records(
            first.message_id,
            sequence,
            RecordKind::Data,
            first.fragments,
        );
        lemma_parcels_push(rest, parcel, behind);
        lemma_batch_len(first.message_id, sequence, first.fragments);
        lemma_sequence_sum(
            sequence,
            first.fragments.len(),
            parcel_records(rest, behind).len(),
        );
        assert(all.subrange(1, all.len() as int) =~= rest.push(parcel));
        assert(all[0] == first);
        assert(parcel_records(all, sequence) =~= held + batch_records(
            parcel.message_id,
            sequence_after(sequence, held.len()),
            RecordKind::Data,
            parcel.fragments,
        ));
    }
}

/// A message is sent in one record for each piece.
proof fn lemma_batch_len(message_id: MessageId, sequence: Sequence, fragments: Seq<Fragment>)
    ensures
        batch_records(message_id, sequence, RecordKind::Data, fragments).len() == fragments.len(),
    decreases fragments.len(),
{
    if fragments.len() > 0 {
        lemma_batch_len(
            message_id,
            sequence.next(),
            fragments.subrange(1, fragments.len() as int),
        );
    }
}

/// Sequences advance by as many records as are counted.
proof fn lemma_sequence_sum(sequence: Sequence, first: nat, second: nat)
    ensures
        sequence_after(sequence_after(sequence, first), second) == sequence_after(
            sequence,
            first + second,
        ),
    decreases first,
{
    if first > 0 {
        lemma_sequence_sum(sequence.next(), (first - 1) as nat, second);
    }
}

/// One record that is taken leads to the event, or to what is received behind it.
pub proof fn lemma_received_onward(lane: ChannelLane)
    requires
        lane.ring.wf(),
    ensures
        ({
            let (end, expected, found) = record_taken(
                lane.ring,
                lane.maximum_inline_message,
                lane.expected,
            );
            let read = ChannelLane { ring: end, expected, ..lane };
            &&& end.wf()
            &&& end.capacity == lane.ring.capacity
            &&& match found {
                Err(error) => lane.received() == (
                    read,
                    Err::<Option<EventView>, ErrorReport>(error),
                ),
                Ok(None) => lane.received() == (read, Ok::<Option<EventView>, ErrorReport>(None)),
                Ok(Some(record)) => {
                    let meaning = interpreted(
                        lane.maximum_message > lane.maximum_inline_message,
                        lane.maximum_inline_message,
                        lane.maximum_message,
                        lane.partial,
                        record.header,
                        record.payload,
                    );
                    let behind = ChannelLane { partial: meaning.0, ..read };
                    &&& end.snapshot().used < lane.ring.snapshot().used
                    &&& lane.received() == if meaning.1 == Ok::<Option<EventView>, ErrorReport>(
                        None,
                    ) {
                        behind.received()
                    } else {
                        (behind, meaning.1)
                    }
                },
            }
        }),
{
    reveal(ChannelLane::meaning_of);
    lemma_record_taken(lane.ring, lane.maximum_inline_message, lane.expected);
}

} // verus!
