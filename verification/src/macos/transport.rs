//! Protected complete-frame transport of one macOS endpoint, and the renderer data plane on it.

use std::collections::VecDeque;

use vstd::prelude::*;

use crate::bootstrap::schema::{BootstrapEnvelope, EndpointRole, EnvelopeView};
use crate::data_plane::channel::{fragments_tried, message_sent, message_tried, ChannelSend};
use crate::data_plane::channel_transport::{
    hinted, polled_once, transport_waited, ChannelTransport, SignalSender, TransportEvent,
    WakeSource,
};
use crate::data_plane::crypto::{
    cipher_answers, configuration_report, counter_after, direction_for, frame_opening,
    protected_frame, sealing_rejection, CounterView, Direction, EndpointProtection,
    EndpointRole as ProtectionRole, FRAME_OVERHEAD, MAXIMUM_CIPHER_LENGTH, MINIMUM_SECRET_LENGTH,
    REFUSED_CIPHER_LENGTH,
};
use crate::data_plane::flow_control::observed;
use crate::data_plane::fragment::{cut_into, Fragment};
use crate::data_plane::record::RecordKind;
use crate::data_plane::ring_memory::{RingConsumer, RingProducer};
use crate::data_plane::ring_writer::RingWriter;
use crate::domain::error::{plain_outcome, ErrorCode, ErrorReport};
use crate::macos::configuration::{platform_error, platform_report};
use crate::peer::port::{frame_bytes, PortCall, PortTransport};

verus! {

/// Longest wait for a hint while a frame is awaited, in nanoseconds.
pub const RECEIVE_WAIT_NANOS: u128 = 64_000_000;

/// A channel whose messages are protected frames.
pub struct ProtectedChannel<Outbound, Inbound, Sender, Wake> {
    /// The channel.
    pub channel: ChannelTransport<Outbound, Inbound, Sender, Wake>,
    /// Protection of the frames.
    pub protection: EndpointProtection,
    /// Buffered bytes from which on a sender should wait.
    pub high_watermark: u32,
    /// Frames that came while a send was backpressured.
    pub pending_inbound: VecDeque<Vec<u8>>,
    /// Whether the remote endpoint closed.
    pub remote_closed: bool,
}

/// The report of a frame for which the cipher has no keystream and which it does not refuse.
pub open spec fn oversized_frame_report() -> ErrorReport {
    platform_report(ErrorCode::MessageTooLarge, "protect channel frame")
}

/// How publishing one frame changes a protected channel. The counter of the frame is used up only
/// where the frame was published.
pub open spec fn frame_published<Outbound: RingProducer, Inbound: RingConsumer, Sender, Wake>(
    before: ProtectedChannel<Outbound, Inbound, Sender, Wake>,
    after: ProtectedChannel<Outbound, Inbound, Sender, Wake>,
    frame: Seq<u8>,
    published: Result<ChannelSend, ErrorReport>,
) -> bool {
    let sealer = before.protection.outbound@;
    &&& after.protection.inbound == before.protection.inbound
    &&& if !cipher_answers(frame.len()) {
        &&& published == Err::<ChannelSend, ErrorReport>(oversized_frame_report())
        &&& after.protection.outbound == before.protection.outbound
        &&& after.channel.channel == before.channel.channel
    } else if sealing_rejection(sealer.counter, frame.len()) is Some {
        &&& published == Err::<ChannelSend, ErrorReport>(
            sealing_rejection(sealer.counter, frame.len())->0,
        )
        &&& after.protection.outbound == before.protection.outbound
        &&& after.channel.channel == before.channel.channel
    } else {
        &&& message_sent(
            before.channel.channel,
            after.channel.channel,
            protected_frame(sealer.direction, sealer.counter->0, frame),
            published,
        )
        &&& if published is Ok {
            after.protection.outbound@ == (CounterView {
                counter: counter_after(sealer.counter->0),
                ..sealer
            })
        } else {
            after.protection.outbound == before.protection.outbound
        }
    }
}

/// What opening the message of a channel makes of an event: a message comes out of an authentic
/// frame with the expected counter, and nothing else uses a counter up.
pub open spec fn event_opened(
    before: EndpointProtection,
    after: EndpointProtection,
    raw: Result<Option<TransportEvent>, ErrorReport>,
    polled: Result<Option<TransportEvent>, ErrorReport>,
) -> bool {
    &&& after.outbound == before.outbound
    &&& match raw {
        Ok(Some(TransportEvent::Message(protected))) => {
            let opening = frame_opening(
                before.inbound@.direction,
                before.inbound@.counter,
                protected@,
            );
            &&& after.inbound@ == (CounterView { counter: opening.0, ..before.inbound@ })
            &&& match opening.1 {
                Ok(plaintext) => polled matches Ok(Some(TransportEvent::Message(opened)))
                    && opened@ == plaintext,
                Err(error) => polled == Err::<Option<TransportEvent>, ErrorReport>(error),
            }
        },
        _ => polled == raw && after.inbound == before.inbound,
    }
}

/// How far a transport came in a number of waits that brought nothing to hand on.
pub open spec fn waited_idly<
    Outbound: RingProducer,
    Inbound: RingConsumer,
    Sender: SignalSender,
    Wake: WakeSource,
>(
    before: ChannelTransport<Outbound, Inbound, Sender, Wake>,
    after: ChannelTransport<Outbound, Inbound, Sender, Wake>,
    rounds: nat,
) -> bool
    decreases rounds,
{
    if rounds == 0 {
        after == before
    } else {
        exists|
            earlier: ChannelTransport<Outbound, Inbound, Sender, Wake>,
            event: Option<TransportEvent>,
        |
            {
                &&& waited_idly(before, earlier, (rounds - 1) as nat)
                &&& idle_event(event)
                &&& #[trigger] transport_waited(earlier, after, RECEIVE_WAIT_NANOS, Ok(event))
            }
    }
}

/// Whether an event of a channel is nothing that a receiver of frames waits for.
pub open spec fn idle_event(event: Option<TransportEvent>) -> bool {
    match event {
        Some(TransportEvent::Message(_)) => false,
        Some(TransportEvent::Closed) => false,
        Some(TransportEvent::Reset) => false,
        _ => true,
    }
}

impl<
    Outbound: RingProducer,
    Inbound: RingConsumer,
    Sender: SignalSender,
    Wake: WakeSource,
> ProtectedChannel<Outbound, Inbound, Sender, Wake> {
    /// Whether the channel is usable.
    pub open spec fn wf(self) -> bool {
        self.channel.channel.wf()
    }

    /// Everything but the channel and its protection is the same.
    pub open spec fn same_queue(self, other: Self) -> bool {
        &&& self.high_watermark == other.high_watermark
        &&& self.pending_inbound@ == other.pending_inbound@
        &&& self.remote_closed == other.remote_closed
    }

    /// Whether a frame was sent, or failed to be, and its hint was posted where it needs one.
    pub open spec fn frame_sent(
        self,
        after: Self,
        frame: Seq<u8>,
        sent: Result<ChannelSend, ErrorReport>,
    ) -> bool {
        &&& after.same_queue(self)
        &&& after.channel.same_listeners(self.channel)
        &&& exists|published: Result<ChannelSend, ErrorReport>|
            {
                &&& #[trigger] frame_published(self, after, frame, published)
                &&& hinted(
                    self.channel.outbound_sender,
                    after.channel.outbound_sender,
                    published,
                    sent,
                )
                &&& sent is Ok ==> sent == published
            }
    }

    /// Whether one look at the channel came to this, with its message opened.
    pub open spec fn frame_polled(
        self,
        after: Self,
        polled: Result<Option<TransportEvent>, ErrorReport>,
    ) -> bool {
        &&& after.same_queue(self)
        &&& exists|raw: Result<Option<TransportEvent>, ErrorReport>|
            {
                &&& #[trigger] polled_once(self.channel, after.channel, raw)
                &&& event_opened(self.protection, after.protection, raw, polled)
            }
    }

    /// Whether an event that came while sending was kept for the receiver.
    pub open spec fn event_kept(self, after: Self, event: Option<TransportEvent>) -> bool {
        &&& after.channel == self.channel
        &&& after.protection == self.protection
        &&& after.high_watermark == self.high_watermark
        &&& after.pending_inbound@ == match event {
            Some(TransportEvent::Message(message)) => self.pending_inbound@.push(message),
            _ => self.pending_inbound@,
        }
        &&& after.remote_closed == (self.remote_closed || event == Some(TransportEvent::Closed)
            || event == Some(TransportEvent::Reset))
    }

    /// Whether a refused frame was answered after one look at the channel.
    pub open spec fn drained(
        self,
        after: Self,
        refusal: ErrorReport,
        sent: Result<(), ErrorReport>,
    ) -> bool {
        exists|looked: Self, polled: Result<Option<TransportEvent>, ErrorReport>|
            {
                &&& #[trigger] self.frame_polled(looked, polled)
                &&& match polled {
                    Err(error) => after == looked && sent == Err::<(), ErrorReport>(error),
                    Ok(event) => looked.event_kept(after, event) && sent == Err::<(), ErrorReport>(
                        refusal,
                    ),
                }
            }
    }

    /// Whether a frame was sent for a port, or what came was taken in where the channel was
    /// backpressured.
    pub open spec fn frame_sent_or_drained(
        self,
        after: Self,
        frame: Seq<u8>,
        sent: Result<(), ErrorReport>,
    ) -> bool {
        exists|tried: Self, outcome: Result<ChannelSend, ErrorReport>|
            {
                &&& #[trigger] self.frame_sent(tried, frame, outcome)
                &&& match outcome {
                    Ok(_) => after == tried && sent == Ok::<(), ErrorReport>(()),
                    Err(error) => if error.code is Backpressured {
                        tried.drained(after, error, sent)
                    } else {
                        after == tried && sent == Err::<(), ErrorReport>(error)
                    },
                }
            }
    }

    /// What is received without looking at the channel: frames that came before, and nothing from
    /// a closed one. `None` where the channel is looked at.
    pub open spec fn received_early(self) -> Option<(Option<Vec<u8>>, Seq<Vec<u8>>)> {
        if self.pending_inbound@.len() > 0 {
            Some((Some(self.pending_inbound@[0]), self.pending_inbound@.drop_first()))
        } else if self.remote_closed {
            Some((None, self.pending_inbound@))
        } else {
            None
        }
    }

    /// Whether a frame was received without looking at the channel.
    pub open spec fn early_frame_taken(
        self,
        after: Self,
        received: Result<Option<Vec<u8>>, ErrorReport>,
    ) -> bool {
        &&& after.channel == self.channel
        &&& after.protection == self.protection
        &&& after.high_watermark == self.high_watermark
        &&& after.remote_closed == self.remote_closed
        &&& self.received_early() == Some((received->Ok_0, after.pending_inbound@))
        &&& received is Ok
    }

    /// Whether one frame was received, or there was none.
    pub open spec fn frame_received(
        self,
        after: Self,
        received: Result<Option<Vec<u8>>, ErrorReport>,
    ) -> bool {
        if self.received_early() is Some {
            self.early_frame_taken(after, received)
        } else {
            exists|looked: Self, polled: Result<Option<TransportEvent>, ErrorReport>|
                {
                    &&& #[trigger] self.frame_polled(looked, polled)
                    &&& match polled {
                        Err(error) => after == looked && received == Err::<
                            Option<Vec<u8>>,
                            ErrorReport,
                        >(error),
                        Ok(Some(TransportEvent::Message(frame))) => after == looked && received
                            == Ok::<Option<Vec<u8>>, ErrorReport>(Some(frame)),
                        Ok(event) => looked.event_kept(after, event) && received == Ok::<
                            Option<Vec<u8>>,
                            ErrorReport,
                        >(None),
                    }
                }
        }
    }

    /// Whether the wait behind some idle ones brought this event, and the event this frame.
    pub open spec fn frame_after_wait(
        self,
        after: Self,
        rounds: nat,
        idle: ChannelTransport<Outbound, Inbound, Sender, Wake>,
        raw: Result<Option<TransportEvent>, ErrorReport>,
        received: Result<Option<Vec<u8>>, ErrorReport>,
    ) -> bool {
        &&& waited_idly(self.channel, idle, rounds)
        &&& transport_waited(idle, after.channel, RECEIVE_WAIT_NANOS, raw)
        &&& match raw {
            Err(error) => received == Err::<Option<Vec<u8>>, ErrorReport>(error)
                && after.protection == self.protection,
            Ok(Some(TransportEvent::Message(_))) => event_opened(
                self.protection,
                after.protection,
                raw,
                match received {
                    Ok(Some(frame)) => Ok(Some(TransportEvent::Message(frame))),
                    Ok(None) => Ok(None),
                    Err(error) => Err(error),
                },
            ),
            Ok(event) => !idle_event(event) && received == Ok::<Option<Vec<u8>>, ErrorReport>(None)
                && after.protection == self.protection,
        }
    }

    /// Whether a frame was awaited, through waits that brought nothing, until one came, the channel
    /// was closed or a wait failed.
    pub open spec fn frame_awaited(
        self,
        after: Self,
        received: Result<Option<Vec<u8>>, ErrorReport>,
    ) -> bool {
        if self.received_early() is Some {
            self.early_frame_taken(after, received)
        } else {
            &&& after.same_queue(self)
            &&& {
                ||| exists|
                    rounds: nat,
                    idle: ChannelTransport<Outbound, Inbound, Sender, Wake>,
                    raw: Result<Option<TransportEvent>, ErrorReport>,
                | #[trigger]
                    self.frame_after_wait(after, rounds, idle, raw, received)
                ||| waited_idly(self.channel, after.channel, u64::MAX as nat) && received == Ok::<
                    Option<Vec<u8>>,
                    ErrorReport,
                >(None) && after.protection == self.protection
            }
        }
    }

    /// Whether a channel was reset after its close marker could not be sent.
    pub open spec fn reset_instead(
        marked: ChannelTransport<Outbound, Inbound, Sender, Wake>,
        after: ChannelTransport<Outbound, Inbound, Sender, Wake>,
        closed: Result<(), ErrorReport>,
    ) -> bool {
        exists|
            cleared: ChannelTransport<Outbound, Inbound, Sender, Wake>,
            outcome: Result<(), ErrorReport>,
        |
            {
                &&& #[trigger] marked.marker_handed(cleared, RecordKind::Reset, outcome)
                &&& closed == outcome
                &&& if outcome is Ok {
                    cleared.waits_cancelled(after)
                } else {
                    after == cleared
                }
            }
    }

    /// Whether the channel was closed, or reset where the close marker could not be sent, and its
    /// waits were cancelled.
    pub open spec fn channel_closed(self, after: Self, closed: Result<(), ErrorReport>) -> bool {
        &&& after.same_queue(self)
        &&& after.protection == self.protection
        &&& exists|
            marked: ChannelTransport<Outbound, Inbound, Sender, Wake>,
            outcome: Result<(), ErrorReport>,
        |
            {
                &&& #[trigger] self.channel.marker_handed(marked, RecordKind::Close, outcome)
                &&& if outcome is Ok {
                    marked.waits_cancelled(after.channel) && closed is Ok
                } else {
                    Self::reset_instead(marked, after.channel, closed)
                }
            }
    }

    /// Protects a frame, publishes it and posts its hint.
    ///
    /// A frame that was published is sent even where its hint could not be posted.
    pub fn send_frame(&mut self, frame: &[u8]) -> (sent: Result<ChannelSend, ErrorReport>)
        requires
            old(self).wf(),
        ensures
            final(self).wf(),
            old(self).frame_sent(*final(self), frame@, sent),
    {
        if frame.len() as u64 > MAXIMUM_CIPHER_LENGTH && (frame.len() as u64)
            < REFUSED_CIPHER_LENGTH {
            let published: Result<ChannelSend, ErrorReport> = Err(
                platform_error(ErrorCode::MessageTooLarge, "protect channel frame"),
            );
            proof {
                assert(frame_published(*old(self), *self, frame@, published));
            }
            return published;
        }
        let published = match self.protection.prepare(frame) {
            Err(error) => Err(error),
            Ok(pending) => {
                let published = self.channel.channel.send(pending.bytes());
                if published.is_ok() {
                    pending.commit();
                }
                published
            },
        };
        proof {
            assert(frame_published(*old(self), *self, frame@, published));
        }
        let ghost sealed = *self;
        let result = published?;
        let told = self.channel.notify_outbound(result);
        proof {
            assert(frame_published(*old(self), *self, frame@, published)) by {
                assert(self.channel.channel == sealed.channel.channel);
            }
        }
        told?;
        Ok(result)
    }

    /// Opens the next protected message.
    pub fn open_message(&mut self, protected: &[u8]) -> (opened: Result<Vec<u8>, ErrorReport>)
        requires
            protected@.len() >= FRAME_OVERHEAD ==> cipher_answers(
                (protected@.len() - FRAME_OVERHEAD) as nat,
            ),
        ensures
            final(self).channel == old(self).channel,
            final(self).high_watermark == old(self).high_watermark,
            final(self).pending_inbound == old(self).pending_inbound,
            final(self).remote_closed == old(self).remote_closed,
            final(self).protection.outbound == old(self).protection.outbound,
            final(self).protection.inbound@.direction == old(self).protection.inbound@.direction,
            frame_opening(
                old(self).protection.inbound@.direction,
                old(self).protection.inbound@.counter,
                protected@,
            ) == (
                final(self).protection.inbound@.counter,
                match opened {
                    Ok(plaintext) => Ok::<Seq<u8>, ErrorReport>(plaintext@),
                    Err(error) => Err(error),
                },
            ),
    {
        self.protection.open(protected)
    }

    /// Polls the channel, and opens the message that came.
    pub fn poll_channel(&mut self) -> (polled: Result<Option<TransportEvent>, ErrorReport>)
        requires
            old(self).wf(),
        ensures
            final(self).wf(),
            final(self).pending_inbound == old(self).pending_inbound,
            old(self).frame_polled(*final(self), polled),
    {
        let raw = self.channel.poll();
        let ghost seen = raw;
        proof {
            assert(polled_once(old(self).channel, self.channel, seen));
        }
        match raw? {
            Some(TransportEvent::Message(protected)) => {
                let opened = self.open_message(protected.as_slice());
                proof {
                    assert(polled_once(old(self).channel, self.channel, seen));
                }
                match opened {
                    Ok(opened) => Ok(Some(TransportEvent::Message(opened))),
                    Err(error) => Err(error),
                }
            },
            event => Ok(event),
        }
    }

    /// Sends a frame for a port. Where the channel is backpressured, one event is taken in, so that
    /// two endpoints which wait for each other make progress.
    pub fn send_or_drain(&mut self, frame: &[u8]) -> (sent: Result<(), ErrorReport>)
        requires
            old(self).wf(),
        ensures
            final(self).wf(),
            old(self).frame_sent_or_drained(*final(self), frame@, sent),
    {
        let outcome = self.send_frame(frame);
        let ghost tried = *self;
        proof {
            assert(old(self).frame_sent(tried, frame@, outcome));
        }
        match outcome {
            Ok(_) => Ok(()),
            Err(error) => {
                if error.code() == ErrorCode::Backpressured {
                    let polled = self.poll_channel();
                    let ghost looked = *self;
                    proof {
                        assert(tried.frame_polled(looked, polled));
                    }
                    match polled? {
                        Some(TransportEvent::Message(message)) => {
                            self.pending_inbound.push_back(message);
                        },
                        Some(TransportEvent::Closed) => {
                            self.remote_closed = true;
                        },
                        Some(TransportEvent::Reset) => {
                            self.remote_closed = true;
                        },
                        _ => {},
                    }
                }
                Err(error)
            },
        }
    }

    /// Takes a frame that came before, if there is one.
    fn take_pending(&mut self) -> (frame: Option<Vec<u8>>)
        ensures
            final(self).channel == old(self).channel,
            final(self).protection == old(self).protection,
            final(self).high_watermark == old(self).high_watermark,
            final(self).remote_closed == old(self).remote_closed,
            if old(self).pending_inbound@.len() > 0 {
                &&& frame == Some(old(self).pending_inbound@[0])
                &&& final(self).pending_inbound@ == old(self).pending_inbound@.drop_first()
            } else {
                &&& frame is None
                &&& final(self).pending_inbound@ == old(self).pending_inbound@
            },
    {
        self.pending_inbound.pop_front()
    }

    /// Receives one frame, or `None` when no frame is there: frames that came before, in their
    /// order, then what the channel has.
    pub fn receive(&mut self) -> (received: Result<Option<Vec<u8>>, ErrorReport>)
        requires
            old(self).wf(),
        ensures
            final(self).wf(),
            old(self).frame_received(*final(self), received),
    {
        if let Some(frame) = self.take_pending() {
            return Ok(Some(frame));
        }
        if self.remote_closed {
            return Ok(None);
        }
        let ghost ready = *self;
        let polled = self.poll_channel();
        let ghost looked = *self;
        proof {
            assert(ready.frame_polled(looked, polled));
            assert(old(self).frame_polled(looked, polled));
        }
        match polled? {
            Some(TransportEvent::Message(frame)) => Ok(Some(frame)),
            Some(TransportEvent::Closed) => {
                self.remote_closed = true;
                Ok(None)
            },
            Some(TransportEvent::Reset) => {
                self.remote_closed = true;
                Ok(None)
            },
            _ => Ok(None),
        }
    }

    /// Waits for a frame; `None` comes of a closed channel.
    pub fn wait_receive(&mut self) -> (received: Result<Option<Vec<u8>>, ErrorReport>)
        requires
            old(self).wf(),
        ensures
            final(self).wf(),
            old(self).frame_awaited(*final(self), received),
    {
        if let Some(frame) = self.take_pending() {
            return Ok(Some(frame));
        }
        if self.remote_closed {
            return Ok(None);
        }
        let mut rounds: u64 = u64::MAX;
        while rounds > 0
            invariant
                self.wf(),
                self.same_queue(*old(self)),
                self.protection == old(self).protection,
                old(self).received_early() is None,
                waited_idly(old(self).channel, self.channel, (u64::MAX - rounds) as nat),
            decreases rounds,
        {
            let ghost idle = self.channel;
            let ghost passed = (u64::MAX - rounds) as nat;
            let raw = self.channel.wait_timeout(RECEIVE_WAIT_NANOS);
            let ghost seen = raw;
            let event = match raw {
                Ok(event) => event,
                Err(error) => {
                    proof {
                        assert(old(self).frame_after_wait(*self, passed, idle, seen, Err(error)));
                    }
                    return Err(error);
                },
            };
            match event {
                Some(TransportEvent::Message(protected)) => {
                    let opened = self.open_message(protected.as_slice());
                    let received = match opened {
                        Ok(opened) => Ok(Some(opened)),
                        Err(error) => Err(error),
                    };
                    proof {
                        assert(old(self).frame_after_wait(*self, passed, idle, seen, received));
                    }
                    return received;
                },
                Some(TransportEvent::Closed) => {
                    proof {
                        assert(old(self).frame_after_wait(*self, passed, idle, seen, Ok(None)));
                    }
                    return Ok(None);
                },
                Some(TransportEvent::Reset) => {
                    proof {
                        assert(old(self).frame_after_wait(*self, passed, idle, seen, Ok(None)));
                    }
                    return Ok(None);
                },
                _ => {},
            }
            proof {
                assert(transport_waited(idle, self.channel, RECEIVE_WAIT_NANOS, Ok(event)));
                assert(idle_event(event));
                assert(waited_idly(old(self).channel, self.channel, passed + 1));
            }
            rounds = rounds - 1;
        }
        Ok(None)
    }

    /// Closes the channel, or resets it where the close marker cannot be sent, and cancels its
    /// waits.
    pub fn close(&mut self) -> (closed: Result<(), ErrorReport>)
        requires
            old(self).wf(),
        ensures
            final(self).wf(),
            old(self).channel_closed(*final(self), closed),
            closed is Ok ==> final(self).channel.channel.local_closed,
    {
        let marked = self.channel.close();
        proof {
            assert(old(self).channel.marker_handed(self.channel, RecordKind::Close, marked));
        }
        if marked.is_err() {
            let ghost refused = self.channel;
            let cleared = self.channel.reset();
            proof {
                assert(refused.marker_handed(self.channel, RecordKind::Reset, cleared));
            }
            cleared?;
        }
        self.channel.cancel();
        Ok(())
    }
}

/// The protection of a direction that an envelope gives, before its first frame.
pub open spec fn fresh_direction(envelope: EnvelopeView, direction: Direction) -> CounterView {
    CounterView {
        direction: direction_for(
            envelope.secret,
            envelope.session_id,
            envelope.generation,
            direction,
        ),
        counter: Some(0),
    }
}

/// Attaches the protected channel of an endpoint.
///
/// A secret that is too short to derive keys from is rejected.
pub fn protect_channel<
    Outbound: RingProducer,
    Inbound: RingConsumer,
    Sender: SignalSender,
    Wake: WakeSource,
>(
    channel: ChannelTransport<Outbound, Inbound, Sender, Wake>,
    envelope: &BootstrapEnvelope,
    role: EndpointRole,
    high_watermark: u32,
) -> (attached: Result<ProtectedChannel<Outbound, Inbound, Sender, Wake>, ErrorReport>)
    ensures
        match attached {
            Ok(protected) => {
                &&& envelope@.secret.len() >= MINIMUM_SECRET_LENGTH
                &&& protected.channel == channel
                &&& protected.high_watermark == high_watermark
                &&& protected.pending_inbound@.len() == 0
                &&& !protected.remote_closed
                &&& protected.protection.outbound@ == fresh_direction(
                    envelope@,
                    protecting_role(role).sends(),
                )
                &&& protected.protection.inbound@ == fresh_direction(
                    envelope@,
                    protecting_role(role).receives(),
                )
            },
            Err(error) => envelope@.secret.len() < MINIMUM_SECRET_LENGTH && error
                == configuration_report("frame protection secret length"),
        },
{
    let protecting = match role {
        EndpointRole::Renderer => ProtectionRole::Renderer,
        EndpointRole::Peer => ProtectionRole::Peer,
    };
    let protection = EndpointProtection::derive(
        envelope.secret().expose(),
        envelope.session_id(),
        envelope.generation(),
        protecting,
    )?;
    Ok(
        ProtectedChannel {
            channel,
            protection,
            high_watermark,
            pending_inbound: VecDeque::new(),
            remote_closed: false,
        },
    )
}

/// The role that frames are protected for.
pub open spec fn protecting_role(role: EndpointRole) -> ProtectionRole {
    match role {
        EndpointRole::Renderer => ProtectionRole::Renderer,
        EndpointRole::Peer => ProtectionRole::Peer,
    }
}

/// Raw complete-frame transport attached from a validated bootstrap envelope.
pub struct MacosEndpointTransport<Outbound, Inbound, Sender, Wake> where
    Outbound: RingProducer,
    Inbound: RingConsumer,
    Sender: SignalSender,
    Wake: WakeSource,
 {
    attached: Option<ProtectedChannel<Outbound, Inbound, Sender, Wake>>,
    made: Ghost<Seq<PortCall>>,
}

impl<
    Outbound: RingProducer,
    Inbound: RingConsumer,
    Sender: SignalSender,
    Wake: WakeSource,
> MacosEndpointTransport<Outbound, Inbound, Sender, Wake> {
    #[verifier::type_invariant]
    spec fn is_usable(self) -> bool {
        self.attached is Some ==> self.attached->0.wf()
    }

    /// The protected channel, while the transport is not in the middle of an operation.
    pub closed spec fn protected(self) -> Option<
        ProtectedChannel<Outbound, Inbound, Sender, Wake>,
    > {
        self.attached
    }

    /// Attaches a protected channel as a transport of frames.
    pub fn attach(channel: ProtectedChannel<Outbound, Inbound, Sender, Wake>) -> (transport: Self)
        requires
            channel.wf(),
        ensures
            transport.protected() == Some(channel),
            transport.calls() == Seq::<PortCall>::empty(),
    {
        MacosEndpointTransport {
            attached: Some(channel),
            made: Ghost(Seq::empty()),
        }
    }

    /// Waits for a frame; `None` comes of a closed channel.
    pub fn wait_receive(&mut self) -> (received: Result<Option<Vec<u8>>, ErrorReport>)
        ensures
            final(self).calls() == old(self).calls(),
            match old(self).protected() {
                Some(before) => final(self).protected() matches Some(after) && before.frame_awaited(
                    after,
                    received,
                ),
                None => final(self).protected() is None
                    && received == Ok::<Option<Vec<u8>>, ErrorReport>(
                    None,
                ),
            },
    {
        proof {
            use_type_invariant(&*self);
        }
        let mut attached: Option<ProtectedChannel<Outbound, Inbound, Sender, Wake>> = None;
        std::mem::swap(&mut attached, &mut self.attached);
        match attached {
            Some(mut channel) => {
                let received = channel.wait_receive();
                self.attached = Some(channel);
                received
            },
            None => Ok(None),
        }
    }
}

impl<
    Outbound: RingProducer,
    Inbound: RingConsumer,
    Sender: SignalSender,
    Wake: WakeSource,
> PortTransport for MacosEndpointTransport<Outbound, Inbound, Sender, Wake> {
    closed spec fn calls(&self) -> Seq<PortCall> {
        self.made@
    }

    open spec fn sends(&self, frame: Seq<u8>, outcome: Result<(), ErrorReport>) -> bool {
        match self.protected() {
            Some(before) => exists|after: ProtectedChannel<Outbound, Inbound, Sender, Wake>|
                #[trigger] before.frame_sent_or_drained(after, frame, outcome),
            None => outcome == Err::<(), ErrorReport>(
                platform_report(ErrorCode::Closed, "macOS endpoint transport"),
            ),
        }
    }

    open spec fn receives(&self, outcome: Result<Option<Seq<u8>>, ErrorReport>) -> bool {
        match self.protected() {
            Some(before) => exists|
                after: ProtectedChannel<Outbound, Inbound, Sender, Wake>,
                received: Result<Option<Vec<u8>>, ErrorReport>,
            |
                #[trigger] before.frame_received(after, received) && outcome == frame_bytes(
                    received,
                ),
            None => outcome == Ok::<Option<Seq<u8>>, ErrorReport>(None),
        }
    }

    fn send(&mut self, frame: &[u8]) -> (sent: Result<(), ErrorReport>)
        ensures
            match old(self).protected() {
                Some(before) => final(self).protected() matches Some(after)
                    && before.frame_sent_or_drained(
                    after,
                    frame@,
                    sent,
                ),
                None => final(self).protected() is None && sent == Err::<(), ErrorReport>(
                    platform_report(ErrorCode::Closed, "macOS endpoint transport"),
                ),
            },
    {
        proof {
            use_type_invariant(&*self);
        }
        let mut attached: Option<ProtectedChannel<Outbound, Inbound, Sender, Wake>> = None;
        std::mem::swap(&mut attached, &mut self.attached);
        let sent = match attached {
            Some(mut channel) => {
                let sent = channel.send_or_drain(frame);
                self.attached = Some(channel);
                sent
            },
            None => Err(platform_error(ErrorCode::Closed, "macOS endpoint transport")),
        };
        self.made = Ghost(self.made@.push(PortCall::Sent(frame@, plain_outcome(sent))));
        sent
    }

    fn receive(&mut self) -> (received: Result<Option<Vec<u8>>, ErrorReport>)
        ensures
            match old(self).protected() {
                Some(before) => final(self).protected() matches Some(after)
                    && before.frame_received(
                    after,
                    received,
                ),
                None => final(self).protected() is None
                    && received == Ok::<Option<Vec<u8>>, ErrorReport>(
                    None,
                ),
            },
    {
        proof {
            use_type_invariant(&*self);
        }
        let mut attached: Option<ProtectedChannel<Outbound, Inbound, Sender, Wake>> = None;
        std::mem::swap(&mut attached, &mut self.attached);
        let received = match attached {
            Some(mut channel) => {
                let received = channel.receive();
                self.attached = Some(channel);
                received
            },
            None => Ok(None),
        };
        self.made = Ghost(self.made@.push(PortCall::Received(frame_bytes(received))));
        received
    }

    fn close(&mut self) -> (closed: Result<(), ErrorReport>)
        ensures
            match old(self).protected() {
                Some(before) => final(self).protected() matches Some(after)
                    && before.channel_closed(
                    after,
                    closed,
                ),
                None => final(self).protected() is None && closed == Ok::<(), ErrorReport>(()),
            },
    {
        proof {
            use_type_invariant(&*self);
        }
        let mut attached: Option<ProtectedChannel<Outbound, Inbound, Sender, Wake>> = None;
        std::mem::swap(&mut attached, &mut self.attached);
        let closed = match attached {
            Some(mut channel) => {
                let closed = channel.close();
                self.attached = Some(channel);
                closed
            },
            None => Ok(()),
        };
        self.made = Ghost(self.made@.push(PortCall::Released(plain_outcome(closed))));
        closed
    }
}

/// A frame that was sent is counted by the flow control: the bytes that its sender is told of are
/// those that were buffered behind it.
pub proof fn law_sent_frames_are_counted<
    Outbound: RingProducer,
    Inbound: RingConsumer,
    Sender: SignalSender,
    Wake: WakeSource,
>(
    before: ProtectedChannel<Outbound, Inbound, Sender, Wake>,
    after: ProtectedChannel<Outbound, Inbound, Sender, Wake>,
    frame: Seq<u8>,
    sent: ChannelSend,
)
    requires
        before.frame_sent(after, frame, Ok(sent)),
    ensures
        after.channel.channel.flow.buffered == sent.buffered_amount,
        after.high_watermark == before.high_watermark,
        before.protection.outbound@.counter is Some,
        after.protection.outbound@.counter == counter_after(before.protection.outbound@.counter->0),
{
    let published = choose|published: Result<ChannelSend, ErrorReport>|
        {
            &&& #[trigger] frame_published(before, after, frame, published)
            &&& hinted(
                before.channel.outbound_sender,
                after.channel.outbound_sender,
                published,
                Ok::<ChannelSend, ErrorReport>(sent),
            )
            &&& Ok::<ChannelSend, ErrorReport>(sent) == published
        };
    let sealer = before.protection.outbound@;
    let protected = protected_frame(sealer.direction, sealer.counter->0, frame);
    assert(message_sent(before.channel.channel, after.channel.channel, protected, published));
    let (looked, buffered) = choose|looked: RingWriter<Outbound>, buffered: u32| #[trigger]
        message_tried(
            before.channel.channel,
            looked,
            buffered,
            after.channel.channel,
            protected,
            published,
        );
    let flow = observed(before.channel.channel.flow, buffered);
    let fragments = choose|fragments: Seq<Fragment>|
        cut_into(
            fragments,
            protected,
            before.channel.channel.fragmenter.maximum_inline_message as nat,
        ) && #[trigger] fragments_tried(looked, flow, fragments, after.channel.channel, published);
    assert(fragments_tried(looked, flow, fragments, after.channel.channel, published));
}

/// One call at a protected channel, with what it returned.
pub enum EndpointCall {
    /// A frame was sent, or refused.
    Sent(Seq<u8>, Result<(), ErrorReport>),
    /// A frame was received, or none was there.
    Received(Result<Option<Vec<u8>>, ErrorReport>),
    /// A frame was awaited.
    Awaited(Result<Option<Vec<u8>>, ErrorReport>),
}

/// Whether a call took a protected channel from one state to the other.
pub open spec fn endpoint_moved<
    Outbound: RingProducer,
    Inbound: RingConsumer,
    Sender: SignalSender,
    Wake: WakeSource,
>(
    before: ProtectedChannel<Outbound, Inbound, Sender, Wake>,
    call: EndpointCall,
    after: ProtectedChannel<Outbound, Inbound, Sender, Wake>,
) -> bool {
    match call {
        EndpointCall::Sent(frame, sent) => before.frame_sent_or_drained(after, frame, sent),
        EndpointCall::Received(received) => before.frame_received(after, received),
        EndpointCall::Awaited(received) => before.frame_awaited(after, received),
    }
}

/// The frame that a call handed out, if it did.
pub open spec fn frame_handed_out(call: EndpointCall) -> Seq<Vec<u8>> {
    match call {
        EndpointCall::Received(Ok(Some(frame))) => seq![frame],
        EndpointCall::Awaited(Ok(Some(frame))) => seq![frame],
        _ => Seq::empty(),
    }
}

/// The frames that calls handed out, in order.
pub open spec fn frames_handed_out(calls: Seq<EndpointCall>) -> Seq<Vec<u8>>
    decreases calls.len(),
{
    if calls.len() == 0 {
        Seq::empty()
    } else {
        frames_handed_out(calls.drop_last()) + frame_handed_out(calls.last())
    }
}

/// Whether a frame came out of a protected message that the channel gave last.
#[verifier::opaque]
pub open spec fn opened_last<
    Outbound: RingProducer,
    Inbound: RingConsumer,
    Sender: SignalSender,
    Wake: WakeSource,
>(
    before: ProtectedChannel<Outbound, Inbound, Sender, Wake>,
    after: ProtectedChannel<Outbound, Inbound, Sender, Wake>,
    earlier: ChannelTransport<Outbound, Inbound, Sender, Wake>,
    protected: Vec<u8>,
    frame: Vec<u8>,
) -> bool {
    &&& {
        ||| polled_once(earlier, after.channel, Ok(Some(TransportEvent::Message(protected))))
        ||| transport_waited(
            earlier,
            after.channel,
            RECEIVE_WAIT_NANOS,
            Ok(Some(TransportEvent::Message(protected))),
        )
    }
    &&& frame_opening(
        before.protection.inbound@.direction,
        before.protection.inbound@.counter,
        protected@,
    ) == (after.protection.inbound@.counter, Ok::<Seq<u8>, ErrorReport>(frame@))
}

/// Whether these frames, none or one of them, were opened between two states: a counter is used up
/// by every frame that is opened, and by nothing else.
pub open spec fn frames_opened<
    Outbound: RingProducer,
    Inbound: RingConsumer,
    Sender: SignalSender,
    Wake: WakeSource,
>(
    before: ProtectedChannel<Outbound, Inbound, Sender, Wake>,
    after: ProtectedChannel<Outbound, Inbound, Sender, Wake>,
    opened: Seq<Vec<u8>>,
) -> bool {
    &&& after.protection.inbound@.direction == before.protection.inbound@.direction
    &&& {
        ||| opened.len() == 0 && after.protection.inbound@.counter
            == before.protection.inbound@.counter
        ||| opened.len() == 1 && before.protection.inbound@.counter is Some
            && after.protection.inbound@.counter == counter_after(
            before.protection.inbound@.counter->0,
        ) && exists|
            earlier: ChannelTransport<Outbound, Inbound, Sender, Wake>,
            protected: Vec<u8>,
        | #[trigger]
            opened_last(before, after, earlier, protected, opened[0])
    }
}

/// The frames of several calls, one behind the other.
pub open spec fn frames_joined(opened: Seq<Seq<Vec<u8>>>) -> Seq<Vec<u8>>
    decreases opened.len(),
{
    if opened.len() == 0 {
        Seq::empty()
    } else {
        frames_joined(opened.drop_last()) + opened.last()
    }
}

/// No frame is lost, made up or put out of order by one call.
///
/// What the call hands out, followed by the frames that are still queued, is what was queued before
/// it, followed by the frame that was opened meanwhile, if one was; this holds of a refused send
/// too. Exactly the opened frames use up counters.
pub proof fn law_one_call_keeps_every_frame<
    Outbound: RingProducer,
    Inbound: RingConsumer,
    Sender: SignalSender,
    Wake: WakeSource,
>(
    before: ProtectedChannel<Outbound, Inbound, Sender, Wake>,
    call: EndpointCall,
    after: ProtectedChannel<Outbound, Inbound, Sender, Wake>,
) -> (opened: Seq<Vec<u8>>)
    requires
        endpoint_moved(before, call, after),
    ensures
        frames_opened(before, after, opened),
        frame_handed_out(call) + after.pending_inbound@ == before.pending_inbound@ + opened,
        before.remote_closed ==> after.remote_closed,
        after.high_watermark == before.high_watermark,
{
    match call {
        EndpointCall::Sent(frame, sent) => {
            let (tried, outcome) = choose|tried: ProtectedChannel<
                Outbound,
                Inbound,
                Sender,
                Wake,
            >, outcome: Result<ChannelSend, ErrorReport>|
                {
                    &&& #[trigger] before.frame_sent(tried, frame, outcome)
                    &&& match outcome {
                        Ok(_) => after == tried && sent == Ok::<(), ErrorReport>(()),
                        Err(error) => if error.code is Backpressured {
                            tried.drained(after, error, sent)
                        } else {
                            after == tried && sent == Err::<(), ErrorReport>(error)
                        },
                    }
                };
            let published = choose|published: Result<ChannelSend, ErrorReport>|
                #[trigger] frame_published(before, tried, frame, published) && hinted(
                    before.channel.outbound_sender,
                    tried.channel.outbound_sender,
                    published,
                    outcome,
                );
            assert(tried.protection.inbound == before.protection.inbound);
            assert(Seq::<Vec<u8>>::empty() + after.pending_inbound@ =~= after.pending_inbound@);
            if outcome is Err && outcome->Err_0.code is Backpressured {
                let refusal = outcome->Err_0;
                let (looked, polled) = choose|looked: ProtectedChannel<
                    Outbound,
                    Inbound,
                    Sender,
                    Wake,
                >, polled: Result<Option<TransportEvent>, ErrorReport>|
                    {
                        &&& #[trigger] tried.frame_polled(looked, polled)
                        &&& match polled {
                            Err(error) => after == looked && sent == Err::<(), ErrorReport>(error),
                            Ok(event) => looked.event_kept(after, event) && sent == Err::<
                                (),
                                ErrorReport,
                            >(refusal),
                        }
                    };
                let opened = lemma_opened_by_look(before, tried, looked, after, polled);
                if let Ok(event) = polled {
                    lemma_events_are_kept(looked, after, event);
                } else {
                    assert(before.pending_inbound@ + opened =~= after.pending_inbound@);
                }
                opened
            } else {
                assert(before.pending_inbound@ + Seq::<Vec<u8>>::empty()
                    =~= after.pending_inbound@);
                Seq::empty()
            }
        },
        EndpointCall::Received(received) => {
            if before.received_early() is Some {
                lemma_queue_hands_out(before, after, received);
                Seq::empty()
            } else {
                let (looked, polled) = choose|looked: ProtectedChannel<
                    Outbound,
                    Inbound,
                    Sender,
                    Wake,
                >, polled: Result<Option<TransportEvent>, ErrorReport>|
                    {
                        &&& #[trigger] before.frame_polled(looked, polled)
                        &&& match polled {
                            Err(error) => after == looked && received == Err::<
                                Option<Vec<u8>>,
                                ErrorReport,
                            >(error),
                            Ok(Some(TransportEvent::Message(frame))) => after == looked && received
                                == Ok::<Option<Vec<u8>>, ErrorReport>(Some(frame)),
                            Ok(event) => looked.event_kept(after, event) && received == Ok::<
                                Option<Vec<u8>>,
                                ErrorReport,
                            >(None),
                        }
                    };
                let opened = lemma_opened_by_look(before, before, looked, after, polled);
                assert(frame_handed_out(call) + after.pending_inbound@ =~= before.pending_inbound@
                    + opened);
                opened
            }
        },
        EndpointCall::Awaited(received) => {
            if before.received_early() is Some {
                lemma_queue_hands_out(before, after, received);
                Seq::empty()
            } else {
                let opened = lemma_opened_by_wait(before, after, received);
                assert(frame_handed_out(call) + after.pending_inbound@ =~= before.pending_inbound@
                    + opened);
                opened
            }
        },
    }
}

/// The frame of an event, if it is a message.
pub open spec fn frame_of_event(event: Option<TransportEvent>) -> Seq<Vec<u8>> {
    match event {
        Some(TransportEvent::Message(frame)) => seq![frame],
        _ => Seq::empty(),
    }
}

/// An event that is kept queues its frame behind the others.
proof fn lemma_events_are_kept<
    Outbound: RingProducer,
    Inbound: RingConsumer,
    Sender: SignalSender,
    Wake: WakeSource,
>(
    looked: ProtectedChannel<Outbound, Inbound, Sender, Wake>,
    after: ProtectedChannel<Outbound, Inbound, Sender, Wake>,
    event: Option<TransportEvent>,
)
    requires
        looked.event_kept(after, event),
    ensures
        after.pending_inbound@ == looked.pending_inbound@ + frame_of_event(event),
{
    assert(after.pending_inbound@ =~= looked.pending_inbound@ + frame_of_event(event));
}

/// Opening an event uses a counter up exactly where it gives a message.
proof fn lemma_event_opened(
    before: EndpointProtection,
    after: EndpointProtection,
    raw: Result<Option<TransportEvent>, ErrorReport>,
    polled: Result<Option<TransportEvent>, ErrorReport>,
)
    requires
        event_opened(before, after, raw, polled),
    ensures
        after.inbound@.direction == before.inbound@.direction,
        match polled {
            Ok(Some(TransportEvent::Message(frame))) => {
                &&& raw matches Ok(Some(TransportEvent::Message(protected))) && frame_opening(
                    before.inbound@.direction,
                    before.inbound@.counter,
                    protected@,
                ) == (after.inbound@.counter, Ok::<Seq<u8>, ErrorReport>(frame@))
                &&& before.inbound@.counter is Some
                &&& after.inbound@.counter == counter_after(before.inbound@.counter->0)
            },
            _ => after.inbound@.counter == before.inbound@.counter,
        },
{
}

/// The frame that one look at the channel opened, if it did.
proof fn lemma_opened_by_look<
    Outbound: RingProducer,
    Inbound: RingConsumer,
    Sender: SignalSender,
    Wake: WakeSource,
>(
    before: ProtectedChannel<Outbound, Inbound, Sender, Wake>,
    tried: ProtectedChannel<Outbound, Inbound, Sender, Wake>,
    looked: ProtectedChannel<Outbound, Inbound, Sender, Wake>,
    after: ProtectedChannel<Outbound, Inbound, Sender, Wake>,
    polled: Result<Option<TransportEvent>, ErrorReport>,
) -> (opened: Seq<Vec<u8>>)
    requires
        tried.protection.inbound == before.protection.inbound,
        tried.frame_polled(looked, polled),
        after.channel == looked.channel,
        after.protection == looked.protection,
    ensures
        frames_opened(before, after, opened),
        opened == match polled {
            Ok(event) => frame_of_event(event),
            Err(_) => Seq::empty(),
        },
{
    let raw = choose|raw: Result<Option<TransportEvent>, ErrorReport>|
        {
            &&& #[trigger] polled_once(tried.channel, looked.channel, raw)
            &&& event_opened(tried.protection, looked.protection, raw, polled)
        };
    lemma_event_opened(tried.protection, looked.protection, raw, polled);
    match polled {
        Ok(Some(TransportEvent::Message(frame))) => {
            let protected = raw->Ok_0->0->Message_0;
            let opened = seq![frame];
            assert(opened_last(before, after, tried.channel, protected, opened[0])) by {
                reveal(opened_last);
            }
            opened
        },
        _ => Seq::empty(),
    }
}

/// The frame that a wait opened, if it did.
proof fn lemma_opened_by_wait<
    Outbound: RingProducer,
    Inbound: RingConsumer,
    Sender: SignalSender,
    Wake: WakeSource,
>(
    before: ProtectedChannel<Outbound, Inbound, Sender, Wake>,
    after: ProtectedChannel<Outbound, Inbound, Sender, Wake>,
    received: Result<Option<Vec<u8>>, ErrorReport>,
) -> (opened: Seq<Vec<u8>>)
    requires
        before.received_early() is None,
        before.frame_awaited(after, received),
    ensures
        frames_opened(before, after, opened),
        opened == match received {
            Ok(Some(frame)) => seq![frame],
            _ => Seq::empty(),
        },
{
    if exists|
        rounds: nat,
        idle: ChannelTransport<Outbound, Inbound, Sender, Wake>,
        raw: Result<Option<TransportEvent>, ErrorReport>,
    | #[trigger]
        before.frame_after_wait(after, rounds, idle, raw, received) {
        let (rounds, idle, raw) = choose|
            rounds: nat,
            idle: ChannelTransport<Outbound, Inbound, Sender, Wake>,
            raw: Result<Option<TransportEvent>, ErrorReport>,
        | #[trigger]
            before.frame_after_wait(after, rounds, idle, raw, received);
        if raw matches Ok(Some(TransportEvent::Message(_))) {
            lemma_event_opened(
                before.protection,
                after.protection,
                raw,
                match received {
                    Ok(Some(frame)) => Ok(Some(TransportEvent::Message(frame))),
                    Ok(None) => Ok(None),
                    Err(error) => Err(error),
                },
            );
        }
        match received {
            Ok(Some(frame)) => {
                let protected = raw->Ok_0->0->Message_0;
                let opened = seq![frame];
                assert(opened_last(before, after, idle, protected, opened[0])) by {
                    reveal(opened_last);
                }
                opened
            },
            _ => Seq::empty(),
        }
    } else {
        Seq::empty()
    }
}

/// What is received without looking at the channel is the oldest queued frame.
proof fn lemma_queue_hands_out<
    Outbound: RingProducer,
    Inbound: RingConsumer,
    Sender: SignalSender,
    Wake: WakeSource,
>(
    before: ProtectedChannel<Outbound, Inbound, Sender, Wake>,
    after: ProtectedChannel<Outbound, Inbound, Sender, Wake>,
    received: Result<Option<Vec<u8>>, ErrorReport>,
)
    requires
        before.early_frame_taken(after, received),
    ensures
        frames_opened(before, after, Seq::empty()),
        frame_handed_out(EndpointCall::Received(received)) + after.pending_inbound@
            == before.pending_inbound@ + Seq::<Vec<u8>>::empty(),
        frame_handed_out(EndpointCall::Awaited(received)) + after.pending_inbound@
            == before.pending_inbound@ + Seq::<Vec<u8>>::empty(),
{
    let queued = before.pending_inbound@;
    assert(queued + Seq::<Vec<u8>>::empty() =~= queued);
    if queued.len() > 0 {
        assert(seq![queued[0]] + queued.drop_first() =~= queued);
    }
    assert(Seq::<Vec<u8>>::empty() + after.pending_inbound@ =~= after.pending_inbound@);
}

/// No frame is lost, made up or put out of order at an endpoint.
///
/// Over any run of sends and receives the frames that were handed out, followed by those that are
/// still queued, are exactly the frames that were opened from the inbound channel, in the order in
/// which they were opened, those among them that were opened during a refused send.
pub proof fn law_an_endpoint_keeps_every_frame<
    Outbound: RingProducer,
    Inbound: RingConsumer,
    Sender: SignalSender,
    Wake: WakeSource,
>(
    moments: Seq<ProtectedChannel<Outbound, Inbound, Sender, Wake>>,
    calls: Seq<EndpointCall>,
) -> (opened: Seq<Seq<Vec<u8>>>)
    requires
        moments.len() == calls.len() + 1,
        moments[0].pending_inbound@.len() == 0,
        forall|index: int|
            0 <= index < calls.len() ==> endpoint_moved(
                moments[index],
                #[trigger] calls[index],
                moments[index + 1],
            ),
    ensures
        opened.len() == calls.len(),
        forall|index: int|
            0 <= index < calls.len() ==> frames_opened(
                moments[index],
                moments[index + 1],
                #[trigger] opened[index],
            ),
        frames_handed_out(calls) + moments.last().pending_inbound@ == frames_joined(opened),
    decreases calls.len(),
{
    if calls.len() == 0 {
        assert(frames_handed_out(calls) + moments.last().pending_inbound@
            =~= Seq::<Vec<u8>>::empty());
        Seq::empty()
    } else {
        let earlier = moments.drop_last();
        let fewer = calls.drop_last();
        let last = calls.len() - 1;
        assert forall|index: int| 0 <= index < fewer.len() implies endpoint_moved(
            earlier[index],
            #[trigger] fewer[index],
            earlier[index + 1],
        ) by {
            assert(fewer[index] == calls[index]);
        }
        let known = law_an_endpoint_keeps_every_frame(earlier, fewer);
        assert(endpoint_moved(moments[last], calls[last], moments[last + 1]));
        let fresh = law_one_call_keeps_every_frame(moments[last], calls[last], moments[last + 1]);
        let opened = known.push(fresh);
        assert(opened.drop_last() =~= known);
        assert forall|index: int| 0 <= index < calls.len() implies frames_opened(
            moments[index],
            moments[index + 1],
            #[trigger] opened[index],
        ) by {
            if index < last {
                assert(opened[index] == known[index]);
            }
        }
        let handed = frames_handed_out(fewer);
        assert(frames_handed_out(calls) + moments.last().pending_inbound@ =~= handed + (
        frame_handed_out(calls.last()) + moments.last().pending_inbound@));
        assert(handed + (earlier.last().pending_inbound@ + fresh) =~= (handed
            + earlier.last().pending_inbound@) + fresh);
        opened
    }
}

/// A channel that the other side closed hands its queued frames out, and nothing behind them.
///
/// It is not looked at any more, and a receive from it never fails.
pub proof fn law_closed_channels_hand_out_their_queue<
    Outbound: RingProducer,
    Inbound: RingConsumer,
    Sender: SignalSender,
    Wake: WakeSource,
>(
    before: ProtectedChannel<Outbound, Inbound, Sender, Wake>,
    after: ProtectedChannel<Outbound, Inbound, Sender, Wake>,
    received: Result<Option<Vec<u8>>, ErrorReport>,
)
    requires
        before.remote_closed,
        before.frame_received(after, received) || before.frame_awaited(after, received),
    ensures
        received is Ok,
        received->Ok_0 is None <==> before.pending_inbound@.len() == 0,
        after.channel == before.channel,
        after.protection == before.protection,
{
}

/// A channel that is closed tries to tell its end before anything else, and keeps every frame that
/// waits in it.
pub proof fn law_closing_channels_tell_their_end<
    Outbound: RingProducer,
    Inbound: RingConsumer,
    Sender: SignalSender,
    Wake: WakeSource,
>(
    before: ProtectedChannel<Outbound, Inbound, Sender, Wake>,
    after: ProtectedChannel<Outbound, Inbound, Sender, Wake>,
    closed: Result<(), ErrorReport>,
)
    requires
        before.channel_closed(after, closed),
    ensures
        after.same_queue(before),
        after.protection == before.protection,
        exists|
            marked: ChannelTransport<Outbound, Inbound, Sender, Wake>,
            outcome: Result<(), ErrorReport>,
        | #[trigger]
            before.channel.marker_handed(marked, RecordKind::Close, outcome),
{
}

} // verus!
