//! Renderer data-plane adapter on a protected channel, after the common HELLO/ACK handshake.

use vstd::prelude::*;
use vstd::slice::slice_to_vec;

use crate::bootstrap::schema::{
    consumer_rejection, BootstrapEnvelope, EndpointRole, EnvelopeView,
};
use crate::data_plane::channel::ChannelSend;
use crate::data_plane::channel_transport::{SignalSender, TransportEvent, WakeSource};
use crate::data_plane::record::RecordKind;
use crate::data_plane::ring_memory::{RingConsumer, RingProducer};
use crate::data_plane::ring_writer::amount_told;
use crate::domain::bytes::{copy_range, push_bytes};
use crate::domain::capabilities::{
    RequestedCapabilities, RequiredCapabilities, TransportCapabilities,
};
use crate::domain::error::{ErrorCode, ErrorReport};
use crate::domain::types::{Generation, SessionId};
use crate::macos::configuration::{
    decode_memory, memory_bundle_decoded, platform_error, platform_report,
    production_capabilities, production_capability_bits,
};
use crate::macos::transport::{law_sent_frames_are_counted, ProtectedChannel};
use crate::peer::port::{CLOSE_KIND, DATA_KIND};
use crate::protocol::{
    acknowledgement, hello_bytes, offer_rejection, EndpointRole as HandshakeRole, HandshakeIdentity,
    InitiatorConfig, InitiatorHandshake, NegotiatedProtocol, ProtocolVersion, VersionRange,
};
use crate::renderer::{RendererEvent, RendererTransport, SendDisposition, TransportDiagnostics};

verus! {

/// Expected renderer identity selected by the control plane.
#[derive(Clone, Copy, PartialEq, Eq, Structural)]
pub struct RendererExpectation {
    /// Expected session identity.
    pub session_id: SessionId,
    /// Expected current resource generation.
    pub generation: Generation,
    /// Selected protocol major version.
    pub protocol: u16,
}

/// The report on a protocol that has no major version.
pub open spec fn protocol_report() -> ErrorReport {
    platform_report(ErrorCode::LayoutVersionMismatch, "renderer protocol version")
}

/// Why a renderer may not begin its handshake, if it may not.
pub open spec fn renderer_rejection(
    envelope: EnvelopeView,
    expectation: RendererExpectation,
) -> Option<ErrorReport> {
    if consumer_rejection(
        envelope,
        EndpointRole::Renderer,
        expectation.session_id,
        expectation.generation,
        expectation.protocol,
    ) is Some {
        consumer_rejection(
            envelope,
            EndpointRole::Renderer,
            expectation.session_id,
            expectation.generation,
            expectation.protocol,
        )
    } else if expectation.protocol == 0 || expectation.protocol > 255 {
        Some(protocol_report())
    } else {
        match memory_bundle_decoded(envelope.memory.bytes) {
            Err(error) => Some(error),
            Ok(bundle) => offer_rejection(
                exact_version(expectation.protocol as u8),
                bundle.configuration.maximum_message,
                envelope.secret,
            ),
        }
    }
}

/// Exactly one major version.
pub open spec fn exact_version(major: u8) -> VersionRange {
    VersionRange {
        minimum: ProtocolVersion { major, minor: 0 },
        maximum: ProtocolVersion { major, minor: 0 },
    }
}

/// Whether a renderer offers exactly what production guarantees.
pub open spec fn offers_production(
    config: InitiatorConfig,
    envelope: EnvelopeView,
    expectation: RendererExpectation,
) -> bool {
    &&& config.identity == (HandshakeIdentity {
        session_id: expectation.session_id,
        generation: expectation.generation,
        role: HandshakeRole::Renderer,
    })
    &&& config.remote_role is Peer
    &&& config.versions == exact_version(expectation.protocol as u8)
    &&& config.requested.set == (TransportCapabilities { bits: production_capability_bits() })
    &&& config.required.set == (TransportCapabilities { bits: production_capability_bits() })
    &&& config.maximum_message == memory_bundle_decoded(
        envelope.memory.bytes,
    )->Ok_0.configuration.maximum_message
    &&& config.proof_bytes@ == envelope.secret
}

/// Begins the handshake of a renderer.
///
/// Stale identity, unsupported versions, malformed bundles and unusable proofs are rejected.
pub fn renderer_handshake(envelope: &BootstrapEnvelope, expectation: RendererExpectation) -> (begun:
    Result<InitiatorHandshake, ErrorReport>)
    ensures
        match begun {
            Ok(handshake) => renderer_rejection(envelope@, expectation) is None
                && offers_production(handshake.config, envelope@, expectation)
                && handshake.step is Created,
            Err(error) => renderer_rejection(envelope@, expectation) == Some(error),
        },
{
    envelope.validate_for(
        EndpointRole::Renderer,
        expectation.session_id,
        expectation.generation,
        expectation.protocol,
    )?;
    if expectation.protocol == 0 || expectation.protocol > 255 {
        return Err(platform_error(ErrorCode::LayoutVersionMismatch, "renderer protocol version"));
    }
    let bundle = decode_memory(envelope.memory().bytes())?;
    let config = InitiatorConfig {
        identity: HandshakeIdentity {
            session_id: expectation.session_id,
            generation: expectation.generation,
            role: HandshakeRole::Renderer,
        },
        remote_role: HandshakeRole::Peer,
        versions: VersionRange::exact(ProtocolVersion::new(expectation.protocol as u8, 0)),
        requested: RequestedCapabilities::new(production_capabilities()),
        required: RequiredCapabilities::new(production_capabilities()),
        maximum_message: bundle.configuration.maximum_message,
        proof_bytes: slice_to_vec(envelope.secret().expose()),
    };
    InitiatorHandshake::new(config)
}

/// What a frame means to a renderer: data within the limit, or the end of the session.
pub open spec fn frame_meaning(frame: Seq<u8>, maximum_message: usize) -> Option<Option<Seq<u8>>> {
    if frame.len() >= 1 && frame[0] == DATA_KIND && frame.len() - 1 <= maximum_message {
        Some(Some(frame.skip(1)))
    } else if frame == seq![CLOSE_KIND] {
        Some(None)
    } else {
        None
    }
}

/// The report on a frame without meaning.
pub open spec fn receive_frame_report() -> ErrorReport {
    platform_report(ErrorCode::ProtocolViolation, "renderer receive frame")
}

/// Whether an event of the channel means this to the renderer.
pub open spec fn event_means(
    event: Option<TransportEvent>,
    maximum_message: usize,
    meaning: Result<Option<RendererEvent>, ErrorReport>,
) -> bool {
    match event {
        Some(TransportEvent::Message(frame)) => match frame_meaning(frame@, maximum_message) {
            Some(Some(payload)) => meaning matches Ok(Some(RendererEvent::Message(found)))
                && found@ == payload,
            Some(None) => meaning == Ok::<Option<RendererEvent>, ErrorReport>(
                Some(RendererEvent::Closed),
            ),
            None => meaning == Err::<Option<RendererEvent>, ErrorReport>(receive_frame_report()),
        },
        Some(TransportEvent::Writable) => meaning == Ok::<Option<RendererEvent>, ErrorReport>(
            Some(RendererEvent::Writable),
        ),
        Some(TransportEvent::Closed) => meaning == Ok::<Option<RendererEvent>, ErrorReport>(
            Some(RendererEvent::Closed),
        ),
        Some(TransportEvent::Reset) => meaning == Ok::<Option<RendererEvent>, ErrorReport>(
            Some(RendererEvent::Closed),
        ),
        Some(TransportEvent::Control(_)) => meaning == Ok::<Option<RendererEvent>, ErrorReport>(
            None,
        ),
        None => meaning == Ok::<Option<RendererEvent>, ErrorReport>(None),
    }
}

/// Decides what an event of the channel means to the renderer.
pub fn interpret_event(event: Option<TransportEvent>, maximum_message: usize) -> (meaning: Result<
    Option<RendererEvent>,
    ErrorReport,
>)
    ensures
        event_means(event, maximum_message, meaning),
{
    match event {
        Some(TransportEvent::Message(frame)) => {
            if frame.len() >= 1 && frame[0] == DATA_KIND && frame.len() - 1 <= maximum_message {
                let payload = copy_range(frame.as_slice(), 1, frame.len());
                proof {
                    assert(payload@ =~= frame@.skip(1));
                }
                return Ok(Some(RendererEvent::Message(payload)));
            }
            if frame.len() == 1 && frame[0] == CLOSE_KIND {
                proof {
                    assert(frame@ =~= seq![CLOSE_KIND]);
                }
                return Ok(Some(RendererEvent::Closed));
            }
            Err(platform_error(ErrorCode::ProtocolViolation, "renderer receive frame"))
        },
        Some(TransportEvent::Writable) => Ok(Some(RendererEvent::Writable)),
        Some(TransportEvent::Closed) => Ok(Some(RendererEvent::Closed)),
        Some(TransportEvent::Reset) => Ok(Some(RendererEvent::Closed)),
        Some(TransportEvent::Control(_)) => Ok(None),
        None => Ok(None),
    }
}

/// Why a payload is not sent, if it is not.
pub open spec fn send_rejection(closed: bool, length: nat, maximum_message: usize) -> Option<
    ErrorReport,
> {
    if closed {
        Some(platform_report(ErrorCode::Closed, "renderer send"))
    } else if length > maximum_message {
        Some(platform_report(ErrorCode::MessageTooLarge, "renderer send"))
    } else {
        None
    }
}

/// Frames a payload, unless it may not be sent.
pub fn frame_payload(closed: bool, payload: &[u8], maximum_message: usize) -> (framed: Result<
    Vec<u8>,
    ErrorReport,
>)
    ensures
        match send_rejection(closed, payload@.len(), maximum_message) {
            Some(error) => framed is Err && framed->Err_0 == error,
            None => framed is Ok && framed->Ok_0@ == seq![DATA_KIND] + payload@,
        },
{
    if closed {
        return Err(platform_error(ErrorCode::Closed, "renderer send"));
    }
    if payload.len() > maximum_message {
        return Err(platform_error(ErrorCode::MessageTooLarge, "renderer send"));
    }
    let mut frame: Vec<u8> = Vec::new();
    frame.push(DATA_KIND);
    push_bytes(&mut frame, payload);
    proof {
        assert(frame@ =~= seq![DATA_KIND] + payload@);
    }
    Ok(frame)
}

/// A payload that was framed comes out of its frame as it went in.
pub proof fn law_framed_payloads_come_out(payload: Seq<u8>, maximum_message: usize)
    requires
        payload.len() <= maximum_message,
    ensures
        frame_meaning(seq![DATA_KIND] + payload, maximum_message) == Some(Some(payload)),
{
    assert((seq![DATA_KIND] + payload).skip(1) =~= payload);
}

/// What a sender is told of a message: whether the channel is full up to its high watermark.
pub open spec fn disposition_of(buffered_amount: u32, high_watermark: u32) -> SendDisposition {
    if buffered_amount >= high_watermark {
        SendDisposition::Backpressured
    } else {
        SendDisposition::Sent
    }
}

/// Whether a payload was published in its frame, or failed to be, and its sender was told so.
pub open spec fn payload_published<
    Outbound: RingProducer,
    Inbound: RingConsumer,
    Sender: SignalSender,
    Wake: WakeSource,
>(
    before: ProtectedChannel<Outbound, Inbound, Sender, Wake>,
    after: ProtectedChannel<Outbound, Inbound, Sender, Wake>,
    payload: Seq<u8>,
    sent: Result<SendDisposition, ErrorReport>,
) -> bool {
    exists|outcome: Result<ChannelSend, ErrorReport>|
        {
            &&& #[trigger] before.frame_sent(after, seq![DATA_KIND] + payload, outcome)
            &&& sent == match outcome {
                Ok(published) => Ok(
                    disposition_of(published.buffered_amount, before.high_watermark),
                ),
                Err(error) => Err(error),
            }
        }
}

/// Whether one look at the channel came to this for the renderer.
pub open spec fn event_polled<
    Outbound: RingProducer,
    Inbound: RingConsumer,
    Sender: SignalSender,
    Wake: WakeSource,
>(
    before: ProtectedChannel<Outbound, Inbound, Sender, Wake>,
    after: ProtectedChannel<Outbound, Inbound, Sender, Wake>,
    limit: usize,
    polled: Result<Option<RendererEvent>, ErrorReport>,
) -> bool {
    exists|looked: Result<Option<TransportEvent>, ErrorReport>|
        {
            &&& #[trigger] before.frame_polled(after, looked)
            &&& match looked {
                Err(error) => polled == Err::<Option<RendererEvent>, ErrorReport>(error),
                Ok(event) => event_means(event, limit, polled),
            }
        }
}

/// Whether the end of the session was announced in a frame, and the channel closed behind it.
pub open spec fn session_closed<
    Outbound: RingProducer,
    Inbound: RingConsumer,
    Sender: SignalSender,
    Wake: WakeSource,
>(
    before: ProtectedChannel<Outbound, Inbound, Sender, Wake>,
    after: ProtectedChannel<Outbound, Inbound, Sender, Wake>,
    closed: Result<(), ErrorReport>,
) -> bool {
    exists|
        announced: ProtectedChannel<Outbound, Inbound, Sender, Wake>,
        outcome: Result<ChannelSend, ErrorReport>,
    |
        {
            &&& #[trigger] before.frame_sent(announced, seq![CLOSE_KIND], outcome)
            &&& match outcome {
                Err(error) => after == announced && closed == Err::<(), ErrorReport>(error),
                Ok(_) => {
                    &&& announced.channel.marker_handed(after.channel, RecordKind::Close, closed)
                    &&& after.protection == announced.protection
                    &&& after.same_queue(announced)
                },
            }
        }
}

/// Whether a HELLO was sent and the ACK that came for it settled the message limit.
pub open spec fn greeting_answered<
    Outbound: RingProducer,
    Inbound: RingConsumer,
    Sender: SignalSender,
    Wake: WakeSource,
>(
    before: ProtectedChannel<Outbound, Inbound, Sender, Wake>,
    config: InitiatorConfig,
    greeted: ProtectedChannel<Outbound, Inbound, Sender, Wake>,
    reply: Vec<u8>,
    after: ProtectedChannel<Outbound, Inbound, Sender, Wake>,
    limit: usize,
) -> bool {
    &&& exists|outcome: Result<ChannelSend, ErrorReport>| #[trigger]
        before.frame_sent(greeted, hello_bytes(config), outcome) && outcome is Ok
    &&& greeted.frame_awaited(after, Ok(Some(reply)))
    &&& acknowledgement(config, reply@) matches Ok(negotiated) && limit
        == negotiated.maximum_message
}

/// Whether a greeting failed so: the HELLO was not sent, no frame came for it, or what came was
/// no acceptable ACK.
pub open spec fn greeting_failed<
    Outbound: RingProducer,
    Inbound: RingConsumer,
    Sender: SignalSender,
    Wake: WakeSource,
>(
    before: ProtectedChannel<Outbound, Inbound, Sender, Wake>,
    config: InitiatorConfig,
    greeted: ProtectedChannel<Outbound, Inbound, Sender, Wake>,
    outcome: Result<ChannelSend, ErrorReport>,
    error: ErrorReport,
) -> bool {
    &&& before.frame_sent(greeted, hello_bytes(config), outcome)
    &&& match outcome {
        Err(found) => error == found,
        Ok(_) => exists|
            after: ProtectedChannel<Outbound, Inbound, Sender, Wake>,
            reply: Result<Option<Vec<u8>>, ErrorReport>,
        |
            #[trigger] greeted.frame_awaited(after, reply) && match reply {
                Err(found) => error == found,
                Ok(None) => error == platform_report(
                    ErrorCode::Timeout,
                    "renderer handshake acknowledgement",
                ),
                Ok(Some(frame)) => acknowledgement(config, frame@) == Err::<
                    NegotiatedProtocol,
                    ErrorReport,
                >(error),
            },
    }
}

/// Renderer endpoint of one generation.
pub struct MacosRendererTransport<Outbound, Inbound, Sender, Wake> where
    Outbound: RingProducer,
    Inbound: RingConsumer,
    Sender: SignalSender,
    Wake: WakeSource,
 {
    attached: Option<ProtectedChannel<Outbound, Inbound, Sender, Wake>>,
    maximum_message: usize,
    closed: bool,
}

impl<
    Outbound: RingProducer,
    Inbound: RingConsumer,
    Sender: SignalSender,
    Wake: WakeSource,
> MacosRendererTransport<Outbound, Inbound, Sender, Wake> {
    #[verifier::type_invariant]
    spec fn is_usable(self) -> bool {
        self.attached is Some ==> self.attached->0.wf()
    }

    /// The protected channel, while the transport is not in the middle of an operation.
    pub closed spec fn protected(self) -> Option<
        ProtectedChannel<Outbound, Inbound, Sender, Wake>,
    > {
        self.attached
    }

    /// Largest payload.
    pub closed spec fn limit(self) -> usize {
        self.maximum_message
    }

    /// Whether either side closed the endpoint.
    pub closed spec fn is_closed(self) -> bool {
        self.closed
    }

    /// Completes the renderer-to-peer handshake on an attached channel.
    ///
    /// Stale identity, unsupported versions and capabilities, and a malformed acknowledgement are
    /// rejected.
    pub fn attach(
        channel: ProtectedChannel<Outbound, Inbound, Sender, Wake>,
        envelope: BootstrapEnvelope,
        expectation: RendererExpectation,
    ) -> (attached: Result<Self, ErrorReport>)
        requires
            channel.wf(),
        ensures
            renderer_rejection(envelope@, expectation) matches Some(error) ==> attached is Err
                && attached->Err_0 == error,
            attached matches Ok(transport) ==> {
                &&& renderer_rejection(envelope@, expectation) is None
                &&& transport.protected() is Some
                &&& transport.protected()->0.high_watermark == channel.high_watermark
                &&& 0 < transport.limit() <= memory_bundle_decoded(
                    envelope@.memory.bytes,
                )->Ok_0.configuration.maximum_message
                &&& !transport.is_closed()
                &&& exists|
                    config: InitiatorConfig,
                    greeted: ProtectedChannel<Outbound, Inbound, Sender, Wake>,
                    reply: Vec<u8>,
                |
                    offers_production(config, envelope@, expectation)
                        && #[trigger] greeting_answered(
                        channel,
                        config,
                        greeted,
                        reply,
                        transport.protected()->0,
                        transport.limit(),
                    )
            },
            renderer_rejection(envelope@, expectation) is None ==> (attached matches Err(error)
                ==> exists|
                config: InitiatorConfig,
                greeted: ProtectedChannel<Outbound, Inbound, Sender, Wake>,
                outcome: Result<ChannelSend, ErrorReport>,
            |
                offers_production(config, envelope@, expectation) && #[trigger] greeting_failed(
                    channel,
                    config,
                    greeted,
                    outcome,
                    error,
                )),
    {
        let ghost unused = channel;
        let mut channel = channel;
        let mut handshake = renderer_handshake(&envelope, expectation)?;
        let ghost config = handshake.config;
        let hello = handshake.hello()?;
        let outcome = channel.send_frame(hello.as_slice());
        let ghost greeted = channel;
        proof {
            assert(unused.frame_sent(greeted, hello@, outcome));
            if outcome is Err {
                assert(greeting_failed(unused, config, greeted, outcome, outcome->Err_0));
            }
        }
        outcome?;
        let reply = channel.wait_receive();
        proof {
            assert(greeted.frame_awaited(channel, reply));
            if reply is Err {
                assert(greeting_failed(unused, config, greeted, outcome, reply->Err_0));
            }
        }
        let acknowledgement = match reply? {
            Some(acknowledgement) => acknowledgement,
            None => {
                let error = platform_error(ErrorCode::Timeout, "renderer handshake acknowledgement");
                assert(greeting_failed(unused, config, greeted, outcome, error));
                return Err(error);
            },
        };
        let acknowledged = handshake.acknowledge(acknowledgement.as_slice());
        proof {
            if acknowledged is Err {
                assert(greeting_failed(unused, config, greeted, outcome, acknowledged->Err_0));
            }
        }
        let negotiated: NegotiatedProtocol = acknowledged?;
        let transport = MacosRendererTransport {
            attached: Some(channel),
            maximum_message: negotiated.maximum_message as usize,
            closed: false,
        };
        proof {
            assert(greeting_answered(
                unused,
                config,
                greeted,
                acknowledgement,
                transport.protected()->0,
                transport.limit(),
            ));
        }
        Ok(transport)
    }
}

impl<
    Outbound: RingProducer,
    Inbound: RingConsumer,
    Sender: SignalSender,
    Wake: WakeSource,
> RendererTransport for MacosRendererTransport<Outbound, Inbound, Sender, Wake> {
    open spec fn sends(
        self,
        after: Self,
        payload: Seq<u8>,
        sent: Result<SendDisposition, ErrorReport>,
    ) -> bool {
        &&& after.limit() == self.limit()
        &&& after.is_closed() == self.is_closed()
        &&& match send_rejection(self.is_closed(), payload.len(), self.limit()) {
            Some(error) => {
                &&& sent == Err::<SendDisposition, ErrorReport>(error)
                &&& after.protected() == self.protected()
            },
            None => match self.protected() {
                Some(before) => after.protected() matches Some(channel) && payload_published(
                    before,
                    channel,
                    payload,
                    sent,
                ),
                None => {
                    &&& after.protected() is None
                    &&& sent == Err::<SendDisposition, ErrorReport>(
                        platform_report(ErrorCode::Closed, "renderer send"),
                    )
                },
            },
        }
    }

    open spec fn buffers(self, amount: Result<u32, ErrorReport>) -> bool {
        match self.protected() {
            Some(channel) => {
                &&& amount_told(channel.channel.channel.writer.memory, amount)
                &&& amount matches Ok(used) ==> used
                    <= channel.channel.channel.writer.memory.capacity_of()
            },
            None => amount == Err::<u32, ErrorReport>(
                platform_report(ErrorCode::Closed, "renderer buffered amount"),
            ),
        }
    }

    open spec fn polls(
        self,
        after: Self,
        polled: Result<Option<RendererEvent>, ErrorReport>,
    ) -> bool {
        &&& after.limit() == self.limit()
        &&& after.is_closed() == (self.is_closed() || polled == Ok::<
            Option<RendererEvent>,
            ErrorReport,
        >(Some(RendererEvent::Closed)))
        &&& match self.protected() {
            Some(before) => after.protected() matches Some(channel) && event_polled(
                before,
                channel,
                self.limit(),
                polled,
            ),
            None => after.protected() is None && polled == Ok::<
                Option<RendererEvent>,
                ErrorReport,
            >(None),
        }
    }

    open spec fn closes(self, after: Self, closed: Result<(), ErrorReport>) -> bool {
        &&& after.limit() == self.limit()
        &&& after.is_closed() == (self.is_closed() || closed is Ok)
        &&& if self.is_closed() {
            closed is Ok && after.protected() == self.protected()
        } else {
            match self.protected() {
                Some(before) => after.protected() matches Some(channel) && session_closed(
                    before,
                    channel,
                    closed,
                ),
                None => after.protected() is None && closed is Ok,
            }
        }
    }

    fn send(&mut self, payload: &[u8]) -> (sent: Result<SendDisposition, ErrorReport>) {
        proof {
            use_type_invariant(&*self);
        }
        let frame = frame_payload(self.closed, payload, self.maximum_message)?;
        let mut attached: Option<ProtectedChannel<Outbound, Inbound, Sender, Wake>> = None;
        std::mem::swap(&mut attached, &mut self.attached);
        match attached {
            Some(mut channel) => {
                let sent = channel.send_frame(frame.as_slice());
                let high_watermark: u32 = channel.high_watermark;
                self.attached = Some(channel);
                let outcome = sent?;
                if outcome.buffered_amount >= high_watermark {
                    Ok(SendDisposition::Backpressured)
                } else {
                    Ok(SendDisposition::Sent)
                }
            },
            None => Err(platform_error(ErrorCode::Closed, "renderer send")),
        }
    }

    fn buffered_amount(&self) -> (amount: Result<u32, ErrorReport>) {
        match &self.attached {
            Some(channel) => channel.channel.buffered_amount(),
            None => Err(platform_error(ErrorCode::Closed, "renderer buffered amount")),
        }
    }

    fn poll(&mut self) -> (polled: Result<Option<RendererEvent>, ErrorReport>) {
        proof {
            use_type_invariant(&*self);
        }
        let mut attached: Option<ProtectedChannel<Outbound, Inbound, Sender, Wake>> = None;
        std::mem::swap(&mut attached, &mut self.attached);
        match attached {
            Some(mut channel) => {
                let ghost before = channel;
                let event = channel.poll_channel();
                proof {
                    assert(before.frame_polled(channel, event));
                }
                self.attached = Some(channel);
                let meaning = interpret_event(event?, self.maximum_message)?;
                match meaning {
                    Some(RendererEvent::Closed) => {
                        self.closed = true;
                        Ok(Some(RendererEvent::Closed))
                    },
                    other => Ok(other),
                }
            },
            None => Ok(None),
        }
    }

    fn close(&mut self) -> (closed: Result<(), ErrorReport>) {
        proof {
            use_type_invariant(&*self);
        }
        if self.closed {
            return Ok(());
        }
        let mut attached: Option<ProtectedChannel<Outbound, Inbound, Sender, Wake>> = None;
        std::mem::swap(&mut attached, &mut self.attached);
        match attached {
            Some(mut channel) => {
                let ghost before = channel;
                let mut marker: Vec<u8> = Vec::new();
                marker.push(CLOSE_KIND);
                let outcome = channel.send_frame(marker.as_slice());
                proof {
                    assert(marker@ =~= seq![CLOSE_KIND]);
                    assert(before.frame_sent(channel, seq![CLOSE_KIND], outcome));
                }
                match outcome {
                    Ok(_) => {},
                    Err(error) => {
                        self.attached = Some(channel);
                        return Err(error);
                    },
                }
                let closed = channel.channel.close();
                self.attached = Some(channel);
                closed?;
                self.closed = true;
                Ok(())
            },
            None => {
                self.closed = true;
                Ok(())
            },
        }
    }

    open spec fn counted(&self) -> TransportDiagnostics {
        match self.protected() {
            Some(channel) => channel.channel.inbound_wake.counted(),
            None => TransportDiagnostics {
                primary_wakeups: 0,
                polling_wakeups: 0,
                coalesced_wakeups: 0,
                polling_recoveries: 0,
                signal_failures: 0,
            },
        }
    }

    fn diagnostics(&self) -> (diagnostics: TransportDiagnostics) {
        match &self.attached {
            Some(channel) => channel.channel.diagnostics(),
            None => TransportDiagnostics {
                primary_wakeups: 0,
                polling_wakeups: 0,
                coalesced_wakeups: 0,
                polling_recoveries: 0,
                signal_failures: 0,
            },
        }
    }
}

/// A sender is told to wait exactly where the channel is full up to its high watermark.
///
/// The bytes that a payload left buffered are those that the flow control of the channel counted
/// behind it. A payload that was taken is never reported as refused.
pub proof fn law_senders_are_told_of_the_watermark<
    Outbound: RingProducer,
    Inbound: RingConsumer,
    Sender: SignalSender,
    Wake: WakeSource,
>(
    before: MacosRendererTransport<Outbound, Inbound, Sender, Wake>,
    after: MacosRendererTransport<Outbound, Inbound, Sender, Wake>,
    payload: Seq<u8>,
    told: SendDisposition,
)
    requires
        before.sends(after, payload, Ok(told)),
    ensures
        before.protected() is Some,
        after.protected() is Some,
        ({
            let buffered = after.protected()->0.channel.channel.flow.buffered;
            let high_watermark = before.protected()->0.high_watermark;
            &&& buffered >= high_watermark ==> told is Backpressured
            &&& buffered < high_watermark ==> told is Sent
        }),
        !before.is_closed(),
        payload.len() <= before.limit(),
{
    let channel = before.protected()->0;
    let sent = after.protected()->0;
    let frame = seq![DATA_KIND] + payload;
    let outcome = choose|outcome: Result<ChannelSend, ErrorReport>|
        {
            &&& #[trigger] channel.frame_sent(sent, frame, outcome)
            &&& Ok::<SendDisposition, ErrorReport>(told) == match outcome {
                Ok(published) => Ok(
                    disposition_of(published.buffered_amount, channel.high_watermark),
                ),
                Err(error) => Err(error),
            }
        };
    law_sent_frames_are_counted(channel, sent, frame, outcome->Ok_0);
}

/// A message that the renderer is handed was in a data frame within its limit, byte for byte; a
/// writable channel and the end of the session are told exactly where they come.
pub proof fn law_events_reach_the_renderer(
    event: Option<TransportEvent>,
    maximum_message: usize,
    meaning: Result<Option<RendererEvent>, ErrorReport>,
)
    requires
        event_means(event, maximum_message, meaning),
    ensures
        meaning == Ok::<Option<RendererEvent>, ErrorReport>(Some(RendererEvent::Writable))
            <==> event == Some(TransportEvent::Writable),
        event is None ==> meaning == Ok::<Option<RendererEvent>, ErrorReport>(None),
        event == Some(TransportEvent::Closed) || event == Some(TransportEvent::Reset) ==> meaning
            == Ok::<Option<RendererEvent>, ErrorReport>(Some(RendererEvent::Closed)),
        event matches Some(TransportEvent::Message(frame)) ==> match meaning {
            Ok(Some(RendererEvent::Message(payload))) => {
                &&& frame@ == seq![DATA_KIND] + payload@
                &&& payload@.len() <= maximum_message
            },
            Ok(Some(RendererEvent::Closed)) => frame@ == seq![CLOSE_KIND],
            Ok(_) => false,
            Err(error) => error == receive_frame_report() && frame@ != seq![CLOSE_KIND] && (
            frame@.len() == 0 || frame@[0] != DATA_KIND || frame@.len() - 1 > maximum_message),
        },
        meaning matches Ok(Some(RendererEvent::Message(_))) ==> event matches Some(
            TransportEvent::Message(_),
        ),
        DATA_KIND != CLOSE_KIND,
{
    if let Some(TransportEvent::Message(frame)) = event {
        if frame@.len() >= 1 {
            assert(seq![frame@[0]] + frame@.skip(1) =~= frame@);
        }
        assert(seq![CLOSE_KIND][0] == CLOSE_KIND);
    }
}

/// What one renderer frames, any renderer with the same limit is handed as it was, and a payload
/// beyond the limit, or one of a closed endpoint, is not framed.
pub proof fn law_only_payloads_within_the_limit_are_sent(
    closed: bool,
    length: nat,
    maximum_message: usize,
)
    ensures
        send_rejection(closed, length, maximum_message) is None <==> !closed && length
            <= maximum_message,
        send_rejection(closed, length, maximum_message) matches Some(error) ==> (error.code
            is Closed <==> closed) && (error.code is MessageTooLarge <==> !closed),
{
}

/// A closed transport is told so before the size of a payload is looked at.
pub proof fn law_refused_sends_are_told_apart(closed: bool, length: nat, maximum_message: usize)
    ensures
        send_rejection(closed, length, maximum_message) matches Some(error) ==> {
            &&& error.code is Closed <==> closed
            &&& error.code is MessageTooLarge <==> !closed
        },
{
}

/// A transport is closed by a close that succeeds and by the end of the session, and by nothing
/// else; a closed one stays closed, closes again without a change, and keeps its limit. Without a
/// channel nothing is sent and nothing comes.
pub proof fn law_transports_close_once<
    Outbound: RingProducer,
    Inbound: RingConsumer,
    Sender: SignalSender,
    Wake: WakeSource,
>(
    before: MacosRendererTransport<Outbound, Inbound, Sender, Wake>,
    after: MacosRendererTransport<Outbound, Inbound, Sender, Wake>,
    payload: Seq<u8>,
    sent: Result<SendDisposition, ErrorReport>,
    polled: Result<Option<RendererEvent>, ErrorReport>,
    closed: Result<(), ErrorReport>,
)
    ensures
        before.closes(after, closed) ==> {
            &&& after.is_closed() <==> before.is_closed() || closed is Ok
            &&& before.is_closed() ==> closed is Ok && after.protected() == before.protected()
            &&& after.limit() == before.limit()
        },
        before.polls(after, polled) ==> {
            &&& before.is_closed() ==> after.is_closed()
            &&& !before.is_closed() && after.is_closed() ==> polled == Ok::<
                Option<RendererEvent>,
                ErrorReport,
            >(Some(RendererEvent::Closed))
            &&& before.protected() is None ==> polled == Ok::<
                Option<RendererEvent>,
                ErrorReport,
            >(None) && after.protected() is None
            &&& after.limit() == before.limit()
        },
        before.sends(after, payload, sent) ==> {
            &&& after.is_closed() == before.is_closed()
            &&& before.is_closed() || before.protected() is None ==> sent is Err
                && after.protected() == before.protected()
            &&& after.limit() == before.limit()
        },
{
}

/// A renderer begins its handshake only with an envelope for it, of its own session and generation,
/// that offers its version and carries a secret.
pub proof fn law_renderers_begin_with_their_own_envelope(
    envelope: EnvelopeView,
    expectation: RendererExpectation,
)
    requires
        renderer_rejection(envelope, expectation) is None,
    ensures
        envelope.role is Renderer,
        envelope.session_id == expectation.session_id,
        envelope.generation == expectation.generation,
        envelope.protocols.lowest() <= expectation.protocol <= envelope.protocols.highest(),
        1 <= expectation.protocol <= 255,
        envelope.secret.len() > 0,
        memory_bundle_decoded(envelope.memory.bytes) matches Ok(bundle)
            && bundle.configuration.maximum_message > 0,
{
}

} // verus!
