//! Runtime-neutral synchronous native peer port.

use vstd::prelude::*;
use vstd::slice::slice_to_vec;

use crate::bootstrap::schema::{
    consumer_rejection, BootstrapEnvelope, EndpointRole, EnvelopeView, ProviderKind,
};
use crate::domain::bytes::{copy_range, push_bytes};
use crate::domain::capabilities::{
    RequestedCapabilities, RequiredCapabilities, SupportedCapabilities, TransportCapabilities,
    BINARY_MESSAGES, BORROWED_RECEIVE, BOUNDED_BACKPRESSURE, SHARED_MEMORY_DATA_PLANE,
};
use crate::domain::error::{
    plain_outcome, report, ErrorCategory, ErrorCode, ErrorReport, Recoverability,
};
use crate::domain::types::{Generation, SessionId};
use crate::peer::asynchronous::{is_retryable_backpressure, retryable};
use crate::protocol::{
    acceptance, ack_bytes, acknowledgement, handshake_report, hello_bytes, offer_rejection,
    AcceptorConfig, AcceptorHandshake, EndpointRole as HandshakeRole, HandshakeIdentity,
    InitiatorConfig, InitiatorHandshake, NegotiatedProtocol, ProtocolVersion, VersionRange,
};

verus! {

/// First byte of a frame that carries an application message.
pub const DATA_KIND: u8 = 0;

/// The only byte of a frame that closes the port.
pub const CLOSE_KIND: u8 = 1;

/// Identity and protocol selected by the parent control plane.
#[derive(Clone, Copy, PartialEq, Eq, Structural)]
pub struct PeerExpectation {
    /// Expected session identity.
    pub session_id: SessionId,
    /// Expected current resource generation.
    pub generation: Generation,
    /// Selected protocol version.
    pub protocol: u16,
}

/// One call of a framed transport, with what became of it.
pub enum PortCall {
    /// A frame was handed over for sending.
    Sent(Seq<u8>, Result<(), ErrorReport>),
    /// A frame was asked for.
    Received(Result<Option<Seq<u8>>, ErrorReport>),
    /// Resources were released.
    Released(Result<(), ErrorReport>),
}

/// The bytes of what a transport received.
pub open spec fn frame_bytes(received: Result<Option<Vec<u8>>, ErrorReport>) -> Result<
    Option<Seq<u8>>,
    ErrorReport,
> {
    match received {
        Ok(Some(frame)) => Ok(Some(frame@)),
        Ok(None) => Ok(None),
        Err(error) => Err(error),
    }
}

/// Minimal framed transport supplied by a provider adapter.
pub trait PortTransport {
    /// The calls that were made, in order.
    open spec fn calls(&self) -> Seq<PortCall> {
        arbitrary()
    }

    /// Whether sending a frame may turn out so.
    open spec fn sends(&self, frame: Seq<u8>, outcome: Result<(), ErrorReport>) -> bool {
        arbitrary()
    }

    /// Whether asking for a frame may turn out so.
    open spec fn receives(&self, outcome: Result<Option<Seq<u8>>, ErrorReport>) -> bool {
        arbitrary()
    }

    /// Sends one complete transport frame.
    ///
    /// A provider-specific transport failure is returned.
    fn send(&mut self, frame: &[u8]) -> (sent: Result<(), ErrorReport>)
        ensures
            old(self).sends(frame@, plain_outcome(sent)),
            final(self).calls() == old(self).calls().push(
                PortCall::Sent(frame@, plain_outcome(sent)),
            ),
    ;

    /// Receives one frame, or `None` when no frame is currently available.
    ///
    /// A provider-specific transport failure is returned.
    fn receive(&mut self) -> (received: Result<Option<Vec<u8>>, ErrorReport>)
        ensures
            old(self).receives(frame_bytes(received)),
            final(self).calls() == old(self).calls().push(
                PortCall::Received(frame_bytes(received)),
            ),
    ;

    /// Releases provider resources. Calls must be idempotent.
    ///
    /// The first provider cleanup failure is returned.
    fn close(&mut self) -> (closed: Result<(), ErrorReport>)
        ensures
            final(self).calls() == old(self).calls().push(
                PortCall::Released(plain_outcome(closed)),
            ),
    ;
}

impl<T: PortTransport> PortTransport for Box<T> {
    open spec fn calls(&self) -> Seq<PortCall> {
        (**self).calls()
    }

    open spec fn sends(&self, frame: Seq<u8>, outcome: Result<(), ErrorReport>) -> bool {
        (**self).sends(frame, outcome)
    }

    open spec fn receives(&self, outcome: Result<Option<Seq<u8>>, ErrorReport>) -> bool {
        (**self).receives(outcome)
    }

    fn send(&mut self, frame: &[u8]) -> (sent: Result<(), ErrorReport>) {
        (**self).send(frame)
    }

    fn receive(&mut self) -> (received: Result<Option<Vec<u8>>, ErrorReport>) {
        (**self).receive()
    }

    fn close(&mut self) -> (closed: Result<(), ErrorReport>) {
        (**self).close()
    }
}

/// State visible at the peer facade boundary.
#[derive(Clone, Copy, Debug, PartialEq, Eq, Structural)]
pub enum PortState {
    /// HELLO/ACK completed and application messages are accepted.
    Open,
    /// Local or remote close completed.
    Closed,
    /// A transport or protocol failure invalidated the generation.
    Failed,
}

/// One received peer event.
#[derive(Debug, PartialEq, Eq)]
pub enum PortEvent {
    /// Complete binary application message.
    Message(Vec<u8>),
    /// The remote endpoint closed gracefully.
    Closed,
}

/// One received peer event whose bytes are lent by the port.
pub enum BorrowedPortEvent<'port> {
    /// Complete binary application message.
    Message(&'port [u8]),
    /// The remote endpoint closed gracefully.
    Closed,
}

/// What a received frame means.
pub enum FrameMeaning {
    /// An application message.
    Message(Seq<u8>),
    /// A graceful close.
    Close,
    /// Nothing that this port accepts.
    Malformed,
}

/// The frame of an application message.
pub open spec fn data_frame(payload: Seq<u8>) -> Seq<u8> {
    seq![DATA_KIND] + payload
}

/// What a frame means to a port with a message limit.
pub open spec fn frame_meaning(frame: Seq<u8>, maximum_message: usize) -> FrameMeaning {
    if frame.len() > 0 && frame[0] == DATA_KIND && frame.len() - 1 <= maximum_message {
        FrameMeaning::Message(frame.subrange(1, frame.len() as int))
    } else if frame.len() == 1 && frame[0] == CLOSE_KIND {
        FrameMeaning::Close
    } else {
        FrameMeaning::Malformed
    }
}

/// The category of a port failure.
pub open spec fn peer_category(code: ErrorCode) -> ErrorCategory {
    match code {
        ErrorCode::Unsupported => ErrorCategory::Unsupported,
        ErrorCode::Closed => ErrorCategory::Closed,
        ErrorCode::Timeout => ErrorCategory::Timeout,
        ErrorCode::MessageTooLarge => ErrorCategory::Resource,
        ErrorCode::Backpressured => ErrorCategory::Resource,
        _ => ErrorCategory::Protocol,
    }
}

/// The report of a port failure.
pub open spec fn peer_report(
    code: ErrorCode,
    recoverability: Recoverability,
    operation: &'static str,
) -> ErrorReport {
    report(peer_category(code), code, recoverability, operation)
}

pub(crate) fn peer_error(
    code: ErrorCode,
    recoverability: Recoverability,
    operation: &'static str,
) -> (created: ErrorReport)
    ensures
        created == peer_report(code, recoverability, operation),
{
    let category = match code {
        ErrorCode::Unsupported => ErrorCategory::Unsupported,
        ErrorCode::Closed => ErrorCategory::Closed,
        ErrorCode::Timeout => ErrorCategory::Timeout,
        ErrorCode::MessageTooLarge => ErrorCategory::Resource,
        ErrorCode::Backpressured => ErrorCategory::Resource,
        _ => ErrorCategory::Protocol,
    };
    ErrorReport::new(category, code, recoverability, operation)
}

/// The report of a protocol version that no handshake can offer.
pub open spec fn version_report() -> ErrorReport {
    peer_report(
        ErrorCode::LayoutVersionMismatch,
        Recoverability::ReplaceEndpoint,
        "peer protocol version",
    )
}

/// The report of an unusable message limit.
pub open spec fn limit_report() -> ErrorReport {
    peer_report(ErrorCode::InvalidRange, Recoverability::ReplaceEndpoint, "peer message limit")
}

/// The report of a frame that a port does not accept.
pub open spec fn frame_report() -> ErrorReport {
    peer_report(
        ErrorCode::ProtocolViolation,
        Recoverability::ReplaceEndpoint,
        "peer receive frame",
    )
}

/// Whether a version can be offered.
pub open spec fn offerable(protocol: u16) -> bool {
    0 < protocol <= u8::MAX
}

/// The interval of one offered version.
pub open spec fn exact_versions(protocol: u16) -> VersionRange {
    let version = ProtocolVersion { major: protocol as u8, minor: 0 };
    VersionRange { minimum: version, maximum: version }
}

fn protocol_version(version: u16) -> (found: Result<ProtocolVersion, ErrorReport>)
    ensures
        found == if offerable(version) {
            Ok::<ProtocolVersion, ErrorReport>(
                ProtocolVersion { major: version as u8, minor: 0 },
            )
        } else {
            Err(version_report())
        },
{
    if version > u8::MAX as u16 || version == 0 {
        return Err(
            peer_error(
                ErrorCode::LayoutVersionMismatch,
                Recoverability::ReplaceEndpoint,
                "peer protocol version",
            ),
        );
    }
    Ok(ProtocolVersion::new(version as u8, 0))
}

/// The capabilities without which a port is useless.
pub open spec fn default_bits() -> u64 {
    SHARED_MEMORY_DATA_PLANE | BINARY_MESSAGES | BOUNDED_BACKPRESSURE
}

fn default_capabilities() -> (set: TransportCapabilities)
    ensures
        set.bits == default_bits(),
{
    TransportCapabilities::from_bits(SHARED_MEMORY_DATA_PLANE).union(
        TransportCapabilities::from_bits(BINARY_MESSAGES),
    ).union(TransportCapabilities::from_bits(BOUNDED_BACKPRESSURE))
}

/// Whether an initiator offers what a peer with this envelope and limit offers its parent.
pub open spec fn is_peer_offer(
    config: InitiatorConfig,
    secret: Seq<u8>,
    expectation: PeerExpectation,
    maximum_message: usize,
) -> bool {
    &&& config.identity.session_id == expectation.session_id
    &&& config.identity.generation == expectation.generation
    &&& config.identity.role is Peer
    &&& config.remote_role is Coordinator
    &&& config.versions == exact_versions(expectation.protocol)
    &&& config.requested.set.bits == default_bits()
    &&& config.required.set.bits == default_bits()
    &&& config.maximum_message == maximum_message
    &&& config.proof_bytes@ == secret
}

/// Why a peer cannot offer a handshake to its parent, if it cannot.
pub open spec fn peer_offer_rejection(
    secret: Seq<u8>,
    expectation: PeerExpectation,
    maximum_message: usize,
) -> Option<ErrorReport> {
    if maximum_message > u32::MAX {
        Some(limit_report())
    } else if !offerable(expectation.protocol) {
        Some(version_report())
    } else {
        offer_rejection(exact_versions(expectation.protocol), maximum_message as u32, secret)
    }
}

/// Starts the handshake of a peer with its parent.
pub fn peer_handshake(
    envelope: &BootstrapEnvelope,
    expectation: PeerExpectation,
    maximum_message: usize,
) -> (created: Result<InitiatorHandshake, ErrorReport>)
    ensures
        match created {
            Ok(handshake) => {
                &&& peer_offer_rejection(envelope@.secret, expectation, maximum_message) is None
                &&& is_peer_offer(
                    handshake.config,
                    envelope@.secret,
                    expectation,
                    maximum_message,
                )
                &&& handshake.step is Created
            },
            Err(error) => peer_offer_rejection(envelope@.secret, expectation, maximum_message)
                == Some(error),
        },
{
    if maximum_message > u32::MAX as usize {
        return Err(
            peer_error(
                ErrorCode::InvalidRange,
                Recoverability::ReplaceEndpoint,
                "peer message limit",
            ),
        );
    }
    let version = protocol_version(expectation.protocol)?;
    InitiatorHandshake::new(
        InitiatorConfig {
            identity: HandshakeIdentity {
                session_id: expectation.session_id,
                generation: expectation.generation,
                role: HandshakeRole::Peer,
            },
            remote_role: HandshakeRole::Coordinator,
            versions: VersionRange::exact(version),
            requested: RequestedCapabilities::new(default_capabilities()),
            required: RequiredCapabilities::new(default_capabilities()),
            maximum_message: maximum_message as u32,
            proof_bytes: slice_to_vec(envelope.secret().expose()),
        },
    )
}

/// Builds the exact HELLO expected by a process harness.
///
/// `LayoutVersionMismatch` is returned for a version that cannot be offered.
pub fn hello_frame(envelope: &BootstrapEnvelope, expectation: PeerExpectation) -> (frame: Result<
    Vec<u8>,
    ErrorReport,
>)
    ensures
        match frame {
            Ok(bytes) => exists|config: InitiatorConfig|
                is_peer_offer(config, envelope@.secret, expectation, u32::MAX as usize) && bytes@
                    == #[trigger] hello_bytes(config),
            Err(error) => peer_offer_rejection(envelope@.secret, expectation, u32::MAX as usize)
                == Some(error),
        },
{
    let mut handshake = peer_handshake(envelope, expectation, u32::MAX as usize)?;
    let ghost config = handshake.config;
    let frame = handshake.hello();
    proof {
        assert(frame is Ok);
        assert(frame->Ok_0@ == hello_bytes(config));
    }
    frame
}

/// Whether an acceptor is the parent of a peer.
pub open spec fn is_parent_answer(
    config: AcceptorConfig,
    secret: Seq<u8>,
    expectation: PeerExpectation,
) -> bool {
    &&& config.identity.session_id == expectation.session_id
    &&& config.identity.generation == expectation.generation
    &&& config.identity.role is Coordinator
    &&& config.remote_role is Peer
    &&& config.versions == exact_versions(expectation.protocol)
    &&& config.supported.set.bits == default_bits()
    &&& config.maximum_message == u32::MAX
    &&& config.proof_bytes@ == secret
}

/// Validates HELLO at the parent and returns the matching ACK.
///
/// Malformed, stale, or unauthenticated input is rejected.
pub fn acknowledge_hello(hello: &[u8], expectation: PeerExpectation, secret: &[u8]) -> (frame:
    Result<Vec<u8>, ErrorReport>)
    ensures
        !offerable(expectation.protocol) ==> frame == Err::<Vec<u8>, ErrorReport>(version_report()),
        offerable(expectation.protocol) && secret@.len() == 0 ==> frame == Err::<
            Vec<u8>,
            ErrorReport,
        >(handshake_report(ErrorCode::InvalidRange, "handshake proof")),
        offerable(expectation.protocol) && secret@.len() > 0 ==> exists|config: AcceptorConfig|
            is_parent_answer(config, secret@, expectation) && match #[trigger] acceptance(
                config,
                hello@,
            ) {
                Ok(selected) => frame is Ok && frame->Ok_0@ == ack_bytes(config, selected),
                Err(error) => frame is Err && frame->Err_0 == error,
            },
{
    let version = protocol_version(expectation.protocol)?;
    let mut handshake = AcceptorHandshake::new(
        AcceptorConfig {
            identity: HandshakeIdentity {
                session_id: expectation.session_id,
                generation: expectation.generation,
                role: HandshakeRole::Coordinator,
            },
            remote_role: HandshakeRole::Peer,
            versions: VersionRange::exact(version),
            supported: SupportedCapabilities::new(default_capabilities()),
            maximum_message: u32::MAX,
            proof_bytes: slice_to_vec(secret),
        },
    )?;
    let ghost config = handshake.config;
    proof {
        assert(is_parent_answer(config, secret@, expectation));
        let outcome = acceptance(config, hello@);
    }
    match handshake.accept(hello) {
        Ok((frame, _)) => Ok(frame),
        Err(error) => Err(error),
    }
}

/// Interprets a received frame; `None` is a frame that the port does not accept.
pub fn interpret_frame(frame: &[u8], maximum_message: usize) -> (event: Option<PortEvent>)
    ensures
        match frame_meaning(frame@, maximum_message) {
            FrameMeaning::Message(payload) => event matches Some(PortEvent::Message(bytes))
                && bytes@ == payload,
            FrameMeaning::Close => event matches Some(PortEvent::Closed),
            FrameMeaning::Malformed => event is None,
        },
{
    if frame.len() > 0 && frame[0] == DATA_KIND && frame.len() - 1 <= maximum_message {
        return Some(PortEvent::Message(copy_range(frame, 1, frame.len())));
    }
    if frame.len() == 1 && frame[0] == CLOSE_KIND {
        return Some(PortEvent::Closed);
    }
    None
}

/// Attached native port independent of threads and async runtimes.
pub struct NativePort<T> {
    transport: T,
    state: PortState,
    identity: PeerExpectation,
    maximum_message: usize,
    capabilities: TransportCapabilities,
    lent: Vec<u8>,
}

/// The report of a call on a port that is not open.
pub open spec fn closed_report(operation: &'static str) -> ErrorReport {
    peer_report(ErrorCode::Closed, Recoverability::Terminal, operation)
}

/// The report of a message beyond the limit of a port.
pub open spec fn oversize_report() -> ErrorReport {
    peer_report(ErrorCode::MessageTooLarge, Recoverability::Terminal, "peer send")
}

/// Why a peer may not attach to its parent with an envelope, if it may not.
pub open spec fn attach_rejection(
    envelope: EnvelopeView,
    expectation: PeerExpectation,
    maximum_message: usize,
) -> Option<ErrorReport> {
    match consumer_rejection(
        envelope,
        EndpointRole::Peer,
        expectation.session_id,
        expectation.generation,
        expectation.protocol,
    ) {
        Some(error) => Some(error),
        None => if maximum_message == 0 || !(envelope.memory.provider is ProcessTest)
            || !(envelope.signal.provider is ProcessTest) {
            Some(
                peer_report(
                    ErrorCode::Unsupported,
                    Recoverability::ReplaceEndpoint,
                    "attach peer provider",
                ),
            )
        } else {
            peer_offer_rejection(envelope.secret, expectation, maximum_message)
        },
    }
}

/// Whether an acceptor is a peer that answers its renderer.
pub open spec fn is_peer_answer(
    config: AcceptorConfig,
    secret: Seq<u8>,
    expectation: PeerExpectation,
    maximum_message: usize,
    capabilities: TransportCapabilities,
) -> bool {
    &&& config.identity.session_id == expectation.session_id
    &&& config.identity.generation == expectation.generation
    &&& config.identity.role is Peer
    &&& config.remote_role is Renderer
    &&& config.versions == exact_versions(expectation.protocol)
    &&& config.supported.set == capabilities
    &&& config.maximum_message == maximum_message
    &&& config.proof_bytes@ == secret
}

/// Why a peer may not wait for a renderer with an envelope, if it may not.
pub open spec fn accept_rejection(
    envelope: EnvelopeView,
    expectation: PeerExpectation,
    maximum_message: usize,
) -> Option<ErrorReport> {
    match consumer_rejection(
        envelope,
        EndpointRole::Peer,
        expectation.session_id,
        expectation.generation,
        expectation.protocol,
    ) {
        Some(error) => Some(error),
        None => if maximum_message == 0 || maximum_message > u32::MAX {
            Some(limit_report())
        } else if !offerable(expectation.protocol) {
            Some(version_report())
        } else {
            offer_rejection(
                exact_versions(expectation.protocol),
                maximum_message as u32,
                envelope.secret,
            )
        },
    }
}

/// Whether an event is lent out of the one that a port received.
pub open spec fn lent_from(
    owned: Result<Option<PortEvent>, ErrorReport>,
    lent: Result<Option<BorrowedPortEvent<'_>>, ErrorReport>,
) -> bool {
    match owned {
        Ok(Some(PortEvent::Message(payload))) => lent matches Ok(
            Some(BorrowedPortEvent::Message(bytes)),
        ) && bytes@ == payload@,
        Ok(Some(PortEvent::Closed)) => lent is Ok && lent->Ok_0 is Some && lent->Ok_0->0 is Closed,
        Ok(None) => lent is Ok && lent->Ok_0 is None,
        Err(error) => lent is Err && lent->Err_0 == error,
    }
}

/// Why a peer that answers a HELLO gives up, for what its transport brought.
pub open spec fn answering_failure(
    config: AcceptorConfig,
    received: Result<Option<Seq<u8>>, ErrorReport>,
    sent: Result<(), ErrorReport>,
) -> Option<ErrorReport> {
    match received {
        Err(error) => Some(error),
        Ok(None) => Some(
            peer_report(
                ErrorCode::Timeout,
                Recoverability::ReplaceEndpoint,
                "peer renderer hello",
            ),
        ),
        Ok(Some(hello)) => match acceptance(config, hello) {
            Err(error) => Some(error),
            Ok(_) => match sent {
                Err(error) => Some(error),
                Ok(_) => None,
            },
        },
    }
}

/// Why a peer that sends a HELLO gives up, for what its transport brought.
pub open spec fn offering_failure(
    config: InitiatorConfig,
    sent: Result<(), ErrorReport>,
    received: Result<Option<Seq<u8>>, ErrorReport>,
) -> Option<ErrorReport> {
    match (sent, received) {
        (Err(error), _) => Some(error),
        (Ok(_), Err(error)) => Some(error),
        (Ok(_), Ok(None)) => Some(
            peer_report(
                ErrorCode::Timeout,
                Recoverability::ReplaceEndpoint,
                "peer handshake acknowledgement",
            ),
        ),
        (Ok(_), Ok(Some(answer))) => match acknowledgement(config, answer) {
            Err(error) => Some(error),
            Ok(_) => None,
        },
    }
}

/// Whether answering a HELLO over a transport may bring this: a frame is asked for, and where it
/// is a HELLO that is accepted, the acknowledgement is sent.
pub open spec fn answer_made<T: PortTransport>(
    transport: T,
    config: AcceptorConfig,
    received: Result<Option<Seq<u8>>, ErrorReport>,
    sent: Result<(), ErrorReport>,
) -> bool {
    &&& transport.receives(received)
    &&& match received {
        Ok(Some(hello)) => acceptance(config, hello) is Ok ==> exists|middle: T|
            {
                &&& middle.calls() == transport.calls().push(PortCall::Received(received))
                &&& #[trigger] middle.sends(
                    ack_bytes(config, acceptance(config, hello)->Ok_0),
                    sent,
                )
            },
        _ => true,
    }
}

/// Whether offering a HELLO over a transport may bring this: the HELLO is sent, and where that
/// went well, a frame is asked for.
pub open spec fn offer_made<T: PortTransport>(
    transport: T,
    config: InitiatorConfig,
    sent: Result<(), ErrorReport>,
    received: Result<Option<Seq<u8>>, ErrorReport>,
) -> bool {
    &&& transport.sends(hello_bytes(config), sent)
    &&& sent is Ok ==> exists|middle: T|
        {
            &&& middle.calls() == transport.calls().push(PortCall::Sent(hello_bytes(config), sent))
            &&& #[trigger] middle.receives(received)
        }
}

impl<T: PortTransport> NativePort<T> {
    /// The transport of the port.
    pub closed spec fn carrier(self) -> T {
        self.transport
    }

    /// State of the port.
    pub closed spec fn current_state(self) -> PortState {
        self.state
    }

    /// Identity of the port.
    pub closed spec fn attached_identity(self) -> PeerExpectation {
        self.identity
    }

    /// Largest message of the port.
    pub closed spec fn limit(self) -> usize {
        self.maximum_message
    }

    /// Negotiated capabilities of the port.
    pub closed spec fn selected(self) -> TransportCapabilities {
        self.capabilities
    }

    /// Whether a port is open with what a handshake selected.
    pub open spec fn opened_with(
        self,
        identity: PeerExpectation,
        negotiated: NegotiatedProtocol,
    ) -> bool {
        &&& self.current_state() is Open
        &&& self.attached_identity() == identity
        &&& self.limit() == negotiated.maximum_message
        &&& self.selected() == negotiated.capabilities.set
    }

    /// Whether identity, limit and capabilities are those of another port.
    pub open spec fn same_terms(self, other: Self) -> bool {
        &&& self.attached_identity() == other.attached_identity()
        &&& self.limit() == other.limit()
        &&& self.selected() == other.selected()
    }

    /// Opens a port over a transport whose handshake has completed.
    pub fn open(transport: T, identity: PeerExpectation, negotiated: NegotiatedProtocol) -> (port:
        Self)
        ensures
            port.opened_with(identity, negotiated),
            port.carrier() == transport,
    {
        NativePort {
            transport,
            state: PortState::Open,
            identity,
            maximum_message: negotiated.maximum_message as usize,
            capabilities: negotiated.capabilities.capabilities(),
            lent: Vec::new(),
        }
    }

    /// Accepts a renderer HELLO over an already attached production transport.
    ///
    /// Stale bootstrap identity, malformed authentication, and transport failure are rejected.
    pub fn accept(
        envelope: BootstrapEnvelope,
        expectation: PeerExpectation,
        transport: T,
        maximum_message: usize,
        capabilities: TransportCapabilities,
    ) -> (accepted: Result<Self, ErrorReport>)
        ensures
            accept_rejection(envelope@, expectation, maximum_message) matches Some(error)
                ==> accepted is Err && accepted->Err_0 == error,
            accepted matches Ok(port) ==> exists|config: AcceptorConfig, hello: Seq<u8>|
                {
                    let selected = #[trigger] acceptance(config, hello);
                    &&& is_peer_answer(
                        config,
                        envelope@.secret,
                        expectation,
                        maximum_message,
                        capabilities,
                    )
                    &&& selected is Ok
                    &&& port.opened_with(expectation, selected->Ok_0)
                    &&& port.carrier().calls() == transport.calls().push(
                        PortCall::Received(Ok(Some(hello))),
                    ).push(PortCall::Sent(ack_bytes(config, selected->Ok_0), Ok(())))
                },
            accept_rejection(envelope@, expectation, maximum_message) is None
                ==> (accepted matches Err(error) ==> exists|
                config: AcceptorConfig,
                received: Result<Option<Seq<u8>>, ErrorReport>,
                sent: Result<(), ErrorReport>,
            |
                is_peer_answer(
                    config,
                    envelope@.secret,
                    expectation,
                    maximum_message,
                    capabilities,
                ) && #[trigger] answer_made(transport, config, received, sent)
                    && answering_failure(config, received, sent) == Some(error)),
    {
        envelope.validate_for(
            EndpointRole::Peer,
            expectation.session_id,
            expectation.generation,
            expectation.protocol,
        )?;
        let ghost given = transport;
        let mut transport = transport;
        if maximum_message == 0 || maximum_message > u32::MAX as usize {
            return Err(
                peer_error(
                    ErrorCode::InvalidRange,
                    Recoverability::ReplaceEndpoint,
                    "peer message limit",
                ),
            );
        }
        let version = protocol_version(expectation.protocol)?;
        let mut handshake = AcceptorHandshake::new(
            AcceptorConfig {
                identity: HandshakeIdentity {
                    session_id: expectation.session_id,
                    generation: expectation.generation,
                    role: HandshakeRole::Peer,
                },
                remote_role: HandshakeRole::Renderer,
                versions: VersionRange::exact(version),
                supported: SupportedCapabilities::new(capabilities),
                maximum_message: maximum_message as u32,
                proof_bytes: slice_to_vec(envelope.secret().expose()),
            },
        )?;
        let ghost config = handshake.config;
        proof {
            assert(is_peer_answer(
                config,
                envelope@.secret,
                expectation,
                maximum_message,
                capabilities,
            ));
        }
        let received = transport.receive();
        let ghost seen = frame_bytes(received);
        let ghost middle = transport;
        proof {
            if !(seen matches Ok(Some(hello)) && acceptance(config, hello) is Ok) {
                assert(answer_made(given, config, seen, Ok(())));
            }
        }
        let hello = match received? {
            Some(frame) => frame,
            None => {
                return Err(
                    peer_error(
                        ErrorCode::Timeout,
                        Recoverability::ReplaceEndpoint,
                        "peer renderer hello",
                    ),
                );
            },
        };
        let (answer, negotiated) = handshake.accept(hello.as_slice())?;
        let sent = transport.send(answer.as_slice());
        proof {
            assert(seen == Ok::<Option<Seq<u8>>, ErrorReport>(Some(hello@)));
            assert(acceptance(config, hello@) == Ok::<NegotiatedProtocol, ErrorReport>(negotiated));
            assert(middle.calls() == given.calls().push(PortCall::Received(seen)));
            assert(middle.sends(
                ack_bytes(config, acceptance(config, seen->Ok_0->0)->Ok_0),
                plain_outcome(sent),
            ));
            assert(answer_made(given, config, seen, plain_outcome(sent)));
        }
        sent?;
        proof {
            assert(is_peer_answer(
                config,
                envelope@.secret,
                expectation,
                maximum_message,
                capabilities,
            ));
            assert(acceptance(config, hello@) is Ok);
        }
        Ok(NativePort::open(transport, expectation, negotiated))
    }

    /// Validates bootstrap resources and completes HELLO/ACK before opening the port.
    ///
    /// Stale identity, unsupported providers, and a malformed handshake are rejected.
    pub fn attach(
        envelope: BootstrapEnvelope,
        expectation: PeerExpectation,
        transport: T,
        maximum_message: usize,
    ) -> (attached: Result<Self, ErrorReport>)
        ensures
            attach_rejection(envelope@, expectation, maximum_message) matches Some(error)
                ==> attached is Err && attached->Err_0 == error,
            attached matches Ok(port) ==> exists|config: InitiatorConfig, answer: Seq<u8>|
                {
                    let selected = #[trigger] acknowledgement(config, answer);
                    &&& is_peer_offer(config, envelope@.secret, expectation, maximum_message)
                    &&& selected is Ok
                    &&& port.opened_with(expectation, selected->Ok_0)
                    &&& port.carrier().calls() == transport.calls().push(
                        PortCall::Sent(hello_bytes(config), Ok(())),
                    ).push(PortCall::Received(Ok(Some(answer))))
                },
            attach_rejection(envelope@, expectation, maximum_message) is None
                ==> (attached matches Err(error) ==> exists|
                config: InitiatorConfig,
                sent: Result<(), ErrorReport>,
                received: Result<Option<Seq<u8>>, ErrorReport>,
            |
                is_peer_offer(config, envelope@.secret, expectation, maximum_message)
                    && #[trigger] offer_made(transport, config, sent, received)
                    && offering_failure(config, sent, received) == Some(error)),
    {
        envelope.validate_for(
            EndpointRole::Peer,
            expectation.session_id,
            expectation.generation,
            expectation.protocol,
        )?;
        let ghost given = transport;
        let mut transport = transport;
        if maximum_message == 0 || envelope.memory().provider() != ProviderKind::ProcessTest
            || envelope.signal().provider() != ProviderKind::ProcessTest {
            return Err(
                peer_error(
                    ErrorCode::Unsupported,
                    Recoverability::ReplaceEndpoint,
                    "attach peer provider",
                ),
            );
        }
        let mut handshake = peer_handshake(&envelope, expectation, maximum_message)?;
        let ghost config = handshake.config;
        let hello = handshake.hello()?;
        let sent = transport.send(hello.as_slice());
        let ghost told = plain_outcome(sent);
        let ghost middle = transport;
        proof {
            if told is Err {
                assert(offer_made(given, config, told, Ok(None)));
            }
        }
        sent?;
        let received = transport.receive();
        let ghost seen = frame_bytes(received);
        proof {
            assert(told == Ok::<(), ErrorReport>(()));
            assert(middle.receives(seen));
            assert(offer_made(given, config, told, seen));
        }
        let answer = match received? {
            Some(frame) => frame,
            None => {
                return Err(
                    peer_error(
                        ErrorCode::Timeout,
                        Recoverability::ReplaceEndpoint,
                        "peer handshake acknowledgement",
                    ),
                );
            },
        };
        let negotiated = handshake.acknowledge(answer.as_slice())?;
        proof {
            assert(acknowledgement(config, answer@) is Ok);
        }
        Ok(NativePort::open(transport, expectation, negotiated))
    }

    /// How trying to send changes a port: a refused payload leaves it as it is, retryable
    /// backpressure leaves it open, and any other transport failure invalidates it.
    pub open spec fn sent_as(
        self,
        after: Self,
        payload: Seq<u8>,
        sent: Result<(), ErrorReport>,
    ) -> bool {
        &&& after.same_terms(self)
        &&& if !(self.current_state() is Open) {
            sent is Err && sent->Err_0 == closed_report("peer send") && after == self
        } else if payload.len() > self.limit() {
            sent is Err && sent->Err_0 == oversize_report() && after == self
        } else {
            &&& after.carrier().calls() == self.carrier().calls().push(
                PortCall::Sent(data_frame(payload), plain_outcome(sent)),
            )
            &&& after.current_state() == match sent {
                Ok(_) => PortState::Open,
                Err(error) => if retryable(error) {
                    PortState::Open
                } else {
                    PortState::Failed
                },
            }
        }
    }

    /// How trying to receive changes a port.
    pub open spec fn taken_as(
        self,
        after: Self,
        event: Result<Option<PortEvent>, ErrorReport>,
    ) -> bool {
        &&& after.same_terms(self)
        &&& if self.current_state() is Open {
            exists|received: Result<Option<Seq<u8>>, ErrorReport>| #[trigger]
                self.received_as(after, received, event)
        } else {
            event is Err && event->Err_0 == closed_report("peer receive") && after == self
        }
    }

    /// What one look at the transport made of an open port, and what its caller was told.
    pub open spec fn received_as(
        self,
        after: Self,
        received: Result<Option<Seq<u8>>, ErrorReport>,
        event: Result<Option<PortEvent>, ErrorReport>,
    ) -> bool {
        let looked = self.carrier().calls().push(PortCall::Received(received));
        match received {
            Err(error) => {
                &&& event == Err::<Option<PortEvent>, ErrorReport>(error)
                &&& after.current_state() is Failed
                &&& after.carrier().calls() == looked
            },
            Ok(None) => {
                &&& event == Ok::<Option<PortEvent>, ErrorReport>(None)
                &&& after.current_state() is Open
                &&& after.carrier().calls() == looked
            },
            Ok(Some(frame)) => {
                &&& after.current_state() == Self::reception(PortState::Open, self.limit(), frame)
                &&& match frame_meaning(frame, self.limit()) {
                    FrameMeaning::Message(payload) => {
                        &&& event matches Ok(Some(PortEvent::Message(bytes))) && bytes@ == payload
                        &&& after.carrier().calls() == looked
                    },
                    FrameMeaning::Close => {
                        &&& event is Ok ==> event == Ok::<Option<PortEvent>, ErrorReport>(
                            Some(PortEvent::Closed),
                        )
                        &&& after.carrier().calls() == looked.push(
                            PortCall::Released(plain_outcome(event)),
                        )
                    },
                    FrameMeaning::Malformed => {
                        &&& event == Err::<Option<PortEvent>, ErrorReport>(frame_report())
                        &&& after.carrier().calls() == looked
                    },
                }
            },
        }
    }

    /// How closing changes a port: an open one announces it, and the state changes only where
    /// everything succeeded.
    pub open spec fn closed_as(self, after: Self, closed: Result<(), ErrorReport>) -> bool {
        let before = self.carrier().calls();
        let calls = after.carrier().calls();
        let outcome = plain_outcome(closed);
        match self.current_state() {
            PortState::Closed => closed is Ok && after == self,
            PortState::Failed => {
                &&& calls == before.push(PortCall::Released(outcome))
                &&& after.current_state() == if closed is Ok {
                    PortState::Closed
                } else {
                    PortState::Failed
                }
            },
            PortState::Open => {
                let announced = before.push(PortCall::Sent(seq![CLOSE_KIND], Ok(())));
                &&& after.current_state() == if closed is Ok {
                    PortState::Closed
                } else {
                    PortState::Open
                }
                &&& {
                    ||| calls == announced.push(PortCall::Released(outcome))
                    ||| closed is Err && calls == before.push(
                        PortCall::Sent(seq![CLOSE_KIND], outcome),
                    )
                }
            },
        }
    }

    fn ensure_open(&self, operation: &'static str) -> (checked: Result<(), ErrorReport>)
        ensures
            match checked {
                Ok(_) => self.current_state() is Open,
                Err(error) => !(self.current_state() is Open) && error == closed_report(operation),
            },
    {
        match self.state {
            PortState::Open => Ok(()),
            _ => Err(peer_error(ErrorCode::Closed, Recoverability::Terminal, operation)),
        }
    }

    /// Sends one complete application message.
    ///
    /// `Closed`, `MessageTooLarge`, `Backpressured`, or a transport failure is returned. After
    /// retryable backpressure the message may be sent again; any other failure of the transport
    /// invalidates the port.
    pub fn try_send(&mut self, payload: &[u8]) -> (sent: Result<(), ErrorReport>)
        ensures
            old(self).sent_as(*final(self), payload@, sent),
    {
        self.ensure_open("peer send")?;
        if payload.len() > self.maximum_message {
            return Err(
                peer_error(ErrorCode::MessageTooLarge, Recoverability::Terminal, "peer send"),
            );
        }
        let mut frame: Vec<u8> = Vec::new();
        frame.push(DATA_KIND);
        push_bytes(&mut frame, payload);
        proof {
            assert(frame@ =~= data_frame(payload@));
        }
        let sent = self.transport.send(frame.as_slice());
        if let Err(error) = &sent {
            if !is_retryable_backpressure(error) {
                self.state = PortState::Failed;
            }
        }
        sent
    }

    /// What becomes of a port, and what its caller is told, for what its transport received.
    pub open spec fn reception(state: PortState, limit: usize, frame: Seq<u8>) -> PortState {
        match frame_meaning(frame, limit) {
            FrameMeaning::Message(_) => state,
            FrameMeaning::Close => PortState::Closed,
            FrameMeaning::Malformed => PortState::Failed,
        }
    }

    /// Accepts a frame that the transport received.
    ///
    /// A frame that is neither a message within the limit nor a close invalidates the port. A
    /// close releases the transport.
    pub fn accept_frame(&mut self, frame: &[u8]) -> (event: Result<Option<PortEvent>, ErrorReport>)
        requires
            old(self).current_state() is Open,
        ensures
            final(self).same_terms(*old(self)),
            final(self).current_state() == Self::reception(
                old(self).current_state(),
                old(self).limit(),
                frame@,
            ),
            match frame_meaning(frame@, old(self).limit()) {
                FrameMeaning::Message(payload) => {
                    &&& event matches Ok(Some(PortEvent::Message(bytes))) && bytes@ == payload
                    &&& *final(self) == *old(self)
                },
                FrameMeaning::Close => {
                    &&& event is Ok ==> event->Ok_0 is Some && event->Ok_0->0 is Closed
                    &&& final(self).carrier().calls() == old(self).carrier().calls().push(
                        PortCall::Released(plain_outcome(event)),
                    )
                },
                FrameMeaning::Malformed => {
                    &&& event is Err
                    &&& event->Err_0 == frame_report()
                    &&& final(self).carrier() == old(self).carrier()
                },
            },
    {
        match interpret_frame(frame, self.maximum_message) {
            Some(PortEvent::Message(payload)) => Ok(Some(PortEvent::Message(payload))),
            Some(PortEvent::Closed) => {
                self.state = PortState::Closed;
                self.transport.close()?;
                Ok(Some(PortEvent::Closed))
            },
            None => {
                self.state = PortState::Failed;
                Err(
                    peer_error(
                        ErrorCode::ProtocolViolation,
                        Recoverability::ReplaceEndpoint,
                        "peer receive frame",
                    ),
                )
            },
        }
    }

    /// Receives one complete event.
    ///
    /// A transport or protocol failure is returned and invalidates the current port.
    pub fn try_receive(&mut self) -> (event: Result<Option<PortEvent>, ErrorReport>)
        ensures
            old(self).taken_as(*final(self), event),
    {
        self.ensure_open("peer receive")?;
        let received = self.transport.receive();
        let ghost seen = frame_bytes(received);
        let event = match received {
            Err(error) => {
                self.state = PortState::Failed;
                Err(error)
            },
            Ok(None) => Ok(None),
            Ok(Some(frame)) => self.accept_frame(frame.as_slice()),
        };
        proof {
            assert(old(self).received_as(*self, seen, event));
        }
        event
    }

    /// Receives one complete event and lends its bytes until the next use of the port.
    ///
    /// A transport or protocol failure is returned and invalidates the current port.
    pub fn try_receive_borrowed<'port>(&'port mut self) -> (event: Result<
        Option<BorrowedPortEvent<'port>>,
        ErrorReport,
    >)
        ensures
            final(self).same_terms(*old(self)),
            !(old(self).current_state() is Open) ==> event is Err && event->Err_0 == closed_report(
                "peer receive",
            ) && *final(self) == *old(self),
            old(self).current_state() is Open ==> exists|
                received: Result<Option<Seq<u8>>, ErrorReport>,
                owned: Result<Option<PortEvent>, ErrorReport>,
            | #[trigger]
                old(self).received_as(*final(self), received, owned) && lent_from(owned, event),
    {
        let owned = self.try_receive();
        let ghost taken = owned;
        let ghost before = *old(self);
        let ghost received = choose|received: Result<Option<Seq<u8>>, ErrorReport>| #[trigger]
            before.received_as(*self, received, taken);
        match owned? {
            Some(PortEvent::Message(payload)) => {
                self.lent = payload;
                proof {
                    assert(before.received_as(*self, received, taken));
                }
                Ok(Some(BorrowedPortEvent::Message(self.lent.as_slice())))
            },
            Some(PortEvent::Closed) => Ok(Some(BorrowedPortEvent::Closed)),
            None => Ok(None),
        }
    }

    /// Sends a graceful close and idempotently releases transport resources.
    ///
    /// The first provider cleanup failure is returned.
    pub fn close(&mut self) -> (closed: Result<(), ErrorReport>)
        ensures
            final(self).same_terms(*old(self)),
            old(self).closed_as(*final(self), closed),
    {
        match self.state {
            PortState::Closed => {
                return Ok(());
            },
            PortState::Open => {
                let mut frame: Vec<u8> = Vec::new();
                frame.push(CLOSE_KIND);
                proof {
                    assert(frame@ =~= seq![CLOSE_KIND]);
                }
                self.transport.send(frame.as_slice())?;
            },
            PortState::Failed => {},
        }
        self.transport.close()?;
        self.state = PortState::Closed;
        Ok(())
    }

    /// Current port state.
    pub fn state(&self) -> (state: PortState)
        ensures
            state == self.current_state(),
    {
        self.state
    }

    /// Generation identity attached to this port.
    pub fn identity(&self) -> (identity: PeerExpectation)
        ensures
            identity == self.attached_identity(),
    {
        self.identity
    }

    /// Capabilities negotiated for this endpoint.
    pub fn capabilities(&self) -> (capabilities: TransportCapabilities)
        ensures
            capabilities == self.selected(),
    {
        self.capabilities
    }
}

impl<T: PortTransport> NativePort<T> {
    /// Negotiated capabilities plus the borrowed receive that this port offers by itself.
    pub fn api_capabilities(&self) -> (capabilities: TransportCapabilities)
        ensures
            capabilities.bits == self.selected().bits | BORROWED_RECEIVE,
    {
        self.capabilities.union(TransportCapabilities::from_bits(BORROWED_RECEIVE))
    }
}

/// Nonblocking operations of a port, for adapters that add waiting.
pub trait PeerPort: Sized {
    /// How sending a payload with this outcome changes the port.
    open spec fn sends(self, after: Self, payload: Seq<u8>, sent: Result<(), ErrorReport>) -> bool {
        arbitrary()
    }

    /// How receiving with this outcome changes the port.
    open spec fn receives(
        self,
        after: Self,
        event: Result<Option<PortEvent>, ErrorReport>,
    ) -> bool {
        arbitrary()
    }

    /// How closing with this outcome changes the port.
    open spec fn closes(self, after: Self, closed: Result<(), ErrorReport>) -> bool {
        arbitrary()
    }

    /// The state of the port.
    open spec fn standing(self) -> PortState {
        arbitrary()
    }

    /// Sends one complete message without waiting.
    fn try_send(&mut self, payload: &[u8]) -> (sent: Result<(), ErrorReport>)
        ensures
            old(self).sends(*final(self), payload@, sent),
    ;

    /// Receives one event without waiting.
    fn try_receive(&mut self) -> (event: Result<Option<PortEvent>, ErrorReport>)
        ensures
            old(self).receives(*final(self), event),
    ;

    /// Closes the port.
    fn close(&mut self) -> (closed: Result<(), ErrorReport>)
        ensures
            old(self).closes(*final(self), closed),
    ;

    /// Current state of the port.
    fn state(&self) -> (state: PortState)
        ensures
            state == self.standing(),
    ;
}

impl<T: PortTransport> PeerPort for NativePort<T> {
    open spec fn sends(self, after: Self, payload: Seq<u8>, sent: Result<(), ErrorReport>) -> bool {
        self.sent_as(after, payload, sent)
    }

    open spec fn receives(
        self,
        after: Self,
        event: Result<Option<PortEvent>, ErrorReport>,
    ) -> bool {
        self.taken_as(after, event)
    }

    open spec fn closes(self, after: Self, closed: Result<(), ErrorReport>) -> bool {
        after.same_terms(self) && self.closed_as(after, closed)
    }

    open spec fn standing(self) -> PortState {
        self.current_state()
    }

    fn try_send(&mut self, payload: &[u8]) -> Result<(), ErrorReport> {
        NativePort::try_send(self, payload)
    }

    fn try_receive(&mut self) -> Result<Option<PortEvent>, ErrorReport> {
        NativePort::try_receive(self)
    }

    fn close(&mut self) -> Result<(), ErrorReport> {
        NativePort::close(self)
    }

    fn state(&self) -> PortState {
        NativePort::state(self)
    }
}

/// A message that one port may send is a message to a port with the same limit.
pub proof fn law_sent_messages_are_received(payload: Seq<u8>, maximum_message: usize)
    requires
        payload.len() <= maximum_message,
    ensures
        frame_meaning(data_frame(payload), maximum_message) == FrameMeaning::Message(payload),
        frame_meaning(seq![CLOSE_KIND], maximum_message) == FrameMeaning::Close,
{
    let frame = data_frame(payload);
    assert(frame.subrange(1, frame.len() as int) =~= payload);
}

/// A message that was refused with retryable backpressure may be sent again: the port is still
/// open, and the next attempt reaches the transport.
pub proof fn law_backpressured_messages_may_be_sent_again<T: PortTransport>(
    before: NativePort<T>,
    refused: NativePort<T>,
    error: ErrorReport,
    after: NativePort<T>,
    payload: Seq<u8>,
    sent: Result<(), ErrorReport>,
)
    requires
        before.current_state() is Open,
        payload.len() <= before.limit(),
        before.sent_as(refused, payload, Err(error)),
        retryable(error),
        refused.sent_as(after, payload, sent),
    ensures
        refused.current_state() is Open,
        after.carrier().calls() == before.carrier().calls().push(
            PortCall::Sent(data_frame(payload), Err(error)),
        ).push(PortCall::Sent(data_frame(payload), plain_outcome(sent))),
{
}

/// A frame is a message exactly where it is the frame of that message and the message is within
/// the limit; every frame that is neither that nor a lone close is malformed.
pub proof fn law_frames_mean_what_they_carry(frame: Seq<u8>, maximum_message: usize)
    ensures
        match frame_meaning(frame, maximum_message) {
            FrameMeaning::Message(payload) => frame == data_frame(payload) && payload.len()
                <= maximum_message,
            FrameMeaning::Close => frame == seq![CLOSE_KIND],
            FrameMeaning::Malformed => frame != seq![CLOSE_KIND] && forall|payload: Seq<u8>|
                payload.len() <= maximum_message ==> frame != #[trigger] data_frame(payload),
        },
{
    match frame_meaning(frame, maximum_message) {
        FrameMeaning::Message(payload) => {
            assert(frame =~= data_frame(payload));
        },
        FrameMeaning::Close => {
            assert(frame =~= seq![CLOSE_KIND]);
        },
        FrameMeaning::Malformed => {
            assert forall|payload: Seq<u8>| payload.len() <= maximum_message implies frame
                != #[trigger] data_frame(payload) by {
                law_sent_messages_are_received(payload, maximum_message);
            }
        },
    }
}

/// What one port sent, another one that receives the very frame hands out, where its own limit
/// admits the message; and what closed one port closes the other one.
pub proof fn law_ports_deliver<T: PortTransport>(
    sender: NativePort<T>,
    sent_by: NativePort<T>,
    payload: Seq<u8>,
    closed_by: NativePort<T>,
    receiver: NativePort<T>,
    after: NativePort<T>,
    frame: Seq<u8>,
    event: Result<Option<PortEvent>, ErrorReport>,
)
    requires
        sender.current_state() is Open,
        receiver.received_as(after, Ok(Some(frame)), event),
    ensures
        sender.sent_as(sent_by, payload, Ok(())) && sent_by.carrier().calls()
            == sender.carrier().calls().push(PortCall::Sent(frame, Ok(()))) && payload.len()
            <= receiver.limit() ==> after.current_state() is Open && (event matches Ok(
            Some(PortEvent::Message(bytes)),
        ) && bytes@ == payload),
        sender.closed_as(closed_by, Ok(())) && closed_by.carrier().calls()
            == sender.carrier().calls().push(PortCall::Sent(frame, Ok(()))).push(
            PortCall::Released(Ok(())),
        ) ==> after.current_state() is Closed && (event is Ok ==> event->Ok_0 is Some
            && event->Ok_0->0 is Closed),
{
    let calls = sender.carrier().calls();
    if sender.sent_as(sent_by, payload, Ok(())) && sent_by.carrier().calls() == calls.push(
        PortCall::Sent(frame, Ok(())),
    ) && payload.len() <= receiver.limit() {
        let expected = calls.push(PortCall::Sent(data_frame(payload), Ok(())));
        assert(expected.last() == sent_by.carrier().calls().last());
        law_sent_messages_are_received(payload, receiver.limit());
    }
    if sender.closed_as(closed_by, Ok(())) && closed_by.carrier().calls() == calls.push(
        PortCall::Sent(frame, Ok(())),
    ).push(PortCall::Released(Ok(()))) {
        let announced = calls.push(PortCall::Sent(seq![CLOSE_KIND], Ok(())));
        let expected = announced.push(PortCall::Released(Ok(())));
        let found = closed_by.carrier().calls();
        assert(expected[calls.len() as int] == found[calls.len() as int]);
        law_sent_messages_are_received(Seq::empty(), receiver.limit());
    }
}

/// A port that is not open makes no call and hands out nothing; once it is closed it stays so
/// whatever is asked of it, and one that failed can only be closed.
pub proof fn law_ended_ports_stay_ended<T: PortTransport>(
    port: NativePort<T>,
    after: NativePort<T>,
    payload: Seq<u8>,
    sent: Result<(), ErrorReport>,
    event: Result<Option<PortEvent>, ErrorReport>,
    closed: Result<(), ErrorReport>,
)
    requires
        !(port.current_state() is Open),
    ensures
        port.sent_as(after, payload, sent) ==> after == port && (sent matches Err(error)
            && error.code is Closed),
        port.taken_as(after, event) ==> after == port && (event matches Err(error)
            && error.code is Closed),
        port.closed_as(after, closed) ==> !(after.current_state() is Open),
        port.closed_as(after, closed) && port.current_state() is Closed ==> after == port
            && closed is Ok,
        port.closed_as(after, closed) && port.current_state() is Failed ==> (
        after.current_state() is Closed <==> closed is Ok),
{
}

/// Sending never closes a port: it stays open where the message went out or may be sent again,
/// and where the message was refused before anything was called; any other failure ends it.
pub proof fn law_only_failures_of_the_transport_end_a_port<T: PortTransport>(
    port: NativePort<T>,
    after: NativePort<T>,
    payload: Seq<u8>,
    sent: Result<(), ErrorReport>,
)
    requires
        port.current_state() is Open,
        port.sent_as(after, payload, sent),
    ensures
        payload.len() > port.limit() <==> after.carrier().calls() == port.carrier().calls(),
        payload.len() > port.limit() ==> sent is Err && sent->Err_0.code is MessageTooLarge,
        payload.len() <= port.limit() ==> after.carrier().calls().len()
            == port.carrier().calls().len() + 1,
        !(after.current_state() is Closed),
        after.current_state() is Failed <==> payload.len() <= port.limit() && (sent matches Err(
            error,
        ) && !(error.code is Backpressured && error.recoverability is Retryable)),
{
    assert(after.carrier().calls().len() != port.carrier().calls().len() ==> after.carrier().calls()
        != port.carrier().calls());
}

/// Looking for a frame keeps a port open exactly where there was none or it carried a message; a
/// close closes it and every failure and every malformed frame ends it.
pub proof fn law_frames_decide_over_a_port<T: PortTransport>(
    port: NativePort<T>,
    after: NativePort<T>,
    received: Result<Option<Seq<u8>>, ErrorReport>,
    event: Result<Option<PortEvent>, ErrorReport>,
)
    requires
        port.current_state() is Open,
        port.received_as(after, received, event),
    ensures
        after.current_state() is Failed ==> event is Err,
        after.current_state() is Closed <==> received == Ok::<Option<Seq<u8>>, ErrorReport>(
            Some(seq![CLOSE_KIND]),
        ),
        received is Err ==> after.current_state() is Failed,
        received matches Ok(None) ==> after.current_state() is Open && (event matches Ok(None)),
        event matches Ok(Some(PortEvent::Message(bytes))) ==> received == Ok::<
            Option<Seq<u8>>,
            ErrorReport,
        >(Some(data_frame(bytes@))) && after.current_state() is Open,
        event matches Ok(Some(PortEvent::Closed)) ==> after.current_state() is Closed,
{
    if let Ok(Some(frame)) = received {
        law_frames_mean_what_they_carry(frame, port.limit());
        law_sent_messages_are_received(Seq::empty(), port.limit());
    }
}

/// An open port that is closed says so before it lets go of its transport, and is closed exactly
/// where both went well.
pub proof fn law_closing_is_announced<T: PortTransport>(
    port: NativePort<T>,
    after: NativePort<T>,
    closed: Result<(), ErrorReport>,
)
    requires
        port.current_state() is Open,
        port.closed_as(after, closed),
    ensures
        ({
            let before = port.carrier().calls();
            let calls = after.carrier().calls();
            &&& calls.len() > before.len()
            &&& calls[before.len() as int] matches PortCall::Sent(frame, _) && frame
                == seq![CLOSE_KIND]
            &&& after.current_state() is Closed <==> closed is Ok
            &&& after.current_state() is Open <==> closed is Err
            &&& closed is Ok ==> calls.last() is Released && calls.len() == before.len() + 2
        }),
{
}

/// Every version from one to the largest byte can be offered, and the interval that is offered
/// holds that version alone.
pub proof fn law_one_version_is_offered(protocol: u16, version: ProtocolVersion)
    requires
        offerable(protocol),
    ensures
        1 <= protocol <= 255,
        exact_versions(protocol).minimum.rank() <= version.rank()
            <= exact_versions(protocol).maximum.rank() <==> version.major == protocol
            && version.minor == 0,
{
}

/// A failure of a peer keeps its code and its recoverability; what is not supported, closed, late
/// or out of resources is told apart from a violated protocol.
pub proof fn law_peer_failures_have_their_class(
    code: ErrorCode,
    recoverability: Recoverability,
    operation: &'static str,
)
    ensures
        peer_report(code, recoverability, operation).code == code,
        peer_report(code, recoverability, operation).context == operation,
        peer_report(code, recoverability, operation).recoverability == recoverability,
        peer_report(code, recoverability, operation).category is Unsupported
            <==> code is Unsupported,
        peer_report(code, recoverability, operation).category is Closed <==> code is Closed,
        peer_report(code, recoverability, operation).category is Timeout <==> code is Timeout,
        peer_report(code, recoverability, operation).category is Resource
            <==> code is MessageTooLarge || code is Backpressured,
        !(code is Unsupported || code is Closed || code is Timeout || code is MessageTooLarge
            || code is Backpressured)
                ==> peer_report(code, recoverability, operation).category is Protocol,
{
}

/// A peer waits or attaches only with an envelope for it, of its own session and generation, that
/// offers its version and carries a secret, and with a limit that a message can have.
pub proof fn law_peers_begin_with_their_own_envelope(
    envelope: EnvelopeView,
    expectation: PeerExpectation,
    maximum_message: usize,
)
    requires
        accept_rejection(envelope, expectation, maximum_message) is None || attach_rejection(
            envelope,
            expectation,
            maximum_message,
        ) is None,
    ensures
        envelope.role is Peer,
        envelope.session_id == expectation.session_id,
        envelope.generation == expectation.generation,
        envelope.protocols.lowest() <= expectation.protocol <= envelope.protocols.highest(),
        envelope.secret.len() > 0,
        0 < maximum_message <= u32::MAX,
{
}

} // verus!
