//! Safe public facade for a native peer process.

use vstd::prelude::*;
use vstd::string::StringSliceAdditionalSpecFns;

use crate::bootstrap::peer::{consume, consumed};
use crate::bootstrap::schema::ProviderKind;
use crate::domain::bytes::{le_at, le_bytes, push_bytes, push_u32, read_u128, read_u32};
use crate::domain::capabilities::{TransportCapabilities, BORROWED_RECEIVE};
use crate::domain::error::{report, ErrorCategory, ErrorCode, ErrorReport, Recoverability};
use crate::domain::text::{decimal_value, decode_hex, hex_bytes, parse_decimal};
use crate::domain::types::{group_identities, Generation, SessionId};
use crate::peer::port::{
    attach_rejection, closed_report, is_peer_offer, lent_from, offer_made, offering_failure,
    BorrowedPortEvent, NativePort, PeerExpectation, PeerPort, PortCall, PortEvent, PortState,
    PortTransport,
};
use crate::protocol::{acknowledgement, hello_bytes, InitiatorConfig};

verus! {

broadcast use group_identities;

/// Default maximum logical application message.
pub const DEFAULT_MAXIMUM_MESSAGE: usize = 1024 * 1024;

/// Largest frame on a stream.
pub const MAXIMUM_STREAM_FRAME: usize = 1024 * 1024 + 64;

/// Environment variable of the session identity.
pub const SESSION_ENV: &'static str = "NWIPC_SESSION_ID";

/// Environment variable of the generation.
pub const GENERATION_ENV: &'static str = "NWIPC_GENERATION";

/// Environment variable of the protocol version.
pub const PROTOCOL_ENV: &'static str = "NWIPC_PROTOCOL";

/// The report of an unusable environment variable.
pub open spec fn configuration_report(operation: &'static str) -> ErrorReport {
    report(
        ErrorCategory::Configuration,
        ErrorCode::ProtocolViolation,
        Recoverability::Terminal,
        operation,
    )
}

fn configuration_error(operation: &'static str) -> (created: ErrorReport)
    ensures
        created == configuration_report(operation),
{
    ErrorReport::new(
        ErrorCategory::Configuration,
        ErrorCode::ProtocolViolation,
        Recoverability::Terminal,
        operation,
    )
}

/// The session identity that a text spells in hexadecimal, lowest byte first.
pub open spec fn session_in(text: Seq<u8>) -> Option<SessionId> {
    match hex_bytes(text) {
        Some(bytes) => if text.len() == 32 && bytes.len() == 16 && le_at(bytes, 0, 16) != 0 {
            Some(SessionId::of(le_at(bytes, 0, 16) as u128))
        } else {
            None
        },
        None => None,
    }
}

/// Decodes a session identity of 32 hexadecimal characters.
pub fn decode_session(value: &str) -> (session: Option<SessionId>)
    ensures
        session == session_in(value.spec_bytes()),
{
    if value.as_bytes().len() != 32 {
        return None;
    }
    match decode_hex(value) {
        Some(bytes) => {
            if bytes.len() != 16 {
                return None;
            }
            SessionId::new(read_u128(bytes.as_slice(), 0))
        },
        None => None,
    }
}

/// The generation that a text spells.
pub open spec fn generation_in(text: Seq<u8>) -> Option<Generation> {
    match decimal_value(text) {
        Some(number) => if 0 < number <= u64::MAX {
            Some(Generation::of(number as u64))
        } else {
            None
        },
        None => None,
    }
}

/// The protocol version that a text spells.
pub open spec fn protocol_in(text: Seq<u8>) -> Option<u16> {
    match decimal_value(text) {
        Some(number) => if 0 < number <= u16::MAX {
            Some(number as u16)
        } else {
            None
        },
        None => None,
    }
}

/// The bytes of a text that may be absent.
pub open spec fn text_option(text: Option<&str>) -> Option<Seq<u8>> {
    match text {
        Some(found) => Some(found.spec_bytes()),
        None => None,
    }
}

/// What the values of the environment variables promise a peer.
pub open spec fn expectation_in(
    session: Option<Seq<u8>>,
    generation: Option<Seq<u8>>,
    protocol: Option<Seq<u8>>,
) -> Result<PeerExpectation, ErrorReport> {
    let first = match session {
        Some(text) => session_in(text),
        None => None,
    };
    let second = match generation {
        Some(text) => generation_in(text),
        None => None,
    };
    let third = match protocol {
        Some(text) => protocol_in(text),
        None => None,
    };
    match (first, second, third) {
        (None, _, _) => Err(configuration_report(SESSION_ENV)),
        (_, None, _) => Err(configuration_report(GENERATION_ENV)),
        (_, _, None) => Err(configuration_report(PROTOCOL_ENV)),
        (Some(session_id), Some(generation), Some(protocol)) => Ok(
            PeerExpectation { session_id, generation, protocol },
        ),
    }
}

/// Parses the values of the environment variables that a parent sets.
///
/// The first variable that is absent or malformed is named in the report.
pub fn expectation_from_values(
    session: Option<&str>,
    generation: Option<&str>,
    protocol: Option<&str>,
) -> (expectation: Result<PeerExpectation, ErrorReport>)
    ensures
        expectation == expectation_in(
            text_option(session),
            text_option(generation),
            text_option(protocol),
        ),
{
    let session_id = match session {
        Some(text) => decode_session(text),
        None => None,
    };
    let session_id = match session_id {
        Some(found) => found,
        None => {
            return Err(configuration_error(SESSION_ENV));
        },
    };
    let generation = match generation {
        Some(text) => match parse_decimal(text, u64::MAX) {
            Some(number) => Generation::new(number),
            None => None,
        },
        None => None,
    };
    let generation = match generation {
        Some(found) => found,
        None => {
            return Err(configuration_error(GENERATION_ENV));
        },
    };
    let number: u64 = match protocol {
        Some(text) => match parse_decimal(text, u16::MAX as u64) {
            Some(number) => number,
            None => 0,
        },
        None => 0,
    };
    if number == 0 {
        return Err(configuration_error(PROTOCOL_ENV));
    }
    Ok(PeerExpectation { session_id, generation, protocol: number as u16 })
}

/// A step of a stream transport that can fail.
#[derive(Clone, Copy, Debug, PartialEq, Eq, Structural)]
pub enum StreamStep {
    /// Writing a frame.
    Write,
    /// Reading the first byte of a frame, or finding the end of the input in its place.
    FirstByte,
    /// Reading the rest of a frame.
    Rest,
    /// Flushing a closed stream.
    Close,
}

/// The report of a rejected or broken stream.
pub open spec fn stream_report(code: ErrorCode, operation: &'static str) -> ErrorReport {
    report(
        if code is Closed {
            ErrorCategory::Closed
        } else {
            ErrorCategory::Protocol
        },
        code,
        Recoverability::ReplaceEndpoint,
        operation,
    )
}

fn stream_error(code: ErrorCode, operation: &'static str) -> (created: ErrorReport)
    ensures
        created == stream_report(code, operation),
{
    let category = match code {
        ErrorCode::Closed => ErrorCategory::Closed,
        _ => ErrorCategory::Protocol,
    };
    ErrorReport::new(category, code, Recoverability::ReplaceEndpoint, operation)
}

/// Reports a failed step of a stream transport without its native details.
pub fn stream_failure(step: StreamStep) -> (created: ErrorReport)
    ensures
        created == match step {
            StreamStep::Write => stream_report(ErrorCode::Closed, "write peer frame"),
            StreamStep::FirstByte => stream_report(ErrorCode::Closed, "read peer frame"),
            StreamStep::Rest => stream_report(ErrorCode::Truncated, "read peer frame"),
            StreamStep::Close => stream_report(ErrorCode::Closed, "close peer stream"),
        },
{
    match step {
        StreamStep::Write => stream_error(ErrorCode::Closed, "write peer frame"),
        StreamStep::FirstByte => stream_error(ErrorCode::Closed, "read peer frame"),
        StreamStep::Rest => stream_error(ErrorCode::Truncated, "read peer frame"),
        StreamStep::Close => stream_error(ErrorCode::Closed, "close peer stream"),
    }
}

/// Whether a frame may stand on a stream.
pub open spec fn streamable(length: nat) -> bool {
    0 < length <= MAXIMUM_STREAM_FRAME
}

/// Frames what is written to a stream.
///
/// A closed stream and an empty or oversized frame are rejected.
pub fn stream_frame(closed: bool, frame: &[u8]) -> (bytes: Result<Vec<u8>, ErrorReport>)
    ensures
        match bytes {
            Ok(found) => !closed && streamable(frame@.len()) && found@ == le_bytes(
                frame@.len(),
                4,
            ) + frame@,
            Err(error) => if closed {
                error == stream_report(ErrorCode::Closed, "write peer frame")
            } else {
                !streamable(frame@.len()) && error == stream_report(
                    ErrorCode::InvalidRange,
                    "write peer frame",
                )
            },
        },
{
    if closed {
        return Err(stream_error(ErrorCode::Closed, "write peer frame"));
    }
    if frame.len() == 0 || frame.len() > MAXIMUM_STREAM_FRAME {
        return Err(stream_error(ErrorCode::InvalidRange, "write peer frame"));
    }
    let mut bytes: Vec<u8> = Vec::new();
    push_u32(&mut bytes, frame.len() as u32);
    push_bytes(&mut bytes, frame);
    proof {
        assert(bytes@ =~= le_bytes(frame@.len(), 4) + frame@);
    }
    Ok(bytes)
}

/// Decides how many bytes follow a length prefix on a stream.
///
/// `InvalidRange` is returned for an empty or oversized frame.
pub fn stream_frame_length(prefix: &[u8]) -> (length: Result<usize, ErrorReport>)
    requires
        prefix@.len() == 4,
    ensures
        match length {
            Ok(count) => count == le_at(prefix@, 0, 4) && streamable(count as nat),
            Err(error) => !streamable(le_at(prefix@, 0, 4)) && error == stream_report(
                ErrorCode::InvalidRange,
                "read peer frame",
            ),
        },
{
    let length: u32 = read_u32(prefix, 0);
    if length == 0 || length as usize > MAXIMUM_STREAM_FRAME {
        return Err(stream_error(ErrorCode::InvalidRange, "read peer frame"));
    }
    Ok(length as usize)
}

/// How a peer attaches its transport.
#[derive(Clone, Copy, Debug, PartialEq, Eq, Structural)]
pub enum PeerCarrier {
    /// Standard streams, offered to the parent.
    Streams,
    /// Production memory and signals, answered to the renderer.
    Production,
}

/// Selects the transport that an envelope asks for.
pub fn select_carrier(memory: ProviderKind, signal: ProviderKind) -> (carrier: PeerCarrier)
    ensures
        carrier == if memory is ProcessTest && signal is ProcessTest {
            PeerCarrier::Streams
        } else {
            PeerCarrier::Production
        },
{
    match (memory, signal) {
        (ProviderKind::ProcessTest, ProviderKind::ProcessTest) => PeerCarrier::Streams,
        _ => PeerCarrier::Production,
    }
}

/// What an echo loop does next.
#[derive(Debug, PartialEq, Eq)]
pub enum EchoStep {
    /// Send this message back.
    Send(Vec<u8>),
    /// Wait a moment, then try again.
    Pause,
    /// The parent closed.
    Stop,
}

/// Decides what an echo loop does with what it received.
pub fn echo_received(event: Option<PortEvent>) -> (step: EchoStep)
    ensures
        match event {
            Some(PortEvent::Message(payload)) => step == EchoStep::Send(payload),
            Some(PortEvent::Closed) => step is Stop,
            None => step is Pause,
        },
{
    match event {
        Some(PortEvent::Message(payload)) => EchoStep::Send(payload),
        Some(PortEvent::Closed) => EchoStep::Stop,
        None => EchoStep::Pause,
    }
}

/// Decides whether an echo loop tries a rejected message again.
pub fn echo_retries(error: &ErrorReport) -> (again: bool)
    ensures
        again == (error.code is Backpressured),
{
    match error.code() {
        ErrorCode::Backpressured => true,
        _ => false,
    }
}

/// Native peer facade.
pub struct Peer<T> {
    port: NativePort<T>,
}

impl<T: PortTransport> Peer<T> {
    /// The port of the peer.
    pub closed spec fn inner(self) -> NativePort<T> {
        self.port
    }

    /// Opens a peer over a port that was attached or accepted.
    pub fn from_port(port: NativePort<T>) -> (peer: Self)
        ensures
            peer.inner() == port,
    {
        Peer { port }
    }

    /// Opens a peer over framed streams, of which `bootstrap` was read first.
    ///
    /// A typed bootstrap or handshake error is returned.
    pub fn from_streams(bootstrap: &[u8], transport: T, expectation: PeerExpectation) -> (opened:
        Result<Self, ErrorReport>)
        ensures
            match consumed(bootstrap@) {
                Err(error) => opened is Err && opened->Err_0 == error,
                Ok(envelope) => {
                    &&& attach_rejection(
                        envelope,
                        expectation,
                        DEFAULT_MAXIMUM_MESSAGE,
                    ) matches Some(error) ==> opened is Err && opened->Err_0 == error
                    &&& opened matches Ok(peer) ==> exists|
                        config: InitiatorConfig,
                        answer: Seq<u8>,
                    |
                        {
                            let selected = #[trigger] acknowledgement(config, answer);
                            &&& is_peer_offer(
                                config,
                                envelope.secret,
                                expectation,
                                DEFAULT_MAXIMUM_MESSAGE,
                            )
                            &&& selected is Ok
                            &&& peer.inner().opened_with(expectation, selected->Ok_0)
                            &&& peer.inner().carrier().calls() == transport.calls().push(
                                PortCall::Sent(hello_bytes(config), Ok(())),
                            ).push(PortCall::Received(Ok(Some(answer))))
                        }
                    &&& attach_rejection(
                        envelope,
                        expectation,
                        DEFAULT_MAXIMUM_MESSAGE,
                    ) is None ==> (opened matches Err(error) ==> exists|
                        config: InitiatorConfig,
                        sent: Result<(), ErrorReport>,
                        received: Result<Option<Seq<u8>>, ErrorReport>,
                    |
                        is_peer_offer(
                            config,
                            envelope.secret,
                            expectation,
                            DEFAULT_MAXIMUM_MESSAGE,
                        ) && #[trigger] offer_made(transport, config, sent, received)
                            && offering_failure(config, sent, received) == Some(error))
                },
            },
    {
        let envelope = consume(bootstrap)?;
        let port = NativePort::attach(envelope, expectation, transport, DEFAULT_MAXIMUM_MESSAGE)?;
        Ok(Peer { port })
    }

    /// Sends one complete binary message.
    ///
    /// A typed closed, size, backpressure, or transport failure is returned.
    pub fn try_send(&mut self, payload: &[u8]) -> (sent: Result<(), ErrorReport>)
        ensures
            old(self).inner().sent_as(final(self).inner(), payload@, sent),
    {
        self.port.try_send(payload)
    }

    /// Receives one complete message or close event.
    ///
    /// A typed transport or protocol failure is returned.
    pub fn try_receive(&mut self) -> (event: Result<Option<PortEvent>, ErrorReport>)
        ensures
            old(self).inner().taken_as(final(self).inner(), event),
    {
        self.port.try_receive()
    }

    /// Receives an event while borrowing message bytes until the next mutable peer operation.
    ///
    /// A typed transport or protocol failure is returned.
    pub fn try_receive_borrowed<'peer>(&'peer mut self) -> (event: Result<
        Option<BorrowedPortEvent<'peer>>,
        ErrorReport,
    >)
        ensures
            final(self).inner().same_terms(old(self).inner()),
            !(old(self).inner().current_state() is Open) ==> event is Err && event->Err_0
                == closed_report("peer receive") && *final(self) == *old(self),
            old(self).inner().current_state() is Open ==> exists|
                received: Result<Option<Seq<u8>>, ErrorReport>,
                owned: Result<Option<PortEvent>, ErrorReport>,
            | #[trigger]
                old(self).inner().received_as(final(self).inner(), received, owned) && lent_from(
                    owned,
                    event,
                ),
    {
        self.port.try_receive_borrowed()
    }

    /// Gracefully and idempotently closes the peer.
    ///
    /// The first transport cleanup failure is returned.
    pub fn close(&mut self) -> (closed: Result<(), ErrorReport>)
        ensures
            final(self).inner().same_terms(old(self).inner()),
            old(self).inner().closed_as(final(self).inner(), closed),
    {
        self.port.close()
    }

    /// Current peer port state.
    pub fn state(&self) -> (state: PortState)
        ensures
            state == self.inner().current_state(),
    {
        self.port.state()
    }

    /// Returns negotiated transport bits plus local borrowed-buffer API support.
    pub fn capabilities(&self) -> (capabilities: TransportCapabilities)
        ensures
            capabilities.bits == self.inner().selected().bits | BORROWED_RECEIVE,
    {
        self.port.api_capabilities()
    }
}

impl<T: PortTransport> PeerPort for Peer<T> {
    open spec fn sends(self, after: Self, payload: Seq<u8>, sent: Result<(), ErrorReport>) -> bool {
        self.inner().sent_as(after.inner(), payload, sent)
    }

    open spec fn receives(
        self,
        after: Self,
        event: Result<Option<PortEvent>, ErrorReport>,
    ) -> bool {
        self.inner().taken_as(after.inner(), event)
    }

    open spec fn closes(self, after: Self, closed: Result<(), ErrorReport>) -> bool {
        after.inner().same_terms(self.inner()) && self.inner().closed_as(after.inner(), closed)
    }

    open spec fn standing(self) -> PortState {
        self.inner().current_state()
    }

    fn try_send(&mut self, payload: &[u8]) -> Result<(), ErrorReport> {
        Peer::try_send(self, payload)
    }

    fn try_receive(&mut self) -> Result<Option<PortEvent>, ErrorReport> {
        Peer::try_receive(self)
    }

    fn close(&mut self) -> Result<(), ErrorReport> {
        Peer::close(self)
    }

    fn state(&self) -> PortState {
        Peer::state(self)
    }
}

/// What is written to an open stream is its length and the frame behind it, for every frame that is
/// not empty and not too long; a reader learns the very length from it.
pub proof fn law_stream_frames_are_read_back(
    closed: bool,
    frame: &[u8],
    bytes: Result<Vec<u8>, ErrorReport>,
    prefix: &[u8],
    length: Result<usize, ErrorReport>,
)
    requires
        call_ensures(stream_frame, (closed, frame), bytes),
        prefix@.len() == 4,
        call_ensures(stream_frame_length, (prefix,), length),
    ensures
        bytes is Ok <==> !closed && 0 < frame@.len() <= 1048640,
        bytes matches Ok(written) ==> written@.len() == frame@.len() + 4 && written@.skip(4)
            == frame@ && (prefix@ == written@.take(4) ==> length == Ok::<usize, ErrorReport>(
            frame@.len() as usize,
        )),
        bytes matches Err(error) ==> (error.code is Closed <==> closed),
        length matches Ok(count) ==> 0 < count <= 1048640 && count == le_at(prefix@, 0, 4),
{
    if let Ok(written) = bytes {
        crate::domain::bytes::lemma_le_limits();
        crate::domain::bytes::lemma_le_round_trip(frame@.len(), 4);
        assert(written@.skip(4) =~= frame@);
        assert(written@.take(4) =~= le_bytes(frame@.len(), 4));
        assert(prefix@.subrange(0, 4) =~= prefix@);
    }
}

/// Streams are used exactly where both providers are those of the process tests.
pub proof fn law_production_never_runs_over_streams(
    memory: ProviderKind,
    signal: ProviderKind,
    carrier: PeerCarrier,
)
    requires
        call_ensures(select_carrier, (memory, signal), carrier),
    ensures
        carrier is Streams <==> memory is ProcessTest && signal is ProcessTest,
        carrier is Production <==> !(memory is ProcessTest && signal is ProcessTest),
{
}

/// An echo sends back what it received, to the byte, stops where its parent closed and pauses where
/// there is nothing; it tries again what met backpressure and nothing else.
pub proof fn law_echoes_send_back_what_they_received(
    event: Option<PortEvent>,
    step: EchoStep,
    error: ErrorReport,
    again: bool,
)
    requires
        call_ensures(echo_received, (event,), step),
        call_ensures(echo_retries, (&error,), again),
    ensures
        event matches Some(PortEvent::Message(payload)) ==> (step matches EchoStep::Send(sent)
            && sent@ == payload@),
        step is Send ==> event is Some && event->0 is Message,
        step is Stop <==> event is Some && event->0 is Closed,
        step is Pause <==> event is None,
        again <==> error.code is Backpressured,
{
}

/// A stream that cannot be written, flushed or begun to be read is closed; one that ends within a
/// frame is truncated.
pub proof fn law_streams_end_closed_or_truncated(step: StreamStep, created: ErrorReport)
    requires
        call_ensures(stream_failure, (step,), created),
    ensures
        created.code is Truncated <==> step is Rest,
        created.code is Closed <==> !(step is Rest),
        created.category is Closed <==> created.code is Closed,
        created.recoverability is ReplaceEndpoint,
{
}

/// A protocol is a number from 1 to 65535 in decimal digits.
pub proof fn law_protocols_are_positive_numbers(text: Seq<u8>)
    ensures
        protocol_in(text) is Some <==> (decimal_value(text) matches Some(number) && 1 <= number
            <= 65535),
        protocol_in(text) matches Some(protocol) ==> decimal_value(text) == Some(protocol as nat),
{
}

/// A wrong configuration is final.
pub proof fn law_configuration_failures_are_final(operation: &'static str)
    ensures
        configuration_report(operation).code is ProtocolViolation,
        configuration_report(operation).category is Configuration,
        configuration_report(operation).recoverability is Terminal,
{
}

/// A generation is a positive number of 64 bits in decimal digits, and a session identity 32 digits
/// of hexadecimal that are not all zero.
pub proof fn law_identities_are_not_zero(text: Seq<u8>)
    ensures
        generation_in(text) is Some <==> (decimal_value(text) matches Some(number) && 1 <= number
            <= u64::MAX),
        generation_in(text) matches Some(generation) ==> decimal_value(text) == Some(
            generation@ as nat,
        ),
        session_in(text) matches Some(session) ==> text.len() == 32 && session@ != 0,
        text.len() != 32 ==> session_in(text) is None,
{
    if let Some(bytes) = hex_bytes(text) {
        crate::domain::bytes::lemma_le_limits();
        crate::domain::bytes::lemma_le_value_bound(bytes.subrange(0, 16));
    }
}

} // verus!
