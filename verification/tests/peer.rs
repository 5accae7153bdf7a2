use std::collections::VecDeque;

use nwipc::bootstrap::schema::{
    BootstrapEnvelope, BootstrapSecret, EndpointRole, OpaqueDescriptor, ProtocolRange, ProviderKind,
};
use nwipc::domain::error::{ErrorCategory, ErrorCode, ErrorReport, Recoverability};
use nwipc::domain::types::{Generation, SessionId};
use nwipc::peer::asynchronous::{
    check_poll_interval, AsyncPeer, AsyncStep, Interest, DEFAULT_POLL_NANOS,
};
use nwipc::peer::facade::Peer;
use nwipc::peer::port::{
    acknowledge_hello, hello_frame, peer_handshake, BorrowedPortEvent, NativePort, PeerExpectation,
    PeerPort, PortEvent, PortState, PortTransport,
};

struct FakeTransport {
    received: VecDeque<Vec<u8>>,
    sent: Vec<Vec<u8>>,
    closed: bool,
}

impl PortTransport for FakeTransport {
    fn send(&mut self, frame: &[u8]) -> Result<(), ErrorReport> {
        self.sent.push(frame.to_vec());
        Ok(())
    }

    fn receive(&mut self) -> Result<Option<Vec<u8>>, ErrorReport> {
        Ok(self.received.pop_front())
    }

    fn close(&mut self) -> Result<(), ErrorReport> {
        self.closed = true;
        Ok(())
    }
}

fn expectation() -> PeerExpectation {
    PeerExpectation {
        session_id: SessionId::from_u128(5).unwrap(),
        generation: Generation::new(2).unwrap(),
        protocol: 1,
    }
}

fn envelope() -> BootstrapEnvelope {
    BootstrapEnvelope::new(
        expectation().session_id,
        expectation().generation,
        ProtocolRange::new(1, 1).ok().unwrap(),
        EndpointRole::Peer,
        OpaqueDescriptor::new(ProviderKind::ProcessTest, vec![1]).ok().unwrap(),
        OpaqueDescriptor::new(ProviderKind::ProcessTest, vec![2]).ok().unwrap(),
        BootstrapSecret::new(b"secret".to_vec()).ok().unwrap(),
    )
    .ok()
    .unwrap()
}

fn acknowledgement(maximum_message: usize) -> Vec<u8> {
    let hello = peer_handshake(&envelope(), expectation(), maximum_message)
        .ok()
        .unwrap()
        .hello()
        .ok()
        .unwrap();
    acknowledge_hello(&hello, expectation(), b"secret").ok().unwrap()
}

#[test]
fn attaches_exchanges_and_closes_idempotently() {
    let transport = FakeTransport {
        received: VecDeque::from([acknowledgement(16), vec![0, 1, 2]]),
        sent: Vec::new(),
        closed: false,
    };
    let mut port = NativePort::attach(envelope(), expectation(), transport, 16)
        .ok()
        .unwrap();
    port.try_send(b"request").unwrap();
    assert_eq!(
        port.try_receive().unwrap(),
        Some(PortEvent::Message(vec![1, 2]))
    );
    port.close().unwrap();
    port.close().unwrap();
    assert_eq!(port.state(), PortState::Closed);
}

#[test]
fn stale_generation_is_rejected_before_hello() {
    let transport = FakeTransport {
        received: VecDeque::new(),
        sent: Vec::new(),
        closed: false,
    };
    let stale = PeerExpectation {
        generation: Generation::new(3).unwrap(),
        ..expectation()
    };
    assert_eq!(
        NativePort::attach(envelope(), stale, transport, 16)
            .err()
            .unwrap()
            .code(),
        ErrorCode::StaleGeneration
    );
}

fn opened(frames: Vec<Vec<u8>>) -> NativePort<FakeTransport> {
    let mut received = VecDeque::from([acknowledgement(16)]);
    received.extend(frames);
    let transport = FakeTransport {
        received,
        sent: Vec::new(),
        closed: false,
    };
    NativePort::attach(envelope(), expectation(), transport, 16)
        .ok()
        .unwrap()
}

#[test]
fn oversized_messages_are_rejected() {
    let mut port = opened(Vec::new());
    assert_eq!(
        port.try_send(&[0; 17]).unwrap_err().code(),
        ErrorCode::MessageTooLarge
    );
    port.try_send(&[0; 16]).unwrap();
}

#[test]
fn remote_close_and_malformed_frames_end_the_port() {
    let mut closing = opened(vec![vec![1]]);
    assert_eq!(closing.try_receive().unwrap(), Some(PortEvent::Closed));
    assert_eq!(closing.state(), PortState::Closed);
    assert_eq!(
        closing.try_send(b"late").unwrap_err().code(),
        ErrorCode::Closed
    );
    let mut failing = opened(vec![vec![9, 9]]);
    assert_eq!(
        failing.try_receive().unwrap_err().code(),
        ErrorCode::ProtocolViolation
    );
    assert_eq!(failing.state(), PortState::Failed);
    let mut lending = opened(vec![vec![0, 7]]);
    assert!(matches!(
        lending.try_receive_borrowed().ok().unwrap(),
        Some(BorrowedPortEvent::Message(&[7]))
    ));
}

struct FakePort {
    sends: VecDeque<Result<(), ErrorReport>>,
    events: VecDeque<PortEvent>,
    closed: bool,
}

impl PeerPort for FakePort {
    fn try_send(&mut self, _payload: &[u8]) -> Result<(), ErrorReport> {
        self.sends.pop_front().unwrap_or(Ok(()))
    }

    fn try_receive(&mut self) -> Result<Option<PortEvent>, ErrorReport> {
        Ok(self.events.pop_front())
    }

    fn close(&mut self) -> Result<(), ErrorReport> {
        self.closed = true;
        Ok(())
    }

    fn state(&self) -> PortState {
        if self.closed {
            PortState::Closed
        } else {
            PortState::Open
        }
    }
}

fn backpressured() -> ErrorReport {
    ErrorReport::new(
        ErrorCategory::Resource,
        ErrorCode::Backpressured,
        Recoverability::Retryable,
        "async test",
    )
}

#[test]
fn backpressured_sends_register_then_retry_then_await() {
    let port = FakePort {
        sends: VecDeque::from([Err(backpressured()), Err(backpressured()), Ok(())]),
        events: VecDeque::from([PortEvent::Message(vec![1, 2, 3])]),
        closed: false,
    };
    let mut peer = AsyncPeer::new(port, ());
    assert_eq!(
        peer.send_step(b"request", false).unwrap(),
        AsyncStep::Register(Interest::Writable)
    );
    assert_eq!(
        peer.send_step(b"request", true).unwrap(),
        AsyncStep::Await(Interest::Writable)
    );
    assert_eq!(
        peer.send_step(b"request", false).unwrap(),
        AsyncStep::Finish(())
    );
    assert_eq!(
        peer.receive_step(false).unwrap(),
        AsyncStep::Finish(PortEvent::Message(vec![1, 2, 3]))
    );
    assert_eq!(
        peer.receive_step(false).unwrap(),
        AsyncStep::Register(Interest::Readable)
    );
    assert_eq!(peer.close_step().unwrap(), AsyncStep::Finish(()));
    assert_eq!(peer.state(), PortState::Closed);
}

#[test]
fn terminal_backpressure_is_returned_at_once() {
    let terminal = ErrorReport::new(
        ErrorCategory::Resource,
        ErrorCode::Backpressured,
        Recoverability::Terminal,
        "async terminal test",
    );
    let port = FakePort {
        sends: VecDeque::from([Err(terminal), Ok(())]),
        events: VecDeque::new(),
        closed: false,
    };
    let mut peer = AsyncPeer::new(port, ());
    assert_eq!(
        peer.send_step(b"request", false)
            .unwrap_err()
            .recoverability(),
        Recoverability::Terminal
    );
}

#[test]
fn rejects_zero_poll_interval() {
    assert_eq!(
        check_poll_interval(0).err().unwrap().code(),
        ErrorCode::InvalidRange
    );
    assert_eq!(check_poll_interval(DEFAULT_POLL_NANOS).unwrap(), 1_000_000);
}

#[test]
fn harness_builds_the_hello_that_a_peer_offers() {
    let offered = peer_handshake(&envelope(), expectation(), u32::MAX as usize)
        .ok()
        .unwrap()
        .hello()
        .ok()
        .unwrap();
    assert_eq!(hello_frame(&envelope(), expectation()).ok().unwrap(), offered);
}

#[test]
fn asynchronous_peer_lends_its_port() {
    let port = FakePort {
        sends: VecDeque::from([Ok(())]),
        events: VecDeque::new(),
        closed: false,
    };
    let mut peer = AsyncPeer::new(port, ());
    assert!(peer.port_mut().try_send(b"direct").is_ok());
    assert!(peer.port().sends.is_empty());
}

struct RefusingTransport {
    answers: VecDeque<Vec<u8>>,
    outcomes: VecDeque<Result<(), ErrorReport>>,
    sent: usize,
}

impl PortTransport for RefusingTransport {
    fn send(&mut self, _frame: &[u8]) -> Result<(), ErrorReport> {
        self.sent += 1;
        self.outcomes.pop_front().unwrap_or(Ok(()))
    }

    fn receive(&mut self) -> Result<Option<Vec<u8>>, ErrorReport> {
        Ok(self.answers.pop_front())
    }

    fn close(&mut self) -> Result<(), ErrorReport> {
        Ok(())
    }
}

#[test]
fn backpressured_port_sends_again() {
    let terminal = ErrorReport::new(
        ErrorCategory::Resource,
        ErrorCode::Backpressured,
        Recoverability::Terminal,
        "port test",
    );
    let transport = RefusingTransport {
        answers: VecDeque::from([acknowledgement(16)]),
        outcomes: VecDeque::from([
            Ok(()),
            Err(backpressured()),
            Err(backpressured()),
            Ok(()),
            Err(terminal),
        ]),
        sent: 0,
    };
    let port = NativePort::attach(envelope(), expectation(), transport, 16).ok().unwrap();
    let mut peer = Peer::from_port(port);
    assert_eq!(peer.try_send(b"again").unwrap_err().code(), ErrorCode::Backpressured);
    assert_eq!(peer.state(), PortState::Open);
    assert_eq!(peer.try_send(b"again").unwrap_err().code(), ErrorCode::Backpressured);
    assert_eq!(peer.state(), PortState::Open);
    peer.try_send(b"again").unwrap();
    assert_eq!(peer.state(), PortState::Open);
    assert_eq!(
        peer.try_send(b"again").unwrap_err().recoverability(),
        Recoverability::Terminal
    );
    assert_eq!(peer.state(), PortState::Failed);
    assert_eq!(peer.try_send(b"again").unwrap_err().code(), ErrorCode::Closed);
}
