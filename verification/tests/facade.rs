use nwipc::bootstrap::codec::decode;
use nwipc::bootstrap::peer::{consume, PipeFailure};
use nwipc::bootstrap::renderer::RendererTransportFactory;
use nwipc::bootstrap::schema::{
    BootstrapEnvelope, EndpointRole, OpaqueDescriptor, ProviderKind,
};
use nwipc::domain::error::{ErrorCategory, ErrorCode, ErrorReport, Recoverability};
use nwipc::domain::state::SessionState;
use nwipc::domain::types::{Generation, SessionId};
use nwipc::facade::catalog::{
    GenerationObservation, ObservationCatalog, RETAINED_GENERATIONS_PER_SESSION,
};
use nwipc::facade::configuration::Configuration;
use nwipc::facade::record::{ActiveGeneration, FacadeRecord, SessionHandle};
use nwipc::facade::runtime::{LifecycleEvent, Nwipc, OpeningConnection, OpeningStep, RouteOutcome};
use nwipc::facade::session::{BootstrapPair, PeerEnvironment, Session};
use nwipc::observability::diagnostics::{
    CleanupStatus, FailureDiagnostics, FailureStage, MemoryBackend, SignalBackend,
};
use nwipc::peer::facade::expectation_from_values;
use nwipc::renderer::{RendererEvent, RendererTransport, SendDisposition, TransportDiagnostics};

#[test]
fn invalid_public_configuration_fails_before_provider_initialization() {
    let invalid = Configuration {
        protocol: 0,
        ..Configuration::default()
    };
    assert_eq!(
        invalid.validate().unwrap_err().code(),
        ErrorCode::InvalidRange
    );
    let large = Configuration {
        protocol: 256,
        ..Configuration::default()
    };
    assert_eq!(
        Nwipc::with_configuration(large, Err(stale())).err().unwrap().code(),
        ErrorCode::InvalidRange
    );
    let unmarked = Configuration {
        low_watermark: 200,
        high_watermark: 100,
        ..Configuration::default()
    };
    assert!(unmarked.validate().is_err());
    assert_eq!(
        Nwipc::initialize(Err(stale())).err().unwrap().code(),
        ErrorCode::StaleGeneration
    );
}

#[test]
fn generation_diagnostics_history_is_bounded() {
    let mut observations = ObservationCatalog::new();
    let session_id = SessionId::from_u128(1).unwrap();
    for value in 1..=20 {
        observations.insert(
            session_id,
            Generation::new(value).unwrap(),
            GenerationObservation::prepared(),
        );
    }
    assert_eq!(observations.len(), RETAINED_GENERATIONS_PER_SESSION);
    assert!(observations.get(session_id, Generation::new(4).unwrap()).is_none());
    assert!(observations.get(session_id, Generation::new(5).unwrap()).is_some());
}

#[test]
fn other_sessions_keep_their_history() {
    let mut observations = ObservationCatalog::new();
    let first = SessionId::from_u128(1).unwrap();
    let second = SessionId::from_u128(2).unwrap();
    observations.insert(
        second,
        Generation::new(1).unwrap(),
        GenerationObservation::prepared(),
    );
    for value in 1..=30 {
        observations.insert(
            first,
            Generation::new(value).unwrap(),
            GenerationObservation::prepared(),
        );
    }
    assert_eq!(observations.len(), RETAINED_GENERATIONS_PER_SESSION + 1);
    assert!(observations.get(second, Generation::new(1).unwrap()).is_some());
}

#[test]
fn peer_environment_is_provider_erased() {
    let environment = PeerEnvironment::new(
        SessionId::from_bytes([1; 16]).unwrap(),
        Generation::new(2).unwrap(),
        1,
    );
    let debug = format!("{environment:?}");
    assert!(!debug.contains("IOSurface"));
    assert!(!debug.contains("Darwin"));
    assert_eq!(
        environment.variables(),
        [
            ("NWIPC_SESSION_ID", "01".repeat(16).as_str()),
            ("NWIPC_GENERATION", "2"),
            ("NWIPC_PROTOCOL", "1"),
        ]
    );
}

fn stale() -> ErrorReport {
    ErrorReport::new(
        ErrorCategory::Lifecycle,
        ErrorCode::StaleGeneration,
        Recoverability::ReplaceEndpoint,
        "test generation",
    )
}

fn handle(generation: u64) -> SessionHandle {
    SessionHandle {
        session_id: SessionId::from_u128(0x77).unwrap(),
        generation: Generation::new(generation).unwrap(),
    }
}

fn pair(handle: SessionHandle) -> BootstrapPair {
    BootstrapPair::bind(
        handle,
        1,
        &OpaqueDescriptor::new(ProviderKind::IoSurface, vec![1, 2]).ok().unwrap(),
        &OpaqueDescriptor::new(ProviderKind::Hybrid, vec![3]).ok().unwrap(),
        Some([9; 32]),
    )
    .ok()
    .unwrap()
}

fn created(nwipc: &mut Nwipc) -> Session {
    nwipc
        .create_session(Ok(handle(1)), Some(pair(handle(1))))
        .ok()
        .unwrap()
}

fn route<Transport>(
    nwipc: &mut Nwipc,
    opening: OpeningConnection<Transport>,
) -> (Transport, Vec<LifecycleEvent>) {
    let mut opening = opening;
    let mut events = Vec::new();
    loop {
        events.push(opening.event());
        match nwipc.event_routed(opening, Ok(())).ok().unwrap() {
            OpeningStep::Next(next) => opening = next,
            OpeningStep::Open(transport) => return (transport, events),
        }
    }
}

#[test]
fn bootstrap_pairs_need_randomness_and_a_protocol() {
    let memory = OpaqueDescriptor::new(ProviderKind::IoSurface, vec![1]).ok().unwrap();
    let signal = OpaqueDescriptor::new(ProviderKind::Hybrid, vec![2]).ok().unwrap();
    assert_eq!(
        BootstrapPair::bind(handle(1), 1, &memory, &signal, None)
            .err()
            .unwrap()
            .context(),
        "bootstrap randomness"
    );
    assert_eq!(
        BootstrapPair::bind(handle(1), 0, &memory, &signal, Some([1; 32]))
            .err()
            .unwrap()
            .code(),
        ErrorCode::InvalidRange
    );
    assert!(BootstrapPair::bind(handle(1), 1, &signal, &memory, Some([1; 32])).is_err());
}

#[test]
fn renderer_bootstrap_is_canonical_and_one_shot() {
    let mut nwipc = Nwipc::initialize(Ok(())).ok().unwrap();
    let mut session = created(&mut nwipc);
    let expected_session = session.id();
    let expected_generation = session.generation();
    let mut encoded = Vec::new();
    session.write_renderer_bootstrap(nwipc.record_mut(), &mut encoded).unwrap();
    let envelope = decode(&encoded).ok().unwrap();
    envelope
        .validate_for(
            EndpointRole::Renderer,
            expected_session,
            expected_generation,
            Configuration::default().protocol,
        )
        .unwrap();
    assert!(session
        .write_renderer_bootstrap(nwipc.record_mut(), &mut Vec::new())
        .is_err());
}

#[test]
fn peer_bootstrap_is_framed_and_one_shot() {
    let mut nwipc = Nwipc::initialize(Ok(())).ok().unwrap();
    let mut session = created(&mut nwipc);
    let mut pipe = Vec::new();
    session.write_peer_bootstrap(nwipc.record_mut(), &mut pipe).unwrap();
    pipe.push(7);
    let envelope = consume(&pipe).ok().unwrap();
    assert!(envelope.role() == EndpointRole::Peer);
    assert_eq!(envelope.secret().expose(), [9; 32]);
    let mut more = Vec::new();
    assert_eq!(
        session
            .write_peer_bootstrap(nwipc.record_mut(), &mut more)
            .unwrap_err().code(),
        ErrorCode::Closed
    );
    assert!(more.is_empty());
    assert_eq!(
        session
            .peer_bootstrap_not_written(nwipc.record_mut(), PipeFailure::TimedOut).code(),
        ErrorCode::Timeout
    );
    assert_eq!(nwipc.diagnostics(&[]).metrics.failures, 2);
}

#[test]
fn external_renderer_exit_replaces_public_generation_and_rejects_stale_handle() {
    let mut nwipc = Nwipc::initialize(Ok(())).ok().unwrap();
    let session = created(&mut nwipc);
    let identity = session.id();
    let generation = session.generation();
    let opening = nwipc.observe_external_connection(&session);
    let (_, events) = route(&mut nwipc, opening);
    assert_eq!(
        events,
        [
            LifecycleEvent::RendererAttached,
            LifecycleEvent::PeerAttached,
            LifecycleEvent::HandshakeCompleted,
        ]
    );
    let authentication = ErrorReport::new(
        ErrorCategory::Security,
        ErrorCode::ProtocolViolation,
        Recoverability::ReplaceEndpoint,
        "redacted external authentication",
    );
    nwipc
        .observe_external_failure(
            &session,
            Ok(SessionState::Open),
            FailureStage::Handshake,
            &authentication,
        )
        .unwrap();
    assert_eq!(
        nwipc
            .session_diagnostics(&session, Ok(SessionState::Open))
            .ok()
            .unwrap()
            .last_failure,
        Some(FailureDiagnostics::from_report(
            FailureStage::Handshake,
            &authentication
        ))
    );
    assert_eq!(nwipc.diagnostics(&[]).metrics.authentication_failures, 1);

    let replacement = nwipc
        .replace_renderer(
            &session,
            Ok(RouteOutcome {
                active: handle(2),
                replaced: true,
            }),
            Some(pair(handle(2))),
        )
        .ok()
        .unwrap();
    assert!(replacement.id() == identity);
    assert_ne!(replacement.generation(), generation);
    assert_eq!(
        nwipc
            .session_diagnostics(&session, Err(stale()))
            .err()
            .unwrap()
            .code(),
        ErrorCode::StaleGeneration
    );
    assert_eq!(
        nwipc
            .session_diagnostics(&replacement, Ok(SessionState::WaitingForRenderer))
            .ok()
            .unwrap()
            .state,
        SessionState::WaitingForRenderer
    );
    let snapshot = nwipc.diagnostics(&[ActiveGeneration {
        handle: handle(2),
        state: SessionState::WaitingForRenderer,
    }]);
    assert_eq!(snapshot.sessions.len(), 2);
    let old = snapshot
        .sessions
        .iter()
        .find(|entry| entry.generation == generation)
        .unwrap();
    assert_eq!(old.state, SessionState::Disconnected);
    assert_eq!(old.cleanup, CleanupStatus::Complete);
    assert!(old.resources_cleaned);
    assert_eq!(old.last_error, Some(ErrorCode::Closed));
    assert!(old.memory_backend == MemoryBackend::Mach);
    assert!(old.signal_backend == SignalBackend::Mach);
    assert_eq!(snapshot.metrics.replacements, 1);
}

#[test]
fn failed_creations_and_replacements_are_reported() {
    let mut nwipc = Nwipc::initialize(Ok(())).ok().unwrap();
    assert_eq!(
        nwipc.create_session(Err(stale()), None).err().unwrap().code(),
        ErrorCode::StaleGeneration
    );
    assert_eq!(
        nwipc
            .create_session(Ok(handle(1)), None)
            .err()
            .unwrap()
            .context(),
        "prepared bootstrap"
    );
    let session = created(&mut nwipc);
    let outcome = |replaced| {
        Ok(RouteOutcome {
            active: handle(2),
            replaced,
        })
    };
    assert_eq!(
        nwipc
            .replace_renderer(&session, outcome(false), None)
            .err()
            .unwrap()
            .code(),
        ErrorCode::InvalidStateTransition
    );
    assert_eq!(
        nwipc
            .replace_renderer(&session, outcome(true), None)
            .err()
            .unwrap()
            .context(),
        "replacement bootstrap"
    );
    assert_eq!(
        nwipc
            .replace_renderer(&session, Err(stale()), None)
            .err()
            .unwrap()
            .code(),
        ErrorCode::StaleGeneration
    );
    assert_eq!(nwipc.diagnostics(&[]).metrics.failures, 3);
}

#[test]
fn sessions_count_as_closed_once() {
    let mut nwipc = Nwipc::initialize(Ok(())).ok().unwrap();
    let session = created(&mut nwipc);
    nwipc
        .close(&session, Ok(SessionState::Open), Ok(Ok(SessionState::Closed)))
        .unwrap();
    nwipc
        .close(&session, Ok(SessionState::Closed), Ok(Ok(SessionState::Closed)))
        .unwrap();
    let diagnosed = nwipc
        .session_diagnostics(&session, Ok(SessionState::Closed))
        .ok()
        .unwrap();
    assert_eq!(diagnosed.cleanup, CleanupStatus::Complete);
    assert_eq!(nwipc.diagnostics(&[]).metrics.sessions_closed, 1);
    assert!(nwipc.close(&session, Err(stale()), Err(stale())).is_err());
    let diagnosed = nwipc
        .session_diagnostics(&session, Ok(SessionState::Closed))
        .ok()
        .unwrap();
    assert_eq!(diagnosed.cleanup, CleanupStatus::Failed);
    assert!(!diagnosed.resources_cleaned);
}

struct Scripted {
    polls: Vec<Result<Option<RendererEvent>, ErrorReport>>,
    wakeups: u64,
}

impl RendererTransport for Scripted {
    fn send(&mut self, payload: &[u8]) -> Result<SendDisposition, ErrorReport> {
        self.wakeups += 1;
        match payload.len() {
            0 => Err(stale()),
            1 => Ok(SendDisposition::Backpressured),
            _ => Ok(SendDisposition::Sent),
        }
    }

    fn buffered_amount(&self) -> Result<u32, ErrorReport> {
        Ok(3)
    }

    fn poll(&mut self) -> Result<Option<RendererEvent>, ErrorReport> {
        if self.polls.is_empty() {
            Ok(None)
        } else {
            self.polls.remove(0)
        }
    }

    fn close(&mut self) -> Result<(), ErrorReport> {
        Ok(())
    }

    fn diagnostics(&self) -> TransportDiagnostics {
        TransportDiagnostics {
            primary_wakeups: self.wakeups,
            polling_wakeups: 0,
            coalesced_wakeups: 0,
            polling_recoveries: 0,
            signal_failures: 0,
        }
    }
}

struct Factory {
    made: u32,
}

impl RendererTransportFactory for Factory {
    type Transport = Scripted;

    fn create(
        &mut self,
        _: BootstrapEnvelope,
        _: SessionId,
        _: Generation,
        _: u16,
    ) -> Result<Scripted, ErrorReport> {
        self.made += 1;
        Ok(Scripted {
            polls: vec![
                Ok(Some(RendererEvent::Message(vec![1, 2, 3]))),
                Ok(Some(RendererEvent::Writable)),
                Ok(Some(RendererEvent::Error(stale()))),
                Err(stale()),
            ],
            wakeups: 0,
        })
    }
}

#[test]
fn opened_renderers_record_their_traffic() {
    let mut nwipc = Nwipc::initialize(Ok(())).ok().unwrap();
    let mut session = created(&mut nwipc);
    let mut factory = Factory { made: 0 };
    let opening = nwipc.open_renderer(&mut session, &mut factory).ok().unwrap();
    let (mut renderer, events) = route(&mut nwipc, opening);
    assert_eq!(events.len(), 3);
    assert_eq!(factory.made, 1);
    assert_eq!(
        nwipc
            .open_renderer(&mut session, &mut factory)
            .err()
            .unwrap()
            .code(),
        ErrorCode::Closed
    );
    assert_eq!(renderer.send(nwipc.record_mut(), b"production").unwrap(), SendDisposition::Sent);
    assert_eq!(renderer.send(nwipc.record_mut(), b"x").unwrap(), SendDisposition::Backpressured);
    assert!(renderer.send(nwipc.record_mut(), b"").is_err());
    assert_eq!(
        renderer.poll(nwipc.record_mut()).unwrap(),
        Some(RendererEvent::Message(vec![1, 2, 3]))
    );
    assert_eq!(renderer.poll(nwipc.record_mut()).unwrap(), Some(RendererEvent::Writable));
    assert_eq!(
        renderer.poll(nwipc.record_mut()).unwrap(),
        Some(RendererEvent::Error(stale()))
    );
    assert!(renderer.poll(nwipc.record_mut()).is_err());
    assert_eq!(renderer.poll(nwipc.record_mut()).unwrap(), None);
    assert_eq!(renderer.buffered_amount(nwipc.record_mut()).unwrap(), 3);
    renderer.close(nwipc.record_mut()).unwrap();
    let metrics = nwipc.diagnostics(&[]).metrics;
    assert_eq!(metrics.messages_sent, 2);
    assert_eq!(metrics.bytes_sent, 11);
    assert_eq!(metrics.messages_received, 1);
    assert_eq!(metrics.bytes_received, 3);
    assert_eq!(metrics.backpressure, 1);
    assert_eq!(metrics.writable, 1);
    assert_eq!(metrics.failures, 3);
    assert_eq!(metrics.primary_wakeups, 3);
    assert_eq!(
        nwipc
            .session_diagnostics(&session, Ok(SessionState::Open))
            .ok()
            .unwrap()
            .last_error,
        Some(ErrorCode::StaleGeneration)
    );
}

#[test]
fn rejected_lifecycle_events_end_the_opening() {
    let mut nwipc = Nwipc::initialize(Ok(())).ok().unwrap();
    let session = created(&mut nwipc);
    let opening = nwipc.observe_external_connection(&session);
    assert!(nwipc.event_routed(opening, Err(stale())).is_err());
    let diagnosed = nwipc
        .session_diagnostics(&session, Ok(SessionState::WaitingForRenderer))
        .ok()
        .unwrap();
    assert_eq!(diagnosed.last_failure.unwrap().stage, FailureStage::Lifecycle);
}

#[test]
fn failures_are_counted_by_their_class() {
    let mut record = FacadeRecord::new();
    let of = |category| {
        ErrorReport::new(
            category,
            ErrorCode::ProtocolViolation,
            Recoverability::Terminal,
            "test",
        )
    };
    record.record_failure(&of(ErrorCategory::Protocol));
    record.record_failure(&of(ErrorCategory::Bootstrap));
    record.record_failure(&of(ErrorCategory::Security));
    record.record_failure(&of(ErrorCategory::Closed));
    assert_eq!(record.metrics.failures, 4);
    assert_eq!(record.metrics.validation_failures, 2);
    assert_eq!(record.metrics.authentication_failures, 1);
}

#[test]
fn peer_environment_is_read_back_by_the_peer() {
    let mut nwipc = Nwipc::initialize(Ok(())).ok().unwrap();
    let session = created(&mut nwipc);
    let environment = session.peer_environment();
    let variables = environment.variables();
    assert_eq!(variables[0].0, "NWIPC_SESSION_ID");
    assert_eq!(variables[0].1.len(), 32);
    assert_eq!(variables[1], ("NWIPC_GENERATION", "1"));
    assert_eq!(variables[2], ("NWIPC_PROTOCOL", "1"));
    let expectation = expectation_from_values(
        Some(variables[0].1),
        Some(variables[1].1),
        Some(variables[2].1),
    )
    .ok()
    .unwrap();
    assert!(expectation.session_id == session.id());
    assert_eq!(expectation.generation, session.generation());
    assert_eq!(expectation.protocol, 1);
    assert_eq!(
        expectation_from_values(Some(variables[0].1), None, Some(variables[2].1))
            .err()
            .unwrap()
            .context(),
        "NWIPC_GENERATION"
    );
}
