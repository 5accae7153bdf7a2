use nwipc::domain::capabilities::{TransportCapabilities, TransportTopology};
use nwipc::domain::error::{ErrorCategory, ErrorCode, ErrorReport, Recoverability};
use nwipc::domain::state::SessionState;
use nwipc::domain::types::{Generation, SessionId};
use nwipc::observability::diagnostics::{
    bytes_come_before, CleanupStatus, DiagnosticsSnapshot, FailureDiagnostics, FailureStage,
    MemoryBackend, SessionDiagnostics, SignalBackend,
};
use nwipc::observability::metrics::{Metrics, MetricsEvent, MetricsSnapshot};

#[test]
fn debug_schema_contains_no_provider_secret_fields() {
    let snapshot = DiagnosticsSnapshot::new(MetricsSnapshot::default(), Vec::new());
    let debug = snapshot.to_text();
    assert!(!debug.contains("secret"));
    assert!(!debug.contains("descriptor"));
    assert!(!debug.contains("handle"));
    assert_eq!(snapshot.schema_version, DiagnosticsSnapshot::SCHEMA_VERSION);
}

#[test]
fn cloned_recorders_share_monotonic_counters() {
    let metrics = Metrics::new();
    let clone = metrics.clone();
    metrics.record_sent(7);
    clone.record_failure();
    clone.record_wakeups(2, 3, 4, 1);
    clone.record_signal_failures(5);
    clone.record_validation_failure();
    clone.record_authentication_failure();
    assert_eq!(
        metrics.snapshot(),
        MetricsSnapshot {
            messages_sent: 1,
            bytes_sent: 7,
            failures: 1,
            primary_wakeups: 2,
            polling_wakeups: 3,
            coalesced_wakeups: 4,
            polling_recoveries: 1,
            signal_failures: 5,
            validation_failures: 1,
            authentication_failures: 1,
            ..MetricsSnapshot::default()
        }
    );
}

#[test]
fn every_recorder_counts_its_own_event() {
    let metrics = Metrics::new();
    metrics.record_session_created();
    metrics.record_session_closed();
    metrics.record_received(9);
    metrics.record_backpressure();
    metrics.record_writable();
    metrics.record_replacement();
    assert_eq!(
        metrics.snapshot(),
        MetricsSnapshot {
            sessions_created: 1,
            sessions_closed: 1,
            messages_received: 1,
            bytes_received: 9,
            backpressure: 1,
            writable: 1,
            replacements: 1,
            ..MetricsSnapshot::default()
        }
    );
}

#[test]
fn counters_stop_at_their_largest_value() {
    let mut snapshot = MetricsSnapshot {
        bytes_sent: u64::MAX - 1,
        ..MetricsSnapshot::default()
    };
    snapshot.record(MetricsEvent::Sent(5));
    assert_eq!(snapshot.bytes_sent, u64::MAX);
    assert_eq!(snapshot.messages_sent, 1);
}

fn session(identity: u128, generation: u64) -> SessionDiagnostics {
    SessionDiagnostics {
        session_id: SessionId::from_u128(identity).unwrap(),
        generation: Generation::new(generation).unwrap(),
        state: SessionState::Open,
        topology: TransportTopology::direct(),
        capabilities: TransportCapabilities::none(),
        memory_backend: MemoryBackend::ProcessTest,
        signal_backend: SignalBackend::Poll,
        last_error: None,
        last_failure: None,
        resources_cleaned: false,
        cleanup: CleanupStatus::Pending,
    }
}

#[test]
fn snapshots_sort_sessions_by_identity_bytes() {
    let snapshot = DiagnosticsSnapshot::new(
        MetricsSnapshot::default(),
        vec![session(2, 1), session(256, 2), session(1, 3), session(2, 4)],
    );
    let order: Vec<u64> = snapshot
        .sessions
        .iter()
        .map(|entry| entry.generation.get())
        .collect();
    assert_eq!(order, [2, 3, 1, 4]);
    assert!(snapshot.to_text().contains("generation 3; generation 1; "));
    assert!(bytes_come_before(b"ab", b"b"));
    assert!(bytes_come_before(b"a", b"ab"));
    assert!(!bytes_come_before(b"ab", b"ab"));
}

#[test]
fn failures_keep_only_their_stable_parts() {
    let error = ErrorReport::new(
        ErrorCategory::Security,
        ErrorCode::ReplayDetected,
        Recoverability::ReplaceEndpoint,
        "private operation",
    );
    let failure = FailureDiagnostics::from_report(FailureStage::Handshake, &error);
    assert_eq!(failure.code, ErrorCode::ReplayDetected);
    assert_eq!(failure.stage, FailureStage::Handshake);
    assert!(!format!("{failure:?}").contains("private"));
}
