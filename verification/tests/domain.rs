use nwipc::domain::capabilities::{
    negotiate, RequestedCapabilities, RequiredCapabilities, SupportedCapabilities,
    TransportCapabilities, TransportTopology, BINARY_MESSAGES, DIRECT_SIGNAL, FRAGMENTATION,
    SHARED_MEMORY_DATA_PLANE,
};
use nwipc::domain::error::{ErrorCategory, ErrorCode, ErrorReport, Recoverability};
use nwipc::domain::state::{SessionEvent, SessionState};
use nwipc::domain::text::{decimal, decode_hex, encode_hex, parse_decimal, texts_equal};
use nwipc::domain::types::{Generation, Sequence, SessionId};

const STATES: [SessionState; 10] = [
    SessionState::Created,
    SessionState::Preparing,
    SessionState::WaitingForRenderer,
    SessionState::WaitingForPeer,
    SessionState::Handshaking,
    SessionState::Open,
    SessionState::Draining,
    SessionState::Disconnected,
    SessionState::Failed,
    SessionState::Closed,
];

const EVENTS: [SessionEvent; 9] = [
    SessionEvent::Prepare,
    SessionEvent::ResourcesReady,
    SessionEvent::RendererReady,
    SessionEvent::PeerReady,
    SessionEvent::HandshakeComplete,
    SessionEvent::BeginDrain,
    SessionEvent::Disconnect,
    SessionEvent::Fail,
    SessionEvent::Close,
];

fn bits(value: u64) -> TransportCapabilities {
    TransportCapabilities::from_bits(value)
}

#[test]
fn negotiates_supported_requested_bits() {
    let common = bits(SHARED_MEMORY_DATA_PLANE).union(bits(BINARY_MESSAGES));
    let negotiated = negotiate(
        SupportedCapabilities::new(common),
        RequestedCapabilities::new(common.union(bits(DIRECT_SIGNAL))),
        RequiredCapabilities::new(bits(SHARED_MEMORY_DATA_PLANE)),
    )
    .unwrap();
    assert_eq!(negotiated.capabilities(), common);
}

#[test]
fn rejects_a_missing_required_capability() {
    let result = negotiate(
        SupportedCapabilities::new(bits(BINARY_MESSAGES)),
        RequestedCapabilities::new(bits(DIRECT_SIGNAL)),
        RequiredCapabilities::new(bits(DIRECT_SIGNAL)),
    );
    assert_eq!(
        result.unwrap_err().code(),
        ErrorCode::RequiredCapabilityMissing
    );
}

#[test]
fn preserves_mutually_supported_unknown_optional_bits() {
    let future = TransportCapabilities::from_bits(1 << 48);
    let negotiated = negotiate(
        SupportedCapabilities::new(future),
        RequestedCapabilities::new(future),
        RequiredCapabilities::new(TransportCapabilities::none()),
    )
    .unwrap();
    assert_eq!(negotiated.capabilities().unknown_bits(), 1 << 48);
}

#[test]
fn negotiates_fragmentation_only_when_both_endpoints_enable_it() {
    let negotiated = negotiate(
        SupportedCapabilities::new(bits(FRAGMENTATION)),
        RequestedCapabilities::new(bits(FRAGMENTATION)),
        RequiredCapabilities::new(bits(FRAGMENTATION)),
    )
    .unwrap();
    assert!(negotiated.capabilities().contains(bits(FRAGMENTATION)));
}

#[test]
fn topology_excludes_infrastructure_from_payload() {
    assert_eq!(
        TransportTopology::direct().validate(),
        Ok(TransportTopology::direct())
    );
    let invalid = TransportTopology {
        host_in_payload_path: true,
        ..TransportTopology::direct()
    };
    assert!(invalid.validate().is_err());
}

#[test]
fn unsupported_is_stable_and_typed() {
    let report = ErrorReport::unsupported("provider");
    assert_eq!(report.category(), ErrorCategory::Unsupported);
    assert_eq!(report.code(), ErrorCode::Unsupported);
    assert_eq!(report.to_text(), "provider (Unsupported)");
}

#[test]
fn reports_keep_their_parts() {
    let report = ErrorReport::new(
        ErrorCategory::Resource,
        ErrorCode::Backpressured,
        Recoverability::Retryable,
        "write",
    );
    assert_eq!(report.recoverability(), Recoverability::Retryable);
    assert_eq!(report.context(), "write");
    assert_eq!(report.to_text(), "write (Backpressured)");
}

#[test]
fn happy_path_reaches_closed() {
    let events = [
        SessionEvent::Prepare,
        SessionEvent::ResourcesReady,
        SessionEvent::RendererReady,
        SessionEvent::PeerReady,
        SessionEvent::HandshakeComplete,
        SessionEvent::BeginDrain,
        SessionEvent::Close,
    ];
    let state = events
        .into_iter()
        .try_fold(SessionState::Created, SessionState::transition);
    assert_eq!(state.unwrap(), SessionState::Closed);
}

#[test]
fn transition_matrix_matches_the_contract() {
    for state in STATES {
        for event in EVENTS {
            let allowed = matches!(
                (state, event),
                (SessionState::Created, SessionEvent::Prepare)
                    | (SessionState::Preparing, SessionEvent::ResourcesReady)
                    | (
                        SessionState::WaitingForRenderer,
                        SessionEvent::RendererReady
                    )
                    | (SessionState::WaitingForPeer, SessionEvent::PeerReady)
                    | (SessionState::Handshaking, SessionEvent::HandshakeComplete)
                    | (SessionState::Open, SessionEvent::BeginDrain)
                    | (
                        SessionState::Draining | SessionState::Disconnected,
                        SessionEvent::Close
                    )
                    | (
                        SessionState::WaitingForRenderer
                            | SessionState::WaitingForPeer
                            | SessionState::Handshaking
                            | SessionState::Open
                            | SessionState::Draining,
                        SessionEvent::Disconnect
                    )
            ) || (event == SessionEvent::Fail && !state.is_terminal());
            assert_eq!(
                state.transition(event).is_ok(),
                allowed,
                "state={state:?}, event={event:?}"
            );
        }
    }
}

#[test]
fn terminal_states_reject_every_event() {
    for state in [SessionState::Failed, SessionState::Closed] {
        for event in EVENTS {
            let error = state.transition(event).unwrap_err();
            assert_eq!(error.code(), ErrorCode::InvalidStateTransition);
        }
    }
}

#[test]
fn checked_and_wrapping_boundaries_differ() {
    assert!(Generation::new(0).is_none());
    assert!(Generation::new(u64::MAX).unwrap().checked_next().is_none());
    assert_eq!(Sequence::new(u32::MAX).wrapping_next().get(), 0);
}

#[test]
fn session_identities_round_trip_and_are_redacted() {
    let session = SessionId::from_u128(0x0102).unwrap();
    assert_eq!(session.to_bytes()[..3], [2, 1, 0]);
    assert!(SessionId::from_bytes([0; 16]).is_none());
    let mut bytes = [0; 16];
    bytes[0] = 2;
    bytes[1] = 1;
    assert!(SessionId::from_bytes(bytes) == Some(session));
    assert_eq!(session.to_text(), "SessionId(<redacted>)");
}

#[test]
fn text_helpers_follow_their_grammar() {
    assert_eq!(decimal(0), "0");
    assert_eq!(decimal(u64::MAX), "18446744073709551615");
    assert_eq!(decode_hex("00ffA0+7").unwrap(), vec![0, 255, 160, 7]);
    assert!(decode_hex("0").is_none());
    assert!(decode_hex("0g").is_none());
    assert_eq!(parse_decimal("65535", 65535), Some(65535));
    assert_eq!(parse_decimal("65536", 65535), None);
    assert_eq!(parse_decimal("", 65535), None);
    assert!(texts_equal("same", "same"));
    assert!(!texts_equal("same", "sane"));
}

#[test]
fn identity_layouts_are_fixed() {
    assert_eq!(std::mem::size_of::<SessionId>(), 16);
    assert_eq!(std::mem::size_of::<Generation>(), 8);
    assert_eq!(std::mem::size_of::<Sequence>(), 4);
}

#[test]
fn only_ended_generations_can_be_replaced() {
    assert!(SessionState::Disconnected.can_replace());
    assert!(SessionState::Failed.can_replace());
    assert!(SessionState::Closed.can_replace());
    assert!(!SessionState::Open.can_replace());
    assert!(!SessionState::Created.can_replace());
}

#[test]
fn hexadecimal_and_decimal_text_is_read_back() {
    let bytes = [0x00, 0x0f, 0xa9, 0xff];
    assert_eq!(encode_hex(&bytes), "000fa9ff");
    assert_eq!(decode_hex("000fa9ff"), Some(bytes.to_vec()));
    assert_eq!(parse_decimal(&decimal(u64::MAX), u64::MAX), Some(u64::MAX));
    assert_eq!(parse_decimal(&decimal(0), u64::MAX), Some(0));
    assert_eq!(parse_decimal(&decimal(70_000), 65_535), None);
}
