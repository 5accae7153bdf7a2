use std::cell::Cell;
use std::rc::Rc;

use nwipc::bootstrap::codec::{decode, encode, REQUIRED, SESSION};
use nwipc::bootstrap::peer::{
    consume, frame_length, io_error, reader_error, write_envelope, write_frame, PipeFailure,
    ReaderFailure,
};
use nwipc::bootstrap::renderer::{
    PropertyDictionary, PropertyValue, RendererBootstrap, RendererProviders,
    RendererTransportFactory,
};
use nwipc::bootstrap::schema::{
    BootstrapEnvelope, BootstrapSecret, EndpointRole, OpaqueDescriptor, ProtocolRange,
    ProviderKind, MAX_ENVELOPE_LENGTH,
};
use nwipc::domain::capabilities::{
    RequestedCapabilities, RequiredCapabilities, SupportedCapabilities, TransportCapabilities,
    BINARY_MESSAGES,
};
use nwipc::domain::error::{ErrorCategory, ErrorCode, ErrorReport};
use nwipc::domain::types::{Generation, SessionId};
use nwipc::protocol::{
    AcceptorConfig, AcceptorHandshake, EndpointRole as HandshakeRole, HandshakeIdentity,
    ProtocolVersion, VersionRange,
};

fn schema_envelope(generation: u64) -> BootstrapEnvelope {
    BootstrapEnvelope::new(
        SessionId::from_u128(7).unwrap(),
        Generation::new(generation).unwrap(),
        ProtocolRange::new(1, 2).unwrap(),
        EndpointRole::Peer,
        OpaqueDescriptor::new(ProviderKind::ProcessTest, vec![1]).unwrap_or_else(|_| panic!()),
        OpaqueDescriptor::new(ProviderKind::ProcessTest, vec![2]).unwrap_or_else(|_| panic!()),
        BootstrapSecret::new(vec![3; 16]).unwrap_or_else(|_| panic!()),
    )
    .unwrap_or_else(|_| panic!())
}

fn codec_envelope() -> BootstrapEnvelope {
    BootstrapEnvelope::new(
        SessionId::from_u128(0x0102).unwrap(),
        Generation::new(9).unwrap(),
        ProtocolRange::new(1, 3).unwrap(),
        EndpointRole::Peer,
        OpaqueDescriptor::new(ProviderKind::ProcessTest, b"memory".to_vec())
            .unwrap_or_else(|_| panic!()),
        OpaqueDescriptor::new(ProviderKind::Poll, b"signal".to_vec())
            .unwrap_or_else(|_| panic!()),
        BootstrapSecret::new(vec![0xa5; 16]).unwrap_or_else(|_| panic!()),
    )
    .unwrap_or_else(|_| panic!())
}

fn error<T>(outcome: Result<T, ErrorReport>) -> ErrorReport {
    outcome.err().unwrap()
}

fn value<T>(outcome: Result<T, ErrorReport>) -> T {
    outcome.unwrap_or_else(|report| panic!("{report:?}"))
}

#[test]
fn rejects_stale_generation_before_attach() {
    let error = schema_envelope(1)
        .validate_for(
            EndpointRole::Peer,
            SessionId::from_u128(7).unwrap(),
            Generation::new(2).unwrap(),
            1,
        )
        .unwrap_err();
    assert_eq!(error.code(), ErrorCode::StaleGeneration);
}

fn canonical_bytes() -> Vec<u8> {
    let mut expected = b"NWBS\x01\x00".to_vec();
    expected.extend_from_slice(&[1, 0x80, 16, 0, 0, 0, 2, 1]);
    expected.extend_from_slice(&[0; 14]);
    expected.extend_from_slice(&[2, 0x80, 8, 0, 0, 0, 9, 0, 0, 0, 0, 0, 0, 0]);
    expected.extend_from_slice(&[3, 0x80, 4, 0, 0, 0, 1, 0, 3, 0]);
    expected.extend_from_slice(&[4, 0x80, 1, 0, 0, 0, 1]);
    expected.extend_from_slice(&[5, 0x80, 7, 0, 0, 0, 1]);
    expected.extend_from_slice(b"memory");
    expected.extend_from_slice(&[6, 0x80, 7, 0, 0, 0, 4]);
    expected.extend_from_slice(b"signal");
    expected.extend_from_slice(&[7, 0x80, 16, 0, 0, 0]);
    expected.extend_from_slice(&[0xa5; 16]);
    expected
}

#[test]
fn round_trips_canonical_envelope() {
    let encoded = encode(&codec_envelope()).unwrap();
    assert_eq!(encoded, canonical_bytes());
    assert!(value(decode(&encoded)) == codec_envelope());
}

#[test]
fn rejects_truncation_duplicate_and_required_unknown() {
    let encoded = encode(&codec_envelope()).unwrap();
    assert_eq!(
        error(decode(&encoded[..encoded.len() - 1])).code(),
        ErrorCode::Truncated
    );

    let mut duplicate = encoded.clone();
    duplicate.extend_from_slice(&(SESSION | REQUIRED).to_le_bytes());
    duplicate.extend_from_slice(&16_u32.to_le_bytes());
    duplicate.extend_from_slice(&[1; 16]);
    assert_eq!(
        error(decode(&duplicate)).code(),
        ErrorCode::ProtocolViolation
    );

    let mut unknown = encoded;
    unknown.extend_from_slice(&(99_u16 | REQUIRED).to_le_bytes());
    unknown.extend_from_slice(&0_u32.to_le_bytes());
    assert_eq!(
        error(decode(&unknown)).code(),
        ErrorCode::UnknownRequiredFlag
    );
}

#[test]
fn ignores_unknown_optional_field() {
    let mut encoded = encode(&codec_envelope()).unwrap();
    encoded.extend_from_slice(&99_u16.to_le_bytes());
    encoded.extend_from_slice(&3_u32.to_le_bytes());
    encoded.extend_from_slice(b"new");
    assert!(value(decode(&encoded)) == codec_envelope());
}

fn dictionary() -> PropertyDictionary {
    fn descriptor(provider: u64) -> PropertyDictionary {
        let mut values = PropertyDictionary::new();
        values.insert("provider".into(), PropertyValue::Integer(provider));
        values.insert("data".into(), PropertyValue::Data(vec![1]));
        values
    }
    let mut values = PropertyDictionary::new();
    values.insert("schema".into(), PropertyValue::Integer(1));
    values.insert(
        "session".into(),
        PropertyValue::Data(1_u128.to_le_bytes().to_vec()),
    );
    values.insert("generation".into(), PropertyValue::Integer(1));
    values.insert("protocolMin".into(), PropertyValue::Integer(1));
    values.insert("protocolMax".into(), PropertyValue::Integer(1));
    values.insert("role".into(), PropertyValue::Integer(2));
    values.insert("memory".into(), PropertyValue::Dictionary(descriptor(2)));
    values.insert("signal".into(), PropertyValue::Dictionary(descriptor(5)));
    values.insert("secret".into(), PropertyValue::Data(vec![9; 32]));
    values
}

#[test]
fn strict_decode_accepts_renderer_envelope() {
    let envelope = value(RendererBootstrap::decode(dictionary()));
    assert_eq!(envelope.role(), EndpointRole::Renderer);
}

#[test]
fn missing_and_unknown_fields_fail_closed() {
    let mut missing = dictionary();
    missing.remove("secret");
    assert_eq!(
        error(RendererBootstrap::decode(missing)).code(),
        ErrorCode::Truncated
    );
    let mut unknown = dictionary();
    unknown.insert("future".into(), PropertyValue::Integer(1));
    assert!(RendererBootstrap::decode(unknown).is_err());
}

struct DroppedMemory(Rc<Cell<bool>>);

impl Drop for DroppedMemory {
    fn drop(&mut self) {
        self.0.set(true);
    }
}

struct FailingProviders(Rc<Cell<bool>>);

impl RendererProviders for FailingProviders {
    type Memory = DroppedMemory;
    type Signal = ();

    fn attach_memory(&mut self, _: &OpaqueDescriptor) -> Result<DroppedMemory, ErrorReport> {
        Ok(DroppedMemory(Rc::clone(&self.0)))
    }

    fn attach_signal(&mut self, _: &OpaqueDescriptor) -> Result<(), ErrorReport> {
        Err(ErrorReport::unsupported("signal attach"))
    }
}

#[test]
fn signal_failure_drops_partial_memory_attachment() {
    let dropped = Rc::new(Cell::new(false));
    let envelope = value(RendererBootstrap::decode(dictionary()));
    let result = RendererBootstrap::attach(
        envelope,
        SessionId::from_u128(1).unwrap(),
        Generation::new(1).unwrap(),
        1,
        &mut FailingProviders(Rc::clone(&dropped)),
    );
    assert!(result.is_err());
    assert!(dropped.get());
}

struct PlainProviders;

impl RendererProviders for PlainProviders {
    type Memory = ();
    type Signal = ();

    fn attach_memory(&mut self, _: &OpaqueDescriptor) -> Result<(), ErrorReport> {
        Ok(())
    }

    fn attach_signal(&mut self, _: &OpaqueDescriptor) -> Result<(), ErrorReport> {
        Ok(())
    }
}

#[test]
fn renderer_uses_common_protocol_handshake() {
    let session = SessionId::from_u128(1).unwrap();
    let generation = Generation::new(1).unwrap();
    let attachment = value(RendererBootstrap::attach(
        value(RendererBootstrap::decode(dictionary())),
        session,
        generation,
        1,
        &mut PlainProviders,
    ));
    let capability = TransportCapabilities::from_bits(BINARY_MESSAGES);
    let mut renderer = value(attachment.handshake(
        1,
        4096,
        RequestedCapabilities::new(capability),
        RequiredCapabilities::new(capability),
    ));
    let hello = renderer.hello().unwrap();
    let mut peer = value(AcceptorHandshake::new(AcceptorConfig {
        identity: HandshakeIdentity {
            session_id: session,
            generation,
            role: HandshakeRole::Peer,
        },
        remote_role: HandshakeRole::Renderer,
        versions: VersionRange::exact(ProtocolVersion::new(1, 0)),
        supported: SupportedCapabilities::new(capability),
        maximum_message: 2048,
        proof_bytes: vec![9; 32],
    }));
    let (ack, accepted) = peer.accept(&hello).unwrap();
    assert_eq!(accepted.maximum_message, 2048);
    assert_eq!(renderer.acknowledge(&ack).unwrap(), accepted);
}

#[test]
fn accepts_partial_pipe_reads() {
    let mut bytes = Vec::new();
    write_envelope(&mut bytes, &schema_envelope(1)).unwrap();
    let mut read = Vec::new();
    for byte in bytes {
        assert_eq!(error(consume(&read)).code(), ErrorCode::Truncated);
        read.push(byte);
    }
    assert!(value(consume(&read)) == schema_envelope(1));
}

#[test]
fn rejects_early_eof_and_oversize() {
    assert_eq!(error(consume(&[1, 0])).code(), ErrorCode::Truncated);
    let oversized = u32::try_from(MAX_ENVELOPE_LENGTH + 1)
        .unwrap()
        .to_le_bytes();
    assert_eq!(error(consume(&oversized)).code(), ErrorCode::InvalidRange);
    assert_eq!(
        error(frame_length(&oversized)).code(),
        ErrorCode::InvalidRange
    );
    assert_eq!(frame_length(&7_u32.to_le_bytes()).unwrap(), 7);
}

#[test]
fn frames_are_bounded() {
    let mut output = Vec::new();
    assert_eq!(
        write_frame(&mut output, &[]).unwrap_err().context(),
        "write bootstrap length"
    );
    assert!(output.is_empty());
    write_frame(&mut output, b"ab").unwrap();
    assert_eq!(output, [2, 0, 0, 0, b'a', b'b']);
}

#[test]
fn pipe_failures_are_typed_and_redacted() {
    let timeout = io_error(PipeFailure::TimedOut, "read bootstrap body");
    assert_eq!(timeout.category(), ErrorCategory::Timeout);
    assert_eq!(timeout.code(), ErrorCode::Timeout);
    assert_eq!(
        io_error(PipeFailure::EndOfInput, "x").code(),
        ErrorCode::Truncated
    );
    assert_eq!(
        io_error(PipeFailure::Other, "x").code(),
        ErrorCode::ProtocolViolation
    );
    assert_eq!(
        reader_error(ReaderFailure::Expired).code(),
        ErrorCode::Timeout
    );
    assert_eq!(
        reader_error(ReaderFailure::NotStarted).context(),
        "spawn bootstrap reader"
    );
    assert_eq!(
        reader_error(ReaderFailure::Ended).context(),
        "read bootstrap worker"
    );
}

struct CountingFactory(u32);

impl RendererTransportFactory for CountingFactory {
    type Transport = u32;

    fn create(
        &mut self,
        _: BootstrapEnvelope,
        _: SessionId,
        _: Generation,
        protocol: u16,
    ) -> Result<u32, ErrorReport> {
        self.0 += 1;
        Ok(u32::from(protocol))
    }
}

#[test]
fn stale_bootstrap_never_reaches_the_factory() {
    let mut factory = CountingFactory(0);
    let session = SessionId::from_u128(1).unwrap();
    let stale = RendererBootstrap::open_transport(
        value(RendererBootstrap::decode(dictionary())),
        session,
        Generation::new(2).unwrap(),
        1,
        &mut factory,
    );
    assert_eq!(stale.unwrap_err().code(), ErrorCode::StaleGeneration);
    assert_eq!(factory.0, 0);
    let opened = RendererBootstrap::open_transport(
        value(RendererBootstrap::decode(dictionary())),
        session,
        Generation::new(1).unwrap(),
        1,
        &mut factory,
    );
    assert_eq!(opened.unwrap(), 1);
    assert_eq!(factory.0, 1);
}

#[test]
fn debug_output_redacts_descriptors_and_secret() {
    let output = schema_envelope(1).to_text();
    assert!(output.contains("redacted"));
    assert!(!output.contains("[3, 3"));
    assert!(output.contains("bytes: <redacted:1 bytes>"));
}

/// The seven fields of the canonical envelope, each with its kind and length.
fn canonical_parts() -> Vec<Vec<u8>> {
    let bytes = canonical_bytes();
    let mut parts = Vec::new();
    let mut at = 6;
    while at < bytes.len() {
        let length = u32::from_le_bytes(bytes[at + 2..at + 6].try_into().unwrap()) as usize;
        parts.push(bytes[at..at + 6 + length].to_vec());
        at += 6 + length;
    }
    parts
}

#[test]
fn every_proper_prefix_of_an_envelope_is_truncated() {
    let encoded = encode(&codec_envelope()).unwrap();
    for length in 0..encoded.len() {
        assert_eq!(
            error(decode(&encoded[..length])).code(),
            ErrorCode::Truncated
        );
    }
}

#[test]
fn fields_decode_in_any_order_and_without_the_required_bit() {
    let parts = canonical_parts();
    assert_eq!(parts.len(), 7);
    let mut reversed = b"NWBS\x01\x00".to_vec();
    for part in parts.iter().rev() {
        reversed.extend_from_slice(part);
    }
    assert!(value(decode(&reversed)) == codec_envelope());

    let mut optional = b"NWBS\x01\x00".to_vec();
    for (index, part) in parts.iter().enumerate() {
        let mut part = part.clone();
        if index % 2 == 0 {
            part[1] &= 0x7f;
        }
        optional.extend_from_slice(&part);
    }
    assert!(value(decode(&optional)) == codec_envelope());
}

#[test]
fn every_missing_dictionary_field_is_truncated_and_an_unknown_one_a_violation() {
    for name in [
        "schema",
        "session",
        "generation",
        "protocolMin",
        "protocolMax",
        "role",
        "memory",
        "signal",
        "secret",
    ] {
        let mut missing = dictionary();
        missing.remove(name);
        assert_eq!(
            error(RendererBootstrap::decode(missing)).code(),
            ErrorCode::Truncated
        );
    }
    let mut unknown = dictionary();
    unknown.insert("future".into(), PropertyValue::Integer(1));
    assert_eq!(
        error(RendererBootstrap::decode(unknown)).code(),
        ErrorCode::ProtocolViolation
    );
}
