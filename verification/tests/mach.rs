use nwipc::bootstrap::schema::EndpointRole;
use nwipc::domain::error::ErrorCode;
use nwipc::domain::types::{Generation, SessionId};
use nwipc::macos::mach_rendezvous::{
    authentication, consume, publish, RendezvousDescriptor, Request, ServeStep, ACK_MESSAGE,
    CONNECT_MESSAGE, KERN_SUCCESS, NONCE_LENGTH, RECEIVE_TIMED_OUT,
};
use nwipc::macos::mach_transfer::{
    authenticated_control_channel, cleanup_descriptors, decode_manifest, encode_manifest,
    validate_message, AuthenticatedControlEndpoint, AuthenticatedControlHost, CapabilityKind,
    CapabilityMessage, ControlPort, DescriptorKinds, MachCapabilityBundle, TransferIdentity,
    TransferManifest,
};
use nwipc::macos::rights::{NativeRight, OwnedMachReceiveRight, OwnedMachSendRight};

fn identity(role: EndpointRole, generation: u64) -> TransferIdentity {
    TransferIdentity::new(
        SessionId::from_u128(0x1234).unwrap(),
        Generation::new(generation).unwrap(),
        role,
    )
}

fn test_capabilities(identity: TransferIdentity) -> MachCapabilityBundle {
    MachCapabilityBundle::new(
        identity,
        OwnedMachSendRight::from_raw(true, 11).ok().unwrap(),
        OwnedMachSendRight::from_raw(true, 12).ok().unwrap(),
        OwnedMachSendRight::from_raw(true, 13).ok().unwrap(),
        OwnedMachReceiveRight::from_raw(true, 14).ok().unwrap(),
    )
}

fn control_channel(
    identity: TransferIdentity,
    port: u32,
) -> (AuthenticatedControlHost, AuthenticatedControlEndpoint) {
    let (channel, release) = authenticated_control_channel(identity, ControlPort::Complete(port));
    assert!(release.is_empty());
    channel.ok().unwrap()
}

fn copy_of(message: &CapabilityMessage) -> CapabilityMessage {
    CapabilityMessage {
        id: message.id,
        size: message.size,
        descriptor_count: message.descriptor_count,
        descriptors: message.descriptors.clone(),
        metadata: message.metadata,
    }
}

#[test]
fn manifest_rejects_wrong_role_session_generation_and_descriptor_order() {
    let expected = identity(EndpointRole::Renderer, 7);
    let manifest = TransferManifest::new(expected);
    assert_eq!(manifest.validate_for(expected), Ok(()));
    assert_eq!(
        manifest
            .validate_for(identity(EndpointRole::Peer, 7))
            .unwrap_err()
            .code(),
        ErrorCode::AuthenticationFailed
    );
    assert_eq!(
        manifest
            .validate_for(identity(EndpointRole::Renderer, 8))
            .unwrap_err()
            .code(),
        ErrorCode::StaleGeneration
    );
    let mut wrong_session = expected;
    wrong_session.session_id = SessionId::from_u128(9).unwrap();
    assert_eq!(
        manifest.validate_for(wrong_session).unwrap_err().code(),
        ErrorCode::AuthenticationFailed
    );
    let malformed = TransferManifest {
        identity: expected,
        kinds: DescriptorKinds {
            first: CapabilityKind::OutboundMemory,
            second: CapabilityKind::InboundMemory,
            third: CapabilityKind::InboundSignal,
            fourth: CapabilityKind::InboundSignal,
        },
    };
    assert_eq!(
        malformed.validate_for(expected).unwrap_err().code(),
        ErrorCode::ProtocolViolation
    );
}

#[test]
fn metadata_and_native_owners_are_redacted() {
    let identity = identity(EndpointRole::Peer, 3);
    let manifest = TransferManifest::new(identity);
    let debug = manifest.to_text();
    assert!(debug.contains("<redacted>"));
    assert!(!debug.contains("4660"));
    let bundle = test_capabilities(identity).to_text();
    assert!(!bundle.contains("11") && !bundle.contains("4660"));
    assert!(!OwnedMachSendRight::from_raw(true, 4711).ok().unwrap().to_text().contains("4711"));
}

#[test]
fn control_channel_is_explicitly_unsupported_off_macos() {
    let (channel, release) =
        authenticated_control_channel(identity(EndpointRole::Peer, 1), ControlPort::Unsupported);
    assert_eq!(channel.err().unwrap().code(), ErrorCode::Unsupported);
    assert!(release.is_empty());
}

#[test]
fn failed_control_channels_release_their_port() {
    let who = identity(EndpointRole::Peer, 1);
    let (channel, release) = authenticated_control_channel(who, ControlPort::Unallocated);
    assert!(channel.is_err());
    assert!(release.is_empty());
    let (channel, release) = authenticated_control_channel(who, ControlPort::WithoutSend(5));
    assert!(channel.is_err());
    assert!(release == vec![NativeRight::Receive(5)]);
}

#[test]
fn transfers_exact_capabilities_once_without_bootstrap_lookup() {
    let identity = identity(EndpointRole::Renderer, 11);
    let (mut host, mut endpoint) = control_channel(identity, 7);
    let pending = host.transfer(test_capabilities(identity)).ok().unwrap();
    let message = copy_of(pending.message());
    let settled = pending.finish(true);
    assert!(settled.outcome.is_ok());
    assert!(settled.release == vec![NativeRight::Send(7)]);
    let receiving = endpoint.receive().ok().unwrap();
    assert_eq!(receiving.control(), 7);
    let received = receiving.finish(Some(message));
    assert!(received.release == vec![NativeRight::Receive(7)]);
    let mut received = received.outcome.ok().unwrap();
    assert!(received.manifest() == TransferManifest::new(identity));
    assert_eq!(received.take_outbound_memory().unwrap().into_raw(), 11);
    assert_eq!(received.take_inbound_memory().unwrap().into_raw(), 12);
    assert_eq!(received.take_outbound_signal().unwrap().into_raw(), 13);
    assert_eq!(received.take_inbound_signal().unwrap().into_raw(), 14);
    assert!(received.take_inbound_signal().is_none());
    assert_eq!(
        endpoint.receive().err().unwrap().code(),
        ErrorCode::ReplayDetected
    );
}

#[test]
fn wrong_role_and_stale_generation_fail_before_transfer() {
    for (bundle_identity, code) in [
        (
            identity(EndpointRole::Peer, 5),
            ErrorCode::AuthenticationFailed,
        ),
        (
            identity(EndpointRole::Renderer, 6),
            ErrorCode::StaleGeneration,
        ),
    ] {
        let expected = identity(EndpointRole::Renderer, 5);
        let (mut host, _endpoint) = control_channel(expected, 9);
        let failure = host.transfer(test_capabilities(bundle_identity)).err().unwrap();
        assert_eq!(failure.error.code(), code);
        assert_eq!(failure.release.len(), 4);
        assert_eq!(
            host.transfer(test_capabilities(expected)).err().unwrap().error.code(),
            ErrorCode::ReplayDetected
        );
    }
}

#[test]
fn failed_native_send_cleans_capabilities_and_closes_one_shot_endpoint() {
    let identity = identity(EndpointRole::Peer, 13);
    let (mut host, _endpoint) = control_channel(identity, 9);
    let settled = host.transfer(test_capabilities(identity)).ok().unwrap().finish(false);
    assert_eq!(
        settled.outcome.err().unwrap().code(),
        ErrorCode::RequiredCapabilityMissing
    );
    assert_eq!(settled.release.len(), 5);
    assert!(settled.release.contains(&NativeRight::Receive(14)));
    assert_eq!(
        host.transfer(test_capabilities(identity)).err().unwrap().error.code(),
        ErrorCode::ReplayDetected
    );
}

#[test]
fn malformed_capability_messages_are_cleaned_up() {
    let expected = identity(EndpointRole::Renderer, 2);
    let (mut host, mut endpoint) = control_channel(expected, 3);
    let pending = host.transfer(test_capabilities(expected)).ok().unwrap();
    let mut message = copy_of(pending.message());
    assert!(validate_message(&message, expected).is_ok());
    message.metadata.reserved = 1;
    assert!(validate_message(&message, expected).is_err());
    assert_eq!(cleanup_descriptors(&message).len(), 4);
    let settled = endpoint.receive().ok().unwrap().finish(Some(message));
    assert!(settled.outcome.is_err());
    assert_eq!(settled.release.len(), 5);
}

#[test]
fn manifests_round_trip_through_metadata() {
    let manifest = TransferManifest::new(identity(EndpointRole::Peer, 21));
    let metadata = encode_manifest(manifest);
    assert_eq!(metadata.session_id, 0x1234);
    assert_eq!(metadata.generation, 21);
    assert_eq!(metadata.role, 1);
    assert!(decode_manifest(&metadata).ok().unwrap() == manifest);
    let mut wrong = metadata;
    wrong.magic = 1;
    assert!(decode_manifest(&wrong).is_err());
    let mut zero = metadata;
    zero.session_id = 0;
    assert!(decode_manifest(&zero).is_err());
}

fn descriptor() -> RendezvousDescriptor {
    RendezvousDescriptor::new(
        TransferIdentity::new(
            SessionId::from_u128(1).unwrap(),
            Generation::new(2).unwrap(),
            EndpointRole::Renderer,
        ),
        [7; NONCE_LENGTH],
        1,
        "com.nwipc.rendezvous.v1.test".into(),
        "extension-secret".into(),
    )
}

#[test]
fn descriptor_rejects_truncation_and_redacts_secrets() {
    assert!(RendezvousDescriptor::decode(b"NWIPCRV1").is_err());
    let made = descriptor();
    let encoded = made.encode().ok().unwrap();
    let decoded = RendezvousDescriptor::decode(&encoded).ok().unwrap();
    assert!(decoded == made);
    let debug = made.to_text();
    assert!(!debug.contains("extension-secret"));
    assert!(!debug.contains("0707"));
    for length in 0..encoded.len() {
        assert!(RendezvousDescriptor::decode(&encoded[..length]).is_err());
    }
}

#[test]
fn consume_rejects_wrong_identity_before_native_lookup() {
    let made = descriptor();
    let wrong_role = TransferIdentity::new(
        made.identity().session_id(),
        made.identity().generation(),
        EndpointRole::Peer,
    );
    assert_eq!(
        consume(true, made, wrong_role).err().unwrap().code(),
        ErrorCode::AuthenticationFailed
    );
    let native = descriptor();
    let expected = native.identity();
    assert_eq!(
        consume(false, native, expected).err().unwrap().code(),
        ErrorCode::Unsupported
    );
}

#[test]
fn published_rendezvous_reaches_its_consumer() {
    let who = identity(EndpointRole::Renderer, 3);
    let publication = publish(who, test_capabilities(who), ControlPort::Complete(50)).ok().unwrap();
    let named = publication.named(Some([9; 32]), Some(vec![0xcd; 16])).ok().unwrap();
    let service = named.allocated(ControlPort::Complete(60)).ok().unwrap();
    let service = service.registered(true).ok().unwrap();
    let (server, control, published) = service
        .extended(Some(b"token".to_vec()), 77)
        .ok()
        .unwrap();
    assert_eq!(control, 60);
    let copied = RendezvousDescriptor::decode(&published.encode().ok().unwrap()).ok().unwrap();
    assert!(copied == published);

    let grant = consume(true, copied, who).ok().unwrap();
    let lookup = grant.consumed(5).ok().unwrap();
    assert_eq!(lookup.target_pid(), Some(77));
    let consumer = lookup.found(KERN_SUCCESS, 70).ok().unwrap();
    let call = consumer.allocated(KERN_SUCCESS, 71).ok().unwrap();
    let presented = call.authentication();
    let waiting = call.sent(KERN_SUCCESS).ok().unwrap();

    let stranger = Request {
        id: CONNECT_MESSAGE,
        remote_port: 99,
        authentication: authentication(who, [8; 32]),
    };
    let server = match server.received(Some(stranger)) {
        ServeStep::Await(server, release) => {
            assert!(release == Some(NativeRight::Send(99)));
            server
        }
        _ => panic!("a stranger was answered"),
    };
    let handoff = match server.received(Some(Request {
        id: CONNECT_MESSAGE,
        remote_port: 71,
        authentication: presented,
    })) {
        ServeStep::Respond(handoff) => handoff,
        _ => panic!("the consumer was not answered"),
    };
    let response = handoff.response();
    assert_eq!(response.control, 50);
    let handoff = handoff.sent(true).ok().unwrap();
    let message = copy_of(handoff.pending.message());
    let (acknowledgement, release) = handoff.delivered(true);
    assert!(release == vec![NativeRight::Send(50)]);

    let (capability, _reply) = waiting.received(KERN_SUCCESS, response).ok().unwrap();
    let (call, _release) = capability.received(Some(message)).ok().unwrap();
    let confirmed = Request {
        id: ACK_MESSAGE,
        remote_port: 0,
        authentication: call.authentication(),
    };
    let (mut capabilities, _release) = call.sent(KERN_SUCCESS).ok().unwrap();
    assert_eq!(capabilities.take_outbound_memory().unwrap().into_raw(), 11);
    assert!(acknowledgement.unwrap().completed(Some(confirmed)));
}

#[test]
fn rendezvous_failures_release_what_they_own() {
    let who = identity(EndpointRole::Peer, 3);
    let failure = publish(who, test_capabilities(who), ControlPort::Unallocated).err().unwrap();
    assert_eq!(failure.release.len(), 4);
    let failure = publish(who, test_capabilities(who), ControlPort::Complete(50))
        .ok()
        .unwrap()
        .named(None, None)
        .err()
        .unwrap();
    assert!(failure.release.contains(&NativeRight::Receive(50)));
    let made = descriptor();
    let expected = made.identity();
    let lookup = consume(true, made, expected).ok().unwrap().consumed(4).ok().unwrap();
    let call = lookup
        .found(KERN_SUCCESS, 70)
        .ok()
        .unwrap()
        .allocated(KERN_SUCCESS, 71)
        .ok()
        .unwrap();
    let failure = call.sent(RECEIVE_TIMED_OUT).err().unwrap();
    assert!(failure.release.contains(&NativeRight::Extension(4)));
    assert!(failure.release.contains(&NativeRight::Send(70)));
    assert!(failure.release.contains(&NativeRight::Receive(71)));
}

#[test]
fn host_adopts_a_send_right_after_a_handoff() {
    let identity = identity(EndpointRole::Peer, 3);
    assert!(AuthenticatedControlHost::from_raw_send_right(true, identity, 21).is_ok());
    assert_eq!(
        AuthenticatedControlHost::from_raw_send_right(true, identity, 0)
            .err()
            .unwrap()
            .code(),
        ErrorCode::RequiredCapabilityMissing
    );
    assert_eq!(
        AuthenticatedControlHost::from_raw_send_right(false, identity, 21)
            .err()
            .unwrap()
            .code(),
        ErrorCode::Unsupported
    );
}

#[test]
fn control_sides_render_without_their_rights() {
    let (host, endpoint) = control_channel(identity(EndpointRole::Renderer, 5), 4711);
    assert_eq!(
        host.to_text(),
        "AuthenticatedControlHost { identity: TransferIdentity { session_id: \
         SessionId(<redacted>), generation: Generation(5), role: Renderer }, native: \
         \"<redacted>\", attempted: false, .. }"
    );
    assert!(!endpoint.to_text().contains("4711"));
}

#[test]
fn rendezvous_bytes_have_one_form() {
    let made = descriptor();
    let encoded = made.encode().ok().unwrap();
    for position in 0..encoded.len() {
        let mut changed = encoded.clone();
        changed[position] ^= 1;
        if let Ok(decoded) = RendezvousDescriptor::decode(&changed) {
            assert!(!(decoded == descriptor()));
            assert_eq!(decoded.encode().ok().unwrap(), changed);
        }
    }
    let mut longer = encoded;
    longer.push(0);
    assert!(RendezvousDescriptor::decode(&longer).is_err());
}
