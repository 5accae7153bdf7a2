use chacha20poly1305::{AeadInPlace, KeyInit};
use nwipc::data_plane::crypto::{
    settle_opening, EndpointProtection, EndpointRole, COUNTER_LENGTH, FRAME_OVERHEAD,
    MINIMUM_SECRET_LENGTH,
};
use nwipc::domain::error::{ErrorCategory, ErrorCode};
use nwipc::domain::types::{Generation, SessionId};

fn endpoints(secret: &[u8], generation: u64) -> (EndpointProtection, EndpointProtection) {
    let session = SessionId::from_u128(0xfeed).unwrap();
    let generation = Generation::new(generation).unwrap();
    (
        EndpointProtection::derive(secret, session, generation, EndpointRole::Renderer).unwrap(),
        EndpointProtection::derive(secret, session, generation, EndpointRole::Peer).unwrap(),
    )
}

fn seal(protection: &mut EndpointProtection, plaintext: &[u8]) -> Vec<u8> {
    let pending = protection.prepare(plaintext).unwrap();
    let protected = pending.bytes().to_vec();
    pending.commit();
    protected
}

#[test]
fn exchanges_confidential_bidirectional_frames() {
    let secret = [0x42; MINIMUM_SECRET_LENGTH];
    let (mut renderer, mut peer) = endpoints(&secret, 7);
    let request = seal(&mut renderer, b"renderer secret payload");
    assert!(!request
        .windows(b"secret payload".len())
        .any(|window| window == b"secret payload"));
    assert_eq!(peer.open(&request).unwrap(), b"renderer secret payload");
    let response = seal(&mut peer, b"peer response");
    assert_eq!(renderer.open(&response).unwrap(), b"peer response");
}

#[test]
fn tamper_does_not_advance_receive_sequence() {
    let secret = [0x24; MINIMUM_SECRET_LENGTH];
    let (mut renderer, mut peer) = endpoints(&secret, 3);
    let protected = seal(&mut renderer, b"valid");
    let mut ciphertext_tamper = protected.clone();
    ciphertext_tamper[COUNTER_LENGTH] ^= 1;
    let error = peer.open(&ciphertext_tamper).unwrap_err();
    assert_eq!(error.category(), ErrorCategory::Security);
    assert_eq!(error.code(), ErrorCode::AuthenticationFailed);
    let mut tag_tamper = protected.clone();
    *tag_tamper.last_mut().unwrap() ^= 1;
    assert_eq!(
        peer.open(&tag_tamper).unwrap_err().code(),
        ErrorCode::AuthenticationFailed
    );
    let mut counter_tamper = protected.clone();
    counter_tamper[0] ^= 1;
    assert_eq!(
        peer.open(&counter_tamper).unwrap_err().code(),
        ErrorCode::ReplayDetected
    );
    assert_eq!(peer.open(&protected).unwrap(), b"valid");
}

#[test]
fn rejects_replay_wrong_generation_and_wrong_secret() {
    let secret = [0x18; MINIMUM_SECRET_LENGTH];
    let (mut renderer, mut peer) = endpoints(&secret, 1);
    let protected = seal(&mut renderer, b"once");
    assert_eq!(peer.open(&protected).unwrap(), b"once");
    assert_eq!(
        peer.open(&protected).unwrap_err().code(),
        ErrorCode::ReplayDetected
    );

    let (_, mut next_generation) = endpoints(&secret, 2);
    assert_eq!(
        next_generation.open(&protected).unwrap_err().code(),
        ErrorCode::AuthenticationFailed
    );
    let (_, mut wrong_secret) = endpoints(&[0x81; MINIMUM_SECRET_LENGTH], 1);
    assert_eq!(
        wrong_secret.open(&protected).unwrap_err().code(),
        ErrorCode::AuthenticationFailed
    );
}

#[test]
fn dropped_pending_frame_reuses_unpublished_counter() {
    let secret = [0x55; MINIMUM_SECRET_LENGTH];
    let (mut renderer, mut peer) = endpoints(&secret, 4);
    let discarded = renderer.prepare(b"discarded").unwrap();
    assert_eq!(&discarded.bytes()[..COUNTER_LENGTH], &0_u64.to_le_bytes());
    drop(discarded);
    let committed = seal(&mut renderer, b"committed");
    assert_eq!(&committed[..COUNTER_LENGTH], &0_u64.to_le_bytes());
    assert_eq!(peer.open(&committed).unwrap(), b"committed");
}

#[test]
fn rejects_weak_secret_and_redacts_debug_output() {
    let session = SessionId::from_u128(1).unwrap();
    let generation = Generation::new(1).unwrap();
    assert_eq!(
        EndpointProtection::derive(b"short", session, generation, EndpointRole::Renderer)
            .err()
            .unwrap()
            .code(),
        ErrorCode::InvalidRange
    );
    let protection = EndpointProtection::derive(
        &[0x99; MINIMUM_SECRET_LENGTH],
        session,
        generation,
        EndpointRole::Renderer,
    )
    .unwrap();
    let debug = protection.to_text();
    assert!(debug.contains("<redacted>"));
    assert!(!debug.contains("99"));
}

#[test]
fn frames_carry_counter_ciphertext_and_tag() {
    let (mut renderer, mut peer) = endpoints(&[7; MINIMUM_SECRET_LENGTH], 1);
    let first = seal(&mut renderer, b"a");
    let second = seal(&mut renderer, b"b");
    assert_eq!(first.len(), 1 + FRAME_OVERHEAD);
    assert_eq!(&second[..COUNTER_LENGTH], &1_u64.to_le_bytes());
    assert_eq!(
        peer.open(&second).unwrap_err().code(),
        ErrorCode::ReplayDetected
    );
    assert_eq!(peer.open(&first).unwrap(), b"a");
    assert_eq!(peer.open(&second).unwrap(), b"b");
    assert_eq!(
        peer.open(&second[..FRAME_OVERHEAD - 1])
            .unwrap_err()
            .context(),
        "open truncated transport frame"
    );
}

#[test]
fn directions_use_independent_keys() {
    let (mut renderer, mut peer) = endpoints(&[7; MINIMUM_SECRET_LENGTH], 1);
    let from_renderer = seal(&mut renderer, b"same");
    let from_peer = seal(&mut peer, b"same");
    assert_ne!(from_renderer, from_peer);
    assert_eq!(
        renderer.open(&from_renderer).unwrap_err().code(),
        ErrorCode::AuthenticationFailed
    );
}

#[test]
fn sealing_is_the_named_cipher_under_the_named_derivation() {
    let secret = [0x31; MINIMUM_SECRET_LENGTH];
    let (mut renderer, _) = endpoints(&secret, 9);
    let protected = seal(&mut renderer, b"known");
    let mut salt = 0xfeed_u128.to_le_bytes().to_vec();
    salt.extend_from_slice(&9_u64.to_le_bytes());
    let mut derived = [0_u8; 48];
    hkdf::Hkdf::<sha2::Sha256>::new(Some(&salt), &secret)
        .expand(b"nwipc frame protection v1\0renderer-to-peer", &mut derived)
        .unwrap();
    let cipher = chacha20poly1305::XChaCha20Poly1305::new(chacha20poly1305::Key::from_slice(
        &derived[..32],
    ));
    let mut nonce = derived[32..].to_vec();
    nonce.extend_from_slice(&0_u64.to_le_bytes());
    let mut associated = salt.clone();
    associated.extend_from_slice(&0_u64.to_le_bytes());
    let mut buffer = b"known".to_vec();
    let tag = cipher
        .encrypt_in_place_detached(
            chacha20poly1305::XNonce::from_slice(&nonce),
            &associated,
            &mut buffer,
        )
        .unwrap();
    let mut expected = 0_u64.to_le_bytes().to_vec();
    expected.extend_from_slice(&buffer);
    expected.extend_from_slice(&tag);
    assert_eq!(protected, expected);
}

#[test]
fn committed_frames_open_in_turn_and_no_other_does() {
    let secret = [0x61; MINIMUM_SECRET_LENGTH];
    let (mut renderer, mut peer) = endpoints(&secret, 5);
    let mut frames = Vec::new();
    for number in 0_u8..4 {
        drop(renderer.prepare(b"dropped").unwrap());
        frames.push(seal(&mut renderer, &[number; 3]));
    }
    for (number, frame) in frames.iter().enumerate() {
        assert_eq!(&frame[..COUNTER_LENGTH], &(number as u64).to_le_bytes());
    }
    for number in 0..frames.len() {
        for (other, frame) in frames.iter().enumerate() {
            if other != number {
                assert_eq!(
                    peer.open(frame).unwrap_err().code(),
                    ErrorCode::ReplayDetected
                );
            }
        }
        assert_eq!(peer.open(&frames[number]).unwrap(), [number as u8; 3]);
    }
    assert_eq!(
        peer.open(&frames[3]).unwrap_err().code(),
        ErrorCode::ReplayDetected
    );
}

#[test]
fn the_answer_of_the_cipher_decides_what_becomes_of_a_frame() {
    let mut frame = 5_u64.to_le_bytes().to_vec();
    frame.extend_from_slice(&[0; 18]);
    let (next, opened) = settle_opening(Some(5), &frame, Some(b"ok".to_vec()));
    assert_eq!(next, Some(6));
    assert_eq!(opened.unwrap(), b"ok");
    let (next, opened) = settle_opening(Some(5), &frame, None);
    assert_eq!(next, Some(5));
    assert_eq!(opened.unwrap_err().code(), ErrorCode::AuthenticationFailed);
    let (next, opened) = settle_opening(Some(4), &frame, Some(b"ok".to_vec()));
    assert_eq!(next, Some(4));
    assert_eq!(opened.unwrap_err().code(), ErrorCode::ReplayDetected);
    let (next, opened) = settle_opening(Some(0), &frame[..23], Some(Vec::new()));
    assert_eq!(next, Some(0));
    assert_eq!(opened.unwrap_err().code(), ErrorCode::AuthenticationFailed);
    let last = [0xff; 24];
    let (next, opened) = settle_opening(Some(u64::MAX), &last, Some(Vec::new()));
    assert_eq!(next, None);
    assert!(opened.unwrap().is_empty());
}
