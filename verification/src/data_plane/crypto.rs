//! Generation-bound authenticated encryption for complete transport frames.
//!
//! A one-shot bootstrap secret is expanded into independent renderer-to-peer and
//! peer-to-renderer keys. The protected frame counter is authenticated and must be received in
//! strict FIFO order, making replay, deletion, and reordering terminal for the generation.

use chacha20poly1305::{AeadInPlace, KeyInit};
use vstd::prelude::*;
use vstd::slice::slice_subrange;
use vstd::string::StringSliceAdditionalSpecFns;
use zeroize::Zeroize;

use crate::domain::bytes::{
    le_at, le_bytes, lemma_le_bytes_len, lemma_le_canonical, lemma_le_limits, lemma_le_round_trip,
    push_bytes, push_u64, read_u64,
};
use crate::domain::error::{report, ErrorCategory, ErrorCode, ErrorReport, Recoverability};
use crate::domain::types::{Generation, SessionId};
use crate::memory::api::copied_bytes;

verus! {

/// Bytes of a directional cipher key.
pub const KEY_LENGTH: usize = 32;

/// Bytes of the derived part of a nonce.
pub const NONCE_PREFIX_LENGTH: usize = 16;

/// Bytes of an encoded frame counter.
pub const COUNTER_LENGTH: usize = 8;

/// Bytes of an authentication tag.
pub const TAG_LENGTH: usize = 16;

/// Bytes derived for one direction.
pub const DERIVED_LENGTH: usize = 48;

/// Entropy required for a production bootstrap secret.
pub const MINIMUM_SECRET_LENGTH: usize = 32;

/// Bytes added to every protected transport frame.
pub const FRAME_OVERHEAD: usize = 24;

/// Separates these keys from any other use of the secret.
pub const CONTEXT_LABEL: &'static str = "nwipc frame protection v1";

/// Names the direction from the renderer to the peer.
pub const RENDERER_TO_PEER_LABEL: &'static str = "renderer-to-peer";

/// Names the direction from the peer to the renderer.
pub const PEER_TO_RENDERER_LABEL: &'static str = "peer-to-renderer";

/// The longest plaintext whose keystream the cipher can produce.
pub const MAXIMUM_CIPHER_LENGTH: u64 = 0x3f_ffff_ff80;

/// The shortest plaintext that the cipher refuses.
pub const REFUSED_CIPHER_LENGTH: u64 = 0x3f_ffff_ffc0;

/// The error of a key derivation that asks for too many bytes.
#[verifier::external_type_specification]
#[verifier::external_body]
pub struct ExInvalidLength(hkdf::InvalidLength);

/// The error of a cipher that refuses to seal or to open.
#[verifier::external_type_specification]
#[verifier::external_body]
pub struct ExCipherError(chacha20poly1305::Error);

/// The first `length` bytes that HKDF-SHA256 derives from a secret, a salt and an info string.
pub uninterp spec fn derived_bytes(
    salt: Seq<u8>,
    secret: Seq<u8>,
    info: Seq<u8>,
    length: nat,
) -> Seq<u8>;

/// Ciphertext and tag that XChaCha20-Poly1305 makes of a plaintext.
pub uninterp spec fn sealed_bytes(
    key: Seq<u8>,
    nonce: Seq<u8>,
    associated: Seq<u8>,
    plaintext: Seq<u8>,
) -> (Seq<u8>, Seq<u8>);

/// The plaintext that XChaCha20-Poly1305 finds in a ciphertext, where the tag is right.
pub uninterp spec fn opened_bytes(
    key: Seq<u8>,
    nonce: Seq<u8>,
    associated: Seq<u8>,
    ciphertext: Seq<u8>,
    tag: Seq<u8>,
) -> Option<Seq<u8>>;

/// Whether the cipher answers for this many bytes: it seals up to one length, refuses from
/// another one on, and runs out of keystream between the two.
pub open spec fn cipher_answers(length: nat) -> bool {
    length <= MAXIMUM_CIPHER_LENGTH || length >= REFUSED_CIPHER_LENGTH
}

/// Calls `hkdf::Hkdf::<Sha256>::new` and `expand`.
///
/// The derivation fails exactly where more than 255 hash outputs are asked for; otherwise the
/// bytes are a function of salt, secret, info and length.
#[verifier::external_body]
fn expand_secret<const LENGTH: usize>(salt: &[u8], secret: &[u8], info: &[u8]) -> (expanded: Result<
    [u8; LENGTH],
    hkdf::InvalidLength,
>)
    ensures
        expanded is Err <==> LENGTH > 255 * 32,
        expanded matches Ok(bytes) ==> bytes@ == derived_bytes(
            salt@,
            secret@,
            info@,
            LENGTH as nat,
        ),
{
    let mut bytes = [0u8; LENGTH];
    hkdf::Hkdf::<sha2::Sha256>::new(Some(salt), secret).expand(info, &mut bytes)?;
    Ok(bytes)
}

/// Calls `AeadInPlace::encrypt_in_place_detached` of `chacha20poly1305::XChaCha20Poly1305`.
///
/// The cipher refuses plaintexts from `REFUSED_CIPHER_LENGTH` bytes on and no others. What it
/// makes of the rest is a function of key, nonce, associated data and plaintext; the ciphertext
/// is as long as the plaintext, the tag has 16 bytes, and opening both under the same key, nonce
/// and associated data gives the plaintext back.
#[verifier::external_body]
fn seal_bytes(key: &[u8], nonce: &[u8], associated: &[u8], plaintext: &[u8]) -> (sealed: Result<
    (Vec<u8>, Vec<u8>),
    chacha20poly1305::Error,
>)
    requires
        key@.len() == KEY_LENGTH,
        nonce@.len() == 24,
        cipher_answers(plaintext@.len()),
    ensures
        sealed is Err <==> plaintext@.len() >= REFUSED_CIPHER_LENGTH,
        sealed matches Ok((ciphertext, tag)) ==> {
            &&& (ciphertext@, tag@) == sealed_bytes(key@, nonce@, associated@, plaintext@)
            &&& ciphertext@.len() == plaintext@.len()
            &&& tag@.len() == TAG_LENGTH
            &&& opened_bytes(key@, nonce@, associated@, ciphertext@, tag@) == Some(plaintext@)
        },
{
    let mut buffer = plaintext.to_vec();
    let cipher = chacha20poly1305::XChaCha20Poly1305::new(chacha20poly1305::Key::from_slice(key));
    let nonce = chacha20poly1305::XNonce::from_slice(nonce);
    let tag = cipher.encrypt_in_place_detached(nonce, associated, &mut buffer)?;
    Ok((buffer, tag.to_vec()))
}

/// Calls `AeadInPlace::decrypt_in_place_detached` of `chacha20poly1305::XChaCha20Poly1305`.
///
/// Whether the tag is right, and the plaintext then, are a function of key, nonce, associated
/// data, ciphertext and tag. A plaintext is as long as the ciphertext, and sealing it again gives
/// that ciphertext and tag. Ciphertexts from `REFUSED_CIPHER_LENGTH` bytes on are refused.
#[verifier::external_body]
fn open_bytes(
    key: &[u8],
    nonce: &[u8],
    associated: &[u8],
    ciphertext: &[u8],
    tag: &[u8],
) -> (opened: Result<Vec<u8>, chacha20poly1305::Error>)
    requires
        key@.len() == KEY_LENGTH,
        nonce@.len() == 24,
        tag@.len() == TAG_LENGTH,
        cipher_answers(ciphertext@.len()),
    ensures
        opened is Err <==> opened_bytes(key@, nonce@, associated@, ciphertext@, tag@) is None,
        opened matches Ok(plaintext) ==> {
            &&& opened_bytes(key@, nonce@, associated@, ciphertext@, tag@) == Some(plaintext@)
            &&& sealed_bytes(key@, nonce@, associated@, plaintext@) == (ciphertext@, tag@)
            &&& plaintext@.len() == ciphertext@.len()
        },
        ciphertext@.len() >= REFUSED_CIPHER_LENGTH ==> opened is Err,
{
    let mut buffer = ciphertext.to_vec();
    let cipher = chacha20poly1305::XChaCha20Poly1305::new(chacha20poly1305::Key::from_slice(key));
    let nonce = chacha20poly1305::XNonce::from_slice(nonce);
    let tag = chacha20poly1305::Tag::from_slice(tag);
    cipher.decrypt_in_place_detached(nonce, associated, &mut buffer, tag)?;
    Ok(buffer)
}

/// Calls `zeroize::Zeroize::zeroize` on a byte array, which leaves it all zero.
#[verifier::external_body]
fn erase<const LENGTH: usize>(bytes: &mut [u8; LENGTH])
    ensures
        final(bytes)@ == Seq::new(LENGTH as nat, |i: int| 0u8),
    opens_invariants none
    no_unwind
{
    bytes.zeroize();
}

/// Endpoint role used to select independent directional keys.
#[derive(Clone, Copy, Debug, PartialEq, Eq, Structural)]
pub enum EndpointRole {
    /// `WebKit` renderer endpoint.
    Renderer,
    /// Native peer endpoint.
    Peer,
}

/// A direction of frames.
#[derive(Clone, Copy, Debug, PartialEq, Eq, Structural)]
pub enum Direction {
    /// From the renderer to the peer.
    RendererToPeer,
    /// From the peer to the renderer.
    PeerToRenderer,
}

impl EndpointRole {
    /// The direction of the frames that this endpoint sends.
    pub open spec fn sends(self) -> Direction {
        match self {
            EndpointRole::Renderer => Direction::RendererToPeer,
            EndpointRole::Peer => Direction::PeerToRenderer,
        }
    }

    /// The direction of the frames that this endpoint receives.
    pub open spec fn receives(self) -> Direction {
        match self {
            EndpointRole::Renderer => Direction::PeerToRenderer,
            EndpointRole::Peer => Direction::RendererToPeer,
        }
    }

    fn outbound_direction(self) -> (direction: Direction)
        ensures
            direction == self.sends(),
    {
        match self {
            EndpointRole::Renderer => Direction::RendererToPeer,
            EndpointRole::Peer => Direction::PeerToRenderer,
        }
    }

    fn inbound_direction(self) -> (direction: Direction)
        ensures
            direction == self.receives(),
    {
        match self {
            EndpointRole::Renderer => Direction::PeerToRenderer,
            EndpointRole::Peer => Direction::RendererToPeer,
        }
    }
}

impl Direction {
    /// The bytes that name the direction in a key derivation.
    pub open spec fn name(self) -> Seq<u8> {
        match self {
            Direction::RendererToPeer => RENDERER_TO_PEER_LABEL.spec_bytes(),
            Direction::PeerToRenderer => PEER_TO_RENDERER_LABEL.spec_bytes(),
        }
    }

    fn label(self) -> (label: &'static [u8])
        ensures
            label@ == self.name(),
    {
        match self {
            Direction::RendererToPeer => RENDERER_TO_PEER_LABEL.as_bytes(),
            Direction::PeerToRenderer => PEER_TO_RENDERER_LABEL.as_bytes(),
        }
    }
}

/// Session and generation as the bytes that salt the keys and prefix the associated data.
pub open spec fn binding_bytes(session_id: SessionId, generation: Generation) -> Seq<u8> {
    le_bytes(session_id@ as nat, 16) + le_bytes(generation@ as nat, 8)
}

/// The info string of a direction.
pub open spec fn derivation_info(direction: Direction) -> Seq<u8> {
    CONTEXT_LABEL.spec_bytes().push(0) + direction.name()
}

/// What protects the frames of one direction.
pub struct DirectionView {
    /// Cipher key.
    pub key: Seq<u8>,
    /// Start of every nonce.
    pub nonce_prefix: Seq<u8>,
    /// Start of every associated data string.
    pub binding: Seq<u8>,
}

/// What derived bytes and a binding make of a direction.
pub open spec fn direction_of(derived: Seq<u8>, binding: Seq<u8>) -> DirectionView {
    DirectionView {
        key: derived.subrange(0, KEY_LENGTH as int),
        nonce_prefix: derived.subrange(KEY_LENGTH as int, DERIVED_LENGTH as int),
        binding,
    }
}

/// What protects the frames of one direction of a session generation.
pub open spec fn direction_for(
    secret: Seq<u8>,
    session_id: SessionId,
    generation: Generation,
    direction: Direction,
) -> DirectionView {
    let binding = binding_bytes(session_id, generation);
    direction_of(
        derived_bytes(binding, secret, derivation_info(direction), DERIVED_LENGTH as nat),
        binding,
    )
}

/// The nonce of a frame.
pub open spec fn frame_nonce(direction: DirectionView, counter: u64) -> Seq<u8> {
    direction.nonce_prefix + le_bytes(counter as nat, 8)
}

/// The associated data of a frame.
pub open spec fn frame_associated(direction: DirectionView, counter: u64) -> Seq<u8> {
    direction.binding + le_bytes(counter as nat, 8)
}

/// A frame made of its counter, ciphertext and tag.
pub open spec fn frame_bytes(counter: u64, ciphertext: Seq<u8>, tag: Seq<u8>) -> Seq<u8> {
    le_bytes(counter as nat, 8) + ciphertext + tag
}

/// The protected frame of a plaintext.
pub open spec fn protected_frame(
    direction: DirectionView,
    counter: u64,
    plaintext: Seq<u8>,
) -> Seq<u8> {
    let (ciphertext, tag) = sealed_bytes(
        direction.key,
        frame_nonce(direction, counter),
        frame_associated(direction, counter),
        plaintext,
    );
    frame_bytes(counter, ciphertext, tag)
}

/// The counter that a frame claims.
pub open spec fn claimed_counter(frame: Seq<u8>) -> nat {
    le_at(frame, 0, COUNTER_LENGTH as int)
}

/// The plaintext that the cipher finds in a frame with this counter.
pub open spec fn frame_plaintext(
    direction: DirectionView,
    counter: u64,
    frame: Seq<u8>,
) -> Option<Seq<u8>> {
    opened_bytes(
        direction.key,
        frame_nonce(direction, counter),
        frame_associated(direction, counter),
        frame.subrange(COUNTER_LENGTH as int, frame.len() - TAG_LENGTH),
        frame.subrange(frame.len() - TAG_LENGTH, frame.len() as int),
    )
}

/// The counter after this one, absent once all are used up.
pub open spec fn counter_after(counter: u64) -> Option<u64> {
    if counter == u64::MAX {
        None
    } else {
        Some((counter + 1) as u64)
    }
}

/// The counter of a frame that may be opened next.
pub open spec fn admitted_counter(expected: Option<u64>, frame: Seq<u8>) -> Result<
    u64,
    ErrorReport,
> {
    if frame.len() < FRAME_OVERHEAD {
        Err(security_report(ErrorCode::AuthenticationFailed, "open truncated transport frame"))
    } else if expected matches Some(counter) && counter == claimed_counter(frame) {
        Ok(expected->0)
    } else {
        Err(security_report(ErrorCode::ReplayDetected, "transport frame sequence"))
    }
}

/// The next expected counter, and what opening a frame gives, for what the cipher finds in it.
pub open spec fn opening(expected: Option<u64>, frame: Seq<u8>, found: Option<Seq<u8>>) -> (
    Option<u64>,
    Result<Seq<u8>, ErrorReport>,
) {
    match admitted_counter(expected, frame) {
        Err(error) => (expected, Err(error)),
        Ok(counter) => match found {
            None => (
                expected,
                Err(
                    security_report(
                        ErrorCode::AuthenticationFailed,
                        "authenticate transport frame",
                    ),
                ),
            ),
            Some(plaintext) => (counter_after(counter), Ok(plaintext)),
        },
    }
}

/// The next expected counter, and what opening a frame gives.
pub open spec fn frame_opening(
    direction: DirectionView,
    expected: Option<u64>,
    frame: Seq<u8>,
) -> (Option<u64>, Result<Seq<u8>, ErrorReport>) {
    opening(
        expected,
        frame,
        match expected {
            Some(counter) => frame_plaintext(direction, counter, frame),
            None => None,
        },
    )
}

/// Whether a frame is what sealing a plaintext at a counter gives: it holds the plaintext, and
/// whoever expects that counter opens it.
pub open spec fn frame_sealed(
    direction: DirectionView,
    counter: u64,
    plaintext: Seq<u8>,
    frame: Seq<u8>,
) -> bool {
    &&& frame == protected_frame(direction, counter, plaintext)
    &&& frame.len() == plaintext.len() + FRAME_OVERHEAD
    &&& frame_opening(direction, Some(counter), frame) == (
        counter_after(counter),
        Ok::<Seq<u8>, ErrorReport>(plaintext),
    )
}

/// Why a frame of this length cannot be sealed at this counter, if it cannot.
pub open spec fn sealing_rejection(next_counter: Option<u64>, length: nat) -> Option<ErrorReport> {
    if next_counter is None {
        Some(security_report(ErrorCode::ProtocolViolation, "frame counter exhausted"))
    } else if length + FRAME_OVERHEAD > usize::MAX {
        Some(configuration_report("protected frame length"))
    } else if length >= REFUSED_CIPHER_LENGTH {
        Some(security_report(ErrorCode::AuthenticationFailed, "seal transport frame"))
    } else {
        None
    }
}

/// The report of unusable input to a key derivation or frame.
pub open spec fn configuration_report(operation: &'static str) -> ErrorReport {
    report(
        ErrorCategory::Configuration,
        ErrorCode::InvalidRange,
        Recoverability::Terminal,
        operation,
    )
}

/// The report of a frame that cannot be trusted.
pub open spec fn security_report(code: ErrorCode, operation: &'static str) -> ErrorReport {
    report(ErrorCategory::Security, code, Recoverability::ReplaceEndpoint, operation)
}

fn configuration_error(operation: &'static str) -> (created: ErrorReport)
    ensures
        created == configuration_report(operation),
{
    ErrorReport::new(
        ErrorCategory::Configuration,
        ErrorCode::InvalidRange,
        Recoverability::Terminal,
        operation,
    )
}

fn security_error(code: ErrorCode, operation: &'static str) -> (created: ErrorReport)
    ensures
        created == security_report(code, operation),
{
    ErrorReport::new(ErrorCategory::Security, code, Recoverability::ReplaceEndpoint, operation)
}

/// Key material of one direction, erased when dropped.
pub struct DirectionKeys {
    key: [u8; 32],
    nonce_prefix: [u8; 16],
    binding: Vec<u8>,
}

impl Drop for DirectionKeys {
    fn drop(&mut self)
        opens_invariants none
        no_unwind
    {
        erase(&mut self.key);
    }
}

impl View for DirectionKeys {
    type V = DirectionView;

    closed spec fn view(&self) -> DirectionView {
        DirectionView {
            key: self.key@,
            nonce_prefix: self.nonce_prefix@,
            binding: self.binding@,
        }
    }
}

impl DirectionKeys {
    /// Splits derived bytes into the key material of a direction, and erases them.
    pub fn from_derived(derived: [u8; 48], binding: Vec<u8>) -> (keys: Self)
        ensures
            keys@ == direction_of(derived@, binding@),
    {
        let ghost given = derived@;
        let mut derived = derived;
        let mut key: [u8; 32] = [0; 32];
        let mut nonce_prefix: [u8; 16] = [0; 16];
        let mut index: usize = 0;
        while index < KEY_LENGTH
            invariant
                index <= KEY_LENGTH,
                derived@ == given,
                derived@.len() == DERIVED_LENGTH,
                key@.len() == KEY_LENGTH,
                forall|i: int| 0 <= i < index ==> key@[i] == given[i],
            decreases KEY_LENGTH - index,
        {
            key[index] = derived[index];
            index = index + 1;
        }
        let mut index: usize = 0;
        while index < NONCE_PREFIX_LENGTH
            invariant
                index <= NONCE_PREFIX_LENGTH,
                derived@ == given,
                derived@.len() == DERIVED_LENGTH,
                nonce_prefix@.len() == NONCE_PREFIX_LENGTH,
                forall|i: int| 0 <= i < index ==> nonce_prefix@[i] == given[KEY_LENGTH + i],
            decreases NONCE_PREFIX_LENGTH - index,
        {
            nonce_prefix[index] = derived[KEY_LENGTH + index];
            index = index + 1;
        }
        erase(&mut derived);
        proof {
            assert(key@ =~= given.subrange(0, KEY_LENGTH as int));
            assert(nonce_prefix@ =~= given.subrange(KEY_LENGTH as int, DERIVED_LENGTH as int));
        }
        DirectionKeys { key, nonce_prefix, binding }
    }

    /// Derives the key material of one direction of a session generation.
    fn derive(
        secret: &[u8],
        session_id: SessionId,
        generation: Generation,
        direction: Direction,
    ) -> (derived: Result<Self, ErrorReport>)
        ensures
            derived matches Ok(keys) && keys@ == direction_for(
                secret@,
                session_id,
                generation,
                direction,
            ),
    {
        let mut binding = session_id.to_bytes();
        push_u64(&mut binding, generation.get());
        let mut info: Vec<u8> = Vec::new();
        push_bytes(&mut info, CONTEXT_LABEL.as_bytes());
        info.push(0);
        push_bytes(&mut info, direction.label());
        match expand_secret::<48>(binding.as_slice(), secret, info.as_slice()) {
            Ok(bytes) => Ok(DirectionKeys::from_derived(bytes, binding)),
            Err(_) => Err(configuration_error("derive frame protection key")),
        }
    }

    fn nonce(&self, counter: u64) -> (nonce: Vec<u8>)
        ensures
            nonce@ == frame_nonce(self@, counter),
            nonce@.len() == 24,
    {
        let mut nonce: Vec<u8> = Vec::new();
        push_bytes(&mut nonce, &self.nonce_prefix);
        push_u64(&mut nonce, counter);
        proof {
            lemma_le_bytes_len(counter as nat, 8);
        }
        nonce
    }

    fn associated(&self, counter: u64) -> (associated: Vec<u8>)
        ensures
            associated@ == frame_associated(self@, counter),
    {
        let mut associated: Vec<u8> = Vec::new();
        push_bytes(&mut associated, self.binding.as_slice());
        push_u64(&mut associated, counter);
        associated
    }
}

/// Assembles a protected frame.
pub fn assemble_frame(counter: u64, ciphertext: &[u8], tag: &[u8]) -> (frame: Vec<u8>)
    requires
        ciphertext@.len() + tag@.len() + COUNTER_LENGTH <= usize::MAX,
    ensures
        frame@ == frame_bytes(counter, ciphertext@, tag@),
{
    let mut frame: Vec<u8> = Vec::new();
    push_u64(&mut frame, counter);
    push_bytes(&mut frame, ciphertext);
    push_bytes(&mut frame, tag);
    proof {
        assert(frame@ =~= frame_bytes(counter, ciphertext@, tag@));
    }
    frame
}

/// Checks that a frame carries the expected counter.
///
/// A frame too short for its counter and tag fails authentication, and any other counter is a
/// replay.
pub fn admit_counter(expected: Option<u64>, frame: &[u8]) -> (admitted: Result<u64, ErrorReport>)
    ensures
        admitted == admitted_counter(expected, frame@),
{
    if frame.len() < FRAME_OVERHEAD {
        return Err(
            security_error(ErrorCode::AuthenticationFailed, "open truncated transport frame"),
        );
    }
    let counter: u64 = read_u64(frame, 0);
    if let Some(next) = expected {
        if next == counter {
            return Ok(counter);
        }
    }
    Err(security_error(ErrorCode::ReplayDetected, "transport frame sequence"))
}

/// Decides what becomes of a frame, given what the cipher found in it: the next expected counter,
/// and the plaintext or why there is none.
///
/// A frame that is not admitted, and one in which the cipher found nothing, leave the expected
/// counter as it was.
pub fn settle_opening(expected: Option<u64>, frame: &[u8], found: Option<Vec<u8>>) -> (settled: (
    Option<u64>,
    Result<Vec<u8>, ErrorReport>,
))
    ensures
        (settled.0, copied_bytes(settled.1)) == opening(
            expected,
            frame@,
            match found {
                Some(plaintext) => Some(plaintext@),
                None => None,
            },
        ),
        settled.1 matches Ok(plaintext) ==> found == Some(plaintext),
{
    match admit_counter(expected, frame) {
        Err(error) => (expected, Err(error)),
        Ok(counter) => match found {
            Some(plaintext) => (counter.checked_add(1), Ok(plaintext)),
            None => (
                expected,
                Err(
                    security_error(ErrorCode::AuthenticationFailed, "authenticate transport frame"),
                ),
            ),
        },
    }
}

/// Keys and next counter of the frames that one endpoint sends.
pub struct FrameSealer {
    keys: DirectionKeys,
    next_counter: Option<u64>,
}

/// Keys of a direction with the counter of its next frame.
pub struct CounterView {
    /// Key material.
    pub direction: DirectionView,
    /// Counter of the next frame, absent once all are used up.
    pub counter: Option<u64>,
}

impl View for FrameSealer {
    type V = CounterView;

    closed spec fn view(&self) -> CounterView {
        CounterView { direction: self.keys@, counter: self.next_counter }
    }
}

impl FrameSealer {
    fn derive(
        secret: &[u8],
        session_id: SessionId,
        generation: Generation,
        direction: Direction,
    ) -> (derived: Result<Self, ErrorReport>)
        ensures
            derived matches Ok(sealer) && sealer@ == (CounterView {
                direction: direction_for(secret@, session_id, generation, direction),
                counter: Some(0),
            }),
    {
        let keys = DirectionKeys::derive(secret, session_id, generation, direction)?;
        Ok(FrameSealer { keys, next_counter: Some(0) })
    }

    /// Seals a frame at the next counter without using it up.
    pub fn prepare<'sealer>(&'sealer mut self, plaintext: &[u8]) -> (prepared: Result<
        PendingProtectedFrame<'sealer>,
        ErrorReport,
    >)
        requires
            cipher_answers(plaintext@.len()),
        ensures
            match prepared {
                Ok(pending) => {
                    &&& sealing_rejection(old(self)@.counter, plaintext@.len()) is None
                    &&& *pending.sealer == *old(self)
                    &&& *final(self) == *final(pending.sealer)
                    &&& old(self)@.counter == Some(pending.counter)
                    &&& frame_sealed(
                        old(self)@.direction,
                        pending.counter,
                        plaintext@,
                        pending.bytes@,
                    )
                },
                Err(error) => {
                    &&& sealing_rejection(old(self)@.counter, plaintext@.len()) == Some(error)
                    &&& *final(self) == *old(self)
                },
            },
    {
        let counter: u64 = match self.next_counter {
            Some(counter) => counter,
            None => {
                return Err(
                    security_error(ErrorCode::ProtocolViolation, "frame counter exhausted"),
                );
            },
        };
        if plaintext.len().checked_add(FRAME_OVERHEAD).is_none() {
            return Err(configuration_error("protected frame length"));
        }
        let nonce = self.keys.nonce(counter);
        let associated = self.keys.associated(counter);
        match seal_bytes(&self.keys.key, nonce.as_slice(), associated.as_slice(), plaintext) {
            Ok((ciphertext, tag)) => {
                let bytes = assemble_frame(counter, ciphertext.as_slice(), tag.as_slice());
                proof {
                    lemma_frame_parts(counter, ciphertext@, tag@);
                }
                Ok(PendingProtectedFrame { sealer: self, counter, bytes })
            },
            Err(_) => Err(
                security_error(ErrorCode::AuthenticationFailed, "seal transport frame"),
            ),
        }
    }
}

/// Authenticated ciphertext awaiting publication by the underlying channel.
pub struct PendingProtectedFrame<'sealer> {
    /// The sealer whose counter the frame uses.
    pub sealer: &'sealer mut FrameSealer,
    /// The counter of the frame.
    pub counter: u64,
    /// The complete protected wire frame.
    pub bytes: Vec<u8>,
}

impl<'sealer> PendingProtectedFrame<'sealer> {
    /// Returns the complete protected wire frame.
    pub fn bytes(&self) -> (bytes: &[u8])
        ensures
            bytes@ == self.bytes@,
    {
        self.bytes.as_slice()
    }

    /// Advances the directional counter after the channel cursor is published.
    pub fn commit(self)
        ensures
            final(self.sealer)@ == (CounterView {
                direction: old(self.sealer)@.direction,
                counter: counter_after(self.counter),
            }),
    {
        self.sealer.next_counter = self.counter.checked_add(1);
    }
}

/// Keys and expected counter of the frames that one endpoint receives.
pub struct FrameOpener {
    keys: DirectionKeys,
    expected_counter: Option<u64>,
}

impl View for FrameOpener {
    type V = CounterView;

    closed spec fn view(&self) -> CounterView {
        CounterView { direction: self.keys@, counter: self.expected_counter }
    }
}

impl FrameOpener {
    fn derive(
        secret: &[u8],
        session_id: SessionId,
        generation: Generation,
        direction: Direction,
    ) -> (derived: Result<Self, ErrorReport>)
        ensures
            derived matches Ok(opener) && opener@ == (CounterView {
                direction: direction_for(secret@, session_id, generation, direction),
                counter: Some(0),
            }),
    {
        let keys = DirectionKeys::derive(secret, session_id, generation, direction)?;
        Ok(FrameOpener { keys, expected_counter: Some(0) })
    }

    /// Opens the next frame; a frame that is not opened leaves the expected counter as it was.
    pub fn open(&mut self, protected: &[u8]) -> (opened: Result<Vec<u8>, ErrorReport>)
        requires
            protected@.len() >= FRAME_OVERHEAD ==> cipher_answers(
                (protected@.len() - FRAME_OVERHEAD) as nat,
            ),
        ensures
            final(self)@.direction == old(self)@.direction,
            frame_opening(old(self)@.direction, old(self)@.counter, protected@) == (
                final(self)@.counter,
                match opened {
                    Ok(plaintext) => Ok::<Seq<u8>, ErrorReport>(plaintext@),
                    Err(error) => Err(error),
                },
            ),
            opened matches Ok(plaintext) ==> {
                &&& old(self)@.counter matches Some(counter) && protected@ == protected_frame(
                    old(self)@.direction,
                    counter,
                    plaintext@,
                )
                &&& plaintext@.len() + FRAME_OVERHEAD == protected@.len()
            },
    {
        let counter: u64 = admit_counter(self.expected_counter, protected)?;
        let tag_offset: usize = protected.len() - TAG_LENGTH;
        let nonce = self.keys.nonce(counter);
        let associated = self.keys.associated(counter);
        let ciphertext = slice_subrange(protected, COUNTER_LENGTH, tag_offset);
        let tag = slice_subrange(protected, tag_offset, protected.len());
        let found = match open_bytes(
            &self.keys.key,
            nonce.as_slice(),
            associated.as_slice(),
            ciphertext,
            tag,
        ) {
            Ok(plaintext) => {
                proof {
                    lemma_frame_of_parts(counter, protected@);
                }
                Some(plaintext)
            },
            Err(_) => None,
        };
        let (expected, opened) = settle_opening(self.expected_counter, protected, found);
        self.expected_counter = expected;
        opened
    }
}

/// Bidirectional frame protection bound to one session generation and endpoint role.
pub struct EndpointProtection {
    /// Protection of the frames that the endpoint sends.
    pub outbound: FrameSealer,
    /// Protection of the frames that the endpoint receives.
    pub inbound: FrameOpener,
}

impl EndpointProtection {
    /// Derives independent directional keys from bootstrap authentication material.
    ///
    /// Rejects secrets shorter than 32 bytes.
    pub fn derive(
        secret: &[u8],
        session_id: SessionId,
        generation: Generation,
        role: EndpointRole,
    ) -> (derived: Result<Self, ErrorReport>)
        ensures
            match derived {
                Ok(protection) => {
                    &&& secret@.len() >= MINIMUM_SECRET_LENGTH
                    &&& protection.outbound@ == (CounterView {
                        direction: direction_for(secret@, session_id, generation, role.sends()),
                        counter: Some(0),
                    })
                    &&& protection.inbound@ == (CounterView {
                        direction: direction_for(
                            secret@,
                            session_id,
                            generation,
                            role.receives(),
                        ),
                        counter: Some(0),
                    })
                },
                Err(error) => secret@.len() < MINIMUM_SECRET_LENGTH && error
                    == configuration_report("frame protection secret length"),
            },
    {
        if secret.len() < MINIMUM_SECRET_LENGTH {
            return Err(configuration_error("frame protection secret length"));
        }
        let outbound = FrameSealer::derive(
            secret,
            session_id,
            generation,
            role.outbound_direction(),
        )?;
        let inbound = FrameOpener::derive(
            secret,
            session_id,
            generation,
            role.inbound_direction(),
        )?;
        Ok(EndpointProtection { outbound, inbound })
    }

    /// Authenticates and encrypts a frame without consuming its send counter until committed.
    ///
    /// Dropping the returned pending frame leaves the counter unchanged, so backpressure and
    /// crash-before-commit do not create a gap in the authenticated FIFO sequence. A security
    /// error is returned after the direction exhausts its 64-bit counter.
    pub fn prepare<'protection>(&'protection mut self, plaintext: &[u8]) -> (prepared: Result<
        PendingProtectedFrame<'protection>,
        ErrorReport,
    >)
        requires
            cipher_answers(plaintext@.len()),
        ensures
            final(self).inbound == old(self).inbound,
            match prepared {
                Ok(pending) => {
                    &&& sealing_rejection(old(self).outbound@.counter, plaintext@.len()) is None
                    &&& *pending.sealer == old(self).outbound
                    &&& final(self).outbound == *final(pending.sealer)
                    &&& old(self).outbound@.counter == Some(pending.counter)
                    &&& frame_sealed(
                        old(self).outbound@.direction,
                        pending.counter,
                        plaintext@,
                        pending.bytes@,
                    )
                },
                Err(error) => {
                    &&& sealing_rejection(old(self).outbound@.counter, plaintext@.len()) == Some(
                        error,
                    )
                    &&& final(self).outbound == old(self).outbound
                },
            },
    {
        self.outbound.prepare(plaintext)
    }

    /// Authenticates, replay-checks, and decrypts the next inbound frame.
    ///
    /// Rejects truncated, tampered, replayed, reordered, or wrong-generation frames.
    pub fn open(&mut self, protected: &[u8]) -> (opened: Result<Vec<u8>, ErrorReport>)
        requires
            protected@.len() >= FRAME_OVERHEAD ==> cipher_answers(
                (protected@.len() - FRAME_OVERHEAD) as nat,
            ),
        ensures
            final(self).outbound == old(self).outbound,
            final(self).inbound@.direction == old(self).inbound@.direction,
            frame_opening(old(self).inbound@.direction, old(self).inbound@.counter, protected@)
                == (
                final(self).inbound@.counter,
                match opened {
                    Ok(plaintext) => Ok::<Seq<u8>, ErrorReport>(plaintext@),
                    Err(error) => Err(error),
                },
            ),
            opened matches Ok(plaintext) ==> {
                &&& old(self).inbound@.counter matches Some(counter) && protected@
                    == protected_frame(old(self).inbound@.direction, counter, plaintext@)
                &&& plaintext@.len() + FRAME_OVERHEAD == protected@.len()
            },
    {
        self.inbound.open(protected)
    }

    /// Renders the protection without its key material.
    pub fn to_text(&self) -> (text: String)
        ensures
            text@ == "EndpointProtection { key_material: \"<redacted>\" }"@,
    {
        String::from_str("EndpointProtection { key_material: \"<redacted>\" }")
    }
}

/// A frame that was opened once is a replay from then on.
pub proof fn law_replay_is_rejected(direction: DirectionView, expected: Option<u64>, frame: Seq<u8>)
    requires
        frame_opening(direction, expected, frame).1 is Ok,
    ensures
        ({
            let after = frame_opening(direction, expected, frame).0;
            frame_opening(direction, after, frame) == (
                after,
                Err::<Seq<u8>, ErrorReport>(
                    security_report(ErrorCode::ReplayDetected, "transport frame sequence"),
                ),
            )
        }),
{
}

/// Only the frame with the very next counter can be opened, so a deleted or reordered frame
/// stops the direction.
pub proof fn law_frames_open_in_order(
    direction: DirectionView,
    expected: Option<u64>,
    frame: Seq<u8>,
)
    ensures
        frame_opening(direction, expected, frame).1 is Ok ==> expected is Some && claimed_counter(
            frame,
        ) == expected->0,
        frame_opening(direction, expected, frame).1 is Err ==> frame_opening(
            direction,
            expected,
            frame,
        ).0 == expected,
{
}

/// What one endpoint sends is protected as the other endpoint expects, in both directions.
pub proof fn law_endpoints_agree(secret: Seq<u8>, session_id: SessionId, generation: Generation)
    ensures
        direction_for(secret, session_id, generation, EndpointRole::Renderer.sends())
            == direction_for(secret, session_id, generation, EndpointRole::Peer.receives()),
        direction_for(secret, session_id, generation, EndpointRole::Peer.sends())
            == direction_for(secret, session_id, generation, EndpointRole::Renderer.receives()),
{
}

/// A frame that was prepared, and whether it was committed or dropped.
pub struct SealStep {
    /// What was sealed.
    pub plaintext: Seq<u8>,
    /// The frame.
    pub frame: Seq<u8>,
    /// Whether the frame was committed.
    pub committed: bool,
}

/// Whether preparing a frame, and committing or dropping it, moves a sealer so.
pub open spec fn sealer_moved(before: CounterView, step: SealStep, after: CounterView) -> bool {
    &&& before.counter matches Some(counter) && frame_sealed(
        before.direction,
        counter,
        step.plaintext,
        step.frame,
    )
    &&& after.direction == before.direction
    &&& after.counter == if step.committed {
        counter_after(before.counter->0)
    } else {
        before.counter
    }
}

/// Whether a sealer went through these states by these steps, from its first counter on.
pub open spec fn sealing_run(states: Seq<CounterView>, steps: Seq<SealStep>) -> bool {
    &&& states.len() == steps.len() + 1
    &&& states[0].counter == Some(0u64)
    &&& forall|index: int|
        0 <= index < steps.len() ==> sealer_moved(
            states[index],
            #[trigger] steps[index],
            states[index + 1],
        )
}

/// The steps whose frames were committed, in order.
pub open spec fn committed_steps(steps: Seq<SealStep>) -> Seq<SealStep>
    decreases steps.len(),
{
    if steps.len() == 0 {
        Seq::empty()
    } else if steps.last().committed {
        committed_steps(steps.drop_last()).push(steps.last())
    } else {
        committed_steps(steps.drop_last())
    }
}

/// The counter behind so many frames, absent once all are used up.
pub open spec fn counter_behind(frames: nat) -> Option<u64> {
    if frames <= u64::MAX {
        Some(frames as u64)
    } else {
        None
    }
}

/// The counter that an opener expects after it was given these frames, one after the other.
pub open spec fn expected_after(
    direction: DirectionView,
    expected: Option<u64>,
    frames: Seq<SealStep>,
) -> Option<u64>
    decreases frames.len(),
{
    if frames.len() == 0 {
        expected
    } else {
        frame_opening(
            direction,
            expected_after(direction, expected, frames.drop_last()),
            frames.last().frame,
        ).0
    }
}

/// The committed frames of a run are sealed at the counters from zero on, without a gap.
proof fn lemma_committed_counters(states: Seq<CounterView>, steps: Seq<SealStep>)
    requires
        sealing_run(states, steps),
    ensures
        states.last().direction == states[0].direction,
        states.last().counter == counter_behind(committed_steps(steps).len()),
        committed_steps(steps).len() <= u64::MAX + 1,
        forall|index: int|
            0 <= index < committed_steps(steps).len() ==> frame_sealed(
                states[0].direction,
                index as u64,
                (#[trigger] committed_steps(steps)[index]).plaintext,
                committed_steps(steps)[index].frame,
            ),
    decreases steps.len(),
{
    if steps.len() > 0 {
        let earlier = states.drop_last();
        let fewer = steps.drop_last();
        assert forall|index: int| 0 <= index < fewer.len() implies sealer_moved(
            earlier[index],
            #[trigger] fewer[index],
            earlier[index + 1],
        ) by {
            assert(fewer[index] == steps[index]);
        }
        lemma_committed_counters(earlier, fewer);
        assert(sealer_moved(earlier.last(), steps[steps.len() - 1], states.last()));
    }
}

/// A frame that is prepared carries the number of the frames that were committed before it: one
/// that is dropped leaves no gap, and one that is committed uses up exactly one counter.
pub proof fn law_dropped_frames_leave_no_gap(
    states: Seq<CounterView>,
    steps: Seq<SealStep>,
    index: int,
)
    requires
        sealing_run(states, steps),
        0 <= index < steps.len(),
    ensures
        ({
            let before = committed_steps(steps.take(index)).len();
            &&& before <= u64::MAX
            &&& steps[index].frame.len() == steps[index].plaintext.len() + FRAME_OVERHEAD
            &&& steps[index].frame.subrange(0, 8) == le_bytes(before, 8)
            &&& states[index + 1].counter == counter_behind(
                before + if steps[index].committed {
                    1nat
                } else {
                    0
                },
            )
        }),
{
    let earlier = states.take(index + 1);
    let fewer = steps.take(index);
    assert forall|place: int| 0 <= place < fewer.len() implies sealer_moved(
        earlier[place],
        #[trigger] fewer[place],
        earlier[place + 1],
    ) by {
        assert(fewer[place] == steps[place]);
    }
    lemma_committed_counters(earlier, fewer);
    assert(sealer_moved(states[index], steps[index], states[index + 1]));
    let counter = states[index].counter->0;
    let frame = steps[index].frame;
    lemma_le_bytes_len(counter as nat, 8);
    assert(frame.subrange(0, 8) =~= le_bytes(counter as nat, 8));
}

/// Over any run of frames that one endpoint prepared, committed or dropped, the other endpoint,
/// once it has opened the first committed ones, opens the next to its plaintext; every other
/// committed frame is a replay, a gap or out of order, is rejected and moves nothing.
pub proof fn law_committed_frames_open_in_turn(
    secret: Seq<u8>,
    session_id: SessionId,
    generation: Generation,
    sender: EndpointRole,
    receiver: EndpointRole,
    states: Seq<CounterView>,
    steps: Seq<SealStep>,
    opened: int,
    other: int,
)
    requires
        sender != receiver,
        sealing_run(states, steps),
        states[0].direction == direction_for(secret, session_id, generation, sender.sends()),
        0 <= opened < committed_steps(steps).len(),
        0 <= other < committed_steps(steps).len(),
    ensures
        ({
            let direction = direction_for(secret, session_id, generation, receiver.receives());
            let frames = committed_steps(steps);
            let expected = expected_after(direction, Some(0), frames.take(opened));
            &&& frame_opening(direction, expected, frames[opened].frame) == (
                counter_after(opened as u64),
                Ok::<Seq<u8>, ErrorReport>(frames[opened].plaintext),
            )
            &&& other != opened ==> frame_opening(direction, expected, frames[other].frame) == (
                expected,
                Err::<Seq<u8>, ErrorReport>(
                    security_report(ErrorCode::ReplayDetected, "transport frame sequence"),
                ),
            )
        }),
{
    let direction = direction_for(secret, session_id, generation, receiver.receives());
    let frames = committed_steps(steps);
    assert(sender.sends() == receiver.receives());
    lemma_committed_counters(states, steps);
    lemma_expected_after(direction, frames, opened);
    assert(frame_sealed(direction, opened as u64, frames[opened].plaintext, frames[opened].frame));
    assert(frame_sealed(direction, other as u64, frames[other].plaintext, frames[other].frame));
    law_frames_open_in_order(direction, Some(other as u64), frames[other].frame);
}

/// An opener that was given sealed frames in turn expects the counter behind them.
proof fn lemma_expected_after(direction: DirectionView, frames: Seq<SealStep>, count: int)
    requires
        0 <= count <= frames.len(),
        frames.len() <= u64::MAX + 1,
        forall|index: int|
            0 <= index < frames.len() ==> frame_sealed(
                direction,
                index as u64,
                (#[trigger] frames[index]).plaintext,
                frames[index].frame,
            ),
    ensures
        expected_after(direction, Some(0), frames.take(count)) == counter_behind(count as nat),
    decreases count,
{
    if count > 0 {
        lemma_expected_after(direction, frames, count - 1);
        assert(frames.take(count).drop_last() =~= frames.take(count - 1));
        assert(frames.take(count).last() == frames[count - 1]);
        assert(frame_sealed(
            direction,
            (count - 1) as u64,
            frames[count - 1].plaintext,
            frames[count - 1].frame,
        ));
    }
}

/// The parts of an assembled frame are where an opener looks for them.
proof fn lemma_frame_parts(counter: u64, ciphertext: Seq<u8>, tag: Seq<u8>)
    requires
        tag.len() == TAG_LENGTH,
    ensures
        ({
            let frame = frame_bytes(counter, ciphertext, tag);
            &&& frame.len() == ciphertext.len() + FRAME_OVERHEAD
            &&& claimed_counter(frame) == counter
            &&& frame.subrange(COUNTER_LENGTH as int, frame.len() - TAG_LENGTH) == ciphertext
            &&& frame.subrange(frame.len() - TAG_LENGTH, frame.len() as int) == tag
        }),
{
    let frame = frame_bytes(counter, ciphertext, tag);
    lemma_le_limits();
    lemma_le_bytes_len(counter as nat, 8);
    lemma_le_round_trip(counter as nat, 8);
    assert(frame.subrange(0, 8) =~= le_bytes(counter as nat, 8));
    assert(frame.subrange(COUNTER_LENGTH as int, frame.len() - TAG_LENGTH) =~= ciphertext);
    assert(frame.subrange(frame.len() - TAG_LENGTH, frame.len() as int) =~= tag);
}

/// A frame is assembled from its parts.
proof fn lemma_frame_of_parts(counter: u64, frame: Seq<u8>)
    requires
        frame.len() >= FRAME_OVERHEAD,
        claimed_counter(frame) == counter,
    ensures
        frame == frame_bytes(
            counter,
            frame.subrange(COUNTER_LENGTH as int, frame.len() - TAG_LENGTH),
            frame.subrange(frame.len() - TAG_LENGTH, frame.len() as int),
        ),
{
    lemma_le_canonical(frame.subrange(0, 8));
    assert(frame =~= frame.subrange(0, 8) + frame.subrange(
        COUNTER_LENGTH as int,
        frame.len() - TAG_LENGTH,
    ) + frame.subrange(frame.len() - TAG_LENGTH, frame.len() as int));
}

/// The two endpoints send in different directions, each receives in the one that the other sends
/// in, and the keys of the two directions are derived from different info strings.
pub proof fn law_directions_are_separate(role: EndpointRole, other: EndpointRole)
    ensures
        role.sends() == other.sends() <==> role == other,
        role.receives() == other.receives() <==> role == other,
        role.sends() == other.receives() <==> role != other,
        derivation_info(role.sends()) == derivation_info(other.sends()) <==> role == other,
{
    broadcast use vstd::string::is_ascii_spec_bytes;

    reveal_strlit("renderer-to-peer");
    reveal_strlit("peer-to-renderer");
    assert(RENDERER_TO_PEER_LABEL.is_ascii());
    assert(PEER_TO_RENDERER_LABEL.is_ascii());
    assert(Direction::RendererToPeer.name()[0] == 'r' as u8);
    assert(Direction::PeerToRenderer.name()[0] == 'p' as u8);
    let head = CONTEXT_LABEL.spec_bytes().push(0);
    let place = head.len() as int;
    assert(derivation_info(Direction::RendererToPeer)[place]
        == Direction::RendererToPeer.name()[0]);
    assert(derivation_info(Direction::PeerToRenderer)[place]
        == Direction::PeerToRenderer.name()[0]);
}

/// No two generations, of one session or of two, bind their frames to the same bytes.
pub proof fn law_bindings_are_told_apart(
    session_id: SessionId,
    generation: Generation,
    other_session: SessionId,
    other_generation: Generation,
)
    requires
        binding_bytes(session_id, generation) == binding_bytes(other_session, other_generation),
    ensures
        session_id@ == other_session@,
        generation@ == other_generation@,
{
    lemma_le_limits();
    lemma_le_round_trip(session_id@ as nat, 16);
    lemma_le_round_trip(generation@ as nat, 8);
    lemma_le_round_trip(other_session@ as nat, 16);
    lemma_le_round_trip(other_generation@ as nat, 8);
    let bytes = binding_bytes(session_id, generation);
    assert(bytes.subrange(0, 16) =~= le_bytes(session_id@ as nat, 16));
    assert(bytes.subrange(0, 16) =~= le_bytes(other_session@ as nat, 16));
    assert(bytes.subrange(16, 24) =~= le_bytes(generation@ as nat, 8));
    assert(bytes.subrange(16, 24) =~= le_bytes(other_generation@ as nat, 8));
}

/// No two frames of a direction share a nonce or their associated data, and associated data never
/// crosses from one generation to another.
pub proof fn law_nonces_are_used_once(
    direction: DirectionView,
    other: DirectionView,
    counter: u64,
    other_counter: u64,
)
    ensures
        frame_nonce(direction, counter) == frame_nonce(direction, other_counter) <==> counter
            == other_counter,
        direction.binding.len() == other.binding.len() ==> (frame_associated(direction, counter)
            == frame_associated(other, other_counter) <==> direction.binding == other.binding
            && counter == other_counter),
{
    lemma_le_limits();
    lemma_le_round_trip(counter as nat, 8);
    lemma_le_round_trip(other_counter as nat, 8);
    let prefix = direction.nonce_prefix.len() as int;
    let nonce = frame_nonce(direction, counter);
    let other_nonce = frame_nonce(direction, other_counter);
    assert(nonce.subrange(prefix, prefix + 8) =~= le_bytes(counter as nat, 8));
    assert(other_nonce.subrange(prefix, prefix + 8) =~= le_bytes(other_counter as nat, 8));
    if direction.binding.len() == other.binding.len() {
        let bound = direction.binding.len() as int;
        let data = frame_associated(direction, counter);
        let other_data = frame_associated(other, other_counter);
        assert(data.subrange(bound, bound + 8) =~= le_bytes(counter as nat, 8));
        assert(other_data.subrange(bound, bound + 8) =~= le_bytes(other_counter as nat, 8));
        assert(data.subrange(0, bound) =~= direction.binding);
        assert(other_data.subrange(0, bound) =~= other.binding);
    }
}

/// A frame is opened exactly where it is long enough, claims the counter that is expected next and
/// has a right tag; each of the three failures is told apart, and none moves the counter.
pub proof fn law_openings_have_their_cause(
    direction: DirectionView,
    expected: Option<u64>,
    frame: Seq<u8>,
)
    ensures
        ({
            let (after, opened) = frame_opening(direction, expected, frame);
            let whole = frame.len() >= COUNTER_LENGTH + TAG_LENGTH;
            let next = expected matches Some(counter) && counter == claimed_counter(frame);
            &&& opened is Ok <==> whole && next && frame_plaintext(
                direction,
                expected->0,
                frame,
            ) is Some
            &&& opened matches Ok(plaintext) ==> frame_plaintext(direction, expected->0, frame)
                == Some(plaintext) && after != expected
            &&& opened matches Ok(_) ==> (after matches Some(counter) ==> counter == expected->0
                + 1) && (after is None <==> expected->0 == u64::MAX)
            &&& opened is Err ==> after == expected
            &&& opened matches Err(error) ==> (error.code is ReplayDetected <==> whole && !next)
                && (error.code is AuthenticationFailed <==> !whole || next)
        }),
{
}

/// A frame that cannot be trusted is a matter of security, whatever is wrong with it, and another
/// endpoint gets over it.
pub proof fn law_untrusted_frames_are_security_failures(code: ErrorCode, operation: &'static str)
    ensures
        security_report(code, operation).code == code,
        security_report(code, operation).context == operation,
        security_report(code, operation).category is Security,
        security_report(code, operation).recoverability is ReplaceEndpoint,
{
}

/// A frame that is too short to be authentic is refused as such, and any other one that is not the
/// next as a replay; a payload is refused by what stands in its way.
pub proof fn law_refused_frames_are_told_apart(
    expected: Option<u64>,
    frame: Seq<u8>,
    next_counter: Option<u64>,
    length: nat,
)
    ensures
        admitted_counter(expected, frame) matches Err(error) ==> {
            &&& error.code is AuthenticationFailed <==> frame.len() < FRAME_OVERHEAD
            &&& error.code is ReplayDetected <==> frame.len() >= FRAME_OVERHEAD
        },
        sealing_rejection(next_counter, length) matches Some(error) ==> {
            &&& error.code is ProtocolViolation <==> next_counter is None
            &&& error.code is InvalidRange <==> next_counter is Some && length + FRAME_OVERHEAD
                > usize::MAX
            &&& error.category is Configuration <==> error.code is InvalidRange
            &&& error.recoverability is Terminal <==> error.code is InvalidRange
        },
{
}

} // verus!
