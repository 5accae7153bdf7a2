//! Sandbox-authorized, one-shot rendezvous for a Mach capability control endpoint.
//!
//! System `WebKit` serializes injected-bundle parameters as secure-coded bytes and cannot carry a
//! Mach message attachment. This narrow bootstrap publishes a random per-generation service,
//! grants lookup through a sandbox extension, authenticates the canonical endpoint identity and a
//! 256-bit nonce, moves only the control receive right, transfers the four production rights,
//! waits for an acknowledgement, and permanently closes.
//!
//! Publication, service and consumption are walks of typed steps: a platform performs what the
//! current step asks for and reports the outcome.

use vstd::prelude::*;
use vstd::string::StringSliceAdditionalSpecFns;
use vstd::utf8::{encode_utf8, valid_utf8};

use crate::bootstrap::schema::{role_of_wire, EndpointRole};
use crate::domain::bytes::{
    bytes_equal, copy_range, le_at, le_bytes, lemma_le_at_append, lemma_le_bytes_len,
    lemma_le_canonical, lemma_le_limits, lemma_le_value_bound, push_bytes, push_u128, push_u16,
    push_u32, push_u64, read_u128, read_u16, read_u32, read_u64, starts_with,
};
use crate::domain::error::{
    report, unsupported_report, ErrorCategory, ErrorCode, ErrorReport, Recoverability,
};
use crate::domain::text::{decimal, decimal_digits, encode_hex, hex_text, utf8_text};
use crate::domain::types::{group_identities, Generation, SessionId};
use crate::macos::mach_transfer::{
    authenticated_control_channel, capabilities_of, carried_rights, carries, channel_rejection,
    identity_text, owned_rights, receive_rejection, remaining_rights,
    transfer_rejection, AuthenticatedControlEndpoint, AuthenticatedControlHost, CapabilityMessage,
    ControlPort, EndpointCapabilities, MachCapabilityBundle, PendingReceive, PendingTransfer,
    TransferIdentity, MOVE_RECEIVE, PORT_DESCRIPTOR,
};
use crate::macos::rights::{NativeFailure, NativeRight, MACH_PORT_NULL};

verus! {

broadcast use group_identities;

/// The bytes `NWIPCRV1`, least significant first.
pub const MAGIC: u64 = 0x3156_5243_5049_574e;

/// Version of a descriptor.
pub const VERSION: u16 = 1;

/// Bytes of a nonce.
pub const NONCE_LENGTH: usize = 32;

/// Bytes of a descriptor in front of its texts.
pub const HEADER_LENGTH: usize = 80;

/// Longest service name in bytes.
pub const MAXIMUM_SERVICE_LENGTH: usize = 127;

/// Longest sandbox extension in bytes.
pub const MAXIMUM_EXTENSION_LENGTH: usize = 2048;

/// Start of every service name.
pub const SERVICE_PREFIX: &'static str = "com.nwipc.rendezvous.v1.";

/// Category of a rendezvous failure.
pub open spec fn rendezvous_category(code: ErrorCode) -> ErrorCategory {
    match code {
        ErrorCode::AuthenticationFailed => ErrorCategory::Security,
        ErrorCode::ReplayDetected => ErrorCategory::Security,
        ErrorCode::StaleGeneration => ErrorCategory::Bootstrap,
        ErrorCode::ProtocolViolation => ErrorCategory::Protocol,
        ErrorCode::Truncated => ErrorCategory::Protocol,
        ErrorCode::Timeout => ErrorCategory::Timeout,
        ErrorCode::Closed => ErrorCategory::Closed,
        _ => ErrorCategory::Platform,
    }
}

/// The report of a rendezvous failure.
pub open spec fn rendezvous_report(code: ErrorCode, operation: &'static str) -> ErrorReport {
    report(
        rendezvous_category(code),
        code,
        if code is StaleGeneration || code is Timeout {
            Recoverability::ReplaceEndpoint
        } else {
            Recoverability::Terminal
        },
        operation,
    )
}

pub(crate) fn rendezvous_error(code: ErrorCode, operation: &'static str) -> (created: ErrorReport)
    ensures
        created == rendezvous_report(code, operation),
{
    let category = match code {
        ErrorCode::AuthenticationFailed => ErrorCategory::Security,
        ErrorCode::ReplayDetected => ErrorCategory::Security,
        ErrorCode::StaleGeneration => ErrorCategory::Bootstrap,
        ErrorCode::ProtocolViolation => ErrorCategory::Protocol,
        ErrorCode::Truncated => ErrorCategory::Protocol,
        ErrorCode::Timeout => ErrorCategory::Timeout,
        ErrorCode::Closed => ErrorCategory::Closed,
        _ => ErrorCategory::Platform,
    };
    let recoverability = match code {
        ErrorCode::StaleGeneration => Recoverability::ReplaceEndpoint,
        ErrorCode::Timeout => Recoverability::ReplaceEndpoint,
        _ => Recoverability::Terminal,
    };
    ErrorReport::new(category, code, recoverability, operation)
}

/// The report on malformed metadata.
pub open spec fn metadata_report() -> ErrorReport {
    rendezvous_report(ErrorCode::ProtocolViolation, "validate Mach rendezvous metadata")
}

fn protocol_error() -> (created: ErrorReport)
    ensures
        created == metadata_report(),
{
    rendezvous_error(ErrorCode::ProtocolViolation, "validate Mach rendezvous metadata")
}

/// Property-list-safe metadata needed to consume one rendezvous.
#[derive(Clone, PartialEq, Eq)]
pub struct RendezvousDescriptor {
    identity: TransferIdentity,
    nonce: [u8; 32],
    publisher_pid: u32,
    service_name: String,
    sandbox_extension: String,
}

/// What a rendezvous descriptor holds.
#[verifier::ext_equal]
pub struct RendezvousView {
    /// Identity authenticated by the rendezvous.
    pub identity: TransferIdentity,
    /// Secret of the rendezvous.
    pub nonce: Seq<u8>,
    /// Process that published the service.
    pub publisher_pid: u32,
    /// Service name in UTF-8.
    pub service: Seq<u8>,
    /// Sandbox extension in UTF-8.
    pub extension: Seq<u8>,
}

impl View for RendezvousDescriptor {
    type V = RendezvousView;

    closed spec fn view(&self) -> RendezvousView {
        RendezvousView {
            identity: self.identity,
            nonce: self.nonce@,
            publisher_pid: self.publisher_pid,
            service: encode_utf8(self.service_name@),
            extension: encode_utf8(self.sandbox_extension@),
        }
    }
}

/// The start of an encoded descriptor.
pub open spec fn header_bytes(descriptor: RendezvousView) -> Seq<u8> {
    le_bytes(MAGIC as nat, 8) + le_bytes(VERSION as nat, 2) + le_bytes(
        descriptor.identity.role.wire() as nat,
        1,
    ) + le_bytes(0, 1) + le_bytes(descriptor.identity.session_id@ as nat, 16) + le_bytes(
        descriptor.identity.generation@ as nat,
        8,
    ) + descriptor.nonce + le_bytes(descriptor.publisher_pid as nat, 4) + le_bytes(
        descriptor.service.len(),
        2,
    ) + le_bytes(descriptor.extension.len(), 2) + le_bytes(0, 4)
}

/// The encoding of a descriptor.
pub open spec fn rendezvous_bytes(descriptor: RendezvousView) -> Seq<u8> {
    header_bytes(descriptor) + descriptor.service + descriptor.extension
}

/// Why a descriptor cannot be encoded, if it cannot.
pub open spec fn encoding_rejection(descriptor: RendezvousView) -> Option<ErrorReport> {
    if descriptor.service.len() > u16::MAX {
        Some(rendezvous_report(ErrorCode::InvalidRange, "encode rendezvous service"))
    } else if descriptor.extension.len() > u16::MAX {
        Some(rendezvous_report(ErrorCode::InvalidRange, "encode rendezvous extension"))
    } else {
        None
    }
}

/// Whether the texts of a descriptor may be used.
pub open spec fn valid_texts(service: Seq<u8>, extension: Seq<u8>) -> bool {
    &&& 0 < service.len() <= MAXIMUM_SERVICE_LENGTH
    &&& 0 < extension.len() <= MAXIMUM_EXTENSION_LENGTH
    &&& valid_utf8(service)
    &&& valid_utf8(extension)
    &&& SERVICE_PREFIX.spec_bytes().is_prefix_of(service)
    &&& !service.contains(0u8)
    &&& !extension.contains(0u8)
}

/// What decoding a descriptor gives.
pub open spec fn rendezvous_decoded(input: Seq<u8>) -> Result<RendezvousView, ErrorReport> {
    let service_length = le_at(input, 72, 2);
    let extension_length = le_at(input, 74, 2);
    let service = input.subrange(80, 80 + service_length as int);
    let extension = input.subrange(80 + service_length as int, input.len() as int);
    if input.len() < HEADER_LENGTH || le_at(input, 0, 8) != MAGIC {
        Err(rendezvous_report(ErrorCode::Truncated, "decode Mach rendezvous"))
    } else if role_of_wire(le_at(input, 10, 1) as u8) is None || le_at(input, 8, 2) != VERSION
        || le_at(input, 11, 1) != 0 || le_at(input, 12, 16) == 0 {
        Err(metadata_report())
    } else if le_at(input, 28, 8) == 0 {
        Err(rendezvous_report(ErrorCode::StaleGeneration, "decode rendezvous generation"))
    } else if input.len() != HEADER_LENGTH + service_length + extension_length || le_at(
        input,
        68,
        4,
    ) == 0 || le_at(input, 76, 4) != 0 || !valid_texts(service, extension) {
        Err(metadata_report())
    } else {
        Ok(
            RendezvousView {
                identity: TransferIdentity {
                    session_id: SessionId::of(le_at(input, 12, 16) as u128),
                    generation: Generation::of(le_at(input, 28, 8) as u64),
                    role: role_of_wire(le_at(input, 10, 1) as u8)->0,
                },
                nonce: input.subrange(36, 68),
                publisher_pid: le_at(input, 68, 4) as u32,
                service,
                extension,
            },
        )
    }
}

fn contains_zero(bytes: &[u8]) -> (found: bool)
    ensures
        found == bytes@.contains(0u8),
{
    let mut index: usize = 0;
    while index < bytes.len()
        invariant
            index <= bytes@.len(),
            forall|seen: int| 0 <= seen < index ==> bytes@[seen] != 0,
        decreases bytes@.len() - index,
    {
        if bytes[index] == 0 {
            return true;
        }
        index += 1;
    }
    false
}

fn read_nonce(input: &[u8], offset: usize) -> (nonce: [u8; 32])
    requires
        offset + 32 <= input@.len(),
    ensures
        nonce@ == input@.subrange(offset as int, offset + 32),
{
    let mut nonce: [u8; 32] = [0; 32];
    let mut index: usize = 0;
    let length: usize = input.len();
    while index < 32
        invariant
            index <= 32,
            offset + 32 <= length,
            length == input@.len(),
            forall|seen: int| 0 <= seen < index ==> nonce@[seen] == input@[offset + seen],
        decreases 32 - index,
    {
        nonce[index] = input[offset + index];
        index += 1;
    }
    proof {
        assert(nonce@ =~= input@.subrange(offset as int, offset + 32));
    }
    nonce
}

proof fn lemma_byte_at(input: Seq<u8>, offset: int)
    requires
        0 <= offset < input.len(),
    ensures
        le_at(input, offset, 1) == input[offset],
{
    reveal_with_fuel(crate::domain::bytes::le_value, 2);
    assert(input.subrange(offset, offset + 1) =~= seq![input[offset]]);
    assert(seq![input[offset]].drop_first() =~= Seq::<u8>::empty());
}

proof fn lemma_single_byte(value: u8)
    ensures
        le_bytes(value as nat, 1) == seq![value],
{
    reveal_with_fuel(le_bytes, 2);
    assert(le_bytes(value as nat, 1) =~= seq![value]);
}

impl RendezvousDescriptor {
    /// Describes a published rendezvous.
    pub fn new(
        identity: TransferIdentity,
        nonce: [u8; 32],
        publisher_pid: u32,
        service_name: String,
        sandbox_extension: String,
    ) -> (created: Self)
        ensures
            created@ == (RendezvousView {
                identity,
                nonce: nonce@,
                publisher_pid,
                service: encode_utf8(service_name@),
                extension: encode_utf8(sandbox_extension@),
            }),
    {
        RendezvousDescriptor { identity, nonce, publisher_pid, service_name, sandbox_extension }
    }

    /// Encodes bounded metadata without a task-local port name.
    ///
    /// Metadata that cannot fit the fixed bootstrap limits is rejected.
    pub fn encode(&self) -> (output: Result<Vec<u8>, ErrorReport>)
        ensures
            match output {
                Ok(bytes) => encoding_rejection(self@) is None && bytes@ == rendezvous_bytes(self@),
                Err(error) => encoding_rejection(self@) == Some(error),
            },
    {
        let service = self.service_name.as_str().as_bytes();
        let extension = self.sandbox_extension.as_str().as_bytes();
        if service.len() > u16::MAX as usize {
            return Err(rendezvous_error(ErrorCode::InvalidRange, "encode rendezvous service"));
        }
        if extension.len() > u16::MAX as usize {
            return Err(rendezvous_error(ErrorCode::InvalidRange, "encode rendezvous extension"));
        }
        let mut output: Vec<u8> = Vec::new();
        push_u64(&mut output, MAGIC);
        push_u16(&mut output, VERSION);
        let role: u8 = self.identity.role.to_wire();
        output.push(role);
        output.push(0);
        proof {
            lemma_single_byte(role);
            lemma_single_byte(0);
            assert(output@ =~= le_bytes(MAGIC as nat, 8) + le_bytes(VERSION as nat, 2) + le_bytes(
                role as nat,
                1,
            ) + le_bytes(0, 1));
        }
        push_u128(&mut output, self.identity.session_id.get());
        push_u64(&mut output, self.identity.generation.get());
        push_bytes(&mut output, self.nonce.as_slice());
        push_u32(&mut output, self.publisher_pid);
        push_u16(&mut output, service.len() as u16);
        push_u16(&mut output, extension.len() as u16);
        push_u32(&mut output, 0);
        proof {
            assert(output@ == header_bytes(self@));
        }
        push_bytes(&mut output, service);
        push_bytes(&mut output, extension);
        Ok(output)
    }

    /// Decodes and validates bounded rendezvous metadata.
    ///
    /// Malformed identities, lengths, service names, extensions, and reserved fields are rejected.
    pub fn decode(input: &[u8]) -> (decoded: Result<Self, ErrorReport>)
        ensures
            match decoded {
                Ok(descriptor) => rendezvous_decoded(input@) == Ok::<RendezvousView, ErrorReport>(
                    descriptor@,
                ),
                Err(error) => rendezvous_decoded(input@) == Err::<RendezvousView, ErrorReport>(
                    error,
                ),
            },
    {
        if input.len() < HEADER_LENGTH || read_u64(input, 0) != MAGIC {
            return Err(rendezvous_error(ErrorCode::Truncated, "decode Mach rendezvous"));
        }
        proof {
            lemma_byte_at(input@, 10);
            lemma_byte_at(input@, 11);
        }
        let version: u16 = read_u16(input, 8);
        let role = match EndpointRole::from_wire(input[10]) {
            Some(role) => role,
            None => {
                return Err(protocol_error());
            },
        };
        if version != VERSION || input[11] != 0 {
            return Err(protocol_error());
        }
        let session_id = match SessionId::from_u128(read_u128(input, 12)) {
            Some(session_id) => session_id,
            None => {
                return Err(protocol_error());
            },
        };
        let generation = match Generation::new(read_u64(input, 28)) {
            Some(generation) => generation,
            None => {
                return Err(
                    rendezvous_error(ErrorCode::StaleGeneration, "decode rendezvous generation"),
                );
            },
        };
        let nonce = read_nonce(input, 36);
        let publisher_pid: u32 = read_u32(input, 68);
        let service_length: usize = read_u16(input, 72) as usize;
        let extension_length: usize = read_u16(input, 74) as usize;
        if HEADER_LENGTH + service_length + extension_length != input.len() || service_length == 0
            || service_length > MAXIMUM_SERVICE_LENGTH || extension_length == 0 || extension_length
            > MAXIMUM_EXTENSION_LENGTH || publisher_pid == 0 || read_u32(input, 76) != 0 {
            return Err(protocol_error());
        }
        let service_end: usize = HEADER_LENGTH + service_length;
        let service: Vec<u8> = copy_range(input, HEADER_LENGTH, service_end);
        let extension: Vec<u8> = copy_range(input, service_end, input.len());
        let service_name = match utf8_text(service.as_slice()) {
            Some(service_name) => service_name,
            None => {
                return Err(protocol_error());
            },
        };
        let sandbox_extension = match utf8_text(extension.as_slice()) {
            Some(sandbox_extension) => sandbox_extension,
            None => {
                return Err(protocol_error());
            },
        };
        if !starts_with(service.as_slice(), SERVICE_PREFIX.as_bytes()) || contains_zero(
            service.as_slice(),
        ) || contains_zero(extension.as_slice()) {
            return Err(protocol_error());
        }
        Ok(
            RendezvousDescriptor {
                identity: TransferIdentity::new(session_id, generation, role),
                nonce,
                publisher_pid,
                service_name,
                sandbox_extension,
            },
        )
    }

    /// Identity authenticated by this rendezvous.
    pub fn identity(&self) -> (identity: TransferIdentity)
        ensures
            identity == self@.identity,
    {
        self.identity
    }

    /// Name of the service to look up.
    pub fn service_name(&self) -> (name: &str)
        ensures
            name.spec_bytes() == self@.service,
    {
        self.service_name.as_str()
    }

    /// Sandbox extension to consume.
    pub fn sandbox_extension(&self) -> (extension: &str)
        ensures
            extension.spec_bytes() == self@.extension,
    {
        self.sandbox_extension.as_str()
    }

    /// Renders the descriptor without its secrets.
    pub fn to_text(&self) -> (text: String)
        ensures
            text@ == "RendezvousDescriptor { identity: "@ + identity_text(self@.identity)
                + ", service_name: \"<redacted>\", sandbox_extension: \"<redacted>\", nonce: \"<redacted>\", publisher_pid: \"<redacted>\" }"@,
    {
        let mut text = String::from_str("RendezvousDescriptor { identity: ");
        text.append(self.identity.to_text().as_str());
        text.append(
            ", service_name: \"<redacted>\", sandbox_extension: \"<redacted>\", nonce: \"<redacted>\", publisher_pid: \"<redacted>\" }",
        );
        text
    }
}

/// The bytes of an input up to an offset, when the number behind them is added.
proof fn lemma_number_behind(input: Seq<u8>, prefix: Seq<u8>, count: int)
    requires
        0 <= count,
        prefix.len() + count <= input.len(),
        prefix == input.subrange(0, prefix.len() as int),
    ensures
        prefix + le_bytes(le_at(input, prefix.len() as int, count), count as nat)
            == input.subrange(0, prefix.len() + count),
{
    let start = prefix.len() as int;
    lemma_le_canonical(input.subrange(start, start + count));
    assert(prefix + input.subrange(start, start + count) =~= input.subrange(0, start + count));
}

/// Only canonical bytes are decoded: what is decoded encodes to the very bytes that it came from.
pub proof fn law_rendezvous_bytes_are_canonical(input: Seq<u8>)
    ensures
        rendezvous_decoded(input) matches Ok(descriptor) ==> {
            &&& input == rendezvous_bytes(descriptor)
            &&& descriptor.nonce.len() == NONCE_LENGTH
            &&& encoding_rejection(descriptor) is None
        },
{
    if let Ok(descriptor) = rendezvous_decoded(input) {
        lemma_le_limits();
        lemma_le_value_bound(input.subrange(10, 11));
        lemma_le_value_bound(input.subrange(12, 28));
        lemma_le_value_bound(input.subrange(28, 36));
        lemma_le_value_bound(input.subrange(68, 72));
        let l0 = Seq::<u8>::empty();
        assert(l0 =~= input.subrange(0, 0));
        lemma_number_behind(input, l0, 8);
        let l1 = le_bytes(MAGIC as nat, 8);
        assert(l0 + l1 =~= l1);
        lemma_number_behind(input, l1, 2);
        let l2 = l1 + le_bytes(VERSION as nat, 2);
        lemma_number_behind(input, l2, 1);
        let l3 = l2 + le_bytes(descriptor.identity.role.wire() as nat, 1);
        lemma_number_behind(input, l3, 1);
        let l4 = l3 + le_bytes(0, 1);
        lemma_number_behind(input, l4, 16);
        let l5 = l4 + le_bytes(descriptor.identity.session_id@ as nat, 16);
        lemma_number_behind(input, l5, 8);
        let l6 = l5 + le_bytes(descriptor.identity.generation@ as nat, 8);
        let l7 = l6 + descriptor.nonce;
        assert(l7 =~= input.subrange(0, 68));
        lemma_number_behind(input, l7, 4);
        let l8 = l7 + le_bytes(descriptor.publisher_pid as nat, 4);
        lemma_number_behind(input, l8, 2);
        let l9 = l8 + le_bytes(descriptor.service.len(), 2);
        lemma_number_behind(input, l9, 2);
        let l10 = l9 + le_bytes(descriptor.extension.len(), 2);
        lemma_number_behind(input, l10, 4);
        assert(header_bytes(descriptor) == input.subrange(0, 80));
        assert(input =~= rendezvous_bytes(descriptor));
    }
}

/// Decoding what was encoded gives the descriptor back.
#[verifier::rlimit(50)]
pub proof fn law_rendezvous_round_trip(descriptor: RendezvousView)
    requires
        descriptor.identity.session_id@ != 0,
        descriptor.identity.generation@ != 0,
        descriptor.nonce.len() == NONCE_LENGTH,
        descriptor.publisher_pid != 0,
        valid_texts(descriptor.service, descriptor.extension),
    ensures
        rendezvous_decoded(rendezvous_bytes(descriptor)) == Ok::<RendezvousView, ErrorReport>(
            descriptor,
        ),
{
    let role = descriptor.identity.role.wire() as nat;
    let session = descriptor.identity.session_id@ as nat;
    let generation = descriptor.identity.generation@ as nat;
    let pid = descriptor.publisher_pid as nat;
    let service_length = descriptor.service.len();
    let extension_length = descriptor.extension.len();
    lemma_le_limits();
    lemma_le_bytes_len(MAGIC as nat, 8);
    lemma_le_bytes_len(VERSION as nat, 2);
    lemma_le_bytes_len(role, 1);
    lemma_le_bytes_len(0, 1);
    lemma_le_bytes_len(session, 16);
    lemma_le_bytes_len(generation, 8);
    lemma_le_bytes_len(pid, 4);
    lemma_le_bytes_len(service_length, 2);
    lemma_le_bytes_len(extension_length, 2);
    lemma_le_bytes_len(0, 4);
    let empty = Seq::<u8>::empty();
    let tail = descriptor.service + descriptor.extension;
    let r10 = le_bytes(0, 4) + tail;
    let r9 = le_bytes(extension_length, 2) + r10;
    let r8 = le_bytes(service_length, 2) + r9;
    let r7 = le_bytes(pid, 4) + r8;
    let r6 = descriptor.nonce + r7;
    let r5 = le_bytes(generation, 8) + r6;
    let r4 = le_bytes(session, 16) + r5;
    let r3 = le_bytes(0, 1) + r4;
    let r2 = le_bytes(role, 1) + r3;
    let r1 = le_bytes(VERSION as nat, 2) + r2;
    let l1 = le_bytes(MAGIC as nat, 8);
    let l2 = l1 + le_bytes(VERSION as nat, 2);
    let l3 = l2 + le_bytes(role, 1);
    let l4 = l3 + le_bytes(0, 1);
    let l5 = l4 + le_bytes(session, 16);
    let l6 = l5 + le_bytes(generation, 8);
    let l7 = l6 + descriptor.nonce;
    let l8 = l7 + le_bytes(pid, 4);
    let l9 = l8 + le_bytes(service_length, 2);
    let l10 = l9 + le_bytes(extension_length, 2);
    let input = rendezvous_bytes(descriptor);
    assert(header_bytes(descriptor) == l10 + le_bytes(0, 4));
    assert(input =~= l10 + le_bytes(0, 4) + tail);
    lemma_le_at_append(l10, 0, 4, tail);
    assert(input =~= l9 + le_bytes(extension_length, 2) + r10);
    lemma_le_at_append(l9, extension_length, 2, r10);
    assert(input =~= l8 + le_bytes(service_length, 2) + r9);
    lemma_le_at_append(l8, service_length, 2, r9);
    assert(input =~= l7 + le_bytes(pid, 4) + r8);
    lemma_le_at_append(l7, pid, 4, r8);
    assert(input =~= l6 + r6);
    assert(input.subrange(36, 68) =~= descriptor.nonce);
    assert(input =~= l5 + le_bytes(generation, 8) + r6);
    lemma_le_at_append(l5, generation, 8, r6);
    assert(input =~= l4 + le_bytes(session, 16) + r5);
    lemma_le_at_append(l4, session, 16, r5);
    assert(input =~= l3 + le_bytes(0, 1) + r4);
    lemma_le_at_append(l3, 0, 1, r4);
    assert(input =~= l2 + le_bytes(role, 1) + r3);
    lemma_le_at_append(l2, role, 1, r3);
    assert(input =~= l1 + le_bytes(VERSION as nat, 2) + r2);
    lemma_le_at_append(l1, VERSION as nat, 2, r2);
    assert(input =~= empty + le_bytes(MAGIC as nat, 8) + r1);
    lemma_le_at_append(empty, MAGIC as nat, 8, r1);
    assert(input.subrange(80, 80 + service_length as int) =~= descriptor.service);
    assert(input.subrange(80 + service_length as int, input.len() as int)
        =~= descriptor.extension);
}

/// Identifier of a request to connect.
pub const CONNECT_MESSAGE: i32 = 0x4e57_5201;

/// Identifier of a message that hands the control right over.
pub const CONTROL_MESSAGE: i32 = 0x4e57_5202;

/// Identifier of an acknowledgement.
pub const ACK_MESSAGE: i32 = 0x4e57_5203;

/// Longest wait for a message in milliseconds.
pub const RECEIVE_TIMEOUT_MS: u32 = 30_000;

/// Status of a native call that succeeded.
pub const KERN_SUCCESS: i32 = 0;

/// Status of a receive that timed out.
pub const RECEIVE_TIMED_OUT: i32 = 0x1000_4003;

/// Why a native call failed, if it did.
pub open spec fn status_rejection(status: i32, operation: &'static str) -> Option<ErrorReport> {
    if status == KERN_SUCCESS {
        None
    } else if status == RECEIVE_TIMED_OUT {
        Some(rendezvous_report(ErrorCode::Timeout, operation))
    } else {
        Some(rendezvous_report(ErrorCode::RequiredCapabilityMissing, operation))
    }
}

fn check(status: i32, operation: &'static str) -> (checked: Result<(), ErrorReport>)
    ensures
        match checked {
            Ok(_) => status_rejection(status, operation) is None,
            Err(error) => status_rejection(status, operation) == Some(error),
        },
{
    if status == KERN_SUCCESS {
        Ok(())
    } else if status == RECEIVE_TIMED_OUT {
        Err(rendezvous_error(ErrorCode::Timeout, operation))
    } else {
        Err(rendezvous_error(ErrorCode::RequiredCapabilityMissing, operation))
    }
}

/// What a message proves of its sender.
#[derive(Clone, Copy)]
pub struct Authentication {
    /// Value of the session identity.
    pub session_id: u128,
    /// Value of the generation.
    pub generation: u64,
    /// Role of the endpoint.
    pub role: u8,
    /// Zero.
    pub reserved: u64,
    /// Secret of the rendezvous.
    pub nonce: [u8; 32],
}

/// Whether a message comes from the endpoint that a rendezvous is for.
pub open spec fn authentic(
    authentication: Authentication,
    identity: TransferIdentity,
    nonce: Seq<u8>,
) -> bool {
    &&& authentication.session_id == identity.session_id@
    &&& authentication.generation == identity.generation@
    &&& authentication.role == identity.role.wire()
    &&& authentication.reserved == 0
    &&& authentication.nonce@ == nonce
}

/// Makes the proof of an endpoint.
pub fn authentication(identity: TransferIdentity, nonce: [u8; 32]) -> (made: Authentication)
    ensures
        authentic(made, identity, nonce@),
{
    Authentication {
        session_id: identity.session_id.get(),
        generation: identity.generation.get(),
        role: identity.role.to_wire(),
        reserved: 0,
        nonce,
    }
}

fn is_authentic(
    authentication: &Authentication,
    identity: TransferIdentity,
    nonce: &[u8; 32],
) -> (answer: bool)
    ensures
        answer == authentic(*authentication, identity, nonce@),
{
    authentication.session_id == identity.session_id.get() && authentication.generation
        == identity.generation.get() && authentication.role == identity.role.to_wire()
        && authentication.reserved == 0 && bytes_equal(
        authentication.nonce.as_slice(),
        nonce.as_slice(),
    )
}

/// A message that a service receives.
#[derive(Clone, Copy)]
pub struct Request {
    /// Identifier of the message.
    pub id: i32,
    /// Right to reply with, or the null port.
    pub remote_port: u32,
    /// What the message proves of its sender.
    pub authentication: Authentication,
}

/// Whether a request connects the endpoint that a rendezvous is for.
pub open spec fn connects(request: Request, identity: TransferIdentity, nonce: Seq<u8>) -> bool {
    &&& request.id == CONNECT_MESSAGE
    &&& authentic(request.authentication, identity, nonce)
    &&& request.remote_port != MACH_PORT_NULL
}

/// Whether a message acknowledges the transfer of a rendezvous.
pub open spec fn acknowledges(
    request: Request,
    identity: TransferIdentity,
    nonce: Seq<u8>,
) -> bool {
    &&& request.id == ACK_MESSAGE
    &&& authentic(request.authentication, identity, nonce)
}

/// A published service that awaits its endpoint.
pub struct RendezvousServer {
    /// Endpoint that the rendezvous is for.
    pub identity: TransferIdentity,
    /// Secret of the rendezvous.
    pub nonce: [u8; 32],
    /// Control receive right to hand over.
    pub endpoint: u32,
    /// Control host.
    pub transfer: AuthenticatedControlHost,
    /// Rights to transfer.
    pub capabilities: MachCapabilityBundle,
}

/// What a control host owns.
pub open spec fn host_rights(host: AuthenticatedControlHost) -> Seq<NativeRight> {
    match host.control() {
        Some(name) => seq![NativeRight::Send(name)],
        None => Seq::empty(),
    }
}

/// What a rendezvous that ends before the handover releases.
pub open spec fn abandoned(
    endpoint: u32,
    capabilities: MachCapabilityBundle,
    transfer: AuthenticatedControlHost,
) -> Seq<NativeRight> {
    (if endpoint != MACH_PORT_NULL {
        seq![NativeRight::Receive(endpoint)]
    } else {
        Seq::empty()
    }) + owned_rights(capabilities.names()).reverse() + host_rights(transfer)
}

fn abandon(
    endpoint: u32,
    capabilities: MachCapabilityBundle,
    transfer: AuthenticatedControlHost,
) -> (release: Vec<NativeRight>)
    ensures
        release@ == abandoned(endpoint, capabilities, transfer),
{
    let mut release: Vec<NativeRight> = Vec::new();
    if endpoint != MACH_PORT_NULL {
        release.push(NativeRight::Receive(endpoint));
    }
    let mut bundled = capabilities.release();
    release.append(&mut bundled);
    let mut hosted = transfer.release();
    release.append(&mut hosted);
    proof {
        assert(release@ =~= abandoned(endpoint, capabilities, transfer));
    }
    release
}

/// What becomes of a service after a message.
pub enum ServeStep {
    /// The service ends and releases its rights.
    Finished(Vec<NativeRight>),
    /// The message was not authentic: its reply right is released, and the service waits on.
    Await(RendezvousServer, Option<NativeRight>),
    /// The endpoint connected: the control right is handed over.
    Respond(ControlHandoff),
}

impl RendezvousServer {
    /// Decides on a message, or on the end of the wait for one.
    pub fn received(self, request: Option<Request>) -> (step: ServeStep)
        ensures
            match step {
                ServeStep::Finished(release) => request is None && release@ == abandoned(
                    self.endpoint,
                    self.capabilities,
                    self.transfer,
                ),
                ServeStep::Await(server, release) => {
                    &&& request is Some
                    &&& !connects(request->0, self.identity, self.nonce@)
                    &&& server == self
                    &&& release == if request->0.remote_port != MACH_PORT_NULL {
                        Some(NativeRight::Send(request->0.remote_port))
                    } else {
                        None
                    }
                },
                ServeStep::Respond(handoff) => {
                    &&& request is Some
                    &&& connects(request->0, self.identity, self.nonce@)
                    &&& handoff == (ControlHandoff {
                        server: self,
                        reply: request->0.remote_port,
                    })
                },
            },
    {
        match request {
            None => ServeStep::Finished(abandon(self.endpoint, self.capabilities, self.transfer)),
            Some(request) => {
                if request.id != CONNECT_MESSAGE || !is_authentic(
                    &request.authentication,
                    self.identity,
                    &self.nonce,
                ) || request.remote_port == MACH_PORT_NULL {
                    let release = if request.remote_port != MACH_PORT_NULL {
                        Some(NativeRight::Send(request.remote_port))
                    } else {
                        None
                    };
                    return ServeStep::Await(self, release);
                }
                ServeStep::Respond(ControlHandoff { server: self, reply: request.remote_port })
            },
        }
    }
}

/// A message that hands the control right over.
#[derive(Clone, Copy)]
pub struct ControlResponse {
    /// Identifier of the message.
    pub id: i32,
    /// Count of descriptors that the message declares.
    pub descriptor_count: u32,
    /// Type of the descriptor.
    pub descriptor_type: u8,
    /// How the control right is moved.
    pub disposition: u8,
    /// The control right.
    pub control: u32,
    /// What the message proves of its sender.
    pub authentication: Authentication,
}

/// A control right that is to be handed over.
pub struct ControlHandoff {
    /// The service.
    pub server: RendezvousServer,
    /// Right to reply with.
    pub reply: u32,
}

impl ControlHandoff {
    /// The message to reply with.
    pub fn response(&self) -> (response: ControlResponse)
        ensures
            response.id == CONTROL_MESSAGE,
            response.descriptor_count == 1,
            response.descriptor_type == PORT_DESCRIPTOR,
            response.disposition == MOVE_RECEIVE,
            response.control == self.server.endpoint,
            authentic(response.authentication, self.server.identity, self.server.nonce@),
    {
        ControlResponse {
            id: CONTROL_MESSAGE,
            descriptor_count: 1,
            descriptor_type: PORT_DESCRIPTOR,
            disposition: MOVE_RECEIVE,
            control: self.server.endpoint,
            authentication: authentication(self.server.identity, self.server.nonce),
        }
    }

    /// Goes on to transfer the capabilities, if the reply was sent.
    ///
    /// A service that ends here gives the rights that it still owns to be released.
    pub fn sent(self, sent: bool) -> (next: Result<CapabilityHandoff, Vec<NativeRight>>)
        ensures
            match next {
                Ok(handoff) => {
                    &&& sent
                    &&& transfer_rejection(
                        self.server.transfer.attempted(),
                        self.server.transfer.identity(),
                        self.server.transfer.control(),
                        self.server.capabilities.spec_manifest(),
                    ) is None
                    &&& handoff.identity == self.server.identity
                    &&& handoff.nonce@ == self.server.nonce@
                    &&& Some(handoff.pending.spec_control()) == self.server.transfer.control()
                    &&& carries(
                        handoff.pending.spec_message(),
                        self.server.capabilities.spec_manifest(),
                        self.server.capabilities.names(),
                    )
                },
                Err(release) => if sent {
                    &&& transfer_rejection(
                        self.server.transfer.attempted(),
                        self.server.transfer.identity(),
                        self.server.transfer.control(),
                        self.server.capabilities.spec_manifest(),
                    ) is Some
                    &&& release@ == abandoned(
                        MACH_PORT_NULL,
                        self.server.capabilities,
                        self.server.transfer,
                    )
                } else {
                    release@ == abandoned(
                        self.server.endpoint,
                        self.server.capabilities,
                        self.server.transfer,
                    )
                },
            },
    {
        let server = self.server;
        if !sent {
            return Err(abandon(server.endpoint, server.capabilities, server.transfer));
        }
        let mut host = server.transfer;
        let ghost before = host;
        let ghost bundle = server.capabilities;
        match host.transfer(server.capabilities) {
            Ok(pending) => Ok(
                CapabilityHandoff { identity: server.identity, nonce: server.nonce, pending },
            ),
            Err(refused) => {
                let mut release = refused.release;
                let mut hosted = host.release();
                release.append(&mut hosted);
                proof {
                    assert(release@ =~= abandoned(MACH_PORT_NULL, bundle, before));
                }
                Err(release)
            },
        }
    }
}

/// Capabilities that are to be transferred.
pub struct CapabilityHandoff {
    /// Endpoint that the rendezvous is for.
    pub identity: TransferIdentity,
    /// Secret of the rendezvous.
    pub nonce: [u8; 32],
    /// The transfer.
    pub pending: PendingTransfer,
}

impl CapabilityHandoff {
    /// Goes on to await the acknowledgement, if the transfer was delivered. The second value is
    /// what is to be released.
    pub fn delivered(self, delivered: bool) -> (next: (
        Option<AcknowledgementAwait>,
        Vec<NativeRight>,
    ))
        ensures
            match next.0 {
                Some(awaited) => delivered && awaited.identity == self.identity && awaited.nonce@
                    == self.nonce@ && next.1@ == seq![
                    NativeRight::Send(self.pending.spec_control()),
                ],
                None => !delivered && next.1@ == seq![
                    NativeRight::Send(self.pending.spec_control()),
                ] + carried_rights(self.pending.spec_message().descriptors@),
            },
    {
        let settled = self.pending.finish(delivered);
        match settled.outcome {
            Ok(()) => (
                Some(AcknowledgementAwait { identity: self.identity, nonce: self.nonce }),
                settled.release,
            ),
            Err(_) => (None, settled.release),
        }
    }
}

/// A service that awaits the acknowledgement of its endpoint.
pub struct AcknowledgementAwait {
    /// Endpoint that the rendezvous is for.
    pub identity: TransferIdentity,
    /// Secret of the rendezvous.
    pub nonce: [u8; 32],
}

impl AcknowledgementAwait {
    /// Whether the endpoint acknowledged the complete capability set.
    pub fn completed(self, request: Option<Request>) -> (completed: bool)
        ensures
            completed == match request {
                Some(request) => acknowledges(request, self.identity, self.nonce@),
                None => false,
            },
    {
        match request {
            Some(request) => request.id == ACK_MESSAGE && is_authentic(
                &request.authentication,
                self.identity,
                &self.nonce,
            ),
            None => false,
        }
    }
}

/// Messages that do not know the secret of a rendezvous neither connect nor acknowledge.
pub proof fn law_strangers_are_ignored(request: Request, identity: TransferIdentity, nonce: Seq<u8>)
    requires
        request.authentication.nonce@ != nonce || request.authentication.session_id
            != identity.session_id@ || request.authentication.generation != identity.generation@
            || request.authentication.role != identity.role.wire(),
    ensures
        !connects(request, identity, nonce),
        !acknowledges(request, identity, nonce),
{
}

/// A rendezvous that is to be published.
pub struct Publication {
    /// Endpoint that the rendezvous is for.
    pub identity: TransferIdentity,
    /// Control receive right to hand over.
    pub endpoint: u32,
    /// Control host.
    pub transfer: AuthenticatedControlHost,
    /// Rights to transfer.
    pub capabilities: MachCapabilityBundle,
}

/// Begins to publish one authenticated endpoint over a fresh control port.
///
/// Publication finishes before a descriptor is returned, preventing launch-before-publish races.
pub fn publish(
    identity: TransferIdentity,
    capabilities: MachCapabilityBundle,
    port: ControlPort,
) -> (begun: Result<Publication, NativeFailure>)
    ensures
        match begun {
            Ok(publication) => {
                &&& channel_rejection(port) is None
                &&& publication.identity == identity
                &&& publication.endpoint == port->Complete_0
                &&& publication.capabilities == capabilities
                &&& publication.transfer.identity() == identity
                &&& publication.transfer.control() == Some(port->Complete_0)
                &&& !publication.transfer.attempted()
            },
            Err(failure) => {
                &&& channel_rejection(port) == Some(failure.error)
                &&& failure.release@ == (match port {
                    ControlPort::WithoutSend(name) => seq![NativeRight::Receive(name)],
                    _ => Seq::empty(),
                }) + owned_rights(capabilities.names()).reverse()
            },
        },
{
    let (created, mut release) = authenticated_control_channel(identity, port);
    match created {
        Err(error) => {
            let mut bundled = capabilities.release();
            release.append(&mut bundled);
            Err(NativeFailure { error, release })
        },
        Ok((transfer, control)) => match control.into_raw_receive_right() {
            Ok(endpoint) => Ok(Publication { identity, endpoint, transfer, capabilities }),
            Err(error) => Err(NativeFailure { error, release }),
        },
    }
}

/// The name of a published service.
pub open spec fn published_name(identity: TransferIdentity, random: Seq<u8>) -> Seq<char> {
    SERVICE_PREFIX@ + decimal_digits(identity.generation@ as nat) + "."@ + decimal_digits(
        identity.role.wire() as nat,
    ) + "."@ + hex_text(random)
}

fn service_name(identity: TransferIdentity, random: &[u8]) -> (name: String)
    ensures
        name@ == published_name(identity, random@),
{
    let mut name = String::from_str(SERVICE_PREFIX);
    name.append(decimal(identity.generation.get()).as_str());
    name.append(".");
    name.append(decimal(identity.role.to_wire() as u64).as_str());
    name.append(".");
    name.append(encode_hex(random).as_str());
    name
}

/// A failed publication, which releases its rights behind what its current step acquired.
pub open spec fn publication_failed(
    failure: NativeFailure,
    error: ErrorReport,
    acquired: Seq<NativeRight>,
    publication: Publication,
) -> bool {
    &&& failure.error == error
    &&& failure.release@ == acquired + abandoned(
        publication.endpoint,
        publication.capabilities,
        publication.transfer,
    )
}

fn fail_publication(
    error: ErrorReport,
    acquired: Option<NativeRight>,
    publication: Publication,
) -> (failure: NativeFailure)
    ensures
        publication_failed(
            failure,
            error,
            match acquired {
                Some(right) => seq![right],
                None => Seq::empty(),
            },
            publication,
        ),
{
    let mut release: Vec<NativeRight> = Vec::new();
    match acquired {
        Some(right) => release.push(right),
        None => {},
    }
    let ghost first = release@;
    let mut rest = abandon(publication.endpoint, publication.capabilities, publication.transfer);
    release.append(&mut rest);
    proof {
        assert(first =~= match acquired {
            Some(right) => seq![right],
            None => Seq::empty(),
        });
    }
    NativeFailure { error, release }
}

impl Publication {
    /// Names the service, if randomness was drawn for its secret and for its name.
    pub fn named(self, nonce: Option<[u8; 32]>, random: Option<Vec<u8>>) -> (next: Result<
        NamedPublication,
        NativeFailure,
    >)
        ensures
            match (nonce, random) {
                (None, _) => next is Err && publication_failed(
                    next->Err_0,
                    rendezvous_report(ErrorCode::Internal, "randomize Mach rendezvous"),
                    Seq::empty(),
                    self,
                ),
                (Some(_), None) => next is Err && publication_failed(
                    next->Err_0,
                    rendezvous_report(ErrorCode::Internal, "name Mach rendezvous"),
                    Seq::empty(),
                    self,
                ),
                (Some(nonce), Some(random)) => {
                    &&& next is Ok
                    &&& next->Ok_0.publication == self
                    &&& next->Ok_0.nonce@ == nonce@
                    &&& next->Ok_0.name@ == published_name(self.identity, random@)
                },
            },
    {
        match (nonce, random) {
            (None, _) => Err(
                fail_publication(
                    rendezvous_error(ErrorCode::Internal, "randomize Mach rendezvous"),
                    None,
                    self,
                ),
            ),
            (Some(_), None) => Err(
                fail_publication(
                    rendezvous_error(ErrorCode::Internal, "name Mach rendezvous"),
                    None,
                    self,
                ),
            ),
            (Some(nonce), Some(random)) => {
                let name = service_name(self.identity, random.as_slice());
                Ok(NamedPublication { publication: self, nonce, name })
            },
        }
    }
}

/// A publication with a name.
pub struct NamedPublication {
    /// The rendezvous.
    pub publication: Publication,
    /// Secret of the rendezvous.
    pub nonce: [u8; 32],
    /// Name of the service.
    pub name: String,
}

impl NamedPublication {
    /// Goes on with the port of the service, as far as it was allocated.
    pub fn allocated(self, port: ControlPort) -> (next: Result<ServicePublication, NativeFailure>)
        ensures
            match port {
                ControlPort::Complete(service) => next is Ok && next->Ok_0
                    == (ServicePublication { named: self, service }),
                ControlPort::WithoutSend(service) => next is Err && publication_failed(
                    next->Err_0,
                    rendezvous_report(
                        ErrorCode::RequiredCapabilityMissing,
                        "allocate Mach rendezvous",
                    ),
                    seq![NativeRight::Receive(service)],
                    self.publication,
                ),
                ControlPort::Unallocated => next is Err && publication_failed(
                    next->Err_0,
                    rendezvous_report(
                        ErrorCode::RequiredCapabilityMissing,
                        "allocate Mach rendezvous",
                    ),
                    Seq::empty(),
                    self.publication,
                ),
                ControlPort::Unsupported => next is Err && publication_failed(
                    next->Err_0,
                    unsupported_report("publish Mach rendezvous"),
                    Seq::empty(),
                    self.publication,
                ),
            },
    {
        match port {
            ControlPort::Complete(service) => Ok(ServicePublication { named: self, service }),
            ControlPort::WithoutSend(service) => Err(
                fail_publication(
                    rendezvous_error(
                        ErrorCode::RequiredCapabilityMissing,
                        "allocate Mach rendezvous",
                    ),
                    Some(NativeRight::Receive(service)),
                    self.publication,
                ),
            ),
            ControlPort::Unallocated => Err(
                fail_publication(
                    rendezvous_error(
                        ErrorCode::RequiredCapabilityMissing,
                        "allocate Mach rendezvous",
                    ),
                    None,
                    self.publication,
                ),
            ),
            ControlPort::Unsupported => Err(
                fail_publication(
                    ErrorReport::unsupported("publish Mach rendezvous"),
                    None,
                    self.publication,
                ),
            ),
        }
    }
}

/// A publication with a port for its service.
pub struct ServicePublication {
    /// The named rendezvous.
    pub named: NamedPublication,
    /// Port of the service.
    pub service: u32,
}

impl ServicePublication {
    /// Goes on if the service was registered under its name.
    pub fn registered(self, registered: bool) -> (next: Result<Self, NativeFailure>)
        ensures
            if registered {
                next is Ok && next->Ok_0 == self
            } else {
                next is Err && publication_failed(
                    next->Err_0,
                    rendezvous_report(
                        ErrorCode::RequiredCapabilityMissing,
                        "publish Mach rendezvous",
                    ),
                    seq![NativeRight::Receive(self.service)],
                    self.named.publication,
                )
            },
    {
        if registered {
            return Ok(self);
        }
        Err(
            fail_publication(
                rendezvous_error(ErrorCode::RequiredCapabilityMissing, "publish Mach rendezvous"),
                Some(NativeRight::Receive(self.service)),
                self.named.publication,
            ),
        )
    }

    /// Completes the publication with the sandbox extension, if one was issued: gives the service
    /// to run on its port, and its descriptor.
    pub fn extended(self, token: Option<Vec<u8>>, publisher_pid: u32) -> (done: Result<
        (RendezvousServer, u32, RendezvousDescriptor),
        NativeFailure,
    >)
        ensures
            match token {
                None => done is Err && publication_failed(
                    done->Err_0,
                    rendezvous_report(
                        ErrorCode::RequiredCapabilityMissing,
                        "issue Mach lookup sandbox extension",
                    ),
                    seq![NativeRight::Receive(self.service)],
                    self.named.publication,
                ),
                Some(token) => if valid_utf8(token@) {
                    &&& done is Ok
                    &&& done->Ok_0.0 == (RendezvousServer {
                        identity: self.named.publication.identity,
                        nonce: self.named.nonce,
                        endpoint: self.named.publication.endpoint,
                        transfer: self.named.publication.transfer,
                        capabilities: self.named.publication.capabilities,
                    })
                    &&& done->Ok_0.1 == self.service
                    &&& done->Ok_0.2@ == (RendezvousView {
                        identity: self.named.publication.identity,
                        nonce: self.named.nonce@,
                        publisher_pid,
                        service: encode_utf8(self.named.name@),
                        extension: token@,
                    })
                } else {
                    done is Err && publication_failed(
                        done->Err_0,
                        rendezvous_report(
                            ErrorCode::ProtocolViolation,
                            "encode Mach lookup sandbox extension",
                        ),
                        seq![NativeRight::Receive(self.service)],
                        self.named.publication,
                    )
                },
            },
    {
        let service: u32 = self.service;
        let token = match token {
            Some(token) => token,
            None => {
                return Err(
                    fail_publication(
                        rendezvous_error(
                            ErrorCode::RequiredCapabilityMissing,
                            "issue Mach lookup sandbox extension",
                        ),
                        Some(NativeRight::Receive(service)),
                        self.named.publication,
                    ),
                );
            },
        };
        let sandbox_extension = match utf8_text(token.as_slice()) {
            Some(sandbox_extension) => sandbox_extension,
            None => {
                return Err(
                    fail_publication(
                        rendezvous_error(
                            ErrorCode::ProtocolViolation,
                            "encode Mach lookup sandbox extension",
                        ),
                        Some(NativeRight::Receive(service)),
                        self.named.publication,
                    ),
                );
            },
        };
        let named = self.named;
        let publication = named.publication;
        let descriptor = RendezvousDescriptor::new(
            publication.identity,
            named.nonce,
            publisher_pid,
            named.name,
            sandbox_extension,
        );
        Ok(
            (
                RendezvousServer {
                    identity: publication.identity,
                    nonce: named.nonce,
                    endpoint: publication.endpoint,
                    transfer: publication.transfer,
                    capabilities: publication.capabilities,
                },
                service,
                descriptor,
            ),
        )
    }
}

/// Why a descriptor is not for the expected endpoint, if it is not.
pub open spec fn consumption_rejection(
    identity: TransferIdentity,
    expected: TransferIdentity,
    native: bool,
) -> Option<ErrorReport> {
    if identity != expected {
        if identity.generation == expected.generation {
            Some(
                rendezvous_report(
                    ErrorCode::AuthenticationFailed,
                    "authenticate rendezvous endpoint",
                ),
            )
        } else {
            Some(
                rendezvous_report(
                    ErrorCode::StaleGeneration,
                    "authenticate rendezvous generation",
                ),
            )
        }
    } else if !native {
        Some(unsupported_report("consume Mach rendezvous"))
    } else {
        None
    }
}

/// Begins to consume one descriptor.
///
/// A wrong identity is rejected before anything native is asked for.
pub fn consume(
    native: bool,
    descriptor: RendezvousDescriptor,
    expected: TransferIdentity,
) -> (begun:
    Result<ExtensionGrant, ErrorReport>)
    ensures
        match consumption_rejection(descriptor@.identity, expected, native) {
            Some(error) => begun is Err && begun->Err_0 == error,
            None => begun is Ok && begun->Ok_0.descriptor@ == descriptor@,
        },
{
    if descriptor.identity != expected {
        if descriptor.identity.generation == expected.generation {
            return Err(
                rendezvous_error(
                    ErrorCode::AuthenticationFailed,
                    "authenticate rendezvous endpoint",
                ),
            );
        }
        return Err(
            rendezvous_error(ErrorCode::StaleGeneration, "authenticate rendezvous generation"),
        );
    }
    if !native {
        return Err(ErrorReport::unsupported("consume Mach rendezvous"));
    }
    Ok(ExtensionGrant { descriptor })
}

/// A sandbox extension that is to be consumed.
pub struct ExtensionGrant {
    /// Descriptor of the rendezvous.
    pub descriptor: RendezvousDescriptor,
}

/// What a grant releases.
pub open spec fn grant_rights(grant: i64) -> Seq<NativeRight> {
    if grant > 0 {
        seq![NativeRight::Extension(grant)]
    } else {
        Seq::empty()
    }
}

fn release_grant(release: &mut Vec<NativeRight>, grant: i64)
    ensures
        final(release)@ == old(release)@ + grant_rights(grant),
{
    if grant > 0 {
        release.push(NativeRight::Extension(grant));
    }
    proof {
        assert(release@ =~= old(release)@ + grant_rights(grant));
    }
}

impl ExtensionGrant {
    /// Goes on with the handle of the consumed extension; a negative handle is a refusal.
    pub fn consumed(self, handle: i64) -> (next: Result<ServiceLookup, ErrorReport>)
        ensures
            if handle < 0 {
                next is Err && next->Err_0 == rendezvous_report(
                    ErrorCode::RequiredCapabilityMissing,
                    "consume Mach lookup sandbox extension",
                )
            } else {
                next is Ok && next->Ok_0.descriptor@ == self.descriptor@ && next->Ok_0.grant
                    == handle
            },
    {
        if handle < 0 {
            return Err(
                rendezvous_error(
                    ErrorCode::RequiredCapabilityMissing,
                    "consume Mach lookup sandbox extension",
                ),
            );
        }
        Ok(ServiceLookup { descriptor: self.descriptor, grant: handle })
    }
}

/// A service that is to be looked up.
pub struct ServiceLookup {
    /// Descriptor of the rendezvous.
    pub descriptor: RendezvousDescriptor,
    /// Handle of the consumed extension.
    pub grant: i64,
}

/// Why a service was not found, if it was not.
pub open spec fn lookup_rejection(publisher_pid: u32, status: i32) -> Option<ErrorReport> {
    if publisher_pid > i32::MAX {
        Some(rendezvous_report(ErrorCode::InvalidRange, "lookup Mach rendezvous publisher"))
    } else if status == KERN_SUCCESS {
        None
    } else if status == 1100 {
        Some(
            rendezvous_report(
                ErrorCode::RequiredCapabilityMissing,
                "lookup Mach rendezvous denied",
            ),
        )
    } else if status == 1102 {
        Some(
            rendezvous_report(
                ErrorCode::RequiredCapabilityMissing,
                "lookup Mach rendezvous missing",
            ),
        )
    } else {
        Some(
            rendezvous_report(
                ErrorCode::RequiredCapabilityMissing,
                "lookup Mach rendezvous failed",
            ),
        )
    }
}

impl ServiceLookup {
    /// Process to look the service up in, unless its number is out of range.
    pub fn target_pid(&self) -> (target: Option<i32>)
        ensures
            target == if self.descriptor@.publisher_pid <= i32::MAX {
                Some(self.descriptor@.publisher_pid as i32)
            } else {
                None
            },
    {
        if self.descriptor.publisher_pid <= i32::MAX as u32 {
            Some(self.descriptor.publisher_pid as i32)
        } else {
            None
        }
    }

    /// Goes on with the service, if it was found.
    pub fn found(self, status: i32, service: u32) -> (next: Result<Consumer, NativeFailure>)
        ensures
            match lookup_rejection(self.descriptor@.publisher_pid, status) {
                Some(error) => next is Err && next->Err_0.error == error
                    && next->Err_0.release@ == grant_rights(self.grant),
                None => next is Ok && next->Ok_0.identity == self.descriptor@.identity
                    && next->Ok_0.nonce@ == self.descriptor@.nonce && next->Ok_0.grant
                    == self.grant && next->Ok_0.service == service,
            },
    {
        let error = if self.descriptor.publisher_pid > i32::MAX as u32 {
            rendezvous_error(ErrorCode::InvalidRange, "lookup Mach rendezvous publisher")
        } else if status == KERN_SUCCESS {
            return Ok(
                Consumer {
                    identity: self.descriptor.identity,
                    nonce: self.descriptor.nonce,
                    grant: self.grant,
                    service,
                },
            );
        } else if status == 1100 {
            rendezvous_error(ErrorCode::RequiredCapabilityMissing, "lookup Mach rendezvous denied")
        } else if status == 1102 {
            rendezvous_error(ErrorCode::RequiredCapabilityMissing, "lookup Mach rendezvous missing")
        } else {
            rendezvous_error(ErrorCode::RequiredCapabilityMissing, "lookup Mach rendezvous failed")
        };
        let mut release: Vec<NativeRight> = Vec::new();
        release_grant(&mut release, self.grant);
        proof {
            assert(release@ =~= grant_rights(self.grant));
        }
        Err(NativeFailure { error, release })
    }
}

/// An endpoint with the service that it consumes.
#[derive(Clone, Copy)]
pub struct Consumer {
    /// Endpoint that the rendezvous is for.
    pub identity: TransferIdentity,
    /// Secret of the rendezvous.
    pub nonce: [u8; 32],
    /// Handle of the consumed extension.
    pub grant: i64,
    /// Send right of the service.
    pub service: u32,
}

/// What a consumer releases when it fails: its service, then its grant.
pub open spec fn consumer_rights(consumer: Consumer) -> Seq<NativeRight> {
    seq![NativeRight::Send(consumer.service)] + grant_rights(consumer.grant)
}

fn fail_consumer(error: ErrorReport, acquired: Vec<NativeRight>, consumer: Consumer) -> (failure:
    NativeFailure)
    ensures
        failure.error == error,
        failure.release@ == acquired@ + consumer_rights(consumer),
{
    let mut release = acquired;
    release.push(NativeRight::Send(consumer.service));
    release_grant(&mut release, consumer.grant);
    proof {
        assert(release@ =~= acquired@ + consumer_rights(consumer));
    }
    NativeFailure { error, release }
}

impl Consumer {
    /// Goes on with a reply port, if it was allocated.
    pub fn allocated(self, status: i32, reply: u32) -> (next: Result<ConnectCall, NativeFailure>)
        ensures
            match status_rejection(status, "allocate Mach rendezvous reply") {
                Some(error) => next is Err && next->Err_0.error == error
                    && next->Err_0.release@ == consumer_rights(self),
                None => next is Ok && next->Ok_0 == (ConnectCall { consumer: self, reply }),
            },
    {
        match check(status, "allocate Mach rendezvous reply") {
            Ok(()) => Ok(ConnectCall { consumer: self, reply }),
            Err(error) => {
                let acquired: Vec<NativeRight> = Vec::new();
                proof {
                    assert(acquired@ + consumer_rights(self) =~= consumer_rights(self));
                }
                Err(fail_consumer(error, acquired, self))
            },
        }
    }
}

/// A request to connect that is to be sent.
pub struct ConnectCall {
    /// The endpoint.
    pub consumer: Consumer,
    /// Port that the service replies to.
    pub reply: u32,
}

impl ConnectCall {
    /// The proof to send to the service.
    pub fn authentication(&self) -> (made: Authentication)
        ensures
            authentic(made, self.consumer.identity, self.consumer.nonce@),
    {
        authentication(self.consumer.identity, self.consumer.nonce)
    }

    /// Goes on to await the reply, if the request was sent.
    pub fn sent(self, status: i32) -> (next: Result<ControlAwait, NativeFailure>)
        ensures
            match status_rejection(status, "connect Mach rendezvous") {
                Some(error) => next is Err && next->Err_0.error == error
                    && next->Err_0.release@ == seq![NativeRight::Receive(self.reply)]
                    + consumer_rights(self.consumer),
                None => next is Ok && next->Ok_0 == (ControlAwait {
                    consumer: self.consumer,
                    reply: self.reply,
                }),
            },
    {
        match check(status, "connect Mach rendezvous") {
            Ok(()) => Ok(ControlAwait { consumer: self.consumer, reply: self.reply }),
            Err(error) => {
                let mut acquired: Vec<NativeRight> = Vec::new();
                acquired.push(NativeRight::Receive(self.reply));
                proof {
                    assert(acquired@ =~= seq![NativeRight::Receive(self.reply)]);
                }
                Err(fail_consumer(error, acquired, self.consumer))
            },
        }
    }
}

/// A reply that is awaited.
pub struct ControlAwait {
    /// The endpoint.
    pub consumer: Consumer,
    /// Port that the service replies to.
    pub reply: u32,
}

/// Whether a reply hands over the control right of this rendezvous.
pub open spec fn hands_over(response: ControlResponse, consumer: Consumer) -> bool {
    &&& response.id == CONTROL_MESSAGE
    &&& response.descriptor_count == 1
    &&& response.descriptor_type == PORT_DESCRIPTOR
    &&& response.control != MACH_PORT_NULL
    &&& authentic(response.authentication, consumer.identity, consumer.nonce@)
}

/// Why no control right comes of a reply, if none does.
pub open spec fn control_rejection(
    status: i32,
    response: ControlResponse,
    consumer: Consumer,
) -> Option<ErrorReport> {
    if status_rejection(status, "receive Mach rendezvous control") is Some {
        status_rejection(status, "receive Mach rendezvous control")
    } else if !hands_over(response, consumer) {
        Some(rendezvous_report(ErrorCode::ProtocolViolation, "validate Mach rendezvous control"))
    } else {
        None
    }
}

/// What a rejected reply leaves to release in front of the consumer's own rights.
pub open spec fn control_leftovers(status: i32, response: ControlResponse, reply: u32) -> Seq<
    NativeRight,
> {
    seq![NativeRight::Receive(reply)] + (if status == KERN_SUCCESS && response.control
        != MACH_PORT_NULL {
        seq![NativeRight::Receive(response.control)]
    } else {
        Seq::empty()
    })
}

impl ControlAwait {
    /// Goes on to receive the capabilities, if the reply hands the control right over. The second
    /// value is the reply port, which is to be released.
    pub fn received(self, status: i32, response: ControlResponse) -> (next: Result<
        (CapabilityAwait, NativeRight),
        NativeFailure,
    >)
        ensures
            match control_rejection(status, response, self.consumer) {
                Some(error) => next is Err && next->Err_0.error == error
                    && next->Err_0.release@ == control_leftovers(status, response, self.reply)
                    + consumer_rights(self.consumer),
                None => {
                    &&& next is Ok
                    &&& next->Ok_0.0.consumer == self.consumer
                    &&& next->Ok_0.0.pending.spec_control() == response.control
                    &&& next->Ok_0.0.pending.spec_identity() == self.consumer.identity
                    &&& next->Ok_0.1 == NativeRight::Receive(self.reply)
                },
            },
    {
        let mut acquired: Vec<NativeRight> = Vec::new();
        acquired.push(NativeRight::Receive(self.reply));
        match check(status, "receive Mach rendezvous control") {
            Ok(()) => {},
            Err(error) => {
                proof {
                    assert(acquired@ =~= control_leftovers(status, response, self.reply));
                }
                return Err(fail_consumer(error, acquired, self.consumer));
            },
        }
        let complete = response.id == CONTROL_MESSAGE && response.descriptor_count == 1
            && response.descriptor_type == PORT_DESCRIPTOR && response.control != MACH_PORT_NULL
            && is_authentic(
            &response.authentication,
            self.consumer.identity,
            &self.consumer.nonce,
        );
        if complete {
            let adopted = AuthenticatedControlEndpoint::from_raw_receive_right(
                true,
                self.consumer.identity,
                response.control,
            );
            if let Ok(mut endpoint) = adopted {
                if let Ok(pending) = endpoint.receive() {
                    return Ok(
                        (
                            CapabilityAwait { consumer: self.consumer, pending },
                            NativeRight::Receive(self.reply),
                        ),
                    );
                }
            }
        }
        if response.control != MACH_PORT_NULL {
            acquired.push(NativeRight::Receive(response.control));
        }
        proof {
            assert(acquired@ =~= control_leftovers(status, response, self.reply));
        }
        Err(
            fail_consumer(
                rendezvous_error(ErrorCode::ProtocolViolation, "validate Mach rendezvous control"),
                acquired,
                self.consumer,
            ),
        )
    }
}

/// Capabilities that are awaited.
pub struct CapabilityAwait {
    /// The endpoint.
    pub consumer: Consumer,
    /// The receive.
    pub pending: PendingReceive,
}

impl CapabilityAwait {
    /// Goes on to acknowledge, if a complete transfer came. The second value is what is to be
    /// released.
    pub fn received(self, message: Option<CapabilityMessage>) -> (next: Result<
        (AcknowledgementCall, Vec<NativeRight>),
        NativeFailure,
    >)
        ensures
            match receive_rejection(message, self.pending.spec_identity()) {
                Some(error) => {
                    &&& next is Err
                    &&& next->Err_0.error == error
                    &&& next->Err_0.release@ == seq![
                        NativeRight::Receive(self.pending.spec_control()),
                    ] + (match message {
                        Some(message) => carried_rights(message.descriptors@),
                        None => Seq::empty(),
                    }) + consumer_rights(self.consumer)
                },
                None => {
                    &&& next is Ok
                    &&& next->Ok_0.0.consumer == self.consumer
                    &&& next->Ok_0.0.capabilities@ == capabilities_of(message->0)
                    &&& next->Ok_0.1@ == seq![NativeRight::Receive(self.pending.spec_control())]
                },
            },
    {
        let settled = self.pending.finish(message);
        match settled.outcome {
            Ok(capabilities) => Ok(
                (AcknowledgementCall { consumer: self.consumer, capabilities }, settled.release),
            ),
            Err(error) => Err(fail_consumer(error, settled.release, self.consumer)),
        }
    }
}

/// An acknowledgement that is to be sent.
pub struct AcknowledgementCall {
    /// The endpoint.
    pub consumer: Consumer,
    /// The received capabilities.
    pub capabilities: EndpointCapabilities,
}

impl AcknowledgementCall {
    /// The proof to send to the service.
    pub fn authentication(&self) -> (made: Authentication)
        ensures
            authentic(made, self.consumer.identity, self.consumer.nonce@),
    {
        authentication(self.consumer.identity, self.consumer.nonce)
    }

    /// Completes the consumption, if the acknowledgement was sent. The second value is what is to
    /// be released: the grant, then the service.
    pub fn sent(self, status: i32) -> (done: Result<
        (EndpointCapabilities, Vec<NativeRight>),
        NativeFailure,
    >)
        ensures
            match status_rejection(status, "acknowledge Mach capabilities") {
                Some(error) => {
                    &&& done is Err
                    &&& done->Err_0.error == error
                    &&& done->Err_0.release@ == remaining_rights(self.capabilities@)
                        + consumer_rights(self.consumer)
                },
                None => {
                    &&& done is Ok
                    &&& done->Ok_0.0 == self.capabilities
                    &&& done->Ok_0.1@ == grant_rights(self.consumer.grant).push(
                        NativeRight::Send(self.consumer.service),
                    )
                },
            },
    {
        match check(status, "acknowledge Mach capabilities") {
            Ok(()) => {
                let mut release: Vec<NativeRight> = Vec::new();
                release_grant(&mut release, self.consumer.grant);
                proof {
                    assert(release@ =~= grant_rights(self.consumer.grant));
                }
                release.push(NativeRight::Send(self.consumer.service));
                Ok((self.capabilities, release))
            },
            Err(error) => {
                let acquired = self.capabilities.release();
                Err(fail_consumer(error, acquired, self.consumer))
            },
        }
    }
}

/// A rendezvous is consumed only by the endpoint that it names; another generation is told that it
/// is stale, another endpoint of the right generation that it is a stranger.
pub proof fn law_rendezvous_are_consumed_by_their_endpoint(
    identity: TransferIdentity,
    expected: TransferIdentity,
    native: bool,
)
    ensures
        consumption_rejection(identity, expected, native) is None <==> identity == expected
            && native,
        consumption_rejection(identity, expected, native) matches Some(error) ==> {
            &&& error.code is StaleGeneration <==> identity.generation != expected.generation
            &&& error.code is AuthenticationFailed <==> identity.generation == expected.generation
                && identity != expected
            &&& error.code is Unsupported <==> identity == expected && !native
        },
{
}

/// A native call that succeeded is no failure, and of those that failed exactly one that timed out
/// may be tried with another endpoint.
pub proof fn law_timeouts_are_told_apart(status: i32, operation: &'static str)
    ensures
        status_rejection(status, operation) is None <==> status == 0,
        status_rejection(status, operation) matches Some(error) ==> {
            &&& error.code is Timeout <==> status == RECEIVE_TIMED_OUT
            &&& error.recoverability is ReplaceEndpoint <==> status == RECEIVE_TIMED_OUT
        },
{
}

/// A service is found exactly where the lookup succeeded for a publisher that can be one.
pub proof fn law_lookups_succeed_for_publishers(publisher_pid: u32, status: i32)
    ensures
        lookup_rejection(publisher_pid, status) is None <==> status == 0 && publisher_pid
            <= i32::MAX,
        lookup_rejection(publisher_pid, status) matches Some(error) ==> (error.code is InvalidRange
            <==> publisher_pid > i32::MAX),
{
}

/// No message both connects and acknowledges, and either knows the whole secret of the rendezvous
/// and all of its identity.
pub proof fn law_messages_are_authentic(
    request: Request,
    identity: TransferIdentity,
    nonce: Seq<u8>,
)
    ensures
        !(connects(request, identity, nonce) && acknowledges(request, identity, nonce)),
        connects(request, identity, nonce) || acknowledges(request, identity, nonce) ==> {
            &&& request.authentication.nonce@ == nonce
            &&& request.authentication.session_id == identity.session_id@
            &&& request.authentication.generation == identity.generation@
            &&& request.authentication.role == identity.role.wire()
            &&& request.authentication.reserved == 0
        },
        connects(request, identity, nonce) ==> request.remote_port != 0,
{
}

/// A control right is taken only from an authentic answer that carries exactly one port; whatever
/// came back, the reply port is released, and so is a port that arrived and was not taken.
pub proof fn law_control_rights_are_taken_or_released(
    status: i32,
    response: ControlResponse,
    consumer: Consumer,
    reply: u32,
)
    ensures
        control_rejection(status, response, consumer) is None ==> {
            &&& status == 0
            &&& response.descriptor_count == 1
            &&& response.control != 0
            &&& response.authentication.nonce@ == consumer.nonce@
            &&& response.authentication.session_id == consumer.identity.session_id@
            &&& response.authentication.generation == consumer.identity.generation@
        },
        control_leftovers(status, response, reply)[0] == NativeRight::Receive(reply),
        control_leftovers(status, response, reply).len() == if status == 0 && response.control
            != 0 {
            2int
        } else {
            1
        },
        status == 0 && response.control != 0 ==> control_leftovers(status, response, reply)[1]
            == NativeRight::Receive(response.control),
{
}

/// An abandoned service gives back everything that it holds: its control endpoint where it has one,
/// the four rights that it would have transferred, and what its host holds.
pub proof fn law_abandoned_services_give_everything_back(
    endpoint: u32,
    capabilities: MachCapabilityBundle,
    transfer: AuthenticatedControlHost,
    index: int,
)
    ensures
        ({
            let release = abandoned(endpoint, capabilities, transfer);
            let first = if endpoint != 0 {
                1int
            } else {
                0
            };
            &&& release.len() == first + 4 + host_rights(transfer).len()
            &&& endpoint != 0 ==> release[0] == NativeRight::Receive(endpoint)
            &&& release[first] == NativeRight::Receive(capabilities.names()[3])
            &&& 1 <= index < 4 ==> release[first + index] == NativeRight::Send(
                capabilities.names()[3 - index],
            )
            &&& transfer.control() matches Some(name) ==> release.last() == NativeRight::Send(name)
        }),
{
}

/// A consumed sandbox extension is released where one was granted, and only then.
pub proof fn law_grants_are_released_once(grant: i64)
    ensures
        grant > 0 ==> grant_rights(grant) == seq![NativeRight::Extension(grant)],
        grant <= 0 ==> grant_rights(grant).len() == 0,
{
}

/// A failure of a rendezvous keeps its code, and only one that is stale or late takes another
/// endpoint; what is not authentic, stale, against the protocol, late or closed is told apart from
/// what the platform refuses.
pub proof fn law_rendezvous_failures_have_their_class(code: ErrorCode, operation: &'static str)
    ensures
        rendezvous_report(code, operation).code == code,
        rendezvous_report(code, operation).context == operation,
        rendezvous_report(code, operation).recoverability is ReplaceEndpoint
            <==> code is StaleGeneration || code is Timeout,
        rendezvous_report(code, operation).recoverability is Terminal
            <==> !(code is StaleGeneration || code is Timeout),
        rendezvous_report(code, operation).category is Security
            <==> code is AuthenticationFailed || code is ReplayDetected,
        rendezvous_report(code, operation).category is Bootstrap <==> code is StaleGeneration,
        rendezvous_report(code, operation).category is Protocol
            <==> code is ProtocolViolation || code is Truncated,
        rendezvous_report(code, operation).category is Timeout <==> code is Timeout,
        rendezvous_report(code, operation).category is Closed <==> code is Closed,
        rendezvous_report(code, operation).category is Security
            || rendezvous_report(code, operation).category is Bootstrap
            || rendezvous_report(code, operation).category is Protocol
            || rendezvous_report(code, operation).category is Timeout
            || rendezvous_report(code, operation).category is Closed
            || rendezvous_report(code, operation).category is Platform,
{
}

/// Bytes that are no rendezvous at all are truncated, one without a generation is stale, and any
/// other that cannot be read is against the protocol; texts that are too long are out of range.
pub proof fn law_refused_rendezvous_are_told_apart(input: Seq<u8>, descriptor: RendezvousView)
    ensures
        encoding_rejection(descriptor) is None <==> descriptor.service.len() <= 65535
            && descriptor.extension.len() <= 65535,
        encoding_rejection(descriptor) matches Some(error) ==> error.code is InvalidRange,
        rendezvous_decoded(input) matches Err(error) ==> {
            &&& error.code is Truncated <==> input.len() < HEADER_LENGTH || le_at(input, 0, 8)
                != MAGIC
            &&& error.code is StaleGeneration ==> le_at(input, 28, 8) == 0
            &&& error.code is Truncated || error.code is StaleGeneration
                || error.code is ProtocolViolation
        },
{
}

/// A call that failed is told as it failed, and an answer that hands nothing over is against the
/// protocol.
pub proof fn law_refused_controls_are_told_apart(
    status: i32,
    response: ControlResponse,
    consumer: Consumer,
)
    ensures
        control_rejection(status, response, consumer) matches Some(error) ==> (error.code
            is ProtocolViolation <==> status == 0),
{
}

/// A service that cannot be found for a publisher that can be one is missing.
pub proof fn law_failed_lookups_are_told_apart(publisher_pid: u32, status: i32)
    ensures
        lookup_rejection(publisher_pid, status) matches Some(error) ==> {
            &&& error.code is InvalidRange <==> publisher_pid > i32::MAX
            &&& error.code is RequiredCapabilityMissing <==> publisher_pid <= i32::MAX
            &&& error.recoverability is Terminal
        },
{
}

} // verus!
