//! Channel policy of the macOS production transport, and the descriptor bundles that carry it.

use vstd::prelude::*;
use vstd::slice::slice_subrange;

use crate::bootstrap::schema::{
    BootstrapEnvelope, EndpointRole, EnvelopeView, ProviderKind,
};
use crate::data_plane::crypto::FRAME_OVERHEAD;
use crate::data_plane::region_layout::{OwnerRole, RegionExpectation, REGION_HEADER_SIZE};
use crate::domain::bytes::{
    copy_range, le_at, le_bytes, lemma_le_at_append, lemma_le_bytes_len, lemma_le_limits,
    push_bytes, push_u16, push_u32, read_u16, read_u32,
};
use crate::domain::capabilities::{
    NegotiatedCapabilities, TransportCapabilities, AUTHENTICATED_ENCRYPTION, BINARY_MESSAGES,
    BOUNDED_BACKPRESSURE, DIRECT_SIGNAL, FRAGMENTATION, SHARED_MEMORY_DATA_PLANE,
};
use crate::domain::error::{report, ErrorCategory, ErrorCode, ErrorReport, Recoverability};
use crate::domain::types::group_identities;
use crate::memory::iosurface::{
    descriptor_bytes, descriptor_decoded, law_descriptor_round_trip, IoSurfaceDescriptor,
};
use crate::protocol::{NegotiatedProtocol, ProtocolVersion};

verus! {

broadcast use group_identities;

/// The bytes `NWM1`, least significant first.
pub const MEMORY_MAGIC: u32 = 0x314d_574e;

/// The bytes `NWS1`, least significant first.
pub const SIGNAL_MAGIC: u32 = 0x3153_574e;

/// Bytes of a memory bundle in front of its descriptors.
pub const MEMORY_HEADER_LENGTH: usize = 24;

/// Bytes of a memory bundle.
pub const MEMORY_BUNDLE_LENGTH: usize = 64;

/// Bytes of a signal bundle in front of its descriptors.
pub const SIGNAL_HEADER_LENGTH: usize = 8;

/// Category of a platform failure.
pub open spec fn platform_category(code: ErrorCode) -> ErrorCategory {
    match code {
        ErrorCode::Closed => ErrorCategory::Closed,
        ErrorCode::MessageTooLarge => ErrorCategory::Resource,
        ErrorCode::Backpressured => ErrorCategory::Resource,
        ErrorCode::ProtocolViolation => ErrorCategory::Protocol,
        ErrorCode::LayoutVersionMismatch => ErrorCategory::Protocol,
        ErrorCode::RequiredCapabilityMissing => ErrorCategory::Protocol,
        ErrorCode::Timeout => ErrorCategory::Timeout,
        _ => ErrorCategory::Configuration,
    }
}

/// The report of a platform failure.
pub open spec fn platform_report(code: ErrorCode, operation: &'static str) -> ErrorReport {
    report(
        platform_category(code),
        code,
        if code is Backpressured {
            Recoverability::Retryable
        } else {
            Recoverability::ReplaceEndpoint
        },
        operation,
    )
}

/// Creates the report of a platform failure.
pub fn platform_error(code: ErrorCode, operation: &'static str) -> (created: ErrorReport)
    ensures
        created == platform_report(code, operation),
{
    let category = match code {
        ErrorCode::Closed => ErrorCategory::Closed,
        ErrorCode::MessageTooLarge => ErrorCategory::Resource,
        ErrorCode::Backpressured => ErrorCategory::Resource,
        ErrorCode::ProtocolViolation => ErrorCategory::Protocol,
        ErrorCode::LayoutVersionMismatch => ErrorCategory::Protocol,
        ErrorCode::RequiredCapabilityMissing => ErrorCategory::Protocol,
        ErrorCode::Timeout => ErrorCategory::Timeout,
        _ => ErrorCategory::Configuration,
    };
    let recoverability = match code {
        ErrorCode::Backpressured => Recoverability::Retryable,
        _ => Recoverability::ReplaceEndpoint,
    };
    ErrorReport::new(category, code, recoverability, operation)
}

/// Capacity and watermark policy encoded with a pair of production descriptors.
#[derive(Clone, Copy, Debug, PartialEq, Eq, Structural)]
pub struct ChannelConfiguration {
    /// Ring bytes in each direction.
    pub capacity: u32,
    /// Largest record payload before fragmentation.
    pub maximum_inline_message: u32,
    /// Largest negotiated logical message.
    pub maximum_message: u32,
    /// Writable edge low watermark.
    pub low_watermark: u32,
    /// Backpressure high watermark.
    pub high_watermark: u32,
}

/// Why a configuration is invalid, if it is.
pub open spec fn configuration_rejection(configuration: ChannelConfiguration) -> Option<
    ErrorReport,
> {
    if REGION_HEADER_SIZE + configuration.capacity > usize::MAX {
        Some(platform_report(ErrorCode::InvalidRange, "macOS channel capacity"))
    } else if configuration.capacity == 0 || configuration.maximum_inline_message == 0
        || configuration.maximum_message < configuration.maximum_inline_message
        || configuration.maximum_message == u32::MAX || configuration.low_watermark
        >= configuration.high_watermark || configuration.high_watermark >= configuration.capacity {
        Some(platform_report(ErrorCode::InvalidRange, "macOS channel configuration"))
    } else {
        None
    }
}

/// The configuration that is used unless another one is given.
pub open spec fn default_configuration() -> ChannelConfiguration {
    ChannelConfiguration {
        capacity: 2097152,
        maximum_inline_message: 16384,
        maximum_message: 1048576,
        low_watermark: 524288,
        high_watermark: 1572864,
    }
}

impl ChannelConfiguration {
    /// Validates the limits of the channel.
    ///
    /// An empty or internally inconsistent channel configuration is rejected.
    pub fn validate(self) -> (validated: Result<Self, ErrorReport>)
        ensures
            match configuration_rejection(self) {
                None => validated == Ok::<Self, ErrorReport>(self),
                Some(error) => validated == Err::<Self, ErrorReport>(error),
            },
    {
        if self.capacity as u64 + REGION_HEADER_SIZE as u64 > usize::MAX as u64 {
            return Err(platform_error(ErrorCode::InvalidRange, "macOS channel capacity"));
        }
        if self.capacity == 0 || self.maximum_inline_message == 0 || self.maximum_message
            < self.maximum_inline_message || self.maximum_message == u32::MAX || self.low_watermark
            >= self.high_watermark || self.high_watermark >= self.capacity {
            return Err(platform_error(ErrorCode::InvalidRange, "macOS channel configuration"));
        }
        Ok(self)
    }

    /// Bytes of a region with its header.
    pub fn total_length(self) -> (length: Result<usize, ErrorReport>)
        ensures
            length == if REGION_HEADER_SIZE + self.capacity > usize::MAX {
                Err::<usize, ErrorReport>(
                    platform_report(ErrorCode::InvalidRange, "macOS channel capacity"),
                )
            } else {
                Ok((REGION_HEADER_SIZE + self.capacity) as usize)
            },
    {
        if self.capacity as u64 + REGION_HEADER_SIZE as u64 > usize::MAX as u64 {
            return Err(platform_error(ErrorCode::InvalidRange, "macOS channel capacity"));
        }
        Ok(REGION_HEADER_SIZE + self.capacity as usize)
    }
}

impl Default for ChannelConfiguration {
    fn default() -> (configuration: Self)
        ensures
            configuration == default_configuration(),
            configuration_rejection(configuration) is None,
    {
        ChannelConfiguration {
            capacity: 2097152,
            maximum_inline_message: 16384,
            maximum_message: 1048576,
            low_watermark: 524288,
            high_watermark: 1572864,
        }
    }
}

/// The bits of the capabilities guaranteed by the macOS production adapter.
pub open spec fn production_capability_bits() -> u64 {
    SHARED_MEMORY_DATA_PLANE | BINARY_MESSAGES | BOUNDED_BACKPRESSURE | DIRECT_SIGNAL
        | AUTHENTICATED_ENCRYPTION | FRAGMENTATION
}

/// Capabilities guaranteed by the macOS production adapter.
pub fn production_capabilities() -> (capabilities: TransportCapabilities)
    ensures
        capabilities == (TransportCapabilities { bits: production_capability_bits() }),
{
    TransportCapabilities::from_bits(
        SHARED_MEMORY_DATA_PLANE | BINARY_MESSAGES | BOUNDED_BACKPRESSURE | DIRECT_SIGNAL
            | AUTHENTICATED_ENCRYPTION | FRAGMENTATION,
    )
}

/// Production never runs without authenticated encryption.
pub proof fn law_production_is_encrypted()
    ensures
        (TransportCapabilities { bits: production_capability_bits() }).includes(
            TransportCapabilities { bits: AUTHENTICATED_ENCRYPTION },
        ),
{
    assert((0x1u64 | 0x2 | 0x4 | 0x8 | 0x20 | 0x100) & 0x20 == 0x20) by (bit_vector);
}

/// The protocol that the channel of a configuration is attached with: its messages have room for
/// their kind and their protection.
pub open spec fn channel_protocol(configuration: ChannelConfiguration) -> Result<
    NegotiatedProtocol,
    ErrorReport,
> {
    if configuration.maximum_message + 1 + FRAME_OVERHEAD > u32::MAX {
        Err(platform_report(ErrorCode::InvalidRange, "macOS framed message limit"))
    } else {
        Ok(
            NegotiatedProtocol {
                version: ProtocolVersion { major: 1, minor: 0 },
                capabilities: NegotiatedCapabilities {
                    set: TransportCapabilities { bits: production_capability_bits() },
                },
                maximum_message: (configuration.maximum_message + 1 + FRAME_OVERHEAD) as u32,
            },
        )
    }
}

/// Gives the protocol that the channel of a configuration is attached with.
pub fn negotiated(configuration: ChannelConfiguration) -> (protocol: Result<
    NegotiatedProtocol,
    ErrorReport,
>)
    ensures
        protocol == channel_protocol(configuration),
{
    let framed: u64 = configuration.maximum_message as u64 + 1 + FRAME_OVERHEAD as u64;
    if framed > u32::MAX as u64 {
        return Err(platform_error(ErrorCode::InvalidRange, "macOS framed message limit"));
    }
    Ok(
        NegotiatedProtocol {
            version: ProtocolVersion::new(1, 0),
            capabilities: NegotiatedCapabilities::new(production_capabilities()),
            maximum_message: framed as u32,
        },
    )
}

/// The policy and the descriptors of a memory bundle.
#[derive(Clone, Copy, PartialEq, Eq, Structural)]
pub struct MemoryBundle {
    /// Channel policy.
    pub configuration: ChannelConfiguration,
    /// Region that the renderer produces into.
    pub renderer: IoSurfaceDescriptor,
    /// Region that the peer produces into.
    pub peer: IoSurfaceDescriptor,
}

/// The encoding of a memory bundle.
pub open spec fn memory_bundle_bytes(bundle: MemoryBundle) -> Seq<u8> {
    le_bytes(MEMORY_MAGIC as nat, 4) + le_bytes(bundle.configuration.capacity as nat, 4) + le_bytes(
        bundle.configuration.maximum_inline_message as nat,
        4,
    ) + le_bytes(bundle.configuration.maximum_message as nat, 4) + le_bytes(
        bundle.configuration.low_watermark as nat,
        4,
    ) + le_bytes(bundle.configuration.high_watermark as nat, 4) + descriptor_bytes(bundle.renderer)
        + descriptor_bytes(bundle.peer)
}

/// The policy in a memory bundle.
pub open spec fn encoded_configuration(input: Seq<u8>) -> ChannelConfiguration {
    ChannelConfiguration {
        capacity: le_at(input, 4, 4) as u32,
        maximum_inline_message: le_at(input, 8, 4) as u32,
        maximum_message: le_at(input, 12, 4) as u32,
        low_watermark: le_at(input, 16, 4) as u32,
        high_watermark: le_at(input, 20, 4) as u32,
    }
}

/// What decoding a memory bundle gives.
pub open spec fn memory_bundle_decoded(input: Seq<u8>) -> Result<MemoryBundle, ErrorReport> {
    if input.len() != MEMORY_BUNDLE_LENGTH || le_at(input, 0, 4) != MEMORY_MAGIC {
        Err(platform_report(ErrorCode::Truncated, "decode macOS memory bundle"))
    } else {
        match (
            configuration_rejection(encoded_configuration(input)),
            descriptor_decoded(input.subrange(24, 44)),
            descriptor_decoded(input.subrange(44, 64)),
        ) {
            (Some(error), _, _) => Err(error),
            (None, Err(error), _) => Err(error),
            (None, Ok(_), Err(error)) => Err(error),
            (None, Ok(renderer), Ok(peer)) => Ok(
                MemoryBundle { configuration: encoded_configuration(input), renderer, peer },
            ),
        }
    }
}

/// Encodes the policy and both region descriptors.
pub fn encode_memory(
    configuration: ChannelConfiguration,
    renderer: &IoSurfaceDescriptor,
    peer: &IoSurfaceDescriptor,
) -> (output: Result<Vec<u8>, ErrorReport>)
    ensures
        output matches Ok(bytes) && bytes@ == memory_bundle_bytes(
            MemoryBundle { configuration, renderer: *renderer, peer: *peer },
        ),
{
    let mut output: Vec<u8> = Vec::new();
    push_u32(&mut output, MEMORY_MAGIC);
    push_u32(&mut output, configuration.capacity);
    push_u32(&mut output, configuration.maximum_inline_message);
    push_u32(&mut output, configuration.maximum_message);
    push_u32(&mut output, configuration.low_watermark);
    push_u32(&mut output, configuration.high_watermark);
    let renderer_bytes = renderer.encode()?;
    let peer_bytes = peer.encode()?;
    push_bytes(&mut output, renderer_bytes.as_slice());
    push_bytes(&mut output, peer_bytes.as_slice());
    proof {
        assert(output@ =~= memory_bundle_bytes(
            MemoryBundle { configuration, renderer: *renderer, peer: *peer },
        ));
    }
    Ok(output)
}

/// Decodes and validates a memory bundle.
pub fn decode_memory(input: &[u8]) -> (decoded: Result<MemoryBundle, ErrorReport>)
    ensures
        decoded == memory_bundle_decoded(input@),
{
    if input.len() != MEMORY_BUNDLE_LENGTH || read_u32(input, 0) != MEMORY_MAGIC {
        return Err(platform_error(ErrorCode::Truncated, "decode macOS memory bundle"));
    }
    let configuration = ChannelConfiguration {
        capacity: read_u32(input, 4),
        maximum_inline_message: read_u32(input, 8),
        maximum_message: read_u32(input, 12),
        low_watermark: read_u32(input, 16),
        high_watermark: read_u32(input, 20),
    }.validate()?;
    let renderer = IoSurfaceDescriptor::decode(slice_subrange(input, 24, 44))?;
    let peer = IoSurfaceDescriptor::decode(slice_subrange(input, 44, 64))?;
    Ok(MemoryBundle { configuration, renderer, peer })
}

/// Decoding an encoded memory bundle gives the bundle back.
pub proof fn law_memory_bundle_round_trip(bundle: MemoryBundle)
    requires
        configuration_rejection(bundle.configuration) is None,
        bundle.renderer.surface_id != 0,
        bundle.renderer.byte_len != 0,
        bundle.renderer.generation@ != 0,
        bundle.peer.surface_id != 0,
        bundle.peer.byte_len != 0,
        bundle.peer.generation@ != 0,
    ensures
        memory_bundle_decoded(memory_bundle_bytes(bundle)) == Ok::<MemoryBundle, ErrorReport>(
            bundle,
        ),
{
    let configuration = bundle.configuration;
    let empty = Seq::<u8>::empty();
    let magic = le_bytes(MEMORY_MAGIC as nat, 4);
    let capacity = le_bytes(configuration.capacity as nat, 4);
    let inline = le_bytes(configuration.maximum_inline_message as nat, 4);
    let message = le_bytes(configuration.maximum_message as nat, 4);
    let low = le_bytes(configuration.low_watermark as nat, 4);
    let high = le_bytes(configuration.high_watermark as nat, 4);
    let renderer = descriptor_bytes(bundle.renderer);
    let peer = descriptor_bytes(bundle.peer);
    lemma_le_limits();
    lemma_le_bytes_len(MEMORY_MAGIC as nat, 4);
    lemma_le_bytes_len(configuration.capacity as nat, 4);
    lemma_le_bytes_len(configuration.maximum_inline_message as nat, 4);
    lemma_le_bytes_len(configuration.maximum_message as nat, 4);
    lemma_le_bytes_len(configuration.low_watermark as nat, 4);
    lemma_le_bytes_len(configuration.high_watermark as nat, 4);
    lemma_le_bytes_len(bundle.renderer.surface_id as nat, 4);
    lemma_le_bytes_len(bundle.renderer.byte_len as nat, 8);
    lemma_le_bytes_len(bundle.renderer.generation@ as nat, 8);
    lemma_le_bytes_len(bundle.peer.surface_id as nat, 4);
    lemma_le_bytes_len(bundle.peer.byte_len as nat, 8);
    lemma_le_bytes_len(bundle.peer.generation@ as nat, 8);
    let input = memory_bundle_bytes(bundle);
    let tail = renderer + peer;
    lemma_le_at_append(empty, MEMORY_MAGIC as nat, 4, capacity + inline + message + low + high + tail);
    assert(input =~= empty + magic + (capacity + inline + message + low + high + tail));
    lemma_le_at_append(magic, configuration.capacity as nat, 4, inline + message + low + high + tail);
    assert(input =~= magic + capacity + (inline + message + low + high + tail));
    lemma_le_at_append(
        magic + capacity,
        configuration.maximum_inline_message as nat,
        4,
        message + low + high + tail,
    );
    assert(input =~= magic + capacity + inline + (message + low + high + tail));
    lemma_le_at_append(
        magic + capacity + inline,
        configuration.maximum_message as nat,
        4,
        low + high + tail,
    );
    assert(input =~= magic + capacity + inline + message + (low + high + tail));
    lemma_le_at_append(
        magic + capacity + inline + message,
        configuration.low_watermark as nat,
        4,
        high + tail,
    );
    assert(input =~= magic + capacity + inline + message + low + (high + tail));
    lemma_le_at_append(
        magic + capacity + inline + message + low,
        configuration.high_watermark as nat,
        4,
        tail,
    );
    assert(input =~= magic + capacity + inline + message + low + high + tail);
    assert(input.subrange(24, 44) =~= renderer);
    assert(input.subrange(44, 64) =~= peer);
    law_descriptor_round_trip(bundle.renderer);
    law_descriptor_round_trip(bundle.peer);
    assert(encoded_configuration(input) == configuration);
}

/// The encoding of a signal bundle.
pub open spec fn signal_bundle_bytes(renderer: Seq<u8>, peer: Seq<u8>) -> Seq<u8> {
    le_bytes(SIGNAL_MAGIC as nat, 4) + le_bytes(renderer.len(), 2) + le_bytes(peer.len(), 2)
        + renderer + peer
}

/// What decoding a signal bundle gives: the encoded descriptors of both directions.
pub open spec fn signal_bundle_decoded(input: Seq<u8>) -> Result<(Seq<u8>, Seq<u8>), ErrorReport> {
    let renderer_end = SIGNAL_HEADER_LENGTH + le_at(input, 4, 2);
    if input.len() < SIGNAL_HEADER_LENGTH || le_at(input, 0, 4) != SIGNAL_MAGIC || renderer_end
        + le_at(input, 6, 2) != input.len() {
        Err(platform_report(ErrorCode::Truncated, "decode macOS signal bundle"))
    } else {
        Ok(
            (
                input.subrange(SIGNAL_HEADER_LENGTH as int, renderer_end),
                input.subrange(renderer_end, input.len() as int),
            ),
        )
    }
}

/// Bundles the encoded signal descriptors of both directions.
///
/// Descriptors that are too long for the bundle are rejected.
pub fn encode_signals(renderer: &[u8], peer: &[u8]) -> (output: Result<Vec<u8>, ErrorReport>)
    ensures
        if renderer@.len() > u16::MAX || peer@.len() > u16::MAX {
            output is Err && output->Err_0 == platform_report(
                ErrorCode::InvalidRange,
                "encode macOS signal bundle",
            )
        } else {
            output is Ok && output->Ok_0@ == signal_bundle_bytes(renderer@, peer@)
        },
{
    if renderer.len() > u16::MAX as usize || peer.len() > u16::MAX as usize {
        return Err(platform_error(ErrorCode::InvalidRange, "encode macOS signal bundle"));
    }
    let mut output: Vec<u8> = Vec::new();
    push_u32(&mut output, SIGNAL_MAGIC);
    push_u16(&mut output, renderer.len() as u16);
    push_u16(&mut output, peer.len() as u16);
    push_bytes(&mut output, renderer);
    push_bytes(&mut output, peer);
    proof {
        assert(output@ =~= signal_bundle_bytes(renderer@, peer@));
    }
    Ok(output)
}

/// Splits a signal bundle into the encoded descriptors of both directions.
pub fn decode_signals(input: &[u8]) -> (decoded: Result<(Vec<u8>, Vec<u8>), ErrorReport>)
    ensures
        match decoded {
            Ok((renderer, peer)) => signal_bundle_decoded(input@) == Ok::<
                (Seq<u8>, Seq<u8>),
                ErrorReport,
            >((renderer@, peer@)),
            Err(error) => signal_bundle_decoded(input@) == Err::<(Seq<u8>, Seq<u8>), ErrorReport>(
                error,
            ),
        },
{
    if input.len() < SIGNAL_HEADER_LENGTH || read_u32(input, 0) != SIGNAL_MAGIC {
        return Err(platform_error(ErrorCode::Truncated, "decode macOS signal bundle"));
    }
    let renderer_length: usize = read_u16(input, 4) as usize;
    let peer_length: usize = read_u16(input, 6) as usize;
    let renderer_end: usize = SIGNAL_HEADER_LENGTH + renderer_length;
    if renderer_end + peer_length != input.len() {
        return Err(platform_error(ErrorCode::Truncated, "decode macOS signal bundle"));
    }
    Ok(
        (
            copy_range(input, SIGNAL_HEADER_LENGTH, renderer_end),
            copy_range(input, renderer_end, input.len()),
        ),
    )
}

/// Splitting a signal bundle gives the descriptors back.
pub proof fn law_signal_bundle_round_trip(renderer: Seq<u8>, peer: Seq<u8>)
    requires
        renderer.len() <= u16::MAX,
        peer.len() <= u16::MAX,
    ensures
        signal_bundle_decoded(signal_bundle_bytes(renderer, peer)) == Ok::<
            (Seq<u8>, Seq<u8>),
            ErrorReport,
        >((renderer, peer)),
{
    let empty = Seq::<u8>::empty();
    let magic = le_bytes(SIGNAL_MAGIC as nat, 4);
    let first = le_bytes(renderer.len(), 2);
    let second = le_bytes(peer.len(), 2);
    lemma_le_limits();
    lemma_le_bytes_len(SIGNAL_MAGIC as nat, 4);
    lemma_le_bytes_len(renderer.len(), 2);
    lemma_le_bytes_len(peer.len(), 2);
    let input = signal_bundle_bytes(renderer, peer);
    lemma_le_at_append(empty, SIGNAL_MAGIC as nat, 4, first + second + renderer + peer);
    assert(input =~= empty + magic + (first + second + renderer + peer));
    lemma_le_at_append(magic, renderer.len(), 2, second + renderer + peer);
    assert(input =~= magic + first + (second + renderer + peer));
    lemma_le_at_append(magic + first, peer.len(), 2, renderer + peer);
    assert(input =~= magic + first + second + (renderer + peer));
    let renderer_end = SIGNAL_HEADER_LENGTH + renderer.len();
    assert(input.subrange(SIGNAL_HEADER_LENGTH as int, renderer_end as int) =~= renderer);
    assert(input.subrange(renderer_end as int, input.len() as int) =~= peer);
}

/// What an endpoint attaches, as its envelope says it.
pub struct EndpointPlan {
    /// Channel policy.
    pub configuration: ChannelConfiguration,
    /// Region that the endpoint produces into.
    pub outbound: IoSurfaceDescriptor,
    /// Region that the endpoint consumes from.
    pub inbound: IoSurfaceDescriptor,
    /// What is expected of the outbound region.
    pub outbound_expectation: RegionExpectation,
    /// What is expected of the inbound region.
    pub inbound_expectation: RegionExpectation,
    /// Encoded signal descriptor of the outbound direction.
    pub outbound_signal: Vec<u8>,
    /// Encoded signal descriptor of the inbound direction.
    pub inbound_signal: Vec<u8>,
}

/// Why an endpoint cannot be planned, if it cannot.
pub open spec fn plan_rejection(envelope: EnvelopeView, role: EndpointRole) -> Option<ErrorReport> {
    if envelope.role != role || !(envelope.memory.provider is IoSurface) || !(
    envelope.signal.provider is DarwinNotify || envelope.signal.provider is Hybrid) {
        Some(platform_report(ErrorCode::ProtocolViolation, "attach macOS endpoint providers"))
    } else {
        match (
            memory_bundle_decoded(envelope.memory.bytes),
            signal_bundle_decoded(envelope.signal.bytes),
        ) {
            (Err(error), _) => Some(error),
            (Ok(_), Err(error)) => Some(error),
            (Ok(_), Ok(_)) => None,
        }
    }
}

/// What is expected of the region that an endpoint owns.
pub open spec fn region_expected(envelope: EnvelopeView, owner: OwnerRole) -> RegionExpectation {
    RegionExpectation { session_id: envelope.session_id, generation: envelope.generation, owner }
}

/// Whether a plan attaches each direction to its side.
pub open spec fn plan_follows(
    plan: EndpointPlan,
    envelope: EnvelopeView,
    role: EndpointRole,
) -> bool {
    let bundle = memory_bundle_decoded(envelope.memory.bytes)->Ok_0;
    let signals = signal_bundle_decoded(envelope.signal.bytes)->Ok_0;
    &&& plan.configuration == bundle.configuration
    &&& match role {
        EndpointRole::Renderer => {
            &&& plan.outbound == bundle.renderer
            &&& plan.inbound == bundle.peer
            &&& plan.outbound_expectation == region_expected(envelope, OwnerRole::Renderer)
            &&& plan.inbound_expectation == region_expected(envelope, OwnerRole::Peer)
            &&& plan.outbound_signal@ == signals.0
            &&& plan.inbound_signal@ == signals.1
        },
        EndpointRole::Peer => {
            &&& plan.outbound == bundle.peer
            &&& plan.inbound == bundle.renderer
            &&& plan.outbound_expectation == region_expected(envelope, OwnerRole::Peer)
            &&& plan.inbound_expectation == region_expected(envelope, OwnerRole::Renderer)
            &&& plan.outbound_signal@ == signals.1
            &&& plan.inbound_signal@ == signals.0
        },
    }
}

/// Decides what an endpoint attaches.
///
/// Mismatched provider tags and malformed bundles are rejected.
pub fn plan_endpoint(envelope: &BootstrapEnvelope, role: EndpointRole) -> (planned: Result<
    EndpointPlan,
    ErrorReport,
>)
    ensures
        match planned {
            Ok(plan) => plan_rejection(envelope@, role) is None && plan_follows(
                plan,
                envelope@,
                role,
            ),
            Err(error) => plan_rejection(envelope@, role) == Some(error),
        },
{
    let signal_is_native = match envelope.signal().provider() {
        ProviderKind::DarwinNotify => true,
        ProviderKind::Hybrid => true,
        _ => false,
    };
    if envelope.role() != role || envelope.memory().provider() != ProviderKind::IoSurface
        || !signal_is_native {
        return Err(
            platform_error(ErrorCode::ProtocolViolation, "attach macOS endpoint providers"),
        );
    }
    let bundle = decode_memory(envelope.memory().bytes())?;
    let (renderer_signal, peer_signal) = decode_signals(envelope.signal().bytes())?;
    let renderer_expectation = RegionExpectation {
        session_id: envelope.session_id(),
        generation: envelope.generation(),
        owner: OwnerRole::Renderer,
    };
    let peer_expectation = RegionExpectation {
        session_id: envelope.session_id(),
        generation: envelope.generation(),
        owner: OwnerRole::Peer,
    };
    let plan = match role {
        EndpointRole::Renderer => EndpointPlan {
            configuration: bundle.configuration,
            outbound: bundle.renderer,
            inbound: bundle.peer,
            outbound_expectation: renderer_expectation,
            inbound_expectation: peer_expectation,
            outbound_signal: renderer_signal,
            inbound_signal: peer_signal,
        },
        EndpointRole::Peer => EndpointPlan {
            configuration: bundle.configuration,
            outbound: bundle.peer,
            inbound: bundle.renderer,
            outbound_expectation: peer_expectation,
            inbound_expectation: renderer_expectation,
            outbound_signal: peer_signal,
            inbound_signal: renderer_signal,
        },
    };
    Ok(plan)
}

/// What one endpoint sends on, the other one receives on.
pub proof fn law_endpoints_face_each_other(
    renderer: EndpointPlan,
    peer: EndpointPlan,
    renderer_envelope: EnvelopeView,
    peer_envelope: EnvelopeView,
)
    requires
        plan_follows(renderer, renderer_envelope, EndpointRole::Renderer),
        plan_follows(peer, peer_envelope, EndpointRole::Peer),
        renderer_envelope.memory == peer_envelope.memory,
        renderer_envelope.signal == peer_envelope.signal,
        renderer_envelope.session_id == peer_envelope.session_id,
        renderer_envelope.generation == peer_envelope.generation,
    ensures
        renderer.outbound == peer.inbound,
        renderer.inbound == peer.outbound,
        renderer.outbound_expectation == peer.inbound_expectation,
        renderer.inbound_expectation == peer.outbound_expectation,
        renderer.outbound_signal@ == peer.inbound_signal@,
        renderer.inbound_signal@ == peer.outbound_signal@,
        renderer.configuration == peer.configuration,
{
}

/// Darwin-notification transformations used by the signed process fault matrix.
#[derive(Clone, Copy, Debug, PartialEq, Eq, Structural)]
pub enum NotificationFault {
    /// Post notifications normally.
    Immediate,
    /// Suppress every renderer-to-peer notification.
    Dropped,
    /// Post every renderer-to-peer notification twice.
    Duplicate,
    /// Post every renderer-to-peer notification after the correctness-poll interval.
    Delayed,
}

/// Writer process termination point used by the signed process crash matrix.
#[derive(Clone, Copy, Debug, PartialEq, Eq, Structural)]
pub enum WriterCrashPoint {
    /// Do not terminate the writer.
    Never,
    /// Terminate after bytes are written but before cursor publication.
    BeforeCommit,
    /// Terminate after cursor publication but before notification.
    AfterCommit,
}

/// Test-only production transport fault selection.
#[derive(Clone, Copy, Debug, PartialEq, Eq, Structural)]
pub struct FaultInjection {
    /// Notification transformation applied to renderer-to-peer hints.
    pub notification: NotificationFault,
    /// Writer termination point applied to the first application send.
    pub writer_crash: WriterCrashPoint,
}

impl Default for FaultInjection {
    fn default() -> (faults: Self)
        ensures
            faults.notification is Immediate,
            faults.writer_crash is Never,
    {
        FaultInjection {
            notification: NotificationFault::Immediate,
            writer_crash: WriterCrashPoint::Never,
        }
    }
}

/// Adapter for the production renderer endpoint contract.
#[derive(Clone, Copy, Debug, PartialEq, Eq, Structural)]
pub struct MacosRendererTransportFactory {
    /// Faults of the transports that it makes.
    pub faults: FaultInjection,
}

impl Default for MacosRendererTransportFactory {
    fn default() -> (factory: Self)
        ensures
            factory.faults.notification is Immediate,
            factory.faults.writer_crash is Never,
    {
        MacosRendererTransportFactory { faults: FaultInjection::default() }
    }
}

impl MacosRendererTransportFactory {
    /// Creates a factory for the signed process fault matrix.
    pub fn with_fault_injection(faults: FaultInjection) -> (factory: Self)
        ensures
            factory.faults == faults,
    {
        MacosRendererTransportFactory { faults }
    }
}

/// What is posted for one notification.
#[derive(Clone, Copy, Debug, PartialEq, Eq, Structural)]
pub struct NotificationPosts {
    /// Posts that are made at once.
    pub immediate: u8,
    /// Posts that are made after the correctness-poll interval.
    pub delayed: u8,
}

impl NotificationFault {
    /// What is posted for one notification under the fault.
    pub fn posts(self) -> (posts: NotificationPosts)
        ensures
            posts == match self {
                NotificationFault::Immediate => NotificationPosts { immediate: 1, delayed: 0 },
                NotificationFault::Dropped => NotificationPosts { immediate: 0, delayed: 0 },
                NotificationFault::Duplicate => NotificationPosts { immediate: 2, delayed: 0 },
                NotificationFault::Delayed => NotificationPosts { immediate: 0, delayed: 1 },
            },
    {
        match self {
            NotificationFault::Immediate => NotificationPosts { immediate: 1, delayed: 0 },
            NotificationFault::Dropped => NotificationPosts { immediate: 0, delayed: 0 },
            NotificationFault::Duplicate => NotificationPosts { immediate: 2, delayed: 0 },
            NotificationFault::Delayed => NotificationPosts { immediate: 0, delayed: 1 },
        }
    }
}

/// A configuration is accepted as it stands exactly where its region can be counted, its records
/// hold something, its messages at least as much, and its watermarks lie apart below its capacity.
pub proof fn law_accepted_configurations_leave_room(
    configuration: ChannelConfiguration,
    validated: Result<ChannelConfiguration, ErrorReport>,
    length: Result<usize, ErrorReport>,
)
    requires
        call_ensures(ChannelConfiguration::validate, (configuration,), validated),
        call_ensures(ChannelConfiguration::total_length, (configuration,), length),
    ensures
        validated is Ok <==> {
            &&& 256 + configuration.capacity <= usize::MAX
            &&& configuration.low_watermark < configuration.high_watermark
            &&& configuration.high_watermark < configuration.capacity
            &&& 0 < configuration.maximum_inline_message
            &&& configuration.maximum_inline_message <= configuration.maximum_message
            &&& configuration.maximum_message < u32::MAX
        },
        validated matches Ok(kept) ==> kept == configuration,
        validated matches Err(error) ==> error.code is InvalidRange,
        length matches Ok(total) ==> total == 256 + configuration.capacity,
        validated is Ok ==> length is Ok,
{
}

/// A platform failure keeps its code, and exactly backpressure is worth another attempt.
pub proof fn law_only_backpressure_is_tried_again(code: ErrorCode, operation: &'static str)
    ensures
        platform_report(code, operation).code == code,
        platform_report(code, operation).recoverability is Retryable <==> code is Backpressured,
        platform_report(code, operation).recoverability is ReplaceEndpoint <==> !(
        code is Backpressured),
        platform_report(code, operation).category is Closed <==> code is Closed,
        platform_report(code, operation).category is Timeout <==> code is Timeout,
        platform_report(code, operation).category is Resource <==> code is Backpressured
            || code is MessageTooLarge,
{
}

/// A channel has room for every message of its configuration with its kind and its protection, and
/// all the capabilities that production promises.
pub proof fn law_channels_have_room_for_protection(
    configuration: ChannelConfiguration,
    protocol: Result<NegotiatedProtocol, ErrorReport>,
    bit: u64,
)
    requires
        call_ensures(negotiated, (configuration,), protocol),
    ensures
        protocol is Ok <==> configuration.maximum_message + 25 <= u32::MAX,
        protocol matches Ok(selected) ==> {
            &&& selected.maximum_message == configuration.maximum_message + 1 + FRAME_OVERHEAD
            &&& selected.version.major == 1 && selected.version.minor == 0
            &&& bit == SHARED_MEMORY_DATA_PLANE || bit == BINARY_MESSAGES || bit
                == BOUNDED_BACKPRESSURE || bit == DIRECT_SIGNAL || bit == AUTHENTICATED_ENCRYPTION
                || bit == FRAGMENTATION ==> selected.capabilities.set.bits & bit == bit
        },
{
    assert((bit == 0x1u64 || bit == 0x2 || bit == 0x4 || bit == 0x8 || bit == 0x20 || bit == 0x100)
        ==> (0x1u64 | 0x2 | 0x4 | 0x8 | 0x20 | 0x100) & bit == bit) by (bit_vector);
}

/// An endpoint is planned only from an envelope of its own role with production providers, and then
/// produces into the region of its own side and consumes from that of the other one.
pub proof fn law_endpoints_keep_to_their_side(
    envelope: EnvelopeView,
    role: EndpointRole,
    plan: EndpointPlan,
)
    requires
        plan_rejection(envelope, role) is None,
        plan_follows(plan, envelope, role),
    ensures
        envelope.role == role,
        envelope.memory.provider is IoSurface,
        envelope.signal.provider is DarwinNotify || envelope.signal.provider is Hybrid,
        plan.outbound_expectation.owner is Renderer <==> role is Renderer,
        plan.inbound_expectation.owner is Peer <==> role is Renderer,
        plan.outbound_expectation.owner != plan.inbound_expectation.owner,
        plan.outbound_expectation.session_id == envelope.session_id,
        plan.inbound_expectation.session_id == envelope.session_id,
        plan.outbound_expectation.generation == envelope.generation,
        plan.inbound_expectation.generation == envelope.generation,
        configuration_rejection(plan.configuration) is None,
{
}

/// A failure of the platform keeps its code; what is closed, late, out of resources or against the
/// protocol is told apart from a wrong configuration.
pub proof fn law_platform_failures_have_their_class(code: ErrorCode, operation: &'static str)
    ensures
        platform_report(code, operation).code == code,
        platform_report(code, operation).context == operation,
        platform_report(code, operation).category is Closed <==> code is Closed,
        platform_report(code, operation).category is Timeout <==> code is Timeout,
        platform_report(code, operation).category is Resource
            <==> code is MessageTooLarge || code is Backpressured,
        platform_report(code, operation).category is Protocol
            <==> code is ProtocolViolation || code is LayoutVersionMismatch
            || code is RequiredCapabilityMissing,
        platform_report(code, operation).category is Closed
            || platform_report(code, operation).category is Timeout
            || platform_report(code, operation).category is Resource
            || platform_report(code, operation).category is Protocol
            || platform_report(code, operation).category is Configuration,
{
}

/// A configuration, a message limit or a bundle is refused by what is wrong with it.
pub proof fn law_refused_configurations_are_told_apart(
    configuration: ChannelConfiguration,
    input: Seq<u8>,
)
    ensures
        configuration_rejection(configuration) matches Some(error) ==> error.code is InvalidRange
            && error.category is Configuration,
        channel_protocol(configuration) matches Err(error) ==> error.code is InvalidRange,
        input.len() != MEMORY_BUNDLE_LENGTH ==> (memory_bundle_decoded(input) matches Err(error)
            && error.code is Truncated),
        signal_bundle_decoded(input) matches Err(error) ==> error.code is Truncated,
        signal_bundle_decoded(input) matches Ok(pair) ==> pair.0.len() + pair.1.len()
            + SIGNAL_HEADER_LENGTH == input.len() && pair.0 + pair.1 == input.skip(
            SIGNAL_HEADER_LENGTH as int,
        ),
{
    crate::domain::bytes::lemma_le_value_bound(input.subrange(4, 6));
    crate::domain::bytes::lemma_le_value_bound(input.subrange(6, 8));
    if let Ok(pair) = signal_bundle_decoded(input) {
        assert(pair.0 + pair.1 =~= input.skip(SIGNAL_HEADER_LENGTH as int));
    }
}

/// Providers that do not suit the platform, or an envelope for the other role, are against the
/// protocol.
pub proof fn law_plans_are_for_their_role(envelope: EnvelopeView, role: EndpointRole)
    ensures
        plan_rejection(envelope, role) is None ==> envelope.role == role
            && envelope.memory.provider is IoSurface && !(envelope.signal.provider is IoSurface)
            && !(envelope.signal.provider is ProcessTest),
        envelope.role != role ==> (plan_rejection(envelope, role) matches Some(error)
            && error.code is ProtocolViolation),
{
}

} // verus!
