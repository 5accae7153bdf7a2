//! Host-prepared regions of one generation, and their attachment by either endpoint.

use vstd::prelude::*;
use vstd::slice::slice_to_vec;

use crate::bootstrap::schema::{
    descriptor_report, valid_descriptor, BootstrapEnvelope, EndpointRole, OpaqueDescriptor,
    ProviderKind,
};
use crate::data_plane::channel::ChannelConfig;
use crate::data_plane::channel_transport::{
    attach_mapped_endpoint, attachment_allows, attachment_failed, initialize_region,
    ChannelTransport, SignalSender, WakeSource,
};
use crate::data_plane::crypto::{configuration_report, MINIMUM_SECRET_LENGTH};
use crate::data_plane::mapped_ring::{MappedConsumer, MappedProducer};
use crate::data_plane::region_layout::{
    layout_report, region_header, valid_region, OwnerRole, RegionLayout, REGION_HEADER_SIZE,
};
use crate::domain::error::{ErrorCode, ErrorReport};
use crate::domain::types::{Generation, SessionId};
use crate::macos::configuration::{
    channel_protocol, configuration_rejection, encode_memory, encode_signals, memory_bundle_bytes,
    negotiated, platform_report, signal_bundle_bytes, ChannelConfiguration, EndpointPlan,
    MemoryBundle,
};
use crate::macos::transport::{
    fresh_direction, protect_channel, protecting_role, ProtectedChannel,
};
use crate::memory::api::{MappedRegion, RegionStore, SharedMemoryProvider};
use crate::memory::iosurface::IoSurfaceDescriptor;
use crate::protocol::NegotiatedProtocol;

verus! {

/// Host-owned mappings and transferable descriptor bundles for one generation.
pub struct PreparedMacosTransport<Mapping> {
    /// Region that the renderer produces into.
    pub renderer_to_peer: Mapping,
    /// Region that the peer produces into.
    pub peer_to_renderer: Mapping,
    /// Encoded memory bundle.
    pub memory: Vec<u8>,
    /// Encoded signal bundle.
    pub signal: Vec<u8>,
}

/// The layout of a region of a configuration.
pub open spec fn region_of(
    session_id: SessionId,
    generation: Generation,
    owner: OwnerRole,
    configuration: ChannelConfiguration,
) -> RegionLayout {
    RegionLayout {
        session_id,
        generation,
        owner,
        capacity: configuration.capacity,
        maximum_inline_message: configuration.maximum_inline_message,
    }
}

/// Whether a fresh region was initialized with a layout, and nothing else was done to it.
pub open spec fn region_initialized<Mapping: MappedRegion>(
    mapping: Mapping,
    layout: RegionLayout,
) -> bool {
    mapping.stores() == seq![RegionStore::Bytes(0, region_header(layout))]
}

/// Whether bytes bundle a configuration with two descriptors of its length and generation.
pub open spec fn bundles(
    memory: Seq<u8>,
    configuration: ChannelConfiguration,
    generation: Generation,
) -> bool {
    exists|renderer: IoSurfaceDescriptor, peer: IoSurfaceDescriptor|
        {
            &&& memory == #[trigger] memory_bundle_bytes(
                MemoryBundle { configuration, renderer, peer },
            )
            &&& renderer.byte_len == REGION_HEADER_SIZE + configuration.capacity
            &&& peer.byte_len == REGION_HEADER_SIZE + configuration.capacity
            &&& renderer.generation == generation
            &&& peer.generation == generation
        }
}

/// Whether a provider may give these two regions.
pub open spec fn regions_created<
    Provider: SharedMemoryProvider<Descriptor = IoSurfaceDescriptor>,
>(
    provider: Provider,
    configuration: ChannelConfiguration,
    generation: Generation,
    renderer: (Provider::Mapping, IoSurfaceDescriptor),
    peer: (Provider::Mapping, IoSurfaceDescriptor),
) -> bool {
    let length = (REGION_HEADER_SIZE + configuration.capacity) as usize;
    &&& provider.creates(length, generation, Ok(renderer))
    &&& provider.creates(length, generation, Ok(peer))
}

/// Whether initializing two regions, the renderer's first, may turn out so.
pub open spec fn headers_written<Mapping: MappedRegion>(
    renderer: Mapping,
    peer: Mapping,
    session_id: SessionId,
    generation: Generation,
    configuration: ChannelConfiguration,
    outcome: Result<(), ErrorReport>,
) -> bool {
    let first = region_header(
        region_of(session_id, generation, OwnerRole::Renderer, configuration),
    );
    let second = region_header(region_of(session_id, generation, OwnerRole::Peer, configuration));
    ||| outcome is Err && renderer.writes(0, first, outcome)
    ||| renderer.writes(0, first, Ok(())) && peer.writes(0, second, outcome)
}

/// Whether preparing the regions of a generation may give this memory bundle, of the descriptors of
/// these two regions.
pub open spec fn regions_prepared<
    Provider: SharedMemoryProvider<Descriptor = IoSurfaceDescriptor>,
>(
    provider: Provider,
    session_id: SessionId,
    generation: Generation,
    configuration: ChannelConfiguration,
    memory: Seq<u8>,
    renderer_region: int,
    peer_region: int,
) -> bool {
    &&& configuration_rejection(configuration) is None
    &&& valid_region(configuration.capacity as int, configuration.maximum_inline_message)
    &&& exists|
        renderer: (Provider::Mapping, IoSurfaceDescriptor),
        peer: (Provider::Mapping, IoSurfaceDescriptor),
    |
        {
            &&& #[trigger] regions_created(provider, configuration, generation, renderer, peer)
            &&& headers_written(
                renderer.0,
                peer.0,
                session_id,
                generation,
                configuration,
                Ok(()),
            )
            &&& memory == memory_bundle_bytes(
                MemoryBundle { configuration, renderer: renderer.1, peer: peer.1 },
            )
            &&& renderer_region == renderer.0.identity()
            &&& peer_region == peer.0.identity()
        }
}

/// Whether preparing the regions of a generation may fail so.
pub open spec fn regions_failed<
    Provider: SharedMemoryProvider<Descriptor = IoSurfaceDescriptor>,
>(
    provider: Provider,
    session_id: SessionId,
    generation: Generation,
    configuration: ChannelConfiguration,
    error: ErrorReport,
) -> bool {
    match configuration_rejection(configuration) {
        Some(found) => error == found,
        None => {
            ||| provider.creates(
                (REGION_HEADER_SIZE + configuration.capacity) as usize,
                generation,
                Err(error),
            )
            ||| exists|
                renderer: (Provider::Mapping, IoSurfaceDescriptor),
                peer: (Provider::Mapping, IoSurfaceDescriptor),
            |
                {
                    &&& #[trigger] regions_created(
                        provider,
                        configuration,
                        generation,
                        renderer,
                        peer,
                    )
                    &&& if valid_region(
                        configuration.capacity as int,
                        configuration.maximum_inline_message,
                    ) {
                        headers_written(
                            renderer.0,
                            peer.0,
                            session_id,
                            generation,
                            configuration,
                            Err(error),
                        )
                    } else {
                        error == layout_report(ErrorCode::InvalidRange, "describe region")
                    }
                }
        },
    }
}

/// Whether encoded signal descriptors fit into a bundle.
pub open spec fn signals_fit(renderer_signal: Seq<u8>, peer_signal: Seq<u8>) -> bool {
    renderer_signal.len() <= u16::MAX && peer_signal.len() <= u16::MAX
}

/// Whether preparing a transport may fail so.
pub open spec fn preparation_failed<
    Provider: SharedMemoryProvider<Descriptor = IoSurfaceDescriptor>,
>(
    provider: Provider,
    session_id: SessionId,
    generation: Generation,
    configuration: ChannelConfiguration,
    renderer_signal: Seq<u8>,
    peer_signal: Seq<u8>,
    error: ErrorReport,
) -> bool {
    ||| regions_failed(provider, session_id, generation, configuration, error)
    ||| {
        &&& exists|memory: Seq<u8>, renderer: int, peer: int| #[trigger]
            regions_prepared(
                provider,
                session_id,
                generation,
                configuration,
                memory,
                renderer,
                peer,
            )
        &&& !signals_fit(renderer_signal, peer_signal)
        &&& error == platform_report(ErrorCode::InvalidRange, "encode macOS signal bundle")
    }
}

impl<Mapping: MappedRegion> PreparedMacosTransport<Mapping> {
    /// Creates and initializes both unidirectional regions, and bundles their descriptors with
    /// the encoded signal descriptors of both directions.
    ///
    /// Invalid configurations are rejected, and platform allocation and layout validation failures
    /// are passed on.
    pub fn prepare<
        Provider: SharedMemoryProvider<Mapping = Mapping, Descriptor = IoSurfaceDescriptor>,
    >(
        provider: &Provider,
        session_id: SessionId,
        generation: Generation,
        configuration: ChannelConfiguration,
        renderer_signal: &[u8],
        peer_signal: &[u8],
    ) -> (prepared: Result<Self, ErrorReport>)
        ensures
            match prepared {
                Ok(found) => {
                    &&& regions_prepared(
                        *provider,
                        session_id,
                        generation,
                        configuration,
                        found.memory@,
                        found.renderer_to_peer.identity(),
                        found.peer_to_renderer.identity(),
                    )
                    &&& region_initialized(
                        found.renderer_to_peer,
                        region_of(session_id, generation, OwnerRole::Renderer, configuration),
                    )
                    &&& region_initialized(
                        found.peer_to_renderer,
                        region_of(session_id, generation, OwnerRole::Peer, configuration),
                    )
                    &&& bundles(found.memory@, configuration, generation)
                    &&& signals_fit(renderer_signal@, peer_signal@)
                    &&& found.signal@ == signal_bundle_bytes(renderer_signal@, peer_signal@)
                },
                Err(error) => preparation_failed(
                    *provider,
                    session_id,
                    generation,
                    configuration,
                    renderer_signal@,
                    peer_signal@,
                    error,
                ),
            },
    {
        let configuration = configuration.validate()?;
        let total_length: usize = configuration.total_length()?;
        let (mut renderer_to_peer, renderer_descriptor) = provider.create(
            total_length,
            generation,
        )?;
        let (mut peer_to_renderer, peer_descriptor) = provider.create(total_length, generation)?;
        let ghost renderer = (renderer_to_peer, renderer_descriptor);
        let ghost peer = (peer_to_renderer, peer_descriptor);
        assert(regions_created(*provider, configuration, generation, renderer, peer));
        let renderer_layout = RegionLayout::new(
            session_id,
            generation,
            OwnerRole::Renderer,
            total_length as u64,
            configuration.maximum_inline_message,
        )?;
        initialize_region(&mut renderer_to_peer, renderer_layout)?;
        let peer_layout = RegionLayout::new(
            session_id,
            generation,
            OwnerRole::Peer,
            total_length as u64,
            configuration.maximum_inline_message,
        )?;
        initialize_region(&mut peer_to_renderer, peer_layout)?;
        let memory = encode_memory(configuration, &renderer_descriptor, &peer_descriptor)?;
        assert(regions_prepared(
            *provider,
            session_id,
            generation,
            configuration,
            memory@,
            renderer_to_peer.identity(),
            peer_to_renderer.identity(),
        ));
        let signal = encode_signals(renderer_signal, peer_signal)?;
        proof {
            assert(renderer_to_peer.stores() =~= seq![
                RegionStore::Bytes(0, region_header(renderer_layout)),
            ]);
            assert(peer_to_renderer.stores() =~= seq![
                RegionStore::Bytes(0, region_header(peer_layout)),
            ]);
            assert(bundles(memory@, configuration, generation));
        }
        Ok(PreparedMacosTransport { renderer_to_peer, peer_to_renderer, memory, signal })
    }
}

impl<Mapping> PreparedMacosTransport<Mapping> {
    /// Provider-tagged memory descriptor bundle for bootstrap.
    ///
    /// A schema range error is returned if the encoded provider payload is unsupported.
    pub fn memory_descriptor(&self) -> (descriptor: Result<OpaqueDescriptor, ErrorReport>)
        ensures
            match descriptor {
                Ok(found) => valid_descriptor(self.memory@) && found@.provider is IoSurface
                    && found@.bytes == self.memory@,
                Err(error) => !valid_descriptor(self.memory@) && error == descriptor_report(),
            },
    {
        OpaqueDescriptor::new(ProviderKind::IoSurface, slice_to_vec(self.memory.as_slice()))
    }

    /// Provider-tagged hybrid signal descriptor bundle for bootstrap.
    ///
    /// A schema range error is returned if the encoded provider payload is unsupported.
    pub fn signal_descriptor(&self) -> (descriptor: Result<OpaqueDescriptor, ErrorReport>)
        ensures
            match descriptor {
                Ok(found) => valid_descriptor(self.signal@) && found@.provider is Hybrid
                    && found@.bytes == self.signal@,
                Err(error) => !valid_descriptor(self.signal@) && error == descriptor_report(),
            },
    {
        OpaqueDescriptor::new(ProviderKind::Hybrid, slice_to_vec(self.signal.as_slice()))
    }

    /// Count of owner mappings that are kept live without exposing their native identities.
    pub fn mapping_count(&self) -> (count: usize)
        ensures
            count == 2,
    {
        2
    }
}

/// Whether attaching the regions of a plan may give a channel with these limits.
pub open spec fn plan_allows<Outbound: MappedRegion, Inbound: MappedRegion>(
    plan: EndpointPlan,
    outbound: Outbound,
    inbound: Inbound,
    protocol: NegotiatedProtocol,
    config: ChannelConfig,
) -> bool {
    attachment_allows(
        outbound,
        inbound,
        plan.outbound_expectation,
        plan.inbound_expectation,
        protocol,
        plan.configuration.low_watermark,
        plan.configuration.high_watermark,
        config,
    )
}

/// Attaches the regions and signals of an endpoint plan.
///
/// Malformed layouts, stale identities, invalid limits and unusable secrets are rejected.
pub fn attach_endpoint<
    Outbound: MappedRegion,
    Inbound: MappedRegion,
    Sender: SignalSender,
    Wake: WakeSource,
>(
    plan: &EndpointPlan,
    envelope: &BootstrapEnvelope,
    role: EndpointRole,
    outbound: Outbound,
    inbound: Inbound,
    outbound_sender: Sender,
    outbound_wake: Wake,
    inbound_sender: Sender,
    inbound_wake: Wake,
) -> (attached: Result<
    ProtectedChannel<MappedProducer<Outbound>, MappedConsumer<Inbound>, Sender, Wake>,
    ErrorReport,
>)
    ensures
        match channel_protocol(plan.configuration) {
            Err(error) => attached is Err && attached->Err_0 == error,
            Ok(protocol) => match attached {
                Ok(channel) => {
                    &&& channel.wf()
                    &&& exists|config: ChannelConfig|
                        {
                            &&& #[trigger] plan_allows(*plan, outbound, inbound, protocol, config)
                            &&& channel.channel.channel.is_fresh(config)
                        }
                    &&& channel.high_watermark == plan.configuration.high_watermark
                    &&& channel.channel.channel.writer.memory.mapping() == outbound
                    &&& channel.channel.channel.reader.memory.mapping() == inbound
                    &&& channel.channel.outbound_sender == outbound_sender
                    &&& channel.channel.outbound_wake == outbound_wake
                    &&& channel.channel.inbound_sender == inbound_sender
                    &&& channel.channel.inbound_wake == inbound_wake
                    &&& channel.protection.outbound@ == fresh_direction(
                        envelope@,
                        protecting_role(role).sends(),
                    )
                    &&& channel.protection.inbound@ == fresh_direction(
                        envelope@,
                        protecting_role(role).receives(),
                    )
                    &&& envelope@.secret.len() >= MINIMUM_SECRET_LENGTH
                    &&& channel.pending_inbound@.len() == 0
                    &&& !channel.remote_closed
                },
                Err(error) => {
                    ||| attachment_failed(
                        outbound,
                        inbound,
                        plan.outbound_expectation,
                        plan.inbound_expectation,
                        protocol,
                        plan.configuration.low_watermark,
                        plan.configuration.high_watermark,
                        error,
                    )
                    ||| {
                        &&& exists|config: ChannelConfig| #[trigger]
                            plan_allows(*plan, outbound, inbound, protocol, config)
                        &&& envelope@.secret.len() < MINIMUM_SECRET_LENGTH
                        &&& error == configuration_report("frame protection secret length")
                    }
                },
            },
        },
{
    let protocol = negotiated(plan.configuration)?;
    let endpoint = attach_mapped_endpoint(
        outbound,
        inbound,
        plan.outbound_expectation,
        plan.inbound_expectation,
        protocol,
        plan.configuration.low_watermark,
        plan.configuration.high_watermark,
    )?;
    proof {
        let config = choose|config: ChannelConfig|
            {
                &&& #[trigger] attachment_allows(
                    outbound,
                    inbound,
                    plan.outbound_expectation,
                    plan.inbound_expectation,
                    protocol,
                    plan.configuration.low_watermark,
                    plan.configuration.high_watermark,
                    config,
                )
                &&& endpoint.is_fresh(config)
            };
        assert(plan_allows(*plan, outbound, inbound, protocol, config));
    }
    let channel = ChannelTransport::new(
        endpoint,
        outbound_sender,
        outbound_wake,
        inbound_sender,
        inbound_wake,
    );
    protect_channel(channel, envelope, role, plan.configuration.high_watermark)
}

/// The two regions of a generation are of one session, one generation and one size, and each is
/// owned by its own side.
pub proof fn law_regions_are_of_one_generation(
    session_id: SessionId,
    generation: Generation,
    configuration: ChannelConfiguration,
    owner: OwnerRole,
    other: OwnerRole,
)
    ensures
        ({
            let one = region_of(session_id, generation, owner, configuration);
            let another = region_of(session_id, generation, other, configuration);
            &&& one.owner == owner
            &&& one == another <==> owner == other
            &&& one.session_id == session_id && one.generation == generation
            &&& one.capacity == configuration.capacity
            &&& one.maximum_inline_message == configuration.maximum_inline_message
            &&& another == RegionLayout { owner: other, ..one }
        }),
{
}

} // verus!
