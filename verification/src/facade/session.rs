//! Public session handles and the material that they hand over once.

use vstd::prelude::*;
use vstd::slice::slice_to_vec;
use vstd::utf8::encode_utf8;

use crate::bootstrap::codec::{decoded, encode, encoded, law_decoding_undoes_encoding, sendable};
use crate::bootstrap::peer::{
    consumed, framed, io_error, law_consuming_undoes_writing, pipe_code, transfer_report,
    write_envelope, PipeFailure,
};
use crate::bootstrap::schema::{
    bounds_of_protocol_range, consumer_rejection, descriptor_report, envelope_of,
    envelope_rejection, protocol_range_of_bounds, protocols_report, valid_descriptor,
    valid_protocols, BootstrapEnvelope, BootstrapSecret, DescriptorView, EndpointRole, EnvelopeView,
    OpaqueDescriptor, ProtocolRange, ProviderKind,
};
use crate::data_plane::region_layout::OwnerRole;
use crate::domain::bytes::{le_bytes, lemma_le_limits, lemma_le_round_trip, push_bytes};
use crate::domain::error::{ErrorCode, ErrorReport};
use crate::domain::text::{
    decimal, decimal_digits, encode_hex, hex_text, law_decimal_round_trip, law_hex_round_trip,
    lemma_hex_text, lemma_plain_bytes,
};
use crate::domain::types::{group_identities, Generation, SessionId};
use crate::facade::configuration::{channel_of, facade_error, facade_report, Configuration};
use crate::facade::record::{FacadeRecord, SessionHandle};
use crate::macos::configuration::signal_bundle_bytes;
use crate::macos::prepared::{
    bundles, preparation_failed, region_initialized, region_of, regions_prepared, signals_fit,
    PreparedMacosTransport,
};
use crate::memory::api::{MappedRegion, SharedMemoryProvider};
use crate::memory::iosurface::IoSurfaceDescriptor;
use crate::observability::diagnostics::{FailureStage, MemoryBackend, SignalBackend};
use crate::peer::facade::expectation_in;
use crate::peer::port::PeerExpectation;

verus! {

/// Bytes of a bootstrap secret.
pub const SECRET_LENGTH: usize = 32;

/// Envelopes of both endpoints of one generation.
pub struct BootstrapPair {
    /// Envelope of the native peer.
    pub peer: BootstrapEnvelope,
    /// Envelope of the renderer.
    pub renderer: BootstrapEnvelope,
}

impl BootstrapPair {
    /// Binds both endpoints of a generation to one protocol version, the same descriptors and one
    /// secret.
    ///
    /// A zero protocol version is rejected. Without randomness `Internal` is returned.
    pub fn bind(
        handle: SessionHandle,
        protocol: u16,
        memory: &OpaqueDescriptor,
        signal: &OpaqueDescriptor,
        randomness: Option<[u8; 32]>,
    ) -> (bound: Result<Self, ErrorReport>)
        ensures
            match (randomness, bound) {
                (None, Err(error)) => error == facade_report(
                    ErrorCode::Internal,
                    "bootstrap randomness",
                ),
                (None, Ok(_)) => false,
                (Some(secret), Ok(pair)) => {
                    &&& valid_protocols(protocol, protocol)
                    &&& pair.peer@ == envelope_of(
                        handle.session_id,
                        handle.generation,
                        ProtocolRange::of(protocol, protocol),
                        EndpointRole::Peer,
                        memory@,
                        signal@,
                        secret@,
                    )
                    &&& pair.renderer@ == envelope_of(
                        handle.session_id,
                        handle.generation,
                        ProtocolRange::of(protocol, protocol),
                        EndpointRole::Renderer,
                        memory@,
                        signal@,
                        secret@,
                    )
                    &&& envelope_rejection(pair.peer@) is None
                    &&& envelope_rejection(pair.renderer@) is None
                },
                (Some(secret), Err(error)) => if !valid_protocols(protocol, protocol) {
                    error == protocols_report()
                } else {
                    envelope_rejection(
                        envelope_of(
                            handle.session_id,
                            handle.generation,
                            ProtocolRange::of(protocol, protocol),
                            EndpointRole::Peer,
                            memory@,
                            signal@,
                            secret@,
                        ),
                    ) == Some(error)
                },
            },
    {
        let secret: [u8; 32] = match randomness {
            None => {
                return Err(facade_error(ErrorCode::Internal, "bootstrap randomness"));
            },
            Some(bytes) => bytes,
        };
        let protocols = ProtocolRange::new(protocol, protocol)?;
        let peer = BootstrapEnvelope::new(
            handle.session_id,
            handle.generation,
            protocols,
            EndpointRole::Peer,
            memory.clone(),
            signal.clone(),
            BootstrapSecret::new(slice_to_vec(secret.as_slice()))?,
        )?;
        let renderer = BootstrapEnvelope::new(
            handle.session_id,
            handle.generation,
            protocols,
            EndpointRole::Renderer,
            memory.clone(),
            signal.clone(),
            BootstrapSecret::new(slice_to_vec(secret.as_slice()))?,
        )?;
        Ok(BootstrapPair { peer, renderer })
    }
}

/// The report of a preparation for other providers than the production ones.
pub open spec fn selection_report() -> ErrorReport {
    facade_report(ErrorCode::Unsupported, "public provider selection")
}

/// Providers that a session is prepared for.
#[derive(Clone, Copy, Debug, PartialEq, Eq, Structural)]
pub struct ProviderSelection {
    /// Shared memory.
    pub memory: MemoryBackend,
    /// Notifications.
    pub signal: SignalBackend,
}

impl ProviderSelection {
    /// Whether these are the production providers.
    pub open spec fn spec_is_production(self) -> bool {
        self.memory is Mach && self.signal is Mach
    }

    /// The production providers.
    pub fn production() -> (selection: Self)
        ensures
            selection.spec_is_production(),
    {
        ProviderSelection { memory: MemoryBackend::Mach, signal: SignalBackend::Mach }
    }
}

/// Prepares the resources and the bootstrap material of a generation.
pub struct MacosPreparer {
    /// Validated public limits.
    pub configuration: Configuration,
}

/// Whether a generation was prepared: both regions stand, and both envelopes carry their
/// descriptors and one secret.
pub open spec fn generation_prepared<Mapping: MappedRegion>(
    configuration: Configuration,
    handle: SessionHandle,
    secret: Seq<u8>,
    transport: PreparedMacosTransport<Mapping>,
    pair: BootstrapPair,
) -> bool {
    let channel = channel_of(configuration);
    let protocols = ProtocolRange::of(configuration.protocol, configuration.protocol);
    let memory = DescriptorView { provider: ProviderKind::IoSurface, bytes: transport.memory@ };
    let signal = DescriptorView { provider: ProviderKind::Hybrid, bytes: transport.signal@ };
    &&& region_initialized(
        transport.renderer_to_peer,
        region_of(handle.session_id, handle.generation, OwnerRole::Renderer, channel),
    )
    &&& region_initialized(
        transport.peer_to_renderer,
        region_of(handle.session_id, handle.generation, OwnerRole::Peer, channel),
    )
    &&& bundles(transport.memory@, channel, handle.generation)
    &&& pair.peer@ == envelope_of(
        handle.session_id,
        handle.generation,
        protocols,
        EndpointRole::Peer,
        memory,
        signal,
        secret,
    )
    &&& pair.renderer@ == envelope_of(
        handle.session_id,
        handle.generation,
        protocols,
        EndpointRole::Renderer,
        memory,
        signal,
        secret,
    )
}

/// Whether preparing a generation for the production providers may fail so.
pub open spec fn generation_failed<
    Provider: SharedMemoryProvider<Descriptor = IoSurfaceDescriptor>,
>(
    configuration: Configuration,
    handle: SessionHandle,
    provider: Provider,
    renderer_signal: Seq<u8>,
    peer_signal: Seq<u8>,
    randomness: Option<[u8; 32]>,
    error: ErrorReport,
) -> bool {
    let channel = channel_of(configuration);
    let signal = signal_bundle_bytes(renderer_signal, peer_signal);
    ||| preparation_failed(
        provider,
        handle.session_id,
        handle.generation,
        channel,
        renderer_signal,
        peer_signal,
        error,
    )
    ||| signals_fit(renderer_signal, peer_signal) && exists|
        memory: Seq<u8>,
        renderer: int,
        peer: int,
    | #[trigger]
        regions_prepared(
            provider,
            handle.session_id,
            handle.generation,
            channel,
            memory,
            renderer,
            peer,
        ) && binding_rejection(configuration.protocol, handle, memory, signal, randomness)
            == Some(error)
}

/// Why the envelopes of a generation cannot be made, if they cannot.
pub open spec fn binding_rejection(
    protocol: u16,
    handle: SessionHandle,
    memory: Seq<u8>,
    signal: Seq<u8>,
    randomness: Option<[u8; 32]>,
) -> Option<ErrorReport> {
    if !valid_descriptor(memory) || !valid_descriptor(signal) {
        Some(descriptor_report())
    } else {
        match randomness {
            None => Some(facade_report(ErrorCode::Internal, "bootstrap randomness")),
            Some(secret) => if !valid_protocols(protocol, protocol) {
                Some(protocols_report())
            } else {
                envelope_rejection(
                    envelope_of(
                        handle.session_id,
                        handle.generation,
                        ProtocolRange::of(protocol, protocol),
                        EndpointRole::Peer,
                        DescriptorView { provider: ProviderKind::IoSurface, bytes: memory },
                        DescriptorView { provider: ProviderKind::Hybrid, bytes: signal },
                        secret@,
                    ),
                )
            },
        }
    }
}

impl MacosPreparer {
    /// Creates both regions of a generation and the envelopes that lead its endpoints to them.
    ///
    /// Other providers than the production ones are `Unsupported`. Allocation, layout and schema
    /// failures are passed on, and without randomness `Internal` is returned.
    pub fn prepare<
        Mapping: MappedRegion,
        Provider: SharedMemoryProvider<Mapping = Mapping, Descriptor = IoSurfaceDescriptor>,
    >(
        &self,
        handle: SessionHandle,
        providers: ProviderSelection,
        provider: &Provider,
        renderer_signal: &[u8],
        peer_signal: &[u8],
        randomness: Option<[u8; 32]>,
    ) -> (prepared: Result<(PreparedMacosTransport<Mapping>, BootstrapPair), ErrorReport>)
        ensures
            match prepared {
                Ok((transport, pair)) => {
                    &&& providers.spec_is_production()
                    &&& randomness matches Some(secret) && generation_prepared(
                        self.configuration,
                        handle,
                        secret@,
                        transport,
                        pair,
                    )
                    &&& transport.signal@ == signal_bundle_bytes(renderer_signal@, peer_signal@)
                    &&& regions_prepared(
                        *provider,
                        handle.session_id,
                        handle.generation,
                        channel_of(self.configuration),
                        transport.memory@,
                        transport.renderer_to_peer.identity(),
                        transport.peer_to_renderer.identity(),
                    )
                },
                Err(error) => if !providers.spec_is_production() {
                    error == selection_report()
                } else {
                    generation_failed(
                        self.configuration,
                        handle,
                        *provider,
                        renderer_signal@,
                        peer_signal@,
                        randomness,
                        error,
                    )
                },
            },
    {
        if providers.memory != MemoryBackend::Mach || providers.signal != SignalBackend::Mach {
            return Err(facade_error(ErrorCode::Unsupported, "public provider selection"));
        }
        let transport = PreparedMacosTransport::prepare(
            provider,
            handle.session_id,
            handle.generation,
            self.configuration.channel_configuration(),
            renderer_signal,
            peer_signal,
        )?;
        assert(regions_prepared(
            *provider,
            handle.session_id,
            handle.generation,
            channel_of(self.configuration),
            transport.memory@,
            transport.renderer_to_peer.identity(),
            transport.peer_to_renderer.identity(),
        ));
        let memory = transport.memory_descriptor()?;
        let signal = transport.signal_descriptor()?;
        let pair = BootstrapPair::bind(
            handle,
            self.configuration.protocol,
            &memory,
            &signal,
            randomness,
        )?;
        Ok((transport, pair))
    }
}

/// Child-process launch values. No provider descriptor is exposed.
#[derive(Clone, Debug, PartialEq, Eq)]
pub struct PeerEnvironment {
    session_id: String,
    generation: String,
    protocol: String,
}

impl PeerEnvironment {
    /// Session identity in hexadecimal digits.
    pub closed spec fn spec_session_id(self) -> Seq<char> {
        self.session_id@
    }

    /// Generation in decimal digits.
    pub closed spec fn spec_generation(self) -> Seq<char> {
        self.generation@
    }

    /// Protocol version in decimal digits.
    pub closed spec fn spec_protocol(self) -> Seq<char> {
        self.protocol@
    }

    /// Writes the values of a generation.
    pub fn new(session_id: SessionId, generation: Generation, protocol: u16) -> (environment: Self)
        ensures
            environment.spec_session_id() == hex_text(le_bytes(session_id@ as nat, 16)),
            environment.spec_generation() == decimal_digits(generation@ as nat),
            environment.spec_protocol() == decimal_digits(protocol as nat),
    {
        PeerEnvironment {
            session_id: encode_hex(session_id.to_bytes().as_slice()),
            generation: decimal(generation.get()),
            protocol: decimal(protocol as u64),
        }
    }

    /// The stable environment variables, each with its value.
    pub fn variables(&self) -> (variables: Vec<(&'static str, &str)>)
        ensures
            variables@.len() == 3,
            variables@[0].0@ == "NWIPC_SESSION_ID"@,
            variables@[0].1@ == self.spec_session_id(),
            variables@[1].0@ == "NWIPC_GENERATION"@,
            variables@[1].1@ == self.spec_generation(),
            variables@[2].0@ == "NWIPC_PROTOCOL"@,
            variables@[2].1@ == self.spec_protocol(),
    {
        let mut variables: Vec<(&'static str, &str)> = Vec::new();
        variables.push(("NWIPC_SESSION_ID", self.session_id.as_str()));
        variables.push(("NWIPC_GENERATION", self.generation.as_str()));
        variables.push(("NWIPC_PROTOCOL", self.protocol.as_str()));
        variables
    }
}

/// The envelope that is left to hand over, if any is.
pub open spec fn envelope_left(envelope: Option<BootstrapEnvelope>) -> Option<EnvelopeView> {
    match envelope {
        Some(found) => Some(found@),
        None => None,
    }
}

/// Opaque public handle for one logical session generation.
pub struct Session {
    handle: SessionHandle,
    protocol: u16,
    peer_bootstrap: Option<BootstrapEnvelope>,
    renderer_bootstrap: Option<BootstrapEnvelope>,
}

impl Session {
    /// The generation that this is a handle of.
    pub closed spec fn spec_handle(self) -> SessionHandle {
        self.handle
    }

    /// The selected protocol version.
    pub closed spec fn spec_protocol(self) -> u16 {
        self.protocol
    }

    /// The peer envelope that was not handed over yet.
    pub closed spec fn peer_left(self) -> Option<EnvelopeView> {
        envelope_left(self.peer_bootstrap)
    }

    /// The renderer envelope that was not handed over yet.
    pub closed spec fn renderer_left(self) -> Option<EnvelopeView> {
        envelope_left(self.renderer_bootstrap)
    }

    pub(crate) fn prepared(
        handle: SessionHandle,
        protocol: u16,
        pair: BootstrapPair,
    ) -> (session: Self)
        ensures
            session.spec_handle() == handle,
            session.spec_protocol() == protocol,
            session.peer_left() == Some(pair.peer@),
            session.renderer_left() == Some(pair.renderer@),
    {
        Session {
            handle,
            protocol,
            peer_bootstrap: Some(pair.peer),
            renderer_bootstrap: Some(pair.renderer),
        }
    }

    pub(crate) fn handle(&self) -> (handle: SessionHandle)
        ensures
            handle == self.spec_handle(),
    {
        self.handle
    }

    /// Stable logical session identity.
    pub fn id(&self) -> (session_id: SessionId)
        ensures
            session_id == self.spec_handle().session_id,
    {
        self.handle.session_id
    }

    /// Active resource generation.
    pub fn generation(&self) -> (generation: Generation)
        ensures
            generation == self.spec_handle().generation,
    {
        self.handle.generation
    }

    /// Environment values required by the native peer.
    pub fn peer_environment(&self) -> (environment: PeerEnvironment)
        ensures
            environment.spec_session_id() == hex_text(
                le_bytes(self.spec_handle().session_id@ as nat, 16),
            ),
            environment.spec_generation() == decimal_digits(
                self.spec_handle().generation@ as nat,
            ),
            environment.spec_protocol() == decimal_digits(self.spec_protocol() as nat),
    {
        PeerEnvironment::new(self.id(), self.generation(), self.protocol)
    }

    /// Takes the renderer envelope out, so that it is handed over once.
    pub(crate) fn take_renderer_bootstrap(&mut self) -> (taken: Option<BootstrapEnvelope>)
        ensures
            envelope_left(taken) == old(self).renderer_left(),
            final(self).renderer_left() is None,
            final(self).peer_left() == old(self).peer_left(),
            final(self).spec_handle() == old(self).spec_handle(),
            final(self).spec_protocol() == old(self).spec_protocol(),
    {
        let mut taken: Option<BootstrapEnvelope> = None;
        std::mem::swap(&mut taken, &mut self.renderer_bootstrap);
        taken
    }

    /// Appends the one-shot inherited peer bootstrap to what goes into the pipe, and erases the
    /// local secret copy.
    ///
    /// The pipe carries bootstrap only; application payload never uses it. `Closed` is returned
    /// after consumption, and a typed schema error for an envelope that cannot be written.
    pub fn write_peer_bootstrap(
        &mut self,
        record: &mut FacadeRecord,
        output: &mut Vec<u8>,
    ) -> (written: Result<(), ErrorReport>)
        ensures
            final(record)@ == old(record)@.settled(
                old(self).spec_handle(),
                FailureStage::Bootstrap,
                written,
            ),
            final(self).peer_left() is None,
            final(self).renderer_left() == old(self).renderer_left(),
            final(self).spec_handle() == old(self).spec_handle(),
            final(self).spec_protocol() == old(self).spec_protocol(),
            match old(self).peer_left() {
                None => {
                    &&& written == Err::<(), ErrorReport>(
                        facade_report(ErrorCode::Closed, "consume peer bootstrap"),
                    )
                    &&& final(output)@ == old(output)@
                },
                Some(envelope) => match envelope_rejection(envelope) {
                    Some(error) => written == Err::<(), ErrorReport>(error) && final(output)@
                        == old(output)@,
                    None => written is Ok && final(output)@ == old(output)@ + framed(
                        encoded(envelope),
                    ),
                },
            },
    {
        let mut taken: Option<BootstrapEnvelope> = None;
        std::mem::swap(&mut taken, &mut self.peer_bootstrap);
        let written = match taken {
            None => Err(facade_error(ErrorCode::Closed, "consume peer bootstrap")),
            Some(envelope) => write_envelope(output, &envelope),
        };
        record.observe_outcome(self.handle, FailureStage::Bootstrap, &written);
        written
    }

    /// Appends the one-shot canonical renderer bootstrap for a process-pool property-list value.
    ///
    /// This is control-plane data for the injected bundle. The host must pass it through without
    /// decoding it and must never use the bytes as an application payload channel. `Closed` is
    /// returned after consumption, and a typed schema error for an envelope that cannot be encoded.
    pub fn write_renderer_bootstrap(
        &mut self,
        record: &mut FacadeRecord,
        output: &mut Vec<u8>,
    ) -> (written: Result<(), ErrorReport>)
        ensures
            final(record)@ == old(record)@.settled(
                old(self).spec_handle(),
                FailureStage::Bootstrap,
                written,
            ),
            final(self).renderer_left() is None,
            final(self).peer_left() == old(self).peer_left(),
            final(self).spec_handle() == old(self).spec_handle(),
            final(self).spec_protocol() == old(self).spec_protocol(),
            match old(self).renderer_left() {
                None => {
                    &&& written == Err::<(), ErrorReport>(
                        facade_report(ErrorCode::Closed, "consume renderer bootstrap"),
                    )
                    &&& final(output)@ == old(output)@
                },
                Some(envelope) => match envelope_rejection(envelope) {
                    Some(error) => written == Err::<(), ErrorReport>(error) && final(output)@
                        == old(output)@,
                    None => written is Ok && final(output)@ == old(output)@ + encoded(envelope),
                },
            },
    {
        let written = match self.take_renderer_bootstrap() {
            None => Err(facade_error(ErrorCode::Closed, "consume renderer bootstrap")),
            Some(envelope) => match encode(&envelope) {
                Ok(bytes) => {
                    push_bytes(output, bytes.as_slice());
                    Ok(())
                },
                Err(error) => Err(error),
            },
        };
        record.observe_outcome(self.handle, FailureStage::Bootstrap, &written);
        written
    }

    /// Records that the peer bootstrap could not be written into the pipe, and reports it.
    pub fn peer_bootstrap_not_written(&self, record: &mut FacadeRecord, failure: PipeFailure) -> (
        error: ErrorReport)
        ensures
            final(record)@ == old(record)@.failed(
                self.spec_handle(),
                FailureStage::Bootstrap,
                error,
            ),
            error == transfer_report(pipe_code(failure), "write bootstrap pipe"),
    {
        let error = io_error(failure, "write bootstrap pipe");
        record.fail(self.handle, FailureStage::Bootstrap, &error);
        error
    }

    /// Records that the renderer bootstrap could not be written out, and reports it.
    pub fn renderer_bootstrap_not_written(&self, record: &mut FacadeRecord) -> (error: ErrorReport)
        ensures
            final(record)@ == old(record)@.failed(
                self.spec_handle(),
                FailureStage::Bootstrap,
                error,
            ),
            error == facade_report(ErrorCode::Closed, "write renderer bootstrap"),
    {
        let error = facade_error(ErrorCode::Closed, "write renderer bootstrap");
        record.fail(self.handle, FailureStage::Bootstrap, &error);
        error
    }
}

/// What a session hands over to its peer is consumed as that peer's envelope.
pub proof fn law_peer_bootstrap_arrives(envelope: EnvelopeView, more: Seq<u8>)
    requires
        sendable(envelope),
    ensures
        consumed(framed(encoded(envelope)) + more) == Ok::<EnvelopeView, ErrorReport>(envelope),
        decoded(encoded(envelope)) == Ok::<EnvelopeView, ErrorReport>(envelope),
{
    law_consuming_undoes_writing(envelope, more);
    law_decoding_undoes_encoding(envelope);
}

/// What a session writes into the environment of its peer, the peer expects of its parent.
pub proof fn law_peer_environment_is_read_back(
    session_id: SessionId,
    generation: Generation,
    protocol: u16,
)
    requires
        session_id@ != 0,
        generation@ != 0,
        protocol != 0,
    ensures
        expectation_in(
            Some(encode_utf8(hex_text(le_bytes(session_id@ as nat, 16)))),
            Some(encode_utf8(decimal_digits(generation@ as nat))),
            Some(encode_utf8(decimal_digits(protocol as nat))),
        ) == Ok::<PeerExpectation, ErrorReport>(
            PeerExpectation { session_id, generation, protocol },
        ),
{
    broadcast use group_identities;

    let bytes = le_bytes(session_id@ as nat, 16);
    lemma_le_limits();
    lemma_le_round_trip(session_id@ as nat, 16);
    assert(bytes.subrange(0, 16) =~= bytes);
    law_hex_round_trip(bytes);
    lemma_hex_text(bytes);
    lemma_plain_bytes(hex_text(bytes));
    law_decimal_round_trip(generation@ as nat);
    law_decimal_round_trip(protocol as nat);
}

/// Both envelopes of a generation lead to the same resources with the same secret, each for its
/// own endpoint: the peer may not use that of the renderer, nor the renderer that of the peer.
pub proof fn law_envelopes_are_bound_to_their_endpoint(
    handle: SessionHandle,
    protocol: u16,
    memory: OpaqueDescriptor,
    signal: OpaqueDescriptor,
    randomness: Option<[u8; 32]>,
    bound: Result<BootstrapPair, ErrorReport>,
)
    requires
        call_ensures(
            BootstrapPair::bind,
            (handle, protocol, &memory, &signal, randomness),
            bound,
        ),
    ensures
        bound is Ok ==> randomness is Some && protocol != 0,
        randomness is None ==> bound is Err && bound->Err_0.code is Internal,
        bound matches Ok(pair) ==> {
            &&& pair.peer@.session_id == handle.session_id
            &&& pair.peer@.generation == handle.generation
            &&& pair.peer@.secret == randomness->0@
            &&& pair.peer@.memory == memory@
            &&& pair.peer@.signal == signal@
            &&& pair.renderer@ == EnvelopeView { role: EndpointRole::Renderer, ..pair.peer@ }
            &&& consumer_rejection(
                pair.peer@,
                EndpointRole::Peer,
                handle.session_id,
                handle.generation,
                protocol,
            ) is None
            &&& consumer_rejection(
                pair.renderer@,
                EndpointRole::Renderer,
                handle.session_id,
                handle.generation,
                protocol,
            ) is None
            &&& consumer_rejection(
                pair.renderer@,
                EndpointRole::Peer,
                handle.session_id,
                handle.generation,
                protocol,
            ) is Some
            &&& consumer_rejection(
                pair.peer@,
                EndpointRole::Renderer,
                handle.session_id,
                handle.generation,
                protocol,
            ) is Some
        },
{
    broadcast use {protocol_range_of_bounds, bounds_of_protocol_range};
}

/// The envelopes of a generation can be made exactly where both descriptors fit an envelope, there
/// is a secret and the protocol is not zero.
pub proof fn law_bindings_fail_for_a_reason(
    protocol: u16,
    handle: SessionHandle,
    memory: Seq<u8>,
    signal: Seq<u8>,
    randomness: Option<[u8; 32]>,
)
    ensures
        binding_rejection(protocol, handle, memory, signal, randomness) is None <==> {
            &&& 0 < memory.len() <= 4096
            &&& 0 < signal.len() <= 4096
            &&& randomness is Some
            &&& protocol != 0
        },
{
}

} // verus!
