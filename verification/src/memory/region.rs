//! Safe logical model for the two unidirectional regions in an NWIPC session.

use vstd::prelude::*;

use crate::domain::error::{report, ErrorCategory, ErrorCode, ErrorReport, Recoverability};
use crate::domain::types::Generation;
use crate::memory::api::RegionDescriptor;

verus! {

/// Process role that owns writes to a region.
#[derive(Clone, Copy, Debug, PartialEq, Eq, Structural)]
pub enum RegionOwner {
    /// `WebKit` renderer endpoint.
    Renderer,
    /// Native peer endpoint.
    Peer,
}

/// Logical traffic direction and its single writer.
#[derive(Clone, Copy, Debug, PartialEq, Eq, Structural)]
pub enum RegionDirection {
    /// Renderer writes and peer reads.
    RendererToPeer,
    /// Peer writes and renderer reads.
    PeerToRenderer,
}

impl RegionDirection {
    /// Who writes in this direction.
    pub open spec fn writer(self) -> RegionOwner {
        match self {
            RegionDirection::RendererToPeer => RegionOwner::Renderer,
            RegionDirection::PeerToRenderer => RegionOwner::Peer,
        }
    }

    /// The stable descriptor value.
    pub open spec fn wire(self) -> u8 {
        match self {
            RegionDirection::RendererToPeer => 1,
            RegionDirection::PeerToRenderer => 2,
        }
    }

    /// Single writer for this direction.
    pub fn owner(self) -> (owner: RegionOwner)
        ensures
            owner == self.writer(),
    {
        match self {
            RegionDirection::RendererToPeer => RegionOwner::Renderer,
            RegionDirection::PeerToRenderer => RegionOwner::Peer,
        }
    }

    /// Stable descriptor value.
    pub fn wire_value(self) -> (value: u8)
        ensures
            value == self.wire(),
    {
        match self {
            RegionDirection::RendererToPeer => 1,
            RegionDirection::PeerToRenderer => 2,
        }
    }
}

/// The report of a rejected region.
pub open spec fn region_report(code: ErrorCode, operation: &'static str) -> ErrorReport {
    report(ErrorCategory::Memory, code, Recoverability::ReplaceEndpoint, operation)
}

pub(crate) fn region_error(code: ErrorCode, operation: &'static str) -> (created: ErrorReport)
    ensures
        created == region_report(code, operation),
{
    ErrorReport::new(ErrorCategory::Memory, code, Recoverability::ReplaceEndpoint, operation)
}

/// Why two descriptors are not a pair of a generation, if they are not.
pub open spec fn pair_rejection<Descriptor: RegionDescriptor>(
    generation: Generation,
    renderer_to_peer: Descriptor,
    peer_to_renderer: Descriptor,
) -> Option<ErrorReport> {
    if renderer_to_peer.described_len() == 0 || peer_to_renderer.described_len()
        != renderer_to_peer.described_len() {
        Some(region_report(ErrorCode::InvalidRange, "create region pair"))
    } else if renderer_to_peer.described_generation() != generation
        || peer_to_renderer.described_generation() != generation {
        Some(region_report(ErrorCode::StaleGeneration, "create region pair"))
    } else {
        None
    }
}

/// Descriptors for the two regions of one generation.
pub struct RegionPair<Descriptor> {
    generation: Generation,
    renderer_to_peer: Descriptor,
    peer_to_renderer: Descriptor,
}

impl<Descriptor: RegionDescriptor> RegionPair<Descriptor> {
    /// The generation of both regions.
    pub closed spec fn pair_generation(self) -> Generation {
        self.generation
    }

    /// The descriptor of a direction.
    pub closed spec fn in_direction(self, direction: RegionDirection) -> Descriptor {
        match direction {
            RegionDirection::RendererToPeer => self.renderer_to_peer,
            RegionDirection::PeerToRenderer => self.peer_to_renderer,
        }
    }

    /// Validates and groups descriptors without coupling their mapping lifetimes.
    ///
    /// Empty, unequal, or stale-generation descriptors are rejected.
    pub fn new(
        generation: Generation,
        renderer_to_peer: Descriptor,
        peer_to_renderer: Descriptor,
    ) -> (created: Result<Self, ErrorReport>)
        ensures
            match created {
                Ok(pair) => {
                    &&& pair_rejection(generation, renderer_to_peer, peer_to_renderer) is None
                    &&& pair.pair_generation() == generation
                    &&& pair.in_direction(RegionDirection::RendererToPeer) == renderer_to_peer
                    &&& pair.in_direction(RegionDirection::PeerToRenderer) == peer_to_renderer
                },
                Err(error) => pair_rejection(generation, renderer_to_peer, peer_to_renderer)
                    == Some(error),
            },
    {
        let length: usize = renderer_to_peer.byte_len();
        if length == 0 || peer_to_renderer.byte_len() != length {
            return Err(region_error(ErrorCode::InvalidRange, "create region pair"));
        }
        if renderer_to_peer.generation() != generation || peer_to_renderer.generation()
            != generation {
            return Err(region_error(ErrorCode::StaleGeneration, "create region pair"));
        }
        Ok(RegionPair { generation, renderer_to_peer, peer_to_renderer })
    }

    /// Pair generation.
    pub fn generation(&self) -> (generation: Generation)
        ensures
            generation == self.pair_generation(),
    {
        self.generation
    }

    /// Descriptor for a logical direction.
    pub fn descriptor(&self, direction: RegionDirection) -> (descriptor: &Descriptor)
        ensures
            *descriptor == self.in_direction(direction),
    {
        match direction {
            RegionDirection::RendererToPeer => &self.renderer_to_peer,
            RegionDirection::PeerToRenderer => &self.peer_to_renderer,
        }
    }

    /// Logical length shared by both directions.
    pub fn byte_len(&self) -> (length: usize)
        ensures
            length == self.in_direction(RegionDirection::RendererToPeer).described_len(),
    {
        self.renderer_to_peer.byte_len()
    }
}

/// The two directions have different writers and different descriptor values, and each role
/// writes in one of them.
pub proof fn law_directions_have_their_own_writers(one: RegionDirection, other: RegionDirection)
    ensures
        one.writer() == other.writer() <==> one == other,
        one.wire() == other.wire() <==> one == other,
        one.writer() is Renderer <==> one is RendererToPeer,
        one.writer() is Peer <==> one is PeerToRenderer,
        one.wire() != 0,
{
}

/// Two descriptors become a pair exactly where both promise the same number of bytes, that is not
/// zero, for the generation that was asked for; the pair then holds each in its own direction.
pub proof fn law_pairs_are_of_one_generation<Descriptor: RegionDescriptor>(
    generation: Generation,
    renderer_to_peer: Descriptor,
    peer_to_renderer: Descriptor,
    created: Result<RegionPair<Descriptor>, ErrorReport>,
)
    requires
        call_ensures(
            RegionPair::<Descriptor>::new,
            (generation, renderer_to_peer, peer_to_renderer),
            created,
        ),
    ensures
        created is Ok <==> {
            &&& renderer_to_peer.described_len() > 0
            &&& renderer_to_peer.described_len() == peer_to_renderer.described_len()
            &&& renderer_to_peer.described_generation() == generation
            &&& peer_to_renderer.described_generation() == generation
        },
        created matches Ok(pair) ==> forall|direction: RegionDirection|
            (#[trigger] pair.in_direction(direction)).described_generation()
                == pair.pair_generation() && pair.in_direction(direction).described_len()
                == renderer_to_peer.described_len(),
        created matches Ok(pair) ==> pair.in_direction(RegionDirection::RendererToPeer)
            == renderer_to_peer && pair.in_direction(RegionDirection::PeerToRenderer)
            == peer_to_renderer,
        created matches Err(error) ==> (error.code is StaleGeneration <==> (
        renderer_to_peer.described_len() > 0 && renderer_to_peer.described_len()
            == peer_to_renderer.described_len())),
{
}

/// A failure of a region pair keeps its code; it is one of memory, and another endpoint gets over
/// it.
pub proof fn law_region_failures_are_of_memory(code: ErrorCode, operation: &'static str)
    ensures
        region_report(code, operation).code == code,
        region_report(code, operation).context == operation,
        region_report(code, operation).category is Memory,
        region_report(code, operation).recoverability is ReplaceEndpoint,
{
}

/// A pair is refused for its lengths before it is for its generations.
pub proof fn law_refused_pairs_are_told_apart<Descriptor: RegionDescriptor>(
    generation: Generation,
    renderer_to_peer: Descriptor,
    peer_to_renderer: Descriptor,
)
    ensures
        pair_rejection(generation, renderer_to_peer, peer_to_renderer) matches Some(error) ==> {
            let paired = renderer_to_peer.described_len() != 0 && peer_to_renderer.described_len()
                == renderer_to_peer.described_len();
            &&& error.code is InvalidRange <==> !paired
            &&& error.code is StaleGeneration <==> paired
        },
{
}

} // verus!
