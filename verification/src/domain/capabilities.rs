//! Capability and topology negotiation without platform dependencies.

use vstd::prelude::*;

use crate::domain::error::{report, ErrorCategory, ErrorCode, ErrorReport, Recoverability};

verus! {

/// A shared-memory payload plane is available.
pub const SHARED_MEMORY_DATA_PLANE: u64 = 0x1;

/// Binary messages are available.
pub const BINARY_MESSAGES: u64 = 0x2;

/// Bounded backpressure is enforced.
pub const BOUNDED_BACKPRESSURE: u64 = 0x4;

/// Renderer-to-peer signal hints are direct.
pub const DIRECT_SIGNAL: u64 = 0x8;

/// Signal hints may be relayed by the host.
pub const HOST_RELAYED_SIGNAL: u64 = 0x10;

/// Generation-bound authenticated payload encryption is available.
pub const AUTHENTICATED_ENCRYPTION: u64 = 0x20;

/// Compatibility name for authenticated payload encryption.
pub const ENCRYPTED_REGION: u64 = AUTHENTICATED_ENCRYPTION;

/// Borrowed send buffers are available.
pub const BORROWED_SEND: u64 = 0x40;

/// Borrowed receive buffers are available.
pub const BORROWED_RECEIVE: u64 = 0x80;

/// Logical messages may span multiple data records.
pub const FRAGMENTATION: u64 = 0x100;

/// Mask of capabilities understood by this version.
pub const KNOWN_CAPABILITIES: u64 = 0x1ff;

/// A forward-compatible capability bit set.
#[derive(Clone, Copy, Debug, PartialEq, Eq, Structural)]
pub struct TransportCapabilities {
    /// All preserved bits, known and unknown.
    pub bits: u64,
}

impl TransportCapabilities {
    /// Whether every bit of `other` is in this set.
    pub open spec fn includes(self, other: TransportCapabilities) -> bool {
        self.bits & other.bits == other.bits
    }

    /// The empty set.
    pub fn none() -> (set: Self)
        ensures
            set.bits == 0,
    {
        TransportCapabilities { bits: 0 }
    }

    /// Preserves known and unknown bits received from a peer.
    pub fn from_bits(bits: u64) -> (set: Self)
        ensures
            set.bits == bits,
    {
        TransportCapabilities { bits }
    }

    /// Returns all preserved bits.
    pub fn bits(self) -> (bits: u64)
        ensures
            bits == self.bits,
    {
        self.bits
    }

    /// Returns bits unknown to this version.
    pub fn unknown_bits(self) -> (bits: u64)
        ensures
            bits == self.bits & !KNOWN_CAPABILITIES,
    {
        self.bits & !KNOWN_CAPABILITIES
    }

    /// Returns whether every bit in `other` is present.
    pub fn contains(self, other: Self) -> (answer: bool)
        ensures
            answer == self.includes(other),
    {
        self.bits & other.bits == other.bits
    }

    /// Returns the mutually supported intersection, including mutually understood future bits.
    pub fn intersection(self, other: Self) -> (set: Self)
        ensures
            set.bits == self.bits & other.bits,
    {
        TransportCapabilities { bits: self.bits & other.bits }
    }

    /// Returns the union of two sets.
    pub fn union(self, other: Self) -> (set: Self)
        ensures
            set.bits == self.bits | other.bits,
    {
        TransportCapabilities { bits: self.bits | other.bits }
    }
}

impl Default for TransportCapabilities {
    fn default() -> (set: Self)
        ensures
            set.bits == 0,
    {
        TransportCapabilities { bits: 0 }
    }
}

/// Capabilities that the accepting endpoint can provide.
#[derive(Clone, Copy, Debug, PartialEq, Eq, Structural)]
pub struct SupportedCapabilities {
    /// The preserved capability bits.
    pub set: TransportCapabilities,
}

/// Capabilities that the initiating endpoint would like to use.
#[derive(Clone, Copy, Debug, PartialEq, Eq, Structural)]
pub struct RequestedCapabilities {
    /// The preserved capability bits.
    pub set: TransportCapabilities,
}

/// Requested capabilities without which the session must fail.
#[derive(Clone, Copy, Debug, PartialEq, Eq, Structural)]
pub struct RequiredCapabilities {
    /// The preserved capability bits.
    pub set: TransportCapabilities,
}

/// Capabilities selected for one session generation.
#[derive(Clone, Copy, Debug, PartialEq, Eq, Structural)]
pub struct NegotiatedCapabilities {
    /// The preserved capability bits.
    pub set: TransportCapabilities,
}

impl SupportedCapabilities {
    /// Creates the role-specific capability set.
    pub fn new(capabilities: TransportCapabilities) -> (created: Self)
        ensures
            created.set == capabilities,
    {
        SupportedCapabilities { set: capabilities }
    }

    /// Returns the preserved capability bits.
    pub fn capabilities(self) -> (set: TransportCapabilities)
        ensures
            set == self.set,
    {
        self.set
    }
}

impl RequestedCapabilities {
    /// Creates the role-specific capability set.
    pub fn new(capabilities: TransportCapabilities) -> (created: Self)
        ensures
            created.set == capabilities,
    {
        RequestedCapabilities { set: capabilities }
    }

    /// Returns the preserved capability bits.
    pub fn capabilities(self) -> (set: TransportCapabilities)
        ensures
            set == self.set,
    {
        self.set
    }
}

impl RequiredCapabilities {
    /// Creates the role-specific capability set.
    pub fn new(capabilities: TransportCapabilities) -> (created: Self)
        ensures
            created.set == capabilities,
    {
        RequiredCapabilities { set: capabilities }
    }

    /// Returns the preserved capability bits.
    pub fn capabilities(self) -> (set: TransportCapabilities)
        ensures
            set == self.set,
    {
        self.set
    }
}

impl NegotiatedCapabilities {
    /// Creates the role-specific capability set.
    pub fn new(capabilities: TransportCapabilities) -> (created: Self)
        ensures
            created.set == capabilities,
    {
        NegotiatedCapabilities { set: capabilities }
    }

    /// Returns the preserved capability bits.
    pub fn capabilities(self) -> (set: TransportCapabilities)
        ensures
            set == self.set,
    {
        self.set
    }
}

/// Describes whether infrastructure processes can observe traffic.
#[derive(Clone, Copy, Debug, PartialEq, Eq, Structural)]
pub struct TransportTopology {
    /// Must remain false for the payload path.
    pub host_in_payload_path: bool,
    /// Whether signal hints are relayed through the host.
    pub host_in_signal_path: bool,
    /// Whether `WebKit`'s browser process is in the payload path.
    pub browser_process_in_payload_path: bool,
    /// Whether the renderer contains the native module.
    pub renderer_native_module: bool,
}

impl TransportTopology {
    /// Whether no infrastructure process is in the payload path.
    pub open spec fn payload_is_direct(self) -> bool {
        !self.host_in_payload_path && !self.browser_process_in_payload_path
    }

    /// Creates the required direct renderer-to-peer topology.
    pub fn direct() -> (topology: Self)
        ensures
            topology == direct_topology(),
    {
        TransportTopology {
            host_in_payload_path: false,
            host_in_signal_path: false,
            browser_process_in_payload_path: false,
            renderer_native_module: true,
        }
    }

    /// Validates the non-relayed payload invariant.
    ///
    /// A stable configuration error is returned when an infrastructure process is in the payload
    /// path.
    pub fn validate(self) -> (checked: Result<Self, ErrorReport>)
        ensures
            checked == if self.payload_is_direct() {
                Ok::<Self, ErrorReport>(self)
            } else {
                Err(relayed_payload_report())
            },
    {
        if self.host_in_payload_path || self.browser_process_in_payload_path {
            return Err(
                ErrorReport::new(
                    ErrorCategory::Configuration,
                    ErrorCode::ProtocolViolation,
                    Recoverability::Terminal,
                    "host-relayed payload topology",
                ),
            );
        }
        Ok(self)
    }
}

/// The direct renderer-to-peer topology.
pub open spec fn direct_topology() -> TransportTopology {
    TransportTopology {
        host_in_payload_path: false,
        host_in_signal_path: false,
        browser_process_in_payload_path: false,
        renderer_native_module: true,
    }
}

/// The report of a topology that relays payload.
pub open spec fn relayed_payload_report() -> ErrorReport {
    report(
        ErrorCategory::Configuration,
        ErrorCode::ProtocolViolation,
        Recoverability::Terminal,
        "host-relayed payload topology",
    )
}

/// The report of a required bit that is not both requested and supported.
pub open spec fn missing_capability_report() -> ErrorReport {
    report(
        ErrorCategory::Protocol,
        ErrorCode::RequiredCapabilityMissing,
        Recoverability::Terminal,
        "required capability missing",
    )
}

/// What negotiation selects.
pub open spec fn negotiated(
    supported: SupportedCapabilities,
    requested: RequestedCapabilities,
    required: RequiredCapabilities,
) -> Result<NegotiatedCapabilities, ErrorReport> {
    if requested.set.includes(required.set) && supported.set.includes(required.set) {
        Ok(
            NegotiatedCapabilities {
                set: TransportCapabilities { bits: supported.set.bits & requested.set.bits },
            },
        )
    } else {
        Err(missing_capability_report())
    }
}

/// Negotiates requested bits and rejects unsupported or unrequested required bits.
///
/// Unknown optional bits are preserved only when both endpoints advertise them. Unknown required
/// bits therefore work with a newer peer when supported and fail closed otherwise.
pub fn negotiate(
    supported: SupportedCapabilities,
    requested: RequestedCapabilities,
    required: RequiredCapabilities,
) -> (outcome: Result<NegotiatedCapabilities, ErrorReport>)
    ensures
        outcome == negotiated(supported, requested, required),
{
    let supported = supported.capabilities();
    let requested = requested.capabilities();
    let required = required.capabilities();
    if !requested.contains(required) || !supported.contains(required) {
        return Err(
            ErrorReport::new(
                ErrorCategory::Protocol,
                ErrorCode::RequiredCapabilityMissing,
                Recoverability::Terminal,
                "required capability missing",
            ),
        );
    }
    Ok(NegotiatedCapabilities::new(supported.intersection(requested)))
}

/// A negotiated set holds every required bit, and no bit that one side did not offer.
pub proof fn law_negotiation_is_mutual(
    supported: SupportedCapabilities,
    requested: RequestedCapabilities,
    required: RequiredCapabilities,
)
    ensures
        match negotiated(supported, requested, required) {
            Ok(selected) => selected.set.includes(required.set) && supported.set.includes(
                selected.set,
            ) && requested.set.includes(selected.set),
            Err(_) => true,
        },
{
    let offered = supported.set.bits;
    let wanted = requested.set.bits;
    let needed = required.set.bits;
    assert(wanted & needed == needed && offered & needed == needed ==> (offered & wanted) & needed
        == needed) by (bit_vector);
    assert(offered & (offered & wanted) == offered & wanted) by (bit_vector);
    assert(wanted & (offered & wanted) == offered & wanted) by (bit_vector);
}

/// Negotiation fails exactly where a required bit is missing on one side.
pub proof fn law_negotiation_fails_closed(
    supported: SupportedCapabilities,
    requested: RequestedCapabilities,
    required: RequiredCapabilities,
)
    ensures
        negotiated(supported, requested, required) is Err <==> !requested.set.includes(
            required.set,
        ) || !supported.set.includes(required.set),
{
}

/// A set includes another exactly where their union adds nothing to it. So every set includes the
/// empty one and itself, and two sets that include each other are the same.
pub proof fn law_inclusion_orders_sets(
    left: TransportCapabilities,
    right: TransportCapabilities,
    third: TransportCapabilities,
)
    ensures
        left.includes(right) <==> left.bits | right.bits == left.bits,
        left.includes(TransportCapabilities { bits: 0 }),
        left.includes(left),
        left.includes(right) && right.includes(left) ==> left == right,
        left.includes(right) && right.includes(third) ==> left.includes(third),
{
    let a = left.bits;
    let b = right.bits;
    let c = third.bits;
    assert((a & b == b) == (a | b == a)) by (bit_vector);
    assert(a & 0 == 0) by (bit_vector);
    assert(a & a == a) by (bit_vector);
    assert(a & b == b && b & a == a ==> a == b) by (bit_vector);
    assert(a & b == b && b & c == c ==> a & c == c) by (bit_vector);
}

/// Negotiation leaves out nothing that both sides offer, known or unknown.
pub proof fn law_negotiation_is_generous(
    supported: SupportedCapabilities,
    requested: RequestedCapabilities,
    required: RequiredCapabilities,
    common: TransportCapabilities,
)
    requires
        supported.set.includes(common),
        requested.set.includes(common),
    ensures
        negotiated(supported, requested, required) matches Ok(selected) ==> selected.set.includes(
            common,
        ),
        negotiated(
            supported,
            requested,
            RequiredCapabilities { set: TransportCapabilities { bits: 0 } },
        ) is Ok,
{
    let a = supported.set.bits;
    let b = requested.set.bits;
    let c = common.bits;
    assert(a & c == c && b & c == c ==> (a & b) & c == c) by (bit_vector);
    assert(a & 0 == 0 && b & 0 == 0) by (bit_vector);
}

/// A topology is rejected exactly where an infrastructure process is in its payload path; who
/// relays hints, and what the renderer contains, does not matter.
pub proof fn law_only_relayed_payloads_are_rejected(
    topology: TransportTopology,
    checked: Result<TransportTopology, ErrorReport>,
)
    requires
        call_ensures(TransportTopology::validate, (topology,), checked),
    ensures
        topology.host_in_payload_path || topology.browser_process_in_payload_path <==> checked
            is Err,
        checked matches Ok(kept) ==> kept == topology,
        !direct_topology().host_in_payload_path,
        !direct_topology().browser_process_in_payload_path,
        !direct_topology().host_in_signal_path,
{
}

/// A capability that is required and missing is a matter of the protocol, a relayed payload one of
/// the configuration, and neither is worth another try.
pub proof fn law_capability_failures_are_final(
    supported: SupportedCapabilities,
    requested: RequestedCapabilities,
    required: RequiredCapabilities,
)
    ensures
        negotiated(supported, requested, required) matches Err(error) ==> error.code
            is RequiredCapabilityMissing && error.category is Protocol && error.recoverability
            is Terminal,
        relayed_payload_report().code is ProtocolViolation,
        relayed_payload_report().category is Configuration,
        relayed_payload_report().recoverability is Terminal,
{
}

} // verus!
