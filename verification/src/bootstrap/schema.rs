//! Provider-independent bootstrap domain model.

use vstd::prelude::*;

use crate::domain::error::{report, ErrorCategory, ErrorCode, ErrorReport, Recoverability};
use crate::domain::text::{decimal, decimal_digits};
use crate::domain::types::{Generation, SessionId};

verus! {

/// Bootstrap schema emitted by this version of the library.
pub const SCHEMA_VERSION: u16 = 1;

/// Maximum encoded bootstrap envelope accepted by an endpoint.
pub const MAX_ENVELOPE_LENGTH: usize = 16 * 1024;

/// Maximum opaque descriptor payload.
pub const MAX_DESCRIPTOR_LENGTH: usize = 4 * 1024;

/// Maximum bootstrap authentication secret.
pub const MAX_SECRET_LENGTH: usize = 64;

/// The report of a rejected bootstrap value.
pub open spec fn schema_report(code: ErrorCode, operation: &'static str) -> ErrorReport {
    report(ErrorCategory::Bootstrap, code, Recoverability::ReplaceEndpoint, operation)
}

pub(crate) fn schema_error(code: ErrorCode, operation: &'static str) -> (created: ErrorReport)
    ensures
        created == schema_report(code, operation),
{
    ErrorReport::new(ErrorCategory::Bootstrap, code, Recoverability::ReplaceEndpoint, operation)
}

/// Endpoint that is allowed to consume an envelope.
#[derive(Clone, Copy, Debug, PartialEq, Eq, Structural)]
pub enum EndpointRole {
    /// Native peer process.
    Peer,
    /// `WebKit` renderer process.
    Renderer,
}

/// The role with a wire value.
pub open spec fn role_of_wire(value: u8) -> Option<EndpointRole> {
    if value == 1 {
        Some(EndpointRole::Peer)
    } else if value == 2 {
        Some(EndpointRole::Renderer)
    } else {
        None
    }
}

impl EndpointRole {
    /// Name of the role.
    pub open spec fn spec_name(self) -> &'static str {
        match self {
            EndpointRole::Peer => "Peer",
            EndpointRole::Renderer => "Renderer",
        }
    }

    /// Name of the role.
    pub fn name(self) -> (name: &'static str)
        ensures
            name == self.spec_name(),
    {
        match self {
            EndpointRole::Peer => "Peer",
            EndpointRole::Renderer => "Renderer",
        }
    }

    /// The stable wire value.
    pub open spec fn wire(self) -> u8 {
        match self {
            EndpointRole::Peer => 1,
            EndpointRole::Renderer => 2,
        }
    }

    /// Decodes the stable wire value.
    pub fn from_wire(value: u8) -> (decoded: Option<Self>)
        ensures
            decoded == role_of_wire(value),
            decoded matches Some(role) ==> role.wire() == value,
    {
        match value {
            1 => Some(EndpointRole::Peer),
            2 => Some(EndpointRole::Renderer),
            _ => None,
        }
    }

    /// Encodes the stable wire value.
    pub fn to_wire(self) -> (value: u8)
        ensures
            value == self.wire(),
            role_of_wire(value) == Some(self),
    {
        match self {
            EndpointRole::Peer => 1,
            EndpointRole::Renderer => 2,
        }
    }
}

/// Supported protocol interval, inclusive at both ends. It is never empty.
#[derive(Clone, Copy, Debug, PartialEq, Eq, Structural)]
pub struct ProtocolRange {
    minimum: u16,
    maximum: u16,
}

/// Whether two versions bound a non-empty interval of versions above zero.
pub open spec fn valid_protocols(minimum: u16, maximum: u16) -> bool {
    0 < minimum <= maximum
}

/// The report of an interval that holds no version.
pub open spec fn protocols_report() -> ErrorReport {
    schema_report(ErrorCode::InvalidRange, "bootstrap protocol range")
}

impl ProtocolRange {
    /// The interval with these bounds.
    pub closed spec fn of(minimum: u16, maximum: u16) -> ProtocolRange {
        ProtocolRange { minimum, maximum }
    }

    /// Lowest supported version.
    pub closed spec fn lowest(self) -> u16 {
        self.minimum
    }

    /// Highest supported version.
    pub closed spec fn highest(self) -> u16 {
        self.maximum
    }

    #[verifier::type_invariant]
    spec fn is_valid(self) -> bool {
        valid_protocols(self.minimum, self.maximum)
    }

    /// Creates a non-empty protocol interval.
    ///
    /// `InvalidRange` is returned for zero or descending bounds.
    pub fn new(minimum: u16, maximum: u16) -> (created: Result<Self, ErrorReport>)
        ensures
            match created {
                Ok(range) => valid_protocols(minimum, maximum) && range == ProtocolRange::of(
                    minimum,
                    maximum,
                ),
                Err(error) => !valid_protocols(minimum, maximum) && error == protocols_report(),
            },
    {
        if minimum == 0 || minimum > maximum {
            return Err(schema_error(ErrorCode::InvalidRange, "bootstrap protocol range"));
        }
        Ok(ProtocolRange { minimum, maximum })
    }

    /// Lowest supported protocol version.
    pub fn minimum(self) -> (version: u16)
        ensures
            version == self.lowest(),
            valid_protocols(self.lowest(), self.highest()),
    {
        proof {
            use_type_invariant(&self);
        }
        self.minimum
    }

    /// Highest supported protocol version.
    pub fn maximum(self) -> (version: u16)
        ensures
            version == self.highest(),
            valid_protocols(self.lowest(), self.highest()),
    {
        proof {
            use_type_invariant(&self);
        }
        self.maximum
    }

    /// Whether this interval contains a protocol version.
    pub fn contains(self, version: u16) -> (contained: bool)
        ensures
            contained == (self.lowest() <= version <= self.highest()),
    {
        version >= self.minimum && version <= self.maximum
    }
}

/// An interval is determined by its bounds.
pub broadcast proof fn protocol_range_of_bounds(range: ProtocolRange)
    ensures
        #![trigger range.lowest()]
        #![trigger range.highest()]
        ProtocolRange::of(range.lowest(), range.highest()) == range,
{
}

/// The bounds of an interval are the ones that it was made from.
pub broadcast proof fn bounds_of_protocol_range(minimum: u16, maximum: u16)
    ensures
        (#[trigger] ProtocolRange::of(minimum, maximum)).lowest() == minimum,
        ProtocolRange::of(minimum, maximum).highest() == maximum,
{
}

/// Provider selected by the host for a resource.
#[derive(Clone, Copy, Debug, PartialEq, Eq, Structural)]
pub enum ProviderKind {
    /// Process-test provider; never selected by production platform adapters.
    ProcessTest,
    /// `IOSurface` shared-memory provider.
    IoSurface,
    /// Darwin notification provider.
    DarwinNotify,
    /// Poll-only notification provider.
    Poll,
    /// Hybrid Darwin notification and polling provider.
    Hybrid,
}

/// The provider with a wire value.
pub open spec fn provider_of_wire(value: u8) -> Option<ProviderKind> {
    if value == 1 {
        Some(ProviderKind::ProcessTest)
    } else if value == 2 {
        Some(ProviderKind::IoSurface)
    } else if value == 3 {
        Some(ProviderKind::DarwinNotify)
    } else if value == 4 {
        Some(ProviderKind::Poll)
    } else if value == 5 {
        Some(ProviderKind::Hybrid)
    } else {
        None
    }
}

impl ProviderKind {
    /// Name of the provider.
    pub open spec fn spec_name(self) -> &'static str {
        match self {
            ProviderKind::ProcessTest => "ProcessTest",
            ProviderKind::IoSurface => "IoSurface",
            ProviderKind::DarwinNotify => "DarwinNotify",
            ProviderKind::Poll => "Poll",
            ProviderKind::Hybrid => "Hybrid",
        }
    }

    /// Name of the provider.
    pub fn name(self) -> (name: &'static str)
        ensures
            name == self.spec_name(),
    {
        match self {
            ProviderKind::ProcessTest => "ProcessTest",
            ProviderKind::IoSurface => "IoSurface",
            ProviderKind::DarwinNotify => "DarwinNotify",
            ProviderKind::Poll => "Poll",
            ProviderKind::Hybrid => "Hybrid",
        }
    }

    /// The stable wire value.
    pub open spec fn wire(self) -> u8 {
        match self {
            ProviderKind::ProcessTest => 1,
            ProviderKind::IoSurface => 2,
            ProviderKind::DarwinNotify => 3,
            ProviderKind::Poll => 4,
            ProviderKind::Hybrid => 5,
        }
    }

    /// Decodes the stable wire value.
    pub fn from_wire(value: u8) -> (decoded: Option<Self>)
        ensures
            decoded == provider_of_wire(value),
            decoded matches Some(provider) ==> provider.wire() == value,
    {
        match value {
            1 => Some(ProviderKind::ProcessTest),
            2 => Some(ProviderKind::IoSurface),
            3 => Some(ProviderKind::DarwinNotify),
            4 => Some(ProviderKind::Poll),
            5 => Some(ProviderKind::Hybrid),
            _ => None,
        }
    }

    /// Encodes the stable wire value.
    pub fn to_wire(self) -> (value: u8)
        ensures
            value == self.wire(),
            provider_of_wire(value) == Some(self),
    {
        match self {
            ProviderKind::ProcessTest => 1,
            ProviderKind::IoSurface => 2,
            ProviderKind::DarwinNotify => 3,
            ProviderKind::Poll => 4,
            ProviderKind::Hybrid => 5,
        }
    }
}

/// A provider with the bytes that its adapter interprets.
pub struct DescriptorView {
    /// Selected provider.
    pub provider: ProviderKind,
    /// Adapter input.
    pub bytes: Seq<u8>,
}

/// Whether descriptor bytes are within their bounds.
pub open spec fn valid_descriptor(bytes: Seq<u8>) -> bool {
    0 < bytes.len() <= MAX_DESCRIPTOR_LENGTH
}

/// The report of descriptor bytes out of bounds.
pub open spec fn descriptor_report() -> ErrorReport {
    schema_report(ErrorCode::InvalidRange, "bootstrap descriptor length")
}

/// A provider-tagged descriptor whose bytes are interpreted only by its adapter.
#[derive(PartialEq, Eq)]
pub struct OpaqueDescriptor {
    provider: ProviderKind,
    bytes: Vec<u8>,
}

impl View for OpaqueDescriptor {
    type V = DescriptorView;

    closed spec fn view(&self) -> DescriptorView {
        DescriptorView { provider: self.provider, bytes: self.bytes@ }
    }
}

impl Clone for OpaqueDescriptor {
    fn clone(&self) -> (copy: Self)
        ensures
            copy@ == self@,
    {
        proof {
            use_type_invariant(self);
        }
        let bytes = vstd::slice::slice_to_vec(self.bytes.as_slice());
        OpaqueDescriptor { provider: self.provider, bytes }
    }
}

impl OpaqueDescriptor {
    #[verifier::type_invariant]
    spec fn is_valid(self) -> bool {
        valid_descriptor(self.bytes@)
    }

    /// Creates a bounded non-empty descriptor.
    ///
    /// `InvalidRange` is returned when the descriptor is empty or oversized.
    pub fn new(provider: ProviderKind, bytes: Vec<u8>) -> (created: Result<Self, ErrorReport>)
        ensures
            match created {
                Ok(descriptor) => valid_descriptor(bytes@) && descriptor@ == (DescriptorView {
                    provider,
                    bytes: bytes@,
                }),
                Err(error) => !valid_descriptor(bytes@) && error == descriptor_report(),
            },
    {
        if bytes.len() == 0 || bytes.len() > MAX_DESCRIPTOR_LENGTH {
            return Err(schema_error(ErrorCode::InvalidRange, "bootstrap descriptor length"));
        }
        Ok(OpaqueDescriptor { provider, bytes })
    }

    /// Selected provider.
    pub fn provider(&self) -> (provider: ProviderKind)
        ensures
            provider == self@.provider,
    {
        self.provider
    }

    /// Opaque adapter input.
    pub fn bytes(&self) -> (bytes: &[u8])
        ensures
            bytes@ == self@.bytes,
            valid_descriptor(self@.bytes),
    {
        proof {
            use_type_invariant(self);
        }
        self.bytes.as_slice()
    }

    /// Renders the descriptor with the count of its bytes in place of the bytes.
    pub fn to_text(&self) -> (text: String)
        ensures
            text@ == descriptor_text(self@),
    {
        let mut text = String::from_str("OpaqueDescriptor { provider: ");
        text.append(self.provider.name());
        text.append(", bytes: <redacted:");
        text.append(decimal(self.bytes.len() as u64).as_str());
        text.append(" bytes> }");
        text
    }
}

/// How a descriptor is rendered.
pub open spec fn descriptor_text(descriptor: DescriptorView) -> Seq<char> {
    "OpaqueDescriptor { provider: "@ + descriptor.provider.spec_name()@ + ", bytes: <redacted:"@
        + decimal_digits(descriptor.bytes.len()) + " bytes> }"@
}

/// Whether a secret is within its bounds.
pub open spec fn valid_secret(bytes: Seq<u8>) -> bool {
    0 < bytes.len() <= MAX_SECRET_LENGTH
}

/// The report of a secret out of bounds.
pub open spec fn secret_report() -> ErrorReport {
    schema_report(ErrorCode::InvalidRange, "bootstrap secret length")
}

/// One-shot secret erased when its owner is dropped.
#[derive(PartialEq, Eq)]
pub struct BootstrapSecret {
    bytes: Vec<u8>,
}

impl View for BootstrapSecret {
    type V = Seq<u8>;

    closed spec fn view(&self) -> Seq<u8> {
        self.bytes@
    }
}

impl BootstrapSecret {
    #[verifier::type_invariant]
    spec fn is_valid(self) -> bool {
        valid_secret(self.bytes@)
    }

    /// Creates a bounded non-empty bootstrap secret.
    ///
    /// `InvalidRange` is returned when the secret is empty or oversized.
    pub fn new(bytes: Vec<u8>) -> (created: Result<Self, ErrorReport>)
        ensures
            match created {
                Ok(secret) => valid_secret(bytes@) && secret@ == bytes@,
                Err(error) => !valid_secret(bytes@) && error == secret_report(),
            },
    {
        if bytes.len() == 0 || bytes.len() > MAX_SECRET_LENGTH {
            return Err(schema_error(ErrorCode::InvalidRange, "bootstrap secret length"));
        }
        Ok(BootstrapSecret { bytes })
    }

    /// Borrows the secret only at an authentication boundary.
    pub fn expose(&self) -> (bytes: &[u8])
        ensures
            bytes@ == self@,
            valid_secret(self@),
    {
        proof {
            use_type_invariant(self);
        }
        self.bytes.as_slice()
    }

    /// Renders the secret without its bytes.
    pub fn to_text(&self) -> (text: String)
        ensures
            text@ == "BootstrapSecret(<redacted>)"@,
    {
        String::from_str("BootstrapSecret(<redacted>)")
    }
}

/// Calls `slice::fill`, which overwrites every byte with one value. Drops call this, so it opens no
/// invariant and does not unwind.
#[verifier::external_body]
pub(crate) fn fill_bytes(bytes: &mut Vec<u8>, value: u8)
    ensures
        final(bytes)@ == Seq::new(old(bytes)@.len(), |i: int| value),
    opens_invariants none
    no_unwind
{
    bytes.fill(value);
}

impl Drop for BootstrapSecret {
    fn drop(&mut self)
        opens_invariants none
        no_unwind
    {
        proof {
            use_type_invariant(&*self);
        }
        fill_bytes(&mut self.bytes, 0);
    }
}

/// What an envelope holds.
pub struct EnvelopeView {
    /// Schema version.
    pub schema_version: u16,
    /// Session identity.
    pub session_id: SessionId,
    /// Resource generation.
    pub generation: Generation,
    /// Offered protocol interval.
    pub protocols: ProtocolRange,
    /// Intended consumer.
    pub role: EndpointRole,
    /// Shared-memory descriptor.
    pub memory: DescriptorView,
    /// Notification descriptor.
    pub signal: DescriptorView,
    /// Authentication material.
    pub secret: Seq<u8>,
}

/// Why the schema rejects an envelope, if it does.
pub open spec fn envelope_rejection(envelope: EnvelopeView) -> Option<ErrorReport> {
    if envelope.schema_version != SCHEMA_VERSION {
        Some(schema_report(ErrorCode::LayoutVersionMismatch, "bootstrap schema version"))
    } else if !(envelope.memory.provider is ProcessTest || envelope.memory.provider is IoSurface) {
        Some(schema_report(ErrorCode::ProtocolViolation, "bootstrap memory provider"))
    } else if envelope.signal.provider is IoSurface {
        Some(schema_report(ErrorCode::ProtocolViolation, "bootstrap signal provider"))
    } else {
        None
    }
}

/// Why an envelope is not for a consumer, if it is not.
pub open spec fn consumer_rejection(
    envelope: EnvelopeView,
    role: EndpointRole,
    session_id: SessionId,
    generation: Generation,
    protocol: u16,
) -> Option<ErrorReport> {
    if envelope_rejection(envelope) is Some {
        envelope_rejection(envelope)
    } else if envelope.role != role || envelope.session_id != session_id {
        Some(schema_report(ErrorCode::ProtocolViolation, "bootstrap endpoint identity"))
    } else if envelope.generation != generation {
        Some(schema_report(ErrorCode::StaleGeneration, "bootstrap generation"))
    } else if !(envelope.protocols.lowest() <= protocol <= envelope.protocols.highest()) {
        Some(schema_report(ErrorCode::LayoutVersionMismatch, "bootstrap protocol version"))
    } else {
        None
    }
}

/// Complete one-shot bootstrap envelope.
#[derive(PartialEq, Eq)]
pub struct BootstrapEnvelope {
    schema_version: u16,
    session_id: SessionId,
    generation: Generation,
    protocols: ProtocolRange,
    role: EndpointRole,
    memory: OpaqueDescriptor,
    signal: OpaqueDescriptor,
    secret: BootstrapSecret,
}

impl View for BootstrapEnvelope {
    type V = EnvelopeView;

    closed spec fn view(&self) -> EnvelopeView {
        EnvelopeView {
            schema_version: self.schema_version,
            session_id: self.session_id,
            generation: self.generation,
            protocols: self.protocols,
            role: self.role,
            memory: self.memory@,
            signal: self.signal@,
            secret: self.secret@,
        }
    }
}

/// An envelope of the current schema made of these parts.
pub open spec fn envelope_of(
    session_id: SessionId,
    generation: Generation,
    protocols: ProtocolRange,
    role: EndpointRole,
    memory: DescriptorView,
    signal: DescriptorView,
    secret: Seq<u8>,
) -> EnvelopeView {
    EnvelopeView {
        schema_version: SCHEMA_VERSION,
        session_id,
        generation,
        protocols,
        role,
        memory,
        signal,
        secret,
    }
}

impl BootstrapEnvelope {
    /// Creates and validates an envelope using the current schema.
    ///
    /// A bootstrap validation error is returned for an invalid provider combination.
    pub fn new(
        session_id: SessionId,
        generation: Generation,
        protocols: ProtocolRange,
        role: EndpointRole,
        memory: OpaqueDescriptor,
        signal: OpaqueDescriptor,
        secret: BootstrapSecret,
    ) -> (created: Result<Self, ErrorReport>)
        ensures
            ({
                let asked = envelope_of(
                    session_id,
                    generation,
                    protocols,
                    role,
                    memory@,
                    signal@,
                    secret@,
                );
                match created {
                    Ok(envelope) => envelope@ == asked && envelope_rejection(asked) is None,
                    Err(error) => envelope_rejection(asked) == Some(error),
                }
            }),
    {
        let envelope = BootstrapEnvelope {
            schema_version: SCHEMA_VERSION,
            session_id,
            generation,
            protocols,
            role,
            memory,
            signal,
            secret,
        };
        match envelope.validate() {
            Ok(_) => Ok(envelope),
            Err(error) => Err(error),
        }
    }

    /// Schema version carried by the envelope.
    pub fn schema_version(&self) -> (version: u16)
        ensures
            version == self@.schema_version,
    {
        self.schema_version
    }

    /// Session identity bound to the resources.
    pub fn session_id(&self) -> (session_id: SessionId)
        ensures
            session_id == self@.session_id,
    {
        self.session_id
    }

    /// Resource generation bound to the resources.
    pub fn generation(&self) -> (generation: Generation)
        ensures
            generation == self@.generation,
    {
        self.generation
    }

    /// Offered protocol interval.
    pub fn protocols(&self) -> (protocols: ProtocolRange)
        ensures
            protocols == self@.protocols,
    {
        self.protocols
    }

    /// Intended consumer role.
    pub fn role(&self) -> (role: EndpointRole)
        ensures
            role == self@.role,
    {
        self.role
    }

    /// Shared-memory provider descriptor.
    pub fn memory(&self) -> (memory: &OpaqueDescriptor)
        ensures
            memory@ == self@.memory,
    {
        &self.memory
    }

    /// Notification provider descriptor.
    pub fn signal(&self) -> (signal: &OpaqueDescriptor)
        ensures
            signal@ == self@.signal,
    {
        &self.signal
    }

    /// One-shot authentication material.
    pub fn secret(&self) -> (secret: &BootstrapSecret)
        ensures
            secret@ == self@.secret,
    {
        &self.secret
    }

    /// Validates schema-level invariants.
    ///
    /// A schema or provider mismatch is returned.
    pub fn validate(&self) -> (validated: Result<(), ErrorReport>)
        ensures
            match validated {
                Ok(_) => envelope_rejection(self@) is None,
                Err(error) => envelope_rejection(self@) == Some(error),
            },
    {
        if self.schema_version != SCHEMA_VERSION {
            return Err(
                schema_error(ErrorCode::LayoutVersionMismatch, "bootstrap schema version"),
            );
        }
        match self.memory.provider() {
            ProviderKind::ProcessTest | ProviderKind::IoSurface => {},
            _ => {
                return Err(
                    schema_error(ErrorCode::ProtocolViolation, "bootstrap memory provider"),
                );
            },
        }
        match self.signal.provider() {
            ProviderKind::IoSurface => {
                return Err(
                    schema_error(ErrorCode::ProtocolViolation, "bootstrap signal provider"),
                );
            },
            _ => {},
        }
        Ok(())
    }

    /// Validates consumer identity before any provider is attached.
    ///
    /// A role, session, generation, protocol, or provider mismatch is returned.
    pub fn validate_for(
        &self,
        role: EndpointRole,
        session_id: SessionId,
        generation: Generation,
        protocol: u16,
    ) -> (validated: Result<(), ErrorReport>)
        ensures
            match validated {
                Ok(_) => consumer_rejection(
                    self@,
                    role,
                    session_id,
                    generation,
                    protocol,
                ) is None,
                Err(error) => consumer_rejection(self@, role, session_id, generation, protocol)
                    == Some(error),
            },
    {
        self.validate()?;
        if self.role != role || self.session_id != session_id {
            return Err(
                schema_error(ErrorCode::ProtocolViolation, "bootstrap endpoint identity"),
            );
        }
        if self.generation != generation {
            return Err(schema_error(ErrorCode::StaleGeneration, "bootstrap generation"));
        }
        if !self.protocols.contains(protocol) {
            return Err(
                schema_error(ErrorCode::LayoutVersionMismatch, "bootstrap protocol version"),
            );
        }
        Ok(())
    }

    /// Renders the envelope without its session, descriptor bytes and secret.
    pub fn to_text(&self) -> (text: String)
        ensures
            text@ == envelope_text(self@),
    {
        let mut text = String::from_str("BootstrapEnvelope { schema_version: ");
        text.append(decimal(self.schema_version as u64).as_str());
        text.append(", session_id: ");
        text.append(self.session_id.to_text().as_str());
        text.append(", generation: Generation(");
        text.append(decimal(self.generation.get()).as_str());
        text.append("), protocols: ProtocolRange { minimum: ");
        text.append(decimal(self.protocols.minimum() as u64).as_str());
        text.append(", maximum: ");
        text.append(decimal(self.protocols.maximum() as u64).as_str());
        text.append(" }, role: ");
        text.append(self.role.name());
        text.append(", memory: ");
        text.append(self.memory.to_text().as_str());
        text.append(", signal: ");
        text.append(self.signal.to_text().as_str());
        text.append(", secret: ");
        text.append(self.secret.to_text().as_str());
        text.append(" }");
        text
    }
}

/// How an envelope is rendered.
pub open spec fn envelope_text(envelope: EnvelopeView) -> Seq<char> {
    "BootstrapEnvelope { schema_version: "@ + decimal_digits(envelope.schema_version as nat)
        + ", session_id: "@ + "SessionId(<redacted>)"@ + ", generation: Generation("@
        + decimal_digits(envelope.generation@ as nat) + "), protocols: ProtocolRange { minimum: "@
        + decimal_digits(envelope.protocols.lowest() as nat) + ", maximum: "@ + decimal_digits(
        envelope.protocols.highest() as nat,
    ) + " }, role: "@ + envelope.role.spec_name()@ + ", memory: "@ + descriptor_text(
        envelope.memory,
    ) + ", signal: "@ + descriptor_text(envelope.signal) + ", secret: "@
        + "BootstrapSecret(<redacted>)"@ + " }"@
}

/// Roles are told apart by their wire values, and only the values of the two roles are roles.
pub proof fn law_roles_are_their_wire_values(
    role: EndpointRole,
    other: EndpointRole,
    value: u8,
    decoded: Option<EndpointRole>,
)
    requires
        call_ensures(EndpointRole::from_wire, (value,), decoded),
    ensures
        role.wire() == other.wire() <==> role == other,
        decoded == Some(role) <==> value == role.wire(),
        decoded is None <==> value != EndpointRole::Peer.wire() && value
            != EndpointRole::Renderer.wire(),
        role.wire() != 0,
{
}

/// Providers are told apart by their wire values, and no other value is a provider.
pub proof fn law_providers_are_their_wire_values(
    provider: ProviderKind,
    other: ProviderKind,
    value: u8,
    decoded: Option<ProviderKind>,
)
    requires
        call_ensures(ProviderKind::from_wire, (value,), decoded),
    ensures
        provider.wire() == other.wire() <==> provider == other,
        decoded == Some(provider) <==> value == provider.wire(),
        decoded is Some <==> 1 <= value <= 5,
{
}

/// An interval holds its two bounds and what lies between them, and nothing else; bounds that hold
/// no version above zero make none.
pub proof fn law_intervals_hold_their_versions(
    minimum: u16,
    maximum: u16,
    created: Result<ProtocolRange, ErrorReport>,
    version: u16,
    contained: bool,
)
    requires
        call_ensures(ProtocolRange::new, (minimum, maximum), created),
        created matches Ok(range) ==> call_ensures(
            ProtocolRange::contains,
            (range, version),
            contained,
        ),
    ensures
        created is Ok <==> minimum != 0 && minimum <= maximum,
        created is Ok && (version == minimum || version == maximum) ==> contained,
        created is Ok ==> (contained <==> minimum <= version && version <= maximum),
        created is Ok && contained ==> version != 0,
        created matches Err(error) ==> error.code is InvalidRange && error.category is Bootstrap,
{
}

/// A descriptor holds its bytes and its provider, and there is one for every number of bytes from
/// one to the largest; secrets likewise.
pub proof fn law_descriptors_and_secrets_are_bounded(
    provider: ProviderKind,
    bytes: Vec<u8>,
    descriptor: Result<OpaqueDescriptor, ErrorReport>,
    secret: Result<BootstrapSecret, ErrorReport>,
)
    requires
        call_ensures(OpaqueDescriptor::new, (provider, bytes), descriptor),
        call_ensures(BootstrapSecret::new, (bytes,), secret),
    ensures
        descriptor is Ok <==> bytes@.len() != 0 && bytes@.len() <= 4096,
        descriptor matches Ok(descriptor) ==> descriptor@.bytes == bytes@ && descriptor@.provider
            == provider,
        secret is Ok <==> bytes@.len() != 0 && bytes@.len() <= 64,
        secret matches Ok(secret) ==> secret@ == bytes@,
        descriptor matches Err(error) ==> error.code is InvalidRange,
        secret matches Err(error) ==> error.code is InvalidRange,
{
}

/// No provider carries memory and signals both, but for the process tests, and every provider
/// carries one of them.
pub proof fn law_providers_carry_memory_or_signals(envelope: EnvelopeView)
    ensures
        envelope_rejection(envelope) is None ==> {
            &&& envelope.memory.provider == envelope.signal.provider
                ==> envelope.memory.provider is ProcessTest
            &&& !(envelope.memory.provider is DarwinNotify || envelope.memory.provider is Poll
                || envelope.memory.provider is Hybrid)
            &&& !(envelope.signal.provider is IoSurface)
        },
        envelope.schema_version == SCHEMA_VERSION && (envelope.memory.provider is IoSurface
            || envelope.memory.provider is ProcessTest) && !(envelope.signal.provider is IoSurface)
            ==> envelope_rejection(envelope) is None,
        envelope_rejection(envelope) matches Some(error) ==> (error.code is LayoutVersionMismatch
            <==> envelope.schema_version != SCHEMA_VERSION),
{
}

/// An envelope is for exactly the consumer that it names: for its role, session and generation and
/// for the versions that it offers, and for no other; whoever has the right role and session but
/// another generation is told that it is stale.
pub proof fn law_envelopes_are_for_their_consumer(
    envelope: EnvelopeView,
    role: EndpointRole,
    session_id: SessionId,
    generation: Generation,
    protocol: u16,
)
    requires
        envelope_rejection(envelope) is None,
    ensures
        consumer_rejection(envelope, role, session_id, generation, protocol) is None <==> {
            &&& role == envelope.role
            &&& session_id == envelope.session_id
            &&& generation == envelope.generation
            &&& envelope.protocols.lowest() <= protocol
            &&& protocol <= envelope.protocols.highest()
        },
        consumer_rejection(envelope, role, session_id, generation, protocol) matches Some(error)
            ==> {
            &&& error.code is ProtocolViolation <==> !(role == envelope.role && session_id
                == envelope.session_id)
            &&& error.code is StaleGeneration <==> role == envelope.role && session_id
                == envelope.session_id && generation != envelope.generation
            &&& error.category is Bootstrap && error.recoverability is ReplaceEndpoint
        },
{
}

/// What the schema rejects is for nobody.
pub proof fn law_rejected_envelopes_are_for_nobody(
    envelope: EnvelopeView,
    role: EndpointRole,
    session_id: SessionId,
    generation: Generation,
    protocol: u16,
)
    requires
        envelope_rejection(envelope) is Some,
    ensures
        consumer_rejection(envelope, role, session_id, generation, protocol) is Some,
{
}

/// A failure of the bootstrap keeps its code; it is told apart from every other one, and another
/// endpoint gets over it.
pub proof fn law_bootstrap_failures_take_another_endpoint(code: ErrorCode, operation: &'static str)
    ensures
        schema_report(code, operation).code == code,
        schema_report(code, operation).context == operation,
        schema_report(code, operation).category is Bootstrap,
        schema_report(code, operation).recoverability is ReplaceEndpoint,
{
}

/// Another schema is another version, and a provider that does not suit is against the protocol.
pub proof fn law_unsuited_envelopes_are_told_apart(envelope: EnvelopeView)
    ensures
        envelope_rejection(envelope) matches Some(error) ==> {
            &&& error.code is LayoutVersionMismatch <==> envelope.schema_version != SCHEMA_VERSION
            &&& error.code is ProtocolViolation <==> envelope.schema_version == SCHEMA_VERSION
        },
{
}

} // verus!
