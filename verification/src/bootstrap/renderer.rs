//! Renderer property-list bootstrap validation and ordered provider attachment.

use vstd::prelude::*;
use vstd::slice::slice_to_vec;

use crate::bootstrap::schema::{
    bounds_of_protocol_range, consumer_rejection, descriptor_report, envelope_of,
    envelope_rejection, protocol_range_of_bounds, protocols_report, provider_of_wire, role_of_wire,
    schema_error, schema_report, secret_report, valid_descriptor, valid_protocols, valid_secret,
    BootstrapEnvelope, BootstrapSecret, DescriptorView, EndpointRole, EnvelopeView,
    OpaqueDescriptor, ProtocolRange, ProviderKind, SCHEMA_VERSION,
};
use crate::domain::bytes::{le_at, read_u128};
use crate::domain::capabilities::{RequestedCapabilities, RequiredCapabilities};
use crate::domain::error::{ErrorCode, ErrorReport};
use crate::domain::text_map::TextMap;
use crate::domain::types::{group_identities, Generation, SessionId};
use crate::protocol::{
    EndpointRole as HandshakeRole, HandshakeIdentity, InitiatorConfig, InitiatorHandshake,
    ProtocolVersion, VersionRange,
};

verus! {

broadcast use {group_identities, bounds_of_protocol_range, protocol_range_of_bounds};

/// Property-list scalar copied out of `WebKit` initialization user data.
pub enum PropertyValue {
    /// Unsigned integer.
    Integer(u64),
    /// Opaque data.
    Data(Vec<u8>),
    /// Nested dictionary.
    Dictionary(PropertyDictionary),
}

/// Property-list dictionary in which no key occurs twice.
pub struct PropertyDictionary {
    values: TextMap<PropertyValue>,
}

impl View for PropertyDictionary {
    type V = Map<Seq<char>, PropertyValue>;

    closed spec fn view(&self) -> Map<Seq<char>, PropertyValue> {
        self.values@
    }
}

impl PropertyDictionary {
    /// Creates an empty dictionary.
    pub fn new() -> (created: Self)
        ensures
            created@ == Map::<Seq<char>, PropertyValue>::empty(),
    {
        PropertyDictionary { values: TextMap::new() }
    }

    /// Number of entries.
    pub fn len(&self) -> (count: usize)
        ensures
            self@.dom().finite(),
            count == self@.dom().len(),
    {
        self.values.len()
    }

    /// The value of a key.
    pub fn get(&self, key: &str) -> (found: Option<&PropertyValue>)
        ensures
            match found {
                Some(value) => self@.dom().contains(key@) && *value == self@[key@],
                None => !self@.dom().contains(key@),
            },
    {
        self.values.get(key)
    }

    /// Sets the value of a key.
    pub fn insert(&mut self, key: String, value: PropertyValue)
        ensures
            final(self)@ == old(self)@.insert(key@, value),
    {
        self.values.insert(key, value);
    }

    /// Takes a key out.
    pub fn remove(&mut self, key: &str) -> (taken: Option<PropertyValue>)
        ensures
            final(self)@ == old(self)@.remove(key@),
            match taken {
                Some(value) => old(self)@.dom().contains(key@) && value == old(self)@[key@],
                None => !old(self)@.dom().contains(key@),
            },
    {
        self.values.remove(key)
    }
}

/// Fields of a renderer dictionary.
pub const FIELD_COUNT: usize = 9;

/// Fields of a descriptor dictionary.
pub const DESCRIPTOR_FIELD_COUNT: usize = 2;

/// The report of a field of another type or out of its range.
pub open spec fn type_report() -> ErrorReport {
    schema_report(ErrorCode::ProtocolViolation, "renderer bootstrap field type")
}

/// The report of an absent field.
pub open spec fn absent_report() -> ErrorReport {
    schema_report(ErrorCode::Truncated, "renderer bootstrap required field")
}

fn type_error() -> (created: ErrorReport)
    ensures
        created == type_report(),
{
    schema_error(ErrorCode::ProtocolViolation, "renderer bootstrap field type")
}

fn absent_error() -> (created: ErrorReport)
    ensures
        created == absent_report(),
{
    schema_error(ErrorCode::Truncated, "renderer bootstrap required field")
}

/// The integer of a field.
pub open spec fn integer_at(values: Map<Seq<char>, PropertyValue>, key: Seq<char>) -> Result<
    u64,
    ErrorReport,
> {
    if !values.dom().contains(key) {
        Err(absent_report())
    } else {
        match values[key] {
            PropertyValue::Integer(value) => Ok(value),
            _ => Err(type_report()),
        }
    }
}

/// The 16-bit integer of a field.
pub open spec fn short_at(values: Map<Seq<char>, PropertyValue>, key: Seq<char>) -> Result<
    u16,
    ErrorReport,
> {
    match integer_at(values, key) {
        Ok(value) => if value <= u16::MAX {
            Ok(value as u16)
        } else {
            Err(type_report())
        },
        Err(error) => Err(error),
    }
}

/// The bytes of a field.
pub open spec fn data_at(values: Map<Seq<char>, PropertyValue>, key: Seq<char>) -> Result<
    Seq<u8>,
    ErrorReport,
> {
    if !values.dom().contains(key) {
        Err(absent_report())
    } else {
        match values[key] {
            PropertyValue::Data(bytes) => Ok(bytes@),
            _ => Err(type_report()),
        }
    }
}

/// The session identity of a renderer dictionary.
pub open spec fn session_at(values: Map<Seq<char>, PropertyValue>) -> Result<
    SessionId,
    ErrorReport,
> {
    match data_at(values, "session"@) {
        Ok(bytes) => if bytes.len() == 16 && le_at(bytes, 0, 16) != 0 {
            Ok(SessionId::of(le_at(bytes, 0, 16) as u128))
        } else {
            Err(schema_report(ErrorCode::InvalidRange, "renderer bootstrap session"))
        },
        Err(error) => Err(error),
    }
}

/// The generation of a renderer dictionary.
pub open spec fn generation_at(values: Map<Seq<char>, PropertyValue>) -> Result<
    Generation,
    ErrorReport,
> {
    match integer_at(values, "generation"@) {
        Ok(value) => if value != 0 {
            Ok(Generation::of(value))
        } else {
            Err(schema_report(ErrorCode::InvalidRange, "renderer bootstrap generation"))
        },
        Err(error) => Err(error),
    }
}

/// The protocol interval of a renderer dictionary.
pub open spec fn protocols_at(values: Map<Seq<char>, PropertyValue>) -> Result<
    ProtocolRange,
    ErrorReport,
> {
    match (short_at(values, "protocolMin"@), short_at(values, "protocolMax"@)) {
        (Err(error), _) => Err(error),
        (_, Err(error)) => Err(error),
        (Ok(minimum), Ok(maximum)) => if valid_protocols(minimum, maximum) {
            Ok(ProtocolRange::of(minimum, maximum))
        } else {
            Err(protocols_report())
        },
    }
}

/// The consumer role of a renderer dictionary.
pub open spec fn role_at(values: Map<Seq<char>, PropertyValue>) -> Result<
    EndpointRole,
    ErrorReport,
> {
    match integer_at(values, "role"@) {
        Ok(value) => if value <= u8::MAX && role_of_wire(value as u8) is Some {
            Ok(role_of_wire(value as u8)->0)
        } else {
            Err(schema_report(ErrorCode::ProtocolViolation, "renderer bootstrap role"))
        },
        Err(error) => Err(error),
    }
}

/// The descriptor in a dictionary.
pub open spec fn descriptor_of(values: Map<Seq<char>, PropertyValue>) -> Result<
    DescriptorView,
    ErrorReport,
> {
    match integer_at(values, "provider"@) {
        Err(error) => Err(error),
        Ok(value) => if value > u8::MAX || provider_of_wire(value as u8) is None {
            Err(schema_report(ErrorCode::ProtocolViolation, "renderer bootstrap provider"))
        } else {
            match data_at(values, "data"@) {
                Err(error) => Err(error),
                Ok(bytes) => if values.dom().len() != DESCRIPTOR_FIELD_COUNT {
                    Err(
                        schema_report(
                            ErrorCode::ProtocolViolation,
                            "renderer bootstrap descriptor field",
                        ),
                    )
                } else if !valid_descriptor(bytes) {
                    Err(descriptor_report())
                } else {
                    Ok(DescriptorView { provider: provider_of_wire(value as u8)->0, bytes })
                },
            }
        },
    }
}

/// The descriptor of a field.
pub open spec fn descriptor_at(values: Map<Seq<char>, PropertyValue>, key: Seq<char>) -> Result<
    DescriptorView,
    ErrorReport,
> {
    if !values.dom().contains(key) {
        Err(absent_report())
    } else {
        match values[key] {
            PropertyValue::Dictionary(nested) => descriptor_of(nested@),
            _ => Err(type_report()),
        }
    }
}

/// The secret of a renderer dictionary.
pub open spec fn secret_at(values: Map<Seq<char>, PropertyValue>) -> Result<Seq<u8>, ErrorReport> {
    match data_at(values, "secret"@) {
        Ok(bytes) => if valid_secret(bytes) {
            Ok(bytes)
        } else {
            Err(secret_report())
        },
        Err(error) => Err(error),
    }
}

/// What the fields behind the schema of a renderer dictionary give: the first malformed one
/// decides, in the order in which they are listed.
pub open spec fn dictionary_body(values: Map<Seq<char>, PropertyValue>) -> Result<
    EnvelopeView,
    ErrorReport,
> {
    match (
        session_at(values),
        generation_at(values),
        protocols_at(values),
        role_at(values),
        descriptor_at(values, "memory"@),
        descriptor_at(values, "signal"@),
        secret_at(values),
    ) {
        (Err(error), _, _, _, _, _, _) => Err(error),
        (_, Err(error), _, _, _, _, _) => Err(error),
        (_, _, Err(error), _, _, _, _) => Err(error),
        (_, _, _, Err(error), _, _, _) => Err(error),
        (_, _, _, _, Err(error), _, _) => Err(error),
        (_, _, _, _, _, Err(error), _) => Err(error),
        (_, _, _, _, _, _, Err(error)) => Err(error),
        (
            Ok(session),
            Ok(generation),
            Ok(protocols),
            Ok(role),
            Ok(memory),
            Ok(signal),
            Ok(secret),
        ) => {
            let envelope = envelope_of(
                session,
                generation,
                protocols,
                role,
                memory,
                signal,
                secret,
            );
            if values.dom().len() != FIELD_COUNT {
                Err(
                    schema_report(
                        ErrorCode::ProtocolViolation,
                        "renderer bootstrap unknown field",
                    ),
                )
            } else {
                match envelope_rejection(envelope) {
                    None => Ok(envelope),
                    Some(error) => Err(error),
                }
            }
        },
    }
}

/// What decoding a renderer dictionary gives.
pub open spec fn dictionary_decoded(values: Map<Seq<char>, PropertyValue>) -> Result<
    EnvelopeView,
    ErrorReport,
> {
    match short_at(values, "schema"@) {
        Err(error) => Err(error),
        Ok(schema) => if schema != SCHEMA_VERSION {
            Err(schema_report(ErrorCode::LayoutVersionMismatch, "renderer bootstrap schema"))
        } else {
            dictionary_body(values)
        },
    }
}

fn get_u64(values: &PropertyDictionary, key: &'static str) -> (found: Result<u64, ErrorReport>)
    ensures
        found == integer_at(values@, key@),
{
    match values.get(key) {
        None => Err(absent_error()),
        Some(PropertyValue::Integer(value)) => Ok(*value),
        Some(_) => Err(type_error()),
    }
}

fn get_u16(values: &PropertyDictionary, key: &'static str) -> (found: Result<u16, ErrorReport>)
    ensures
        found == short_at(values@, key@),
{
    let value: u64 = get_u64(values, key)?;
    if value > u16::MAX as u64 {
        return Err(type_error());
    }
    Ok(value as u16)
}

fn get_data<'a>(values: &'a PropertyDictionary, key: &'static str) -> (found: Result<
    &'a Vec<u8>,
    ErrorReport,
>)
    ensures
        match found {
            Ok(bytes) => data_at(values@, key@) == Ok::<Seq<u8>, ErrorReport>(bytes@),
            Err(error) => data_at(values@, key@) == Err::<Seq<u8>, ErrorReport>(error),
        },
{
    match values.get(key) {
        None => Err(absent_error()),
        Some(PropertyValue::Data(bytes)) => Ok(bytes),
        Some(_) => Err(type_error()),
    }
}

fn get_session(values: &PropertyDictionary) -> (found: Result<SessionId, ErrorReport>)
    ensures
        found == session_at(values@),
{
    let bytes = get_data(values, "session")?;
    if bytes.len() != 16 {
        return Err(schema_error(ErrorCode::InvalidRange, "renderer bootstrap session"));
    }
    match SessionId::new(read_u128(bytes.as_slice(), 0)) {
        Some(session) => Ok(session),
        None => Err(schema_error(ErrorCode::InvalidRange, "renderer bootstrap session")),
    }
}

fn get_generation(values: &PropertyDictionary) -> (found: Result<Generation, ErrorReport>)
    ensures
        found == generation_at(values@),
{
    let value: u64 = get_u64(values, "generation")?;
    match Generation::new(value) {
        Some(generation) => Ok(generation),
        None => Err(schema_error(ErrorCode::InvalidRange, "renderer bootstrap generation")),
    }
}

fn get_protocols(values: &PropertyDictionary) -> (found: Result<ProtocolRange, ErrorReport>)
    ensures
        found == protocols_at(values@),
{
    let minimum: u16 = get_u16(values, "protocolMin")?;
    let maximum: u16 = get_u16(values, "protocolMax")?;
    ProtocolRange::new(minimum, maximum)
}

fn get_role(values: &PropertyDictionary) -> (found: Result<EndpointRole, ErrorReport>)
    ensures
        found == role_at(values@),
{
    let value: u64 = get_u64(values, "role")?;
    if value <= u8::MAX as u64 {
        if let Some(role) = EndpointRole::from_wire(value as u8) {
            return Ok(role);
        }
    }
    Err(schema_error(ErrorCode::ProtocolViolation, "renderer bootstrap role"))
}

fn get_descriptor(values: &PropertyDictionary, key: &'static str) -> (found: Result<
    OpaqueDescriptor,
    ErrorReport,
>)
    ensures
        match found {
            Ok(descriptor) => descriptor_at(values@, key@) == Ok::<DescriptorView, ErrorReport>(
                descriptor@,
            ),
            Err(error) => descriptor_at(values@, key@) == Err::<DescriptorView, ErrorReport>(error),
        },
{
    let nested = match values.get(key) {
        None => {
            return Err(absent_error());
        },
        Some(PropertyValue::Dictionary(nested)) => nested,
        Some(_) => {
            return Err(type_error());
        },
    };
    let value: u64 = get_u64(nested, "provider")?;
    let provider = if value <= u8::MAX as u64 {
        ProviderKind::from_wire(value as u8)
    } else {
        None
    };
    match provider {
        None => Err(schema_error(ErrorCode::ProtocolViolation, "renderer bootstrap provider")),
        Some(provider) => {
            let bytes = get_data(nested, "data")?;
            if nested.len() != DESCRIPTOR_FIELD_COUNT {
                return Err(
                    schema_error(
                        ErrorCode::ProtocolViolation,
                        "renderer bootstrap descriptor field",
                    ),
                );
            }
            OpaqueDescriptor::new(provider, slice_to_vec(bytes.as_slice()))
        },
    }
}

/// An attachment that was asked of renderer providers, and what they answered.
pub enum AttachStep<Memory, Signal> {
    /// Shared memory.
    Memory(DescriptorView, Result<Memory, ErrorReport>),
    /// Notifications.
    Signal(DescriptorView, Result<Signal, ErrorReport>),
}

/// Provider attachment operations owned by the injected bundle.
pub trait RendererProviders {
    /// Attached resource handles retained until installation succeeds.
    type Memory;

    /// Attached signal handles retained until installation succeeds.
    type Signal;

    /// The attachments that were asked for, in order.
    open spec fn asked(&self) -> Seq<AttachStep<Self::Memory, Self::Signal>> {
        arbitrary()
    }

    /// Attaches shared memory after all envelope validation passes.
    ///
    /// A structured provider attachment failure is returned.
    fn attach_memory(&mut self, descriptor: &OpaqueDescriptor) -> (attached: Result<
        Self::Memory,
        ErrorReport,
    >)
        ensures
            final(self).asked() == old(self).asked().push(
                AttachStep::Memory(descriptor@, attached),
            ),
    ;

    /// Attaches notifications after memory succeeds.
    ///
    /// A structured provider attachment failure is returned.
    fn attach_signal(&mut self, descriptor: &OpaqueDescriptor) -> (attached: Result<
        Self::Signal,
        ErrorReport,
    >)
        ensures
            final(self).asked() == old(self).asked().push(
                AttachStep::Signal(descriptor@, attached),
            ),
    ;
}

/// A transport that was asked of a factory.
pub struct TransportRequest {
    /// Envelope of the transport.
    pub envelope: EnvelopeView,
    /// Session identity.
    pub session: SessionId,
    /// Resource generation.
    pub generation: Generation,
    /// Selected protocol version.
    pub protocol: u16,
}

/// Provider-erased factory that turns one validated bootstrap into a production transport.
pub trait RendererTransportFactory {
    /// Concrete synchronous endpoint transport.
    type Transport;

    /// The transports that were asked for, in order, with what was answered.
    open spec fn asked(&self) -> Seq<(TransportRequest, Result<Self::Transport, ErrorReport>)> {
        arbitrary()
    }

    /// Attaches resources and completes endpoint protocol negotiation.
    ///
    /// A typed provider, validation, or handshake failure is returned.
    fn create(
        &mut self,
        envelope: BootstrapEnvelope,
        session: SessionId,
        generation: Generation,
        protocol: u16,
    ) -> (created: Result<Self::Transport, ErrorReport>)
        ensures
            final(self).asked() == old(self).asked().push(
                (TransportRequest { envelope: envelope@, session, generation, protocol }, created),
            ),
    ;
}

/// Fully validated renderer resources. Constructing this value is the JS-open gate.
pub struct RendererAttachment<Memory, Signal> {
    /// Attached memory resources.
    pub memory: Memory,
    /// Attached signal resources.
    pub signal: Signal,
    envelope: BootstrapEnvelope,
}

/// The report of a protocol version that an envelope does not offer.
pub open spec fn version_report() -> ErrorReport {
    schema_report(ErrorCode::LayoutVersionMismatch, "renderer protocol version")
}

impl<Memory, Signal> RendererAttachment<Memory, Signal> {
    /// The validated envelope.
    pub closed spec fn validated(self) -> EnvelopeView {
        self.envelope@
    }

    /// The attached memory resources.
    pub closed spec fn attached_memory(self) -> Memory {
        self.memory
    }

    /// The attached signal resources.
    pub closed spec fn attached_signal(self) -> Signal {
        self.signal
    }

    /// Validated envelope identity.
    pub fn envelope(&self) -> (envelope: &BootstrapEnvelope)
        ensures
            envelope@ == self.validated(),
    {
        &self.envelope
    }

    /// Creates the renderer side of the common production HELLO/ACK handshake.
    ///
    /// An invalid selected version, message limit, or proof is rejected before any byte is
    /// emitted.
    pub fn handshake(
        &self,
        protocol: u16,
        maximum_message: u32,
        requested: RequestedCapabilities,
        required: RequiredCapabilities,
    ) -> (created: Result<InitiatorHandshake, ErrorReport>)
        ensures
            ({
                let envelope = self.validated();
                let offered = 0 < protocol <= u8::MAX && envelope.protocols.lowest() <= protocol
                    <= envelope.protocols.highest();
                match created {
                    Ok(handshake) => {
                        let version = ProtocolVersion { major: protocol as u8, minor: 0 };
                        &&& offered
                        &&& maximum_message != 0
                        &&& handshake.step is Created
                        &&& handshake.config.identity.session_id == envelope.session_id
                        &&& handshake.config.identity.generation == envelope.generation
                        &&& handshake.config.identity.role is Renderer
                        &&& handshake.config.remote_role is Peer
                        &&& handshake.config.versions == (VersionRange {
                            minimum: version,
                            maximum: version,
                        })
                        &&& handshake.config.requested == requested
                        &&& handshake.config.required == required
                        &&& handshake.config.maximum_message == maximum_message
                        &&& handshake.config.proof_bytes@ == envelope.secret
                    },
                    Err(error) => if !offered {
                        error == version_report()
                    } else {
                        maximum_message == 0 && error == crate::protocol::handshake_report(
                            ErrorCode::InvalidRange,
                            "handshake message limit",
                        )
                    },
                }
            }),
    {
        if protocol > u8::MAX as u16 {
            return Err(schema_error(ErrorCode::LayoutVersionMismatch, "renderer protocol version"));
        }
        let major: u8 = protocol as u8;
        if major == 0 || !self.envelope.protocols().contains(protocol) {
            return Err(schema_error(ErrorCode::LayoutVersionMismatch, "renderer protocol version"));
        }
        InitiatorHandshake::new(
            InitiatorConfig {
                identity: HandshakeIdentity {
                    session_id: self.envelope.session_id(),
                    generation: self.envelope.generation(),
                    role: HandshakeRole::Renderer,
                },
                remote_role: HandshakeRole::Peer,
                versions: VersionRange::exact(ProtocolVersion::new(major, 0)),
                requested,
                required,
                maximum_message,
                proof_bytes: slice_to_vec(self.envelope.secret().expose()),
            },
        )
    }
}

/// Stateless decoder and ordered attach coordinator.
#[derive(Clone, Copy, Debug, Default, PartialEq, Eq, Structural)]
pub struct RendererBootstrap;

impl RendererBootstrap {
    /// Validates identity and delegates only endpoint attachment to a runtime adapter.
    ///
    /// Stale bootstrap data is rejected before the factory is asked, and factory failures are
    /// passed on.
    pub fn open_transport<Factory: RendererTransportFactory>(
        envelope: BootstrapEnvelope,
        session: SessionId,
        generation: Generation,
        protocol: u16,
        factory: &mut Factory,
    ) -> (opened: Result<Factory::Transport, ErrorReport>)
        ensures
            match consumer_rejection(
                envelope@,
                EndpointRole::Renderer,
                session,
                generation,
                protocol,
            ) {
                Some(error) => {
                    &&& opened == Err::<Factory::Transport, ErrorReport>(error)
                    &&& *final(factory) == *old(factory)
                },
                None => final(factory).asked() == old(factory).asked().push(
                    (
                        TransportRequest { envelope: envelope@, session, generation, protocol },
                        opened,
                    ),
                ),
            },
    {
        envelope.validate_for(EndpointRole::Renderer, session, generation, protocol)?;
        factory.create(envelope, session, generation, protocol)
    }

    /// Decodes a strict property-list dictionary.
    ///
    /// Missing, unknown, mistyped, and mismatched fields are rejected.
    pub fn decode(values: PropertyDictionary) -> (envelope: Result<BootstrapEnvelope, ErrorReport>)
        ensures
            match envelope {
                Ok(found) => dictionary_decoded(values@) == Ok::<EnvelopeView, ErrorReport>(found@),
                Err(error) => dictionary_decoded(values@) == Err::<EnvelopeView, ErrorReport>(
                    error,
                ),
            },
    {
        let mut values = values;
        let schema: u16 = get_u16(&values, "schema")?;
        if schema != SCHEMA_VERSION {
            return Err(schema_error(ErrorCode::LayoutVersionMismatch, "renderer bootstrap schema"));
        }
        let session = get_session(&values)?;
        let generation = get_generation(&values)?;
        let protocols = get_protocols(&values)?;
        let role = get_role(&values)?;
        let memory = get_descriptor(&values, "memory")?;
        let signal = get_descriptor(&values, "signal")?;
        let count: usize = values.len();
        let secret = match values.remove("secret") {
            None => {
                return Err(absent_error());
            },
            Some(PropertyValue::Data(bytes)) => BootstrapSecret::new(bytes)?,
            Some(_) => {
                return Err(type_error());
            },
        };
        if count != FIELD_COUNT {
            return Err(
                schema_error(ErrorCode::ProtocolViolation, "renderer bootstrap unknown field"),
            );
        }
        BootstrapEnvelope::new(session, generation, protocols, role, memory, signal, secret)
    }

    /// Validates endpoint identity before attaching either provider.
    ///
    /// Attachment fails closed and drops a partial memory attachment when signal attachment
    /// fails.
    pub fn attach<Providers: RendererProviders>(
        envelope: BootstrapEnvelope,
        session: SessionId,
        generation: Generation,
        protocol: u16,
        providers: &mut Providers,
    ) -> (attached: Result<RendererAttachment<Providers::Memory, Providers::Signal>, ErrorReport>)
        ensures
            match consumer_rejection(
                envelope@,
                EndpointRole::Renderer,
                session,
                generation,
                protocol,
            ) {
                Some(error) => {
                    &&& attached is Err
                    &&& attached->Err_0 == error
                    &&& *final(providers) == *old(providers)
                },
                None => {
                    let before = old(providers).asked();
                    match attached {
                        Ok(found) => {
                            &&& found.validated() == envelope@
                            &&& final(providers).asked() == before.push(
                                AttachStep::Memory(envelope@.memory, Ok(found.attached_memory())),
                            ).push(AttachStep::Signal(envelope@.signal, Ok(found.attached_signal())))
                        },
                        Err(error) => {
                            ||| final(providers).asked() == before.push(
                                AttachStep::Memory(envelope@.memory, Err(error)),
                            )
                            ||| exists|memory: Providers::Memory|
                                final(providers).asked() == #[trigger] before.push(
                                    AttachStep::Memory(envelope@.memory, Ok(memory)),
                                ).push(AttachStep::Signal(envelope@.signal, Err(error)))
                        },
                    }
                },
            },
    {
        envelope.validate_for(EndpointRole::Renderer, session, generation, protocol)?;
        let memory = providers.attach_memory(envelope.memory())?;
        let signal = providers.attach_signal(envelope.signal())?;
        Ok(RendererAttachment { memory, signal, envelope })
    }
}

/// The names of the fields of a renderer dictionary.
pub open spec fn field_names() -> Set<Seq<char>> {
    set![
        "schema"@,
        "session"@,
        "generation"@,
        "protocolMin"@,
        "protocolMax"@,
        "role"@,
        "memory"@,
        "signal"@,
        "secret"@,
    ]
}

/// The fields of a renderer dictionary have different names.
proof fn lemma_field_names()
    ensures
        field_names().finite(),
        field_names().len() == FIELD_COUNT,
{
    reveal_strlit("schema");
    reveal_strlit("session");
    reveal_strlit("generation");
    reveal_strlit("protocolMin");
    reveal_strlit("protocolMax");
    reveal_strlit("role");
    reveal_strlit("memory");
    reveal_strlit("signal");
    reveal_strlit("secret");
    assert("schema"@[1] == 'c' && "signal"@[1] == 'i' && "secret"@[1] == 'e' && "memory"@[0] == 'm'
        && "schema"@[0] == 's' && "signal"@[0] == 's' && "secret"@[0] == 's');
    assert("protocolMin"@[9] == 'i' && "protocolMax"@[9] == 'a');
    assert("schema"@.len() == 6 && "session"@.len() == 7 && "generation"@.len() == 10
        && "protocolMin"@.len() == 11 && "protocolMax"@.len() == 11 && "role"@.len() == 4
        && "memory"@.len() == 6 && "signal"@.len() == 6 && "secret"@.len() == 6);
    let s1 = Set::<Seq<char>>::empty().insert("schema"@);
    let s2 = s1.insert("session"@);
    let s3 = s2.insert("generation"@);
    let s4 = s3.insert("protocolMin"@);
    let s5 = s4.insert("protocolMax"@);
    let s6 = s5.insert("role"@);
    let s7 = s6.insert("memory"@);
    let s8 = s7.insert("signal"@);
    let s9 = s8.insert("secret"@);
    assert(s1.len() == 1 && s2.len() == 2 && s3.len() == 3 && s4.len() == 4 && s5.len() == 5);
    assert(s6.len() == 6 && s7.len() == 7 && s8.len() == 8 && s9.len() == 9);
    assert(field_names() =~= s9);
}

/// A dictionary that decodes has exactly its fields: one more is an unknown field, and each of them
/// is required.
pub proof fn law_dictionary_is_exact(
    values: Map<Seq<char>, PropertyValue>,
    key: Seq<char>,
    value: PropertyValue,
)
    requires
        values.dom().finite(),
        dictionary_decoded(values) is Ok,
    ensures
        values.dom() == field_names(),
        !values.dom().contains(key) ==> dictionary_decoded(values.insert(key, value)) == Err::<
            EnvelopeView,
            ErrorReport,
        >(schema_report(ErrorCode::ProtocolViolation, "renderer bootstrap unknown field")),
        values.dom().contains(key) ==> dictionary_decoded(values.remove(key)) == Err::<
            EnvelopeView,
            ErrorReport,
        >(absent_report()),
{
    lemma_field_names();
    assert(field_names().subset_of(values.dom()));
    vstd::set_lib::lemma_subset_equality(field_names(), values.dom());
    assert(values.insert(key, value).dom() =~= values.dom().insert(key));
    assert(values.remove(key).dom() =~= values.dom().remove(key));
}

/// The envelope of a dictionary holds what the dictionary says, field by field, and its schema
/// accepts it.
pub proof fn law_envelopes_hold_what_dictionaries_say(
    values: Map<Seq<char>, PropertyValue>,
    envelope: EnvelopeView,
)
    requires
        dictionary_decoded(values) == Ok::<EnvelopeView, ErrorReport>(envelope),
    ensures
        integer_at(values, "schema"@) == Ok::<u64, ErrorReport>(1),
        integer_at(values, "generation"@) == Ok::<u64, ErrorReport>(envelope.generation@),
        integer_at(values, "role"@) == Ok::<u64, ErrorReport>(envelope.role.wire() as u64),
        integer_at(values, "protocolMin"@) == Ok::<u64, ErrorReport>(
            envelope.protocols.lowest() as u64,
        ),
        integer_at(values, "protocolMax"@) == Ok::<u64, ErrorReport>(
            envelope.protocols.highest() as u64,
        ),
        data_at(values, "secret"@) == Ok::<Seq<u8>, ErrorReport>(envelope.secret),
        data_at(values, "session"@) matches Ok(bytes) && bytes.len() == 16 && le_at(bytes, 0, 16)
            == envelope.session_id@,
        values["memory"@] matches PropertyValue::Dictionary(nested) && data_at(nested@, "data"@)
            == Ok::<Seq<u8>, ErrorReport>(envelope.memory.bytes) && integer_at(
            nested@,
            "provider"@,
        ) == Ok::<u64, ErrorReport>(envelope.memory.provider.wire() as u64),
        values["signal"@] matches PropertyValue::Dictionary(nested) && data_at(nested@, "data"@)
            == Ok::<Seq<u8>, ErrorReport>(envelope.signal.bytes) && integer_at(
            nested@,
            "provider"@,
        ) == Ok::<u64, ErrorReport>(envelope.signal.provider.wire() as u64),
        envelope_rejection(envelope) is None,
        envelope.session_id@ != 0,
        envelope.generation@ != 0,
{
    let bytes = data_at(values, "session"@)->Ok_0;
    crate::domain::bytes::lemma_le_limits();
    crate::domain::bytes::lemma_le_value_bound(bytes.subrange(0, 16));
}

/// A number is of sixteen bits exactly where it is below 65536; one that is not, as any other value
/// of the wrong type, is against the protocol.
pub proof fn law_dictionary_values_have_their_type(
    values: Map<Seq<char>, PropertyValue>,
    key: Seq<char>,
    number: u64,
)
    requires
        values.dom().contains(key),
        values[key] == PropertyValue::Integer(number),
    ensures
        integer_at(values, key) == Ok::<u64, ErrorReport>(number),
        data_at(values, key) matches Err(error) && error.code is ProtocolViolation,
        number <= 65535 ==> (short_at(values, key) matches Ok(value) && value == number),
        number > 65535 ==> (short_at(values, key) matches Err(error) && error.code
            is ProtocolViolation),
{
}

/// A session or a generation of zero is out of range; a role, a provider or a field that is not
/// known is against the protocol; another schema is another version.
pub proof fn law_refused_dictionaries_are_told_apart(values: Map<Seq<char>, PropertyValue>)
    ensures
        data_at(values, "session"@) is Ok ==> (session_at(values) matches Err(error) ==> error.code
            is InvalidRange),
        integer_at(values, "generation"@) is Ok ==> (generation_at(values) matches Err(error)
            ==> error.code is InvalidRange),
        integer_at(values, "role"@) is Ok ==> (role_at(values) matches Err(error) ==> error.code
            is ProtocolViolation),
        short_at(values, "schema"@) matches Ok(schema) && schema != SCHEMA_VERSION ==> (
        dictionary_decoded(values) matches Err(error) && error.code is LayoutVersionMismatch),
{
}

/// A version that was not offered is another version, and another endpoint gets over it.
pub proof fn law_other_versions_are_told()
    ensures
        version_report().code is LayoutVersionMismatch,
        version_report().recoverability is ReplaceEndpoint,
        absent_report().code != version_report().code,
{
}

} // verus!
