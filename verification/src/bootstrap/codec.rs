//! Deterministic binary bootstrap envelope codec.

use vstd::prelude::*;
use vstd::slice::slice_subrange;
use vstd::string::StringSliceAdditionalSpecFns;

use crate::bootstrap::schema::{
    bounds_of_protocol_range, descriptor_report, envelope_of, envelope_rejection,
    protocol_range_of_bounds, protocols_report, provider_of_wire, role_of_wire, schema_error,
    schema_report, secret_report, valid_descriptor, valid_protocols, valid_secret,
    BootstrapEnvelope, BootstrapSecret, DescriptorView, EndpointRole, EnvelopeView,
    OpaqueDescriptor, ProtocolRange, ProviderKind, MAX_ENVELOPE_LENGTH, SCHEMA_VERSION,
};
use crate::domain::bytes::{
    copy_range, le_at, le_bytes, lemma_le_at_append, lemma_le_bytes_len, lemma_le_limits,
    lemma_le_round_trip, push_bytes, push_u16, push_u32, push_u64, read_u16, read_u32, read_u64,
    read_u128, starts_with,
};
use crate::domain::error::{ErrorCode, ErrorReport};
use crate::domain::types::{group_identities, Generation, SessionId};

verus! {

broadcast use {group_identities, bounds_of_protocol_range, protocol_range_of_bounds};

/// First bytes of an envelope.
pub const MAGIC: &'static str = "NWBS";

/// Bytes before the first field.
pub const HEADER_LENGTH: usize = 6;

/// Bytes before the value of a field.
pub const FIELD_HEADER_LENGTH: usize = 6;

/// Added to the kind of a field that a reader may not skip.
pub const REQUIRED: u16 = 0x8000;

/// Kind of the session identity.
pub const SESSION: u16 = 1;

/// Kind of the resource generation.
pub const GENERATION: u16 = 2;

/// Kind of the protocol interval.
pub const PROTOCOLS: u16 = 3;

/// Kind of the consumer role.
pub const ROLE: u16 = 4;

/// Kind of the shared-memory descriptor.
pub const MEMORY: u16 = 5;

/// Kind of the notification descriptor.
pub const SIGNAL: u16 = 6;

/// Kind of the authentication material.
pub const SECRET: u16 = 7;

/// The bytes of one field.
pub open spec fn field_bytes(wire_kind: nat, value: Seq<u8>) -> Seq<u8> {
    le_bytes(wire_kind, 2) + le_bytes(value.len(), 4) + value
}

/// The bytes of a required field.
pub open spec fn required_field(kind: u16, value: Seq<u8>) -> Seq<u8> {
    field_bytes((kind + REQUIRED) as nat, value)
}

/// The value of a protocol field.
pub open spec fn protocols_value(protocols: ProtocolRange) -> Seq<u8> {
    le_bytes(protocols.lowest() as nat, 2) + le_bytes(protocols.highest() as nat, 2)
}

/// The value of a descriptor field.
pub open spec fn descriptor_value(descriptor: DescriptorView) -> Seq<u8> {
    seq![descriptor.provider.wire()] + descriptor.bytes
}

/// The bytes before the first field.
pub open spec fn header_bytes() -> Seq<u8> {
    MAGIC.spec_bytes() + le_bytes(SCHEMA_VERSION as nat, 2)
}

/// The canonical encoding of an envelope.
pub open spec fn encoded(envelope: EnvelopeView) -> Seq<u8> {
    header_bytes() + required_field(SESSION, le_bytes(envelope.session_id@ as nat, 16))
        + required_field(GENERATION, le_bytes(envelope.generation@ as nat, 8)) + required_field(
        PROTOCOLS,
        protocols_value(envelope.protocols),
    ) + required_field(ROLE, seq![envelope.role.wire()]) + required_field(
        MEMORY,
        descriptor_value(envelope.memory),
    ) + required_field(SIGNAL, descriptor_value(envelope.signal)) + required_field(
        SECRET,
        envelope.secret,
    )
}

/// The fields found so far.
pub struct FieldsView {
    /// Session identity.
    pub session: Option<SessionId>,
    /// Resource generation.
    pub generation: Option<Generation>,
    /// Offered protocol interval.
    pub protocols: Option<ProtocolRange>,
    /// Intended consumer.
    pub role: Option<EndpointRole>,
    /// Shared-memory descriptor.
    pub memory: Option<DescriptorView>,
    /// Notification descriptor.
    pub signal: Option<DescriptorView>,
    /// Authentication material.
    pub secret: Option<Seq<u8>>,
}

/// No field at all.
pub open spec fn no_fields() -> FieldsView {
    FieldsView {
        session: None,
        generation: None,
        protocols: None,
        role: None,
        memory: None,
        signal: None,
        secret: None,
    }
}

impl FieldsView {
    /// Whether a field of this kind was found.
    pub open spec fn has(self, kind: int) -> bool {
        if kind == SESSION {
            self.session is Some
        } else if kind == GENERATION {
            self.generation is Some
        } else if kind == PROTOCOLS {
            self.protocols is Some
        } else if kind == ROLE {
            self.role is Some
        } else if kind == MEMORY {
            self.memory is Some
        } else if kind == SIGNAL {
            self.signal is Some
        } else {
            kind == SECRET && self.secret is Some
        }
    }

    /// Whether every field was found.
    pub open spec fn is_complete(self) -> bool {
        forall|kind: int| SESSION <= kind <= SECRET ==> #[trigger] self.has(kind)
    }
}

/// The session identity in a field.
pub open spec fn session_in(value: Seq<u8>) -> Result<SessionId, ErrorReport> {
    if value.len() != 16 {
        Err(schema_report(ErrorCode::InvalidRange, "decode bootstrap session"))
    } else if le_at(value, 0, 16) == 0 {
        Err(schema_report(ErrorCode::ProtocolViolation, "decode bootstrap session"))
    } else {
        Ok(SessionId::of(le_at(value, 0, 16) as u128))
    }
}

/// The generation in a field.
pub open spec fn generation_in(value: Seq<u8>) -> Result<Generation, ErrorReport> {
    if value.len() != 8 {
        Err(schema_report(ErrorCode::InvalidRange, "decode bootstrap generation"))
    } else if le_at(value, 0, 8) == 0 {
        Err(schema_report(ErrorCode::ProtocolViolation, "decode bootstrap generation"))
    } else {
        Ok(Generation::of(le_at(value, 0, 8) as u64))
    }
}

/// The protocol interval in a field.
pub open spec fn protocols_in(value: Seq<u8>) -> Result<ProtocolRange, ErrorReport> {
    let minimum = le_at(value, 0, 2) as u16;
    let maximum = le_at(value, 2, 2) as u16;
    if value.len() != 4 {
        Err(schema_report(ErrorCode::InvalidRange, "decode bootstrap protocols"))
    } else if !valid_protocols(minimum, maximum) {
        Err(protocols_report())
    } else {
        Ok(ProtocolRange::of(minimum, maximum))
    }
}

/// The consumer role in a field.
pub open spec fn role_in(value: Seq<u8>) -> Result<EndpointRole, ErrorReport> {
    if value.len() != 1 {
        Err(schema_report(ErrorCode::InvalidRange, "decode bootstrap role"))
    } else {
        match role_of_wire(value[0]) {
            Some(role) => Ok(role),
            None => Err(schema_report(ErrorCode::ProtocolViolation, "decode bootstrap role")),
        }
    }
}

/// The descriptor in a field.
pub open spec fn descriptor_in(value: Seq<u8>) -> Result<DescriptorView, ErrorReport> {
    if value.len() == 0 {
        Err(schema_report(ErrorCode::Truncated, "decode bootstrap descriptor"))
    } else {
        match provider_of_wire(value[0]) {
            None => Err(
                schema_report(ErrorCode::ProtocolViolation, "decode bootstrap provider"),
            ),
            Some(provider) => {
                let bytes = value.subrange(1, value.len() as int);
                if valid_descriptor(bytes) {
                    Ok(DescriptorView { provider, bytes })
                } else {
                    Err(descriptor_report())
                }
            },
        }
    }
}

/// The secret in a field.
pub open spec fn secret_in(value: Seq<u8>) -> Result<Seq<u8>, ErrorReport> {
    if valid_secret(value) {
        Ok(value)
    } else {
        Err(secret_report())
    }
}

/// The fields once a field of a known kind is added.
pub open spec fn with_field(fields: FieldsView, kind: int, value: Seq<u8>) -> Result<
    FieldsView,
    ErrorReport,
> {
    if kind == SESSION {
        match session_in(value) {
            Ok(session) => Ok(FieldsView { session: Some(session), ..fields }),
            Err(error) => Err(error),
        }
    } else if kind == GENERATION {
        match generation_in(value) {
            Ok(generation) => Ok(FieldsView { generation: Some(generation), ..fields }),
            Err(error) => Err(error),
        }
    } else if kind == PROTOCOLS {
        match protocols_in(value) {
            Ok(protocols) => Ok(FieldsView { protocols: Some(protocols), ..fields }),
            Err(error) => Err(error),
        }
    } else if kind == ROLE {
        match role_in(value) {
            Ok(role) => Ok(FieldsView { role: Some(role), ..fields }),
            Err(error) => Err(error),
        }
    } else if kind == MEMORY {
        match descriptor_in(value) {
            Ok(memory) => Ok(FieldsView { memory: Some(memory), ..fields }),
            Err(error) => Err(error),
        }
    } else if kind == SIGNAL {
        match descriptor_in(value) {
            Ok(signal) => Ok(FieldsView { signal: Some(signal), ..fields }),
            Err(error) => Err(error),
        }
    } else {
        match secret_in(value) {
            Ok(secret) => Ok(FieldsView { secret: Some(secret), ..fields }),
            Err(error) => Err(error),
        }
    }
}

/// The fields after one more field on the wire: unknown ones are skipped unless they are
/// required, and no known one may come twice.
pub open spec fn after_field(fields: FieldsView, wire_kind: nat, value: Seq<u8>) -> Result<
    FieldsView,
    ErrorReport,
> {
    let kind = wire_kind % (REQUIRED as nat);
    if !(SESSION <= kind <= SECRET) {
        if wire_kind >= REQUIRED {
            Err(schema_report(ErrorCode::UnknownRequiredFlag, "decode required bootstrap field"))
        } else {
            Ok(fields)
        }
    } else if fields.has(kind as int) {
        Err(schema_report(ErrorCode::ProtocolViolation, "decode duplicate bootstrap field"))
    } else {
        with_field(fields, kind as int, value)
    }
}

/// The fields from a cursor to the end of the input.
#[verifier::opaque]
pub open spec fn fields_from(input: Seq<u8>, cursor: int, fields: FieldsView) -> Result<
    FieldsView,
    ErrorReport,
>
    decreases input.len() - cursor,
{
    let value_start = cursor + FIELD_HEADER_LENGTH;
    let value_end = value_start + le_at(input, cursor + 2, 4);
    if cursor >= input.len() {
        Ok(fields)
    } else if value_start > input.len() || value_end > input.len() {
        Err(schema_report(ErrorCode::Truncated, "decode bootstrap field"))
    } else {
        match after_field(
            fields,
            le_at(input, cursor, 2),
            input.subrange(value_start, value_end),
        ) {
            Ok(more) => fields_from(input, value_end, more),
            Err(error) => Err(error),
        }
    }
}

/// The envelope that complete fields make.
pub open spec fn assembled(fields: FieldsView) -> Result<EnvelopeView, ErrorReport> {
    if !fields.is_complete() {
        Err(schema_report(ErrorCode::Truncated, "decode required bootstrap fields"))
    } else {
        let envelope = envelope_of(
            fields.session->0,
            fields.generation->0,
            fields.protocols->0,
            fields.role->0,
            fields.memory->0,
            fields.signal->0,
            fields.secret->0,
        );
        match envelope_rejection(envelope) {
            None => Ok(envelope),
            Some(error) => Err(error),
        }
    }
}

/// What the fields behind a header give.
pub open spec fn decoded_body(input: Seq<u8>) -> Result<EnvelopeView, ErrorReport> {
    match fields_from(input, HEADER_LENGTH as int, no_fields()) {
        Ok(fields) => assembled(fields),
        Err(error) => Err(error),
    }
}

/// What decoding an input gives.
pub open spec fn decoded(input: Seq<u8>) -> Result<EnvelopeView, ErrorReport> {
    if input.len() > MAX_ENVELOPE_LENGTH {
        Err(schema_report(ErrorCode::InvalidRange, "decode bootstrap length"))
    } else if input.len() < HEADER_LENGTH {
        Err(schema_report(ErrorCode::Truncated, "decode bootstrap header"))
    } else if !MAGIC.spec_bytes().is_prefix_of(input) {
        Err(schema_report(ErrorCode::InvalidMagic, "decode bootstrap magic"))
    } else if le_at(input, 4, 2) != SCHEMA_VERSION {
        Err(schema_report(ErrorCode::LayoutVersionMismatch, "decode bootstrap schema"))
    } else {
        decoded_body(input)
    }
}

fn field(output: &mut Vec<u8>, kind: u16, value: &[u8])
    requires
        kind < REQUIRED,
        value@.len() <= u32::MAX,
    ensures
        final(output)@ == old(output)@ + required_field(kind, value@),
{
    push_u16(output, kind + REQUIRED);
    push_u32(output, value.len() as u32);
    push_bytes(output, value);
    proof {
        assert(output@ =~= old(output)@ + required_field(kind, value@));
    }
}

fn descriptor(output: &mut Vec<u8>, kind: u16, descriptor: &OpaqueDescriptor)
    requires
        kind < REQUIRED,
    ensures
        final(output)@ == old(output)@ + required_field(kind, descriptor_value(descriptor@)),
        valid_descriptor(descriptor@.bytes),
{
    let mut value: Vec<u8> = Vec::new();
    value.push(descriptor.provider().to_wire());
    push_bytes(&mut value, descriptor.bytes());
    proof {
        assert(value@ =~= descriptor_value(descriptor@));
    }
    field(output, kind, value.as_slice())
}

/// Encodes a complete envelope into its canonical peer wire representation.
///
/// An envelope that its schema rejects is not encoded. Every other one fits the fixed maximum.
pub fn encode(envelope: &BootstrapEnvelope) -> (output: Result<Vec<u8>, ErrorReport>)
    ensures
        match output {
            Ok(bytes) => {
                &&& envelope_rejection(envelope@) is None
                &&& bytes@ == encoded(envelope@)
                &&& bytes@.len() <= MAX_ENVELOPE_LENGTH
            },
            Err(error) => envelope_rejection(envelope@) == Some(error),
        },
{
    envelope.validate()?;
    let mut output: Vec<u8> = Vec::new();
    push_bytes(&mut output, MAGIC.as_bytes());
    push_u16(&mut output, SCHEMA_VERSION);
    let session = envelope.session_id().to_bytes();
    proof {
        lemma_le_bytes_len(envelope@.session_id@ as nat, 16);
        lemma_le_bytes_len(envelope@.generation@ as nat, 8);
        lemma_le_bytes_len(envelope@.protocols.lowest() as nat, 2);
        lemma_le_bytes_len(envelope@.protocols.highest() as nat, 2);
    }
    field(&mut output, SESSION, session.as_slice());
    let mut generation: Vec<u8> = Vec::new();
    push_u64(&mut generation, envelope.generation().get());
    proof {
        assert(generation@ =~= le_bytes(envelope@.generation@ as nat, 8));
    }
    field(&mut output, GENERATION, generation.as_slice());
    let mut protocols: Vec<u8> = Vec::new();
    push_u16(&mut protocols, envelope.protocols().minimum());
    push_u16(&mut protocols, envelope.protocols().maximum());
    proof {
        assert(protocols@ =~= protocols_value(envelope@.protocols));
    }
    field(&mut output, PROTOCOLS, protocols.as_slice());
    let mut role: Vec<u8> = Vec::new();
    role.push(envelope.role().to_wire());
    proof {
        assert(role@ =~= seq![envelope@.role.wire()]);
    }
    field(&mut output, ROLE, role.as_slice());
    descriptor(&mut output, MEMORY, envelope.memory());
    descriptor(&mut output, SIGNAL, envelope.signal());
    field(&mut output, SECRET, envelope.secret().expose());
    proof {
        assert(output@ =~= encoded(envelope@));
        lemma_encoded_length(envelope@);
    }
    if output.len() > MAX_ENVELOPE_LENGTH {
        return Err(schema_error(ErrorCode::InvalidRange, "encode bootstrap"));
    }
    Ok(output)
}

/// The parts of a valid envelope fit the fixed maximum.
proof fn lemma_encoded_length(envelope: EnvelopeView)
    requires
        valid_descriptor(envelope.memory.bytes),
        valid_descriptor(envelope.signal.bytes),
        valid_secret(envelope.secret),
    ensures
        encoded(envelope).len() <= MAX_ENVELOPE_LENGTH,
{
    lemma_magic();
    lemma_le_bytes_len(SCHEMA_VERSION as nat, 2);
    lemma_le_bytes_len(envelope.session_id@ as nat, 16);
    lemma_le_bytes_len(envelope.generation@ as nat, 8);
    lemma_le_bytes_len(envelope.protocols.lowest() as nat, 2);
    lemma_le_bytes_len(envelope.protocols.highest() as nat, 2);
    lemma_field_length(SESSION, le_bytes(envelope.session_id@ as nat, 16));
    lemma_field_length(GENERATION, le_bytes(envelope.generation@ as nat, 8));
    lemma_field_length(PROTOCOLS, protocols_value(envelope.protocols));
    lemma_field_length(ROLE, seq![envelope.role.wire()]);
    lemma_field_length(MEMORY, descriptor_value(envelope.memory));
    lemma_field_length(SIGNAL, descriptor_value(envelope.signal));
    lemma_field_length(SECRET, envelope.secret);
}

proof fn lemma_field_length(kind: u16, value: Seq<u8>)
    ensures
        required_field(kind, value).len() == FIELD_HEADER_LENGTH + value.len(),
{
    lemma_le_bytes_len((kind + REQUIRED) as nat, 2);
    lemma_le_bytes_len(value.len(), 4);
}

/// The bytes of the magic text.
proof fn lemma_magic()
    ensures
        MAGIC.spec_bytes().len() == 4,
{
    reveal_strlit("NWBS");
    assert(vstd::string::is_ascii(MAGIC)) by {
        reveal_strlit("NWBS");
    }
    vstd::string::is_ascii_spec_bytes(MAGIC);
}

/// The fields of an envelope that were decoded so far.
pub struct DecodedFields {
    /// Session identity.
    pub session: Option<SessionId>,
    /// Resource generation.
    pub generation: Option<Generation>,
    /// Offered protocol interval.
    pub protocols: Option<ProtocolRange>,
    /// Intended consumer.
    pub role: Option<EndpointRole>,
    /// Shared-memory descriptor.
    pub memory: Option<OpaqueDescriptor>,
    /// Notification descriptor.
    pub signal: Option<OpaqueDescriptor>,
    /// Authentication material.
    pub secret: Option<BootstrapSecret>,
}

/// The descriptor behind an option.
pub open spec fn descriptor_option(descriptor: Option<OpaqueDescriptor>) -> Option<DescriptorView> {
    match descriptor {
        Some(found) => Some(found@),
        None => None,
    }
}

impl View for DecodedFields {
    type V = FieldsView;

    open spec fn view(&self) -> FieldsView {
        FieldsView {
            session: self.session,
            generation: self.generation,
            protocols: self.protocols,
            role: self.role,
            memory: descriptor_option(self.memory),
            signal: descriptor_option(self.signal),
            secret: match self.secret {
                Some(found) => Some(found@),
                None => None,
            },
        }
    }
}

impl DecodedFields {
    /// No field at all.
    pub fn new() -> (fields: Self)
        ensures
            fields@ == no_fields(),
    {
        DecodedFields {
            session: None,
            generation: None,
            protocols: None,
            role: None,
            memory: None,
            signal: None,
            secret: None,
        }
    }

    fn contains(&self, kind: u16) -> (found: bool)
        ensures
            found == self@.has(kind as int),
    {
        if kind == SESSION {
            self.session.is_some()
        } else if kind == GENERATION {
            self.generation.is_some()
        } else if kind == PROTOCOLS {
            self.protocols.is_some()
        } else if kind == ROLE {
            self.role.is_some()
        } else if kind == MEMORY {
            self.memory.is_some()
        } else if kind == SIGNAL {
            self.signal.is_some()
        } else {
            kind == SECRET && self.secret.is_some()
        }
    }

    /// Adds one field as it stands on the wire.
    ///
    /// Unknown optional fields are skipped; unknown required ones, second ones and malformed
    /// ones are rejected.
    pub fn add_field(&mut self, wire_kind: u16, value: &[u8]) -> (added: Result<(), ErrorReport>)
        ensures
            match added {
                Ok(_) => after_field(old(self)@, wire_kind as nat, value@) == Ok::<
                    FieldsView,
                    ErrorReport,
                >(final(self)@),
                Err(error) => {
                    &&& after_field(old(self)@, wire_kind as nat, value@) == Err::<
                        FieldsView,
                        ErrorReport,
                    >(error)
                    &&& *final(self) == *old(self)
                },
            },
    {
        let kind: u16 = wire_kind % REQUIRED;
        if kind < SESSION || kind > SECRET {
            if wire_kind >= REQUIRED {
                return Err(
                    schema_error(
                        ErrorCode::UnknownRequiredFlag,
                        "decode required bootstrap field",
                    ),
                );
            }
            return Ok(());
        }
        if self.contains(kind) {
            return Err(
                schema_error(ErrorCode::ProtocolViolation, "decode duplicate bootstrap field"),
            );
        }
        if kind == SESSION {
            let session = decode_session(value)?;
            self.session = Some(session);
        } else if kind == GENERATION {
            let generation = decode_generation(value)?;
            self.generation = Some(generation);
        } else if kind == PROTOCOLS {
            let protocols = decode_protocols(value)?;
            self.protocols = Some(protocols);
        } else if kind == ROLE {
            let role = decode_role(value)?;
            self.role = Some(role);
        } else if kind == MEMORY {
            let memory = decode_descriptor(value)?;
            self.memory = Some(memory);
        } else if kind == SIGNAL {
            let signal = decode_descriptor(value)?;
            self.signal = Some(signal);
        } else {
            let secret = BootstrapSecret::new(copy_range(value, 0, value.len()))?;
            proof {
                assert(value@.subrange(0, value@.len() as int) =~= value@);
            }
            self.secret = Some(secret);
        }
        Ok(())
    }

    /// Makes an envelope of complete fields.
    pub fn assemble(self) -> (envelope: Result<BootstrapEnvelope, ErrorReport>)
        ensures
            match envelope {
                Ok(found) => assembled(self@) == Ok::<EnvelopeView, ErrorReport>(found@),
                Err(error) => assembled(self@) == Err::<EnvelopeView, ErrorReport>(error),
            },
    {
        match (
            self.session,
            self.generation,
            self.protocols,
            self.role,
            self.memory,
            self.signal,
            self.secret,
        ) {
            (
                Some(session),
                Some(generation),
                Some(protocols),
                Some(role),
                Some(memory),
                Some(signal),
                Some(secret),
            ) => BootstrapEnvelope::new(
                session,
                generation,
                protocols,
                role,
                memory,
                signal,
                secret,
            ),
            _ => {
                proof {
                    lemma_all_kinds(self@);
                }
                Err(schema_error(ErrorCode::Truncated, "decode required bootstrap fields"))
            },
        }
    }
}

/// Complete fields have each kind.
proof fn lemma_all_kinds(fields: FieldsView)
    ensures
        fields.is_complete() == {
            &&& fields.session is Some
            &&& fields.generation is Some
            &&& fields.protocols is Some
            &&& fields.role is Some
            &&& fields.memory is Some
            &&& fields.signal is Some
            &&& fields.secret is Some
        },
{
    assert(fields.has(SESSION as int) == fields.session is Some);
    assert(fields.has(GENERATION as int) == fields.generation is Some);
    assert(fields.has(PROTOCOLS as int) == fields.protocols is Some);
    assert(fields.has(ROLE as int) == fields.role is Some);
    assert(fields.has(MEMORY as int) == fields.memory is Some);
    assert(fields.has(SIGNAL as int) == fields.signal is Some);
    assert(fields.has(SECRET as int) == fields.secret is Some);
}

fn decode_session(value: &[u8]) -> (decoded: Result<SessionId, ErrorReport>)
    ensures
        decoded == session_in(value@),
{
    if value.len() != 16 {
        return Err(schema_error(ErrorCode::InvalidRange, "decode bootstrap session"));
    }
    match SessionId::new(read_u128(value, 0)) {
        Some(session) => Ok(session),
        None => Err(schema_error(ErrorCode::ProtocolViolation, "decode bootstrap session")),
    }
}

fn decode_generation(value: &[u8]) -> (decoded: Result<Generation, ErrorReport>)
    ensures
        decoded == generation_in(value@),
{
    if value.len() != 8 {
        return Err(schema_error(ErrorCode::InvalidRange, "decode bootstrap generation"));
    }
    match Generation::new(read_u64(value, 0)) {
        Some(generation) => Ok(generation),
        None => Err(schema_error(ErrorCode::ProtocolViolation, "decode bootstrap generation")),
    }
}

fn decode_protocols(value: &[u8]) -> (decoded: Result<ProtocolRange, ErrorReport>)
    ensures
        decoded == protocols_in(value@),
{
    if value.len() != 4 {
        return Err(schema_error(ErrorCode::InvalidRange, "decode bootstrap protocols"));
    }
    ProtocolRange::new(read_u16(value, 0), read_u16(value, 2))
}

fn decode_role(value: &[u8]) -> (decoded: Result<EndpointRole, ErrorReport>)
    ensures
        decoded == role_in(value@),
{
    if value.len() != 1 {
        return Err(schema_error(ErrorCode::InvalidRange, "decode bootstrap role"));
    }
    match EndpointRole::from_wire(value[0]) {
        Some(role) => Ok(role),
        None => Err(schema_error(ErrorCode::ProtocolViolation, "decode bootstrap role")),
    }
}

fn decode_descriptor(value: &[u8]) -> (decoded: Result<OpaqueDescriptor, ErrorReport>)
    ensures
        match decoded {
            Ok(found) => descriptor_in(value@) == Ok::<DescriptorView, ErrorReport>(found@),
            Err(error) => descriptor_in(value@) == Err::<DescriptorView, ErrorReport>(error),
        },
{
    if value.len() == 0 {
        return Err(schema_error(ErrorCode::Truncated, "decode bootstrap descriptor"));
    }
    match ProviderKind::from_wire(value[0]) {
        None => Err(schema_error(ErrorCode::ProtocolViolation, "decode bootstrap provider")),
        Some(provider) => OpaqueDescriptor::new(provider, copy_range(value, 1, value.len())),
    }
}

/// Decodes an exact bootstrap envelope, rejecting trailing, duplicate, and required unknown
/// fields.
///
/// A typed bootstrap error is returned for malformed or unsupported input.
pub fn decode(input: &[u8]) -> (envelope: Result<BootstrapEnvelope, ErrorReport>)
    ensures
        match envelope {
            Ok(found) => decoded(input@) == Ok::<EnvelopeView, ErrorReport>(found@),
            Err(error) => decoded(input@) == Err::<EnvelopeView, ErrorReport>(error),
        },
{
    if input.len() > MAX_ENVELOPE_LENGTH {
        return Err(schema_error(ErrorCode::InvalidRange, "decode bootstrap length"));
    }
    if input.len() < HEADER_LENGTH {
        return Err(schema_error(ErrorCode::Truncated, "decode bootstrap header"));
    }
    if !starts_with(input, MAGIC.as_bytes()) {
        return Err(schema_error(ErrorCode::InvalidMagic, "decode bootstrap magic"));
    }
    if read_u16(input, 4) != SCHEMA_VERSION {
        return Err(schema_error(ErrorCode::LayoutVersionMismatch, "decode bootstrap schema"));
    }
    let mut cursor: usize = HEADER_LENGTH;
    let mut fields = DecodedFields::new();
    while cursor < input.len()
        invariant
            cursor <= input@.len() <= MAX_ENVELOPE_LENGTH,
            decoded(input@) == decoded_body(input@),
            fields_from(input@, cursor as int, fields@) == fields_from(
                input@,
                HEADER_LENGTH as int,
                no_fields(),
            ),
        decreases input@.len() - cursor,
    {
        proof {
            reveal_with_fuel(fields_from, 2);
        }
        if input.len() - cursor < FIELD_HEADER_LENGTH {
            return Err(schema_error(ErrorCode::Truncated, "decode bootstrap field"));
        }
        let wire_kind: u16 = read_u16(input, cursor);
        let length: u32 = read_u32(input, cursor + 2);
        let start: usize = cursor + FIELD_HEADER_LENGTH;
        if (input.len() - start) < length as usize {
            return Err(schema_error(ErrorCode::Truncated, "decode bootstrap field"));
        }
        let end: usize = start + length as usize;
        let value = slice_subrange(input, start, end);
        fields.add_field(wire_kind, value)?;
        cursor = end;
    }
    proof {
        reveal_with_fuel(fields_from, 2);
    }
    fields.assemble()
}

/// Whether an envelope can have been made: its parts are valid and its schema accepts it.
pub open spec fn sendable(envelope: EnvelopeView) -> bool {
    &&& envelope_rejection(envelope) is None
    &&& envelope.session_id@ != 0
    &&& envelope.generation@ != 0
    &&& valid_protocols(envelope.protocols.lowest(), envelope.protocols.highest())
    &&& valid_descriptor(envelope.memory.bytes)
    &&& valid_descriptor(envelope.signal.bytes)
    &&& valid_secret(envelope.secret)
}

/// Decoding what was encoded gives the envelope back.
pub proof fn law_decoding_undoes_encoding(envelope: EnvelopeView)
    requires
        sendable(envelope),
    ensures
        decoded(encoded(envelope)) == Ok::<EnvelopeView, ErrorReport>(envelope),
{
    let input = encoded(envelope);
    lemma_encoded_length(envelope);
    lemma_encoded_header(envelope);
    lemma_encoded_fields(envelope);
    lemma_all_kinds(fields_of(envelope));
}

/// An unknown optional field behind an accepted envelope changes nothing.
pub proof fn law_unknown_optional_field_is_ignored(input: Seq<u8>, kind: u16, value: Seq<u8>)
    requires
        decoded(input) is Ok,
        kind == 0 || SECRET < kind < REQUIRED,
        input.len() + FIELD_HEADER_LENGTH + value.len() <= MAX_ENVELOPE_LENGTH,
    ensures
        decoded(input + field_bytes(kind as nat, value)) == decoded(input),
{
    lemma_appended_field(input, kind as nat, value);
}

/// An unknown required field behind an accepted envelope is rejected.
pub proof fn law_unknown_required_field_is_rejected(input: Seq<u8>, kind: u16, value: Seq<u8>)
    requires
        decoded(input) is Ok,
        kind == 0 || SECRET < kind < REQUIRED,
        input.len() + FIELD_HEADER_LENGTH + value.len() <= MAX_ENVELOPE_LENGTH,
    ensures
        decoded(input + required_field(kind, value)) == Err::<EnvelopeView, ErrorReport>(
            schema_report(ErrorCode::UnknownRequiredFlag, "decode required bootstrap field"),
        ),
{
    lemma_appended_field(input, (kind + REQUIRED) as nat, value);
}

/// A known field behind an accepted envelope is a duplicate and is rejected.
pub proof fn law_duplicate_field_is_rejected(input: Seq<u8>, kind: u16, value: Seq<u8>)
    requires
        decoded(input) is Ok,
        SESSION <= kind <= SECRET,
        input.len() + FIELD_HEADER_LENGTH + value.len() <= MAX_ENVELOPE_LENGTH,
    ensures
        decoded(input + required_field(kind, value)) == Err::<EnvelopeView, ErrorReport>(
            schema_report(ErrorCode::ProtocolViolation, "decode duplicate bootstrap field"),
        ),
        decoded(input + field_bytes(kind as nat, value)) == Err::<EnvelopeView, ErrorReport>(
            schema_report(ErrorCode::ProtocolViolation, "decode duplicate bootstrap field"),
        ),
{
    lemma_appended_field(input, (kind + REQUIRED) as nat, value);
    lemma_appended_field(input, kind as nat, value);
    let fields = fields_from(input, HEADER_LENGTH as int, no_fields())->Ok_0;
    assert(fields.has(kind as int));
}

/// The value of the field of a kind.
pub open spec fn field_value(envelope: EnvelopeView, kind: u16) -> Seq<u8> {
    if kind == SESSION {
        le_bytes(envelope.session_id@ as nat, 16)
    } else if kind == GENERATION {
        le_bytes(envelope.generation@ as nat, 8)
    } else if kind == PROTOCOLS {
        protocols_value(envelope.protocols)
    } else if kind == ROLE {
        seq![envelope.role.wire()]
    } else if kind == MEMORY {
        descriptor_value(envelope.memory)
    } else if kind == SIGNAL {
        descriptor_value(envelope.signal)
    } else {
        envelope.secret
    }
}

/// How the kind of a field is written.
pub open spec fn wire_kind_of(kind: u16, required: bool) -> nat {
    (kind + if required {
        REQUIRED
    } else {
        0
    }) as nat
}

/// The fields of an envelope in an order, from a place on, each marked as required or not.
pub open spec fn wire_fields(
    envelope: EnvelopeView,
    order: Seq<(u16, bool)>,
    place: int,
) -> Seq<u8>
    decreases order.len() - place,
{
    if place >= order.len() {
        Seq::empty()
    } else {
        field_bytes(
            wire_kind_of(order[place].0, order[place].1),
            field_value(envelope, order[place].0),
        ) + wire_fields(envelope, order, place + 1)
    }
}

/// Whether an order names known kinds, and none of them twice.
pub open spec fn names_kinds_once(order: Seq<(u16, bool)>) -> bool {
    &&& forall|index: int|
        0 <= index < order.len() ==> SESSION <= (#[trigger] order[index]).0 <= SECRET
    &&& forall|left: int, right: int|
        0 <= left < right < order.len() ==> (#[trigger] order[left]).0 != (
        #[trigger] order[right]).0
}

/// Whether an order names a kind.
pub open spec fn names_kind(order: Seq<(u16, bool)>, kind: u16) -> bool {
    exists|index: int| 0 <= index < order.len() && (#[trigger] order[index]).0 == kind
}

/// Whether an order names every kind.
pub open spec fn names_every_kind(order: Seq<(u16, bool)>) -> bool {
    forall|kind: u16| SESSION <= kind <= SECRET ==> #[trigger] names_kind(order, kind)
}

/// The order in which fields are encoded.
pub open spec fn canonical_order() -> Seq<(u16, bool)> {
    seq![
        (SESSION, true),
        (GENERATION, true),
        (PROTOCOLS, true),
        (ROLE, true),
        (MEMORY, true),
        (SIGNAL, true),
        (SECRET, true),
    ]
}

/// The order of the fields, and whether a known one is marked as required, do not change what is
/// decoded; the canonical encoding is one of these orders.
pub proof fn law_field_order_is_free(envelope: EnvelopeView, order: Seq<(u16, bool)>)
    requires
        sendable(envelope),
        names_kinds_once(order),
        names_every_kind(order),
    ensures
        decoded(header_bytes() + wire_fields(envelope, order, 0)) == Ok::<
            EnvelopeView,
            ErrorReport,
        >(envelope),
        encoded(envelope) == header_bytes() + wire_fields(envelope, canonical_order(), 0),
{
    let input = header_bytes() + wire_fields(envelope, order, 0);
    let kinds = kinds_before(order, order.len() as int);
    lemma_magic();
    lemma_le_limits();
    lemma_le_bytes_len(SCHEMA_VERSION as nat, 2);
    lemma_le_round_trip(SCHEMA_VERSION as nat, 2);
    lemma_canonical_order();
    lemma_encoded_is_canonical(envelope);
    lemma_encoded_length(envelope);
    assert forall|kind: u16| SESSION <= kind <= SECRET implies kinds.contains(kind) by {
        assert(names_kind(order, kind));
        lemma_kinds_before(order, order.len() as int, kind);
    }
    lemma_fields_in_order(envelope, order, 0, header_bytes());
    lemma_fields_in_order(envelope, canonical_order(), 0, header_bytes());
    assert(fields_among(envelope, Set::empty()) == no_fields());
    assert(fields_among(envelope, kinds) == fields_of(envelope));
    assert(size_among(envelope, kinds) == size_among(
        envelope,
        kinds_before(canonical_order(), 7),
    ));
    assert(MAGIC.spec_bytes().is_prefix_of(input));
    assert(input.subrange(4, 6) =~= le_bytes(SCHEMA_VERSION as nat, 2));
    lemma_all_kinds(fields_of(envelope));
}

/// Every proper prefix of an encoded envelope is truncated, whether it ends inside a field or
/// between two.
pub proof fn law_truncated_envelopes_are_rejected(envelope: EnvelopeView, length: int)
    requires
        sendable(envelope),
        0 <= length < encoded(envelope).len(),
    ensures
        decoded(encoded(envelope).take(length)) matches Err(error) && error.code is Truncated,
{
    let whole = encoded(envelope);
    let input = whole.take(length);
    lemma_encoded_length(envelope);
    if length >= HEADER_LENGTH {
        lemma_magic();
        lemma_le_bytes_len(SCHEMA_VERSION as nat, 2);
        lemma_encoded_header(envelope);
        lemma_canonical_order();
        lemma_encoded_is_canonical(envelope);
        assert(MAGIC.spec_bytes().is_prefix_of(input)) by {
            assert(input.subrange(0, 4) =~= whole.subrange(0, 4));
        }
        assert(input.subrange(4, 6) =~= whole.subrange(4, 6));
        assert(fields_among(envelope, Set::empty()) == no_fields());
        lemma_truncated_fields(envelope, canonical_order(), 0, header_bytes(), length);
    }
}

/// An encoded envelope holds at least its header.
pub proof fn lemma_encoded_is_not_empty(envelope: EnvelopeView)
    ensures
        encoded(envelope).len() >= HEADER_LENGTH,
{
    lemma_encoded_header(envelope);
}

/// The fields of an envelope.
spec fn fields_of(envelope: EnvelopeView) -> FieldsView {
    FieldsView {
        session: Some(envelope.session_id),
        generation: Some(envelope.generation),
        protocols: Some(envelope.protocols),
        role: Some(envelope.role),
        memory: Some(envelope.memory),
        signal: Some(envelope.signal),
        secret: Some(envelope.secret),
    }
}

/// A field in the middle of an input is the next one at its offset.
proof fn lemma_next_field(
    left: Seq<u8>,
    wire_kind: nat,
    value: Seq<u8>,
    right: Seq<u8>,
    fields: FieldsView,
)
    requires
        wire_kind < 0x1_0000,
        value.len() < 0x1_0000_0000,
    ensures
        ({
            let input = left + field_bytes(wire_kind, value) + right;
            fields_from(input, left.len() as int, fields) == match after_field(
                fields,
                wire_kind,
                value,
            ) {
                Ok(more) => fields_from(
                    input,
                    left.len() + FIELD_HEADER_LENGTH + value.len(),
                    more,
                ),
                Err(error) => Err(error),
            }
        }),
{
    let input = left + field_bytes(wire_kind, value) + right;
    let cursor = left.len() as int;
    reveal_with_fuel(fields_from, 2);
    lemma_le_limits();
    lemma_le_bytes_len(wire_kind, 2);
    lemma_le_bytes_len(value.len(), 4);
    lemma_le_at_append(left, wire_kind, 2, le_bytes(value.len(), 4) + value + right);
    assert(input =~= left + le_bytes(wire_kind, 2) + (le_bytes(value.len(), 4) + value + right));
    lemma_le_at_append(left + le_bytes(wire_kind, 2), value.len(), 4, value + right);
    assert(input =~= left + le_bytes(wire_kind, 2) + le_bytes(value.len(), 4) + (value + right));
    assert(input.subrange(
        cursor + FIELD_HEADER_LENGTH,
        cursor + FIELD_HEADER_LENGTH + value.len(),
    ) =~= value);
}

/// Fields behind an input do not change how the input itself is read.
proof fn lemma_fields_of_prefix(input: Seq<u8>, more: Seq<u8>, cursor: int, fields: FieldsView)
    requires
        0 <= cursor <= input.len(),
        fields_from(input, cursor, fields) is Ok,
    ensures
        fields_from(input + more, cursor, fields) == fields_from(
            input + more,
            input.len() as int,
            fields_from(input, cursor, fields)->Ok_0,
        ),
    decreases input.len() - cursor,
{
    reveal_with_fuel(fields_from, 2);
    if cursor < input.len() {
        let all = input + more;
        let value_start = cursor + FIELD_HEADER_LENGTH;
        assert(all.subrange(cursor + 2, cursor + 6) =~= input.subrange(cursor + 2, cursor + 6));
        assert(all.subrange(cursor, cursor + 2) =~= input.subrange(cursor, cursor + 2));
        let value_end = value_start + le_at(input, cursor + 2, 4);
        assert(all.subrange(value_start, value_end) =~= input.subrange(value_start, value_end));
        let next = after_field(
            fields,
            le_at(input, cursor, 2),
            input.subrange(value_start, value_end),
        );
        lemma_fields_of_prefix(input, more, value_end, next->Ok_0);
    }
}

/// One field behind an accepted input decides what becomes of it.
proof fn lemma_appended_field(input: Seq<u8>, wire_kind: nat, value: Seq<u8>)
    requires
        decoded(input) is Ok,
        wire_kind < 0x1_0000,
        input.len() + FIELD_HEADER_LENGTH + value.len() <= MAX_ENVELOPE_LENGTH,
    ensures
        ({
            let fields = fields_from(input, HEADER_LENGTH as int, no_fields())->Ok_0;
            &&& decoded(input + field_bytes(wire_kind, value)) == match after_field(
                fields,
                wire_kind,
                value,
            ) {
                Ok(more) => assembled(more),
                Err(error) => Err(error),
            }
            &&& decoded(input) == assembled(fields)
            &&& fields.is_complete()
        }),
{
    let extra = field_bytes(wire_kind, value);
    let all = input + extra;
    let fields = fields_from(input, HEADER_LENGTH as int, no_fields())->Ok_0;
    reveal_with_fuel(fields_from, 2);
    lemma_le_bytes_len(wire_kind, 2);
    lemma_le_bytes_len(value.len(), 4);
    lemma_magic();
    assert(MAGIC.spec_bytes().is_prefix_of(all));
    assert(all.subrange(4, 6) =~= input.subrange(4, 6));
    lemma_fields_of_prefix(input, extra, HEADER_LENGTH as int, no_fields());
    lemma_next_field(input, wire_kind, value, Seq::empty(), fields);
    assert(all =~= input + extra + Seq::<u8>::empty());
    match after_field(fields, wire_kind, value) {
        Ok(more) => {
            assert(fields_from(all, all.len() as int, more) == Ok::<FieldsView, ErrorReport>(more));
        },
        Err(_) => {},
    }
}

/// An encoded envelope begins with its header.
proof fn lemma_encoded_header(envelope: EnvelopeView)
    ensures
        encoded(envelope).len() >= HEADER_LENGTH,
        MAGIC.spec_bytes().is_prefix_of(encoded(envelope)),
        le_at(encoded(envelope), 4, 2) == SCHEMA_VERSION,
{
    let input = encoded(envelope);
    lemma_magic();
    lemma_le_limits();
    lemma_le_bytes_len(SCHEMA_VERSION as nat, 2);
    lemma_le_round_trip(SCHEMA_VERSION as nat, 2);
    assert(input.subrange(0, 4) =~= MAGIC.spec_bytes());
    assert(input.subrange(4, 6) =~= le_bytes(SCHEMA_VERSION as nat, 2));
}

/// The values of an encoded envelope read as its parts.
proof fn lemma_field_values(envelope: EnvelopeView)
    requires
        sendable(envelope),
    ensures
        session_in(le_bytes(envelope.session_id@ as nat, 16)) == Ok::<SessionId, ErrorReport>(
            envelope.session_id,
        ),
        generation_in(le_bytes(envelope.generation@ as nat, 8)) == Ok::<Generation, ErrorReport>(
            envelope.generation,
        ),
        protocols_in(protocols_value(envelope.protocols)) == Ok::<ProtocolRange, ErrorReport>(
            envelope.protocols,
        ),
        role_in(seq![envelope.role.wire()]) == Ok::<EndpointRole, ErrorReport>(envelope.role),
        descriptor_in(descriptor_value(envelope.memory)) == Ok::<DescriptorView, ErrorReport>(
            envelope.memory,
        ),
        descriptor_in(descriptor_value(envelope.signal)) == Ok::<DescriptorView, ErrorReport>(
            envelope.signal,
        ),
        le_bytes(envelope.session_id@ as nat, 16).len() == 16,
        le_bytes(envelope.generation@ as nat, 8).len() == 8,
        protocols_value(envelope.protocols).len() == 4,
{
    let session = envelope.session_id@ as nat;
    let generation = envelope.generation@ as nat;
    let minimum = envelope.protocols.lowest() as nat;
    let maximum = envelope.protocols.highest() as nat;
    let empty = Seq::<u8>::empty();
    lemma_le_limits();
    lemma_le_bytes_len(session, 16);
    lemma_le_bytes_len(generation, 8);
    lemma_le_bytes_len(minimum, 2);
    lemma_le_bytes_len(maximum, 2);
    lemma_le_at_append(empty, session, 16, empty);
    assert(empty + le_bytes(session, 16) + empty =~= le_bytes(session, 16));
    lemma_le_at_append(empty, generation, 8, empty);
    assert(empty + le_bytes(generation, 8) + empty =~= le_bytes(generation, 8));
    lemma_le_at_append(empty, minimum, 2, le_bytes(maximum, 2));
    assert(empty + le_bytes(minimum, 2) + le_bytes(maximum, 2) =~= protocols_value(
        envelope.protocols,
    ));
    lemma_le_at_append(le_bytes(minimum, 2), maximum, 2, empty);
    assert(le_bytes(minimum, 2) + le_bytes(maximum, 2) + empty =~= protocols_value(
        envelope.protocols,
    ));
    let memory = descriptor_value(envelope.memory);
    let signal = descriptor_value(envelope.signal);
    assert(memory.subrange(1, memory.len() as int) =~= envelope.memory.bytes);
    assert(signal.subrange(1, signal.len() as int) =~= envelope.signal.bytes);
}

/// The part of an envelope's fields whose kinds are among these.
spec fn fields_among(envelope: EnvelopeView, kinds: Set<u16>) -> FieldsView {
    FieldsView {
        session: if kinds.contains(SESSION) {
            Some(envelope.session_id)
        } else {
            None
        },
        generation: if kinds.contains(GENERATION) {
            Some(envelope.generation)
        } else {
            None
        },
        protocols: if kinds.contains(PROTOCOLS) {
            Some(envelope.protocols)
        } else {
            None
        },
        role: if kinds.contains(ROLE) {
            Some(envelope.role)
        } else {
            None
        },
        memory: if kinds.contains(MEMORY) {
            Some(envelope.memory)
        } else {
            None
        },
        signal: if kinds.contains(SIGNAL) {
            Some(envelope.signal)
        } else {
            None
        },
        secret: if kinds.contains(SECRET) {
            Some(envelope.secret)
        } else {
            None
        },
    }
}

/// The bytes of an envelope's fields whose kinds are among these.
spec fn size_among(envelope: EnvelopeView, kinds: Set<u16>) -> int {
    size_if(envelope, kinds, SESSION) + size_if(envelope, kinds, GENERATION) + size_if(
        envelope,
        kinds,
        PROTOCOLS,
    ) + size_if(envelope, kinds, ROLE) + size_if(envelope, kinds, MEMORY) + size_if(
        envelope,
        kinds,
        SIGNAL,
    ) + size_if(envelope, kinds, SECRET)
}

spec fn size_if(envelope: EnvelopeView, kinds: Set<u16>, kind: u16) -> int {
    if kinds.contains(kind) {
        FIELD_HEADER_LENGTH + field_value(envelope, kind).len()
    } else {
        0
    }
}

/// The kinds that an order names before a place.
spec fn kinds_before(order: Seq<(u16, bool)>, place: int) -> Set<u16>
    decreases place,
{
    if place <= 0 {
        Set::empty()
    } else {
        kinds_before(order, place - 1).insert(order[place - 1].0)
    }
}

proof fn lemma_kinds_before(order: Seq<(u16, bool)>, place: int, kind: u16)
    requires
        0 <= place <= order.len(),
    ensures
        kinds_before(order, place).contains(kind) <==> exists|index: int|
            0 <= index < place && (#[trigger] order[index]).0 == kind,
    decreases place,
{
    if place > 0 {
        lemma_kinds_before(order, place - 1, kind);
        if order[place - 1].0 == kind {
            assert(order[place - 1].0 == kind);
        }
    }
}

/// One more field of an envelope is read as its part.
proof fn lemma_field_among(envelope: EnvelopeView, kinds: Set<u16>, kind: u16, required: bool)
    requires
        sendable(envelope),
        SESSION <= kind <= SECRET,
        !kinds.contains(kind),
    ensures
        after_field(
            fields_among(envelope, kinds),
            wire_kind_of(kind, required),
            field_value(envelope, kind),
        ) == Ok::<FieldsView, ErrorReport>(fields_among(envelope, kinds.insert(kind))),
        size_among(envelope, kinds.insert(kind)) == size_among(envelope, kinds)
            + FIELD_HEADER_LENGTH + field_value(envelope, kind).len(),
        field_value(envelope, kind).len() < 0x1_0000_0000,
        wire_kind_of(kind, required) < 0x1_0000,
{
    lemma_field_values(envelope);
    assert(wire_kind_of(kind, required) % (REQUIRED as nat) == kind);
}

proof fn lemma_wire_field_length(envelope: EnvelopeView, kind: u16, required: bool)
    ensures
        field_bytes(wire_kind_of(kind, required), field_value(envelope, kind)).len()
            == FIELD_HEADER_LENGTH + field_value(envelope, kind).len(),
{
    lemma_le_bytes_len(wire_kind_of(kind, required), 2);
    lemma_le_bytes_len(field_value(envelope, kind).len(), 4);
}

/// Reading the fields of an order from a place on finds all that it names.
proof fn lemma_fields_in_order(
    envelope: EnvelopeView,
    order: Seq<(u16, bool)>,
    place: int,
    left: Seq<u8>,
)
    requires
        sendable(envelope),
        names_kinds_once(order),
        0 <= place <= order.len(),
    ensures
        fields_from(
            left + wire_fields(envelope, order, place),
            left.len() as int,
            fields_among(envelope, kinds_before(order, place)),
        ) == Ok::<FieldsView, ErrorReport>(
            fields_among(envelope, kinds_before(order, order.len() as int)),
        ),
        wire_fields(envelope, order, place).len() == size_among(
            envelope,
            kinds_before(order, order.len() as int),
        ) - size_among(envelope, kinds_before(order, place)),
    decreases order.len() - place,
{
    let input = left + wire_fields(envelope, order, place);
    let before = kinds_before(order, place);
    if place == order.len() {
        reveal_with_fuel(fields_from, 2);
        assert(input =~= left);
    } else {
        let (kind, required) = order[place];
        let field = field_bytes(wire_kind_of(kind, required), field_value(envelope, kind));
        let rest = wire_fields(envelope, order, place + 1);
        lemma_kinds_before(order, place, kind);
        lemma_field_among(envelope, before, kind, required);
        lemma_wire_field_length(envelope, kind, required);
        lemma_next_field(
            left,
            wire_kind_of(kind, required),
            field_value(envelope, kind),
            rest,
            fields_among(envelope, before),
        );
        assert(input =~= left + field + rest);
        assert(kinds_before(order, place + 1) == before.insert(kind));
        lemma_fields_in_order(envelope, order, place + 1, left + field);
    }
}

/// Reading the fields of an order from a place on, of which the last bytes are missing, finds a
/// truncated field or fewer than all fields.
proof fn lemma_truncated_fields(
    envelope: EnvelopeView,
    order: Seq<(u16, bool)>,
    place: int,
    left: Seq<u8>,
    length: int,
)
    requires
        sendable(envelope),
        names_kinds_once(order),
        0 <= place <= order.len(),
        left.len() <= length < left.len() + wire_fields(envelope, order, place).len(),
    ensures
        ({
            let input = (left + wire_fields(envelope, order, place)).take(length);
            match fields_from(
                input,
                left.len() as int,
                fields_among(envelope, kinds_before(order, place)),
            ) {
                Ok(fields) => !fields.is_complete(),
                Err(error) => error.code is Truncated,
            }
        }),
    decreases order.len() - place,
{
    let whole = left + wire_fields(envelope, order, place);
    let input = whole.take(length);
    let before = kinds_before(order, place);
    let fields = fields_among(envelope, before);
    let cursor = left.len() as int;
    let (kind, required) = order[place];
    let wire_kind = wire_kind_of(kind, required);
    let value = field_value(envelope, kind);
    let field = field_bytes(wire_kind, value);
    let rest = wire_fields(envelope, order, place + 1);
    lemma_kinds_before(order, place, kind);
    lemma_field_among(envelope, before, kind, required);
    lemma_wire_field_length(envelope, kind, required);
    assert(whole =~= left + field + rest);
    if length == cursor {
        reveal_with_fuel(fields_from, 2);
        assert(!fields.has(kind as int));
    } else if length < cursor + field.len() {
        reveal_with_fuel(fields_from, 2);
        if length >= cursor + FIELD_HEADER_LENGTH {
            lemma_le_limits();
            lemma_le_bytes_len(wire_kind, 2);
            lemma_le_bytes_len(value.len(), 4);
            lemma_le_at_append(left + le_bytes(wire_kind, 2), value.len(), 4, value + rest);
            assert(whole =~= left + le_bytes(wire_kind, 2) + le_bytes(value.len(), 4) + (value
                + rest));
            assert(input.subrange(cursor + 2, cursor + 6) =~= whole.subrange(
                cursor + 2,
                cursor + 6,
            ));
        }
    } else {
        let kept = rest.take(length - cursor - field.len());
        assert(input =~= left + field + kept);
        lemma_next_field(left, wire_kind, value, kept, fields);
        assert(kinds_before(order, place + 1) == before.insert(kind));
        lemma_truncated_fields(envelope, order, place + 1, left + field, length);
        assert((left + field + rest).take(length) =~= input);
    }
}

/// Seven parts behind a first one may be put together from either end.
proof fn lemma_seven_parts(p: Seq<Seq<u8>>)
    requires
        p.len() == 8,
    ensures
        p[0] + p[1] + p[2] + p[3] + p[4] + p[5] + p[6] + p[7]
            == p[0] + (p[1] + (p[2] + (p[3] + (p[4]
            + (p[5] + (p[6] + (p[7] + Seq::<u8>::empty()))))))),
{
    let last = p[6] + (p[7] + Seq::<u8>::empty());
    let middle = p[4] + (p[5] + last);
    assert(last =~= p[6] + p[7]);
    assert(middle =~= p[4] + p[5] + p[6] + p[7]);
    let first = p[0] + p[1] + p[2] + p[3];
    assert(p[0] + (p[1] + (p[2] + (p[3] + middle))) =~= first + middle);
    assert(first + middle =~= first + p[4] + p[5] + p[6] + p[7]);
}

/// The canonical order names every kind once.
proof fn lemma_canonical_order()
    ensures
        names_kinds_once(canonical_order()),
        forall|kind: u16|
            SESSION <= kind <= SECRET ==> #[trigger] kinds_before(canonical_order(), 7).contains(
                kind,
            ),
{
    let order = canonical_order();
    assert forall|kind: u16| SESSION <= kind <= SECRET implies #[trigger] kinds_before(
        order,
        7,
    ).contains(kind) by {
        assert(order[kind - 1].0 == kind);
        lemma_kinds_before(order, 7, kind);
    }
}

/// An encoded envelope is its fields in their canonical order, all of them required.
proof fn lemma_encoded_is_canonical(envelope: EnvelopeView)
    ensures
        encoded(envelope) == header_bytes() + wire_fields(envelope, canonical_order(), 0),
{
    let order = canonical_order();
    let part = |kind: u16| required_field(kind, field_value(envelope, kind));
    lemma_seven_parts(
        seq![
            header_bytes(),
            part(SESSION),
            part(GENERATION),
            part(PROTOCOLS),
            part(ROLE),
            part(MEMORY),
            part(SIGNAL),
            part(SECRET),
        ],
    );
    reveal_with_fuel(wire_fields, 8);
}

/// The fields of an encoded envelope are its parts.
proof fn lemma_encoded_fields(envelope: EnvelopeView)
    requires
        sendable(envelope),
    ensures
        fields_from(encoded(envelope), HEADER_LENGTH as int, no_fields()) == Ok::<
            FieldsView,
            ErrorReport,
        >(fields_of(envelope)),
{
    lemma_magic();
    lemma_le_bytes_len(SCHEMA_VERSION as nat, 2);
    lemma_canonical_order();
    lemma_encoded_is_canonical(envelope);
    lemma_fields_in_order(envelope, canonical_order(), 0, header_bytes());
    assert(fields_among(envelope, Set::empty()) == no_fields());
    assert(fields_among(envelope, kinds_before(canonical_order(), 7)) == fields_of(envelope));
}

/// A field of another length is out of range, one with a value that means nothing against the
/// protocol.
pub proof fn law_refused_fields_are_told_apart(value: Seq<u8>)
    ensures
        session_in(value) matches Err(error) ==> {
            &&& error.code is InvalidRange <==> value.len() != 16
            &&& error.code is ProtocolViolation <==> value.len() == 16
        },
        generation_in(value) matches Err(error) ==> {
            &&& error.code is InvalidRange <==> value.len() != 8
            &&& error.code is ProtocolViolation <==> value.len() == 8
        },
        protocols_in(value) matches Err(error) ==> error.code is InvalidRange,
        role_in(value) matches Err(error) ==> {
            &&& error.code is InvalidRange <==> value.len() != 1
            &&& error.code is ProtocolViolation <==> value.len() == 1
        },
        descriptor_in(value) matches Err(error) ==> {
            &&& error.code is Truncated <==> value.len() == 0
            &&& error.code is ProtocolViolation <==> value.len() > 0 && provider_of_wire(value[0])
                is None
            &&& error.code is InvalidRange <==> value.len() > 0 && provider_of_wire(value[0])
                is Some
        },
{
}

/// Of an envelope its length is looked at first, then its magic and its schema; an unknown field is
/// refused only where it is required, and a known one only where it comes again.
pub proof fn law_refused_envelopes_are_told_in_order(
    input: Seq<u8>,
    fields: FieldsView,
    wire_kind: nat,
    value: Seq<u8>,
)
    ensures
        ({
            let whole = HEADER_LENGTH <= input.len() <= MAX_ENVELOPE_LENGTH;
            let named = MAGIC.spec_bytes().is_prefix_of(input);
            &&& input.len() > MAX_ENVELOPE_LENGTH ==> (decoded(input) matches Err(error)
                && error.code is InvalidRange)
            &&& input.len() < HEADER_LENGTH ==> (decoded(input) matches Err(error) && error.code
                is Truncated)
            &&& whole && !named ==> (decoded(input) matches Err(error) && error.code
                is InvalidMagic)
            &&& whole && named && le_at(input, 4, 2) != SCHEMA_VERSION ==> (decoded(
                input,
            ) matches Err(error) && error.code is LayoutVersionMismatch)
        }),
        !fields.is_complete() ==> (assembled(fields) matches Err(error) && error.code is Truncated),
        ({
            let kind = wire_kind % (REQUIRED as nat);
            &&& !(SESSION <= kind <= SECRET) && wire_kind < REQUIRED ==> after_field(
                fields,
                wire_kind,
                value,
            ) == Ok::<FieldsView, ErrorReport>(fields)
            &&& !(SESSION <= kind <= SECRET) && wire_kind >= REQUIRED ==> (after_field(
                fields,
                wire_kind,
                value,
            ) matches Err(error) && error.code is UnknownRequiredFlag)
            &&& SESSION <= kind <= SECRET && fields.has(kind as int) ==> (after_field(
                fields,
                wire_kind,
                value,
            ) matches Err(error) && error.code is ProtocolViolation)
        }),
{
}

} // verus!
