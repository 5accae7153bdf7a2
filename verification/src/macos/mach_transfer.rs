//! One-shot, identity-bound Mach capability transfer.
//!
//! A platform adapter first delivers one end of [`AuthenticatedControlEndpoint`] over an already
//! authenticated control plane. The host then moves exactly two memory-entry send rights, one
//! signal send right, and one signal receive right in a single Mach message.
//!
//! Task-local port names never enter an encoded descriptor, property list, diagnostic, or rendered
//! representation.

use vstd::prelude::*;

use crate::bootstrap::schema::{role_of_wire, EndpointRole};
use crate::domain::error::{
    report, unsupported_report, ErrorCategory, ErrorCode, ErrorReport, Recoverability,
};
use crate::domain::text::{decimal, decimal_digits};
use crate::domain::types::{group_identities, Generation, SessionId};
use crate::macos::rights::{
    adoption_rejection, NativeFailure, NativeRight, OwnedMachReceiveRight, OwnedMachSendRight,
    MACH_PORT_NULL,
};

verus! {

broadcast use group_identities;

/// Rights in a transfer.
pub const CAPABILITY_COUNT: usize = 4;

/// Version of the control message.
pub const CONTROL_VERSION: u16 = 1;

/// The bytes `NWIPCMX1`, least significant first.
pub const CONTROL_MAGIC: u64 = 0x3158_4d43_5049_574e;

/// Identifier of a transfer message.
pub const TRANSFER_MESSAGE_ID: i32 = 0x4e57_4d31;

/// Bytes of a native transfer message.
pub const TRANSFER_MESSAGE_SIZE: u32 = 128;

/// Disposition that moves a receive right.
pub const MOVE_RECEIVE: u8 = 16;

/// Disposition that moves a send right.
pub const MOVE_SEND: u8 = 17;

/// Type of a descriptor that carries a port.
pub const PORT_DESCRIPTOR: u8 = 0;

/// The report of a transfer failure.
pub open spec fn transfer_report(
    category: ErrorCategory,
    code: ErrorCode,
    operation: &'static str,
) -> ErrorReport {
    report(
        category,
        code,
        if code is StaleGeneration || code is ReplayDetected {
            Recoverability::ReplaceEndpoint
        } else {
            Recoverability::Terminal
        },
        operation,
    )
}

fn transfer_error(category: ErrorCategory, code: ErrorCode, operation: &'static str) -> (created:
    ErrorReport)
    ensures
        created == transfer_report(category, code, operation),
{
    let recoverability = match code {
        ErrorCode::StaleGeneration => Recoverability::ReplaceEndpoint,
        ErrorCode::ReplayDetected => Recoverability::ReplaceEndpoint,
        _ => Recoverability::Terminal,
    };
    ErrorReport::new(category, code, recoverability, operation)
}

/// The report on a malformed message.
pub open spec fn message_report() -> ErrorReport {
    transfer_report(
        ErrorCategory::Protocol,
        ErrorCode::ProtocolViolation,
        "validate Mach capability message",
    )
}

fn protocol_error() -> (created: ErrorReport)
    ensures
        created == message_report(),
{
    transfer_error(
        ErrorCategory::Protocol,
        ErrorCode::ProtocolViolation,
        "validate Mach capability message",
    )
}

/// Session identity, generation, and endpoint role authenticated by the control plane.
#[derive(Clone, Copy, PartialEq, Eq, Structural)]
pub struct TransferIdentity {
    /// Session bound to the transferred rights.
    pub session_id: SessionId,
    /// Resource generation bound to the transferred rights.
    pub generation: Generation,
    /// Only endpoint role allowed to consume the transfer.
    pub role: EndpointRole,
}

impl TransferIdentity {
    /// Creates the identity expected by exactly one endpoint attach.
    pub fn new(session_id: SessionId, generation: Generation, role: EndpointRole) -> (identity:
        Self)
        ensures
            identity == (TransferIdentity { session_id, generation, role }),
    {
        TransferIdentity { session_id, generation, role }
    }

    /// Session bound to the transferred rights.
    pub fn session_id(self) -> (session_id: SessionId)
        ensures
            session_id == self.session_id,
    {
        self.session_id
    }

    /// Resource generation bound to the transferred rights.
    pub fn generation(self) -> (generation: Generation)
        ensures
            generation == self.generation,
    {
        self.generation
    }

    /// Only endpoint role allowed to consume the transfer.
    pub fn role(self) -> (role: EndpointRole)
        ensures
            role == self.role,
    {
        self.role
    }

    /// Renders the identity without its session.
    pub fn to_text(&self) -> (text: String)
        ensures
            text@ == identity_text(*self),
    {
        let mut text = String::from_str("TransferIdentity { session_id: ");
        text.append(self.session_id.to_text().as_str());
        text.append(", generation: Generation(");
        text.append(decimal(self.generation.get()).as_str());
        text.append("), role: ");
        text.append(self.role.name());
        text.append(" }");
        text
    }
}

/// How an identity is rendered.
pub open spec fn identity_text(identity: TransferIdentity) -> Seq<char> {
    "TransferIdentity { session_id: "@ + "SessionId(<redacted>)"@ + ", generation: Generation("@
        + decimal_digits(identity.generation@ as nat) + "), role: "@ + identity.role.spec_name()@
        + " }"@
}

/// Fixed semantic slot for one transferred Mach right.
#[derive(Clone, Copy, Debug, PartialEq, Eq, Structural)]
pub enum CapabilityKind {
    /// Writable memory entry for frames produced by this endpoint.
    OutboundMemory,
    /// Readable memory entry for frames consumed by this endpoint.
    InboundMemory,
    /// Send right used to hint the remote listener.
    OutboundSignal,
    /// Receive right moved to the sole local listener.
    InboundSignal,
}

/// The kind with a wire value.
pub open spec fn kind_of_wire(value: u8) -> Option<CapabilityKind> {
    if value == 1 {
        Some(CapabilityKind::OutboundMemory)
    } else if value == 2 {
        Some(CapabilityKind::InboundMemory)
    } else if value == 3 {
        Some(CapabilityKind::OutboundSignal)
    } else if value == 4 {
        Some(CapabilityKind::InboundSignal)
    } else {
        None
    }
}

impl CapabilityKind {
    /// The stable wire value.
    pub open spec fn wire(self) -> u8 {
        match self {
            CapabilityKind::OutboundMemory => 1,
            CapabilityKind::InboundMemory => 2,
            CapabilityKind::OutboundSignal => 3,
            CapabilityKind::InboundSignal => 4,
        }
    }

    /// The stable wire value.
    pub fn to_wire(self) -> (value: u8)
        ensures
            value == self.wire(),
    {
        match self {
            CapabilityKind::OutboundMemory => 1,
            CapabilityKind::InboundMemory => 2,
            CapabilityKind::OutboundSignal => 3,
            CapabilityKind::InboundSignal => 4,
        }
    }

    /// Finds the kind with a wire value.
    pub fn from_wire(value: u8) -> (kind: Option<Self>)
        ensures
            kind == kind_of_wire(value),
    {
        match value {
            1 => Some(CapabilityKind::OutboundMemory),
            2 => Some(CapabilityKind::InboundMemory),
            3 => Some(CapabilityKind::OutboundSignal),
            4 => Some(CapabilityKind::InboundSignal),
            _ => None,
        }
    }

    /// Name of the kind.
    pub open spec fn spec_name(self) -> &'static str {
        match self {
            CapabilityKind::OutboundMemory => "OutboundMemory",
            CapabilityKind::InboundMemory => "InboundMemory",
            CapabilityKind::OutboundSignal => "OutboundSignal",
            CapabilityKind::InboundSignal => "InboundSignal",
        }
    }

    /// Name of the kind.
    pub fn name(self) -> (name: &'static str)
        ensures
            name == self.spec_name(),
    {
        match self {
            CapabilityKind::OutboundMemory => "OutboundMemory",
            CapabilityKind::InboundMemory => "InboundMemory",
            CapabilityKind::OutboundSignal => "OutboundSignal",
            CapabilityKind::InboundSignal => "InboundSignal",
        }
    }
}

/// Meanings of the descriptors of a transfer, in order.
#[derive(Clone, Copy, Debug, PartialEq, Eq, Structural)]
pub struct DescriptorKinds {
    /// Meaning of the first descriptor.
    pub first: CapabilityKind,
    /// Meaning of the second descriptor.
    pub second: CapabilityKind,
    /// Meaning of the third descriptor.
    pub third: CapabilityKind,
    /// Meaning of the fourth descriptor.
    pub fourth: CapabilityKind,
}

/// The only order of descriptors that a transfer has.
pub open spec fn canonical_kinds() -> DescriptorKinds {
    DescriptorKinds {
        first: CapabilityKind::OutboundMemory,
        second: CapabilityKind::InboundMemory,
        third: CapabilityKind::OutboundSignal,
        fourth: CapabilityKind::InboundSignal,
    }
}

impl DescriptorKinds {
    /// The only order of descriptors that a transfer has.
    pub fn canonical() -> (kinds: Self)
        ensures
            kinds == canonical_kinds(),
    {
        DescriptorKinds {
            first: CapabilityKind::OutboundMemory,
            second: CapabilityKind::InboundMemory,
            third: CapabilityKind::OutboundSignal,
            fourth: CapabilityKind::InboundSignal,
        }
    }
}

/// Redacted, fixed-shape metadata accompanying a capability message.
#[derive(Clone, Copy, PartialEq, Eq, Structural)]
pub struct TransferManifest {
    /// Identity authenticated before provider attachment.
    pub identity: TransferIdentity,
    /// Ordered descriptor meanings.
    pub kinds: DescriptorKinds,
}

/// The manifest of a transfer to an endpoint.
pub open spec fn manifest_of(identity: TransferIdentity) -> TransferManifest {
    TransferManifest { identity, kinds: canonical_kinds() }
}

/// Why a manifest is not for the expected endpoint, if it is not.
pub open spec fn manifest_rejection(
    manifest: TransferManifest,
    expected: TransferIdentity,
) -> Option<ErrorReport> {
    if manifest.identity.session_id != expected.session_id || manifest.identity.role
        != expected.role {
        Some(
            transfer_report(
                ErrorCategory::Security,
                ErrorCode::AuthenticationFailed,
                "authenticate Mach capability endpoint",
            ),
        )
    } else if manifest.identity.generation != expected.generation {
        Some(
            transfer_report(
                ErrorCategory::Bootstrap,
                ErrorCode::StaleGeneration,
                "validate Mach capability generation",
            ),
        )
    } else if manifest.kinds != canonical_kinds() {
        Some(
            transfer_report(
                ErrorCategory::Protocol,
                ErrorCode::ProtocolViolation,
                "validate Mach capability metadata",
            ),
        )
    } else {
        None
    }
}

/// A manifest is for an endpoint if and only if it is the manifest of that endpoint.
pub proof fn law_manifest_is_identity_bound(manifest: TransferManifest, expected: TransferIdentity)
    ensures
        manifest_rejection(manifest, expected) is None <==> manifest == manifest_of(expected),
{
}

impl TransferManifest {
    /// Creates the canonical four-right manifest for one endpoint.
    pub fn new(identity: TransferIdentity) -> (manifest: Self)
        ensures
            manifest == manifest_of(identity),
    {
        TransferManifest { identity, kinds: DescriptorKinds::canonical() }
    }

    /// Identity authenticated before provider attachment.
    pub fn identity(self) -> (identity: TransferIdentity)
        ensures
            identity == self.identity,
    {
        self.identity
    }

    /// Ordered descriptor meanings.
    pub fn kinds(self) -> (kinds: DescriptorKinds)
        ensures
            kinds == self.kinds,
    {
        self.kinds
    }

    /// Checks that the manifest is for the expected endpoint.
    pub fn validate_for(self, expected: TransferIdentity) -> (validated: Result<(), ErrorReport>)
        ensures
            match validated {
                Ok(_) => manifest_rejection(self, expected) is None,
                Err(error) => manifest_rejection(self, expected) == Some(error),
            },
    {
        if self.identity.session_id != expected.session_id || self.identity.role != expected.role {
            return Err(
                transfer_error(
                    ErrorCategory::Security,
                    ErrorCode::AuthenticationFailed,
                    "authenticate Mach capability endpoint",
                ),
            );
        }
        if self.identity.generation != expected.generation {
            return Err(
                transfer_error(
                    ErrorCategory::Bootstrap,
                    ErrorCode::StaleGeneration,
                    "validate Mach capability generation",
                ),
            );
        }
        if self.kinds != DescriptorKinds::canonical() {
            return Err(
                transfer_error(
                    ErrorCategory::Protocol,
                    ErrorCode::ProtocolViolation,
                    "validate Mach capability metadata",
                ),
            );
        }
        Ok(())
    }

    /// Renders the manifest without its session.
    pub fn to_text(&self) -> (text: String)
        ensures
            text@ == manifest_text(*self),
    {
        let mut text = String::from_str("TransferManifest { identity: ");
        text.append(self.identity.to_text().as_str());
        text.append(", kinds: [");
        text.append(self.kinds.first.name());
        text.append(", ");
        text.append(self.kinds.second.name());
        text.append(", ");
        text.append(self.kinds.third.name());
        text.append(", ");
        text.append(self.kinds.fourth.name());
        text.append("] }");
        text
    }
}

/// How a manifest is rendered.
pub open spec fn manifest_text(manifest: TransferManifest) -> Seq<char> {
    "TransferManifest { identity: "@ + identity_text(manifest.identity) + ", kinds: ["@
        + manifest.kinds.first.spec_name()@ + ", "@ + manifest.kinds.second.spec_name()@ + ", "@
        + manifest.kinds.third.spec_name()@ + ", "@ + manifest.kinds.fourth.spec_name()@ + "] }"@
}

/// Metadata of a capability message as the native message carries it.
#[derive(Clone, Copy, PartialEq, Eq, Structural)]
pub struct WireMetadata {
    /// Format of the message.
    pub magic: u64,
    /// Version of the message.
    pub version: u16,
    /// Role of the endpoint.
    pub role: u8,
    /// Count of descriptors.
    pub descriptor_count: u8,
    /// Value of the session identity.
    pub session_id: u128,
    /// Value of the generation.
    pub generation: u64,
    /// Kind of the first descriptor.
    pub first: u8,
    /// Kind of the second descriptor.
    pub second: u8,
    /// Kind of the third descriptor.
    pub third: u8,
    /// Kind of the fourth descriptor.
    pub fourth: u8,
    /// Zero.
    pub reserved: u32,
}

/// The metadata of a manifest.
pub open spec fn metadata_of(manifest: TransferManifest) -> WireMetadata {
    WireMetadata {
        magic: CONTROL_MAGIC,
        version: CONTROL_VERSION,
        role: manifest.identity.role.wire(),
        descriptor_count: 4,
        session_id: manifest.identity.session_id@,
        generation: manifest.identity.generation@,
        first: manifest.kinds.first.wire(),
        second: manifest.kinds.second.wire(),
        third: manifest.kinds.third.wire(),
        fourth: manifest.kinds.fourth.wire(),
        reserved: 0,
    }
}

/// Whether every kind of metadata is known.
pub open spec fn kinds_known(metadata: WireMetadata) -> bool {
    &&& 1 <= metadata.first <= 4
    &&& 1 <= metadata.second <= 4
    &&& 1 <= metadata.third <= 4
    &&& 1 <= metadata.fourth <= 4
}

/// What decoding metadata gives.
pub open spec fn decoded_manifest(metadata: WireMetadata) -> Result<TransferManifest, ErrorReport> {
    if metadata.magic != CONTROL_MAGIC || metadata.version != CONTROL_VERSION
        || metadata.descriptor_count != CAPABILITY_COUNT || metadata.reserved != 0
        || metadata.session_id == 0 {
        Err(message_report())
    } else if metadata.generation == 0 {
        Err(
            transfer_report(
                ErrorCategory::Bootstrap,
                ErrorCode::StaleGeneration,
                "validate Mach capability generation",
            ),
        )
    } else if role_of_wire(metadata.role) is None || !kinds_known(metadata) {
        Err(message_report())
    } else {
        Ok(
            TransferManifest {
                identity: TransferIdentity {
                    session_id: SessionId::of(metadata.session_id),
                    generation: Generation::of(metadata.generation),
                    role: role_of_wire(metadata.role)->0,
                },
                kinds: DescriptorKinds {
                    first: kind_of_wire(metadata.first)->0,
                    second: kind_of_wire(metadata.second)->0,
                    third: kind_of_wire(metadata.third)->0,
                    fourth: kind_of_wire(metadata.fourth)->0,
                },
            },
        )
    }
}

/// Decoding the metadata of a manifest gives the manifest back.
pub proof fn law_metadata_round_trip(manifest: TransferManifest)
    requires
        manifest.identity.session_id@ != 0,
        manifest.identity.generation@ != 0,
    ensures
        decoded_manifest(metadata_of(manifest)) == Ok::<TransferManifest, ErrorReport>(manifest),
{
}

/// Encodes a manifest for the native message.
pub fn encode_manifest(manifest: TransferManifest) -> (metadata: WireMetadata)
    ensures
        metadata == metadata_of(manifest),
{
    WireMetadata {
        magic: CONTROL_MAGIC,
        version: CONTROL_VERSION,
        role: manifest.identity.role.to_wire(),
        descriptor_count: 4,
        session_id: manifest.identity.session_id.get(),
        generation: manifest.identity.generation.get(),
        first: manifest.kinds.first.to_wire(),
        second: manifest.kinds.second.to_wire(),
        third: manifest.kinds.third.to_wire(),
        fourth: manifest.kinds.fourth.to_wire(),
        reserved: 0,
    }
}

fn decode_kind(value: u8) -> (kind: Result<CapabilityKind, ErrorReport>)
    ensures
        match kind_of_wire(value) {
            Some(found) => kind == Ok::<CapabilityKind, ErrorReport>(found),
            None => kind == Err::<CapabilityKind, ErrorReport>(message_report()),
        },
{
    match CapabilityKind::from_wire(value) {
        Some(kind) => Ok(kind),
        None => Err(protocol_error()),
    }
}

/// Decodes the metadata of a native message.
///
/// Unknown formats, versions, roles and kinds, and zero identities are rejected.
pub fn decode_manifest(metadata: &WireMetadata) -> (decoded: Result<TransferManifest, ErrorReport>)
    ensures
        decoded == decoded_manifest(*metadata),
{
    if metadata.magic != CONTROL_MAGIC || metadata.version != CONTROL_VERSION
        || metadata.descriptor_count as usize != CAPABILITY_COUNT || metadata.reserved != 0 {
        return Err(protocol_error());
    }
    let session_id = match SessionId::from_u128(metadata.session_id) {
        Some(session_id) => session_id,
        None => {
            return Err(protocol_error());
        },
    };
    let generation = match Generation::new(metadata.generation) {
        Some(generation) => generation,
        None => {
            return Err(
                transfer_error(
                    ErrorCategory::Bootstrap,
                    ErrorCode::StaleGeneration,
                    "validate Mach capability generation",
                ),
            );
        },
    };
    let role = match EndpointRole::from_wire(metadata.role) {
        Some(role) => role,
        None => {
            return Err(protocol_error());
        },
    };
    let first = decode_kind(metadata.first)?;
    let second = decode_kind(metadata.second)?;
    let third = decode_kind(metadata.third)?;
    let fourth = decode_kind(metadata.fourth)?;
    Ok(
        TransferManifest {
            identity: TransferIdentity::new(session_id, generation, role),
            kinds: DescriptorKinds { first, second, third, fourth },
        },
    )
}

/// One port of a native message.
#[derive(Clone, Copy, PartialEq, Eq, Structural)]
pub struct PortDescriptor {
    /// Task-local name.
    pub name: u32,
    /// How the right is moved.
    pub disposition: u8,
    /// Type of the descriptor.
    pub descriptor_type: u8,
}

/// A native message that carries capabilities.
pub struct CapabilityMessage {
    /// Identifier of the message.
    pub id: i32,
    /// Bytes of the message.
    pub size: u32,
    /// Count of descriptors that the message declares.
    pub descriptor_count: u32,
    /// The descriptors.
    pub descriptors: Vec<PortDescriptor>,
    /// The metadata.
    pub metadata: WireMetadata,
}

/// The disposition of a descriptor of a transfer.
pub open spec fn disposition_at(index: int) -> u8 {
    if index == CAPABILITY_COUNT - 1 {
        MOVE_RECEIVE
    } else {
        MOVE_SEND
    }
}

/// The descriptor that moves a right.
pub open spec fn moving(name: u32, index: int) -> PortDescriptor {
    PortDescriptor { name, disposition: disposition_at(index), descriptor_type: PORT_DESCRIPTOR }
}

/// Whether a message moves four rights under a manifest.
pub open spec fn carries(
    message: CapabilityMessage,
    manifest: TransferManifest,
    names: Seq<u32>,
) -> bool {
    &&& message.id == TRANSFER_MESSAGE_ID
    &&& message.size == TRANSFER_MESSAGE_SIZE
    &&& message.descriptor_count == CAPABILITY_COUNT
    &&& message.descriptors@ == seq![
        moving(names[0], 0),
        moving(names[1], 1),
        moving(names[2], 2),
        moving(names[3], 3),
    ]
    &&& message.metadata == metadata_of(manifest)
}

/// Whether a descriptor moves the right that belongs at its place.
pub open spec fn descriptor_fits(descriptor: PortDescriptor, index: int) -> bool {
    &&& descriptor.name != MACH_PORT_NULL
    &&& descriptor.descriptor_type == PORT_DESCRIPTOR
    &&& descriptor.disposition == disposition_at(index)
}

/// Why a message is not a complete transfer to the expected endpoint, if it is not.
pub open spec fn message_rejection(
    message: CapabilityMessage,
    expected: TransferIdentity,
) -> Option<ErrorReport> {
    if message.id != TRANSFER_MESSAGE_ID || message.size != TRANSFER_MESSAGE_SIZE
        || message.descriptor_count != CAPABILITY_COUNT || message.descriptors@.len()
        != CAPABILITY_COUNT {
        Some(message_report())
    } else if exists|index: int|
        0 <= index < CAPABILITY_COUNT && !descriptor_fits(
            #[trigger] message.descriptors@[index],
            index,
        ) {
        Some(message_report())
    } else {
        match decoded_manifest(message.metadata) {
            Err(error) => Some(error),
            Ok(manifest) => manifest_rejection(manifest, expected),
        }
    }
}

/// A transfer to an endpoint is accepted by that endpoint, and by no other.
pub proof fn law_transfer_reaches_its_endpoint(
    message: CapabilityMessage,
    sender: TransferIdentity,
    names: Seq<u32>,
    receiver: TransferIdentity,
)
    requires
        carries(message, manifest_of(sender), names),
        names.len() == CAPABILITY_COUNT,
        forall|index: int| 0 <= index < CAPABILITY_COUNT ==> names[index] != MACH_PORT_NULL,
        sender.session_id@ != 0,
        sender.generation@ != 0,
    ensures
        message_rejection(message, receiver) is None <==> sender == receiver,
{
    law_metadata_round_trip(manifest_of(sender));
    law_manifest_is_identity_bound(manifest_of(sender), receiver);
    assert(names[0] != MACH_PORT_NULL && names[1] != MACH_PORT_NULL && names[2] != MACH_PORT_NULL
        && names[3] != MACH_PORT_NULL);
    assert(message.descriptors@.len() == 4);
    assert forall|index: int| 0 <= index < CAPABILITY_COUNT implies descriptor_fits(
        #[trigger] message.descriptors@[index],
        index,
    ) by {
        if index == 0 {
        } else if index == 1 {
        } else if index == 2 {
        } else {
            assert(index == 3);
        }
    }
}

/// Checks that a received message is a complete transfer to the expected endpoint.
pub fn validate_message(message: &CapabilityMessage, expected: TransferIdentity) -> (validated:
    Result<(), ErrorReport>)
    ensures
        match validated {
            Ok(_) => message_rejection(*message, expected) is None,
            Err(error) => message_rejection(*message, expected) == Some(error),
        },
{
    if message.id != TRANSFER_MESSAGE_ID || message.size != TRANSFER_MESSAGE_SIZE
        || message.descriptor_count as usize != CAPABILITY_COUNT || message.descriptors.len()
        != CAPABILITY_COUNT {
        return Err(protocol_error());
    }
    let mut index: usize = 0;
    while index < CAPABILITY_COUNT
        invariant
            index <= CAPABILITY_COUNT,
            message.descriptors@.len() == CAPABILITY_COUNT,
            message.id == TRANSFER_MESSAGE_ID,
            message.size == TRANSFER_MESSAGE_SIZE,
            message.descriptor_count == CAPABILITY_COUNT,
            forall|seen: int|
                0 <= seen < index ==> descriptor_fits(#[trigger] message.descriptors@[seen], seen),
        decreases CAPABILITY_COUNT - index,
    {
        let descriptor = message.descriptors[index];
        let disposition: u8 = if index == CAPABILITY_COUNT - 1 {
            MOVE_RECEIVE
        } else {
            MOVE_SEND
        };
        if descriptor.name == MACH_PORT_NULL || descriptor.descriptor_type != PORT_DESCRIPTOR
            || descriptor.disposition != disposition {
            proof {
                assert(!descriptor_fits(message.descriptors@[index as int], index as int));
            }
            return Err(protocol_error());
        }
        index += 1;
    }
    let manifest = decode_manifest(&message.metadata)?;
    manifest.validate_for(expected)
}

/// The right that a descriptor carries.
pub open spec fn carried_right(descriptor: PortDescriptor) -> NativeRight {
    if descriptor.disposition == MOVE_RECEIVE {
        NativeRight::Receive(descriptor.name)
    } else {
        NativeRight::Send(descriptor.name)
    }
}

/// The rights that descriptors carry, last first.
pub open spec fn carried_rights(descriptors: Seq<PortDescriptor>) -> Seq<NativeRight>
    decreases descriptors.len(),
{
    if descriptors.len() == 0 {
        Seq::empty()
    } else if descriptors.last().name == MACH_PORT_NULL {
        carried_rights(descriptors.drop_last())
    } else {
        seq![carried_right(descriptors.last())] + carried_rights(descriptors.drop_last())
    }
}

/// Gives the rights that a message carries, in reverse order, to be released.
pub fn cleanup_descriptors(message: &CapabilityMessage) -> (release: Vec<NativeRight>)
    ensures
        release@ == carried_rights(message.descriptors@),
{
    let mut release: Vec<NativeRight> = Vec::new();
    let mut remaining: usize = message.descriptors.len();
    proof {
        assert(message.descriptors@.take(remaining as int) =~= message.descriptors@);
        assert(release@ + carried_rights(message.descriptors@) =~= carried_rights(
            message.descriptors@,
        ));
    }
    while remaining > 0
        invariant
            remaining <= message.descriptors@.len(),
            carried_rights(message.descriptors@) == release@ + carried_rights(
                message.descriptors@.take(remaining as int),
            ),
        decreases remaining,
    {
        let ghost before = message.descriptors@.take(remaining as int);
        remaining -= 1;
        let descriptor = message.descriptors[remaining];
        proof {
            assert(before.drop_last() =~= message.descriptors@.take(remaining as int));
            assert(before.last() == descriptor);
        }
        if descriptor.name != MACH_PORT_NULL {
            let ghost released = release@;
            release.push(
                if descriptor.disposition == MOVE_RECEIVE {
                    NativeRight::Receive(descriptor.name)
                } else {
                    NativeRight::Send(descriptor.name)
                },
            );
            proof {
                assert(release@ =~= released + seq![carried_right(descriptor)]);
                assert(released + (seq![carried_right(descriptor)] + carried_rights(
                    before.drop_last(),
                )) =~= release@ + carried_rights(before.drop_last()));
            }
        }
    }
    proof {
        assert(message.descriptors@.take(0) =~= Seq::<PortDescriptor>::empty());
        assert(carried_rights(message.descriptors@.take(0)) =~= Seq::<NativeRight>::empty());
    }
    release
}

/// Host-owned rights waiting for a single atomic transfer.
pub struct MachCapabilityBundle {
    manifest: TransferManifest,
    outbound_memory: OwnedMachSendRight,
    inbound_memory: OwnedMachSendRight,
    outbound_signal: OwnedMachSendRight,
    inbound_signal: OwnedMachReceiveRight,
}

/// The resources behind four names, in the order in which they were acquired.
pub open spec fn owned_rights(names: Seq<u32>) -> Seq<NativeRight> {
    seq![
        NativeRight::Send(names[0]),
        NativeRight::Send(names[1]),
        NativeRight::Send(names[2]),
        NativeRight::Receive(names[3]),
    ]
}

impl MachCapabilityBundle {
    /// Metadata of the bundle.
    pub closed spec fn spec_manifest(self) -> TransferManifest {
        self.manifest
    }

    /// Names of the rights in the bundle.
    pub closed spec fn names(self) -> Seq<u32> {
        seq![
            self.outbound_memory.name(),
            self.inbound_memory.name(),
            self.outbound_signal.name(),
            self.inbound_signal.name(),
        ]
    }

    /// Binds exactly four provider rights to their endpoint metadata.
    pub fn new(
        identity: TransferIdentity,
        outbound_memory: OwnedMachSendRight,
        inbound_memory: OwnedMachSendRight,
        outbound_signal: OwnedMachSendRight,
        inbound_signal: OwnedMachReceiveRight,
    ) -> (bundle: Self)
        ensures
            bundle.spec_manifest() == manifest_of(identity),
            bundle.names() == seq![
                outbound_memory.name(),
                inbound_memory.name(),
                outbound_signal.name(),
                inbound_signal.name(),
            ],
    {
        MachCapabilityBundle {
            manifest: TransferManifest::new(identity),
            outbound_memory,
            inbound_memory,
            outbound_signal,
            inbound_signal,
        }
    }

    /// Redacted descriptor metadata.
    pub fn manifest(&self) -> (manifest: TransferManifest)
        ensures
            manifest == self.spec_manifest(),
    {
        self.manifest
    }

    /// Gives up the rights of the bundle, to be released in reverse acquisition order.
    pub fn release(self) -> (release: Vec<NativeRight>)
        ensures
            release@ == owned_rights(self.names()).reverse(),
    {
        let mut release: Vec<NativeRight> = Vec::new();
        release.push(NativeRight::Receive(self.inbound_signal.into_raw()));
        release.push(NativeRight::Send(self.outbound_signal.into_raw()));
        release.push(NativeRight::Send(self.inbound_memory.into_raw()));
        release.push(NativeRight::Send(self.outbound_memory.into_raw()));
        proof {
            assert(release@ =~= owned_rights(self.names()).reverse());
        }
        release
    }

    /// Makes the message that moves every right of the bundle.
    fn into_message(self) -> (message: CapabilityMessage)
        ensures
            carries(message, self.spec_manifest(), self.names()),
    {
        let mut descriptors: Vec<PortDescriptor> = Vec::new();
        descriptors.push(
            PortDescriptor {
                name: self.outbound_memory.into_raw(),
                disposition: MOVE_SEND,
                descriptor_type: PORT_DESCRIPTOR,
            },
        );
        descriptors.push(
            PortDescriptor {
                name: self.inbound_memory.into_raw(),
                disposition: MOVE_SEND,
                descriptor_type: PORT_DESCRIPTOR,
            },
        );
        descriptors.push(
            PortDescriptor {
                name: self.outbound_signal.into_raw(),
                disposition: MOVE_SEND,
                descriptor_type: PORT_DESCRIPTOR,
            },
        );
        descriptors.push(
            PortDescriptor {
                name: self.inbound_signal.into_raw(),
                disposition: MOVE_RECEIVE,
                descriptor_type: PORT_DESCRIPTOR,
            },
        );
        let message = CapabilityMessage {
            id: TRANSFER_MESSAGE_ID,
            size: TRANSFER_MESSAGE_SIZE,
            descriptor_count: 4,
            descriptors,
            metadata: encode_manifest(self.manifest),
        };
        proof {
            let names = self.names();
            assert(message.descriptors@ =~= seq![
                moving(names[0], 0),
                moving(names[1], 1),
                moving(names[2], 2),
                moving(names[3], 3),
            ]);
        }
        message
    }

    /// Renders the bundle without its rights.
    pub fn to_text(&self) -> (text: String)
        ensures
            text@ == "MachCapabilityBundle { manifest: "@ + manifest_text(self.spec_manifest())
                + ", rights: \"<redacted:4>\", .. }"@,
    {
        let mut text = String::from_str("MachCapabilityBundle { manifest: ");
        text.append(self.manifest.to_text().as_str());
        text.append(", rights: \"<redacted:4>\", .. }");
        text
    }
}

/// A transfer whose message is to be sent.
pub struct PendingTransfer {
    control: u32,
    message: CapabilityMessage,
}

/// A transfer that came to its end.
pub struct SettledTransfer {
    /// Whether the rights were moved.
    pub outcome: Result<(), ErrorReport>,
    /// Rights to release, in order.
    pub release: Vec<NativeRight>,
}

/// The report on a message that was not sent.
pub open spec fn send_report() -> ErrorReport {
    transfer_report(
        ErrorCategory::Platform,
        ErrorCode::RequiredCapabilityMissing,
        "send Mach capabilities",
    )
}

impl PendingTransfer {
    /// Port that the message is sent to.
    pub closed spec fn spec_control(self) -> u32 {
        self.control
    }

    /// Message to send.
    pub closed spec fn spec_message(self) -> CapabilityMessage {
        self.message
    }

    /// Port that the message is sent to.
    pub fn control(&self) -> (control: u32)
        ensures
            control == self.spec_control(),
    {
        self.control
    }

    /// Message to send.
    pub fn message(&self) -> (message: &CapabilityMessage)
        ensures
            *message == self.spec_message(),
    {
        &self.message
    }

    /// Settles the transfer after the message was sent or not.
    ///
    /// The control right is released in either case. Rights that were not moved are released in
    /// reverse acquisition order.
    pub fn finish(self, delivered: bool) -> (settled: SettledTransfer)
        ensures
            delivered ==> settled.outcome is Ok && settled.release@ == seq![
                NativeRight::Send(self.spec_control()),
            ],
            !delivered ==> settled.outcome == Err::<(), ErrorReport>(send_report())
                && settled.release@ == seq![NativeRight::Send(self.spec_control())]
                + carried_rights(self.spec_message().descriptors@),
    {
        let mut release: Vec<NativeRight> = Vec::new();
        release.push(NativeRight::Send(self.control));
        if delivered {
            return SettledTransfer { outcome: Ok(()), release };
        }
        let mut carried = cleanup_descriptors(&self.message);
        release.append(&mut carried);
        SettledTransfer {
            outcome: Err(
                transfer_error(
                    ErrorCategory::Platform,
                    ErrorCode::RequiredCapabilityMissing,
                    "send Mach capabilities",
                ),
            ),
            release,
        }
    }
}

/// Host side of an authenticated, one-shot control endpoint.
pub struct AuthenticatedControlHost {
    identity: TransferIdentity,
    send: Option<OwnedMachSendRight>,
    attempted: bool,
}

/// How one side of a control channel is rendered.
pub open spec fn control_text(
    opening: Seq<char>,
    identity: TransferIdentity,
    attempted: bool,
) -> Seq<char> {
    opening + identity_text(identity) + ", native: \"<redacted>\", attempted: "@ + (if attempted {
        "true"@
    } else {
        "false"@
    }) + ", .. }"@
}

/// Why a transfer is refused, if it is.
pub open spec fn transfer_rejection(
    attempted: bool,
    identity: TransferIdentity,
    control: Option<u32>,
    manifest: TransferManifest,
) -> Option<ErrorReport> {
    if attempted {
        Some(
            transfer_report(
                ErrorCategory::Security,
                ErrorCode::ReplayDetected,
                "replay Mach capability transfer",
            ),
        )
    } else if manifest_rejection(manifest, identity) is Some {
        manifest_rejection(manifest, identity)
    } else if control is None {
        Some(
            transfer_report(
                ErrorCategory::Closed,
                ErrorCode::Closed,
                "closed Mach capability endpoint",
            ),
        )
    } else {
        None
    }
}

/// The name of an optional send right.
pub open spec fn send_name(right: Option<OwnedMachSendRight>) -> Option<u32> {
    match right {
        Some(right) => Some(right.name()),
        None => None,
    }
}

/// The name of an optional receive right.
pub open spec fn receive_name(right: Option<OwnedMachReceiveRight>) -> Option<u32> {
    match right {
        Some(right) => Some(right.name()),
        None => None,
    }
}

impl AuthenticatedControlHost {
    /// Endpoint that the host transfers to.
    pub closed spec fn identity(self) -> TransferIdentity {
        self.identity
    }

    /// Name of the control right, until it is used.
    pub closed spec fn control(self) -> Option<u32> {
        send_name(self.send)
    }

    /// Whether a transfer was attempted.
    pub closed spec fn attempted(self) -> bool {
        self.attempted
    }

    /// Renders the host side without its right.
    pub fn to_text(&self) -> (text: String)
        ensures
            text@ == control_text("AuthenticatedControlHost { identity: "@, self.identity(), self.attempted()),
    {
        let mut text = String::from_str("AuthenticatedControlHost { identity: ");
        text.append(self.identity.to_text().as_str());
        text.append(", native: \"<redacted>\", attempted: ");
        text.append(
            if self.attempted {
                "true"
            } else {
                "false"
            },
        );
        text.append(", .. }");
        text
    }

    /// Reconstructs the host side after an authenticated native control-plane handoff.
    ///
    /// A null right is rejected, and `Unsupported` is returned on platforms without Mach rights.
    pub fn from_raw_send_right(native: bool, identity: TransferIdentity, raw: u32) -> (created:
        Result<Self, ErrorReport>)
        ensures
            match created {
                Ok(host) => {
                    &&& adoption_rejection(native, raw, "adopt Mach send right") is None
                    &&& host.identity() == identity
                    &&& host.control() == Some(raw)
                    &&& !host.attempted()
                },
                Err(error) => adoption_rejection(native, raw, "adopt Mach send right") == Some(
                    error,
                ),
            },
    {
        let send = OwnedMachSendRight::from_raw(native, raw)?;
        Ok(AuthenticatedControlHost { identity, send: Some(send), attempted: false })
    }

    /// Begins to move all four rights to the bound endpoint atomically.
    ///
    /// The endpoint is one-shot even when validation or native send fails. All untransferred
    /// rights are then released in reverse acquisition order. Replay, wrong session or role, and a
    /// stale generation are rejected before anything is sent.
    pub fn transfer(&mut self, bundle: MachCapabilityBundle) -> (begun: Result<
        PendingTransfer,
        NativeFailure,
    >)
        ensures
            final(self).attempted(),
            final(self).identity() == old(self).identity(),
            match begun {
                Ok(pending) => {
                    &&& transfer_rejection(
                        old(self).attempted(),
                        old(self).identity(),
                        old(self).control(),
                        bundle.spec_manifest(),
                    ) is None
                    &&& Some(pending.spec_control()) == old(self).control()
                    &&& carries(pending.spec_message(), bundle.spec_manifest(), bundle.names())
                    &&& final(self).control() is None
                },
                Err(refused) => {
                    &&& transfer_rejection(
                        old(self).attempted(),
                        old(self).identity(),
                        old(self).control(),
                        bundle.spec_manifest(),
                    ) == Some(refused.error)
                    &&& refused.release@ == owned_rights(bundle.names()).reverse()
                    &&& final(self).control() == old(self).control()
                },
            },
    {
        if self.attempted {
            return Err(
                NativeFailure {
                    error: transfer_error(
                        ErrorCategory::Security,
                        ErrorCode::ReplayDetected,
                        "replay Mach capability transfer",
                    ),
                    release: bundle.release(),
                },
            );
        }
        self.attempted = true;
        match bundle.manifest.validate_for(self.identity) {
            Ok(()) => {},
            Err(error) => {
                return Err(NativeFailure { error, release: bundle.release() });
            },
        }
        match self.send.take() {
            None => Err(
                NativeFailure {
                    error: transfer_error(
                        ErrorCategory::Closed,
                        ErrorCode::Closed,
                        "closed Mach capability endpoint",
                    ),
                    release: bundle.release(),
                },
            ),
            Some(control) => Ok(
                PendingTransfer { control: control.into_raw(), message: bundle.into_message() },
            ),
        }
    }

    /// Gives up the control right, if it was not used, to be released.
    pub fn release(self) -> (release: Vec<NativeRight>)
        ensures
            release@ == match self.control() {
                Some(name) => seq![NativeRight::Send(name)],
                None => Seq::empty(),
            },
    {
        let mut release: Vec<NativeRight> = Vec::new();
        match self.send {
            Some(send) => release.push(NativeRight::Send(send.into_raw())),
            None => {},
        }
        proof {
            assert(release@ =~= match self.control() {
                Some(name) => seq![NativeRight::Send(name)],
                None => Seq::empty(),
            });
        }
        release
    }
}

/// Once a transfer was attempted, every further transfer is a replay.
pub proof fn law_host_is_one_shot(
    host: AuthenticatedControlHost,
    manifest: TransferManifest,
)
    requires
        host.attempted(),
    ensures
        transfer_rejection(true, host.identity(), host.control(), manifest) == Some(
            transfer_report(
                ErrorCategory::Security,
                ErrorCode::ReplayDetected,
                "replay Mach capability transfer",
            ),
        ),
{
}

/// Whatever becomes of a transfer, its four rights were either moved to the endpoint or are
/// released, each once, the last acquired first.
pub proof fn law_rights_are_moved_or_released(
    message: CapabilityMessage,
    manifest: TransferManifest,
    names: Seq<u32>,
)
    requires
        carries(message, manifest, names),
        names.len() == CAPABILITY_COUNT,
        forall|index: int| 0 <= index < CAPABILITY_COUNT ==> names[index] != MACH_PORT_NULL,
    ensures
        carried_rights(message.descriptors@) == owned_rights(names).reverse(),
{
    reveal_with_fuel(carried_rights, 5);
    assert(names[0] != MACH_PORT_NULL && names[1] != MACH_PORT_NULL && names[2] != MACH_PORT_NULL
        && names[3] != MACH_PORT_NULL);
    let all = message.descriptors@;
    assert(all.len() == 4);
    assert(all.last() == moving(names[3], 3));
    let three = all.drop_last();
    assert(three.last() == moving(names[2], 2));
    let two = three.drop_last();
    assert(two.last() == moving(names[1], 1));
    let one = two.drop_last();
    assert(one.last() == moving(names[0], 0));
    assert(one.drop_last().len() == 0);
    assert(carried_rights(all) =~= owned_rights(names).reverse());
}

/// Validated endpoint ownership returned only after all metadata checks pass.
pub struct EndpointCapabilities {
    manifest: TransferManifest,
    outbound_memory: Option<OwnedMachSendRight>,
    inbound_memory: Option<OwnedMachSendRight>,
    outbound_signal: Option<OwnedMachSendRight>,
    inbound_signal: Option<OwnedMachReceiveRight>,
}

/// What an endpoint owns of a transfer.
pub struct CapabilitiesView {
    /// Authenticated metadata.
    pub manifest: TransferManifest,
    /// Name of the outbound memory-entry right.
    pub outbound_memory: Option<u32>,
    /// Name of the inbound memory-entry right.
    pub inbound_memory: Option<u32>,
    /// Name of the outbound signal right.
    pub outbound_signal: Option<u32>,
    /// Name of the inbound signal right.
    pub inbound_signal: Option<u32>,
}

impl View for EndpointCapabilities {
    type V = CapabilitiesView;

    closed spec fn view(&self) -> CapabilitiesView {
        CapabilitiesView {
            manifest: self.manifest,
            outbound_memory: send_name(self.outbound_memory),
            inbound_memory: send_name(self.inbound_memory),
            outbound_signal: send_name(self.outbound_signal),
            inbound_signal: receive_name(self.inbound_signal),
        }
    }
}

impl EndpointCapabilities {
    /// Authenticated metadata for this capability set.
    pub fn manifest(&self) -> (manifest: TransferManifest)
        ensures
            manifest == self@.manifest,
    {
        self.manifest
    }

    /// Moves the outbound memory-entry send right into a provider adapter.
    pub fn take_outbound_memory(&mut self) -> (taken: Option<OwnedMachSendRight>)
        ensures
            send_name(taken) == old(self)@.outbound_memory,
            final(self)@ == (CapabilitiesView { outbound_memory: None, ..old(self)@ }),
    {
        self.outbound_memory.take()
    }

    /// Moves the inbound memory-entry send right into a provider adapter.
    pub fn take_inbound_memory(&mut self) -> (taken: Option<OwnedMachSendRight>)
        ensures
            send_name(taken) == old(self)@.inbound_memory,
            final(self)@ == (CapabilitiesView { inbound_memory: None, ..old(self)@ }),
    {
        self.inbound_memory.take()
    }

    /// Moves the outbound signal send right into a provider adapter.
    pub fn take_outbound_signal(&mut self) -> (taken: Option<OwnedMachSendRight>)
        ensures
            send_name(taken) == old(self)@.outbound_signal,
            final(self)@ == (CapabilitiesView { outbound_signal: None, ..old(self)@ }),
    {
        self.outbound_signal.take()
    }

    /// Moves the sole inbound signal receive right into a provider adapter.
    pub fn take_inbound_signal(&mut self) -> (taken: Option<OwnedMachReceiveRight>)
        ensures
            receive_name(taken) == old(self)@.inbound_signal,
            final(self)@ == (CapabilitiesView { inbound_signal: None, ..old(self)@ }),
    {
        self.inbound_signal.take()
    }

    /// Gives up the rights that were not taken, to be released in reverse order.
    pub fn release(self) -> (release: Vec<NativeRight>)
        ensures
            release@ == remaining_rights(self@),
    {
        let mut release: Vec<NativeRight> = Vec::new();
        match self.inbound_signal {
            Some(right) => release.push(NativeRight::Receive(right.into_raw())),
            None => {},
        }
        match self.outbound_signal {
            Some(right) => release.push(NativeRight::Send(right.into_raw())),
            None => {},
        }
        match self.inbound_memory {
            Some(right) => release.push(NativeRight::Send(right.into_raw())),
            None => {},
        }
        match self.outbound_memory {
            Some(right) => release.push(NativeRight::Send(right.into_raw())),
            None => {},
        }
        proof {
            assert(release@ =~= remaining_rights(self@));
        }
        release
    }

    /// Renders the capabilities without their rights.
    pub fn to_text(&self) -> (text: String)
        ensures
            text@ == "EndpointCapabilities { manifest: "@ + manifest_text(self@.manifest)
                + ", rights: \"<redacted:4>\", .. }"@,
    {
        let mut text = String::from_str("EndpointCapabilities { manifest: ");
        text.append(self.manifest.to_text().as_str());
        text.append(", rights: \"<redacted:4>\", .. }");
        text
    }
}

/// The resource behind an optional name, as a sequence.
pub open spec fn optional_send(name: Option<u32>) -> Seq<NativeRight> {
    match name {
        Some(name) => seq![NativeRight::Send(name)],
        None => Seq::empty(),
    }
}

/// What is left of a capability set, last acquired first.
pub open spec fn remaining_rights(capabilities: CapabilitiesView) -> Seq<NativeRight> {
    (match capabilities.inbound_signal {
        Some(name) => seq![NativeRight::Receive(name)],
        None => Seq::empty(),
    }) + optional_send(capabilities.outbound_signal) + optional_send(capabilities.inbound_memory)
        + optional_send(capabilities.outbound_memory)
}

/// A receive right that a transfer is awaited on.
pub struct PendingReceive {
    identity: TransferIdentity,
    control: u32,
}

/// A receive that came to its end.
pub struct SettledReceive {
    /// The validated capabilities.
    pub outcome: Result<EndpointCapabilities, ErrorReport>,
    /// Rights to release, in order.
    pub release: Vec<NativeRight>,
}

/// Why a receive fails, if it does.
pub open spec fn receive_rejection(
    message: Option<CapabilityMessage>,
    expected: TransferIdentity,
) -> Option<ErrorReport> {
    match message {
        None => Some(
            transfer_report(
                ErrorCategory::Platform,
                ErrorCode::RequiredCapabilityMissing,
                "receive Mach capabilities",
            ),
        ),
        Some(message) => message_rejection(message, expected),
    }
}

/// The capabilities that an accepted message carries.
pub open spec fn capabilities_of(message: CapabilityMessage) -> CapabilitiesView {
    CapabilitiesView {
        manifest: decoded_manifest(message.metadata)->Ok_0,
        outbound_memory: Some(message.descriptors@[0].name),
        inbound_memory: Some(message.descriptors@[1].name),
        outbound_signal: Some(message.descriptors@[2].name),
        inbound_signal: Some(message.descriptors@[3].name),
    }
}

impl PendingReceive {
    /// Endpoint that receives.
    pub closed spec fn spec_identity(self) -> TransferIdentity {
        self.identity
    }

    /// Port that the message is awaited on.
    pub closed spec fn spec_control(self) -> u32 {
        self.control
    }

    /// Port that the message is awaited on.
    pub fn control(&self) -> (control: u32)
        ensures
            control == self.spec_control(),
    {
        self.control
    }

    /// Settles the receive with the message that came, if one came.
    ///
    /// The control right is released in either case. Rights that came with an invalid message are
    /// released in reverse order.
    pub fn finish(self, message: Option<CapabilityMessage>) -> (settled: SettledReceive)
        ensures
            match settled.outcome {
                Ok(capabilities) => {
                    &&& receive_rejection(message, self.spec_identity()) is None
                    &&& capabilities@ == capabilities_of(message->0)
                    &&& capabilities@.manifest == manifest_of(self.spec_identity())
                    &&& settled.release@ == seq![NativeRight::Receive(self.spec_control())]
                },
                Err(error) => {
                    &&& receive_rejection(message, self.spec_identity()) == Some(error)
                    &&& settled.release@ == seq![NativeRight::Receive(self.spec_control())]
                        + match message {
                        Some(message) => carried_rights(message.descriptors@),
                        None => Seq::empty(),
                    }
                },
            },
    {
        let mut release: Vec<NativeRight> = Vec::new();
        release.push(NativeRight::Receive(self.control));
        let message = match message {
            Some(message) => message,
            None => {
                proof {
                    assert(release@ + Seq::<NativeRight>::empty() =~= release@);
                }
                return SettledReceive {
                    outcome: Err(
                        transfer_error(
                            ErrorCategory::Platform,
                            ErrorCode::RequiredCapabilityMissing,
                            "receive Mach capabilities",
                        ),
                    ),
                    release,
                };
            },
        };
        match validate_message(&message, self.identity) {
            Ok(()) => {},
            Err(error) => {
                let mut carried = cleanup_descriptors(&message);
                release.append(&mut carried);
                return SettledReceive { outcome: Err(error), release };
            },
        }
        let manifest = match decode_manifest(&message.metadata) {
            Ok(manifest) => manifest,
            Err(error) => {
                return SettledReceive { outcome: Err(error), release };
            },
        };
        proof {
            law_manifest_is_identity_bound(manifest, self.identity);
        }
        SettledReceive {
            outcome: Ok(
                EndpointCapabilities {
                    manifest,
                    outbound_memory: Some(OwnedMachSendRight::owning(message.descriptors[0].name)),
                    inbound_memory: Some(OwnedMachSendRight::owning(message.descriptors[1].name)),
                    outbound_signal: Some(OwnedMachSendRight::owning(message.descriptors[2].name)),
                    inbound_signal: Some(
                        OwnedMachReceiveRight::owning(message.descriptors[3].name),
                    ),
                },
            ),
            release,
        }
    }
}

/// Endpoint side of an authenticated, one-shot control endpoint.
pub struct AuthenticatedControlEndpoint {
    identity: TransferIdentity,
    receive: Option<OwnedMachReceiveRight>,
    attempted: bool,
}

impl AuthenticatedControlEndpoint {
    /// Endpoint that receives.
    pub closed spec fn identity(self) -> TransferIdentity {
        self.identity
    }

    /// Name of the control right, until it is used.
    pub closed spec fn control(self) -> Option<u32> {
        receive_name(self.receive)
    }

    /// Whether a receive was attempted.
    pub closed spec fn attempted(self) -> bool {
        self.attempted
    }

    /// Renders the endpoint side without its right.
    pub fn to_text(&self) -> (text: String)
        ensures
            text@ == control_text("AuthenticatedControlEndpoint { identity: "@, self.identity(), self.attempted()),
    {
        let mut text = String::from_str("AuthenticatedControlEndpoint { identity: ");
        text.append(self.identity.to_text().as_str());
        text.append(", native: \"<redacted>\", attempted: ");
        text.append(
            if self.attempted {
                "true"
            } else {
                "false"
            },
        );
        text.append(", .. }");
        text
    }

    /// Reconstructs an endpoint after its receive right was moved by a trusted native bridge.
    ///
    /// A null right is rejected, and `Unsupported` is returned on platforms without Mach rights.
    pub fn from_raw_receive_right(native: bool, identity: TransferIdentity, raw: u32) -> (created:
        Result<Self, ErrorReport>)
        ensures
            match created {
                Ok(endpoint) => {
                    &&& adoption_rejection(native, raw, "adopt Mach receive right") is None
                    &&& endpoint.identity() == identity
                    &&& endpoint.control() == Some(raw)
                    &&& !endpoint.attempted()
                },
                Err(error) => adoption_rejection(native, raw, "adopt Mach receive right") == Some(
                    error,
                ),
            },
    {
        let receive = OwnedMachReceiveRight::from_raw(native, raw)?;
        Ok(AuthenticatedControlEndpoint { identity, receive: Some(receive), attempted: false })
    }

    /// Moves the control receive right into a trusted native bridge.
    ///
    /// The returned task-local name must be transferred as a Mach descriptor, never serialized.
    /// `Closed` is returned if the endpoint no longer owns its receive right.
    pub fn into_raw_receive_right(self) -> (raw: Result<u32, ErrorReport>)
        ensures
            match self.control() {
                Some(name) => raw == Ok::<u32, ErrorReport>(name),
                None => raw == Err::<u32, ErrorReport>(
                    transfer_report(
                        ErrorCategory::Closed,
                        ErrorCode::Closed,
                        "move Mach control endpoint",
                    ),
                ),
            },
    {
        match self.receive {
            Some(receive) => Ok(receive.into_raw()),
            None => Err(
                transfer_error(
                    ErrorCategory::Closed,
                    ErrorCode::Closed,
                    "move Mach control endpoint",
                ),
            ),
        }
    }

    /// Begins to receive one complete capability set before provider attachment.
    ///
    /// A second receive is a replay, whatever became of the first.
    pub fn receive(&mut self) -> (begun: Result<PendingReceive, ErrorReport>)
        ensures
            final(self).attempted(),
            final(self).identity() == old(self).identity(),
            if old(self).attempted() {
                &&& begun is Err
                &&& begun->Err_0 == transfer_report(
                    ErrorCategory::Security,
                    ErrorCode::ReplayDetected,
                    "replay Mach capability receive",
                )
                &&& final(self).control() == old(self).control()
            } else {
                &&& final(self).control() is None
                &&& match old(self).control() {
                    Some(name) => begun is Ok && begun->Ok_0.spec_control() == name
                        && begun->Ok_0.spec_identity() == old(self).identity(),
                    None => begun is Err && begun->Err_0 == transfer_report(
                        ErrorCategory::Closed,
                        ErrorCode::Closed,
                        "closed Mach capability endpoint",
                    ),
                }
            },
    {
        if self.attempted {
            return Err(
                transfer_error(
                    ErrorCategory::Security,
                    ErrorCode::ReplayDetected,
                    "replay Mach capability receive",
                ),
            );
        }
        self.attempted = true;
        match self.receive.take() {
            None => Err(
                transfer_error(
                    ErrorCategory::Closed,
                    ErrorCode::Closed,
                    "closed Mach capability endpoint",
                ),
            ),
            Some(receive) => Ok(
                PendingReceive { identity: self.identity, control: receive.into_raw() },
            ),
        }
    }
}

/// How far the platform got with a control port.
#[derive(Clone, Copy, PartialEq, Eq, Structural)]
pub enum ControlPort {
    /// The platform has no Mach rights.
    Unsupported,
    /// No port could be allocated.
    Unallocated,
    /// A port was allocated, but no send right could be made for it.
    WithoutSend(u32),
    /// A port was allocated, and a send right was made for it.
    Complete(u32),
}

/// Why no control channel comes of a port, if none does.
pub open spec fn channel_rejection(port: ControlPort) -> Option<ErrorReport> {
    match port {
        ControlPort::Unsupported => Some(unsupported_report("create Mach control endpoint")),
        ControlPort::Unallocated => Some(
            transfer_report(
                ErrorCategory::Resource,
                ErrorCode::RequiredCapabilityMissing,
                "allocate Mach control endpoint",
            ),
        ),
        ControlPort::WithoutSend(_) => Some(
            transfer_report(
                ErrorCategory::Resource,
                ErrorCode::RequiredCapabilityMissing,
                "create Mach control send right",
            ),
        ),
        ControlPort::Complete(_) => None,
    }
}

/// Makes a fresh control endpoint of a port, without any global service registration.
///
/// The endpoint receive right still belongs to the current task. Production adapters must move it
/// through their already authenticated host-to-endpoint control plane before calling `receive`.
/// The second value is what is to be released.
pub fn authenticated_control_channel(identity: TransferIdentity, port: ControlPort) -> (created: (
    Result<(AuthenticatedControlHost, AuthenticatedControlEndpoint), ErrorReport>,
    Vec<NativeRight>,
))
    ensures
        match created.0 {
            Ok((host, endpoint)) => {
                &&& port is Complete
                &&& host.identity() == identity && endpoint.identity() == identity
                &&& host.control() == Some(port->Complete_0)
                &&& endpoint.control() == Some(port->Complete_0)
                &&& !host.attempted() && !endpoint.attempted()
            },
            Err(error) => channel_rejection(port) == Some(error),
        },
        created.1@ == match port {
            ControlPort::WithoutSend(name) => seq![NativeRight::Receive(name)],
            _ => Seq::empty(),
        },
{
    let mut release: Vec<NativeRight> = Vec::new();
    let created = match port {
        ControlPort::Unsupported => Err(ErrorReport::unsupported("create Mach control endpoint")),
        ControlPort::Unallocated => Err(
            transfer_error(
                ErrorCategory::Resource,
                ErrorCode::RequiredCapabilityMissing,
                "allocate Mach control endpoint",
            ),
        ),
        ControlPort::WithoutSend(name) => {
            release.push(NativeRight::Receive(name));
            Err(
                transfer_error(
                    ErrorCategory::Resource,
                    ErrorCode::RequiredCapabilityMissing,
                    "create Mach control send right",
                ),
            )
        },
        ControlPort::Complete(name) => Ok(
            (
                AuthenticatedControlHost {
                    identity,
                    send: Some(OwnedMachSendRight::owning(name)),
                    attempted: false,
                },
                AuthenticatedControlEndpoint {
                    identity,
                    receive: Some(OwnedMachReceiveRight::owning(name)),
                    attempted: false,
                },
            ),
        ),
    };
    (created, release)
}

/// Kinds are told apart by their wire values, and no other value is a kind.
pub proof fn law_kinds_are_their_wire_values(
    kind: CapabilityKind,
    other: CapabilityKind,
    value: u8,
    found: Option<CapabilityKind>,
)
    requires
        call_ensures(CapabilityKind::from_wire, (value,), found),
    ensures
        kind.wire() == other.wire() <==> kind == other,
        found == Some(kind) <==> value == kind.wire(),
        found is Some <==> 1 <= value <= 4,
{
}

/// Metadata that was decoded is the only one of its manifest.
pub proof fn law_decoded_metadata_is_canonical(metadata: WireMetadata)
    requires
        decoded_manifest(metadata) is Ok,
    ensures
        metadata_of(decoded_manifest(metadata)->Ok_0) == metadata,
        decoded_manifest(metadata)->Ok_0.identity.session_id@ != 0,
        decoded_manifest(metadata)->Ok_0.identity.generation@ != 0,
{
}

/// A message that is accepted carries four ports, three send rights and a receive right behind
/// them, none of them null, and the metadata of the very endpoint that expects it.
pub proof fn law_accepted_messages_carry_four_rights(
    message: CapabilityMessage,
    expected: TransferIdentity,
    index: int,
)
    requires
        message_rejection(message, expected) is None,
    ensures
        message.descriptors@.len() == 4,
        0 <= index < 4 ==> message.descriptors@[index].name != 0
            && message.descriptors@[index].disposition == if index == 3 {
            16u8
        } else {
            17
        },
        0 <= index < 4 ==> carried_right(message.descriptors@[index]) == if index == 3 {
            NativeRight::Receive(message.descriptors@[index].name)
        } else {
            NativeRight::Send(message.descriptors@[index].name)
        },
        decoded_manifest(message.metadata) == Ok::<TransferManifest, ErrorReport>(
            manifest_of(expected),
        ),
{
    if 0 <= index < 4 {
        assert(descriptor_fits(message.descriptors@[index], index));
    }
    law_manifest_is_identity_bound(decoded_manifest(message.metadata)->Ok_0, expected);
}

/// A host transfers once, over a live control endpoint, and only what is meant for its endpoint; a
/// second attempt is a replay whatever it transfers.
pub proof fn law_transfers_are_made_once(
    attempted: bool,
    identity: TransferIdentity,
    control: Option<u32>,
    manifest: TransferManifest,
)
    ensures
        transfer_rejection(attempted, identity, control, manifest) is None <==> !attempted
            && manifest == manifest_of(identity) && control is Some,
        transfer_rejection(attempted, identity, control, manifest) matches Some(error) ==> (
        error.code is ReplayDetected <==> attempted),
        !attempted && manifest.identity.session_id == identity.session_id && manifest.identity.role
            == identity.role && manifest.identity.generation != identity.generation ==> (
        transfer_rejection(attempted, identity, control, manifest) matches Some(error)
            && error.code is StaleGeneration),
        !attempted && (manifest.identity.session_id != identity.session_id || manifest.identity.role
            != identity.role) ==> (transfer_rejection(
            attempted,
            identity,
            control,
            manifest,
        ) matches Some(error) && error.code is AuthenticationFailed && error.category is Security),
{
    law_manifest_is_identity_bound(manifest, identity);
}

/// What a stale generation or a replay refuses is worth another endpoint, and nothing else is.
pub proof fn law_only_stale_transfers_are_replaced(
    category: ErrorCategory,
    code: ErrorCode,
    operation: &'static str,
)
    ensures
        transfer_report(category, code, operation).recoverability is ReplaceEndpoint
            <==> code is StaleGeneration || code is ReplayDetected,
        transfer_report(category, code, operation).code == code,
        transfer_report(category, code, operation).category == category,
{
}

/// Capabilities that are dropped release every right that was not taken, and no other one.
pub proof fn law_untaken_rights_are_released(capabilities: CapabilitiesView, right: NativeRight)
    ensures
        remaining_rights(capabilities).contains(right) <==> {
            ||| capabilities.outbound_memory matches Some(name) && right == NativeRight::Send(name)
            ||| capabilities.inbound_memory matches Some(name) && right == NativeRight::Send(name)
            ||| capabilities.outbound_signal matches Some(name) && right == NativeRight::Send(name)
            ||| capabilities.inbound_signal matches Some(name) && right == NativeRight::Receive(
                name,
            )
        },
        capabilities.outbound_memory is Some && capabilities.inbound_memory is Some
            && capabilities.outbound_signal is Some && capabilities.inbound_signal is Some
            ==> remaining_rights(capabilities).len() == 4,
{
    let first = match capabilities.inbound_signal {
        Some(name) => seq![NativeRight::Receive(name)],
        None => Seq::empty(),
    };
    let second = optional_send(capabilities.outbound_signal);
    let third = optional_send(capabilities.inbound_memory);
    let fourth = optional_send(capabilities.outbound_memory);
    let all = remaining_rights(capabilities);
    if let Some(name) = capabilities.inbound_signal {
        assert(all[0] == NativeRight::Receive(name));
    }
    if let Some(name) = capabilities.outbound_signal {
        assert(all[first.len() as int] == NativeRight::Send(name));
    }
    if let Some(name) = capabilities.inbound_memory {
        assert(all[first.len() + second.len() as int] == NativeRight::Send(name));
    }
    if let Some(name) = capabilities.outbound_memory {
        assert(all[first.len() + second.len() + third.len() as int] == NativeRight::Send(name));
    }
}

/// A manifest of another endpoint is not authentic, one of another generation stale, and one with
/// other capabilities, or in another order, against the protocol. In their order they are memory to
/// write and to read, and signals to send and to receive.
pub proof fn law_refused_manifests_are_told_apart(
    manifest: TransferManifest,
    expected: TransferIdentity,
)
    ensures
        manifest_rejection(manifest, expected) is None ==> manifest.kinds.first is OutboundMemory
            && manifest.kinds.second is InboundMemory && manifest.kinds.third is OutboundSignal
            && manifest.kinds.fourth is InboundSignal,
        manifest_rejection(manifest, expected) matches Some(error) ==> {
            let known = manifest.identity.session_id == expected.session_id
                && manifest.identity.role == expected.role;
            let current = manifest.identity.generation == expected.generation;
            &&& error.code is AuthenticationFailed <==> !known
            &&& error.category is Security <==> !known
            &&& error.code is StaleGeneration <==> known && !current
            &&& error.category is Bootstrap <==> known && !current
            &&& error.code is ProtocolViolation <==> known && current
            &&& error.category is Protocol <==> known && current
        },
{
}

/// Metadata without a generation is stale, a message that did not come is missing, and a control
/// port that could not be had is missing where the platform has such ports, and unsupported where
/// it does not.
pub proof fn law_missing_capabilities_are_told_apart(
    metadata: WireMetadata,
    message: Option<CapabilityMessage>,
    expected: TransferIdentity,
    port: ControlPort,
)
    ensures
        decoded_manifest(metadata) matches Err(error) ==> {
            &&& error.code is StaleGeneration || error.code is ProtocolViolation
            &&& error.code is StaleGeneration ==> metadata.generation == 0
        },
        message is None ==> (receive_rejection(message, expected) matches Some(error) && error.code
            is RequiredCapabilityMissing && error.category is Platform),
        channel_rejection(port) is None <==> port is Complete,
        channel_rejection(port) matches Some(error) ==> {
            &&& error.code is Unsupported <==> port is Unsupported
            &&& error.code is RequiredCapabilityMissing <==> !(port is Unsupported)
            &&& error.category is Resource <==> !(port is Unsupported)
        },
{
}

} // verus!
