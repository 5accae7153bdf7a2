//! Platform-independent identity and sequence value types.

use vstd::prelude::*;
use vstd::string::StringExecFns;

use crate::domain::bytes::{
    le_at, le_bytes, lemma_le_bytes_len, lemma_le_limits, lemma_le_round_trip, push_u128, read_u128,
};

verus! {

/// A process-independent session identity. It is never zero.
#[derive(Clone, Copy, PartialEq, Eq, Hash, Structural)]
pub struct SessionId {
    value: u128,
}

impl SessionId {
    /// The number that the identity stands for.
    pub closed spec fn view(&self) -> u128 {
        self.value
    }

    /// The identity that stands for `value`.
    pub closed spec fn of(value: u128) -> SessionId {
        SessionId { value }
    }

    #[verifier::type_invariant]
    spec fn is_nonzero(self) -> bool {
        self.value != 0
    }

    /// Constructs a non-zero session identity.
    pub fn new(value: u128) -> (created: Option<Self>)
        ensures
            value == 0 ==> created is None,
            value != 0 ==> created == Some(SessionId::of(value)),
    {
        if value == 0 {
            None
        } else {
            Some(SessionId { value })
        }
    }

    /// Returns the wire representation at an explicit serialization boundary.
    pub fn get(self) -> (value: u128)
        ensures
            value == self@,
            value != 0,
    {
        proof {
            use_type_invariant(&self);
        }
        self.value
    }

    /// Returns the sixteen wire bytes, least significant first.
    pub fn to_bytes(self) -> (bytes: Vec<u8>)
        ensures
            bytes@ == le_bytes(self@ as nat, 16),
    {
        let mut bytes: Vec<u8> = Vec::new();
        push_u128(&mut bytes, self.value);
        proof {
            assert(bytes@ =~= le_bytes(self@ as nat, 16));
        }
        bytes
    }

    /// Creates an identity from its value.
    pub fn from_u128(value: u128) -> (created: Option<Self>)
        ensures
            value == 0 ==> created is None,
            value != 0 ==> created == Some(SessionId::of(value)),
    {
        SessionId::new(value)
    }

    /// Creates an identity from its little-endian bytes.
    pub fn from_bytes(bytes: [u8; 16]) -> (created: Option<Self>)
        ensures
            le_at(bytes@, 0, 16) == 0 ==> created is None,
            le_at(bytes@, 0, 16) != 0 ==> created == Some(
                SessionId::of(le_at(bytes@, 0, 16) as u128),
            ),
    {
        SessionId::new(read_u128(&bytes, 0))
    }

    /// Renders the identity without its value.
    pub fn to_text(self) -> (text: String)
        ensures
            text@ == "SessionId(<redacted>)"@,
    {
        String::from_str("SessionId(<redacted>)")
    }
}

/// Two session identities with one value are the same identity.
pub broadcast proof fn session_id_of_view(id: SessionId)
    ensures
        SessionId::of(#[trigger] id@) == id,
{
}

/// The value of a session identity is the value that it was made from.
pub broadcast proof fn session_id_view_of(value: u128)
    ensures
        #[trigger] SessionId::of(value)@ == value,
{
}

/// A monotonically increasing session resource generation. It is never zero.
#[derive(Clone, Copy, Debug, PartialEq, Eq, Hash, Structural)]
pub struct Generation {
    value: u64,
}

impl Generation {
    /// The number that the identifier stands for.
    pub closed spec fn view(&self) -> u64 {
        self.value
    }

    /// The identifier that stands for `value`.
    pub closed spec fn of(value: u64) -> Generation {
        Generation { value }
    }

    #[verifier::type_invariant]
    spec fn is_nonzero(self) -> bool {
        self.value != 0
    }

    /// Constructs a non-zero identifier.
    pub fn new(value: u64) -> (created: Option<Self>)
        ensures
            value == 0 ==> created is None,
            value != 0 ==> created == Some(Generation::of(value)),
    {
        if value == 0 {
            None
        } else {
            Some(Generation { value })
        }
    }

    /// Returns the fixed-width representation.
    pub fn get(self) -> (value: u64)
        ensures
            value == self@,
            value != 0,
    {
        proof {
            use_type_invariant(&self);
        }
        self.value
    }

    /// Advances the identifier, returning `None` at the monotonic boundary.
    pub fn checked_next(self) -> (next: Option<Self>)
        ensures
            self@ == u64::MAX ==> next is None,
            self@ < u64::MAX ==> next == Some(Generation::of((self@ + 1) as u64)),
    {
        if self.value == u64::MAX {
            None
        } else {
            Some(Generation { value: self.value + 1 })
        }
    }
}

/// Two identifiers with one value are the same identifier.
pub broadcast proof fn generation_of_view(id: Generation)
    ensures
        Generation::of(#[trigger] id@) == id,
{
}

/// The value of an identifier is the value that it was made from.
pub broadcast proof fn generation_view_of(value: u64)
    ensures
        #[trigger] Generation::of(value)@ == value,
{
}

/// A monotonically increasing renderer document generation. It is never zero.
#[derive(Clone, Copy, Debug, PartialEq, Eq, Hash, Structural)]
pub struct DocumentGeneration {
    value: u64,
}

impl DocumentGeneration {
    /// The number that the identifier stands for.
    pub closed spec fn view(&self) -> u64 {
        self.value
    }

    /// The identifier that stands for `value`.
    pub closed spec fn of(value: u64) -> DocumentGeneration {
        DocumentGeneration { value }
    }

    #[verifier::type_invariant]
    spec fn is_nonzero(self) -> bool {
        self.value != 0
    }

    /// Constructs a non-zero identifier.
    pub fn new(value: u64) -> (created: Option<Self>)
        ensures
            value == 0 ==> created is None,
            value != 0 ==> created == Some(DocumentGeneration::of(value)),
    {
        if value == 0 {
            None
        } else {
            Some(DocumentGeneration { value })
        }
    }

    /// Returns the fixed-width representation.
    pub fn get(self) -> (value: u64)
        ensures
            value == self@,
            value != 0,
    {
        proof {
            use_type_invariant(&self);
        }
        self.value
    }

    /// Advances the identifier, returning `None` at the monotonic boundary.
    pub fn checked_next(self) -> (next: Option<Self>)
        ensures
            self@ == u64::MAX ==> next is None,
            self@ < u64::MAX ==> next == Some(DocumentGeneration::of((self@ + 1) as u64)),
    {
        if self.value == u64::MAX {
            None
        } else {
            Some(DocumentGeneration { value: self.value + 1 })
        }
    }
}

/// Two identifiers with one value are the same identifier.
pub broadcast proof fn document_generation_of_view(id: DocumentGeneration)
    ensures
        DocumentGeneration::of(#[trigger] id@) == id,
{
}

/// The value of an identifier is the value that it was made from.
pub broadcast proof fn document_generation_view_of(value: u64)
    ensures
        #[trigger] DocumentGeneration::of(value)@ == value,
{
}

/// A message identity. It is never zero.
#[derive(Clone, Copy, Debug, PartialEq, Eq, Hash, Structural)]
pub struct MessageId {
    value: u64,
}

impl MessageId {
    /// The number that the identifier stands for.
    pub closed spec fn view(&self) -> u64 {
        self.value
    }

    /// The identifier that stands for `value`.
    pub closed spec fn of(value: u64) -> MessageId {
        MessageId { value }
    }

    #[verifier::type_invariant]
    spec fn is_nonzero(self) -> bool {
        self.value != 0
    }

    /// Constructs a non-zero identifier.
    pub fn new(value: u64) -> (created: Option<Self>)
        ensures
            value == 0 ==> created is None,
            value != 0 ==> created == Some(MessageId::of(value)),
    {
        if value == 0 {
            None
        } else {
            Some(MessageId { value })
        }
    }

    /// Returns the fixed-width representation.
    pub fn get(self) -> (value: u64)
        ensures
            value == self@,
            value != 0,
    {
        proof {
            use_type_invariant(&self);
        }
        self.value
    }

    /// Advances the identifier, returning `None` at the monotonic boundary.
    pub fn checked_next(self) -> (next: Option<Self>)
        ensures
            self@ == u64::MAX ==> next is None,
            self@ < u64::MAX ==> next == Some(MessageId::of((self@ + 1) as u64)),
    {
        if self.value == u64::MAX {
            None
        } else {
            Some(MessageId { value: self.value + 1 })
        }
    }
}

/// Two identifiers with one value are the same identifier.
pub broadcast proof fn message_id_of_view(id: MessageId)
    ensures
        MessageId::of(#[trigger] id@) == id,
{
}

/// The value of an identifier is the value that it was made from.
pub broadcast proof fn message_id_view_of(value: u64)
    ensures
        #[trigger] MessageId::of(value)@ == value,
{
}

/// A logical port identity. It is never zero.
#[derive(Clone, Copy, Debug, PartialEq, Eq, Hash, Structural)]
pub struct PortId {
    value: u64,
}

impl PortId {
    /// The number that the identifier stands for.
    pub closed spec fn view(&self) -> u64 {
        self.value
    }

    /// The identifier that stands for `value`.
    pub closed spec fn of(value: u64) -> PortId {
        PortId { value }
    }

    #[verifier::type_invariant]
    spec fn is_nonzero(self) -> bool {
        self.value != 0
    }

    /// Constructs a non-zero identifier.
    pub fn new(value: u64) -> (created: Option<Self>)
        ensures
            value == 0 ==> created is None,
            value != 0 ==> created == Some(PortId::of(value)),
    {
        if value == 0 {
            None
        } else {
            Some(PortId { value })
        }
    }

    /// Returns the fixed-width representation.
    pub fn get(self) -> (value: u64)
        ensures
            value == self@,
            value != 0,
    {
        proof {
            use_type_invariant(&self);
        }
        self.value
    }

    /// Advances the identifier, returning `None` at the monotonic boundary.
    pub fn checked_next(self) -> (next: Option<Self>)
        ensures
            self@ == u64::MAX ==> next is None,
            self@ < u64::MAX ==> next == Some(PortId::of((self@ + 1) as u64)),
    {
        if self.value == u64::MAX {
            None
        } else {
            Some(PortId { value: self.value + 1 })
        }
    }
}

/// Two identifiers with one value are the same identifier.
pub broadcast proof fn port_id_of_view(id: PortId)
    ensures
        PortId::of(#[trigger] id@) == id,
{
}

/// The value of an identifier is the value that it was made from.
pub broadcast proof fn port_id_view_of(value: u64)
    ensures
        #[trigger] PortId::of(value)@ == value,
{
}

/// Identities are the numbers that they stand for.
pub broadcast group group_identities {
    session_id_of_view,
    session_id_view_of,
    generation_of_view,
    generation_view_of,
    document_generation_of_view,
    document_generation_view_of,
    message_id_of_view,
    message_id_view_of,
    port_id_of_view,
    port_id_view_of,
}

/// A wrapping ring sequence number.
#[derive(Clone, Copy, Debug, PartialEq, Eq, Hash, Structural)]
pub struct Sequence {
    /// Fixed-width representation.
    pub value: u32,
}

impl Sequence {
    /// The sequence that follows this one.
    pub open spec fn next(self) -> Sequence {
        Sequence { value: if self.value == u32::MAX { 0 } else { (self.value + 1) as u32 } }
    }

    /// Creates a sequence at any wrapping value, including zero.
    pub fn new(value: u32) -> (created: Self)
        ensures
            created.value == value,
    {
        Sequence { value }
    }

    /// Returns the fixed-width representation.
    pub fn get(self) -> (value: u32)
        ensures
            value == self.value,
    {
        self.value
    }

    /// Advances with the wire-defined wrapping behavior.
    pub fn wrapping_next(self) -> (following: Self)
        ensures
            following == self.next(),
    {
        Sequence { value: self.value.wrapping_add(1) }
    }
}

impl Default for Sequence {
    fn default() -> (created: Self)
        ensures
            created.value == 0,
    {
        Sequence { value: 0 }
    }
}

/// A generation is followed by the very next one, and only the last one by none.
pub proof fn law_generations_count_up(id: Generation, next: Option<Generation>, other: Generation)
    requires
        call_ensures(Generation::checked_next, (id,), next),
    ensures
        next matches Some(following) ==> id@ < following@ && (other@ <= id@ || following@
            <= other@),
        next is None ==> other@ <= id@,
{
}

/// A document generation is followed by the very next one, and only the last one by none.
pub proof fn law_document_generations_count_up(
    id: DocumentGeneration,
    next: Option<DocumentGeneration>,
    other: DocumentGeneration,
)
    requires
        call_ensures(DocumentGeneration::checked_next, (id,), next),
    ensures
        next matches Some(following) ==> id@ < following@ && (other@ <= id@ || following@
            <= other@),
        next is None ==> other@ <= id@,
{
}

/// A message identity is followed by the very next one, and only the last one by none.
pub proof fn law_message_ids_count_up(id: MessageId, next: Option<MessageId>, other: MessageId)
    requires
        call_ensures(MessageId::checked_next, (id,), next),
    ensures
        next matches Some(following) ==> id@ < following@ && (other@ <= id@ || following@
            <= other@),
        next is None ==> other@ <= id@,
{
}

/// A port identity is followed by the very next one, and only the last one by none.
pub proof fn law_port_ids_count_up(id: PortId, next: Option<PortId>, other: PortId)
    requires
        call_ensures(PortId::checked_next, (id,), next),
    ensures
        next matches Some(following) ==> id@ < following@ && (other@ <= id@ || following@
            <= other@),
        next is None ==> other@ <= id@,
{
}

/// Sequences go round through every value: each is followed by another one, two by two different
/// ones, and only the largest by zero.
pub proof fn law_sequences_go_round(sequence: Sequence, other: Sequence)
    ensures
        sequence.next() == other.next() ==> sequence == other,
        sequence.next().value as int == (sequence.value + 1) % 0x1_0000_0000,
        sequence.next().value == 0 <==> sequence.value == u32::MAX,
{
}

/// An identity is made of every number but zero, and gives that number back, in bytes too.
pub proof fn law_session_ids_are_their_numbers(value: u128, created: Option<SessionId>)
    requires
        call_ensures(SessionId::new, (value,), created),
    ensures
        created is None <==> value == 0,
        created matches Some(id) ==> id@ == value && le_at(le_bytes(id@ as nat, 16), 0, 16)
            == value,
{
    lemma_le_limits();
    lemma_le_bytes_len(value as nat, 16);
    lemma_le_round_trip(value as nat, 16);
    assert(le_bytes(value as nat, 16).subrange(0, 16) =~= le_bytes(value as nat, 16));
}

} // verus!
