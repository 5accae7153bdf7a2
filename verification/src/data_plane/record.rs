//! Fixed-width record headers and their wire form.
//!
//! A record is a 24-byte prefix, its payload and zero bytes up to the next 8-byte boundary.

use vstd::prelude::*;

use crate::data_plane::layout::{align_record, aligned, RECORD_ALIGNMENT};
use crate::domain::bytes::{
    le_at, le_bytes, lemma_le_at_append, lemma_le_bytes_len, lemma_le_limits, lemma_le_value_bound,
    push_bytes, push_u16, push_u32, push_u64, read_u16, read_u32, read_u64,
};
use crate::domain::error::{report, ErrorCategory, ErrorCode, ErrorReport, Recoverability};
use crate::domain::types::{group_identities, MessageId, Sequence};

verus! {

broadcast use group_identities;

/// Bytes before the payload of every record.
pub const RECORD_PREFIX_SIZE: usize = 24;

/// Meaning of one record.
#[derive(Clone, Copy, Debug, PartialEq, Eq, Structural)]
pub enum RecordKind {
    /// Bytes that fill the ring up to its physical end.
    Padding,
    /// One application payload or one fragment of it.
    Data,
    /// Graceful close after all earlier records.
    Close,
    /// Immediate reset of the generation.
    Reset,
    /// A record that this version preserves without interpreting it.
    Other(u16),
}

impl RecordKind {
    /// Whether the kind has a wire value of its own.
    pub open spec fn wf(self) -> bool {
        match self {
            RecordKind::Other(value) => value > 4,
            _ => true,
        }
    }

    /// The wire value.
    pub open spec fn wire(self) -> u16 {
        match self {
            RecordKind::Padding => 1,
            RecordKind::Data => 2,
            RecordKind::Close => 3,
            RecordKind::Reset => 4,
            RecordKind::Other(value) => value,
        }
    }

    /// The kind with a given wire value. Zero is no kind.
    pub open spec fn of_wire(value: u16) -> Option<RecordKind> {
        if value == 0 {
            None
        } else if value == 1 {
            Some(RecordKind::Padding)
        } else if value == 2 {
            Some(RecordKind::Data)
        } else if value == 3 {
            Some(RecordKind::Close)
        } else if value == 4 {
            Some(RecordKind::Reset)
        } else {
            Some(RecordKind::Other(value))
        }
    }

    /// Returns the wire value.
    pub fn to_wire(self) -> (value: u16)
        ensures
            value == self.wire(),
    {
        match self {
            RecordKind::Padding => 1,
            RecordKind::Data => 2,
            RecordKind::Close => 3,
            RecordKind::Reset => 4,
            RecordKind::Other(value) => value,
        }
    }

    /// Returns the kind with a given wire value.
    pub fn from_wire(value: u16) -> (kind: Option<RecordKind>)
        ensures
            kind == RecordKind::of_wire(value),
    {
        match value {
            0 => None,
            1 => Some(RecordKind::Padding),
            2 => Some(RecordKind::Data),
            3 => Some(RecordKind::Close),
            4 => Some(RecordKind::Reset),
            _ => Some(RecordKind::Other(value)),
        }
    }
}

/// No flag.
pub const FLAG_NONE: u16 = 0;

/// The record ends its logical message.
pub const FLAG_END_OF_MESSAGE: u16 = 1;

/// The record holds one fragment of a larger logical message.
pub const FLAG_FRAGMENTED: u16 = 2;

/// Flags of one record, known and unknown.
#[derive(Clone, Copy, Debug, PartialEq, Eq, Structural)]
pub struct RecordFlags {
    /// All preserved bits.
    pub bits: u16,
}

impl RecordFlags {
    /// Whether every bit of `flag` is set.
    pub open spec fn has(self, flag: u16) -> bool {
        self.bits & flag == flag
    }

    /// No flag.
    pub fn none() -> (flags: Self)
        ensures
            flags.bits == FLAG_NONE,
    {
        RecordFlags { bits: FLAG_NONE }
    }

    /// The flag of a record that ends its message.
    pub fn end_of_message() -> (flags: Self)
        ensures
            flags.bits == FLAG_END_OF_MESSAGE,
    {
        RecordFlags { bits: FLAG_END_OF_MESSAGE }
    }

    /// The flag of a fragment.
    pub fn fragmented() -> (flags: Self)
        ensures
            flags.bits == FLAG_FRAGMENTED,
    {
        RecordFlags { bits: FLAG_FRAGMENTED }
    }

    /// Returns the preserved bits.
    pub fn bits(self) -> (bits: u16)
        ensures
            bits == self.bits,
    {
        self.bits
    }

    /// Returns the flags of both sets.
    pub fn union(self, other: Self) -> (flags: Self)
        ensures
            flags.bits == self.bits | other.bits,
    {
        RecordFlags { bits: self.bits | other.bits }
    }

    /// Returns whether every bit of `flag` is set.
    pub fn contains(self, flag: u16) -> (answer: bool)
        ensures
            answer == self.has(flag),
    {
        self.bits & flag == flag
    }
}

/// Decoded fields of a record prefix.
#[derive(Clone, Copy, Debug, PartialEq, Eq, Structural)]
pub struct ParsedRecordHeader {
    /// Aligned bytes occupied by the record.
    pub record_length: u32,
    /// Exact payload bytes.
    pub payload_length: u32,
    /// Message identity, absent from padding.
    pub message_id: Option<MessageId>,
    /// Position in the ring's record sequence.
    pub sequence: Sequence,
    /// Meaning of the record.
    pub kind: RecordKind,
    /// Preserved flags.
    pub flags: RecordFlags,
}

/// The aligned size of a record with a payload of `payload_length` bytes.
pub open spec fn record_size(payload_length: int) -> int {
    aligned(RECORD_PREFIX_SIZE + payload_length)
}

/// The wire number of an optional message identity.
pub open spec fn message_number(message_id: Option<MessageId>) -> u64 {
    match message_id {
        Some(id) => id@,
        None => 0,
    }
}

/// The optional message identity with a given wire number.
pub open spec fn message_of(number: u64) -> Option<MessageId> {
    if number == 0 {
        None
    } else {
        Some(MessageId::of(number))
    }
}

/// The report of a malformed or oversized record.
pub open spec fn record_report(code: ErrorCode, operation: &'static str) -> ErrorReport {
    report(
        if code is MessageTooLarge || code is InvalidRange {
            ErrorCategory::Resource
        } else {
            ErrorCategory::Protocol
        },
        code,
        Recoverability::ReplaceEndpoint,
        operation,
    )
}

fn record_error(code: ErrorCode, operation: &'static str) -> (created: ErrorReport)
    ensures
        created == record_report(code, operation),
{
    ErrorReport::new(
        if matches!(code, ErrorCode::MessageTooLarge | ErrorCode::InvalidRange) {
            ErrorCategory::Resource
        } else {
            ErrorCategory::Protocol
        },
        code,
        Recoverability::ReplaceEndpoint,
        operation,
    )
}

/// The header of an application or control record.
pub open spec fn application_header(
    payload_length: u32,
    message_id: MessageId,
    sequence: Sequence,
    kind: RecordKind,
    flags: RecordFlags,
) -> Result<ParsedRecordHeader, ErrorReport> {
    if kind is Padding {
        Err(record_report(ErrorCode::ProtocolViolation, "record kind"))
    } else if record_size(payload_length as int) > u32::MAX {
        Err(record_report(ErrorCode::InvalidRange, "record length"))
    } else {
        Ok(
            ParsedRecordHeader {
                record_length: record_size(payload_length as int) as u32,
                payload_length,
                message_id: Some(message_id),
                sequence,
                kind,
                flags,
            },
        )
    }
}

/// The header of padding that fills `length` bytes.
pub open spec fn padding_header(length: u32, sequence: Sequence) -> ParsedRecordHeader {
    ParsedRecordHeader {
        record_length: length,
        payload_length: (length - RECORD_PREFIX_SIZE) as u32,
        message_id: None,
        sequence,
        kind: RecordKind::Padding,
        flags: RecordFlags { bits: FLAG_NONE },
    }
}

impl ParsedRecordHeader {
    /// Whether the lengths agree and the message identity and kind have a wire form.
    pub open spec fn wf(self) -> bool {
        &&& self.record_length == record_size(self.payload_length as int)
        &&& self.kind.wf()
        &&& self.message_id matches Some(id) ==> id@ != 0
    }

    /// The 24 wire bytes of the prefix.
    pub open spec fn prefix_bytes(self) -> Seq<u8> {
        le_bytes(self.record_length as nat, 4) + le_bytes(self.payload_length as nat, 4) + le_bytes(
            message_number(self.message_id) as nat,
            8,
        ) + le_bytes(self.sequence.value as nat, 4) + le_bytes(self.kind.wire() as nat, 2)
            + le_bytes(self.flags.bits as nat, 2)
    }

    /// The complete wire bytes of the record with the given payload.
    pub open spec fn record_bytes(self, payload: Seq<u8>) -> Seq<u8> {
        self.prefix_bytes() + payload + Seq::new(
            (self.record_length - RECORD_PREFIX_SIZE - payload.len()) as nat,
            |i: int| 0u8,
        )
    }

    /// Creates the header of an application or control record.
    ///
    /// Padding and payloads whose aligned record does not fit 32 bits are rejected.
    pub fn new(
        payload_length: u32,
        message_id: MessageId,
        sequence: Sequence,
        kind: RecordKind,
        flags: RecordFlags,
    ) -> (created: Result<Self, ErrorReport>)
        ensures
            created == application_header(payload_length, message_id, sequence, kind, flags),
            created matches Ok(header) ==> message_id@ != 0,
    {
        if kind == RecordKind::Padding {
            return Err(record_error(ErrorCode::ProtocolViolation, "record kind"));
        }
        let _number: u64 = message_id.get();
        match align_record(payload_length) {
            None => Err(record_error(ErrorCode::InvalidRange, "record length")),
            Some(record_length) => Ok(
                ParsedRecordHeader {
                    record_length,
                    payload_length,
                    message_id: Some(message_id),
                    sequence,
                    kind,
                    flags,
                },
            ),
        }
    }

    /// Creates the header of padding that fills `length` bytes.
    ///
    /// A length that is not aligned, or too small for a prefix, is rejected.
    pub fn padding(length: u32, sequence: Sequence) -> (created: Result<Self, ErrorReport>)
        ensures
            created == if length < RECORD_PREFIX_SIZE || length % 8 != 0 {
                Err::<Self, ErrorReport>(
                    record_report(ErrorCode::InvalidRange, "padding length"),
                )
            } else {
                Ok(padding_header(length, sequence))
            },
            created matches Ok(header) ==> header.wf(),
    {
        if length < RECORD_PREFIX_SIZE as u32 || length % (RECORD_ALIGNMENT as u32) != 0 {
            return Err(record_error(ErrorCode::InvalidRange, "padding length"));
        }
        Ok(
            ParsedRecordHeader {
                record_length: length,
                payload_length: length - RECORD_PREFIX_SIZE as u32,
                message_id: None,
                sequence,
                kind: RecordKind::Padding,
                flags: RecordFlags::none(),
            },
        )
    }

    /// Encodes the complete record with its payload and zero padding, ready to be written into
    /// unpublished ring bytes.
    pub fn encode_unpublished(&self, payload: &[u8]) -> (encoded: Vec<u8>)
        requires
            self.wf(),
            payload@.len() == self.payload_length,
        ensures
            encoded@ == self.record_bytes(payload@),
            encoded@.len() == self.record_length,
    {
        let mut encoded: Vec<u8> = Vec::new();
        let number: u64 = match self.message_id {
            Some(id) => id.get(),
            None => 0,
        };
        push_u32(&mut encoded, self.record_length);
        push_u32(&mut encoded, self.payload_length);
        push_u64(&mut encoded, number);
        push_u32(&mut encoded, self.sequence.value);
        push_u16(&mut encoded, self.kind.to_wire());
        push_u16(&mut encoded, self.flags.bits);
        proof {
            assert(encoded@ =~= self.prefix_bytes());
            self.lemma_prefix_len();
        }
        push_bytes(&mut encoded, payload);
        let ghost body = encoded@;
        while encoded.len() < self.record_length as usize
            invariant
                body.len() <= encoded@.len() <= self.record_length,
                encoded@ =~= body + Seq::new((encoded@.len() - body.len()) as nat, |i: int| 0u8),
            decreases self.record_length - encoded@.len(),
        {
            encoded.push(0);
        }
        encoded
    }

    /// Decodes and validates the prefix of a committed record.
    ///
    /// Short input, an unknown kind, inconsistent lengths and an oversized payload are rejected.
    pub fn decode_committed(bytes: &[u8], maximum_inline_message: u32) -> (decoded: Result<
        Self,
        ErrorReport,
    >)
        ensures
            decoded == decoded_header(bytes@, maximum_inline_message),
            decoded matches Ok(header) ==> header.wf(),
    {
        if bytes.len() < RECORD_PREFIX_SIZE {
            return Err(record_error(ErrorCode::Truncated, "record prefix"));
        }
        let record_length: u32 = read_u32(bytes, 0);
        let payload_length: u32 = read_u32(bytes, 4);
        let number: u64 = read_u64(bytes, 8);
        let sequence: u32 = read_u32(bytes, 16);
        let kind: u16 = read_u16(bytes, 20);
        let flags: u16 = read_u16(bytes, 22);
        let kind = match RecordKind::from_wire(kind) {
            Some(kind) => kind,
            None => {
                return Err(record_error(ErrorCode::ProtocolViolation, "record kind"));
            },
        };
        if align_record(payload_length) != Some(record_length) {
            return Err(record_error(ErrorCode::ProtocolViolation, "record length"));
        }
        if kind != RecordKind::Padding && payload_length > maximum_inline_message {
            return Err(record_error(ErrorCode::MessageTooLarge, "record payload"));
        }
        let message_id = MessageId::new(number);
        Ok(
            ParsedRecordHeader {
                record_length,
                payload_length,
                message_id,
                sequence: Sequence::new(sequence),
                kind,
                flags: RecordFlags { bits: flags },
            },
        )
    }

    /// The prefix has its fixed width.
    pub proof fn lemma_prefix_len(self)
        ensures
            self.prefix_bytes().len() == RECORD_PREFIX_SIZE,
    {
        lemma_le_bytes_len(self.record_length as nat, 4);
        lemma_le_bytes_len(self.payload_length as nat, 4);
        lemma_le_bytes_len(message_number(self.message_id) as nat, 8);
        lemma_le_bytes_len(self.sequence.value as nat, 4);
        lemma_le_bytes_len(self.kind.wire() as nat, 2);
        lemma_le_bytes_len(self.flags.bits as nat, 2);
    }

    /// The record has the length that its header states.
    pub proof fn lemma_record_len(self, payload: Seq<u8>)
        requires
            self.wf(),
            payload.len() == self.payload_length,
        ensures
            self.record_bytes(payload).len() == self.record_length,
    {
        self.lemma_prefix_len();
    }
}

/// What the prefix at the start of `bytes` decodes to.
pub open spec fn decoded_header(bytes: Seq<u8>, maximum_inline_message: u32) -> Result<
    ParsedRecordHeader,
    ErrorReport,
> {
    if bytes.len() < RECORD_PREFIX_SIZE {
        Err(record_report(ErrorCode::Truncated, "record prefix"))
    } else {
        let record_length = le_at(bytes, 0, 4);
        let payload_length = le_at(bytes, 4, 4);
        match RecordKind::of_wire(le_at(bytes, 20, 2) as u16) {
            None => Err(record_report(ErrorCode::ProtocolViolation, "record kind")),
            Some(kind) => if record_size(payload_length as int) != record_length {
                Err(record_report(ErrorCode::ProtocolViolation, "record length"))
            } else if kind !is Padding && payload_length > maximum_inline_message {
                Err(record_report(ErrorCode::MessageTooLarge, "record payload"))
            } else {
                Ok(
                    ParsedRecordHeader {
                        record_length: record_length as u32,
                        payload_length: payload_length as u32,
                        message_id: message_of(le_at(bytes, 8, 8) as u64),
                        sequence: Sequence { value: le_at(bytes, 16, 4) as u32 },
                        kind,
                        flags: RecordFlags { bits: le_at(bytes, 22, 2) as u16 },
                    },
                )
            },
        }
    }
}

/// A decoded header is well formed.
pub proof fn lemma_decoded_header_wf(bytes: Seq<u8>, maximum_inline_message: u32)
    ensures
        decoded_header(bytes, maximum_inline_message) matches Ok(header) ==> {
            &&& header.wf()
            &&& header.record_length >= RECORD_PREFIX_SIZE + header.payload_length
            &&& header.kind !is Padding ==> header.payload_length <= maximum_inline_message
        },
{
    lemma_le_limits();
    if bytes.len() >= RECORD_PREFIX_SIZE {
        lemma_le_value_bound(bytes.subrange(0, 4));
        lemma_le_value_bound(bytes.subrange(4, 8));
        lemma_le_value_bound(bytes.subrange(20, 22));
    }
}

/// Decoding what was encoded gives the header back, whatever bytes follow the prefix.
pub proof fn law_header_round_trip(
    header: ParsedRecordHeader,
    rest: Seq<u8>,
    maximum_inline_message: u32,
)
    requires
        header.wf(),
        header.kind !is Padding ==> header.payload_length <= maximum_inline_message,
    ensures
        decoded_header(header.prefix_bytes() + rest, maximum_inline_message) == Ok::<
            ParsedRecordHeader,
            ErrorReport,
        >(header),
{
    lemma_le_limits();
    header.lemma_prefix_len();
    let all = header.prefix_bytes() + rest;
    let f0 = le_bytes(header.record_length as nat, 4);
    let f1 = le_bytes(header.payload_length as nat, 4);
    let f2 = le_bytes(message_number(header.message_id) as nat, 8);
    let f3 = le_bytes(header.sequence.value as nat, 4);
    let f4 = le_bytes(header.kind.wire() as nat, 2);
    let f5 = le_bytes(header.flags.bits as nat, 2);
    lemma_le_bytes_len(header.record_length as nat, 4);
    lemma_le_bytes_len(header.payload_length as nat, 4);
    lemma_le_bytes_len(message_number(header.message_id) as nat, 8);
    lemma_le_bytes_len(header.sequence.value as nat, 4);
    lemma_le_bytes_len(header.kind.wire() as nat, 2);
    lemma_le_bytes_len(header.flags.bits as nat, 2);
    assert(all =~= Seq::<u8>::empty() + f0 + (f1 + f2 + f3 + f4 + f5 + rest));
    lemma_le_at_append(
        Seq::<u8>::empty(),
        header.record_length as nat,
        4,
        f1 + f2 + f3 + f4 + f5 + rest,
    );
    assert(all =~= f0 + f1 + (f2 + f3 + f4 + f5 + rest));
    lemma_le_at_append(f0, header.payload_length as nat, 4, f2 + f3 + f4 + f5 + rest);
    assert(all =~= (f0 + f1) + f2 + (f3 + f4 + f5 + rest));
    lemma_le_at_append(
        f0 + f1,
        message_number(header.message_id) as nat,
        8,
        f3 + f4 + f5 + rest,
    );
    assert(all =~= (f0 + f1 + f2) + f3 + (f4 + f5 + rest));
    lemma_le_at_append(f0 + f1 + f2, header.sequence.value as nat, 4, f4 + f5 + rest);
    assert(all =~= (f0 + f1 + f2 + f3) + f4 + (f5 + rest));
    lemma_le_at_append(f0 + f1 + f2 + f3, header.kind.wire() as nat, 2, f5 + rest);
    assert(all =~= (f0 + f1 + f2 + f3 + f4) + f5 + rest);
    lemma_le_at_append(f0 + f1 + f2 + f3 + f4, header.flags.bits as nat, 2, rest);
}

/// Kinds are told apart by their wire values, and every value but zero is the value of one kind.
pub proof fn law_kinds_are_their_wire_values(value: u16, kind: Option<RecordKind>)
    requires
        call_ensures(RecordKind::from_wire, (value,), kind),
    ensures
        kind is None <==> value == 0,
        kind matches Some(found) ==> found.wire() == value && found.wf(),
        forall|other: RecordKind| other.wf() && #[trigger] other.wire() == value && value != 0
            ==> kind == Some(other),
{
}

/// Flags that are joined are all set, and a single flag is set in both or in none of them where it
/// is set in their union.
pub proof fn law_joined_flags_are_set(left: RecordFlags, right: RecordFlags, flag: u16)
    ensures
        ({
            let both = RecordFlags { bits: left.bits | right.bits };
            &&& both.has(left.bits)
            &&& both.has(right.bits)
            &&& left.has(flag) ==> both.has(flag)
            &&& right.has(flag) ==> both.has(flag)
        }),
        !(RecordFlags { bits: FLAG_END_OF_MESSAGE }).has(FLAG_FRAGMENTED),
        !(RecordFlags { bits: FLAG_FRAGMENTED }).has(FLAG_END_OF_MESSAGE),
        !(RecordFlags { bits: FLAG_NONE }).has(FLAG_FRAGMENTED),
        !(RecordFlags { bits: FLAG_NONE }).has(FLAG_END_OF_MESSAGE),
{
    let one = left.bits;
    let other = right.bits;
    assert((one | other) & one == one && (one | other) & other == other && (one & flag == flag
        ==> (one | other) & flag == flag) && (other & flag == flag ==> (one | other) & flag
        == flag)) by (bit_vector);
    assert(1u16 & 2u16 != 2u16 && 2u16 & 1u16 != 1u16 && 0u16 & 2u16 != 2u16 && 0u16 & 1u16
        != 1u16) by (bit_vector);
}

/// The record of a payload is the smallest whole number of boundaries that holds its prefix and
/// the payload; every payload whose record can be counted in 32 bits gets a header, that says what
/// it was made of, and padding never gets one of an application.
pub proof fn law_headers_say_what_they_were_made_of(
    payload_length: u32,
    message_id: MessageId,
    sequence: Sequence,
    kind: RecordKind,
    flags: RecordFlags,
    created: Result<ParsedRecordHeader, ErrorReport>,
)
    requires
        call_ensures(
            ParsedRecordHeader::new,
            (payload_length, message_id, sequence, kind, flags),
            created,
        ),
    ensures
        created is Ok <==> !(kind is Padding) && payload_length <= u32::MAX - 31,
        created matches Ok(header) ==> {
            &&& header.record_length % 8 == 0
            &&& 24 + payload_length <= header.record_length < 24 + payload_length + 8
            &&& header.payload_length == payload_length
            &&& header.message_id == Some(message_id)
            &&& header.sequence == sequence
            &&& header.kind == kind
            &&& header.flags == flags
        },
        created matches Err(error) ==> (error.code is ProtocolViolation <==> kind is Padding),
{
}

/// Padding fills exactly the bytes that it was asked to fill, where these are whole boundaries with
/// room for a prefix, and belongs to no message.
pub proof fn law_padding_fills_what_it_was_asked_to(
    length: u32,
    sequence: Sequence,
    created: Result<ParsedRecordHeader, ErrorReport>,
)
    requires
        call_ensures(ParsedRecordHeader::padding, (length, sequence), created),
    ensures
        created is Ok <==> length >= 24 && length % 8 == 0,
        created matches Ok(header) ==> {
            &&& header.record_length == length
            &&& header.payload_length + 24 == length
            &&& header.message_id is None
            &&& header.kind is Padding
            &&& header.sequence == sequence
        },
{
}

/// A prefix that was decoded is the only one of its header: encoding the header gives the very
/// bytes back. No record that is larger than it says, and no payload beyond the limit, is decoded.
pub proof fn law_headers_are_canonical(bytes: Seq<u8>, maximum_inline_message: u32)
    requires
        decoded_header(bytes, maximum_inline_message) is Ok,
    ensures
        ({
            let header = decoded_header(bytes, maximum_inline_message)->Ok_0;
            &&& header.prefix_bytes() == bytes.take(RECORD_PREFIX_SIZE as int)
            &&& header.record_length % 8 == 0
            &&& 24 + header.payload_length <= header.record_length < 32 + header.payload_length
            &&& header.kind is Padding || header.payload_length <= maximum_inline_message
        }),
{
    let header = decoded_header(bytes, maximum_inline_message)->Ok_0;
    lemma_le_limits();
    lemma_le_value_bound(bytes.subrange(0, 4));
    lemma_le_value_bound(bytes.subrange(4, 8));
    lemma_le_value_bound(bytes.subrange(8, 16));
    lemma_le_value_bound(bytes.subrange(16, 20));
    lemma_le_value_bound(bytes.subrange(20, 22));
    lemma_le_value_bound(bytes.subrange(22, 24));
    crate::domain::bytes::lemma_le_canonical(bytes.subrange(0, 4));
    crate::domain::bytes::lemma_le_canonical(bytes.subrange(4, 8));
    crate::domain::bytes::lemma_le_canonical(bytes.subrange(8, 16));
    crate::domain::bytes::lemma_le_canonical(bytes.subrange(16, 20));
    crate::domain::bytes::lemma_le_canonical(bytes.subrange(20, 22));
    crate::domain::bytes::lemma_le_canonical(bytes.subrange(22, 24));
    assert(header.prefix_bytes() =~= bytes.subrange(0, 4) + bytes.subrange(4, 8)
        + bytes.subrange(8, 16) + bytes.subrange(16, 20) + bytes.subrange(20, 22)
        + bytes.subrange(22, 24));
    assert(header.prefix_bytes() =~= bytes.take(RECORD_PREFIX_SIZE as int));
}

/// A failure of a record keeps its code; one of its size is a matter of resources, any other one of
/// the protocol.
pub proof fn law_record_failures_have_their_class(code: ErrorCode, operation: &'static str)
    ensures
        record_report(code, operation).code == code,
        record_report(code, operation).context == operation,
        record_report(code, operation).category is Resource
            <==> code is MessageTooLarge || code is InvalidRange,
        record_report(code, operation).category is Protocol
            <==> !(code is MessageTooLarge || code is InvalidRange),
        record_report(code, operation).recoverability is ReplaceEndpoint,
{
}

/// A header is refused for its kind before it is refused for its size, and for nothing else.
pub proof fn law_refused_headers_are_told_apart(
    payload_length: u32,
    message_id: MessageId,
    sequence: Sequence,
    kind: RecordKind,
    flags: RecordFlags,
    bytes: Seq<u8>,
    maximum_inline_message: u32,
)
    ensures
        application_header(payload_length, message_id, sequence, kind, flags) matches Err(error)
            ==> {
            &&& error.code is ProtocolViolation <==> kind is Padding
            &&& error.code is InvalidRange <==> !(kind is Padding)
        },
        decoded_header(bytes, maximum_inline_message) matches Err(error) ==> {
            &&& error.code is Truncated <==> bytes.len() < RECORD_PREFIX_SIZE
            &&& error.code is MessageTooLarge ==> le_at(bytes, 4, 4) > maximum_inline_message
            &&& error.code is Truncated || error.code is MessageTooLarge
                || error.code is ProtocolViolation
        },
{
}

} // verus!
