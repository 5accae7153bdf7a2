//! Bounded logical-message fragmentation and single-message reassembly.

use vstd::prelude::*;
use vstd::slice::slice_subrange;

use crate::data_plane::layout::align_record;
use crate::data_plane::record::{
    record_size, ParsedRecordHeader, RecordFlags, FLAG_END_OF_MESSAGE, FLAG_FRAGMENTED,
};
use crate::domain::bytes::{copy_range, push_bytes};
use crate::domain::error::{report, ErrorCategory, ErrorCode, ErrorReport, Recoverability};
use crate::domain::types::MessageId;

verus! {

/// The report of a rejected message or fragment.
pub open spec fn fragment_report(
    code: ErrorCode,
    recoverability: Recoverability,
    operation: &'static str,
) -> ErrorReport {
    report(
        if code is MessageTooLarge || code is InvalidRange {
            ErrorCategory::Resource
        } else {
            ErrorCategory::Protocol
        },
        code,
        recoverability,
        operation,
    )
}

fn fragment_error(
    code: ErrorCode,
    recoverability: Recoverability,
    operation: &'static str,
) -> (created: ErrorReport)
    ensures
        created == fragment_report(code, recoverability, operation),
{
    ErrorReport::new(
        if matches!(code, ErrorCode::MessageTooLarge | ErrorCode::InvalidRange) {
            ErrorCategory::Resource
        } else {
            ErrorCategory::Protocol
        },
        code,
        recoverability,
        operation,
    )
}

/// The report of an encoded size that does not fit 32 bits.
pub open spec fn encoded_size_report() -> ErrorReport {
    fragment_report(ErrorCode::InvalidRange, Recoverability::Terminal, "fragment encoded size")
}

fn invalid_range() -> (created: ErrorReport)
    ensures
        created == encoded_size_report(),
{
    fragment_error(ErrorCode::InvalidRange, Recoverability::Terminal, "fragment encoded size")
}

/// One borrowed payload fragment and its wire flags.
#[derive(Clone, Copy)]
pub struct Fragment<'message> {
    /// Borrowed payload range.
    pub payload: &'message [u8],
    /// Record flags of the fragment.
    pub flags: RecordFlags,
}

impl<'message> Fragment<'message> {
    /// Returns the borrowed payload range.
    pub fn payload(self) -> (payload: &'message [u8])
        ensures
            payload == self.payload,
    {
        self.payload
    }

    /// Returns the record flags for this fragment.
    pub fn flags(self) -> (flags: RecordFlags)
        ensures
            flags == self.flags,
    {
        self.flags
    }
}

/// `payload` cut into consecutive pieces of `inline` bytes, the last of which may be shorter.
pub open spec fn pieces(payload: Seq<u8>, inline: nat) -> Seq<Seq<u8>>
    decreases payload.len(),
{
    if inline == 0 || payload.len() <= inline {
        seq![payload]
    } else {
        seq![payload.subrange(0, inline as int)] + pieces(
            payload.subrange(inline as int, payload.len() as int),
            inline,
        )
    }
}

/// The flags of the piece at `index` of `count` pieces.
pub open spec fn piece_flags(index: int, count: nat) -> RecordFlags {
    RecordFlags {
        bits: if count == 1 {
            FLAG_END_OF_MESSAGE
        } else if index + 1 == count {
            FLAG_FRAGMENTED | FLAG_END_OF_MESSAGE
        } else {
            FLAG_FRAGMENTED
        },
    }
}

/// Whether fragments are the pieces of a payload with their flags.
pub open spec fn cut_into(fragments: Seq<Fragment>, payload: Seq<u8>, inline: nat) -> bool {
    let cut = pieces(payload, inline);
    &&& fragments.len() == cut.len()
    &&& forall|i: int|
        #![trigger fragments[i]]
        0 <= i < cut.len() ==> fragments[i].payload@ == cut[i] && fragments[i].flags == piece_flags(
            i,
            cut.len(),
        )
}

/// The encoded bytes of a message of `message` bytes cut into records of `inline` bytes.
pub open spec fn wire_size(inline: int, message: int) -> int {
    record_size(inline) * (message / inline) + if message % inline == 0 {
        0
    } else {
        record_size(message % inline)
    }
}

/// Validates logical message limits and produces deterministic fragment boundaries.
#[derive(Clone, Copy, Debug, PartialEq, Eq, Structural)]
pub struct Fragmenter {
    /// Largest payload of one record.
    pub maximum_inline_message: u32,
    /// Largest logical message.
    pub maximum_message: u32,
}

/// Whether the limits of a fragmentation policy agree.
pub open spec fn limits_agree(maximum_inline_message: u32, maximum_message: u32) -> bool {
    maximum_inline_message != 0 && maximum_message >= maximum_inline_message
}

/// The report of limits that do not agree.
pub open spec fn limits_report() -> ErrorReport {
    fragment_report(ErrorCode::InvalidRange, Recoverability::Terminal, "fragment limits")
}

impl Fragmenter {
    /// Whether the limits agree.
    pub open spec fn wf(self) -> bool {
        limits_agree(self.maximum_inline_message, self.maximum_message)
    }

    /// Creates a fragmentation policy.
    ///
    /// `InvalidRange` is returned unless both limits are non-zero and the logical limit is at
    /// least the inline limit.
    pub fn new(maximum_inline_message: u32, maximum_message: u32) -> (created: Result<
        Self,
        ErrorReport,
    >)
        ensures
            created == if limits_agree(maximum_inline_message, maximum_message) {
                Ok::<Self, ErrorReport>(Fragmenter { maximum_inline_message, maximum_message })
            } else {
                Err(limits_report())
            },
    {
        if maximum_inline_message == 0 || maximum_message < maximum_inline_message {
            return Err(
                fragment_error(
                    ErrorCode::InvalidRange,
                    Recoverability::Terminal,
                    "fragment limits",
                ),
            );
        }
        Ok(Fragmenter { maximum_inline_message, maximum_message })
    }

    /// Splits one logical message without copying its payload.
    ///
    /// `MessageTooLarge` is returned when the payload exceeds the configured logical limit.
    pub fn fragments<'message>(self, payload: &'message [u8]) -> (cut: Result<
        Vec<Fragment<'message>>,
        ErrorReport,
    >)
        requires
            self.wf(),
        ensures
            match cut {
                Ok(fragments) => payload@.len() <= self.maximum_message && cut_into(
                    fragments@,
                    payload@,
                    self.maximum_inline_message as nat,
                ),
                Err(error) => payload@.len() > self.maximum_message && error == fragment_report(
                    ErrorCode::MessageTooLarge,
                    Recoverability::Terminal,
                    "logical message size",
                ),
            },
    {
        if payload.len() > self.maximum_message as usize {
            return Err(
                fragment_error(
                    ErrorCode::MessageTooLarge,
                    Recoverability::Terminal,
                    "logical message size",
                ),
            );
        }
        let inline: usize = self.maximum_inline_message as usize;
        let mut fragments: Vec<Fragment<'message>> = Vec::new();
        if payload.len() <= inline {
            fragments.push(Fragment { payload, flags: RecordFlags::end_of_message() });
            return Ok(fragments);
        }
        let ghost cut = pieces(payload@, inline as nat);
        let mut rest: &'message [u8] = payload;
        proof {
            assert(payload@.subrange(0, payload@.len() as int) =~= payload@);
            lemma_pieces_count(payload@, inline as nat);
        }
        while rest.len() > inline
            invariant
                inline > 0,
                cut.len() > 1,
                cut.len() == fragments@.len() + pieces(rest@, inline as nat).len(),
                forall|i: int|
                    0 <= i < fragments@.len() ==> (#[trigger] fragments@[i]).payload@ == cut[i]
                        && fragments@[i].flags.bits == FLAG_FRAGMENTED,
                forall|i: int|
                    0 <= i < pieces(rest@, inline as nat).len() ==> #[trigger] pieces(
                        rest@,
                        inline as nat,
                    )[i] == cut[fragments@.len() + i],
            decreases rest@.len(),
        {
            let ghost done = fragments@.len();
            let ghost before = rest@;
            let first: &'message [u8] = slice_subrange(rest, 0, inline);
            fragments.push(Fragment { payload: first, flags: RecordFlags::fragmented() });
            rest = slice_subrange(rest, inline, rest.len());
            proof {
                let whole = pieces(before, inline as nat);
                let tail = pieces(rest@, inline as nat);
                assert(whole == seq![first@] + tail);
                assert(whole[0] == first@);
                assert(whole[0] == cut[done + 0int]);
                assert forall|i: int| 0 <= i < tail.len() implies #[trigger] tail[i]
                    == cut[fragments@.len() + i] by {
                    assert(whole[i + 1] == tail[i]);
                    assert(whole[i + 1] == cut[done + (i + 1)]);
                }
            }
        }
        proof {
            let tail = pieces(rest@, inline as nat);
            assert(tail[0] == rest@);
            assert(tail[0] == cut[fragments@.len() + 0int]);
        }
        fragments.push(
            Fragment {
                payload: rest,
                flags: RecordFlags::fragmented().union(RecordFlags::end_of_message()),
            },
        );
        Ok(fragments)
    }

    /// Returns encoded record bytes for the largest configured logical message, excluding wrap
    /// padding.
    ///
    /// `InvalidRange` is returned if the size does not fit 32 bits.
    pub fn maximum_wire_bytes(self) -> (bytes: Result<u32, ErrorReport>)
        requires
            self.wf(),
        ensures
            bytes == if wire_size(
                self.maximum_inline_message as int,
                self.maximum_message as int,
            ) <= u32::MAX {
                Ok::<u32, ErrorReport>(
                    wire_size(
                        self.maximum_inline_message as int,
                        self.maximum_message as int,
                    ) as u32,
                )
            } else {
                Err(encoded_size_report())
            },
    {
        wire_bytes(self.maximum_inline_message, self.maximum_message)
    }

    /// Returns the aligned encoded size of a maximum-sized fragment.
    ///
    /// `InvalidRange` is returned if the size does not fit 32 bits.
    pub fn maximum_record_length(self) -> (length: Result<u32, ErrorReport>)
        ensures
            length == if record_size(self.maximum_inline_message as int) <= u32::MAX {
                Ok::<u32, ErrorReport>(record_size(self.maximum_inline_message as int) as u32)
            } else {
                Err(encoded_size_report())
            },
    {
        record_length(self.maximum_inline_message)
    }

    /// Returns the worst-case ring bytes for the largest logical message, including wrap padding
    /// before one fragment.
    ///
    /// `InvalidRange` is returned if the calculation cannot be represented.
    pub fn maximum_batch_bytes(self) -> (bytes: Result<u32, ErrorReport>)
        requires
            self.wf(),
        ensures
            ({
                let inline = self.maximum_inline_message as int;
                let sum = wire_size(inline, self.maximum_message as int) + record_size(inline);
                bytes == if sum <= u32::MAX {
                    Ok::<u32, ErrorReport>((sum - 8) as u32)
                } else {
                    Err(encoded_size_report())
                }
            }),
    {
        proof {
            lemma_wire_size_bounds(
                self.maximum_inline_message as int,
                self.maximum_message as int,
            );
        }
        let wire: u32 = self.maximum_wire_bytes()?;
        let record: u32 = self.maximum_record_length()?;
        let sum: u64 = wire as u64 + record as u64;
        if sum > u32::MAX as u64 {
            return Err(invalid_range());
        }
        Ok((sum - 8) as u32)
    }
}

fn wire_bytes(inline: u32, message: u32) -> (bytes: Result<u32, ErrorReport>)
    requires
        0 < inline <= message,
    ensures
        bytes == if wire_size(inline as int, message as int) <= u32::MAX {
            Ok::<u32, ErrorReport>(wire_size(inline as int, message as int) as u32)
        } else {
            Err(encoded_size_report())
        },
{
    let full_fragments: u32 = message / inline;
    let remainder: u32 = message % inline;
    proof {
        lemma_wire_size_bounds(inline as int, message as int);
    }
    let record: u32 = record_length(inline)?;
    proof {
        assert(record * full_fragments <= 0xffff_ffff * 0xffff_ffff) by (nonlinear_arith)
            requires
                record <= 0xffff_ffff,
                full_fragments <= 0xffff_ffff,
        ;
    }
    let full_bytes: u64 = record as u64 * full_fragments as u64;
    if full_bytes > u32::MAX as u64 {
        return Err(invalid_range());
    }
    if remainder == 0 {
        return Ok(full_bytes as u32);
    }
    let last: u32 = record_length(remainder)?;
    let total: u64 = full_bytes + last as u64;
    if total > u32::MAX as u64 {
        return Err(invalid_range());
    }
    Ok(total as u32)
}

fn record_length(payload: u32) -> (length: Result<u32, ErrorReport>)
    ensures
        length == if record_size(payload as int) <= u32::MAX {
            Ok::<u32, ErrorReport>(record_size(payload as int) as u32)
        } else {
            Err(encoded_size_report())
        },
{
    match align_record(payload) {
        Some(length) => Ok(length),
        None => Err(invalid_range()),
    }
}

/// The parts of an encoded size are no larger than the whole.
pub proof fn lemma_wire_size_bounds(inline: int, message: int)
    requires
        0 < inline <= message,
    ensures
        record_size(inline) <= wire_size(inline, message),
        record_size(inline) * (message / inline) <= wire_size(inline, message),
        message % inline != 0 ==> record_size(message % inline) <= wire_size(inline, message),
        record_size(inline) >= 24,
{
    vstd::arithmetic::div_mod::lemma_fundamental_div_mod(message, inline);
    vstd::arithmetic::div_mod::lemma_mod_bound(message, inline);
    let full = message / inline;
    assert(full >= 1) by (nonlinear_arith)
        requires
            message == inline * full + message % inline,
            0 <= message % inline < inline,
            0 < inline <= message,
    ;
    let record = record_size(inline);
    assert(record * full >= record) by (nonlinear_arith)
        requires
            full >= 1,
            record >= 0,
    ;
}

/// A payload larger than one piece has at least two.
pub proof fn lemma_pieces_count(payload: Seq<u8>, inline: nat)
    requires
        inline > 0,
    ensures
        pieces(payload, inline).len() >= 1,
        payload.len() > inline ==> pieces(payload, inline).len() != 1,
        payload.len() <= inline ==> pieces(payload, inline).len() == 1,
    decreases payload.len(),
{
    if payload.len() > inline {
        lemma_pieces_count(payload.subrange(inline as int, payload.len() as int), inline);
    }
}

/// A payload with several pieces is larger than one of them may be.
pub proof fn lemma_several_pieces(payload: Seq<u8>, inline: nat)
    requires
        inline > 0,
        pieces(payload, inline).len() != 1,
    ensures
        payload.len() > inline,
{
    lemma_pieces_count(payload, inline);
}

/// Several byte strings one after the other.
pub open spec fn joined(parts: Seq<Seq<u8>>) -> Seq<u8>
    decreases parts.len(),
{
    if parts.len() == 0 {
        Seq::empty()
    } else {
        parts[0] + joined(parts.subrange(1, parts.len() as int))
    }
}

/// The pieces of a payload, one after the other, are the payload; no piece is larger than a record
/// may be, and none of several is empty.
pub proof fn law_pieces_join_to_the_payload(payload: Seq<u8>, inline: nat)
    requires
        inline > 0,
    ensures
        joined(pieces(payload, inline)) == payload,
        forall|i: int|
            0 <= i < pieces(payload, inline).len() ==> (#[trigger] pieces(
                payload,
                inline,
            )[i]).len() <= inline,
        pieces(payload, inline).len() > 1 ==> forall|i: int|
            0 <= i < pieces(payload, inline).len() ==> (#[trigger] pieces(
                payload,
                inline,
            )[i]).len() > 0,
    decreases payload.len(),
{
    let cut = pieces(payload, inline);
    if payload.len() <= inline {
        assert(cut.subrange(1, 1) =~= Seq::<Seq<u8>>::empty());
        assert(joined(Seq::<Seq<u8>>::empty()) =~= Seq::<u8>::empty());
        assert(joined(cut) =~= payload);
    } else {
        let head = payload.subrange(0, inline as int);
        let tail = payload.subrange(inline as int, payload.len() as int);
        law_pieces_join_to_the_payload(tail, inline);
        lemma_pieces_count(tail, inline);
        let rest = pieces(tail, inline);
        assert(cut.subrange(1, cut.len() as int) =~= rest);
        assert(joined(cut) =~= payload);
        assert forall|i: int| 0 <= i < cut.len() implies 0 < (#[trigger] cut[i]).len()
            <= inline by {
            if i > 0 {
                assert(cut[i] == rest[i - 1]);
                if rest.len() == 1 {
                    assert(rest[0] == tail);
                }
            }
        }
    }
}

/// Result of accepting one validated data record into a reassembler.
#[derive(Clone, Debug, PartialEq, Eq)]
pub enum Reassembly {
    /// More records with the same message identity are required.
    Pending,
    /// One complete application-owned logical message.
    Complete(Vec<u8>),
}

impl Reassembly {
    /// The completed message, if there is one.
    pub open spec fn view(&self) -> Option<Seq<u8>> {
        match *self {
            Reassembly::Pending => None,
            Reassembly::Complete(payload) => Some(payload@),
        }
    }
}

/// An incomplete logical message.
pub struct PartialMessage {
    /// Identity that every further fragment must carry.
    pub message_id: MessageId,
    /// Bytes received so far.
    pub payload: Vec<u8>,
}

/// An incomplete message as a mathematical value.
pub struct PartialView {
    /// Identity that every further fragment must carry.
    pub message_id: MessageId,
    /// Bytes received so far.
    pub payload: Seq<u8>,
}

/// Reassembles at most one fragmented message at a time.
pub struct Reassembler {
    /// Largest payload of one record.
    pub maximum_inline_message: u32,
    /// Largest logical message.
    pub maximum_message: u32,
    /// Message that is being put together.
    pub partial: Option<PartialMessage>,
}

/// What one record does to an incomplete message: the new incomplete message, and the completed
/// message, `None` where more is needed, or the error.
pub open spec fn pushed(
    maximum_inline_message: u32,
    maximum_message: u32,
    partial: Option<PartialView>,
    header: ParsedRecordHeader,
    payload: Seq<u8>,
) -> (Option<PartialView>, Result<Option<Seq<u8>>, ErrorReport>) {
    let fragmented = header.flags.has(FLAG_FRAGMENTED);
    let ends = header.flags.has(FLAG_END_OF_MESSAGE);
    let earlier = match partial {
        Some(found) => found.payload,
        None => Seq::empty(),
    };
    match header.message_id {
        None => (None, Err(rejected(ErrorCode::ProtocolViolation, "fragment message id"))),
        Some(id) => if payload.len() != header.payload_length || payload.len()
            > maximum_inline_message {
            (None, Err(rejected(ErrorCode::ProtocolViolation, "fragment payload range")))
        } else if !fragmented {
            if !ends || partial is Some {
                (None, Err(rejected(ErrorCode::ProtocolViolation, "fragment interleaving")))
            } else {
                (None, Ok(Some(payload)))
            }
        } else if payload.len() == 0 || (partial is None && ends) {
            (None, Err(rejected(ErrorCode::ProtocolViolation, "fragment flags")))
        } else if partial matches Some(found) && found.message_id != id {
            (None, Err(rejected(ErrorCode::ProtocolViolation, "fragment message interleaving")))
        } else if earlier.len() + payload.len() > maximum_message {
            (None, Err(rejected(ErrorCode::MessageTooLarge, "fragment message size")))
        } else if ends {
            (None, Ok(Some(earlier + payload)))
        } else {
            (Some(PartialView { message_id: id, payload: earlier + payload }), Ok(None))
        },
    }
}

/// The report of a record that ends reassembly.
pub open spec fn rejected(code: ErrorCode, operation: &'static str) -> ErrorReport {
    fragment_report(code, Recoverability::ReplaceEndpoint, operation)
}

impl Reassembler {
    /// Whether the limits agree and the incomplete message is within them.
    pub open spec fn wf(self) -> bool {
        &&& limits_agree(self.maximum_inline_message, self.maximum_message)
        &&& self.partial matches Some(found) ==> found.payload@.len() <= self.maximum_message
    }

    /// The incomplete message.
    pub open spec fn pending(self) -> Option<PartialView> {
        match self.partial {
            Some(found) => Some(
                PartialView { message_id: found.message_id, payload: found.payload@ },
            ),
            None => None,
        }
    }

    /// Creates an empty reassembler using the same limits as its sender.
    ///
    /// `InvalidRange` is returned for inconsistent limits.
    pub fn new(maximum_inline_message: u32, maximum_message: u32) -> (created: Result<
        Self,
        ErrorReport,
    >)
        ensures
            match created {
                Ok(reassembler) => {
                    &&& limits_agree(maximum_inline_message, maximum_message)
                    &&& reassembler.wf()
                    &&& reassembler.maximum_inline_message == maximum_inline_message
                    &&& reassembler.maximum_message == maximum_message
                    &&& reassembler.partial is None
                },
                Err(error) => !limits_agree(maximum_inline_message, maximum_message) && error
                    == limits_report(),
            },
    {
        let _policy = Fragmenter::new(maximum_inline_message, maximum_message)?;
        Ok(Reassembler { maximum_inline_message, maximum_message, partial: None })
    }

    /// Accepts one data record and either buffers or completes its logical message.
    ///
    /// Malformed flags, missing message identities, interleaving, and size overflow are rejected,
    /// and with them the incomplete message.
    pub fn push(&mut self, header: ParsedRecordHeader, payload: &[u8]) -> (outcome: Result<
        Reassembly,
        ErrorReport,
    >)
        requires
            old(self).wf(),
        ensures
            final(self).wf(),
            final(self).maximum_inline_message == old(self).maximum_inline_message,
            final(self).maximum_message == old(self).maximum_message,
            ({
                let expected = pushed(
                    old(self).maximum_inline_message,
                    old(self).maximum_message,
                    old(self).pending(),
                    header,
                    payload@,
                );
                &&& final(self).pending() == expected.0
                &&& match outcome {
                    Ok(reassembly) => expected.1 == Ok::<Option<Seq<u8>>, ErrorReport>(
                        reassembly@,
                    ),
                    Err(error) => expected.1 == Err::<Option<Seq<u8>>, ErrorReport>(error),
                }
            }),
    {
        let message_id = match header.message_id {
            Some(message_id) => message_id,
            None => {
                return Err(self.fail(ErrorCode::ProtocolViolation, "fragment message id"));
            },
        };
        if payload.len() != header.payload_length as usize || payload.len()
            > self.maximum_inline_message as usize {
            return Err(self.fail(ErrorCode::ProtocolViolation, "fragment payload range"));
        }
        let fragmented = header.flags.contains(FLAG_FRAGMENTED);
        let ends_message = header.flags.contains(FLAG_END_OF_MESSAGE);
        if !fragmented {
            if !ends_message || self.partial.is_some() {
                return Err(self.fail(ErrorCode::ProtocolViolation, "fragment interleaving"));
            }
            let message = copy_range(payload, 0, payload.len());
            proof {
                assert(message@ =~= payload@);
            }
            return Ok(Reassembly::Complete(message));
        }
        if payload.len() == 0 || (self.partial.is_none() && ends_message) {
            return Err(self.fail(ErrorCode::ProtocolViolation, "fragment flags"));
        }
        let found = match self.partial.take() {
            Some(found) => found,
            None => PartialMessage { message_id, payload: Vec::new() },
        };
        if found.message_id != message_id {
            return Err(
                self.fail(ErrorCode::ProtocolViolation, "fragment message interleaving"),
            );
        }
        let mut combined = found.payload;
        if combined.len() as u64 + payload.len() as u64 > self.maximum_message as u64 {
            return Err(self.fail(ErrorCode::MessageTooLarge, "fragment message size"));
        }
        push_bytes(&mut combined, payload);
        if ends_message {
            Ok(Reassembly::Complete(combined))
        } else {
            self.partial = Some(PartialMessage { message_id, payload: combined });
            Ok(Reassembly::Pending)
        }
    }

    /// Drops an incomplete logical message, for close, reset or generation replacement.
    pub fn discard(&mut self)
        ensures
            *final(self) == (Reassembler { partial: None, ..*old(self) }),
    {
        self.partial = None;
    }

    /// Returns whether a logical message is currently incomplete.
    pub fn is_pending(&self) -> (answer: bool)
        ensures
            answer == (self.partial is Some),
    {
        self.partial.is_some()
    }

    fn fail(&mut self, code: ErrorCode, operation: &'static str) -> (created: ErrorReport)
        ensures
            *final(self) == (Reassembler { partial: None, ..*old(self) }),
            created == rejected(code, operation),
    {
        self.discard();
        fragment_error(code, Recoverability::ReplaceEndpoint, operation)
    }
}

/// What remains incomplete, and what the last record gave, after several records.
pub open spec fn pushed_all(
    maximum_inline_message: u32,
    maximum_message: u32,
    partial: Option<PartialView>,
    records: Seq<(ParsedRecordHeader, Seq<u8>)>,
) -> (Option<PartialView>, Result<Option<Seq<u8>>, ErrorReport>)
    decreases records.len(),
{
    if records.len() == 0 {
        (partial, Ok(None))
    } else {
        pushed(
            maximum_inline_message,
            maximum_message,
            pushed_all(
                maximum_inline_message,
                maximum_message,
                partial,
                records.drop_last(),
            ).0,
            records.last().0,
            records.last().1,
        )
    }
}

/// Whether records carry the pieces of one message.
pub open spec fn carries(
    records: Seq<(ParsedRecordHeader, Seq<u8>)>,
    message_id: MessageId,
    cut: Seq<Seq<u8>>,
) -> bool {
    &&& records.len() == cut.len()
    &&& forall|i: int|
        #![trigger records[i]]
        0 <= i < cut.len() ==> {
            &&& records[i].0.message_id == Some(message_id)
            &&& records[i].0.flags == piece_flags(i, cut.len())
            &&& records[i].0.payload_length == cut[i].len()
            &&& records[i].1 == cut[i]
        }
}

/// A message within the limits that was cut into records comes out whole: every record but the last
/// asks for more, the last one completes exactly the message, and nothing stays behind.
pub proof fn law_fragments_reassemble(
    maximum_inline_message: u32,
    maximum_message: u32,
    message_id: MessageId,
    payload: Seq<u8>,
    records: Seq<(ParsedRecordHeader, Seq<u8>)>,
)
    requires
        limits_agree(maximum_inline_message, maximum_message),
        payload.len() <= maximum_message,
        carries(records, message_id, pieces(payload, maximum_inline_message as nat)),
    ensures
        pushed_all(maximum_inline_message, maximum_message, None, records) == (
            None::<PartialView>,
            Ok::<Option<Seq<u8>>, ErrorReport>(Some(payload)),
        ),
        forall|count: int|
            0 <= count < records.len() ==> (#[trigger] pushed_all(
                maximum_inline_message,
                maximum_message,
                None,
                records.subrange(0, count),
            )).1 == Ok::<Option<Seq<u8>>, ErrorReport>(None),
{
    let inline = maximum_inline_message as nat;
    let cut = pieces(payload, inline);
    law_pieces_join_to_the_payload(payload, inline);
    lemma_pieces_count(payload, inline);
    assert(FLAG_FRAGMENTED & FLAG_FRAGMENTED == FLAG_FRAGMENTED && FLAG_FRAGMENTED
        & FLAG_END_OF_MESSAGE != FLAG_END_OF_MESSAGE && (FLAG_FRAGMENTED | FLAG_END_OF_MESSAGE)
        & FLAG_FRAGMENTED == FLAG_FRAGMENTED && (FLAG_FRAGMENTED | FLAG_END_OF_MESSAGE)
        & FLAG_END_OF_MESSAGE == FLAG_END_OF_MESSAGE && FLAG_END_OF_MESSAGE & FLAG_END_OF_MESSAGE
        == FLAG_END_OF_MESSAGE && FLAG_END_OF_MESSAGE & FLAG_FRAGMENTED != FLAG_FRAGMENTED)
        by (bit_vector);
    assert forall|count: int| 0 <= count < records.len() implies (#[trigger] pushed_all(
        maximum_inline_message,
        maximum_message,
        None,
        records.subrange(0, count),
    )) == (
        if count == 0 {
            None::<PartialView>
        } else {
            Some(PartialView { message_id, payload: joined(cut.subrange(0, count)) })
        },
        Ok::<Option<Seq<u8>>, ErrorReport>(None),
    ) by {
        lemma_prefix_is_pending(
            maximum_inline_message,
            maximum_message,
            message_id,
            payload,
            records,
            count,
        );
    }
    let last = records.len() - 1;
    let before = records.subrange(0, last);
    assert(records.drop_last() =~= before);
    assert(pushed_all(maximum_inline_message, maximum_message, None, before).1 == Ok::<
        Option<Seq<u8>>,
        ErrorReport,
    >(None));
    assert(records.last() == records[last]);
    if last == 0 {
        assert(cut[0] == payload);
    } else {
        lemma_joined_push(cut.subrange(0, last), cut[last]);
        assert(cut.subrange(0, last).push(cut[last]) =~= cut);
        lemma_joined_len(cut, last);
    }
}

/// Bytes of a prefix of the parts.
proof fn lemma_joined_len(parts: Seq<Seq<u8>>, count: int)
    requires
        0 <= count <= parts.len(),
    ensures
        joined(parts.subrange(0, count)).len() <= joined(parts).len(),
    decreases parts.len() - count,
{
    if count < parts.len() {
        lemma_joined_push(parts.subrange(0, count), parts[count]);
        assert(parts.subrange(0, count).push(parts[count]) =~= parts.subrange(0, count + 1));
        lemma_joined_len(parts, count + 1);
    } else {
        assert(parts.subrange(0, count) =~= parts);
    }
}

proof fn lemma_joined_push(parts: Seq<Seq<u8>>, part: Seq<u8>)
    ensures
        joined(parts.push(part)) == joined(parts) + part,
    decreases parts.len(),
{
    let all = parts.push(part);
    if parts.len() == 0 {
        assert(all.subrange(1, 1) =~= Seq::<Seq<u8>>::empty());
        assert(joined(Seq::<Seq<u8>>::empty()) =~= Seq::<u8>::empty());
        assert(joined(all) =~= joined(parts) + part);
    } else {
        let rest = parts.subrange(1, parts.len() as int);
        lemma_joined_push(rest, part);
        assert(all.subrange(1, all.len() as int) =~= rest.push(part));
        assert(joined(all) =~= joined(parts) + part);
    }
}

proof fn lemma_prefix_is_pending(
    maximum_inline_message: u32,
    maximum_message: u32,
    message_id: MessageId,
    payload: Seq<u8>,
    records: Seq<(ParsedRecordHeader, Seq<u8>)>,
    count: int,
)
    requires
        limits_agree(maximum_inline_message, maximum_message),
        payload.len() <= maximum_message,
        carries(records, message_id, pieces(payload, maximum_inline_message as nat)),
        0 <= count < records.len(),
    ensures
        pushed_all(
            maximum_inline_message,
            maximum_message,
            None,
            records.subrange(0, count),
        ) == (
            if count == 0 {
                None::<PartialView>
            } else {
                Some(
                    PartialView {
                        message_id,
                        payload: joined(
                            pieces(payload, maximum_inline_message as nat).subrange(0, count),
                        ),
                    },
                )
            },
            Ok::<Option<Seq<u8>>, ErrorReport>(None),
        ),
    decreases count,
{
    let inline = maximum_inline_message as nat;
    let cut = pieces(payload, inline);
    let prefix = records.subrange(0, count);
    if count > 0 {
        let last = count - 1;
        lemma_prefix_is_pending(
            maximum_inline_message,
            maximum_message,
            message_id,
            payload,
            records,
            last,
        );
        law_pieces_join_to_the_payload(payload, inline);
        assert(prefix.drop_last() =~= records.subrange(0, last));
        assert(prefix.last() == records[last]);
        lemma_joined_push(cut.subrange(0, last), cut[last]);
        assert(cut.subrange(0, last).push(cut[last]) =~= cut.subrange(0, count));
        lemma_joined_len(cut, count);
        assert(FLAG_FRAGMENTED & FLAG_FRAGMENTED == FLAG_FRAGMENTED && FLAG_FRAGMENTED
            & FLAG_END_OF_MESSAGE != FLAG_END_OF_MESSAGE) by (bit_vector);
        if last == 0 {
            assert(cut.subrange(0, 0) =~= Seq::<Seq<u8>>::empty());
            assert(joined(cut.subrange(0, 0)) =~= Seq::<u8>::empty());
        }
    }
}

/// A rejected record leaves nothing incomplete behind.
pub proof fn law_rejection_discards_the_message(
    maximum_inline_message: u32,
    maximum_message: u32,
    partial: Option<PartialView>,
    header: ParsedRecordHeader,
    payload: Seq<u8>,
)
    ensures
        ({
            let outcome = pushed(
                maximum_inline_message,
                maximum_message,
                partial,
                header,
                payload,
            );
            outcome.1 is Err ==> outcome.0 is None
        }),
{
}

/// The encoded bytes of records with these payloads.
pub open spec fn encoded_bytes(parts: Seq<Seq<u8>>) -> int
    decreases parts.len(),
{
    if parts.len() == 0 {
        0
    } else {
        record_size(parts[0].len() as int) + encoded_bytes(parts.subrange(1, parts.len() as int))
    }
}

/// The encoded size of a message that is not empty is the sum of its records.
proof fn lemma_encoded_pieces(payload: Seq<u8>, inline: nat)
    requires
        inline > 0,
        payload.len() > 0,
    ensures
        encoded_bytes(pieces(payload, inline)) == wire_size(inline as int, payload.len() as int),
    decreases payload.len(),
{
    let length = payload.len() as int;
    let cut = pieces(payload, inline);
    let rest = cut.subrange(1, cut.len() as int);
    let whole = inline as int;
    if length <= inline {
        assert(rest =~= Seq::<Seq<u8>>::empty());
        assert(encoded_bytes(rest) == 0);
        if length < inline {
            vstd::arithmetic::div_mod::lemma_small_mod(payload.len(), inline);
            vstd::arithmetic::div_mod::lemma_basic_div(length, whole);
            assert(record_size(whole) * 0 == 0) by (nonlinear_arith);
        } else {
            vstd::arithmetic::div_mod::lemma_div_by_self(whole);
            vstd::arithmetic::div_mod::lemma_mod_self_0(whole);
            assert(record_size(whole) * 1 == record_size(whole)) by (nonlinear_arith);
        }
    } else {
        let tail = payload.subrange(whole, length);
        assert(rest =~= pieces(tail, inline));
        lemma_encoded_pieces(tail, inline);
        let full = length / whole;
        let fewer = (length - whole) / whole;
        assert(fewer == full - 1) by {
            vstd::arithmetic::div_mod::lemma_div_minus_one(length, whole);
        }
        let record = record_size(whole);
        assert(record * full == record + record * fewer) by (nonlinear_arith)
            requires
                fewer == full - 1,
        ;
        assert((length - whole) % whole == length % whole) by {
            vstd::arithmetic::div_mod::lemma_mod_sub_multiples_vanish(length, whole);
        }
        assert(cut[0] == payload.subrange(0, whole));
    }
}

/// A longer message needs no fewer bytes.
proof fn lemma_wire_size_grows(inline: int, shorter: int, longer: int)
    requires
        0 < inline,
        0 <= shorter <= longer,
    ensures
        wire_size(inline, shorter) <= wire_size(inline, longer),
{
    let record = record_size(inline);
    let few = shorter / inline;
    let many = longer / inline;
    let left = shorter % inline;
    let over = longer % inline;
    vstd::arithmetic::div_mod::lemma_fundamental_div_mod(shorter, inline);
    vstd::arithmetic::div_mod::lemma_fundamental_div_mod(longer, inline);
    vstd::arithmetic::div_mod::lemma_mod_bound(shorter, inline);
    vstd::arithmetic::div_mod::lemma_mod_bound(longer, inline);
    vstd::arithmetic::div_mod::lemma_div_is_ordered(shorter, longer, inline);
    if few == many {
        assert(inline * few == inline * many);
        assert(left <= over);
    } else {
        assert(record * few + record <= record * many) by (nonlinear_arith)
            requires
                few + 1 <= many,
                record >= 0,
        ;
        assert(record_size(left) <= record);
    }
}

/// The wire bound is tight: the records of every message up to the maximum fit into it, and those
/// of a message of the maximum length fill it.
pub proof fn law_wire_bound_is_tight(fragmenter: Fragmenter, payload: Seq<u8>)
    requires
        fragmenter.wf(),
        payload.len() <= fragmenter.maximum_message,
    ensures
        ({
            let inline = fragmenter.maximum_inline_message;
            let bound = wire_size(inline as int, fragmenter.maximum_message as int);
            let encoded = encoded_bytes(pieces(payload, inline as nat));
            &&& encoded <= bound
            &&& payload.len() == fragmenter.maximum_message ==> encoded == bound
        }),
{
    let inline = fragmenter.maximum_inline_message;
    let maximum = fragmenter.maximum_message as int;
    if payload.len() == 0 {
        let cut = pieces(payload, inline as nat);
        assert(cut.subrange(1, 1) =~= Seq::<Seq<u8>>::empty());
        assert(encoded_bytes(cut.subrange(1, 1)) == 0);
        lemma_wire_size_bounds(inline as int, maximum);
    } else {
        lemma_encoded_pieces(payload, inline as nat);
        lemma_wire_size_grows(inline as int, payload.len() as int, maximum);
    }
}

/// The bytes of the records that carry these parts.
pub open spec fn records_size(parts: Seq<Seq<u8>>) -> int
    decreases parts.len(),
{
    if parts.len() == 0 {
        0
    } else {
        record_size(parts[0].len() as int) + records_size(parts.subrange(1, parts.len() as int))
    }
}

/// The encoded size of a message is the size of the records of all of its pieces together.
pub proof fn law_encoded_sizes_are_those_of_the_records(payload: Seq<u8>, inline: nat)
    requires
        inline > 0,
        payload.len() > 0,
    ensures
        records_size(pieces(payload, inline)) == wire_size(inline as int, payload.len() as int),
    decreases payload.len(),
{
    let cut = pieces(payload, inline);
    let limit = inline as int;
    let length = payload.len() as int;
    let record = record_size(limit);
    vstd::arithmetic::div_mod::lemma_fundamental_div_mod(length, limit);
    vstd::arithmetic::div_mod::lemma_mod_bound(length, limit);
    if length <= limit {
        assert(cut.subrange(1, 1) =~= Seq::<Seq<u8>>::empty());
        assert(records_size(cut.subrange(1, 1)) == 0);
        if length == limit {
            vstd::arithmetic::div_mod::lemma_div_multiples_vanish(1, limit);
            assert(length / limit == 1 && length % limit == 0) by (nonlinear_arith)
                requires
                    length == limit,
                    limit > 0,
            ;
            assert(record * 1 == record);
        } else {
            vstd::arithmetic::div_mod::lemma_small_mod(payload.len(), inline);
            assert(length / limit == 0) by (nonlinear_arith)
                requires
                    0 <= length < limit,
            ;
            assert(record * 0 == 0);
        }
    } else {
        let tail = payload.subrange(limit, length);
        law_encoded_sizes_are_those_of_the_records(tail, inline);
        assert(cut.subrange(1, cut.len() as int) =~= pieces(tail, inline));
        assert(cut[0].len() == inline);
        let rest = length - limit;
        vstd::arithmetic::div_mod::lemma_div_plus_one(rest, limit);
        vstd::arithmetic::div_mod::lemma_mod_add_multiples_vanish(rest, limit);
        let full = rest / limit;
        assert(length / limit == full + 1);
        assert(record * (full + 1) == record * full + record) by (nonlinear_arith);
    }
}

/// Limits agree exactly where a record holds something and a message at least as much as a record.
pub proof fn law_limits_hold_a_record(
    maximum_inline_message: u32,
    maximum_message: u32,
    created: Result<Fragmenter, ErrorReport>,
)
    requires
        call_ensures(Fragmenter::new, (maximum_inline_message, maximum_message), created),
    ensures
        created is Ok <==> 0 < maximum_inline_message <= maximum_message,
        created matches Ok(policy) ==> policy.maximum_inline_message == maximum_inline_message
            && policy.maximum_message == maximum_message,
        created matches Err(error) ==> error.code is InvalidRange
            && error.recoverability is Terminal,
{
}

/// Nothing of a message is lost, added or reordered on its way through a reassembler: what comes
/// out or stays behind is what was there with the new bytes behind it; a refused record takes the
/// incomplete message with it. Only a fragment that belongs to the message in progress is added.
pub proof fn law_reassembly_keeps_every_byte(
    maximum_inline_message: u32,
    maximum_message: u32,
    partial: Option<PartialView>,
    header: ParsedRecordHeader,
    payload: Seq<u8>,
)
    ensures
        ({
            let (left, outcome) = pushed(
                maximum_inline_message,
                maximum_message,
                partial,
                header,
                payload,
            );
            let earlier = match partial {
                Some(found) => found.payload,
                None => Seq::empty(),
            };
            let fragmented = header.flags.has(FLAG_FRAGMENTED);
            let ends = header.flags.has(FLAG_END_OF_MESSAGE);
            &&& outcome matches Ok(Some(message)) ==> {
                &&& message == earlier + payload
                &&& left is None
                &&& ends
                &&& fragmented <==> partial is Some
                &&& fragmented ==> message.len() <= maximum_message
                &&& payload.len() <= maximum_inline_message
            }
            &&& outcome matches Ok(None) ==> {
                &&& left matches Some(found) && found.payload == earlier + payload
                    && header.message_id == Some(found.message_id) && found.payload.len()
                    <= maximum_message
                &&& fragmented && !ends && payload.len() > 0
                &&& payload.len() <= maximum_inline_message
            }
            &&& outcome is Ok && partial is Some ==> header.message_id == Some(
                partial->0.message_id,
            )
            &&& outcome is Err ==> left is None
            &&& outcome matches Err(error) ==> error.recoverability is ReplaceEndpoint
            &&& header.message_id is None || payload.len() != header.payload_length
                ==> outcome is Err
        }),
{
    if partial is None {
        assert(Seq::<u8>::empty() + payload =~= payload);
    }
}

/// A message within the limits of one record is whole in one; one beyond the limit of a message is
/// cut by nobody, and only the last piece ends its message.
pub proof fn law_only_the_last_piece_ends_its_message<'message>(
    policy: Fragmenter,
    payload: &'message [u8],
    cut: Result<Vec<Fragment<'message>>, ErrorReport>,
    index: int,
)
    requires
        policy.wf(),
        call_ensures(Fragmenter::fragments, (policy, payload), cut),
    ensures
        cut is Ok <==> payload@.len() <= policy.maximum_message,
        cut matches Ok(fragments) ==> {
            &&& fragments@.len() == 1 <==> payload@.len() <= policy.maximum_inline_message
            &&& 0 <= index < fragments@.len() ==> {
                let flags = fragments@[index].flags;
                &&& flags.has(FLAG_END_OF_MESSAGE) <==> index + 1 == fragments@.len()
                &&& flags.has(FLAG_FRAGMENTED) <==> fragments@.len() > 1
                &&& fragments@[index].payload@.len() <= policy.maximum_inline_message
            }
        },
        cut matches Err(error) ==> error.code is MessageTooLarge,
{
    let inline = policy.maximum_inline_message as nat;
    lemma_pieces_count(payload@, inline);
    law_pieces_join_to_the_payload(payload@, inline);
    assert(FLAG_FRAGMENTED & FLAG_FRAGMENTED == FLAG_FRAGMENTED && FLAG_FRAGMENTED
        & FLAG_END_OF_MESSAGE != FLAG_END_OF_MESSAGE && (FLAG_FRAGMENTED | FLAG_END_OF_MESSAGE)
        & FLAG_FRAGMENTED == FLAG_FRAGMENTED && (FLAG_FRAGMENTED | FLAG_END_OF_MESSAGE)
        & FLAG_END_OF_MESSAGE == FLAG_END_OF_MESSAGE && FLAG_END_OF_MESSAGE & FLAG_END_OF_MESSAGE
        == FLAG_END_OF_MESSAGE && FLAG_END_OF_MESSAGE & FLAG_FRAGMENTED != FLAG_FRAGMENTED)
        by (bit_vector);
}

/// A failure of fragmentation keeps its code and its recoverability; one of size is a matter of
/// resources, any other one of the protocol.
pub proof fn law_fragment_failures_have_their_class(
    code: ErrorCode,
    recoverability: Recoverability,
    operation: &'static str,
)
    ensures
        fragment_report(code, recoverability, operation).code == code,
        fragment_report(code, recoverability, operation).context == operation,
        fragment_report(code, recoverability, operation).recoverability == recoverability,
        fragment_report(code, recoverability, operation).category is Resource
            <==> code is MessageTooLarge || code is InvalidRange,
        fragment_report(code, recoverability, operation).category is Protocol
            <==> !(code is MessageTooLarge || code is InvalidRange),
{
}

/// A record that a message cannot go on with ends the message. One that would make the message
/// larger than any may be is told so, and is the only one; anything else is against the protocol.
pub proof fn law_refused_fragments_are_told_apart(
    maximum_inline_message: u32,
    maximum_message: u32,
    partial: Option<PartialView>,
    header: ParsedRecordHeader,
    payload: Seq<u8>,
)
    ensures
        pushed(maximum_inline_message, maximum_message, partial, header, payload).1 matches Err(
            error,
        ) ==> {
            &&& pushed(maximum_inline_message, maximum_message, partial, header, payload).0 is None
            &&& error.recoverability is ReplaceEndpoint
            &&& error.code is MessageTooLarge || error.code is ProtocolViolation
            &&& error.code is MessageTooLarge ==> header.flags.has(FLAG_FRAGMENTED) && (
            match partial {
                Some(found) => found.payload.len(),
                None => 0,
            }) + payload.len() > maximum_message
        },
        header.message_id is None ==> (pushed(
            maximum_inline_message,
            maximum_message,
            partial,
            header,
            payload,
        ).1 matches Err(error) && error.code is ProtocolViolation),
{
}

} // verus!
