//! Length-prefixed, one-shot bootstrap transport for an inherited anonymous pipe.

use vstd::prelude::*;
use vstd::slice::slice_subrange;

use crate::bootstrap::codec::{
    decode, decoded, encode, encoded, law_decoding_undoes_encoding, sendable,
};
use crate::bootstrap::schema::{
    envelope_rejection, BootstrapEnvelope, EnvelopeView, MAX_ENVELOPE_LENGTH,
};
use crate::domain::bytes::{
    copy_range, le_at, le_bytes, lemma_le_at_append, lemma_le_bytes_len, lemma_le_canonical,
    lemma_le_limits,
    push_bytes, push_u32, read_u32,
};
use crate::domain::error::{report, ErrorCategory, ErrorCode, ErrorReport, Recoverability};

verus! {

/// Bytes of the length before a payload.
pub const LENGTH_PREFIX: usize = 4;

/// How a pipe operation failed.
#[derive(Clone, Copy, Debug, PartialEq, Eq, Structural)]
pub enum PipeFailure {
    /// The operation timed out or would block.
    TimedOut,
    /// The input ended early.
    EndOfInput,
    /// Anything else.
    Other,
}

/// How a bounded read of an envelope failed before it gave a result.
#[derive(Clone, Copy, Debug, PartialEq, Eq, Structural)]
pub enum ReaderFailure {
    /// The reader could not be started.
    NotStarted,
    /// The deadline expired.
    Expired,
    /// The reader ended without a result.
    Ended,
}

/// The report of a failed bootstrap transfer.
pub open spec fn transfer_report(code: ErrorCode, operation: &'static str) -> ErrorReport {
    report(
        if code is Timeout {
            ErrorCategory::Timeout
        } else {
            ErrorCategory::Bootstrap
        },
        code,
        Recoverability::ReplaceEndpoint,
        operation,
    )
}

fn bootstrap_error(code: ErrorCode, operation: &'static str) -> (created: ErrorReport)
    ensures
        created == transfer_report(code, operation),
{
    let category = match code {
        ErrorCode::Timeout => ErrorCategory::Timeout,
        _ => ErrorCategory::Bootstrap,
    };
    ErrorReport::new(category, code, Recoverability::ReplaceEndpoint, operation)
}

/// The code of a failed pipe operation.
pub open spec fn pipe_code(failure: PipeFailure) -> ErrorCode {
    match failure {
        PipeFailure::TimedOut => ErrorCode::Timeout,
        PipeFailure::EndOfInput => ErrorCode::Truncated,
        PipeFailure::Other => ErrorCode::ProtocolViolation,
    }
}

/// Reports a failed pipe operation without its native details.
pub fn io_error(failure: PipeFailure, operation: &'static str) -> (created: ErrorReport)
    ensures
        created == transfer_report(pipe_code(failure), operation),
{
    let code = match failure {
        PipeFailure::TimedOut => ErrorCode::Timeout,
        PipeFailure::EndOfInput => ErrorCode::Truncated,
        PipeFailure::Other => ErrorCode::ProtocolViolation,
    };
    bootstrap_error(code, operation)
}

/// Reports a bounded read that gave no result.
pub fn reader_error(failure: ReaderFailure) -> (created: ErrorReport)
    ensures
        created == match failure {
            ReaderFailure::NotStarted => transfer_report(
                ErrorCode::Internal,
                "spawn bootstrap reader",
            ),
            ReaderFailure::Expired => transfer_report(
                ErrorCode::Timeout,
                "read bootstrap timeout",
            ),
            ReaderFailure::Ended => transfer_report(ErrorCode::Internal, "read bootstrap worker"),
        },
{
    match failure {
        ReaderFailure::NotStarted => bootstrap_error(ErrorCode::Internal, "spawn bootstrap reader"),
        ReaderFailure::Expired => bootstrap_error(ErrorCode::Timeout, "read bootstrap timeout"),
        ReaderFailure::Ended => bootstrap_error(ErrorCode::Internal, "read bootstrap worker"),
    }
}

/// Whether a payload may be framed.
pub open spec fn framable(length: nat) -> bool {
    0 < length <= MAX_ENVELOPE_LENGTH
}

/// A payload behind its length.
pub open spec fn framed(payload: Seq<u8>) -> Seq<u8> {
    le_bytes(payload.len(), 4) + payload
}

/// The payload of the frame that an input begins with. The rest of the input is not looked at.
pub open spec fn frame_payload(input: Seq<u8>) -> Result<Seq<u8>, ErrorReport> {
    let length = le_at(input, 0, 4);
    if input.len() < LENGTH_PREFIX {
        Err(transfer_report(ErrorCode::Truncated, "read bootstrap length"))
    } else if !framable(length) {
        Err(transfer_report(ErrorCode::InvalidRange, "read bootstrap length"))
    } else if input.len() < LENGTH_PREFIX + length {
        Err(transfer_report(ErrorCode::Truncated, "read bootstrap body"))
    } else {
        Ok(input.subrange(LENGTH_PREFIX as int, LENGTH_PREFIX + length))
    }
}

/// The envelope of the frame that an input begins with.
pub open spec fn consumed(input: Seq<u8>) -> Result<EnvelopeView, ErrorReport> {
    match frame_payload(input) {
        Ok(payload) => decoded(payload),
        Err(error) => Err(error),
    }
}

/// Appends exactly one framed bootstrap envelope to what goes into the pipe.
///
/// An envelope that its schema rejects is not written.
pub fn write_envelope(output: &mut Vec<u8>, envelope: &BootstrapEnvelope) -> (written: Result<
    (),
    ErrorReport,
>)
    ensures
        match written {
            Ok(_) => {
                &&& envelope_rejection(envelope@) is None
                &&& final(output)@ == old(output)@ + framed(encoded(envelope@))
            },
            Err(error) => {
                &&& envelope_rejection(envelope@) == Some(error)
                &&& final(output)@ == old(output)@
            },
        },
{
    let payload = encode(envelope)?;
    proof {
        crate::bootstrap::codec::lemma_encoded_is_not_empty(envelope@);
    }
    write_frame(output, payload.as_slice())
}

/// Reads one framed bootstrap envelope from what came out of the pipe until its end.
///
/// A typed bootstrap error is returned for early end of input, oversized input, or malformed
/// envelopes.
pub fn consume(input: &[u8]) -> (envelope: Result<BootstrapEnvelope, ErrorReport>)
    ensures
        match envelope {
            Ok(found) => consumed(input@) == Ok::<EnvelopeView, ErrorReport>(found@),
            Err(error) => consumed(input@) == Err::<EnvelopeView, ErrorReport>(error),
        },
{
    let payload = read_frame(input)?;
    decode(payload.as_slice())
}

/// Appends a bounded length-prefixed binary frame to what goes into the pipe.
///
/// `InvalidRange` is returned for an empty or oversized payload.
pub fn write_frame(output: &mut Vec<u8>, payload: &[u8]) -> (written: Result<(), ErrorReport>)
    ensures
        match written {
            Ok(_) => framable(payload@.len()) && final(output)@ == old(output)@ + framed(payload@),
            Err(error) => {
                &&& !framable(payload@.len())
                &&& error == transfer_report(ErrorCode::InvalidRange, "write bootstrap length")
                &&& final(output)@ == old(output)@
            },
        },
{
    if payload.len() == 0 || payload.len() > MAX_ENVELOPE_LENGTH {
        return Err(bootstrap_error(ErrorCode::InvalidRange, "write bootstrap length"));
    }
    push_u32(output, payload.len() as u32);
    push_bytes(output, payload);
    proof {
        assert(output@ =~= old(output)@ + framed(payload@));
    }
    Ok(())
}

/// Decides how many bytes follow a length prefix.
///
/// `InvalidRange` is returned for an empty or oversized frame.
pub fn frame_length(prefix: &[u8]) -> (length: Result<usize, ErrorReport>)
    requires
        prefix@.len() == LENGTH_PREFIX,
    ensures
        match length {
            Ok(count) => count == le_at(prefix@, 0, 4) && framable(count as nat),
            Err(error) => {
                &&& !framable(le_at(prefix@, 0, 4))
                &&& error == transfer_report(ErrorCode::InvalidRange, "read bootstrap length")
            },
        },
{
    let length: u32 = read_u32(prefix, 0);
    if length == 0 || length as usize > MAX_ENVELOPE_LENGTH {
        return Err(bootstrap_error(ErrorCode::InvalidRange, "read bootstrap length"));
    }
    Ok(length as usize)
}

fn read_frame(input: &[u8]) -> (payload: Result<Vec<u8>, ErrorReport>)
    ensures
        match payload {
            Ok(found) => frame_payload(input@) == Ok::<Seq<u8>, ErrorReport>(found@),
            Err(error) => frame_payload(input@) == Err::<Seq<u8>, ErrorReport>(error),
        },
{
    if input.len() < LENGTH_PREFIX {
        return Err(io_error(PipeFailure::EndOfInput, "read bootstrap length"));
    }
    let prefix = slice_subrange(input, 0, LENGTH_PREFIX);
    proof {
        assert(prefix@.subrange(0, 4) =~= input@.subrange(0, 4));
    }
    let length: usize = frame_length(prefix)?;
    if input.len() - LENGTH_PREFIX < length {
        return Err(io_error(PipeFailure::EndOfInput, "read bootstrap body"));
    }
    Ok(copy_range(input, LENGTH_PREFIX, LENGTH_PREFIX + length))
}

/// A framed envelope is consumed as that envelope, whatever follows it in the pipe.
pub proof fn law_consuming_undoes_writing(envelope: EnvelopeView, more: Seq<u8>)
    requires
        sendable(envelope),
    ensures
        consumed(framed(encoded(envelope)) + more) == Ok::<EnvelopeView, ErrorReport>(envelope),
{
    let payload = encoded(envelope);
    let input = framed(payload) + more;
    law_decoding_undoes_encoding(envelope);
    crate::bootstrap::codec::lemma_encoded_is_not_empty(envelope);
    lemma_le_limits();
    lemma_le_bytes_len(payload.len(), 4);
    lemma_le_at_append(Seq::empty(), payload.len(), 4, payload + more);
    assert(input =~= Seq::<u8>::empty() + le_bytes(payload.len(), 4) + (payload + more));
    assert(input.subrange(4, 4int + payload.len()) =~= payload);
}

/// A payload that may be framed is read back from its frame, whatever follows it; an input that
/// ends within a frame is truncated, and what is read of an input is the frame that it begins with.
pub proof fn law_frames_are_read_back(payload: Seq<u8>, more: Seq<u8>, length: int)
    requires
        framable(payload.len()),
        0 <= length < framed(payload).len(),
    ensures
        frame_payload(framed(payload) + more) == Ok::<Seq<u8>, ErrorReport>(payload),
        frame_payload(framed(payload).take(length)) matches Err(error) && error.code is Truncated,
{
    let input = framed(payload) + more;
    lemma_le_limits();
    lemma_le_bytes_len(payload.len(), 4);
    lemma_le_at_append(Seq::empty(), payload.len(), 4, payload + more);
    assert(input =~= Seq::<u8>::empty() + le_bytes(payload.len(), 4) + (payload + more));
    assert(input.subrange(4, 4int + payload.len()) =~= payload);
    let cut = framed(payload).take(length);
    if length >= 4 {
        lemma_le_at_append(Seq::empty(), payload.len(), 4, payload.take(length - 4));
        assert(cut =~= Seq::<u8>::empty() + le_bytes(payload.len(), 4) + payload.take(length - 4));
    }
}

/// What is read of an input is between one byte and the largest envelope, and stands in it right
/// behind its length.
pub proof fn law_read_frames_stand_in_the_input(input: Seq<u8>)
    requires
        frame_payload(input) is Ok,
    ensures
        0 < frame_payload(input)->Ok_0.len() <= 16384,
        framed(frame_payload(input)->Ok_0).is_prefix_of(input),
{
    let payload = frame_payload(input)->Ok_0;
    lemma_le_limits();
    lemma_le_canonical(input.subrange(0, 4));
    lemma_le_bytes_len(payload.len(), 4);
    assert(framed(payload) =~= input.take(4int + payload.len()));
}

/// A timeout, an early end and any other failure of a pipe are told apart, and a timeout is one in
/// its category too.
pub proof fn law_pipe_failures_are_told_apart(
    failure: PipeFailure,
    other: PipeFailure,
    operation: &'static str,
    created: ErrorReport,
    another: ErrorReport,
)
    requires
        call_ensures(io_error, (failure, operation), created),
        call_ensures(io_error, (other, operation), another),
    ensures
        created.code == another.code <==> failure == other,
        created.code is Timeout <==> failure is TimedOut,
        created.category is Timeout <==> failure is TimedOut,
        created.code is Truncated <==> failure is EndOfInput,
        created.recoverability is ReplaceEndpoint,
{
}

/// A failure of a transfer keeps its code, and another endpoint gets over it; one that is late is
/// told apart from any other one.
pub proof fn law_transfer_failures_have_their_class(code: ErrorCode, operation: &'static str)
    ensures
        transfer_report(code, operation).code == code,
        transfer_report(code, operation).context == operation,
        transfer_report(code, operation).category is Timeout <==> code is Timeout,
        transfer_report(code, operation).category is Bootstrap <==> !(code is Timeout),
        transfer_report(code, operation).recoverability is ReplaceEndpoint,
{
}

/// A transfer that is late, cut short or broken is told as what it is.
pub proof fn law_pipe_failures_have_their_code(failure: PipeFailure, input: Seq<u8>)
    ensures
        pipe_code(failure) is Timeout <==> failure is TimedOut,
        pipe_code(failure) is Truncated <==> failure is EndOfInput,
        pipe_code(failure) is ProtocolViolation <==> failure is Other,
        frame_payload(input) matches Err(error) ==> {
            &&& error.code is Truncated || error.code is InvalidRange
            &&& error.code is InvalidRange ==> input.len() >= 4 && !(0 < le_at(input, 0, 4)
                <= MAX_ENVELOPE_LENGTH)
        },
{
}

} // verus!
