//! Range checks in front of native memory.

use vstd::prelude::*;

use crate::domain::error::{report, ErrorCategory, ErrorCode, ErrorReport, Recoverability};

verus! {

/// Recovery guidance of a memory failure.
pub open spec fn memory_recoverability(code: ErrorCode) -> Recoverability {
    if code is StaleGeneration {
        Recoverability::ReplaceEndpoint
    } else {
        Recoverability::Terminal
    }
}

/// The report of a memory failure.
pub open spec fn memory_report(code: ErrorCode, operation: &'static str) -> ErrorReport {
    report(ErrorCategory::Memory, code, memory_recoverability(code), operation)
}

pub(crate) fn memory_error(code: ErrorCode, operation: &'static str) -> (created: ErrorReport)
    ensures
        created == memory_report(code, operation),
{
    let recoverability = match code {
        ErrorCode::StaleGeneration => Recoverability::ReplaceEndpoint,
        _ => Recoverability::Terminal,
    };
    ErrorReport::new(ErrorCategory::Memory, code, recoverability, operation)
}

/// Why a range is not inside of a mapping, if it is not.
pub open spec fn range_rejection(
    offset: usize,
    length: usize,
    byte_len: usize,
    operation: &'static str,
) -> Option<ErrorReport> {
    if offset + length > byte_len {
        Some(memory_report(ErrorCode::InvalidRange, operation))
    } else {
        None
    }
}

/// Why a word is not inside of a mapping, if it is not.
pub open spec fn word_rejection(offset: usize, byte_len: usize, operation: &'static str) -> Option<
    ErrorReport,
> {
    if offset % 4 != 0 {
        Some(memory_report(ErrorCode::InvalidAlignment, operation))
    } else {
        range_rejection(offset, 4, byte_len, operation)
    }
}

/// Checks that a range is inside of a mapping.
pub fn checked_end(offset: usize, length: usize, byte_len: usize, operation: &'static str) -> (end:
    Result<usize, ErrorReport>)
    ensures
        match range_rejection(offset, length, byte_len, operation) {
            None => end == Ok::<usize, ErrorReport>((offset + length) as usize),
            Some(error) => end == Err::<usize, ErrorReport>(error),
        },
{
    match offset.checked_add(length) {
        Some(end) => {
            if end > byte_len {
                return Err(memory_error(ErrorCode::InvalidRange, operation));
            }
            Ok(end)
        },
        None => Err(memory_error(ErrorCode::InvalidRange, operation)),
    }
}

/// Checks that an aligned word is inside of a mapping.
pub fn checked_atomic_end(offset: usize, byte_len: usize, operation: &'static str) -> (end: Result<
    usize,
    ErrorReport,
>)
    ensures
        match word_rejection(offset, byte_len, operation) {
            None => end == Ok::<usize, ErrorReport>((offset + 4) as usize),
            Some(error) => end == Err::<usize, ErrorReport>(error),
        },
{
    if offset % 4 != 0 {
        return Err(memory_error(ErrorCode::InvalidAlignment, operation));
    }
    checked_end(offset, 4, byte_len, operation)
}

/// A range is accepted exactly where it starts and ends inside of the mapping, and the end that is
/// told is the place of its first byte plus its length: no sum overflows, no byte lies beyond.
pub proof fn law_accepted_ranges_are_inside(
    offset: usize,
    length: usize,
    byte_len: usize,
    operation: &'static str,
    end: Result<usize, ErrorReport>,
)
    requires
        call_ensures(checked_end, (offset, length, byte_len, operation), end),
    ensures
        end is Ok <==> offset <= byte_len && length <= byte_len - offset,
        end matches Ok(end) ==> end - offset == length && end <= byte_len,
        end matches Err(error) ==> error.code is InvalidRange && error.category is Memory,
{
}

/// Ranges that follow each other are accepted together exactly where the range that joins them
/// is: no mapping accepts both parts of what it refuses as a whole.
pub proof fn law_adjacent_ranges_join(
    offset: usize,
    first: usize,
    second: usize,
    byte_len: usize,
    operation: &'static str,
    front: Result<usize, ErrorReport>,
    back: Result<usize, ErrorReport>,
    whole: Result<usize, ErrorReport>,
)
    requires
        offset + first + second <= usize::MAX,
        call_ensures(checked_end, (offset, first, byte_len, operation), front),
        call_ensures(checked_end, ((offset + first) as usize, second, byte_len, operation), back),
        call_ensures(checked_end, (offset, (first + second) as usize, byte_len, operation), whole),
    ensures
        whole is Ok <==> front is Ok && back is Ok,
        whole is Ok ==> whole == back,
{
}

/// A word is accepted exactly where its offset is a multiple of four and all four of its bytes
/// lie inside of the mapping; a crooked offset is told apart from one that is too large.
pub proof fn law_accepted_words_are_aligned(
    offset: usize,
    byte_len: usize,
    operation: &'static str,
    end: Result<usize, ErrorReport>,
)
    requires
        call_ensures(checked_atomic_end, (offset, byte_len, operation), end),
    ensures
        end is Ok <==> offset % 4 == 0 && byte_len >= 4 && offset <= byte_len - 4,
        end matches Ok(end) ==> end - offset == 4,
        end matches Err(error) ==> (error.code is InvalidAlignment <==> offset % 4 != 0) && (
        error.code is InvalidRange <==> offset % 4 == 0),
{
}

/// Only a stale generation is worth another endpoint.
pub proof fn law_only_stale_memory_is_replaced(code: ErrorCode, operation: &'static str)
    ensures
        memory_report(code, operation).recoverability is ReplaceEndpoint
            <==> code is StaleGeneration,
        memory_report(code, operation).recoverability is Terminal <==> !(code is StaleGeneration),
        memory_report(code, operation).category is Memory,
        memory_report(code, operation).code == code,
{
}

/// A failure of mapped memory keeps its code and is one of memory.
pub proof fn law_mapped_failures_are_of_memory(code: ErrorCode, operation: &'static str)
    ensures
        memory_report(code, operation).code == code,
        memory_report(code, operation).context == operation,
        memory_report(code, operation).category is Memory,
{
}

/// A word that is not aligned is told so before its range is looked at.
pub proof fn law_refused_accesses_are_told_apart(
    offset: usize,
    length: usize,
    byte_len: usize,
    operation: &'static str,
)
    ensures
        range_rejection(offset, length, byte_len, operation) matches Some(error) ==> error.code
            is InvalidRange,
        word_rejection(offset, byte_len, operation) matches Some(error) ==> {
            &&& error.code is InvalidAlignment <==> offset % 4 != 0
            &&& error.code is InvalidRange <==> offset % 4 == 0
        },
{
}

} // verus!
