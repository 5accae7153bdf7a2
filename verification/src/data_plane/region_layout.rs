//! Immutable header of a mapped region.
//!
//! A region is a fixed header followed by one ring. The header names the session generation, the
//! writer and the limits; the two cursors of the ring live in its upper part.

use vstd::prelude::*;
use vstd::string::StringSliceAdditionalSpecFns;

use crate::data_plane::layout::{
    aligned, align_record, capacity_is_valid, valid_capacity, MAX_INLINE_MESSAGE_SIZE,
};
use crate::domain::bytes::{
    le_at, le_bytes, lemma_le_at_append, lemma_le_bytes_len, lemma_le_limits, push_bytes,
    push_u128, push_u16, push_u32, push_u64, read_u128, read_u16, read_u32, read_u64, starts_with,
};
use crate::domain::error::{report, ErrorCategory, ErrorCode, ErrorReport, Recoverability};
use crate::domain::types::{group_identities, Generation, SessionId};

verus! {

broadcast use group_identities;

/// Bytes of the header.
pub const REGION_HEADER_SIZE: usize = 256;

/// Bytes of the header that hold metadata. The rest is zero when a region is created.
pub const REGION_METADATA_SIZE: usize = 52;

/// Offset of the producer cursor.
pub const PRODUCER_CURSOR_OFFSET: usize = 128;

/// Offset of the consumer cursor.
pub const CONSUMER_CURSOR_OFFSET: usize = 192;

/// First bytes of a region.
pub const REGION_MAGIC: &'static str = "NWIPCRGN";

/// Layout version.
pub const LAYOUT_VERSION: u16 = 1;

/// Process role that owns writes to a region.
#[derive(Clone, Copy, Debug, PartialEq, Eq, Structural)]
pub enum OwnerRole {
    /// `WebKit` renderer endpoint.
    Renderer,
    /// Native peer endpoint.
    Peer,
}

impl OwnerRole {
    /// The stable wire value.
    pub open spec fn wire(self) -> u16 {
        match self {
            OwnerRole::Renderer => 1,
            OwnerRole::Peer => 2,
        }
    }

    /// Encodes the stable wire value.
    pub fn to_wire(self) -> (value: u16)
        ensures
            value == self.wire(),
    {
        match self {
            OwnerRole::Renderer => 1,
            OwnerRole::Peer => 2,
        }
    }
}

/// What a region header says.
#[derive(Clone, Copy, PartialEq, Eq, Structural)]
pub struct RegionLayout {
    /// Session identity.
    pub session_id: SessionId,
    /// Resource generation.
    pub generation: Generation,
    /// Writer of the region.
    pub owner: OwnerRole,
    /// Ring bytes.
    pub capacity: u32,
    /// Maximum payload bytes of one record.
    pub maximum_inline_message: u32,
}

/// What an attaching endpoint expects of a region.
#[derive(Clone, Copy, PartialEq, Eq, Structural)]
pub struct RegionExpectation {
    /// Session identity.
    pub session_id: SessionId,
    /// Resource generation.
    pub generation: Generation,
    /// Writer of the region.
    pub owner: OwnerRole,
}

/// Whether a ring of this capacity can hold records with this payload limit.
pub open spec fn valid_region(capacity: int, maximum_inline_message: u32) -> bool {
    &&& valid_capacity(capacity)
    &&& 0 < maximum_inline_message <= MAX_INLINE_MESSAGE_SIZE
    &&& aligned(24 + maximum_inline_message) <= capacity
}

/// The report of a rejected region.
pub open spec fn layout_report(code: ErrorCode, operation: &'static str) -> ErrorReport {
    report(ErrorCategory::Memory, code, Recoverability::ReplaceEndpoint, operation)
}

fn layout_error(code: ErrorCode, operation: &'static str) -> (created: ErrorReport)
    ensures
        created == layout_report(code, operation),
{
    ErrorReport::new(ErrorCategory::Memory, code, Recoverability::ReplaceEndpoint, operation)
}

fn region_is_valid(capacity: u32, maximum_inline_message: u32) -> (answer: bool)
    ensures
        answer == valid_region(capacity as int, maximum_inline_message),
{
    if !capacity_is_valid(capacity) || maximum_inline_message == 0 || maximum_inline_message
        > MAX_INLINE_MESSAGE_SIZE {
        return false;
    }
    match align_record(maximum_inline_message) {
        Some(length) => length <= capacity,
        None => false,
    }
}

/// The metadata of a header.
pub open spec fn metadata_bytes(layout: RegionLayout) -> Seq<u8> {
    REGION_MAGIC.spec_bytes() + le_bytes(LAYOUT_VERSION as nat, 2) + le_bytes(
        layout.owner.wire() as nat,
        2,
    ) + le_bytes(layout.maximum_inline_message as nat, 4) + le_bytes(
        layout.session_id@ as nat,
        16,
    ) + le_bytes(layout.generation@ as nat, 8) + le_bytes(layout.total() as nat, 8) + le_bytes(
        layout.capacity as nat,
        4,
    )
}

/// The header of a new region.
pub open spec fn region_header(layout: RegionLayout) -> Seq<u8> {
    metadata_bytes(layout) + Seq::new(
        (REGION_HEADER_SIZE - REGION_METADATA_SIZE) as nat,
        |i: int| 0u8,
    )
}

/// What validating a header against the mapped length and an expectation gives.
pub open spec fn region_validated(
    header: Seq<u8>,
    mapped_len: usize,
    expectation: RegionExpectation,
) -> Result<RegionLayout, ErrorReport> {
    let capacity = le_at(header, 48, 4) as u32;
    let maximum_inline_message = le_at(header, 12, 4) as u32;
    if header.len() < REGION_HEADER_SIZE {
        Err(layout_report(ErrorCode::Truncated, "validate region header"))
    } else if !REGION_MAGIC.spec_bytes().is_prefix_of(header) {
        Err(layout_report(ErrorCode::InvalidMagic, "validate region magic"))
    } else if le_at(header, 8, 2) != LAYOUT_VERSION {
        Err(layout_report(ErrorCode::LayoutVersionMismatch, "validate region version"))
    } else if le_at(header, 16, 16) != expectation.session_id@ || le_at(header, 10, 2)
        != expectation.owner.wire() {
        Err(layout_report(ErrorCode::ProtocolViolation, "validate region identity"))
    } else if le_at(header, 32, 8) != expectation.generation@ {
        Err(layout_report(ErrorCode::StaleGeneration, "validate region generation"))
    } else if le_at(header, 40, 8) != mapped_len || le_at(header, 40, 8) != REGION_HEADER_SIZE
        + capacity || !valid_region(capacity as int, maximum_inline_message) {
        Err(layout_report(ErrorCode::InvalidRange, "validate region range"))
    } else {
        Ok(
            RegionLayout {
                session_id: expectation.session_id,
                generation: expectation.generation,
                owner: expectation.owner,
                capacity,
                maximum_inline_message,
            },
        )
    }
}

impl RegionLayout {
    /// Bytes of header and ring.
    pub open spec fn total(self) -> int {
        REGION_HEADER_SIZE + self.capacity
    }

    /// Whether the ring can hold the records.
    pub open spec fn wf(self) -> bool {
        valid_region(self.capacity as int, self.maximum_inline_message)
    }

    /// Describes a region of `total_length` bytes.
    ///
    /// `InvalidRange` is returned for a ring that cannot hold its records.
    pub fn new(
        session_id: SessionId,
        generation: Generation,
        owner: OwnerRole,
        total_length: u64,
        maximum_inline_message: u32,
    ) -> (created: Result<Self, ErrorReport>)
        ensures
            match created {
                Ok(layout) => {
                    &&& layout.wf()
                    &&& layout.session_id == session_id
                    &&& layout.generation == generation
                    &&& layout.owner == owner
                    &&& layout.total() == total_length
                    &&& layout.maximum_inline_message == maximum_inline_message
                },
                Err(error) => {
                    &&& !valid_region(total_length - REGION_HEADER_SIZE, maximum_inline_message)
                    &&& error == layout_report(ErrorCode::InvalidRange, "describe region")
                },
            },
    {
        if total_length < REGION_HEADER_SIZE as u64 || total_length - REGION_HEADER_SIZE as u64
            > u32::MAX as u64 {
            return Err(layout_error(ErrorCode::InvalidRange, "describe region"));
        }
        let capacity: u32 = (total_length - REGION_HEADER_SIZE as u64) as u32;
        if !region_is_valid(capacity, maximum_inline_message) {
            return Err(layout_error(ErrorCode::InvalidRange, "describe region"));
        }
        Ok(RegionLayout { session_id, generation, owner, capacity, maximum_inline_message })
    }

    /// Bytes of header and ring.
    pub fn total_length(&self) -> (length: u64)
        ensures
            length == self.total(),
    {
        REGION_HEADER_SIZE as u64 + self.capacity as u64
    }

    /// Ring bytes.
    pub fn capacity(&self) -> (capacity: u32)
        ensures
            capacity == self.capacity,
    {
        self.capacity
    }

    /// Maximum payload bytes of one record.
    pub fn maximum_inline_message(&self) -> (limit: u32)
        ensures
            limit == self.maximum_inline_message,
    {
        self.maximum_inline_message
    }

    /// Encodes the header of a new region, with both cursors at zero.
    pub fn encode(&self) -> (header: Vec<u8>)
        ensures
            header@ == region_header(*self),
            header@.len() == REGION_HEADER_SIZE,
    {
        let mut header: Vec<u8> = Vec::new();
        push_bytes(&mut header, REGION_MAGIC.as_bytes());
        push_u16(&mut header, LAYOUT_VERSION);
        push_u16(&mut header, self.owner.to_wire());
        push_u32(&mut header, self.maximum_inline_message);
        push_u128(&mut header, self.session_id.get());
        push_u64(&mut header, self.generation.get());
        push_u64(&mut header, self.total_length());
        push_u32(&mut header, self.capacity);
        proof {
            lemma_metadata(*self);
            assert(header@ =~= metadata_bytes(*self));
        }
        let ghost metadata = header@;
        while header.len() < REGION_HEADER_SIZE
            invariant
                REGION_METADATA_SIZE <= header@.len() <= REGION_HEADER_SIZE,
                metadata.len() == REGION_METADATA_SIZE,
                header@ == metadata + Seq::new(
                    (header@.len() - REGION_METADATA_SIZE) as nat,
                    |i: int| 0u8,
                ),
            decreases REGION_HEADER_SIZE - header@.len(),
        {
            header.push(0);
            proof {
                assert(header@ =~= metadata + Seq::new(
                    (header@.len() - REGION_METADATA_SIZE) as nat,
                    |i: int| 0u8,
                ));
            }
        }
        header
    }
}

/// Validates the header of a mapped region before anything else of it is used.
///
/// Malformed metadata, another session, writer or generation, and limits that do not fit the
/// mapping are rejected.
pub fn validate_region(header: &[u8], mapped_len: usize, expectation: RegionExpectation) -> (layout:
    Result<RegionLayout, ErrorReport>)
    ensures
        layout == region_validated(header@, mapped_len, expectation),
        layout matches Ok(found) ==> found.wf() && found.total() == mapped_len,
{
    if header.len() < REGION_HEADER_SIZE {
        return Err(layout_error(ErrorCode::Truncated, "validate region header"));
    }
    if !starts_with(header, REGION_MAGIC.as_bytes()) {
        return Err(layout_error(ErrorCode::InvalidMagic, "validate region magic"));
    }
    if read_u16(header, 8) != LAYOUT_VERSION {
        return Err(layout_error(ErrorCode::LayoutVersionMismatch, "validate region version"));
    }
    if read_u128(header, 16) != expectation.session_id.get() || read_u16(header, 10)
        != expectation.owner.to_wire() {
        return Err(layout_error(ErrorCode::ProtocolViolation, "validate region identity"));
    }
    if read_u64(header, 32) != expectation.generation.get() {
        return Err(layout_error(ErrorCode::StaleGeneration, "validate region generation"));
    }
    let total: u64 = read_u64(header, 40);
    let capacity: u32 = read_u32(header, 48);
    let maximum_inline_message: u32 = read_u32(header, 12);
    if total != mapped_len as u64 || total != REGION_HEADER_SIZE as u64 + capacity as u64
        || !region_is_valid(capacity, maximum_inline_message) {
        return Err(layout_error(ErrorCode::InvalidRange, "validate region range"));
    }
    Ok(
        RegionLayout {
            session_id: expectation.session_id,
            generation: expectation.generation,
            owner: expectation.owner,
            capacity,
            maximum_inline_message,
        },
    )
}

/// What a layout is expected to be by an endpoint that knows it.
pub open spec fn expectation_of(layout: RegionLayout) -> RegionExpectation {
    RegionExpectation {
        session_id: layout.session_id,
        generation: layout.generation,
        owner: layout.owner,
    }
}

/// A region validates as what it was created as.
pub proof fn law_created_regions_validate(layout: RegionLayout)
    requires
        layout.wf(),
        layout.total() <= usize::MAX,
    ensures
        region_validated(region_header(layout), layout.total() as usize, expectation_of(layout))
            == Ok::<RegionLayout, ErrorReport>(layout),
{
    lemma_metadata(layout);
    let header = region_header(layout);
    let metadata = metadata_bytes(layout);
    assert(header.subrange(0, 8) =~= metadata.subrange(0, 8));
    assert(header.subrange(8, 10) =~= metadata.subrange(8, 10));
    assert(header.subrange(10, 12) =~= metadata.subrange(10, 12));
    assert(header.subrange(12, 16) =~= metadata.subrange(12, 16));
    assert(header.subrange(16, 32) =~= metadata.subrange(16, 32));
    assert(header.subrange(32, 40) =~= metadata.subrange(32, 40));
    assert(header.subrange(40, 48) =~= metadata.subrange(40, 48));
    assert(header.subrange(48, 52) =~= metadata.subrange(48, 52));
}

/// A region of another session, generation or writer never validates.
pub proof fn law_foreign_regions_are_rejected(
    layout: RegionLayout,
    mapped_len: usize,
    expectation: RegionExpectation,
)
    requires
        expectation != expectation_of(layout),
    ensures
        region_validated(region_header(layout), mapped_len, expectation) is Err,
{
    lemma_metadata(layout);
    let header = region_header(layout);
    let metadata = metadata_bytes(layout);
    assert(header.subrange(10, 12) =~= metadata.subrange(10, 12));
    assert(header.subrange(16, 32) =~= metadata.subrange(16, 32));
    assert(header.subrange(32, 40) =~= metadata.subrange(32, 40));
}

/// The bytes of the magic text.
proof fn lemma_magic()
    ensures
        REGION_MAGIC.spec_bytes().len() == 8,
{
    reveal_strlit("NWIPCRGN");
    assert(vstd::string::is_ascii(REGION_MAGIC));
    vstd::string::is_ascii_spec_bytes(REGION_MAGIC);
}

/// The metadata is where it is read.
proof fn lemma_metadata(layout: RegionLayout)
    ensures
        ({
            let metadata = metadata_bytes(layout);
            &&& metadata.len() == REGION_METADATA_SIZE
            &&& metadata.subrange(0, 8) == REGION_MAGIC.spec_bytes()
            &&& le_at(metadata, 8, 2) == LAYOUT_VERSION
            &&& le_at(metadata, 10, 2) == layout.owner.wire()
            &&& le_at(metadata, 12, 4) == layout.maximum_inline_message
            &&& le_at(metadata, 16, 16) == layout.session_id@
            &&& le_at(metadata, 32, 8) == layout.generation@
            &&& le_at(metadata, 40, 8) == layout.total()
            &&& le_at(metadata, 48, 4) == layout.capacity
        }),
{
    lemma_magic();
    lemma_le_limits();
    let m = REGION_MAGIC.spec_bytes();
    let v1 = LAYOUT_VERSION as nat;
    let v2 = layout.owner.wire() as nat;
    let v3 = layout.maximum_inline_message as nat;
    let v4 = layout.session_id@ as nat;
    let v5 = layout.generation@ as nat;
    let v6 = layout.total() as nat;
    let v7 = layout.capacity as nat;
    lemma_le_bytes_len(v1, 2);
    lemma_le_bytes_len(v2, 2);
    lemma_le_bytes_len(v3, 4);
    lemma_le_bytes_len(v4, 16);
    lemma_le_bytes_len(v5, 8);
    lemma_le_bytes_len(v6, 8);
    lemma_le_bytes_len(v7, 4);
    let a = le_bytes(v1, 2);
    let b = le_bytes(v2, 2);
    let c = le_bytes(v3, 4);
    let d = le_bytes(v4, 16);
    let e = le_bytes(v5, 8);
    let f = le_bytes(v6, 8);
    let g = le_bytes(v7, 4);
    let all = metadata_bytes(layout);
    assert(all.subrange(0, 8) =~= m);
    lemma_le_at_append(m, v1, 2, b + c + d + e + f + g);
    assert(all =~= m + a + (b + c + d + e + f + g));
    lemma_le_at_append(m + a, v2, 2, c + d + e + f + g);
    assert(all =~= m + a + b + (c + d + e + f + g));
    lemma_le_at_append(m + a + b, v3, 4, d + e + f + g);
    assert(all =~= m + a + b + c + (d + e + f + g));
    lemma_le_at_append(m + a + b + c, v4, 16, e + f + g);
    assert(all =~= m + a + b + c + d + (e + f + g));
    lemma_le_at_append(m + a + b + c + d, v5, 8, f + g);
    assert(all =~= m + a + b + c + d + e + (f + g));
    lemma_le_at_append(m + a + b + c + d + e, v6, 8, g);
    lemma_le_at_append(m + a + b + c + d + e + f, v7, 4, Seq::empty());
    assert(all =~= m + a + b + c + d + e + f + g + Seq::<u8>::empty());
}

/// A region that was validated fills its mapping with its header and its ring, and the ring holds
/// every record that its limit allows; it is of the session, the generation and the writer that
/// were expected.
pub proof fn law_validated_regions_fill_their_mapping(
    header: Seq<u8>,
    mapped_len: usize,
    expectation: RegionExpectation,
)
    requires
        region_validated(header, mapped_len, expectation) is Ok,
    ensures
        ({
            let layout = region_validated(header, mapped_len, expectation)->Ok_0;
            &&& layout.capacity + 256 == mapped_len
            &&& valid_capacity(layout.capacity as int)
            &&& layout.maximum_inline_message > 0
            &&& 24 + layout.maximum_inline_message <= layout.capacity
            &&& layout.session_id == expectation.session_id
            &&& layout.generation == expectation.generation
            &&& layout.owner == expectation.owner
            &&& le_at(header, 16, 16) == layout.session_id@
            &&& le_at(header, 32, 8) == layout.generation@
            &&& le_at(header, 10, 2) == layout.owner.wire()
            &&& le_at(header, 12, 4) == layout.maximum_inline_message
            &&& le_at(header, 48, 4) == layout.capacity
            &&& le_at(header, 40, 8) == mapped_len
        }),
{
    lemma_le_limits();
    crate::domain::bytes::lemma_le_value_bound(header.subrange(12, 16));
    crate::domain::bytes::lemma_le_value_bound(header.subrange(48, 52));
}

/// Whether a region is stale is told only of one of the right session and writer, and whether its
/// limits fit only of one of the right generation.
pub proof fn law_region_refusals_are_told_in_order(
    header: Seq<u8>,
    mapped_len: usize,
    expectation: RegionExpectation,
)
    requires
        header.len() >= 256,
        REGION_MAGIC.spec_bytes().is_prefix_of(header),
        le_at(header, 8, 2) == LAYOUT_VERSION,
    ensures
        region_validated(header, mapped_len, expectation) matches Err(error) ==> {
            let known = le_at(header, 16, 16) == expectation.session_id@ && le_at(header, 10, 2)
                == expectation.owner.wire();
            &&& error.code is ProtocolViolation <==> !known
            &&& error.code is StaleGeneration <==> known && le_at(header, 32, 8)
                != expectation.generation@
            &&& error.code is InvalidRange <==> known && le_at(header, 32, 8)
                == expectation.generation@
        },
{
}

/// Writers are told apart by their wire values.
pub proof fn law_owners_are_their_wire_values(owner: OwnerRole, other: OwnerRole)
    ensures
        owner.wire() == other.wire() <==> owner == other,
        owner.wire() != 0,
{
}

/// The cursors of a region lie in its header, apart from each other and from its metadata, and are
/// aligned words.
pub proof fn law_cursors_lie_apart_in_the_header()
    ensures
        REGION_METADATA_SIZE <= PRODUCER_CURSOR_OFFSET,
        PRODUCER_CURSOR_OFFSET + 64 <= CONSUMER_CURSOR_OFFSET,
        CONSUMER_CURSOR_OFFSET + 64 <= REGION_HEADER_SIZE,
        PRODUCER_CURSOR_OFFSET % 64 == 0,
        CONSUMER_CURSOR_OFFSET % 64 == 0,
{
}

/// A failure of a region keeps its code; it is one of memory, and another endpoint gets over it.
pub proof fn law_layout_failures_are_of_memory(code: ErrorCode, operation: &'static str)
    ensures
        layout_report(code, operation).code == code,
        layout_report(code, operation).context == operation,
        layout_report(code, operation).category is Memory,
        layout_report(code, operation).recoverability is ReplaceEndpoint,
{
}

} // verus!
