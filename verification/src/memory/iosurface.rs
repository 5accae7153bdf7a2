//! `IOSurface` shared-memory provider.
//!
//! The provider uses a redacted `IOSurface` global ID descriptor. Mapping operations copy while
//! the surface is locked, so no reference into memory that another process may mutate is exposed.

use vstd::prelude::*;

use crate::domain::bytes::{
    le_at, le_bytes, lemma_le_at_append, lemma_le_bytes_len, lemma_le_canonical,
    lemma_le_limits, lemma_le_value_bound, push_u32, push_u64,
    read_u32, read_u64,
};
use crate::domain::error::{unsupported_report, ErrorCode, ErrorReport};
use crate::domain::text::{decimal, decimal_digits};
use crate::domain::types::{group_identities, Generation};
use crate::memory::api::{
    MappedRegion, MappingAccess, RegionDescriptor, RegionStore,
};
use crate::memory::bounds::{
    checked_atomic_end, checked_end, memory_error, memory_report, range_rejection, word_rejection,
};

verus! {

broadcast use group_identities;

/// Bytes of an encoded descriptor.
pub const DESCRIPTOR_LENGTH: usize = 20;

/// Transferable `IOSurface` ID, logical length, and generation.
#[derive(Clone, Copy, PartialEq, Eq, Structural)]
pub struct IoSurfaceDescriptor {
    /// Global ID of the surface.
    pub surface_id: u32,
    /// Logical length.
    pub byte_len: usize,
    /// Resource generation.
    pub generation: Generation,
}

/// The encoding of a descriptor.
pub open spec fn descriptor_bytes(descriptor: IoSurfaceDescriptor) -> Seq<u8> {
    le_bytes(descriptor.surface_id as nat, 4) + le_bytes(descriptor.byte_len as nat, 8) + le_bytes(
        descriptor.generation@ as nat,
        8,
    )
}

/// What decoding a descriptor gives.
pub open spec fn descriptor_decoded(input: Seq<u8>) -> Result<IoSurfaceDescriptor, ErrorReport> {
    if input.len() != DESCRIPTOR_LENGTH {
        Err(memory_report(ErrorCode::Truncated, "decode IOSurface descriptor"))
    } else if le_at(input, 4, 8) > usize::MAX {
        Err(memory_report(ErrorCode::InvalidRange, "decode IOSurface descriptor"))
    } else if le_at(input, 12, 8) == 0 {
        Err(memory_report(ErrorCode::StaleGeneration, "decode IOSurface descriptor"))
    } else if le_at(input, 0, 4) == 0 || le_at(input, 4, 8) == 0 {
        Err(memory_report(ErrorCode::InvalidRange, "decode IOSurface descriptor"))
    } else {
        Ok(
            IoSurfaceDescriptor {
                surface_id: le_at(input, 0, 4) as u32,
                byte_len: le_at(input, 4, 8) as usize,
                generation: Generation::of(le_at(input, 12, 8) as u64),
            },
        )
    }
}

impl IoSurfaceDescriptor {
    /// Encodes the fixed-width provider descriptor for bootstrap transport.
    pub fn encode(&self) -> (output: Result<Vec<u8>, ErrorReport>)
        ensures
            output matches Ok(bytes) && bytes@ == descriptor_bytes(*self) && bytes@.len()
                == DESCRIPTOR_LENGTH,
    {
        let mut output: Vec<u8> = Vec::new();
        push_u32(&mut output, self.surface_id);
        push_u64(&mut output, self.byte_len as u64);
        push_u64(&mut output, self.generation.get());
        proof {
            lemma_le_bytes_len(self.surface_id as nat, 4);
            lemma_le_bytes_len(self.byte_len as nat, 8);
            lemma_le_bytes_len(self.generation@ as nat, 8);
            assert(output@ =~= descriptor_bytes(*self));
        }
        Ok(output)
    }

    /// Decodes and validates a fixed-width provider descriptor.
    ///
    /// Zero IDs, lengths, generations, and non-canonical lengths are rejected.
    pub fn decode(input: &[u8]) -> (decoded: Result<Self, ErrorReport>)
        ensures
            decoded == descriptor_decoded(input@),
    {
        if input.len() != DESCRIPTOR_LENGTH {
            return Err(memory_error(ErrorCode::Truncated, "decode IOSurface descriptor"));
        }
        let surface_id: u32 = read_u32(input, 0);
        let wire_length: u64 = read_u64(input, 4);
        if wire_length > usize::MAX as u64 {
            return Err(memory_error(ErrorCode::InvalidRange, "decode IOSurface descriptor"));
        }
        let generation = match Generation::new(read_u64(input, 12)) {
            Some(generation) => generation,
            None => {
                return Err(
                    memory_error(ErrorCode::StaleGeneration, "decode IOSurface descriptor"),
                );
            },
        };
        if surface_id == 0 || wire_length == 0 {
            return Err(memory_error(ErrorCode::InvalidRange, "decode IOSurface descriptor"));
        }
        Ok(IoSurfaceDescriptor { surface_id, byte_len: wire_length as usize, generation })
    }

    /// Renders the descriptor without its ID.
    pub fn to_text(&self) -> (text: String)
        ensures
            text@ == "IoSurfaceDescriptor { surface_id: \"<redacted>\", byte_len: "@
                + decimal_digits(self.byte_len as nat) + ", generation: Generation("@
                + decimal_digits(self.generation@ as nat) + ") }"@,
    {
        let mut text = String::from_str(
            "IoSurfaceDescriptor { surface_id: \"<redacted>\", byte_len: ",
        );
        text.append(decimal(self.byte_len as u64).as_str());
        text.append(", generation: Generation(");
        text.append(decimal(self.generation.get()).as_str());
        text.append(") }");
        text
    }
}

/// Decoding what was encoded gives the descriptor back.
pub proof fn law_descriptor_round_trip(descriptor: IoSurfaceDescriptor)
    requires
        descriptor.surface_id != 0,
        descriptor.byte_len != 0,
        descriptor.generation@ != 0,
    ensures
        descriptor_decoded(descriptor_bytes(descriptor)) == Ok::<IoSurfaceDescriptor, ErrorReport>(
            descriptor,
        ),
{
    let id = descriptor.surface_id as nat;
    let length = descriptor.byte_len as nat;
    let generation = descriptor.generation@ as nat;
    let empty = Seq::<u8>::empty();
    let input = descriptor_bytes(descriptor);
    lemma_le_limits();
    lemma_le_bytes_len(id, 4);
    lemma_le_bytes_len(length, 8);
    lemma_le_bytes_len(generation, 8);
    lemma_le_at_append(empty, id, 4, le_bytes(length, 8) + le_bytes(generation, 8));
    assert(input =~= empty + le_bytes(id, 4) + (le_bytes(length, 8) + le_bytes(generation, 8)));
    lemma_le_at_append(le_bytes(id, 4), length, 8, le_bytes(generation, 8));
    lemma_le_at_append(le_bytes(id, 4) + le_bytes(length, 8), generation, 8, empty);
    assert(input =~= le_bytes(id, 4) + le_bytes(length, 8) + le_bytes(generation, 8) + empty);
}

impl RegionDescriptor for IoSurfaceDescriptor {
    open spec fn described_len(&self) -> usize {
        self.byte_len
    }

    open spec fn described_generation(&self) -> Generation {
        self.generation
    }

    fn byte_len(&self) -> (length: usize) {
        self.byte_len
    }

    fn generation(&self) -> (generation: Generation) {
        self.generation
    }
}

/// Native representation transferred during bootstrap.
#[derive(Clone, Copy, Debug, PartialEq, Eq, Structural)]
pub enum IoSurfaceDescriptorTransport {
    /// `IOSurface` global ID; the native ID itself remains redacted.
    GlobalId,
}

/// Redacted provider capabilities for support and sandbox diagnostics.
#[derive(Clone, Copy, Debug, PartialEq, Eq, Structural)]
pub struct IoSurfaceProviderDiagnostics {
    /// Descriptor transport selected by this implementation.
    pub descriptor_transport: IoSurfaceDescriptorTransport,
    /// Whether process-boundary visibility is supported.
    pub cross_process: bool,
    /// Whether read-only access is enforced by the native mapping rather than the safe API.
    pub native_read_only_enforced: bool,
}

/// `IOSurface` provider capability.
#[derive(Clone, Copy, Debug, PartialEq, Eq, Structural)]
pub struct IoSurfaceProvider {
    available: bool,
}

/// Why a surface cannot be asked for, if it cannot.
pub open spec fn creation_rejection(available: bool, byte_len: usize) -> Option<ErrorReport> {
    if !available {
        Some(unsupported_report("create IOSurface"))
    } else if byte_len == 0 || byte_len > i64::MAX {
        Some(memory_report(ErrorCode::InvalidRange, "create IOSurface"))
    } else {
        None
    }
}

/// Why a surface cannot be looked up, if it cannot.
pub open spec fn attachment_rejection(
    available: bool,
    descriptor: IoSurfaceDescriptor,
    expected_generation: Generation,
) -> Option<ErrorReport> {
    if descriptor.generation != expected_generation {
        Some(memory_report(ErrorCode::StaleGeneration, "attach IOSurface"))
    } else if !available {
        Some(unsupported_report("attach IOSurface"))
    } else {
        None
    }
}

impl IoSurfaceProvider {
    /// Whether the platform has surfaces.
    pub closed spec fn available(self) -> bool {
        self.available
    }

    /// Initializes the provider, given whether the platform has surfaces.
    ///
    /// Explicit `Unsupported` is returned on platforms without surfaces.
    pub fn initialize(available: bool) -> (initialized: Result<Self, ErrorReport>)
        ensures
            match initialized {
                Ok(provider) => available && provider.available(),
                Err(error) => !available && error == unsupported_report(
                    "initialize IOSurface provider",
                ),
            },
    {
        if available {
            Ok(IoSurfaceProvider { available })
        } else {
            Err(ErrorReport::unsupported("initialize IOSurface provider"))
        }
    }

    /// Returns non-secret provider capabilities.
    pub fn diagnostics(&self) -> (diagnostics: IoSurfaceProviderDiagnostics)
        ensures
            diagnostics == (IoSurfaceProviderDiagnostics {
                descriptor_transport: IoSurfaceDescriptorTransport::GlobalId,
                cross_process: self.available(),
                native_read_only_enforced: false,
            }),
    {
        IoSurfaceProviderDiagnostics {
            descriptor_transport: IoSurfaceDescriptorTransport::GlobalId,
            cross_process: self.available,
            native_read_only_enforced: false,
        }
    }

    /// Decides whether a surface of this length may be asked for, and gives the signed length to
    /// ask for.
    pub fn prepare_creation(&self, byte_len: usize) -> (prepared: Result<i64, ErrorReport>)
        ensures
            match creation_rejection(self.available(), byte_len) {
                Some(error) => prepared == Err::<i64, ErrorReport>(error),
                None => prepared == Ok::<i64, ErrorReport>(byte_len as i64),
            },
    {
        if !self.available {
            return Err(ErrorReport::unsupported("create IOSurface"));
        }
        if byte_len == 0 || byte_len as u64 > i64::MAX as u64 {
            return Err(memory_error(ErrorCode::InvalidRange, "create IOSurface"));
        }
        Ok(byte_len as i64)
    }

    /// Adopts a created surface with its ID as the read-write mapping of its creator.
    ///
    /// A surface without an ID or with too few bytes is rejected.
    pub fn finish_creation<Memory: MappedRegion>(
        &self,
        memory: Memory,
        surface_id: u32,
        byte_len: usize,
        generation: Generation,
    ) -> (created: Result<(IoSurfaceMapping<Memory>, IoSurfaceDescriptor), ErrorReport>)
        ensures
            if surface_id == 0 || memory.mapped_len() < byte_len {
                created is Err && created->Err_0 == memory_report(
                    ErrorCode::InvalidRange,
                    "validate IOSurface allocation",
                )
            } else {
                created is Ok && created->Ok_0 == (
                    IoSurfaceMapping { memory, byte_len, access: MappingAccess::ReadWrite },
                    IoSurfaceDescriptor { surface_id, byte_len, generation },
                )
            },
    {
        if surface_id == 0 || memory.len() < byte_len {
            return Err(memory_error(ErrorCode::InvalidRange, "validate IOSurface allocation"));
        }
        Ok(
            (
                IoSurfaceMapping { memory, byte_len, access: MappingAccess::ReadWrite },
                IoSurfaceDescriptor { surface_id, byte_len, generation },
            ),
        )
    }

    /// Decides whether a descriptor may be looked up, and gives the ID to look up.
    ///
    /// A stale generation is rejected before the platform is asked.
    pub fn prepare_attachment(
        &self,
        descriptor: &IoSurfaceDescriptor,
        expected_generation: Generation,
    ) -> (prepared: Result<u32, ErrorReport>)
        ensures
            match attachment_rejection(self.available(), *descriptor, expected_generation) {
                Some(error) => prepared == Err::<u32, ErrorReport>(error),
                None => prepared == Ok::<u32, ErrorReport>(descriptor.surface_id),
            },
    {
        if descriptor.generation != expected_generation {
            return Err(memory_error(ErrorCode::StaleGeneration, "attach IOSurface"));
        }
        if !self.available {
            return Err(ErrorReport::unsupported("attach IOSurface"));
        }
        Ok(descriptor.surface_id)
    }

    /// Adopts the surface that was looked up.
    ///
    /// A missing surface or one with too few bytes is rejected.
    pub fn finish_attachment<Memory: MappedRegion>(
        &self,
        found: Option<Memory>,
        descriptor: &IoSurfaceDescriptor,
        access: MappingAccess,
    ) -> (attached: Result<IoSurfaceMapping<Memory>, ErrorReport>)
        ensures
            match found {
                None => attached is Err && attached->Err_0 == memory_report(
                    ErrorCode::Closed,
                    "lookup IOSurface",
                ),
                Some(memory) => if memory.mapped_len() < descriptor.byte_len {
                    attached is Err && attached->Err_0 == memory_report(
                        ErrorCode::InvalidRange,
                        "validate attached IOSurface",
                    )
                } else {
                    attached is Ok && attached->Ok_0 == (IoSurfaceMapping {
                        memory,
                        byte_len: descriptor.byte_len,
                        access,
                    })
                },
            },
    {
        match found {
            None => Err(memory_error(ErrorCode::Closed, "lookup IOSurface")),
            Some(memory) => {
                if memory.len() < descriptor.byte_len {
                    return Err(
                        memory_error(ErrorCode::InvalidRange, "validate attached IOSurface"),
                    );
                }
                Ok(IoSurfaceMapping { memory, byte_len: descriptor.byte_len, access })
            },
        }
    }
}

/// Owned `IOSurface` mapping.
pub struct IoSurfaceMapping<Memory> {
    /// Native memory.
    pub memory: Memory,
    /// Logical length.
    pub byte_len: usize,
    /// Granted access.
    pub access: MappingAccess,
}

/// Non-secret state for one owned mapping.
#[derive(Clone, Copy, Debug, PartialEq, Eq, Structural)]
pub struct IoSurfaceMappingDiagnostics {
    /// Logical bytes promised by the bootstrap descriptor.
    pub logical_byte_len: usize,
    /// Native allocation bytes, which may include platform rounding.
    pub allocated_byte_len: usize,
    /// Granted logical access.
    pub access: MappingAccess,
}

impl<Memory: MappedRegion> IoSurfaceMapping<Memory> {
    /// Returns redacted mapping diagnostics without exposing a native ID or address.
    pub fn diagnostics(&self) -> (diagnostics: IoSurfaceMappingDiagnostics)
        ensures
            diagnostics == (IoSurfaceMappingDiagnostics {
                logical_byte_len: self.byte_len,
                allocated_byte_len: self.memory.mapped_len(),
                access: self.access,
            }),
    {
        IoSurfaceMappingDiagnostics {
            logical_byte_len: self.byte_len,
            allocated_byte_len: self.memory.len(),
            access: self.access,
        }
    }

    /// Renders the mapping without its native part.
    pub fn to_text(&self) -> (text: String)
        ensures
            text@ == "IoSurfaceMapping { native: \"<redacted>\", byte_len: "@ + decimal_digits(
                self.byte_len as nat,
            ) + ", access: "@ + (match self.access {
                MappingAccess::ReadOnly => "ReadOnly"@,
                MappingAccess::ReadWrite => "ReadWrite"@,
            }) + ", .. }"@,
    {
        let mut text = String::from_str("IoSurfaceMapping { native: \"<redacted>\", byte_len: ");
        text.append(decimal(self.byte_len as u64).as_str());
        text.append(", access: ");
        text.append(
            match self.access {
                MappingAccess::ReadOnly => "ReadOnly",
                MappingAccess::ReadWrite => "ReadWrite",
            },
        );
        text.append(", .. }");
        text
    }
}

impl<Memory: MappedRegion> MappedRegion for IoSurfaceMapping<Memory> {
    open spec fn mapped_len(&self) -> usize {
        self.byte_len
    }

    open spec fn granted(&self) -> MappingAccess {
        self.access
    }

    open spec fn identity(&self) -> int {
        self.memory.identity()
    }

    open spec fn stores(&self) -> Seq<RegionStore> {
        self.memory.stores()
    }

    open spec fn reads(
        &self,
        offset: usize,
        length: usize,
        outcome: Result<Seq<u8>, ErrorReport>,
    ) -> bool {
        match range_rejection(offset, length, self.byte_len, "read IOSurface") {
            Some(error) => outcome == Err::<Seq<u8>, ErrorReport>(error),
            None => self.memory.reads(offset, length, outcome),
        }
    }

    open spec fn writes(
        &self,
        offset: usize,
        input: Seq<u8>,
        outcome: Result<(), ErrorReport>,
    ) -> bool {
        if !(self.access is ReadWrite) {
            outcome == Err::<(), ErrorReport>(
                memory_report(
                    ErrorCode::RequiredCapabilityMissing,
                    "write read-only IOSurface",
                ),
            )
        } else {
            match range_rejection(offset, input.len() as usize, self.byte_len, "write IOSurface") {
                Some(error) => outcome == Err::<(), ErrorReport>(error),
                None => self.memory.writes(offset, input, outcome),
            }
        }
    }

    open spec fn loads(&self, offset: usize, outcome: Result<u32, ErrorReport>) -> bool {
        match word_rejection(offset, self.byte_len, "load IOSurface atomic") {
            Some(error) => outcome == Err::<u32, ErrorReport>(error),
            None => self.memory.loads(offset, outcome),
        }
    }

    open spec fn releases(
        &self,
        offset: usize,
        value: u32,
        outcome: Result<(), ErrorReport>,
    ) -> bool {
        if !(self.access is ReadWrite) {
            outcome == Err::<(), ErrorReport>(
                memory_report(
                    ErrorCode::RequiredCapabilityMissing,
                    "store read-only IOSurface atomic",
                ),
            )
        } else {
            match word_rejection(offset, self.byte_len, "store IOSurface atomic") {
                Some(error) => outcome == Err::<(), ErrorReport>(error),
                None => self.memory.releases(offset, value, outcome),
            }
        }
    }

    fn len(&self) -> (length: usize) {
        self.byte_len
    }

    fn access(&self) -> (access: MappingAccess) {
        self.access
    }

    fn read(&self, offset: usize, length: usize) -> (bytes: Result<Vec<u8>, ErrorReport>) {
        let _end: usize = checked_end(offset, length, self.byte_len, "read IOSurface")?;
        self.memory.read(offset, length)
    }

    fn write(&mut self, offset: usize, input: &[u8]) -> (written: Result<(), ErrorReport>) {
        if self.access != MappingAccess::ReadWrite {
            return Err(
                memory_error(ErrorCode::RequiredCapabilityMissing, "write read-only IOSurface"),
            );
        }
        let _end: usize = checked_end(offset, input.len(), self.byte_len, "write IOSurface")?;
        self.memory.write(offset, input)
    }

    fn load_u32_acquire(&self, offset: usize) -> (loaded: Result<u32, ErrorReport>) {
        let _end: usize = checked_atomic_end(offset, self.byte_len, "load IOSurface atomic")?;
        self.memory.load_u32_acquire(offset)
    }

    fn store_u32_release(
        &mut self,
        offset: usize,
        value: u32,
    ) -> (stored: Result<(), ErrorReport>) {
        if self.access != MappingAccess::ReadWrite {
            return Err(
                memory_error(
                    ErrorCode::RequiredCapabilityMissing,
                    "store read-only IOSurface atomic",
                ),
            );
        }
        let _end: usize = checked_atomic_end(offset, self.byte_len, "store IOSurface atomic")?;
        self.memory.store_u32_release(offset, value)
    }
}

/// Nothing beyond the logical length of a mapping is read or changed, even where the surface is
/// larger: a copy, a load and a store succeed only inside of it, and one that lies inside of it
/// turns out as the memory makes it.
pub proof fn law_mappings_end_at_their_length<Memory: MappedRegion>(
    mapping: IoSurfaceMapping<Memory>,
    offset: usize,
    length: usize,
    read: Result<Seq<u8>, ErrorReport>,
    loaded: Result<u32, ErrorReport>,
)
    ensures
        mapping.reads(offset, length, read) && read is Ok ==> offset + length <= mapping.byte_len
            && mapping.memory.reads(offset, length, read),
        offset + length <= mapping.byte_len ==> mapping.reads(offset, length, read)
            == mapping.memory.reads(offset, length, read),
        mapping.loads(offset, loaded) && loaded is Ok ==> offset + 4 <= mapping.byte_len && offset
            % 4 == 0 && mapping.memory.loads(offset, loaded),
        offset + 4 <= mapping.byte_len && offset % 4 == 0 ==> mapping.loads(offset, loaded)
            == mapping.memory.loads(offset, loaded),
{
}

/// A read-only mapping never changes its memory, and a read-write one changes it only inside of
/// its logical length.
pub proof fn law_read_only_mappings_are_never_written<Memory: MappedRegion>(
    mapping: IoSurfaceMapping<Memory>,
    offset: usize,
    input: Seq<u8>,
    value: u32,
    outcome: Result<(), ErrorReport>,
)
    requires
        input.len() <= usize::MAX,
    ensures
        mapping.writes(offset, input, outcome) && outcome is Ok ==> mapping.access is ReadWrite
            && offset + input.len() <= mapping.byte_len && mapping.memory.writes(
            offset,
            input,
            outcome,
        ),
        mapping.access is ReadWrite && offset + input.len() <= mapping.byte_len ==> mapping.writes(
            offset,
            input,
            outcome,
        ) == mapping.memory.writes(offset, input, outcome),
        mapping.releases(offset, value, outcome) && outcome is Ok ==> mapping.access is ReadWrite
            && offset % 4 == 0 && offset + 4 <= mapping.byte_len && mapping.memory.releases(
            offset,
            value,
            outcome,
        ),
        mapping.access is ReadWrite && offset % 4 == 0 && offset + 4 <= mapping.byte_len
            ==> mapping.releases(offset, value, outcome) == mapping.memory.releases(
            offset,
            value,
            outcome,
        ),
        mapping.access is ReadOnly && mapping.writes(offset, input, outcome) ==> (
        outcome matches Err(error) && error.code is RequiredCapabilityMissing),
{
}

/// A surface is asked for exactly where there are surfaces and its length is a positive signed
/// number, and it is asked for with that length.
pub proof fn law_surfaces_are_asked_for_by_their_length(
    provider: IoSurfaceProvider,
    byte_len: usize,
    prepared: Result<i64, ErrorReport>,
)
    requires
        call_ensures(IoSurfaceProvider::prepare_creation, (&provider, byte_len), prepared),
    ensures
        prepared is Ok <==> provider.available() && 0 < byte_len <= i64::MAX,
        prepared matches Ok(length) ==> length == byte_len,
        prepared matches Err(error) ==> (error.code is Unsupported <==> !provider.available()),
{
}

/// A created surface is attached again through the descriptor of its creator, with the same
/// length, by whoever expects its generation; whoever expects another one is told that it is
/// stale, before anything is looked up.
pub proof fn law_created_surfaces_can_be_attached<Memory: MappedRegion>(
    provider: IoSurfaceProvider,
    memory: Memory,
    surface_id: u32,
    byte_len: usize,
    generation: Generation,
    created: Result<(IoSurfaceMapping<Memory>, IoSurfaceDescriptor), ErrorReport>,
    found: Memory,
    expected: Generation,
    prepared: Result<u32, ErrorReport>,
    access: MappingAccess,
    attached: Result<IoSurfaceMapping<Memory>, ErrorReport>,
)
    requires
        call_ensures(
            IoSurfaceProvider::finish_creation::<Memory>,
            (&provider, memory, surface_id, byte_len, generation),
            created,
        ),
        created is Ok,
        call_ensures(
            IoSurfaceProvider::prepare_attachment,
            (&provider, &created->Ok_0.1, expected),
            prepared,
        ),
        call_ensures(
            IoSurfaceProvider::finish_attachment::<Memory>,
            (&provider, Some(found), &created->Ok_0.1, access),
            attached,
        ),
    ensures
        surface_id != 0,
        byte_len <= memory.mapped_len(),
        created->Ok_0.0.access is ReadWrite,
        created->Ok_0.0.byte_len == byte_len,
        provider.available() && expected == generation ==> prepared == Ok::<u32, ErrorReport>(
            surface_id,
        ),
        expected != generation ==> (prepared matches Err(error)
            && error.code is StaleGeneration),
        attached is Ok <==> found.mapped_len() >= byte_len,
        attached matches Ok(mapping) ==> mapping.memory == found && mapping.byte_len == byte_len
            && mapping.access == access,
{
}

/// Descriptors of different surfaces, lengths or generations have different encodings.
pub proof fn law_descriptors_are_told_apart(one: IoSurfaceDescriptor, other: IoSurfaceDescriptor)
    requires
        one.surface_id != 0,
        one.byte_len != 0,
        one.generation@ != 0,
        other.surface_id != 0,
        other.byte_len != 0,
        other.generation@ != 0,
        descriptor_bytes(one) == descriptor_bytes(other),
    ensures
        one == other,
{
    law_descriptor_round_trip(one);
    law_descriptor_round_trip(other);
}

/// A descriptor that was decoded is the only one of its bytes, and names a surface, a length and a
/// generation.
pub proof fn law_decoded_descriptors_are_canonical(input: Seq<u8>)
    requires
        descriptor_decoded(input) is Ok,
    ensures
        descriptor_bytes(descriptor_decoded(input)->Ok_0) == input,
        descriptor_decoded(input)->Ok_0.surface_id != 0,
        descriptor_decoded(input)->Ok_0.byte_len != 0,
        descriptor_decoded(input)->Ok_0.generation@ != 0,
{
    lemma_le_limits();
    lemma_le_value_bound(input.subrange(0, 4));
    lemma_le_value_bound(input.subrange(4, 12));
    lemma_le_value_bound(input.subrange(12, 20));
    lemma_le_canonical(input.subrange(0, 4));
    lemma_le_canonical(input.subrange(4, 12));
    lemma_le_canonical(input.subrange(12, 20));
    assert(input =~= input.subrange(0, 4) + input.subrange(4, 12) + input.subrange(12, 20));
}

/// A descriptor of another length is truncated, one without a generation stale, and one without a
/// surface or a length out of range.
pub proof fn law_refused_descriptors_are_told_apart(input: Seq<u8>)
    ensures
        descriptor_decoded(input) matches Err(error) ==> {
            &&& error.code is Truncated <==> input.len() != DESCRIPTOR_LENGTH
            &&& error.code is StaleGeneration ==> le_at(input, 12, 8) == 0
            &&& error.code is Truncated || error.code is StaleGeneration
                || error.code is InvalidRange
        },
        descriptor_decoded(input) is Ok <==> input.len() == DESCRIPTOR_LENGTH && le_at(input, 0, 4)
            != 0 && 0 < le_at(input, 4, 8) <= usize::MAX && le_at(input, 12, 8) != 0,
{
}

/// Surfaces are unsupported where the platform has none, and stale before they are unsupported.
pub proof fn law_refused_surfaces_are_told_apart(
    available: bool,
    byte_len: usize,
    descriptor: IoSurfaceDescriptor,
    expected_generation: Generation,
)
    ensures
        creation_rejection(available, byte_len) matches Some(error) ==> {
            &&& error.code is Unsupported <==> !available
            &&& error.code is InvalidRange <==> available
        },
        attachment_rejection(available, descriptor, expected_generation) matches Some(error) ==> {
            &&& error.code is StaleGeneration <==> descriptor.generation != expected_generation
            &&& error.code is Unsupported <==> descriptor.generation == expected_generation
        },
{
}

} // verus!
