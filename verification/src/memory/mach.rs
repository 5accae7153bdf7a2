//! Mach memory-entry shared-memory provider.
//!
//! A descriptor contains only an opaque, redacted bootstrap service name and fixed-width metadata.
//! The service transfers a Mach memory-entry send right on demand, so port names are never
//! serialized across task namespaces.
//!
//! Creation and attachment are walks of typed steps. A platform performs what the current step
//! asks for and reports the outcome; a step that fails gives back everything that the walk has
//! acquired so far, the last acquired first.

use vstd::prelude::*;
use vstd::string::StringSliceAdditionalSpecFns;
use vstd::utf8::{encode_utf8, valid_utf8};

use crate::domain::bytes::{
    copy_range, le_at, le_bytes, lemma_le_at_append, lemma_le_bytes_len, lemma_le_canonical,
    lemma_le_limits, lemma_le_value_bound,
    push_bytes, push_u64, read_u64, starts_with,
};
use crate::domain::error::{unsupported_report, ErrorCode, ErrorReport};
use crate::domain::text::{
    decimal, decimal_digits, encode_hex, hex_text, lemma_decimal_digits, lemma_hex_text,
    lemma_plain_append, lemma_plain_bytes, power_of_ten, utf8_text,
};
use crate::domain::types::{group_identities, Generation};
use crate::macos::rights::{NativeFailure, NativeRight, OwnedMachSendRight, MACH_PORT_NULL};
use crate::memory::api::{MappedRegion, MappingAccess, RegionDescriptor, RegionStore};
use crate::memory::bounds::{
    checked_atomic_end, checked_end, memory_error, memory_report, range_rejection, word_rejection,
};

verus! {

broadcast use group_identities;

/// Start of every service name.
pub const PREFIX: &'static str = "com.nwipc.memory-mach.v1";

/// Bytes of a descriptor in front of its name.
pub const METADATA_LENGTH: usize = 16;

/// Longest service name in bytes.
pub const MAXIMUM_NAME_LENGTH: usize = 127;

/// Descriptor type of a port in a native message.
pub const PORT_DESCRIPTOR: u8 = 0;

/// Transferable rendezvous descriptor for one Mach memory entry.
#[derive(Clone, PartialEq, Eq)]
pub struct MachMemoryDescriptor {
    service_name: String,
    byte_len: usize,
    generation: Generation,
}

/// What a Mach memory descriptor holds.
#[verifier::ext_equal]
pub struct MachDescriptorView {
    /// Service name in UTF-8.
    pub name: Seq<u8>,
    /// Logical length.
    pub byte_len: usize,
    /// Resource generation.
    pub generation: Generation,
}

impl View for MachMemoryDescriptor {
    type V = MachDescriptorView;

    closed spec fn view(&self) -> MachDescriptorView {
        MachDescriptorView {
            name: encode_utf8(self.service_name@),
            byte_len: self.byte_len,
            generation: self.generation,
        }
    }
}

/// The encoding of a descriptor.
pub open spec fn mach_descriptor_bytes(descriptor: MachDescriptorView) -> Seq<u8> {
    le_bytes(descriptor.generation@ as nat, 8) + le_bytes(descriptor.byte_len as nat, 8)
        + descriptor.name
}

/// Whether a service name may be looked up.
pub open spec fn valid_service_name(name: Seq<u8>) -> bool {
    &&& valid_utf8(name)
    &&& name.len() <= MAXIMUM_NAME_LENGTH
    &&& PREFIX.spec_bytes().is_prefix_of(name)
    &&& !name.contains(0u8)
}

/// What decoding a descriptor gives.
pub open spec fn mach_descriptor_decoded(input: Seq<u8>) -> Result<
    MachDescriptorView,
    ErrorReport,
> {
    if input.len() <= METADATA_LENGTH {
        Err(memory_report(ErrorCode::Truncated, "decode Mach memory descriptor"))
    } else if le_at(input, 0, 8) == 0 {
        Err(memory_report(ErrorCode::StaleGeneration, "decode Mach memory descriptor"))
    } else if le_at(input, 8, 8) > usize::MAX {
        Err(memory_report(ErrorCode::InvalidRange, "decode Mach memory descriptor"))
    } else if le_at(input, 8, 8) == 0 || !valid_service_name(input.skip(METADATA_LENGTH as int)) {
        Err(memory_report(ErrorCode::ProtocolViolation, "decode Mach memory descriptor"))
    } else {
        Ok(
            MachDescriptorView {
                name: input.skip(METADATA_LENGTH as int),
                byte_len: le_at(input, 8, 8) as usize,
                generation: Generation::of(le_at(input, 0, 8) as u64),
            },
        )
    }
}

fn contains_zero(bytes: &[u8]) -> (found: bool)
    ensures
        found == bytes@.contains(0u8),
{
    let mut index: usize = 0;
    while index < bytes.len()
        invariant
            index <= bytes@.len(),
            forall|seen: int| 0 <= seen < index ==> bytes@[seen] != 0,
        decreases bytes@.len() - index,
    {
        if bytes[index] == 0 {
            return true;
        }
        index += 1;
    }
    false
}

impl MachMemoryDescriptor {
    /// Names a region behind a service.
    pub fn new(service_name: String, byte_len: usize, generation: Generation) -> (created: Self)
        ensures
            created@ == (MachDescriptorView {
                name: encode_utf8(service_name@),
                byte_len,
                generation,
            }),
    {
        MachMemoryDescriptor { service_name, byte_len, generation }
    }

    /// Encodes generation, logical length, and the opaque rendezvous name.
    pub fn encode(&self) -> (output: Result<Vec<u8>, ErrorReport>)
        ensures
            output matches Ok(bytes) && bytes@ == mach_descriptor_bytes(self@),
    {
        let mut output: Vec<u8> = Vec::new();
        push_u64(&mut output, self.generation.get());
        push_u64(&mut output, self.byte_len as u64);
        push_bytes(&mut output, self.service_name.as_str().as_bytes());
        proof {
            assert(output@ =~= mach_descriptor_bytes(self@));
        }
        Ok(output)
    }

    /// Decodes bounded descriptor metadata.
    ///
    /// Zero generations and lengths, malformed names, and non-canonical lengths are rejected.
    pub fn decode(input: &[u8]) -> (decoded: Result<Self, ErrorReport>)
        ensures
            match decoded {
                Ok(descriptor) => mach_descriptor_decoded(input@) == Ok::<
                    MachDescriptorView,
                    ErrorReport,
                >(descriptor@),
                Err(error) => mach_descriptor_decoded(input@) == Err::<
                    MachDescriptorView,
                    ErrorReport,
                >(error),
            },
    {
        if input.len() <= METADATA_LENGTH {
            return Err(memory_error(ErrorCode::Truncated, "decode Mach memory descriptor"));
        }
        let generation = match Generation::new(read_u64(input, 0)) {
            Some(generation) => generation,
            None => {
                return Err(
                    memory_error(ErrorCode::StaleGeneration, "decode Mach memory descriptor"),
                );
            },
        };
        let wire_length: u64 = read_u64(input, 8);
        if wire_length > usize::MAX as u64 {
            return Err(memory_error(ErrorCode::InvalidRange, "decode Mach memory descriptor"));
        }
        let name: Vec<u8> = copy_range(input, METADATA_LENGTH, input.len());
        proof {
            assert(name@ =~= input@.skip(METADATA_LENGTH as int));
        }
        let service_name = match utf8_text(name.as_slice()) {
            Some(service_name) => service_name,
            None => {
                return Err(
                    memory_error(ErrorCode::ProtocolViolation, "decode Mach memory descriptor"),
                );
            },
        };
        if wire_length == 0 || name.len() > MAXIMUM_NAME_LENGTH || !starts_with(
            name.as_slice(),
            PREFIX.as_bytes(),
        ) || contains_zero(name.as_slice()) {
            return Err(
                memory_error(ErrorCode::ProtocolViolation, "decode Mach memory descriptor"),
            );
        }
        Ok(MachMemoryDescriptor { service_name, byte_len: wire_length as usize, generation })
    }

    /// Name of the service.
    pub fn service_name(&self) -> (name: &str)
        ensures
            name.spec_bytes() == self@.name,
    {
        self.service_name.as_str()
    }

    /// Renders the descriptor without its name.
    pub fn to_text(&self) -> (text: String)
        ensures
            text@ == "MachMemoryDescriptor { service_name: \"<redacted>\", byte_len: "@
                + decimal_digits(self@.byte_len as nat) + ", generation: Generation("@
                + decimal_digits(self@.generation@ as nat) + ") }"@,
    {
        let mut text = String::from_str(
            "MachMemoryDescriptor { service_name: \"<redacted>\", byte_len: ",
        );
        text.append(decimal(self.byte_len as u64).as_str());
        text.append(", generation: Generation(");
        text.append(decimal(self.generation.get()).as_str());
        text.append(") }");
        text
    }
}

/// Decoding what was encoded gives the descriptor back.
pub proof fn law_mach_descriptor_round_trip(descriptor: MachDescriptorView)
    requires
        descriptor.generation@ != 0,
        descriptor.byte_len != 0,
        descriptor.name.len() > 0,
        valid_service_name(descriptor.name),
    ensures
        mach_descriptor_decoded(mach_descriptor_bytes(descriptor)) == Ok::<
            MachDescriptorView,
            ErrorReport,
        >(descriptor),
{
    let generation = descriptor.generation@ as nat;
    let length = descriptor.byte_len as nat;
    let empty = Seq::<u8>::empty();
    let input = mach_descriptor_bytes(descriptor);
    lemma_le_limits();
    lemma_le_bytes_len(generation, 8);
    lemma_le_bytes_len(length, 8);
    lemma_le_at_append(empty, generation, 8, le_bytes(length, 8) + descriptor.name);
    assert(input =~= empty + le_bytes(generation, 8) + (le_bytes(length, 8) + descriptor.name));
    lemma_le_at_append(le_bytes(generation, 8), length, 8, descriptor.name);
    assert(input.skip(METADATA_LENGTH as int) =~= descriptor.name);
}

impl RegionDescriptor for MachMemoryDescriptor {
    closed spec fn described_len(&self) -> usize {
        self.byte_len
    }

    closed spec fn described_generation(&self) -> Generation {
        self.generation
    }

    fn byte_len(&self) -> (length: usize)
        ensures
            length == self@.byte_len,
    {
        self.byte_len
    }

    fn generation(&self) -> (generation: Generation)
        ensures
            generation == self@.generation,
    {
        self.generation
    }
}

/// Mach memory-entry provider capability.
#[derive(Clone, Copy, Debug, PartialEq, Eq, Structural)]
pub struct MachMemoryProvider {
    native: bool,
}

/// Non-secret Mach provider characteristics.
#[derive(Clone, Copy, Debug, PartialEq, Eq, Structural)]
pub struct MachMemoryProviderDiagnostics {
    /// Memory entries are transferred as Mach send rights, not numeric port names.
    pub capability_transfer: bool,
    /// Native VM protections enforce read-only attachments.
    pub native_read_only_enforced: bool,
    /// Process-boundary mappings are supported.
    pub cross_process: bool,
}

/// What a region is created for.
#[derive(Clone, Copy, Debug, PartialEq, Eq, Structural)]
pub enum MemoryPurpose {
    /// It is published through a rendezvous service.
    Published,
    /// Its right is exported only through authenticated native capability transfer.
    Transferable,
}

/// The operation that creates a region.
pub open spec fn creation_operation(purpose: MemoryPurpose) -> &'static str {
    match purpose {
        MemoryPurpose::Published => "create Mach memory",
        MemoryPurpose::Transferable => "create transferable Mach memory",
    }
}

/// The operation that allocates the memory of a region.
pub open spec fn allocation_operation(purpose: MemoryPurpose) -> &'static str {
    match purpose {
        MemoryPurpose::Published => "allocate Mach memory",
        MemoryPurpose::Transferable => "allocate transferable Mach memory",
    }
}

/// The operation that makes the memory entry of a region.
pub open spec fn entry_operation(purpose: MemoryPurpose) -> &'static str {
    match purpose {
        MemoryPurpose::Published => "create Mach memory entry",
        MemoryPurpose::Transferable => "create transferable Mach memory entry",
    }
}

/// The operation that validates the memory entry of a region.
pub open spec fn validation_operation(purpose: MemoryPurpose) -> &'static str {
    match purpose {
        MemoryPurpose::Published => "validate Mach memory entry",
        MemoryPurpose::Transferable => "validate transferable Mach memory entry",
    }
}

/// The report on a native call that failed.
pub open spec fn native_report(operation: &'static str) -> ErrorReport {
    memory_report(ErrorCode::RequiredCapabilityMissing, operation)
}

fn native_error(operation: &'static str) -> (created: ErrorReport)
    ensures
        created == native_report(operation),
{
    memory_error(ErrorCode::RequiredCapabilityMissing, operation)
}

/// Why a region is not created, if it is not.
pub open spec fn memory_creation_rejection(
    native: bool,
    byte_len: usize,
    purpose: MemoryPurpose,
) -> Option<ErrorReport> {
    if !native {
        Some(unsupported_report(creation_operation(purpose)))
    } else if byte_len == 0 {
        Some(memory_report(ErrorCode::InvalidRange, creation_operation(purpose)))
    } else {
        None
    }
}

impl MachMemoryProvider {
    /// Whether the platform has Mach memory entries.
    pub closed spec fn is_native(self) -> bool {
        self.native
    }

    /// Initializes the provider, given whether the platform has Mach memory entries.
    ///
    /// Explicit `Unsupported` is returned on other platforms.
    pub fn initialize(native: bool) -> (initialized: Result<Self, ErrorReport>)
        ensures
            match initialized {
                Ok(provider) => native && provider.is_native(),
                Err(error) => !native && error == unsupported_report(
                    "initialize Mach memory provider",
                ),
            },
    {
        if native {
            Ok(MachMemoryProvider { native })
        } else {
            Err(ErrorReport::unsupported("initialize Mach memory provider"))
        }
    }

    /// Returns redacted provider capabilities.
    pub fn diagnostics(self) -> (diagnostics: MachMemoryProviderDiagnostics)
        ensures
            diagnostics == (MachMemoryProviderDiagnostics {
                capability_transfer: self.is_native(),
                native_read_only_enforced: self.is_native(),
                cross_process: self.is_native(),
            }),
    {
        MachMemoryProviderDiagnostics {
            capability_transfer: self.native,
            native_read_only_enforced: self.native,
            cross_process: self.native,
        }
    }

    /// Begins to create a region.
    pub fn create(self, byte_len: usize, purpose: MemoryPurpose) -> (begun: Result<
        MemoryAllocation,
        ErrorReport,
    >)
        ensures
            match memory_creation_rejection(self.is_native(), byte_len, purpose) {
                Some(error) => begun is Err && begun->Err_0 == error,
                None => begun is Ok && begun->Ok_0 == (MemoryAllocation { byte_len, purpose }),
            },
    {
        let operation = match purpose {
            MemoryPurpose::Published => "create Mach memory",
            MemoryPurpose::Transferable => "create transferable Mach memory",
        };
        if !self.native {
            return Err(ErrorReport::unsupported(operation));
        }
        if byte_len == 0 {
            return Err(memory_error(ErrorCode::InvalidRange, operation));
        }
        Ok(MemoryAllocation { byte_len, purpose })
    }

    /// Begins to create a host mapping whose memory-entry right is exported only through
    /// authenticated native capability transfer.
    pub fn create_transfer_mapping(self, byte_len: usize) -> (begun: Result<
        MemoryAllocation,
        ErrorReport,
    >)
        ensures
            match memory_creation_rejection(
                self.is_native(),
                byte_len,
                MemoryPurpose::Transferable,
            ) {
                Some(error) => begun is Err && begun->Err_0 == error,
                None => begun is Ok && begun->Ok_0 == (MemoryAllocation {
                    byte_len,
                    purpose: MemoryPurpose::Transferable,
                }),
            },
    {
        self.create(byte_len, MemoryPurpose::Transferable)
    }

    /// Begins to attach a published region.
    ///
    /// A stale generation is rejected before the service is looked up.
    pub fn attach(
        self,
        descriptor: MachMemoryDescriptor,
        expected_generation: Generation,
        access: MappingAccess,
    ) -> (begun: Result<EntryLookup, ErrorReport>)
        ensures
            if descriptor@.generation != expected_generation {
                begun is Err && begun->Err_0 == memory_report(
                    ErrorCode::StaleGeneration,
                    "attach Mach memory",
                )
            } else if !self.is_native() {
                begun is Err && begun->Err_0 == unsupported_report("attach Mach memory")
            } else {
                begun is Ok && begun->Ok_0.descriptor@ == descriptor@ && begun->Ok_0.access
                    == access
            },
    {
        if descriptor.generation != expected_generation {
            return Err(memory_error(ErrorCode::StaleGeneration, "attach Mach memory"));
        }
        if !self.native {
            return Err(ErrorReport::unsupported("attach Mach memory"));
        }
        Ok(EntryLookup { descriptor, access })
    }
}

/// A failure that releases what was acquired, the last acquired first.
pub open spec fn gives_back(
    failure: NativeFailure,
    error: ErrorReport,
    acquired: Seq<NativeRight>,
) -> bool {
    &&& failure.error == error
    &&& failure.release@ == acquired.reverse()
}

/// Memory that is to be allocated.
pub struct MemoryAllocation {
    /// Logical length.
    pub byte_len: usize,
    /// What the region is for.
    pub purpose: MemoryPurpose,
}

impl MemoryAllocation {
    /// Bytes to allocate.
    pub fn size(&self) -> (size: u64)
        ensures
            size == self.byte_len,
    {
        self.byte_len as u64
    }

    /// Goes on with the address of the memory, if it was allocated.
    pub fn allocated(self, address: Option<u64>) -> (next: Result<EntryRequest, NativeFailure>)
        ensures
            match address {
                Some(address) => next is Ok && next->Ok_0 == (EntryRequest {
                    byte_len: self.byte_len,
                    purpose: self.purpose,
                    address,
                }),
                None => next is Err && gives_back(
                    next->Err_0,
                    native_report(allocation_operation(self.purpose)),
                    Seq::empty(),
                ),
            },
    {
        match address {
            Some(address) => Ok(
                EntryRequest { byte_len: self.byte_len, purpose: self.purpose, address },
            ),
            None => {
                let operation = match self.purpose {
                    MemoryPurpose::Published => "allocate Mach memory",
                    MemoryPurpose::Transferable => "allocate transferable Mach memory",
                };
                let release: Vec<NativeRight> = Vec::new();
                proof {
                    assert(release@ =~= Seq::<NativeRight>::empty().reverse());
                }
                Err(NativeFailure { error: native_error(operation), release })
            },
        }
    }
}

/// Allocated memory that gets an entry.
pub struct EntryRequest {
    /// Logical length.
    pub byte_len: usize,
    /// What the region is for.
    pub purpose: MemoryPurpose,
    /// Where the memory is.
    pub address: u64,
}

/// The memory of a walk.
pub open spec fn memory_right(address: u64, byte_len: usize) -> NativeRight {
    NativeRight::Memory(address, byte_len as u64)
}

/// What a walk owns with its memory and its entry.
pub open spec fn backed(address: u64, byte_len: usize, entry: u32) -> Seq<NativeRight> {
    seq![memory_right(address, byte_len), NativeRight::Send(entry)]
}

/// What a walk owns with its memory, its entry and its control port.
pub open spec fn controlled(address: u64, byte_len: usize, entry: u32, control: u32) -> Seq<
    NativeRight,
> {
    backed(address, byte_len, entry).push(NativeRight::Receive(control))
}

fn release_memory(address: u64, byte_len: usize) -> (release: Vec<NativeRight>)
    ensures
        release@ == seq![memory_right(address, byte_len)].reverse(),
{
    let mut release: Vec<NativeRight> = Vec::new();
    release.push(NativeRight::Memory(address, byte_len as u64));
    proof {
        assert(release@ =~= seq![memory_right(address, byte_len)].reverse());
    }
    release
}

fn release_backed(address: u64, byte_len: usize, entry: u32) -> (release: Vec<NativeRight>)
    ensures
        release@ == backed(address, byte_len, entry).reverse(),
{
    let mut release: Vec<NativeRight> = Vec::new();
    release.push(NativeRight::Send(entry));
    release.push(NativeRight::Memory(address, byte_len as u64));
    proof {
        assert(release@ =~= backed(address, byte_len, entry).reverse());
    }
    release
}

fn release_controlled(address: u64, byte_len: usize, entry: u32, control: u32) -> (release: Vec<
    NativeRight,
>)
    ensures
        release@ == controlled(address, byte_len, entry, control).reverse(),
{
    let mut release: Vec<NativeRight> = Vec::new();
    release.push(NativeRight::Receive(control));
    release.push(NativeRight::Send(entry));
    release.push(NativeRight::Memory(address, byte_len as u64));
    proof {
        assert(release@ =~= controlled(address, byte_len, entry, control).reverse());
    }
    release
}

impl EntryRequest {
    /// Goes on with the entry and its size, if it was made.
    ///
    /// An entry that is smaller than the memory is rejected.
    pub fn made(self, entry: Option<(u32, u64)>) -> (next: Result<BackedMemory, NativeFailure>)
        ensures
            match entry {
                None => next is Err && gives_back(
                    next->Err_0,
                    native_report(entry_operation(self.purpose)),
                    seq![memory_right(self.address, self.byte_len)],
                ),
                Some((entry, size)) => if size < self.byte_len {
                    next is Err && gives_back(
                        next->Err_0,
                        memory_report(
                            ErrorCode::InvalidRange,
                            validation_operation(self.purpose),
                        ),
                        backed(self.address, self.byte_len, entry),
                    )
                } else {
                    next is Ok && next->Ok_0 == (BackedMemory {
                        byte_len: self.byte_len,
                        address: self.address,
                        entry,
                    })
                },
            },
    {
        match entry {
            None => {
                let operation = match self.purpose {
                    MemoryPurpose::Published => "create Mach memory entry",
                    MemoryPurpose::Transferable => "create transferable Mach memory entry",
                };
                Err(
                    NativeFailure {
                        error: native_error(operation),
                        release: release_memory(self.address, self.byte_len),
                    },
                )
            },
            Some((entry, size)) => {
                if size < self.byte_len as u64 {
                    let operation = match self.purpose {
                        MemoryPurpose::Published => "validate Mach memory entry",
                        MemoryPurpose::Transferable => "validate transferable Mach memory entry",
                    };
                    return Err(
                        NativeFailure {
                            error: memory_error(ErrorCode::InvalidRange, operation),
                            release: release_backed(self.address, self.byte_len, entry),
                        },
                    );
                }
                Ok(BackedMemory { byte_len: self.byte_len, address: self.address, entry })
            },
        }
    }
}

/// Memory with its entry.
pub struct BackedMemory {
    /// Logical length.
    pub byte_len: usize,
    /// Where the memory is.
    pub address: u64,
    /// Send right of the entry.
    pub entry: u32,
}

impl BackedMemory {
    /// Keeps the region for authenticated native capability transfer.
    pub fn into_rights(self) -> (rights: MachMemoryRights)
        ensures
            rights == (MachMemoryRights {
                address: self.address,
                size: self.byte_len as u64,
                entry: self.entry,
                control: MACH_PORT_NULL,
            }),
    {
        MachMemoryRights {
            address: self.address,
            size: self.byte_len as u64,
            entry: self.entry,
            control: MACH_PORT_NULL,
        }
    }

    /// Goes on to publish the region under an unpredictable name, if randomness was drawn.
    pub fn publish(self, generation: Generation, nonce: Option<Vec<u8>>) -> (next: Result<
        ServicePort,
        NativeFailure,
    >)
        ensures
            match nonce {
                Some(nonce) => next is Ok && next->Ok_0 == (ServicePort {
                    region: self,
                    generation,
                    nonce,
                }),
                None => next is Err && gives_back(
                    next->Err_0,
                    memory_report(ErrorCode::Internal, "randomize Mach memory service"),
                    backed(self.address, self.byte_len, self.entry),
                ),
            },
    {
        match nonce {
            Some(nonce) => Ok(ServicePort { region: self, generation, nonce }),
            None => Err(
                NativeFailure {
                    error: memory_error(ErrorCode::Internal, "randomize Mach memory service"),
                    release: release_backed(self.address, self.byte_len, self.entry),
                },
            ),
        }
    }
}

/// A region that gets a control port.
pub struct ServicePort {
    /// The region.
    pub region: BackedMemory,
    /// Resource generation.
    pub generation: Generation,
    /// Unpredictable part of the name.
    pub nonce: Vec<u8>,
}

impl ServicePort {
    /// Goes on with the control port, if it was allocated.
    pub fn allocated(self, control: Option<u32>) -> (next: Result<ServiceRight, NativeFailure>)
        ensures
            match control {
                Some(control) => next is Ok && next->Ok_0 == (ServiceRight {
                    region: self.region,
                    generation: self.generation,
                    nonce: self.nonce,
                    control,
                }),
                None => next is Err && gives_back(
                    next->Err_0,
                    native_report("allocate Mach memory transfer port"),
                    backed(self.region.address, self.region.byte_len, self.region.entry),
                ),
            },
    {
        match control {
            Some(control) => Ok(
                ServiceRight {
                    region: self.region,
                    generation: self.generation,
                    nonce: self.nonce,
                    control,
                },
            ),
            None => Err(
                NativeFailure {
                    error: native_error("allocate Mach memory transfer port"),
                    release: release_backed(
                        self.region.address,
                        self.region.byte_len,
                        self.region.entry,
                    ),
                },
            ),
        }
    }
}

/// A control port that gets a send right.
pub struct ServiceRight {
    /// The region.
    pub region: BackedMemory,
    /// Resource generation.
    pub generation: Generation,
    /// Unpredictable part of the name.
    pub nonce: Vec<u8>,
    /// The control port.
    pub control: u32,
}

/// The name of a service.
pub open spec fn service_name_text(
    process_id: u32,
    generation: Generation,
    sequence: u64,
    nonce: Seq<u8>,
) -> Seq<char> {
    PREFIX@ + "."@ + decimal_digits(process_id as nat) + "."@ + decimal_digits(
        generation@ as nat,
    ) + "."@ + decimal_digits(sequence as nat) + "."@ + hex_text(nonce)
}

/// Every name that a service is published under may be looked up.
pub proof fn law_published_names_are_valid(
    process_id: u32,
    generation: Generation,
    sequence: u64,
    nonce: Seq<u8>,
)
    requires
        nonce.len() == 16,
    ensures
        valid_service_name(
            encode_utf8(service_name_text(process_id, generation, sequence, nonce)),
        ),
{
    reveal_strlit("com.nwipc.memory-mach.v1");
    reveal_strlit(".");
    assert(power_of_ten(20) == 100_000_000_000_000_000_000) by {
        reveal_with_fuel(power_of_ten, 21);
    }
    let process = decimal_digits(process_id as nat);
    let number = decimal_digits(generation@ as nat);
    let place = decimal_digits(sequence as nat);
    lemma_decimal_digits(process_id as nat, 20);
    lemma_decimal_digits(generation@ as nat, 20);
    lemma_decimal_digits(sequence as nat, 20);
    lemma_hex_text(nonce);
    let dot = "."@;
    let first = PREFIX@ + dot;
    let second = first + process + dot;
    let third = second + number + dot;
    let fourth = third + place + dot;
    let name = service_name_text(process_id, generation, sequence, nonce);
    lemma_plain_append(PREFIX@, dot);
    lemma_plain_append(first, process);
    lemma_plain_append(first + process, dot);
    lemma_plain_append(second, number);
    lemma_plain_append(second + number, dot);
    lemma_plain_append(third, place);
    lemma_plain_append(third + place, dot);
    lemma_plain_append(fourth, hex_text(nonce));
    assert(name =~= fourth + hex_text(nonce));
    lemma_plain_bytes(name);
    lemma_plain_bytes(PREFIX@);
    assert forall|index: int| 0 <= index < PREFIX@.len() implies name[index] == PREFIX@[index] by {
    }
    let bytes = encode_utf8(name);
    let prefix = PREFIX.spec_bytes();
    assert(prefix =~= bytes.take(prefix.len() as int)) by {
        assert forall|index: int| 0 <= index < prefix.len()
            implies prefix[index] == bytes[index] by {
            assert(prefix[index] == PREFIX@[index] as u8);
            assert(bytes[index] == name[index] as u8);
        }
    }
}

fn service_name(process_id: u32, generation: Generation, sequence: u64, nonce: &[u8]) -> (name:
    String)
    ensures
        name@ == service_name_text(process_id, generation, sequence, nonce@),
{
    let mut name = String::from_str(PREFIX);
    name.append(".");
    name.append(decimal(process_id as u64).as_str());
    name.append(".");
    name.append(decimal(generation.get()).as_str());
    name.append(".");
    name.append(decimal(sequence).as_str());
    name.append(".");
    name.append(encode_hex(nonce).as_str());
    name
}

impl ServiceRight {
    /// Goes on to register the service in this process under its place in the sequence of
    /// services, if the send right was inserted.
    pub fn inserted(self, inserted: bool, process_id: u32, sequence: u64) -> (next: Result<
        ServiceRegistration,
        NativeFailure,
    >)
        ensures
            if inserted {
                &&& next is Ok
                &&& next->Ok_0.region == self.region
                &&& next->Ok_0.generation == self.generation
                &&& next->Ok_0.control == self.control
                &&& next->Ok_0.name@ == service_name_text(
                    process_id,
                    self.generation,
                    sequence,
                    self.nonce@,
                )
            } else {
                next is Err && gives_back(
                    next->Err_0,
                    native_report("insert Mach memory transfer right"),
                    controlled(
                        self.region.address,
                        self.region.byte_len,
                        self.region.entry,
                        self.control,
                    ),
                )
            },
    {
        if !inserted {
            return Err(
                NativeFailure {
                    error: native_error("insert Mach memory transfer right"),
                    release: release_controlled(
                        self.region.address,
                        self.region.byte_len,
                        self.region.entry,
                        self.control,
                    ),
                },
            );
        }
        let name = service_name(process_id, self.generation, sequence, self.nonce.as_slice());
        Ok(
            ServiceRegistration {
                region: self.region,
                generation: self.generation,
                name,
                control: self.control,
            },
        )
    }
}

/// A service that is to be registered.
pub struct ServiceRegistration {
    /// The region.
    pub region: BackedMemory,
    /// Resource generation.
    pub generation: Generation,
    /// Name of the service.
    pub name: String,
    /// The control port.
    pub control: u32,
}

impl ServiceRegistration {
    /// Goes on to start the worker, if the service was registered.
    pub fn registered(self, registered: bool) -> (next: Result<ServiceStart, NativeFailure>)
        ensures
            if registered {
                next is Ok && next->Ok_0 == (ServiceStart { service: self })
            } else {
                next is Err && gives_back(
                    next->Err_0,
                    native_report("register Mach memory service"),
                    controlled(
                        self.region.address,
                        self.region.byte_len,
                        self.region.entry,
                        self.control,
                    ),
                )
            },
    {
        if registered {
            return Ok(ServiceStart { service: self });
        }
        Err(
            NativeFailure {
                error: native_error("register Mach memory service"),
                release: release_controlled(
                    self.region.address,
                    self.region.byte_len,
                    self.region.entry,
                    self.control,
                ),
            },
        )
    }
}

/// A registered service whose worker is to be started.
pub struct ServiceStart {
    /// The service.
    pub service: ServiceRegistration,
}

impl ServiceStart {
    /// Goes on to retain the entry, if the worker was started.
    ///
    /// A worker that was started owns the entry and the control port.
    pub fn started(self, started: bool) -> (next: Result<EntryRetention, NativeFailure>)
        ensures
            if started {
                next is Ok && next->Ok_0 == (EntryRetention { service: self.service })
            } else {
                next is Err && gives_back(
                    next->Err_0,
                    memory_report(ErrorCode::Internal, "spawn Mach memory service"),
                    controlled(
                        self.service.region.address,
                        self.service.region.byte_len,
                        self.service.region.entry,
                        self.service.control,
                    ),
                )
            },
    {
        if started {
            return Ok(EntryRetention { service: self.service });
        }
        Err(
            NativeFailure {
                error: memory_error(ErrorCode::Internal, "spawn Mach memory service"),
                release: release_controlled(
                    self.service.region.address,
                    self.service.region.byte_len,
                    self.service.region.entry,
                    self.service.control,
                ),
            },
        )
    }
}

/// A running service whose entry is to be retained.
pub struct EntryRetention {
    /// The service.
    pub service: ServiceRegistration,
}

impl EntryRetention {
    /// Completes the region with its descriptor, if the entry was retained.
    pub fn retained(self, retained: bool) -> (done: Result<
        (MachMemoryRights, MachMemoryDescriptor),
        NativeFailure,
    >)
        ensures
            if retained {
                &&& done is Ok
                &&& done->Ok_0.0 == (MachMemoryRights {
                    address: self.service.region.address,
                    size: self.service.region.byte_len as u64,
                    entry: self.service.region.entry,
                    control: self.service.control,
                })
                &&& done->Ok_0.1@ == (MachDescriptorView {
                    name: encode_utf8(self.service.name@),
                    byte_len: self.service.region.byte_len,
                    generation: self.service.generation,
                })
            } else {
                done is Err && gives_back(
                    done->Err_0,
                    native_report("retain Mach memory entry"),
                    seq![
                        memory_right(self.service.region.address, self.service.region.byte_len),
                        NativeRight::Service(self.service.control),
                    ],
                )
            },
    {
        let region = self.service.region;
        let control: u32 = self.service.control;
        if !retained {
            let mut release: Vec<NativeRight> = Vec::new();
            release.push(NativeRight::Service(control));
            release.push(NativeRight::Memory(region.address, region.byte_len as u64));
            proof {
                assert(release@ =~= seq![
                    memory_right(region.address, region.byte_len),
                    NativeRight::Service(control),
                ].reverse());
            }
            return Err(
                NativeFailure { error: native_error("retain Mach memory entry"), release },
            );
        }
        let descriptor = MachMemoryDescriptor::new(
            self.service.name,
            region.byte_len,
            self.service.generation,
        );
        Ok(
            (
                MachMemoryRights {
                    address: region.address,
                    size: region.byte_len as u64,
                    entry: region.entry,
                    control,
                },
                descriptor,
            ),
        )
    }
}

/// Native resources of a live mapping.
#[derive(Clone, Copy, PartialEq, Eq, Structural)]
pub struct MachMemoryRights {
    /// Where the memory is.
    pub address: u64,
    /// Bytes of the memory.
    pub size: u64,
    /// Send right of the entry, or the null port.
    pub entry: u32,
    /// Control port of the service, or the null port.
    pub control: u32,
}

/// What a mapping releases: its service, its entry, and its memory.
pub open spec fn mapping_release(rights: MachMemoryRights) -> Seq<NativeRight> {
    (if rights.control != MACH_PORT_NULL {
        seq![NativeRight::Service(rights.control)]
    } else {
        Seq::empty()
    }) + (if rights.entry != MACH_PORT_NULL {
        seq![NativeRight::Send(rights.entry)]
    } else {
        Seq::empty()
    }) + seq![NativeRight::Memory(rights.address, rights.size)]
}

impl MachMemoryRights {
    /// Gives up the resources, to be released in order.
    pub fn release(self) -> (release: Vec<NativeRight>)
        ensures
            release@ == mapping_release(self),
    {
        let mut release: Vec<NativeRight> = Vec::new();
        if self.control != MACH_PORT_NULL {
            release.push(NativeRight::Service(self.control));
        }
        if self.entry != MACH_PORT_NULL {
            release.push(NativeRight::Send(self.entry));
        }
        release.push(NativeRight::Memory(self.address, self.size));
        proof {
            assert(release@ =~= mapping_release(self));
        }
        release
    }
}

/// A service that is to be looked up.
pub struct EntryLookup {
    /// Descriptor of the region.
    pub descriptor: MachMemoryDescriptor,
    /// Access to grant.
    pub access: MappingAccess,
}

impl EntryLookup {
    /// Goes on with the service, if it was found.
    pub fn found(self, service: Option<u32>) -> (next: Result<EntryReply, NativeFailure>)
        ensures
            match service {
                Some(service) => next is Ok && next->Ok_0 == (EntryReply {
                    byte_len: self.descriptor@.byte_len,
                    access: self.access,
                    service,
                }),
                None => next is Err && gives_back(
                    next->Err_0,
                    native_report("lookup Mach memory service"),
                    Seq::empty(),
                ),
            },
    {
        match service {
            Some(service) => Ok(
                EntryReply { byte_len: self.descriptor.byte_len, access: self.access, service },
            ),
            None => {
                let release: Vec<NativeRight> = Vec::new();
                proof {
                    assert(release@ =~= Seq::<NativeRight>::empty().reverse());
                }
                Err(NativeFailure { error: native_error("lookup Mach memory service"), release })
            },
        }
    }
}

/// A service that gets a port to reply to.
pub struct EntryReply {
    /// Logical length.
    pub byte_len: usize,
    /// Access to grant.
    pub access: MappingAccess,
    /// Send right of the service.
    pub service: u32,
}

impl EntryReply {
    /// Goes on with the reply port, if it was allocated.
    pub fn allocated(self, reply: Option<u32>) -> (next: Result<EntryCall, NativeFailure>)
        ensures
            match reply {
                Some(reply) => next is Ok && next->Ok_0 == (EntryCall {
                    byte_len: self.byte_len,
                    access: self.access,
                    service: self.service,
                    reply,
                }),
                None => next is Err && gives_back(
                    next->Err_0,
                    native_report("allocate Mach memory reply port"),
                    seq![NativeRight::Send(self.service)],
                ),
            },
    {
        match reply {
            Some(reply) => Ok(
                EntryCall {
                    byte_len: self.byte_len,
                    access: self.access,
                    service: self.service,
                    reply,
                },
            ),
            None => {
                let mut release: Vec<NativeRight> = Vec::new();
                release.push(NativeRight::Send(self.service));
                proof {
                    assert(release@ =~= seq![NativeRight::Send(self.service)].reverse());
                }
                Err(
                    NativeFailure {
                        error: native_error("allocate Mach memory reply port"),
                        release,
                    },
                )
            },
        }
    }
}

/// A request that is to be sent to the service.
pub struct EntryCall {
    /// Logical length.
    pub byte_len: usize,
    /// Access to grant.
    pub access: MappingAccess,
    /// Send right of the service.
    pub service: u32,
    /// Port that the service replies to.
    pub reply: u32,
}

impl EntryCall {
    /// Goes on to await the reply, if the request was sent.
    ///
    /// The service is released in either case, before the reply port.
    pub fn sent(self, sent: bool) -> (next: Result<(EntryAwait, NativeRight), NativeFailure>)
        ensures
            if sent {
                next is Ok && next->Ok_0 == (
                    EntryAwait {
                        byte_len: self.byte_len,
                        access: self.access,
                        reply: self.reply,
                    },
                    NativeRight::Send(self.service),
                )
            } else {
                &&& next is Err
                &&& next->Err_0.error == native_report("request Mach memory entry")
                &&& next->Err_0.release@ == seq![
                    NativeRight::Send(self.service),
                    NativeRight::Receive(self.reply),
                ]
            },
    {
        if sent {
            return Ok(
                (
                    EntryAwait {
                        byte_len: self.byte_len,
                        access: self.access,
                        reply: self.reply,
                    },
                    NativeRight::Send(self.service),
                ),
            );
        }
        let mut release: Vec<NativeRight> = Vec::new();
        release.push(NativeRight::Send(self.service));
        release.push(NativeRight::Receive(self.reply));
        proof {
            assert(release@ =~= seq![
                NativeRight::Send(self.service),
                NativeRight::Receive(self.reply),
            ]);
        }
        Err(NativeFailure { error: native_error("request Mach memory entry"), release })
    }
}

/// What a service replied.
#[derive(Clone, Copy, PartialEq, Eq, Structural)]
pub struct EntryResponse {
    /// Count of descriptors that the message declares.
    pub descriptor_count: u32,
    /// Type of the first descriptor.
    pub descriptor_type: u8,
    /// Port in the first descriptor.
    pub name: u32,
}

/// A reply that is awaited.
pub struct EntryAwait {
    /// Logical length.
    pub byte_len: usize,
    /// Access to grant.
    pub access: MappingAccess,
    /// Port that the service replies to.
    pub reply: u32,
}

/// Whether a reply carries exactly one port.
pub open spec fn response_carries_entry(response: EntryResponse) -> bool {
    &&& response.descriptor_count == 1
    &&& response.descriptor_type == PORT_DESCRIPTOR
    &&& response.name != MACH_PORT_NULL
}

impl EntryAwait {
    /// Goes on to map the entry, if the service replied with one.
    ///
    /// The reply port is released in either case.
    pub fn received(self, response: Option<EntryResponse>) -> (next: Result<
        (EntryMapping, NativeRight),
        NativeFailure,
    >)
        ensures
            match response {
                None => next is Err && gives_back(
                    next->Err_0,
                    native_report("receive Mach memory entry"),
                    seq![NativeRight::Receive(self.reply)],
                ),
                Some(response) => if response_carries_entry(response) {
                    next is Ok && next->Ok_0 == (
                        EntryMapping {
                            byte_len: self.byte_len,
                            access: self.access,
                            entry: response.name,
                            operation: "map Mach memory entry",
                        },
                        NativeRight::Receive(self.reply),
                    )
                } else {
                    next is Err && gives_back(
                        next->Err_0,
                        memory_report(
                            ErrorCode::ProtocolViolation,
                            "validate Mach memory entry response",
                        ),
                        seq![NativeRight::Receive(self.reply)],
                    )
                },
            },
    {
        let mut release: Vec<NativeRight> = Vec::new();
        release.push(NativeRight::Receive(self.reply));
        proof {
            assert(release@ =~= seq![NativeRight::Receive(self.reply)].reverse());
        }
        match response {
            None => Err(
                NativeFailure { error: native_error("receive Mach memory entry"), release },
            ),
            Some(response) => {
                if response.descriptor_count != 1 || response.descriptor_type != PORT_DESCRIPTOR
                    || response.name == MACH_PORT_NULL {
                    return Err(
                        NativeFailure {
                            error: memory_error(
                                ErrorCode::ProtocolViolation,
                                "validate Mach memory entry response",
                            ),
                            release,
                        },
                    );
                }
                Ok(
                    (
                        EntryMapping {
                            byte_len: self.byte_len,
                            access: self.access,
                            entry: response.name,
                            operation: "map Mach memory entry",
                        },
                        NativeRight::Receive(self.reply),
                    ),
                )
            },
        }
    }
}

/// An entry that is to be mapped.
pub struct EntryMapping {
    /// Logical length.
    pub byte_len: usize,
    /// Access to grant.
    pub access: MappingAccess,
    /// Send right of the entry.
    pub entry: u32,
    /// The operation that maps the entry.
    pub operation: &'static str,
}

/// Native protections that enforce an access.
pub open spec fn protections_of(access: MappingAccess) -> i32 {
    match access {
        MappingAccess::ReadOnly => 1,
        MappingAccess::ReadWrite => 3,
    }
}

impl EntryMapping {
    /// Native protections that enforce the access.
    pub fn protections(&self) -> (protections: i32)
        ensures
            protections == protections_of(self.access),
    {
        match self.access {
            MappingAccess::ReadOnly => 1,
            MappingAccess::ReadWrite => 3,
        }
    }

    /// Completes the mapping with its address, if the entry was mapped.
    ///
    /// The entry is released in either case.
    pub fn mapped(self, address: Option<u64>) -> (done: Result<
        (MachMemoryRights, NativeRight),
        NativeFailure,
    >)
        ensures
            match address {
                Some(address) => done is Ok && done->Ok_0 == (
                    MachMemoryRights {
                        address,
                        size: self.byte_len as u64,
                        entry: MACH_PORT_NULL,
                        control: MACH_PORT_NULL,
                    },
                    NativeRight::Send(self.entry),
                ),
                None => done is Err && gives_back(
                    done->Err_0,
                    native_report(self.operation),
                    seq![NativeRight::Send(self.entry)],
                ),
            },
    {
        match address {
            Some(address) => Ok(
                (
                    MachMemoryRights {
                        address,
                        size: self.byte_len as u64,
                        entry: MACH_PORT_NULL,
                        control: MACH_PORT_NULL,
                    },
                    NativeRight::Send(self.entry),
                ),
            ),
            None => {
                let mut release: Vec<NativeRight> = Vec::new();
                release.push(NativeRight::Send(self.entry));
                proof {
                    assert(release@ =~= seq![NativeRight::Send(self.entry)].reverse());
                }
                Err(NativeFailure { error: native_error(self.operation), release })
            },
        }
    }
}

/// Owned native VM mapping.
pub struct MachMemoryMapping<Memory> {
    /// Native memory.
    pub memory: Memory,
    /// Native resources.
    pub rights: MachMemoryRights,
    /// Logical length.
    pub byte_len: usize,
    /// Granted access.
    pub access: MappingAccess,
}

impl<Memory> MachMemoryMapping<Memory> {
    /// Begins to map a memory-entry send right already transferred into the current task.
    ///
    /// The right is consumed on both success and failure. Empty mappings are rejected.
    pub fn attach_memory_entry_right(
        native: bool,
        right: OwnedMachSendRight,
        byte_len: usize,
        access: MappingAccess,
    ) -> (begun: Result<EntryMapping, NativeFailure>)
        ensures
            if !native {
                begun is Err && begun->Err_0.error == unsupported_report("attach Mach memory entry")
                    && begun->Err_0.release@ == Seq::<NativeRight>::empty()
            } else if right.name() == MACH_PORT_NULL {
                begun is Err && begun->Err_0.error == native_report("adopt Mach memory entry")
                    && begun->Err_0.release@ == Seq::<NativeRight>::empty()
            } else if byte_len == 0 {
                begun is Err && gives_back(
                    begun->Err_0,
                    native_report("adopt Mach memory entry"),
                    seq![NativeRight::Send(right.name())],
                )
            } else {
                begun is Ok && begun->Ok_0 == (EntryMapping {
                    byte_len,
                    access,
                    entry: right.name(),
                    operation: "map transferred Mach memory entry",
                })
            },
    {
        let entry: u32 = right.into_raw();
        let mut release: Vec<NativeRight> = Vec::new();
        proof {
            assert(release@ =~= Seq::<NativeRight>::empty());
        }
        if !native {
            return Err(
                NativeFailure { error: ErrorReport::unsupported("attach Mach memory entry"), release },
            );
        }
        if entry == MACH_PORT_NULL || byte_len == 0 {
            if entry != MACH_PORT_NULL {
                release.push(NativeRight::Send(entry));
                proof {
                    assert(release@ =~= seq![NativeRight::Send(entry)].reverse());
                }
            }
            return Err(NativeFailure { error: native_error("adopt Mach memory entry"), release });
        }
        Ok(
            EntryMapping { byte_len, access, entry, operation: "map transferred Mach memory entry" },
        )
    }

    /// Begins to duplicate the backing memory-entry send right for an authenticated native
    /// transfer, and gives the right that gets one more reference.
    ///
    /// A mapping without a transferable entry is rejected.
    pub fn duplicate_memory_entry_right(&self) -> (begun: Result<EntryDuplication, ErrorReport>)
        ensures
            if self.rights.entry == MACH_PORT_NULL {
                begun is Err && begun->Err_0 == native_report("duplicate Mach memory entry")
            } else {
                begun is Ok && begun->Ok_0 == (EntryDuplication { entry: self.rights.entry })
            },
    {
        if self.rights.entry == MACH_PORT_NULL {
            return Err(native_error("duplicate Mach memory entry"));
        }
        Ok(EntryDuplication { entry: self.rights.entry })
    }

    /// Renders the mapping without its native part.
    pub fn to_text(&self) -> (text: String)
        ensures
            text@ == "MachMemoryMapping { native: \"<redacted>\", byte_len: "@ + decimal_digits(
                self.byte_len as nat,
            ) + ", access: "@ + (match self.access {
                MappingAccess::ReadOnly => "ReadOnly"@,
                MappingAccess::ReadWrite => "ReadWrite"@,
            }) + ", .. }"@,
    {
        let mut text = String::from_str("MachMemoryMapping { native: \"<redacted>\", byte_len: ");
        text.append(decimal(self.byte_len as u64).as_str());
        text.append(", access: ");
        text.append(
            match self.access {
                MappingAccess::ReadOnly => "ReadOnly",
                MappingAccess::ReadWrite => "ReadWrite",
            },
        );
        text.append(", .. }");
        text
    }
}

/// A send right that gets one more reference.
pub struct EntryDuplication {
    /// The right.
    pub entry: u32,
}

impl EntryDuplication {
    /// Owns the new reference, if it was made.
    pub fn duplicated(self, copied: bool) -> (right: Result<OwnedMachSendRight, ErrorReport>)
        ensures
            if copied {
                right is Ok && right->Ok_0.name() == self.entry
            } else {
                right is Err && right->Err_0 == native_report("duplicate Mach memory entry")
            },
    {
        if copied {
            Ok(OwnedMachSendRight::owning(self.entry))
        } else {
            Err(native_error("duplicate Mach memory entry"))
        }
    }
}

impl<Memory: MappedRegion> MappedRegion for MachMemoryMapping<Memory> {
    open spec fn mapped_len(&self) -> usize {
        self.byte_len
    }

    open spec fn granted(&self) -> MappingAccess {
        self.access
    }

    open spec fn identity(&self) -> int {
        self.memory.identity()
    }

    open spec fn stores(&self) -> Seq<RegionStore> {
        self.memory.stores()
    }

    open spec fn reads(
        &self,
        offset: usize,
        length: usize,
        outcome: Result<Seq<u8>, ErrorReport>,
    ) -> bool {
        match range_rejection(offset, length, self.byte_len, "read Mach memory") {
            Some(error) => outcome == Err::<Seq<u8>, ErrorReport>(error),
            None => self.memory.reads(offset, length, outcome),
        }
    }

    open spec fn writes(
        &self,
        offset: usize,
        input: Seq<u8>,
        outcome: Result<(), ErrorReport>,
    ) -> bool {
        if !(self.access is ReadWrite) {
            outcome == Err::<(), ErrorReport>(
                native_report("write read-only Mach memory"),
            )
        } else {
            match range_rejection(offset, input.len() as usize, self.byte_len, "write Mach memory") {
                Some(error) => outcome == Err::<(), ErrorReport>(error),
                None => self.memory.writes(offset, input, outcome),
            }
        }
    }

    open spec fn loads(&self, offset: usize, outcome: Result<u32, ErrorReport>) -> bool {
        match word_rejection(offset, self.byte_len, "load Mach memory atomic") {
            Some(error) => outcome == Err::<u32, ErrorReport>(error),
            None => self.memory.loads(offset, outcome),
        }
    }

    open spec fn releases(
        &self,
        offset: usize,
        value: u32,
        outcome: Result<(), ErrorReport>,
    ) -> bool {
        if !(self.access is ReadWrite) {
            outcome == Err::<(), ErrorReport>(
                native_report("store read-only Mach memory atomic"),
            )
        } else {
            match word_rejection(offset, self.byte_len, "store Mach memory atomic") {
                Some(error) => outcome == Err::<(), ErrorReport>(error),
                None => self.memory.releases(offset, value, outcome),
            }
        }
    }

    fn len(&self) -> (length: usize) {
        self.byte_len
    }

    fn access(&self) -> (access: MappingAccess) {
        self.access
    }

    fn read(&self, offset: usize, length: usize) -> (bytes: Result<Vec<u8>, ErrorReport>) {
        let _end: usize = checked_end(offset, length, self.byte_len, "read Mach memory")?;
        self.memory.read(offset, length)
    }

    fn write(&mut self, offset: usize, input: &[u8]) -> (written: Result<(), ErrorReport>) {
        if self.access != MappingAccess::ReadWrite {
            return Err(native_error("write read-only Mach memory"));
        }
        let _end: usize = checked_end(offset, input.len(), self.byte_len, "write Mach memory")?;
        self.memory.write(offset, input)
    }

    fn load_u32_acquire(&self, offset: usize) -> (loaded: Result<u32, ErrorReport>) {
        let _end: usize = checked_atomic_end(offset, self.byte_len, "load Mach memory atomic")?;
        self.memory.load_u32_acquire(offset)
    }

    fn store_u32_release(
        &mut self,
        offset: usize,
        value: u32,
    ) -> (stored: Result<(), ErrorReport>) {
        if self.access != MappingAccess::ReadWrite {
            return Err(native_error("store read-only Mach memory atomic"));
        }
        let _end: usize = checked_atomic_end(offset, self.byte_len, "store Mach memory atomic")?;
        self.memory.store_u32_release(offset, value)
    }
}

/// A descriptor that was decoded is the only one of its bytes, and names a length, a generation and
/// a service that may be looked up.
pub proof fn law_decoded_mach_descriptors_are_canonical(input: Seq<u8>)
    requires
        mach_descriptor_decoded(input) is Ok,
    ensures
        mach_descriptor_bytes(mach_descriptor_decoded(input)->Ok_0) == input,
        mach_descriptor_decoded(input)->Ok_0.byte_len != 0,
        mach_descriptor_decoded(input)->Ok_0.generation@ != 0,
        0 < mach_descriptor_decoded(input)->Ok_0.name.len() <= 127,
        !mach_descriptor_decoded(input)->Ok_0.name.contains(0u8),
        PREFIX.spec_bytes().is_prefix_of(mach_descriptor_decoded(input)->Ok_0.name),
{
    lemma_le_limits();
    lemma_le_value_bound(input.subrange(0, 8));
    lemma_le_value_bound(input.subrange(8, 16));
    lemma_le_canonical(input.subrange(0, 8));
    lemma_le_canonical(input.subrange(8, 16));
    assert(input =~= input.subrange(0, 8) + input.subrange(8, 16) + input.skip(16));
}

/// A region is created exactly where there are memory entries and it has a length, whatever it is
/// for, and its allocation asks for that length.
pub proof fn law_regions_are_created_by_their_length(
    provider: MachMemoryProvider,
    byte_len: usize,
    purpose: MemoryPurpose,
    begun: Result<MemoryAllocation, ErrorReport>,
)
    requires
        call_ensures(MachMemoryProvider::create, (provider, byte_len, purpose), begun),
    ensures
        begun is Ok <==> provider.is_native() && byte_len > 0,
        begun matches Ok(allocation) ==> allocation.byte_len == byte_len && allocation.purpose
            == purpose,
        begun matches Err(error) ==> (error.code is Unsupported <==> !provider.is_native()),
{
}

/// A region is attached only by whoever expects its generation; whoever expects another one is told
/// that it is stale, before anything is looked up.
pub proof fn law_stale_regions_are_not_looked_up(
    provider: MachMemoryProvider,
    descriptor: MachMemoryDescriptor,
    expected: Generation,
    access: MappingAccess,
    begun: Result<EntryLookup, ErrorReport>,
)
    requires
        call_ensures(MachMemoryProvider::attach, (provider, descriptor, expected, access), begun),
    ensures
        begun is Ok <==> provider.is_native() && descriptor@.generation == expected,
        begun matches Ok(lookup) ==> lookup.descriptor@ == descriptor@ && lookup.access == access,
        descriptor@.generation != expected ==> (begun matches Err(error)
            && error.code is StaleGeneration),
{
}

/// What is given back is all that was acquired, each once, and the last acquired first.
pub proof fn law_everything_acquired_is_given_back(
    failure: NativeFailure,
    error: ErrorReport,
    acquired: Seq<NativeRight>,
    place: int,
)
    requires
        gives_back(failure, error, acquired),
    ensures
        failure.error == error,
        failure.release@.len() == acquired.len(),
        0 <= place < acquired.len() ==> failure.release@[place] == acquired[acquired.len() - 1
            - place],
{
}

/// A creation that fails once its memory has an entry gives back both, the memory last; once it has
/// a control port as well, that one first.
pub proof fn law_failed_publications_leave_nothing_behind(
    port: ServicePort,
    control: Option<u32>,
    with_port: Result<ServiceRight, NativeFailure>,
    right: ServiceRight,
    inserted: bool,
    process_id: u32,
    sequence: u64,
    with_right: Result<ServiceRegistration, NativeFailure>,
    registration: ServiceRegistration,
    registered: bool,
    with_service: Result<ServiceStart, NativeFailure>,
)
    requires
        call_ensures(ServicePort::allocated, (port, control), with_port),
        call_ensures(
            ServiceRight::inserted,
            (right, inserted, process_id, sequence),
            with_right,
        ),
        call_ensures(ServiceRegistration::registered, (registration, registered), with_service),
    ensures
        with_port is Ok <==> control is Some,
        with_right is Ok <==> inserted,
        with_service is Ok <==> registered,
        with_port matches Err(failure) ==> failure.release@ == seq![
            NativeRight::Send(port.region.entry),
            NativeRight::Memory(port.region.address, port.region.byte_len as u64),
        ],
        with_right matches Err(failure) ==> failure.release@ == seq![
            NativeRight::Receive(right.control),
            NativeRight::Send(right.region.entry),
            NativeRight::Memory(right.region.address, right.region.byte_len as u64),
        ],
        with_service matches Err(failure) ==> failure.release@ == seq![
            NativeRight::Receive(registration.control),
            NativeRight::Send(registration.region.entry),
            NativeRight::Memory(registration.region.address, registration.region.byte_len as u64),
        ],
{
    if let Err(failure) = with_port {
        assert(failure.release@ =~= seq![
            NativeRight::Send(port.region.entry),
            NativeRight::Memory(port.region.address, port.region.byte_len as u64),
        ]);
    }
    if let Err(failure) = with_right {
        assert(failure.release@ =~= seq![
            NativeRight::Receive(right.control),
            NativeRight::Send(right.region.entry),
            NativeRight::Memory(right.region.address, right.region.byte_len as u64),
        ]);
    }
    if let Err(failure) = with_service {
        assert(failure.release@ =~= seq![
            NativeRight::Receive(registration.control),
            NativeRight::Send(registration.region.entry),
            NativeRight::Memory(registration.region.address, registration.region.byte_len as u64),
        ]);
    }
}

/// A mapping releases its memory once and last, its entry where it has one and its service where it
/// has one, and nothing else.
pub proof fn law_mappings_release_what_they_own(
    rights: MachMemoryRights,
    release: Vec<NativeRight>,
    right: NativeRight,
)
    requires
        call_ensures(MachMemoryRights::release, (rights,), release),
    ensures
        release@.last() == NativeRight::Memory(rights.address, rights.size),
        release@.len() == 1 + if rights.entry != 0 {
            1int
        } else {
            0
        } + if rights.control != 0 {
            1int
        } else {
            0
        },
        release@.contains(right) <==> {
            ||| right == NativeRight::Memory(rights.address, rights.size)
            ||| right == NativeRight::Send(rights.entry) && rights.entry != 0
            ||| right == NativeRight::Service(rights.control) && rights.control != 0
        },
{
    let first = if rights.control != 0 {
        1int
    } else {
        0
    };
    if rights.control != 0 {
        assert(release@[0] == NativeRight::Service(rights.control));
    }
    if rights.entry != 0 {
        assert(release@[first] == NativeRight::Send(rights.entry));
    }
    assert(release@[release@.len() - 1] == NativeRight::Memory(rights.address, rights.size));
}

/// Every mapping may be read, and exactly a read-write one may be written.
pub proof fn law_protections_enforce_the_access(access: MappingAccess)
    ensures
        protections_of(access) % 2 == 1,
        (protections_of(access) / 2) % 2 == 1 <==> access is ReadWrite,
        protections_of(access) < 4,
{
}

/// A reply is mapped exactly where it carries one port that is none of the null port, and the reply
/// port is released whatever came back.
pub proof fn law_replies_carry_one_port(
    awaited: EntryAwait,
    response: Option<EntryResponse>,
    next: Result<(EntryMapping, NativeRight), NativeFailure>,
)
    requires
        call_ensures(EntryAwait::received, (awaited, response), next),
    ensures
        next is Ok <==> (response matches Some(found) && found.descriptor_count == 1
            && found.descriptor_type == 0 && found.name != 0),
        next matches Ok((mapping, released)) ==> mapping.entry == response->0.name
            && mapping.byte_len == awaited.byte_len && mapping.access == awaited.access && released
            == NativeRight::Receive(awaited.reply),
        next matches Err(failure) ==> failure.release@ == seq![NativeRight::Receive(awaited.reply)],
{
    if let Err(failure) = next {
        assert(failure.release@ =~= seq![NativeRight::Receive(awaited.reply)]);
    }
}

/// Nothing beyond the logical length of a mapping is read or changed: a copy, a load and a store
/// succeed only inside of it, a store only where the mapping may be written, and what lies inside
/// turns out as the memory makes it.
pub proof fn law_mach_mappings_end_at_their_length<Memory: MappedRegion>(
    mapping: MachMemoryMapping<Memory>,
    offset: usize,
    length: usize,
    read: Result<Seq<u8>, ErrorReport>,
    loaded: Result<u32, ErrorReport>,
    input: Seq<u8>,
    value: u32,
    changed: Result<(), ErrorReport>,
)
    requires
        input.len() <= usize::MAX,
    ensures
        mapping.reads(offset, length, read) && read is Ok ==> offset + length <= mapping.byte_len,
        offset + length <= mapping.byte_len ==> mapping.reads(offset, length, read)
            == mapping.memory.reads(offset, length, read),
        mapping.loads(offset, loaded) && loaded is Ok ==> offset + 4 <= mapping.byte_len && offset
            % 4 == 0,
        offset + 4 <= mapping.byte_len && offset % 4 == 0 ==> mapping.loads(offset, loaded)
            == mapping.memory.loads(offset, loaded),
        mapping.writes(offset, input, changed) && changed is Ok ==> mapping.access is ReadWrite
            && offset + input.len() <= mapping.byte_len,
        mapping.access is ReadWrite && offset + input.len() <= mapping.byte_len ==> mapping.writes(
            offset,
            input,
            changed,
        ) == mapping.memory.writes(offset, input, changed),
        mapping.releases(offset, value, changed) && changed is Ok ==> mapping.access is ReadWrite
            && offset % 4 == 0 && offset + 4 <= mapping.byte_len,
        mapping.access is ReadWrite && offset % 4 == 0 && offset + 4 <= mapping.byte_len
            ==> mapping.releases(offset, value, changed) == mapping.memory.releases(
            offset,
            value,
            changed,
        ),
{
}

/// A descriptor that is too short is truncated, one without a generation stale, one that is too
/// long for this machine out of range, and any other that cannot be read against the protocol.
pub proof fn law_refused_mach_descriptors_are_told_apart(
    input: Seq<u8>,
    native: bool,
    byte_len: usize,
    purpose: MemoryPurpose,
)
    ensures
        mach_descriptor_decoded(input) matches Err(error) ==> {
            let whole = input.len() > METADATA_LENGTH;
            &&& error.code is Truncated <==> !whole
            &&& error.code is StaleGeneration <==> whole && le_at(input, 0, 8) == 0
            &&& error.code is InvalidRange <==> whole && le_at(input, 0, 8) != 0 && le_at(
                input,
                8,
                8,
            ) > usize::MAX
            &&& error.code is Truncated || error.code is StaleGeneration || error.code
                is InvalidRange || error.code is ProtocolViolation
        },
        memory_creation_rejection(native, byte_len, purpose) matches Some(error) ==> {
            &&& error.code is Unsupported <==> !native
            &&& error.code is InvalidRange <==> native
        },
{
}

} // verus!
