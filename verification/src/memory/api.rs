//! Provider-neutral shared-memory ownership and mapping contracts.

use vstd::prelude::*;

use crate::domain::error::{plain_outcome, ErrorReport};
use crate::domain::types::Generation;

verus! {

/// Access granted to a mapped region.
#[derive(Clone, Copy, Debug, PartialEq, Eq, Structural)]
pub enum MappingAccess {
    /// Bytes may only be copied out of the mapping.
    ReadOnly,
    /// Bytes may be copied in and out of the mapping.
    ReadWrite,
}

/// A transferable, provider-specific region descriptor.
pub trait RegionDescriptor {
    /// The promised length.
    open spec fn described_len(&self) -> usize {
        arbitrary()
    }

    /// The generation of the resource.
    open spec fn described_generation(&self) -> Generation {
        arbitrary()
    }

    /// Logical byte length promised by the descriptor.
    fn byte_len(&self) -> (length: usize)
        ensures
            length == self.described_len(),
    ;

    /// Resource generation to which this descriptor is bound.
    fn generation(&self) -> (generation: Generation)
        ensures
            generation == self.described_generation(),
    ;
}

/// A change to a mapped region.
pub enum RegionStore {
    /// Bytes copied to an offset.
    Bytes(usize, Seq<u8>),
    /// A word released at an offset.
    Word(usize, u32),
}

/// The bytes of a copy.
pub open spec fn copied_bytes(seen: Result<Vec<u8>, ErrorReport>) -> Result<Seq<u8>, ErrorReport> {
    match seen {
        Ok(copied) => Ok(copied@),
        Err(error) => Err(error),
    }
}

/// A live mapping which owns the native resource for its entire lifetime.
///
/// Copy operations are used instead of exposing references into memory that another process can
/// mutate concurrently.
pub trait MappedRegion {
    /// Logical mapped length. It never changes.
    open spec fn mapped_len(&self) -> usize {
        arbitrary()
    }

    /// Granted mapping access. It never changes.
    open spec fn granted(&self) -> MappingAccess {
        arbitrary()
    }

    /// Which region is mapped. It never changes.
    open spec fn identity(&self) -> int {
        arbitrary()
    }

    /// The changes that were made through this mapping, in order.
    open spec fn stores(&self) -> Seq<RegionStore> {
        arbitrary()
    }

    /// Whether a copy of `length` bytes may turn out so.
    open spec fn reads(
        &self,
        offset: usize,
        length: usize,
        outcome: Result<Seq<u8>, ErrorReport>,
    ) -> bool {
        arbitrary()
    }

    /// Whether copying these bytes into the mapping may turn out so.
    open spec fn writes(
        &self,
        offset: usize,
        input: Seq<u8>,
        outcome: Result<(), ErrorReport>,
    ) -> bool {
        arbitrary()
    }

    /// Whether a load of the word at an offset may turn out so.
    open spec fn loads(&self, offset: usize, outcome: Result<u32, ErrorReport>) -> bool {
        arbitrary()
    }

    /// Whether a store of the word at an offset may turn out so.
    open spec fn releases(
        &self,
        offset: usize,
        value: u32,
        outcome: Result<(), ErrorReport>,
    ) -> bool {
        arbitrary()
    }

    /// Logical mapped length.
    fn len(&self) -> (length: usize)
        ensures
            length == self.mapped_len(),
    ;

    /// Whether the logical mapping is empty.
    fn is_empty(&self) -> (empty: bool)
        ensures
            empty == (self.mapped_len() == 0),
    {
        self.len() == 0
    }

    /// Granted mapping access.
    fn access(&self) -> (access: MappingAccess)
        ensures
            access == self.granted(),
    ;

    /// Copies `length` bytes out of the mapping.
    ///
    /// A typed range or platform error is returned.
    fn read(&self, offset: usize, length: usize) -> (bytes: Result<Vec<u8>, ErrorReport>)
        ensures
            bytes matches Ok(copied) ==> copied@.len() == length,
            self.reads(offset, length, copied_bytes(bytes)),
    ;

    /// Copies bytes into a read-write mapping.
    ///
    /// A typed access, range, or platform error is returned.
    fn write(&mut self, offset: usize, input: &[u8]) -> (written: Result<(), ErrorReport>)
        ensures
            final(self).mapped_len() == old(self).mapped_len(),
            final(self).granted() == old(self).granted(),
            final(self).identity() == old(self).identity(),
            final(self).stores() == if written is Ok {
                old(self).stores().push(RegionStore::Bytes(offset, input@))
            } else {
                old(self).stores()
            },
            old(self).writes(offset, input@, plain_outcome(written)),
    ;

    /// Acquire-loads an aligned shared little-endian `u32`.
    ///
    /// Implementations must make this operation atomic with every load/store of the same mapping
    /// location in every attached process. A typed alignment, range, or platform error is
    /// returned.
    fn load_u32_acquire(&self, offset: usize) -> (loaded: Result<u32, ErrorReport>)
        ensures
            self.loads(offset, loaded),
    ;

    /// Release-stores an aligned shared little-endian `u32`.
    ///
    /// Implementations must make this operation atomic with every load/store of the same mapping
    /// location in every attached process. A typed access, alignment, range, or platform error is
    /// returned.
    fn store_u32_release(&mut self, offset: usize, value: u32) -> (stored: Result<(), ErrorReport>)
        ensures
            final(self).mapped_len() == old(self).mapped_len(),
            final(self).granted() == old(self).granted(),
            final(self).identity() == old(self).identity(),
            final(self).stores() == if stored is Ok {
                old(self).stores().push(RegionStore::Word(offset, value))
            } else {
                old(self).stores()
            },
            old(self).releases(offset, value, plain_outcome(stored)),
    ;
}

/// Provider lifecycle contract shared by fake and platform implementations.
pub trait SharedMemoryProvider {
    /// Transferable descriptor type.
    type Descriptor: RegionDescriptor;

    /// Owned mapping type.
    type Mapping: MappedRegion;

    /// Whether asking for a region may turn out so.
    open spec fn creates(
        &self,
        byte_len: usize,
        generation: Generation,
        outcome: Result<(Self::Mapping, Self::Descriptor), ErrorReport>,
    ) -> bool {
        arbitrary()
    }

    /// Whether attaching a descriptor may turn out so.
    open spec fn attaches(
        &self,
        descriptor: Self::Descriptor,
        expected_generation: Generation,
        access: MappingAccess,
        outcome: Result<Self::Mapping, ErrorReport>,
    ) -> bool {
        arbitrary()
    }

    /// Creates a zero-filled, read-write region and its transferable descriptor.
    ///
    /// A typed configuration, resource, or platform error is returned.
    fn create(&self, byte_len: usize, generation: Generation) -> (created: Result<
        (Self::Mapping, Self::Descriptor),
        ErrorReport,
    >)
        ensures
            created matches Ok(pair) ==> {
                &&& pair.0.mapped_len() == byte_len
                &&& pair.0.granted() is ReadWrite
                &&& pair.0.stores().len() == 0
                &&& pair.1.described_len() == byte_len
                &&& pair.1.described_generation() == generation
            },
            self.creates(byte_len, generation, created),
    ;

    /// Attaches a descriptor after validating its active generation.
    ///
    /// A typed descriptor, generation, access, or platform error is returned.
    fn attach(
        &self,
        descriptor: &Self::Descriptor,
        expected_generation: Generation,
        access: MappingAccess,
    ) -> (attached: Result<Self::Mapping, ErrorReport>)
        ensures
            attached matches Ok(mapping) ==> {
                &&& descriptor.described_generation() == expected_generation
                &&& mapping.mapped_len() == descriptor.described_len()
                &&& mapping.granted() == access
                &&& mapping.stores().len() == 0
            },
            self.attaches(*descriptor, expected_generation, access, attached),
    ;
}

} // verus!
