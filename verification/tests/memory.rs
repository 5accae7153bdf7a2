use std::cell::RefCell;
use std::rc::Rc;

use nwipc::domain::error::{ErrorCode, ErrorReport};
use nwipc::domain::types::Generation;
use nwipc::macos::rights::NativeRight;
use nwipc::memory::api::{MappedRegion, MappingAccess, RegionDescriptor};
use nwipc::memory::iosurface::{IoSurfaceDescriptor, IoSurfaceProvider, DESCRIPTOR_LENGTH};
use nwipc::memory::mach::{
    EntryResponse, MachMemoryDescriptor, MachMemoryMapping, MachMemoryProvider, MemoryPurpose,
    PORT_DESCRIPTOR, PREFIX,
};
use nwipc::memory::region::{RegionDirection, RegionPair};

#[derive(Clone, Debug)]
struct Descriptor {
    length: usize,
    generation: Generation,
}

impl RegionDescriptor for Descriptor {
    fn byte_len(&self) -> usize {
        self.length
    }

    fn generation(&self) -> Generation {
        self.generation
    }
}

#[derive(Clone)]
struct SharedBytes {
    bytes: Rc<RefCell<Vec<u8>>>,
}

impl SharedBytes {
    fn new(length: usize) -> Self {
        SharedBytes {
            bytes: Rc::new(RefCell::new(vec![0; length])),
        }
    }
}

impl MappedRegion for SharedBytes {
    fn len(&self) -> usize {
        self.bytes.borrow().len()
    }

    fn access(&self) -> MappingAccess {
        MappingAccess::ReadWrite
    }

    fn read(&self, offset: usize, length: usize) -> Result<Vec<u8>, ErrorReport> {
        Ok(self.bytes.borrow()[offset..offset + length].to_vec())
    }

    fn write(&mut self, offset: usize, input: &[u8]) -> Result<(), ErrorReport> {
        self.bytes.borrow_mut()[offset..offset + input.len()].copy_from_slice(input);
        Ok(())
    }

    fn load_u32_acquire(&self, offset: usize) -> Result<u32, ErrorReport> {
        let bytes = self.read(offset, 4)?;
        Ok(u32::from_le_bytes([bytes[0], bytes[1], bytes[2], bytes[3]]))
    }

    fn store_u32_release(&mut self, offset: usize, value: u32) -> Result<(), ErrorReport> {
        self.write(offset, &value.to_le_bytes())
    }
}

#[test]
fn pair_requires_matching_lengths_and_generation() {
    let generation = Generation::new(3).unwrap();
    let first = Descriptor {
        length: 4096,
        generation,
    };
    assert!(RegionPair::new(generation, first.clone(), first).is_ok());
    let stale = Descriptor {
        length: 4096,
        generation: Generation::new(2).unwrap(),
    };
    let current = Descriptor {
        length: 4096,
        generation,
    };
    assert_eq!(
        RegionPair::new(generation, stale, current)
            .err()
            .unwrap()
            .code(),
        ErrorCode::StaleGeneration
    );
}

#[test]
fn descriptor_round_trip_is_fixed_width_and_redacted() {
    let descriptor = IoSurfaceDescriptor {
        surface_id: 7,
        byte_len: 4096,
        generation: Generation::new(2).unwrap(),
    };
    assert!(IoSurfaceDescriptor::decode(&descriptor.encode().unwrap()) == Ok(descriptor));
    assert!(!descriptor.to_text().contains('7'));
    assert_eq!(
        IoSurfaceDescriptor::decode(&[0; DESCRIPTOR_LENGTH])
            .err()
            .unwrap()
            .code(),
        ErrorCode::StaleGeneration
    );
}

#[test]
fn create_attach_and_access_contract() {
    let provider = IoSurfaceProvider::initialize(true).ok().unwrap();
    let generation = Generation::new(1).unwrap();
    let surface = SharedBytes::new(provider.prepare_creation(4096).ok().unwrap() as usize);
    let (mut owner, descriptor) = provider
        .finish_creation(surface.clone(), 9, 4096, generation)
        .ok()
        .unwrap();
    owner.write(17, b"nwipc").unwrap();
    assert_eq!(
        provider.prepare_attachment(&descriptor, generation).ok().unwrap(),
        9
    );
    let mut attached = provider
        .finish_attachment(Some(surface), &descriptor, MappingAccess::ReadOnly)
        .ok()
        .unwrap();
    assert_eq!(attached.read(17, 5).unwrap(), b"nwipc");
    assert_eq!(
        provider
            .prepare_attachment(&descriptor, Generation::new(2).unwrap())
            .err()
            .unwrap()
            .code(),
        ErrorCode::StaleGeneration
    );
    assert_eq!(
        owner.read(4095, 2).unwrap_err().code(),
        ErrorCode::InvalidRange
    );
    assert_eq!(
        attached.write(0, b"x").unwrap_err().code(),
        ErrorCode::RequiredCapabilityMissing
    );
    owner.store_u32_release(8, 77).unwrap();
    assert_eq!(attached.load_u32_acquire(8).unwrap(), 77);
    assert_eq!(
        attached.load_u32_acquire(6).unwrap_err().code(),
        ErrorCode::InvalidAlignment
    );
}

#[test]
fn surfaces_are_unsupported_without_a_platform() {
    let error = IoSurfaceProvider::initialize(false).err().unwrap();
    assert_eq!(error.code(), ErrorCode::Unsupported);
    assert_eq!(error.context(), "initialize IOSurface provider");
}

#[test]
fn surfaces_without_an_identity_or_with_too_few_bytes_are_rejected() {
    let provider = IoSurfaceProvider::initialize(true).ok().unwrap();
    let generation = Generation::new(1).unwrap();
    assert_eq!(
        provider.prepare_creation(0).err().unwrap().code(),
        ErrorCode::InvalidRange
    );
    assert!(provider
        .finish_creation(SharedBytes::new(64), 0, 64, generation)
        .is_err());
    assert!(provider
        .finish_creation(SharedBytes::new(63), 1, 64, generation)
        .is_err());
    let (_owner, descriptor) = provider
        .finish_creation(SharedBytes::new(64), 1, 64, generation)
        .ok()
        .unwrap();
    assert!(provider
        .finish_attachment(None::<SharedBytes>, &descriptor, MappingAccess::ReadOnly)
        .is_err());
}

fn synthetic_descriptor() -> MachMemoryDescriptor {
    MachMemoryDescriptor::new(
        format!("{PREFIX}.synthetic"),
        4096,
        Generation::new(3).unwrap(),
    )
}

#[test]
fn descriptor_round_trip_is_redacted() {
    let descriptor = synthetic_descriptor();
    assert!(
        MachMemoryDescriptor::decode(&descriptor.encode().ok().unwrap()).ok().unwrap()
            == descriptor
    );
    assert!(!descriptor.to_text().contains("synthetic"));
}

#[test]
fn create_attach_and_native_protection_contract() {
    let provider = MachMemoryProvider::initialize(true).ok().unwrap();
    let generation = Generation::new(1).unwrap();
    let memory = SharedBytes::new(4096);

    let allocation = provider.create(4096, MemoryPurpose::Published).ok().unwrap();
    assert_eq!(allocation.size(), 4096);
    let entry = allocation.allocated(Some(0x1000)).ok().unwrap();
    let backed = entry.made(Some((21, 4096))).ok().unwrap();
    let port = backed.publish(generation, Some(vec![0xab; 16])).ok().unwrap();
    let right = port.allocated(Some(22)).ok().unwrap();
    let registration = right.inserted(true, 7, 1).ok().unwrap();
    let start = registration.registered(true).ok().unwrap();
    let retention = start.started(true).ok().unwrap();
    let (rights, descriptor) = retention.retained(true).ok().unwrap();
    assert!(descriptor.service_name().starts_with(PREFIX));
    let mut owner = MachMemoryMapping {
        memory: memory.clone(),
        rights,
        byte_len: 4096,
        access: MappingAccess::ReadWrite,
    };
    owner.write(19, b"nwipc").unwrap();

    assert_eq!(
        provider
            .attach(
                descriptor.clone(),
                Generation::new(2).unwrap(),
                MappingAccess::ReadOnly
            )
            .err()
            .unwrap()
            .code(),
        ErrorCode::StaleGeneration
    );
    let lookup = provider
        .attach(descriptor, generation, MappingAccess::ReadOnly)
        .ok()
        .unwrap();
    let reply = lookup.found(Some(31)).ok().unwrap();
    let call = reply.allocated(Some(32)).ok().unwrap();
    let (waiting, released) = call.sent(true).ok().unwrap();
    assert!(released == NativeRight::Send(31));
    let (mapping, released) = waiting
        .received(Some(EntryResponse {
            descriptor_count: 1,
            descriptor_type: PORT_DESCRIPTOR,
            name: 33,
        }))
        .ok()
        .unwrap();
    assert!(released == NativeRight::Receive(32));
    assert_eq!(mapping.protections(), 1);
    let (rights, _entry) = mapping.mapped(Some(0x9000)).ok().unwrap();
    let mut attached = MachMemoryMapping {
        memory,
        rights,
        byte_len: 4096,
        access: MappingAccess::ReadOnly,
    };
    assert_eq!(attached.read(19, 5).unwrap(), b"nwipc");
    assert_eq!(
        owner.read(4095, 2).unwrap_err().code(),
        ErrorCode::InvalidRange
    );
    assert!(attached.write(0, b"x").is_err());
    assert!(!attached.to_text().contains("9000"));
}

#[test]
fn failed_mach_steps_release_what_they_own() {
    let provider = MachMemoryProvider::initialize(true).ok().unwrap();
    assert_eq!(
        provider.create(0, MemoryPurpose::Published).err().unwrap().code(),
        ErrorCode::InvalidRange
    );
    let failure = provider
        .create(4096, MemoryPurpose::Transferable)
        .ok()
        .unwrap()
        .allocated(Some(0x1000))
        .ok()
        .unwrap()
        .made(None)
        .err()
        .unwrap();
    assert!(failure.release == vec![NativeRight::Memory(0x1000, 4096)]);
    let failure = provider
        .attach(
            synthetic_descriptor(),
            Generation::new(3).unwrap(),
            MappingAccess::ReadWrite,
        )
        .ok()
        .unwrap()
        .found(Some(5))
        .ok()
        .unwrap()
        .allocated(None)
        .err()
        .unwrap();
    assert!(failure.release == vec![NativeRight::Send(5)]);
    assert_eq!(
        MachMemoryProvider::initialize(false).err().unwrap().code(),
        ErrorCode::Unsupported
    );
}

#[test]
fn directions_have_stable_wire_values() {
    assert_eq!(RegionDirection::RendererToPeer.wire_value(), 1);
    assert_eq!(RegionDirection::PeerToRenderer.wire_value(), 2);
}

#[test]
fn surface_mapping_renders_without_its_native_part() {
    let provider = IoSurfaceProvider::initialize(true).ok().unwrap();
    let (mapping, _) = provider
        .finish_creation(SharedBytes::new(64), 1, 64, Generation::new(1).unwrap())
        .ok()
        .unwrap();
    assert_eq!(
        mapping.to_text(),
        "IoSurfaceMapping { native: \"<redacted>\", byte_len: 64, access: ReadWrite, .. }"
    );
}
