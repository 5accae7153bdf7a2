use std::cell::{Cell, RefCell};
use std::rc::Rc;

use nwipc::data_plane::channel::{
    in_process_channel, in_process_channel_with_config, ChannelConfig, ChannelEndpoint,
    ChannelEvent,
};
use nwipc::data_plane::channel_transport::{
    attach_mapped_endpoint, initialize_region, negotiated_channel_config, ChannelTransport,
    SignalSender, TransportEvent, WakeSource,
};
use nwipc::data_plane::fragment::{Fragmenter, Reassembler, Reassembly};
use nwipc::data_plane::mapped_ring::{MappedConsumer, MappedProducer};
use nwipc::data_plane::record::{ParsedRecordHeader, RecordFlags, RecordKind, RECORD_PREFIX_SIZE};
use nwipc::data_plane::region_layout::{
    OwnerRole, RegionExpectation, RegionLayout, REGION_HEADER_SIZE,
};
use nwipc::data_plane::ring_memory::in_process_ring;
use nwipc::data_plane::ring_reader::{ReadItem, RingReader};
use nwipc::data_plane::ring_writer::RingWriter;
use nwipc::domain::capabilities::{
    NegotiatedCapabilities, TransportCapabilities, BINARY_MESSAGES, BOUNDED_BACKPRESSURE,
    DIRECT_SIGNAL, FRAGMENTATION, SHARED_MEMORY_DATA_PLANE,
};
use nwipc::domain::error::{ErrorCode, ErrorReport};
use nwipc::domain::types::{Generation, MessageId, Sequence, SessionId};
use nwipc::memory::api::{MappedRegion, MappingAccess};
use nwipc::protocol::{NegotiatedProtocol, ProtocolVersion};
use nwipc::renderer::TransportDiagnostics;

#[derive(Clone, Copy, PartialEq)]
enum FakeSignalMode {
    Deliver,
    Coalesce,
    Drop,
}

struct FakeSignal {
    mode: FakeSignalMode,
    pending: usize,
}

impl FakeSignal {
    fn new(mode: FakeSignalMode) -> Self {
        FakeSignal { mode, pending: 0 }
    }

    fn notify(&mut self) {
        match self.mode {
            FakeSignalMode::Deliver => self.pending += 1,
            FakeSignalMode::Coalesce => self.pending = 1,
            FakeSignalMode::Drop => {}
        }
    }

    fn pending(&self) -> usize {
        self.pending
    }

    fn try_wait(&mut self) -> bool {
        if self.pending == 0 {
            return false;
        }
        self.pending -= 1;
        true
    }
}

fn channel() -> (ChannelEndpoint, ChannelEndpoint) {
    in_process_channel(128, 64, 32, 96).ok().unwrap()
}

#[test]
fn acquire_release_cursor_publishes_bytes() {
    let (mut producer, mut consumer) = in_process_ring(64).ok().unwrap();
    producer.write(0, b"complete").unwrap();
    assert_eq!(consumer.producer_cursor(), 0);
    producer.publish(8).unwrap();
    assert_eq!(consumer.producer_cursor(), 8);
    assert_eq!(consumer.read(0, 8).unwrap(), b"complete");
    consumer.consume(8).unwrap();
    assert_eq!(producer.consumer_cursor(), 8);
}

#[test]
fn rejects_invalid_capacity_and_ranges() {
    assert!(in_process_ring(7).is_err());
    let (mut producer, consumer) = in_process_ring(64).ok().unwrap();
    assert!(producer.write(63, b"no").is_err());
    assert!(consumer.read(63, 2).is_err());
}

#[test]
fn dropped_signal_does_not_prevent_progress() {
    let (mut endpoint_a, mut endpoint_b) = channel();
    let mut signal = FakeSignal::new(FakeSignalMode::Drop);
    let sent = endpoint_a.send(b"without hint").unwrap();
    if sent.notify {
        signal.notify();
    }
    assert!(!signal.try_wait());
    assert_eq!(
        endpoint_b.receive().unwrap(),
        Some(ChannelEvent::Message(b"without hint".to_vec()))
    );
}

#[test]
fn coalesced_and_duplicate_hints_do_not_change_delivery() {
    let (mut endpoint_a, mut endpoint_b) = channel();
    let mut signal = FakeSignal::new(FakeSignalMode::Coalesce);
    for payload in [b"first".as_slice(), b"second"] {
        if endpoint_a.send(payload).unwrap().notify {
            signal.notify();
        }
    }
    signal.notify();
    assert_eq!(signal.pending(), 1);
    assert!(signal.try_wait());
    assert!(matches!(
        endpoint_b.receive().unwrap(),
        Some(ChannelEvent::Message(_))
    ));
    assert!(matches!(
        endpoint_b.receive().unwrap(),
        Some(ChannelEvent::Message(_))
    ));
    assert_eq!(endpoint_b.receive().unwrap(), None);

    let mut duplicate = FakeSignal::new(FakeSignalMode::Deliver);
    duplicate.notify();
    duplicate.notify();
    assert!(duplicate.try_wait());
    assert_eq!(endpoint_b.receive().unwrap(), None);
    assert!(duplicate.try_wait());
    assert_eq!(endpoint_b.receive().unwrap(), None);
}

#[test]
fn close_is_fifo_and_terminal() {
    let (mut endpoint_a, mut endpoint_b) = channel();
    endpoint_a.send(b"last").unwrap();
    endpoint_a.close().unwrap();
    assert!(matches!(
        endpoint_b.receive().unwrap(),
        Some(ChannelEvent::Message(_))
    ));
    assert_eq!(endpoint_b.receive().unwrap(), Some(ChannelEvent::Closed));
    assert_eq!(
        endpoint_b.send(b"late").unwrap_err().code(),
        ErrorCode::Closed
    );
}

#[test]
fn stress_preserves_bidirectional_fifo_without_signal_progress() {
    const MESSAGES: u32 = 20_000;
    let (mut endpoint_a, mut endpoint_b) = in_process_channel(256, 64, 64, 192).ok().unwrap();
    let mut dropped = FakeSignal::new(FakeSignalMode::Drop);
    for sequence in 0..MESSAGES {
        let mut payload = sequence.to_le_bytes().to_vec();
        payload.resize((sequence as usize % 57) + 4, sequence.to_le_bytes()[0]);
        let sent = if sequence % 2 == 0 {
            endpoint_a.send(&payload).unwrap()
        } else {
            endpoint_b.send(&payload).unwrap()
        };
        if sent.notify {
            dropped.notify();
        }
        let event = if sequence % 2 == 0 {
            endpoint_b.receive().unwrap()
        } else {
            endpoint_a.receive().unwrap()
        };
        assert_eq!(event, Some(ChannelEvent::Message(payload)));
    }
    assert!(!dropped.try_wait());
    assert_eq!(endpoint_a.receive().unwrap(), None);
    assert_eq!(endpoint_b.receive().unwrap(), None);
}

#[test]
fn fragments_and_reassembles_one_logical_message() {
    let config = ChannelConfig {
        capacity: 512,
        maximum_inline_message: 32,
        maximum_message: 100,
        low_watermark: 128,
        high_watermark: 384,
    };
    let (mut sender, mut receiver) = in_process_channel_with_config(config).ok().unwrap();
    let payload = (0_u8..100).collect::<Vec<_>>();
    let sent = sender.send(&payload).unwrap();
    assert!(sent.notify);
    assert_eq!(
        receiver.receive().unwrap(),
        Some(ChannelEvent::Message(payload))
    );
    assert_eq!(receiver.receive().unwrap(), None);
}

#[test]
fn atomic_fragment_backpressure_exposes_no_partial_message() {
    let config = ChannelConfig {
        capacity: 256,
        maximum_inline_message: 32,
        maximum_message: 80,
        low_watermark: 64,
        high_watermark: 240,
    };
    let (mut sender, mut receiver) = in_process_channel_with_config(config).ok().unwrap();
    let first = vec![1; 80];
    sender.send(&first).unwrap();
    assert_eq!(
        sender.send(&[2; 80]).unwrap_err().code(),
        ErrorCode::Backpressured
    );
    assert_eq!(
        receiver.receive().unwrap(),
        Some(ChannelEvent::Message(first))
    );
    assert_eq!(receiver.receive().unwrap(), None);
}

#[test]
fn fragmented_batch_wraps_with_padding_and_preserves_fifo() {
    let config = ChannelConfig {
        capacity: 512,
        maximum_inline_message: 32,
        maximum_message: 100,
        low_watermark: 128,
        high_watermark: 384,
    };
    let (mut sender, mut receiver) = in_process_channel_with_config(config).ok().unwrap();
    for value in 0_u8..8 {
        let payload = [value; 32];
        sender.send(&payload).unwrap();
        assert_eq!(
            receiver.receive().unwrap(),
            Some(ChannelEvent::Message(payload.to_vec()))
        );
    }
    let payload = (0_u8..100).rev().collect::<Vec<_>>();
    sender.send(&payload).unwrap();
    assert_eq!(
        receiver.receive().unwrap(),
        Some(ChannelEvent::Message(payload))
    );
    assert_eq!(receiver.receive().unwrap(), None);
}

#[test]
fn close_discards_an_incomplete_fragment() {
    let config = ChannelConfig {
        capacity: 256,
        maximum_inline_message: 32,
        maximum_message: 80,
        low_watermark: 64,
        high_watermark: 240,
    };
    let (mut sender, mut receiver) = in_process_channel_with_config(config).ok().unwrap();
    let fragmenter = Fragmenter::new(32, 80).ok().unwrap();
    let payload = vec![7; 80];
    let fragments = fragmenter.fragments(&payload).ok().unwrap();
    sender
        .writer
        .send_fragments(RecordKind::Data, &fragments[..1])
        .ok()
        .unwrap();
    sender.close().unwrap();
    assert_eq!(receiver.receive().unwrap(), Some(ChannelEvent::Closed));
    assert!(!receiver.reassembler.is_pending());
}

fn header(
    payload_length: u32,
    message_id: u64,
    sequence: u32,
    flags: RecordFlags,
) -> ParsedRecordHeader {
    ParsedRecordHeader::new(
        payload_length,
        MessageId::new(message_id).unwrap(),
        Sequence::new(sequence),
        RecordKind::Data,
        flags,
    )
    .ok()
    .unwrap()
}

fn terminal() -> RecordFlags {
    RecordFlags::fragmented().union(RecordFlags::end_of_message())
}

#[test]
fn splits_boundaries_without_copying() {
    let fragmenter = Fragmenter::new(4, 10).ok().unwrap();
    let payload = *b"abcdefghij";
    let fragments = fragmenter.fragments(&payload).ok().unwrap();
    assert_eq!(fragments.len(), 3);
    assert_eq!(fragments[0].payload(), b"abcd");
    assert_eq!(fragments[1].payload(), b"efgh");
    assert_eq!(fragments[2].payload(), b"ij");
    assert!(fragments[0].flags() == RecordFlags::fragmented());
    assert!(fragments[2].flags() == terminal());
    assert_eq!(fragmenter.fragments(b"abcd").ok().unwrap().len(), 1);
    assert!(
        fragmenter.fragments(b"abcd").ok().unwrap()[0].flags() == RecordFlags::end_of_message()
    );
}

#[test]
fn reassembles_and_rejects_interleaving() {
    let mut reassembler = Reassembler::new(4, 10).ok().unwrap();
    assert_eq!(
        reassembler.push(header(4, 7, 0, RecordFlags::fragmented()), b"abcd"),
        Ok(Reassembly::Pending)
    );
    assert_eq!(
        reassembler.push(header(2, 7, 1, terminal()), b"ef"),
        Ok(Reassembly::Complete(b"abcdef".to_vec()))
    );

    reassembler
        .push(header(4, 8, 2, RecordFlags::fragmented()), b"abcd")
        .unwrap();
    assert_eq!(
        reassembler
            .push(header(1, 9, 3, RecordFlags::fragmented()), b"e")
            .unwrap_err()
            .code(),
        ErrorCode::ProtocolViolation
    );
    assert!(!reassembler.is_pending());
}

#[test]
fn enforces_size_and_terminal_flag_rules() {
    let fragmenter = Fragmenter::new(4, 6).ok().unwrap();
    assert_eq!(
        fragmenter.fragments(b"1234567").err().unwrap().code(),
        ErrorCode::MessageTooLarge
    );
    let mut reassembler = Reassembler::new(4, 6).ok().unwrap();
    assert_eq!(
        reassembler
            .push(header(1, 1, 0, terminal()), b"x")
            .unwrap_err()
            .code(),
        ErrorCode::ProtocolViolation
    );
    reassembler
        .push(header(4, 1, 0, RecordFlags::fragmented()), b"1234")
        .unwrap();
    assert_eq!(
        reassembler
            .push(header(3, 1, 1, terminal()), b"567")
            .unwrap_err()
            .code(),
        ErrorCode::MessageTooLarge
    );
}

#[test]
fn calculates_aligned_wire_bound() {
    let fragmenter = Fragmenter::new(4, 10).ok().unwrap();
    assert_eq!(fragmenter.maximum_record_length().unwrap(), 32);
    assert_eq!(fragmenter.maximum_wire_bytes().unwrap(), 96);
    assert_eq!(fragmenter.maximum_batch_bytes().unwrap(), 120);
}

#[test]
fn borrows_then_consumes_a_complete_record() {
    let (producer, consumer) = in_process_ring(64).ok().unwrap();
    let mut writer = RingWriter::new(producer, 32);
    let mut reader = RingReader::new(consumer, 32);
    writer
        .send(RecordKind::Data, RecordFlags::end_of_message(), b"hello")
        .ok()
        .unwrap();
    let receipt = match reader.peek().ok().unwrap() {
        ReadItem::Record(record) => {
            assert_eq!(record.payload, b"hello");
            record.receipt()
        }
        _ => panic!("expected record"),
    };
    assert!(reader.consume(receipt).ok().unwrap().drained);
    assert!(matches!(reader.peek().ok().unwrap(), ReadItem::Empty));
}

#[test]
fn skips_explicit_and_implicit_wrap_padding() {
    let (producer, consumer) = in_process_ring(128).ok().unwrap();
    let mut writer = RingWriter::new(producer, 64);
    let mut reader = RingReader::new(consumer, 64);
    for value in 0_u8..5 {
        writer
            .send(RecordKind::Data, RecordFlags::none(), &[])
            .ok()
            .unwrap();
        if value < 4 {
            assert!(reader.receive().ok().unwrap().is_some());
        }
    }
    writer
        .send(RecordKind::Data, RecordFlags::none(), b"implicit")
        .ok()
        .unwrap();
    assert_eq!(reader.receive().ok().unwrap().unwrap().payload, b"");
    assert_eq!(reader.receive().ok().unwrap().unwrap().payload, b"implicit");

    writer
        .send(RecordKind::Data, RecordFlags::none(), b"12345678")
        .ok()
        .unwrap();
    writer
        .send(RecordKind::Data, RecordFlags::none(), b"abcdefgh")
        .ok()
        .unwrap();
    assert_eq!(reader.receive().ok().unwrap().unwrap().payload, b"12345678");
    writer
        .send(RecordKind::Data, RecordFlags::none(), b"explicit-padding")
        .ok()
        .unwrap();
    assert_eq!(reader.receive().ok().unwrap().unwrap().payload, b"abcdefgh");
    assert_eq!(
        reader.receive().ok().unwrap().unwrap().payload,
        b"explicit-padding"
    );
}

#[test]
fn dropped_pending_write_is_not_published() {
    let (producer, consumer) = in_process_ring(64).ok().unwrap();
    let mut writer = RingWriter::new(producer, 32);
    {
        let _pending = writer
            .prepare(RecordKind::Data, RecordFlags::none(), b"partial")
            .ok()
            .unwrap();
    }
    assert_eq!(consumer.producer_cursor(), 0);
    assert_eq!(
        consumer.read(0, RECORD_PREFIX_SIZE).unwrap_err().code(),
        ErrorCode::InvalidRange
    );
}

const CAPACITY: u32 = 1024;
const INLINE: u32 = 32;
const MAXIMUM_MESSAGE: u32 = 80;

#[derive(Clone)]
struct SharedRegion {
    bytes: Rc<RefCell<Vec<u8>>>,
}

impl MappedRegion for SharedRegion {
    fn len(&self) -> usize {
        self.bytes.borrow().len()
    }

    fn access(&self) -> MappingAccess {
        MappingAccess::ReadWrite
    }

    fn read(&self, offset: usize, length: usize) -> Result<Vec<u8>, ErrorReport> {
        Ok(self.bytes.borrow()[offset..offset + length].to_vec())
    }

    fn write(&mut self, offset: usize, input: &[u8]) -> Result<(), ErrorReport> {
        self.bytes.borrow_mut()[offset..offset + input.len()].copy_from_slice(input);
        Ok(())
    }

    fn load_u32_acquire(&self, offset: usize) -> Result<u32, ErrorReport> {
        let bytes = self.read(offset, 4)?;
        Ok(u32::from_le_bytes([bytes[0], bytes[1], bytes[2], bytes[3]]))
    }

    fn store_u32_release(&mut self, offset: usize, value: u32) -> Result<(), ErrorReport> {
        self.write(offset, &value.to_le_bytes())
    }
}

#[derive(Clone)]
struct SharedSignal {
    mode: FakeSignalMode,
    pending: Rc<Cell<u32>>,
}

impl SignalSender for SharedSignal {
    fn notify(&mut self) -> Result<(), ErrorReport> {
        if self.mode != FakeSignalMode::Drop {
            self.pending.set(self.pending.get() + 1);
        }
        Ok(())
    }
}

impl WakeSource for SharedSignal {
    type Cause = bool;

    fn wait_timeout(&mut self, _nanos: u128) -> Result<bool, ErrorReport> {
        Ok(self.pending.replace(0) > 0)
    }

    fn record_drain(&mut self, _cause: bool, _progressed: bool) {}

    fn cancel(&mut self) {}

    fn counters(&self) -> TransportDiagnostics {
        TransportDiagnostics {
            primary_wakeups: 0,
            polling_wakeups: 0,
            coalesced_wakeups: 0,
            polling_recoveries: 0,
            signal_failures: 0,
        }
    }
}

type Endpoint = ChannelEndpoint<MappedProducer<SharedRegion>, MappedConsumer<SharedRegion>>;
type Transport = ChannelTransport<
    MappedProducer<SharedRegion>,
    MappedConsumer<SharedRegion>,
    SharedSignal,
    SharedSignal,
>;

fn session_id() -> SessionId {
    SessionId::from_bytes([7, 0, 0, 0, 0, 0, 0, 0, 0, 0, 0, 0, 0, 0, 0, 1]).unwrap()
}

fn generation() -> Generation {
    Generation::new(4).unwrap()
}

fn protocol(bits: u64) -> NegotiatedProtocol {
    NegotiatedProtocol {
        version: ProtocolVersion::current(),
        capabilities: NegotiatedCapabilities::new(TransportCapabilities::from_bits(bits)),
        maximum_message: MAXIMUM_MESSAGE,
    }
}

fn negotiated() -> NegotiatedProtocol {
    protocol(
        SHARED_MEMORY_DATA_PLANE
            | BINARY_MESSAGES
            | BOUNDED_BACKPRESSURE
            | DIRECT_SIGNAL
            | FRAGMENTATION,
    )
}

fn expectation(owner: OwnerRole) -> RegionExpectation {
    RegionExpectation {
        session_id: session_id(),
        generation: generation(),
        owner,
    }
}

fn region(owner: OwnerRole) -> SharedRegion {
    let total_length = REGION_HEADER_SIZE + CAPACITY as usize;
    let layout = RegionLayout::new(
        session_id(),
        generation(),
        owner,
        total_length as u64,
        INLINE,
    )
    .ok()
    .unwrap();
    let mut region = SharedRegion {
        bytes: Rc::new(RefCell::new(vec![0; total_length])),
    };
    initialize_region(&mut region, layout).unwrap();
    region
}

fn mapped_endpoints() -> (Endpoint, Endpoint) {
    let renderer_to_peer = region(OwnerRole::Renderer);
    let peer_to_renderer = region(OwnerRole::Peer);
    let renderer = attach_mapped_endpoint(
        renderer_to_peer.clone(),
        peer_to_renderer.clone(),
        expectation(OwnerRole::Renderer),
        expectation(OwnerRole::Peer),
        negotiated(),
        256,
        768,
    )
    .ok()
    .unwrap();
    let peer = attach_mapped_endpoint(
        peer_to_renderer,
        renderer_to_peer,
        expectation(OwnerRole::Peer),
        expectation(OwnerRole::Renderer),
        negotiated(),
        256,
        768,
    )
    .ok()
    .unwrap();
    (renderer, peer)
}

fn fake_transports(mode: FakeSignalMode) -> (Transport, Transport) {
    let (renderer, peer) = mapped_endpoints();
    let renderer_to_peer = SharedSignal {
        mode,
        pending: Rc::new(Cell::new(0)),
    };
    let peer_to_renderer = SharedSignal {
        mode,
        pending: Rc::new(Cell::new(0)),
    };
    (
        ChannelTransport::new(
            renderer,
            renderer_to_peer.clone(),
            renderer_to_peer.clone(),
            peer_to_renderer.clone(),
            peer_to_renderer.clone(),
        ),
        ChannelTransport::new(
            peer,
            peer_to_renderer.clone(),
            peer_to_renderer,
            renderer_to_peer.clone(),
            renderer_to_peer,
        ),
    )
}

fn next_event(transport: &mut Transport) -> TransportEvent {
    for _ in 0..20 {
        if let Some(event) = transport.wait_timeout(2_000_000).unwrap() {
            return event;
        }
    }
    panic!("transport made no bounded progress")
}

fn run_contract(renderer: &mut Transport, peer: &mut Transport) {
    let exact = vec![0xa5; INLINE as usize];
    let fragmented = (0..MAXIMUM_MESSAGE)
        .map(|value| u8::try_from(value).unwrap())
        .collect::<Vec<_>>();
    for payload in [&[][..], exact.as_slice(), fragmented.as_slice()] {
        renderer.send(payload).unwrap();
    }
    for expected in [Vec::new(), exact, fragmented] {
        assert_eq!(next_event(peer), TransportEvent::Message(expected));
    }

    let payload = [0x5a; INLINE as usize];
    loop {
        match renderer.send(&payload) {
            Ok(_) => {}
            Err(error) if error.code() == ErrorCode::Backpressured => break,
            Err(error) => panic!("unexpected send failure: {}", error.to_text()),
        }
    }
    while matches!(peer.poll().unwrap(), Some(TransportEvent::Message(_))) {}
    assert_eq!(next_event(renderer), TransportEvent::Writable);

    renderer.close().unwrap();
    assert_eq!(next_event(peer), TransportEvent::Closed);
    peer.reset().unwrap();
    assert_eq!(next_event(renderer), TransportEvent::Reset);
}

#[test]
fn fake_provider_passes_production_transport_contract_with_dropped_signals() {
    let (mut renderer, mut peer) = fake_transports(FakeSignalMode::Drop);
    run_contract(&mut renderer, &mut peer);
}

#[test]
fn delivered_signals_pass_the_same_transport_contract() {
    let (mut renderer, mut peer) = fake_transports(FakeSignalMode::Deliver);
    run_contract(&mut renderer, &mut peer);
}

#[test]
fn fragmentation_requires_the_negotiated_capability() {
    let config = negotiated_channel_config(
        CAPACITY,
        INLINE,
        256,
        768,
        protocol(SHARED_MEMORY_DATA_PLANE | BINARY_MESSAGES | BOUNDED_BACKPRESSURE),
    )
    .ok()
    .unwrap();
    assert_eq!(config.maximum_message, INLINE);
}

#[test]
fn mapped_regions_of_another_owner_are_rejected() {
    let renderer_to_peer = region(OwnerRole::Renderer);
    let peer_to_renderer = region(OwnerRole::Peer);
    assert!(attach_mapped_endpoint(
        peer_to_renderer,
        renderer_to_peer,
        expectation(OwnerRole::Renderer),
        expectation(OwnerRole::Peer),
        negotiated(),
        256,
        768,
    )
    .is_err());
}

#[test]
fn the_wire_bound_is_met_by_the_largest_message() {
    let fragmenter = Fragmenter::new(4, 10).ok().unwrap();
    let fragments = fragmenter.fragments(&[7; 10]).ok().unwrap();
    let sizes: Vec<usize> = fragments
        .iter()
        .map(|fragment| (RECORD_PREFIX_SIZE as usize + fragment.payload().len()).div_ceil(8) * 8)
        .collect();
    assert_eq!(sizes, [32, 32, 32]);
    assert_eq!(
        sizes.iter().sum::<usize>(),
        fragmenter.maximum_wire_bytes().unwrap() as usize
    );
}

#[test]
fn receipts_are_consumed_once() {
    let (producer, consumer) = in_process_ring(128).ok().unwrap();
    let mut writer = RingWriter::new(producer, 32);
    let mut reader = RingReader::new(consumer, 32);
    for payload in [&b"hello"[..], &b"world"[..]] {
        writer
            .send(RecordKind::Data, RecordFlags::end_of_message(), payload)
            .ok()
            .unwrap();
    }
    let receipt = match reader.peek().ok().unwrap() {
        ReadItem::Record(record) => record.receipt(),
        _ => panic!("expected record"),
    };
    let outcome = reader.consume(receipt).ok().unwrap();
    assert_eq!(outcome.remaining, 32);
    assert!(!outcome.drained);
    let error = reader.consume(receipt).err().unwrap();
    assert_eq!(error.code(), ErrorCode::InvalidCursor);
    assert_eq!(error.context(), "stale read receipt");
    match reader.peek().ok().unwrap() {
        ReadItem::Record(record) => assert_eq!(record.payload, b"world"),
        _ => panic!("expected record"),
    }
}

#[test]
fn interleaved_messages_stay_whole_and_in_order() {
    let (mut left, mut right) = in_process_channel_with_config(ChannelConfig {
        capacity: 256,
        maximum_inline_message: 8,
        maximum_message: 24,
        low_watermark: 64,
        high_watermark: 200,
    })
    .ok()
    .unwrap();
    let mut sent = 0_u8;
    let mut received = 0_u8;
    for round in 0_u8..60 {
        for _ in 0..=round % 2 {
            if left.send(&vec![sent; (sent % 25) as usize]).is_ok() {
                sent += 1;
            }
        }
        match right.receive().ok().unwrap() {
            Some(ChannelEvent::Message(message)) => {
                assert_eq!(message, vec![received; (received % 25) as usize]);
                received += 1;
            }
            Some(_) => panic!("expected a message"),
            None => assert_eq!(received, sent),
        }
    }
    while let Some(event) = right.receive().ok().unwrap() {
        match event {
            ChannelEvent::Message(message) => {
                assert_eq!(message, vec![received; (received % 25) as usize]);
                received += 1;
            }
            _ => panic!("expected a message"),
        }
    }
    assert!(received > 40);
    assert_eq!(received, sent);
}

struct Unreadable;

impl MappedRegion for Unreadable {
    fn len(&self) -> usize {
        8
    }

    fn access(&self) -> MappingAccess {
        MappingAccess::ReadWrite
    }

    fn read(&self, _offset: usize, _length: usize) -> Result<Vec<u8>, ErrorReport> {
        Err(ErrorReport::unsupported("read short region"))
    }

    fn write(&mut self, _offset: usize, _input: &[u8]) -> Result<(), ErrorReport> {
        Err(ErrorReport::unsupported("write short region"))
    }

    fn load_u32_acquire(&self, _offset: usize) -> Result<u32, ErrorReport> {
        Err(ErrorReport::unsupported("load short region"))
    }

    fn store_u32_release(&mut self, _offset: usize, _value: u32) -> Result<(), ErrorReport> {
        Err(ErrorReport::unsupported("store short region"))
    }
}

#[test]
fn the_outbound_mapping_is_validated_before_the_inbound_one_is_read() {
    let attach = |outbound: SharedRegion| {
        attach_mapped_endpoint(
            outbound,
            Unreadable,
            expectation(OwnerRole::Renderer),
            expectation(OwnerRole::Peer),
            negotiated(),
            256,
            768,
        )
        .err()
        .unwrap()
    };
    let malformed = region(OwnerRole::Renderer);
    malformed.bytes.borrow_mut()[0] ^= 0xff;
    assert_ne!(attach(malformed).context(), "read short region");
    assert_eq!(
        attach(region(OwnerRole::Renderer)).context(),
        "read short region"
    );
}

#[test]
fn records_follow_each_other_on_the_ring() {
    let (producer, consumer) = in_process_ring(64).ok().unwrap();
    let mut writer = RingWriter::new(producer, 32);
    let mut reader = RingReader::new(consumer, 32);
    let end = RecordFlags::end_of_message();
    for (payload, cursor) in [(&b"hello"[..], 32), (&b"world"[..], 64)] {
        writer.send(RecordKind::Data, end, payload).ok().unwrap();
        assert_eq!(writer.memory.producer_cursor(), cursor);
    }
    let refused = writer.send(RecordKind::Data, end, b"third");
    assert_eq!(refused.err().unwrap().code(), ErrorCode::Backpressured);
    assert_eq!(writer.memory.producer_cursor(), 64);
    assert_eq!(reader.receive().ok().unwrap().unwrap().payload, b"hello");
    assert_eq!(reader.memory.consumer_cursor(), 32);
    writer.send(RecordKind::Data, end, b"third").ok().unwrap();
    assert_eq!(writer.memory.producer_cursor(), 96);
    assert_eq!(reader.receive().ok().unwrap().unwrap().payload, b"world");
    assert_eq!(reader.receive().ok().unwrap().unwrap().payload, b"third");
    assert_eq!(reader.memory.consumer_cursor(), 96);
    assert!(reader.receive().ok().unwrap().is_none());
}
