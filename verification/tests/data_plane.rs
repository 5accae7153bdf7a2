use std::sync::atomic::AtomicU32;

use nwipc::data_plane::channel::{
    in_process_channel, in_process_channel_with_config, ChannelConfig, ChannelEndpoint,
    ChannelEvent,
};
use nwipc::data_plane::chunk_pool::{chunk_pool, share_pool, PoolDiagnostics, PoolState};
use nwipc::data_plane::flow_control::FlowControl;
use nwipc::data_plane::ring_core::RingSnapshot;
use nwipc::data_plane::ring_memory::{in_process_ring, SharedAtomic};
use nwipc::domain::error::ErrorCode;

fn channel() -> (ChannelEndpoint, ChannelEndpoint) {
    in_process_channel(128, 64, 32, 96).unwrap_or_else(|_| panic!())
}

#[test]
fn exchanges_bidirectional_fifo_messages() {
    let (mut endpoint_a, mut endpoint_b) = channel();
    endpoint_a.send(b"one").unwrap();
    endpoint_a.send(b"two").unwrap();
    endpoint_b.send(b"reply").unwrap();
    assert_eq!(
        endpoint_b.receive().unwrap(),
        Some(ChannelEvent::Message(b"one".to_vec()))
    );
    assert_eq!(
        endpoint_b.receive().unwrap(),
        Some(ChannelEvent::Message(b"two".to_vec()))
    );
    assert_eq!(
        endpoint_a.receive().unwrap(),
        Some(ChannelEvent::Message(b"reply".to_vec()))
    );
}

#[test]
fn backpressure_recovers_with_one_writable_edge() {
    let (mut endpoint_a, mut endpoint_b) = channel();
    for payload in [b"one".as_slice(), b"two", b"three"] {
        endpoint_a.send(payload).unwrap();
    }
    assert_eq!(
        endpoint_a.send(b"blocked").unwrap_err().code(),
        ErrorCode::Backpressured
    );
    endpoint_b.receive().unwrap();
    assert!(!endpoint_a.refresh_flow().unwrap().became_writable);
    endpoint_b.receive().unwrap();
    assert!(endpoint_a.refresh_flow().unwrap().became_writable);
    assert!(!endpoint_a.refresh_flow().unwrap().became_writable);
    endpoint_a.send(b"again").unwrap();
}

#[test]
fn rejects_impossible_fragment_configuration() {
    let result = in_process_channel_with_config(ChannelConfig {
        capacity: 128,
        maximum_inline_message: 32,
        maximum_message: 80,
        low_watermark: 32,
        high_watermark: 96,
    });
    assert_eq!(result.err().unwrap().code(), ErrorCode::InvalidRange);
}

#[test]
fn loans_commits_borrows_and_releases_without_payload_copy() {
    let (mut producer, mut consumer) = chunk_pool(2, 16).unwrap_or_else(|_| panic!());
    let mut loan = producer.loan(5).unwrap_or_else(|_| panic!());
    loan.payload_mut().copy_from_slice(b"hello");
    loan.commit().unwrap();

    let received = consumer.receive().unwrap_or_else(|_| panic!()).unwrap_or_else(|| panic!());
    assert_eq!(received.payload(), b"hello");
    received.release();
    assert_eq!(
        producer.diagnostics().unwrap(),
        PoolDiagnostics {
            chunk_count: 2,
            free: 2,
            loaned: 0,
            ready: 0,
            received: 0,
        }
    );
}

#[test]
fn dropped_loan_returns_capacity_and_ready_chunks_apply_backpressure() {
    let (mut producer, mut consumer) = chunk_pool(1, 4).unwrap_or_else(|_| panic!());
    drop(producer.loan(4).unwrap_or_else(|_| panic!()));
    producer.loan(4).unwrap_or_else(|_| panic!()).commit().unwrap();
    let error = match producer.loan(1) {
        Ok(_) => panic!("expected backpressure"),
        Err(error) => error,
    };
    assert_eq!(error.code(), ErrorCode::Backpressured);
    assert_eq!(
        consumer
            .receive()
            .unwrap_or_else(|_| panic!())
            .unwrap_or_else(|| panic!())
            .payload(),
        &[0; 4]
    );
    assert!(producer.loan(1).is_ok());
}

#[test]
fn rejects_invalid_configuration_and_oversized_loan() {
    assert!(chunk_pool(0, 1).is_err());
    assert!(chunk_pool(1, 0).is_err());
    let (mut producer, _) = chunk_pool(1, 4).unwrap_or_else(|_| panic!());
    let error = match producer.loan(5) {
        Ok(_) => panic!("expected oversized loan rejection"),
        Err(error) => error,
    };
    assert_eq!(error.code(), ErrorCode::MessageTooLarge);
}

#[test]
fn emits_one_writable_edge_with_hysteresis() {
    let mut flow = FlowControl::new(100, 25, 75).unwrap_or_else(|_| panic!());
    assert!(flow.update(75).unwrap().backpressured);
    assert!(!flow.update(30).unwrap().became_writable);
    assert!(flow.update(25).unwrap().became_writable);
    assert!(!flow.update(20).unwrap().became_writable);
}

#[test]
fn computes_used_and_free_across_cursor_wrap() {
    let snapshot = RingSnapshot::new(64, 16, u32::MAX - 15).unwrap_or_else(|_| panic!());
    assert_eq!(snapshot.used(), 32);
    assert_eq!(snapshot.free(), 32);
}

#[test]
fn plans_exact_fit_and_wrapped_records() {
    let exact = RingSnapshot::new(64, 0, 0)
        .unwrap_or_else(|_| panic!())
        .plan_write(64)
        .unwrap_or_else(|_| panic!());
    assert_eq!(exact.record_offset, 0);
    assert_eq!(exact.publish_cursor, 64);

    let wrapped = RingSnapshot::new(64, 48, 32)
        .unwrap_or_else(|_| panic!())
        .plan_write(32)
        .unwrap_or_else(|_| panic!());
    assert_eq!(wrapped.padding_length, 16);
    assert_eq!(wrapped.record_offset, 0);
    assert_eq!(wrapped.publish_cursor, 96);
}

#[test]
fn rejects_one_byte_short_and_corrupt_distance() {
    assert_eq!(
        RingSnapshot::new(64, 40, 0)
            .unwrap_or_else(|_| panic!())
            .plan_write(32)
            .err()
            .unwrap()
            .code(),
        ErrorCode::Backpressured
    );
    assert_eq!(
        RingSnapshot::new(64, 65, 0).err().unwrap().code(),
        ErrorCode::InvalidCursor
    );
}

#[test]
fn shared_words_are_loaded_stored_and_advanced() {
    let word = AtomicU32::new(7);
    let shared = SharedAtomic::new(&word);
    assert_eq!(shared.load_acquire(), 7);
    shared.store_release(9);
    assert_eq!(shared.fetch_add_acq_rel(2), 9);
    assert_eq!(word.into_inner(), 11);
}

#[test]
fn committed_payloads_are_received_in_order_past_dropped_loans() {
    let (mut producer, mut consumer) = chunk_pool(3, 4).unwrap_or_else(|_| panic!());
    let mut received = 0_u8;
    for value in 0_u8..9 {
        drop(producer.loan(2).unwrap_or_else(|_| panic!()));
        let mut loan = producer.loan(3).unwrap_or_else(|_| panic!());
        loan.payload_mut().fill(value);
        loan.commit().unwrap();
        if value % 2 == 1 {
            for _ in 0..2 {
                let chunk =
                    consumer.receive().unwrap_or_else(|_| panic!()).unwrap_or_else(|| panic!());
                assert_eq!(chunk.payload(), [received; 3]);
                chunk.release();
                received += 1;
            }
        }
    }
    let last = consumer.receive().unwrap_or_else(|_| panic!()).unwrap_or_else(|| panic!());
    assert_eq!(last.payload(), [8; 3]);
    drop(last);
    assert!(consumer.receive().unwrap_or_else(|_| panic!()).is_none());
    assert_eq!(
        producer.diagnostics().unwrap(),
        PoolDiagnostics {
            chunk_count: 3,
            free: 3,
            loaned: 0,
            ready: 0,
            received: 0,
        }
    );
}

#[test]
fn pools_are_made_over_reserved_memory() {
    let state = PoolState::over(vec![vec![9, 9], Vec::new(), vec![1; 7]], 4);
    assert_eq!(
        state.diagnostics(),
        PoolDiagnostics {
            chunk_count: 3,
            free: 3,
            loaned: 0,
            ready: 0,
            received: 0,
        }
    );
    let (mut producer, mut consumer) = share_pool(state);
    assert_eq!(producer.chunk_capacity(), 4);
    assert_eq!(consumer.chunk_capacity(), 4);
    assert_eq!(
        producer.loan(4).unwrap_or_else(|_| panic!()).payload(),
        [0; 4]
    );
    let mut loan = producer.loan(2).unwrap_or_else(|_| panic!());
    loan.payload_mut().copy_from_slice(b"ab");
    loan.commit().unwrap();
    let chunk = consumer.receive().unwrap_or_else(|_| panic!()).unwrap_or_else(|| panic!());
    assert_eq!(chunk.payload(), b"ab");
}

#[test]
fn both_directions_deliver_only_what_was_taken() {
    let (mut left, mut right) = channel();
    let mut taken = Vec::new();
    let mut refused = 0;
    for value in 0_u8..12 {
        match left.send(&[value; 20]) {
            Ok(_) => taken.push(vec![value; 20]),
            Err(error) => {
                assert_eq!(error.code(), ErrorCode::Backpressured);
                refused += 1;
            }
        }
        right.send(&[value]).ok().unwrap();
        match left.receive().ok().unwrap() {
            Some(ChannelEvent::Message(message)) => assert_eq!(message, [value]),
            _ => panic!("expected a message"),
        }
        if value % 3 == 2 {
            while let Some(event) = right.receive().ok().unwrap() {
                match event {
                    ChannelEvent::Message(message) => assert_eq!(message, taken.remove(0)),
                    _ => panic!("expected a message"),
                }
            }
            left.refresh_flow().ok().unwrap();
        }
    }
    assert!(refused > 0);
    assert!(taken.is_empty());
    assert!(right.receive().ok().unwrap().is_none());
}

#[test]
fn handles_of_one_ring_see_each_other() {
    let (mut producer, mut consumer) = in_process_ring(64).ok().unwrap();
    producer.write(0, b"abcdefgh").ok().unwrap();
    assert_eq!(
        consumer.read(0, 8).err().unwrap().code(),
        ErrorCode::InvalidRange
    );
    producer.publish(8).ok().unwrap();
    assert_eq!(consumer.producer_cursor(), 8);
    assert_eq!(consumer.read(2, 4).ok().unwrap(), b"cdef");
    consumer.consume(4).ok().unwrap();
    assert_eq!(producer.consumer_cursor(), 4);
    assert_eq!(
        consumer.consume(12).err().unwrap().code(),
        ErrorCode::InvalidCursor
    );
    assert_eq!(
        producer.publish(69).err().unwrap().code(),
        ErrorCode::InvalidCursor
    );
    assert_eq!(
        producer.write(8, &[0; 61]).err().unwrap().code(),
        ErrorCode::InvalidRange
    );
}

#[test]
fn each_handle_owns_its_cursor() {
    let (mut producer, mut consumer) = in_process_ring(64).ok().unwrap();
    assert_eq!(producer.producer_cursor(), 0);
    assert_eq!(consumer.consumer_cursor(), 0);
    producer.write(0, &[7; 48]).ok().unwrap();
    assert_eq!(producer.producer_cursor(), 0);
    producer.publish(48).ok().unwrap();
    assert_eq!(producer.producer_cursor(), 48);
    assert_eq!(consumer.producer_cursor(), 48);
    assert_eq!(
        producer.publish(65).err().unwrap().code(),
        ErrorCode::InvalidCursor
    );
    assert_eq!(producer.producer_cursor(), 48);
    consumer.consume(40).ok().unwrap();
    assert_eq!(consumer.consumer_cursor(), 40);
    assert_eq!(
        consumer.consume(49).err().unwrap().code(),
        ErrorCode::InvalidCursor
    );
    assert_eq!(consumer.consumer_cursor(), 40);
    producer.publish(104).ok().unwrap();
    assert_eq!(producer.producer_cursor(), 104);
    assert_eq!(producer.consumer_cursor(), 40);
}
