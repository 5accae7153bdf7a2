//! Shared-memory rings, channels, chunk pools and frame protection.

pub mod channel;
pub mod channel_model;
pub mod channel_pair;
pub mod channel_transport;
pub mod chunk_pool;
pub mod crypto;
pub mod flow_control;
pub mod fragment;
pub mod layout;
pub mod mapped_ring;
pub mod record;
pub mod region_layout;
pub mod ring_core;
pub mod ring_memory;
pub mod ring_model;
pub mod ring_reader;
pub mod ring_writer;
