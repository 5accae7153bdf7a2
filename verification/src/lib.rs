//! Host-relay-free shared-memory IPC between a `WebKit` renderer and a native peer.
//!
//! The crate holds the transport's rules: wire formats, ring accounting, lifecycle tables,
//! negotiation, frame protection and session bookkeeping. Each rule is stated as a contract and
//! proved. Native resources are reached by the programs around it.
#![allow(clippy::new_without_default)]

pub mod adapters;
pub mod bootstrap;
pub mod data_plane;
pub mod domain;
pub mod facade;
pub mod macos;
pub mod memory;
pub mod observability;
pub mod peer;
pub mod protocol;
pub mod renderer;
