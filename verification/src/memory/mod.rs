//! Shared-memory contracts and descriptors.

pub mod api;
pub mod bounds;
pub mod iosurface;
pub mod mach;
pub mod region;
