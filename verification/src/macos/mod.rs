//! macOS capability transfer, rendezvous, injected bundle and host.

pub mod artifact;
pub mod bundle;
pub mod bundle_api;
pub mod bundle_shim;
pub mod configuration;
pub mod host;
pub mod mach_rendezvous;
pub mod mach_transfer;
pub mod prepared;
pub mod renderer_transport;
pub mod rights;
pub mod spi;
pub mod transport;
