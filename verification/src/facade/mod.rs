//! Provider-erased public configuration, session, renderer, peer-bootstrap, and diagnostics API.

pub mod catalog;
pub mod configuration;
pub mod record;
pub mod session;
pub mod runtime;
pub mod transport;
