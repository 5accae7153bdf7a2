//! One-shot bootstrap of an endpoint.

pub mod codec;
pub mod peer;
pub mod renderer;
pub mod schema;
