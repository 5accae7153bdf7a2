//! Native peer endpoint.

pub mod port;
pub mod asynchronous;
pub mod facade;
