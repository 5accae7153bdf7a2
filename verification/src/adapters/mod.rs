//! Control-plane adapters of host frameworks.

pub mod appkit;
pub mod registry;
pub mod tauri;
pub mod wry;
