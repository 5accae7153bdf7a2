//! Values shared by every layer.

pub mod bytes;
pub mod capabilities;
pub mod error;
pub mod state;
pub mod text;
pub mod text_map;
pub mod types;
