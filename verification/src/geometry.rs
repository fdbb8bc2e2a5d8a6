//! The vector-tile data model and its binary codec.

pub mod codec;
pub mod model;
pub mod types;
