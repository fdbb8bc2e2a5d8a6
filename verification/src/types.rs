//! Core data model: tile formats and compressions, coordinates, bounding
//! boxes and pyramids, and opaque byte payloads.

pub mod bbox;
pub mod blob;
pub mod coord;
pub mod format;
pub mod pyramid;
