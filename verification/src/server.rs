//! The HTTP-facing side of the toolkit: the tile source behind a mount
//! point, and the static-folder source.

pub mod container;
pub mod folder;
