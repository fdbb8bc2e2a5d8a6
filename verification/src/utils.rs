//! Helpers shared across the toolkit: compression codecs and the blob
//! conversion pipeline.

pub mod compression;
pub mod convert;
pub mod image;
pub mod strings;
