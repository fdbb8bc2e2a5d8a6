//! The tile-pipeline engine: streams, sources, composed operations, the
//! factory that builds them from the declarative language, and the reader
//! that fronts a built pipeline.

pub mod factory;
pub mod operation;
pub mod reader;
pub mod source;
pub mod stream;
pub mod vectortiles_update_properties;
