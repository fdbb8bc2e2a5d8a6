//! Container-side logic: raw data access, the directory converter, the
//! index built from a tar archive's entries, and a writer for tests.

pub mod directory;
pub mod io;
pub mod mock_writer;
pub mod tar_index;
