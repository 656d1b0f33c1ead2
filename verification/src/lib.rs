//! The indexing core of a music library: which files of a directory tree are
//! audio files, what a file's tags resolve to, which statements record a file
//! in the catalog, and what a scan reports.
//!
//! Nothing here touches the file system or the store. The caller walks the
//! tree, reads the files and runs the statements; this crate decides.

pub mod catalog;
pub mod cover;
pub mod error;
pub mod filter;
pub mod laws;
pub mod number;
pub mod record;
pub mod scan;
pub mod status;
pub mod store;
pub mod tags;
pub mod text;
