//! The data model: discovered symbols and files, and per-file references.

pub mod discovered_files;
pub mod file;
pub mod file_references;
pub mod symbol;
pub mod symbols_collection;
