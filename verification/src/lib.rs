//! Verified core of a PHP namespace prefixer: the data model of discovered
//! symbols and files, the configuration resolution, and the rewriting rules.

pub mod strs;
pub mod types;
pub mod helpers;
pub mod sorting;
pub mod config;
pub mod unicode;
pub mod matching;
pub mod replacer;
pub mod pipeline;
pub mod parser;
