//! Path and namespace-list helpers.

pub mod filesystem;
pub mod namespace_sort;
