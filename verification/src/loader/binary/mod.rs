//! Loaders for binary FBX documents.

pub mod simple;
