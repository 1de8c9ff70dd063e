//! Parsers for FBX documents.

pub mod binary;
