//! Loaders that assemble typed records from parser events.

pub mod binary;
