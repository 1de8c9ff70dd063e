//! Loaders for the nodes of FBX 7.4 documents.

pub mod fbx_header_extension;
pub mod takes;
pub mod properties70;
pub mod definitions;
