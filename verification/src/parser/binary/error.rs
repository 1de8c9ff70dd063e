//! Errors and warnings of the binary parser.

use vstd::prelude::*;

verus! {

/// Failure of the underlying byte source.
#[derive(Debug, Clone, Copy, PartialEq, Eq, Structural)]
pub enum IoError {
    /// The source ended before the requested bytes were available.
    UnexpectedEof,
    /// The bytes were read but are not valid for the requested type.
    InvalidData,
}

/// Fatal parse error.
#[derive(Debug, Clone, Copy, PartialEq, Eq, Structural)]
pub enum Error {
    /// The byte source failed.
    Io(IoError),
    /// The document does not start with the FBX binary magic.
    MagicMismatch,
    /// The footer does not have a layout the parser understands.
    BrokenFooter,
    /// The version stored in the footer differs from the one in the header.
    HeaderFooterVersionMismatch {
        /// Version read from the header.
        header: u32,
        /// Version read from the footer.
        footer: u32,
    },
    /// A node attribute carries a type code the format does not define.
    UnknownAttributeType(u8),
    /// An array attribute carries an encoding the format does not define.
    UnknownArrayEncoding(u32),
    /// The payload of an array attribute does not hold the declared elements.
    BrokenArray,
    /// An attribute was requested as a type other than the stored one.
    AttributeTypeMismatch,
    /// The recorded extent of a node does not match its contents.
    MalformedSubtree,
    /// The parser has already emitted its last event or has failed.
    Finished,
}

/// Non-fatal deviation from the format.
#[derive(Debug, Clone, Copy, PartialEq, Eq, Structural)]
pub enum Warning {
    /// The two bytes after the magic are not `0x1a 0x00`.
    UnexpectedMarkerBytes(u8, u8),
    /// The footer lacks the zero padding that aligns it to 16 bytes.
    MissingFooterPadding {
        /// Number of padding bytes the position called for.
        expected: u8,
    },
}

} // verus!
