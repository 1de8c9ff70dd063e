//! Decoder for the binary FBX scene-interchange format, verified with Verus.
//!
//! A document is a header, a tree of named nodes, each with a list of typed
//! attributes, and a footer. The [`parser`] module turns the bytes of a
//! document into a strictly ordered stream of events and decodes attributes on
//! demand; the [`loader`] module assembles typed records from that stream.
//!
//! Every executable function has a contract over a mathematical model: the
//! bytes of the document as a sequence, and the state of a parse as a
//! [`parser::binary::ParserModel`]. What the parser does next is a function of
//! that state, and what a loader yields is a fold over the children of a node.
//! On top of the contracts stand theorems about whole runs: node events nest
//! and pair up, leaving a node by any route puts the cursor on the node's end
//! offset, the parser only ever looks ahead of its cursor, and a footer is
//! found again whatever padding its position calls for.

pub mod loader;
pub mod parser;
