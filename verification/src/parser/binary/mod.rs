//! Pull parser for binary FBX documents.
//!
//! * [`reader`] and [`primitive`]: the cursor over the bytes and the
//!   little-endian decoders.
//! * [`event`]: header, footer, node header, attributes, and the events.
//! * [`state`] and [`engine`]: the parser, its model and its transitions.
//! * [`subtree`] and [`utils`]: parsing confined to one node, and attributes
//!   read as values of a requested type.
//! * [`run`]: what holds of whole runs of the parser.

pub mod engine;
pub mod error;
pub mod event;
pub mod primitive;
pub mod reader;
pub mod run;
pub mod state;
pub mod subtree;
pub mod utils;

pub use self::reader::CountReader;
pub use self::state::{BinaryParser, ParserModel, ParserState};
