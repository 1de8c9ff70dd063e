//! State of a parse and its mathematical model.

use vstd::prelude::*;
use super::error::Warning;
use super::reader::CountReader;

verus! {

/// Where a parse stands in the document.
#[derive(Debug, Clone, Copy, PartialEq, Eq, Structural)]
pub enum ParserState {
    /// Nothing has been read yet.
    BeforeHeader,
    /// The header has been read and the footer has not.
    InDocument,
    /// The footer has been read; the parse is complete.
    AfterFooter,
    /// A fatal error has ended the parse.
    Failed,
}

/// Mathematical model of a [`BinaryParser`]: the document and everything the
/// parser remembers about its progress through it.
pub struct ParserModel {
    /// All bytes of the document.
    pub bytes: Seq<u8>,
    /// Number of bytes consumed so far.
    pub position: nat,
    /// Version read from the header, once it has been read.
    pub fbx_version: Option<u32>,
    /// Where the parse stands.
    pub state: ParserState,
    /// End offsets of the nodes that are open, outermost first.
    pub open_nodes: Seq<u64>,
    /// Offset at which the attributes of the node just started end; `None`
    /// once the parser has moved on to the node's children.
    pub attrs_end: Option<u64>,
    /// Number of attributes of the node just started that are still unread.
    pub attrs_remaining: u64,
    /// End offset of the string or binary value handed out last, while the
    /// cursor may still lie inside that value.
    pub value_end: Option<u64>,
    /// Warnings collected so far, oldest first.
    pub warnings: Seq<Warning>,
}

impl ParserModel {
    /// The model of a parser that has just been created over `bytes`.
    pub open spec fn initial(bytes: Seq<u8>) -> ParserModel {
        ParserModel {
            bytes,
            position: 0,
            fbx_version: None,
            state: ParserState::BeforeHeader,
            open_nodes: Seq::empty(),
            attrs_end: None,
            attrs_remaining: 0,
            value_end: None,
            warnings: Seq::empty(),
        }
    }

    /// The cursor lies within the document.
    pub open spec fn in_bounds(self) -> bool {
        self.position <= self.bytes.len()
    }

    /// The bytes not yet consumed.
    pub open spec fn rest(self) -> Seq<u8> {
        self.bytes.skip(self.position as int)
    }

    /// Number of bytes not yet consumed.
    pub open spec fn unread(self) -> nat {
        if self.position <= self.bytes.len() {
            (self.bytes.len() - self.position) as nat
        } else {
            0
        }
    }

    /// Number of open nodes.
    pub open spec fn depth(self) -> nat {
        self.open_nodes.len()
    }

    /// End offset of the innermost open node.
    pub open spec fn top_end(self) -> u64
        recommends
            self.depth() > 0,
    {
        self.open_nodes.last()
    }

    /// The farthest offset the cursor may reach before the parser has to
    /// decide what comes next.
    pub open spec fn limit(self) -> int {
        match self.value_end {
            Some(e) => e as int,
            None => match self.attrs_end {
                Some(e) => e as int,
                None => if self.depth() > 0 {
                    self.top_end() as int
                } else {
                    self.position as int
                },
            },
        }
    }

    /// Every open node ends no later than the node that contains it.
    pub open spec fn nested(self) -> bool {
        forall|i: int, j: int|
            0 <= i <= j < self.open_nodes.len() ==> self.open_nodes[j] <= self.open_nodes[i]
    }

    /// The invariant of the event engine.
    pub open spec fn wf(self) -> bool {
        &&& self.in_bounds()
        &&& self.state is BeforeHeader ==> self.fbx_version is None
        &&& self.state is InDocument ==> self.fbx_version is Some
        &&& self.state is BeforeHeader || self.state is AfterFooter ==> self.depth() == 0
        &&& self.nested()
        &&& self.depth() == 0 ==> self.attrs_end is None
        &&& self.attrs_end is None ==> self.attrs_remaining == 0 && self.value_end is None
        &&& self.state is InDocument ==> self.position <= self.limit()
        &&& self.state is InDocument ==> (self.value_end matches Some(v)
            ==> self.attrs_end matches Some(a) && v <= a)
        &&& self.state is InDocument ==> (self.attrs_end matches Some(a) ==> a <= self.top_end())
    }

    /// The same parse with the cursor `n` bytes further on.
    pub open spec fn advance(self, n: nat) -> ParserModel {
        ParserModel { position: self.position + n, ..self }
    }

    /// The same parse with the cursor at `position`.
    pub open spec fn at(self, position: nat) -> ParserModel {
        ParserModel { position, ..self }
    }

    /// The same parse after it has been ended by a fatal error.
    pub open spec fn failed(self) -> ParserModel {
        ParserModel { state: ParserState::Failed, ..self }
    }

    /// The same parse with `warning`, if there is one, added to the record.
    pub open spec fn warned(self, warning: Option<Warning>) -> ParserModel {
        match warning {
            Some(w) => ParserModel { warnings: self.warnings.push(w), ..self },
            None => self,
        }
    }
}

/// Event engine over the bytes of one binary FBX document.
#[derive(Debug)]
pub struct BinaryParser {
    pub(crate) source: CountReader,
    pub(crate) fbx_version: Option<u32>,
    pub(crate) state: ParserState,
    pub(crate) open_nodes: Vec<u64>,
    pub(crate) attrs_end: Option<u64>,
    pub(crate) attrs_remaining: u64,
    pub(crate) value_end: Option<u64>,
    pub(crate) warnings: Vec<Warning>,
}

impl View for BinaryParser {
    type V = ParserModel;

    closed spec fn view(&self) -> ParserModel {
        ParserModel {
            bytes: self.source.bytes(),
            position: self.source.position(),
            fbx_version: self.fbx_version,
            state: self.state,
            open_nodes: self.open_nodes@,
            attrs_end: self.attrs_end,
            attrs_remaining: self.attrs_remaining,
            value_end: self.value_end,
            warnings: self.warnings@,
        }
    }
}

/// Spells out the model of a parser in terms of the parser's parts.
pub(crate) broadcast proof fn lemma_parser_view(parser: BinaryParser)
    ensures
        #[trigger] parser@ == (ParserModel {
            bytes: parser.source.bytes(),
            position: parser.source.position(),
            fbx_version: parser.fbx_version,
            state: parser.state,
            open_nodes: parser.open_nodes@,
            attrs_end: parser.attrs_end,
            attrs_remaining: parser.attrs_remaining,
            value_end: parser.value_end,
            warnings: parser.warnings@,
        }),
{
}

impl BinaryParser {
    /// Creates a parser over the bytes of a document.
    pub fn new(data: Vec<u8>) -> (parser: BinaryParser)
        ensures
            parser@ == ParserModel::initial(data@),
            parser@.wf(),
    {
        BinaryParser {
            source: CountReader::new(data),
            fbx_version: None,
            state: ParserState::BeforeHeader,
            open_nodes: Vec::new(),
            attrs_end: None,
            attrs_remaining: 0,
            value_end: None,
            warnings: Vec::new(),
        }
    }

    /// Records a non-fatal deviation from the format.
    pub fn warn(&mut self, warning: Warning)
        ensures
            final(self)@ == old(self)@.warned(Some(warning)),
    {
        self.warnings.push(warning);
    }

    /// Returns the number of bytes consumed so far.
    pub fn position(&self) -> (n: u64)
        ensures
            n == self@.position,
    {
        self.source.count()
    }

    /// Returns the version read from the header, if it has been read.
    pub fn fbx_version(&self) -> (version: Option<u32>)
        ensures
            version == self@.fbx_version,
    {
        self.fbx_version
    }

    /// Returns where the parse stands.
    pub fn state(&self) -> (state: ParserState)
        ensures
            state == self@.state,
    {
        self.state
    }

    /// Returns the number of open nodes.
    pub fn depth(&self) -> (depth: usize)
        ensures
            depth == self@.depth(),
    {
        self.open_nodes.len()
    }

    /// Returns the warnings collected so far, oldest first.
    pub fn warnings(&self) -> (warnings: &Vec<Warning>)
        ensures
            warnings@ == self@.warnings,
    {
        &self.warnings
    }
}

} // verus!
