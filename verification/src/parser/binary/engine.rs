//! The event engine: what the parser does next, as a function of its state.

use vstd::prelude::*;
use super::error::{Error, IoError};
use super::event::attribute::array::read_array;
use super::event::attribute::special::read_special_attribute;
use super::event::attribute::{
    array_kind_of, is_special, parse_attribute, primitive_len, read_primitive, Attribute,
    AttributeModel,
};
use super::event::{
    node_header_len, parse_footer, parse_header, parse_node_header, read_fbx_header,
    read_node_header, Event, EventBuilder, EventModel, FbxFooter, NodeHeader, StartNodeBuilder,
};
use super::primitive::decode_u32;
use super::state::{lemma_parser_view, BinaryParser, ParserModel, ParserState};

verus! {

broadcast use lemma_parser_view;

impl ParserModel {
    /// The parse after the cursor has left the attributes of the node just
    /// started, read or not.
    pub open spec fn leave_attributes(self) -> Result<ParserModel, Error> {
        match self.attrs_end {
            Some(end) => if end > self.bytes.len() {
                Err(Error::Io(IoError::UnexpectedEof))
            } else {
                Ok(
                    ParserModel {
                        position: end as nat,
                        attrs_end: None,
                        attrs_remaining: 0,
                        value_end: None,
                        ..self
                    },
                )
            },
            None => Ok(self),
        }
    }

    /// The step taken when the cursor stands behind the header of a node: the
    /// name is read and the node becomes the innermost open node.
    pub open spec fn open_node(self, header: NodeHeader) -> (
        ParserModel,
        Result<EventModel, Error>,
    ) {
        let name_end = self.position + header.len_name as nat;
        let attrs_end = name_end + header.len_attributes as nat;
        if attrs_end > header.end_offset || (self.depth() > 0 && header.end_offset
            > self.top_end()) {
            (self.failed(), Err(Error::MalformedSubtree))
        } else if name_end > self.bytes.len() {
            (self.failed(), Err(Error::Io(IoError::UnexpectedEof)))
        } else {
            (
                ParserModel {
                    position: name_end,
                    open_nodes: self.open_nodes.push(header.end_offset),
                    attrs_end: Some(attrs_end as u64),
                    attrs_remaining: header.num_attributes,
                    value_end: None,
                    ..self
                },
                Ok(
                    EventModel::StartNode(
                        self.bytes.subrange(self.position as int, name_end as int),
                    ),
                ),
            )
        }
    }

    /// The step taken when the cursor stands behind the all-zero header that
    /// ends the children of the innermost open node.
    pub open spec fn close_node(self) -> (ParserModel, Result<EventModel, Error>)
        recommends
            self.depth() > 0,
    {
        if self.position != self.top_end() {
            (self.failed(), Err(Error::MalformedSubtree))
        } else {
            (
                ParserModel { open_nodes: self.open_nodes.drop_last(), ..self },
                Ok(EventModel::EndNode),
            )
        }
    }

    /// The step taken when the cursor stands behind the all-zero header that
    /// ends the top-level nodes: the footer is read and checked.
    pub open spec fn close_document(self) -> (ParserModel, Result<EventModel, Error>)
        recommends
            self.fbx_version is Some,
    {
        match parse_footer(self.rest(), self.position, self.fbx_version->0) {
            Ok(outcome) => (
                ParserModel { state: ParserState::AfterFooter, ..self.after_footer(outcome) },
                Ok(EventModel::EndFbx(outcome.footer)),
            ),
            Err(e) => (self.failed(), Err(e)),
        }
    }

    /// The step taken inside the document when the cursor stands where a node
    /// header is due.
    pub open spec fn next_node(self) -> (ParserModel, Result<EventModel, Error>)
        recommends
            self.fbx_version is Some,
    {
        let version = self.fbx_version->0;
        match read_node_header(self.rest(), version) {
            Ok(header) => {
                let after = self.advance(node_header_len(version));
                if header.is_node_end() {
                    if self.depth() == 0 {
                        after.close_document()
                    } else {
                        after.close_node()
                    }
                } else {
                    after.open_node(header)
                }
            },
            Err(e) => (self.failed(), Err(Error::Io(e))),
        }
    }

    /// The parse after the next event has been asked for, and that event or
    /// the error that ended the parse.
    pub open spec fn next_event(self) -> (ParserModel, Result<EventModel, Error>) {
        match self.state {
            ParserState::BeforeHeader => match parse_header(self.rest()) {
                Ok(header) => (self.after_header(header), Ok(EventModel::StartFbx(header))),
                Err(e) => (self.failed(), Err(e)),
            },
            ParserState::InDocument => match self.leave_attributes() {
                Ok(children) => children.next_node(),
                Err(e) => (self.failed(), Err(e)),
            },
            _ => (self, Err(Error::Finished)),
        }
    }

    /// The parse after the innermost open node has been skipped, and whether
    /// that succeeded.
    pub open spec fn skip_current_node(self) -> (ParserModel, Result<(), Error>) {
        match self.state {
            ParserState::BeforeHeader => (self, Ok(())),
            ParserState::InDocument => if self.depth() == 0 {
                (self, Ok(()))
            } else if self.top_end() > self.bytes.len() {
                (self.failed(), Err(Error::Io(IoError::UnexpectedEof)))
            } else {
                (
                    ParserModel {
                        position: self.top_end() as nat,
                        open_nodes: self.open_nodes.drop_last(),
                        attrs_end: None,
                        attrs_remaining: 0,
                        value_end: None,
                        ..self
                    },
                    Ok(()),
                )
            },
            _ => (self, Err(Error::Finished)),
        }
    }

    /// Offset at which the next attribute of the node just started begins.
    pub open spec fn attribute_start(self) -> nat {
        match self.value_end {
            Some(end) => end as nat,
            None => self.position,
        }
    }

    /// The parse after the next attribute of the node just started has been
    /// asked for, and that attribute, `None` when the node has no more, or the
    /// error that ended the parse.
    pub open spec fn read_attribute(self) -> (ParserModel, Result<Option<AttributeModel>, Error>) {
        let start = self.attribute_start();
        if !(self.state is InDocument) || self.attrs_remaining == 0 {
            (self, Ok(None))
        } else if start > self.bytes.len() {
            (self.failed(), Err(Error::Io(IoError::UnexpectedEof)))
        } else {
            match parse_attribute(self.bytes.skip(start as int), start) {
                Ok(outcome) => if outcome.end > self.attrs_end->0 {
                    (self.at(start).failed(), Err(Error::MalformedSubtree))
                } else {
                    (
                        ParserModel {
                            position: start + outcome.consumed,
                            attrs_remaining: (self.attrs_remaining - 1) as u64,
                            value_end: if outcome.attribute is Special {
                                Some(outcome.end as u64)
                            } else {
                                None
                            },
                            ..self
                        },
                        Ok(Some(outcome.attribute)),
                    )
                },
                Err(e) => (self.at(start).failed(), Err(e)),
            }
        }
    }
}

/// Asking for the next event keeps the engine's invariant.
pub proof fn lemma_next_event_wf(m: ParserModel)
    requires
        m.wf(),
    ensures
        m.next_event().0.wf(),
{
    let next = m.next_event().0;
    if m.state is InDocument {
        if let Ok(children) = m.leave_attributes() {
            let version = m.fbx_version->0;
            if let Ok(header) = read_node_header(children.rest(), version) {
                let after = children.advance(node_header_len(version));
                if !header.is_node_end() {
                    if next.state is InDocument {
                        assert forall|i: int, j: int|
                            0 <= i <= j < next.open_nodes.len() implies next.open_nodes[j]
                            <= next.open_nodes[i] by {
                            if j == next.open_nodes.len() - 1 && i < j {
                                assert(m.open_nodes[i] >= m.open_nodes[m.open_nodes.len() - 1]);
                            }
                        }
                    }
                } else if m.depth() > 0 {
                    if next.state is InDocument {
                        assert(next.open_nodes == m.open_nodes.drop_last());
                        if next.depth() > 0 {
                            assert(m.open_nodes[next.depth() - 1] >= m.open_nodes[m.depth() - 1]);
                        }
                    }
                }
            }
        }
    }
}

/// One event changes the number of open nodes by one or not at all: a
/// `StartNode` opens a node, an `EndNode` closes one that was open, and every
/// other event or error leaves the number as it was.
pub proof fn lemma_event_changes_depth(m: ParserModel)
    requires
        m.wf(),
    ensures
        m.next_event().1 matches Ok(EventModel::StartNode(_)) ==> m.next_event().0.depth()
            == m.depth() + 1,
        m.next_event().1 matches Ok(EventModel::EndNode) ==> m.depth() > 0
            && m.next_event().0.depth() == m.depth() - 1,
        !(m.next_event().1 matches Ok(EventModel::StartNode(_))) && !(m.next_event().1 matches Ok(
            EventModel::EndNode,
        )) ==> m.next_event().0.depth() == m.depth(),
        m.next_event().1 matches Ok(EventModel::EndFbx(_)) ==> m.depth() == 0
            && m.next_event().0.state is AfterFooter,
{
}

/// Skipping the innermost open node keeps the engine's invariant.
pub proof fn lemma_skip_current_node_wf(m: ParserModel)
    requires
        m.wf(),
    ensures
        m.skip_current_node().0.wf(),
{
    let next = m.skip_current_node().0;
    if m.state is InDocument && m.depth() > 0 && next.state is InDocument {
        if next.depth() > 0 {
            assert(m.open_nodes[next.depth() - 1] >= m.open_nodes[m.depth() - 1]);
        }
    }
}

/// Asking for the next attribute keeps the engine's invariant.
pub proof fn lemma_read_attribute_wf(m: ParserModel)
    requires
        m.wf(),
    ensures
        m.read_attribute().0.wf(),
{
}


impl BinaryParser {
    /// Ends the parse with the given error.
    fn fail<T>(&mut self, error: Error) -> (r: Result<T, Error>)
        ensures
            final(self)@ == old(self)@.failed(),
            r == Err::<T, Error>(error),
    {
        self.state = ParserState::Failed;
        Err(error)
    }

    /// Reads the name of the node whose header has just been read and makes
    /// the node the innermost open node.
    fn open_node(&mut self, header: NodeHeader) -> (r: Result<EventBuilder, Error>)
        requires
            old(self)@.in_bounds(),
        ensures
            final(self)@ == old(self)@.open_node(header).0,
            match old(self)@.open_node(header).1 {
                Ok(model) => r matches Ok(builder) && builder@ == model,
                Err(e) => r == Err::<EventBuilder, Error>(e),
            },
    {
        let position: u64 = self.source.count();
        let name_end: u128 = position as u128 + header.len_name as u128;
        let attrs_end: u128 = name_end + header.len_attributes as u128;
        let depth: usize = self.open_nodes.len();
        if attrs_end > header.end_offset as u128 || (depth > 0 && header.end_offset
            > self.open_nodes[depth - 1]) {
            return self.fail(Error::MalformedSubtree);
        }
        let ghost before = self@;
        match self.source.read_exact(header.len_name as usize) {
            Ok(name) => {
                assert(name@ =~= before.bytes.subrange(
                    before.position as int,
                    before.position + header.len_name,
                ));
                self.open_nodes.push(header.end_offset);
                self.attrs_end = Some(attrs_end as u64);
                self.attrs_remaining = header.num_attributes;
                self.value_end = None;
                Ok(EventBuilder::StartNode(StartNodeBuilder { name }))
            },
            Err(e) => self.fail(Error::Io(e)),
        }
    }

    /// Produces the next event without a reference to the parser.
    ///
    /// Before the header this reads the header. Inside the document it leaves
    /// the attributes of the node just started, reads a node header and either
    /// opens the node, closes the innermost open node or, at the top level,
    /// reads the footer. Any failure ends the parse.
    pub fn next_event_builder(&mut self) -> (r: Result<EventBuilder, Error>)
        requires
            old(self)@.wf(),
        ensures
            final(self)@ == old(self)@.next_event().0,
            final(self)@.wf(),
            match old(self)@.next_event().1 {
                Ok(model) => r matches Ok(builder) && builder@ == model,
                Err(e) => r == Err::<EventBuilder, Error>(e),
            },
            r matches Ok(EventBuilder::StartNode(_)) ==> final(self)@.depth() == old(self)@.depth()
                + 1,
            r matches Ok(EventBuilder::EndNode) ==> final(self)@.depth() + 1 == old(self)@.depth(),
    {
        proof {
                    lemma_next_event_wf(self@);
            lemma_event_changes_depth(self@);
        }
        match self.state {
            ParserState::BeforeHeader => match read_fbx_header(self) {
                Ok(header) => Ok(EventBuilder::StartFbx(header)),
                Err(e) => self.fail(e),
            },
            ParserState::InDocument => {
                if let Some(end) = self.attrs_end {
                    match self.source.skip_to(end) {
                        Ok(()) => {
                            self.attrs_end = None;
                            self.attrs_remaining = 0;
                            self.value_end = None;
                        },
                        Err(e) => {
                            return self.fail(Error::Io(e));
                        },
                    }
                }
                let header = match NodeHeader::read_from_parser(self) {
                    Ok(header) => header,
                    Err(e) => {
                        return self.fail(Error::Io(e));
                    },
                };
                let depth: usize = self.open_nodes.len();
                if !header.is_node_end() {
                    self.open_node(header)
                } else if depth == 0 {
                    match FbxFooter::read_from_parser(self) {
                        Ok(footer) => {
                            self.state = ParserState::AfterFooter;
                            Ok(EventBuilder::EndFbx(footer))
                        },
                        Err(e) => self.fail(e),
                    }
                } else if self.source.count() != self.open_nodes[depth - 1] {
                    self.fail(Error::MalformedSubtree)
                } else {
                    self.open_nodes.pop();
                    Ok(EventBuilder::EndNode)
                }
            },
            _ => Err(Error::Finished),
        }
    }

    /// Produces the next event.
    ///
    /// The events of a document are `StartFbx`, then the nodes in pre-order,
    /// each as a `StartNode`, its children and an `EndNode`, then `EndFbx`.
    pub fn next_event<'a>(&'a mut self) -> (r: Result<Event<'a>, Error>)
        requires
            old(self)@.wf(),
        ensures
            old(self)@.next_event().0.wf(),
            match old(self)@.next_event().1 {
                Ok(model) => r matches Ok(event) && event@ == model && match event {
                    Event::StartNode(node) => node.parser@ == old(self)@.next_event().0
                        && *final(self) == *final(node.parser),
                    _ => final(self)@ == old(self)@.next_event().0,
                },
                Err(e) => r == Err::<Event<'a>, Error>(e)
                    && final(self)@ == old(self)@.next_event().0,
            },
            r matches Ok(Event::StartNode(_)) ==> old(self)@.next_event().0.depth() == old(
                self,
            )@.depth() + 1,
            r matches Ok(Event::EndNode) ==> old(self)@.next_event().0.depth() + 1 == old(
                self,
            )@.depth(),
    {
        match self.next_event_builder() {
            Ok(builder) => Ok(builder.build(self)),
            Err(e) => Err(e),
        }
    }

    /// Skips what is left of the innermost open node, attributes and children
    /// alike, and closes it without an `EndNode` event.
    ///
    /// Does nothing when no node is open. Fails, ending the parse, when the
    /// document ends before the node does.
    pub fn skip_current_node(&mut self) -> (r: Result<(), Error>)
        requires
            old(self)@.wf(),
        ensures
            final(self)@ == old(self)@.skip_current_node().0,
            final(self)@.wf(),
            r == old(self)@.skip_current_node().1,
            r is Ok && old(self)@.state is InDocument && old(self)@.depth() > 0
                ==> final(self)@.position == old(self)@.top_end()
                && final(self)@.depth() == old(self)@.depth() - 1,
    {
        proof {
            lemma_skip_current_node_wf(self@);
        }
        match self.state {
            ParserState::BeforeHeader => Ok(()),
            ParserState::InDocument => {
                let depth: usize = self.open_nodes.len();
                if depth == 0 {
                    return Ok(());
                }
                let end: u64 = self.open_nodes[depth - 1];
                match self.source.skip_to(end) {
                    Ok(()) => {
                        self.open_nodes.pop();
                        self.attrs_end = None;
                        self.attrs_remaining = 0;
                        self.value_end = None;
                        Ok(())
                    },
                    Err(e) => self.fail(Error::Io(e)),
                }
            },
            _ => Err(Error::Finished),
        }
    }
}


impl BinaryParser {
    /// Records that an attribute ending at `end` has been read, `consumed`
    /// bytes of it so far, unless it runs past the attributes of its node.
    fn accept_attribute(&mut self, consumed: usize, end: u64, special: bool) -> (r: Result<
        (),
        Error,
    >)
        requires
            old(self)@.in_bounds(),
            old(self)@.attrs_end is Some,
            old(self)@.attrs_remaining > 0,
            old(self)@.position + consumed <= old(self)@.bytes.len(),
        ensures
            r is Ok <==> end <= old(self)@.attrs_end->0,
            r matches Err(e) ==> e == Error::MalformedSubtree
                && final(self)@ == old(self)@.failed(),
            r is Ok ==> final(self)@ == (ParserModel {
                position: old(self)@.position + consumed as nat,
                attrs_remaining: (old(self)@.attrs_remaining - 1) as u64,
                value_end: if special {
                    Some(end)
                } else {
                    None
                },
                ..old(self)@
            }),
    {
        let bound: u64 = match self.attrs_end {
            Some(bound) => bound,
            None => 0,
        };
        if end > bound {
            return self.fail(Error::MalformedSubtree);
        }
        self.source.advance(consumed);
        self.attrs_remaining = self.attrs_remaining - 1;
        self.value_end = if special {
            Some(end)
        } else {
            None
        };
        Ok(())
    }

    /// Reads the next attribute of the node just started.
    ///
    /// Returns `None` when the node has no more attributes or no node has just
    /// been started. A string or binary value is handed out unread; what the
    /// caller leaves of it is skipped before the next attribute is read. Any
    /// failure ends the parse.
    pub fn read_attribute<'a>(&'a mut self) -> (r: Result<Option<Attribute<'a>>, Error>)
        requires
            old(self)@.wf(),
        ensures
            old(self)@.read_attribute().0.wf(),
            match old(self)@.read_attribute().1 {
                Ok(Some(model)) => r matches Ok(Some(attribute)) && attribute@ == model
                    && match attribute {
                    Attribute::Special(special) => special.parser@ == old(self)@.read_attribute().0
                        && special.wf() && *final(self) == *final(special.parser),
                    _ => final(self)@ == old(self)@.read_attribute().0,
                },
                Ok(None) => r matches Ok(None) && final(self)@ == old(self)@,
                Err(e) => r == Err::<Option<Attribute<'a>>, Error>(e)
                    && final(self)@ == old(self)@.read_attribute().0,
            },
    {
        proof {
            lemma_read_attribute_wf(self@);
        }
        if self.state != ParserState::InDocument || self.attrs_remaining == 0 {
            return Ok(None);
        }
        if let Some(end) = self.value_end {
            match self.source.skip_to(end) {
                Ok(()) => {},
                Err(e) => {
                    return self.fail(Error::Io(e));
                },
            }
        }
        let start: u64 = self.source.count();
        let rest = self.source.peek();
        if rest.len() < 1 {
            return self.fail(Error::Io(IoError::UnexpectedEof));
        }
        let type_code: u8 = rest[0];
        let body = vstd::slice::slice_subrange(rest, 1, rest.len());
        assert(body@ =~= rest@.skip(1));
        if let Some(len) = primitive_len(type_code) {
            match read_primitive(type_code, body) {
                Ok(value) => {
                    match self.accept_attribute(1 + len, start + 1 + len as u64, false) {
                        Ok(()) => Ok(Some(Attribute::Primitive(value))),
                        Err(e) => Err(e),
                    }
                },
                Err(e) => self.fail(Error::Io(e)),
            }
        } else if let Some(kind) = array_kind_of(type_code) {
            match read_array(kind, body) {
                Ok((array, len)) => {
                    match self.accept_attribute(1 + len, start + 1 + len as u64, false) {
                        Ok(()) => Ok(Some(Attribute::Array(array))),
                        Err(e) => Err(e),
                    }
                },
                Err(e) => self.fail(e),
            }
        } else if is_special(type_code) {
            if body.len() < 4 {
                return self.fail(Error::Io(IoError::UnexpectedEof));
            }
            let byte_length: u32 = decode_u32(body, 0);
            assert(body@.skip(0) =~= body@);
            if byte_length as u64 > u64::MAX - 5 - start {
                return self.fail(Error::Io(IoError::UnexpectedEof));
            }
            match self.accept_attribute(1, start + 5 + byte_length as u64, true) {
                Ok(()) => {},
                Err(e) => {
                    return Err(e);
                },
            }
            match read_special_attribute(self, type_code) {
                Ok((special, _)) => Ok(Some(Attribute::Special(special))),
                Err(e) => Err(Error::Io(e)),
            }
        } else {
            self.fail(Error::UnknownAttributeType(type_code))
        }
    }
}


/// The cursor only moves forward: an event leaves the document as it is and
/// the cursor where it was or further on, and further on whenever an event is
/// handed out.
pub proof fn lemma_next_event_advances(m: ParserModel)
    requires
        m.wf(),
    ensures
        m.next_event().0.bytes == m.bytes,
        m.next_event().0.position >= m.position,
        m.next_event().1 is Ok ==> m.next_event().0.position > m.position,
{
}

/// Skipping a node leaves the document as it is and the cursor where it was or
/// further on.
pub proof fn lemma_skip_current_node_advances(m: ParserModel)
    requires
        m.wf(),
    ensures
        m.skip_current_node().0.bytes == m.bytes,
        m.skip_current_node().0.position >= m.position,
{
}

/// Reading an attribute leaves the document as it is and the cursor where it
/// was or further on.
pub proof fn lemma_read_attribute_advances(m: ParserModel)
    requires
        m.wf(),
    ensures
        m.read_attribute().0.bytes == m.bytes,
        m.read_attribute().0.position >= m.position,
{
}

impl ParserModel {
    /// `self` and `other` are at the same point of documents that are alike
    /// from the cursor on: what has been consumed and the warnings may differ,
    /// everything else is the same.
    pub open spec fn alike_from_cursor(self, other: ParserModel) -> bool {
        &&& self.bytes.len() == other.bytes.len()
        &&& self.position == other.position
        &&& self.rest() == other.rest()
        &&& self.fbx_version == other.fbx_version
        &&& self.state == other.state
        &&& self.open_nodes == other.open_nodes
        &&& self.attrs_end == other.attrs_end
        &&& self.attrs_remaining == other.attrs_remaining
        &&& self.value_end == other.value_end
    }
}

/// What lies at or beyond `start`, which the cursor has not passed, is the
/// same in two parses that are alike from the cursor on.
proof fn lemma_alike_beyond(a: ParserModel, b: ParserModel, start: int)
    requires
        a.alike_from_cursor(b),
        a.position <= start <= a.bytes.len(),
    ensures
        a.bytes.skip(start) == b.bytes.skip(start),
        forall|end: int|
            start <= end <= a.bytes.len() ==> a.bytes.subrange(start, end) == b.bytes.subrange(
                start,
                end,
            ),
{
    assert(a.bytes.skip(start) =~= a.rest().skip(start - a.position));
    assert(b.bytes.skip(start) =~= b.rest().skip(start - b.position));
    assert forall|end: int| start <= end <= a.bytes.len() implies a.bytes.subrange(start, end)
        == b.bytes.subrange(start, end) by {
        assert(a.bytes.subrange(start, end) =~= a.bytes.skip(start).take(end - start));
        assert(b.bytes.subrange(start, end) =~= b.bytes.skip(start).take(end - start));
    }
}

/// The parser only looks ahead: the next event and the parse behind it depend
/// on what lies from the cursor on and not on what has been consumed, nor on
/// the warnings on record.
pub proof fn lemma_next_event_looks_ahead(a: ParserModel, b: ParserModel)
    requires
        a.wf(),
        b.wf(),
        a.alike_from_cursor(b),
    ensures
        a.next_event().1 == b.next_event().1,
        a.next_event().0.alike_from_cursor(b.next_event().0),
{
    lemma_next_event_wf(a);
    lemma_next_event_wf(b);
    lemma_next_event_advances(a);
    lemma_next_event_advances(b);
    if a.state is InDocument {
        if let Ok(children) = a.leave_attributes() {
            let others = b.leave_attributes()->Ok_0;
            lemma_alike_beyond(a, b, children.position as int);
            assert(children.alike_from_cursor(others));
            let version = a.fbx_version->0;
            let len = node_header_len(version);
            if children.rest().len() >= len {
                lemma_alike_beyond(a, b, (children.position + len) as int);
                assert(children.advance(len).alike_from_cursor(others.advance(len)));
            }
        }
    }
    assert(a.next_event().1 == b.next_event().1);
    assert(a.next_event().0.position == b.next_event().0.position);
    lemma_alike_beyond(a, b, a.next_event().0.position as int);
}

/// The parser only looks ahead: skipping a node depends on what lies from the
/// cursor on and not on what has been consumed, nor on the warnings on record.
pub proof fn lemma_skip_current_node_looks_ahead(a: ParserModel, b: ParserModel)
    requires
        a.wf(),
        b.wf(),
        a.alike_from_cursor(b),
    ensures
        a.skip_current_node().1 == b.skip_current_node().1,
        a.skip_current_node().0.alike_from_cursor(b.skip_current_node().0),
{
    lemma_skip_current_node_wf(a);
    lemma_skip_current_node_advances(a);
    lemma_alike_beyond(a, b, a.skip_current_node().0.position as int);
}

/// The parser only looks ahead: the next attribute depends on what lies from
/// the cursor on and not on what has been consumed, nor on the warnings on
/// record.
pub proof fn lemma_read_attribute_looks_ahead(a: ParserModel, b: ParserModel)
    requires
        a.wf(),
        b.wf(),
        a.alike_from_cursor(b),
    ensures
        a.read_attribute().1 == b.read_attribute().1,
        a.read_attribute().0.alike_from_cursor(b.read_attribute().0),
{
    lemma_read_attribute_wf(a);
    lemma_read_attribute_advances(a);
    let start = a.attribute_start();
    if a.state is InDocument && a.attrs_remaining > 0 && start <= a.bytes.len() {
        lemma_alike_beyond(a, b, start as int);
    }
    assert(a.read_attribute().1 == b.read_attribute().1);
    assert(a.read_attribute().0.position == b.read_attribute().0.position);
    lemma_alike_beyond(a, b, a.read_attribute().0.position as int);
}

} // verus!
