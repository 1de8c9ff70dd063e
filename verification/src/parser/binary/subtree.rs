//! Parser confined to the subtree of one node.

use vstd::prelude::*;
use super::engine::lemma_skip_current_node_advances;
use super::error::Error;
use super::event::attribute::{Attribute, AttributeModel};
use super::event::{Event, EventModel};
use super::state::{BinaryParser, ParserModel};

verus! {

impl ParserModel {
    /// The subtree that was entered at depth `initial_depth` has been left.
    pub open spec fn left_subtree(self, initial_depth: nat) -> bool {
        self.depth() < initial_depth
    }

    /// What asking for the next event yields within the subtree that was
    /// entered at depth `initial_depth`.
    pub open spec fn next_event_within(self, initial_depth: nat) -> (
        ParserModel,
        Result<EventModel, Error>,
    ) {
        if self.left_subtree(initial_depth) {
            (self, Err(Error::Finished))
        } else {
            self.next_event()
        }
    }

    /// What skipping the innermost open node yields within the subtree that
    /// was entered at depth `initial_depth`.
    #[verifier::opaque]
    pub open spec fn skip_current_node_within(self, initial_depth: nat) -> (
        ParserModel,
        Result<(), Error>,
    ) {
        if self.left_subtree(initial_depth) {
            (self, Err(Error::Finished))
        } else {
            self.skip_current_node()
        }
    }

    /// What asking for the next attribute yields within the subtree that was
    /// entered at depth `initial_depth`.
    pub open spec fn read_attribute_within(self, initial_depth: nat) -> (
        ParserModel,
        Result<Option<AttributeModel>, Error>,
    ) {
        if self.left_subtree(initial_depth) {
            (self, Ok(None))
        } else {
            self.read_attribute()
        }
    }
}

/// View of a parser that reaches no further than the end of one node.
///
/// It is made when that node is the innermost open node. It hands out the
/// events of the node's children and the node's own `EndNode`, and nothing
/// after that.
#[derive(Debug)]
pub struct SubtreeParser<'a> {
    /// The parser of the whole document.
    pub root: &'a mut BinaryParser,
    /// Number of nodes that were open when the view was made.
    pub initial_depth: usize,
}

impl BinaryParser {
    /// Returns a parser confined to the innermost open node.
    pub fn subtree_parser<'a>(&'a mut self) -> (subtree: SubtreeParser<'a>)
        ensures
            *subtree.root == *old(self),
            subtree.initial_depth == old(self)@.depth(),
            *final(self) == *final(subtree.root),
    {
        let initial_depth: usize = self.depth();
        SubtreeParser { root: self, initial_depth }
    }
}

impl<'a> SubtreeParser<'a> {
    /// Tells whether the subtree has been left, so that no more events come.
    pub fn is_finished(&self) -> (b: bool)
        ensures
            b == old(self.root)@.left_subtree(self.initial_depth as nat),
    {
        self.root.depth() < self.initial_depth
    }

    /// Produces the next event of the subtree.
    ///
    /// Fails with [`Error::Finished`], leaving the parser as it was, once the
    /// `EndNode` of the subtree's own node has been handed out.
    pub fn next_event<'b>(&'b mut self) -> (r: Result<Event<'b>, Error>)
        requires
            old(self).root@.wf(),
        ensures
            final(self).initial_depth == old(self).initial_depth,
            *final(final(self).root) == *final(old(self).root),
            old(self).root@.next_event_within(old(self).initial_depth as nat).0.wf(),
            match old(self).root@.next_event_within(old(self).initial_depth as nat).1 {
                Ok(model) => r matches Ok(event) && event@ == model && match event {
                    Event::StartNode(node) => node.parser@ == old(self).root@.next_event_within(
                        old(self).initial_depth as nat,
                    ).0 && *final(self).root == *final(node.parser),
                    _ => final(self).root@ == old(self).root@.next_event_within(
                        old(self).initial_depth as nat,
                    ).0,
                },
                Err(e) => r == Err::<Event<'b>, Error>(e) && final(self).root@ == old(
                    self,
                ).root@.next_event_within(old(self).initial_depth as nat).0,
            },
    {
        if self.root.depth() < self.initial_depth {
            return Err(Error::Finished);
        }
        self.root.next_event()
    }

    /// Skips what is left of the innermost open node and closes it.
    ///
    /// Fails with [`Error::Finished`], leaving the parser as it was, once the
    /// subtree has been left.
    pub fn skip_current_node(&mut self) -> (r: Result<(), Error>)
        requires
            old(self).root@.wf(),
        ensures
            final(self).initial_depth == old(self).initial_depth,
            *final(final(self).root) == *final(old(self).root),
            final(self).root@ == old(self).root@.skip_current_node_within(
                old(self).initial_depth as nat,
            ).0,
            final(self).root@.wf(),
            final(self).root@.bytes == old(self).root@.bytes,
            final(self).root@.position >= old(self).root@.position,
            r == old(self).root@.skip_current_node_within(old(self).initial_depth as nat).1,
    {
        proof {
            reveal(ParserModel::skip_current_node_within);
            lemma_skip_current_node_advances(self.root@);
        }
        if self.root.depth() < self.initial_depth {
            return Err(Error::Finished);
        }
        self.root.skip_current_node()
    }

    /// Reads the next attribute of the node just started.
    ///
    /// Returns `None` once the subtree has been left.
    pub fn read_attribute<'b>(&'b mut self) -> (r: Result<Option<Attribute<'b>>, Error>)
        requires
            old(self).root@.wf(),
        ensures
            final(self).initial_depth == old(self).initial_depth,
            *final(final(self).root) == *final(old(self).root),
            old(self).root@.read_attribute_within(old(self).initial_depth as nat).0.wf(),
            match old(self).root@.read_attribute_within(old(self).initial_depth as nat).1 {
                Ok(Some(model)) => r matches Ok(Some(attribute)) && attribute@ == model
                    && match attribute {
                    Attribute::Special(special) => special.parser@ == old(
                        self,
                    ).root@.read_attribute_within(old(self).initial_depth as nat).0 && special.wf()
                        && *final(self).root == *final(special.parser),
                    _ => final(self).root@ == old(self).root@.read_attribute_within(
                        old(self).initial_depth as nat,
                    ).0,
                },
                Ok(None) => r matches Ok(None) && final(self).root@ == old(self).root@,
                Err(e) => r == Err::<Option<Attribute<'b>>, Error>(e) && final(self).root@ == old(
                    self,
                ).root@.read_attribute_within(old(self).initial_depth as nat).0,
            },
    {
        if self.root.depth() < self.initial_depth {
            return Ok(None);
        }
        self.root.read_attribute()
    }

    /// Returns a parser confined to the innermost open node.
    pub fn subtree_parser<'b>(&'b mut self) -> (subtree: SubtreeParser<'b>)
        ensures
            final(self).initial_depth == old(self).initial_depth,
            *final(final(self).root) == *final(old(self).root),
            *subtree.root == *old(self).root,
            subtree.initial_depth == old(self).root@.depth(),
            *final(self).root == *final(subtree.root),
    {
        let initial_depth: usize = self.root.depth();
        SubtreeParser { root: &mut *self.root, initial_depth }
    }
}

} // verus!
