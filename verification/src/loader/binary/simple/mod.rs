//! Loaders that read every node of a subtree once, in document order.

pub mod fbx7400;

use vstd::prelude::*;
use vstd::string::StringSliceAdditionalSpecFns;
use crate::parser::binary::engine::{
    lemma_event_changes_depth, lemma_next_event_advances, lemma_next_event_wf,
    lemma_skip_current_node_advances, lemma_skip_current_node_wf,
};
use crate::parser::binary::error::Error as ParserError;
use crate::parser::binary::state::ParserModel;

verus! {

/// Load error.
#[derive(Debug, Clone, PartialEq, Eq)]
pub enum Error {
    /// The parser failed.
    Parser(ParserError),
    /// A node has a name the loader does not expect at its place.
    UnexpectedNode(Vec<u8>),
    /// A node lacks an attribute the loader needs.
    InvalidAttribute(Vec<u8>),
    /// A node lacks a child the loader needs.
    MissingRequiredChild {
        /// Name of the node that lacks the child.
        parent: &'static str,
        /// Name of the child.
        child: &'static str,
    },
}

/// Mathematical model of an [`Error`].
pub enum ErrorModel {
    /// The parser failed.
    Parser(ParserError),
    /// A node has a name the loader does not expect at its place.
    UnexpectedNode(Seq<u8>),
    /// A node lacks an attribute the loader needs.
    InvalidAttribute(Seq<u8>),
    /// A node lacks a child the loader needs.
    MissingRequiredChild {
        /// Name of the node that lacks the child.
        parent: Seq<char>,
        /// Name of the child.
        child: Seq<char>,
    },
}

impl View for Error {
    type V = ErrorModel;

    open spec fn view(&self) -> ErrorModel {
        match self {
            Error::Parser(e) => ErrorModel::Parser(*e),
            Error::UnexpectedNode(name) => ErrorModel::UnexpectedNode(name@),
            Error::InvalidAttribute(name) => ErrorModel::InvalidAttribute(name@),
            Error::MissingRequiredChild { parent, child } => ErrorModel::MissingRequiredChild {
                parent: parent@,
                child: child@,
            },
        }
    }
}

/// Tells whether `name` consists of the bytes of `expected`.
pub fn name_is(name: &[u8], expected: &str) -> (b: bool)
    ensures
        b == (name@ == expected.spec_bytes()),
{
    let bytes = expected.as_bytes();
    if name.len() != bytes.len() {
        return false;
    }
    let mut i: usize = 0;
    while i < name.len()
        invariant
            i <= name.len(),
            name.len() == bytes.len(),
            bytes@ == expected.spec_bytes(),
            forall|j: int| 0 <= j < i ==> name@[j] == bytes@[j],
        decreases name.len() - i,
    {
        if name[i] != bytes[i] {
            assert(name@[i as int] != bytes@[i as int]);
            return false;
        }
        i = i + 1;
    }
    assert(name@ =~= bytes@);
    true
}

/// The value an attribute reader found, or the error that its absence or the
/// reader's failure amounts to for the node called `name`.
pub open spec fn required_attribute<T>(
    read: (ParserModel, Result<Option<T>, ParserError>),
    name: Seq<u8>,
) -> (ParserModel, Result<T, ErrorModel>) {
    (
        read.0,
        match read.1 {
            Ok(Some(value)) => Ok(value),
            Ok(None) => Err(ErrorModel::InvalidAttribute(name)),
            Err(e) => Err(ErrorModel::Parser(e)),
        },
    )
}

/// What was loaded, with the value put into the form `wrap` gives it.
pub open spec fn map_loaded<T, U>(
    loaded: (ParserModel, Result<T, ErrorModel>),
    wrap: spec_fn(T) -> U,
) -> (ParserModel, Result<U, ErrorModel>) {
    (
        loaded.0,
        match loaded.1 {
            Ok(value) => Ok(wrap(value)),
            Err(e) => Err(e),
        },
    )
}

/// The error for a child that a node lacks.
pub open spec fn missing(parent: &'static str, child: &'static str) -> ErrorModel {
    ErrorModel::MissingRequiredChild { parent: parent@, child: child@ }
}

/// The model of a value that may be absent.
pub open spec fn model_of<T: View>(value: Option<T>) -> Option<T::V> {
    match value {
        Some(value) => Some(value@),
        None => None,
    }
}

/// Returns the value of a child, failing when the node called `parent` lacks
/// the child called `child`.
pub fn ensure_node_exists<T>(node: Option<T>, parent: &'static str, child: &'static str) -> (r:
    Result<T, Error>)
    ensures
        match node {
            Some(value) => r == Ok::<T, Error>(value),
            None => r matches Err(e) && e@ == missing(parent, child),
        },
{
    match node {
        Some(value) => Ok(value),
        None => Err(Error::MissingRequiredChild { parent, child }),
    }
}

/// Turns what an attribute reader found into the value, failing when the node
/// called `name` has no such attribute.
pub fn require_attribute<T>(read: Result<Option<T>, ParserError>, name: &[u8]) -> (r: Result<
    T,
    Error,
>)
    ensures
        match read {
            Ok(Some(value)) => r == Ok::<T, Error>(value),
            Ok(None) => r matches Err(e) && e@ == ErrorModel::InvalidAttribute(name@),
            Err(error) => r matches Err(e) && e@ == ErrorModel::Parser(error),
        },
{
    match read {
        Ok(Some(value)) => Ok(value),
        Ok(None) => Err(Error::InvalidAttribute(vstd::slice::slice_to_vec(name))),
        Err(e) => Err(Error::Parser(e)),
    }
}

/// What handling the children of the subtree entered at depth `initial_depth`
/// one after the other yields: each child is handed to `step` together with
/// what the children before it have added up to, until the node of the subtree
/// ends or something fails. A step that moves the cursor back ends the
/// handling.
pub open spec fn fold_children<A>(
    m: ParserModel,
    initial_depth: nat,
    acc: A,
    step: spec_fn(ParserModel, Seq<u8>, A) -> (ParserModel, Result<A, ErrorModel>),
) -> (ParserModel, Result<A, ErrorModel>)
    decreases m.unread(),
{
    let child = m.next_child(initial_depth);
    match child.1 {
        Ok(Some(name)) => {
            let stepped = step(child.0, name, acc);
            match stepped.1 {
                Ok(next_acc) => if stepped.0.unread() < m.unread() {
                    fold_children(stepped.0, initial_depth, next_acc, step)
                } else {
                    (stepped.0, Err(ErrorModel::Parser(ParserError::MalformedSubtree)))
                },
                Err(e) => (stepped.0, Err(e)),
            }
        },
        Ok(None) => (child.0, Ok(acc)),
        Err(e) => (child.0, Err(ErrorModel::Parser(e))),
    }
}

/// `step` leaves every child it handles: when it succeeds on a child of the
/// node at depth `initial_depth`, the parse stands where skipping the child
/// would have put it.
pub open spec fn leaves_children<A>(
    step: spec_fn(ParserModel, Seq<u8>, A) -> (ParserModel, Result<A, ErrorModel>),
    initial_depth: nat,
) -> bool {
    forall|m: ParserModel, name: Seq<u8>, acc: A|
        m.wf() && m.state is InDocument && m.depth() == initial_depth + 1 && (#[trigger] step(
            m,
            name,
            acc,
        )).1 is Ok ==> m.skip_current_node().1 is Ok && step(m, name, acc).0
            == m.skip_current_node().0
}

/// Handling the children of a node to the end leaves the node: when every
/// child is left as skipping it would leave it and the handling succeeds, the
/// parse stands where skipping the node at once would have put it, with the
/// cursor at the end offset of the node.
pub proof fn lemma_fold_leaves_node<A>(
    m: ParserModel,
    initial_depth: nat,
    acc: A,
    step: spec_fn(ParserModel, Seq<u8>, A) -> (ParserModel, Result<A, ErrorModel>),
)
    requires
        m.wf(),
        m.state is InDocument,
        m.depth() == initial_depth,
        initial_depth > 0,
        leaves_children(step, initial_depth),
        fold_children(m, initial_depth, acc, step).1 is Ok,
    ensures
        m.skip_current_node().1 is Ok,
        fold_children(m, initial_depth, acc, step).0 == m.skip_current_node().0,
    decreases m.unread(),
{
    reveal(ParserModel::next_child);
    lemma_next_event_wf(m);
    lemma_event_changes_depth(m);
    lemma_next_event_advances(m);
    let child = m.next_child(initial_depth);
    match child.1 {
        Ok(Some(name)) => {
            let stepped = step(child.0, name, acc);
            assert(stepped.1 is Ok);
            lemma_skip_current_node_wf(child.0);
            lemma_skip_current_node_advances(child.0);
            let behind = child.0.skip_current_node().0;
            assert(behind.open_nodes =~= m.open_nodes);
            lemma_fold_leaves_node(behind, initial_depth, stepped.1->Ok_0, step);
            assert(behind.skip_current_node().0.open_nodes =~= m.open_nodes.drop_last());
        },
        Ok(None) => {
            assert(child.0.open_nodes =~= m.open_nodes.drop_last());
        },
        Err(_) => {},
    }
}

} // verus!
