//! `Takes` node and its children.

use vstd::prelude::*;
use vstd::string::StringSliceAdditionalSpecFns;
use super::super::{
    ensure_node_exists, fold_children, lemma_fold_leaves_node, map_loaded, missing, model_of,
    name_is, require_attribute, required_attribute, Error, ErrorModel,
};
use crate::parser::binary::state::ParserModel;
use crate::parser::binary::subtree::SubtreeParser;
use crate::parser::binary::utils::{
    lemma_read_i64_pair_stays, lemma_read_string_stays, lemma_skip_amid_attributes,
};

verus! {

/// `Take` node.
#[derive(Debug, PartialEq, Eq, Hash)]
pub struct Take {
    /// Name.
    pub name: String,
    /// `FileName`.
    pub filename: String,
    /// `LocalTime`.
    pub local_time: (i64, i64),
    /// `ReferenceTime`.
    pub reference_time: (i64, i64),
}

/// Mathematical model of a [`Take`].
pub struct TakeModel {
    /// Name.
    pub name: Seq<char>,
    /// `FileName`.
    pub filename: Seq<char>,
    /// `LocalTime`.
    pub local_time: (i64, i64),
    /// `ReferenceTime`.
    pub reference_time: (i64, i64),
}

impl View for Take {
    type V = TakeModel;

    open spec fn view(&self) -> TakeModel {
        TakeModel {
            name: self.name@,
            filename: self.filename@,
            local_time: self.local_time,
            reference_time: self.reference_time,
        }
    }
}

/// A child of a `Take` node with the value it carries.
#[derive(Debug, PartialEq, Eq, Hash)]
pub enum TakeChildAttrs {
    /// `FileName`.
    FileName(String),
    /// `LocalTime`.
    LocalTime((i64, i64)),
    /// `ReferenceTime`.
    ReferenceTime((i64, i64)),
}

/// Mathematical model of a [`TakeChildAttrs`].
pub enum TakeChildModel {
    /// `FileName`.
    FileName(Seq<char>),
    /// `LocalTime`.
    LocalTime((i64, i64)),
    /// `ReferenceTime`.
    ReferenceTime((i64, i64)),
}

impl View for TakeChildAttrs {
    type V = TakeChildModel;

    open spec fn view(&self) -> TakeChildModel {
        match self {
            TakeChildAttrs::FileName(v) => TakeChildModel::FileName(v@),
            TakeChildAttrs::LocalTime(v) => TakeChildModel::LocalTime(*v),
            TakeChildAttrs::ReferenceTime(v) => TakeChildModel::ReferenceTime(*v),
        }
    }
}

impl Clone for Take {
    fn clone(&self) -> (copy: Take)
        ensures
            copy@ == self@,
    {
        Take {
            name: self.name.clone(),
            filename: self.filename.clone(),
            local_time: self.local_time,
            reference_time: self.reference_time,
        }
    }
}

impl Clone for TakeChildAttrs {
    fn clone(&self) -> (copy: TakeChildAttrs)
        ensures
            copy@ == self@,
    {
        match self {
            TakeChildAttrs::FileName(v) => TakeChildAttrs::FileName(v.clone()),
            TakeChildAttrs::LocalTime(v) => TakeChildAttrs::LocalTime(*v),
            TakeChildAttrs::ReferenceTime(v) => TakeChildAttrs::ReferenceTime(*v),
        }
    }
}

impl TakeChildAttrs {
    /// What loading the attributes of the child called `name` yields.
    #[verifier::opaque]
    pub open spec fn parse(name: Seq<u8>, m: ParserModel, initial_depth: nat) -> (
        ParserModel,
        Result<TakeChildModel, ErrorModel>,
    ) {
        let time = required_attribute(m.read_i64_pair(initial_depth), name);
        if name == "FileName".spec_bytes() {
            map_loaded(
                required_attribute(m.read_string(initial_depth), name),
                |v: Seq<char>| TakeChildModel::FileName(v),
            )
        } else if name == "LocalTime".spec_bytes() {
            map_loaded(time, |v: (i64, i64)| TakeChildModel::LocalTime(v))
        } else if name == "ReferenceTime".spec_bytes() {
            map_loaded(time, |v: (i64, i64)| TakeChildModel::ReferenceTime(v))
        } else {
            (m, Err(ErrorModel::UnexpectedNode(name)))
        }
    }

    /// Creates a `TakeChildAttrs` from the given node name.
    pub fn load(name: &[u8], parser: &mut SubtreeParser<'_>) -> (r: Result<TakeChildAttrs, Error>)
        requires
            old(parser).root@.wf(),
        ensures
            final(parser).initial_depth == old(parser).initial_depth,
            *final(final(parser).root) == *final(old(parser).root),
            final(parser).root@ == Self::parse(
                name@,
                old(parser).root@,
                old(parser).initial_depth as nat,
            ).0,
            final(parser).root@.wf(),
            final(parser).root@.follows(old(parser).root@),
            final(parser).root@.open_nodes == old(parser).root@.open_nodes,
            match Self::parse(name@, old(parser).root@, old(parser).initial_depth as nat).1 {
                Ok(model) => r matches Ok(attrs) && attrs@ == model,
                Err(e) => r matches Err(error) && error@ == e,
            },
    {
        proof {
            reveal(TakeChildAttrs::parse);
        }
        if name_is(name, "FileName") {
            match require_attribute(parser.read_string(), name) {
                Ok(v) => Ok(TakeChildAttrs::FileName(v)),
                Err(e) => Err(e),
            }
        } else if name_is(name, "LocalTime") {
            match require_attribute(parser.read_i64_pair(), name) {
                Ok(v) => Ok(TakeChildAttrs::LocalTime(v)),
                Err(e) => Err(e),
            }
        } else if name_is(name, "ReferenceTime") {
            match require_attribute(parser.read_i64_pair(), name) {
                Ok(v) => Ok(TakeChildAttrs::ReferenceTime(v)),
                Err(e) => Err(e),
            }
        } else {
            Err(Error::UnexpectedNode(vstd::slice::slice_to_vec(name)))
        }
    }
}

/// What the children of a `Take` node read so far have given.
pub struct TakeFields {
    /// `FileName`.
    pub filename: Option<Seq<char>>,
    /// `LocalTime`.
    pub local_time: Option<(i64, i64)>,
    /// `ReferenceTime`.
    pub reference_time: Option<(i64, i64)>,
}

impl TakeFields {
    /// Nothing has been read yet.
    pub open spec fn empty() -> TakeFields {
        TakeFields { filename: None, local_time: None, reference_time: None }
    }

    /// The fields after one more child has been read. A child that comes
    /// again replaces the one before it.
    pub open spec fn with(self, child: TakeChildModel) -> TakeFields {
        match child {
            TakeChildModel::FileName(v) => TakeFields { filename: Some(v), ..self },
            TakeChildModel::LocalTime(v) => TakeFields { local_time: Some(v), ..self },
            TakeChildModel::ReferenceTime(v) => TakeFields { reference_time: Some(v), ..self },
        }
    }

    /// The take called `name` that the fields make up, or the error for the
    /// first child that is missing.
    pub open spec fn finish(self, name: Seq<char>) -> Result<TakeModel, ErrorModel> {
        if self.filename is None {
            Err(missing("Take", "FileName"))
        } else if self.local_time is None {
            Err(missing("Take", "LocalTime"))
        } else if self.reference_time is None {
            Err(missing("Take", "ReferenceTime"))
        } else {
            Ok(
                TakeModel {
                    name,
                    filename: self.filename->0,
                    local_time: self.local_time->0,
                    reference_time: self.reference_time->0,
                },
            )
        }
    }
}

impl Take {
    /// What handling one child of a `Take` node yields: its attributes are
    /// loaded and the rest of it is skipped.
    pub open spec fn step(initial_depth: nat) -> spec_fn(ParserModel, Seq<u8>, TakeFields) -> (
        ParserModel,
        Result<TakeFields, ErrorModel>,
    ) {
        |m: ParserModel, name: Seq<u8>, fields: TakeFields|
            {
                let child = TakeChildAttrs::parse(name, m, initial_depth);
                match child.1 {
                    Ok(attrs) => {
                        let skipped = child.0.skip_current_node_within(initial_depth);
                        (
                            skipped.0,
                            match skipped.1 {
                                Ok(_) => Ok(fields.with(attrs)),
                                Err(e) => Err(ErrorModel::Parser(e)),
                            },
                        )
                    },
                    Err(e) => (child.0, Err(e)),
                }
            }
    }

    /// What loading the `Take` node called `name` yields when the parse stands
    /// behind the start of the node.
    #[verifier::opaque]
    pub open spec fn parse(m: ParserModel, initial_depth: nat, name: Seq<char>) -> (
        ParserModel,
        Result<TakeModel, ErrorModel>,
    ) {
        let folded = fold_children(
            m,
            initial_depth,
            TakeFields::empty(),
            Self::step(initial_depth),
        );
        (
            folded.0,
            match folded.1 {
                Ok(fields) => fields.finish(name),
                Err(e) => Err(e),
            },
        )
    }

    /// Loads node contents from the parser.
    #[verifier::loop_isolation(false)]
    pub fn load(mut parser: SubtreeParser<'_>, attrs: String) -> (r: Result<Take, Error>)
        requires
            parser.root@.wf(),
            parser.initial_depth > 0,
        ensures
            final(parser.root)@ == Self::parse(
                old(parser.root)@,
                parser.initial_depth as nat,
                attrs@,
            ).0,
            final(parser.root)@.wf(),
            final(parser.root)@.follows(old(parser.root)@),
            match Self::parse(old(parser.root)@, parser.initial_depth as nat, attrs@).1 {
                Ok(model) => r matches Ok(take) && take@ == model,
                Err(e) => r matches Err(error) && error@ == e,
            },
    {
        let mut filename: Option<String> = None;
        let mut local_time: Option<(i64, i64)> = None;
        let mut reference_time: Option<(i64, i64)> = None;
        let ghost start = parser.root@;
        let ghost depth = parser.initial_depth as nat;
        let ghost end = *final(parser.root);
        proof {
            reveal(Take::parse);
        }

        loop
            invariant
                parser.root@.wf(),
                parser.root@.follows(start),
                parser.initial_depth == depth,
                *final(parser.root) == end,
                fold_children(
                    parser.root@,
                    depth,
                    TakeFields { filename: model_of(filename), local_time, reference_time },
                    Self::step(depth),
                ) == fold_children(start, depth, TakeFields::empty(), Self::step(depth)),
            decreases parser.root@.unread(),
        {
            let name = match parser.next_child() {
                Ok(Some(name)) => name,
                Ok(None) => {
                    return Ok(
                        Take {
                            name: attrs,
                            filename: ensure_node_exists(filename, "Take", "FileName")?,
                            local_time: ensure_node_exists(local_time, "Take", "LocalTime")?,
                            reference_time: ensure_node_exists(
                                reference_time,
                                "Take",
                                "ReferenceTime",
                            )?,
                        },
                    );
                },
                Err(e) => {
                    return Err(Error::Parser(e));
                },
            };
            let node_type = match TakeChildAttrs::load(name.as_slice(), &mut parser) {
                Ok(node_type) => node_type,
                Err(e) => {
                    return Err(e);
                },
            };
            match node_type {
                TakeChildAttrs::FileName(v) => {
                    filename = Some(v);
                },
                TakeChildAttrs::LocalTime(v) => {
                    local_time = Some(v);
                },
                TakeChildAttrs::ReferenceTime(v) => {
                    reference_time = Some(v);
                },
            }
            match parser.skip_current_node() {
                Ok(()) => {},
                Err(e) => {
                    return Err(Error::Parser(e));
                },
            }
        }
    }
}

/// `Takes` node.
#[derive(Debug, Clone, PartialEq, Eq)]
pub struct Takes {
    /// `Current`.
    pub current: String,
    /// `Take`s.
    pub takes: Vec<Take>,
}

/// Mathematical model of a [`Takes`].
pub struct TakesModel {
    /// `Current`.
    pub current: Seq<char>,
    /// `Take`s.
    pub takes: Seq<TakeModel>,
}

/// The models of the takes in `takes`, in order.
pub open spec fn take_models(takes: Seq<Take>) -> Seq<TakeModel> {
    takes.map_values(|take: Take| take@)
}

impl View for Takes {
    type V = TakesModel;

    open spec fn view(&self) -> TakesModel {
        TakesModel { current: self.current@, takes: take_models(self.takes@) }
    }
}

/// A child of a `Takes` node with the value it carries.
#[derive(Debug, Clone, PartialEq, Eq, Hash)]
pub enum TakesChildAttrs {
    /// `Current`.
    Current(String),
    /// `Take`.
    Take(String),
}

/// Mathematical model of a [`TakesChildAttrs`].
pub enum TakesChildModel {
    /// `Current`.
    Current(Seq<char>),
    /// `Take`.
    Take(Seq<char>),
}

impl View for TakesChildAttrs {
    type V = TakesChildModel;

    open spec fn view(&self) -> TakesChildModel {
        match self {
            TakesChildAttrs::Current(v) => TakesChildModel::Current(v@),
            TakesChildAttrs::Take(v) => TakesChildModel::Take(v@),
        }
    }
}

impl TakesChildAttrs {
    /// What loading the attributes of the child called `name` yields.
    #[verifier::opaque]
    pub open spec fn parse(name: Seq<u8>, m: ParserModel, initial_depth: nat) -> (
        ParserModel,
        Result<TakesChildModel, ErrorModel>,
    ) {
        let string = required_attribute(m.read_string(initial_depth), name);
        if name == "Current".spec_bytes() {
            map_loaded(string, |v: Seq<char>| TakesChildModel::Current(v))
        } else if name == "Take".spec_bytes() {
            map_loaded(string, |v: Seq<char>| TakesChildModel::Take(v))
        } else {
            (m, Err(ErrorModel::UnexpectedNode(name)))
        }
    }

    /// Creates a `TakesChildAttrs` from the given node name.
    pub fn load(name: &[u8], parser: &mut SubtreeParser<'_>) -> (r: Result<TakesChildAttrs, Error>)
        requires
            old(parser).root@.wf(),
        ensures
            final(parser).initial_depth == old(parser).initial_depth,
            *final(final(parser).root) == *final(old(parser).root),
            final(parser).root@ == Self::parse(
                name@,
                old(parser).root@,
                old(parser).initial_depth as nat,
            ).0,
            final(parser).root@.wf(),
            final(parser).root@.follows(old(parser).root@),
            final(parser).root@.open_nodes == old(parser).root@.open_nodes,
            match Self::parse(name@, old(parser).root@, old(parser).initial_depth as nat).1 {
                Ok(model) => r matches Ok(attrs) && attrs@ == model,
                Err(e) => r matches Err(error) && error@ == e,
            },
    {
        proof {
            reveal(TakesChildAttrs::parse);
        }
        if name_is(name, "Current") {
            match require_attribute(parser.read_string(), name) {
                Ok(v) => Ok(TakesChildAttrs::Current(v)),
                Err(e) => Err(e),
            }
        } else if name_is(name, "Take") {
            match require_attribute(parser.read_string(), name) {
                Ok(v) => Ok(TakesChildAttrs::Take(v)),
                Err(e) => Err(e),
            }
        } else {
            Err(Error::UnexpectedNode(vstd::slice::slice_to_vec(name)))
        }
    }
}

/// What the children of a `Takes` node read so far have given.
pub struct TakesFields {
    /// `Current`.
    pub current: Option<Seq<char>>,
    /// `Take`s, in document order.
    pub takes: Seq<TakeModel>,
}

impl TakesFields {
    /// Nothing has been read yet.
    pub open spec fn empty() -> TakesFields {
        TakesFields { current: None, takes: Seq::empty() }
    }

    /// The `Takes` the fields make up, or the error for the child that is
    /// missing.
    pub open spec fn finish(self) -> Result<TakesModel, ErrorModel> {
        if self.current is None {
            Err(missing("Takes", "Current"))
        } else {
            Ok(TakesModel { current: self.current->0, takes: self.takes })
        }
    }
}

impl Takes {
    /// What handling one child of a `Takes` node yields: a `Current` child
    /// gives its value and is skipped, a `Take` child is loaded with its own
    /// children.
    pub open spec fn step(initial_depth: nat) -> spec_fn(ParserModel, Seq<u8>, TakesFields) -> (
        ParserModel,
        Result<TakesFields, ErrorModel>,
    ) {
        |m: ParserModel, name: Seq<u8>, fields: TakesFields|
            {
                let child = TakesChildAttrs::parse(name, m, initial_depth);
                match child.1 {
                    Ok(TakesChildModel::Current(v)) => {
                        let skipped = child.0.skip_current_node_within(initial_depth);
                        (
                            skipped.0,
                            match skipped.1 {
                                Ok(_) => Ok(TakesFields { current: Some(v), ..fields }),
                                Err(e) => Err(ErrorModel::Parser(e)),
                            },
                        )
                    },
                    Ok(TakesChildModel::Take(attrs)) => {
                        let take = Take::parse(child.0, child.0.depth(), attrs);
                        (
                            take.0,
                            match take.1 {
                                Ok(take) => Ok(
                                    TakesFields { takes: fields.takes.push(take), ..fields },
                                ),
                                Err(e) => Err(e),
                            },
                        )
                    },
                    Err(e) => (child.0, Err(e)),
                }
            }
    }

    /// What loading a `Takes` node yields when the parse stands behind the
    /// start of the node.
    #[verifier::opaque]
    pub open spec fn parse(m: ParserModel, initial_depth: nat) -> (
        ParserModel,
        Result<TakesModel, ErrorModel>,
    ) {
        let folded = fold_children(
            m,
            initial_depth,
            TakesFields::empty(),
            Self::step(initial_depth),
        );
        (
            folded.0,
            match folded.1 {
                Ok(fields) => fields.finish(),
                Err(e) => Err(e),
            },
        )
    }

    /// Loads node contents from the parser.
    #[verifier::loop_isolation(false)]
    pub fn load(mut parser: SubtreeParser<'_>) -> (r: Result<Takes, Error>)
        requires
            parser.root@.wf(),
            parser.initial_depth > 0,
        ensures
            final(parser.root)@ == Self::parse(old(parser.root)@, parser.initial_depth as nat).0,
            final(parser.root)@.wf(),
            final(parser.root)@.follows(old(parser.root)@),
            match Self::parse(old(parser.root)@, parser.initial_depth as nat).1 {
                Ok(model) => r matches Ok(takes) && takes@ == model,
                Err(e) => r matches Err(error) && error@ == e,
            },
    {
        let mut current: Option<String> = None;
        let mut takes: Vec<Take> = Vec::new();
        let ghost start = parser.root@;
        let ghost depth = parser.initial_depth as nat;
        let ghost end = *final(parser.root);
        proof {
            reveal(Takes::parse);
            assert(take_models(takes@) =~= Seq::empty());
        }

        loop
            invariant
                parser.root@.wf(),
                parser.root@.follows(start),
                parser.initial_depth == depth,
                *final(parser.root) == end,
                fold_children(
                    parser.root@,
                    depth,
                    TakesFields { current: model_of(current), takes: take_models(takes@) },
                    Self::step(depth),
                ) == fold_children(start, depth, TakesFields::empty(), Self::step(depth)),
            decreases parser.root@.unread(),
        {
            let name = match parser.next_child() {
                Ok(Some(name)) => name,
                Ok(None) => {
                    return Ok(
                        Takes { current: ensure_node_exists(current, "Takes", "Current")?, takes },
                    );
                },
                Err(e) => {
                    return Err(Error::Parser(e));
                },
            };
            let node_type = match TakesChildAttrs::load(name.as_slice(), &mut parser) {
                Ok(node_type) => node_type,
                Err(e) => {
                    return Err(e);
                },
            };
            match node_type {
                TakesChildAttrs::Current(v) => {
                    current = Some(v);
                    match parser.skip_current_node() {
                        Ok(()) => {},
                        Err(e) => {
                            return Err(Error::Parser(e));
                        },
                    }
                },
                TakesChildAttrs::Take(attrs) => {
                    let ghost before = takes@;
                    match Take::load(parser.subtree_parser(), attrs) {
                        Ok(take) => {
                            takes.push(take);
                            assert(take_models(takes@) =~= take_models(before).push(take@));
                        },
                        Err(e) => {
                            return Err(e);
                        },
                    }
                },
            }
        }
    }
}

/// Loading the attributes of a child of a `Take` node leaves the parse amid
/// the attributes of that child.
pub proof fn lemma_take_child_stays(name: Seq<u8>, m: ParserModel, d: nat)
    requires
        m.wf(),
    ensures
        TakeChildAttrs::parse(name, m, d).0.amid_attributes_of(m),
        TakeChildAttrs::parse(name, m, d).1 is Ok ==> TakeChildAttrs::parse(name, m, d).0.state
            == m.state,
{
    reveal(TakeChildAttrs::parse);
    lemma_read_string_stays(m, d);
    lemma_read_i64_pair_stays(m, d);
}

/// A `Take` node that has been loaded has been read to its end: the parse
/// stands where skipping the node would have put it.
pub proof fn lemma_take_leaves_node(m: ParserModel, d: nat, name: Seq<char>)
    requires
        m.wf(),
        m.state is InDocument,
        m.depth() == d,
        d > 0,
        Take::parse(m, d, name).1 is Ok,
    ensures
        m.skip_current_node().1 is Ok,
        Take::parse(m, d, name).0 == m.skip_current_node().0,
{
    reveal(Take::parse);
    let step = Take::step(d);
    assert forall|child: ParserModel, child_name: Seq<u8>, fields: TakeFields|
        child.wf() && child.state is InDocument && child.depth() == d + 1 && (#[trigger] step(
            child,
            child_name,
            fields,
        )).1 is Ok implies child.skip_current_node().1 is Ok && step(child, child_name, fields).0
        == child.skip_current_node().0 by {
        lemma_take_child_stays(child_name, child, d);
        lemma_skip_amid_attributes(TakeChildAttrs::parse(child_name, child, d).0, child, d);
    }
    lemma_fold_leaves_node(m, d, TakeFields::empty(), step);
}

/// Loading the attributes of a child of a `Takes` node leaves the parse amid
/// the attributes of that child.
pub proof fn lemma_takes_child_stays(name: Seq<u8>, m: ParserModel, d: nat)
    requires
        m.wf(),
    ensures
        TakesChildAttrs::parse(name, m, d).0.amid_attributes_of(m),
        TakesChildAttrs::parse(name, m, d).1 is Ok ==> TakesChildAttrs::parse(name, m, d).0.state
            == m.state,
{
    reveal(TakesChildAttrs::parse);
    lemma_read_string_stays(m, d);
}

/// A `Takes` node that has been loaded has been read to its end: the parse
/// stands where skipping the node would have put it.
pub proof fn lemma_takes_leaves_node(m: ParserModel, d: nat)
    requires
        m.wf(),
        m.state is InDocument,
        m.depth() == d,
        d > 0,
        Takes::parse(m, d).1 is Ok,
    ensures
        m.skip_current_node().1 is Ok,
        Takes::parse(m, d).0 == m.skip_current_node().0,
{
    reveal(Takes::parse);
    let step = Takes::step(d);
    assert forall|child: ParserModel, name: Seq<u8>, fields: TakesFields|
        child.wf() && child.state is InDocument && child.depth() == d + 1 && (#[trigger] step(
            child,
            name,
            fields,
        )).1 is Ok implies child.skip_current_node().1 is Ok && step(child, name, fields).0
        == child.skip_current_node().0 by {
        let loaded = TakesChildAttrs::parse(name, child, d);
        lemma_takes_child_stays(name, child, d);
        lemma_skip_amid_attributes(loaded.0, child, d);
        if let Ok(TakesChildModel::Take(attrs)) = loaded.1 {
            lemma_take_leaves_node(loaded.0, loaded.0.depth(), attrs);
        }
    }
    lemma_fold_leaves_node(m, d, TakesFields::empty(), step);
}

} // verus!
