//! `FBXHeaderExtension` node and its children.

use vstd::prelude::*;
use vstd::string::StringSliceAdditionalSpecFns;
use super::super::{
    ensure_node_exists, fold_children, lemma_fold_leaves_node, map_loaded, missing, model_of,
    name_is, require_attribute, required_attribute, Error, ErrorModel,
};
use super::properties70::{lemma_properties70_leaves_node, Properties70, Properties70Model};
use crate::parser::binary::state::ParserModel;
use crate::parser::binary::subtree::SubtreeParser;
use crate::parser::binary::utils::{
    lemma_read_i32_stays, lemma_read_string_pair_stays, lemma_read_string_stays,
    lemma_skip_amid_attributes,
};

verus! {

/// Creation time stamp.
#[derive(Debug, Clone, Copy, PartialEq, Eq, PartialOrd, Ord, Hash, Structural)]
pub struct CreationTimeStamp {
    /// Version.
    pub version: i32,
    /// Year.
    pub year: i32,
    /// Month.
    pub month: i32,
    /// Day.
    pub day: i32,
    /// Hour.
    pub hour: i32,
    /// Minute.
    pub minute: i32,
    /// Second.
    pub second: i32,
    /// Millisecond.
    pub millisecond: i32,
}

/// A child of a `CreationTimeStamp` node with the value it carries.
#[derive(Debug, Clone, Copy, PartialEq, Eq, Hash, Structural)]
pub enum CreationTimeStampChildAttrs {
    /// `Version`.
    Version(i32),
    /// `Year`.
    Year(i32),
    /// `Month`.
    Month(i32),
    /// `Day`.
    Day(i32),
    /// `Hour`.
    Hour(i32),
    /// `Minute`.
    Minute(i32),
    /// `Second`.
    Second(i32),
    /// `Millisecond`.
    Millisecond(i32),
}

impl CreationTimeStampChildAttrs {
    /// What loading the attributes of the child called `name` yields.
    #[verifier::opaque]
    pub open spec fn parse(name: Seq<u8>, m: ParserModel, initial_depth: nat) -> (
        ParserModel,
        Result<CreationTimeStampChildAttrs, ErrorModel>,
    ) {
        let value = required_attribute(m.read_i32(initial_depth), name);
        if name == "Version".spec_bytes() {
            map_loaded(value, |v: i32| CreationTimeStampChildAttrs::Version(v))
        } else if name == "Year".spec_bytes() {
            map_loaded(value, |v: i32| CreationTimeStampChildAttrs::Year(v))
        } else if name == "Month".spec_bytes() {
            map_loaded(value, |v: i32| CreationTimeStampChildAttrs::Month(v))
        } else if name == "Day".spec_bytes() {
            map_loaded(value, |v: i32| CreationTimeStampChildAttrs::Day(v))
        } else if name == "Hour".spec_bytes() {
            map_loaded(value, |v: i32| CreationTimeStampChildAttrs::Hour(v))
        } else if name == "Minute".spec_bytes() {
            map_loaded(value, |v: i32| CreationTimeStampChildAttrs::Minute(v))
        } else if name == "Second".spec_bytes() {
            map_loaded(value, |v: i32| CreationTimeStampChildAttrs::Second(v))
        } else if name == "Millisecond".spec_bytes() {
            map_loaded(value, |v: i32| CreationTimeStampChildAttrs::Millisecond(v))
        } else {
            (m, Err(ErrorModel::UnexpectedNode(name)))
        }
    }

    /// Creates a `CreationTimeStampChildAttrs` from the given node name.
    pub fn load(name: &[u8], parser: &mut SubtreeParser<'_>) -> (r: Result<
        CreationTimeStampChildAttrs,
        Error,
    >)
        requires
            old(parser).root@.wf(),
        ensures
            final(parser).initial_depth == old(parser).initial_depth,
            *final(final(parser).root) == *final(old(parser).root),
            final(parser).root@ == Self::parse(
                name@,
                old(parser).root@,
                old(parser).initial_depth as nat,
            ).0,
            final(parser).root@.wf(),
            final(parser).root@.follows(old(parser).root@),
            final(parser).root@.open_nodes == old(parser).root@.open_nodes,
            match Self::parse(name@, old(parser).root@, old(parser).initial_depth as nat).1 {
                Ok(attrs) => r == Ok::<CreationTimeStampChildAttrs, Error>(attrs),
                Err(e) => r matches Err(error) && error@ == e,
            },
    {
        proof {
            reveal(CreationTimeStampChildAttrs::parse);
        }
        if name_is(name, "Version") {
            match require_attribute(parser.read_i32(), name) {
                Ok(v) => Ok(CreationTimeStampChildAttrs::Version(v)),
                Err(e) => Err(e),
            }
        } else if name_is(name, "Year") {
            match require_attribute(parser.read_i32(), name) {
                Ok(v) => Ok(CreationTimeStampChildAttrs::Year(v)),
                Err(e) => Err(e),
            }
        } else if name_is(name, "Month") {
            match require_attribute(parser.read_i32(), name) {
                Ok(v) => Ok(CreationTimeStampChildAttrs::Month(v)),
                Err(e) => Err(e),
            }
        } else if name_is(name, "Day") {
            match require_attribute(parser.read_i32(), name) {
                Ok(v) => Ok(CreationTimeStampChildAttrs::Day(v)),
                Err(e) => Err(e),
            }
        } else if name_is(name, "Hour") {
            match require_attribute(parser.read_i32(), name) {
                Ok(v) => Ok(CreationTimeStampChildAttrs::Hour(v)),
                Err(e) => Err(e),
            }
        } else if name_is(name, "Minute") {
            match require_attribute(parser.read_i32(), name) {
                Ok(v) => Ok(CreationTimeStampChildAttrs::Minute(v)),
                Err(e) => Err(e),
            }
        } else if name_is(name, "Second") {
            match require_attribute(parser.read_i32(), name) {
                Ok(v) => Ok(CreationTimeStampChildAttrs::Second(v)),
                Err(e) => Err(e),
            }
        } else if name_is(name, "Millisecond") {
            match require_attribute(parser.read_i32(), name) {
                Ok(v) => Ok(CreationTimeStampChildAttrs::Millisecond(v)),
                Err(e) => Err(e),
            }
        } else {
            Err(Error::UnexpectedNode(vstd::slice::slice_to_vec(name)))
        }
    }
}


/// What the children of a `CreationTimeStamp` node read so far have given.
pub struct CreationTimeStampFields {
    /// `Version`.
    pub version: Option<i32>,
    /// `Year`.
    pub year: Option<i32>,
    /// `Month`.
    pub month: Option<i32>,
    /// `Day`.
    pub day: Option<i32>,
    /// `Hour`.
    pub hour: Option<i32>,
    /// `Minute`.
    pub minute: Option<i32>,
    /// `Second`.
    pub second: Option<i32>,
    /// `Millisecond`.
    pub millisecond: Option<i32>,
}

impl CreationTimeStampFields {
    /// Nothing has been read yet.
    pub open spec fn empty() -> CreationTimeStampFields {
        CreationTimeStampFields {
            version: None,
            year: None,
            month: None,
            day: None,
            hour: None,
            minute: None,
            second: None,
            millisecond: None,
        }
    }

    /// The fields after one more child has been read. A child that comes
    /// again replaces the one before it.
    pub open spec fn with(self, child: CreationTimeStampChildAttrs) -> CreationTimeStampFields {
        match child {
            CreationTimeStampChildAttrs::Version(v) => CreationTimeStampFields {
                version: Some(v),
                ..self
            },
            CreationTimeStampChildAttrs::Year(v) => CreationTimeStampFields {
                year: Some(v),
                ..self
            },
            CreationTimeStampChildAttrs::Month(v) => CreationTimeStampFields {
                month: Some(v),
                ..self
            },
            CreationTimeStampChildAttrs::Day(v) => CreationTimeStampFields { day: Some(v), ..self },
            CreationTimeStampChildAttrs::Hour(v) => CreationTimeStampFields {
                hour: Some(v),
                ..self
            },
            CreationTimeStampChildAttrs::Minute(v) => CreationTimeStampFields {
                minute: Some(v),
                ..self
            },
            CreationTimeStampChildAttrs::Second(v) => CreationTimeStampFields {
                second: Some(v),
                ..self
            },
            CreationTimeStampChildAttrs::Millisecond(v) => CreationTimeStampFields {
                millisecond: Some(v),
                ..self
            },
        }
    }

    /// The time stamp the fields make up, or the error for the first child
    /// that is missing.
    pub open spec fn finish(self) -> Result<CreationTimeStamp, ErrorModel> {
        if self.version is None {
            Err(missing("CreationTimeStamp", "Version"))
        } else if self.year is None {
            Err(missing("CreationTimeStamp", "Year"))
        } else if self.month is None {
            Err(missing("CreationTimeStamp", "Month"))
        } else if self.day is None {
            Err(missing("CreationTimeStamp", "Day"))
        } else if self.hour is None {
            Err(missing("CreationTimeStamp", "Hour"))
        } else if self.minute is None {
            Err(missing("CreationTimeStamp", "Minute"))
        } else if self.second is None {
            Err(missing("CreationTimeStamp", "Second"))
        } else if self.millisecond is None {
            Err(missing("CreationTimeStamp", "Millisecond"))
        } else {
            Ok(
                CreationTimeStamp {
                    version: self.version->0,
                    year: self.year->0,
                    month: self.month->0,
                    day: self.day->0,
                    hour: self.hour->0,
                    minute: self.minute->0,
                    second: self.second->0,
                    millisecond: self.millisecond->0,
                },
            )
        }
    }
}

impl CreationTimeStamp {
    /// What handling one child of a `CreationTimeStamp` node yields: its
    /// attributes are loaded and the rest of it is skipped.
    pub open spec fn step(initial_depth: nat) -> spec_fn(
        ParserModel,
        Seq<u8>,
        CreationTimeStampFields,
    ) -> (ParserModel, Result<CreationTimeStampFields, ErrorModel>) {
        |m: ParserModel, name: Seq<u8>, fields: CreationTimeStampFields|
            {
                let child = CreationTimeStampChildAttrs::parse(name, m, initial_depth);
                match child.1 {
                    Ok(attrs) => {
                        let skipped = child.0.skip_current_node_within(initial_depth);
                        (
                            skipped.0,
                            match skipped.1 {
                                Ok(_) => Ok(fields.with(attrs)),
                                Err(e) => Err(ErrorModel::Parser(e)),
                            },
                        )
                    },
                    Err(e) => (child.0, Err(e)),
                }
            }
    }

    /// What loading a `CreationTimeStamp` node yields when the parse stands
    /// behind the start of the node.
    #[verifier::opaque]
    pub open spec fn parse(m: ParserModel, initial_depth: nat) -> (
        ParserModel,
        Result<CreationTimeStamp, ErrorModel>,
    ) {
        let folded = fold_children(
            m,
            initial_depth,
            CreationTimeStampFields::empty(),
            Self::step(initial_depth),
        );
        (
            folded.0,
            match folded.1 {
                Ok(fields) => fields.finish(),
                Err(e) => Err(e),
            },
        )
    }

    /// Loads node contents from the parser.
    #[verifier::loop_isolation(false)]
    pub fn load(mut parser: SubtreeParser<'_>) -> (r: Result<CreationTimeStamp, Error>)
        requires
            parser.root@.wf(),
            parser.initial_depth > 0,
        ensures
            final(parser.root)@ == Self::parse(old(parser.root)@, parser.initial_depth as nat).0,
            final(parser.root)@.wf(),
            final(parser.root)@.follows(old(parser.root)@),
            match Self::parse(old(parser.root)@, parser.initial_depth as nat).1 {
                Ok(stamp) => r == Ok::<CreationTimeStamp, Error>(stamp),
                Err(e) => r matches Err(error) && error@ == e,
            },
    {
        let mut version: Option<i32> = None;
        let mut year: Option<i32> = None;
        let mut month: Option<i32> = None;
        let mut day: Option<i32> = None;
        let mut hour: Option<i32> = None;
        let mut minute: Option<i32> = None;
        let mut second: Option<i32> = None;
        let mut millisecond: Option<i32> = None;
        let ghost start = parser.root@;
        let ghost depth = parser.initial_depth as nat;
        let ghost end = *final(parser.root);
        proof {
            reveal(CreationTimeStamp::parse);
        }

        loop
            invariant
                parser.root@.wf(),
                parser.root@.follows(start),
                parser.initial_depth == depth,
                *final(parser.root) == end,
                fold_children(
                    parser.root@,
                    depth,
                    CreationTimeStampFields {
                        version,
                        year,
                        month,
                        day,
                        hour,
                        minute,
                        second,
                        millisecond,
                    },
                    Self::step(depth),
                ) == fold_children(
                    start,
                    depth,
                    CreationTimeStampFields::empty(),
                    Self::step(depth),
                ),
            decreases parser.root@.unread(),
        {
            let name = match parser.next_child() {
                Ok(Some(name)) => name,
                Ok(None) => {
                    return Ok(
                        CreationTimeStamp {
                            version: ensure_node_exists(version, "CreationTimeStamp", "Version")?,
                            year: ensure_node_exists(year, "CreationTimeStamp", "Year")?,
                            month: ensure_node_exists(month, "CreationTimeStamp", "Month")?,
                            day: ensure_node_exists(day, "CreationTimeStamp", "Day")?,
                            hour: ensure_node_exists(hour, "CreationTimeStamp", "Hour")?,
                            minute: ensure_node_exists(minute, "CreationTimeStamp", "Minute")?,
                            second: ensure_node_exists(second, "CreationTimeStamp", "Second")?,
                            millisecond: ensure_node_exists(
                                millisecond,
                                "CreationTimeStamp",
                                "Millisecond",
                            )?,
                        },
                    );
                },
                Err(e) => {
                    return Err(Error::Parser(e));
                },
            };
            let node_type = match CreationTimeStampChildAttrs::load(name.as_slice(), &mut parser) {
                Ok(node_type) => node_type,
                Err(e) => {
                    return Err(e);
                },
            };
            match node_type {
                CreationTimeStampChildAttrs::Version(v) => {
                    version = Some(v);
                },
                CreationTimeStampChildAttrs::Year(v) => {
                    year = Some(v);
                },
                CreationTimeStampChildAttrs::Month(v) => {
                    month = Some(v);
                },
                CreationTimeStampChildAttrs::Day(v) => {
                    day = Some(v);
                },
                CreationTimeStampChildAttrs::Hour(v) => {
                    hour = Some(v);
                },
                CreationTimeStampChildAttrs::Minute(v) => {
                    minute = Some(v);
                },
                CreationTimeStampChildAttrs::Second(v) => {
                    second = Some(v);
                },
                CreationTimeStampChildAttrs::Millisecond(v) => {
                    millisecond = Some(v);
                },
            }
            match parser.skip_current_node() {
                Ok(()) => {},
                Err(e) => {
                    return Err(Error::Parser(e));
                },
            }
        }
    }
}


/// Loading the attributes of a child of a `CreationTimeStamp` node leaves the
/// parse amid the attributes of that child.
pub proof fn lemma_creation_time_stamp_child_stays(name: Seq<u8>, m: ParserModel, d: nat)
    requires
        m.wf(),
    ensures
        CreationTimeStampChildAttrs::parse(name, m, d).0.amid_attributes_of(m),
        CreationTimeStampChildAttrs::parse(name, m, d).1 is Ok
            ==> CreationTimeStampChildAttrs::parse(name, m, d).0.state == m.state,
{
    reveal(CreationTimeStampChildAttrs::parse);
    lemma_read_i32_stays(m, d);
}

/// A `CreationTimeStamp` node that has been loaded has been read to its end:
/// the parse stands where skipping the node would have put it.
pub proof fn lemma_creation_time_stamp_leaves_node(m: ParserModel, d: nat)
    requires
        m.wf(),
        m.state is InDocument,
        m.depth() == d,
        d > 0,
        CreationTimeStamp::parse(m, d).1 is Ok,
    ensures
        m.skip_current_node().1 is Ok,
        CreationTimeStamp::parse(m, d).0 == m.skip_current_node().0,
{
    reveal(CreationTimeStamp::parse);
    let step = CreationTimeStamp::step(d);
    assert forall|child: ParserModel, name: Seq<u8>, fields: CreationTimeStampFields|
        child.wf() && child.state is InDocument && child.depth() == d + 1 && (#[trigger] step(
            child,
            name,
            fields,
        )).1 is Ok implies child.skip_current_node().1 is Ok && step(child, name, fields).0
        == child.skip_current_node().0 by {
        lemma_creation_time_stamp_child_stays(name, child, d);
        lemma_skip_amid_attributes(
            CreationTimeStampChildAttrs::parse(name, child, d).0,
            child,
            d,
        );
    }
    lemma_fold_leaves_node(m, d, CreationTimeStampFields::empty(), step);
}

/// FBX metadata.
#[derive(Debug, Clone, PartialEq, Eq, Hash)]
pub struct MetaData {
    /// Version.
    pub version: i32,
    /// Title.
    pub title: String,
    /// Subject.
    pub subject: String,
    /// Author.
    pub author: String,
    /// Keywords.
    pub keywords: String,
    /// Revision.
    pub revision: String,
    /// Comment.
    pub comment: String,
}

/// Mathematical model of a [`MetaData`].
pub struct MetaDataModel {
    /// Version.
    pub version: i32,
    /// Title.
    pub title: Seq<char>,
    /// Subject.
    pub subject: Seq<char>,
    /// Author.
    pub author: Seq<char>,
    /// Keywords.
    pub keywords: Seq<char>,
    /// Revision.
    pub revision: Seq<char>,
    /// Comment.
    pub comment: Seq<char>,
}

impl View for MetaData {
    type V = MetaDataModel;

    open spec fn view(&self) -> MetaDataModel {
        MetaDataModel {
            version: self.version,
            title: self.title@,
            subject: self.subject@,
            author: self.author@,
            keywords: self.keywords@,
            revision: self.revision@,
            comment: self.comment@,
        }
    }
}

/// A child of a `MetaData` node with the value it carries.
#[derive(Debug, Clone, PartialEq, Eq, Hash)]
pub enum MetaDataChildAttrs {
    /// `Version`.
    Version(i32),
    /// `Title`.
    Title(String),
    /// `Subject`.
    Subject(String),
    /// `Author`.
    Author(String),
    /// `Keywords`.
    Keywords(String),
    /// `Revision`.
    Revision(String),
    /// `Comment`.
    Comment(String),
}

/// Mathematical model of a [`MetaDataChildAttrs`].
pub enum MetaDataChildModel {
    /// `Version`.
    Version(i32),
    /// `Title`.
    Title(Seq<char>),
    /// `Subject`.
    Subject(Seq<char>),
    /// `Author`.
    Author(Seq<char>),
    /// `Keywords`.
    Keywords(Seq<char>),
    /// `Revision`.
    Revision(Seq<char>),
    /// `Comment`.
    Comment(Seq<char>),
}

impl View for MetaDataChildAttrs {
    type V = MetaDataChildModel;

    open spec fn view(&self) -> MetaDataChildModel {
        match self {
            MetaDataChildAttrs::Version(v) => MetaDataChildModel::Version(*v),
            MetaDataChildAttrs::Title(v) => MetaDataChildModel::Title(v@),
            MetaDataChildAttrs::Subject(v) => MetaDataChildModel::Subject(v@),
            MetaDataChildAttrs::Author(v) => MetaDataChildModel::Author(v@),
            MetaDataChildAttrs::Keywords(v) => MetaDataChildModel::Keywords(v@),
            MetaDataChildAttrs::Revision(v) => MetaDataChildModel::Revision(v@),
            MetaDataChildAttrs::Comment(v) => MetaDataChildModel::Comment(v@),
        }
    }
}

impl MetaDataChildAttrs {
    /// What loading the attributes of the child called `name` yields.
    #[verifier::opaque]
    pub open spec fn parse(name: Seq<u8>, m: ParserModel, initial_depth: nat) -> (
        ParserModel,
        Result<MetaDataChildModel, ErrorModel>,
    ) {
        let string = required_attribute(m.read_string(initial_depth), name);
        if name == "Version".spec_bytes() {
            map_loaded(
                required_attribute(m.read_i32(initial_depth), name),
                |v: i32| MetaDataChildModel::Version(v),
            )
        } else if name == "Title".spec_bytes() {
            map_loaded(string, |v: Seq<char>| MetaDataChildModel::Title(v))
        } else if name == "Subject".spec_bytes() {
            map_loaded(string, |v: Seq<char>| MetaDataChildModel::Subject(v))
        } else if name == "Author".spec_bytes() {
            map_loaded(string, |v: Seq<char>| MetaDataChildModel::Author(v))
        } else if name == "Keywords".spec_bytes() {
            map_loaded(string, |v: Seq<char>| MetaDataChildModel::Keywords(v))
        } else if name == "Revision".spec_bytes() {
            map_loaded(string, |v: Seq<char>| MetaDataChildModel::Revision(v))
        } else if name == "Comment".spec_bytes() {
            map_loaded(string, |v: Seq<char>| MetaDataChildModel::Comment(v))
        } else {
            (m, Err(ErrorModel::UnexpectedNode(name)))
        }
    }

    /// Creates a `MetaDataChildAttr` from the given node name.
    pub fn load(name: &[u8], parser: &mut SubtreeParser<'_>) -> (r: Result<
        MetaDataChildAttrs,
        Error,
    >)
        requires
            old(parser).root@.wf(),
        ensures
            final(parser).initial_depth == old(parser).initial_depth,
            *final(final(parser).root) == *final(old(parser).root),
            final(parser).root@ == Self::parse(
                name@,
                old(parser).root@,
                old(parser).initial_depth as nat,
            ).0,
            final(parser).root@.wf(),
            final(parser).root@.follows(old(parser).root@),
            final(parser).root@.open_nodes == old(parser).root@.open_nodes,
            match Self::parse(name@, old(parser).root@, old(parser).initial_depth as nat).1 {
                Ok(model) => r matches Ok(attrs) && attrs@ == model,
                Err(e) => r matches Err(error) && error@ == e,
            },
    {
        proof {
            reveal(MetaDataChildAttrs::parse);
        }
        if name_is(name, "Version") {
            match require_attribute(parser.read_i32(), name) {
                Ok(v) => Ok(MetaDataChildAttrs::Version(v)),
                Err(e) => Err(e),
            }
        } else if name_is(name, "Title") {
            match require_attribute(parser.read_string(), name) {
                Ok(v) => Ok(MetaDataChildAttrs::Title(v)),
                Err(e) => Err(e),
            }
        } else if name_is(name, "Subject") {
            match require_attribute(parser.read_string(), name) {
                Ok(v) => Ok(MetaDataChildAttrs::Subject(v)),
                Err(e) => Err(e),
            }
        } else if name_is(name, "Author") {
            match require_attribute(parser.read_string(), name) {
                Ok(v) => Ok(MetaDataChildAttrs::Author(v)),
                Err(e) => Err(e),
            }
        } else if name_is(name, "Keywords") {
            match require_attribute(parser.read_string(), name) {
                Ok(v) => Ok(MetaDataChildAttrs::Keywords(v)),
                Err(e) => Err(e),
            }
        } else if name_is(name, "Revision") {
            match require_attribute(parser.read_string(), name) {
                Ok(v) => Ok(MetaDataChildAttrs::Revision(v)),
                Err(e) => Err(e),
            }
        } else if name_is(name, "Comment") {
            match require_attribute(parser.read_string(), name) {
                Ok(v) => Ok(MetaDataChildAttrs::Comment(v)),
                Err(e) => Err(e),
            }
        } else {
            Err(Error::UnexpectedNode(vstd::slice::slice_to_vec(name)))
        }
    }
}

/// What the children of a `MetaData` node read so far have given.
pub struct MetaDataFields {
    /// `Version`.
    pub version: Option<i32>,
    /// `Title`.
    pub title: Option<Seq<char>>,
    /// `Subject`.
    pub subject: Option<Seq<char>>,
    /// `Author`.
    pub author: Option<Seq<char>>,
    /// `Keywords`.
    pub keywords: Option<Seq<char>>,
    /// `Revision`.
    pub revision: Option<Seq<char>>,
    /// `Comment`.
    pub comment: Option<Seq<char>>,
}

impl MetaDataFields {
    /// Nothing has been read yet.
    pub open spec fn empty() -> MetaDataFields {
        MetaDataFields {
            version: None,
            title: None,
            subject: None,
            author: None,
            keywords: None,
            revision: None,
            comment: None,
        }
    }

    /// The fields after one more child has been read. A child that comes
    /// again replaces the one before it.
    pub open spec fn with(self, child: MetaDataChildModel) -> MetaDataFields {
        match child {
            MetaDataChildModel::Version(v) => MetaDataFields { version: Some(v), ..self },
            MetaDataChildModel::Title(v) => MetaDataFields { title: Some(v), ..self },
            MetaDataChildModel::Subject(v) => MetaDataFields { subject: Some(v), ..self },
            MetaDataChildModel::Author(v) => MetaDataFields { author: Some(v), ..self },
            MetaDataChildModel::Keywords(v) => MetaDataFields { keywords: Some(v), ..self },
            MetaDataChildModel::Revision(v) => MetaDataFields { revision: Some(v), ..self },
            MetaDataChildModel::Comment(v) => MetaDataFields { comment: Some(v), ..self },
        }
    }

    /// The metadata the fields make up, or the error for the first child that
    /// is missing.
    pub open spec fn finish(self) -> Result<MetaDataModel, ErrorModel> {
        if self.version is None {
            Err(missing("MetaData", "Version"))
        } else if self.title is None {
            Err(missing("MetaData", "Title"))
        } else if self.subject is None {
            Err(missing("MetaData", "Subject"))
        } else if self.author is None {
            Err(missing("MetaData", "Author"))
        } else if self.keywords is None {
            Err(missing("MetaData", "Keywords"))
        } else if self.revision is None {
            Err(missing("MetaData", "Revision"))
        } else if self.comment is None {
            Err(missing("MetaData", "Comment"))
        } else {
            Ok(
                MetaDataModel {
                    version: self.version->0,
                    title: self.title->0,
                    subject: self.subject->0,
                    author: self.author->0,
                    keywords: self.keywords->0,
                    revision: self.revision->0,
                    comment: self.comment->0,
                },
            )
        }
    }
}

impl MetaData {
    /// What handling one child of a `MetaData` node yields: its attributes are
    /// loaded and the rest of it is skipped.
    pub open spec fn step(initial_depth: nat) -> spec_fn(ParserModel, Seq<u8>, MetaDataFields) -> (
        ParserModel,
        Result<MetaDataFields, ErrorModel>,
    ) {
        |m: ParserModel, name: Seq<u8>, fields: MetaDataFields|
            {
                let child = MetaDataChildAttrs::parse(name, m, initial_depth);
                match child.1 {
                    Ok(attrs) => {
                        let skipped = child.0.skip_current_node_within(initial_depth);
                        (
                            skipped.0,
                            match skipped.1 {
                                Ok(_) => Ok(fields.with(attrs)),
                                Err(e) => Err(ErrorModel::Parser(e)),
                            },
                        )
                    },
                    Err(e) => (child.0, Err(e)),
                }
            }
    }

    /// What loading a `MetaData` node yields when the parse stands behind the
    /// start of the node.
    #[verifier::opaque]
    pub open spec fn parse(m: ParserModel, initial_depth: nat) -> (
        ParserModel,
        Result<MetaDataModel, ErrorModel>,
    ) {
        let folded = fold_children(
            m,
            initial_depth,
            MetaDataFields::empty(),
            Self::step(initial_depth),
        );
        (
            folded.0,
            match folded.1 {
                Ok(fields) => fields.finish(),
                Err(e) => Err(e),
            },
        )
    }

    /// Loads node contents from the parser.
    #[verifier::loop_isolation(false)]
    pub fn load(mut parser: SubtreeParser<'_>) -> (r: Result<MetaData, Error>)
        requires
            parser.root@.wf(),
            parser.initial_depth > 0,
        ensures
            final(parser.root)@ == Self::parse(old(parser.root)@, parser.initial_depth as nat).0,
            final(parser.root)@.wf(),
            final(parser.root)@.follows(old(parser.root)@),
            match Self::parse(old(parser.root)@, parser.initial_depth as nat).1 {
                Ok(model) => r matches Ok(metadata) && metadata@ == model,
                Err(e) => r matches Err(error) && error@ == e,
            },
    {
        let mut version: Option<i32> = None;
        let mut title: Option<String> = None;
        let mut subject: Option<String> = None;
        let mut author: Option<String> = None;
        let mut keywords: Option<String> = None;
        let mut revision: Option<String> = None;
        let mut comment: Option<String> = None;
        let ghost start = parser.root@;
        let ghost depth = parser.initial_depth as nat;
        let ghost end = *final(parser.root);
        proof {
            reveal(MetaData::parse);
        }

        loop
            invariant
                parser.root@.wf(),
                parser.root@.follows(start),
                parser.initial_depth == depth,
                *final(parser.root) == end,
                fold_children(
                    parser.root@,
                    depth,
                    MetaDataFields {
                        version,
                        title: model_of(title),
                        subject: model_of(subject),
                        author: model_of(author),
                        keywords: model_of(keywords),
                        revision: model_of(revision),
                        comment: model_of(comment),
                    },
                    Self::step(depth),
                ) == fold_children(start, depth, MetaDataFields::empty(), Self::step(depth)),
            decreases parser.root@.unread(),
        {
            let name = match parser.next_child() {
                Ok(Some(name)) => name,
                Ok(None) => {
                    return Ok(
                        MetaData {
                            version: ensure_node_exists(version, "MetaData", "Version")?,
                            title: ensure_node_exists(title, "MetaData", "Title")?,
                            subject: ensure_node_exists(subject, "MetaData", "Subject")?,
                            author: ensure_node_exists(author, "MetaData", "Author")?,
                            keywords: ensure_node_exists(keywords, "MetaData", "Keywords")?,
                            revision: ensure_node_exists(revision, "MetaData", "Revision")?,
                            comment: ensure_node_exists(comment, "MetaData", "Comment")?,
                        },
                    );
                },
                Err(e) => {
                    return Err(Error::Parser(e));
                },
            };
            let node_type = match MetaDataChildAttrs::load(name.as_slice(), &mut parser) {
                Ok(node_type) => node_type,
                Err(e) => {
                    return Err(e);
                },
            };
            match node_type {
                MetaDataChildAttrs::Version(v) => {
                    version = Some(v);
                },
                MetaDataChildAttrs::Title(v) => {
                    title = Some(v);
                },
                MetaDataChildAttrs::Subject(v) => {
                    subject = Some(v);
                },
                MetaDataChildAttrs::Author(v) => {
                    author = Some(v);
                },
                MetaDataChildAttrs::Keywords(v) => {
                    keywords = Some(v);
                },
                MetaDataChildAttrs::Revision(v) => {
                    revision = Some(v);
                },
                MetaDataChildAttrs::Comment(v) => {
                    comment = Some(v);
                },
            }
            match parser.skip_current_node() {
                Ok(()) => {},
                Err(e) => {
                    return Err(Error::Parser(e));
                },
            }
        }
    }
}


/// Loading the attributes of a child of a `MetaData` node leaves the parse amid
/// the attributes of that child.
pub proof fn lemma_metadata_child_stays(name: Seq<u8>, m: ParserModel, d: nat)
    requires
        m.wf(),
    ensures
        MetaDataChildAttrs::parse(name, m, d).0.amid_attributes_of(m),
        MetaDataChildAttrs::parse(name, m, d).1 is Ok ==> MetaDataChildAttrs::parse(
            name,
            m,
            d,
        ).0.state == m.state,
{
    reveal(MetaDataChildAttrs::parse);
    lemma_read_i32_stays(m, d);
    lemma_read_string_stays(m, d);
}

/// A `MetaData` node that has been loaded has been read to its end: the parse
/// stands where skipping the node would have put it.
pub proof fn lemma_metadata_leaves_node(m: ParserModel, d: nat)
    requires
        m.wf(),
        m.state is InDocument,
        m.depth() == d,
        d > 0,
        MetaData::parse(m, d).1 is Ok,
    ensures
        m.skip_current_node().1 is Ok,
        MetaData::parse(m, d).0 == m.skip_current_node().0,
{
    reveal(MetaData::parse);
    let step = MetaData::step(d);
    assert forall|child: ParserModel, name: Seq<u8>, fields: MetaDataFields|
        child.wf() && child.state is InDocument && child.depth() == d + 1 && (#[trigger] step(
            child,
            name,
            fields,
        )).1 is Ok implies child.skip_current_node().1 is Ok && step(child, name, fields).0
        == child.skip_current_node().0 by {
        lemma_metadata_child_stays(name, child, d);
        lemma_skip_amid_attributes(MetaDataChildAttrs::parse(name, child, d).0, child, d);
    }
    lemma_fold_leaves_node(m, d, MetaDataFields::empty(), step);
}

/// The two bytes `0x00 0x01`, which part the name of an object from its class,
/// stand at index `i` of `bytes`.
pub open spec fn separator_at(bytes: Seq<u8>, i: int) -> bool {
    0 <= i && i + 1 < bytes.len() && bytes[i] == 0 && bytes[i + 1] == 1
}

/// Index of the first separator in `bytes`.
pub open spec fn first_separator(bytes: Seq<u8>) -> Option<int>
    decreases bytes.len(),
{
    if bytes.len() < 2 {
        None
    } else if separator_at(bytes, 0) {
        Some(0)
    } else {
        match first_separator(bytes.skip(1)) {
            Some(i) => Some(i + 1),
            None => None,
        }
    }
}

/// The bytes before and behind the first separator in `bytes`.
pub open spec fn separated(bytes: Seq<u8>) -> Option<(Seq<u8>, Seq<u8>)> {
    match first_separator(bytes) {
        Some(i) => Some((bytes.take(i), bytes.skip(i + 2))),
        None => None,
    }
}

/// The first separator is where a separator stands and none stands before.
pub proof fn lemma_first_separator_found(bytes: Seq<u8>, k: int)
    requires
        separator_at(bytes, k),
        forall|j: int| 0 <= j < k ==> !separator_at(bytes, j),
    ensures
        first_separator(bytes) == Some(k),
    decreases k,
{
    if k > 0 {
        let rest = bytes.skip(1);
        assert forall|j: int| 0 <= j < k - 1 implies !separator_at(rest, j) by {
            assert(!separator_at(bytes, j + 1));
        }
        lemma_first_separator_found(rest, k - 1);
    }
}

/// There is no first separator where no separator stands.
pub proof fn lemma_first_separator_missing(bytes: Seq<u8>)
    requires
        forall|j: int| 0 <= j ==> !separator_at(bytes, j),
    ensures
        first_separator(bytes) is None,
    decreases bytes.len(),
{
    if bytes.len() >= 2 {
        let rest = bytes.skip(1);
        assert forall|j: int| 0 <= j implies !separator_at(rest, j) by {
            assert(!separator_at(bytes, j + 1));
        }
        lemma_first_separator_missing(rest);
    }
}

/// Returns `Option<(name: &'a str, class: &'a str)>`
///
/// The string is parted at the first `"\u{0}\u{1}"` in it.
pub fn separate_name_class<'a>(name_class: &'a str) -> (r: Option<(&'a str, &'a str)>)
    ensures
        match separated(name_class.spec_bytes()) {
            Some(parts) => r matches Some(pair) && pair.0.spec_bytes() == parts.0
                && pair.1.spec_bytes() == parts.1,
            None => r is None,
        },
{
    let bytes = name_class.as_bytes();
    let len: usize = bytes.len();
    if len < 2 {
        return None;
    }
    proof {
        vstd::utf8::encode_utf8_valid_utf8(name_class@);
    }
    let mut i: usize = 0;
    while i < len - 1
        invariant
            2 <= len == bytes.len(),
            bytes@ == name_class.spec_bytes(),
            vstd::utf8::valid_utf8(bytes@),
            forall|j: int| 0 <= j < i ==> !separator_at(bytes@, j),
        decreases len - i,
    {
        if bytes[i] == 0 && bytes[i + 1] == 1 {
            proof {
                lemma_first_separator_found(bytes@, i as int);
                vstd::utf8::is_char_boundary_iff_not_is_continuation_byte(bytes@, i as int);
            }
            let (name, rest) = name_class.split_at(i);
            proof {
                let tail = rest.spec_bytes();
                assert(tail[0] == 0 && tail[1] == 1);
                vstd::utf8::valid_utf8_split(bytes@, i as int);
                assert(tail =~= bytes@.subrange(i as int, bytes@.len() as int));
                reveal_with_fuel(vstd::utf8::is_char_boundary, 3);
                reveal_with_fuel(vstd::utf8::valid_utf8, 3);
                assert(vstd::utf8::is_char_boundary(tail, 2));
            }
            let (_, class) = rest.split_at(2);
            assert(class.spec_bytes() =~= bytes@.skip(i + 2));
            assert(name.spec_bytes() =~= bytes@.take(i as int));
            return Some((name, class));
        }
        i = i + 1;
    }
    proof {
        lemma_first_separator_missing(bytes@);
    }
    None
}


/// Scene info.
#[derive(Debug, Clone, PartialEq)]
pub struct SceneInfo {
    /// Object name?
    pub name: String,
    /// Object class?
    ///
    /// This is usually `SceneInfo`?
    pub class: String,
    /// Object subclass?
    ///
    /// This is usually `UserData`?
    pub subclass: String,
    /// Type.
    ///
    /// This is usually `UserData`?
    pub type_: String,
    /// Version.
    pub version: i32,
    /// Metadata about the FBX data.
    pub metadata: MetaData,
    /// Properties about FBX file and data.
    pub properties: Properties70,
}

/// Mathematical model of a [`SceneInfo`].
pub struct SceneInfoModel {
    /// Object name.
    pub name: Seq<char>,
    /// Object class.
    pub class: Seq<char>,
    /// Object subclass.
    pub subclass: Seq<char>,
    /// Type.
    pub type_: Seq<char>,
    /// Version.
    pub version: i32,
    /// Metadata about the FBX data.
    pub metadata: MetaDataModel,
    /// Properties about FBX file and data.
    pub properties: Properties70Model,
}

impl View for SceneInfo {
    type V = SceneInfoModel;

    open spec fn view(&self) -> SceneInfoModel {
        SceneInfoModel {
            name: self.name@,
            class: self.class@,
            subclass: self.subclass@,
            type_: self.type_@,
            version: self.version,
            metadata: self.metadata@,
            properties: self.properties@,
        }
    }
}

/// A child of a `SceneInfo` node with the value it carries.
#[derive(Debug, Clone, PartialEq, Eq, Hash)]
pub enum SceneInfoChildAttrs {
    /// `Type`.
    Type(String),
    /// `Version`.
    Version(i32),
    /// `MetaData`.
    MetaData,
    /// `Properties70`.
    Properties,
}

/// Mathematical model of a [`SceneInfoChildAttrs`].
pub enum SceneInfoChildModel {
    /// `Type`.
    Type(Seq<char>),
    /// `Version`.
    Version(i32),
    /// `MetaData`.
    MetaData,
    /// `Properties70`.
    Properties,
}

impl View for SceneInfoChildAttrs {
    type V = SceneInfoChildModel;

    open spec fn view(&self) -> SceneInfoChildModel {
        match self {
            SceneInfoChildAttrs::Type(v) => SceneInfoChildModel::Type(v@),
            SceneInfoChildAttrs::Version(v) => SceneInfoChildModel::Version(*v),
            SceneInfoChildAttrs::MetaData => SceneInfoChildModel::MetaData,
            SceneInfoChildAttrs::Properties => SceneInfoChildModel::Properties,
        }
    }
}

impl SceneInfoChildAttrs {
    /// What loading the attributes of the child called `name` yields.
    #[verifier::opaque]
    pub open spec fn parse(name: Seq<u8>, m: ParserModel, initial_depth: nat) -> (
        ParserModel,
        Result<SceneInfoChildModel, ErrorModel>,
    ) {
        if name == "Type".spec_bytes() {
            map_loaded(
                required_attribute(m.read_string(initial_depth), name),
                |v: Seq<char>| SceneInfoChildModel::Type(v),
            )
        } else if name == "Version".spec_bytes() {
            map_loaded(
                required_attribute(m.read_i32(initial_depth), name),
                |v: i32| SceneInfoChildModel::Version(v),
            )
        } else if name == "MetaData".spec_bytes() {
            (m, Ok(SceneInfoChildModel::MetaData))
        } else if name == "Properties70".spec_bytes() {
            (m, Ok(SceneInfoChildModel::Properties))
        } else {
            (m, Err(ErrorModel::UnexpectedNode(name)))
        }
    }

    /// Creates a `SceneInfoChildAttr` from the given node name.
    pub fn load(name: &[u8], parser: &mut SubtreeParser<'_>) -> (r: Result<
        SceneInfoChildAttrs,
        Error,
    >)
        requires
            old(parser).root@.wf(),
        ensures
            final(parser).initial_depth == old(parser).initial_depth,
            *final(final(parser).root) == *final(old(parser).root),
            final(parser).root@ == Self::parse(
                name@,
                old(parser).root@,
                old(parser).initial_depth as nat,
            ).0,
            final(parser).root@.wf(),
            final(parser).root@.follows(old(parser).root@),
            final(parser).root@.open_nodes == old(parser).root@.open_nodes,
            match Self::parse(name@, old(parser).root@, old(parser).initial_depth as nat).1 {
                Ok(model) => r matches Ok(attrs) && attrs@ == model,
                Err(e) => r matches Err(error) && error@ == e,
            },
    {
        proof {
            reveal(SceneInfoChildAttrs::parse);
        }
        if name_is(name, "Type") {
            match require_attribute(parser.read_string(), name) {
                Ok(v) => Ok(SceneInfoChildAttrs::Type(v)),
                Err(e) => Err(e),
            }
        } else if name_is(name, "Version") {
            match require_attribute(parser.read_i32(), name) {
                Ok(v) => Ok(SceneInfoChildAttrs::Version(v)),
                Err(e) => Err(e),
            }
        } else if name_is(name, "MetaData") {
            Ok(SceneInfoChildAttrs::MetaData)
        } else if name_is(name, "Properties70") {
            Ok(SceneInfoChildAttrs::Properties)
        } else {
            Err(Error::UnexpectedNode(vstd::slice::slice_to_vec(name)))
        }
    }
}

/// What the children of a `SceneInfo` node read so far have given.
pub struct SceneInfoFields {
    /// `Type`.
    pub type_: Option<Seq<char>>,
    /// `Version`.
    pub version: Option<i32>,
    /// `MetaData`.
    pub metadata: Option<MetaDataModel>,
    /// `Properties70`.
    pub properties: Option<Properties70Model>,
}

impl SceneInfoFields {
    /// Nothing has been read yet.
    pub open spec fn empty() -> SceneInfoFields {
        SceneInfoFields { type_: None, version: None, metadata: None, properties: None }
    }

    /// The scene info the fields make up for an object of the given name,
    /// class and subclass, or the error for the first child that is missing.
    pub open spec fn finish(self, name: Seq<char>, class: Seq<char>, subclass: Seq<char>) -> Result<
        SceneInfoModel,
        ErrorModel,
    > {
        if self.type_ is None {
            Err(missing("SceneInfo", "Type"))
        } else if self.version is None {
            Err(missing("SceneInfo", "Version"))
        } else if self.metadata is None {
            Err(missing("SceneInfo", "MetaData"))
        } else if self.properties is None {
            Err(missing("SceneInfo", "Properties70"))
        } else {
            Ok(
                SceneInfoModel {
                    name,
                    class,
                    subclass,
                    type_: self.type_->0,
                    version: self.version->0,
                    metadata: self.metadata->0,
                    properties: self.properties->0,
                },
            )
        }
    }
}

impl SceneInfo {
    /// What handling one child of a `SceneInfo` node yields: `Type` and
    /// `Version` give their value and are skipped, `MetaData` and
    /// `Properties70` are loaded with their own children.
    pub open spec fn step(initial_depth: nat) -> spec_fn(ParserModel, Seq<u8>, SceneInfoFields) -> (
        ParserModel,
        Result<SceneInfoFields, ErrorModel>,
    ) {
        |m: ParserModel, name: Seq<u8>, fields: SceneInfoFields|
            {
                let child = SceneInfoChildAttrs::parse(name, m, initial_depth);
                let skipped = child.0.skip_current_node_within(initial_depth);
                match child.1 {
                    Ok(SceneInfoChildModel::Type(v)) => (
                        skipped.0,
                        match skipped.1 {
                            Ok(_) => Ok(SceneInfoFields { type_: Some(v), ..fields }),
                            Err(e) => Err(ErrorModel::Parser(e)),
                        },
                    ),
                    Ok(SceneInfoChildModel::Version(v)) => (
                        skipped.0,
                        match skipped.1 {
                            Ok(_) => Ok(SceneInfoFields { version: Some(v), ..fields }),
                            Err(e) => Err(ErrorModel::Parser(e)),
                        },
                    ),
                    Ok(SceneInfoChildModel::MetaData) => {
                        let loaded = MetaData::parse(child.0, child.0.depth());
                        (
                            loaded.0,
                            match loaded.1 {
                                Ok(v) => Ok(SceneInfoFields { metadata: Some(v), ..fields }),
                                Err(e) => Err(e),
                            },
                        )
                    },
                    Ok(SceneInfoChildModel::Properties) => {
                        let loaded = Properties70::parse(child.0, child.0.depth());
                        (
                            loaded.0,
                            match loaded.1 {
                                Ok(v) => Ok(SceneInfoFields { properties: Some(v), ..fields }),
                                Err(e) => Err(e),
                            },
                        )
                    },
                    Err(e) => (child.0, Err(e)),
                }
            }
    }

    /// What loading a `SceneInfo` node with the given two attributes yields
    /// when the parse stands behind the start of the node. The first
    /// attribute holds the name and the class, parted by a separator in its
    /// UTF-8 encoding; without the separator nothing is read.
    #[verifier::opaque]
    pub open spec fn parse(m: ParserModel, initial_depth: nat, attrs: (Seq<char>, Seq<char>)) -> (
        ParserModel,
        Result<SceneInfoModel, ErrorModel>,
    ) {
        match separated(vstd::utf8::encode_utf8(attrs.0)) {
            Some(parts) => {
                let folded = fold_children(
                    m,
                    initial_depth,
                    SceneInfoFields::empty(),
                    Self::step(initial_depth),
                );
                (
                    folded.0,
                    match folded.1 {
                        Ok(fields) => fields.finish(
                            vstd::utf8::decode_utf8(parts.0),
                            vstd::utf8::decode_utf8(parts.1),
                            attrs.1,
                        ),
                        Err(e) => Err(e),
                    },
                )
            },
            None => (m, Err(ErrorModel::InvalidAttribute("SceneInfo".spec_bytes()))),
        }
    }

    /// Loads node contents from the parser.
    #[verifier::loop_isolation(false)]
    pub fn load(mut parser: SubtreeParser<'_>, attrs: (String, String)) -> (r: Result<
        SceneInfo,
        Error,
    >)
        requires
            parser.root@.wf(),
            parser.initial_depth > 0,
        ensures
            final(parser.root)@ == Self::parse(
                old(parser.root)@,
                parser.initial_depth as nat,
                (attrs.0@, attrs.1@),
            ).0,
            final(parser.root)@.wf(),
            final(parser.root)@.follows(old(parser.root)@),
            match Self::parse(
                old(parser.root)@,
                parser.initial_depth as nat,
                (attrs.0@, attrs.1@),
            ).1 {
                Ok(model) => r matches Ok(info) && info@ == model,
                Err(e) => r matches Err(error) && error@ == e,
            },
    {
        let mut type_: Option<String> = None;
        let mut version: Option<i32> = None;
        let mut metadata: Option<MetaData> = None;
        let mut properties: Option<Properties70> = None;
        let ghost start = parser.root@;
        let ghost depth = parser.initial_depth as nat;
        let ghost end = *final(parser.root);
        proof {
            reveal(SceneInfo::parse);
        }

        // Attrs.
        let (name, class): (String, String) = match separate_name_class(attrs.0.as_str()) {
            Some((n, c)) => {
                proof {
                    vstd::utf8::encode_utf8_decode_utf8(n@);
                    vstd::utf8::encode_utf8_decode_utf8(c@);
                }
                (n.to_owned(), c.to_owned())
            },
            None => {
                return Err(
                    Error::InvalidAttribute(vstd::slice::slice_to_vec("SceneInfo".as_bytes())),
                );
            },
        };
        let subclass = attrs.1;

        loop
            invariant
                parser.root@.wf(),
                parser.root@.follows(start),
                parser.initial_depth == depth,
                *final(parser.root) == end,
                fold_children(
                    parser.root@,
                    depth,
                    SceneInfoFields {
                        type_: model_of(type_),
                        version,
                        metadata: model_of(metadata),
                        properties: model_of(properties),
                    },
                    Self::step(depth),
                ) == fold_children(start, depth, SceneInfoFields::empty(), Self::step(depth)),
            decreases parser.root@.unread(),
        {
            let node_name = match parser.next_child() {
                Ok(Some(node_name)) => node_name,
                Ok(None) => {
                    return Ok(
                        SceneInfo {
                            name,
                            class,
                            subclass,
                            type_: ensure_node_exists(type_, "SceneInfo", "Type")?,
                            version: ensure_node_exists(version, "SceneInfo", "Version")?,
                            metadata: ensure_node_exists(metadata, "SceneInfo", "MetaData")?,
                            properties: ensure_node_exists(
                                properties,
                                "SceneInfo",
                                "Properties70",
                            )?,
                        },
                    );
                },
                Err(e) => {
                    return Err(Error::Parser(e));
                },
            };
            let node_type = match SceneInfoChildAttrs::load(node_name.as_slice(), &mut parser) {
                Ok(node_type) => node_type,
                Err(e) => {
                    return Err(e);
                },
            };
            match node_type {
                SceneInfoChildAttrs::Type(v) => {
                    type_ = Some(v);
                    match parser.skip_current_node() {
                        Ok(()) => {},
                        Err(e) => {
                            return Err(Error::Parser(e));
                        },
                    }
                },
                SceneInfoChildAttrs::Version(v) => {
                    version = Some(v);
                    match parser.skip_current_node() {
                        Ok(()) => {},
                        Err(e) => {
                            return Err(Error::Parser(e));
                        },
                    }
                },
                SceneInfoChildAttrs::MetaData => {
                    match MetaData::load(parser.subtree_parser()) {
                        Ok(v) => {
                            metadata = Some(v);
                        },
                        Err(e) => {
                            return Err(e);
                        },
                    }
                },
                SceneInfoChildAttrs::Properties => {
                    match Properties70::load(parser.subtree_parser()) {
                        Ok(v) => {
                            properties = Some(v);
                        },
                        Err(e) => {
                            return Err(e);
                        },
                    }
                },
            }
        }
    }
}


/// Loading the attributes of a child of a `SceneInfo` node leaves the parse amid
/// the attributes of that child.
pub proof fn lemma_scene_info_child_stays(name: Seq<u8>, m: ParserModel, d: nat)
    requires
        m.wf(),
    ensures
        SceneInfoChildAttrs::parse(name, m, d).0.amid_attributes_of(m),
        SceneInfoChildAttrs::parse(name, m, d).1 is Ok ==> SceneInfoChildAttrs::parse(
            name,
            m,
            d,
        ).0.state == m.state,
{
    reveal(SceneInfoChildAttrs::parse);
    lemma_read_i32_stays(m, d);
    lemma_read_string_stays(m, d);
}

/// A `SceneInfo` node that has been loaded has been read to its end: the
/// parse stands where skipping the node would have put it.
pub proof fn lemma_scene_info_leaves_node(m: ParserModel, d: nat, attrs: (Seq<char>, Seq<char>))
    requires
        m.wf(),
        m.state is InDocument,
        m.depth() == d,
        d > 0,
        SceneInfo::parse(m, d, attrs).1 is Ok,
    ensures
        m.skip_current_node().1 is Ok,
        SceneInfo::parse(m, d, attrs).0 == m.skip_current_node().0,
{
    reveal(SceneInfo::parse);
    let step = SceneInfo::step(d);
    assert forall|child: ParserModel, name: Seq<u8>, fields: SceneInfoFields|
        child.wf() && child.state is InDocument && child.depth() == d + 1 && (#[trigger] step(
            child,
            name,
            fields,
        )).1 is Ok implies child.skip_current_node().1 is Ok && step(child, name, fields).0
        == child.skip_current_node().0 by {
        let loaded = SceneInfoChildAttrs::parse(name, child, d);
        lemma_scene_info_child_stays(name, child, d);
        lemma_skip_amid_attributes(loaded.0, child, d);
        if loaded.1 matches Ok(SceneInfoChildModel::MetaData) {
            lemma_metadata_leaves_node(loaded.0, loaded.0.depth());
        }
        if loaded.1 matches Ok(SceneInfoChildModel::Properties) {
            lemma_properties70_leaves_node(loaded.0, loaded.0.depth());
        }
    }
    lemma_fold_leaves_node(m, d, SceneInfoFields::empty(), step);
}

/// `FBXHeaderExtension` node.
#[derive(Debug, Clone, PartialEq)]
pub struct FbxHeaderExtension {
    /// Version of the node.
    pub fbx_header_version: i32,
    /// Version of the FBX.
    pub fbx_version: i32,
    /// Encryption type.
    pub encryption_type: i32,
    /// Creation time stamp.
    pub creation_timestamp: CreationTimeStamp,
    /// Creator.
    pub creator: String,
    /// Scene info.
    pub scene_info: SceneInfo,
}

/// Mathematical model of an [`FbxHeaderExtension`].
pub struct FbxHeaderExtensionModel {
    /// Version of the node.
    pub fbx_header_version: i32,
    /// Version of the FBX.
    pub fbx_version: i32,
    /// Encryption type.
    pub encryption_type: i32,
    /// Creation time stamp.
    pub creation_timestamp: CreationTimeStamp,
    /// Creator.
    pub creator: Seq<char>,
    /// Scene info.
    pub scene_info: SceneInfoModel,
}

impl View for FbxHeaderExtension {
    type V = FbxHeaderExtensionModel;

    open spec fn view(&self) -> FbxHeaderExtensionModel {
        FbxHeaderExtensionModel {
            fbx_header_version: self.fbx_header_version,
            fbx_version: self.fbx_version,
            encryption_type: self.encryption_type,
            creation_timestamp: self.creation_timestamp,
            creator: self.creator@,
            scene_info: self.scene_info@,
        }
    }
}

/// A child of an `FBXHeaderExtension` node with the value it carries.
#[derive(Debug, PartialEq, Eq, Hash)]
pub enum FbxHeaderExtensionChildAttrs {
    /// `FBXHeaderVersion`.
    FbxHeaderVersion(i32),
    /// `FBXVersion`.
    FbxVersion(i32),
    /// `EncryptionType`.
    EncryptionType(i32),
    /// `CreationTimeStamp`.
    CreationTimeStamp,
    /// `Creator`.
    Creator(String),
    /// `SceneInfo`.
    SceneInfo((String, String)),
}

/// Mathematical model of an [`FbxHeaderExtensionChildAttrs`].
pub enum FbxHeaderExtensionChildModel {
    /// `FBXHeaderVersion`.
    FbxHeaderVersion(i32),
    /// `FBXVersion`.
    FbxVersion(i32),
    /// `EncryptionType`.
    EncryptionType(i32),
    /// `CreationTimeStamp`.
    CreationTimeStamp,
    /// `Creator`.
    Creator(Seq<char>),
    /// `SceneInfo`.
    SceneInfo((Seq<char>, Seq<char>)),
}

impl View for FbxHeaderExtensionChildAttrs {
    type V = FbxHeaderExtensionChildModel;

    open spec fn view(&self) -> FbxHeaderExtensionChildModel {
        match self {
            FbxHeaderExtensionChildAttrs::FbxHeaderVersion(v) => {
                FbxHeaderExtensionChildModel::FbxHeaderVersion(*v)
            },
            FbxHeaderExtensionChildAttrs::FbxVersion(v) => {
                FbxHeaderExtensionChildModel::FbxVersion(*v)
            },
            FbxHeaderExtensionChildAttrs::EncryptionType(v) => {
                FbxHeaderExtensionChildModel::EncryptionType(*v)
            },
            FbxHeaderExtensionChildAttrs::CreationTimeStamp => {
                FbxHeaderExtensionChildModel::CreationTimeStamp
            },
            FbxHeaderExtensionChildAttrs::Creator(v) => FbxHeaderExtensionChildModel::Creator(v@),
            FbxHeaderExtensionChildAttrs::SceneInfo(v) => FbxHeaderExtensionChildModel::SceneInfo(
                (v.0@, v.1@),
            ),
        }
    }
}

impl Clone for FbxHeaderExtensionChildAttrs {
    fn clone(&self) -> (copy: FbxHeaderExtensionChildAttrs)
        ensures
            copy@ == self@,
    {
        match self {
            FbxHeaderExtensionChildAttrs::FbxHeaderVersion(v) => {
                FbxHeaderExtensionChildAttrs::FbxHeaderVersion(*v)
            },
            FbxHeaderExtensionChildAttrs::FbxVersion(v) => {
                FbxHeaderExtensionChildAttrs::FbxVersion(*v)
            },
            FbxHeaderExtensionChildAttrs::EncryptionType(v) => {
                FbxHeaderExtensionChildAttrs::EncryptionType(*v)
            },
            FbxHeaderExtensionChildAttrs::CreationTimeStamp => {
                FbxHeaderExtensionChildAttrs::CreationTimeStamp
            },
            FbxHeaderExtensionChildAttrs::Creator(v) => {
                FbxHeaderExtensionChildAttrs::Creator(v.clone())
            },
            FbxHeaderExtensionChildAttrs::SceneInfo(v) => {
                FbxHeaderExtensionChildAttrs::SceneInfo((v.0.clone(), v.1.clone()))
            },
        }
    }
}

impl FbxHeaderExtensionChildAttrs {
    /// What loading the attributes of the child called `name` yields.
    #[verifier::opaque]
    pub open spec fn parse(name: Seq<u8>, m: ParserModel, initial_depth: nat) -> (
        ParserModel,
        Result<FbxHeaderExtensionChildModel, ErrorModel>,
    ) {
        let number = required_attribute(m.read_i32(initial_depth), name);
        if name == "FBXVersion".spec_bytes() {
            map_loaded(number, |v: i32| FbxHeaderExtensionChildModel::FbxVersion(v))
        } else if name == "FBXHeaderVersion".spec_bytes() {
            map_loaded(number, |v: i32| FbxHeaderExtensionChildModel::FbxHeaderVersion(v))
        } else if name == "EncryptionType".spec_bytes() {
            map_loaded(number, |v: i32| FbxHeaderExtensionChildModel::EncryptionType(v))
        } else if name == "CreationTimeStamp".spec_bytes() {
            (m, Ok(FbxHeaderExtensionChildModel::CreationTimeStamp))
        } else if name == "Creator".spec_bytes() {
            map_loaded(
                required_attribute(m.read_string(initial_depth), name),
                |v: Seq<char>| FbxHeaderExtensionChildModel::Creator(v),
            )
        } else if name == "SceneInfo".spec_bytes() {
            map_loaded(
                required_attribute(m.read_string_pair(initial_depth), name),
                |v: (Seq<char>, Seq<char>)| FbxHeaderExtensionChildModel::SceneInfo(v),
            )
        } else {
            (m, Err(ErrorModel::UnexpectedNode(name)))
        }
    }

    /// Creates a `FbxHeaderExtensionChildAttrs` from the given node name.
    pub fn load(name: &[u8], parser: &mut SubtreeParser<'_>) -> (r: Result<
        FbxHeaderExtensionChildAttrs,
        Error,
    >)
        requires
            old(parser).root@.wf(),
        ensures
            final(parser).initial_depth == old(parser).initial_depth,
            *final(final(parser).root) == *final(old(parser).root),
            final(parser).root@ == Self::parse(
                name@,
                old(parser).root@,
                old(parser).initial_depth as nat,
            ).0,
            final(parser).root@.wf(),
            final(parser).root@.follows(old(parser).root@),
            final(parser).root@.open_nodes == old(parser).root@.open_nodes,
            match Self::parse(name@, old(parser).root@, old(parser).initial_depth as nat).1 {
                Ok(model) => r matches Ok(attrs) && attrs@ == model,
                Err(e) => r matches Err(error) && error@ == e,
            },
    {
        proof {
            reveal(FbxHeaderExtensionChildAttrs::parse);
        }
        if name_is(name, "FBXVersion") {
            match require_attribute(parser.read_i32(), name) {
                Ok(v) => Ok(FbxHeaderExtensionChildAttrs::FbxVersion(v)),
                Err(e) => Err(e),
            }
        } else if name_is(name, "FBXHeaderVersion") {
            match require_attribute(parser.read_i32(), name) {
                Ok(v) => Ok(FbxHeaderExtensionChildAttrs::FbxHeaderVersion(v)),
                Err(e) => Err(e),
            }
        } else if name_is(name, "EncryptionType") {
            match require_attribute(parser.read_i32(), name) {
                Ok(v) => Ok(FbxHeaderExtensionChildAttrs::EncryptionType(v)),
                Err(e) => Err(e),
            }
        } else if name_is(name, "CreationTimeStamp") {
            Ok(FbxHeaderExtensionChildAttrs::CreationTimeStamp)
        } else if name_is(name, "Creator") {
            match require_attribute(parser.read_string(), name) {
                Ok(v) => Ok(FbxHeaderExtensionChildAttrs::Creator(v)),
                Err(e) => Err(e),
            }
        } else if name_is(name, "SceneInfo") {
            match require_attribute(parser.read_string_pair(), name) {
                Ok(v) => Ok(FbxHeaderExtensionChildAttrs::SceneInfo(v)),
                Err(e) => Err(e),
            }
        } else {
            Err(Error::UnexpectedNode(vstd::slice::slice_to_vec(name)))
        }
    }
}

/// What the children of an `FBXHeaderExtension` node read so far have given.
pub struct FbxHeaderExtensionFields {
    /// `FBXHeaderVersion`.
    pub fbx_header_version: Option<i32>,
    /// `FBXVersion`.
    pub fbx_version: Option<i32>,
    /// `EncryptionType`.
    pub encryption_type: Option<i32>,
    /// `CreationTimeStamp`.
    pub creation_timestamp: Option<CreationTimeStamp>,
    /// `Creator`.
    pub creator: Option<Seq<char>>,
    /// `SceneInfo`.
    pub scene_info: Option<SceneInfoModel>,
}

impl FbxHeaderExtensionFields {
    /// Nothing has been read yet.
    pub open spec fn empty() -> FbxHeaderExtensionFields {
        FbxHeaderExtensionFields {
            fbx_header_version: None,
            fbx_version: None,
            encryption_type: None,
            creation_timestamp: None,
            creator: None,
            scene_info: None,
        }
    }

    /// The header extension the fields make up, or the error for the first
    /// child that is missing.
    pub open spec fn finish(self) -> Result<FbxHeaderExtensionModel, ErrorModel> {
        if self.fbx_header_version is None {
            Err(missing("FBXHeaderExtension", "FBXHeaderVersion"))
        } else if self.fbx_version is None {
            Err(missing("FBXHeaderExtension", "FBXVersion"))
        } else if self.encryption_type is None {
            Err(missing("FBXHeaderExtension", "EncryptionType"))
        } else if self.creation_timestamp is None {
            Err(missing("FBXHeaderExtension", "CreationTimeStamp"))
        } else if self.creator is None {
            Err(missing("FBXHeaderExtension", "Creator"))
        } else if self.scene_info is None {
            Err(missing("FBXHeaderExtension", "SceneInfo"))
        } else {
            Ok(
                FbxHeaderExtensionModel {
                    fbx_header_version: self.fbx_header_version->0,
                    fbx_version: self.fbx_version->0,
                    encryption_type: self.encryption_type->0,
                    creation_timestamp: self.creation_timestamp->0,
                    creator: self.creator->0,
                    scene_info: self.scene_info->0,
                },
            )
        }
    }
}

impl FbxHeaderExtension {
    /// What handling one child of an `FBXHeaderExtension` node yields: the
    /// children that carry one value give it and are skipped,
    /// `CreationTimeStamp` and `SceneInfo` are loaded with their own children.
    pub open spec fn step(initial_depth: nat) -> spec_fn(
        ParserModel,
        Seq<u8>,
        FbxHeaderExtensionFields,
    ) -> (ParserModel, Result<FbxHeaderExtensionFields, ErrorModel>) {
        |m: ParserModel, name: Seq<u8>, fields: FbxHeaderExtensionFields|
            {
                let child = FbxHeaderExtensionChildAttrs::parse(name, m, initial_depth);
                let skipped = child.0.skip_current_node_within(initial_depth);
                let skip_error = ErrorModel::Parser(skipped.1->Err_0);
                match child.1 {
                    Ok(FbxHeaderExtensionChildModel::FbxHeaderVersion(v)) => (
                        skipped.0,
                        if skipped.1 is Ok {
                            Ok(FbxHeaderExtensionFields { fbx_header_version: Some(v), ..fields })
                        } else {
                            Err(skip_error)
                        },
                    ),
                    Ok(FbxHeaderExtensionChildModel::FbxVersion(v)) => (
                        skipped.0,
                        if skipped.1 is Ok {
                            Ok(FbxHeaderExtensionFields { fbx_version: Some(v), ..fields })
                        } else {
                            Err(skip_error)
                        },
                    ),
                    Ok(FbxHeaderExtensionChildModel::EncryptionType(v)) => (
                        skipped.0,
                        if skipped.1 is Ok {
                            Ok(FbxHeaderExtensionFields { encryption_type: Some(v), ..fields })
                        } else {
                            Err(skip_error)
                        },
                    ),
                    Ok(FbxHeaderExtensionChildModel::CreationTimeStamp) => {
                        let loaded = CreationTimeStamp::parse(child.0, child.0.depth());
                        (
                            loaded.0,
                            match loaded.1 {
                                Ok(v) => Ok(
                                    FbxHeaderExtensionFields {
                                        creation_timestamp: Some(v),
                                        ..fields
                                    },
                                ),
                                Err(e) => Err(e),
                            },
                        )
                    },
                    Ok(FbxHeaderExtensionChildModel::Creator(v)) => (
                        skipped.0,
                        if skipped.1 is Ok {
                            Ok(FbxHeaderExtensionFields { creator: Some(v), ..fields })
                        } else {
                            Err(skip_error)
                        },
                    ),
                    Ok(FbxHeaderExtensionChildModel::SceneInfo(attrs)) => {
                        let loaded = SceneInfo::parse(child.0, child.0.depth(), attrs);
                        (
                            loaded.0,
                            match loaded.1 {
                                Ok(v) => Ok(
                                    FbxHeaderExtensionFields { scene_info: Some(v), ..fields },
                                ),
                                Err(e) => Err(e),
                            },
                        )
                    },
                    Err(e) => (child.0, Err(e)),
                }
            }
    }

    /// What loading an `FBXHeaderExtension` node yields when the parse stands
    /// behind the start of the node.
    #[verifier::opaque]
    pub open spec fn parse(m: ParserModel, initial_depth: nat) -> (
        ParserModel,
        Result<FbxHeaderExtensionModel, ErrorModel>,
    ) {
        let folded = fold_children(
            m,
            initial_depth,
            FbxHeaderExtensionFields::empty(),
            Self::step(initial_depth),
        );
        (
            folded.0,
            match folded.1 {
                Ok(fields) => fields.finish(),
                Err(e) => Err(e),
            },
        )
    }

    /// Loads node contents from the parser.
    #[verifier::loop_isolation(false)]
    pub fn load(mut parser: SubtreeParser<'_>) -> (r: Result<FbxHeaderExtension, Error>)
        requires
            parser.root@.wf(),
            parser.initial_depth > 0,
        ensures
            final(parser.root)@ == Self::parse(old(parser.root)@, parser.initial_depth as nat).0,
            final(parser.root)@.wf(),
            final(parser.root)@.follows(old(parser.root)@),
            match Self::parse(old(parser.root)@, parser.initial_depth as nat).1 {
                Ok(model) => r matches Ok(extension) && extension@ == model,
                Err(e) => r matches Err(error) && error@ == e,
            },
    {
        let mut fbx_header_version: Option<i32> = None;
        let mut fbx_version: Option<i32> = None;
        let mut encryption_type: Option<i32> = None;
        let mut creation_timestamp: Option<CreationTimeStamp> = None;
        let mut creator: Option<String> = None;
        let mut scene_info: Option<SceneInfo> = None;
        let ghost start = parser.root@;
        let ghost depth = parser.initial_depth as nat;
        let ghost end = *final(parser.root);
        proof {
            reveal(FbxHeaderExtension::parse);
        }

        loop
            invariant
                parser.root@.wf(),
                parser.root@.follows(start),
                parser.initial_depth == depth,
                *final(parser.root) == end,
                fold_children(
                    parser.root@,
                    depth,
                    FbxHeaderExtensionFields {
                        fbx_header_version,
                        fbx_version,
                        encryption_type,
                        creation_timestamp,
                        creator: model_of(creator),
                        scene_info: model_of(scene_info),
                    },
                    Self::step(depth),
                ) == fold_children(
                    start,
                    depth,
                    FbxHeaderExtensionFields::empty(),
                    Self::step(depth),
                ),
            decreases parser.root@.unread(),
        {
            let name = match parser.next_child() {
                Ok(Some(name)) => name,
                Ok(None) => {
                    return Ok(
                        FbxHeaderExtension {
                            fbx_header_version: ensure_node_exists(
                                fbx_header_version,
                                "FBXHeaderExtension",
                                "FBXHeaderVersion",
                            )?,
                            fbx_version: ensure_node_exists(
                                fbx_version,
                                "FBXHeaderExtension",
                                "FBXVersion",
                            )?,
                            encryption_type: ensure_node_exists(
                                encryption_type,
                                "FBXHeaderExtension",
                                "EncryptionType",
                            )?,
                            creation_timestamp: ensure_node_exists(
                                creation_timestamp,
                                "FBXHeaderExtension",
                                "CreationTimeStamp",
                            )?,
                            creator: ensure_node_exists(creator, "FBXHeaderExtension", "Creator")?,
                            scene_info: ensure_node_exists(
                                scene_info,
                                "FBXHeaderExtension",
                                "SceneInfo",
                            )?,
                        },
                    );
                },
                Err(e) => {
                    return Err(Error::Parser(e));
                },
            };
            let node_type = match FbxHeaderExtensionChildAttrs::load(name.as_slice(), &mut parser) {
                Ok(node_type) => node_type,
                Err(e) => {
                    return Err(e);
                },
            };
            match node_type {
                FbxHeaderExtensionChildAttrs::FbxHeaderVersion(v) => {
                    fbx_header_version = Some(v);
                    match parser.skip_current_node() {
                        Ok(()) => {},
                        Err(e) => {
                            return Err(Error::Parser(e));
                        },
                    }
                },
                FbxHeaderExtensionChildAttrs::FbxVersion(v) => {
                    fbx_version = Some(v);
                    match parser.skip_current_node() {
                        Ok(()) => {},
                        Err(e) => {
                            return Err(Error::Parser(e));
                        },
                    }
                },
                FbxHeaderExtensionChildAttrs::EncryptionType(v) => {
                    encryption_type = Some(v);
                    match parser.skip_current_node() {
                        Ok(()) => {},
                        Err(e) => {
                            return Err(Error::Parser(e));
                        },
                    }
                },
                FbxHeaderExtensionChildAttrs::CreationTimeStamp => {
                    match CreationTimeStamp::load(parser.subtree_parser()) {
                        Ok(v) => {
                            creation_timestamp = Some(v);
                        },
                        Err(e) => {
                            return Err(e);
                        },
                    }
                },
                FbxHeaderExtensionChildAttrs::Creator(v) => {
                    creator = Some(v);
                    match parser.skip_current_node() {
                        Ok(()) => {},
                        Err(e) => {
                            return Err(Error::Parser(e));
                        },
                    }
                },
                FbxHeaderExtensionChildAttrs::SceneInfo(attrs) => {
                    match SceneInfo::load(parser.subtree_parser(), attrs) {
                        Ok(v) => {
                            scene_info = Some(v);
                        },
                        Err(e) => {
                            return Err(e);
                        },
                    }
                },
            }
        }
    }
}

/// Loading the attributes of a child of an `FBXHeaderExtension` node leaves the parse amid
/// the attributes of that child.
pub proof fn lemma_header_extension_child_stays(name: Seq<u8>, m: ParserModel, d: nat)
    requires
        m.wf(),
    ensures
        FbxHeaderExtensionChildAttrs::parse(name, m, d).0.amid_attributes_of(m),
        FbxHeaderExtensionChildAttrs::parse(name, m, d).1 is Ok
            ==> FbxHeaderExtensionChildAttrs::parse(
            name,
            m,
            d,
        ).0.state == m.state,
{
    reveal(FbxHeaderExtensionChildAttrs::parse);
    lemma_read_i32_stays(m, d);
    lemma_read_string_stays(m, d);
    lemma_read_string_pair_stays(m, d);
}

/// An `FBXHeaderExtension` node that has been loaded has been read to its
/// end: the parse stands where skipping the node would have put it.
pub proof fn lemma_header_extension_leaves_node(m: ParserModel, d: nat)
    requires
        m.wf(),
        m.state is InDocument,
        m.depth() == d,
        d > 0,
        FbxHeaderExtension::parse(m, d).1 is Ok,
    ensures
        m.skip_current_node().1 is Ok,
        FbxHeaderExtension::parse(m, d).0 == m.skip_current_node().0,
{
    reveal(FbxHeaderExtension::parse);
    let step = FbxHeaderExtension::step(d);
    assert forall|child: ParserModel, name: Seq<u8>, fields: FbxHeaderExtensionFields|
        child.wf() && child.state is InDocument && child.depth() == d + 1 && (#[trigger] step(
            child,
            name,
            fields,
        )).1 is Ok implies child.skip_current_node().1 is Ok && step(child, name, fields).0
        == child.skip_current_node().0 by {
        let loaded = FbxHeaderExtensionChildAttrs::parse(name, child, d);
        lemma_header_extension_child_stays(name, child, d);
        lemma_skip_amid_attributes(loaded.0, child, d);
        if loaded.1 matches Ok(FbxHeaderExtensionChildModel::CreationTimeStamp) {
            lemma_creation_time_stamp_leaves_node(loaded.0, loaded.0.depth());
        }
        if let Ok(FbxHeaderExtensionChildModel::SceneInfo(attrs)) = loaded.1 {
            lemma_scene_info_leaves_node(loaded.0, loaded.0.depth(), attrs);
        }
    }
    lemma_fold_leaves_node(m, d, FbxHeaderExtensionFields::empty(), step);
}

} // verus!
