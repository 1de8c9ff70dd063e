//! `Properties70` node and its children.

use vstd::prelude::*;
use vstd::string::StringSliceAdditionalSpecFns;
use vstd::utf8::{decode_utf8, encode_utf8, encode_utf8_decode_utf8, valid_utf8};
use super::super::{
    fold_children, lemma_fold_leaves_node, name_is, require_attribute, required_attribute, Error,
    ErrorModel,
};
use crate::parser::binary::engine::lemma_read_attribute_advances;
use crate::parser::binary::error::{Error as ParserError, IoError};
use crate::parser::binary::event::attribute::special::SpecialAttributeType;
use crate::parser::binary::event::attribute::{Attribute, AttributeModel, PrimitiveAttribute};
use crate::parser::binary::state::ParserModel;
use crate::parser::binary::subtree::SubtreeParser;
use crate::parser::binary::utils::{
    lemma_read_attribute_stays, lemma_read_string_stays, lemma_skip_amid_attributes,
};

verus! {

/// Property with its value.
#[derive(Debug, Clone, PartialEq, Eq)]
pub struct PropertyValue<T> {
    /// Name of the property.
    pub name: String,
    /// Name of the kind of the property, such as `int` or `KString`.
    pub kind: String,
    /// Label of the property.
    pub label: String,
    /// Flags of the property.
    pub flags: String,
    /// Value of the property.
    pub value: T,
}

/// Mathematical model of a [`PropertyValue`].
pub struct PropertyValueModel<V> {
    /// Name of the property.
    pub name: Seq<char>,
    /// Name of the kind of the property, such as `int` or `KString`.
    pub kind: Seq<char>,
    /// Label of the property.
    pub label: Seq<char>,
    /// Flags of the property.
    pub flags: Seq<char>,
    /// Value of the property.
    pub value: V,
}

impl<T: View> View for PropertyValue<T> {
    type V = PropertyValueModel<T::V>;

    open spec fn view(&self) -> PropertyValueModel<T::V> {
        PropertyValueModel {
            name: self.name@,
            kind: self.kind@,
            label: self.label@,
            flags: self.flags@,
            value: self.value@,
        }
    }
}

/// Properties with values of one type, in the order in which they were read.
#[derive(Debug, Clone, PartialEq, Eq)]
pub struct PropertyMap<T> {
    /// The properties.
    pub entries: Vec<PropertyValue<T>>,
}

impl<T: View> View for PropertyMap<T> {
    type V = Seq<PropertyValueModel<T::V>>;

    open spec fn view(&self) -> Seq<PropertyValueModel<T::V>> {
        self.entries@.map_values(|entry: PropertyValue<T>| entry@)
    }
}

/// Index of the last of `entries` that is called `name`.
pub open spec fn last_named<T>(entries: Seq<PropertyValue<T>>, name: Seq<char>) -> Option<int>
    decreases entries.len(),
{
    if entries.len() == 0 {
        None
    } else if entries.last().name@ == name {
        Some(entries.len() - 1)
    } else {
        last_named(entries.drop_last(), name)
    }
}

impl<T> PropertyMap<T> {
    /// Creates a map without properties.
    pub fn new() -> (map: PropertyMap<T>)
        ensures
            map.entries@ == Seq::<PropertyValue<T>>::empty(),
    {
        PropertyMap { entries: Vec::new() }
    }

    /// Adds a property. It hides the properties of the same name that were
    /// added before it.
    pub fn insert(&mut self, property: PropertyValue<T>)
        ensures
            final(self).entries@ == old(self).entries@.push(property),
    {
        self.entries.push(property);
    }

    /// Returns the property called `prop_name` that was added last.
    pub fn get(&self, prop_name: &str) -> (found: Option<&PropertyValue<T>>)
        ensures
            match last_named(self.entries@, prop_name@) {
                Some(i) => found == Some(&self.entries@[i]),
                None => found is None,
            },
    {
        let mut i: usize = self.entries.len();
        assert(self.entries@.take(i as int) =~= self.entries@);
        while i > 0
            invariant
                i <= self.entries.len(),
                last_named(self.entries@, prop_name@) == last_named(
                    self.entries@.take(i as int),
                    prop_name@,
                ),
            decreases i,
        {
            i = i - 1;
            let entry = &self.entries[i];
            assert(self.entries@.take(i + 1).drop_last() =~= self.entries@.take(i as int));
            if name_is(entry.name.as_str().as_bytes(), prop_name) {
                proof {
                    encode_utf8_decode_utf8(entry.name@);
                    encode_utf8_decode_utf8(prop_name@);
                }
                return Some(entry);
            }
            proof {
                if entry.name@ == prop_name@ {
                    assert(encode_utf8(entry.name@) == encode_utf8(prop_name@));
                }
            }
        }
        None
    }
}


/// Value of a property, by the type of the attributes that hold it.
#[derive(Debug, Clone, PartialEq, Eq)]
pub enum PropertyData {
    /// The property has no value.
    Empty,
    /// One 32-bit integer.
    I32(i32),
    /// One 64-bit integer.
    I64(i64),
    /// One or more 64-bit floating point numbers, as bit patterns.
    F64(Vec<u64>),
    /// One string.
    String(String),
}

/// Mathematical model of a [`PropertyData`].
pub enum PropertyDataModel {
    /// The property has no value.
    Empty,
    /// One 32-bit integer.
    I32(i32),
    /// One 64-bit integer.
    I64(i64),
    /// One or more 64-bit floating point numbers, as bit patterns.
    F64(Seq<u64>),
    /// One string.
    String(Seq<char>),
}

impl View for PropertyData {
    type V = PropertyDataModel;

    open spec fn view(&self) -> PropertyDataModel {
        match self {
            PropertyData::Empty => PropertyDataModel::Empty,
            PropertyData::I32(v) => PropertyDataModel::I32(*v),
            PropertyData::I64(v) => PropertyDataModel::I64(*v),
            PropertyData::F64(v) => PropertyDataModel::F64(v@),
            PropertyData::String(v) => PropertyDataModel::String(v@),
        }
    }
}

/// What reading the attributes that are left as 64-bit floating point numbers
/// yields, `read` being the numbers read before. An attribute of another type
/// is a type mismatch.
pub open spec fn read_f64_list(m: ParserModel, initial_depth: nat, read: Seq<u64>) -> (
    ParserModel,
    Result<Seq<u64>, ParserError>,
)
    decreases m.attrs_remaining,
{
    let next = m.read_attribute_within(initial_depth);
    match next.1 {
        Ok(Some(attribute)) => match attribute.as_f64_bits() {
            Ok(bits) => if next.0.attrs_remaining < m.attrs_remaining {
                read_f64_list(next.0, initial_depth, read.push(bits))
            } else {
                (next.0, Err(ParserError::MalformedSubtree))
            },
            Err(e) => (next.0, Err(e)),
        },
        Ok(None) => (next.0, Ok(read)),
        Err(e) => (next.0, Err(e)),
    }
}

/// What reading the value of a property yields: the attributes that follow the
/// four strings of the property decide its type.
#[verifier::opaque]
pub open spec fn read_property_data(m: ParserModel, initial_depth: nat) -> (
    ParserModel,
    Result<PropertyDataModel, ParserError>,
) {
    let next = m.read_attribute_within(initial_depth);
    match next.1 {
        Ok(None) => (next.0, Ok(PropertyDataModel::Empty)),
        Ok(Some(AttributeModel::Primitive(PrimitiveAttribute::I32(v)))) => (
            next.0,
            Ok(PropertyDataModel::I32(v)),
        ),
        Ok(Some(AttributeModel::Primitive(PrimitiveAttribute::I64(v)))) => (
            next.0,
            Ok(PropertyDataModel::I64(v)),
        ),
        Ok(Some(AttributeModel::Primitive(PrimitiveAttribute::F64(bits)))) => {
            let list = read_f64_list(next.0, initial_depth, seq![bits]);
            (
                list.0,
                match list.1 {
                    Ok(values) => Ok(PropertyDataModel::F64(values)),
                    Err(e) => Err(e),
                },
            )
        },
        Ok(Some(AttributeModel::Special(special))) => {
            let value = next.0.bytes.subrange(next.0.position as int, special.end_offset as int);
            if special.value_type != SpecialAttributeType::String {
                (next.0, Err(ParserError::AttributeTypeMismatch))
            } else if special.end_offset > next.0.bytes.len() {
                (next.0, Err(ParserError::Io(IoError::UnexpectedEof)))
            } else if !valid_utf8(value) {
                (next.0, Err(ParserError::Io(IoError::InvalidData)))
            } else {
                (
                    next.0.at(special.end_offset as nat),
                    Ok(PropertyDataModel::String(decode_utf8(value))),
                )
            }
        },
        Ok(Some(_)) => (next.0, Err(ParserError::AttributeTypeMismatch)),
        Err(e) => (next.0, Err(e)),
    }
}

/// Reads the attributes that are left as 64-bit floating point numbers and
/// returns them behind `first`.
#[verifier::loop_isolation(false)]
fn load_f64_list(parser: &mut SubtreeParser<'_>, first: u64) -> (r: Result<Vec<u64>, ParserError>)
    requires
        old(parser).root@.wf(),
    ensures
        final(parser).initial_depth == old(parser).initial_depth,
        *final(final(parser).root) == *final(old(parser).root),
        final(parser).root@ == read_f64_list(
            old(parser).root@,
            old(parser).initial_depth as nat,
            seq![first],
        ).0,
        final(parser).root@.wf(),
        final(parser).root@.follows(old(parser).root@),
        final(parser).root@.open_nodes == old(parser).root@.open_nodes,
        match read_f64_list(old(parser).root@, old(parser).initial_depth as nat, seq![first]).1 {
            Ok(model) => r matches Ok(values) && values@ == model,
            Err(e) => r == Err::<Vec<u64>, ParserError>(e),
        },
{
    let mut values: Vec<u64> = Vec::new();
    values.push(first);
    assert(values@ =~= seq![first]);
    let ghost start = parser.root@;
    let ghost depth = parser.initial_depth as nat;
    let ghost end = *final(parser.root);
    loop
        invariant
            parser.root@.wf(),
            parser.root@.follows(start),
            parser.root@.open_nodes == start.open_nodes,
            parser.initial_depth == depth,
            *final(parser.root) == end,
            read_f64_list(parser.root@, depth, values@) == read_f64_list(start, depth, seq![first]),
        decreases parser.root@.attrs_remaining,
    {
        let ghost before = parser.root@;
        proof {
            lemma_read_attribute_advances(before);
        }
        match parser.read_attribute() {
            Ok(Some(attribute)) => match attribute.into_f64_bits() {
                Ok(bits) => {
                    values.push(bits);
                },
                Err(e) => {
                    return Err(e);
                },
            },
            Ok(None) => {
                return Ok(values);
            },
            Err(e) => {
                return Err(e);
            },
        }
    }
}

/// Reads the value of a property from the attributes that follow its four
/// strings.
fn load_property_data(parser: &mut SubtreeParser<'_>) -> (r: Result<PropertyData, ParserError>)
    requires
        old(parser).root@.wf(),
    ensures
        final(parser).initial_depth == old(parser).initial_depth,
        *final(final(parser).root) == *final(old(parser).root),
        final(parser).root@ == read_property_data(
            old(parser).root@,
            old(parser).initial_depth as nat,
        ).0,
        final(parser).root@.wf(),
        final(parser).root@.follows(old(parser).root@),
        final(parser).root@.open_nodes == old(parser).root@.open_nodes,
        match read_property_data(old(parser).root@, old(parser).initial_depth as nat).1 {
            Ok(model) => r matches Ok(data) && data@ == model,
            Err(e) => r == Err::<PropertyData, ParserError>(e),
        },
{
    proof {
        reveal(read_property_data);
        lemma_read_attribute_advances(parser.root@);
    }
    let first: u64 = match parser.read_attribute() {
        Ok(None) => {
            return Ok(PropertyData::Empty);
        },
        Ok(Some(Attribute::Primitive(PrimitiveAttribute::I32(v)))) => {
            return Ok(PropertyData::I32(v));
        },
        Ok(Some(Attribute::Primitive(PrimitiveAttribute::I64(v)))) => {
            return Ok(PropertyData::I64(v));
        },
        Ok(Some(Attribute::Primitive(PrimitiveAttribute::F64(bits)))) => bits,
        Ok(Some(Attribute::Special(special))) => {
            if special.value_type() != SpecialAttributeType::String {
                return Err(ParserError::AttributeTypeMismatch);
            }
            return match special.into_string() {
                Ok(s) => Ok(PropertyData::String(s)),
                Err(e) => Err(ParserError::Io(e)),
            };
        },
        Ok(Some(_)) => {
            return Err(ParserError::AttributeTypeMismatch);
        },
        Err(e) => {
            return Err(e);
        },
    };
    match load_f64_list(parser, first) {
        Ok(values) => Ok(PropertyData::F64(values)),
        Err(e) => Err(e),
    }
}


/// What loading the attributes of a property node yields: four strings, which
/// are the name, the kind, the label and the flags of the property, and then
/// its value.
#[verifier::opaque]
pub open spec fn parse_property(node_name: Seq<u8>, m: ParserModel, initial_depth: nat) -> (
    ParserModel,
    Result<PropertyValueModel<PropertyDataModel>, ErrorModel>,
) {
    let name = required_attribute(m.read_string(initial_depth), node_name);
    let kind = required_attribute(name.0.read_string(initial_depth), node_name);
    let label = required_attribute(kind.0.read_string(initial_depth), node_name);
    let flags = required_attribute(label.0.read_string(initial_depth), node_name);
    let data = read_property_data(flags.0, initial_depth);
    if name.1 is Err {
        (name.0, Err(name.1->Err_0))
    } else if kind.1 is Err {
        (kind.0, Err(kind.1->Err_0))
    } else if label.1 is Err {
        (label.0, Err(label.1->Err_0))
    } else if flags.1 is Err {
        (flags.0, Err(flags.1->Err_0))
    } else {
        (
            data.0,
            match data.1 {
                Ok(value) => Ok(
                    PropertyValueModel {
                        name: name.1->Ok_0,
                        kind: kind.1->Ok_0,
                        label: label.1->Ok_0,
                        flags: flags.1->Ok_0,
                        value,
                    },
                ),
                Err(e) => Err(ErrorModel::Parser(e)),
            },
        )
    }
}

/// Loads the attributes of a property node.
fn load_property(node_name: &[u8], parser: &mut SubtreeParser<'_>) -> (r: Result<
    PropertyValue<PropertyData>,
    Error,
>)
    requires
        old(parser).root@.wf(),
    ensures
        final(parser).initial_depth == old(parser).initial_depth,
        *final(final(parser).root) == *final(old(parser).root),
        final(parser).root@ == parse_property(
            node_name@,
            old(parser).root@,
            old(parser).initial_depth as nat,
        ).0,
        final(parser).root@.wf(),
        final(parser).root@.follows(old(parser).root@),
        final(parser).root@.open_nodes == old(parser).root@.open_nodes,
        match parse_property(node_name@, old(parser).root@, old(parser).initial_depth as nat).1 {
            Ok(model) => r matches Ok(property) && property@ == model,
            Err(e) => r matches Err(error) && error@ == e,
        },
{
    proof {
        reveal(parse_property);
    }
    let name = require_attribute(parser.read_string(), node_name)?;
    let kind = require_attribute(parser.read_string(), node_name)?;
    let label = require_attribute(parser.read_string(), node_name)?;
    let flags = require_attribute(parser.read_string(), node_name)?;
    match load_property_data(parser) {
        Ok(value) => Ok(PropertyValue { name, kind, label, flags, value }),
        Err(e) => Err(Error::Parser(e)),
    }
}

/// `Properties70` node: the properties of an object, sorted by the type of
/// their values.
#[derive(Debug, Clone, PartialEq, Eq)]
pub struct Properties70 {
    /// Properties whose value is one 32-bit integer.
    pub values_i32: PropertyMap<i32>,
    /// Properties whose value is one 64-bit integer.
    pub values_i64: PropertyMap<i64>,
    /// Properties whose value is one or more 64-bit floating point numbers,
    /// kept as bit patterns.
    pub values_f64: PropertyMap<Vec<u64>>,
    /// Properties whose value is one string.
    pub values_string: PropertyMap<String>,
    /// Properties without a value.
    pub values_empty: PropertyMap<()>,
}

/// Mathematical model of a [`Properties70`].
pub struct Properties70Model {
    /// Properties whose value is one 32-bit integer.
    pub values_i32: Seq<PropertyValueModel<i32>>,
    /// Properties whose value is one 64-bit integer.
    pub values_i64: Seq<PropertyValueModel<i64>>,
    /// Properties whose value is one or more 64-bit floating point numbers.
    pub values_f64: Seq<PropertyValueModel<Seq<u64>>>,
    /// Properties whose value is one string.
    pub values_string: Seq<PropertyValueModel<Seq<char>>>,
    /// Properties without a value.
    pub values_empty: Seq<PropertyValueModel<()>>,
}

impl View for Properties70 {
    type V = Properties70Model;

    open spec fn view(&self) -> Properties70Model {
        Properties70Model {
            values_i32: self.values_i32@,
            values_i64: self.values_i64@,
            values_f64: self.values_f64@,
            values_string: self.values_string@,
            values_empty: self.values_empty@,
        }
    }
}

impl<V> PropertyValueModel<V> {
    /// The same property with another value.
    pub open spec fn holding<W>(self, value: W) -> PropertyValueModel<W> {
        PropertyValueModel {
            name: self.name,
            kind: self.kind,
            label: self.label,
            flags: self.flags,
            value,
        }
    }
}

impl Properties70Model {
    /// No properties.
    pub open spec fn empty() -> Properties70Model {
        Properties70Model {
            values_i32: Seq::empty(),
            values_i64: Seq::empty(),
            values_f64: Seq::empty(),
            values_string: Seq::empty(),
            values_empty: Seq::empty(),
        }
    }

    /// The properties with one more, put where the type of its value says.
    pub open spec fn with(
        self,
        property: PropertyValueModel<PropertyDataModel>,
    ) -> Properties70Model {
        match property.value {
            PropertyDataModel::Empty => Properties70Model {
                values_empty: self.values_empty.push(property.holding(())),
                ..self
            },
            PropertyDataModel::I32(v) => Properties70Model {
                values_i32: self.values_i32.push(property.holding(v)),
                ..self
            },
            PropertyDataModel::I64(v) => Properties70Model {
                values_i64: self.values_i64.push(property.holding(v)),
                ..self
            },
            PropertyDataModel::F64(v) => Properties70Model {
                values_f64: self.values_f64.push(property.holding(v)),
                ..self
            },
            PropertyDataModel::String(v) => Properties70Model {
                values_string: self.values_string.push(property.holding(v)),
                ..self
            },
        }
    }
}

impl Properties70 {
    /// Creates a `Properties70` without properties.
    pub fn new() -> (properties: Properties70)
        ensures
            properties@ == Properties70Model::empty(),
    {
        let properties = Properties70 {
            values_i32: PropertyMap::new(),
            values_i64: PropertyMap::new(),
            values_f64: PropertyMap::new(),
            values_string: PropertyMap::new(),
            values_empty: PropertyMap::new(),
        };
        assert(properties.values_i32@ =~= Seq::empty());
        assert(properties.values_i64@ =~= Seq::empty());
        assert(properties.values_f64@ =~= Seq::empty());
        assert(properties.values_string@ =~= Seq::empty());
        assert(properties.values_empty@ =~= Seq::empty());
        properties
    }

    /// Adds a property where the type of its value says.
    pub fn insert(&mut self, property: PropertyValue<PropertyData>)
        ensures
            final(self)@ == old(self)@.with(property@),
    {
        let PropertyValue { name, kind, label, flags, value } = property;
        match value {
            PropertyData::Empty => {
                let ghost before = self.values_empty@;
                let entry = PropertyValue { name, kind, label, flags, value: () };
                self.values_empty.insert(entry);
                assert(self.values_empty@ =~= before.push(entry@));
            },
            PropertyData::I32(value) => {
                let ghost before = self.values_i32@;
                let entry = PropertyValue { name, kind, label, flags, value };
                self.values_i32.insert(entry);
                assert(self.values_i32@ =~= before.push(entry@));
            },
            PropertyData::I64(value) => {
                let ghost before = self.values_i64@;
                let entry = PropertyValue { name, kind, label, flags, value };
                self.values_i64.insert(entry);
                assert(self.values_i64@ =~= before.push(entry@));
            },
            PropertyData::F64(value) => {
                let ghost before = self.values_f64@;
                let entry = PropertyValue { name, kind, label, flags, value };
                self.values_f64.insert(entry);
                assert(self.values_f64@ =~= before.push(entry@));
            },
            PropertyData::String(value) => {
                let ghost before = self.values_string@;
                let entry = PropertyValue { name, kind, label, flags, value };
                self.values_string.insert(entry);
                assert(self.values_string@ =~= before.push(entry@));
            },
        }
    }

    /// What handling one child of a `Properties70` node yields: the child has
    /// to be called `P`; its attributes are loaded as a property and the rest
    /// of it is skipped.
    pub open spec fn step(initial_depth: nat) -> spec_fn(
        ParserModel,
        Seq<u8>,
        Properties70Model,
    ) -> (ParserModel, Result<Properties70Model, ErrorModel>) {
        |m: ParserModel, name: Seq<u8>, properties: Properties70Model|
            {
                let property = parse_property(name, m, initial_depth);
                if name != "P".spec_bytes() {
                    (m, Err(ErrorModel::UnexpectedNode(name)))
                } else {
                    match property.1 {
                        Ok(property_value) => {
                            let skipped = property.0.skip_current_node_within(initial_depth);
                            (
                                skipped.0,
                                match skipped.1 {
                                    Ok(_) => Ok(properties.with(property_value)),
                                    Err(e) => Err(ErrorModel::Parser(e)),
                                },
                            )
                        },
                        Err(e) => (property.0, Err(e)),
                    }
                }
            }
    }

    /// What loading a `Properties70` node yields when the parse stands behind
    /// the start of the node.
    #[verifier::opaque]
    pub open spec fn parse(m: ParserModel, initial_depth: nat) -> (
        ParserModel,
        Result<Properties70Model, ErrorModel>,
    ) {
        fold_children(m, initial_depth, Properties70Model::empty(), Self::step(initial_depth))
    }

    /// Loads node contents from the parser.
    #[verifier::loop_isolation(false)]
    pub fn load(mut parser: SubtreeParser<'_>) -> (r: Result<Properties70, Error>)
        requires
            parser.root@.wf(),
            parser.initial_depth > 0,
        ensures
            final(parser.root)@ == Self::parse(old(parser.root)@, parser.initial_depth as nat).0,
            final(parser.root)@.wf(),
            final(parser.root)@.follows(old(parser.root)@),
            match Self::parse(old(parser.root)@, parser.initial_depth as nat).1 {
                Ok(model) => r matches Ok(properties) && properties@ == model,
                Err(e) => r matches Err(error) && error@ == e,
            },
    {
        let mut properties = Properties70::new();
        let ghost start = parser.root@;
        let ghost depth = parser.initial_depth as nat;
        let ghost end = *final(parser.root);
        proof {
            reveal(Properties70::parse);
        }

        loop
            invariant
                parser.root@.wf(),
                parser.root@.follows(start),
                parser.initial_depth == depth,
                *final(parser.root) == end,
                fold_children(parser.root@, depth, properties@, Self::step(depth)) == fold_children(
                    start,
                    depth,
                    Properties70Model::empty(),
                    Self::step(depth),
                ),
            decreases parser.root@.unread(),
        {
            let name = match parser.next_child() {
                Ok(Some(name)) => name,
                Ok(None) => {
                    return Ok(properties);
                },
                Err(e) => {
                    return Err(Error::Parser(e));
                },
            };
            if !name_is(name.as_slice(), "P") {
                return Err(Error::UnexpectedNode(name));
            }
            let property = match load_property(name.as_slice(), &mut parser) {
                Ok(property) => property,
                Err(e) => {
                    return Err(e);
                },
            };
            properties.insert(property);
            match parser.skip_current_node() {
                Ok(()) => {},
                Err(e) => {
                    return Err(Error::Parser(e));
                },
            }
        }
    }
}

/// Reading a list of 64-bit floating point numbers leaves the parse amid the
/// attributes of the same node.
pub proof fn lemma_read_f64_list_stays(m: ParserModel, d: nat, read: Seq<u64>)
    requires
        m.wf(),
    ensures
        read_f64_list(m, d, read).0.amid_attributes_of(m),
        read_f64_list(m, d, read).1 is Ok ==> read_f64_list(m, d, read).0.state == m.state,
    decreases m.attrs_remaining,
{
    lemma_read_attribute_stays(m, d);
    let next = m.read_attribute_within(d);
    if let Ok(Some(attribute)) = next.1 {
        if let Ok(bits) = attribute.as_f64_bits() {
            if next.0.attrs_remaining < m.attrs_remaining {
                lemma_read_f64_list_stays(next.0, d, read.push(bits));
            }
        }
    }
}

/// Loading the attributes of a property node leaves the parse amid the
/// attributes of that node.
pub proof fn lemma_property_stays(name: Seq<u8>, m: ParserModel, d: nat)
    requires
        m.wf(),
    ensures
        parse_property(name, m, d).0.amid_attributes_of(m),
        parse_property(name, m, d).1 is Ok ==> parse_property(name, m, d).0.state == m.state,
{
    reveal(parse_property);
    reveal(read_property_data);
    lemma_read_string_stays(m, d);
    let first = m.read_string(d).0;
    lemma_read_string_stays(first, d);
    let second = first.read_string(d).0;
    lemma_read_string_stays(second, d);
    let third = second.read_string(d).0;
    lemma_read_string_stays(third, d);
    let fourth = third.read_string(d).0;
    lemma_read_attribute_stays(fourth, d);
    let next = fourth.read_attribute_within(d);
    if let Ok(Some(AttributeModel::Primitive(PrimitiveAttribute::F64(bits)))) = next.1 {
        lemma_read_f64_list_stays(next.0, d, seq![bits]);
    }
}

/// A `Properties70` node that has been loaded has been read to its end: the
/// parse stands where skipping the node would have put it.
pub proof fn lemma_properties70_leaves_node(m: ParserModel, d: nat)
    requires
        m.wf(),
        m.state is InDocument,
        m.depth() == d,
        d > 0,
        Properties70::parse(m, d).1 is Ok,
    ensures
        m.skip_current_node().1 is Ok,
        Properties70::parse(m, d).0 == m.skip_current_node().0,
{
    reveal(Properties70::parse);
    let step = Properties70::step(d);
    assert forall|child: ParserModel, name: Seq<u8>, properties: Properties70Model|
        child.wf() && child.state is InDocument && child.depth() == d + 1 && (#[trigger] step(
            child,
            name,
            properties,
        )).1 is Ok implies child.skip_current_node().1 is Ok && step(child, name, properties).0
        == child.skip_current_node().0 by {
        lemma_property_stays(name, child, d);
        lemma_skip_amid_attributes(parse_property(name, child, d).0, child, d);
    }
    lemma_fold_leaves_node(m, d, Properties70Model::empty(), step);
}

} // verus!
