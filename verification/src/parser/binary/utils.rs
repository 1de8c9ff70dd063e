//! Reading attributes as values of a requested type.

use vstd::prelude::*;
use vstd::utf8::{decode_utf8, valid_utf8};
use super::engine::{
    lemma_next_event_advances, lemma_read_attribute_advances, lemma_read_attribute_wf,
};
use super::error::{Error, IoError};
use super::event::attribute::array::{ArrayModel, ArrayValue};
use super::event::attribute::special::{SpecialAttribute, SpecialAttributeType, SpecialModel};
use super::event::attribute::{Attribute, AttributeModel, PrimitiveAttribute};
use super::event::{Event, EventModel};
use super::state::ParserModel;
use super::subtree::SubtreeParser;

verus! {

impl AttributeModel {
    /// The attribute as a boolean.
    pub open spec fn as_bool(self) -> Result<bool, Error> {
        match self {
            AttributeModel::Primitive(PrimitiveAttribute::Bool(v)) => Ok(v),
            _ => Err(Error::AttributeTypeMismatch),
        }
    }

    /// The attribute as a 16-bit integer.
    pub open spec fn as_i16(self) -> Result<i16, Error> {
        match self {
            AttributeModel::Primitive(PrimitiveAttribute::I16(v)) => Ok(v),
            _ => Err(Error::AttributeTypeMismatch),
        }
    }

    /// The attribute as a 32-bit integer.
    pub open spec fn as_i32(self) -> Result<i32, Error> {
        match self {
            AttributeModel::Primitive(PrimitiveAttribute::I32(v)) => Ok(v),
            _ => Err(Error::AttributeTypeMismatch),
        }
    }

    /// The attribute as a 64-bit integer.
    pub open spec fn as_i64(self) -> Result<i64, Error> {
        match self {
            AttributeModel::Primitive(PrimitiveAttribute::I64(v)) => Ok(v),
            _ => Err(Error::AttributeTypeMismatch),
        }
    }

    /// The attribute as the bit pattern of a 32-bit floating point number.
    pub open spec fn as_f32_bits(self) -> Result<u32, Error> {
        match self {
            AttributeModel::Primitive(PrimitiveAttribute::F32(v)) => Ok(v),
            _ => Err(Error::AttributeTypeMismatch),
        }
    }

    /// The attribute as the bit pattern of a 64-bit floating point number.
    pub open spec fn as_f64_bits(self) -> Result<u64, Error> {
        match self {
            AttributeModel::Primitive(PrimitiveAttribute::F64(v)) => Ok(v),
            _ => Err(Error::AttributeTypeMismatch),
        }
    }

    /// The attribute as an array.
    pub open spec fn as_array(self) -> Result<ArrayModel, Error> {
        match self {
            AttributeModel::Array(array) => Ok(array),
            _ => Err(Error::AttributeTypeMismatch),
        }
    }

    /// The attribute as an unread value of the given special type.
    pub open spec fn as_special(self, value_type: SpecialAttributeType) -> Result<
        SpecialModel,
        Error,
    > {
        match self {
            AttributeModel::Special(special) if special.value_type == value_type => Ok(special),
            _ => Err(Error::AttributeTypeMismatch),
        }
    }
}

impl<'a> Attribute<'a> {
    /// Returns the boolean the attribute holds; any other attribute is a type
    /// mismatch.
    pub fn into_bool(self) -> (r: Result<bool, Error>)
        ensures
            r == self@.as_bool(),
            self matches Attribute::Special(special) ==> *final(special.parser) == *special.parser,
    {
        match self {
            Attribute::Primitive(PrimitiveAttribute::Bool(v)) => Ok(v),
            _ => Err(Error::AttributeTypeMismatch),
        }
    }

    /// Returns the 16-bit integer the attribute holds; any other attribute is a
    /// type mismatch.
    pub fn into_i16(self) -> (r: Result<i16, Error>)
        ensures
            r == self@.as_i16(),
            self matches Attribute::Special(special) ==> *final(special.parser) == *special.parser,
    {
        match self {
            Attribute::Primitive(PrimitiveAttribute::I16(v)) => Ok(v),
            _ => Err(Error::AttributeTypeMismatch),
        }
    }

    /// Returns the 32-bit integer the attribute holds; any other attribute is a
    /// type mismatch.
    pub fn into_i32(self) -> (r: Result<i32, Error>)
        ensures
            r == self@.as_i32(),
            self matches Attribute::Special(special) ==> *final(special.parser) == *special.parser,
    {
        match self {
            Attribute::Primitive(PrimitiveAttribute::I32(v)) => Ok(v),
            _ => Err(Error::AttributeTypeMismatch),
        }
    }

    /// Returns the 64-bit integer the attribute holds; any other attribute is a
    /// type mismatch.
    pub fn into_i64(self) -> (r: Result<i64, Error>)
        ensures
            r == self@.as_i64(),
            self matches Attribute::Special(special) ==> *final(special.parser) == *special.parser,
    {
        match self {
            Attribute::Primitive(PrimitiveAttribute::I64(v)) => Ok(v),
            _ => Err(Error::AttributeTypeMismatch),
        }
    }

    /// Returns the bit pattern of the 32-bit floating point number the
    /// attribute holds; any other attribute is a type mismatch.
    pub fn into_f32_bits(self) -> (r: Result<u32, Error>)
        ensures
            r == self@.as_f32_bits(),
            self matches Attribute::Special(special) ==> *final(special.parser) == *special.parser,
    {
        match self {
            Attribute::Primitive(PrimitiveAttribute::F32(v)) => Ok(v),
            _ => Err(Error::AttributeTypeMismatch),
        }
    }

    /// Returns the bit pattern of the 64-bit floating point number the
    /// attribute holds; any other attribute is a type mismatch.
    pub fn into_f64_bits(self) -> (r: Result<u64, Error>)
        ensures
            r == self@.as_f64_bits(),
            self matches Attribute::Special(special) ==> *final(special.parser) == *special.parser,
    {
        match self {
            Attribute::Primitive(PrimitiveAttribute::F64(v)) => Ok(v),
            _ => Err(Error::AttributeTypeMismatch),
        }
    }

    /// Returns the array the attribute holds; any other attribute is a type
    /// mismatch.
    pub fn into_array(self) -> (r: Result<ArrayValue, Error>)
        ensures
            match self@.as_array() {
                Ok(model) => r matches Ok(array) && array@ == model,
                Err(e) => r == Err::<ArrayValue, Error>(e),
            },
            self matches Attribute::Special(special) ==> *final(special.parser) == *special.parser,
    {
        match self {
            Attribute::Array(array) => Ok(array),
            _ => Err(Error::AttributeTypeMismatch),
        }
    }

    /// Returns the unread value of the given special type the attribute holds;
    /// any other attribute is a type mismatch.
    pub fn into_special(self, value_type: SpecialAttributeType) -> (r: Result<
        SpecialAttribute<'a>,
        Error,
    >)
        ensures
            match self@.as_special(value_type) {
                Ok(model) => r matches Ok(special) && self == Attribute::Special(special),
                Err(e) => r == Err::<SpecialAttribute<'a>, Error>(e) && (
                self matches Attribute::Special(special) ==> *final(special.parser)
                    == *special.parser),
            },
    {
        match self {
            Attribute::Special(special) => {
                if special.value_type() == value_type {
                    Ok(special)
                } else {
                    Err(Error::AttributeTypeMismatch)
                }
            },
            _ => Err(Error::AttributeTypeMismatch),
        }
    }
}


impl ParserModel {
    /// What asking for the next child of the subtree entered at depth
    /// `initial_depth` yields: the name of the child that starts, or `None`
    /// when the node of the subtree ends.
    #[verifier::opaque]
    pub open spec fn next_child(self, initial_depth: nat) -> (
        ParserModel,
        Result<Option<Seq<u8>>, Error>,
    ) {
        let next = self.next_event_within(initial_depth);
        (
            next.0,
            match next.1 {
                Ok(EventModel::StartNode(name)) => Ok(Some(name)),
                Ok(_) => Ok(None),
                Err(e) => Err(e),
            },
        )
    }

    /// What reading the next attribute as a 32-bit integer yields.
    #[verifier::opaque]
    pub open spec fn read_i32(self, initial_depth: nat) -> (
        ParserModel,
        Result<Option<i32>, Error>,
    ) {
        let next = self.read_attribute_within(initial_depth);
        (
            next.0,
            match next.1 {
                Ok(Some(attribute)) => match attribute.as_i32() {
                    Ok(v) => Ok(Some(v)),
                    Err(e) => Err(e),
                },
                Ok(None) => Ok(None),
                Err(e) => Err(e),
            },
        )
    }

    /// What reading the next attribute as a 64-bit integer yields.
    #[verifier::opaque]
    pub open spec fn read_i64(self, initial_depth: nat) -> (
        ParserModel,
        Result<Option<i64>, Error>,
    ) {
        let next = self.read_attribute_within(initial_depth);
        (
            next.0,
            match next.1 {
                Ok(Some(attribute)) => match attribute.as_i64() {
                    Ok(v) => Ok(Some(v)),
                    Err(e) => Err(e),
                },
                Ok(None) => Ok(None),
                Err(e) => Err(e),
            },
        )
    }

    /// What reading the next attribute as a string yields. The value has to
    /// lie within the document and be valid UTF-8.
    #[verifier::opaque]
    pub open spec fn read_string(self, initial_depth: nat) -> (
        ParserModel,
        Result<Option<Seq<char>>, Error>,
    ) {
        let next = self.read_attribute_within(initial_depth);
        match next.1 {
            Ok(Some(attribute)) => match attribute.as_special(SpecialAttributeType::String) {
                Ok(special) => {
                    let value = next.0.bytes.subrange(
                        next.0.position as int,
                        special.end_offset as int,
                    );
                    if special.end_offset > next.0.bytes.len() {
                        (next.0, Err(Error::Io(IoError::UnexpectedEof)))
                    } else if !valid_utf8(value) {
                        (next.0, Err(Error::Io(IoError::InvalidData)))
                    } else {
                        (next.0.at(special.end_offset as nat), Ok(Some(decode_utf8(value))))
                    }
                },
                Err(e) => (next.0, Err(e)),
            },
            Ok(None) => (next.0, Ok(None)),
            Err(e) => (next.0, Err(e)),
        }
    }

    /// What reading the next two attributes as 64-bit integers yields.
    #[verifier::opaque]
    pub open spec fn read_i64_pair(self, initial_depth: nat) -> (
        ParserModel,
        Result<Option<(i64, i64)>, Error>,
    ) {
        let first = self.read_i64(initial_depth);
        match first.1 {
            Ok(Some(a)) => {
                let second = first.0.read_i64(initial_depth);
                (
                    second.0,
                    match second.1 {
                        Ok(Some(b)) => Ok(Some((a, b))),
                        Ok(None) => Ok(None),
                        Err(e) => Err(e),
                    },
                )
            },
            Ok(None) => (first.0, Ok(None)),
            Err(e) => (first.0, Err(e)),
        }
    }

    /// What reading the next two attributes as strings yields.
    #[verifier::opaque]
    pub open spec fn read_string_pair(self, initial_depth: nat) -> (
        ParserModel,
        Result<Option<(Seq<char>, Seq<char>)>, Error>,
    ) {
        let first = self.read_string(initial_depth);
        match first.1 {
            Ok(Some(a)) => {
                let second = first.0.read_string(initial_depth);
                (
                    second.0,
                    match second.1 {
                        Ok(Some(b)) => Ok(Some((a, b))),
                        Ok(None) => Ok(None),
                        Err(e) => Err(e),
                    },
                )
            },
            Ok(None) => (first.0, Ok(None)),
            Err(e) => (first.0, Err(e)),
        }
    }

    /// `self` is a later stage of the parse `earlier`: the document is the
    /// same and the cursor has not moved back.
    pub open spec fn follows(self, earlier: ParserModel) -> bool {
        self.bytes == earlier.bytes && self.position >= earlier.position
    }
}

impl<'a> SubtreeParser<'a> {
    /// Moves on to the next child of the subtree's node and returns its name,
    /// or `None` when the node ends.
    pub fn next_child(&mut self) -> (r: Result<Option<Vec<u8>>, Error>)
        requires
            old(self).root@.wf(),
            old(self).initial_depth > 0,
        ensures
            final(self).initial_depth == old(self).initial_depth,
            *final(final(self).root) == *final(old(self).root),
            final(self).root@ == old(self).root@.next_child(old(self).initial_depth as nat).0,
            final(self).root@.wf(),
            final(self).root@.follows(old(self).root@),
            r is Ok ==> final(self).root@.position > old(self).root@.position,
            r matches Ok(Some(_)) ==> final(self).root@.depth() == old(self).root@.depth() + 1,
            match old(self).root@.next_child(old(self).initial_depth as nat).1 {
                Ok(Some(model)) => r matches Ok(Some(name)) && name@ == model,
                Ok(None) => r matches Ok(None),
                Err(e) => r == Err::<Option<Vec<u8>>, Error>(e),
            },
    {
        proof {
            reveal(ParserModel::next_child);
            lemma_next_event_advances(self.root@);
        }
        match self.next_event() {
            Ok(Event::StartNode(node)) => Ok(Some(node.name)),
            Ok(Event::EndNode) => Ok(None),
            Ok(_) => vstd::pervasive::unreached(),
            Err(e) => Err(e),
        }
    }

    /// Reads the next attribute of the node just started as a 32-bit integer.
    ///
    /// Returns `None` when the node has no more attributes; an attribute of
    /// another type is a type mismatch.
    pub fn read_i32(&mut self) -> (r: Result<Option<i32>, Error>)
        requires
            old(self).root@.wf(),
        ensures
            final(self).initial_depth == old(self).initial_depth,
            *final(final(self).root) == *final(old(self).root),
            final(self).root@ == old(self).root@.read_i32(old(self).initial_depth as nat).0,
            final(self).root@.wf(),
            final(self).root@.follows(old(self).root@),
            final(self).root@.open_nodes == old(self).root@.open_nodes,
            r == old(self).root@.read_i32(old(self).initial_depth as nat).1,
    {
        proof {
            reveal(ParserModel::read_i32);
            lemma_read_attribute_advances(self.root@);
        }
        match self.read_attribute() {
            Ok(Some(attribute)) => match attribute.into_i32() {
                Ok(v) => Ok(Some(v)),
                Err(e) => Err(e),
            },
            Ok(None) => Ok(None),
            Err(e) => Err(e),
        }
    }

    /// Reads the next attribute of the node just started as a 64-bit integer.
    ///
    /// Returns `None` when the node has no more attributes; an attribute of
    /// another type is a type mismatch.
    pub fn read_i64(&mut self) -> (r: Result<Option<i64>, Error>)
        requires
            old(self).root@.wf(),
        ensures
            final(self).initial_depth == old(self).initial_depth,
            *final(final(self).root) == *final(old(self).root),
            final(self).root@ == old(self).root@.read_i64(old(self).initial_depth as nat).0,
            final(self).root@.wf(),
            final(self).root@.follows(old(self).root@),
            final(self).root@.open_nodes == old(self).root@.open_nodes,
            r == old(self).root@.read_i64(old(self).initial_depth as nat).1,
    {
        proof {
            reveal(ParserModel::read_i64);
            lemma_read_attribute_advances(self.root@);
        }
        match self.read_attribute() {
            Ok(Some(attribute)) => match attribute.into_i64() {
                Ok(v) => Ok(Some(v)),
                Err(e) => Err(e),
            },
            Ok(None) => Ok(None),
            Err(e) => Err(e),
        }
    }

    /// Reads the next attribute of the node just started as a string.
    ///
    /// Returns `None` when the node has no more attributes; an attribute of
    /// another type is a type mismatch, and a value that is cut short or is
    /// not valid UTF-8 is an I/O error.
    pub fn read_string(&mut self) -> (r: Result<Option<String>, Error>)
        requires
            old(self).root@.wf(),
        ensures
            final(self).initial_depth == old(self).initial_depth,
            *final(final(self).root) == *final(old(self).root),
            final(self).root@ == old(self).root@.read_string(old(self).initial_depth as nat).0,
            final(self).root@.wf(),
            final(self).root@.follows(old(self).root@),
            final(self).root@.open_nodes == old(self).root@.open_nodes,
            match old(self).root@.read_string(old(self).initial_depth as nat).1 {
                Ok(Some(model)) => r matches Ok(Some(s)) && s@ == model,
                Ok(None) => r matches Ok(None),
                Err(e) => r == Err::<Option<String>, Error>(e),
            },
    {
        proof {
            reveal(ParserModel::read_string);
            lemma_read_attribute_advances(self.root@);
        }
        match self.read_attribute() {
            Ok(Some(attribute)) => match attribute.into_special(SpecialAttributeType::String) {
                Ok(special) => match special.into_string() {
                    Ok(s) => Ok(Some(s)),
                    Err(e) => Err(Error::Io(e)),
                },
                Err(e) => Err(e),
            },
            Ok(None) => Ok(None),
            Err(e) => Err(e),
        }
    }

    /// Reads the next two attributes of the node just started as 64-bit
    /// integers. Returns `None` when the node has fewer than two attributes
    /// left.
    pub fn read_i64_pair(&mut self) -> (r: Result<Option<(i64, i64)>, Error>)
        requires
            old(self).root@.wf(),
        ensures
            final(self).initial_depth == old(self).initial_depth,
            *final(final(self).root) == *final(old(self).root),
            final(self).root@ == old(self).root@.read_i64_pair(old(self).initial_depth as nat).0,
            final(self).root@.wf(),
            final(self).root@.follows(old(self).root@),
            final(self).root@.open_nodes == old(self).root@.open_nodes,
            r == old(self).root@.read_i64_pair(old(self).initial_depth as nat).1,
    {
        proof {
            reveal(ParserModel::read_i64_pair);
        }
        let a: i64 = match self.read_i64() {
            Ok(Some(a)) => a,
            Ok(None) => {
                return Ok(None);
            },
            Err(e) => {
                return Err(e);
            },
        };
        match self.read_i64() {
            Ok(Some(b)) => Ok(Some((a, b))),
            Ok(None) => Ok(None),
            Err(e) => Err(e),
        }
    }

    /// Reads the next two attributes of the node just started as strings.
    /// Returns `None` when the node has fewer than two attributes left.
    pub fn read_string_pair(&mut self) -> (r: Result<Option<(String, String)>, Error>)
        requires
            old(self).root@.wf(),
        ensures
            final(self).initial_depth == old(self).initial_depth,
            *final(final(self).root) == *final(old(self).root),
            final(self).root@ == old(self).root@.read_string_pair(
                old(self).initial_depth as nat,
            ).0,
            final(self).root@.wf(),
            final(self).root@.follows(old(self).root@),
            final(self).root@.open_nodes == old(self).root@.open_nodes,
            match old(self).root@.read_string_pair(old(self).initial_depth as nat).1 {
                Ok(Some(model)) => r matches Ok(Some(pair)) && pair.0@ == model.0 && pair.1@
                    == model.1,
                Ok(None) => r matches Ok(None),
                Err(e) => r == Err::<Option<(String, String)>, Error>(e),
            },
    {
        proof {
            reveal(ParserModel::read_string_pair);
        }
        let a: String = match self.read_string() {
            Ok(Some(a)) => a,
            Ok(None) => {
                return Ok(None);
            },
            Err(e) => {
                return Err(e);
            },
        };
        match self.read_string() {
            Ok(Some(b)) => Ok(Some((a, b))),
            Ok(None) => Ok(None),
            Err(e) => Err(e),
        }
    }
}

impl ParserModel {
    /// `self` is the parse `earlier` after attributes of the node just started
    /// have been read: the cursor and the record of the attributes apart, it
    /// is the same parse, or it has failed.
    pub open spec fn amid_attributes_of(self, earlier: ParserModel) -> bool {
        &&& self.wf()
        &&& self.follows(earlier)
        &&& self.fbx_version == earlier.fbx_version
        &&& self.open_nodes == earlier.open_nodes
        &&& self.warnings == earlier.warnings
        &&& self.state == earlier.state || self.state is Failed
    }
}

/// Reading an attribute leaves the parse amid the attributes of the same node.
pub proof fn lemma_read_attribute_stays(m: ParserModel, initial_depth: nat)
    requires
        m.wf(),
    ensures
        m.read_attribute_within(initial_depth).0.amid_attributes_of(m),
        m.read_attribute_within(initial_depth).1 is Ok ==> m.read_attribute_within(
            initial_depth,
        ).0.state == m.state,
{
    lemma_read_attribute_wf(m);
}

/// Reading an attribute as a 32-bit integer leaves the parse amid the
/// attributes of the same node.
pub proof fn lemma_read_i32_stays(m: ParserModel, initial_depth: nat)
    requires
        m.wf(),
    ensures
        m.read_i32(initial_depth).0.amid_attributes_of(m),
        m.read_i32(initial_depth).1 is Ok ==> m.read_i32(initial_depth).0.state == m.state,
{
    reveal(ParserModel::read_i32);
    lemma_read_attribute_stays(m, initial_depth);
}

/// Reading an attribute as a 64-bit integer leaves the parse amid the
/// attributes of the same node.
pub proof fn lemma_read_i64_stays(m: ParserModel, initial_depth: nat)
    requires
        m.wf(),
    ensures
        m.read_i64(initial_depth).0.amid_attributes_of(m),
        m.read_i64(initial_depth).1 is Ok ==> m.read_i64(initial_depth).0.state == m.state,
{
    reveal(ParserModel::read_i64);
    lemma_read_attribute_stays(m, initial_depth);
}

/// Reading an attribute as a string leaves the parse amid the attributes of
/// the same node.
pub proof fn lemma_read_string_stays(m: ParserModel, initial_depth: nat)
    requires
        m.wf(),
    ensures
        m.read_string(initial_depth).0.amid_attributes_of(m),
        m.read_string(initial_depth).1 is Ok ==> m.read_string(initial_depth).0.state == m.state,
{
    reveal(ParserModel::read_string);
    lemma_read_attribute_stays(m, initial_depth);
}

/// Reading two attributes as 64-bit integers leaves the parse amid the
/// attributes of the same node.
pub proof fn lemma_read_i64_pair_stays(m: ParserModel, initial_depth: nat)
    requires
        m.wf(),
    ensures
        m.read_i64_pair(initial_depth).0.amid_attributes_of(m),
        m.read_i64_pair(initial_depth).1 is Ok ==> m.read_i64_pair(initial_depth).0.state
            == m.state,
{
    reveal(ParserModel::read_i64_pair);
    lemma_read_i64_stays(m, initial_depth);
    lemma_read_i64_stays(m.read_i64(initial_depth).0, initial_depth);
}

/// Reading two attributes as strings leaves the parse amid the attributes of
/// the same node.
pub proof fn lemma_read_string_pair_stays(m: ParserModel, initial_depth: nat)
    requires
        m.wf(),
    ensures
        m.read_string_pair(initial_depth).0.amid_attributes_of(m),
        m.read_string_pair(initial_depth).1 is Ok ==> m.read_string_pair(initial_depth).0.state
            == m.state,
{
    reveal(ParserModel::read_string_pair);
    lemma_read_string_stays(m, initial_depth);
    lemma_read_string_stays(m.read_string(initial_depth).0, initial_depth);
}

/// Skipping a node comes to the same whether or not attributes of the node
/// have been read before.
pub proof fn lemma_skip_amid_attributes(m: ParserModel, earlier: ParserModel, initial_depth: nat)
    requires
        earlier.wf(),
        earlier.state is InDocument,
        earlier.depth() > 0,
        m.amid_attributes_of(earlier),
        m.state == earlier.state,
        initial_depth <= earlier.depth(),
    ensures
        m.skip_current_node_within(initial_depth) == m.skip_current_node(),
        m.skip_current_node().1 == earlier.skip_current_node().1,
        m.skip_current_node().1 is Ok ==> m.skip_current_node().0
            == earlier.skip_current_node().0,
{
    reveal(ParserModel::skip_current_node_within);
}

} // verus!
