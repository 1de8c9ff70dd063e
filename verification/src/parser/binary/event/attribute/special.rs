//! Special type node attribute.

use vstd::prelude::*;
use vstd::utf8::{decode_utf8, valid_utf8};
use super::super::super::error::IoError;
use super::super::super::primitive::{decode_u32, le_u32};
use super::super::super::state::{lemma_parser_view, BinaryParser};

verus! {

broadcast use lemma_parser_view;

/// Attribute type of special value.
#[derive(Debug, Clone, Copy, PartialEq, Eq, Structural)]
pub enum SpecialAttributeType {
    /// Binary value.
    Binary,
    /// String value.
    ///
    /// Note that the encoding is not specified.
    /// The attribute string may be UTF-8, UTF-16, or any other encodings.
    String,
}

/// Type code of a binary value: `R`.
pub const TYPE_BINARY: u8 = 0x52;

/// Type code of a string value: `S`.
pub const TYPE_STRING: u8 = 0x53;

/// Special type attribute.
///
/// The value is not copied out of the document until it is asked for: the
/// attribute borrows the parser and reads the value through it.
#[derive(Debug)]
pub struct SpecialAttribute<'a> {
    /// Parser.
    pub parser: &'a mut BinaryParser,
    /// Value type.
    pub value_type: SpecialAttributeType,
    /// Length of the value in bytes.
    pub byte_length: u32,
    /// End offset of the attribute value.
    pub end_offset: u64,
}

/// Mathematical model of a [`SpecialAttribute`], apart from the parser it
/// borrows.
pub struct SpecialModel {
    /// Value type.
    pub value_type: SpecialAttributeType,
    /// Length of the value in bytes.
    pub byte_length: u32,
    /// End offset of the attribute value.
    pub end_offset: u64,
}

impl<'a> View for SpecialAttribute<'a> {
    type V = SpecialModel;

    open spec fn view(&self) -> SpecialModel {
        SpecialModel {
            value_type: self.value_type,
            byte_length: self.byte_length,
            end_offset: self.end_offset,
        }
    }
}

/// Reader that hands out a limited number of the bytes that follow the cursor
/// of a parser.
#[derive(Debug)]
pub struct TakeReader<'a> {
    /// Parser.
    pub parser: &'a mut BinaryParser,
    /// Number of bytes the reader may still hand out.
    pub limit: u64,
}

impl<'a> TakeReader<'a> {
    /// Number of bytes a read of at most `max` bytes hands out: as many as are
    /// asked for, allowed and there.
    pub open spec fn read_len(&self, max: usize) -> nat {
        let unread = self.parser@.unread();
        let allowed = if self.limit < unread {
            self.limit as nat
        } else {
            unread
        };
        if max < allowed {
            max as nat
        } else {
            allowed
        }
    }

    /// Returns the number of bytes the reader may still hand out.
    pub fn limit(&self) -> (n: u64)
        ensures
            n == self.limit,
    {
        self.limit
    }

    /// Reads at most `max` bytes. Fewer bytes, or none, are returned when the
    /// limit or the end of the document is reached.
    pub fn read(&mut self, max: usize) -> (bytes: Vec<u8>)
        requires
            old(self).parser@.in_bounds(),
        ensures
            bytes@ == old(self).parser@.rest().take(old(self).read_len(max) as int),
            final(self).limit == old(self).limit - old(self).read_len(max),
            final(self).parser@ == old(self).parser@.advance(old(self).read_len(max)),
            *final(final(self).parser) == *final(old(self).parser),
    {
        let unread: usize = self.parser.source.remaining();
        let allowed: usize = if self.limit < unread as u64 {
            self.limit as usize
        } else {
            unread
        };
        let n: usize = if max < allowed {
            max
        } else {
            allowed
        };
        let rest = self.parser.source.peek();
        let bytes = vstd::slice::slice_to_vec(vstd::slice::slice_subrange(rest, 0, n));
        assert(bytes@ =~= self.parser@.rest().take(n as int));
        self.parser.source.advance(n);
        self.limit = self.limit - n as u64;
        bytes
    }
}

/// The value type a type code stands for.
pub open spec fn special_type_of(type_code: u8) -> SpecialAttributeType {
    if type_code == TYPE_BINARY {
        SpecialAttributeType::Binary
    } else {
        SpecialAttributeType::String
    }
}

/// What reading the length prefix of a special value yields when `rest` is what
/// follows the type code and starts at offset `position`: `None` when the
/// prefix is cut short or the value would end beyond any offset.
pub open spec fn parse_special(rest: Seq<u8>, position: nat, type_code: u8) -> Option<
    SpecialModel,
> {
    if rest.len() < 4 || position + 4 + le_u32(rest) > u64::MAX {
        None
    } else {
        Some(
            SpecialModel {
                value_type: special_type_of(type_code),
                byte_length: le_u32(rest),
                end_offset: (position + 4 + le_u32(rest)) as u64,
            },
        )
    }
}

impl<'a> SpecialAttribute<'a> {
    /// The cursor of the borrowed parser lies within the document and has not
    /// passed the end of the value.
    pub open spec fn wf(&self) -> bool {
        self.parser@.in_bounds() && self.parser@.position <= self@.end_offset
    }

    /// The bytes of the value that have not been read yet, as far as the
    /// document holds them.
    pub open spec fn rest(&self) -> Seq<u8> {
        self.parser@.bytes.subrange(self.parser@.position as int, self@.end_offset as int)
    }

    /// Returns attribute value type.
    pub fn value_type(&self) -> (t: SpecialAttributeType)
        ensures
            t == self@.value_type,
    {
        self.value_type
    }

    /// Returns length of the whole value.
    pub fn total_len(&self) -> (n: u64)
        ensures
            n == self@.byte_length,
    {
        self.byte_length as u64
    }

    /// Returns rest data size.
    pub fn rest_len(&self) -> (n: u64)
        requires
            self.wf(),
        ensures
            n == self@.end_offset - old(self.parser)@.position,
    {
        self.end_offset - self.parser.source.count()
    }

    /// Returns reader of the raw attribute value.
    ///
    /// The reader hands out no more than the bytes of the value that have not
    /// been read yet.
    pub fn reader<'b>(&'b mut self) -> (reader: TakeReader<'b>)
        requires
            old(self).wf(),
        ensures
            reader.limit == old(self)@.end_offset - old(self).parser@.position,
            *reader.parser == *old(self).parser,
            final(self)@ == old(self)@,
            *final(self).parser == *final(reader.parser),
            *final(final(self).parser) == *final(old(self).parser),
    {
        let limit: u64 = self.rest_len();
        TakeReader { parser: &mut *self.parser, limit }
    }

    /// Read the attribute to the vector.
    ///
    /// Fails, leaving the parser as it was, when the document ends before the
    /// value does.
    pub fn into_vec(self) -> (r: Result<Vec<u8>, IoError>)
        requires
            self.wf(),
        ensures
            match r {
                Ok(bytes) => self@.end_offset <= old(self.parser)@.bytes.len() && bytes@
                    == self.rest() && final(self.parser)@ == old(self.parser)@.at(
                    self@.end_offset as nat,
                ),
                Err(e) => self@.end_offset > old(self.parser)@.bytes.len() && e
                    == IoError::UnexpectedEof && final(self.parser)@ == old(self.parser)@,
            },
    {
        let rest_len: u64 = self.rest_len();
        if rest_len > self.parser.source.remaining() as u64 {
            return Err(IoError::UnexpectedEof);
        }
        let ghost before = self.parser@;
        match self.parser.source.read_exact(rest_len as usize) {
            Ok(bytes) => {
                assert(bytes@ =~= before.bytes.subrange(
                    before.position as int,
                    self@.end_offset as int,
                ));
                Ok(bytes)
            },
            Err(e) => Err(e),
        }
    }

    /// Read the attribute to the string.
    ///
    /// Fails, leaving the parser as it was, when the document ends before the
    /// value does or when the value is not valid UTF-8.
    pub fn into_string(self) -> (r: Result<String, IoError>)
        requires
            self.wf(),
        ensures
            match r {
                Ok(s) => self@.end_offset <= old(self.parser)@.bytes.len() && valid_utf8(
                    self.rest(),
                ) && s@ == decode_utf8(self.rest()) && final(self.parser)@ == old(
                    self.parser,
                )@.at(self@.end_offset as nat),
                Err(e) => final(self.parser)@ == old(self.parser)@ && if self@.end_offset > old(
                    self.parser,
                )@.bytes.len() {
                    e == IoError::UnexpectedEof
                } else {
                    e == IoError::InvalidData && !valid_utf8(self.rest())
                },
            },
    {
        let rest_len: u64 = self.rest_len();
        let rest = self.parser.source.peek();
        if rest_len > rest.len() as u64 {
            return Err(IoError::UnexpectedEof);
        }
        let value = vstd::slice::slice_subrange(rest, 0, rest_len as usize);
        let bytes = vstd::slice::slice_to_vec(value);
        assert(bytes@ =~= self.rest());
        match string_from_utf8(bytes) {
            Some(s) => {
                self.parser.source.advance(rest_len as usize);
                Ok(s)
            },
            None => Err(IoError::InvalidData),
        }
    }
}

/// Converts bytes to a string with `String::from_utf8`.
///
/// The contract restates the documentation of that function: it succeeds
/// exactly on valid UTF-8, and the string then holds the characters that the
/// bytes encode.
#[verifier::external_body]
fn string_from_utf8(bytes: Vec<u8>) -> (out: Option<String>)
    ensures
        out matches Some(s) ==> valid_utf8(bytes@) && s@ == decode_utf8(bytes@),
        out is None ==> !valid_utf8(bytes@),
{
    String::from_utf8(bytes).ok()
}

/// Read special type attribute from the given parser.
///
/// Reads the length prefix and returns the attribute together with the offset
/// at which its value ends. On failure the parser is left as it was.
pub fn read_special_attribute<'a>(parser: &'a mut BinaryParser, type_code: u8) -> (r: Result<
    (SpecialAttribute<'a>, u64),
    IoError,
>)
    requires
        old(parser)@.in_bounds(),
        type_code == TYPE_BINARY || type_code == TYPE_STRING,
    ensures
        match parse_special(old(parser)@.rest(), old(parser)@.position, type_code) {
            Some(model) => r matches Ok((attribute, end_offset)) && attribute@ == model
                && end_offset == model.end_offset && attribute.parser@ == old(parser)@.advance(4)
                && attribute.wf() && *final(parser) == *final(attribute.parser),
            None => r matches Err(e) && e == IoError::UnexpectedEof && *final(parser) == *old(
                parser,
            ),
        },
{
    let current_pos: u64 = parser.source.count();
    let rest = parser.source.peek();
    if rest.len() < 4 {
        return Err(IoError::UnexpectedEof);
    }
    let byte_length: u32 = decode_u32(rest, 0);
    assert(rest@.skip(0) =~= rest@);
    if byte_length as u64 > u64::MAX - 4 - current_pos {
        return Err(IoError::UnexpectedEof);
    }
    let value_type = if type_code == TYPE_BINARY {
        SpecialAttributeType::Binary
    } else {
        SpecialAttributeType::String
    };
    parser.source.advance(4);
    let end_offset: u64 = current_pos + 4 + byte_length as u64;
    Ok((SpecialAttribute { parser, value_type, byte_length, end_offset }, end_offset))
}

} // verus!
