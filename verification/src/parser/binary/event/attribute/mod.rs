//! Node attributes.

pub mod array;
pub mod special;

use vstd::prelude::*;
use self::array::{parse_array, ArrayKind, ArrayModel, ArrayValue};
use self::special::{parse_special, SpecialAttribute, SpecialModel, TYPE_BINARY, TYPE_STRING};
use super::super::error::{Error, IoError};
use super::super::primitive::{
    decode_u16, decode_u32, decode_u64, le_u16, le_u32, le_u64, signed16, signed32, signed64,
    to_i16, to_i32, to_i64,
};

verus! {

/// Type code of a 16-bit signed integer: `Y`.
pub const TYPE_I16: u8 = 0x59;

/// Type code of a boolean: `C`.
pub const TYPE_BOOL: u8 = 0x43;

/// Type code of a 32-bit signed integer: `I`.
pub const TYPE_I32: u8 = 0x49;

/// Type code of a 32-bit floating point number: `F`.
pub const TYPE_F32: u8 = 0x46;

/// Type code of a 64-bit floating point number: `D`.
pub const TYPE_F64: u8 = 0x44;

/// Type code of a 64-bit signed integer: `L`.
pub const TYPE_I64: u8 = 0x4c;

/// Type code of an array of 32-bit floating point numbers: `f`.
pub const TYPE_ARRAY_F32: u8 = 0x66;

/// Type code of an array of 64-bit floating point numbers: `d`.
pub const TYPE_ARRAY_F64: u8 = 0x64;

/// Type code of an array of 64-bit signed integers: `l`.
pub const TYPE_ARRAY_I64: u8 = 0x6c;

/// Type code of an array of 32-bit signed integers: `i`.
pub const TYPE_ARRAY_I32: u8 = 0x69;

/// Type code of an array of booleans: `b`.
pub const TYPE_ARRAY_BOOL: u8 = 0x62;

/// Single value of a fixed width. Floating point values are kept as their
/// IEEE 754 bit patterns.
#[derive(Debug, Clone, Copy, PartialEq, Eq, Structural)]
pub enum PrimitiveAttribute {
    /// Boolean.
    Bool(bool),
    /// 16-bit signed integer.
    I16(i16),
    /// 32-bit signed integer.
    I32(i32),
    /// 64-bit signed integer.
    I64(i64),
    /// 32-bit floating point number, as its bit pattern.
    F32(u32),
    /// 64-bit floating point number, as its bit pattern.
    F64(u64),
}

/// Node attribute.
#[derive(Debug)]
pub enum Attribute<'a> {
    /// Single value of a fixed width.
    Primitive(PrimitiveAttribute),
    /// Array of values of a fixed width.
    Array(ArrayValue),
    /// String or binary value, not yet read.
    Special(SpecialAttribute<'a>),
}

/// Mathematical model of an [`Attribute`].
pub enum AttributeModel {
    /// Single value of a fixed width.
    Primitive(PrimitiveAttribute),
    /// Array of values of a fixed width.
    Array(ArrayModel),
    /// String or binary value, not yet read.
    Special(SpecialModel),
}

impl<'a> View for Attribute<'a> {
    type V = AttributeModel;

    open spec fn view(&self) -> AttributeModel {
        match self {
            Attribute::Primitive(p) => AttributeModel::Primitive(*p),
            Attribute::Array(a) => AttributeModel::Array(a@),
            Attribute::Special(s) => AttributeModel::Special(s@),
        }
    }
}

/// Byte width of the value that follows a primitive type code; `None` for any
/// other type code.
pub open spec fn spec_primitive_len(type_code: u8) -> Option<usize> {
    if type_code == TYPE_BOOL {
        Some(1)
    } else if type_code == TYPE_I16 {
        Some(2)
    } else if type_code == TYPE_I32 || type_code == TYPE_F32 {
        Some(4)
    } else if type_code == TYPE_I64 || type_code == TYPE_F64 {
        Some(8)
    } else {
        None
    }
}

/// Returns the byte width of the value that follows a primitive type code.
#[verifier::when_used_as_spec(spec_primitive_len)]
pub fn primitive_len(type_code: u8) -> (len: Option<usize>)
    ensures
        len == spec_primitive_len(type_code),
{
    if type_code == TYPE_BOOL {
        Some(1)
    } else if type_code == TYPE_I16 {
        Some(2)
    } else if type_code == TYPE_I32 || type_code == TYPE_F32 {
        Some(4)
    } else if type_code == TYPE_I64 || type_code == TYPE_F64 {
        Some(8)
    } else {
        None
    }
}

/// The primitive value with the given type code whose little-endian encoding
/// is the start of `body`.
pub open spec fn parse_primitive(type_code: u8, body: Seq<u8>) -> PrimitiveAttribute
    recommends
        primitive_len(type_code) matches Some(n) && body.len() >= n,
{
    if type_code == TYPE_BOOL {
        PrimitiveAttribute::Bool(array::bool_of(body[0]))
    } else if type_code == TYPE_I16 {
        PrimitiveAttribute::I16(signed16(le_u16(body)))
    } else if type_code == TYPE_I32 {
        PrimitiveAttribute::I32(signed32(le_u32(body)))
    } else if type_code == TYPE_F32 {
        PrimitiveAttribute::F32(le_u32(body))
    } else if type_code == TYPE_I64 {
        PrimitiveAttribute::I64(signed64(le_u64(body)))
    } else {
        PrimitiveAttribute::F64(le_u64(body))
    }
}

/// Element type of the array that follows an array type code; `None` for any
/// other type code.
pub open spec fn spec_array_kind_of(type_code: u8) -> Option<ArrayKind> {
    if type_code == TYPE_ARRAY_BOOL {
        Some(ArrayKind::Bool)
    } else if type_code == TYPE_ARRAY_I32 {
        Some(ArrayKind::I32)
    } else if type_code == TYPE_ARRAY_I64 {
        Some(ArrayKind::I64)
    } else if type_code == TYPE_ARRAY_F32 {
        Some(ArrayKind::F32)
    } else if type_code == TYPE_ARRAY_F64 {
        Some(ArrayKind::F64)
    } else {
        None
    }
}

/// Returns the element type of the array that follows an array type code.
#[verifier::when_used_as_spec(spec_array_kind_of)]
pub fn array_kind_of(type_code: u8) -> (kind: Option<ArrayKind>)
    ensures
        kind == spec_array_kind_of(type_code),
{
    if type_code == TYPE_ARRAY_BOOL {
        Some(ArrayKind::Bool)
    } else if type_code == TYPE_ARRAY_I32 {
        Some(ArrayKind::I32)
    } else if type_code == TYPE_ARRAY_I64 {
        Some(ArrayKind::I64)
    } else if type_code == TYPE_ARRAY_F32 {
        Some(ArrayKind::F32)
    } else if type_code == TYPE_ARRAY_F64 {
        Some(ArrayKind::F64)
    } else {
        None
    }
}

/// A type code that stands for a string or binary value.
pub open spec fn spec_is_special(type_code: u8) -> bool {
    type_code == TYPE_BINARY || type_code == TYPE_STRING
}

/// Tells whether a type code stands for a string or binary value.
#[verifier::when_used_as_spec(spec_is_special)]
pub fn is_special(type_code: u8) -> (b: bool)
    ensures
        b == spec_is_special(type_code),
{
    type_code == TYPE_BINARY || type_code == TYPE_STRING
}

/// An attribute that was read successfully.
pub struct AttributeOutcome {
    /// The attribute.
    pub attribute: AttributeModel,
    /// Number of bytes read, type code included. For a string or binary value
    /// this covers the length prefix and not the value.
    pub consumed: nat,
    /// Offset at which the attribute ends, its value included.
    pub end: nat,
}

/// What reading one attribute yields when `rest` starts with its type code and
/// `position` is the offset at which `rest` starts.
pub open spec fn parse_attribute(rest: Seq<u8>, position: nat) -> Result<AttributeOutcome, Error> {
    let type_code = rest[0];
    let body = rest.skip(1);
    if rest.len() < 1 {
        Err(Error::Io(IoError::UnexpectedEof))
    } else if let Some(n) = primitive_len(type_code) {
        if body.len() < n {
            Err(Error::Io(IoError::UnexpectedEof))
        } else {
            Ok(
                AttributeOutcome {
                    attribute: AttributeModel::Primitive(parse_primitive(type_code, body)),
                    consumed: (1 + n) as nat,
                    end: (position + 1 + n) as nat,
                },
            )
        }
    } else if let Some(kind) = array_kind_of(type_code) {
        match parse_array(kind, body) {
            Ok(outcome) => Ok(
                AttributeOutcome {
                    attribute: AttributeModel::Array(outcome.array),
                    consumed: 1 + outcome.consumed,
                    end: position + 1 + outcome.consumed,
                },
            ),
            Err(e) => Err(e),
        }
    } else if is_special(type_code) {
        match parse_special(body, position + 1, type_code) {
            Some(model) => Ok(
                AttributeOutcome {
                    attribute: AttributeModel::Special(model),
                    consumed: 5,
                    end: model.end_offset as nat,
                },
            ),
            None => Err(Error::Io(IoError::UnexpectedEof)),
        }
    } else {
        Err(Error::UnknownAttributeType(type_code))
    }
}

/// Reads the primitive value with the given type code from the start of
/// `body`.
pub fn read_primitive(type_code: u8, body: &[u8]) -> (r: Result<PrimitiveAttribute, IoError>)
    requires
        primitive_len(type_code) is Some,
    ensures
        r == if body@.len() >= primitive_len(type_code)->0 {
            Ok::<PrimitiveAttribute, IoError>(parse_primitive(type_code, body@))
        } else {
            Err(IoError::UnexpectedEof)
        },
{
    assert(body@.skip(0) =~= body@);
    if type_code == TYPE_BOOL {
        if body.len() < 1 {
            return Err(IoError::UnexpectedEof);
        }
        Ok(PrimitiveAttribute::Bool(body[0] % 2 == 1))
    } else if type_code == TYPE_I16 {
        if body.len() < 2 {
            return Err(IoError::UnexpectedEof);
        }
        Ok(PrimitiveAttribute::I16(to_i16(decode_u16(body, 0))))
    } else if type_code == TYPE_I32 {
        if body.len() < 4 {
            return Err(IoError::UnexpectedEof);
        }
        Ok(PrimitiveAttribute::I32(to_i32(decode_u32(body, 0))))
    } else if type_code == TYPE_F32 {
        if body.len() < 4 {
            return Err(IoError::UnexpectedEof);
        }
        Ok(PrimitiveAttribute::F32(decode_u32(body, 0)))
    } else if type_code == TYPE_I64 {
        if body.len() < 8 {
            return Err(IoError::UnexpectedEof);
        }
        Ok(PrimitiveAttribute::I64(to_i64(decode_u64(body, 0))))
    } else {
        if body.len() < 8 {
            return Err(IoError::UnexpectedEof);
        }
        Ok(PrimitiveAttribute::F64(decode_u64(body, 0)))
    }
}

} // verus!
