//! Array type node attribute.

use vstd::prelude::*;
use super::super::super::error::{Error, IoError};
use super::super::super::primitive::{
    decode_u32, decode_u64, le_u32, le_u64, signed32, signed64, to_i32, to_i64,
};

verus! {

/// Element type of an array attribute.
#[derive(Debug, Clone, Copy, PartialEq, Eq, Structural)]
pub enum ArrayKind {
    /// One byte per element, read as a boolean.
    Bool,
    /// 32-bit signed integers.
    I32,
    /// 64-bit signed integers.
    I64,
    /// 32-bit floating point numbers.
    F32,
    /// 64-bit floating point numbers.
    F64,
}

impl ArrayKind {
    /// Byte width of one element.
    pub open spec fn spec_width(self) -> u64 {
        match self {
            ArrayKind::Bool => 1,
            ArrayKind::I32 | ArrayKind::F32 => 4,
            ArrayKind::I64 | ArrayKind::F64 => 8,
        }
    }

    /// Returns the byte width of one element.
    #[verifier::when_used_as_spec(spec_width)]
    pub fn width(self) -> (w: u64)
        ensures
            w == self.spec_width(),
    {
        match self {
            ArrayKind::Bool => 1,
            ArrayKind::I32 | ArrayKind::F32 => 4,
            ArrayKind::I64 | ArrayKind::F64 => 8,
        }
    }
}

/// The record that precedes the payload of an array attribute.
#[derive(Debug, Clone, Copy, PartialEq, Eq, Structural)]
pub struct ArrayHeader {
    /// Number of elements in the array.
    pub num_elements: u32,
    /// How the payload is stored: `0` for raw elements, `1` for a zlib stream.
    pub encoding: u32,
    /// Byte length of the payload when it is a zlib stream.
    pub compressed_len: u32,
}

/// Byte length of an [`ArrayHeader`].
pub const ARRAY_HEADER_LEN: usize = 12;

/// Encoding of an array stored as raw little-endian elements.
pub const ENCODING_RAW: u32 = 0;

/// Encoding of an array stored as a zlib stream.
pub const ENCODING_ZLIB: u32 = 1;

/// The array header stored at the start of `body`.
pub open spec fn parse_array_header(body: Seq<u8>) -> ArrayHeader
    recommends
        body.len() >= 12,
{
    ArrayHeader {
        num_elements: le_u32(body),
        encoding: le_u32(body.skip(4)),
        compressed_len: le_u32(body.skip(8)),
    }
}

/// Decoded elements of an array attribute. Floating point elements are kept
/// as their IEEE 754 bit patterns.
#[derive(Debug, Clone, PartialEq, Eq)]
pub enum ArrayValue {
    /// Array of booleans.
    Bool(Vec<bool>),
    /// Array of 32-bit signed integers.
    I32(Vec<i32>),
    /// Array of 64-bit signed integers.
    I64(Vec<i64>),
    /// Array of 32-bit floating point numbers, as bit patterns.
    F32(Vec<u32>),
    /// Array of 64-bit floating point numbers, as bit patterns.
    F64(Vec<u64>),
}

/// Mathematical model of an [`ArrayValue`].
pub enum ArrayModel {
    /// Array of booleans.
    Bool(Seq<bool>),
    /// Array of 32-bit signed integers.
    I32(Seq<i32>),
    /// Array of 64-bit signed integers.
    I64(Seq<i64>),
    /// Array of 32-bit floating point numbers, as bit patterns.
    F32(Seq<u32>),
    /// Array of 64-bit floating point numbers, as bit patterns.
    F64(Seq<u64>),
}

impl View for ArrayValue {
    type V = ArrayModel;

    open spec fn view(&self) -> ArrayModel {
        match self {
            ArrayValue::Bool(v) => ArrayModel::Bool(v@),
            ArrayValue::I32(v) => ArrayModel::I32(v@),
            ArrayValue::I64(v) => ArrayModel::I64(v@),
            ArrayValue::F32(v) => ArrayModel::F32(v@),
            ArrayValue::F64(v) => ArrayModel::F64(v@),
        }
    }
}

impl ArrayModel {
    /// Element type of the array.
    pub open spec fn kind(self) -> ArrayKind {
        match self {
            ArrayModel::Bool(_) => ArrayKind::Bool,
            ArrayModel::I32(_) => ArrayKind::I32,
            ArrayModel::I64(_) => ArrayKind::I64,
            ArrayModel::F32(_) => ArrayKind::F32,
            ArrayModel::F64(_) => ArrayKind::F64,
        }
    }

    /// Number of elements of the array.
    pub open spec fn len(self) -> nat {
        match self {
            ArrayModel::Bool(v) => v.len(),
            ArrayModel::I32(v) => v.len(),
            ArrayModel::I64(v) => v.len(),
            ArrayModel::F32(v) => v.len(),
            ArrayModel::F64(v) => v.len(),
        }
    }
}

/// The boolean a byte stands for: its lowest bit.
pub open spec fn bool_of(byte: u8) -> bool {
    byte % 2 == 1
}

/// The array of `n` elements of the given kind whose raw little-endian
/// encoding is `raw`.
pub open spec fn array_of_bytes(kind: ArrayKind, n: nat, raw: Seq<u8>) -> ArrayModel
    recommends
        raw.len() == n * kind.width(),
{
    match kind {
        ArrayKind::Bool => ArrayModel::Bool(Seq::new(n, |i: int| bool_of(raw[i]))),
        ArrayKind::I32 => ArrayModel::I32(Seq::new(n, |i: int| signed32(le_u32(raw.skip(4 * i))))),
        ArrayKind::I64 => ArrayModel::I64(Seq::new(n, |i: int| signed64(le_u64(raw.skip(8 * i))))),
        ArrayKind::F32 => ArrayModel::F32(Seq::new(n, |i: int| le_u32(raw.skip(4 * i)))),
        ArrayKind::F64 => ArrayModel::F64(Seq::new(n, |i: int| le_u64(raw.skip(8 * i)))),
    }
}

/// What decoding `n` elements of the given kind from `raw` yields: the
/// elements when `raw` holds exactly their encoding, an error otherwise.
pub open spec fn decode_elements(kind: ArrayKind, n: nat, raw: Seq<u8>) -> Result<
    ArrayModel,
    Error,
> {
    if raw.len() == n * kind.width() {
        Ok(array_of_bytes(kind, n, raw))
    } else {
        Err(Error::BrokenArray)
    }
}

fn decode_bools(raw: &[u8]) -> (out: Vec<bool>)
    ensures
        out@ == Seq::new(raw@.len(), |i: int| bool_of(raw@[i])),
{
    let mut out: Vec<bool> = Vec::new();
    let mut i: usize = 0;
    while i < raw.len()
        invariant
            i <= raw.len(),
            out@ == Seq::new(i as nat, |j: int| bool_of(raw@[j])),
        decreases raw.len() - i,
    {
        out.push(raw[i] % 2 == 1);
        i = i + 1;
        assert(out@ =~= Seq::new(i as nat, |j: int| bool_of(raw@[j])));
    }
    assert(out@ =~= Seq::new(raw@.len(), |i: int| bool_of(raw@[i])));
    out
}

fn decode_words(raw: &[u8], n: usize) -> (out: Vec<u32>)
    requires
        raw.len() == 4 * n,
    ensures
        out@ == Seq::new(n as nat, |i: int| le_u32(raw@.skip(4 * i))),
{
    let mut out: Vec<u32> = Vec::new();
    let mut i: usize = 0;
    while i < n
        invariant
            i <= n,
            raw.len() == 4 * n,
            out@ == Seq::new(i as nat, |j: int| le_u32(raw@.skip(4 * j))),
        decreases n - i,
    {
        out.push(decode_u32(raw, 4 * i));
        i = i + 1;
        assert(out@ =~= Seq::new(i as nat, |j: int| le_u32(raw@.skip(4 * j))));
    }
    out
}

fn decode_i32s(raw: &[u8], n: usize) -> (out: Vec<i32>)
    requires
        raw.len() == 4 * n,
    ensures
        out@ == Seq::new(n as nat, |i: int| signed32(le_u32(raw@.skip(4 * i)))),
{
    let mut out: Vec<i32> = Vec::new();
    let mut i: usize = 0;
    while i < n
        invariant
            i <= n,
            raw.len() == 4 * n,
            out@ == Seq::new(i as nat, |j: int| signed32(le_u32(raw@.skip(4 * j)))),
        decreases n - i,
    {
        out.push(to_i32(decode_u32(raw, 4 * i)));
        i = i + 1;
        assert(out@ =~= Seq::new(i as nat, |j: int| signed32(le_u32(raw@.skip(4 * j)))));
    }
    out
}

fn decode_double_words(raw: &[u8], n: usize) -> (out: Vec<u64>)
    requires
        raw.len() == 8 * n,
    ensures
        out@ == Seq::new(n as nat, |i: int| le_u64(raw@.skip(8 * i))),
{
    let mut out: Vec<u64> = Vec::new();
    let mut i: usize = 0;
    while i < n
        invariant
            i <= n,
            raw.len() == 8 * n,
            out@ == Seq::new(i as nat, |j: int| le_u64(raw@.skip(8 * j))),
        decreases n - i,
    {
        out.push(decode_u64(raw, 8 * i));
        i = i + 1;
        assert(out@ =~= Seq::new(i as nat, |j: int| le_u64(raw@.skip(8 * j))));
    }
    out
}

fn decode_i64s(raw: &[u8], n: usize) -> (out: Vec<i64>)
    requires
        raw.len() == 8 * n,
    ensures
        out@ == Seq::new(n as nat, |i: int| signed64(le_u64(raw@.skip(8 * i)))),
{
    let mut out: Vec<i64> = Vec::new();
    let mut i: usize = 0;
    while i < n
        invariant
            i <= n,
            raw.len() == 8 * n,
            out@ == Seq::new(i as nat, |j: int| signed64(le_u64(raw@.skip(8 * j)))),
        decreases n - i,
    {
        out.push(to_i64(decode_u64(raw, 8 * i)));
        i = i + 1;
        assert(out@ =~= Seq::new(i as nat, |j: int| signed64(le_u64(raw@.skip(8 * j)))));
    }
    out
}

impl ArrayValue {
    /// Decodes `num_elements` elements of the given kind from their raw
    /// little-endian encoding. Fails when `raw` is shorter or longer than that
    /// many elements.
    pub fn from_raw(kind: ArrayKind, num_elements: u32, raw: &[u8]) -> (r: Result<
        ArrayValue,
        Error,
    >)
        ensures
            match decode_elements(kind, num_elements as nat, raw@) {
                Ok(model) => r matches Ok(array) && array@ == model,
                Err(e) => r == Err::<ArrayValue, Error>(e),
            },
    {
        let width: u64 = kind.width();
        if raw.len() as u64 != num_elements as u64 * width {
            return Err(Error::BrokenArray);
        }
        let n: usize = num_elements as usize;
        Ok(
            match kind {
                ArrayKind::Bool => ArrayValue::Bool(decode_bools(raw)),
                ArrayKind::I32 => ArrayValue::I32(decode_i32s(raw, n)),
                ArrayKind::I64 => ArrayValue::I64(decode_i64s(raw, n)),
                ArrayKind::F32 => ArrayValue::F32(decode_words(raw, n)),
                ArrayKind::F64 => ArrayValue::F64(decode_double_words(raw, n)),
            },
        )
    }
}

/// What the zlib stream `compressed` inflates to when the output may grow to
/// at most `limit` bytes: `None` when the stream is not a complete, valid zlib
/// stream or holds more than `limit` bytes.
pub uninterp spec fn zlib_inflated(compressed: Seq<u8>, limit: nat) -> Option<Seq<u8>>;

/// Inflates a zlib stream with `miniz_oxide::inflate::decompress_to_vec_zlib_with_limit`.
///
/// The contract only names the result: it is whatever that function yields for
/// this input and this limit, a failure of any kind being `None`.
#[verifier::external_body]
fn inflate(compressed: &[u8], limit: usize) -> (out: Option<Vec<u8>>)
    ensures
        out matches Some(bytes) ==> zlib_inflated(compressed@, limit as nat) == Some(bytes@),
        out is None ==> zlib_inflated(compressed@, limit as nat) is None,
{
    miniz_oxide::inflate::decompress_to_vec_zlib_with_limit(compressed, limit).ok()
}

/// An array attribute that was read successfully.
pub struct ArrayOutcome {
    /// The decoded array.
    pub array: ArrayModel,
    /// Number of bytes the header and the payload occupy.
    pub consumed: nat,
}

/// What reading an array attribute of the given kind yields when `body` is what
/// follows the type code.
pub open spec fn parse_array(kind: ArrayKind, body: Seq<u8>) -> Result<ArrayOutcome, Error> {
    let header = parse_array_header(body);
    let n = header.num_elements as nat;
    let raw_len = (n * kind.width()) as nat;
    let zlib_len = header.compressed_len as nat;
    if body.len() < 12 {
        Err(Error::Io(IoError::UnexpectedEof))
    } else if header.encoding == ENCODING_RAW {
        if body.len() < 12 + raw_len {
            Err(Error::Io(IoError::UnexpectedEof))
        } else {
            Ok(
                ArrayOutcome {
                    array: array_of_bytes(kind, n, body.subrange(12, 12 + raw_len as int)),
                    consumed: 12 + raw_len,
                },
            )
        }
    } else if header.encoding == ENCODING_ZLIB {
        if body.len() < 12 + zlib_len {
            Err(Error::Io(IoError::UnexpectedEof))
        } else if raw_len > usize::MAX {
            Err(Error::BrokenArray)
        } else {
            match zlib_inflated(body.subrange(12, 12 + zlib_len as int), raw_len) {
                Some(raw) => match decode_elements(kind, n, raw) {
                    Ok(array) => Ok(ArrayOutcome { array, consumed: 12 + zlib_len }),
                    Err(e) => Err(e),
                },
                None => Err(Error::BrokenArray),
            }
        }
    } else {
        Err(Error::UnknownArrayEncoding(header.encoding))
    }
}

/// An array that has been read is whole: it holds as many elements as its
/// header declares, of the type asked for, however the payload was stored and
/// whatever a zlib stream inflated to. A payload that does not hold exactly
/// the declared elements is never read as an array.
pub proof fn lemma_array_is_whole(kind: ArrayKind, body: Seq<u8>)
    ensures
        parse_array(kind, body) matches Ok(outcome) ==> outcome.array.kind() == kind
            && outcome.array.len() == parse_array_header(body).num_elements,
        forall|n: nat, raw: Seq<u8>| #[trigger]
            decode_elements(kind, n, raw) matches Ok(array) ==> array.kind() == kind && array.len()
                == n && raw.len() == n * kind.width(),
{
}

/// Reads an array attribute of the given kind from `body`, the bytes that
/// follow the type code, and returns it with the number of bytes it occupies.
///
/// A payload stored as a zlib stream is inflated first; the array is accepted
/// only if the stream yields exactly the declared number of elements.
pub fn read_array(kind: ArrayKind, body: &[u8]) -> (r: Result<(ArrayValue, usize), Error>)
    ensures
        match parse_array(kind, body@) {
            Ok(outcome) => r matches Ok((array, consumed)) && array@ == outcome.array && consumed
                == outcome.consumed,
            Err(e) => r == Err::<(ArrayValue, usize), Error>(e),
        },
{
    if body.len() < ARRAY_HEADER_LEN {
        return Err(Error::Io(IoError::UnexpectedEof));
    }
    let num_elements: u32 = decode_u32(body, 0);
    let encoding: u32 = decode_u32(body, 4);
    let compressed_len: u32 = decode_u32(body, 8);
    assert(body@.skip(0) =~= body@);
    let raw_len: u64 = num_elements as u64 * kind.width();
    let available: u64 = (body.len() - ARRAY_HEADER_LEN) as u64;
    if encoding == ENCODING_RAW {
        if available < raw_len {
            return Err(Error::Io(IoError::UnexpectedEof));
        }
        let end: usize = ARRAY_HEADER_LEN + raw_len as usize;
        let raw = vstd::slice::slice_subrange(body, ARRAY_HEADER_LEN, end);
        match ArrayValue::from_raw(kind, num_elements, raw) {
            Ok(array) => Ok((array, end)),
            Err(e) => Err(e),
        }
    } else if encoding == ENCODING_ZLIB {
        if available < compressed_len as u64 {
            return Err(Error::Io(IoError::UnexpectedEof));
        }
        if raw_len > usize::MAX as u64 {
            return Err(Error::BrokenArray);
        }
        let end: usize = ARRAY_HEADER_LEN + compressed_len as usize;
        let compressed = vstd::slice::slice_subrange(body, ARRAY_HEADER_LEN, end);
        match inflate(compressed, raw_len as usize) {
            Some(raw) => match ArrayValue::from_raw(kind, num_elements, raw.as_slice()) {
                Ok(array) => Ok((array, end)),
                Err(e) => Err(e),
            },
            None => Err(Error::BrokenArray),
        }
    } else {
        Err(Error::UnknownArrayEncoding(encoding))
    }
}

} // verus!
