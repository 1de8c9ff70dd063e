//! Parser events and the fixed-layout records they are read from.

pub mod attribute;

use vstd::prelude::*;
use super::error::{Error, IoError, Warning};
use super::primitive::{decode_u32, decode_u64, le_u32, le_u64};
use super::state::{lemma_parser_view, BinaryParser, ParserModel, ParserState};

verus! {

broadcast use lemma_parser_view;

/// FBX header.
#[derive(Debug, Clone, Copy, PartialEq, Eq, Structural)]
pub struct FbxHeader {
    /// FBX version.
    pub version: u32,
}

/// The 21 bytes every binary FBX document starts with:
/// `"Kaydara FBX Binary  "` followed by a zero byte.
pub const MAGIC: [u8; 21] = [
    0x4b, 0x61, 0x79, 0x64, 0x61, 0x72, 0x61, 0x20, 0x46, 0x42, 0x58, 0x20, 0x42, 0x69, 0x6e,
    0x61, 0x72, 0x79, 0x20, 0x20, 0x00,
];

/// The two bytes expected after the magic.
pub const MARKER: [u8; 2] = [0x1a, 0x00];

/// Byte length of the header: magic, marker and version.
pub const HEADER_LEN: usize = 27;

/// What reading a header from `rest` yields.
pub open spec fn parse_header(rest: Seq<u8>) -> Result<FbxHeader, Error> {
    if rest.len() < 21 {
        Err(Error::Io(IoError::UnexpectedEof))
    } else if rest.take(21) != MAGIC@ {
        Err(Error::MagicMismatch)
    } else if rest.len() < 27 {
        Err(Error::Io(IoError::UnexpectedEof))
    } else {
        Ok(FbxHeader { version: le_u32(rest.skip(23)) })
    }
}

/// The warning that the marker bytes of a header in `rest` call for.
pub open spec fn marker_warning(rest: Seq<u8>) -> Option<Warning>
    recommends
        rest.len() >= 27,
{
    if rest[21] == MARKER[0] && rest[22] == MARKER[1] {
        None
    } else {
        Some(Warning::UnexpectedMarkerBytes(rest[21], rest[22]))
    }
}

impl ParserModel {
    /// The parse after a header has been read successfully.
    pub open spec fn after_header(self, header: FbxHeader) -> ParserModel {
        ParserModel {
            position: self.position + 27,
            fbx_version: Some(header.version),
            state: if self.state is BeforeHeader {
                ParserState::InDocument
            } else {
                self.state
            },
            ..self
        }.warned(marker_warning(self.rest()))
    }
}

/// Tells whether the first `MAGIC.len()` bytes of `bytes` are the magic.
fn starts_with_magic(bytes: &[u8]) -> (b: bool)
    requires
        bytes@.len() >= 21,
    ensures
        b == (bytes@.take(21) == MAGIC@),
{
    let mut i: usize = 0;
    while i < 21
        invariant
            i <= 21,
            bytes@.len() >= 21,
            forall|j: int| 0 <= j < i ==> bytes@[j] == MAGIC@[j],
        decreases 21 - i,
    {
        if bytes[i] != MAGIC[i] {
            assert(bytes@.take(21)[i as int] != MAGIC@[i as int]);
            return false;
        }
        i = i + 1;
    }
    assert(bytes@.take(21) =~= MAGIC@);
    true
}

/// Read FBX header.
///
/// Checks the magic, records a warning when the marker bytes deviate, and
/// stores the document version in the parser. On failure the parser is left as
/// it was.
pub fn read_fbx_header(parser: &mut BinaryParser) -> (r: Result<FbxHeader, Error>)
    requires
        old(parser)@.in_bounds(),
        old(parser)@.fbx_version is None,
    ensures
        r == parse_header(old(parser)@.rest()),
        final(parser)@ == match r {
            Ok(header) => old(parser)@.after_header(header),
            Err(_) => old(parser)@,
        },
{
    let rest = parser.source.peek();
    if rest.len() < 21 {
        return Err(Error::Io(IoError::UnexpectedEof));
    }
    if !starts_with_magic(rest) {
        return Err(Error::MagicMismatch);
    }
    if rest.len() < HEADER_LEN {
        return Err(Error::Io(IoError::UnexpectedEof));
    }
    let first: u8 = rest[21];
    let second: u8 = rest[22];
    let version: u32 = decode_u32(rest, 23);
    parser.source.advance(HEADER_LEN);
    if first != MARKER[0] || second != MARKER[1] {
        parser.warn(Warning::UnexpectedMarkerBytes(first, second));
    }
    parser.fbx_version = Some(version);
    if parser.state == ParserState::BeforeHeader {
        parser.state = ParserState::InDocument;
    }
    Ok(FbxHeader { version })
}

/// Fixed size node header (without node name field).
#[derive(Debug, Clone, Copy, PartialEq, Eq, Structural)]
pub struct NodeHeader {
    /// End offset of the node.
    pub end_offset: u64,
    /// Number of the node attributes.
    pub num_attributes: u64,
    /// Byte length of the node attributes.
    pub len_attributes: u64,
    /// Length of the node name.
    pub len_name: u8,
}

/// Document version from which node headers store 64-bit fields.
pub const WIDE_HEADER_VERSION: u32 = 7500;

/// Byte length of a node header in a document of the given version.
pub open spec fn node_header_len(version: u32) -> nat {
    if version < WIDE_HEADER_VERSION {
        13
    } else {
        25
    }
}

/// The node header stored at the start of `rest` in a document of the given
/// version.
pub open spec fn parse_node_header(rest: Seq<u8>, version: u32) -> NodeHeader
    recommends
        rest.len() >= node_header_len(version),
{
    if version < WIDE_HEADER_VERSION {
        NodeHeader {
            end_offset: le_u32(rest) as u64,
            num_attributes: le_u32(rest.skip(4)) as u64,
            len_attributes: le_u32(rest.skip(8)) as u64,
            len_name: rest[12],
        }
    } else {
        NodeHeader {
            end_offset: le_u64(rest),
            num_attributes: le_u64(rest.skip(8)),
            len_attributes: le_u64(rest.skip(16)),
            len_name: rest[24],
        }
    }
}

/// What reading a node header from `rest` yields.
pub open spec fn read_node_header(rest: Seq<u8>, version: u32) -> Result<NodeHeader, IoError> {
    if rest.len() < node_header_len(version) {
        Err(IoError::UnexpectedEof)
    } else {
        Ok(parse_node_header(rest, version))
    }
}

impl NodeHeader {
    /// All four fields are zero: the header marks the end of a list of
    /// sibling nodes.
    pub open spec fn spec_is_node_end(&self) -> bool {
        self.end_offset == 0 && self.num_attributes == 0 && self.len_attributes == 0
            && self.len_name == 0
    }

    /// Returns true if all fields of the node header is `0`.
    #[verifier::when_used_as_spec(spec_is_node_end)]
    pub fn is_node_end(&self) -> (b: bool)
        ensures
            b == self.spec_is_node_end(),
    {
        self.end_offset == 0 && self.num_attributes == 0 && self.len_attributes == 0
            && self.len_name == 0
    }

    /// Reads node header from the given parser and returns it.
    ///
    /// The three offsets are 32 bits wide before version 7500 and 64 bits wide
    /// from then on. On failure the parser is left as it was.
    pub fn read_from_parser(parser: &mut BinaryParser) -> (r: Result<NodeHeader, IoError>)
        requires
            old(parser)@.in_bounds(),
            old(parser)@.fbx_version is Some,
        ensures
            r == read_node_header(old(parser)@.rest(), old(parser)@.fbx_version->0),
            final(parser)@ == match r {
                Ok(_) => old(parser)@.advance(node_header_len(old(parser)@.fbx_version->0)),
                Err(_) => old(parser)@,
            },
    {
        let fbx_version: u32 = match parser.fbx_version {
            Some(v) => v,
            None => 0,
        };
        let rest = parser.source.peek();
        if fbx_version < WIDE_HEADER_VERSION {
            if rest.len() < 13 {
                return Err(IoError::UnexpectedEof);
            }
            let end_offset: u64 = decode_u32(rest, 0) as u64;
            let num_attributes: u64 = decode_u32(rest, 4) as u64;
            let len_attributes: u64 = decode_u32(rest, 8) as u64;
            let len_name: u8 = rest[12];
            assert(rest@.skip(0) =~= rest@);
            parser.source.advance(13);
            Ok(NodeHeader { end_offset, num_attributes, len_attributes, len_name })
        } else {
            if rest.len() < 25 {
                return Err(IoError::UnexpectedEof);
            }
            let end_offset: u64 = decode_u64(rest, 0);
            let num_attributes: u64 = decode_u64(rest, 8);
            let len_attributes: u64 = decode_u64(rest, 16);
            let len_name: u8 = rest[24];
            assert(rest@.skip(0) =~= rest@);
            parser.source.advance(25);
            Ok(NodeHeader { end_offset, num_attributes, len_attributes, len_name })
        }
    }
}


/// FBX footer.
#[derive(Debug, Clone, Copy, PartialEq, Eq)]
pub struct FbxFooter {
    /// Unknown part 1.
    pub unknown1: [u8; 16],
    /// FBX version.
    pub version: u32,
    /// Unknown part 2.
    pub unknown2: [u8; 16],
}

/// Mathematical model of an [`FbxFooter`].
pub struct FooterModel {
    /// The 16 bytes of unknown part 1.
    pub unknown1: Seq<u8>,
    /// FBX version.
    pub version: u32,
    /// The 16 bytes of unknown part 2.
    pub unknown2: Seq<u8>,
}

impl View for FbxFooter {
    type V = FooterModel;

    open spec fn view(&self) -> FooterModel {
        FooterModel { unknown1: self.unknown1@, version: self.version, unknown2: self.unknown2@ }
    }
}

/// Byte length of each of the two unknown parts of the footer.
pub const UNKNOWN_LEN: usize = 16;

/// Byte length of the window read after unknown part 1. It holds the padding,
/// four zero bytes, the version, 120 zero bytes and as much of unknown part 2
/// as the padding leaves room for.
pub const FOOTER_WINDOW_LEN: usize = 144;

/// Number of zero bytes that bring `position` up to the next multiple of 16.
pub open spec fn padding_len(position: nat) -> nat {
    ((16 - position % 16) % 16) as nat
}

/// Number of non-zero bytes at the end of `buf`, counting no further than
/// `limit`.
pub open spec fn trailing_nonzero(buf: Seq<u8>, limit: nat) -> nat
    decreases limit,
{
    if limit == 0 || buf.len() == 0 || buf.last() == 0 {
        0
    } else {
        1 + trailing_nonzero(buf.drop_last(), (limit - 1) as nat)
    }
}

/// A footer that was read successfully.
pub struct FooterOutcome {
    /// The footer.
    pub footer: FooterModel,
    /// The warning its padding calls for.
    pub warning: Option<Warning>,
    /// Number of bytes the footer occupies.
    pub consumed: nat,
}

/// What reading a footer yields when `rest` is what is left of the document,
/// `position` is the offset at which `rest` starts and `header_version` is the
/// version the header gave.
pub open spec fn parse_footer(rest: Seq<u8>, position: nat, header_version: u32) -> Result<
    FooterOutcome,
    Error,
> {
    let expected = padding_len(position + 16);
    let window = rest.subrange(16, 160);
    let partial = trailing_nonzero(window, 17);
    let version = le_u32(window.skip(20 - partial));
    if rest.len() < 160 {
        Err(Error::Io(IoError::UnexpectedEof))
    } else if partial > 16 {
        Err(Error::BrokenFooter)
    } else if rest.len() < 176 - partial {
        Err(Error::Io(IoError::UnexpectedEof))
    } else if 16 - partial != expected && partial != 16 {
        Err(Error::BrokenFooter)
    } else if version != header_version {
        Err(Error::HeaderFooterVersionMismatch { header: header_version, footer: version })
    } else {
        Ok(
            FooterOutcome {
                footer: FooterModel {
                    unknown1: rest.take(16),
                    version,
                    unknown2: rest.subrange(160 - partial, 176 - partial),
                },
                warning: if 16 - partial != expected {
                    Some(Warning::MissingFooterPadding { expected: expected as u8 })
                } else {
                    None
                },
                consumed: (176 - partial) as nat,
            },
        )
    }
}

/// Computes the number of padding bytes expected before the footer proper
/// when the cursor stands at `position`.
pub fn expected_padding_len(position: u64) -> (len: usize)
    ensures
        len == padding_len(position as nat),
{
    let low: u64 = position & 0xf;
    assert(low == position % 16) by (bit_vector)
        requires
            low == position & 0xf,
    ;
    let gap: u64 = 16 - low;
    let len: u64 = gap & 0xf;
    assert(len == gap % 16) by (bit_vector)
        requires
            len == gap & 0xf,
    ;
    len as usize
}

/// Counts the non-zero bytes at the end of the footer window, giving up at 17.
fn count_trailing_nonzero(window: &[u8]) -> (count: usize)
    requires
        window@.len() == FOOTER_WINDOW_LEN,
    ensures
        count == trailing_nonzero(window@, 17),
{
    let mut count: usize = 0;
    assert(window@.take(FOOTER_WINDOW_LEN as int) =~= window@);
    while count <= 16 && window[FOOTER_WINDOW_LEN - 1 - count] != 0
        invariant
            count <= 17,
            window@.len() == FOOTER_WINDOW_LEN,
            trailing_nonzero(window@, 17) == count + trailing_nonzero(
                window@.take(FOOTER_WINDOW_LEN - count),
                (17 - count) as nat,
            ),
        decreases 17 - count,
    {
        assert(window@.take(FOOTER_WINDOW_LEN - count).drop_last() =~= window@.take(
            FOOTER_WINDOW_LEN - count - 1,
        ));
        count = count + 1;
    }
    count
}

/// Copies the 16 bytes at `bytes[at..at + 16]`.
fn copy16(bytes: &[u8], at: usize) -> (out: [u8; 16])
    requires
        at + 16 <= bytes.len(),
    ensures
        out@ == bytes@.subrange(at as int, at + 16),
{
    let mut out = [0u8; 16];
    let mut i: usize = 0;
    while i < 16
        invariant
            i <= 16,
            at + 16 <= bytes.len(),
            forall|j: int| 0 <= j < i ==> out@[j] == bytes@[at + j],
        decreases 16 - i,
    {
        out[i] = bytes[at + i];
        i = i + 1;
    }
    assert(out@ =~= bytes@.subrange(at as int, at + 16));
    out
}

impl ParserModel {
    /// The parse after a footer has been read successfully.
    pub open spec fn after_footer(self, outcome: FooterOutcome) -> ParserModel {
        self.advance(outcome.consumed).warned(outcome.warning)
    }
}

impl FbxFooter {
    /// Reads the footer from the given parser and returns it.
    ///
    /// The footer is unknown part 1, the zero padding that aligns what follows
    /// to 16 bytes, four zero bytes, the version, 120 zero bytes and unknown
    /// part 2. Documents that lack the padding are accepted with a warning. On
    /// failure the parser is left as it was.
    pub fn read_from_parser(parser: &mut BinaryParser) -> (r: Result<FbxFooter, Error>)
        requires
            old(parser)@.in_bounds(),
            old(parser)@.fbx_version is Some,
        ensures
            match parse_footer(
                old(parser)@.rest(),
                old(parser)@.position,
                old(parser)@.fbx_version->0,
            ) {
                Ok(outcome) => r matches Ok(footer) && footer@ == outcome.footer && final(parser)@
                    == old(parser)@.after_footer(outcome),
                Err(e) => r == Err::<FbxFooter, Error>(e) && final(parser)@ == old(parser)@,
            },
    {
        let header_fbx_version: u32 = match parser.fbx_version {
            Some(v) => v,
            None => 0,
        };
        let position: u64 = parser.source.count();
        let rest = parser.source.peek();
        if rest.len() < UNKNOWN_LEN + FOOTER_WINDOW_LEN {
            return Err(Error::Io(IoError::UnexpectedEof));
        }
        let expected_padding_len: usize = expected_padding_len(position + 16);
        let window = vstd::slice::slice_subrange(
            rest,
            UNKNOWN_LEN,
            UNKNOWN_LEN + FOOTER_WINDOW_LEN,
        );
        let partial_footer2_len: usize = count_trailing_nonzero(window);
        if partial_footer2_len > 16 {
            return Err(Error::BrokenFooter);
        }
        let consumed: usize = UNKNOWN_LEN + FOOTER_WINDOW_LEN + (16 - partial_footer2_len);
        if rest.len() < consumed {
            return Err(Error::Io(IoError::UnexpectedEof));
        }
        let padded: bool = 16 - partial_footer2_len == expected_padding_len;
        if !padded && partial_footer2_len != 16 {
            return Err(Error::BrokenFooter);
        }
        let footer_fbx_version: u32 = decode_u32(window, 20 - partial_footer2_len);
        if header_fbx_version != footer_fbx_version {
            return Err(
                Error::HeaderFooterVersionMismatch {
                    header: header_fbx_version,
                    footer: footer_fbx_version,
                },
            );
        }
        let unknown1 = copy16(rest, 0);
        let unknown2 = copy16(rest, consumed - 16);
        assert(rest@.subrange(0, 16) =~= rest@.take(16));
        parser.source.advance(consumed);
        if !padded {
            parser.warn(Warning::MissingFooterPadding { expected: expected_padding_len as u8 });
        }
        Ok(FbxFooter { unknown1, version: footer_fbx_version, unknown2 })
    }
}


/// FBX node info.
#[derive(Debug)]
pub struct StartNode<'a> {
    /// Node name.
    ///
    /// The format does not say how names are encoded, so the bytes are handed
    /// out as they are.
    pub name: Vec<u8>,
    /// Parser.
    pub parser: &'a mut BinaryParser,
}

/// Parser event.
#[derive(Debug)]
pub enum Event<'a> {
    /// Start of the FBX document.
    StartFbx(FbxHeader),
    /// End of the FBX document.
    EndFbx(FbxFooter),
    /// Start of a node.
    StartNode(StartNode<'a>),
    /// End of a node.
    EndNode,
}

/// `StartNode` without reference to a parser.
#[derive(Debug, Clone)]
pub struct StartNodeBuilder {
    /// Node name.
    pub name: Vec<u8>,
}

/// Parser event without reference to a parser.
#[derive(Debug, Clone)]
pub enum EventBuilder {
    /// Start of the FBX document.
    StartFbx(FbxHeader),
    /// End of the FBX document.
    EndFbx(FbxFooter),
    /// Start of a node.
    StartNode(StartNodeBuilder),
    /// End of a node.
    EndNode,
}

/// Mathematical model of an [`Event`] and of an [`EventBuilder`].
pub enum EventModel {
    /// Start of the FBX document.
    StartFbx(FbxHeader),
    /// End of the FBX document.
    EndFbx(FooterModel),
    /// Start of a node with the given name.
    StartNode(Seq<u8>),
    /// End of a node.
    EndNode,
}

impl<'a> View for Event<'a> {
    type V = EventModel;

    open spec fn view(&self) -> EventModel {
        match self {
            Event::StartFbx(header) => EventModel::StartFbx(*header),
            Event::EndFbx(footer) => EventModel::EndFbx(footer@),
            Event::StartNode(node) => EventModel::StartNode(node.name@),
            Event::EndNode => EventModel::EndNode,
        }
    }
}

impl View for EventBuilder {
    type V = EventModel;

    open spec fn view(&self) -> EventModel {
        match self {
            EventBuilder::StartFbx(header) => EventModel::StartFbx(*header),
            EventBuilder::EndFbx(footer) => EventModel::EndFbx(footer@),
            EventBuilder::StartNode(builder) => EventModel::StartNode(builder.name@),
            EventBuilder::EndNode => EventModel::EndNode,
        }
    }
}

impl StartNodeBuilder {
    /// Creates `StartNode` from the `StartNodeBuilder` and the given parser.
    pub fn build<'a>(self, parser: &'a mut BinaryParser) -> (node: StartNode<'a>)
        ensures
            node.name == self.name,
            *node.parser == *old(parser),
            *final(parser) == *final(node.parser),
    {
        StartNode { name: self.name, parser }
    }
}

impl EventBuilder {
    /// Creates `Event` from the `EventBuilder` and the given parser.
    pub fn build<'a>(self, parser: &'a mut BinaryParser) -> (event: Event<'a>)
        ensures
            event@ == self@,
            match event {
                Event::StartNode(node) => *node.parser == *old(parser)
                    && *final(parser) == *final(node.parser),
                _ => *final(parser) == *old(parser),
            },
    {
        match self {
            EventBuilder::StartFbx(header) => Event::StartFbx(header),
            EventBuilder::EndFbx(footer) => Event::EndFbx(footer),
            EventBuilder::StartNode(builder) => Event::StartNode(builder.build(parser)),
            EventBuilder::EndNode => Event::EndNode,
        }
    }
}


/// The four bytes that encode `value` in little-endian order.
pub open spec fn u32_le_bytes(value: u32) -> Seq<u8> {
    seq![
        (value % 0x100) as u8,
        ((value / 0x100) % 0x100) as u8,
        ((value / 0x1_0000) % 0x100) as u8,
        (value / 0x100_0000) as u8,
    ]
}

/// `n` zero bytes.
pub open spec fn zeros(n: nat) -> Seq<u8> {
    Seq::new(n, |i: int| 0u8)
}

/// The bytes of a footer with `padding` bytes of padding.
pub open spec fn footer_bytes(
    unknown1: Seq<u8>,
    padding: nat,
    version: u32,
    unknown2: Seq<u8>,
) -> Seq<u8> {
    unknown1 + zeros(padding) + zeros(4) + u32_le_bytes(version) + zeros(120) + unknown2
}

/// Decoding the little-endian encoding of a `u32` gives the value back,
/// whatever follows the four bytes.
pub proof fn lemma_le_u32_of_bytes(value: u32, tail: Seq<u8>)
    ensures
        le_u32(u32_le_bytes(value) + tail) == value,
{
}

/// The padding brings the position up to the next multiple of 16 and is
/// shorter than 16 bytes.
pub proof fn lemma_padding_aligns(position: nat)
    ensures
        padding_len(position) < 16,
        (position + padding_len(position)) % 16 == 0,
        position % 16 == 0 ==> padding_len(position) == 0,
{
}

/// The count of trailing non-zero bytes is `k` exactly when the last `k`
/// bytes are non-zero and the count stops there: at the limit, at the start
/// of the buffer or at a zero byte.
pub proof fn lemma_trailing_nonzero(buf: Seq<u8>, limit: nat, k: nat)
    requires
        k <= limit,
        k <= buf.len(),
        forall|i: int| buf.len() - k <= i < buf.len() ==> buf[i] != 0,
        k == limit || k == buf.len() || buf[buf.len() - k - 1] == 0,
    ensures
        trailing_nonzero(buf, limit) == k,
    decreases k,
{
    if k > 0 {
        lemma_trailing_nonzero(buf.drop_last(), (limit - 1) as nat, (k - 1) as nat);
    }
}

/// A footer written with the padding its position calls for, or with no
/// padding at all, is read back as it was written, whatever follows it. The
/// padding is found again from the bytes alone; a footer without the padding
/// it should have is read with a warning.
pub proof fn lemma_footer_round_trip(
    unknown1: Seq<u8>,
    padding: nat,
    version: u32,
    unknown2: Seq<u8>,
    position: nat,
    tail: Seq<u8>,
)
    requires
        unknown1.len() == 16,
        unknown2.len() == 16,
        forall|i: int| 0 <= i < 16 ==> unknown2[i] != 0,
        padding == padding_len(position + 16) || padding == 0,
    ensures
        parse_footer(footer_bytes(unknown1, padding, version, unknown2) + tail, position, version)
            == Ok::<FooterOutcome, Error>(
            FooterOutcome {
                footer: FooterModel { unknown1, version, unknown2 },
                warning: if padding == padding_len(position + 16) {
                    None
                } else {
                    Some(
                        Warning::MissingFooterPadding {
                            expected: padding_len(position + 16) as u8,
                        },
                    )
                },
                consumed: 160 + padding,
            },
        ),
{
    let expected = padding_len(position + 16);
    let rest = footer_bytes(unknown1, padding, version, unknown2) + tail;
    let window = rest.subrange(16, 160);
    let partial = (16 - padding) as nat;
    assert(u32_le_bytes(version).len() == 4);
    assert(footer_bytes(unknown1, padding, version, unknown2).len() == 160 + padding);
    assert forall|i: int| 0 <= i < 144 implies window[i] == if i < padding + 4 {
        0u8
    } else if i < padding + 8 {
        u32_le_bytes(version)[i - padding - 4]
    } else if i < padding + 128 {
        0u8
    } else {
        unknown2[i - padding - 128]
    } by {}
    lemma_trailing_nonzero(window, 17, partial);
    assert(window.skip(20 - partial) =~= u32_le_bytes(version) + window.skip(24 - partial));
    lemma_le_u32_of_bytes(version, window.skip(24 - partial));
    assert(rest.take(16) =~= unknown1);
    assert(rest.subrange(160 - partial, 176 - partial) =~= unknown2);
}


impl From<FbxHeader> for EventBuilder {
    fn from(h: FbxHeader) -> (event: EventBuilder) {
        EventBuilder::StartFbx(h)
    }
}

impl vstd::std_specs::convert::FromSpecImpl<FbxHeader> for EventBuilder {
    open spec fn obeys_from_spec() -> bool {
        true
    }

    open spec fn from_spec(h: FbxHeader) -> EventBuilder {
        EventBuilder::StartFbx(h)
    }
}

impl From<FbxFooter> for EventBuilder {
    fn from(f: FbxFooter) -> (event: EventBuilder) {
        EventBuilder::EndFbx(f)
    }
}

impl vstd::std_specs::convert::FromSpecImpl<FbxFooter> for EventBuilder {
    open spec fn obeys_from_spec() -> bool {
        true
    }

    open spec fn from_spec(f: FbxFooter) -> EventBuilder {
        EventBuilder::EndFbx(f)
    }
}

impl From<StartNodeBuilder> for EventBuilder {
    fn from(h: StartNodeBuilder) -> (event: EventBuilder) {
        EventBuilder::StartNode(h)
    }
}

impl vstd::std_specs::convert::FromSpecImpl<StartNodeBuilder> for EventBuilder {
    open spec fn obeys_from_spec() -> bool {
        true
    }

    open spec fn from_spec(h: StartNodeBuilder) -> EventBuilder {
        EventBuilder::StartNode(h)
    }
}

impl<'a> From<FbxHeader> for Event<'a> {
    fn from(h: FbxHeader) -> (event: Event<'a>) {
        Event::StartFbx(h)
    }
}

impl<'a> vstd::std_specs::convert::FromSpecImpl<FbxHeader> for Event<'a> {
    open spec fn obeys_from_spec() -> bool {
        true
    }

    open spec fn from_spec(h: FbxHeader) -> Event<'a> {
        Event::StartFbx(h)
    }
}

impl<'a> From<FbxFooter> for Event<'a> {
    fn from(f: FbxFooter) -> (event: Event<'a>) {
        Event::EndFbx(f)
    }
}

impl<'a> vstd::std_specs::convert::FromSpecImpl<FbxFooter> for Event<'a> {
    open spec fn obeys_from_spec() -> bool {
        true
    }

    open spec fn from_spec(f: FbxFooter) -> Event<'a> {
        Event::EndFbx(f)
    }
}

impl<'a> From<StartNode<'a>> for Event<'a> {
    fn from(h: StartNode<'a>) -> (event: Event<'a>) {
        Event::StartNode(h)
    }
}

impl<'a> vstd::std_specs::convert::FromSpecImpl<StartNode<'a>> for Event<'a> {
    open spec fn obeys_from_spec() -> bool {
        true
    }

    open spec fn from_spec(h: StartNode<'a>) -> Event<'a> {
        Event::StartNode(h)
    }
}

} // verus!
