//! Tests of the event engine on documents assembled byte by byte.

use fbx_events::parser::binary::error::{Error, IoError, Warning};
use fbx_events::parser::binary::event::attribute::array::{ArrayKind, ArrayValue};
use fbx_events::parser::binary::event::attribute::special::{
    read_special_attribute, SpecialAttributeType,
};
use fbx_events::parser::binary::event::attribute::{Attribute, PrimitiveAttribute};
use fbx_events::parser::binary::event::{
    expected_padding_len, read_fbx_header, Event, EventBuilder, FbxFooter, FbxHeader, NodeHeader,
};
use fbx_events::parser::binary::primitive::{
    decode_u16, decode_u32, decode_u64, to_i16, to_i32, to_i64,
};
use fbx_events::parser::binary::reader::CountReader;
use fbx_events::parser::binary::state::{BinaryParser, ParserState};

const MAGIC: &[u8; 21] = b"Kaydara FBX Binary  \x00";
const UNKNOWN1: [u8; 16] = [
    0xfa, 0xbc, 0xab, 0x09, 0xd0, 0xc8, 0xd4, 0x66, 0xb1, 0x76, 0xfb, 0x83, 0x1c, 0xf7, 0x26, 0x7e,
];
const UNKNOWN2: [u8; 16] = [
    0xf8, 0x5a, 0x8c, 0x6a, 0xde, 0xf5, 0xd9, 0x7e, 0xec, 0xe9, 0x0c, 0xe3, 0x75, 0x8f, 0x29, 0x0b,
];

/// Writer of documents for the tests.
struct Doc {
    bytes: Vec<u8>,
    version: u32,
    open: Vec<usize>,
}

impl Doc {
    fn new(version: u32) -> Doc {
        Doc::with_marker(version, [0x1a, 0x00])
    }

    fn with_marker(version: u32, marker: [u8; 2]) -> Doc {
        let mut bytes = MAGIC.to_vec();
        bytes.extend_from_slice(&marker);
        bytes.extend_from_slice(&version.to_le_bytes());
        Doc { bytes, version, open: Vec::new() }
    }

    fn wide(&self) -> bool {
        self.version >= 7500
    }

    fn put_offset(&mut self, value: u64) {
        if self.wide() {
            self.bytes.extend_from_slice(&value.to_le_bytes());
        } else {
            self.bytes.extend_from_slice(&(value as u32).to_le_bytes());
        }
    }

    /// Starts a node; `attrs` holds the encoded attributes, one per entry.
    fn start(&mut self, name: &str, attrs: &[Vec<u8>]) {
        self.open.push(self.bytes.len());
        let len: usize = attrs.iter().map(|a| a.len()).sum();
        self.put_offset(0);
        self.put_offset(attrs.len() as u64);
        self.put_offset(len as u64);
        self.bytes.push(name.len() as u8);
        self.bytes.extend_from_slice(name.as_bytes());
        for a in attrs {
            self.bytes.extend_from_slice(a);
        }
    }

    fn sentinel(&mut self) {
        let n = if self.wide() { 25 } else { 13 };
        self.bytes.extend(std::iter::repeat(0u8).take(n));
    }

    /// Ends the innermost node: writes the sentinel and records the end offset.
    fn end(&mut self) {
        self.sentinel();
        let at = self.open.pop().unwrap();
        let end = self.bytes.len() as u64;
        if self.wide() {
            self.bytes[at..at + 8].copy_from_slice(&end.to_le_bytes());
        } else {
            self.bytes[at..at + 4].copy_from_slice(&(end as u32).to_le_bytes());
        }
    }

    fn leaf(&mut self, name: &str, attrs: &[Vec<u8>]) {
        self.start(name, attrs);
        self.end();
    }

    fn footer_with(&mut self, padding: usize, version: u32) {
        self.bytes.extend_from_slice(&UNKNOWN1);
        self.bytes.extend(std::iter::repeat(0u8).take(padding));
        self.bytes.extend_from_slice(&[0; 4]);
        self.bytes.extend_from_slice(&version.to_le_bytes());
        self.bytes.extend_from_slice(&[0; 120]);
        self.bytes.extend_from_slice(&UNKNOWN2);
    }

    /// Ends the top-level nodes and writes a footer with the padding the
    /// position calls for.
    fn finish(mut self) -> Vec<u8> {
        self.sentinel();
        let padding = (16 - (self.bytes.len() + 16) % 16) % 16;
        let version = self.version;
        self.footer_with(padding, version);
        self.bytes
    }
}

fn attr_i16(v: i16) -> Vec<u8> {
    let mut a = vec![b'Y'];
    a.extend_from_slice(&v.to_le_bytes());
    a
}

fn attr_bool(raw: u8) -> Vec<u8> {
    vec![b'C', raw]
}

fn attr_i32(v: i32) -> Vec<u8> {
    let mut a = vec![b'I'];
    a.extend_from_slice(&v.to_le_bytes());
    a
}

fn attr_i64(v: i64) -> Vec<u8> {
    let mut a = vec![b'L'];
    a.extend_from_slice(&v.to_le_bytes());
    a
}

fn attr_f32(v: f32) -> Vec<u8> {
    let mut a = vec![b'F'];
    a.extend_from_slice(&v.to_le_bytes());
    a
}

fn attr_f64(v: f64) -> Vec<u8> {
    let mut a = vec![b'D'];
    a.extend_from_slice(&v.to_le_bytes());
    a
}

fn attr_string(v: &str) -> Vec<u8> {
    let mut a = vec![b'S'];
    a.extend_from_slice(&(v.len() as u32).to_le_bytes());
    a.extend_from_slice(v.as_bytes());
    a
}

fn attr_binary(v: &[u8]) -> Vec<u8> {
    let mut a = vec![b'R'];
    a.extend_from_slice(&(v.len() as u32).to_le_bytes());
    a.extend_from_slice(v);
    a
}

fn attr_array(tag: u8, count: u32, encoding: u32, payload: &[u8]) -> Vec<u8> {
    let mut a = vec![tag];
    a.extend_from_slice(&count.to_le_bytes());
    a.extend_from_slice(&encoding.to_le_bytes());
    a.extend_from_slice(&(payload.len() as u32).to_le_bytes());
    a.extend_from_slice(payload);
    a
}

/// A document with nested nodes and attributes of several types.
fn sample(version: u32) -> Vec<u8> {
    let mut doc = Doc::new(version);
    doc.start("Objects", &[attr_i32(-7), attr_string("scene")]);
    doc.leaf("Leaf", &[attr_i64(1 << 40), attr_f64(1.5)]);
    doc.start("Inner", &[]);
    doc.leaf("Deep", &[attr_bool(b'Y'), attr_i16(-2)]);
    doc.end();
    doc.end();
    doc.leaf("Tail", &[attr_binary(&[1, 2, 3])]);
    doc.finish()
}

/// All events of a document, as the names of the events, with the warnings.
fn trace(data: Vec<u8>) -> (Vec<String>, Result<(), Error>, Vec<Warning>) {
    let mut parser = BinaryParser::new(data);
    let mut events = Vec::new();
    let outcome = loop {
        match parser.next_event_builder() {
            Ok(EventBuilder::StartFbx(h)) => events.push(format!("StartFbx({})", h.version)),
            Ok(EventBuilder::EndFbx(f)) => {
                events.push(format!("EndFbx({})", f.version));
                break Ok(());
            },
            Ok(EventBuilder::StartNode(n)) => {
                events.push(format!("StartNode({})", String::from_utf8(n.name).unwrap()))
            },
            Ok(EventBuilder::EndNode) => events.push("EndNode".to_string()),
            Err(e) => break Err(e),
        }
    };
    (events, outcome, parser.warnings().clone())
}

#[test]
fn padding_length_for_every_residue() {
    let expected = [0usize, 15, 14, 13, 12, 11, 10, 9, 8, 7, 6, 5, 4, 3, 2, 1];
    for position in 0u64..16 {
        assert_eq!(expected_padding_len(position), expected[position as usize]);
        assert_eq!(expected_padding_len(position + 4096), expected[position as usize]);
        assert_eq!((position as usize + expected_padding_len(position)) % 16, 0);
    }
    assert_eq!(expected_padding_len(56), 8);
    assert_eq!(expected_padding_len(u64::MAX), 1);
}

#[test]
fn footer_padding_is_found_at_every_position() {
    // A binary value of `extra` bytes moves the footer through all residues.
    for extra in 0usize..16 {
        let mut doc = Doc::new(7400);
        doc.leaf("N", &[attr_binary(&vec![7u8; extra])]);
        let data = doc.finish();
        let total = data.len();
        let (events, outcome, warnings) = trace(data);
        assert_eq!(outcome, Ok(()));
        assert_eq!(events, vec!["StartFbx(7400)", "StartNode(N)", "EndNode", "EndFbx(7400)"]);
        assert!(warnings.is_empty());
        // The footer proper starts on a multiple of 16.
        assert_eq!((total - 144) % 16, 0);
    }
}

#[test]
fn primitive_decoders_are_little_endian() {
    let bytes = [0x01, 0x02, 0x03, 0x04, 0x05, 0x06, 0x07, 0x08, 0xff];
    assert_eq!(decode_u16(&bytes, 0), 0x0201);
    assert_eq!(decode_u16(&bytes, 7), 0xff08);
    assert_eq!(decode_u32(&bytes, 0), 0x0403_0201);
    assert_eq!(decode_u32(&bytes, 5), 0xff08_0706);
    assert_eq!(decode_u64(&bytes, 0), 0x0807_0605_0403_0201);
    assert_eq!(decode_u64(&bytes, 1), 0xff08_0706_0504_0302);
}

#[test]
fn signed_readings_are_twos_complement() {
    assert_eq!(to_i16(0), 0);
    assert_eq!(to_i16(0x7fff), i16::MAX);
    assert_eq!(to_i16(0x8000), i16::MIN);
    assert_eq!(to_i16(0xffff), -1);
    assert_eq!(to_i32(0x7fff_ffff), i32::MAX);
    assert_eq!(to_i32(0x8000_0000), i32::MIN);
    assert_eq!(to_i32(0xffff_fff9), -7);
    assert_eq!(to_i64(0x7fff_ffff_ffff_ffff), i64::MAX);
    assert_eq!(to_i64(0x8000_0000_0000_0000), i64::MIN);
    assert_eq!(to_i64(u64::MAX), -1);
}

#[test]
fn count_reader_tracks_position() {
    let mut reader = CountReader::new(vec![1, 2, 3, 4, 5, 6, 7, 8, 9, 10, 11, 12, 13, 14, 15]);
    assert_eq!(reader.count(), 0);
    assert_eq!(reader.read_u8(), Ok(1));
    assert_eq!(reader.count(), 1);
    assert_eq!(reader.read_u16(), Ok(0x0302));
    assert_eq!(reader.count(), 3);
    assert_eq!(reader.read_u32(), Ok(0x0706_0504));
    assert_eq!(reader.count(), 7);
    assert_eq!(reader.read_exact(2), Ok(vec![8, 9]));
    assert_eq!(reader.count(), 9);
    assert_eq!(reader.remaining(), 6);
    // Too few bytes are left: the read fails and the cursor stays.
    assert_eq!(reader.read_u64(), Err(IoError::UnexpectedEof));
    assert_eq!(reader.count(), 9);
    assert_eq!(reader.read_exact(7), Err(IoError::UnexpectedEof));
    assert_eq!(reader.skip(7), Err(IoError::UnexpectedEof));
    assert_eq!(reader.skip_to(16), Err(IoError::UnexpectedEof));
    assert_eq!(reader.count(), 9);
    assert_eq!(reader.skip(2), Ok(()));
    assert_eq!(reader.skip_to(15), Ok(()));
    assert_eq!(reader.count(), 15);
    assert_eq!(reader.read_u8(), Err(IoError::UnexpectedEof));
    assert_eq!(reader.peek(), &[] as &[u8]);
}

#[test]
fn count_reader_reads_u64() {
    let mut reader = CountReader::new(vec![0xef, 0xcd, 0xab, 0x89, 0x67, 0x45, 0x23, 0x01, 0x99]);
    assert_eq!(reader.peek(), &[0xef, 0xcd, 0xab, 0x89, 0x67, 0x45, 0x23, 0x01, 0x99]);
    assert_eq!(reader.read_u64(), Ok(0x0123_4567_89ab_cdef));
    assert_eq!(reader.count(), 8);
    reader.advance(1);
    assert_eq!(reader.count(), 9);
}

#[test]
fn header_is_read_and_version_recorded() {
    let mut parser = BinaryParser::new(Doc::new(7400).finish());
    assert_eq!(parser.state(), ParserState::BeforeHeader);
    assert_eq!(parser.fbx_version(), None);
    assert_eq!(read_fbx_header(&mut parser), Ok(FbxHeader { version: 7400 }));
    assert_eq!(parser.fbx_version(), Some(7400));
    assert_eq!(parser.position(), 27);
    assert_eq!(parser.state(), ParserState::InDocument);
    assert!(parser.warnings().is_empty());
}

#[test]
fn header_with_wrong_magic_is_rejected() {
    let mut data = Doc::new(7400).finish();
    data[5] = b'x';
    let mut parser = BinaryParser::new(data);
    assert_eq!(read_fbx_header(&mut parser), Err(Error::MagicMismatch));
    assert_eq!(parser.position(), 0);
    assert_eq!(parser.fbx_version(), None);
    // A wrong magic is reported even when the document ends right behind it.
    let mut short = MAGIC.to_vec();
    short[20] = 1;
    assert_eq!(trace(short).1, Err(Error::MagicMismatch));
}

#[test]
fn truncated_header_is_an_io_error() {
    for len in [0usize, 1, 20, 21, 22, 26] {
        let data = Doc::new(7400).finish()[..len].to_vec();
        let mut parser = BinaryParser::new(data);
        assert_eq!(read_fbx_header(&mut parser), Err(Error::Io(IoError::UnexpectedEof)));
        assert_eq!(parser.position(), 0);
    }
}

#[test]
fn node_header_width_depends_on_version() {
    // Before 7500: three 32-bit fields and the name length.
    let mut narrow = Doc::new(7499);
    narrow.bytes.extend_from_slice(&[0x10, 0x20, 0x30, 0x40, 2, 0, 0, 0, 9, 0, 0, 0, 5]);
    let mut parser = BinaryParser::new(narrow.bytes);
    read_fbx_header(&mut parser).unwrap();
    let header = NodeHeader::read_from_parser(&mut parser).unwrap();
    assert_eq!(
        header,
        NodeHeader { end_offset: 0x4030_2010, num_attributes: 2, len_attributes: 9, len_name: 5 }
    );
    assert!(!header.is_node_end());
    assert_eq!(parser.position(), 27 + 13);

    // From 7500 on: three 64-bit fields and the name length.
    let mut wide = Doc::new(7500);
    wide.bytes.extend_from_slice(&0x0102_0304_0506_0708u64.to_le_bytes());
    wide.bytes.extend_from_slice(&3u64.to_le_bytes());
    wide.bytes.extend_from_slice(&(1u64 << 33).to_le_bytes());
    wide.bytes.push(0xff);
    let mut parser = BinaryParser::new(wide.bytes);
    read_fbx_header(&mut parser).unwrap();
    let header = NodeHeader::read_from_parser(&mut parser).unwrap();
    assert_eq!(
        header,
        NodeHeader {
            end_offset: 0x0102_0304_0506_0708,
            num_attributes: 3,
            len_attributes: 1 << 33,
            len_name: 0xff,
        }
    );
    assert_eq!(parser.position(), 27 + 25);
}

#[test]
fn node_header_cut_short_is_an_io_error() {
    let mut doc = Doc::new(7400);
    doc.bytes.extend_from_slice(&[0; 12]);
    let mut parser = BinaryParser::new(doc.bytes);
    read_fbx_header(&mut parser).unwrap();
    assert_eq!(NodeHeader::read_from_parser(&mut parser), Err(IoError::UnexpectedEof));
    assert_eq!(parser.position(), 27);
}

#[test]
fn node_end_is_all_zero() {
    let zero = NodeHeader { end_offset: 0, num_attributes: 0, len_attributes: 0, len_name: 0 };
    assert!(zero.is_node_end());
    assert!(!NodeHeader { end_offset: 1, ..zero }.is_node_end());
    assert!(!NodeHeader { num_attributes: 1, ..zero }.is_node_end());
    assert!(!NodeHeader { len_attributes: 1, ..zero }.is_node_end());
    assert!(!NodeHeader { len_name: 1, ..zero }.is_node_end());
}

#[test]
fn empty_document_yields_start_and_end() {
    for version in [7400u32, 7500] {
        let (events, outcome, warnings) = trace(Doc::new(version).finish());
        assert_eq!(outcome, Ok(()));
        assert_eq!(events, vec![format!("StartFbx({version})"), format!("EndFbx({version})")]);
        assert!(warnings.is_empty());
    }
}

#[test]
fn empty_document_still_checks_the_footer() {
    let mut doc = Doc::new(7400);
    doc.sentinel();
    doc.footer_with(8, 7300);
    let (events, outcome, _) = trace(doc.bytes);
    assert_eq!(events, vec!["StartFbx(7400)"]);
    assert_eq!(outcome, Err(Error::HeaderFooterVersionMismatch { header: 7400, footer: 7300 }));
}

#[test]
fn well_formed_document_without_warnings() {
    // Header, the 13-byte sentinel and a footer with its padding.
    let data = Doc::new(7400).finish();
    assert_eq!(data.len(), 27 + 13 + 16 + 8 + 144);
    let mut parser = BinaryParser::new(data);
    assert!(matches!(parser.next_event(), Ok(Event::StartFbx(FbxHeader { version: 7400 }))));
    match parser.next_event() {
        Ok(Event::EndFbx(footer)) => {
            assert_eq!(
                footer,
                FbxFooter { unknown1: UNKNOWN1, version: 7400, unknown2: UNKNOWN2 }
            );
        },
        other => panic!("unexpected {:?}", other),
    }
    assert_eq!(parser.state(), ParserState::AfterFooter);
    assert!(parser.warnings().is_empty());
    assert_eq!(parser.position(), 208);
    assert!(matches!(parser.next_event(), Err(Error::Finished)));
}

#[test]
fn footer_without_padding_is_read_with_a_warning() {
    // The whole of the second unknown part lies in the 144-byte window: the
    // scan finds 16 non-zero bytes although 8 bytes of padding were due.
    let mut doc = Doc::new(7400);
    doc.sentinel();
    doc.footer_with(0, 7400);
    let data = doc.bytes;
    assert_eq!(data.len(), 27 + 13 + 16 + 144);
    let mut parser = BinaryParser::new(data);
    assert!(matches!(parser.next_event(), Ok(Event::StartFbx(_))));
    match parser.next_event() {
        Ok(Event::EndFbx(footer)) => {
            assert_eq!(
                footer,
                FbxFooter { unknown1: UNKNOWN1, version: 7400, unknown2: UNKNOWN2 }
            );
        },
        other => panic!("unexpected {:?}", other),
    }
    assert_eq!(parser.warnings(), &vec![Warning::MissingFooterPadding { expected: 8 }]);
    assert_eq!(parser.position(), 200);
}

#[test]
fn unexpected_marker_bytes_give_one_warning() {
    let data = Doc::with_marker(7400, [0x00, 0x00]).finish();
    let (events, outcome, warnings) = trace(data);
    assert_eq!(outcome, Ok(()));
    assert_eq!(events, vec!["StartFbx(7400)", "EndFbx(7400)"]);
    assert_eq!(warnings, vec![Warning::UnexpectedMarkerBytes(0x00, 0x00)]);
}

#[test]
fn seventeen_trailing_non_zero_bytes_break_the_footer() {
    let mut data = Doc::new(7400).finish();
    // The window ends 8 bytes before the end of the document.
    let window_end = data.len() - 8;
    for b in &mut data[window_end - 17..window_end] {
        *b = 0x55;
    }
    let (events, outcome, _) = trace(data);
    assert_eq!(events, vec!["StartFbx(7400)"]);
    assert_eq!(outcome, Err(Error::BrokenFooter));
}

#[test]
fn wrong_padding_length_breaks_the_footer() {
    // 8 bytes of padding are due; 3 are there.
    let mut doc = Doc::new(7400);
    doc.sentinel();
    doc.footer_with(3, 7400);
    assert_eq!(trace(doc.bytes).1, Err(Error::BrokenFooter));
}

#[test]
fn truncated_footer_is_an_io_error() {
    let data = Doc::new(7400).finish();
    for cut in [1usize, 8, 9, 100, 167] {
        let short = data[..data.len() - cut].to_vec();
        assert_eq!(trace(short).1, Err(Error::Io(IoError::UnexpectedEof)));
    }
}

#[test]
fn footer_reader_leaves_parser_in_place_on_failure() {
    let mut doc = Doc::new(7400);
    doc.footer_with(5, 7400);
    let mut parser = BinaryParser::new(doc.bytes);
    read_fbx_header(&mut parser).unwrap();
    // 27 + 16 = 43, so 5 bytes of padding are due and present.
    let footer = FbxFooter::read_from_parser(&mut parser).unwrap();
    assert_eq!(footer.version, 7400);
    assert_eq!(footer.unknown1, UNKNOWN1);
    assert_eq!(footer.unknown2, UNKNOWN2);
    assert_eq!(parser.position(), 27 + 16 + 5 + 144);

    let mut doc = Doc::new(7400);
    doc.footer_with(5, 7401);
    let mut parser = BinaryParser::new(doc.bytes);
    read_fbx_header(&mut parser).unwrap();
    assert_eq!(
        FbxFooter::read_from_parser(&mut parser),
        Err(Error::HeaderFooterVersionMismatch { header: 7400, footer: 7401 })
    );
    assert_eq!(parser.position(), 27);
}

#[test]
fn events_follow_the_tree_in_pre_order() {
    for version in [7400u32, 7500] {
        let (events, outcome, warnings) = trace(sample(version));
        assert_eq!(outcome, Ok(()));
        assert!(warnings.is_empty());
        assert_eq!(
            events,
            vec![
                format!("StartFbx({version})"),
                "StartNode(Objects)".to_string(),
                "StartNode(Leaf)".to_string(),
                "EndNode".to_string(),
                "StartNode(Inner)".to_string(),
                "StartNode(Deep)".to_string(),
                "EndNode".to_string(),
                "EndNode".to_string(),
                "EndNode".to_string(),
                "StartNode(Tail)".to_string(),
                "EndNode".to_string(),
                format!("EndFbx({version})"),
            ]
        );
    }
}

#[test]
fn start_and_end_events_pair_up() {
    let mut parser = BinaryParser::new(sample(7400));
    let mut starts = 0;
    let mut ends = 0;
    let mut deepest = 0;
    loop {
        match parser.next_event_builder().unwrap() {
            EventBuilder::StartNode(_) => starts += 1,
            EventBuilder::EndNode => ends += 1,
            EventBuilder::EndFbx(_) => break,
            EventBuilder::StartFbx(_) => {},
        }
        assert_eq!(parser.depth(), starts - ends);
        deepest = deepest.max(parser.depth());
    }
    assert_eq!(starts, 5);
    assert_eq!(ends, 5);
    assert_eq!(deepest, 3);
    assert_eq!(parser.depth(), 0);
}

#[test]
fn parsing_twice_gives_the_same_events() {
    let data = sample(7500);
    assert_eq!(trace(data.clone()), trace(data));
}

#[test]
fn attributes_are_decoded_by_type_code() {
    let mut doc = Doc::new(7400);
    doc.leaf(
        "All",
        &[
            attr_i16(-300),
            attr_bool(b'T'),
            attr_bool(b'Y'),
            attr_i32(i32::MIN),
            attr_f32(2.5),
            attr_f64(-0.125),
            attr_i64(i64::MAX),
        ],
    );
    let mut parser = BinaryParser::new(doc.finish());
    parser.next_event().unwrap();
    assert!(matches!(parser.next_event(), Ok(Event::StartNode(_))));
    let mut got = Vec::new();
    while let Some(attribute) = parser.read_attribute().unwrap() {
        match attribute {
            Attribute::Primitive(p) => got.push(p),
            other => panic!("unexpected {:?}", other),
        }
    }
    assert_eq!(
        got,
        vec![
            PrimitiveAttribute::I16(-300),
            PrimitiveAttribute::Bool(false),
            PrimitiveAttribute::Bool(true),
            PrimitiveAttribute::I32(i32::MIN),
            PrimitiveAttribute::F32(2.5f32.to_bits()),
            PrimitiveAttribute::F64((-0.125f64).to_bits()),
            PrimitiveAttribute::I64(i64::MAX),
        ]
    );
    // No attributes are left, and asking again changes nothing.
    assert!(matches!(parser.read_attribute(), Ok(None)));
    assert!(matches!(parser.next_event(), Ok(Event::EndNode)));
    assert!(matches!(parser.read_attribute(), Ok(None)));
}

#[test]
fn parsing_twice_gives_the_same_attributes() {
    fn attributes(data: Vec<u8>) -> Vec<String> {
        let mut parser = BinaryParser::new(data);
        let mut seen = Vec::new();
        loop {
            match parser.next_event_builder().unwrap() {
                EventBuilder::EndFbx(_) => break,
                EventBuilder::StartNode(_) => {
                    while let Some(attribute) = parser.read_attribute().unwrap() {
                        match attribute {
                            Attribute::Special(special) => {
                                seen.push(format!("{:?}", special.into_vec().unwrap()))
                            },
                            Attribute::Primitive(p) => seen.push(format!("{:?}", p)),
                            Attribute::Array(a) => seen.push(format!("{:?}", a)),
                        }
                    }
                },
                _ => {},
            }
        }
        seen
    }
    let data = sample(7400);
    let first = attributes(data.clone());
    assert_eq!(first.len(), 7);
    assert_eq!(first[0], "I32(-7)");
    assert_eq!(first[1], format!("{:?}", b"scene"));
    assert_eq!(first, attributes(data));
}

#[test]
fn unknown_type_code_is_rejected() {
    let mut doc = Doc::new(7400);
    doc.leaf("Bad", &[vec![b'Q', 0, 0, 0, 0]]);
    let mut parser = BinaryParser::new(doc.finish());
    parser.next_event().unwrap();
    parser.next_event().unwrap();
    assert!(matches!(parser.read_attribute(), Err(Error::UnknownAttributeType(b'Q'))));
    assert_eq!(parser.state(), ParserState::Failed);
    assert!(matches!(parser.next_event(), Err(Error::Finished)));
    assert_eq!(parser.skip_current_node(), Err(Error::Finished));
}

#[test]
fn raw_arrays_are_decoded() {
    let raw_i32: Vec<u8> = [1i32, -1, 65536].iter().flat_map(|v| v.to_le_bytes()).collect();
    let raw_i64: Vec<u8> = [i64::MIN, 5].iter().flat_map(|v| v.to_le_bytes()).collect();
    let raw_f32: Vec<u8> = [1.0f32, -2.0].iter().flat_map(|v| v.to_le_bytes()).collect();
    let raw_f64: Vec<u8> = [0.5f64].iter().flat_map(|v| v.to_le_bytes()).collect();
    let mut doc = Doc::new(7400);
    doc.leaf(
        "Arrays",
        &[
            attr_array(b'i', 3, 0, &raw_i32),
            attr_array(b'l', 2, 0, &raw_i64),
            attr_array(b'f', 2, 0, &raw_f32),
            attr_array(b'd', 1, 0, &raw_f64),
            attr_array(b'b', 4, 0, &[0, 1, b'T', b'Y']),
            attr_array(b'i', 0, 0, &[]),
        ],
    );
    let mut parser = BinaryParser::new(doc.finish());
    parser.next_event().unwrap();
    parser.next_event().unwrap();
    let mut got = Vec::new();
    while let Some(attribute) = parser.read_attribute().unwrap() {
        got.push(attribute.into_array().unwrap());
    }
    assert_eq!(
        got,
        vec![
            ArrayValue::I32(vec![1, -1, 65536]),
            ArrayValue::I64(vec![i64::MIN, 5]),
            ArrayValue::F32(vec![1.0f32.to_bits(), (-2.0f32).to_bits()]),
            ArrayValue::F64(vec![0.5f64.to_bits()]),
            ArrayValue::Bool(vec![false, true, false, true]),
            ArrayValue::I32(vec![]),
        ]
    );
    assert!(matches!(parser.next_event(), Ok(Event::EndNode)));
}

#[test]
fn compressed_arrays_are_inflated() {
    let values: Vec<f32> = (0..100).map(|i| i as f32 * 0.25).collect();
    let raw: Vec<u8> = values.iter().flat_map(|v| v.to_le_bytes()).collect();
    let compressed = miniz_oxide::deflate::compress_to_vec_zlib(&raw, 6);
    assert_ne!(compressed, raw);
    let mut doc = Doc::new(7400);
    doc.leaf("Z", &[attr_array(b'f', 100, 1, &compressed), attr_i32(9)]);
    let mut parser = BinaryParser::new(doc.finish());
    parser.next_event().unwrap();
    parser.next_event().unwrap();
    let array = parser.read_attribute().unwrap().unwrap().into_array().unwrap();
    let bits: Vec<u32> = values.iter().map(|v| v.to_bits()).collect();
    assert_eq!(array, ArrayValue::F32(bits));
    assert_eq!(parser.read_attribute().unwrap().unwrap().into_i32(), Ok(9));
}

#[test]
fn compressed_array_of_no_bytes_is_rejected() {
    // Five elements are declared and the zlib stream is empty.
    let mut doc = Doc::new(7400);
    doc.leaf("Z", &[attr_array(b'f', 5, 1, &[])]);
    let mut parser = BinaryParser::new(doc.finish());
    parser.next_event().unwrap();
    parser.next_event().unwrap();
    assert!(matches!(parser.read_attribute(), Err(Error::BrokenArray)));
    assert_eq!(parser.state(), ParserState::Failed);
}

#[test]
fn compressed_array_of_wrong_length_is_rejected() {
    let raw: Vec<u8> = [1i32, 2, 3].iter().flat_map(|v| v.to_le_bytes()).collect();
    let compressed = miniz_oxide::deflate::compress_to_vec_zlib(&raw, 6);
    for count in [2u32, 4] {
        let mut doc = Doc::new(7400);
        doc.leaf("Z", &[attr_array(b'i', count, 1, &compressed)]);
        let mut parser = BinaryParser::new(doc.finish());
        parser.next_event().unwrap();
        parser.next_event().unwrap();
        assert!(matches!(parser.read_attribute(), Err(Error::BrokenArray)));
    }
    // Garbage in place of a zlib stream.
    let mut doc = Doc::new(7400);
    doc.leaf("Z", &[attr_array(b'i', 1, 1, &[1, 2, 3, 4])]);
    let mut parser = BinaryParser::new(doc.finish());
    parser.next_event().unwrap();
    parser.next_event().unwrap();
    assert!(matches!(parser.read_attribute(), Err(Error::BrokenArray)));
}

#[test]
fn unknown_array_encoding_is_rejected() {
    let mut doc = Doc::new(7400);
    doc.leaf("Z", &[attr_array(b'd', 1, 2, &[0; 8])]);
    let mut parser = BinaryParser::new(doc.finish());
    parser.next_event().unwrap();
    parser.next_event().unwrap();
    assert!(matches!(parser.read_attribute(), Err(Error::UnknownArrayEncoding(2))));
}

#[test]
fn array_decoding_needs_the_exact_length() {
    assert_eq!(
        ArrayValue::from_raw(ArrayKind::I32, 2, &[1, 0, 0, 0, 0xfe, 0xff, 0xff, 0xff]),
        Ok(ArrayValue::I32(vec![1, -2]))
    );
    assert_eq!(
        ArrayValue::from_raw(ArrayKind::F64, 1, &[0, 0, 0, 0, 0, 0, 0xf0, 0x3f]),
        Ok(ArrayValue::F64(vec![1.0f64.to_bits()]))
    );
    assert_eq!(ArrayValue::from_raw(ArrayKind::Bool, 0, &[]), Ok(ArrayValue::Bool(vec![])));
    assert_eq!(ArrayValue::from_raw(ArrayKind::I32, 2, &[0; 7]), Err(Error::BrokenArray));
    assert_eq!(ArrayValue::from_raw(ArrayKind::I32, 2, &[0; 9]), Err(Error::BrokenArray));
    assert_eq!(ArrayValue::from_raw(ArrayKind::I64, 1, &[0; 4]), Err(Error::BrokenArray));
    assert_eq!(ArrayValue::from_raw(ArrayKind::F32, 5, &[]), Err(Error::BrokenArray));
    assert_eq!(ArrayKind::Bool.width(), 1);
    assert_eq!(ArrayKind::I32.width(), 4);
    assert_eq!(ArrayKind::F32.width(), 4);
    assert_eq!(ArrayKind::I64.width(), 8);
    assert_eq!(ArrayKind::F64.width(), 8);
}

#[test]
fn special_values_are_read_on_demand() {
    let mut doc = Doc::new(7400);
    doc.leaf("S", &[attr_string("h\u{e9}llo"), attr_binary(&[9, 8, 7, 6]), attr_i32(3)]);
    let mut parser = BinaryParser::new(doc.finish());
    parser.next_event().unwrap();
    parser.next_event().unwrap();
    match parser.read_attribute().unwrap().unwrap() {
        Attribute::Special(special) => {
            assert_eq!(special.value_type(), SpecialAttributeType::String);
            assert_eq!(special.total_len(), 6);
            assert_eq!(special.rest_len(), 6);
            assert_eq!(special.into_string(), Ok("h\u{e9}llo".to_string()));
        },
        other => panic!("unexpected {:?}", other),
    }
    match parser.read_attribute().unwrap().unwrap() {
        Attribute::Special(special) => {
            assert_eq!(special.value_type(), SpecialAttributeType::Binary);
            assert_eq!(special.total_len(), 4);
            assert_eq!(special.into_vec(), Ok(vec![9, 8, 7, 6]));
        },
        other => panic!("unexpected {:?}", other),
    }
    assert_eq!(parser.read_attribute().unwrap().unwrap().into_i32(), Ok(3));
}

#[test]
fn unread_special_value_is_skipped() {
    let mut doc = Doc::new(7400);
    doc.leaf("S", &[attr_binary(&[0xaa; 1000]), attr_i16(12)]);
    let mut parser = BinaryParser::new(doc.finish());
    parser.next_event().unwrap();
    parser.next_event().unwrap();
    let before = parser.position();
    match parser.read_attribute().unwrap().unwrap() {
        Attribute::Special(special) => assert_eq!(special.rest_len(), 1000),
        other => panic!("unexpected {:?}", other),
    }
    // Only the type code and the length have been read.
    assert_eq!(parser.position(), before + 5);
    assert_eq!(parser.read_attribute().unwrap().unwrap().into_i16(), Ok(12));
    assert_eq!(parser.position(), before + 5 + 1000 + 3);
}

#[test]
fn string_that_is_not_utf8_is_invalid_data() {
    let mut doc = Doc::new(7400);
    doc.leaf("S", &[attr_binary(&[]), attr_string("x")]);
    let mut data = doc.finish();
    let at = data.iter().position(|&b| b == b'x').unwrap();
    data[at] = 0xff;
    let mut parser = BinaryParser::new(data);
    parser.next_event().unwrap();
    parser.next_event().unwrap();
    assert_eq!(
        parser.read_attribute().unwrap().unwrap().into_special(SpecialAttributeType::Binary)
            .unwrap().into_string(),
        Ok(String::new())
    );
    let position = parser.position();
    match parser.read_attribute().unwrap().unwrap() {
        Attribute::Special(special) => {
            assert_eq!(special.into_string(), Err(IoError::InvalidData))
        },
        other => panic!("unexpected {:?}", other),
    }
    // The failed read has not moved the cursor past the length prefix.
    assert_eq!(parser.position(), position + 5);
    assert!(matches!(parser.next_event(), Ok(Event::EndNode)));
}

#[test]
fn special_value_cut_short_is_an_io_error() {
    let mut doc = Doc::new(7400);
    doc.bytes.extend_from_slice(&[b'S', 10, 0, 0, 0, b'a', b'b']);
    let mut parser = BinaryParser::new(doc.bytes);
    read_fbx_header(&mut parser).unwrap();
    parser.read_attribute().unwrap();
    let mut reader = BinaryParser::new(vec![10, 0, 0, 0, b'a', b'b']);
    let (special, end) = read_special_attribute(&mut reader, b'S').unwrap();
    assert_eq!(end, 14);
    assert_eq!(special.value_type(), SpecialAttributeType::String);
    assert_eq!(special.total_len(), 10);
    assert_eq!(special.rest_len(), 10);
    assert_eq!(special.into_vec(), Err(IoError::UnexpectedEof));
    assert_eq!(reader.position(), 4);
    let mut reader = BinaryParser::new(vec![10, 0, 0]);
    assert!(matches!(read_special_attribute(&mut reader, b'R'), Err(IoError::UnexpectedEof)));
    assert_eq!(reader.position(), 0);
    let mut reader = BinaryParser::new(vec![2, 0, 0, 0, 5, 6, 7]);
    let (special, end) = read_special_attribute(&mut reader, b'R').unwrap();
    assert_eq!(end, 6);
    assert_eq!(special.value_type(), SpecialAttributeType::Binary);
    assert_eq!(special.into_vec(), Ok(vec![5, 6]));
    assert_eq!(reader.position(), 6);
}

#[test]
fn narrowing_to_another_type_is_a_mismatch() {
    let mut doc = Doc::new(7400);
    doc.leaf(
        "N",
        &[attr_i16(1), attr_i32(2), attr_i64(3), attr_bool(1), attr_f32(1.0), attr_f64(2.0)],
    );
    let data = doc.finish();
    let mut parser = BinaryParser::new(data.clone());
    parser.next_event().unwrap();
    parser.next_event().unwrap();
    // Stored as i16, asked for as i32: no widening.
    assert_eq!(
        parser.read_attribute().unwrap().unwrap().into_i32(),
        Err(Error::AttributeTypeMismatch)
    );
    assert_eq!(
        parser.read_attribute().unwrap().unwrap().into_i64(),
        Err(Error::AttributeTypeMismatch)
    );
    assert_eq!(
        parser.read_attribute().unwrap().unwrap().into_i16(),
        Err(Error::AttributeTypeMismatch)
    );
    assert_eq!(
        parser.read_attribute().unwrap().unwrap().into_f32_bits(),
        Err(Error::AttributeTypeMismatch)
    );
    assert_eq!(
        parser.read_attribute().unwrap().unwrap().into_f64_bits(),
        Err(Error::AttributeTypeMismatch)
    );
    assert_eq!(
        parser.read_attribute().unwrap().unwrap().into_bool(),
        Err(Error::AttributeTypeMismatch)
    );
    // A mismatch does not end the parse.
    assert_eq!(parser.state(), ParserState::InDocument);
    assert!(matches!(parser.next_event(), Ok(Event::EndNode)));

    let mut parser = BinaryParser::new(data);
    parser.next_event().unwrap();
    parser.next_event().unwrap();
    assert_eq!(parser.read_attribute().unwrap().unwrap().into_i16(), Ok(1));
    assert_eq!(parser.read_attribute().unwrap().unwrap().into_i32(), Ok(2));
    assert_eq!(parser.read_attribute().unwrap().unwrap().into_i64(), Ok(3));
    assert_eq!(parser.read_attribute().unwrap().unwrap().into_bool(), Ok(true));
    assert_eq!(parser.read_attribute().unwrap().unwrap().into_f32_bits(), Ok(1.0f32.to_bits()));
    assert_eq!(parser.read_attribute().unwrap().unwrap().into_f64_bits(), Ok(2.0f64.to_bits()));
    assert!(matches!(
        parser.read_attribute(),
        Ok(None)
    ));
}

#[test]
fn narrowing_special_and_array() {
    let mut doc = Doc::new(7400);
    doc.leaf("N", &[attr_string("s"), attr_binary(&[1]), attr_array(b'b', 1, 0, &[1])]);
    let mut parser = BinaryParser::new(doc.finish());
    parser.next_event().unwrap();
    parser.next_event().unwrap();
    assert!(matches!(
        parser.read_attribute().unwrap().unwrap().into_special(SpecialAttributeType::Binary),
        Err(Error::AttributeTypeMismatch)
    ));
    assert!(matches!(parser.read_attribute().unwrap().unwrap().into_array(), Err(
        Error::AttributeTypeMismatch
    )));
    assert!(matches!(
        parser.read_attribute().unwrap().unwrap().into_special(SpecialAttributeType::String),
        Err(Error::AttributeTypeMismatch)
    ));
}

#[test]
fn skip_lands_on_the_end_offset() {
    // Skip right after the start, after some attributes and after a child.
    for consume in 0..4 {
        let mut parser = BinaryParser::new(sample(7400));
        parser.next_event().unwrap();
        assert!(matches!(parser.next_event(), Ok(Event::StartNode(_))));
        let header_at = 27;
        let end_offset = {
            let mut probe = BinaryParser::new(sample(7400));
            read_fbx_header(&mut probe).unwrap();
            assert_eq!(probe.position(), header_at);
            NodeHeader::read_from_parser(&mut probe).unwrap().end_offset
        };
        if consume >= 1 {
            parser.read_attribute().unwrap();
        }
        if consume >= 2 {
            match parser.read_attribute().unwrap().unwrap() {
                Attribute::Special(special) => assert_eq!(special.rest_len(), 5),
                other => panic!("unexpected {:?}", other),
            }
        }
        if consume >= 3 {
            assert!(matches!(parser.next_event(), Ok(Event::StartNode(_))));
            assert!(matches!(parser.next_event(), Ok(Event::EndNode)));
            assert_eq!(parser.depth(), 1);
        }
        assert_eq!(parser.skip_current_node(), Ok(()));
        assert_eq!(parser.position(), end_offset);
        assert_eq!(parser.depth(), 0);
        // The next event is the following sibling.
        match parser.next_event() {
            Ok(Event::StartNode(node)) => assert_eq!(node.name, b"Tail"),
            other => panic!("unexpected {:?}", other),
        }
    }
}

#[test]
fn skip_of_a_nested_node_returns_to_its_parent() {
    let mut parser = BinaryParser::new(sample(7500));
    parser.next_event().unwrap();
    parser.next_event().unwrap();
    parser.next_event().unwrap();
    assert_eq!(parser.depth(), 2);
    assert_eq!(parser.skip_current_node(), Ok(()));
    assert_eq!(parser.depth(), 1);
    match parser.next_event() {
        Ok(Event::StartNode(node)) => assert_eq!(node.name, b"Inner"),
        other => panic!("unexpected {:?}", other),
    }
    assert_eq!(parser.skip_current_node(), Ok(()));
    assert!(matches!(parser.next_event(), Ok(Event::EndNode)));
    assert_eq!(parser.depth(), 0);
}

#[test]
fn skip_without_an_open_node_does_nothing() {
    let mut parser = BinaryParser::new(sample(7400));
    assert_eq!(parser.skip_current_node(), Ok(()));
    assert_eq!(parser.position(), 0);
    parser.next_event().unwrap();
    assert_eq!(parser.skip_current_node(), Ok(()));
    assert_eq!(parser.position(), 27);
    assert_eq!(parser.state(), ParserState::InDocument);
}

#[test]
fn skip_past_the_end_of_the_document_fails() {
    let data = sample(7400);
    let mut parser = BinaryParser::new(data[..60].to_vec());
    parser.next_event().unwrap();
    parser.next_event().unwrap();
    assert_eq!(parser.skip_current_node(), Err(Error::Io(IoError::UnexpectedEof)));
    assert_eq!(parser.state(), ParserState::Failed);
}

#[test]
fn node_that_ends_before_its_attributes_is_malformed() {
    let mut doc = Doc::new(7400);
    doc.leaf("N", &[attr_i32(1)]);
    let mut data = doc.finish();
    // The end offset is made to lie inside the attributes.
    data[27..31].copy_from_slice(&(27u32 + 13 + 1 + 2).to_le_bytes());
    assert_eq!(trace(data).1, Err(Error::MalformedSubtree));
}

#[test]
fn child_that_outlives_its_parent_is_malformed() {
    let mut doc = Doc::new(7400);
    doc.start("P", &[]);
    doc.leaf("C", &[]);
    doc.end();
    let mut data = doc.finish();
    let child_at = 27 + 13 + 1;
    let end = u32::from_le_bytes(data[child_at..child_at + 4].try_into().unwrap());
    data[child_at..child_at + 4].copy_from_slice(&(end + 100).to_le_bytes());
    let (events, outcome, _) = trace(data);
    assert_eq!(events, vec!["StartFbx(7400)", "StartNode(P)"]);
    assert_eq!(outcome, Err(Error::MalformedSubtree));
}

#[test]
fn sentinel_away_from_the_end_offset_is_malformed() {
    let mut doc = Doc::new(7400);
    doc.leaf("N", &[]);
    let mut data = doc.finish();
    let end = u32::from_le_bytes(data[27..31].try_into().unwrap());
    data[27..31].copy_from_slice(&(end + 1).to_le_bytes());
    let (events, outcome, _) = trace(data);
    assert_eq!(events, vec!["StartFbx(7400)", "StartNode(N)"]);
    assert_eq!(outcome, Err(Error::MalformedSubtree));
}

#[test]
fn attribute_beyond_the_declared_length_is_malformed() {
    let mut doc = Doc::new(7400);
    doc.leaf("N", &[attr_i32(1), attr_i32(2)]);
    let mut data = doc.finish();
    // Ten bytes of attributes are there; five are declared.
    data[27 + 8..27 + 12].copy_from_slice(&5u32.to_le_bytes());
    let mut parser = BinaryParser::new(data);
    parser.next_event().unwrap();
    parser.next_event().unwrap();
    assert_eq!(parser.read_attribute().unwrap().unwrap().into_i32(), Ok(1));
    assert!(matches!(parser.read_attribute(), Err(Error::MalformedSubtree)));
}

#[test]
fn truncated_document_is_an_io_error() {
    let data = sample(7400);
    for len in [28usize, 39, 45, 100, data.len() - 1] {
        assert_eq!(trace(data[..len].to_vec()).1, Err(Error::Io(IoError::UnexpectedEof)));
    }
}

#[test]
fn failed_parse_keeps_its_warnings() {
    let mut doc = Doc::with_marker(7400, [0x1a, 0x01]);
    doc.sentinel();
    doc.footer_with(0, 7400);
    doc.bytes.truncate(100);
    let (events, outcome, warnings) = trace(doc.bytes);
    assert_eq!(events, vec!["StartFbx(7400)"]);
    assert_eq!(outcome, Err(Error::Io(IoError::UnexpectedEof)));
    assert_eq!(warnings, vec![Warning::UnexpectedMarkerBytes(0x1a, 0x01)]);
}

#[test]
fn warnings_are_kept_in_order() {
    let mut doc = Doc::with_marker(7400, [0x00, 0x00]);
    doc.sentinel();
    doc.footer_with(0, 7400);
    let (_, outcome, warnings) = trace(doc.bytes);
    assert_eq!(outcome, Ok(()));
    assert_eq!(
        warnings,
        vec![
            Warning::UnexpectedMarkerBytes(0x00, 0x00),
            Warning::MissingFooterPadding { expected: 8 },
        ]
    );
    let mut parser = BinaryParser::new(Vec::new());
    parser.warn(Warning::MissingFooterPadding { expected: 1 });
    assert_eq!(parser.warnings(), &vec![Warning::MissingFooterPadding { expected: 1 }]);
}

#[test]
fn builder_attaches_the_parser() {
    let mut parser = BinaryParser::new(sample(7400));
    let header = match parser.next_event_builder().unwrap() {
        EventBuilder::StartFbx(header) => header,
        other => panic!("unexpected {:?}", other),
    };
    assert!(matches!(EventBuilder::StartFbx(header).build(&mut parser), Event::StartFbx(h)
        if h == header));
    assert!(matches!(EventBuilder::EndNode.build(&mut parser), Event::EndNode));
    let builder = parser.next_event_builder().unwrap();
    match builder.clone().build(&mut parser) {
        Event::StartNode(node) => {
            assert_eq!(node.name, b"Objects");
            assert_eq!(node.parser.depth(), 1);
        },
        other => panic!("unexpected {:?}", other),
    }
    match builder {
        EventBuilder::StartNode(start) => {
            let node = start.build(&mut parser);
            assert_eq!(node.name, b"Objects");
        },
        other => panic!("unexpected {:?}", other),
    }
}

#[test]
fn subtree_parser_stops_at_the_end_of_its_node() {
    let mut parser = BinaryParser::new(sample(7400));
    parser.next_event().unwrap();
    parser.next_event().unwrap();
    {
        let mut subtree = parser.subtree_parser();
        assert!(!subtree.is_finished());
        let mut names = Vec::new();
        loop {
            match subtree.next_event() {
                Ok(Event::StartNode(node)) => names.push(node.name),
                Ok(Event::EndNode) => names.push(b"/".to_vec()),
                Ok(other) => panic!("unexpected {:?}", other),
                Err(e) => {
                    assert_eq!(e, Error::Finished);
                    break;
                },
            }
        }
        assert_eq!(
            names,
            vec![
                b"Leaf".to_vec(),
                b"/".to_vec(),
                b"Inner".to_vec(),
                b"Deep".to_vec(),
                b"/".to_vec(),
                b"/".to_vec(),
                b"/".to_vec(),
            ]
        );
        assert!(subtree.is_finished());
        assert_eq!(subtree.skip_current_node(), Err(Error::Finished));
        assert!(matches!(subtree.read_attribute(), Ok(None)));
    }
    // The parser itself goes on behind the subtree.
    assert_eq!(parser.state(), ParserState::InDocument);
    match parser.next_event() {
        Ok(Event::StartNode(node)) => assert_eq!(node.name, b"Tail"),
        other => panic!("unexpected {:?}", other),
    }
}

#[test]
fn nested_subtree_parsers_share_the_cursor() {
    let mut parser = BinaryParser::new(sample(7400));
    parser.next_event().unwrap();
    parser.next_event().unwrap();
    let mut outer = parser.subtree_parser();
    assert_eq!(outer.read_attribute().unwrap().unwrap().into_i32(), Ok(-7));
    assert!(matches!(outer.next_event(), Ok(Event::StartNode(_))));
    assert_eq!(outer.skip_current_node(), Ok(()));
    assert!(matches!(outer.next_event(), Ok(Event::StartNode(_))));
    {
        let mut inner = outer.subtree_parser();
        assert!(matches!(inner.next_event(), Ok(Event::StartNode(_))));
        assert_eq!(inner.skip_current_node(), Ok(()));
        assert!(matches!(inner.next_event(), Ok(Event::EndNode)));
        assert!(inner.is_finished());
        assert!(matches!(inner.next_event(), Err(Error::Finished)));
    }
    assert!(!outer.is_finished());
    assert!(matches!(outer.next_event(), Ok(Event::EndNode)));
    assert!(outer.is_finished());
}

/// Reads a document to its end, every attribute and every special value
/// included, and returns how it ended.
fn read_everything(data: Vec<u8>) -> Result<usize, Error> {
    let mut parser = BinaryParser::new(data);
    let mut seen = 0;
    loop {
        match parser.next_event_builder()? {
            EventBuilder::EndFbx(_) => return Ok(seen),
            EventBuilder::StartNode(_) => {
                while let Some(attribute) = parser.read_attribute()? {
                    seen += 1;
                    if let Attribute::Special(special) = attribute {
                        special.into_vec().map_err(Error::Io)?;
                    }
                }
            },
            _ => {},
        }
    }
}

#[test]
fn every_prefix_of_a_document_is_cut_short() {
    let mut doc = Doc::new(7400);
    doc.start("A", &[attr_string("text"), attr_array(b'i', 2, 0, &[1, 0, 0, 0, 2, 0, 0, 0])]);
    doc.leaf("B", &[attr_f64(0.5), attr_binary(&[1, 2, 3])]);
    doc.end();
    let data = doc.finish();
    assert_eq!(read_everything(data.clone()), Ok(4));
    for len in 0..data.len() {
        assert_eq!(
            read_everything(data[..len].to_vec()),
            Err(Error::Io(IoError::UnexpectedEof)),
            "prefix of {} bytes",
            len
        );
    }
}

#[test]
fn damaged_documents_end_in_an_error_or_a_result() {
    let raw: Vec<u8> = (0..40u8).collect();
    let compressed = miniz_oxide::deflate::compress_to_vec_zlib(&raw, 6);
    let mut doc = Doc::new(7400);
    doc.start("A", &[attr_string("text"), attr_array(b'l', 5, 1, &compressed)]);
    doc.leaf("B", &[attr_i16(3), attr_binary(&[1, 2, 3]), attr_array(b'b', 2, 0, &[0, 1])]);
    doc.end();
    let data = doc.finish();
    assert_eq!(read_everything(data.clone()), Ok(5));
    // Every byte in turn is replaced by three other values; whatever that does
    // to the document, reading it ends.
    let mut failures = 0;
    for at in 0..data.len() {
        for value in [0x00u8, 0x01, 0xff] {
            if data[at] == value {
                continue;
            }
            let mut damaged = data.clone();
            damaged[at] = value;
            if read_everything(damaged).is_err() {
                failures += 1;
            }
        }
    }
    assert!(failures > 0);
}

#[test]
fn reading_a_node_to_its_end_is_skipping_it() {
    for version in [7400u32, 7500] {
        let mut walked = BinaryParser::new(sample(version));
        walked.next_event().unwrap();
        walked.next_event().unwrap();
        let mut skipped = BinaryParser::new(sample(version));
        skipped.next_event().unwrap();
        skipped.next_event().unwrap();
        assert_eq!(skipped.skip_current_node(), Ok(()));
        // The first node is read until the event that closes it.
        let mut events = 0;
        while walked.depth() > 0 {
            walked.next_event().unwrap();
            events += 1;
        }
        assert_eq!(events, 7);
        assert_eq!(walked.position(), skipped.position());
        assert_eq!(walked.depth(), skipped.depth());
        assert_eq!(trace_rest(walked), trace_rest(skipped));
    }
}

/// The names of the events that are left.
fn trace_rest(mut parser: BinaryParser) -> Vec<String> {
    let mut events = Vec::new();
    loop {
        match parser.next_event_builder() {
            Ok(EventBuilder::StartNode(n)) => events.push(String::from_utf8(n.name).unwrap()),
            Ok(EventBuilder::EndNode) => events.push("/".to_string()),
            Ok(EventBuilder::EndFbx(_)) => return events,
            other => panic!("unexpected {:?}", other),
        }
    }
}

#[test]
fn compressed_array_without_elements() {
    let compressed = miniz_oxide::deflate::compress_to_vec_zlib(&[], 6);
    let mut doc = Doc::new(7400);
    doc.leaf("Z", &[attr_array(b'd', 0, 1, &compressed), attr_i32(1)]);
    let mut parser = BinaryParser::new(doc.finish());
    parser.next_event().unwrap();
    parser.next_event().unwrap();
    let array = parser.read_attribute().unwrap().unwrap().into_array();
    assert_eq!(array, Ok(ArrayValue::F64(vec![])));
    assert_eq!(parser.read_attribute().unwrap().unwrap().into_i32(), Ok(1));
}
