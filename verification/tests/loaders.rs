//! Tests of the loaders on documents assembled byte by byte.

use fbx_events::loader::binary::simple::fbx7400::definitions::{
    load_property_template, Definitions, DefinitionsChildAttrs, ObjectType, ObjectTypeChildAttrs,
};
use fbx_events::loader::binary::simple::fbx7400::fbx_header_extension::{
    separate_name_class, CreationTimeStamp, CreationTimeStampChildAttrs, FbxHeaderExtension,
    FbxHeaderExtensionChildAttrs, MetaData, MetaDataChildAttrs, SceneInfo, SceneInfoChildAttrs,
};
use fbx_events::loader::binary::simple::fbx7400::properties70::{
    Properties70, PropertyData, PropertyMap, PropertyValue,
};
use fbx_events::loader::binary::simple::fbx7400::takes::{
    Take, TakeChildAttrs, Takes, TakesChildAttrs,
};
use fbx_events::loader::binary::simple::{ensure_node_exists, name_is, require_attribute, Error};
use fbx_events::parser::binary::error::{Error as ParserError, IoError};
use fbx_events::parser::binary::event::attribute::Attribute;
use fbx_events::parser::binary::event::{
    Event, EventBuilder, FbxFooter, FbxHeader, StartNodeBuilder,
};
use fbx_events::parser::binary::state::{BinaryParser, ParserState};

/// Writer of documents for the tests.
struct Writer {
    bytes: Vec<u8>,
    open: Vec<usize>,
}

impl Writer {
    fn new() -> Writer {
        let mut bytes = b"Kaydara FBX Binary  \x00\x1a\x00".to_vec();
        bytes.extend_from_slice(&7400u32.to_le_bytes());
        Writer { bytes, open: Vec::new() }
    }

    fn start(&mut self, name: &str, attrs: &[Vec<u8>]) -> &mut Writer {
        self.open.push(self.bytes.len());
        let len: usize = attrs.iter().map(|a| a.len()).sum();
        self.bytes.extend_from_slice(&0u32.to_le_bytes());
        self.bytes.extend_from_slice(&(attrs.len() as u32).to_le_bytes());
        self.bytes.extend_from_slice(&(len as u32).to_le_bytes());
        self.bytes.push(name.len() as u8);
        self.bytes.extend_from_slice(name.as_bytes());
        for a in attrs {
            self.bytes.extend_from_slice(a);
        }
        self
    }

    fn end(&mut self) -> &mut Writer {
        self.bytes.extend_from_slice(&[0; 13]);
        let at = self.open.pop().unwrap();
        let end = self.bytes.len() as u32;
        self.bytes[at..at + 4].copy_from_slice(&end.to_le_bytes());
        self
    }

    fn leaf(&mut self, name: &str, attrs: &[Vec<u8>]) -> &mut Writer {
        self.start(name, attrs).end()
    }

    fn finish(&mut self) -> Vec<u8> {
        self.bytes.extend_from_slice(&[0; 13]);
        let padding = (16 - (self.bytes.len() + 16) % 16) % 16;
        self.bytes.extend_from_slice(&[0x11; 16]);
        self.bytes.extend(std::iter::repeat(0u8).take(padding + 4));
        self.bytes.extend_from_slice(&7400u32.to_le_bytes());
        self.bytes.extend_from_slice(&[0; 120]);
        self.bytes.extend_from_slice(&[0x22; 16]);
        self.bytes.clone()
    }
}

fn attr_int(v: i32) -> Vec<u8> {
    let mut a = vec![b'I'];
    a.extend_from_slice(&v.to_le_bytes());
    a
}

fn attr_long(v: i64) -> Vec<u8> {
    let mut a = vec![b'L'];
    a.extend_from_slice(&v.to_le_bytes());
    a
}

fn attr_short(v: i16) -> Vec<u8> {
    let mut a = vec![b'Y'];
    a.extend_from_slice(&v.to_le_bytes());
    a
}

fn attr_double(v: f64) -> Vec<u8> {
    let mut a = vec![b'D'];
    a.extend_from_slice(&v.to_le_bytes());
    a
}

fn attr_text(v: &str) -> Vec<u8> {
    let mut a = vec![b'S'];
    a.extend_from_slice(&(v.len() as u32).to_le_bytes());
    a.extend_from_slice(v.as_bytes());
    a
}

fn attr_blob(v: &[u8]) -> Vec<u8> {
    let mut a = vec![b'R'];
    a.extend_from_slice(&(v.len() as u32).to_le_bytes());
    a.extend_from_slice(v);
    a
}

/// A parser that stands behind the start of the first top-level node.
fn inside_first_node(data: Vec<u8>) -> BinaryParser {
    let mut parser = BinaryParser::new(data);
    assert!(matches!(parser.next_event(), Ok(Event::StartFbx(_))));
    assert!(matches!(parser.next_event(), Ok(Event::StartNode(_))));
    parser
}

fn missing(parent: &'static str, child: &'static str) -> Error {
    Error::MissingRequiredChild { parent, child }
}

fn write_time_stamp(w: &mut Writer) {
    w.start("CreationTimeStamp", &[]);
    w.leaf("Version", &[attr_int(1000)]);
    w.leaf("Year", &[attr_int(2017)]);
    w.leaf("Month", &[attr_int(3)]);
    w.leaf("Day", &[attr_int(14)]);
    w.leaf("Hour", &[attr_int(15)]);
    w.leaf("Minute", &[attr_int(9)]);
    w.leaf("Second", &[attr_int(26)]);
    w.leaf("Millisecond", &[attr_int(535)]);
    w.end();
}

fn write_metadata(w: &mut Writer) {
    w.start("MetaData", &[]);
    w.leaf("Version", &[attr_int(100)]);
    w.leaf("Title", &[attr_text("a title")]);
    w.leaf("Subject", &[attr_text("")]);
    w.leaf("Author", &[attr_text("J\u{f8}rgen")]);
    w.leaf("Keywords", &[attr_text("k1 k2")]);
    w.leaf("Revision", &[attr_text("r7")]);
    w.leaf("Comment", &[attr_text("none")]);
    w.end();
}

/// The attributes of a property node: four strings and the values.
fn property_attrs(head: [&str; 4], values: Vec<Vec<u8>>) -> Vec<Vec<u8>> {
    let mut attrs: Vec<Vec<u8>> = head.iter().map(|s| attr_text(s)).collect();
    attrs.extend(values);
    attrs
}

fn write_properties(w: &mut Writer) {
    w.start("Properties70", &[]);
    w.leaf("P", &property_attrs(["DocumentUrl", "KString", "Url", ""], vec![attr_text("a.fbx")]));
    w.leaf("P", &property_attrs(["Count", "int", "Integer", "A"], vec![attr_int(12)]));
    w.leaf("P", &property_attrs(["Start", "KTime", "Time", ""], vec![attr_long(1 << 40)]));
    w.leaf(
        "P",
        &property_attrs(
            ["Scale", "Vector3D", "Vector", ""],
            vec![attr_double(1.0), attr_double(2.0), attr_double(-3.5)],
        ),
    );
    w.leaf("P", &property_attrs(["LastSaved", "Compound", "", ""], vec![]));
    w.leaf("P", &property_attrs(["Count", "int", "Integer", "B"], vec![attr_int(13)]));
    w.end();
}

fn write_scene_info(w: &mut Writer, name_class: &str) {
    w.start("SceneInfo", &[attr_text(name_class), attr_text("UserData")]);
    w.leaf("Type", &[attr_text("UserData")]);
    w.leaf("Version", &[attr_int(100)]);
    write_metadata(w);
    write_properties(w);
    w.end();
}

fn expected_time_stamp() -> CreationTimeStamp {
    CreationTimeStamp {
        version: 1000,
        year: 2017,
        month: 3,
        day: 14,
        hour: 15,
        minute: 9,
        second: 26,
        millisecond: 535,
    }
}

fn expected_metadata() -> MetaData {
    MetaData {
        version: 100,
        title: "a title".to_string(),
        subject: String::new(),
        author: "J\u{f8}rgen".to_string(),
        keywords: "k1 k2".to_string(),
        revision: "r7".to_string(),
        comment: "none".to_string(),
    }
}

fn property<T>(name: &str, kind: &str, label: &str, flags: &str, value: T) -> PropertyValue<T> {
    PropertyValue {
        name: name.to_string(),
        kind: kind.to_string(),
        label: label.to_string(),
        flags: flags.to_string(),
        value,
    }
}

fn expected_properties() -> Properties70 {
    Properties70 {
        values_i32: PropertyMap {
            entries: vec![
                property("Count", "int", "Integer", "A", 12),
                property("Count", "int", "Integer", "B", 13),
            ],
        },
        values_i64: PropertyMap { entries: vec![property("Start", "KTime", "Time", "", 1 << 40)] },
        values_f64: PropertyMap {
            entries: vec![property(
                "Scale",
                "Vector3D",
                "Vector",
                "",
                vec![1.0f64.to_bits(), 2.0f64.to_bits(), (-3.5f64).to_bits()],
            )],
        },
        values_string: PropertyMap {
            entries: vec![property("DocumentUrl", "KString", "Url", "", "a.fbx".to_string())],
        },
        values_empty: PropertyMap { entries: vec![property("LastSaved", "Compound", "", "", ())] },
    }
}

#[test]
fn creation_time_stamp_is_loaded() {
    let mut w = Writer::new();
    write_time_stamp(&mut w);
    w.leaf("Next", &[]);
    let mut parser = inside_first_node(w.finish());
    assert_eq!(CreationTimeStamp::load(parser.subtree_parser()), Ok(expected_time_stamp()));
    // The loader has read the node to its end.
    assert_eq!(parser.depth(), 0);
    match parser.next_event() {
        Ok(Event::StartNode(node)) => assert_eq!(node.name, b"Next"),
        other => panic!("unexpected {:?}", other),
    }
}

#[test]
fn creation_time_stamp_takes_the_last_of_repeated_children() {
    let mut w = Writer::new();
    w.start("CreationTimeStamp", &[]);
    for (name, value) in [
        ("Millisecond", 1),
        ("Second", 2),
        ("Year", 1999),
        ("Minute", 3),
        ("Hour", 4),
        ("Day", 5),
        ("Month", 6),
        ("Version", 7),
        ("Year", 2000),
    ] {
        // Attributes behind the first are left unread.
        w.leaf(name, &[attr_int(value), attr_text("ignored")]);
    }
    w.end();
    let mut parser = inside_first_node(w.finish());
    assert_eq!(
        CreationTimeStamp::load(parser.subtree_parser()),
        Ok(CreationTimeStamp {
            version: 7,
            year: 2000,
            month: 6,
            day: 5,
            hour: 4,
            minute: 3,
            second: 2,
            millisecond: 1,
        })
    );
    assert!(matches!(parser.next_event(), Ok(Event::EndFbx(_))));
}

#[test]
fn creation_time_stamp_names_the_first_missing_child() {
    let names =
        ["Version", "Year", "Month", "Day", "Hour", "Minute", "Second", "Millisecond"];
    for missing_at in 0..names.len() {
        let mut w = Writer::new();
        w.start("CreationTimeStamp", &[]);
        for name in &names[..missing_at] {
            w.leaf(name, &[attr_int(1)]);
        }
        w.end();
        let mut parser = inside_first_node(w.finish());
        assert_eq!(
            CreationTimeStamp::load(parser.subtree_parser()),
            Err(missing("CreationTimeStamp", names[missing_at]))
        );
        assert_eq!(parser.state(), ParserState::InDocument);
    }
}

#[test]
fn unexpected_child_is_rejected() {
    let mut w = Writer::new();
    w.start("CreationTimeStamp", &[]);
    w.leaf("Version", &[attr_int(1)]);
    w.leaf("Era", &[attr_int(2)]);
    w.end();
    let mut parser = inside_first_node(w.finish());
    assert_eq!(
        CreationTimeStamp::load(parser.subtree_parser()),
        Err(Error::UnexpectedNode(b"Era".to_vec()))
    );
}

#[test]
fn child_without_attribute_is_invalid() {
    let mut w = Writer::new();
    w.start("CreationTimeStamp", &[]);
    w.leaf("Year", &[]);
    w.end();
    let mut parser = inside_first_node(w.finish());
    assert_eq!(
        CreationTimeStamp::load(parser.subtree_parser()),
        Err(Error::InvalidAttribute(b"Year".to_vec()))
    );
}

#[test]
fn child_with_attribute_of_another_type_is_a_mismatch() {
    let mut w = Writer::new();
    w.start("CreationTimeStamp", &[]);
    w.leaf("Year", &[attr_short(2017)]);
    w.end();
    let mut parser = inside_first_node(w.finish());
    assert_eq!(
        CreationTimeStamp::load(parser.subtree_parser()),
        Err(Error::Parser(ParserError::AttributeTypeMismatch))
    );
    let mut w = Writer::new();
    w.start("MetaData", &[]);
    w.leaf("Title", &[attr_blob(b"binary")]);
    w.end();
    let mut parser = inside_first_node(w.finish());
    assert_eq!(
        MetaData::load(parser.subtree_parser()),
        Err(Error::Parser(ParserError::AttributeTypeMismatch))
    );
}

#[test]
fn loader_passes_parser_errors_on() {
    let mut w = Writer::new();
    write_time_stamp(&mut w);
    let data = w.finish();
    let mut parser = inside_first_node(data[..90].to_vec());
    assert_eq!(
        CreationTimeStamp::load(parser.subtree_parser()),
        Err(Error::Parser(ParserError::Io(IoError::UnexpectedEof)))
    );
    assert_eq!(parser.state(), ParserState::Failed);
    // A parser that has failed gives a loader nothing.
    assert_eq!(
        CreationTimeStamp::load(parser.subtree_parser()),
        Err(Error::Parser(ParserError::Finished))
    );
}

#[test]
fn child_attrs_are_loaded_by_name() {
    let mut w = Writer::new();
    w.leaf(
        "Any",
        &[
            attr_int(5),
            attr_int(6),
            attr_text("s"),
            attr_text("t"),
            attr_text("u"),
            attr_long(7),
            attr_long(8),
            attr_int(9),
        ],
    );
    let mut parser = inside_first_node(w.finish());
    let mut sub = parser.subtree_parser();
    assert_eq!(
        CreationTimeStampChildAttrs::load(b"Hour", &mut sub),
        Ok(CreationTimeStampChildAttrs::Hour(5))
    );
    assert_eq!(MetaDataChildAttrs::load(b"Version", &mut sub), Ok(MetaDataChildAttrs::Version(6)));
    assert_eq!(
        MetaDataChildAttrs::load(b"Keywords", &mut sub),
        Ok(MetaDataChildAttrs::Keywords("s".to_string()))
    );
    assert_eq!(
        FbxHeaderExtensionChildAttrs::load(b"SceneInfo", &mut sub),
        Ok(FbxHeaderExtensionChildAttrs::SceneInfo(("t".to_string(), "u".to_string())))
    );
    assert_eq!(
        TakeChildAttrs::load(b"LocalTime", &mut sub),
        Ok(TakeChildAttrs::LocalTime((7, 8)))
    );
    assert_eq!(SceneInfoChildAttrs::load(b"MetaData", &mut sub), Ok(SceneInfoChildAttrs::MetaData));
    assert_eq!(
        SceneInfoChildAttrs::load(b"Properties70", &mut sub),
        Ok(SceneInfoChildAttrs::Properties)
    );
    assert_eq!(
        FbxHeaderExtensionChildAttrs::load(b"CreationTimeStamp", &mut sub),
        Ok(FbxHeaderExtensionChildAttrs::CreationTimeStamp)
    );
    assert_eq!(
        TakesChildAttrs::load(b"Nothing", &mut sub),
        Err(Error::UnexpectedNode(b"Nothing".to_vec()))
    );
    assert_eq!(
        DefinitionsChildAttrs::load(b"Count", &mut sub),
        Ok(DefinitionsChildAttrs::Count(9))
    );
    assert_eq!(
        ObjectTypeChildAttrs::load(b"Count", &mut sub),
        Err(Error::InvalidAttribute(b"Count".to_vec()))
    );
}

#[test]
fn pair_of_attributes_needs_both() {
    let mut w = Writer::new();
    w.leaf("Any", &[attr_long(1)]);
    let mut parser = inside_first_node(w.finish());
    let mut sub = parser.subtree_parser();
    assert_eq!(
        TakeChildAttrs::load(b"ReferenceTime", &mut sub),
        Err(Error::InvalidAttribute(b"ReferenceTime".to_vec()))
    );
    assert_eq!(sub.read_i64_pair(), Ok(None));

    let mut w = Writer::new();
    w.leaf(
        "Any",
        &[attr_long(1), attr_long(2), attr_text("a"), attr_text("b"), attr_text("c"), attr_int(3)],
    );
    let mut parser = inside_first_node(w.finish());
    let mut sub = parser.subtree_parser();
    assert_eq!(sub.read_i64_pair(), Ok(Some((1, 2))));
    assert_eq!(sub.read_string_pair(), Ok(Some(("a".to_string(), "b".to_string()))));
    assert_eq!(sub.read_string_pair(), Err(ParserError::AttributeTypeMismatch));
    assert_eq!(sub.read_i32(), Ok(None));
    assert_eq!(sub.read_i64(), Ok(None));
    assert_eq!(sub.read_string(), Ok(None));
}

#[test]
fn metadata_is_loaded() {
    let mut w = Writer::new();
    write_metadata(&mut w);
    let mut parser = inside_first_node(w.finish());
    assert_eq!(MetaData::load(parser.subtree_parser()), Ok(expected_metadata()));
    assert!(matches!(parser.next_event(), Ok(Event::EndFbx(_))));
}

#[test]
fn metadata_names_the_first_missing_child() {
    let names = ["Version", "Title", "Subject", "Author", "Keywords", "Revision", "Comment"];
    for missing_at in 0..names.len() {
        let mut w = Writer::new();
        w.start("MetaData", &[]);
        for name in names[..missing_at].iter().rev() {
            if *name == "Version" {
                w.leaf(name, &[attr_int(1)]);
            } else {
                w.leaf(name, &[attr_text("x")]);
            }
        }
        w.end();
        let mut parser = inside_first_node(w.finish());
        assert_eq!(
            MetaData::load(parser.subtree_parser()),
            Err(missing("MetaData", names[missing_at]))
        );
    }
}

#[test]
fn metadata_string_has_to_be_utf8() {
    let mut w = Writer::new();
    w.start("MetaData", &[]);
    w.leaf("Title", &[attr_text("\u{e9}")]);
    w.end();
    let mut data = w.finish();
    let at = data.iter().position(|&b| b == 0xc3).unwrap();
    data[at] = 0xff;
    let mut parser = inside_first_node(data);
    assert_eq!(
        MetaData::load(parser.subtree_parser()),
        Err(Error::Parser(ParserError::Io(IoError::InvalidData)))
    );
}

#[test]
fn takes_are_loaded_in_order() {
    let mut w = Writer::new();
    w.start("Takes", &[]);
    w.leaf("Current", &[attr_text("Take 001")]);
    w.start("Take", &[attr_text("Take 001")]);
    w.leaf("FileName", &[attr_text("Take_001.tak")]);
    w.leaf("LocalTime", &[attr_long(0), attr_long(46186158000)]);
    w.leaf("ReferenceTime", &[attr_long(-5), attr_long(i64::MAX)]);
    w.end();
    w.start("Take", &[attr_text("second")]);
    w.leaf("ReferenceTime", &[attr_long(3), attr_long(4)]);
    w.leaf("LocalTime", &[attr_long(1), attr_long(2)]);
    w.leaf("FileName", &[attr_text("b.tak")]);
    w.end();
    w.end();
    w.leaf("After", &[]);
    let mut parser = inside_first_node(w.finish());
    let takes = Takes::load(parser.subtree_parser()).unwrap();
    assert_eq!(
        takes,
        Takes {
            current: "Take 001".to_string(),
            takes: vec![
                Take {
                    name: "Take 001".to_string(),
                    filename: "Take_001.tak".to_string(),
                    local_time: (0, 46186158000),
                    reference_time: (-5, i64::MAX),
                },
                Take {
                    name: "second".to_string(),
                    filename: "b.tak".to_string(),
                    local_time: (1, 2),
                    reference_time: (3, 4),
                },
            ],
        }
    );
    assert_eq!(takes.takes[0].clone(), takes.takes[0]);
    assert_eq!(
        TakeChildAttrs::LocalTime((1, 2)).clone(),
        TakeChildAttrs::LocalTime((1, 2))
    );
    match parser.next_event() {
        Ok(Event::StartNode(node)) => assert_eq!(node.name, b"After"),
        other => panic!("unexpected {:?}", other),
    }
}

#[test]
fn takes_without_current_or_with_broken_take() {
    let mut w = Writer::new();
    w.start("Takes", &[]);
    w.end();
    let mut parser = inside_first_node(w.finish());
    assert_eq!(Takes::load(parser.subtree_parser()), Err(missing("Takes", "Current")));

    let mut w = Writer::new();
    w.start("Takes", &[]);
    w.leaf("Current", &[attr_text("")]);
    w.start("Take", &[attr_text("t")]);
    w.leaf("FileName", &[attr_text("f")]);
    w.leaf("LocalTime", &[attr_long(1), attr_long(2)]);
    w.end();
    w.end();
    let mut parser = inside_first_node(w.finish());
    assert_eq!(Takes::load(parser.subtree_parser()), Err(missing("Take", "ReferenceTime")));

    let mut w = Writer::new();
    w.start("Take", &[attr_text("t")]);
    w.leaf("LocalTime", &[attr_long(1), attr_long(2)]);
    w.leaf("ReferenceTime", &[attr_long(1), attr_long(2)]);
    w.end();
    let mut parser = inside_first_node(w.finish());
    assert_eq!(
        Take::load(parser.subtree_parser(), "t".to_string()),
        Err(missing("Take", "FileName"))
    );
    let mut w = Writer::new();
    w.start("Take", &[attr_text("t")]);
    w.leaf("FileName", &[attr_text("f")]);
    w.end();
    let mut parser = inside_first_node(w.finish());
    assert_eq!(
        Take::load(parser.subtree_parser(), "t".to_string()),
        Err(missing("Take", "LocalTime"))
    );
}

#[test]
fn name_and_class_are_separated() {
    assert_eq!(
        separate_name_class("GlobalInfo\u{0}\u{1}SceneInfo"),
        Some(("GlobalInfo", "SceneInfo"))
    );
    assert_eq!(separate_name_class("\u{0}\u{1}"), Some(("", "")));
    assert_eq!(separate_name_class("a\u{0}\u{1}"), Some(("a", "")));
    assert_eq!(separate_name_class("\u{0}\u{1}b"), Some(("", "b")));
    // The first separator counts.
    assert_eq!(
        separate_name_class("a\u{0}\u{1}b\u{0}\u{1}c"),
        Some(("a", "b\u{0}\u{1}c"))
    );
    // Characters of several bytes on both sides.
    assert_eq!(
        separate_name_class("\u{540d}\u{524d}\u{0}\u{1}\u{30af}\u{30e9}\u{30b9}"),
        Some(("\u{540d}\u{524d}", "\u{30af}\u{30e9}\u{30b9}"))
    );
    assert_eq!(separate_name_class(""), None);
    assert_eq!(separate_name_class("\u{0}"), None);
    assert_eq!(separate_name_class("a\u{1}\u{0}b"), None);
    assert_eq!(separate_name_class("a\u{0}b\u{1}"), None);
    assert_eq!(separate_name_class("GlobalInfo::SceneInfo"), None);
}

#[test]
fn properties_are_sorted_by_value_type() {
    let mut w = Writer::new();
    write_properties(&mut w);
    let mut parser = inside_first_node(w.finish());
    let properties = Properties70::load(parser.subtree_parser()).unwrap();
    assert_eq!(properties, expected_properties());
    // Of two properties of one name the later one is found.
    assert_eq!(properties.values_i32.get("Count").map(|p| p.value), Some(13));
    assert_eq!(properties.values_i32.get("Count").map(|p| p.flags.as_str()), Some("B"));
    assert_eq!(properties.values_i64.get("Start").map(|p| p.value), Some(1 << 40));
    assert_eq!(
        properties.values_string.get("DocumentUrl").map(|p| p.value.as_str()),
        Some("a.fbx")
    );
    assert_eq!(properties.values_f64.get("Scale").map(|p| p.value.len()), Some(3));
    assert!(properties.values_empty.get("LastSaved").is_some());
    assert!(properties.values_i32.get("Start").is_none());
    assert!(properties.values_i32.get("count").is_none());
    assert!(properties.values_empty.get("").is_none());
}

#[test]
fn property_map_finds_the_last_of_a_name() {
    let mut map: PropertyMap<i64> = PropertyMap::new();
    assert!(map.get("a").is_none());
    map.insert(property("a", "int", "", "", 1));
    map.insert(property("b", "int", "", "", 2));
    map.insert(property("a", "int", "", "", 3));
    map.insert(property("\u{e9}", "int", "", "", 4));
    assert_eq!(map.entries.len(), 4);
    assert_eq!(map.get("a").map(|p| p.value), Some(3));
    assert_eq!(map.get("b").map(|p| p.value), Some(2));
    assert_eq!(map.get("\u{e9}").map(|p| p.value), Some(4));
    assert!(map.get("c").is_none());
    assert!(map.get("e").is_none());
}

#[test]
fn properties_insert_by_value_type() {
    let mut properties = Properties70::new();
    assert!(properties.values_i32.entries.is_empty());
    properties.insert(property("i", "int", "", "", PropertyData::I32(-1)));
    properties.insert(property("l", "KTime", "", "", PropertyData::I64(-2)));
    properties.insert(property("d", "double", "", "", PropertyData::F64(vec![7])));
    properties.insert(property("s", "KString", "", "", PropertyData::String("v".to_string())));
    properties.insert(property("e", "object", "", "", PropertyData::Empty));
    assert_eq!(properties.values_i32.get("i").map(|p| p.value), Some(-1));
    assert_eq!(properties.values_i64.get("l").map(|p| p.value), Some(-2));
    assert_eq!(properties.values_f64.get("d").map(|p| p.value.clone()), Some(vec![7]));
    assert_eq!(properties.values_string.get("s").map(|p| p.value.as_str()), Some("v"));
    assert_eq!(properties.values_empty.get("e").map(|p| p.kind.as_str()), Some("object"));
    assert!(properties.values_i64.get("i").is_none());
}

#[test]
fn properties_reject_what_they_do_not_know() {
    // A child that is not a property.
    let mut w = Writer::new();
    w.start("Properties70", &[]);
    w.leaf("Q", &[attr_text("a"), attr_text("b"), attr_text("c"), attr_text("d")]);
    w.end();
    let mut parser = inside_first_node(w.finish());
    assert_eq!(
        Properties70::load(parser.subtree_parser()),
        Err(Error::UnexpectedNode(b"Q".to_vec()))
    );
    // A property with fewer than four strings.
    let mut w = Writer::new();
    w.start("Properties70", &[]);
    w.leaf("P", &[attr_text("a"), attr_text("b"), attr_text("c")]);
    w.end();
    let mut parser = inside_first_node(w.finish());
    assert_eq!(
        Properties70::load(parser.subtree_parser()),
        Err(Error::InvalidAttribute(b"P".to_vec()))
    );
    // Values of a type properties do not have, and values of mixed types.
    let rejected =
        [vec![attr_short(1)], vec![attr_blob(b"x")], vec![attr_double(1.0), attr_int(2)]];
    for values in rejected {
        let mut w = Writer::new();
        w.start("Properties70", &[]);
        w.leaf("P", &property_attrs(["a", "b", "c", "d"], values));
        w.end();
        let mut parser = inside_first_node(w.finish());
        assert_eq!(
            Properties70::load(parser.subtree_parser()),
            Err(Error::Parser(ParserError::AttributeTypeMismatch))
        );
    }
}

#[test]
fn scene_info_is_loaded() {
    let mut w = Writer::new();
    write_scene_info(&mut w, "GlobalInfo\u{0}\u{1}SceneInfo");
    let data = w.finish();
    let mut parser = BinaryParser::new(data);
    parser.next_event().unwrap();
    parser.next_event().unwrap();
    let mut sub = parser.subtree_parser();
    let attrs = sub.read_string_pair().unwrap().unwrap();
    let info = SceneInfo::load(sub, attrs).unwrap();
    assert_eq!(
        info,
        SceneInfo {
            name: "GlobalInfo".to_string(),
            class: "SceneInfo".to_string(),
            subclass: "UserData".to_string(),
            type_: "UserData".to_string(),
            version: 100,
            metadata: expected_metadata(),
            properties: expected_properties(),
        }
    );
    assert!(matches!(parser.next_event(), Ok(Event::EndFbx(_))));
}

#[test]
fn scene_info_needs_the_separator() {
    let mut w = Writer::new();
    write_scene_info(&mut w, "GlobalInfo::SceneInfo");
    let mut parser = inside_first_node(w.finish());
    let position = parser.position();
    assert_eq!(
        SceneInfo::load(
            parser.subtree_parser(),
            ("GlobalInfo::SceneInfo".to_string(), "UserData".to_string())
        ),
        Err(Error::InvalidAttribute(b"SceneInfo".to_vec()))
    );
    // Nothing has been read.
    assert_eq!(parser.position(), position);
}

#[test]
fn scene_info_names_the_first_missing_child() {
    let children = ["Type", "Version", "MetaData", "Properties70"];
    for missing_at in 0..children.len() {
        let mut w = Writer::new();
        w.start("SceneInfo", &[]);
        for child in &children[..missing_at] {
            match *child {
                "Type" => {
                    w.leaf("Type", &[attr_text("t")]);
                },
                "Version" => {
                    w.leaf("Version", &[attr_int(1)]);
                },
                _ => write_metadata(&mut w),
            }
        }
        w.end();
        let mut parser = inside_first_node(w.finish());
        assert_eq!(
            SceneInfo::load(parser.subtree_parser(), ("n\u{0}\u{1}c".to_string(), String::new())),
            Err(missing("SceneInfo", children[missing_at]))
        );
    }
}

#[test]
fn header_extension_is_loaded() {
    let mut w = Writer::new();
    w.start("FBXHeaderExtension", &[]);
    w.leaf("FBXHeaderVersion", &[attr_int(1003)]);
    w.leaf("FBXVersion", &[attr_int(7400)]);
    w.leaf("EncryptionType", &[attr_int(0)]);
    write_time_stamp(&mut w);
    w.leaf("Creator", &[attr_text("exporter 1.0")]);
    write_scene_info(&mut w, "GlobalInfo\u{0}\u{1}SceneInfo");
    w.end();
    let mut parser = inside_first_node(w.finish());
    let extension = FbxHeaderExtension::load(parser.subtree_parser()).unwrap();
    assert_eq!(extension.fbx_header_version, 1003);
    assert_eq!(extension.fbx_version, 7400);
    assert_eq!(extension.encryption_type, 0);
    assert_eq!(extension.creation_timestamp, expected_time_stamp());
    assert_eq!(extension.creator, "exporter 1.0");
    assert_eq!(extension.scene_info.name, "GlobalInfo");
    assert_eq!(extension.scene_info.class, "SceneInfo");
    assert_eq!(extension.scene_info.metadata, expected_metadata());
    assert_eq!(extension.scene_info.properties, expected_properties());
    assert!(matches!(parser.next_event(), Ok(Event::EndFbx(_))));
    assert_eq!(parser.state(), ParserState::AfterFooter);
}

#[test]
fn header_extension_names_the_first_missing_child() {
    let mut w = Writer::new();
    w.start("FBXHeaderExtension", &[]);
    w.leaf("Creator", &[attr_text("c")]);
    w.leaf("FBXVersion", &[attr_int(7400)]);
    w.end();
    let mut parser = inside_first_node(w.finish());
    assert_eq!(
        FbxHeaderExtension::load(parser.subtree_parser()),
        Err(missing("FBXHeaderExtension", "FBXHeaderVersion"))
    );
    let mut w = Writer::new();
    w.start("FBXHeaderExtension", &[]);
    w.leaf("FBXHeaderVersion", &[attr_int(1003)]);
    w.leaf("FBXVersion", &[attr_int(7400)]);
    w.leaf("EncryptionType", &[attr_int(0)]);
    w.leaf("Creator", &[attr_text("c")]);
    w.end();
    let mut parser = inside_first_node(w.finish());
    assert_eq!(
        FbxHeaderExtension::load(parser.subtree_parser()),
        Err(missing("FBXHeaderExtension", "CreationTimeStamp"))
    );
    // An error inside a child ends the load.
    let mut w = Writer::new();
    w.start("FBXHeaderExtension", &[]);
    w.start("CreationTimeStamp", &[]);
    w.leaf("Week", &[attr_int(1)]);
    w.end();
    w.end();
    let mut parser = inside_first_node(w.finish());
    assert_eq!(
        FbxHeaderExtension::load(parser.subtree_parser()),
        Err(Error::UnexpectedNode(b"Week".to_vec()))
    );
    assert_eq!(
        FbxHeaderExtensionChildAttrs::SceneInfo(("a".to_string(), "b".to_string())).clone(),
        FbxHeaderExtensionChildAttrs::SceneInfo(("a".to_string(), "b".to_string()))
    );
}

fn write_definitions(w: &mut Writer) {
    w.start("Definitions", &[]);
    w.leaf("Version", &[attr_int(100)]);
    w.leaf("Count", &[attr_int(3)]);
    w.start("ObjectType", &[attr_text("Model")]);
    w.leaf("Count", &[attr_int(2)]);
    w.start("PropertyTemplate", &[attr_text("FbxNode")]);
    write_properties(w);
    w.end();
    w.start("PropertyTemplate", &[attr_text("FbxOther")]);
    w.start("Properties70", &[]);
    w.leaf("P", &[attr_text("Only"), attr_text("int"), attr_text(""), attr_text(""), attr_int(1)]);
    w.end();
    w.end();
    // A template of a name that has come before replaces the earlier one.
    w.start("PropertyTemplate", &[attr_text("FbxOther")]);
    w.start("Properties70", &[]);
    w.leaf("P", &[attr_text("Only"), attr_text("int"), attr_text(""), attr_text(""), attr_int(2)]);
    w.end();
    w.end();
    w.end();
    w.start("ObjectType", &[attr_text("GlobalSettings")]);
    w.leaf("Count", &[attr_int(1)]);
    w.end();
    // Of two object types of one name the first is looked in.
    w.start("ObjectType", &[attr_text("Model")]);
    w.leaf("Count", &[attr_int(0)]);
    w.start("PropertyTemplate", &[attr_text("FbxLate")]);
    w.start("Properties70", &[]);
    w.end();
    w.end();
    w.end();
    w.end();
}

#[test]
fn definitions_are_loaded() {
    let mut w = Writer::new();
    write_definitions(&mut w);
    let mut parser = inside_first_node(w.finish());
    let definitions = Definitions::load(parser.subtree_parser()).unwrap();
    assert!(matches!(parser.next_event(), Ok(Event::EndFbx(_))));
    assert_eq!(definitions.version, 100);
    assert_eq!(definitions.count, 3);
    assert_eq!(definitions.object_types.len(), 3);
    let model = &definitions.object_types[0];
    assert_eq!(model.object_type, "Model");
    assert_eq!(model.count, 2);
    assert_eq!(model.property_template.len(), 2);
    assert_eq!(model.property_template.get("FbxNode"), Some(&expected_properties()));
    assert_eq!(
        model.property_template["FbxOther"].values_i32.get("Only").map(|p| p.value),
        Some(2)
    );
    assert_eq!(definitions.object_types[1].object_type, "GlobalSettings");
    assert_eq!(definitions.object_types[1].count, 1);
    assert!(definitions.object_types[1].property_template.is_empty());
    assert_eq!(definitions.object_types[2].count, 0);
}

#[test]
fn property_template_is_looked_up() {
    let mut w = Writer::new();
    write_definitions(&mut w);
    let mut parser = inside_first_node(w.finish());
    let definitions = Definitions::load(parser.subtree_parser()).unwrap();
    assert_eq!(definitions.get_properties70("Model", "FbxNode"), Some(&expected_properties()));
    assert_eq!(
        definitions
            .get_properties70("Model", "FbxOther")
            .and_then(|p| p.values_i32.get("Only"))
            .map(|p| p.value),
        Some(2)
    );
    // The template of the later object type of the same name is not seen.
    assert_eq!(definitions.get_properties70("Model", "FbxLate"), None);
    assert_eq!(definitions.get_properties70("Model", "fbxnode"), None);
    assert_eq!(definitions.get_properties70("GlobalSettings", "FbxNode"), None);
    assert_eq!(definitions.get_properties70("Geometry", "FbxNode"), None);
    assert_eq!(definitions.get_properties70("", ""), None);
}

#[test]
fn property_value_falls_back_to_the_template() {
    let mut w = Writer::new();
    write_definitions(&mut w);
    let mut parser = inside_first_node(w.finish());
    let definitions = Definitions::load(parser.subtree_parser()).unwrap();
    let mut own = Properties70::new();
    own.insert(property("Count", "int", "", "own", PropertyData::I32(99)));
    own.insert(property("Mine", "int", "", "own", PropertyData::I32(1)));
    fn ints(p: &Properties70) -> &PropertyMap<i32> {
        &p.values_i32
    }
    // The object's own value hides the one of the template.
    assert_eq!(
        definitions
            .get_property_value("Model", "FbxNode", "Count", &own, |p| &p.values_i32)
            .map(|p| p.value),
        Some(99)
    );
    assert_eq!(
        definitions.get_property_value("Nothing", "", "Mine", &own, ints).map(|p| p.value),
        Some(1)
    );
    // Without a value of its own the template gives the value.
    let empty = Properties70::new();
    assert_eq!(
        definitions
            .get_property_value("Model", "FbxNode", "Count", &empty, |p| &p.values_i32)
            .map(|p| (p.value, p.flags.as_str())),
        Some((13, "B"))
    );
    assert_eq!(
        definitions
            .get_property_value("Model", "FbxNode", "DocumentUrl", &empty, |p| &p.values_string)
            .map(|p| p.value.as_str()),
        Some("a.fbx")
    );
    // Neither has it.
    assert!(definitions
        .get_property_value("Model", "FbxNode", "Mine", &empty, |p| &p.values_i32)
        .is_none());
    assert!(definitions
        .get_property_value("Model", "FbxNode", "Count", &empty, |p| &p.values_i64)
        .is_none());
    assert!(definitions
        .get_property_value("Model", "FbxMissing", "Count", &empty, |p| &p.values_i32)
        .is_none());
}

#[test]
fn definitions_name_the_first_missing_child() {
    let mut w = Writer::new();
    w.start("Definitions", &[]);
    w.leaf("Count", &[attr_int(3)]);
    w.end();
    let mut parser = inside_first_node(w.finish());
    assert_eq!(Definitions::load(parser.subtree_parser()), Err(missing("Definitions", "Version")));
    let mut w = Writer::new();
    w.start("Definitions", &[]);
    w.leaf("Version", &[attr_int(3)]);
    w.end();
    let mut parser = inside_first_node(w.finish());
    assert_eq!(Definitions::load(parser.subtree_parser()), Err(missing("Definitions", "Count")));
    let mut w = Writer::new();
    w.start("Definitions", &[]);
    w.start("ObjectType", &[attr_text("Model")]);
    w.end();
    w.end();
    let mut parser = inside_first_node(w.finish());
    assert_eq!(Definitions::load(parser.subtree_parser()), Err(missing("ObjectType", "Count")));
}

#[test]
fn object_type_and_template_are_loaded() {
    let mut w = Writer::new();
    w.start("ObjectType", &[attr_text("Material")]);
    w.start("PropertyTemplate", &[attr_text("FbxSurfacePhong")]);
    write_properties(&mut w);
    w.end();
    w.leaf("Count", &[attr_int(4)]);
    w.end();
    let mut parser = inside_first_node(w.finish());
    let object_type = ObjectType::load(parser.subtree_parser(), "Material".to_string()).unwrap();
    assert_eq!(object_type.object_type, "Material");
    assert_eq!(object_type.count, 4);
    assert_eq!(object_type.property_template.len(), 1);
    assert_eq!(object_type.property_template["FbxSurfacePhong"], expected_properties());

    let mut w = Writer::new();
    w.start("PropertyTemplate", &[attr_text("FbxSurfacePhong")]);
    write_properties(&mut w);
    w.end();
    let mut parser = inside_first_node(w.finish());
    assert_eq!(load_property_template(parser.subtree_parser()), Ok(expected_properties()));

    let mut w = Writer::new();
    w.start("PropertyTemplate", &[attr_text("Empty")]);
    w.end();
    let mut parser = inside_first_node(w.finish());
    assert_eq!(
        load_property_template(parser.subtree_parser()),
        Err(missing("PropertyTemplate", "Properties70"))
    );

    let mut w = Writer::new();
    w.start("PropertyTemplate", &[attr_text("Wrong")]);
    w.leaf("Properties60", &[]);
    w.end();
    let mut parser = inside_first_node(w.finish());
    assert_eq!(
        load_property_template(parser.subtree_parser()),
        Err(Error::UnexpectedNode(b"Properties60".to_vec()))
    );
}

#[test]
fn helpers_of_the_loaders() {
    assert!(name_is(b"Version", "Version"));
    assert!(name_is(b"", ""));
    assert!(name_is("\u{e9}".as_bytes(), "\u{e9}"));
    assert!(!name_is(b"Version", "version"));
    assert!(!name_is(b"Versio", "Version"));
    assert!(!name_is(b"Versions", "Version"));
    assert_eq!(require_attribute(Ok(Some(5)), b"N"), Ok(5));
    assert_eq!(
        require_attribute::<i32>(Ok(None), b"N"),
        Err(Error::InvalidAttribute(b"N".to_vec()))
    );
    assert_eq!(
        require_attribute::<i32>(Err(ParserError::BrokenFooter), b"N"),
        Err(Error::Parser(ParserError::BrokenFooter))
    );
    assert_eq!(ensure_node_exists(Some("v"), "P", "C"), Ok("v"));
    assert_eq!(ensure_node_exists::<i32>(None, "P", "C"), Err(missing("P", "C")));
}

#[test]
fn reader_hands_out_the_value_in_parts() {
    let mut w = Writer::new();
    w.leaf("N", &[attr_blob(&[1, 2, 3, 4, 5, 6, 7]), attr_int(8)]);
    let mut parser = inside_first_node(w.finish());
    match parser.read_attribute().unwrap().unwrap() {
        Attribute::Special(mut special) => {
            {
                let mut reader = special.reader();
                assert_eq!(reader.limit(), 7);
                assert_eq!(reader.read(3), vec![1, 2, 3]);
                assert_eq!(reader.limit(), 4);
                assert_eq!(reader.read(0), Vec::<u8>::new());
            }
            assert_eq!(special.rest_len(), 4);
            assert_eq!(special.total_len(), 7);
            {
                let mut reader = special.reader();
                assert_eq!(reader.read(2), vec![4, 5]);
                // No more than the value is handed out.
                assert_eq!(reader.read(100), vec![6, 7]);
                assert_eq!(reader.limit(), 0);
                assert_eq!(reader.read(100), Vec::<u8>::new());
            }
            assert_eq!(special.rest_len(), 0);
            assert_eq!(special.into_vec(), Ok(vec![]));
        },
        other => panic!("unexpected {:?}", other),
    }
    assert_eq!(parser.read_attribute().unwrap().unwrap().into_i32(), Ok(8));
}

#[test]
fn reader_stops_at_the_end_of_the_document() {
    let mut parser = BinaryParser::new(vec![9, 0, 0, 0, 1, 2, 3]);
    let (mut special, end) =
        fbx_events::parser::binary::event::attribute::special::read_special_attribute(
            &mut parser,
            b'R',
        )
        .unwrap();
    assert_eq!(end, 13);
    let mut reader = special.reader();
    assert_eq!(reader.read(8), vec![1, 2, 3]);
    assert_eq!(reader.limit(), 6);
    assert_eq!(reader.read(8), Vec::<u8>::new());
}

#[test]
fn events_are_made_from_their_parts() {
    let header = FbxHeader { version: 7400 };
    let footer = FbxFooter { unknown1: [1; 16], version: 7400, unknown2: [2; 16] };
    assert!(matches!(EventBuilder::from(header), EventBuilder::StartFbx(h) if h == header));
    assert!(matches!(EventBuilder::from(footer), EventBuilder::EndFbx(f) if f == footer));
    assert!(matches!(
        EventBuilder::from(StartNodeBuilder { name: b"n".to_vec() }),
        EventBuilder::StartNode(n) if n.name == b"n"
    ));
    assert!(matches!(Event::from(header), Event::StartFbx(h) if h == header));
    assert!(matches!(Event::from(footer), Event::EndFbx(f) if f == footer));
    let mut parser = BinaryParser::new(Vec::new());
    let node = StartNodeBuilder { name: b"n".to_vec() }.build(&mut parser);
    assert!(matches!(Event::from(node), Event::StartNode(n) if n.name == b"n"));
}

#[test]
fn next_child_names_the_children() {
    let mut w = Writer::new();
    w.start("Parent", &[attr_int(1)]);
    w.leaf("First", &[attr_text("a")]);
    w.start("Second", &[]);
    w.leaf("Inner", &[]);
    w.end();
    w.end();
    let mut parser = inside_first_node(w.finish());
    let mut sub = parser.subtree_parser();
    assert_eq!(sub.next_child(), Ok(Some(b"First".to_vec())));
    assert_eq!(sub.read_string(), Ok(Some("a".to_string())));
    assert_eq!(sub.skip_current_node(), Ok(()));
    assert_eq!(sub.next_child(), Ok(Some(b"Second".to_vec())));
    assert_eq!(sub.skip_current_node(), Ok(()));
    // The node itself ends.
    assert_eq!(sub.next_child(), Ok(None));
    assert!(sub.is_finished());
    assert_eq!(sub.next_child(), Err(ParserError::Finished));
}
