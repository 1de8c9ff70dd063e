//! `Definitions` node and its children.

use fnv::FnvHashMap;
use vstd::prelude::*;
use vstd::string::StringSliceAdditionalSpecFns;
use super::super::{
    ensure_node_exists, fold_children, lemma_fold_leaves_node, map_loaded, missing, model_of,
    name_is, require_attribute, required_attribute, Error, ErrorModel,
};
use super::properties70::{
    last_named, lemma_properties70_leaves_node, Properties70, Properties70Model, PropertyMap,
    PropertyValue,
};
use crate::parser::binary::state::ParserModel;
use crate::parser::binary::subtree::SubtreeParser;
use crate::parser::binary::utils::{
    lemma_read_i32_stays, lemma_read_string_stays, lemma_skip_amid_attributes,
};

verus! {

/// `fnv::FnvHasher`, the hasher of [`FnvHashMap`]. Nothing is said of what is
/// inside it.
#[verifier::external_type_specification]
#[verifier::external_body]
pub struct ExFnvHasher(fnv::FnvHasher);

/// `std::hash::BuildHasherDefault`, which makes the hashers of [`FnvHashMap`].
/// Nothing is said of what is inside it.
#[verifier::external_type_specification]
#[verifier::external_body]
#[verifier::reject_recursive_types(H)]
pub struct ExBuildHasherDefault<H>(std::hash::BuildHasherDefault<H>);

/// The property templates an [`FnvHashMap`] holds, by the characters of their
/// names.
pub uninterp spec fn template_entries(templates: FnvHashMap<String, Properties70>) -> Map<
    Seq<char>,
    Properties70,
>;

/// Creates a map with `FnvHashMap::default`, the `Default` of the standard
/// `HashMap`, which holds nothing.
#[verifier::external_body]
fn templates_new() -> (templates: FnvHashMap<String, Properties70>)
    ensures
        template_entries(templates) =~= Map::empty(),
{
    FnvHashMap::default()
}

/// Adds a template with `HashMap::insert`: afterwards the map holds `value`
/// under `key` and, under every other name, what it held before.
#[verifier::external_body]
fn templates_insert(
    templates: &mut FnvHashMap<String, Properties70>,
    key: String,
    value: Properties70,
)
    ensures
        template_entries(*final(templates)) == template_entries(*old(templates)).insert(
            key@,
            value,
        ),
{
    templates.insert(key, value);
}

/// Looks a template up with `HashMap::get`: the value held under `key`, if
/// the map holds one.
#[verifier::external_body]
fn templates_get<'a>(templates: &'a FnvHashMap<String, Properties70>, key: &str) -> (found: Option<
    &'a Properties70,
>)
    ensures
        found matches Some(value) ==> template_entries(*templates).contains_key(key@) && *value
            == template_entries(*templates)[key@],
        found is None ==> !template_entries(*templates).contains_key(key@),
{
    templates.get(key)
}

/// An object type and property template for it.
#[derive(Debug, Clone, PartialEq)]
pub struct ObjectType {
    /// Target object type.
    pub object_type: String,
    /// Reference count?
    pub count: i32,
    /// Property templates.
    pub property_template: FnvHashMap<String, Properties70>,
}

/// Mathematical model of an [`ObjectType`].
pub struct ObjectTypeModel {
    /// Target object type.
    pub object_type: Seq<char>,
    /// Reference count.
    pub count: i32,
    /// Property templates.
    pub property_template: Map<Seq<char>, Properties70Model>,
}

/// The models of the templates in `templates`.
pub open spec fn template_models(templates: Map<Seq<char>, Properties70>) -> Map<
    Seq<char>,
    Properties70Model,
> {
    templates.map_values(|properties: Properties70| properties@)
}

impl View for ObjectType {
    type V = ObjectTypeModel;

    open spec fn view(&self) -> ObjectTypeModel {
        ObjectTypeModel {
            object_type: self.object_type@,
            count: self.count,
            property_template: template_models(template_entries(self.property_template)),
        }
    }
}

/// What handling one child of a `PropertyTemplate` node yields: the child
/// has to be a `Properties70` node and is loaded as the template.
pub open spec fn property_template_step() -> spec_fn(
    ParserModel,
    Seq<u8>,
    Option<Properties70Model>,
) -> (ParserModel, Result<Option<Properties70Model>, ErrorModel>) {
    |m: ParserModel, name: Seq<u8>, template: Option<Properties70Model>|
        {
            let loaded = Properties70::parse(m, m.depth());
            if name != "Properties70".spec_bytes() {
                (m, Err(ErrorModel::UnexpectedNode(name)))
            } else {
                (
                    loaded.0,
                    match loaded.1 {
                        Ok(properties) => Ok(Some(properties)),
                        Err(e) => Err(e),
                    },
                )
            }
        }
}

/// What loading a `PropertyTemplate` node yields: every child has to be a
/// `Properties70` node, and the last of them is the template.
#[verifier::opaque]
pub open spec fn parse_property_template(m: ParserModel, initial_depth: nat) -> (
    ParserModel,
    Result<Properties70Model, ErrorModel>,
) {
    let folded = fold_children(
        m,
        initial_depth,
        None::<Properties70Model>,
        property_template_step(),
    );
    (
        folded.0,
        match folded.1 {
            Ok(Some(properties)) => Ok(properties),
            Ok(None) => Err(missing("PropertyTemplate", "Properties70")),
            Err(e) => Err(e),
        },
    )
}

/// Loads the property template that a `PropertyTemplate` node holds.
#[verifier::loop_isolation(false)]
pub fn load_property_template(mut parser: SubtreeParser<'_>) -> (r: Result<Properties70, Error>)
    requires
        parser.root@.wf(),
        parser.initial_depth > 0,
    ensures
        final(parser.root)@ == parse_property_template(
            old(parser.root)@,
            parser.initial_depth as nat,
        ).0,
        final(parser.root)@.wf(),
        final(parser.root)@.follows(old(parser.root)@),
        match parse_property_template(old(parser.root)@, parser.initial_depth as nat).1 {
            Ok(model) => r matches Ok(properties) && properties@ == model,
            Err(e) => r matches Err(error) && error@ == e,
        },
{
    let mut props: Option<Properties70> = None;
    let ghost start = parser.root@;
    let ghost depth = parser.initial_depth as nat;
    let ghost end = *final(parser.root);
    proof {
        reveal(parse_property_template);
    }

    loop
        invariant
            parser.root@.wf(),
            parser.root@.follows(start),
            parser.initial_depth == depth,
            *final(parser.root) == end,
            fold_children(parser.root@, depth, model_of(props), property_template_step())
                == fold_children(
                start,
                depth,
                None::<Properties70Model>,
                property_template_step(),
            ),
        decreases parser.root@.unread(),
    {
        let name = match parser.next_child() {
            Ok(Some(name)) => name,
            Ok(None) => {
                return ensure_node_exists(props, "PropertyTemplate", "Properties70");
            },
            Err(e) => {
                return Err(Error::Parser(e));
            },
        };
        if !name_is(name.as_slice(), "Properties70") {
            return Err(Error::UnexpectedNode(name));
        }
        match Properties70::load(parser.subtree_parser()) {
            Ok(v) => {
                props = Some(v);
            },
            Err(e) => {
                return Err(e);
            },
        }
    }
}

/// A child of an `ObjectType` node with the value it carries.
#[derive(Debug, Clone, PartialEq, Eq, Hash)]
pub enum ObjectTypeChildAttrs {
    /// `Count`.
    Count(i32),
    /// `PropertyTemplate`.
    PropertyTemplate(String),
}

/// Mathematical model of an [`ObjectTypeChildAttrs`].
pub enum ObjectTypeChildModel {
    /// `Count`.
    Count(i32),
    /// `PropertyTemplate`.
    PropertyTemplate(Seq<char>),
}

impl View for ObjectTypeChildAttrs {
    type V = ObjectTypeChildModel;

    open spec fn view(&self) -> ObjectTypeChildModel {
        match self {
            ObjectTypeChildAttrs::Count(v) => ObjectTypeChildModel::Count(*v),
            ObjectTypeChildAttrs::PropertyTemplate(v) => ObjectTypeChildModel::PropertyTemplate(v@),
        }
    }
}

impl ObjectTypeChildAttrs {
    /// What loading the attributes of the child called `name` yields.
    #[verifier::opaque]
    pub open spec fn parse(name: Seq<u8>, m: ParserModel, initial_depth: nat) -> (
        ParserModel,
        Result<ObjectTypeChildModel, ErrorModel>,
    ) {
        if name == "Count".spec_bytes() {
            map_loaded(
                required_attribute(m.read_i32(initial_depth), name),
                |v: i32| ObjectTypeChildModel::Count(v),
            )
        } else if name == "PropertyTemplate".spec_bytes() {
            map_loaded(
                required_attribute(m.read_string(initial_depth), name),
                |v: Seq<char>| ObjectTypeChildModel::PropertyTemplate(v),
            )
        } else {
            (m, Err(ErrorModel::UnexpectedNode(name)))
        }
    }

    /// Creates an `ObjectTypeChildAttrs` from the given node name.
    pub fn load(name: &[u8], parser: &mut SubtreeParser<'_>) -> (r: Result<
        ObjectTypeChildAttrs,
        Error,
    >)
        requires
            old(parser).root@.wf(),
        ensures
            final(parser).initial_depth == old(parser).initial_depth,
            *final(final(parser).root) == *final(old(parser).root),
            final(parser).root@ == Self::parse(
                name@,
                old(parser).root@,
                old(parser).initial_depth as nat,
            ).0,
            final(parser).root@.wf(),
            final(parser).root@.follows(old(parser).root@),
            final(parser).root@.open_nodes == old(parser).root@.open_nodes,
            match Self::parse(name@, old(parser).root@, old(parser).initial_depth as nat).1 {
                Ok(model) => r matches Ok(attrs) && attrs@ == model,
                Err(e) => r matches Err(error) && error@ == e,
            },
    {
        proof {
            reveal(ObjectTypeChildAttrs::parse);
        }
        if name_is(name, "Count") {
            match require_attribute(parser.read_i32(), name) {
                Ok(v) => Ok(ObjectTypeChildAttrs::Count(v)),
                Err(e) => Err(e),
            }
        } else if name_is(name, "PropertyTemplate") {
            match require_attribute(parser.read_string(), name) {
                Ok(v) => Ok(ObjectTypeChildAttrs::PropertyTemplate(v)),
                Err(e) => Err(e),
            }
        } else {
            Err(Error::UnexpectedNode(vstd::slice::slice_to_vec(name)))
        }
    }
}

/// What the children of an `ObjectType` node read so far have given.
pub struct ObjectTypeFields {
    /// `Count`.
    pub count: Option<i32>,
    /// `PropertyTemplate`s, by name.
    pub property_template: Map<Seq<char>, Properties70Model>,
}

impl ObjectTypeFields {
    /// Nothing has been read yet.
    pub open spec fn empty() -> ObjectTypeFields {
        ObjectTypeFields { count: None, property_template: Map::empty() }
    }

    /// The object type called `object_type` that the fields make up, or the
    /// error for the child that is missing.
    pub open spec fn finish(self, object_type: Seq<char>) -> Result<ObjectTypeModel, ErrorModel> {
        if self.count is None {
            Err(missing("ObjectType", "Count"))
        } else {
            Ok(
                ObjectTypeModel {
                    object_type,
                    count: self.count->0,
                    property_template: self.property_template,
                },
            )
        }
    }
}

impl ObjectType {
    /// What handling one child of an `ObjectType` node yields: `Count` gives
    /// its value and is skipped, a `PropertyTemplate` is loaded and kept under
    /// its name, in place of any template of that name before it.
    pub open spec fn step(initial_depth: nat) -> spec_fn(
        ParserModel,
        Seq<u8>,
        ObjectTypeFields,
    ) -> (ParserModel, Result<ObjectTypeFields, ErrorModel>) {
        |m: ParserModel, name: Seq<u8>, fields: ObjectTypeFields|
            {
                let child = ObjectTypeChildAttrs::parse(name, m, initial_depth);
                match child.1 {
                    Ok(ObjectTypeChildModel::Count(v)) => {
                        let skipped = child.0.skip_current_node_within(initial_depth);
                        (
                            skipped.0,
                            match skipped.1 {
                                Ok(_) => Ok(ObjectTypeFields { count: Some(v), ..fields }),
                                Err(e) => Err(ErrorModel::Parser(e)),
                            },
                        )
                    },
                    Ok(ObjectTypeChildModel::PropertyTemplate(attrs)) => {
                        let loaded = parse_property_template(child.0, child.0.depth());
                        (
                            loaded.0,
                            match loaded.1 {
                                Ok(properties) => Ok(
                                    ObjectTypeFields {
                                        property_template: fields.property_template.insert(
                                            attrs,
                                            properties,
                                        ),
                                        ..fields
                                    },
                                ),
                                Err(e) => Err(e),
                            },
                        )
                    },
                    Err(e) => (child.0, Err(e)),
                }
            }
    }

    /// What loading the `ObjectType` node called `object_type` yields when the
    /// parse stands behind the start of the node.
    #[verifier::opaque]
    pub open spec fn parse(m: ParserModel, initial_depth: nat, object_type: Seq<char>) -> (
        ParserModel,
        Result<ObjectTypeModel, ErrorModel>,
    ) {
        let folded = fold_children(
            m,
            initial_depth,
            ObjectTypeFields::empty(),
            Self::step(initial_depth),
        );
        (
            folded.0,
            match folded.1 {
                Ok(fields) => fields.finish(object_type),
                Err(e) => Err(e),
            },
        )
    }

    /// Loads node contents from the parser.
    #[verifier::loop_isolation(false)]
    pub fn load(mut parser: SubtreeParser<'_>, attrs: String) -> (r: Result<ObjectType, Error>)
        requires
            parser.root@.wf(),
            parser.initial_depth > 0,
        ensures
            final(parser.root)@ == Self::parse(
                old(parser.root)@,
                parser.initial_depth as nat,
                attrs@,
            ).0,
            final(parser.root)@.wf(),
            final(parser.root)@.follows(old(parser.root)@),
            match Self::parse(old(parser.root)@, parser.initial_depth as nat, attrs@).1 {
                Ok(model) => r matches Ok(object_type) && object_type@ == model,
                Err(e) => r matches Err(error) && error@ == e,
            },
    {
        let mut count: Option<i32> = None;
        let mut property_template = templates_new();
        let ghost start = parser.root@;
        let ghost depth = parser.initial_depth as nat;
        let ghost end = *final(parser.root);
        proof {
            reveal(ObjectType::parse);
            assert(template_models(template_entries(property_template)) =~= Map::empty());
        }

        loop
            invariant
                parser.root@.wf(),
                parser.root@.follows(start),
                parser.initial_depth == depth,
                *final(parser.root) == end,
                fold_children(
                    parser.root@,
                    depth,
                    ObjectTypeFields {
                        count,
                        property_template: template_models(template_entries(property_template)),
                    },
                    Self::step(depth),
                ) == fold_children(start, depth, ObjectTypeFields::empty(), Self::step(depth)),
            decreases parser.root@.unread(),
        {
            let name = match parser.next_child() {
                Ok(Some(name)) => name,
                Ok(None) => {
                    return Ok(
                        ObjectType {
                            object_type: attrs,
                            count: ensure_node_exists(count, "ObjectType", "Count")?,
                            property_template,
                        },
                    );
                },
                Err(e) => {
                    return Err(Error::Parser(e));
                },
            };
            let node_type = match ObjectTypeChildAttrs::load(name.as_slice(), &mut parser) {
                Ok(node_type) => node_type,
                Err(e) => {
                    return Err(e);
                },
            };
            match node_type {
                ObjectTypeChildAttrs::Count(v) => {
                    count = Some(v);
                    match parser.skip_current_node() {
                        Ok(()) => {},
                        Err(e) => {
                            return Err(Error::Parser(e));
                        },
                    }
                },
                ObjectTypeChildAttrs::PropertyTemplate(attrs) => {
                    let props = match load_property_template(parser.subtree_parser()) {
                        Ok(props) => props,
                        Err(e) => {
                            return Err(e);
                        },
                    };
                    let ghost before = template_entries(property_template);
                    templates_insert(&mut property_template, attrs, props);
                    assert(template_models(template_entries(property_template))
                        =~= template_models(before).insert(attrs@, props@));
                },
            }
        }
    }
}


/// `Definitions` node.
#[derive(Debug, Clone, PartialEq)]
pub struct Definitions {
    /// Version of the node.
    pub version: i32,
    /// Reference count?
    pub count: i32,
    /// Property templates for object types.
    pub object_types: Vec<ObjectType>,
}

/// Mathematical model of a [`Definitions`].
pub struct DefinitionsModel {
    /// Version of the node.
    pub version: i32,
    /// Reference count.
    pub count: i32,
    /// Property templates for object types.
    pub object_types: Seq<ObjectTypeModel>,
}

/// The models of the object types in `object_types`, in order.
pub open spec fn object_type_models(object_types: Seq<ObjectType>) -> Seq<ObjectTypeModel> {
    object_types.map_values(|object_type: ObjectType| object_type@)
}

impl View for Definitions {
    type V = DefinitionsModel;

    open spec fn view(&self) -> DefinitionsModel {
        DefinitionsModel {
            version: self.version,
            count: self.count,
            object_types: object_type_models(self.object_types@),
        }
    }
}

/// A child of a `Definitions` node with the value it carries.
#[derive(Debug, Clone, PartialEq, Eq, Hash)]
pub enum DefinitionsChildAttrs {
    /// `Count`.
    Count(i32),
    /// `Version`.
    Version(i32),
    /// `ObjectType`.
    ObjectType(String),
}

/// Mathematical model of a [`DefinitionsChildAttrs`].
pub enum DefinitionsChildModel {
    /// `Count`.
    Count(i32),
    /// `Version`.
    Version(i32),
    /// `ObjectType`.
    ObjectType(Seq<char>),
}

impl View for DefinitionsChildAttrs {
    type V = DefinitionsChildModel;

    open spec fn view(&self) -> DefinitionsChildModel {
        match self {
            DefinitionsChildAttrs::Count(v) => DefinitionsChildModel::Count(*v),
            DefinitionsChildAttrs::Version(v) => DefinitionsChildModel::Version(*v),
            DefinitionsChildAttrs::ObjectType(v) => DefinitionsChildModel::ObjectType(v@),
        }
    }
}

impl DefinitionsChildAttrs {
    /// What loading the attributes of the child called `name` yields.
    #[verifier::opaque]
    pub open spec fn parse(name: Seq<u8>, m: ParserModel, initial_depth: nat) -> (
        ParserModel,
        Result<DefinitionsChildModel, ErrorModel>,
    ) {
        let number = required_attribute(m.read_i32(initial_depth), name);
        if name == "Count".spec_bytes() {
            map_loaded(number, |v: i32| DefinitionsChildModel::Count(v))
        } else if name == "Version".spec_bytes() {
            map_loaded(number, |v: i32| DefinitionsChildModel::Version(v))
        } else if name == "ObjectType".spec_bytes() {
            map_loaded(
                required_attribute(m.read_string(initial_depth), name),
                |v: Seq<char>| DefinitionsChildModel::ObjectType(v),
            )
        } else {
            (m, Err(ErrorModel::UnexpectedNode(name)))
        }
    }

    /// Creates a `DefinitionsChildAttrs` from the given node name.
    pub fn load(name: &[u8], parser: &mut SubtreeParser<'_>) -> (r: Result<
        DefinitionsChildAttrs,
        Error,
    >)
        requires
            old(parser).root@.wf(),
        ensures
            final(parser).initial_depth == old(parser).initial_depth,
            *final(final(parser).root) == *final(old(parser).root),
            final(parser).root@ == Self::parse(
                name@,
                old(parser).root@,
                old(parser).initial_depth as nat,
            ).0,
            final(parser).root@.wf(),
            final(parser).root@.follows(old(parser).root@),
            final(parser).root@.open_nodes == old(parser).root@.open_nodes,
            match Self::parse(name@, old(parser).root@, old(parser).initial_depth as nat).1 {
                Ok(model) => r matches Ok(attrs) && attrs@ == model,
                Err(e) => r matches Err(error) && error@ == e,
            },
    {
        proof {
            reveal(DefinitionsChildAttrs::parse);
        }
        if name_is(name, "Count") {
            match require_attribute(parser.read_i32(), name) {
                Ok(v) => Ok(DefinitionsChildAttrs::Count(v)),
                Err(e) => Err(e),
            }
        } else if name_is(name, "Version") {
            match require_attribute(parser.read_i32(), name) {
                Ok(v) => Ok(DefinitionsChildAttrs::Version(v)),
                Err(e) => Err(e),
            }
        } else if name_is(name, "ObjectType") {
            match require_attribute(parser.read_string(), name) {
                Ok(v) => Ok(DefinitionsChildAttrs::ObjectType(v)),
                Err(e) => Err(e),
            }
        } else {
            Err(Error::UnexpectedNode(vstd::slice::slice_to_vec(name)))
        }
    }
}

/// What the children of a `Definitions` node read so far have given.
pub struct DefinitionsFields {
    /// `Version`.
    pub version: Option<i32>,
    /// `Count`.
    pub count: Option<i32>,
    /// `ObjectType`s, in document order.
    pub object_types: Seq<ObjectTypeModel>,
}

impl DefinitionsFields {
    /// Nothing has been read yet.
    pub open spec fn empty() -> DefinitionsFields {
        DefinitionsFields { version: None, count: None, object_types: Seq::empty() }
    }

    /// The definitions the fields make up, or the error for the first child
    /// that is missing.
    pub open spec fn finish(self) -> Result<DefinitionsModel, ErrorModel> {
        if self.version is None {
            Err(missing("Definitions", "Version"))
        } else if self.count is None {
            Err(missing("Definitions", "Count"))
        } else {
            Ok(
                DefinitionsModel {
                    version: self.version->0,
                    count: self.count->0,
                    object_types: self.object_types,
                },
            )
        }
    }
}

/// Index of the first of `object_types` that is for objects of the type
/// `object_type`.
pub open spec fn first_of_type(object_types: Seq<ObjectType>, object_type: Seq<char>) -> Option<int>
    decreases object_types.len(),
{
    if object_types.len() == 0 {
        None
    } else if object_types[0].object_type@ == object_type {
        Some(0)
    } else {
        match first_of_type(object_types.skip(1), object_type) {
            Some(i) => Some(i + 1),
            None => None,
        }
    }
}

/// The first of the object types is where the type matches and no type before
/// it does.
pub proof fn lemma_first_of_type(object_types: Seq<ObjectType>, object_type: Seq<char>, k: int)
    requires
        0 <= k <= object_types.len(),
        forall|j: int| 0 <= j < k ==> object_types[j].object_type@ != object_type,
        k < object_types.len() ==> object_types[k].object_type@ == object_type,
    ensures
        first_of_type(object_types, object_type) == if k < object_types.len() {
            Some(k)
        } else {
            None
        },
    decreases k,
{
    if k > 0 {
        let rest = object_types.skip(1);
        assert forall|j: int| 0 <= j < k - 1 implies rest[j].object_type@ != object_type by {
            assert(object_types[j + 1].object_type@ != object_type);
        }
        lemma_first_of_type(rest, object_type, k - 1);
    }
}

impl Definitions {
    /// What handling one child of a `Definitions` node yields: `Version` and
    /// `Count` give their value and are skipped, an `ObjectType` is loaded
    /// with its own children.
    pub open spec fn step(initial_depth: nat) -> spec_fn(
        ParserModel,
        Seq<u8>,
        DefinitionsFields,
    ) -> (ParserModel, Result<DefinitionsFields, ErrorModel>) {
        |m: ParserModel, name: Seq<u8>, fields: DefinitionsFields|
            {
                let child = DefinitionsChildAttrs::parse(name, m, initial_depth);
                let skipped = child.0.skip_current_node_within(initial_depth);
                let skip_error = ErrorModel::Parser(skipped.1->Err_0);
                match child.1 {
                    Ok(DefinitionsChildModel::Version(v)) => (
                        skipped.0,
                        if skipped.1 is Ok {
                            Ok(DefinitionsFields { version: Some(v), ..fields })
                        } else {
                            Err(skip_error)
                        },
                    ),
                    Ok(DefinitionsChildModel::Count(v)) => (
                        skipped.0,
                        if skipped.1 is Ok {
                            Ok(DefinitionsFields { count: Some(v), ..fields })
                        } else {
                            Err(skip_error)
                        },
                    ),
                    Ok(DefinitionsChildModel::ObjectType(attrs)) => {
                        let loaded = ObjectType::parse(child.0, child.0.depth(), attrs);
                        (
                            loaded.0,
                            match loaded.1 {
                                Ok(object_type) => Ok(
                                    DefinitionsFields {
                                        object_types: fields.object_types.push(object_type),
                                        ..fields
                                    },
                                ),
                                Err(e) => Err(e),
                            },
                        )
                    },
                    Err(e) => (child.0, Err(e)),
                }
            }
    }

    /// What loading a `Definitions` node yields when the parse stands behind
    /// the start of the node.
    #[verifier::opaque]
    pub open spec fn parse(m: ParserModel, initial_depth: nat) -> (
        ParserModel,
        Result<DefinitionsModel, ErrorModel>,
    ) {
        let folded = fold_children(
            m,
            initial_depth,
            DefinitionsFields::empty(),
            Self::step(initial_depth),
        );
        (
            folded.0,
            match folded.1 {
                Ok(fields) => fields.finish(),
                Err(e) => Err(e),
            },
        )
    }

    /// Loads node contents from the parser.
    #[verifier::loop_isolation(false)]
    pub fn load(mut parser: SubtreeParser<'_>) -> (r: Result<Definitions, Error>)
        requires
            parser.root@.wf(),
            parser.initial_depth > 0,
        ensures
            final(parser.root)@ == Self::parse(old(parser.root)@, parser.initial_depth as nat).0,
            final(parser.root)@.wf(),
            final(parser.root)@.follows(old(parser.root)@),
            match Self::parse(old(parser.root)@, parser.initial_depth as nat).1 {
                Ok(model) => r matches Ok(definitions) && definitions@ == model,
                Err(e) => r matches Err(error) && error@ == e,
            },
    {
        let mut version: Option<i32> = None;
        let mut count: Option<i32> = None;
        let mut object_types: Vec<ObjectType> = Vec::new();
        let ghost start = parser.root@;
        let ghost depth = parser.initial_depth as nat;
        let ghost end = *final(parser.root);
        proof {
            reveal(Definitions::parse);
            assert(object_type_models(object_types@) =~= Seq::empty());
        }

        loop
            invariant
                parser.root@.wf(),
                parser.root@.follows(start),
                parser.initial_depth == depth,
                *final(parser.root) == end,
                fold_children(
                    parser.root@,
                    depth,
                    DefinitionsFields {
                        version,
                        count,
                        object_types: object_type_models(object_types@),
                    },
                    Self::step(depth),
                ) == fold_children(start, depth, DefinitionsFields::empty(), Self::step(depth)),
            decreases parser.root@.unread(),
        {
            let name = match parser.next_child() {
                Ok(Some(name)) => name,
                Ok(None) => {
                    return Ok(
                        Definitions {
                            version: ensure_node_exists(version, "Definitions", "Version")?,
                            count: ensure_node_exists(count, "Definitions", "Count")?,
                            object_types,
                        },
                    );
                },
                Err(e) => {
                    return Err(Error::Parser(e));
                },
            };
            let node_type = match DefinitionsChildAttrs::load(name.as_slice(), &mut parser) {
                Ok(node_type) => node_type,
                Err(e) => {
                    return Err(e);
                },
            };
            match node_type {
                DefinitionsChildAttrs::Version(v) => {
                    version = Some(v);
                    match parser.skip_current_node() {
                        Ok(()) => {},
                        Err(e) => {
                            return Err(Error::Parser(e));
                        },
                    }
                },
                DefinitionsChildAttrs::Count(v) => {
                    count = Some(v);
                    match parser.skip_current_node() {
                        Ok(()) => {},
                        Err(e) => {
                            return Err(Error::Parser(e));
                        },
                    }
                },
                DefinitionsChildAttrs::ObjectType(attrs) => {
                    let ghost before = object_types@;
                    match ObjectType::load(parser.subtree_parser(), attrs) {
                        Ok(object_type) => {
                            object_types.push(object_type);
                            assert(object_type_models(object_types@) =~= object_type_models(
                                before,
                            ).push(object_type@));
                        },
                        Err(e) => {
                            return Err(e);
                        },
                    }
                },
            }
        }
    }

    /// The property template for nodes of the type `node_type` of objects of
    /// the type `object_type`: it is looked up in the first object type of
    /// that name.
    pub open spec fn template_for(&self, object_type: Seq<char>, node_type: Seq<char>) -> Option<
        Properties70,
    > {
        match first_of_type(self.object_types@, object_type) {
            Some(i) => {
                let templates = template_entries(self.object_types@[i].property_template);
                if templates.contains_key(node_type) {
                    Some(templates[node_type])
                } else {
                    None
                }
            },
            None => None,
        }
    }

    /// Returns reference to `Properties70` object of the specified node.
    pub fn get_properties70(&self, object_type: &str, node_type: &str) -> (found: Option<
        &Properties70,
    >)
        ensures
            match self.template_for(object_type@, node_type@) {
                Some(properties) => found == Some(&properties),
                None => found is None,
            },
    {
        let mut i: usize = 0;
        while i < self.object_types.len()
            invariant
                i <= self.object_types.len(),
                forall|j: int| 0 <= j < i ==> self.object_types@[j].object_type@ != object_type@,
            decreases self.object_types.len() - i,
        {
            let t = &self.object_types[i];
            if name_is(t.object_type.as_str().as_bytes(), object_type) {
                proof {
                    vstd::utf8::encode_utf8_decode_utf8(t.object_type@);
                    vstd::utf8::encode_utf8_decode_utf8(object_type@);
                    lemma_first_of_type(self.object_types@, object_type@, i as int);
                }
                return templates_get(&t.property_template, node_type);
            }
            proof {
                if t.object_type@ == object_type@ {
                    assert(vstd::utf8::encode_utf8(t.object_type@) == vstd::utf8::encode_utf8(
                        object_type@,
                    ));
                }
            }
            i = i + 1;
        }
        proof {
            lemma_first_of_type(self.object_types@, object_type@, i as int);
        }
        None
    }

    /// Looks up and returns the property value.
    ///
    /// `f` picks the map of the wanted type from a `Properties70`. The
    /// property is looked up in the map of `props` and, when it is not there,
    /// in the map of the property template for the node.
    pub fn get_property_value<'s, 'p, T, F>(
        &'p self,
        object_type: &'s str,
        node_type: &'s str,
        prop_name: &'s str,
        props: &'p Properties70,
        f: F,
    ) -> (found: Option<&'p PropertyValue<T>>) where
        F: Fn(&'p Properties70) -> &'p PropertyMap<T>,

        requires
            forall|properties: &'p Properties70| f.requires((properties,)),
        ensures
            exists|own: &'p PropertyMap<T>|
                #![auto]
                f.ensures((props,), own) && match last_named(own.entries@, prop_name@) {
                    Some(i) => found == Some(&own.entries@[i]),
                    None => match self.template_for(object_type@, node_type@) {
                        Some(template) => exists|inherited: &'p PropertyMap<T>|
                            #![auto]
                            f.ensures((&template,), inherited) && match last_named(
                                inherited.entries@,
                                prop_name@,
                            ) {
                                Some(i) => found == Some(&inherited.entries@[i]),
                                None => found is None,
                            },
                        None => found is None,
                    },
                },
    {
        let own = f(props);
        match own.get(prop_name) {
            Some(value) => Some(value),
            None => match self.get_properties70(object_type, node_type) {
                Some(template) => {
                    let inherited = f(template);
                    inherited.get(prop_name)
                },
                None => None,
            },
        }
    }
}

/// A `PropertyTemplate` node that has been loaded has been read to its end:
/// the parse stands where skipping the node would have put it.
pub proof fn lemma_property_template_leaves_node(m: ParserModel, d: nat)
    requires
        m.wf(),
        m.state is InDocument,
        m.depth() == d,
        d > 0,
        parse_property_template(m, d).1 is Ok,
    ensures
        m.skip_current_node().1 is Ok,
        parse_property_template(m, d).0 == m.skip_current_node().0,
{
    reveal(parse_property_template);
    let step = property_template_step();
    assert forall|child: ParserModel, name: Seq<u8>, template: Option<Properties70Model>|
        child.wf() && child.state is InDocument && child.depth() == d + 1 && (#[trigger] step(
            child,
            name,
            template,
        )).1 is Ok implies child.skip_current_node().1 is Ok && step(child, name, template).0
        == child.skip_current_node().0 by {
        if Properties70::parse(child, child.depth()).1 is Ok {
            lemma_properties70_leaves_node(child, child.depth());
        }
    }
    lemma_fold_leaves_node(m, d, None::<Properties70Model>, step);
}

/// Loading the attributes of a child of an `ObjectType` node leaves the parse
/// amid the attributes of that child.
pub proof fn lemma_object_type_child_stays(name: Seq<u8>, m: ParserModel, d: nat)
    requires
        m.wf(),
    ensures
        ObjectTypeChildAttrs::parse(name, m, d).0.amid_attributes_of(m),
        ObjectTypeChildAttrs::parse(name, m, d).1 is Ok ==> ObjectTypeChildAttrs::parse(
            name,
            m,
            d,
        ).0.state == m.state,
{
    reveal(ObjectTypeChildAttrs::parse);
    lemma_read_i32_stays(m, d);
    lemma_read_string_stays(m, d);
}

/// An `ObjectType` node that has been loaded has been read to its end: the
/// parse stands where skipping the node would have put it.
pub proof fn lemma_object_type_leaves_node(m: ParserModel, d: nat, object_type: Seq<char>)
    requires
        m.wf(),
        m.state is InDocument,
        m.depth() == d,
        d > 0,
        ObjectType::parse(m, d, object_type).1 is Ok,
    ensures
        m.skip_current_node().1 is Ok,
        ObjectType::parse(m, d, object_type).0 == m.skip_current_node().0,
{
    reveal(ObjectType::parse);
    let step = ObjectType::step(d);
    assert forall|child: ParserModel, name: Seq<u8>, fields: ObjectTypeFields|
        child.wf() && child.state is InDocument && child.depth() == d + 1 && (#[trigger] step(
            child,
            name,
            fields,
        )).1 is Ok implies child.skip_current_node().1 is Ok && step(child, name, fields).0
        == child.skip_current_node().0 by {
        let loaded = ObjectTypeChildAttrs::parse(name, child, d);
        lemma_object_type_child_stays(name, child, d);
        lemma_skip_amid_attributes(loaded.0, child, d);
        if loaded.1 matches Ok(ObjectTypeChildModel::PropertyTemplate(_)) {
            lemma_property_template_leaves_node(loaded.0, loaded.0.depth());
        }
    }
    lemma_fold_leaves_node(m, d, ObjectTypeFields::empty(), step);
}

/// Loading the attributes of a child of a `Definitions` node leaves the parse
/// amid the attributes of that child.
pub proof fn lemma_definitions_child_stays(name: Seq<u8>, m: ParserModel, d: nat)
    requires
        m.wf(),
    ensures
        DefinitionsChildAttrs::parse(name, m, d).0.amid_attributes_of(m),
        DefinitionsChildAttrs::parse(name, m, d).1 is Ok ==> DefinitionsChildAttrs::parse(
            name,
            m,
            d,
        ).0.state == m.state,
{
    reveal(DefinitionsChildAttrs::parse);
    lemma_read_i32_stays(m, d);
    lemma_read_string_stays(m, d);
}

/// A `Definitions` node that has been loaded has been read to its end: the
/// parse stands where skipping the node would have put it.
pub proof fn lemma_definitions_leaves_node(m: ParserModel, d: nat)
    requires
        m.wf(),
        m.state is InDocument,
        m.depth() == d,
        d > 0,
        Definitions::parse(m, d).1 is Ok,
    ensures
        m.skip_current_node().1 is Ok,
        Definitions::parse(m, d).0 == m.skip_current_node().0,
{
    reveal(Definitions::parse);
    let step = Definitions::step(d);
    assert forall|child: ParserModel, name: Seq<u8>, fields: DefinitionsFields|
        child.wf() && child.state is InDocument && child.depth() == d + 1 && (#[trigger] step(
            child,
            name,
            fields,
        )).1 is Ok implies child.skip_current_node().1 is Ok && step(child, name, fields).0
        == child.skip_current_node().0 by {
        let loaded = DefinitionsChildAttrs::parse(name, child, d);
        lemma_definitions_child_stays(name, child, d);
        lemma_skip_amid_attributes(loaded.0, child, d);
        if let Ok(DefinitionsChildModel::ObjectType(attrs)) = loaded.1 {
            lemma_object_type_leaves_node(loaded.0, loaded.0.depth(), attrs);
        }
    }
    lemma_fold_leaves_node(m, d, DefinitionsFields::empty(), step);
}

} // verus!
