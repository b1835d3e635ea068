//! The type renderer: maps one field descriptor to a schema fragment.
//!
//! The declared wire kind is decoded into a closed sum type, so every
//! kind is matched exhaustively. A repeated message field whose target is
//! a synthetic map-entry type renders as an object with an
//! additional-properties schema (the map case takes precedence over the
//! generic repeated wrapping); a dangling enum or message reference
//! degrades to a plain string or a bare reference rather than failing.

use vstd::prelude::*;
use vstd::string::StringExecFns;

use crate::builder::DescriptorIndex;
use crate::builder::spec_name_or;
use crate::builder::spec_normalize;
use crate::builder::normalize_type_name;
use crate::descriptor::EnumDescriptor;
use crate::descriptor::EnumModel;
use crate::descriptor::EnumValueModel;
use crate::descriptor::FieldDescriptor;
use crate::descriptor::FieldModel;
use crate::descriptor::MessageDescriptor;
use crate::descriptor::MessageModel;
use crate::descriptor::spec_is_map_entry;
use crate::descriptor::is_map_entry;
use crate::index::spec_get;
use crate::json::JsonArrBuilder;
use crate::json::JsonModel;
use crate::json::JsonObjBuilder;
use crate::json::JsonValue;
use crate::json::txt;
use crate::json::jbool;

verus! {

broadcast use vstd::std_specs::vec::group_vec_axioms;

/// The declared kind of a field, one case per wire kind.
#[derive(Debug, Clone, Copy, PartialEq, Eq, Structural)]
pub enum FieldKind {
    Double,
    Float,
    Int64,
    Uint64,
    Int32,
    Fixed64,
    Fixed32,
    Bool,
    Str,
    Group,
    Message,
    Bytes,
    Uint32,
    Enum,
    Sfixed32,
    Sfixed64,
    Sint32,
    Sint64,
}

/// The kind encoded by a field's raw type number; an absent or unknown
/// number degrades to the string kind.
pub open spec fn field_kind(t: Option<i32>) -> FieldKind {
    let raw: i32 = match t {
        Some(v) => v,
        None => 0,
    };
    if raw == 1 {
        FieldKind::Double
    } else if raw == 2 {
        FieldKind::Float
    } else if raw == 3 {
        FieldKind::Int64
    } else if raw == 4 {
        FieldKind::Uint64
    } else if raw == 5 {
        FieldKind::Int32
    } else if raw == 6 {
        FieldKind::Fixed64
    } else if raw == 7 {
        FieldKind::Fixed32
    } else if raw == 8 {
        FieldKind::Bool
    } else if raw == 9 {
        FieldKind::Str
    } else if raw == 10 {
        FieldKind::Group
    } else if raw == 11 {
        FieldKind::Message
    } else if raw == 12 {
        FieldKind::Bytes
    } else if raw == 13 {
        FieldKind::Uint32
    } else if raw == 14 {
        FieldKind::Enum
    } else if raw == 15 {
        FieldKind::Sfixed32
    } else if raw == 16 {
        FieldKind::Sfixed64
    } else if raw == 17 {
        FieldKind::Sint32
    } else if raw == 18 {
        FieldKind::Sint64
    } else {
        FieldKind::Str
    }
}

/// Decodes a field's raw type number.
pub fn kind_of(t: &Option<i32>) -> (r: FieldKind)
    ensures
        r == field_kind(*t),
{
    let raw: i32 = match t {
        Some(v) => *v,
        None => 0,
    };
    match raw {
        1 => FieldKind::Double,
        2 => FieldKind::Float,
        3 => FieldKind::Int64,
        4 => FieldKind::Uint64,
        5 => FieldKind::Int32,
        6 => FieldKind::Fixed64,
        7 => FieldKind::Fixed32,
        8 => FieldKind::Bool,
        9 => FieldKind::Str,
        10 => FieldKind::Group,
        11 => FieldKind::Message,
        12 => FieldKind::Bytes,
        13 => FieldKind::Uint32,
        14 => FieldKind::Enum,
        15 => FieldKind::Sfixed32,
        16 => FieldKind::Sfixed64,
        17 => FieldKind::Sint32,
        18 => FieldKind::Sint64,
        _ => FieldKind::Str,
    }
}

/// Whether a field's repetition label is `repeated`.
pub open spec fn spec_is_repeated(label: Option<i32>) -> bool {
    label == Some(3i32)
}

/// Whether a field's repetition label is the legacy `required`.
pub open spec fn spec_is_required(label: Option<i32>) -> bool {
    label == Some(2i32)
}

/// Decides the `repeated` label.
pub fn is_repeated(label: &Option<i32>) -> (r: bool)
    ensures
        r == spec_is_repeated(*label),
{
    match label {
        Some(v) => *v == 3,
        None => false,
    }
}

/// Decides the legacy `required` label.
pub fn is_required(label: &Option<i32>) -> (r: bool)
    ensures
        r == spec_is_required(*label),
{
    match label {
        Some(v) => *v == 2,
        None => false,
    }
}

/// A field's type reference, or empty when none is declared.
pub open spec fn spec_type_ref(f: FieldModel) -> Seq<char> {
    spec_name_or(f.type_ref, Seq::empty())
}

/// The declared value names of an enum, in order.
pub open spec fn names_prefix(values: Seq<EnumValueModel>, n: int) -> Seq<Seq<char>>
    decreases n,
{
    if n <= 0 || n > values.len() {
        Seq::empty()
    } else {
        let rest = names_prefix(values, n - 1);
        match values[n - 1].name {
            Some(nm) => rest.push(nm),
            None => rest,
        }
    }
}

/// The declared value names of an enum, in order.
pub open spec fn enum_value_names(values: Seq<EnumValueModel>) -> Seq<Seq<char>> {
    names_prefix(values, values.len() as int)
}

/// Names as JSON string values.
pub open spec fn names_as_json(names: Seq<Seq<char>>) -> Seq<JsonModel> {
    names.map_values(|n: Seq<char>| JsonModel::Text(n))
}

/// The JSON array of an enum's value names.
pub fn enum_names_json(e: &EnumDescriptor) -> (r: JsonValue)
    ensures
        r@ == JsonModel::Arr(names_as_json(enum_value_names(e@.values))),
{
    let ghost values = e@.values;
    let mut arr = JsonArrBuilder::new();
    let mut i: usize = 0;
    proof {
        assert(values =~= e.values@.map_values(|v: crate::descriptor::EnumValueDescriptor| v@));
        assert(names_as_json(names_prefix(values, 0)) =~= Seq::<JsonModel>::empty());
    }
    while i < e.values.len()
        invariant
            i <= e.values.len(),
            values == e@.values,
            values.len() == e.values@.len(),
            forall|t: int| 0 <= t < values.len() ==> values[t] == e.values@[t]@,
            arr@ == names_as_json(names_prefix(values, i as int)),
        decreases e.values.len() - i,
    {
        match &e.values[i].name {
            Some(nm) => {
                arr.push(txt(nm.as_str()));
                proof {
                    assert(values[i as int].name == Some(nm@));
                    assert(names_as_json(names_prefix(values, i + 1)) =~= names_as_json(
                        names_prefix(values, i as int),
                    ).push(JsonModel::Text(nm@)));
                }
            },
            None => {
                proof {
                    assert(values[i as int].name is None);
                    assert(names_prefix(values, i + 1) == names_prefix(values, i as int));
                }
            },
        }
        i += 1;
    }
    arr.build()
}

/// The reference target of a schema name inside the bridge document.
pub open spec fn spec_ref_target(name: Seq<char>) -> Seq<char> {
    "#/components/schemas/"@ + name
}

/// An object of one key and one string value.
fn obj1(k: &str, v: &str) -> (r: JsonValue)
    ensures
        r@ == JsonModel::Obj(seq![(k@, JsonModel::Text(v@))]),
{
    let mut b = JsonObjBuilder::new();
    b.set(k, txt(v));
    proof {
        assert(b@ =~= seq![(k@, JsonModel::Text(v@))]);
    }
    b.build()
}

/// An object of two keys with string values.
fn obj2(k1: &str, v1: &str, k2: &str, v2: &str) -> (r: JsonValue)
    ensures
        r@ == JsonModel::Obj(
            seq![(k1@, JsonModel::Text(v1@)), (k2@, JsonModel::Text(v2@))],
        ),
{
    let mut b = JsonObjBuilder::new();
    b.set(k1, txt(v1));
    b.set(k2, txt(v2));
    proof {
        assert(b@ =~= seq![(k1@, JsonModel::Text(v1@)), (k2@, JsonModel::Text(v2@))]);
    }
    b.build()
}

/// The schema of a field's base type: scalars map to their JSON type
/// with a format tag keeping the bit width, an enum to a string
/// constrained to its value names (a plain string where the reference
/// dangles), a message to a reference to the target schema.
pub open spec fn spec_base_schema(
    f: FieldModel,
    enums: Seq<(Seq<char>, EnumModel)>,
) -> JsonModel {
    let kind = field_kind(f.field_type);
    if kind == FieldKind::Double {
        JsonModel::Obj(
            seq![
                ("type"@, JsonModel::Text("number"@)),
                ("format"@, JsonModel::Text("double"@)),
            ],
        )
    } else if kind == FieldKind::Float {
        JsonModel::Obj(
            seq![
                ("type"@, JsonModel::Text("number"@)),
                ("format"@, JsonModel::Text("float"@)),
            ],
        )
    } else if kind == FieldKind::Int64 || kind == FieldKind::Sint64 || kind == FieldKind::Sfixed64 {
        JsonModel::Obj(
            seq![
                ("type"@, JsonModel::Text("integer"@)),
                ("format"@, JsonModel::Text("int64"@)),
            ],
        )
    } else if kind == FieldKind::Uint64 || kind == FieldKind::Fixed64 {
        JsonModel::Obj(
            seq![
                ("type"@, JsonModel::Text("integer"@)),
                ("format"@, JsonModel::Text("uint64"@)),
            ],
        )
    } else if kind == FieldKind::Int32 || kind == FieldKind::Sint32 || kind == FieldKind::Sfixed32 {
        JsonModel::Obj(
            seq![
                ("type"@, JsonModel::Text("integer"@)),
                ("format"@, JsonModel::Text("int32"@)),
            ],
        )
    } else if kind == FieldKind::Uint32 || kind == FieldKind::Fixed32 {
        JsonModel::Obj(
            seq![
                ("type"@, JsonModel::Text("integer"@)),
                ("format"@, JsonModel::Text("uint32"@)),
            ],
        )
    } else if kind == FieldKind::Bool {
        JsonModel::Obj(seq![("type"@, JsonModel::Text("boolean"@))])
    } else if kind == FieldKind::Str {
        JsonModel::Obj(seq![("type"@, JsonModel::Text("string"@))])
    } else if kind == FieldKind::Bytes {
        JsonModel::Obj(
            seq![
                ("type"@, JsonModel::Text("string"@)),
                ("format"@, JsonModel::Text("byte"@)),
            ],
        )
    } else if kind == FieldKind::Enum {
        let name = spec_normalize(spec_type_ref(f));
        match spec_get(enums, name) {
            Some(e) => JsonModel::Obj(
                seq![
                    ("type"@, JsonModel::Text("string"@)),
                    ("enum"@, JsonModel::Arr(names_as_json(enum_value_names(e.values)))),
                ],
            ),
            None => JsonModel::Obj(seq![("type"@, JsonModel::Text("string"@))]),
        }
    } else if kind == FieldKind::Message {
        let name = spec_normalize(spec_type_ref(f));
        JsonModel::Obj(seq![("$ref"@, JsonModel::Text(spec_ref_target(name)))])
    } else {
        JsonModel::Obj(seq![("type"@, JsonModel::Text("object"@))])
    }
}

/// Renders the schema of a field's base type.
pub fn base_schema(field: &FieldDescriptor, index: &DescriptorIndex) -> (r: JsonValue)
    ensures
        r@ == spec_base_schema(field@, index@.enums),
{
    let kind = kind_of(&field.field_type);
    match kind {
        FieldKind::Double => obj2("type", "number", "format", "double"),
        FieldKind::Float => obj2("type", "number", "format", "float"),
        FieldKind::Int64 | FieldKind::Sint64 | FieldKind::Sfixed64 => obj2(
            "type",
            "integer",
            "format",
            "int64",
        ),
        FieldKind::Uint64 | FieldKind::Fixed64 => obj2("type", "integer", "format", "uint64"),
        FieldKind::Int32 | FieldKind::Sint32 | FieldKind::Sfixed32 => obj2(
            "type",
            "integer",
            "format",
            "int32",
        ),
        FieldKind::Uint32 | FieldKind::Fixed32 => obj2("type", "integer", "format", "uint32"),
        FieldKind::Bool => obj1("type", "boolean"),
        FieldKind::Str => obj1("type", "string"),
        FieldKind::Bytes => obj2("type", "string", "format", "byte"),
        FieldKind::Enum => {
            let raw = type_ref_str(field);
            let name = normalize_type_name(raw.as_str());
            match index.enums.get(name.as_str()) {
                Some(e) => {
                    let names = enum_names_json(e);
                    let mut b = JsonObjBuilder::new();
                    b.set("type", txt("string"));
                    b.set("enum", names);
                    proof {
                        assert(b@ =~= seq![
                            ("type"@, JsonModel::Text("string"@)),
                            (
                                "enum"@,
                                JsonModel::Arr(names_as_json(enum_value_names(e@.values))),
                            ),
                        ]);
                    }
                    b.build()
                },
                None => obj1("type", "string"),
            }
        },
        FieldKind::Message => {
            let raw = type_ref_str(field);
            let name = normalize_type_name(raw.as_str());
            let mut target = String::from_str("#/components/schemas/");
            target.append(name.as_str());
            let mut b = JsonObjBuilder::new();
            b.set("$ref", txt(target.as_str()));
            proof {
                assert(b@ =~= seq![
                    ("$ref"@, JsonModel::Text(spec_ref_target(spec_normalize(spec_type_ref(field@))))),
                ]);
            }
            b.build()
        },
        FieldKind::Group => obj1("type", "object"),
    }
}

/// The field's type reference, or empty when none is declared.
fn type_ref_str(field: &FieldDescriptor) -> (r: String)
    ensures
        r@ == spec_type_ref(field@),
{
    proof {
        reveal_strlit("");
        assert(""@ =~= Seq::<char>::empty());
    }
    crate::builder::name_or(&field.type_ref, "")
}

/// The first field named `value` of a map-entry message.
pub open spec fn find_value_field(fields: Seq<FieldModel>) -> Option<FieldModel>
    decreases fields.len(),
{
    if fields.len() == 0 {
        None
    } else if fields[0].name == Some("value"@) {
        Some(fields[0])
    } else {
        find_value_field(fields.skip(1))
    }
}

/// The schema of a map field: an object whose additional-properties
/// schema renders the map-entry's `value` field.
pub open spec fn spec_map_field_schema(
    entry: MessageModel,
    enums: Seq<(Seq<char>, EnumModel)>,
) -> JsonModel {
    let value_schema = match find_value_field(entry.fields) {
        Some(v) => spec_base_schema(v, enums),
        None => JsonModel::Obj(seq![("type"@, JsonModel::Text("object"@))]),
    };
    JsonModel::Obj(
        seq![
            ("type"@, JsonModel::Text("object"@)),
            ("additionalProperties"@, value_schema),
            ("x-meld-map"@, JsonModel::Bool(true)),
        ],
    )
}

/// Finds the `value` field of a map-entry message.
fn find_value<'a>(map_entry: &'a MessageDescriptor) -> (r: Option<&'a FieldDescriptor>)
    ensures
        match r {
            Some(f) => find_value_field(map_entry@.fields) == Some(f@),
            None => find_value_field(map_entry@.fields) is None,
        },
{
    let ghost fields = map_entry@.fields;
    let mut i: usize = 0;
    proof {
        assert(fields =~= map_entry.fields@.map_values(|f: FieldDescriptor| f@));
        assert(fields.skip(0) =~= fields);
    }
    while i < map_entry.fields.len()
        invariant
            i <= map_entry.fields.len(),
            fields == map_entry@.fields,
            fields.len() == map_entry.fields@.len(),
            forall|t: int| 0 <= t < fields.len() ==> fields[t] == map_entry.fields@[t]@,
            find_value_field(fields) == find_value_field(fields.skip(i as int)),
        decreases map_entry.fields.len() - i,
    {
        let f = &map_entry.fields[i];
        let is_value = match &f.name {
            Some(n) => crate::strutil::str_eq(n.as_str(), "value"),
            None => false,
        };
        proof {
            assert(fields.skip(i as int)[0] == fields[i as int]);
            assert(fields.skip(i as int).skip(1) =~= fields.skip(i + 1));
        }
        if is_value {
            assert(fields[i as int].name == Some("value"@));
            assert(find_value_field(fields) == Some(fields[i as int]));
            return Some(f);
        }
        assert(fields[i as int].name != Some("value"@));
        i += 1;
    }
    assert(fields.skip(map_entry.fields@.len() as int) =~= Seq::<FieldModel>::empty());
    None
}

/// Renders the schema of a map field from its map-entry message.
pub fn map_field_schema(map_entry: &MessageDescriptor, index: &DescriptorIndex) -> (r: JsonValue)
    ensures
        r@ == spec_map_field_schema(map_entry@, index@.enums),
{
    let value_field = find_value(map_entry);
    let value_schema = match value_field {
        Some(v) => base_schema(v, index),
        None => obj1("type", "object"),
    };
    let mut b = JsonObjBuilder::new();
    b.set("type", txt("object"));
    b.set("additionalProperties", value_schema);
    b.set("x-meld-map", jbool(true));
    proof {
        assert(b@ =~= seq![
            ("type"@, JsonModel::Text("object"@)),
            ("additionalProperties"@, value_schema@),
            ("x-meld-map"@, JsonModel::Bool(true)),
        ]);
    }
    b.build()
}

/// The schema of one field: the map case first, then the base type,
/// wrapped as an array when the field is repeated.
pub open spec fn spec_field_schema(
    f: FieldModel,
    messages: Seq<(Seq<char>, MessageModel)>,
    enums: Seq<(Seq<char>, EnumModel)>,
) -> JsonModel {
    let repeated = spec_is_repeated(f.label);
    let kind = field_kind(f.field_type);
    let map_case = if repeated && kind == FieldKind::Message && f.type_ref is Some {
        match spec_get(messages, spec_normalize(f.type_ref->0)) {
            Some(m) => if spec_is_map_entry(m) {
                Some(spec_map_field_schema(m, enums))
            } else {
                None
            },
            None => None,
        }
    } else {
        None
    };
    match map_case {
        Some(schema) => schema,
        None => {
            let base = spec_base_schema(f, enums);
            if repeated {
                JsonModel::Obj(
                    seq![
                        ("type"@, JsonModel::Text("array"@)),
                        ("items"@, base),
                    ],
                )
            } else {
                base
            }
        },
    }
}

/// Renders the schema of one field.
pub fn field_schema(field: &FieldDescriptor, index: &DescriptorIndex) -> (r: JsonValue)
    ensures
        r@ == spec_field_schema(field@, index@.messages, index@.enums),
{
    let repeated = is_repeated(&field.label);
    let kind = kind_of(&field.field_type);
    if repeated && kind == FieldKind::Message {
        match &field.type_ref {
            Some(tn) => {
                let message_name = normalize_type_name(tn.as_str());
                match index.messages.get(message_name.as_str()) {
                    Some(msg) => {
                        if is_map_entry(msg) {
                            return map_field_schema(msg, index);
                        }
                    },
                    None => {},
                }
            },
            None => {},
        }
    }
    let base = base_schema(field, index);
    if repeated {
        let mut b = JsonObjBuilder::new();
        b.set("type", txt("array"));
        b.set("items", base);
        proof {
            assert(b@ =~= seq![
                ("type"@, JsonModel::Text("array"@)),
                ("items"@, spec_base_schema(field@, index@.enums)),
            ]);
        }
        b.build()
    } else {
        base
    }
}

/// The human-readable name of a field's type: the qualified reference
/// for messages and enums, the wire kind's name otherwise.
pub open spec fn spec_readable_field_type(f: FieldModel) -> Seq<char> {
    let kind = field_kind(f.field_type);
    if kind == FieldKind::Message || kind == FieldKind::Enum {
        spec_normalize(spec_type_ref(f))
    } else if kind == FieldKind::Double {
        "double"@
    } else if kind == FieldKind::Float {
        "float"@
    } else if kind == FieldKind::Int64 {
        "int64"@
    } else if kind == FieldKind::Uint64 {
        "uint64"@
    } else if kind == FieldKind::Int32 {
        "int32"@
    } else if kind == FieldKind::Fixed64 {
        "fixed64"@
    } else if kind == FieldKind::Fixed32 {
        "fixed32"@
    } else if kind == FieldKind::Bool {
        "bool"@
    } else if kind == FieldKind::Str {
        "string"@
    } else if kind == FieldKind::Group {
        "group"@
    } else if kind == FieldKind::Bytes {
        "bytes"@
    } else if kind == FieldKind::Uint32 {
        "uint32"@
    } else if kind == FieldKind::Sfixed32 {
        "sfixed32"@
    } else if kind == FieldKind::Sfixed64 {
        "sfixed64"@
    } else if kind == FieldKind::Sint32 {
        "sint32"@
    } else {
        "sint64"@
    }
}

/// The human-readable name of a field's type.
pub fn readable_field_type(field: &FieldDescriptor) -> (r: String)
    ensures
        r@ == spec_readable_field_type(field@),
{
    let kind = kind_of(&field.field_type);
    match kind {
        FieldKind::Message | FieldKind::Enum => {
            let raw = type_ref_str(field);
            normalize_type_name(raw.as_str())
        },
        FieldKind::Double => String::from_str("double"),
        FieldKind::Float => String::from_str("float"),
        FieldKind::Int64 => String::from_str("int64"),
        FieldKind::Uint64 => String::from_str("uint64"),
        FieldKind::Int32 => String::from_str("int32"),
        FieldKind::Fixed64 => String::from_str("fixed64"),
        FieldKind::Fixed32 => String::from_str("fixed32"),
        FieldKind::Bool => String::from_str("bool"),
        FieldKind::Str => String::from_str("string"),
        FieldKind::Group => String::from_str("group"),
        FieldKind::Bytes => String::from_str("bytes"),
        FieldKind::Uint32 => String::from_str("uint32"),
        FieldKind::Sfixed32 => String::from_str("sfixed32"),
        FieldKind::Sfixed64 => String::from_str("sfixed64"),
        FieldKind::Sint32 => String::from_str("sint32"),
        FieldKind::Sint64 => String::from_str("sint64"),
    }
}

} // verus!
