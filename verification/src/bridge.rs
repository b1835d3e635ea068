//! The schema bridge generator: one schema object per non-map-entry
//! message and per enum, one path entry per RPC method, with vendor
//! extension metadata (`x-meld-…` keys) for streaming flags, `oneof`
//! groups and map markers.
//!
//! Both top-level mappings — paths and schemas — are tables sorted by
//! key, so regenerating from an unchanged input yields identical output.

use vstd::prelude::*;
use vstd::string::StrSliceExecFns;
use vstd::string::StringExecFns;

use crate::builder::DescriptorIndex;
use crate::builder::name_or;
use crate::builder::normalize_type_name;
use crate::builder::spec_name_or;
use crate::builder::spec_normalize;
use crate::descriptor::EnumModel;
use crate::descriptor::FieldModel;
use crate::descriptor::MessageDescriptor;
use crate::descriptor::MessageModel;
use crate::descriptor::MethodModel;
use crate::descriptor::OneofModel;
use crate::descriptor::ServiceModel;
use crate::descriptor::spec_is_map_entry;
use crate::index::OrderedTable;
use crate::index::spec_get;
use crate::index::spec_put;
use crate::json::JsonModel;
use crate::json::JsonObjBuilder;
use crate::json::JsonValue;
use crate::json::jbool;
use crate::json::txt;
use crate::render::spec_field_schema;
use crate::render::spec_is_required;
use crate::render::field_schema;
use crate::render::is_required;
use crate::strutil::dec_int;
use crate::strutil::i64_to_dec;

verus! {

broadcast use vstd::std_specs::vec::group_vec_axioms;

/// The wire route of one method: the package-qualified service, then the
/// method name.
pub open spec fn spec_grpc_path(pkg: Seq<char>, service: Seq<char>, method: Seq<char>) -> Seq<char> {
    if pkg.len() == 0 {
        seq!['/'] + service + seq!['/'] + method
    } else {
        seq!['/'] + pkg + seq!['.'] + service + seq!['/'] + method
    }
}

/// Builds the wire route of one method.
pub fn grpc_path(pkg: &str, service: &str, method: &str) -> (r: String)
    ensures
        r@ == spec_grpc_path(pkg@, service@, method@),
{
    proof {
        reveal_strlit("/");
        reveal_strlit(".");
        assert("/"@ =~= seq!['/']);
        assert("."@ =~= seq!['.']);
    }
    let mut s = String::from_str("/");
    if pkg.unicode_len() > 0 {
        s.append(pkg);
        s.append(".");
    }
    s.append(service);
    s.append("/");
    s.append(method);
    proof {
        if pkg@.len() == 0 {
            assert(s@ =~= seq!['/'] + service@ + seq!['/'] + method@);
        } else {
            assert(s@ =~= seq!['/'] + pkg@ + seq!['.'] + service@ + seq!['/'] + method@);
        }
    }
    s
}

/// The position after the last separator among the first `n` characters,
/// or zero when there is none.
pub open spec fn after_last_dot(s: Seq<char>, n: int) -> int
    decreases n,
{
    if n <= 0 {
        0
    } else if s[n - 1] == '.' {
        n
    } else {
        after_last_dot(s, n - 1)
    }
}

/// The package part of a registered service name: everything before the
/// last separator, or empty when there is none.
pub open spec fn spec_service_package(full: Seq<char>) -> Seq<char> {
    let k = after_last_dot(full, full.len() as int);
    if k == 0 {
        Seq::empty()
    } else {
        full.take(k - 1)
    }
}

/// The local part of a registered service name: everything after the
/// last separator.
pub open spec fn spec_service_local(full: Seq<char>) -> Seq<char> {
    let k = after_last_dot(full, full.len() as int);
    full.skip(k)
}

/// Splits a registered service name into package and local name at the
/// last separator.
pub fn split_service_name(full: &str) -> (r: (String, String))
    ensures
        r.0@ == spec_service_package(full@),
        r.1@ == spec_service_local(full@),
{
    let n = full.unicode_len();
    let mut k: usize = 0;
    let mut i: usize = 0;
    while i < n
        invariant
            n == full@.len(),
            i <= n,
            k == after_last_dot(full@, i as int),
            k <= i,
        decreases n - i,
    {
        if full.get_char(i) == '.' {
            k = i + 1;
        }
        i += 1;
    }
    if k == 0 {
        proof {
            reveal_strlit("");
            assert(""@ =~= Seq::<char>::empty());
        }
        (String::from_str(""), full.to_owned())
    } else {
        let pkg = full.substring_char(0, k - 1).to_owned();
        let local = full.substring_char(k, n).to_owned();
        proof {
            assert(pkg@ =~= full@.take(k - 1));
            assert(local@ =~= full@.skip(k as int));
        }
        (pkg, local)
    }
}

/// An ordered list of names, the members of one `oneof` group.
#[derive(Debug)]
pub struct NameList {
    pub items: Vec<String>,
}

impl View for NameList {
    type V = Seq<Seq<char>>;

    open spec fn view(&self) -> Seq<Seq<char>> {
        self.items@.map_values(|s: String| s@)
    }
}

impl NameList {
    /// An empty list.
    pub fn new() -> (r: NameList)
        ensures
            r@ =~= Seq::<Seq<char>>::empty(),
    {
        NameList { items: Vec::new() }
    }

    /// Appends one name.
    pub fn push(&mut self, name: String)
        ensures
            final(self)@ == old(self)@.push(name@),
    {
        self.items.push(name);
        proof {
            assert(self@ =~= old(self)@.push(name@));
        }
    }
}

/// The name of the `oneof` group a field points at: the declared name
/// where the index is in range and a name is present, a synthetic
/// `oneof_N` name otherwise.
pub open spec fn spec_group_name(oneofs: Seq<OneofModel>, idx: int) -> Seq<char> {
    let synthetic = "oneof_"@ + dec_int(idx);
    if 0 <= idx < oneofs.len() {
        spec_name_or(oneofs[idx].name, synthetic)
    } else {
        synthetic
    }
}

/// Resolves the name of a `oneof` group.
pub fn group_name(message: &MessageDescriptor, idx: i32) -> (r: String)
    ensures
        r@ == spec_group_name(message@.oneofs, idx as int),
{
    proof {
        reveal_strlit("oneof_");
    }
    let mut synthetic = String::from_str("oneof_");
    synthetic.append(i64_to_dec(idx as i64).as_str());
    assert(synthetic@ == "oneof_"@ + dec_int(idx as int));
    let ghost oneofs = message@.oneofs;
    proof {
        assert(oneofs =~= message.oneofs@.map_values(
            |o: crate::descriptor::OneofDescriptor| o@,
        ));
    }
    if idx >= 0 && (idx as usize) < message.oneofs.len() {
        let i = idx as usize;
        assert(oneofs[idx as int] == message.oneofs@[idx as int]@);
        match &message.oneofs[i].name {
            Some(n) => n.clone(),
            None => synthetic,
        }
    } else {
        synthetic
    }
}

/// A group's member list extended with one more field name.
pub open spec fn oneof_put(
    s: Seq<(Seq<char>, Seq<Seq<char>>)>,
    group: Seq<char>,
    field: Seq<char>,
) -> Seq<(Seq<char>, Seq<Seq<char>>)> {
    let existing = match spec_get(s, group) {
        Some(names) => names,
        None => Seq::empty(),
    };
    spec_put(s, group, existing.push(field))
}

/// Appends a field name to its `oneof` group, creating the group when it
/// is new.
pub fn oneof_add(map: &mut OrderedTable<NameList>, group: String, field: String)
    requires
        old(map).wf(),
    ensures
        final(map).wf(),
        final(map)@ == oneof_put(old(map)@, group@, field@),
{
    let mut list = match map.get(group.as_str()) {
        Some(existing) => NameList { items: existing.items.clone() },
        None => NameList::new(),
    };
    proof {
        match spec_get(map@, group@) {
            Some(names) => {
                assert(list@ =~= names);
            },
            None => {
                assert(list@ =~= Seq::<Seq<char>>::empty());
            },
        }
    }
    list.push(field);
    map.insert(group, list);
}

/// A field's name, or its placeholder.
pub open spec fn spec_field_name(f: FieldModel) -> Seq<char> {
    spec_name_or(f.name, "unknown_field"@)
}

/// The properties of a message schema after the first `n` fields: each
/// field's rendering, keyed by field name.
pub open spec fn props_prefix(
    fields: Seq<FieldModel>,
    n: int,
    messages: Seq<(Seq<char>, MessageModel)>,
    enums: Seq<(Seq<char>, EnumModel)>,
) -> Seq<(Seq<char>, JsonModel)>
    decreases n,
{
    if n <= 0 || n > fields.len() {
        Seq::empty()
    } else {
        spec_put(
            props_prefix(fields, n - 1, messages, enums),
            spec_field_name(fields[n - 1]),
            spec_field_schema(fields[n - 1], messages, enums),
        )
    }
}

/// The required-list of a message schema after the first `n` fields: the
/// names of fields carrying the legacy `required` label, in order.
pub open spec fn required_prefix(fields: Seq<FieldModel>, n: int) -> Seq<Seq<char>>
    decreases n,
{
    if n <= 0 || n > fields.len() {
        Seq::empty()
    } else {
        let rest = required_prefix(fields, n - 1);
        if spec_is_required(fields[n - 1].label) {
            rest.push(spec_field_name(fields[n - 1]))
        } else {
            rest
        }
    }
}

/// The `oneof` grouping of a message schema after the first `n` fields:
/// member names grouped by group name.
pub open spec fn oneofs_prefix(
    fields: Seq<FieldModel>,
    n: int,
    oneofs: Seq<OneofModel>,
) -> Seq<(Seq<char>, Seq<Seq<char>>)>
    decreases n,
{
    if n <= 0 || n > fields.len() {
        Seq::empty()
    } else {
        let rest = oneofs_prefix(fields, n - 1, oneofs);
        match fields[n - 1].oneof_index {
            Some(gi) => oneof_put(rest, spec_group_name(oneofs, gi as int), spec_field_name(fields[n - 1])),
            None => rest,
        }
    }
}

/// Groups as a JSON object: each group's members as a string array.
pub open spec fn groups_as_json(groups: Seq<(Seq<char>, Seq<Seq<char>>)>) -> Seq<
    (Seq<char>, JsonModel),
> {
    groups.map_values(
        |g: (Seq<char>, Seq<Seq<char>>)| (g.0, JsonModel::Arr(crate::render::names_as_json(g.1))),
    )
}

/// The schema of one message: an object schema with every field rendered
/// under its name, the legacy required-list, the `oneof` grouping and the
/// map-entry marker as vendor extensions, and the originating
/// fully-qualified name for traceability.
pub open spec fn spec_message_schema(
    name: Seq<char>,
    m: MessageModel,
    messages: Seq<(Seq<char>, MessageModel)>,
    enums: Seq<(Seq<char>, EnumModel)>,
) -> JsonModel {
    let props = props_prefix(m.fields, m.fields.len() as int, messages, enums);
    let required = required_prefix(m.fields, m.fields.len() as int);
    let groups = oneofs_prefix(m.fields, m.fields.len() as int, m.oneofs);
    let base = seq![
        ("type"@, JsonModel::Text("object"@)),
        ("properties"@, JsonModel::Obj(props)),
    ];
    let e1 = if required.len() > 0 {
        base.push(("required"@, JsonModel::Arr(crate::render::names_as_json(required))))
    } else {
        base
    };
    let e2 = if groups.len() > 0 {
        e1.push(("x-meld-oneof"@, JsonModel::Obj(groups_as_json(groups))))
    } else {
        e1
    };
    let e3 = if spec_is_map_entry(m) {
        e2.push(("x-meld-map-entry"@, JsonModel::Bool(true)))
    } else {
        e2
    };
    JsonModel::Obj(e3.push(("x-meld-message"@, JsonModel::Text(name))))
}

/// The members of one group as a JSON string array.
fn names_arr(list: &NameList) -> (r: JsonValue)
    ensures
        r@ == JsonModel::Arr(crate::render::names_as_json(list@)),
{
    let mut arr = crate::json::JsonArrBuilder::new();
    let mut i: usize = 0;
    proof {
        assert(crate::render::names_as_json(list@.take(0)) =~= Seq::<JsonModel>::empty());
    }
    while i < list.items.len()
        invariant
            i <= list.items.len(),
            list@.len() == list.items@.len(),
            forall|t: int| 0 <= t < list@.len() ==> list@[t] == list.items@[t]@,
            arr@ == crate::render::names_as_json(list@.take(i as int)),
        decreases list.items.len() - i,
    {
        arr.push(txt(list.items[i].as_str()));
        proof {
            assert(crate::render::names_as_json(list@.take(i + 1)) =~= crate::render::names_as_json(
                list@.take(i as int),
            ).push(JsonModel::Text(list@[i as int])));
        }
        i += 1;
    }
    assert(list@.take(list.items@.len() as int) =~= list@);
    arr.build()
}

/// The whole grouping as a JSON object.
fn groups_obj(map: &OrderedTable<NameList>) -> (r: JsonValue)
    ensures
        r@ == JsonModel::Obj(groups_as_json(map@)),
{
    let mut b = JsonObjBuilder::new();
    let mut i: usize = 0;
    proof {
        assert(groups_as_json(map@.take(0)) =~= Seq::<(Seq<char>, JsonModel)>::empty());
    }
    while i < map.entries.len()
        invariant
            i <= map.entries.len(),
            map@.len() == map.entries@.len(),
            forall|t: int|
                0 <= t < map@.len() ==> map@[t] == (map.entries@[t].0@, map.entries@[t].1@),
            b@ == groups_as_json(map@.take(i as int)),
        decreases map.entries.len() - i,
    {
        let value = names_arr(&map.entries[i].1);
        b.set(map.entries[i].0.as_str(), value);
        proof {
            assert(groups_as_json(map@.take(i + 1)) =~= groups_as_json(map@.take(i as int)).push(
                (map@[i as int].0, JsonModel::Arr(crate::render::names_as_json(map@[i as int].1))),
            ));
        }
        i += 1;
    }
    assert(map@.take(map.entries@.len() as int) =~= map@);
    b.build()
}

/// Renders the schema of one message.
pub fn message_schema(name: &str, message: &MessageDescriptor, index: &DescriptorIndex) -> (r:
    JsonValue)
    ensures
        r@ == spec_message_schema(name@, message@, index@.messages, index@.enums),
{
    let ghost fields = message@.fields;
    let ghost oneofs = message@.oneofs;
    let ghost messages_m = index@.messages;
    let ghost enums_m = index@.enums;

    let mut props: OrderedTable<JsonValue> = OrderedTable::new();
    let mut required_arr = crate::json::JsonArrBuilder::new();
    let mut required_count: usize = 0;
    let mut oneof_map: OrderedTable<NameList> = OrderedTable::new();

    let mut i: usize = 0;
    proof {
        assert(fields =~= message.fields@.map_values(
            |f: crate::descriptor::FieldDescriptor| f@,
        ));
        assert(props@ =~= props_prefix(fields, 0, messages_m, enums_m));
        assert(required_arr@ =~= crate::render::names_as_json(required_prefix(fields, 0)));
        assert(oneof_map@ =~= oneofs_prefix(fields, 0, oneofs));
    }
    while i < message.fields.len()
        invariant
            i <= message.fields.len(),
            fields == message@.fields,
            oneofs == message@.oneofs,
            messages_m == index@.messages,
            enums_m == index@.enums,
            fields.len() == message.fields@.len(),
            forall|t: int| 0 <= t < fields.len() ==> fields[t] == message.fields@[t]@,
            props.wf(),
            oneof_map.wf(),
            props@ == props_prefix(fields, i as int, messages_m, enums_m),
            required_arr@ == crate::render::names_as_json(required_prefix(fields, i as int)),
            required_count == required_prefix(fields, i as int).len(),
            required_count <= i,
            oneof_map@ == oneofs_prefix(fields, i as int, oneofs),
        decreases message.fields.len() - i,
    {
        let f = &message.fields[i];
        let field_name = name_or(&f.name, "unknown_field");
        assert(field_name@ == spec_field_name(fields[i as int]));

        if is_required(&f.label) {
            required_arr.push(txt(field_name.as_str()));
            required_count += 1;
            proof {
                assert(crate::render::names_as_json(required_prefix(fields, i + 1))
                    =~= crate::render::names_as_json(required_prefix(fields, i as int)).push(
                    JsonModel::Text(field_name@),
                ));
            }
        } else {
            assert(required_prefix(fields, i + 1) == required_prefix(fields, i as int));
        }

        match &f.oneof_index {
            Some(gi) => {
                let group = group_name(message, *gi);
                oneof_add(&mut oneof_map, group, field_name.clone());
            },
            None => {
                assert(oneofs_prefix(fields, i + 1, oneofs) == oneofs_prefix(
                    fields,
                    i as int,
                    oneofs,
                ));
            },
        }

        let schema = field_schema(f, index);
        props.insert(field_name, schema);
        i += 1;
    }

    let mut b = JsonObjBuilder::new();
    b.set("type", txt("object"));
    let props_json = JsonValue::Obj(props.entries);
    proof {
        crate::json::lemma_json_entry_list_model(props.entries@);
        assert(props_json@ == JsonModel::Obj(crate::json::json_entry_list_model(props.entries@)));
        assert(crate::json::json_entry_list_model(props.entries@) =~= props@);
    }
    b.set("properties", props_json);
    let ghost base = seq![
        ("type"@, JsonModel::Text("object"@)),
        ("properties"@, JsonModel::Obj(props_prefix(fields, fields.len() as int, messages_m, enums_m))),
    ];
    assert(b@ =~= base);
    if required_count > 0 {
        b.set("required", required_arr.build());
    }
    if oneof_map.len() > 0 {
        let groups = groups_obj(&oneof_map);
        b.set("x-meld-oneof", groups);
    }
    if crate::descriptor::is_map_entry(message) {
        b.set("x-meld-map-entry", jbool(true));
    }
    b.set("x-meld-message", txt(name));
    let r = b.build();
    assert(r@ == spec_message_schema(name@, message@, messages_m, enums_m));
    r
}

/// The schema of one enum: a string constrained to the declared value
/// names.
pub open spec fn spec_enum_schema(e: EnumModel) -> JsonModel {
    JsonModel::Obj(
        seq![
            ("type"@, JsonModel::Text("string"@)),
            ("enum"@, JsonModel::Arr(crate::render::names_as_json(
                crate::render::enum_value_names(e.values),
            ))),
        ],
    )
}

/// Renders the schema of one enum.
pub fn enum_schema(e: &crate::descriptor::EnumDescriptor) -> (r: JsonValue)
    ensures
        r@ == spec_enum_schema(e@),
{
    let names = crate::render::enum_names_json(e);
    let mut b = JsonObjBuilder::new();
    b.set("type", txt("string"));
    b.set("enum", names);
    proof {
        assert(b@ =~= seq![
            ("type"@, JsonModel::Text("string"@)),
            ("enum"@, JsonModel::Arr(crate::render::names_as_json(
                crate::render::enum_value_names(e@.values),
            ))),
        ]);
    }
    b.build()
}

/// The schemas table after the first `n` registered messages: one schema
/// per message, map-entry messages excluded.
pub open spec fn schemas_msgs_prefix(
    t: Seq<(Seq<char>, JsonModel)>,
    msgs: Seq<(Seq<char>, MessageModel)>,
    n: int,
    messages: Seq<(Seq<char>, MessageModel)>,
    enums: Seq<(Seq<char>, EnumModel)>,
) -> Seq<(Seq<char>, JsonModel)>
    decreases n,
{
    if n <= 0 || n > msgs.len() {
        t
    } else {
        let prev = schemas_msgs_prefix(t, msgs, n - 1, messages, enums);
        if spec_is_map_entry(msgs[n - 1].1) {
            prev
        } else {
            spec_put(
                prev,
                msgs[n - 1].0,
                spec_message_schema(msgs[n - 1].0, msgs[n - 1].1, messages, enums),
            )
        }
    }
}

/// The schemas table after the first `n` registered enums.
pub open spec fn schemas_enums_prefix(
    t: Seq<(Seq<char>, JsonModel)>,
    es: Seq<(Seq<char>, EnumModel)>,
    n: int,
) -> Seq<(Seq<char>, JsonModel)>
    decreases n,
{
    if n <= 0 || n > es.len() {
        t
    } else {
        spec_put(schemas_enums_prefix(t, es, n - 1), es[n - 1].0, spec_enum_schema(es[n - 1].1))
    }
}

/// All schemas of an index: its non-map-entry messages, then its enums.
pub open spec fn spec_schemas(
    messages: Seq<(Seq<char>, MessageModel)>,
    enums: Seq<(Seq<char>, EnumModel)>,
) -> Seq<(Seq<char>, JsonModel)> {
    schemas_enums_prefix(
        schemas_msgs_prefix(Seq::empty(), messages, messages.len() as int, messages, enums),
        enums,
        enums.len() as int,
    )
}

/// The path entry of one method: a verb-style operation whose request
/// body and success response reference the input and output schemas, and
/// whose vendor extension records package, service, method and both
/// streaming flags.
pub open spec fn spec_method_entry(pkg: Seq<char>, service: Seq<char>, m: MethodModel) -> JsonModel {
    let method_name = spec_name_or(m.name, "UnknownMethod"@);
    let input = spec_normalize(spec_name_or(m.input_type, Seq::empty()));
    let output = spec_normalize(spec_name_or(m.output_type, Seq::empty()));
    let request_body = JsonModel::Obj(
        seq![
            ("required"@, JsonModel::Bool(true)),
            ("content"@, JsonModel::Obj(
                seq![
                    ("application/grpc+proto"@, JsonModel::Obj(
                        seq![
                            ("schema"@, JsonModel::Obj(
                                seq![("$ref"@, JsonModel::Text(crate::render::spec_ref_target(input)))],
                            )),
                        ],
                    )),
                ],
            )),
        ],
    );
    let responses = JsonModel::Obj(
        seq![
            ("200"@, JsonModel::Obj(
                seq![
                    ("description"@, JsonModel::Text("gRPC success response payload shape"@)),
                    ("content"@, JsonModel::Obj(
                        seq![
                            ("application/grpc+proto"@, JsonModel::Obj(
                                seq![
                                    ("schema"@, JsonModel::Obj(
                                        seq![("$ref"@, JsonModel::Text(crate::render::spec_ref_target(output)))],
                                    )),
                                ],
                            )),
                        ],
                    )),
                ],
            )),
        ],
    );
    let extension = JsonModel::Obj(
        seq![
            ("package"@, JsonModel::Text(pkg)),
            ("service"@, JsonModel::Text(service)),
            ("method"@, JsonModel::Text(method_name)),
            ("client_streaming"@, JsonModel::Bool(
                match m.client_streaming {
                    Some(b) => b,
                    None => false,
                },
            )),
            ("server_streaming"@, JsonModel::Bool(
                match m.server_streaming {
                    Some(b) => b,
                    None => false,
                },
            )),
        ],
    );
    JsonModel::Obj(
        seq![
            ("post"@, JsonModel::Obj(
                seq![
                    ("summary"@, JsonModel::Text(service + seq!['.'] + method_name)),
                    ("description"@, JsonModel::Text(
                        "Swagger-compatible bridge for gRPC method contract discovery."@,
                    )),
                    ("requestBody"@, request_body),
                    ("responses"@, responses),
                    ("x-meld-grpc"@, extension),
                ],
            )),
        ],
    )
}

/// The paths table after the first `n` methods of one service.
pub open spec fn paths_methods_prefix(
    t: Seq<(Seq<char>, JsonModel)>,
    pkg: Seq<char>,
    service: Seq<char>,
    methods: Seq<MethodModel>,
    n: int,
) -> Seq<(Seq<char>, JsonModel)>
    decreases n,
{
    if n <= 0 || n > methods.len() {
        t
    } else {
        spec_put(
            paths_methods_prefix(t, pkg, service, methods, n - 1),
            spec_grpc_path(pkg, service, spec_name_or(methods[n - 1].name, "UnknownMethod"@)),
            spec_method_entry(pkg, service, methods[n - 1]),
        )
    }
}

/// The paths table after the first `n` registered services.
pub open spec fn paths_services_prefix(
    t: Seq<(Seq<char>, JsonModel)>,
    services: Seq<(Seq<char>, ServiceModel)>,
    n: int,
) -> Seq<(Seq<char>, JsonModel)>
    decreases n,
{
    if n <= 0 || n > services.len() {
        t
    } else {
        let prev = paths_services_prefix(t, services, n - 1);
        let full = services[n - 1].0;
        let pkg = spec_service_package(full);
        let local = spec_service_local(full);
        let methods = services[n - 1].1.methods;
        paths_methods_prefix(prev, pkg, local, methods, methods.len() as int)
    }
}

/// All paths of an index.
pub open spec fn spec_paths(services: Seq<(Seq<char>, ServiceModel)>) -> Seq<
    (Seq<char>, JsonModel),
> {
    paths_services_prefix(Seq::empty(), services, services.len() as int)
}

/// The whole schema bridge document of a built index.
pub open spec fn spec_openapi_bridge(ix: crate::builder::IndexModel) -> JsonModel {
    JsonModel::Obj(
        seq![
            ("openapi"@, JsonModel::Text("3.0.3"@)),
            ("info"@, JsonModel::Obj(
                seq![
                    ("title"@, JsonModel::Text("Meld gRPC Contract Bridge"@)),
                    ("version"@, JsonModel::Text("0.1.0"@)),
                    ("description"@, JsonModel::Text(
                        "Swagger-compatible contract view generated from protobuf descriptors."@,
                    )),
                ],
            )),
            ("paths"@, JsonModel::Obj(spec_paths(ix.services))),
            ("components"@, JsonModel::Obj(
                seq![("schemas"@, JsonModel::Obj(spec_schemas(ix.messages, ix.enums)))],
            )),
        ],
    )
}

/// A reference object to one schema.
fn ref_obj(name: &str) -> (r: JsonValue)
    ensures
        r@ == JsonModel::Obj(
            seq![("$ref"@, JsonModel::Text(crate::render::spec_ref_target(name@)))],
        ),
{
    let mut target = String::from_str("#/components/schemas/");
    target.append(name);
    let mut b = JsonObjBuilder::new();
    b.set("$ref", txt(target.as_str()));
    proof {
        assert(b@ =~= seq![
            ("$ref"@, JsonModel::Text(crate::render::spec_ref_target(name@))),
        ]);
    }
    b.build()
}

/// A content object carrying one schema reference under the gRPC media
/// type.
fn media_content_obj(name: &str) -> (r: JsonValue)
    ensures
        r@ == JsonModel::Obj(
            seq![
                ("application/grpc+proto"@, JsonModel::Obj(
                    seq![
                        ("schema"@, JsonModel::Obj(
                            seq![("$ref"@, JsonModel::Text(crate::render::spec_ref_target(name@)))],
                        )),
                    ],
                )),
            ],
        ),
{
    let schema_ref = ref_obj(name);
    let mut schema = JsonObjBuilder::new();
    schema.set("schema", schema_ref);
    let mut b = JsonObjBuilder::new();
    let ghost schema_m = schema@;
    b.set("application/grpc+proto", schema.build());
    proof {
        assert(schema_m =~= seq![
            ("schema"@, JsonModel::Obj(
                seq![("$ref"@, JsonModel::Text(crate::render::spec_ref_target(name@)))],
            )),
        ]);
        assert(b@ =~= seq![("application/grpc+proto"@, JsonModel::Obj(schema_m))]);
    }
    b.build()
}

/// Renders the path entry of one method.
pub fn method_entry(pkg: &str, service: &str, method: &crate::descriptor::MethodDescriptor) -> (r:
    JsonValue)
    ensures
        r@ == spec_method_entry(pkg@, service@, method@),
{
    proof {
        reveal_strlit("");
        reveal_strlit(".");
        assert(""@ =~= Seq::<char>::empty());
        assert("."@ =~= seq!['.']);
    }
    let method_name = name_or(&method.name, "UnknownMethod");
    let input_raw = name_or(&method.input_type, "");
    let input = normalize_type_name(input_raw.as_str());
    let output_raw = name_or(&method.output_type, "");
    let output = normalize_type_name(output_raw.as_str());

    let mut summary = service.to_owned();
    summary.append(".");
    summary.append(method_name.as_str());
    assert(summary@ =~= service@ + seq!['.'] + spec_name_or(method@.name, "UnknownMethod"@));

    let request_content = media_content_obj(input.as_str());
    let mut request_body = JsonObjBuilder::new();
    request_body.set("required", jbool(true));
    request_body.set("content", request_content);

    let response_content = media_content_obj(output.as_str());
    let mut response_ok = JsonObjBuilder::new();
    response_ok.set("description", txt("gRPC success response payload shape"));
    response_ok.set("content", response_content);
    let ghost response_ok_m = response_ok@;
    let mut responses = JsonObjBuilder::new();
    responses.set("200", response_ok.build());

    let client_streaming = match &method.client_streaming {
        Some(b) => *b,
        None => false,
    };
    let server_streaming = match &method.server_streaming {
        Some(b) => *b,
        None => false,
    };
    let mut extension = JsonObjBuilder::new();
    extension.set("package", txt(pkg));
    extension.set("service", txt(service));
    extension.set("method", txt(method_name.as_str()));
    extension.set("client_streaming", jbool(client_streaming));
    extension.set("server_streaming", jbool(server_streaming));

    let ghost request_body_m = request_body@;
    let ghost responses_m = responses@;
    let ghost extension_m = extension@;

    let mut post = JsonObjBuilder::new();
    post.set("summary", txt(summary.as_str()));
    post.set(
        "description",
        txt("Swagger-compatible bridge for gRPC method contract discovery."),
    );
    post.set("requestBody", request_body.build());
    post.set("responses", responses.build());
    post.set("x-meld-grpc", extension.build());
    let ghost post_m = post@;

    let mut b = JsonObjBuilder::new();
    b.set("post", post.build());

    proof {
        let mm = method@;
        let input_s = spec_normalize(spec_name_or(mm.input_type, Seq::empty()));
        let output_s = spec_normalize(spec_name_or(mm.output_type, Seq::empty()));
        assert(request_body_m =~= seq![
            ("required"@, JsonModel::Bool(true)),
            ("content"@, JsonModel::Obj(
                seq![
                    ("application/grpc+proto"@, JsonModel::Obj(
                        seq![
                            ("schema"@, JsonModel::Obj(
                                seq![("$ref"@, JsonModel::Text(crate::render::spec_ref_target(input_s)))],
                            )),
                        ],
                    )),
                ],
            )),
        ]);
        assert(response_ok_m =~= seq![
            ("description"@, JsonModel::Text("gRPC success response payload shape"@)),
            ("content"@, JsonModel::Obj(
                seq![
                    ("application/grpc+proto"@, JsonModel::Obj(
                        seq![
                            ("schema"@, JsonModel::Obj(
                                seq![("$ref"@, JsonModel::Text(crate::render::spec_ref_target(output_s)))],
                            )),
                        ],
                    )),
                ],
            )),
        ]);
        assert(responses_m =~= seq![("200"@, JsonModel::Obj(response_ok_m))]);
        assert(extension_m =~= seq![
            ("package"@, JsonModel::Text(pkg@)),
            ("service"@, JsonModel::Text(service@)),
            ("method"@, JsonModel::Text(spec_name_or(mm.name, "UnknownMethod"@))),
            ("client_streaming"@, JsonModel::Bool(
                match mm.client_streaming {
                    Some(b2) => b2,
                    None => false,
                },
            )),
            ("server_streaming"@, JsonModel::Bool(
                match mm.server_streaming {
                    Some(b2) => b2,
                    None => false,
                },
            )),
        ]);
        assert(post_m =~= seq![
            ("summary"@, JsonModel::Text(service@ + seq!['.'] + spec_name_or(mm.name, "UnknownMethod"@))),
            ("description"@, JsonModel::Text(
                "Swagger-compatible bridge for gRPC method contract discovery."@,
            )),
            ("requestBody"@, JsonModel::Obj(request_body_m)),
            ("responses"@, JsonModel::Obj(responses_m)),
            ("x-meld-grpc"@, JsonModel::Obj(extension_m)),
        ]);
        assert(b@ =~= seq![("post"@, JsonModel::Obj(post_m))]);
    }
    b.build()
}

/// Builds the schema bridge of a built index: one schema per
/// non-map-entry message and per enum, one path entry per method, both
/// tables ordered by key.
pub fn build_openapi_bridge(index: &DescriptorIndex) -> (r: JsonValue)
    ensures
        r@ == spec_openapi_bridge(index@),
{
    let ghost messages_m = index@.messages;
    let ghost enums_m = index@.enums;
    let ghost services_m = index@.services;

    let mut schemas: OrderedTable<JsonValue> = OrderedTable::new();
    let mut i: usize = 0;
    proof {
        assert(schemas@ =~= schemas_msgs_prefix(
            Seq::empty(),
            messages_m,
            0,
            messages_m,
            enums_m,
        ));
    }
    while i < index.messages.entries.len()
        invariant
            i <= index.messages.entries.len(),
            messages_m == index@.messages,
            enums_m == index@.enums,
            messages_m.len() == index.messages.entries@.len(),
            forall|t: int|
                0 <= t < messages_m.len() ==> messages_m[t] == (
                    index.messages.entries@[t].0@,
                    index.messages.entries@[t].1@,
                ),
            schemas.wf(),
            schemas@ == schemas_msgs_prefix(Seq::empty(), messages_m, i as int, messages_m, enums_m),
        decreases index.messages.entries.len() - i,
    {
        let name = &index.messages.entries[i].0;
        let message = &index.messages.entries[i].1;
        if !crate::descriptor::is_map_entry(message) {
            let schema = message_schema(name.as_str(), message, index);
            schemas.insert(name.clone(), schema);
        }
        i += 1;
    }

    let mut j: usize = 0;
    proof {
        assert(schemas@ == schemas_enums_prefix(schemas@, enums_m, 0));
    }
    let ghost schemas_after_msgs = schemas@;
    while j < index.enums.entries.len()
        invariant
            j <= index.enums.entries.len(),
            enums_m == index@.enums,
            enums_m.len() == index.enums.entries@.len(),
            forall|t: int|
                0 <= t < enums_m.len() ==> enums_m[t] == (
                    index.enums.entries@[t].0@,
                    index.enums.entries@[t].1@,
                ),
            schemas.wf(),
            schemas@ == schemas_enums_prefix(schemas_after_msgs, enums_m, j as int),
        decreases index.enums.entries.len() - j,
    {
        let name = &index.enums.entries[j].0;
        let schema = enum_schema(&index.enums.entries[j].1);
        schemas.insert(name.clone(), schema);
        j += 1;
    }

    let mut paths: OrderedTable<JsonValue> = OrderedTable::new();
    let mut k: usize = 0;
    proof {
        assert(paths@ =~= paths_services_prefix(Seq::empty(), services_m, 0));
    }
    while k < index.services.entries.len()
        invariant
            k <= index.services.entries.len(),
            services_m == index@.services,
            services_m.len() == index.services.entries@.len(),
            forall|t: int|
                0 <= t < services_m.len() ==> services_m[t] == (
                    index.services.entries@[t].0@,
                    index.services.entries@[t].1@,
                ),
            paths.wf(),
            paths@ == paths_services_prefix(Seq::empty(), services_m, k as int),
        decreases index.services.entries.len() - k,
    {
        let full = &index.services.entries[k].0;
        let service = &index.services.entries[k].1;
        let (pkg, local) = split_service_name(full.as_str());
        let ghost svc_m = services_m[k as int].1;
        let ghost pkg_s = spec_service_package(full@);
        let ghost local_s = spec_service_local(full@);
        let ghost methods_m = svc_m.methods;
        let ghost paths0 = paths@;

        let mut n: usize = 0;
        proof {
            assert(methods_m =~= service.methods@.map_values(
                |m: crate::descriptor::MethodDescriptor| m@,
            ));
            assert(paths@ == paths_methods_prefix(paths0, pkg_s, local_s, methods_m, 0));
        }
        while n < service.methods.len()
            invariant
                n <= service.methods.len(),
                pkg_s == pkg@,
                local_s == local@,
                methods_m.len() == service.methods@.len(),
                forall|t: int|
                    0 <= t < methods_m.len() ==> methods_m[t] == service.methods@[t]@,
                paths.wf(),
                paths@ == paths_methods_prefix(paths0, pkg_s, local_s, methods_m, n as int),
            decreases service.methods.len() - n,
        {
            let method = &service.methods[n];
            let method_name = name_or(&method.name, "UnknownMethod");
            let path = grpc_path(pkg.as_str(), local.as_str(), method_name.as_str());
            let entry = method_entry(pkg.as_str(), local.as_str(), method);
            paths.insert(path, entry);
            n += 1;
        }
        proof {
            assert(paths@ == paths_services_prefix(Seq::empty(), services_m, k + 1));
        }
        k += 1;
    }

    let mut info = JsonObjBuilder::new();
    info.set("title", txt("Meld gRPC Contract Bridge"));
    info.set("version", txt("0.1.0"));
    info.set(
        "description",
        txt("Swagger-compatible contract view generated from protobuf descriptors."),
    );
    let ghost info_m = info@;

    let paths_json = JsonValue::Obj(paths.entries);
    proof {
        crate::json::lemma_json_entry_list_model(paths.entries@);
        assert(crate::json::json_entry_list_model(paths.entries@) =~= paths@);
    }
    let schemas_json = JsonValue::Obj(schemas.entries);
    proof {
        crate::json::lemma_json_entry_list_model(schemas.entries@);
        assert(crate::json::json_entry_list_model(schemas.entries@) =~= schemas@);
    }
    let mut components = JsonObjBuilder::new();
    components.set("schemas", schemas_json);
    let ghost components_m = components@;

    let mut b = JsonObjBuilder::new();
    b.set("openapi", txt("3.0.3"));
    b.set("info", info.build());
    b.set("paths", paths_json);
    b.set("components", components.build());

    proof {
        assert(info_m =~= seq![
            ("title"@, JsonModel::Text("Meld gRPC Contract Bridge"@)),
            ("version"@, JsonModel::Text("0.1.0"@)),
            ("description"@, JsonModel::Text(
                "Swagger-compatible contract view generated from protobuf descriptors."@,
            )),
        ]);
        assert(components_m =~= seq![
            ("schemas"@, JsonModel::Obj(spec_schemas(messages_m, enums_m))),
        ]);
        assert(b@ =~= seq![
            ("openapi"@, JsonModel::Text("3.0.3"@)),
            ("info"@, JsonModel::Obj(info_m)),
            ("paths"@, JsonModel::Obj(spec_paths(services_m))),
            ("components"@, JsonModel::Obj(components_m)),
        ]);
    }
    b.build()
}

} // verus!
