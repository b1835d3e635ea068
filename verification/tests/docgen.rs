use grpc_docgen::descriptor::DescriptorSet;
use grpc_docgen::descriptor::EnumDescriptor;
use grpc_docgen::descriptor::EnumValueDescriptor;
use grpc_docgen::descriptor::FieldDescriptor;
use grpc_docgen::descriptor::FileDescriptor;
use grpc_docgen::descriptor::MessageDescriptor;
use grpc_docgen::descriptor::MethodDescriptor;
use grpc_docgen::descriptor::OneofDescriptor;
use grpc_docgen::descriptor::ServiceDescriptor;
use grpc_docgen::builder::build_index;
use grpc_docgen::builder::normalize_type_name;
use grpc_docgen::builder::qualify;
use grpc_docgen::pipeline::grpc_contract_docs_markdown;
use grpc_docgen::pipeline::grpc_contract_openapi_bridge_json;

fn named(name: &str) -> Option<String> {
    Some(name.to_string())
}

fn scalar_field(name: &str, number: i32, kind: i32) -> FieldDescriptor {
    FieldDescriptor {
        name: named(name),
        number: Some(number),
        label: Some(1),
        field_type: Some(kind),
        type_ref: None,
        oneof_index: None,
    }
}

fn message_field(name: &str, number: i32, label: i32, target: &str) -> FieldDescriptor {
    FieldDescriptor {
        name: named(name),
        number: Some(number),
        label: Some(label),
        field_type: Some(11),
        type_ref: named(target),
        oneof_index: None,
    }
}

fn plain_message(name: &str, fields: Vec<FieldDescriptor>) -> MessageDescriptor {
    MessageDescriptor {
        name: named(name),
        fields,
        nested_messages: Vec::new(),
        nested_enums: Vec::new(),
        oneofs: Vec::new(),
        map_entry: None,
    }
}

fn one_file(
    package: Option<String>,
    messages: Vec<MessageDescriptor>,
    enums: Vec<EnumDescriptor>,
    services: Vec<ServiceDescriptor>,
) -> DescriptorSet {
    DescriptorSet {
        files: vec![FileDescriptor {
            package,
            messages,
            enums,
            services,
        }],
    }
}

/// A package `a.b` whose `Envelope` holds a repeated field of a synthetic
/// string-to-int32 map-entry message.
fn map_entry_set() -> DescriptorSet {
    let kv = MessageDescriptor {
        name: named("KV"),
        fields: vec![scalar_field("key", 1, 9), scalar_field("value", 2, 5)],
        nested_messages: Vec::new(),
        nested_enums: Vec::new(),
        oneofs: Vec::new(),
        map_entry: Some(true),
    };
    let envelope = MessageDescriptor {
        name: named("Envelope"),
        fields: vec![message_field("entries", 1, 3, ".a.b.Envelope.KV")],
        nested_messages: vec![kv],
        nested_enums: Vec::new(),
        oneofs: Vec::new(),
        map_entry: None,
    };
    one_file(named("a.b"), vec![envelope], Vec::new(), Vec::new())
}

#[test]
fn map_field_renders_as_object_with_additional_properties() {
    let json = grpc_contract_openapi_bridge_json(&map_entry_set());
    assert!(json.contains(
        "\"entries\":{\"type\":\"object\",\"additionalProperties\":\
         {\"type\":\"integer\",\"format\":\"int32\"},\"x-meld-map\":true}"
    ));
}

#[test]
fn map_entry_message_is_excluded_from_schemas_and_markdown() {
    let set = map_entry_set();
    let json = grpc_contract_openapi_bridge_json(&set);
    assert!(!json.contains("\"a.b.Envelope.KV\""));
    assert!(json.contains("\"a.b.Envelope\""));
    let md = grpc_contract_docs_markdown(&set);
    assert!(!md.contains("### `a.b.Envelope.KV`"));
    assert!(md.contains("### `a.b.Envelope`"));
}

#[test]
fn enum_reference_renders_as_constrained_string() {
    let status = EnumDescriptor {
        name: named("Status"),
        values: vec![
            EnumValueDescriptor {
                name: named("UNKNOWN"),
                number: Some(0),
            },
            EnumValueDescriptor {
                name: named("ACTIVE"),
                number: Some(1),
            },
        ],
    };
    let holder = MessageDescriptor {
        name: named("Holder"),
        fields: vec![FieldDescriptor {
            name: named("status"),
            number: Some(1),
            label: Some(1),
            field_type: Some(14),
            type_ref: named(".demo.Status"),
            oneof_index: None,
        }],
        nested_messages: Vec::new(),
        nested_enums: Vec::new(),
        oneofs: Vec::new(),
        map_entry: None,
    };
    let set = one_file(named("demo"), vec![holder], vec![status], Vec::new());
    let json = grpc_contract_openapi_bridge_json(&set);
    assert!(json.contains("\"status\":{\"type\":\"string\",\"enum\":[\"UNKNOWN\",\"ACTIVE\"]}"));
}

#[test]
fn dangling_enum_reference_degrades_to_plain_string() {
    let holder = MessageDescriptor {
        name: named("Holder"),
        fields: vec![FieldDescriptor {
            name: named("status"),
            number: Some(1),
            label: Some(1),
            field_type: Some(14),
            type_ref: named(".missing.Status"),
            oneof_index: None,
        }],
        nested_messages: Vec::new(),
        nested_enums: Vec::new(),
        oneofs: Vec::new(),
        map_entry: None,
    };
    let set = one_file(named("demo"), vec![holder], Vec::new(), Vec::new());
    let json = grpc_contract_openapi_bridge_json(&set);
    assert!(json.contains("\"status\":{\"type\":\"string\"}"));
}

#[test]
fn unary_method_produces_canonical_path_key() {
    let greeter = ServiceDescriptor {
        name: named("Greeter"),
        methods: vec![MethodDescriptor {
            name: named("SayHello"),
            input_type: named(".demo.v1.HelloRequest"),
            output_type: named(".demo.v1.HelloResponse"),
            client_streaming: None,
            server_streaming: None,
        }],
    };
    let set = one_file(named("demo.v1"), Vec::new(), Vec::new(), vec![greeter]);
    let json = grpc_contract_openapi_bridge_json(&set);
    assert!(json.contains("\"/demo.v1.Greeter/SayHello\""));
    assert!(json.contains("\"$ref\":\"#/components/schemas/demo.v1.HelloRequest\""));
    assert!(json.contains("\"$ref\":\"#/components/schemas/demo.v1.HelloResponse\""));
    assert!(json.contains("\"client_streaming\":false"));
    assert!(json.contains("\"server_streaming\":false"));
}

#[test]
fn path_key_without_package_omits_the_qualifier() {
    let greeter = ServiceDescriptor {
        name: named("Greeter"),
        methods: vec![MethodDescriptor {
            name: named("SayHello"),
            input_type: named(".In"),
            output_type: named(".Out"),
            client_streaming: None,
            server_streaming: None,
        }],
    };
    let set = one_file(None, Vec::new(), Vec::new(), vec![greeter]);
    let json = grpc_contract_openapi_bridge_json(&set);
    assert!(json.contains("\"/Greeter/SayHello\""));
}

#[test]
fn streaming_flags_propagate_to_the_vendor_extension() {
    let streamer = ServiceDescriptor {
        name: named("Streamer"),
        methods: vec![MethodDescriptor {
            name: named("Watch"),
            input_type: named(".demo.WatchRequest"),
            output_type: named(".demo.WatchEvent"),
            client_streaming: Some(false),
            server_streaming: Some(true),
        }],
    };
    let set = one_file(named("demo"), Vec::new(), Vec::new(), vec![streamer]);
    let json = grpc_contract_openapi_bridge_json(&set);
    assert!(json.contains("\"client_streaming\":false,\"server_streaming\":true"));
    let md = grpc_contract_docs_markdown(&set);
    assert!(md.contains(
        "- `Watch`: `demo.WatchRequest` -> `demo.WatchEvent` \
         (client_streaming=false, server_streaming=true)"
    ));
}

#[test]
fn pipeline_is_idempotent_on_the_same_input() {
    let set = map_entry_set();
    let md1 = grpc_contract_docs_markdown(&set);
    let md2 = grpc_contract_docs_markdown(&set);
    assert_eq!(md1, md2);
    let json1 = grpc_contract_openapi_bridge_json(&set);
    let json2 = grpc_contract_openapi_bridge_json(&set);
    assert_eq!(json1, json2);
}

#[test]
fn oneof_groups_appear_in_bridge_and_markdown() {
    let message = MessageDescriptor {
        name: named("Shape"),
        fields: vec![
            FieldDescriptor {
                name: named("circle"),
                number: Some(1),
                label: Some(1),
                field_type: Some(9),
                type_ref: None,
                oneof_index: Some(0),
            },
            FieldDescriptor {
                name: named("square"),
                number: Some(2),
                label: Some(1),
                field_type: Some(9),
                type_ref: None,
                oneof_index: Some(0),
            },
            FieldDescriptor {
                name: named("label"),
                number: Some(3),
                label: Some(1),
                field_type: Some(9),
                type_ref: None,
                oneof_index: Some(1),
            },
            scalar_field("plain", 4, 9),
        ],
        nested_messages: Vec::new(),
        nested_enums: Vec::new(),
        oneofs: vec![
            OneofDescriptor {
                name: named("kind"),
            },
            OneofDescriptor { name: None },
        ],
        map_entry: None,
    };
    let set = one_file(named("demo"), vec![message], Vec::new(), Vec::new());
    let json = grpc_contract_openapi_bridge_json(&set);
    assert!(json.contains(
        "\"x-meld-oneof\":{\"kind\":[\"circle\",\"square\"],\"oneof_1\":[\"label\"]}"
    ));
    let md = grpc_contract_docs_markdown(&set);
    assert!(md.contains("Oneof groups:"));
    assert!(md.contains("- `kind`: circle, square"));
    assert!(md.contains("- `oneof_1`: label"));
}

#[test]
fn required_label_fills_the_required_list() {
    let message = MessageDescriptor {
        name: named("Legacy"),
        fields: vec![
            FieldDescriptor {
                name: named("must"),
                number: Some(1),
                label: Some(2),
                field_type: Some(9),
                type_ref: None,
                oneof_index: None,
            },
            scalar_field("may", 2, 9),
        ],
        nested_messages: Vec::new(),
        nested_enums: Vec::new(),
        oneofs: Vec::new(),
        map_entry: None,
    };
    let set = one_file(named("demo"), vec![message], Vec::new(), Vec::new());
    let json = grpc_contract_openapi_bridge_json(&set);
    assert!(json.contains("\"required\":[\"must\"]"));
}

#[test]
fn scalar_kinds_map_to_their_json_types() {
    let message = plain_message(
        "Scalars",
        vec![
            scalar_field("a", 1, 1),
            scalar_field("b", 2, 2),
            scalar_field("c", 3, 3),
            scalar_field("d", 4, 4),
            scalar_field("e", 5, 8),
            scalar_field("f", 6, 12),
            scalar_field("g", 7, 13),
        ],
    );
    let set = one_file(named("demo"), vec![message], Vec::new(), Vec::new());
    let json = grpc_contract_openapi_bridge_json(&set);
    assert!(json.contains("\"a\":{\"type\":\"number\",\"format\":\"double\"}"));
    assert!(json.contains("\"b\":{\"type\":\"number\",\"format\":\"float\"}"));
    assert!(json.contains("\"c\":{\"type\":\"integer\",\"format\":\"int64\"}"));
    assert!(json.contains("\"d\":{\"type\":\"integer\",\"format\":\"uint64\"}"));
    assert!(json.contains("\"e\":{\"type\":\"boolean\"}"));
    assert!(json.contains("\"f\":{\"type\":\"string\",\"format\":\"byte\"}"));
    assert!(json.contains("\"g\":{\"type\":\"integer\",\"format\":\"uint32\"}"));
}

#[test]
fn repeated_scalar_wraps_in_an_array() {
    let message = plain_message(
        "Lots",
        vec![FieldDescriptor {
            name: named("tags"),
            number: Some(1),
            label: Some(3),
            field_type: Some(9),
            type_ref: None,
            oneof_index: None,
        }],
    );
    let set = one_file(named("demo"), vec![message], Vec::new(), Vec::new());
    let json = grpc_contract_openapi_bridge_json(&set);
    assert!(json.contains("\"tags\":{\"type\":\"array\",\"items\":{\"type\":\"string\"}}"));
}

#[test]
fn message_without_fields_gets_an_explicit_marker() {
    let set = one_file(
        named("demo"),
        vec![plain_message("Empty", Vec::new())],
        Vec::new(),
        Vec::new(),
    );
    let md = grpc_contract_docs_markdown(&set);
    assert!(md.contains("### `demo.Empty`"));
    assert!(md.contains("- (no fields)"));
}

#[test]
fn field_lines_carry_type_number_and_repeated_flag() {
    let message = plain_message(
        "Doc",
        vec![
            scalar_field("title", 3, 9),
            FieldDescriptor {
                name: named("tags"),
                number: Some(7),
                label: Some(3),
                field_type: Some(9),
                type_ref: None,
                oneof_index: None,
            },
        ],
    );
    let set = one_file(named("demo"), vec![message], Vec::new(), Vec::new());
    let md = grpc_contract_docs_markdown(&set);
    assert!(md.contains("- `title` (`string`, field #3)"));
    assert!(md.contains("- `tags` (`string`, field #7, repeated)"));
}

#[test]
fn empty_package_shows_a_root_marker() {
    let set = one_file(None, Vec::new(), Vec::new(), Vec::new());
    let md = grpc_contract_docs_markdown(&set);
    assert!(md.contains("- `<root>`"));
}

#[test]
fn missing_names_get_deterministic_placeholders() {
    let message = MessageDescriptor {
        name: None,
        fields: vec![FieldDescriptor {
            name: None,
            number: None,
            label: None,
            field_type: None,
            type_ref: None,
            oneof_index: None,
        }],
        nested_messages: Vec::new(),
        nested_enums: Vec::new(),
        oneofs: Vec::new(),
        map_entry: None,
    };
    let set = one_file(named("demo"), vec![message], Vec::new(), Vec::new());
    let md = grpc_contract_docs_markdown(&set);
    assert!(md.contains("### `demo.UnknownMessage`"));
    assert!(md.contains("- `unknown_field` (`string`, field #0)"));
}

#[test]
fn nested_enums_register_under_their_enclosing_chain() {
    let inner_enum = EnumDescriptor {
        name: named("Scope"),
        values: vec![EnumValueDescriptor {
            name: named("ALL"),
            number: Some(0),
        }],
    };
    let nested = MessageDescriptor {
        name: named("NestedInfo"),
        fields: Vec::new(),
        nested_messages: Vec::new(),
        nested_enums: vec![inner_enum],
        oneofs: Vec::new(),
        map_entry: None,
    };
    let outer = MessageDescriptor {
        name: named("GetDocRequest"),
        fields: Vec::new(),
        nested_messages: vec![nested],
        nested_enums: Vec::new(),
        oneofs: Vec::new(),
        map_entry: None,
    };
    let set = one_file(
        named("fixture.docs.v1"),
        vec![outer],
        Vec::new(),
        Vec::new(),
    );
    let md = grpc_contract_docs_markdown(&set);
    assert!(md.contains("fixture.docs.v1.GetDocRequest.NestedInfo.Scope"));
    let index = build_index(&set);
    assert!(index
        .enums
        .get("fixture.docs.v1.GetDocRequest.NestedInfo.Scope")
        .is_some());
    assert!(index
        .messages
        .get("fixture.docs.v1.GetDocRequest.NestedInfo")
        .is_some());
}

#[test]
fn last_write_wins_when_two_files_define_one_name() {
    let first = one_file(
        named("demo"),
        vec![plain_message("Thing", vec![scalar_field("a", 1, 9)])],
        Vec::new(),
        Vec::new(),
    );
    let second = plain_message("Thing", vec![scalar_field("b", 1, 9)]);
    let set = DescriptorSet {
        files: vec![
            first.files.into_iter().next().unwrap(),
            FileDescriptor {
                package: named("demo"),
                messages: vec![second],
                enums: Vec::new(),
                services: Vec::new(),
            },
        ],
    };
    let index = build_index(&set);
    assert_eq!(index.messages.len(), 1);
    let thing = index.messages.get("demo.Thing").expect("registered");
    assert_eq!(thing.fields[0].name.as_deref(), Some("b"));
}

#[test]
fn schemas_and_paths_are_ordered_by_key() {
    let set = one_file(
        named("demo"),
        vec![
            plain_message("Zed", Vec::new()),
            plain_message("Alpha", Vec::new()),
        ],
        Vec::new(),
        Vec::new(),
    );
    let json = grpc_contract_openapi_bridge_json(&set);
    let alpha = json.find("\"demo.Alpha\"").expect("alpha schema");
    let zed = json.find("\"demo.Zed\"").expect("zed schema");
    assert!(alpha < zed);
}

#[test]
fn qualify_joins_with_a_dot_only_under_a_package() {
    assert_eq!(qualify("a.b", "C"), "a.b.C");
    assert_eq!(qualify("", "C"), "C");
}

#[test]
fn normalize_type_name_strips_leading_dots() {
    assert_eq!(normalize_type_name(".a.B"), "a.B");
    assert_eq!(normalize_type_name("a.B"), "a.B");
    assert_eq!(normalize_type_name(""), "");
}

#[test]
fn fixed_sections_frame_the_markdown_document() {
    let set = one_file(None, Vec::new(), Vec::new(), Vec::new());
    let md = grpc_contract_docs_markdown(&set);
    assert!(md.starts_with("# gRPC Contract Documentation\n"));
    assert!(md.contains("\n## Packages\n"));
    assert!(md.contains("\n## Services And Methods\n"));
    assert!(md.contains("\n## Messages\n"));
    assert!(md.contains("\n## Enums\n"));
    assert!(md.contains("\n## gRPC Error Model\n"));
    assert!(md.contains("- `INVALID_ARGUMENT` (3): validation failures"));
    assert!(md.contains("- `INTERNAL` (13): unexpected server failures"));
    assert!(md.contains("\n## Artifacts\n"));
    assert!(md.contains("- Markdown: `docs/generated/grpc-contracts.md`"));
    assert!(md.contains("- OpenAPI bridge: `docs/generated/grpc-openapi-bridge.json`"));
    assert!(md.ends_with("\n"));
}

#[test]
fn bridge_document_carries_the_fixed_header() {
    let set = one_file(None, Vec::new(), Vec::new(), Vec::new());
    let json = grpc_contract_openapi_bridge_json(&set);
    assert!(json.starts_with("{\"openapi\":\"3.0.3\",\"info\":{\"title\":\"Meld gRPC Contract Bridge\""));
    assert!(json.contains("\"paths\":{}"));
    assert!(json.contains("\"components\":{\"schemas\":{}}"));
}

#[test]
fn empty_set_renders_the_exact_fixed_document() {
    let set = DescriptorSet { files: Vec::new() };
    let md = grpc_contract_docs_markdown(&set);
    assert_eq!(
        md,
        "# gRPC Contract Documentation\n\
         \n\
         Generated from protobuf descriptor set (descriptor-based parser).\n\
         \n\
         ## Packages\n\
         \n\
         \n\
         ## Services And Methods\n\
         \n\
         ## Messages\n\
         \n\
         ## Enums\n\
         \n\
         \n\
         ## gRPC Error Model\n\
         \n\
         Common status codes exposed by the runtime:\n\
         \n\
         - `INVALID_ARGUMENT` (3): validation failures\n\
         - `INTERNAL` (13): unexpected server failures\n\
         \n\
         ## Artifacts\n\
         \n\
         - Markdown: `docs/generated/grpc-contracts.md`\n\
         - OpenAPI bridge: `docs/generated/grpc-openapi-bridge.json`\n"
    );
    let json = grpc_contract_openapi_bridge_json(&set);
    assert_eq!(
        json,
        "{\"openapi\":\"3.0.3\",\"info\":{\"title\":\"Meld gRPC Contract Bridge\",\
         \"version\":\"0.1.0\",\"description\":\"Swagger-compatible contract view \
         generated from protobuf descriptors.\"},\"paths\":{},\
         \"components\":{\"schemas\":{}}}"
    );
}

#[test]
fn negative_field_numbers_render_with_a_sign() {
    let message = plain_message(
        "Odd",
        vec![FieldDescriptor {
            name: named("weird"),
            number: Some(-5),
            label: Some(1),
            field_type: Some(9),
            type_ref: None,
            oneof_index: None,
        }],
    );
    let set = one_file(named("demo"), vec![message], Vec::new(), Vec::new());
    let md = grpc_contract_docs_markdown(&set);
    assert!(md.contains("- `weird` (`string`, field #-5)"));
}

#[test]
fn service_section_lists_each_service_under_its_qualified_name() {
    let svc = ServiceDescriptor {
        name: named("Greeter"),
        methods: vec![MethodDescriptor {
            name: named("SayHello"),
            input_type: named(".demo.v1.HelloRequest"),
            output_type: named(".demo.v1.HelloResponse"),
            client_streaming: Some(false),
            server_streaming: Some(false),
        }],
    };
    let set = one_file(named("demo.v1"), Vec::new(), Vec::new(), vec![svc]);
    let md = grpc_contract_docs_markdown(&set);
    assert!(md.contains("### `demo.v1.Greeter`"));
    assert!(md.contains(
        "- `SayHello`: `demo.v1.HelloRequest` -> `demo.v1.HelloResponse` \
         (client_streaming=false, server_streaming=false)"
    ));
}
