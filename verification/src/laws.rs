//! Laws of the generators, stated over the same spec functions their
//! contracts use.

use vstd::prelude::*;

use crate::builder::IndexModel;
use crate::builder::spec_build_index;
use crate::builder::spec_normalize;
use crate::bridge::spec_method_entry;
use crate::descriptor::DescriptorSet;
use crate::descriptor::EnumModel;
use crate::descriptor::FieldModel;
use crate::descriptor::MessageModel;
use crate::descriptor::MethodModel;
use crate::index::spec_get;
use crate::json::JsonModel;
use crate::json::spec_json_text;
use crate::markdown::spec_markdown;
use crate::render::FieldKind;
use crate::render::field_kind;
use crate::render::spec_base_schema;
use crate::render::spec_ref_target;
use crate::render::spec_type_ref;
use crate::render::enum_value_names;
use crate::render::names_as_json;
use crate::bridge::spec_openapi_bridge;

verus! {

/// Running the pipeline twice on descriptor sets with the same content
/// produces identical artifacts: both documents are functions of the
/// decoded descriptor set alone.
pub proof fn lemma_pipeline_deterministic(s1: DescriptorSet, s2: DescriptorSet)
    requires
        s1@ == s2@,
    ensures
        spec_markdown(spec_build_index(s1@)) == spec_markdown(spec_build_index(s2@)),
        spec_json_text(spec_openapi_bridge(spec_build_index(s1@))) == spec_json_text(
            spec_openapi_bridge(spec_build_index(s2@)),
        ),
{
}

/// A reference with the leading separator stripped is the registered
/// name, when that name does not itself start with a separator.
pub proof fn lemma_normalize_strips_one_dot(k: Seq<char>)
    requires
        k.len() == 0 || k[0] != '.',
    ensures
        spec_normalize(seq!['.'] + k) == k,
{
    let s = seq!['.'] + k;
    assert(s[0] == '.');
    assert(s.skip(1) =~= k);
    assert(spec_normalize(s) == spec_normalize(s.skip(1)));
    assert(spec_normalize(k) == k);
}

/// Round-trip type naming: a message or enum field renders a reference
/// whose name is exactly the normalized type reference, so a reference
/// following the registration convention (a leading separator before the
/// registered fully-qualified name) resolves against the index.
pub proof fn lemma_round_trip_naming(
    f: FieldModel,
    messages: Seq<(Seq<char>, MessageModel)>,
    enums: Seq<(Seq<char>, EnumModel)>,
    k: Seq<char>,
)
    requires
        f.type_ref == Some(seq!['.'] + k),
        k.len() == 0 || k[0] != '.',
    ensures
        field_kind(f.field_type) == FieldKind::Message ==> spec_base_schema(f, enums)
            == JsonModel::Obj(seq![("$ref"@, JsonModel::Text(spec_ref_target(k)))]),
        (field_kind(f.field_type) == FieldKind::Enum && spec_get(enums, k) matches Some(e))
            ==> spec_base_schema(f, enums) == JsonModel::Obj(
            seq![
                ("type"@, JsonModel::Text("string"@)),
                ("enum"@, JsonModel::Arr(
                    names_as_json(enum_value_names(spec_get(enums, k)->Some_0.values)),
                )),
            ],
        ),
{
    lemma_normalize_strips_one_dot(k);
    assert(spec_type_ref(f) == seq!['.'] + k);
}

/// Streaming flag propagation: a method's path entry records, in its
/// vendor extension, exactly the method's two streaming flags (absent
/// flags read as false), whatever its message types are.
pub proof fn lemma_streaming_flags(pkg: Seq<char>, service: Seq<char>, m: MethodModel)
    ensures
        spec_method_entry(pkg, service, m) matches JsonModel::Obj(top) && spec_get(top, "post"@)
            matches Some(JsonModel::Obj(post)) && spec_get(post, "x-meld-grpc"@) matches Some(
            JsonModel::Obj(ext),
        ) && spec_get(ext, "client_streaming"@) == Some(
            JsonModel::Bool(
                match m.client_streaming {
                    Some(b) => b,
                    None => false,
                },
            ),
        ) && spec_get(ext, "server_streaming"@) == Some(
            JsonModel::Bool(
                match m.server_streaming {
                    Some(b) => b,
                    None => false,
                },
            ),
        ) && spec_get(ext, "package"@) == Some(JsonModel::Text(pkg)) && spec_get(ext, "service"@)
            == Some(JsonModel::Text(service)),
{
    reveal_strlit("post");
    reveal_strlit("summary");
    reveal_strlit("description");
    reveal_strlit("requestBody");
    reveal_strlit("responses");
    reveal_strlit("x-meld-grpc");
    reveal_strlit("package");
    reveal_strlit("service");
    reveal_strlit("method");
    reveal_strlit("client_streaming");
    reveal_strlit("server_streaming");
    let entry = spec_method_entry(pkg, service, m);
    let top = entry->Obj_0;
    assert(spec_get(top, "post"@) == Some(top[0].1));
    let post = top[0].1->Obj_0;
    assert(post.len() == 5);
    assert(post[0].0 == "summary"@);
    assert(post[1].0 == "description"@);
    assert(post[2].0 == "requestBody"@);
    assert(post[3].0 == "responses"@);
    assert(post[4].0 == "x-meld-grpc"@);
    assert("summary"@ != "x-meld-grpc"@) by {
        assert("summary"@.len() == 7);
        assert("x-meld-grpc"@.len() == 11);
    }
    assert("description"@ != "x-meld-grpc"@) by {
        assert("description"@[0] == 'd');
        assert("x-meld-grpc"@[0] == 'x');
    }
    assert("requestBody"@ != "x-meld-grpc"@) by {
        assert("requestBody"@[0] == 'r');
        assert("x-meld-grpc"@[0] == 'x');
    }
    assert("responses"@ != "x-meld-grpc"@) by {
        assert("responses"@.len() == 9);
    }
    assert(spec_get(post, "x-meld-grpc"@) == Some(post[4].1)) by {
        let key = "x-meld-grpc"@;
        assert(spec_get(post, key) == spec_get(post.skip(1), key));
        assert(post.skip(1)[0] == post[1]);
        assert(post.skip(1).skip(1) =~= post.skip(2));
        assert(spec_get(post.skip(1), key) == spec_get(post.skip(2), key));
        assert(post.skip(2)[0] == post[2]);
        assert(post.skip(2).skip(1) =~= post.skip(3));
        assert(spec_get(post.skip(2), key) == spec_get(post.skip(3), key));
        assert(post.skip(3)[0] == post[3]);
        assert(post.skip(3).skip(1) =~= post.skip(4));
        assert(spec_get(post.skip(3), key) == spec_get(post.skip(4), key));
        assert(post.skip(4)[0] == post[4]);
        assert(spec_get(post.skip(4), key) == Some(post[4].1));
    }
    let ext = post[4].1->Obj_0;
    assert(ext.len() == 5);
    assert(ext[0].0 == "package"@);
    assert(ext[1].0 == "service"@);
    assert(ext[2].0 == "method"@);
    assert(ext[3].0 == "client_streaming"@);
    assert(ext[4].0 == "server_streaming"@);
    assert("package"@ != "client_streaming"@) by {
        assert("package"@.len() == 7);
        assert("client_streaming"@.len() == 16);
    }
    assert("service"@ != "client_streaming"@) by {
        assert("service"@.len() == 7);
    }
    assert("method"@ != "client_streaming"@) by {
        assert("method"@.len() == 6);
    }
    assert("package"@ != "server_streaming"@) by {
        assert("server_streaming"@.len() == 16);
    }
    assert("service"@ != "server_streaming"@);
    assert("method"@ != "server_streaming"@);
    assert("client_streaming"@ != "server_streaming"@) by {
        assert("client_streaming"@[0] == 'c');
        assert("server_streaming"@[0] == 's');
    }
    assert(spec_get(ext, "client_streaming"@) == Some(ext[3].1)) by {
        let key = "client_streaming"@;
        assert(spec_get(ext, key) == spec_get(ext.skip(1), key));
        assert(ext.skip(1)[0] == ext[1]);
        assert(ext.skip(1).skip(1) =~= ext.skip(2));
        assert(spec_get(ext.skip(1), key) == spec_get(ext.skip(2), key));
        assert(ext.skip(2)[0] == ext[2]);
        assert(ext.skip(2).skip(1) =~= ext.skip(3));
        assert(spec_get(ext.skip(2), key) == spec_get(ext.skip(3), key));
        assert(ext.skip(3)[0] == ext[3]);
        assert(spec_get(ext.skip(3), key) == Some(ext[3].1));
    }
    assert(spec_get(ext, "server_streaming"@) == Some(ext[4].1)) by {
        let key = "server_streaming"@;
        assert(spec_get(ext, key) == spec_get(ext.skip(1), key));
        assert(ext.skip(1)[0] == ext[1]);
        assert(ext.skip(1).skip(1) =~= ext.skip(2));
        assert(spec_get(ext.skip(1), key) == spec_get(ext.skip(2), key));
        assert(ext.skip(2)[0] == ext[2]);
        assert(ext.skip(2).skip(1) =~= ext.skip(3));
        assert(spec_get(ext.skip(2), key) == spec_get(ext.skip(3), key));
        assert(ext.skip(3)[0] == ext[3]);
        assert(ext.skip(3).skip(1) =~= ext.skip(4));
        assert(spec_get(ext.skip(3), key) == spec_get(ext.skip(4), key));
        assert(ext.skip(4)[0] == ext[4]);
        assert(spec_get(ext.skip(4), key) == Some(ext[4].1));
    }
    assert(spec_get(ext, "package"@) == Some(ext[0].1));
    assert(spec_get(ext, "service"@) == Some(ext[1].1)) by {
        let key = "service"@;
        assert("package"@ != "service"@) by {
            assert("package"@[0] == 'p');
            assert("service"@[0] == 's');
        }
        assert(spec_get(ext, key) == spec_get(ext.skip(1), key));
        assert(ext.skip(1)[0] == ext[1]);
        assert(spec_get(ext.skip(1), key) == Some(ext[1].1));
    }
}

/// The names of the fields that belong to the `oneof` group of a given
/// name, among the first `n` fields, in declaration order.
pub open spec fn fields_in_group(
    fields: Seq<FieldModel>,
    n: int,
    oneofs: Seq<crate::descriptor::OneofModel>,
    g: Seq<char>,
) -> Seq<Seq<char>>
    decreases n,
{
    if n <= 0 || n > fields.len() {
        Seq::empty()
    } else {
        let rest = fields_in_group(fields, n - 1, oneofs, g);
        match fields[n - 1].oneof_index {
            Some(gi) => if crate::bridge::spec_group_name(oneofs, gi as int) == g {
                rest.push(crate::bridge::spec_field_name(fields[n - 1]))
            } else {
                rest
            },
            None => rest,
        }
    }
}

/// Oneof fidelity: the grouping a message schema records binds each group
/// name to exactly the names of the fields that point at it, in
/// declaration order — so the group entries partition the oneof-bearing
/// fields.
pub proof fn lemma_oneof_fidelity(
    fields: Seq<FieldModel>,
    n: int,
    oneofs: Seq<crate::descriptor::OneofModel>,
    g: Seq<char>,
)
    ensures
        crate::index::table_sorted(crate::bridge::oneofs_prefix(fields, n, oneofs)),
        spec_get(crate::bridge::oneofs_prefix(fields, n, oneofs), g) == (
        if fields_in_group(fields, n, oneofs, g).len() > 0 {
            Some(fields_in_group(fields, n, oneofs, g))
        } else {
            None::<Seq<Seq<char>>>
        }),
    decreases n,
{
    if n <= 0 || n > fields.len() {
        assert(spec_get(
            crate::bridge::oneofs_prefix(fields, n, oneofs),
            g,
        ) is None);
    } else {
        let prev = crate::bridge::oneofs_prefix(fields, n - 1, oneofs);
        lemma_oneof_fidelity(fields, n - 1, oneofs, g);
        match fields[n - 1].oneof_index {
            Some(gi) => {
                let g2 = crate::bridge::spec_group_name(oneofs, gi as int);
                let fname = crate::bridge::spec_field_name(fields[n - 1]);
                lemma_oneof_fidelity(fields, n - 1, oneofs, g2);
                let existing: Seq<Seq<char>> = match spec_get(prev, g2) {
                    Some(names) => names,
                    None => Seq::empty(),
                };
                assert(existing =~= fields_in_group(fields, n - 1, oneofs, g2));
                crate::index::lemma_put(prev, g2, existing.push(fname));
                if g2 == g {
                    assert(fields_in_group(fields, n, oneofs, g) == existing.push(fname));
                } else {
                    assert(fields_in_group(fields, n, oneofs, g) == fields_in_group(
                        fields,
                        n - 1,
                        oneofs,
                        g,
                    ));
                }
            },
            None => {},
        }
    }
}

/// The markdown grouping of one `oneof` declaration agrees with the
/// bridge grouping of its name, provided every field is named, every
/// field's group index is in range, and no other declaration shares the
/// name.
pub proof fn lemma_markdown_grouping(m: MessageModel, idx: int, n: int)
    requires
        0 <= idx < m.oneofs.len(),
        forall|j: int|
            0 <= j < m.oneofs.len() && j != idx ==> crate::bridge::spec_group_name(#[trigger] m.oneofs, j)
                != crate::bridge::spec_group_name(m.oneofs, idx),
        forall|t: int| 0 <= t < m.fields.len() ==> (#[trigger] m.fields[t].name) is Some,
        forall|t: int|
            0 <= t < m.fields.len() ==> match #[trigger] m.fields[t].oneof_index {
                Some(gi) => 0 <= gi < m.oneofs.len(),
                None => true,
            },
    ensures
        crate::markdown::group_members(m.fields, idx, n) == fields_in_group(
            m.fields,
            n,
            m.oneofs,
            crate::bridge::spec_group_name(m.oneofs, idx),
        ),
    decreases n,
{
    if n <= 0 || n > m.fields.len() {
    } else {
        lemma_markdown_grouping(m, idx, n - 1);
        let g = crate::bridge::spec_group_name(m.oneofs, idx);
        match m.fields[n - 1].oneof_index {
            Some(gi) => {
                assert(0 <= gi < m.oneofs.len());
                if gi as int == idx {
                    assert(crate::bridge::spec_group_name(m.oneofs, gi as int) == g);
                } else {
                    assert(crate::bridge::spec_group_name(m.oneofs, gi as int) != g);
                }
                assert(crate::bridge::spec_field_name(m.fields[n - 1]) == m.fields[n
                    - 1].name->Some_0);
            },
            None => {},
        }
    }
}

/// No two entries of a sorted table share a key.
proof fn lemma_sorted_keys_unique<M>(s: Seq<(Seq<char>, M)>, i: int, j: int)
    requires
        crate::index::table_sorted(s),
        0 <= i < j < s.len(),
    ensures
        s[i].0 != s[j].0,
{
    assert(crate::strutil::lex_lt(s[i].0, s[j].0));
    crate::strutil::lemma_lex_asymmetric(s[i].0, s[j].0);
}

/// A bound key belongs to some entry.
proof fn lemma_get_is_entry<M>(s: Seq<(Seq<char>, M)>, k: Seq<char>)
    requires
        spec_get(s, k) is Some,
    ensures
        exists|i: int| 0 <= i < s.len() && s[i].0 == k && s[i].1 == spec_get(s, k)->Some_0,
    decreases s.len(),
{
    if s.len() > 0 {
        if s[0].0 == k {
        } else {
            lemma_get_is_entry(s.skip(1), k);
            let i = choose|i: int|
                0 <= i < s.skip(1).len() && s.skip(1)[i].0 == k && s.skip(1)[i].1 == spec_get(
                    s.skip(1),
                    k,
                )->Some_0;
            assert(s[i + 1].0 == k && s[i + 1].1 == spec_get(s, k)->Some_0);
        }
    }
}

/// The message pass of the schemas fold leaves a key untouched when
/// every entry bearing it is a map-entry message.
proof fn lemma_schemas_msgs_skip(
    t: Seq<(Seq<char>, JsonModel)>,
    msgs: Seq<(Seq<char>, MessageModel)>,
    n: int,
    messages: Seq<(Seq<char>, MessageModel)>,
    enums: Seq<(Seq<char>, EnumModel)>,
    name: Seq<char>,
)
    requires
        crate::index::table_sorted(t),
        forall|i: int|
            0 <= i < msgs.len() && (#[trigger] msgs[i].0) == name
                ==> crate::descriptor::spec_is_map_entry(msgs[i].1),
    ensures
        crate::index::table_sorted(
            crate::bridge::schemas_msgs_prefix(t, msgs, n, messages, enums),
        ),
        spec_get(crate::bridge::schemas_msgs_prefix(t, msgs, n, messages, enums), name)
            == spec_get(t, name),
    decreases n,
{
    if n <= 0 || n > msgs.len() {
    } else {
        lemma_schemas_msgs_skip(t, msgs, n - 1, messages, enums, name);
        let prev = crate::bridge::schemas_msgs_prefix(t, msgs, n - 1, messages, enums);
        if crate::descriptor::spec_is_map_entry(msgs[n - 1].1) {
        } else {
            assert(msgs[n - 1].0 != name);
            crate::index::lemma_put(
                prev,
                msgs[n - 1].0,
                crate::bridge::spec_message_schema(msgs[n - 1].0, msgs[n - 1].1, messages, enums),
            );
        }
    }
}

/// The enum pass of the schemas fold leaves a key untouched when no enum
/// is registered under it.
proof fn lemma_schemas_enums_skip(
    t: Seq<(Seq<char>, JsonModel)>,
    es: Seq<(Seq<char>, EnumModel)>,
    n: int,
    name: Seq<char>,
)
    requires
        crate::index::table_sorted(t),
        forall|i: int| 0 <= i < es.len() ==> (#[trigger] es[i].0) != name,
    ensures
        crate::index::table_sorted(crate::bridge::schemas_enums_prefix(t, es, n)),
        spec_get(crate::bridge::schemas_enums_prefix(t, es, n), name) == spec_get(t, name),
    decreases n,
{
    if n <= 0 || n > es.len() {
    } else {
        lemma_schemas_enums_skip(t, es, n - 1, name);
        crate::index::lemma_put(
            crate::bridge::schemas_enums_prefix(t, es, n - 1),
            es[n - 1].0,
            crate::bridge::spec_enum_schema(es[n - 1].1),
        );
    }
}

/// Map-entry exclusion, bridge side: a message carrying the map-entry
/// marker appears in the bridge's schemas under no key — provided no
/// enum is registered under the same name, which would be its own
/// schema, not the message's.
pub proof fn lemma_map_entry_excluded_bridge(ix: IndexModel, name: Seq<char>)
    requires
        crate::index::table_sorted(ix.messages),
        spec_get(ix.messages, name) matches Some(m) && crate::descriptor::spec_is_map_entry(m),
        forall|i: int| 0 <= i < ix.enums.len() ==> (#[trigger] ix.enums[i].0) != name,
    ensures
        spec_get(crate::bridge::spec_schemas(ix.messages, ix.enums), name) is None,
{
    assert forall|i: int|
        0 <= i < ix.messages.len() && (#[trigger] ix.messages[i].0)
            == name implies crate::descriptor::spec_is_map_entry(ix.messages[i].1) by {
        lemma_get_is_entry(ix.messages, name);
        let j = choose|j: int|
            0 <= j < ix.messages.len() && ix.messages[j].0 == name && ix.messages[j].1 == spec_get(
                ix.messages,
                name,
            )->Some_0;
        if i != j {
            if i < j {
                lemma_sorted_keys_unique(ix.messages, i, j);
            } else {
                lemma_sorted_keys_unique(ix.messages, j, i);
            }
        }
    }
    let base = Seq::<(Seq<char>, JsonModel)>::empty();
    lemma_schemas_msgs_skip(
        base,
        ix.messages,
        ix.messages.len() as int,
        ix.messages,
        ix.enums,
        name,
    );
    assert(spec_get(base, name) is None);
    lemma_schemas_enums_skip(
        crate::bridge::schemas_msgs_prefix(
            base,
            ix.messages,
            ix.messages.len() as int,
            ix.messages,
            ix.enums,
        ),
        ix.enums,
        ix.enums.len() as int,
        name,
    );
}

/// The header line of one name.
pub open spec fn md_message_header(name: Seq<char>) -> Seq<char> {
    "### `"@ + name + "`"@
}

/// Two header lines agree only on the same name.
proof fn lemma_header_injective(a: Seq<char>, b: Seq<char>)
    requires
        md_message_header(a) == md_message_header(b),
    ensures
        a == b,
{
    reveal_strlit("### `");
    reveal_strlit("`");
    let ha = md_message_header(a);
    let hb = md_message_header(b);
    assert(ha.len() == 6 + a.len());
    assert(hb.len() == 6 + b.len());
    assert(a.len() == b.len());
    assert forall|i: int| 0 <= i < a.len() implies a[i] == b[i] by {
        assert(ha[5 + i] == a[i]);
        assert(hb[5 + i] == b[i]);
    }
    assert(a =~= b);
}

/// No line of one message's section is the header line of another name.
proof fn lemma_message_lines_no_header(k: Seq<char>, m: MessageModel, name: Seq<char>, t: int)
    requires
        k != name,
        0 <= t < crate::markdown::message_lines(k, m).len(),
    ensures
        crate::markdown::message_lines(k, m)[t] != md_message_header(name),
{
    reveal_strlit("### `");
    reveal_strlit("`");
    reveal_strlit("- (no fields)");
    reveal_strlit("Oneof groups:");
    reveal_strlit("- `");
    let lines = crate::markdown::message_lines(k, m);
    let target = md_message_header(name);
    assert(target.len() >= 6);
    assert(target[0] == '#');
    if lines[t] == target {
        if t == 0 {
            lemma_header_injective(k, name);
        } else {
            // every later line is blank, a marker, or starts with another
            // character
            lemma_md_line_shapes(k, m, t);
            assert(lines[t].len() == 0 || lines[t][0] == '-' || lines[t][0] == 'O');
        }
    }
}

/// Every line of a message section after the header is blank or starts
/// with a dash or the group marker.
proof fn lemma_md_line_shapes(k: Seq<char>, m: MessageModel, t: int)
    requires
        1 <= t < crate::markdown::message_lines(k, m).len(),
    ensures
        crate::markdown::message_lines(k, m)[t].len() == 0 || crate::markdown::message_lines(
            k,
            m,
        )[t][0] == '-' || crate::markdown::message_lines(k, m)[t][0] == 'O',
{
    reveal_strlit("- (no fields)");
    reveal_strlit("Oneof groups:");
    reveal_strlit("- `");
    let lines = crate::markdown::message_lines(k, m);
    let fields = crate::markdown::fields_prefix(m.fields, m.fields.len() as int);
    lemma_fields_prefix_shape(m.fields, m.fields.len() as int);
    if m.oneofs.len() > 0 {
        lemma_oneofs_prefix_shape(m, m.oneofs.len() as int);
    }
}

/// Every field line starts with a dash.
proof fn lemma_fields_prefix_shape(fields: Seq<FieldModel>, n: int)
    ensures
        forall|i: int|
            0 <= i < crate::markdown::fields_prefix(fields, n).len()
                ==> (#[trigger] crate::markdown::fields_prefix(fields, n)[i]).len() > 0
                && crate::markdown::fields_prefix(fields, n)[i][0] == '-',
    decreases n,
{
    reveal_strlit("- `");
    if n <= 0 || n > fields.len() {
    } else {
        lemma_fields_prefix_shape(fields, n - 1);
        let prev = crate::markdown::fields_prefix(fields, n - 1);
        let cur = crate::markdown::fields_prefix(fields, n);
        assert(crate::markdown::field_line(fields[n - 1])[0] == '-');
        assert(crate::markdown::field_line(fields[n - 1]).len() > 0);
        assert forall|i: int| 0 <= i < cur.len() implies (#[trigger] cur[i]).len() > 0 && cur[i][0]
            == '-' by {
            if i < prev.len() {
                assert(cur[i] == prev[i]);
            } else {
                assert(cur[i] == crate::markdown::field_line(fields[n - 1]));
            }
        }
    }
}

/// Every `oneof` line starts with a dash.
proof fn lemma_oneofs_prefix_shape(m: MessageModel, n: int)
    ensures
        forall|i: int|
            0 <= i < crate::markdown::oneofs_lines_prefix(m, n).len()
                ==> (#[trigger] crate::markdown::oneofs_lines_prefix(m, n)[i]).len() > 0
                && crate::markdown::oneofs_lines_prefix(m, n)[i][0] == '-',
    decreases n,
{
    reveal_strlit("- `");
    if n <= 0 || n > m.oneofs.len() {
    } else {
        lemma_oneofs_prefix_shape(m, n - 1);
        let prev = crate::markdown::oneofs_lines_prefix(m, n - 1);
        let cur = crate::markdown::oneofs_lines_prefix(m, n);
        assert(crate::markdown::oneof_line(m, n - 1)[0] == '-');
        assert(crate::markdown::oneof_line(m, n - 1).len() > 0);
        assert forall|i: int| 0 <= i < cur.len() implies (#[trigger] cur[i]).len() > 0 && cur[i][0]
            == '-' by {
            if i < prev.len() {
                assert(cur[i] == prev[i]);
            } else {
                assert(cur[i] == crate::markdown::oneof_line(m, n - 1));
            }
        }
    }
}

/// Map-entry exclusion, markdown side: the message section never carries
/// the header line of a message with the map-entry marker.
pub proof fn lemma_map_entry_excluded_markdown(
    msgs: Seq<(Seq<char>, MessageModel)>,
    n: int,
    name: Seq<char>,
)
    requires
        crate::index::table_sorted(msgs),
        spec_get(msgs, name) matches Some(m) && crate::descriptor::spec_is_map_entry(m),
    ensures
        forall|t: int|
            0 <= t < crate::markdown::messages_prefix(msgs, n).len()
                ==> (#[trigger] crate::markdown::messages_prefix(msgs, n)[t]) != md_message_header(
                name,
            ),
    decreases n,
{
    assert forall|i: int|
        0 <= i < msgs.len() && (#[trigger] msgs[i].0)
            == name implies crate::descriptor::spec_is_map_entry(msgs[i].1) by {
        lemma_get_is_entry(msgs, name);
        let j = choose|j: int|
            0 <= j < msgs.len() && msgs[j].0 == name && msgs[j].1 == spec_get(msgs, name)->Some_0;
        if i != j {
            if i < j {
                lemma_sorted_keys_unique(msgs, i, j);
            } else {
                lemma_sorted_keys_unique(msgs, j, i);
            }
        }
    }
    if n <= 0 || n > msgs.len() {
    } else {
        lemma_map_entry_excluded_markdown(msgs, n - 1, name);
        let prev = crate::markdown::messages_prefix(msgs, n - 1);
        if crate::descriptor::spec_is_map_entry(msgs[n - 1].1) {
        } else {
            assert(msgs[n - 1].0 != name);
            let section = crate::markdown::message_lines(msgs[n - 1].0, msgs[n - 1].1);
            assert forall|t: int|
                0 <= t < crate::markdown::messages_prefix(msgs, n).len() implies (
            #[trigger] crate::markdown::messages_prefix(msgs, n)[t]) != md_message_header(name) by {
                if t >= prev.len() {
                    lemma_message_lines_no_header(msgs[n - 1].0, msgs[n - 1].1, name, t - prev.len());
                }
            }
        }
    }
}

/// A bound key stays bound when any binding is put.
proof fn lemma_put_keeps_keys<M>(s: Seq<(Seq<char>, M)>, k2: Seq<char>, v: M, k: Seq<char>)
    requires
        crate::index::table_sorted(s),
        spec_get(s, k) is Some,
    ensures
        spec_get(crate::index::spec_put(s, k2, v), k) is Some,
{
    crate::index::lemma_put(s, k2, v);
    if k2 == k {
    } else {
        assert(spec_get(crate::index::spec_put(s, k2, v), k) == spec_get(s, k));
    }
}

/// Registering a list of enums keeps the table sorted and keeps every
/// bound key bound.
proof fn lemma_reg_enums_keeps(
    t: Seq<(Seq<char>, EnumModel)>,
    prefix: Seq<char>,
    es: Seq<EnumModel>,
    k: Seq<char>,
)
    requires
        crate::index::table_sorted(t),
    ensures
        crate::index::table_sorted(crate::builder::reg_enums(t, prefix, es)),
        spec_get(t, k) is Some ==> spec_get(crate::builder::reg_enums(t, prefix, es), k) is Some,
    decreases es.len(),
{
    if es.len() > 0 {
        let k2 = crate::builder::spec_qualify(
            prefix,
            crate::builder::spec_name_or(es[0].name, "UnknownEnum"@),
        );
        crate::index::lemma_put(t, k2, es[0]);
        if spec_get(t, k) is Some {
            lemma_put_keeps_keys(t, k2, es[0], k);
        }
        lemma_reg_enums_keeps(crate::index::spec_put(t, k2, es[0]), prefix, es.skip(1), k);
    }
}

/// Registering one message keeps both tables sorted and keeps every
/// bound key bound; the message's own fully-qualified name comes out
/// bound.
pub proof fn lemma_reg_message_binds(
    mt: Seq<(Seq<char>, MessageModel)>,
    et: Seq<(Seq<char>, EnumModel)>,
    prefix: Seq<char>,
    m: MessageModel,
    k: Seq<char>,
)
    requires
        crate::index::table_sorted(mt),
        crate::index::table_sorted(et),
    ensures
        crate::index::table_sorted(crate::builder::reg_message(mt, et, prefix, m).0),
        crate::index::table_sorted(crate::builder::reg_message(mt, et, prefix, m).1),
        spec_get(mt, k) is Some ==> spec_get(
            crate::builder::reg_message(mt, et, prefix, m).0,
            k,
        ) is Some,
        spec_get(
            crate::builder::reg_message(mt, et, prefix, m).0,
            crate::builder::spec_qualify(
                prefix,
                crate::builder::spec_name_or(m.name, "UnknownMessage"@),
            ),
        ) is Some,
    decreases m, 1int,
{
    let full = crate::builder::spec_qualify(
        prefix,
        crate::builder::spec_name_or(m.name, "UnknownMessage"@),
    );
    crate::index::lemma_put(mt, full, m);
    let mt1 = crate::index::spec_put(mt, full, m);
    if spec_get(mt, k) is Some {
        lemma_put_keeps_keys(mt, full, m, k);
    }
    lemma_reg_enums_keeps(et, full, m.nested_enums, k);
    let et1 = crate::builder::reg_enums(et, full, m.nested_enums);
    lemma_reg_messages_keeps(mt1, et1, full, m.nested_messages, k);
    lemma_reg_messages_keeps(mt1, et1, full, m.nested_messages, full);
}

/// Registering a list of messages keeps both tables sorted and keeps
/// every bound key bound.
pub proof fn lemma_reg_messages_keeps(
    mt: Seq<(Seq<char>, MessageModel)>,
    et: Seq<(Seq<char>, EnumModel)>,
    prefix: Seq<char>,
    ms: Seq<MessageModel>,
    k: Seq<char>,
)
    requires
        crate::index::table_sorted(mt),
        crate::index::table_sorted(et),
    ensures
        crate::index::table_sorted(crate::builder::reg_messages(mt, et, prefix, ms).0),
        crate::index::table_sorted(crate::builder::reg_messages(mt, et, prefix, ms).1),
        spec_get(mt, k) is Some ==> spec_get(
            crate::builder::reg_messages(mt, et, prefix, ms).0,
            k,
        ) is Some,
    decreases ms, 0int,
{
    if ms.len() > 0 {
        lemma_reg_message_binds(mt, et, prefix, ms[0], k);
        let p = crate::builder::reg_message(mt, et, prefix, ms[0]);
        lemma_reg_messages_keeps(p.0, p.1, prefix, ms.skip(1), k);
    }
}

/// The paths pass keeps its table sorted.
proof fn lemma_paths_methods_sorted(
    t: Seq<(Seq<char>, JsonModel)>,
    pkg: Seq<char>,
    service: Seq<char>,
    methods: Seq<MethodModel>,
    n: int,
)
    requires
        crate::index::table_sorted(t),
    ensures
        crate::index::table_sorted(
            crate::bridge::paths_methods_prefix(t, pkg, service, methods, n),
        ),
    decreases n,
{
    if n <= 0 || n > methods.len() {
    } else {
        lemma_paths_methods_sorted(t, pkg, service, methods, n - 1);
        crate::index::lemma_put(
            crate::bridge::paths_methods_prefix(t, pkg, service, methods, n - 1),
            crate::bridge::spec_grpc_path(
                pkg,
                service,
                crate::builder::spec_name_or(methods[n - 1].name, "UnknownMethod"@),
            ),
            crate::bridge::spec_method_entry(pkg, service, methods[n - 1]),
        );
    }
}

/// The services pass keeps its table sorted.
proof fn lemma_paths_services_sorted(
    t: Seq<(Seq<char>, JsonModel)>,
    services: Seq<(Seq<char>, crate::descriptor::ServiceModel)>,
    n: int,
)
    requires
        crate::index::table_sorted(t),
    ensures
        crate::index::table_sorted(crate::bridge::paths_services_prefix(t, services, n)),
    decreases n,
{
    if n <= 0 || n > services.len() {
    } else {
        lemma_paths_services_sorted(t, services, n - 1);
        let full = services[n - 1].0;
        let methods = services[n - 1].1.methods;
        lemma_paths_methods_sorted(
            crate::bridge::paths_services_prefix(t, services, n - 1),
            crate::bridge::spec_service_package(full),
            crate::bridge::spec_service_local(full),
            methods,
            methods.len() as int,
        );
    }
}

/// The message pass keeps its table sorted.
proof fn lemma_schemas_msgs_sorted(
    t: Seq<(Seq<char>, JsonModel)>,
    msgs: Seq<(Seq<char>, MessageModel)>,
    n: int,
    messages: Seq<(Seq<char>, MessageModel)>,
    enums: Seq<(Seq<char>, EnumModel)>,
)
    requires
        crate::index::table_sorted(t),
    ensures
        crate::index::table_sorted(
            crate::bridge::schemas_msgs_prefix(t, msgs, n, messages, enums),
        ),
    decreases n,
{
    if n <= 0 || n > msgs.len() {
    } else {
        lemma_schemas_msgs_sorted(t, msgs, n - 1, messages, enums);
        if !crate::descriptor::spec_is_map_entry(msgs[n - 1].1) {
            crate::index::lemma_put(
                crate::bridge::schemas_msgs_prefix(t, msgs, n - 1, messages, enums),
                msgs[n - 1].0,
                crate::bridge::spec_message_schema(msgs[n - 1].0, msgs[n - 1].1, messages, enums),
            );
        }
    }
}

/// The enum pass keeps its table sorted.
proof fn lemma_schemas_enums_sorted(
    t: Seq<(Seq<char>, JsonModel)>,
    es: Seq<(Seq<char>, EnumModel)>,
    n: int,
)
    requires
        crate::index::table_sorted(t),
    ensures
        crate::index::table_sorted(crate::bridge::schemas_enums_prefix(t, es, n)),
    decreases n,
{
    if n <= 0 || n > es.len() {
    } else {
        lemma_schemas_enums_sorted(t, es, n - 1);
        crate::index::lemma_put(
            crate::bridge::schemas_enums_prefix(t, es, n - 1),
            es[n - 1].0,
            crate::bridge::spec_enum_schema(es[n - 1].1),
        );
    }
}

/// Ordering determinism: both top-level mappings of the bridge — paths
/// and schemas — come out strictly sorted by key, whatever order the
/// index's tables were filled in.
pub proof fn lemma_bridge_mappings_sorted(ix: IndexModel)
    ensures
        crate::index::table_sorted(crate::bridge::spec_paths(ix.services)),
        crate::index::table_sorted(crate::bridge::spec_schemas(ix.messages, ix.enums)),
{
    let base = Seq::<(Seq<char>, JsonModel)>::empty();
    lemma_paths_services_sorted(base, ix.services, ix.services.len() as int);
    lemma_schemas_msgs_sorted(base, ix.messages, ix.messages.len() as int, ix.messages, ix.enums);
    lemma_schemas_enums_sorted(
        crate::bridge::schemas_msgs_prefix(
            base,
            ix.messages,
            ix.messages.len() as int,
            ix.messages,
            ix.enums,
        ),
        ix.enums,
        ix.enums.len() as int,
    );
}

} // verus!
