//! The markdown generator: the human-readable contract document.
//!
//! Fixed top-level sections, in order: package list, services and
//! methods, messages (map-entry messages excluded; a message without
//! fields gets an explicit marker), enums, a fixed error-code legend and
//! a fixed artifact-location footer. The document is a list of lines
//! joined by newlines.

use vstd::prelude::*;
use vstd::string::StrSliceExecFns;
use vstd::string::StringExecFns;

use crate::builder::DescriptorIndex;
use crate::builder::IndexModel;
use crate::builder::name_or;
use crate::builder::normalize_type_name;
use crate::builder::spec_name_or;
use crate::builder::spec_normalize;
use crate::bridge::spec_group_name;
use crate::descriptor::EnumModel;
use crate::descriptor::FieldModel;
use crate::descriptor::FileModel;
use crate::descriptor::MessageModel;
use crate::descriptor::MethodModel;
use crate::descriptor::ServiceModel;
use crate::descriptor::spec_is_map_entry;
use crate::render::enum_value_names;
use crate::render::spec_is_repeated;
use crate::render::spec_readable_field_type;
use crate::render::readable_field_type;
use crate::strutil::dec_int;
use crate::strutil::i64_to_dec;

verus! {

broadcast use vstd::std_specs::vec::group_vec_axioms;

/// The text of a boolean flag.
pub open spec fn bool_text(b: bool) -> Seq<char> {
    if b {
        "true"@
    } else {
        "false"@
    }
}

/// Names joined by a comma and a space.
pub open spec fn join_comma(names: Seq<Seq<char>>, n: int) -> Seq<char>
    decreases n,
{
    if n <= 0 || n > names.len() {
        Seq::empty()
    } else if n == 1 {
        names[0]
    } else {
        join_comma(names, n - 1) + ", "@ + names[n - 1]
    }
}

/// A growing list of document lines.
#[derive(Debug)]
pub struct LineBuf {
    pub lines: Vec<String>,
}

impl View for LineBuf {
    type V = Seq<Seq<char>>;

    open spec fn view(&self) -> Seq<Seq<char>> {
        self.lines@.map_values(|s: String| s@)
    }
}

impl LineBuf {
    /// No lines yet.
    pub fn new() -> (r: LineBuf)
        ensures
            r@ =~= Seq::<Seq<char>>::empty(),
    {
        LineBuf { lines: Vec::new() }
    }

    /// Appends one line.
    pub fn push(&mut self, line: String)
        ensures
            final(self)@ == old(self)@.push(line@),
    {
        self.lines.push(line);
        proof {
            assert(self@ =~= old(self)@.push(line@));
        }
    }

    /// Appends one fixed line.
    pub fn push_str(&mut self, line: &str)
        ensures
            final(self)@ == old(self)@.push(line@),
    {
        self.push(line.to_owned());
    }

    /// Appends one empty line.
    pub fn blank(&mut self)
        ensures
            final(self)@ == old(self)@.push(Seq::empty()),
    {
        proof {
            reveal_strlit("");
            assert(""@ =~= Seq::<char>::empty());
        }
        self.push_str("");
    }
}

/// The fixed document header, through the packages heading.
pub open spec fn md_header() -> Seq<Seq<char>> {
    seq![
        "# gRPC Contract Documentation"@,
        Seq::empty(),
        "Generated from protobuf descriptor set (descriptor-based parser)."@,
        Seq::empty(),
        "## Packages"@,
        Seq::empty(),
    ]
}

/// One package line: the name, or a root marker for the empty package.
pub open spec fn package_line(pkg: Seq<char>) -> Seq<char> {
    "- `"@ + (if pkg.len() == 0 {
        "<root>"@
    } else {
        pkg
    }) + "`"@
}

/// The package lines of the first `n` registered files.
pub open spec fn packages_prefix(pkgs: Seq<(Seq<char>, FileModel)>, n: int) -> Seq<Seq<char>>
    decreases n,
{
    if n <= 0 || n > pkgs.len() {
        Seq::empty()
    } else {
        packages_prefix(pkgs, n - 1).push(package_line(pkgs[n - 1].0))
    }
}

/// One method line: name, input and output types, streaming flags.
pub open spec fn method_line(m: MethodModel) -> Seq<char> {
    let name = spec_name_or(m.name, "UnknownMethod"@);
    let input = spec_normalize(spec_name_or(m.input_type, Seq::empty()));
    let output = spec_normalize(spec_name_or(m.output_type, Seq::empty()));
    let cs = match m.client_streaming {
        Some(b) => b,
        None => false,
    };
    let ss = match m.server_streaming {
        Some(b) => b,
        None => false,
    };
    "- `"@ + name + "`: `"@ + input + "` -> `"@ + output + "` (client_streaming="@ + bool_text(cs)
        + ", server_streaming="@ + bool_text(ss) + ")"@
}

/// The method lines of one service, first `n` methods.
pub open spec fn methods_prefix(ms: Seq<MethodModel>, n: int) -> Seq<Seq<char>>
    decreases n,
{
    if n <= 0 || n > ms.len() {
        Seq::empty()
    } else {
        methods_prefix(ms, n - 1).push(method_line(ms[n - 1]))
    }
}

/// The lines of one service: a header, its methods, a blank line.
pub open spec fn service_lines(full: Seq<char>, svc: ServiceModel) -> Seq<Seq<char>> {
    seq!["### `"@ + full + "`"@, Seq::<char>::empty()] + methods_prefix(
        svc.methods,
        svc.methods.len() as int,
    ) + seq![Seq::<char>::empty()]
}

/// The service section lines of the first `n` registered services.
pub open spec fn services_prefix(services: Seq<(Seq<char>, ServiceModel)>, n: int) -> Seq<Seq<char>>
    decreases n,
{
    if n <= 0 || n > services.len() {
        Seq::empty()
    } else {
        services_prefix(services, n - 1) + service_lines(services[n - 1].0, services[n - 1].1)
    }
}

/// One field line: name, readable type, wire number, repeated flag.
pub open spec fn field_line(f: FieldModel) -> Seq<char> {
    let name = spec_name_or(f.name, "unknown_field"@);
    let number: int = match f.number {
        Some(v) => v as int,
        None => 0,
    };
    let repeated_flag: Seq<char> = if spec_is_repeated(f.label) {
        ", repeated"@
    } else {
        Seq::empty()
    };
    "- `"@ + name + "` (`"@ + spec_readable_field_type(f) + "`, field #"@ + dec_int(number)
        + repeated_flag + ")"@
}

/// The field lines of one message, first `n` fields.
pub open spec fn fields_prefix(fields: Seq<FieldModel>, n: int) -> Seq<Seq<char>>
    decreases n,
{
    if n <= 0 || n > fields.len() {
        Seq::empty()
    } else {
        fields_prefix(fields, n - 1).push(field_line(fields[n - 1]))
    }
}

/// The declared names of the first `n` fields belonging to one `oneof`
/// group.
pub open spec fn group_members(fields: Seq<FieldModel>, idx: int, n: int) -> Seq<Seq<char>>
    decreases n,
{
    if n <= 0 || n > fields.len() {
        Seq::empty()
    } else {
        let rest = group_members(fields, idx, n - 1);
        let in_group = match fields[n - 1].oneof_index {
            Some(v) => v as int == idx,
            None => false,
        };
        if in_group {
            match fields[n - 1].name {
                Some(nm) => rest.push(nm),
                None => rest,
            }
        } else {
            rest
        }
    }
}

/// One `oneof` group line: its name, then its member fields.
pub open spec fn oneof_line(m: MessageModel, idx: int) -> Seq<char> {
    let members = group_members(m.fields, idx, m.fields.len() as int);
    "- `"@ + spec_group_name(m.oneofs, idx) + "`: "@ + join_comma(members, members.len() as int)
}

/// The `oneof` lines of one message, first `n` declarations.
pub open spec fn oneofs_lines_prefix(m: MessageModel, n: int) -> Seq<Seq<char>>
    decreases n,
{
    if n <= 0 || n > m.oneofs.len() {
        Seq::empty()
    } else {
        oneofs_lines_prefix(m, n - 1).push(oneof_line(m, n - 1))
    }
}

/// The lines of one message: a header, its fields (or an explicit marker
/// when it has none), its `oneof` grouping, a blank line.
pub open spec fn message_lines(name: Seq<char>, m: MessageModel) -> Seq<Seq<char>> {
    let header = seq!["### `"@ + name + "`"@, Seq::<char>::empty()];
    let no_fields: Seq<Seq<char>> = if m.fields.len() == 0 {
        seq!["- (no fields)"@]
    } else {
        Seq::empty()
    };
    let oneofs: Seq<Seq<char>> = if m.oneofs.len() > 0 {
        seq![Seq::<char>::empty(), "Oneof groups:"@] + oneofs_lines_prefix(m, m.oneofs.len() as int)
    } else {
        Seq::empty()
    };
    header + no_fields + fields_prefix(m.fields, m.fields.len() as int) + oneofs + seq![
        Seq::<char>::empty(),
    ]
}

/// The message section lines of the first `n` registered messages,
/// map-entry messages excluded.
pub open spec fn messages_prefix(msgs: Seq<(Seq<char>, MessageModel)>, n: int) -> Seq<Seq<char>>
    decreases n,
{
    if n <= 0 || n > msgs.len() {
        Seq::empty()
    } else {
        let prev = messages_prefix(msgs, n - 1);
        if spec_is_map_entry(msgs[n - 1].1) {
            prev
        } else {
            prev + message_lines(msgs[n - 1].0, msgs[n - 1].1)
        }
    }
}

/// One enum line: its name, then all its value names.
pub open spec fn enum_line(name: Seq<char>, e: EnumModel) -> Seq<char> {
    let names = enum_value_names(e.values);
    "- `"@ + name + "`: "@ + join_comma(names, names.len() as int)
}

/// The enum lines of the first `n` registered enums.
pub open spec fn enums_prefix(es: Seq<(Seq<char>, EnumModel)>, n: int) -> Seq<Seq<char>>
    decreases n,
{
    if n <= 0 || n > es.len() {
        Seq::empty()
    } else {
        enums_prefix(es, n - 1).push(enum_line(es[n - 1].0, es[n - 1].1))
    }
}

/// The fixed error-code legend and artifact-location footer.
pub open spec fn md_footer() -> Seq<Seq<char>> {
    seq![
        "## gRPC Error Model"@,
        Seq::empty(),
        "Common status codes exposed by the runtime:"@,
        Seq::empty(),
        "- `INVALID_ARGUMENT` (3): validation failures"@,
        "- `INTERNAL` (13): unexpected server failures"@,
        Seq::empty(),
        "## Artifacts"@,
        Seq::empty(),
        "- Markdown: `docs/generated/grpc-contracts.md`"@,
        "- OpenAPI bridge: `docs/generated/grpc-openapi-bridge.json`"@,
        Seq::empty(),
    ]
}

/// Every line of the document, in order.
pub open spec fn spec_markdown_lines(ix: IndexModel) -> Seq<Seq<char>> {
    md_header() + packages_prefix(ix.packages, ix.packages.len() as int) + seq![
        Seq::<char>::empty(),
        "## Services And Methods"@,
        Seq::<char>::empty(),
    ] + services_prefix(ix.services, ix.services.len() as int) + seq![
        "## Messages"@,
        Seq::<char>::empty(),
    ] + messages_prefix(ix.messages, ix.messages.len() as int) + seq![
        "## Enums"@,
        Seq::<char>::empty(),
    ] + enums_prefix(ix.enums, ix.enums.len() as int) + seq![Seq::<char>::empty()] + md_footer()
}

/// The first `n` lines joined by newlines.
pub open spec fn join_lines(lines: Seq<Seq<char>>, n: int) -> Seq<char>
    decreases n,
{
    if n <= 0 || n > lines.len() {
        Seq::empty()
    } else if n == 1 {
        lines[0]
    } else {
        join_lines(lines, n - 1) + seq!['\n'] + lines[n - 1]
    }
}

/// The whole markdown document of a built index.
pub open spec fn spec_markdown(ix: IndexModel) -> Seq<char> {
    let lines = spec_markdown_lines(ix);
    join_lines(lines, lines.len() as int)
}

/// The text of a boolean flag.
fn bool_str(b: bool) -> (r: &'static str)
    ensures
        r@ == bool_text(b),
{
    if b {
        "true"
    } else {
        "false"
    }
}

/// Appends names joined by a comma and a space.
fn append_joined(names: &Vec<String>, out: &mut String)
    ensures
        final(out)@ == old(out)@ + join_comma(
            names@.map_values(|s: String| s@),
            names@.len() as int,
        ),
{
    let ghost ns = names@.map_values(|s: String| s@);
    let mut i: usize = 0;
    proof {
        reveal_strlit(", ");
        assert(out@ =~= old(out)@ + join_comma(ns, 0));
    }
    while i < names.len()
        invariant
            i <= names.len(),
            ns == names@.map_values(|s: String| s@),
            ns.len() == names@.len(),
            out@ == old(out)@ + join_comma(ns, i as int),
        decreases names.len() - i,
    {
        if i > 0 {
            out.append(", ");
        }
        out.append(names[i].as_str());
        assert(out@ =~= old(out)@ + join_comma(ns, i + 1));
        i += 1;
    }
}

/// One package line.
fn package_line_exec(pkg: &str) -> (r: String)
    ensures
        r@ == package_line(pkg@),
{
    let mut s = String::from_str("- `");
    if pkg.unicode_len() == 0 {
        s.append("<root>");
    } else {
        s.append(pkg);
    }
    s.append("`");
    assert(s@ =~= package_line(pkg@));
    s
}

/// One method line.
fn method_line_exec(method: &crate::descriptor::MethodDescriptor) -> (r: String)
    ensures
        r@ == method_line(method@),
{
    proof {
        reveal_strlit("");
        assert(""@ =~= Seq::<char>::empty());
    }
    let method_name = name_or(&method.name, "UnknownMethod");
    let input_raw = name_or(&method.input_type, "");
    let input = normalize_type_name(input_raw.as_str());
    let output_raw = name_or(&method.output_type, "");
    let output = normalize_type_name(output_raw.as_str());
    let cs = match &method.client_streaming {
        Some(b) => *b,
        None => false,
    };
    let ss = match &method.server_streaming {
        Some(b) => *b,
        None => false,
    };
    let mut s = String::from_str("- `");
    s.append(method_name.as_str());
    s.append("`: `");
    s.append(input.as_str());
    s.append("` -> `");
    s.append(output.as_str());
    s.append("` (client_streaming=");
    s.append(bool_str(cs));
    s.append(", server_streaming=");
    s.append(bool_str(ss));
    s.append(")");
    assert(s@ =~= method_line(method@));
    s
}

/// One field line.
fn field_line_exec(field: &crate::descriptor::FieldDescriptor) -> (r: String)
    ensures
        r@ == field_line(field@),
{
    let field_name = name_or(&field.name, "unknown_field");
    let readable = readable_field_type(field);
    let number: i32 = match &field.number {
        Some(v) => *v,
        None => 0,
    };
    let mut s = String::from_str("- `");
    s.append(field_name.as_str());
    s.append("` (`");
    s.append(readable.as_str());
    s.append("`, field #");
    s.append(i64_to_dec(number as i64).as_str());
    if crate::render::is_repeated(&field.label) {
        s.append(", repeated");
    }
    s.append(")");
    assert(s@ =~= field_line(field@));
    s
}

/// Resolves the name of a `oneof` group by its position in the
/// declaration list.
fn group_name_at(message: &crate::descriptor::MessageDescriptor, idx: usize) -> (r: String)
    requires
        idx < message.oneofs@.len(),
    ensures
        r@ == spec_group_name(message@.oneofs, idx as int),
{
    proof {
        reveal_strlit("oneof_");
    }
    let mut synthetic = String::from_str("oneof_");
    synthetic.append(crate::strutil::u64_to_dec(idx as u64).as_str());
    assert(synthetic@ == "oneof_"@ + dec_int(idx as int));
    let ghost oneofs = message@.oneofs;
    proof {
        assert(oneofs =~= message.oneofs@.map_values(
            |o: crate::descriptor::OneofDescriptor| o@,
        ));
        assert(oneofs[idx as int] == message.oneofs@[idx as int]@);
    }
    match &message.oneofs[idx].name {
        Some(n) => n.clone(),
        None => synthetic,
    }
}

/// The declared names of the fields of one `oneof` group.
fn members_vec(message: &crate::descriptor::MessageDescriptor, idx: usize) -> (r: Vec<String>)
    ensures
        r@.map_values(|s: String| s@) == group_members(
            message@.fields,
            idx as int,
            message@.fields.len() as int,
        ),
{
    let ghost fields = message@.fields;
    let mut names: Vec<String> = Vec::new();
    let mut i: usize = 0;
    proof {
        assert(fields =~= message.fields@.map_values(
            |f: crate::descriptor::FieldDescriptor| f@,
        ));
        assert(names@.map_values(|s: String| s@) =~= group_members(fields, idx as int, 0));
    }
    while i < message.fields.len()
        invariant
            i <= message.fields.len(),
            fields == message@.fields,
            fields.len() == message.fields@.len(),
            forall|t: int| 0 <= t < fields.len() ==> fields[t] == message.fields@[t]@,
            names@.map_values(|s: String| s@) == group_members(fields, idx as int, i as int),
        decreases message.fields.len() - i,
    {
        let f = &message.fields[i];
        let in_group = match &f.oneof_index {
            Some(gi) => {
                if idx <= (i32::MAX as usize) {
                    *gi == idx as i32
                } else {
                    false
                }
            },
            None => false,
        };
        if in_group {
            match &f.name {
                Some(nm) => {
                    names.push(nm.clone());
                    assert(names@.map_values(|s: String| s@) =~= group_members(
                        fields,
                        idx as int,
                        i + 1,
                    ));
                },
                None => {
                    assert(group_members(fields, idx as int, i + 1) == group_members(
                        fields,
                        idx as int,
                        i as int,
                    ));
                },
            }
        } else {
            assert(group_members(fields, idx as int, i + 1) == group_members(
                fields,
                idx as int,
                i as int,
            ));
        }
        i += 1;
    }
    names
}

/// The declared value names of one enum.
fn enum_names_vec(e: &crate::descriptor::EnumDescriptor) -> (r: Vec<String>)
    ensures
        r@.map_values(|s: String| s@) == enum_value_names(e@.values),
{
    let ghost values = e@.values;
    let mut names: Vec<String> = Vec::new();
    let mut i: usize = 0;
    proof {
        assert(values =~= e.values@.map_values(
            |v: crate::descriptor::EnumValueDescriptor| v@,
        ));
        assert(names@.map_values(|s: String| s@) =~= crate::render::names_prefix(values, 0));
    }
    while i < e.values.len()
        invariant
            i <= e.values.len(),
            values == e@.values,
            values.len() == e.values@.len(),
            forall|t: int| 0 <= t < values.len() ==> values[t] == e.values@[t]@,
            names@.map_values(|s: String| s@) == crate::render::names_prefix(values, i as int),
        decreases e.values.len() - i,
    {
        match &e.values[i].name {
            Some(nm) => {
                names.push(nm.clone());
                assert(names@.map_values(|s: String| s@) =~= crate::render::names_prefix(
                    values,
                    i + 1,
                ));
            },
            None => {
                assert(crate::render::names_prefix(values, i + 1) == crate::render::names_prefix(
                    values,
                    i as int,
                ));
            },
        }
        i += 1;
    }
    names
}

/// Appends the lines of one service.
fn push_service_lines(full: &str, service: &crate::descriptor::ServiceDescriptor, buf: &mut LineBuf)
    ensures
        final(buf)@ == old(buf)@ + service_lines(full@, service@),
{
    let mut header = String::from_str("### `");
    header.append(full);
    header.append("`");
    assert(header@ =~= "### `"@ + full@ + "`"@);
    buf.push(header);
    buf.blank();

    let ghost methods = service@.methods;
    let ghost base = buf@;
    let mut i: usize = 0;
    proof {
        assert(methods =~= service.methods@.map_values(
            |m: crate::descriptor::MethodDescriptor| m@,
        ));
        assert(buf@ =~= base + methods_prefix(methods, 0));
    }
    while i < service.methods.len()
        invariant
            i <= service.methods.len(),
            methods == service@.methods,
            methods.len() == service.methods@.len(),
            forall|t: int| 0 <= t < methods.len() ==> methods[t] == service.methods@[t]@,
            buf@ == base + methods_prefix(methods, i as int),
        decreases service.methods.len() - i,
    {
        let line = method_line_exec(&service.methods[i]);
        buf.push(line);
        assert(buf@ =~= base + methods_prefix(methods, i + 1));
        i += 1;
    }
    buf.blank();
    assert(buf@ =~= old(buf)@ + service_lines(full@, service@));
}

/// Appends the lines of one message.
fn push_message_lines(
    name: &str,
    message: &crate::descriptor::MessageDescriptor,
    buf: &mut LineBuf,
)
    ensures
        final(buf)@ == old(buf)@ + message_lines(name@, message@),
{
    let ghost m = message@;
    let mut header = String::from_str("### `");
    header.append(name);
    header.append("`");
    assert(header@ =~= "### `"@ + name@ + "`"@);
    buf.push(header);
    buf.blank();

    if message.fields.len() == 0 {
        buf.push_str("- (no fields)");
        proof {
            assert(m.fields =~= message.fields@.map_values(
                |f: crate::descriptor::FieldDescriptor| f@,
            ));
        }
    }

    let ghost fields = message@.fields;
    let ghost base = buf@;
    let mut i: usize = 0;
    proof {
        assert(fields =~= message.fields@.map_values(
            |f: crate::descriptor::FieldDescriptor| f@,
        ));
        assert(buf@ =~= base + fields_prefix(fields, 0));
    }
    while i < message.fields.len()
        invariant
            i <= message.fields.len(),
            fields == message@.fields,
            fields.len() == message.fields@.len(),
            forall|t: int| 0 <= t < fields.len() ==> fields[t] == message.fields@[t]@,
            buf@ == base + fields_prefix(fields, i as int),
        decreases message.fields.len() - i,
    {
        let line = field_line_exec(&message.fields[i]);
        buf.push(line);
        assert(buf@ =~= base + fields_prefix(fields, i + 1));
        i += 1;
    }

    if message.oneofs.len() > 0 {
        buf.blank();
        buf.push_str("Oneof groups:");
        let ghost obase = buf@;
        let mut k: usize = 0;
        proof {
            assert(m.oneofs =~= message.oneofs@.map_values(
                |o: crate::descriptor::OneofDescriptor| o@,
            ));
            assert(buf@ =~= obase + oneofs_lines_prefix(m, 0));
        }
        while k < message.oneofs.len()
            invariant
                k <= message.oneofs.len(),
                m == message@,
                m.oneofs.len() == message.oneofs@.len(),
                buf@ == obase + oneofs_lines_prefix(m, k as int),
            decreases message.oneofs.len() - k,
        {
            let group = group_name_at(message, k);
            let members = members_vec(message, k);
            let mut line = String::from_str("- `");
            line.append(group.as_str());
            line.append("`: ");
            append_joined(&members, &mut line);
            assert(line@ =~= oneof_line(m, k as int));
            buf.push(line);
            assert(buf@ =~= obase + oneofs_lines_prefix(m, k + 1));
            k += 1;
        }
    }
    buf.blank();
    assert(buf@ =~= old(buf)@ + message_lines(name@, message@));
}

/// Appends the package list lines.
fn push_package_lines(index: &DescriptorIndex, buf: &mut LineBuf)
    ensures
        final(buf)@ == old(buf)@ + packages_prefix(index@.packages, index@.packages.len() as int),
{
    let ghost pkgs = index@.packages;
    let ghost base = buf@;
    let mut i: usize = 0;
    proof {
        assert(buf@ =~= base + packages_prefix(pkgs, 0));
    }
    while i < index.packages.entries.len()
        invariant
            i <= index.packages.entries.len(),
            pkgs == index@.packages,
            pkgs.len() == index.packages.entries@.len(),
            forall|t: int|
                0 <= t < pkgs.len() ==> pkgs[t] == (
                    index.packages.entries@[t].0@,
                    index.packages.entries@[t].1@,
                ),
            buf@ == base + packages_prefix(pkgs, i as int),
        decreases index.packages.entries.len() - i,
    {
        let line = package_line_exec(index.packages.entries[i].0.as_str());
        buf.push(line);
        assert(buf@ =~= base + packages_prefix(pkgs, i + 1));
        i += 1;
    }
}

/// Appends the lines of every service.
fn push_all_services(index: &DescriptorIndex, buf: &mut LineBuf)
    ensures
        final(buf)@ == old(buf)@ + services_prefix(index@.services, index@.services.len() as int),
{
    let ghost services = index@.services;
    let ghost base = buf@;
    let mut j: usize = 0;
    proof {
        assert(buf@ =~= base + services_prefix(services, 0));
    }
    while j < index.services.entries.len()
        invariant
            j <= index.services.entries.len(),
            services == index@.services,
            services.len() == index.services.entries@.len(),
            forall|t: int|
                0 <= t < services.len() ==> services[t] == (
                    index.services.entries@[t].0@,
                    index.services.entries@[t].1@,
                ),
            buf@ == base + services_prefix(services, j as int),
        decreases index.services.entries.len() - j,
    {
        push_service_lines(
            index.services.entries[j].0.as_str(),
            &index.services.entries[j].1,
            buf,
        );
        assert(buf@ =~= base + services_prefix(services, j + 1));
        j += 1;
    }
}

/// Appends the lines of every non-map-entry message.
fn push_all_messages(index: &DescriptorIndex, buf: &mut LineBuf)
    ensures
        final(buf)@ == old(buf)@ + messages_prefix(index@.messages, index@.messages.len() as int),
{
    let ghost msgs = index@.messages;
    let ghost base = buf@;
    let mut k: usize = 0;
    proof {
        assert(buf@ =~= base + messages_prefix(msgs, 0));
    }
    while k < index.messages.entries.len()
        invariant
            k <= index.messages.entries.len(),
            msgs == index@.messages,
            msgs.len() == index.messages.entries@.len(),
            forall|t: int|
                0 <= t < msgs.len() ==> msgs[t] == (
                    index.messages.entries@[t].0@,
                    index.messages.entries@[t].1@,
                ),
            buf@ == base + messages_prefix(msgs, k as int),
        decreases index.messages.entries.len() - k,
    {
        if !crate::descriptor::is_map_entry(&index.messages.entries[k].1) {
            push_message_lines(
                index.messages.entries[k].0.as_str(),
                &index.messages.entries[k].1,
                buf,
            );
        }
        assert(buf@ =~= base + messages_prefix(msgs, k + 1));
        k += 1;
    }
}

/// Appends the line of every enum.
fn push_all_enums(index: &DescriptorIndex, buf: &mut LineBuf)
    ensures
        final(buf)@ == old(buf)@ + enums_prefix(index@.enums, index@.enums.len() as int),
{
    let ghost enums = index@.enums;
    let ghost base = buf@;
    let mut n: usize = 0;
    proof {
        assert(buf@ =~= base + enums_prefix(enums, 0));
    }
    while n < index.enums.entries.len()
        invariant
            n <= index.enums.entries.len(),
            enums == index@.enums,
            enums.len() == index.enums.entries@.len(),
            forall|t: int|
                0 <= t < enums.len() ==> enums[t] == (
                    index.enums.entries@[t].0@,
                    index.enums.entries@[t].1@,
                ),
            buf@ == base + enums_prefix(enums, n as int),
        decreases index.enums.entries.len() - n,
    {
        let names = enum_names_vec(&index.enums.entries[n].1);
        let mut line = String::from_str("- `");
        line.append(index.enums.entries[n].0.as_str());
        line.append("`: ");
        append_joined(&names, &mut line);
        assert(line@ =~= enum_line(enums[n as int].0, enums[n as int].1));
        buf.push(line);
        assert(buf@ =~= base + enums_prefix(enums, n + 1));
        n += 1;
    }
}

/// Joins the buffered lines with newlines.
fn join_buf(buf: &LineBuf) -> (r: String)
    ensures
        r@ == join_lines(buf@, buf@.len() as int),
{
    let ghost lines = buf@;
    let mut out = String::new();
    let mut t: usize = 0;
    proof {
        reveal_strlit("\n");
        assert("\n"@ =~= seq!['\n']);
        assert(out@ =~= join_lines(lines, 0));
    }
    while t < buf.lines.len()
        invariant
            t <= buf.lines.len(),
            lines == buf@,
            lines.len() == buf.lines@.len(),
            forall|q: int| 0 <= q < lines.len() ==> lines[q] == buf.lines@[q]@,
            out@ == join_lines(lines, t as int),
            "\n"@ =~= seq!['\n'],
        decreases buf.lines.len() - t,
    {
        if t > 0 {
            out.append("\n");
        }
        out.append(buf.lines[t].as_str());
        assert(out@ =~= join_lines(lines, t + 1));
        t += 1;
    }
    out
}

/// Builds the markdown contract document of a built index.
#[verifier::rlimit(50)]
pub fn build_markdown(index: &DescriptorIndex) -> (r: String)
    ensures
        r@ == spec_markdown(index@),
{
    let ghost ix = index@;
    let mut buf = LineBuf::new();
    buf.push_str("# gRPC Contract Documentation");
    buf.blank();
    buf.push_str("Generated from protobuf descriptor set (descriptor-based parser).");
    buf.blank();
    buf.push_str("## Packages");
    buf.blank();
    assert(buf@ =~= md_header());

    push_package_lines(index, &mut buf);
    buf.blank();
    buf.push_str("## Services And Methods");
    buf.blank();
    let ghost after_headings = buf@;
    assert(after_headings =~= md_header() + packages_prefix(ix.packages, ix.packages.len() as int)
        + seq![Seq::<char>::empty(), "## Services And Methods"@, Seq::<char>::empty()]);

    push_all_services(index, &mut buf);
    buf.push_str("## Messages");
    buf.blank();
    let ghost after_services = buf@;
    assert(after_services =~= after_headings + services_prefix(
        ix.services,
        ix.services.len() as int,
    ) + seq!["## Messages"@, Seq::<char>::empty()]);

    push_all_messages(index, &mut buf);
    buf.push_str("## Enums");
    buf.blank();
    let ghost after_messages = buf@;
    assert(after_messages =~= after_services + messages_prefix(
        ix.messages,
        ix.messages.len() as int,
    ) + seq!["## Enums"@, Seq::<char>::empty()]);

    push_all_enums(index, &mut buf);
    buf.blank();

    buf.push_str("## gRPC Error Model");
    buf.blank();
    buf.push_str("Common status codes exposed by the runtime:");
    buf.blank();
    buf.push_str("- `INVALID_ARGUMENT` (3): validation failures");
    buf.push_str("- `INTERNAL` (13): unexpected server failures");
    buf.blank();
    buf.push_str("## Artifacts");
    buf.blank();
    buf.push_str("- Markdown: `docs/generated/grpc-contracts.md`");
    buf.push_str("- OpenAPI bridge: `docs/generated/grpc-openapi-bridge.json`");
    buf.blank();
    assert(buf@ =~= after_messages + enums_prefix(ix.enums, ix.enums.len() as int) + seq![
        Seq::<char>::empty(),
    ] + md_footer());
    assert(buf@ =~= spec_markdown_lines(ix));

    join_buf(&buf)
}

} // verus!
