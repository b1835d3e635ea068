//! The descriptor data model: immutable snapshots of one compiled proto
//! tree — files, messages, fields, enums, services and methods — decoded
//! once from a descriptor set and never mutated afterwards.
//!
//! Numeric wire facts (field kind, label, number, oneof index) are kept as
//! the raw optional integers of the descriptor encoding; the renderer
//! decodes them through closed enums, so an absent or unknown value
//! degrades the same way everywhere.
//!
//! Every type has a ghost model (its mathematical view): names become
//! character sequences and vectors become sequences, so contracts can
//! speak of descriptor structure without reference to allocation.

use vstd::prelude::*;

verus! {

broadcast use vstd::std_specs::vec::group_vec_axioms;

/// One field of a message: name, wire number, declared kind, type
/// reference (messages and enums only), repetition label, and the index of
/// the owning `oneof` group when the field belongs to one.
#[derive(Debug)]
pub struct FieldDescriptor {
    pub name: Option<String>,
    pub number: Option<i32>,
    pub label: Option<i32>,
    pub field_type: Option<i32>,
    pub type_ref: Option<String>,
    pub oneof_index: Option<i32>,
}

/// One `oneof` group declaration of a message.
#[derive(Debug)]
pub struct OneofDescriptor {
    pub name: Option<String>,
}

/// One value of an enum: name and number.
#[derive(Debug)]
pub struct EnumValueDescriptor {
    pub name: Option<String>,
    pub number: Option<i32>,
}

/// A named closed value set.
#[derive(Debug)]
pub struct EnumDescriptor {
    pub name: Option<String>,
    pub values: Vec<EnumValueDescriptor>,
}

/// A named structural type, with nested messages and enums.
///
/// `map_entry` mirrors the message-options flag marking the synthetic
/// two-field `key`/`value` type the compiler generates for a map field;
/// such a message is an implementation detail and is excluded from
/// user-facing listings.
#[derive(Debug)]
pub struct MessageDescriptor {
    pub name: Option<String>,
    pub fields: Vec<FieldDescriptor>,
    pub nested_messages: Vec<MessageDescriptor>,
    pub nested_enums: Vec<EnumDescriptor>,
    pub oneofs: Vec<OneofDescriptor>,
    pub map_entry: Option<bool>,
}

/// One RPC method: name, input and output type references, and the two
/// streaming flags.
#[derive(Debug)]
pub struct MethodDescriptor {
    pub name: Option<String>,
    pub input_type: Option<String>,
    pub output_type: Option<String>,
    pub client_streaming: Option<bool>,
    pub server_streaming: Option<bool>,
}

/// A named ordered list of methods.
#[derive(Debug)]
pub struct ServiceDescriptor {
    pub name: Option<String>,
    pub methods: Vec<MethodDescriptor>,
}

/// One compiled proto file: optional package, top-level messages, enums
/// and services.
#[derive(Debug)]
pub struct FileDescriptor {
    pub package: Option<String>,
    pub messages: Vec<MessageDescriptor>,
    pub enums: Vec<EnumDescriptor>,
    pub services: Vec<ServiceDescriptor>,
}

/// A decoded descriptor set: the flattened list of compiled files.
#[derive(Debug)]
pub struct DescriptorSet {
    pub files: Vec<FileDescriptor>,
}

/// Model of a field.
pub ghost struct FieldModel {
    pub name: Option<Seq<char>>,
    pub number: Option<i32>,
    pub label: Option<i32>,
    pub field_type: Option<i32>,
    pub type_ref: Option<Seq<char>>,
    pub oneof_index: Option<i32>,
}

/// Model of a `oneof` declaration.
pub ghost struct OneofModel {
    pub name: Option<Seq<char>>,
}

/// Model of an enum value.
pub ghost struct EnumValueModel {
    pub name: Option<Seq<char>>,
    pub number: Option<i32>,
}

/// Model of an enum.
pub ghost struct EnumModel {
    pub name: Option<Seq<char>>,
    pub values: Seq<EnumValueModel>,
}

/// Model of a message, recursive in its nested messages.
pub ghost struct MessageModel {
    pub name: Option<Seq<char>>,
    pub fields: Seq<FieldModel>,
    pub nested_messages: Seq<MessageModel>,
    pub nested_enums: Seq<EnumModel>,
    pub oneofs: Seq<OneofModel>,
    pub map_entry: Option<bool>,
}

/// Model of a method.
pub ghost struct MethodModel {
    pub name: Option<Seq<char>>,
    pub input_type: Option<Seq<char>>,
    pub output_type: Option<Seq<char>>,
    pub client_streaming: Option<bool>,
    pub server_streaming: Option<bool>,
}

/// Model of a service.
pub ghost struct ServiceModel {
    pub name: Option<Seq<char>>,
    pub methods: Seq<MethodModel>,
}

/// Model of a file.
pub ghost struct FileModel {
    pub package: Option<Seq<char>>,
    pub messages: Seq<MessageModel>,
    pub enums: Seq<EnumModel>,
    pub services: Seq<ServiceModel>,
}

/// The view of an optional name.
pub open spec fn opt_str_model(o: Option<String>) -> Option<Seq<char>> {
    match o {
        Some(s) => Some(s@),
        None => None,
    }
}

impl View for FieldDescriptor {
    type V = FieldModel;

    open spec fn view(&self) -> FieldModel {
        FieldModel {
            name: opt_str_model(self.name),
            number: self.number,
            label: self.label,
            field_type: self.field_type,
            type_ref: opt_str_model(self.type_ref),
            oneof_index: self.oneof_index,
        }
    }
}

impl View for OneofDescriptor {
    type V = OneofModel;

    open spec fn view(&self) -> OneofModel {
        OneofModel { name: opt_str_model(self.name) }
    }
}

impl View for EnumValueDescriptor {
    type V = EnumValueModel;

    open spec fn view(&self) -> EnumValueModel {
        EnumValueModel { name: opt_str_model(self.name), number: self.number }
    }
}

impl View for EnumDescriptor {
    type V = EnumModel;

    open spec fn view(&self) -> EnumModel {
        EnumModel {
            name: opt_str_model(self.name),
            values: self.values@.map_values(|v: EnumValueDescriptor| v@),
        }
    }
}

/// Model of one message, defined mutually with the model of a message
/// list so the recursion through nested messages terminates structurally.
pub open spec fn message_model(m: MessageDescriptor) -> MessageModel
    decreases m, 1int,
{
    MessageModel {
        name: opt_str_model(m.name),
        fields: m.fields@.map_values(|f: FieldDescriptor| f@),
        nested_messages: message_list_model(m.nested_messages@),
        nested_enums: m.nested_enums@.map_values(|e: EnumDescriptor| e@),
        oneofs: m.oneofs@.map_values(|o: OneofDescriptor| o@),
        map_entry: m.map_entry,
    }
}

/// Models of a list of messages.
pub open spec fn message_list_model(s: Seq<MessageDescriptor>) -> Seq<MessageModel>
    decreases s, 0int,
{
    if s.len() == 0 {
        Seq::empty()
    } else {
        seq![message_model(s[0])] + message_list_model(s.skip(1))
    }
}

impl View for MessageDescriptor {
    type V = MessageModel;

    open spec fn view(&self) -> MessageModel {
        message_model(*self)
    }
}

/// The message list model is the element-wise model.
pub proof fn lemma_message_list_model(s: Seq<MessageDescriptor>)
    ensures
        message_list_model(s).len() == s.len(),
        forall|i: int| 0 <= i < s.len() ==> message_list_model(s)[i] == s[i]@,
    decreases s.len(),
{
    if s.len() > 0 {
        lemma_message_list_model(s.skip(1));
    }
}

impl View for MethodDescriptor {
    type V = MethodModel;

    open spec fn view(&self) -> MethodModel {
        MethodModel {
            name: opt_str_model(self.name),
            input_type: opt_str_model(self.input_type),
            output_type: opt_str_model(self.output_type),
            client_streaming: self.client_streaming,
            server_streaming: self.server_streaming,
        }
    }
}

impl View for ServiceDescriptor {
    type V = ServiceModel;

    open spec fn view(&self) -> ServiceModel {
        ServiceModel {
            name: opt_str_model(self.name),
            methods: self.methods@.map_values(|m: MethodDescriptor| m@),
        }
    }
}

impl View for FileDescriptor {
    type V = FileModel;

    open spec fn view(&self) -> FileModel {
        FileModel {
            package: opt_str_model(self.package),
            messages: message_list_model(self.messages@),
            enums: self.enums@.map_values(|e: EnumDescriptor| e@),
            services: self.services@.map_values(|s: ServiceDescriptor| s@),
        }
    }
}

impl View for DescriptorSet {
    type V = Seq<FileModel>;

    open spec fn view(&self) -> Seq<FileModel> {
        self.files@.map_values(|f: FileDescriptor| f@)
    }
}

/// Clones an optional name.
fn clone_opt_string(o: &Option<String>) -> (r: Option<String>)
    ensures
        r == *o,
{
    match o {
        Some(s) => Some(s.clone()),
        None => None,
    }
}

impl Clone for FieldDescriptor {
    fn clone(&self) -> (r: Self)
        ensures
            r == *self,
    {
        FieldDescriptor {
            name: clone_opt_string(&self.name),
            number: self.number,
            label: self.label,
            field_type: self.field_type,
            type_ref: clone_opt_string(&self.type_ref),
            oneof_index: self.oneof_index,
        }
    }
}

impl Clone for OneofDescriptor {
    fn clone(&self) -> (r: Self)
        ensures
            r == *self,
    {
        OneofDescriptor { name: clone_opt_string(&self.name) }
    }
}

impl Clone for EnumValueDescriptor {
    fn clone(&self) -> (r: Self)
        ensures
            r == *self,
    {
        EnumValueDescriptor { name: clone_opt_string(&self.name), number: self.number }
    }
}

impl Clone for EnumDescriptor {
    fn clone(&self) -> (r: Self)
        ensures
            r@ == self@,
    {
        let mut values: Vec<EnumValueDescriptor> = Vec::new();
        let mut i: usize = 0;
        while i < self.values.len()
            invariant
                i <= self.values.len(),
                values@ =~= self.values@.take(i as int),
            decreases self.values.len() - i,
        {
            values.push(self.values[i].clone());
            i += 1;
        }
        assert(values@ =~= self.values@);
        let r = EnumDescriptor { name: clone_opt_string(&self.name), values };
        assert(r@ == self@);
        r
    }
}

impl Clone for MessageDescriptor {
    fn clone(&self) -> (r: Self)
        ensures
            r@ == self@,
        decreases *self,
    {
        let mut fields: Vec<FieldDescriptor> = Vec::new();
        let mut i: usize = 0;
        while i < self.fields.len()
            invariant
                i <= self.fields.len(),
                fields@ =~= self.fields@.take(i as int),
            decreases self.fields.len() - i,
        {
            fields.push(self.fields[i].clone());
            i += 1;
        }
        assert(fields@ =~= self.fields@);
        let mut nested_messages: Vec<MessageDescriptor> = Vec::new();
        let mut j: usize = 0;
        while j < self.nested_messages.len()
            invariant
                j <= self.nested_messages.len(),
                nested_messages@.len() == j,
                forall|t: int|
                    0 <= t < j ==> #[trigger] nested_messages@[t]@ == self.nested_messages@[t]@,
            decreases self.nested_messages.len() - j,
        {
            proof {
                assert(decreases_to!(*self => self.nested_messages));
                assert(decreases_to!(self.nested_messages => self.nested_messages@[j as int]));
            }
            nested_messages.push(self.nested_messages[j].clone());
            j += 1;
        }
        let mut nested_enums: Vec<EnumDescriptor> = Vec::new();
        let mut k: usize = 0;
        while k < self.nested_enums.len()
            invariant
                k <= self.nested_enums.len(),
                nested_enums@.len() == k,
                forall|t: int| 0 <= t < k ==> #[trigger] nested_enums@[t]@ == self.nested_enums@[t]@,
            decreases self.nested_enums.len() - k,
        {
            nested_enums.push(self.nested_enums[k].clone());
            k += 1;
        }
        let mut oneofs: Vec<OneofDescriptor> = Vec::new();
        let mut n: usize = 0;
        while n < self.oneofs.len()
            invariant
                n <= self.oneofs.len(),
                oneofs@ =~= self.oneofs@.take(n as int),
            decreases self.oneofs.len() - n,
        {
            oneofs.push(self.oneofs[n].clone());
            n += 1;
        }
        assert(oneofs@ =~= self.oneofs@);
        let r = MessageDescriptor {
            name: clone_opt_string(&self.name),
            fields,
            nested_messages,
            nested_enums,
            oneofs,
            map_entry: self.map_entry,
        };
        proof {
            lemma_message_list_model(r.nested_messages@);
            lemma_message_list_model(self.nested_messages@);
            assert(message_list_model(r.nested_messages@) =~= message_list_model(
                self.nested_messages@,
            ));
            assert(r.nested_enums@.map_values(|e: EnumDescriptor| e@) =~= self.nested_enums@
                .map_values(|e: EnumDescriptor| e@));
            assert(r@.fields =~= self@.fields);
            assert(r@.oneofs =~= self@.oneofs);
        }
        r
    }
}

impl Clone for MethodDescriptor {
    fn clone(&self) -> (r: Self)
        ensures
            r == *self,
    {
        MethodDescriptor {
            name: clone_opt_string(&self.name),
            input_type: clone_opt_string(&self.input_type),
            output_type: clone_opt_string(&self.output_type),
            client_streaming: self.client_streaming,
            server_streaming: self.server_streaming,
        }
    }
}

impl Clone for ServiceDescriptor {
    fn clone(&self) -> (r: Self)
        ensures
            r@ == self@,
    {
        let mut methods: Vec<MethodDescriptor> = Vec::new();
        let mut i: usize = 0;
        while i < self.methods.len()
            invariant
                i <= self.methods.len(),
                methods@ =~= self.methods@.take(i as int),
            decreases self.methods.len() - i,
        {
            methods.push(self.methods[i].clone());
            i += 1;
        }
        assert(methods@ =~= self.methods@);
        let r = ServiceDescriptor { name: clone_opt_string(&self.name), methods };
        assert(r@ == self@);
        r
    }
}

impl Clone for FileDescriptor {
    fn clone(&self) -> (r: Self)
        ensures
            r@ == self@,
    {
        let mut messages: Vec<MessageDescriptor> = Vec::new();
        let mut i: usize = 0;
        while i < self.messages.len()
            invariant
                i <= self.messages.len(),
                messages@.len() == i,
                forall|t: int| 0 <= t < i ==> #[trigger] messages@[t]@ == self.messages@[t]@,
            decreases self.messages.len() - i,
        {
            messages.push(self.messages[i].clone());
            i += 1;
        }
        let mut enums: Vec<EnumDescriptor> = Vec::new();
        let mut j: usize = 0;
        while j < self.enums.len()
            invariant
                j <= self.enums.len(),
                enums@.len() == j,
                forall|t: int| 0 <= t < j ==> #[trigger] enums@[t]@ == self.enums@[t]@,
            decreases self.enums.len() - j,
        {
            enums.push(self.enums[j].clone());
            j += 1;
        }
        let mut services: Vec<ServiceDescriptor> = Vec::new();
        let mut k: usize = 0;
        while k < self.services.len()
            invariant
                k <= self.services.len(),
                services@.len() == k,
                forall|t: int| 0 <= t < k ==> #[trigger] services@[t]@ == self.services@[t]@,
            decreases self.services.len() - k,
        {
            services.push(self.services[k].clone());
            k += 1;
        }
        let r = FileDescriptor { package: clone_opt_string(&self.package), messages, enums, services };
        proof {
            lemma_message_list_model(r.messages@);
            lemma_message_list_model(self.messages@);
            assert(r@.messages =~= self@.messages);
            assert(r@.enums =~= self@.enums);
            assert(r@.services =~= self@.services);
        }
        r
    }
}

impl Clone for DescriptorSet {
    fn clone(&self) -> (r: Self)
        ensures
            r@ == self@,
    {
        let mut files: Vec<FileDescriptor> = Vec::new();
        let mut i: usize = 0;
        while i < self.files.len()
            invariant
                i <= self.files.len(),
                files@.len() == i,
                forall|t: int| 0 <= t < i ==> #[trigger] files@[t]@ == self.files@[t]@,
            decreases self.files.len() - i,
        {
            files.push(self.files[i].clone());
            i += 1;
        }
        let r = DescriptorSet { files };
        assert(r@ =~= self@);
        r
    }
}

/// Whether a message is a synthetic map-entry type.
pub open spec fn spec_is_map_entry(m: MessageModel) -> bool {
    m.map_entry == Some(true)
}

/// Whether a message carries the map-entry marker.
pub fn is_map_entry(message: &MessageDescriptor) -> (r: bool)
    ensures
        r == spec_is_map_entry(message@),
{
    match message.map_entry {
        Some(b) => b,
        None => false,
    }
}

} // verus!
