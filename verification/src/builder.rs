//! The descriptor index builder: walks a flattened descriptor set and
//! registers every package, message, enum and service under its
//! fully-qualified name.
//!
//! The walk is depth-first: a nested type's key is its parent's
//! fully-qualified name extended with its own, which matches the qualifier
//! convention of field type references (a leading separator stripped by
//! `normalize_type_name`). A segment lacking a name is given a
//! deterministic placeholder so that generation always completes.

use vstd::prelude::*;
use vstd::string::StrSliceExecFns;
use vstd::string::StringExecFns;

use crate::descriptor::DescriptorSet;
use crate::descriptor::EnumDescriptor;
use crate::descriptor::EnumModel;
use crate::descriptor::FileDescriptor;
use crate::descriptor::FileModel;
use crate::descriptor::MessageDescriptor;
use crate::descriptor::MessageModel;
use crate::descriptor::ServiceDescriptor;
use crate::descriptor::ServiceModel;
use crate::descriptor::lemma_message_list_model;
use crate::index::OrderedTable;
use crate::index::spec_put;

verus! {

broadcast use vstd::std_specs::vec::group_vec_axioms;

/// A name joined onto a qualifier: a dot between them unless the
/// qualifier is empty.
pub open spec fn spec_qualify(prefix: Seq<char>, name: Seq<char>) -> Seq<char> {
    if prefix.len() == 0 {
        name
    } else {
        prefix + seq!['.'] + name
    }
}

/// Joins a qualifier and a local name.
pub fn qualify(prefix: &str, name: &str) -> (r: String)
    ensures
        r@ == spec_qualify(prefix@, name@),
{
    if prefix.unicode_len() == 0 {
        name.to_owned()
    } else {
        let mut s = prefix.to_owned();
        s.append(".");
        s.append(name);
        proof {
            reveal_strlit(".");
            assert("."@ =~= seq!['.']);
            assert(s@ =~= prefix@ + seq!['.'] + name@);
        }
        s
    }
}

/// A type reference with its leading separators stripped.
pub open spec fn spec_normalize(s: Seq<char>) -> Seq<char>
    decreases s.len(),
{
    if s.len() > 0 && s[0] == '.' {
        spec_normalize(s.skip(1))
    } else {
        s
    }
}

/// Strips the leading separators off a type reference.
pub fn normalize_type_name(s: &str) -> (r: String)
    ensures
        r@ == spec_normalize(s@),
{
    let n = s.unicode_len();
    let mut i: usize = 0;
    proof {
        assert(s@.skip(0) =~= s@);
    }
    while i < n && s.get_char(i) == '.'
        invariant
            n == s@.len(),
            i <= n,
            spec_normalize(s@) == spec_normalize(s@.skip(i as int)),
        decreases n - i,
    {
        proof {
            assert(s@.skip(i as int)[0] == s@[i as int]);
            assert(s@.skip(i as int).skip(1) =~= s@.skip(i + 1));
        }
        i += 1;
    }
    proof {
        if i < n {
            assert(s@.skip(i as int)[0] == s@[i as int]);
        }
        assert(spec_normalize(s@.skip(i as int)) == s@.skip(i as int));
    }
    s.substring_char(i, n).to_owned()
}

/// A name, or a placeholder where none is declared.
pub open spec fn spec_name_or(n: Option<Seq<char>>, d: Seq<char>) -> Seq<char> {
    match n {
        Some(s) => s,
        None => d,
    }
}

/// Returns the declared name, or the given placeholder.
pub fn name_or(n: &Option<String>, d: &str) -> (r: String)
    ensures
        r@ == spec_name_or(crate::descriptor::opt_str_model(*n), d@),
{
    match n {
        Some(s) => s.clone(),
        None => d.to_owned(),
    }
}

/// Model of a built index: its four sorted name tables.
pub ghost struct IndexModel {
    pub packages: Seq<(Seq<char>, FileModel)>,
    pub messages: Seq<(Seq<char>, MessageModel)>,
    pub enums: Seq<(Seq<char>, EnumModel)>,
    pub services: Seq<(Seq<char>, ServiceModel)>,
}

/// The aggregate root: four orderings of fully-qualified name to
/// descriptor, built once and never mutated afterwards.
#[derive(Debug, Clone)]
pub struct DescriptorIndex {
    pub packages: OrderedTable<FileDescriptor>,
    pub messages: OrderedTable<MessageDescriptor>,
    pub enums: OrderedTable<EnumDescriptor>,
    pub services: OrderedTable<ServiceDescriptor>,
}

impl View for DescriptorIndex {
    type V = IndexModel;

    open spec fn view(&self) -> IndexModel {
        IndexModel {
            packages: self.packages@,
            messages: self.messages@,
            enums: self.enums@,
            services: self.services@,
        }
    }
}

impl DescriptorIndex {
    /// All four tables are sorted.
    pub open spec fn wf(&self) -> bool {
        self.packages.wf() && self.messages.wf() && self.enums.wf() && self.services.wf()
    }
}

/// Registers a list of enums under a qualifier, in order.
pub open spec fn reg_enums(
    t: Seq<(Seq<char>, EnumModel)>,
    prefix: Seq<char>,
    es: Seq<EnumModel>,
) -> Seq<(Seq<char>, EnumModel)>
    decreases es.len(),
{
    if es.len() == 0 {
        t
    } else {
        reg_enums(
            spec_put(t, spec_qualify(prefix, spec_name_or(es[0].name, "UnknownEnum"@)), es[0]),
            prefix,
            es.skip(1),
        )
    }
}

/// Registers one message and, depth-first, everything nested in it.
pub open spec fn reg_message(
    mt: Seq<(Seq<char>, MessageModel)>,
    et: Seq<(Seq<char>, EnumModel)>,
    prefix: Seq<char>,
    m: MessageModel,
) -> (Seq<(Seq<char>, MessageModel)>, Seq<(Seq<char>, EnumModel)>)
    decreases m, 1int,
{
    let full = spec_qualify(prefix, spec_name_or(m.name, "UnknownMessage"@));
    reg_messages(
        spec_put(mt, full, m),
        reg_enums(et, full, m.nested_enums),
        full,
        m.nested_messages,
    )
}

/// Registers a list of messages under a qualifier, in order.
pub open spec fn reg_messages(
    mt: Seq<(Seq<char>, MessageModel)>,
    et: Seq<(Seq<char>, EnumModel)>,
    prefix: Seq<char>,
    ms: Seq<MessageModel>,
) -> (Seq<(Seq<char>, MessageModel)>, Seq<(Seq<char>, EnumModel)>)
    decreases ms, 0int,
{
    if ms.len() == 0 {
        (mt, et)
    } else {
        let p = reg_message(mt, et, prefix, ms[0]);
        reg_messages(p.0, p.1, prefix, ms.skip(1))
    }
}

/// Registers a list of services under a package, in order.
pub open spec fn reg_services(
    t: Seq<(Seq<char>, ServiceModel)>,
    pkg: Seq<char>,
    ss: Seq<ServiceModel>,
) -> Seq<(Seq<char>, ServiceModel)>
    decreases ss.len(),
{
    if ss.len() == 0 {
        t
    } else {
        reg_services(
            spec_put(t, spec_qualify(pkg, spec_name_or(ss[0].name, "UnknownService"@)), ss[0]),
            pkg,
            ss.skip(1),
        )
    }
}

/// Registers one file: its package, then its messages depth-first, its
/// file-scope enums, and its services.
pub open spec fn reg_file(ix: IndexModel, f: FileModel) -> IndexModel {
    let pkg = spec_name_or(f.package, Seq::empty());
    let p = reg_messages(ix.messages, ix.enums, pkg, f.messages);
    IndexModel {
        packages: spec_put(ix.packages, pkg, f),
        messages: p.0,
        enums: reg_enums(p.1, pkg, f.enums),
        services: reg_services(ix.services, pkg, f.services),
    }
}

/// Registers a list of files, in order.
pub open spec fn reg_files(ix: IndexModel, fs: Seq<FileModel>) -> IndexModel
    decreases fs.len(),
{
    if fs.len() == 0 {
        ix
    } else {
        reg_files(reg_file(ix, fs[0]), fs.skip(1))
    }
}

/// The empty index.
pub open spec fn empty_index() -> IndexModel {
    IndexModel {
        packages: Seq::empty(),
        messages: Seq::empty(),
        enums: Seq::empty(),
        services: Seq::empty(),
    }
}

/// The index built from a descriptor set.
pub open spec fn spec_build_index(files: Seq<FileModel>) -> IndexModel {
    reg_files(empty_index(), files)
}

/// Registers one message and its nested types, depth-first, prefixing
/// each level's qualifier with the parent's fully-qualified name.
fn collect_message_and_nested(
    prefix: &str,
    message: &MessageDescriptor,
    messages: &mut OrderedTable<MessageDescriptor>,
    enums: &mut OrderedTable<EnumDescriptor>,
)
    requires
        old(messages).wf(),
        old(enums).wf(),
    ensures
        final(messages).wf(),
        final(enums).wf(),
        final(messages)@ == reg_message(old(messages)@, old(enums)@, prefix@, message@).0,
        final(enums)@ == reg_message(old(messages)@, old(enums)@, prefix@, message@).1,
    decreases *message,
{
    let name = name_or(&message.name, "UnknownMessage");
    let full = qualify(prefix, name.as_str());
    messages.insert(full.clone(), message.clone());

    let ghost m = message@;
    let ghost full_s = full@;
    assert(full_s == spec_qualify(prefix@, spec_name_or(m.name, "UnknownMessage"@)));

    let ghost e0 = enums@;
    let mut k: usize = 0;
    proof {
        assert(m.nested_enums.skip(0) =~= m.nested_enums);
        assert(m.nested_enums =~= message.nested_enums@.map_values(|e: EnumDescriptor| e@));
    }
    while k < message.nested_enums.len()
        invariant
            k <= message.nested_enums.len(),
            enums.wf(),
            m == message@,
            full_s == full@,
            m.nested_enums == message.nested_enums@.map_values(|e: EnumDescriptor| e@),
            m.nested_enums.len() == message.nested_enums@.len(),
            reg_enums(enums@, full_s, m.nested_enums.skip(k as int)) == reg_enums(
                e0,
                full_s,
                m.nested_enums,
            ),
        decreases message.nested_enums.len() - k,
    {
        let en = &message.nested_enums[k];
        let enum_name = qualify(full.as_str(), name_or(&en.name, "UnknownEnum").as_str());
        proof {
            assert(m.nested_enums.skip(k as int)[0] == m.nested_enums[k as int]);
            assert(m.nested_enums[k as int] == en@);
            assert(m.nested_enums.skip(k as int).skip(1) =~= m.nested_enums.skip(k + 1));
        }
        enums.insert(enum_name, en.clone());
        k += 1;
    }
    assert(m.nested_enums.skip(message.nested_enums.len() as int) =~= Seq::<EnumModel>::empty());
    assert(enums@ == reg_enums(e0, full_s, m.nested_enums));

    let ghost ms0 = messages@;
    let ghost es0 = enums@;
    let mut j: usize = 0;
    proof {
        lemma_message_list_model(message.nested_messages@);
        assert(m.nested_messages.skip(0) =~= m.nested_messages);
    }
    while j < message.nested_messages.len()
        invariant
            j <= message.nested_messages.len(),
            messages.wf(),
            enums.wf(),
            m == message@,
            full_s == full@,
            m.nested_messages.len() == message.nested_messages@.len(),
            forall|t: int|
                0 <= t < m.nested_messages.len() ==> m.nested_messages[t]
                    == message.nested_messages@[t]@,
            reg_messages(messages@, enums@, full_s, m.nested_messages.skip(j as int))
                == reg_messages(ms0, es0, full_s, m.nested_messages),
        decreases message.nested_messages.len() - j,
    {
        proof {
            assert(decreases_to!(*message => message.nested_messages));
            assert(decreases_to!(message.nested_messages => message.nested_messages@[j as int]));
            assert(m.nested_messages.skip(j as int)[0] == m.nested_messages[j as int]);
            assert(m.nested_messages.skip(j as int).skip(1) =~= m.nested_messages.skip(j + 1));
        }
        collect_message_and_nested(full.as_str(), &message.nested_messages[j], messages, enums);
        j += 1;
    }
    assert(m.nested_messages.skip(message.nested_messages.len() as int) =~= Seq::<
        MessageModel,
    >::empty());
    proof {
        assert(reg_message(old(messages)@, old(enums)@, prefix@, m) == reg_messages(
            spec_put(old(messages)@, full_s, m),
            reg_enums(old(enums)@, full_s, m.nested_enums),
            full_s,
            m.nested_messages,
        ));
    }
}

/// Builds the descriptor index of a decoded descriptor set: every
/// package, message, enum and service registered under its
/// fully-qualified name, each table sorted by key.
pub fn build_index(descriptor_set: &DescriptorSet) -> (r: DescriptorIndex)
    ensures
        r.wf(),
        r@ == spec_build_index(descriptor_set@),
{
    let mut packages: OrderedTable<FileDescriptor> = OrderedTable::new();
    let mut messages: OrderedTable<MessageDescriptor> = OrderedTable::new();
    let mut enums: OrderedTable<EnumDescriptor> = OrderedTable::new();
    let mut services: OrderedTable<ServiceDescriptor> = OrderedTable::new();

    let ghost files = descriptor_set@;
    let mut i: usize = 0;
    proof {
        assert(files.skip(0) =~= files);
        assert(files =~= descriptor_set.files@.map_values(|f: FileDescriptor| f@));
        let ix0 = IndexModel { packages: packages@, messages: messages@, enums: enums@, services: services@ };
        assert(ix0 =~= empty_index());
    }
    while i < descriptor_set.files.len()
        invariant
            i <= descriptor_set.files.len(),
            packages.wf(),
            messages.wf(),
            enums.wf(),
            services.wf(),
            files == descriptor_set@,
            files.len() == descriptor_set.files@.len(),
            forall|t: int| 0 <= t < files.len() ==> files[t] == descriptor_set.files@[t]@,
            reg_files(
                IndexModel {
                    packages: packages@,
                    messages: messages@,
                    enums: enums@,
                    services: services@,
                },
                files.skip(i as int),
            ) == spec_build_index(files),
        decreases descriptor_set.files.len() - i,
    {
        let file = &descriptor_set.files[i];
        let ghost fm = file@;
        let ghost ix_in = IndexModel {
            packages: packages@,
            messages: messages@,
            enums: enums@,
            services: services@,
        };
        proof {
            assert(files.skip(i as int)[0] == files[i as int]);
            assert(files.skip(i as int).skip(1) =~= files.skip(i + 1));
        }
        let package = name_or(&file.package, "");
        proof {
            reveal_strlit("");
            assert(""@ =~= Seq::<char>::empty());
            assert(package@ == spec_name_or(fm.package, Seq::empty()));
        }
        let ghost pkg = package@;
        packages.insert(package.clone(), file.clone());

        let ghost ms0 = messages@;
        let ghost es0 = enums@;
        let mut j: usize = 0;
        proof {
            lemma_message_list_model(file.messages@);
            assert(fm.messages.skip(0) =~= fm.messages);
        }
        while j < file.messages.len()
            invariant
                j <= file.messages.len(),
                messages.wf(),
                enums.wf(),
                fm == file@,
                pkg == package@,
                fm.messages.len() == file.messages@.len(),
                forall|t: int| 0 <= t < fm.messages.len() ==> fm.messages[t] == file.messages@[t]@,
                reg_messages(messages@, enums@, pkg, fm.messages.skip(j as int)) == reg_messages(
                    ms0,
                    es0,
                    pkg,
                    fm.messages,
                ),
            decreases file.messages.len() - j,
        {
            proof {
                assert(fm.messages.skip(j as int)[0] == fm.messages[j as int]);
                assert(fm.messages.skip(j as int).skip(1) =~= fm.messages.skip(j + 1));
            }
            collect_message_and_nested(package.as_str(), &file.messages[j], &mut messages, &mut enums);
            j += 1;
        }
        assert(fm.messages.skip(file.messages.len() as int) =~= Seq::<MessageModel>::empty());

        let ghost ee0 = enums@;
        let mut k: usize = 0;
        proof {
            assert(fm.enums.skip(0) =~= fm.enums);
            assert(fm.enums =~= file.enums@.map_values(|e: EnumDescriptor| e@));
        }
        while k < file.enums.len()
            invariant
                k <= file.enums.len(),
                enums.wf(),
                fm == file@,
                pkg == package@,
                fm.enums.len() == file.enums@.len(),
                fm.enums == file.enums@.map_values(|e: EnumDescriptor| e@),
                reg_enums(enums@, pkg, fm.enums.skip(k as int)) == reg_enums(ee0, pkg, fm.enums),
            decreases file.enums.len() - k,
        {
            let en = &file.enums[k];
            let enum_name = qualify(package.as_str(), name_or(&en.name, "UnknownEnum").as_str());
            proof {
                assert(fm.enums.skip(k as int)[0] == fm.enums[k as int]);
                assert(fm.enums[k as int] == en@);
                assert(fm.enums.skip(k as int).skip(1) =~= fm.enums.skip(k + 1));
            }
            enums.insert(enum_name, en.clone());
            k += 1;
        }
        assert(fm.enums.skip(file.enums.len() as int) =~= Seq::<EnumModel>::empty());

        let ghost ss0 = services@;
        let mut n: usize = 0;
        proof {
            assert(fm.services.skip(0) =~= fm.services);
            assert(fm.services =~= file.services@.map_values(|s: ServiceDescriptor| s@));
        }
        while n < file.services.len()
            invariant
                n <= file.services.len(),
                services.wf(),
                fm == file@,
                pkg == package@,
                fm.services.len() == file.services@.len(),
                fm.services == file.services@.map_values(|s: ServiceDescriptor| s@),
                reg_services(services@, pkg, fm.services.skip(n as int)) == reg_services(
                    ss0,
                    pkg,
                    fm.services,
                ),
            decreases file.services.len() - n,
        {
            let service = &file.services[n];
            let full = qualify(package.as_str(), name_or(&service.name, "UnknownService").as_str());
            proof {
                assert(fm.services.skip(n as int)[0] == fm.services[n as int]);
                assert(fm.services[n as int] == service@);
                assert(fm.services.skip(n as int).skip(1) =~= fm.services.skip(n + 1));
            }
            services.insert(full, service.clone());
            n += 1;
        }
        assert(fm.services.skip(file.services.len() as int) =~= Seq::<ServiceModel>::empty());

        proof {
            let ix_out = IndexModel {
                packages: packages@,
                messages: messages@,
                enums: enums@,
                services: services@,
            };
            assert(ix_out == reg_file(ix_in, fm));
        }
        i += 1;
    }
    assert(files.skip(descriptor_set.files.len() as int) =~= Seq::<FileModel>::empty());
    let r = DescriptorIndex { packages, messages, enums, services };
    assert(r@ == spec_build_index(descriptor_set@));
    r
}

} // verus!
