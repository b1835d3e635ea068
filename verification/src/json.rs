//! A small JSON document type and its serializer.
//!
//! The schema bridge is a JSON document built from booleans, strings,
//! arrays and objects (an object keeps its entries in insertion order).
//! `to_text` renders the document in compact form — no whitespace between
//! tokens — with the minimal escaping JSON requires.

use vstd::prelude::*;
use vstd::string::StrSliceExecFns;
use vstd::string::StringExecFns;

verus! {

broadcast use vstd::std_specs::vec::group_vec_axioms;

/// A JSON value: the document shapes the schema bridge needs.
#[derive(Debug)]
pub enum JsonValue {
    Bool(bool),
    Text(String),
    Arr(Vec<JsonValue>),
    Obj(Vec<(String, JsonValue)>),
}

/// Model of a JSON value.
pub ghost enum JsonModel {
    Bool(bool),
    Text(Seq<char>),
    Arr(Seq<JsonModel>),
    Obj(Seq<(Seq<char>, JsonModel)>),
}

/// Model of one JSON value.
pub open spec fn json_model(v: JsonValue) -> JsonModel
    decreases v, 1int,
{
    match v {
        JsonValue::Bool(b) => JsonModel::Bool(b),
        JsonValue::Text(s) => JsonModel::Text(s@),
        JsonValue::Arr(items) => JsonModel::Arr(json_list_model(items@)),
        JsonValue::Obj(entries) => JsonModel::Obj(json_entry_list_model(entries@)),
    }
}

/// Models of a list of JSON values.
pub open spec fn json_list_model(s: Seq<JsonValue>) -> Seq<JsonModel>
    decreases s, 0int,
{
    if s.len() == 0 {
        Seq::empty()
    } else {
        seq![json_model(s[0])] + json_list_model(s.skip(1))
    }
}

/// Models of a list of JSON object entries.
pub open spec fn json_entry_list_model(s: Seq<(String, JsonValue)>) -> Seq<(Seq<char>, JsonModel)>
    decreases s, 0int,
{
    if s.len() == 0 {
        Seq::empty()
    } else {
        seq![(s[0].0@, json_model(s[0].1))] + json_entry_list_model(s.skip(1))
    }
}

impl View for JsonValue {
    type V = JsonModel;

    open spec fn view(&self) -> JsonModel {
        json_model(*self)
    }
}

/// The value list model is the element-wise model.
pub proof fn lemma_json_list_model(s: Seq<JsonValue>)
    ensures
        json_list_model(s).len() == s.len(),
        forall|i: int| 0 <= i < s.len() ==> json_list_model(s)[i] == s[i]@,
    decreases s.len(),
{
    if s.len() > 0 {
        lemma_json_list_model(s.skip(1));
    }
}

/// The entry list model is the element-wise model.
pub proof fn lemma_json_entry_list_model(s: Seq<(String, JsonValue)>)
    ensures
        json_entry_list_model(s).len() == s.len(),
        forall|i: int|
            0 <= i < s.len() ==> json_entry_list_model(s)[i] == (s[i].0@, s[i].1@),
    decreases s.len(),
{
    if s.len() > 0 {
        lemma_json_entry_list_model(s.skip(1));
    }
}

/// A hexadecimal digit character.
pub open spec fn hex_char(d: int) -> char {
    if d == 0 {
        '0'
    } else if d == 1 {
        '1'
    } else if d == 2 {
        '2'
    } else if d == 3 {
        '3'
    } else if d == 4 {
        '4'
    } else if d == 5 {
        '5'
    } else if d == 6 {
        '6'
    } else if d == 7 {
        '7'
    } else if d == 8 {
        '8'
    } else if d == 9 {
        '9'
    } else if d == 10 {
        'a'
    } else if d == 11 {
        'b'
    } else if d == 12 {
        'c'
    } else if d == 13 {
        'd'
    } else if d == 14 {
        'e'
    } else {
        'f'
    }
}

/// The escape of one character inside a JSON string literal.
pub open spec fn esc_char(c: char) -> Seq<char> {
    if c == '"' {
        seq!['\\', '"']
    } else if c == '\\' {
        seq!['\\', '\\']
    } else if c == '\n' {
        seq!['\\', 'n']
    } else if c == '\r' {
        seq!['\\', 'r']
    } else if c == '\t' {
        seq!['\\', 't']
    } else if (c as u32) < 32 {
        seq!['\\', 'u', '0', '0', hex_char((c as u32) as int / 16), hex_char((c as u32) as int % 16)]
    } else {
        seq![c]
    }
}

/// The escape of the first `n` characters of a string.
pub open spec fn esc_prefix(s: Seq<char>, n: int) -> Seq<char>
    decreases n,
{
    if n <= 0 {
        Seq::empty()
    } else {
        esc_prefix(s, n - 1) + esc_char(s[n - 1])
    }
}

/// The escaped body of a JSON string literal.
pub open spec fn spec_escape(s: Seq<char>) -> Seq<char> {
    esc_prefix(s, s.len() as int)
}

/// The compact text of a JSON value.
pub open spec fn spec_json_text(m: JsonModel) -> Seq<char>
    decreases m, 1int,
{
    match m {
        JsonModel::Bool(b) => if b {
            "true"@
        } else {
            "false"@
        },
        JsonModel::Text(s) => seq!['"'] + spec_escape(s) + seq!['"'],
        JsonModel::Arr(items) => seq!['['] + items_prefix(items, items.len() as int) + seq![']'],
        JsonModel::Obj(entries) => seq!['{'] + entries_prefix(entries, entries.len() as int)
            + seq!['}'],
    }
}

/// The text of the first `n` items of an array, comma-separated.
pub open spec fn items_prefix(items: Seq<JsonModel>, n: int) -> Seq<char>
    decreases items, 0int, n,
{
    if n <= 0 || n > items.len() {
        Seq::empty()
    } else if n == 1 {
        spec_json_text(items[0])
    } else {
        items_prefix(items, n - 1) + seq![','] + spec_json_text(items[n - 1])
    }
}

/// The text of the first `n` entries of an object, comma-separated.
pub open spec fn entries_prefix(entries: Seq<(Seq<char>, JsonModel)>, n: int) -> Seq<char>
    decreases entries, 0int, n,
{
    if n <= 0 || n > entries.len() {
        Seq::empty()
    } else {
        let piece = seq!['"'] + spec_escape(entries[n - 1].0) + seq!['"'] + seq![':']
            + spec_json_text(entries[n - 1].1);
        if n == 1 {
            piece
        } else {
            entries_prefix(entries, n - 1) + seq![','] + piece
        }
    }
}

/// A one-character string slice for one hexadecimal digit.
fn hex_str(d: u32) -> (r: &'static str)
    requires
        d < 16,
    ensures
        r@ =~= seq![hex_char(d as int)],
{
    proof {
        reveal_strlit("0");
        reveal_strlit("1");
        reveal_strlit("2");
        reveal_strlit("3");
        reveal_strlit("4");
        reveal_strlit("5");
        reveal_strlit("6");
        reveal_strlit("7");
        reveal_strlit("8");
        reveal_strlit("9");
        reveal_strlit("a");
        reveal_strlit("b");
        reveal_strlit("c");
        reveal_strlit("d");
        reveal_strlit("e");
        reveal_strlit("f");
    }
    match d {
        0 => "0",
        1 => "1",
        2 => "2",
        3 => "3",
        4 => "4",
        5 => "5",
        6 => "6",
        7 => "7",
        8 => "8",
        9 => "9",
        10 => "a",
        11 => "b",
        12 => "c",
        13 => "d",
        14 => "e",
        _ => "f",
    }
}

/// Appends the escaped body of a JSON string literal.
pub fn write_escaped(s: &str, out: &mut String)
    ensures
        final(out)@ == old(out)@ + spec_escape(s@),
{
    let n = s.unicode_len();
    let mut i: usize = 0;
    while i < n
        invariant
            n == s@.len(),
            i <= n,
            out@ == old(out)@ + esc_prefix(s@, i as int),
        decreases n - i,
    {
        let c = s.get_char(i);
        if c == '"' {
            out.append("\\\"");
            proof {
                reveal_strlit("\\\"");
                assert("\\\""@ =~= esc_char(c));
            }
        } else if c == '\\' {
            out.append("\\\\");
            proof {
                reveal_strlit("\\\\");
                assert("\\\\"@ =~= esc_char(c));
            }
        } else if c == '\n' {
            out.append("\\n");
            proof {
                reveal_strlit("\\n");
                assert("\\n"@ =~= esc_char(c));
            }
        } else if c == '\r' {
            out.append("\\r");
            proof {
                reveal_strlit("\\r");
                assert("\\r"@ =~= esc_char(c));
            }
        } else if c == '\t' {
            out.append("\\t");
            proof {
                reveal_strlit("\\t");
                assert("\\t"@ =~= esc_char(c));
            }
        } else if (c as u32) < 32 {
            let u = c as u32;
            out.append("\\u00");
            out.append(hex_str(u / 16));
            out.append(hex_str(u % 16));
            proof {
                reveal_strlit("\\u00");
                assert("\\u00"@ + seq![hex_char(u as int / 16)] + seq![hex_char(u as int % 16)]
                    =~= esc_char(c));
            }
        } else {
            out.append(s.substring_char(i, i + 1));
            proof {
                assert(s@.subrange(i as int, i + 1) =~= seq![c]);
                assert(seq![c] =~= esc_char(c));
            }
        }
        assert(out@ =~= old(out)@ + esc_prefix(s@, i + 1));
        i += 1;
    }
}

/// Appends one JSON string literal: quotes around the escaped body.
pub fn write_quoted(s: &str, out: &mut String)
    ensures
        final(out)@ == old(out)@ + seq!['"'] + spec_escape(s@) + seq!['"'],
{
    proof {
        reveal_strlit("\"");
        assert("\""@ =~= seq!['"']);
    }
    out.append("\"");
    write_escaped(s, out);
    out.append("\"");
    assert(out@ =~= old(out)@ + seq!['"'] + spec_escape(s@) + seq!['"']);
}

impl JsonValue {
    /// Appends the compact text of this value.
    pub fn write(&self, out: &mut String)
        ensures
            final(out)@ == old(out)@ + spec_json_text(self@),
        decreases *self,
    {
        match self {
            JsonValue::Bool(b) => {
                if *b {
                    out.append("true");
                } else {
                    out.append("false");
                }
            },
            JsonValue::Text(s) => {
                write_quoted(s.as_str(), out);
            },
            JsonValue::Arr(items) => {
                proof {
                    reveal_strlit("[");
                    reveal_strlit("]");
                    reveal_strlit(",");
                    assert("["@ =~= seq!['[']);
                    assert("]"@ =~= seq![']']);
                    assert(","@ =~= seq![',']);
                    lemma_json_list_model(items@);
                }
                let ghost ms = json_list_model(items@);
                out.append("[");
                let mut i: usize = 0;
                while i < items.len()
                    invariant
                        i <= items.len(),
                        ms == json_list_model(items@),
                        ms.len() == items@.len(),
                        forall|t: int| 0 <= t < items@.len() ==> ms[t] == items@[t]@,
                        out@ == old(out)@ + seq!['['] + items_prefix(ms, i as int),
                        *self == JsonValue::Arr(*items),
                        ","@ =~= seq![','],
                    decreases items.len() - i,
                {
                    if i > 0 {
                        out.append(",");
                    }
                    proof {
                        assert(decreases_to!(*self => self->Arr_0));
                        assert(decreases_to!(*items => items@[i as int]));
                        assert(decreases_to!(*self => items@[i as int]));
                    }
                    items[i].write(out);
                    assert(out@ =~= old(out)@ + seq!['['] + items_prefix(ms, i + 1));
                    i += 1;
                }
                out.append("]");
                assert(out@ =~= old(out)@ + spec_json_text(self@));
            },
            JsonValue::Obj(entries) => {
                proof {
                    reveal_strlit("{");
                    reveal_strlit("}");
                    reveal_strlit(",");
                    reveal_strlit(":");
                    assert("{"@ =~= seq!['{']);
                    assert("}"@ =~= seq!['}']);
                    assert(","@ =~= seq![',']);
                    assert(":"@ =~= seq![':']);
                    lemma_json_entry_list_model(entries@);
                }
                let ghost ms = json_entry_list_model(entries@);
                out.append("{");
                let mut i: usize = 0;
                while i < entries.len()
                    invariant
                        i <= entries.len(),
                        ms == json_entry_list_model(entries@),
                        ms.len() == entries@.len(),
                        forall|t: int|
                            0 <= t < entries@.len() ==> ms[t] == (entries@[t].0@, entries@[t].1@),
                        out@ == old(out)@ + seq!['{'] + entries_prefix(ms, i as int),
                        *self == JsonValue::Obj(*entries),
                        ","@ =~= seq![','],
                        ":"@ =~= seq![':'],
                    decreases entries.len() - i,
                {
                    if i > 0 {
                        out.append(",");
                    }
                    write_quoted(entries[i].0.as_str(), out);
                    out.append(":");
                    proof {
                        assert(decreases_to!(*self => self->Obj_0));
                        assert(decreases_to!(*entries => entries@[i as int]));
                        assert(decreases_to!(entries@[i as int] => entries@[i as int].1));
                        assert(decreases_to!(*self => entries@[i as int].1));
                    }
                    entries[i].1.write(out);
                    assert(out@ =~= old(out)@ + seq!['{'] + entries_prefix(ms, i + 1));
                    i += 1;
                }
                out.append("}");
                assert(out@ =~= old(out)@ + spec_json_text(self@));
            },
        }
    }

    /// The compact text of this value.
    pub fn to_text(&self) -> (r: String)
        ensures
            r@ == spec_json_text(self@),
    {
        let mut out = String::new();
        self.write(&mut out);
        assert(out@ =~= spec_json_text(self@));
        out
    }
}

/// A string value.
pub fn txt(s: &str) -> (r: JsonValue)
    ensures
        r@ == JsonModel::Text(s@),
{
    JsonValue::Text(s.to_owned())
}

/// A boolean value.
pub fn jbool(b: bool) -> (r: JsonValue)
    ensures
        r@ == JsonModel::Bool(b),
{
    JsonValue::Bool(b)
}

/// Builds a JSON object, keeping entries in insertion order.
#[derive(Debug)]
pub struct JsonObjBuilder {
    pub entries: Vec<(String, JsonValue)>,
}

impl View for JsonObjBuilder {
    type V = Seq<(Seq<char>, JsonModel)>;

    open spec fn view(&self) -> Seq<(Seq<char>, JsonModel)> {
        json_entry_list_model(self.entries@)
    }
}

impl JsonObjBuilder {
    /// An object with no entries yet.
    pub fn new() -> (r: JsonObjBuilder)
        ensures
            r@ =~= Seq::<(Seq<char>, JsonModel)>::empty(),
    {
        let r = JsonObjBuilder { entries: Vec::new() };
        proof {
            lemma_json_entry_list_model(r.entries@);
        }
        r
    }

    /// Appends one entry.
    pub fn set(&mut self, key: &str, value: JsonValue)
        ensures
            final(self)@ == old(self)@.push((key@, value@)),
    {
        self.entries.push((key.to_owned(), value));
        proof {
            lemma_json_entry_list_model(self.entries@);
            lemma_json_entry_list_model(old(self).entries@);
            assert(self@ =~= old(self)@.push((key@, value@)));
        }
    }

    /// The finished object.
    pub fn build(self) -> (r: JsonValue)
        ensures
            r@ == JsonModel::Obj(self@),
    {
        JsonValue::Obj(self.entries)
    }
}

/// Builds a JSON array, keeping items in insertion order.
#[derive(Debug)]
pub struct JsonArrBuilder {
    pub items: Vec<JsonValue>,
}

impl View for JsonArrBuilder {
    type V = Seq<JsonModel>;

    open spec fn view(&self) -> Seq<JsonModel> {
        json_list_model(self.items@)
    }
}

impl JsonArrBuilder {
    /// An array with no items yet.
    pub fn new() -> (r: JsonArrBuilder)
        ensures
            r@ =~= Seq::<JsonModel>::empty(),
    {
        let r = JsonArrBuilder { items: Vec::new() };
        proof {
            lemma_json_list_model(r.items@);
        }
        r
    }

    /// Appends one item.
    pub fn push(&mut self, value: JsonValue)
        ensures
            final(self)@ == old(self)@.push(value@),
    {
        self.items.push(value);
        proof {
            lemma_json_list_model(self.items@);
            lemma_json_list_model(old(self).items@);
            assert(self@ =~= old(self)@.push(value@));
        }
    }

    /// The finished array.
    pub fn build(self) -> (r: JsonValue)
        ensures
            r@ == JsonModel::Arr(self@),
    {
        JsonValue::Arr(self.items)
    }
}

} // verus!
