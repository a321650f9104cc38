//! JSON values as the assistant and its tools exchange them.
//!
//! `JsonValue` holds a parsed JSON document: numbers keep the decimal text
//! that the JSON reader produced, and an object keeps its `(key, value)`
//! entries in order. `Json` is its mathematical model, which the contracts
//! speak of.
use vstd::prelude::*;
use crate::text::{chars_of, string_of};

verus! {

/// A JSON document.
#[derive(Debug)]
pub enum JsonValue {
    Null,
    Bool(bool),
    /// A number, by the decimal text of it (`1`, `-2.5`, `1e3`).
    Number(String),
    Str(String),
    Array(Vec<JsonValue>),
    /// An object's entries, in order; a well-formed object names each key once.
    Object(Vec<(String, JsonValue)>),
}

/// The model of a JSON document.
pub enum Json {
    Null,
    Bool(bool),
    Number(Seq<char>),
    Str(Seq<char>),
    Array(Seq<Json>),
    Object(Seq<(Seq<char>, Json)>),
}

impl JsonValue {
    /// The model of this document.
    pub open spec fn model(self) -> Json
        decreases self,
    {
        match self {
            JsonValue::Null => Json::Null,
            JsonValue::Bool(b) => Json::Bool(b),
            JsonValue::Number(n) => Json::Number(n@),
            JsonValue::Str(s) => Json::Str(s@),
            JsonValue::Array(items) => Json::Array(models(items@)),
            JsonValue::Object(entries) => Json::Object(entry_models(entries@)),
        }
    }
}

/// The models of a sequence of documents.
pub open spec fn models(s: Seq<JsonValue>) -> Seq<Json>
    decreases s,
{
    if s.len() == 0 {
        Seq::empty()
    } else {
        models(s.drop_last()).push(s.last().model())
    }
}

/// The models of a sequence of object entries.
pub open spec fn entry_models(s: Seq<(String, JsonValue)>) -> Seq<(Seq<char>, Json)>
    decreases s,
{
    if s.len() == 0 {
        Seq::empty()
    } else {
        entry_models(s.drop_last()).push((s.last().0@, s.last().1.model()))
    }
}

/// `models` keeps the length and maps each document to its model.
pub proof fn lemma_models(s: Seq<JsonValue>)
    ensures
        models(s).len() == s.len(),
        forall|i: int| 0 <= i < s.len() ==> #[trigger] models(s)[i] == s[i].model(),
    decreases s.len(),
{
    if s.len() > 0 {
        lemma_models(s.drop_last());
    }
}

/// `entry_models` keeps the length and maps each entry to its model.
pub proof fn lemma_entry_models(s: Seq<(String, JsonValue)>)
    ensures
        entry_models(s).len() == s.len(),
        forall|i: int|
            0 <= i < s.len() ==> #[trigger] entry_models(s)[i] == (s[i].0@, s[i].1.model()),
    decreases s.len(),
{
    if s.len() > 0 {
        lemma_entry_models(s.drop_last());
    }
}

/// The value of the first entry named `k`.
pub open spec fn lookup(entries: Seq<(Seq<char>, Json)>, k: Seq<char>) -> Option<Json>
    decreases entries.len(),
{
    if entries.len() == 0 {
        None
    } else if entries[0].0 == k {
        Some(entries[0].1)
    } else {
        lookup(entries.drop_first(), k)
    }
}

impl Json {
    /// `Value::get` with a key: the member named `k` of an object.
    pub open spec fn get(self, k: Seq<char>) -> Option<Json> {
        match self {
            Json::Object(entries) => lookup(entries, k),
            _ => None,
        }
    }

    /// `Value::get` with an index: the item at `i` of an array.
    pub open spec fn at(self, i: int) -> Option<Json> {
        match self {
            Json::Array(items) => if 0 <= i < items.len() {
                Some(items[i])
            } else {
                None
            },
            _ => None,
        }
    }

    /// `Value::as_str`.
    pub open spec fn text(self) -> Option<Seq<char>> {
        match self {
            Json::Str(s) => Some(s),
            _ => None,
        }
    }
}

proof fn lemma_lookup_step(e: Seq<(Seq<char>, Json)>, k: Seq<char>, i: int)
    requires
        0 <= i < e.len(),
    ensures
        e.subrange(i, e.len() as int)[0] == e[i],
        e[i].0 != k ==> lookup(e.subrange(i, e.len() as int), k) == lookup(
            e.subrange(i + 1, e.len() as int),
            k,
        ),
{
    assert(e.subrange(i, e.len() as int).drop_first() =~= e.subrange(i + 1, e.len() as int));
}

impl JsonValue {
    /// The member named `key`, where this is an object that has one.
    pub fn get(&self, key: &str) -> (r: Option<&JsonValue>)
        ensures
            match r {
                Some(v) => self.model().get(key@) == Some(v.model()),
                None => self.model().get(key@) is None,
            },
    {
        match self {
            JsonValue::Object(entries) => {
                let k = key.to_owned();
                let ghost e = entry_models(entries@);
                proof {
                    lemma_entry_models(entries@);
                    assert(e.subrange(0, e.len() as int) =~= e);
                }
                let mut i: usize = 0;
                while i < entries.len()
                    invariant
                        0 <= i <= entries.len(),
                        e == entry_models(entries@),
                        self.model() == Json::Object(e),
                        e.len() == entries.len(),
                        forall|j: int|
                            0 <= j < entries.len() ==> #[trigger] e[j] == (
                                entries@[j].0@,
                                entries@[j].1.model(),
                            ),
                        k@ == key@,
                        lookup(e, key@) == lookup(e.subrange(i as int, e.len() as int), key@),
                    decreases entries.len() - i,
                {
                    proof {
                        lemma_lookup_step(e, key@, i as int);
                    }
                    if entries[i].0 == k {
                        proof {
                            let tail = e.subrange(i as int, e.len() as int);
                            assert(tail[0].0 == key@);
                            assert(lookup(tail, key@) == Some(tail[0].1));
                        }
                        return Some(&entries[i].1);
                    }
                    i = i + 1;
                }
                proof {
                    assert(e.subrange(i as int, e.len() as int).len() == 0);
                }
                None
            },
            _ => None,
        }
    }

    /// The item at `i`, where this is an array that long.
    pub fn at(&self, i: usize) -> (r: Option<&JsonValue>)
        ensures
            match r {
                Some(v) => self.model().at(i as int) == Some(v.model()),
                None => self.model().at(i as int) is None,
            },
    {
        match self {
            JsonValue::Array(items) => {
                proof {
                    lemma_models(items@);
                }
                if i < items.len() {
                    Some(&items[i])
                } else {
                    None
                }
            },
            _ => None,
        }
    }

    /// The text of a string document.
    pub fn as_str(&self) -> (r: Option<&String>)
        ensures
            match r {
                Some(s) => self.model().text() == Some(s@),
                None => self.model().text() is None,
            },
    {
        match self {
            JsonValue::Str(s) => Some(s),
            _ => None,
        }
    }

    /// Whether this is `null`.
    pub fn is_null(&self) -> (r: bool)
        ensures
            r == (self.model() is Null),
    {
        match self {
            JsonValue::Null => true,
            _ => false,
        }
    }
}

/// A lower-case hexadecimal digit, for `d < 16`.
pub open spec fn hex_lower(d: u32) -> char {
    if d == 0 {
        '0'

    } else if d == 1 {
        '1'

    } else if d == 2 {
        '2'

    } else if d == 3 {
        '3'

    } else if d == 4 {
        '4'

    } else if d == 5 {
        '5'

    } else if d == 6 {
        '6'

    } else if d == 7 {
        '7'

    } else if d == 8 {
        '8'

    } else if d == 9 {
        '9'

    } else if d == 10 {
        'a'

    } else if d == 11 {
        'b'

    } else if d == 12 {
        'c'

    } else if d == 13 {
        'd'

    } else if d == 14 {
        'e'
    } else {
        'f'
    }
}

fn hex_lower_exec(d: u32) -> (r: char)
    ensures
        r == hex_lower(d),
{
    if d == 0 {
        '0'

    } else if d == 1 {
        '1'

    } else if d == 2 {
        '2'

    } else if d == 3 {
        '3'

    } else if d == 4 {
        '4'

    } else if d == 5 {
        '5'

    } else if d == 6 {
        '6'

    } else if d == 7 {
        '7'

    } else if d == 8 {
        '8'

    } else if d == 9 {
        '9'

    } else if d == 10 {
        'a'

    } else if d == 11 {
        'b'

    } else if d == 12 {
        'c'

    } else if d == 13 {
        'd'

    } else if d == 14 {
        'e'
    } else {
        'f'
    }
}

/// How `serde_json` writes one character inside a string literal: a quote
/// and a backslash are escaped with a backslash; backspace, form feed, line
/// feed, carriage return and tab have their short escapes; the other
/// control characters below U+0020 become `\u00XX` in lower-case
/// hexadecimal; every other character stands as it is.
pub open spec fn escape_char(c: char) -> Seq<char> {
    if c == '"' {
        seq!['\\', '"']
    } else if c == '\\' {
        seq!['\\', '\\']
    } else if c == '\u{8}' {
        seq!['\\', 'b']
    } else if c == '\u{c}' {
        seq!['\\', 'f']
    } else if c == '\n' {
        seq!['\\', 'n']
    } else if c == '\r' {
        seq!['\\', 'r']
    } else if c == '\t' {
        seq!['\\', 't']
    } else if (c as u32) < 0x20 {
        seq!['\\', 'u', '0', '0', hex_lower((c as u32) / 16), hex_lower((c as u32) % 16)]
    } else {
        seq![c]
    }
}

/// The characters of a string with each escaped as `escape_char` says.
pub open spec fn escaped(s: Seq<char>) -> Seq<char>
    decreases s.len(),
{
    if s.len() == 0 {
        Seq::empty()
    } else {
        escaped(s.drop_last()) + escape_char(s.last())
    }
}

/// What `serde_json` writes for a string: the escaped text in double
/// quotes.
pub open spec fn json_quoted(s: Seq<char>) -> Seq<char> {
    seq!['"'] + escaped(s) + seq!['"']
}

fn push_escaped(out: &mut Vec<char>, c: char)
    ensures
        final(out)@ == old(out)@ + escape_char(c),
{
    let ghost start = out@;
    if c == '"' {
        out.push('\\');
        out.push('"');
    } else if c == '\\' {
        out.push('\\');
        out.push('\\');
    } else if c == '\u{8}' {
        out.push('\\');
        out.push('b');
    } else if c == '\u{c}' {
        out.push('\\');
        out.push('f');
    } else if c == '\n' {
        out.push('\\');
        out.push('n');
    } else if c == '\r' {
        out.push('\\');
        out.push('r');
    } else if c == '\t' {
        out.push('\\');
        out.push('t');
    } else if (c as u32) < 0x20 {
        out.push('\\');
        out.push('u');
        out.push('0');
        out.push('0');
        out.push(hex_lower_exec((c as u32) / 16));
        out.push(hex_lower_exec((c as u32) % 16));
    } else {
        out.push(c);
    }
    assert(out@ =~= start + escape_char(c));
}

/// The JSON string literal of a string, as `serde_json::to_string` writes
/// it (see `json_quoted`).
fn quote_json(s: &str) -> (r: String)
    ensures
        r@ == json_quoted(s@),
{
    let cs = chars_of(s);
    let mut out: Vec<char> = Vec::new();
    out.push('"');
    let mut i: usize = 0;
    while i < cs.len()
        invariant
            i <= cs@.len(),
            out@ == seq!['"'] + escaped(cs@.subrange(0, i as int)),
        decreases cs.len() - i,
    {
        assert(cs@.subrange(0, i + 1).drop_last() =~= cs@.subrange(0, i as int));
        push_escaped(&mut out, cs[i]);
        i = i + 1;
        assert(out@ =~= seq!['"'] + escaped(cs@.subrange(0, i as int)));
    }
    assert(cs@.subrange(0, cs@.len() as int) =~= cs@);
    out.push('"');
    assert(out@ =~= json_quoted(s@));
    string_of(&out)
}

/// The compact JSON text of a document, as `serde_json` writes it: no
/// whitespace, members and items separated by commas.
pub open spec fn json_text(j: Json) -> Seq<char>
    decreases j,
{
    match j {
        Json::Null => seq!['n', 'u', 'l', 'l'],
        Json::Bool(b) => if b {
            seq!['t', 'r', 'u', 'e']
        } else {
            seq!['f', 'a', 'l', 's', 'e']
        },
        Json::Number(n) => n,
        Json::Str(s) => json_quoted(s),
        Json::Array(items) => seq!['['] + items_text(items) + seq![']'],
        Json::Object(entries) => seq!['{'] + entries_text(entries) + seq!['}'],
    }
}

/// The items of an array, written and separated by commas.
pub open spec fn items_text(items: Seq<Json>) -> Seq<char>
    decreases items,
{
    if items.len() == 0 {
        Seq::empty()
    } else if items.len() == 1 {
        json_text(items[0])
    } else {
        items_text(items.drop_last()) + seq![','] + json_text(items.last())
    }
}

/// The members of an object, each as `"key":value`, separated by commas.
pub open spec fn entries_text(e: Seq<(Seq<char>, Json)>) -> Seq<char>
    decreases e,
{
    if e.len() == 0 {
        Seq::empty()
    } else if e.len() == 1 {
        json_quoted(e[0].0) + seq![':'] + json_text(e[0].1)
    } else {
        entries_text(e.drop_last()) + seq![','] + json_quoted(e.last().0) + seq![':'] + json_text(
            e.last().1,
        )
    }
}

proof fn lemma_items_text_step(s: Seq<Json>, i: int)
    requires
        0 <= i < s.len(),
    ensures
        items_text(s.subrange(0, i + 1)) == if i == 0 {
            json_text(s[i])
        } else {
            items_text(s.subrange(0, i)) + seq![','] + json_text(s[i])
        },
{
    assert(s.subrange(0, i + 1).drop_last() =~= s.subrange(0, i));
}

proof fn lemma_entries_text_step(s: Seq<(Seq<char>, Json)>, i: int)
    requires
        0 <= i < s.len(),
    ensures
        entries_text(s.subrange(0, i + 1)) == if i == 0 {
            json_quoted(s[i].0) + seq![':'] + json_text(s[i].1)
        } else {
            entries_text(s.subrange(0, i)) + seq![','] + json_quoted(s[i].0) + seq![':']
                + json_text(s[i].1)
        },
{
    assert(s.subrange(0, i + 1).drop_last() =~= s.subrange(0, i));
}

fn push_all(out: &mut Vec<char>, s: &Vec<char>)
    ensures
        final(out)@ == old(out)@ + s@,
{
    let mut i: usize = 0;
    while i < s.len()
        invariant
            0 <= i <= s.len(),
            out@ == old(out)@ + s@.subrange(0, i as int),
        decreases s.len() - i,
    {
        out.push(s[i]);
        i = i + 1;
        proof {
            assert(s@.subrange(0, i as int) =~= s@.subrange(0, i - 1) + seq![s@[i - 1]]);
        }
    }
    proof {
        assert(s@.subrange(0, s.len() as int) =~= s@);
    }
}

impl JsonValue {
    /// A deep copy.
    pub fn duplicate(&self) -> (r: JsonValue)
        ensures
            r.model() == self.model(),
        decreases self,
    {
        match self {
            JsonValue::Null => JsonValue::Null,
            JsonValue::Bool(b) => JsonValue::Bool(*b),
            JsonValue::Number(n) => JsonValue::Number(n.clone()),
            JsonValue::Str(t) => JsonValue::Str(t.clone()),
            JsonValue::Array(items) => {
                let mut out: Vec<JsonValue> = Vec::new();
                let mut i: usize = 0;
                while i < items.len()
                    invariant
                        0 <= i <= items.len(),
                        *self == JsonValue::Array(*items),
                        out.len() == i,
                        forall|j: int| 0 <= j < i ==> #[trigger] out@[j].model() == items@[j].model(),
                    decreases items.len() - i,
                {
                    proof {
                        assert(decreases_to!(*self => (*self)->Array_0));
                        assert(decreases_to!(*items => items@));
                        assert(decreases_to!(items@ => items@[i as int]));
                        assert(decreases_to!(*self => items@[i as int]));
                    }
                    let d = items[i].duplicate();
                    out.push(d);
                    i = i + 1;
                }
                proof {
                    lemma_models(out@);
                    lemma_models(items@);
                    assert(models(out@) =~= models(items@));
                }
                JsonValue::Array(out)
            },
            JsonValue::Object(entries) => {
                let mut out: Vec<(String, JsonValue)> = Vec::new();
                let mut i: usize = 0;
                while i < entries.len()
                    invariant
                        0 <= i <= entries.len(),
                        *self == JsonValue::Object(*entries),
                        out.len() == i,
                        forall|j: int|
                            0 <= j < i ==> #[trigger] out@[j].0@ == entries@[j].0@ && out@[j].1.model()
                                == entries@[j].1.model(),
                    decreases entries.len() - i,
                {
                    let k = entries[i].0.clone();
                    proof {
                        assert(decreases_to!(*self => (*self)->Object_0));
                        assert(decreases_to!(*entries => entries@));
                        assert(decreases_to!(entries@ => entries@[i as int]));
                        assert(decreases_to!(entries@[i as int] => entries@[i as int].1));
                        assert(decreases_to!(*self => entries@[i as int].1));
                    }
                    let d = entries[i].1.duplicate();
                    out.push((k, d));
                    i = i + 1;
                }
                proof {
                    lemma_entry_models(out@);
                    lemma_entry_models(entries@);
                    assert(entry_models(out@) =~= entry_models(entries@));
                }
                JsonValue::Object(out)
            },
        }
    }

    /// Appends the compact JSON text of this document to `out`.
    pub fn write_text(&self, out: &mut Vec<char>)
        ensures
            final(out)@ == old(out)@ + json_text(self.model()),
        decreases self,
    {
        match self {
            JsonValue::Null => {
                out.push('n');
                out.push('u');
                out.push('l');
                out.push('l');
                proof {
                    assert(final(out)@ =~= old(out)@ + json_text(self.model()));
                }
            },
            JsonValue::Bool(b) => {
                if *b {
                    out.push('t');
                    out.push('r');
                    out.push('u');
                    out.push('e');
                } else {
                    out.push('f');
                    out.push('a');
                    out.push('l');
                    out.push('s');
                    out.push('e');
                }
                proof {
                    assert(final(out)@ =~= old(out)@ + json_text(self.model()));
                }
            },
            JsonValue::Number(n) => {
                let t = chars_of(n.as_str());
                push_all(out, &t);
            },
            JsonValue::Str(t) => {
                let q = chars_of(quote_json(t.as_str()).as_str());
                push_all(out, &q);
            },
            JsonValue::Array(items) => {
                let ghost m = models(items@);
                proof {
                    lemma_models(items@);
                }
                out.push('[');
                let mut i: usize = 0;
                while i < items.len()
                    invariant
                        0 <= i <= items.len(),
                        *self == JsonValue::Array(*items),
                        m == models(items@),
                        m.len() == items.len(),
                        forall|j: int| 0 <= j < items.len() ==> #[trigger] m[j] == items@[j].model(),
                        out@ == old(out)@ + seq!['['] + items_text(m.subrange(0, i as int)),
                    decreases items.len() - i,
                {
                    proof {
                        lemma_items_text_step(m, i as int);
                    }
                    if i > 0 {
                        out.push(',');
                    }
                    proof {
                        assert(decreases_to!(*self => (*self)->Array_0));
                        assert(decreases_to!(*items => items@));
                        assert(decreases_to!(items@ => items@[i as int]));
                        assert(decreases_to!(*self => items@[i as int]));
                    }
                    items[i].write_text(out);
                    i = i + 1;
                }
                out.push(']');
                proof {
                    assert(m.subrange(0, m.len() as int) =~= m);
                    assert(final(out)@ =~= old(out)@ + json_text(self.model()));
                }
            },
            JsonValue::Object(entries) => {
                let ghost m = entry_models(entries@);
                proof {
                    lemma_entry_models(entries@);
                }
                out.push('{');
                let mut i: usize = 0;
                while i < entries.len()
                    invariant
                        0 <= i <= entries.len(),
                        *self == JsonValue::Object(*entries),
                        m == entry_models(entries@),
                        m.len() == entries.len(),
                        forall|j: int|
                            0 <= j < entries.len() ==> #[trigger] m[j] == (
                                entries@[j].0@,
                                entries@[j].1.model(),
                            ),
                        out@ == old(out)@ + seq!['{'] + entries_text(m.subrange(0, i as int)),
                    decreases entries.len() - i,
                {
                    proof {
                        lemma_entries_text_step(m, i as int);
                    }
                    if i > 0 {
                        out.push(',');
                    }
                    let q = chars_of(quote_json(entries[i].0.as_str()).as_str());
                    push_all(out, &q);
                    out.push(':');
                    proof {
                        assert(decreases_to!(*self => (*self)->Object_0));
                        assert(decreases_to!(*entries => entries@));
                        assert(decreases_to!(entries@ => entries@[i as int]));
                        assert(decreases_to!(entries@[i as int] => entries@[i as int].1));
                        assert(decreases_to!(*self => entries@[i as int].1));
                    }
                    entries[i].1.write_text(out);
                    i = i + 1;
                }
                out.push('}');
                proof {
                    assert(m.subrange(0, m.len() as int) =~= m);
                    assert(final(out)@ =~= old(out)@ + json_text(self.model()));
                }
            },
        }
    }

    /// The compact JSON text of this document (`Value::to_string`).
    pub fn to_text(&self) -> (r: String)
        ensures
            r@ == json_text(self.model()),
    {
        let mut out: Vec<char> = Vec::new();
        self.write_text(&mut out);
        proof {
            assert(out@ =~= json_text(self.model()));
        }
        string_of(&out)
    }
}

/// An object names each key once.
pub open spec fn distinct_keys(e: Seq<(Seq<char>, Json)>) -> bool {
    forall|i: int, j: int| 0 <= i < j < e.len() ==> #[trigger] e[i].0 != #[trigger] e[j].0
}

/// A well-formed document: every object in it names each key once, as every
/// document read from JSON text does.
pub open spec fn well_formed(v: Json) -> bool
    decreases v,
{
    match v {
        Json::Object(e) => distinct_keys(e) && forall|i: int|
            0 <= i < e.len() ==> well_formed(#[trigger] e[i].1),
        Json::Array(items) => forall|i: int| 0 <= i < items.len() ==> well_formed(#[trigger] items[i]),
        _ => true,
    }
}

// ───────────────────────── building documents ─────────────────────────

/// A string document.
pub(crate) fn text_value(s: &str) -> (r: JsonValue)
    ensures
        r.model() == Json::Str(s@),
{
    JsonValue::Str(s.to_owned())
}

/// An object member.
pub(crate) fn entry(k: &str, v: JsonValue) -> (r: (String, JsonValue))
    ensures
        r.0@ == k@,
        r.1 == v,
{
    (k.to_owned(), v)
}

/// An object of two members, in this order.
pub(crate) fn object2(a: (String, JsonValue), b: (String, JsonValue)) -> (r: JsonValue)
    ensures
        r.model() == Json::Object(seq![(a.0@, a.1.model()), (b.0@, b.1.model())]),
{
    let mut v: Vec<(String, JsonValue)> = Vec::new();
    v.push(a);
    v.push(b);
    proof {
        lemma_entry_models(v@);
        assert(entry_models(v@) =~= seq![(a.0@, a.1.model()), (b.0@, b.1.model())]);
    }
    JsonValue::Object(v)
}

/// An object of three members, in this order.
pub(crate) fn object3(a: (String, JsonValue), b: (String, JsonValue), c: (String, JsonValue)) -> (r:
    JsonValue)
    ensures
        r.model() == Json::Object(
            seq![(a.0@, a.1.model()), (b.0@, b.1.model()), (c.0@, c.1.model())],
        ),
{
    let mut v: Vec<(String, JsonValue)> = Vec::new();
    v.push(a);
    v.push(b);
    v.push(c);
    proof {
        lemma_entry_models(v@);
        assert(entry_models(v@) =~= seq![
            (a.0@, a.1.model()),
            (b.0@, b.1.model()),
            (c.0@, c.1.model()),
        ]);
    }
    JsonValue::Object(v)
}

/// An object of one member.
pub(crate) fn object1(a: (String, JsonValue)) -> (r: JsonValue)
    ensures
        r.model() == Json::Object(seq![(a.0@, a.1.model())]),
{
    let mut v: Vec<(String, JsonValue)> = Vec::new();
    v.push(a);
    proof {
        lemma_entry_models(v@);
        assert(entry_models(v@) =~= seq![(a.0@, a.1.model())]);
    }
    JsonValue::Object(v)
}

} // verus!

