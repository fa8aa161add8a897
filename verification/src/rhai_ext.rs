//! What the script primitives decide. Scripts reach the application's
//! abilities (HTTP, cryptography, storage, interface state, trust,
//! Markdown, automation handlers) through primitives; the sensitive ones are
//! refused until the script is trusted.
//!
//! This module holds the state the primitives share that is plain data
//! (text tables, the log buffer, the values of automation inputs) and the
//! input declarations of automation handlers. The primitives themselves are
//! in the submodules; binding them to the script engine is left to the
//! caller.

pub mod api_primitives;
pub mod crypto_primitives;
pub mod http_primitives;
pub mod store_primitives;
pub mod trust_primitives;
pub mod ui_primitives;

use vstd::prelude::*;

use crate::assoc::{assoc_get, assoc_map, lemma_replace, without_key};
use crate::crypto::{sm3_digest, sm3_spec};
use crate::text::{
    hex_encode, hex_of, parse_i64_chars, parse_i64_spec, str_eq, string_from_chars, to_chars, trim,
    trim_chars,
};
use vstd::utf8::encode_utf8;

verus! {

/// The organisation banner scripts can read.
pub const SORG_BANNER: &'static str = "<<*>> SOrg :: -^v- SNOWARE\nCopyright (C) 2026~now S.A. Licensed under Mulan PubL v2.";

pub open spec fn pairs_view(v: Seq<(String, String)>) -> Seq<(Seq<char>, Seq<char>)> {
    v.map_values(|e: (String, String)| (e.0@, e.1@))
}

/// A text table: key to text, the last setting of a key winning. It holds
/// the interface texts and the theme colours that scripts set.
pub struct TextTable {
    entries: Vec<(String, String)>,
}

impl View for TextTable {
    type V = Map<Seq<char>, Seq<char>>;

    closed spec fn view(&self) -> Map<Seq<char>, Seq<char>> {
        assoc_map(pairs_view(self.entries@))
    }
}

impl TextTable {
    /// An empty table.
    pub fn new() -> (t: Self)
        ensures
            t@ == Map::<Seq<char>, Seq<char>>::empty(),
    {
        let t = TextTable { entries: Vec::new() };
        assert(t@ =~= Map::<Seq<char>, Seq<char>>::empty());
        t
    }

    /// Sets the text of `key`.
    pub fn set(&mut self, key: &str, value: &str)
        ensures
            final(self)@ == old(self)@.insert(key@, value@),
    {
        let ghost s = pairs_view(self.entries@);
        let mut out: Vec<(String, String)> = Vec::new();
        let n = self.entries.len();
        let mut i: usize = 0;
        assert(s.take(0) =~= Seq::<(Seq<char>, Seq<char>)>::empty());
        while i < n
            invariant
                i <= n == self.entries@.len(),
                s == pairs_view(self.entries@),
                pairs_view(out@) == without_key(s.take(i as int), key@),
            decreases n - i,
        {
            let ghost before = pairs_view(out@);
            assert(s.take(i + 1).drop_last() =~= s.take(i as int));
            if !str_eq(self.entries[i].0.as_str(), key) {
                let e = (self.entries[i].0.clone(), self.entries[i].1.clone());
                out.push(e);
                assert(pairs_view(out@) =~= before.push(s[i as int]));
            }
            i = i + 1;
        }
        assert(s.take(n as int) =~= s);
        let ghost before = pairs_view(out@);
        out.push((String::from_str(key), String::from_str(value)));
        assert(pairs_view(out@) =~= before.push((key@, value@)));
        proof {
            lemma_replace(s, key@, value@);
        }
        self.entries = out;
    }

    /// The text of `key`, if it has one.
    pub fn get(&self, key: &str) -> (r: Option<String>)
        ensures
            self@.dom().contains(key@) ==> (r matches Some(v) && v@ == self@[key@]),
            !self@.dom().contains(key@) ==> r is None,
    {
        let ghost s = pairs_view(self.entries@);
        let mut i = self.entries.len();
        assert(s.take(i as int) =~= s);
        while i > 0
            invariant
                i <= self.entries@.len(),
                s == pairs_view(self.entries@),
                assoc_get(s, key@) == assoc_get(s.take(i as int), key@),
            decreases i,
        {
            assert(s.take(i as int).drop_last() =~= s.take(i - 1));
            if str_eq(self.entries[i - 1].0.as_str(), key) {
                return Some(self.entries[i - 1].1.clone());
            }
            i = i - 1;
        }
        None
    }
}

// ===========================================================================
// Automation inputs
// ===========================================================================

/// An input a script declares for an automation handler.
pub struct AutomationField {
    /// The value's key; values are handed over in declaration order.
    pub key: String,
    /// The label shown.
    pub label: String,
    /// The control: `text` (the default), `password`, `bool` or `multiline`.
    pub kind: String,
}

/// An input declaration in mathematical form.
pub struct FieldV {
    pub key: Seq<char>,
    pub label: Seq<char>,
    pub kind: Seq<char>,
}

impl View for AutomationField {
    type V = FieldV;

    open spec fn view(&self) -> FieldV {
        FieldV { key: self.key@, label: self.label@, kind: self.kind@ }
    }
}

/// The input that a declaration's `key`, `label` and `kind` texts (each
/// empty when the declaration lacks it) make: none without a key; the key
/// stands in for a missing label and `text` for a missing kind.
pub open spec fn field_spec(key: Seq<char>, label: Seq<char>, kind: Seq<char>) -> Option<FieldV> {
    if key.len() == 0 {
        None
    } else {
        Some(
            FieldV {
                key,
                label: if label.len() == 0 {
                    key
                } else {
                    label
                },
                kind: if kind.len() == 0 {
                    "text"@
                } else {
                    kind
                },
            },
        )
    }
}

/// The inputs that a list of declarations makes, in order, skipping those
/// without a key.
pub open spec fn fields_spec(items: Seq<(Seq<char>, Seq<char>, Seq<char>)>) -> Seq<FieldV>
    decreases items.len(),
{
    if items.len() == 0 {
        Seq::empty()
    } else {
        let rest = fields_spec(items.drop_last());
        let (k, l, t) = items.last();
        match field_spec(k, l, t) {
            Some(f) => rest.push(f),
            None => rest,
        }
    }
}

pub open spec fn triples_view(v: Seq<(String, String, String)>) -> Seq<(Seq<char>, Seq<char>, Seq<char>)> {
    v.map_values(|e: (String, String, String)| (e.0@, e.1@, e.2@))
}

pub open spec fn fields_view(v: Seq<AutomationField>) -> Seq<FieldV> {
    v.map_values(|f: AutomationField| f@)
}

/// The input one declaration makes.
pub fn field_from_parts(key: &str, label: &str, kind: &str) -> (r: Option<AutomationField>)
    ensures
        match field_spec(key@, label@, kind@) {
            Some(f) => r matches Some(x) && x@ == f,
            None => r is None,
        },
{
    if key.is_empty() {
        return None;
    }
    let label = if label.is_empty() {
        String::from_str(key)
    } else {
        String::from_str(label)
    };
    let kind = if kind.is_empty() {
        String::from_str("text")
    } else {
        String::from_str(kind)
    };
    Some(AutomationField { key: String::from_str(key), label, kind })
}

/// The inputs that a list of declarations (`key`, `label`, `kind`) makes.
pub fn parse_fields(items: &[(String, String, String)]) -> (r: Vec<AutomationField>)
    ensures
        fields_view(r@) == fields_spec(triples_view(items@)),
{
    let ghost s = triples_view(items@);
    let n = items.len();
    let mut out: Vec<AutomationField> = Vec::new();
    let mut i: usize = 0;
    assert(s.take(0) =~= Seq::<(Seq<char>, Seq<char>, Seq<char>)>::empty());
    while i < n
        invariant
            i <= n == items@.len(),
            s == triples_view(items@),
            fields_view(out@) == fields_spec(s.take(i as int)),
        decreases n - i,
    {
        assert(s.take(i + 1).drop_last() =~= s.take(i as int));
        assert(s.take(i + 1).last() == s[i as int]);
        let f = field_from_parts(items[i].0.as_str(), items[i].1.as_str(), items[i].2.as_str());
        match f {
            Some(x) => {
                let ghost before = fields_view(out@);
                out.push(x);
                assert(fields_view(out@) =~= before.push(x@));
            },
            None => {},
        }
        i = i + 1;
    }
    assert(s.take(n as int) =~= s);
    out
}

/// The values typed into automation inputs, by handler name and input key.
pub struct FieldValues {
    entries: Vec<((String, String), String)>,
}

pub open spec fn keyed_view(v: Seq<((String, String), String)>) -> Seq<((Seq<char>, Seq<char>), Seq<char>)> {
    v.map_values(|e: ((String, String), String)| ((e.0.0@, e.0.1@), e.1@))
}

impl View for FieldValues {
    type V = Map<(Seq<char>, Seq<char>), Seq<char>>;

    closed spec fn view(&self) -> Map<(Seq<char>, Seq<char>), Seq<char>> {
        assoc_map(keyed_view(self.entries@))
    }
}

/// The value of an input: what was typed, or the empty text.
pub open spec fn value_or_empty(m: Map<(Seq<char>, Seq<char>), Seq<char>>, name: Seq<char>, key: Seq<char>) -> Seq<char> {
    if m.dom().contains((name, key)) {
        m[(name, key)]
    } else {
        Seq::empty()
    }
}

impl FieldValues {
    /// No value typed yet.
    pub fn new() -> (f: Self)
        ensures
            f@ == Map::<(Seq<char>, Seq<char>), Seq<char>>::empty(),
    {
        let f = FieldValues { entries: Vec::new() };
        assert(f@ =~= Map::<(Seq<char>, Seq<char>), Seq<char>>::empty());
        f
    }

    /// Records the value of input `key` of handler `name`.
    pub fn set(&mut self, name: &str, key: &str, value: &str)
        ensures
            final(self)@ == old(self)@.insert((name@, key@), value@),
    {
        let ghost s = keyed_view(self.entries@);
        let ghost k = (name@, key@);
        let mut out: Vec<((String, String), String)> = Vec::new();
        let n = self.entries.len();
        let mut i: usize = 0;
        assert(s.take(0) =~= Seq::<((Seq<char>, Seq<char>), Seq<char>)>::empty());
        while i < n
            invariant
                i <= n == self.entries@.len(),
                s == keyed_view(self.entries@),
                k == (name@, key@),
                keyed_view(out@) == without_key(s.take(i as int), k),
            decreases n - i,
        {
            let ghost before = keyed_view(out@);
            assert(s.take(i + 1).drop_last() =~= s.take(i as int));
            let same = str_eq(self.entries[i].0.0.as_str(), name) && str_eq(
                self.entries[i].0.1.as_str(),
                key,
            );
            if !same {
                let e = (
                    (self.entries[i].0.0.clone(), self.entries[i].0.1.clone()),
                    self.entries[i].1.clone(),
                );
                out.push(e);
                assert(keyed_view(out@) =~= before.push(s[i as int]));
            }
            i = i + 1;
        }
        assert(s.take(n as int) =~= s);
        let ghost before = keyed_view(out@);
        out.push(((String::from_str(name), String::from_str(key)), String::from_str(value)));
        assert(keyed_view(out@) =~= before.push((k, value@)));
        proof {
            lemma_replace(s, k, value@);
        }
        self.entries = out;
    }

    /// The value of input `key` of handler `name`, or the empty text.
    pub fn get(&self, name: &str, key: &str) -> (r: String)
        ensures
            r@ == value_or_empty(self@, name@, key@),
    {
        let ghost s = keyed_view(self.entries@);
        let mut i = self.entries.len();
        assert(s.take(i as int) =~= s);
        while i > 0
            invariant
                i <= self.entries@.len(),
                s == keyed_view(self.entries@),
                assoc_get(s, (name@, key@)) == assoc_get(s.take(i as int), (name@, key@)),
            decreases i,
        {
            assert(s.take(i as int).drop_last() =~= s.take(i - 1));
            if str_eq(self.entries[i - 1].0.0.as_str(), name) && str_eq(
                self.entries[i - 1].0.1.as_str(),
                key,
            ) {
                return self.entries[i - 1].1.clone();
            }
            i = i - 1;
        }
        String::new()
    }
}

/// An argument handed to an automation handler.
pub enum FieldArg {
    /// The value of a `bool` input: whether it is `true`.
    Flag(bool),
    /// The text of any other input.
    Text(String),
}

/// What one input hands over.
pub open spec fn field_arg_ok(a: FieldArg, f: FieldV, raw: Seq<char>) -> bool {
    if f.kind == "bool"@ {
        a == FieldArg::Flag(raw == "true"@)
    } else {
        a matches FieldArg::Text(t) && t@ == raw
    }
}

/// The arguments for the inputs `fields` of handler `name`: the value of
/// each, in declaration order, `bool` inputs as flags.
pub(crate) fn field_args(values: &FieldValues, name: &str, fields: &[AutomationField]) -> (r: Vec<
    FieldArg,
>)
    ensures
        r@.len() == fields@.len(),
        forall|i: int|
            0 <= i < fields@.len() ==> field_arg_ok(
                #[trigger] r@[i],
                fields@[i]@,
                value_or_empty(values@, name@, fields@[i].key@),
            ),
{
    let n = fields.len();
    let mut out: Vec<FieldArg> = Vec::new();
    let mut i: usize = 0;
    while i < n
        invariant
            i <= n == fields@.len(),
            out@.len() == i,
            forall|j: int|
                0 <= j < i ==> field_arg_ok(
                    #[trigger] out@[j],
                    fields@[j]@,
                    value_or_empty(values@, name@, fields@[j].key@),
                ),
        decreases n - i,
    {
        let raw = values.get(name, fields[i].key.as_str());
        if str_eq(fields[i].kind.as_str(), "bool") {
            out.push(FieldArg::Flag(str_eq(raw.as_str(), "true")));
        } else {
            out.push(FieldArg::Text(raw));
        }
        i = i + 1;
    }
    out
}

// ===========================================================================
// The built-in script's fingerprint
// ===========================================================================

/// `s` without its carriage returns.
pub open spec fn without_cr(s: Seq<char>) -> Seq<char>
    decreases s.len(),
{
    if s.len() == 0 {
        s
    } else if s.last() == '\r' {
        without_cr(s.drop_last())
    } else {
        without_cr(s.drop_last()).push(s.last())
    }
}

/// The fingerprint of a script: the lower-case hex SM3 digest of its UTF-8
/// text with carriage returns removed (so that CRLF and LF copies agree).
pub fn script_fingerprint(src: &str) -> (r: String)
    ensures
        r@ == hex_of(sm3_spec(encode_utf8(without_cr(src@)))),
{
    let cs = to_chars(src);
    let mut kept: Vec<char> = Vec::new();
    let n = cs.len();
    let mut i: usize = 0;
    assert(cs@.take(0) =~= Seq::<char>::empty());
    while i < n
        invariant
            i <= n == cs@.len(),
            kept@ == without_cr(cs@.take(i as int)),
        decreases n - i,
    {
        assert(cs@.take(i + 1).drop_last() =~= cs@.take(i as int));
        if cs[i] != '\r' {
            kept.push(cs[i]);
        }
        i = i + 1;
    }
    assert(cs@.take(n as int) =~= cs@);
    let text = string_from_chars(kept.as_slice());
    let d = sm3_digest(text.as_str().as_bytes());
    hex_encode(&d)
}

/// The code of a char with an ASCII letter taken in lower case.
pub open spec fn ascii_lower(c: char) -> u32 {
    if 'A' <= c && c <= 'Z' {
        (c as u32 + 32) as u32
    } else {
        c as u32
    }
}

/// Whether two texts are equal ignoring ASCII case.
pub open spec fn eq_ignore_ascii_case(a: Seq<char>, b: Seq<char>) -> bool {
    a.len() == b.len() && forall|i: int| 0 <= i < a.len() ==> ascii_lower(#[trigger] a[i]) == ascii_lower(b[i])
}

fn lower(c: char) -> (r: u32)
    ensures
        r == ascii_lower(c),
{
    if 'A' <= c && c <= 'Z' {
        c as u32 + 32
    } else {
        c as u32
    }
}

/// Whether two char sequences are equal ignoring ASCII case.
pub(crate) fn chars_eq_ignore_ascii_case(a: &[char], b: &[char]) -> (r: bool)
    ensures
        r == eq_ignore_ascii_case(a@, b@),
{
    if a.len() != b.len() {
        return false;
    }
    let n = a.len();
    let mut i: usize = 0;
    while i < n
        invariant
            i <= n == a@.len() == b@.len(),
            forall|k: int| 0 <= k < i ==> ascii_lower(#[trigger] a@[k]) == ascii_lower(b@[k]),
        decreases n - i,
    {
        if lower(a[i]) != lower(b[i]) {
            assert(ascii_lower(a@[i as int]) != ascii_lower(b@[i as int]));
            return false;
        }
        i = i + 1;
    }
    true
}

/// Whether a script is the built-in one unmodified: its fingerprint is the
/// expected one (hex, any case).
pub fn is_builtin_script(src: &str, expected_hex: &str) -> (r: bool)
    ensures
        r == eq_ignore_ascii_case(hex_of(sm3_spec(encode_utf8(without_cr(src@)))), expected_hex@),
{
    let f = script_fingerprint(src);
    let a = to_chars(f.as_str());
    let b = to_chars(expected_hex);
    chars_eq_ignore_ascii_case(a.as_slice(), b.as_slice())
}

// ===========================================================================
// Helpers registered for scripts
// ===========================================================================

/// `to_int`: the trimmed text's decimal value, or 0.
pub fn to_int(s: &str) -> (r: i64)
    ensures
        r == (match parse_i64_spec(trim(s@)) {
            Some(n) => n,
            None => 0,
        }),
{
    let t = trim_chars(to_chars(s).as_slice());
    match parse_i64_chars(t.as_slice()) {
        Some(n) => n,
        None => 0,
    }
}

} // verus!
