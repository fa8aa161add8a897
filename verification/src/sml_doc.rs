//! SML documents, read and written by the `swsml` library (its crate name
//! is `sml`).
//!
//! A document read here is what the library's logic looks at: the fields
//! of the top-level block, each a scalar or a list of scalars. Booleans,
//! integers and strings are kept; any other value (null, float, array or
//! block where a scalar stands) is marked as such, its contents not kept. A
//! document written here is a block of strings, integers, booleans and
//! string lists.

use vstd::prelude::*;

use crate::assoc::{assoc_get, assoc_map};
use crate::config::{meets_config_contract, CONFIG_CONTRACT};
use crate::text::is_ws;

verus! {

// ===========================================================================
// What is read
// ===========================================================================

/// A scalar as read.
pub enum SmlScalar {
    Bool(bool),
    Int(i64),
    Str(String),
    /// Null, a float, an array or a block.
    Other,
}

/// A scalar in mathematical form.
pub enum ScalarV {
    Bool(bool),
    Int(i64),
    Str(Seq<char>),
    Other,
}

impl View for SmlScalar {
    type V = ScalarV;

    open spec fn view(&self) -> ScalarV {
        match self {
            SmlScalar::Bool(b) => ScalarV::Bool(*b),
            SmlScalar::Int(n) => ScalarV::Int(*n),
            SmlScalar::Str(s) => ScalarV::Str(s@),
            SmlScalar::Other => ScalarV::Other,
        }
    }
}

/// The value of a field.
pub enum SmlField {
    Scalar(SmlScalar),
    /// An array: its items.
    List(Vec<SmlScalar>),
}

/// A field value in mathematical form.
pub enum FieldV {
    Scalar(ScalarV),
    List(Seq<ScalarV>),
}

pub open spec fn scalars_view(v: Seq<SmlScalar>) -> Seq<ScalarV> {
    v.map_values(|s: SmlScalar| s@)
}

impl View for SmlField {
    type V = FieldV;

    open spec fn view(&self) -> FieldV {
        match self {
            SmlField::Scalar(s) => FieldV::Scalar(s@),
            SmlField::List(l) => FieldV::List(scalars_view(l@)),
        }
    }
}

/// The fields of a document in mathematical form.
pub open spec fn fields_view(f: Seq<(String, SmlField)>) -> Seq<(Seq<char>, FieldV)> {
    f.map_values(|e: (String, SmlField)| (e.0@, e.1@))
}

/// The value of field `key`.
pub open spec fn field_at(fields: Seq<(Seq<char>, FieldV)>, key: Seq<char>) -> Option<FieldV> {
    assoc_get(fields, key)
}

/// Whether two documents give every key the same value.
pub open spec fn same_fields(a: Seq<(Seq<char>, FieldV)>, b: Seq<(Seq<char>, FieldV)>) -> bool {
    forall|k: Seq<char>| #[trigger] field_at(a, k) == field_at(b, k)
}

// ===========================================================================
// Blocks the library reads back as written
// ===========================================================================

/// `t` holds `p` starting at `i`.
pub open spec fn holds_at(t: Seq<char>, i: int, p: Seq<char>) -> bool {
    0 <= i && i + p.len() <= t.len() && t.subrange(i, i + p.len()) == p
}

/// `t` holds `p` somewhere.
pub open spec fn holds(t: Seq<char>, p: Seq<char>) -> bool {
    exists|i: int| holds_at(t, i, p)
}

/// A char for which the library writes a string in quotes.
pub open spec fn quote_trigger(c: char) -> bool {
    c == ' ' || c == '\t' || c == '\n' || c == '\r' || c == ':' || c == '#' || c == '{' || c == '}'
}

/// Whether the library writes `s` in quotes: it is empty or holds a
/// [`quote_trigger`].
pub open spec fn written_quoted(s: Seq<char>) -> bool {
    s.len() == 0 || exists|i: int| 0 <= i < s.len() && quote_trigger(s[i])
}

/// The chars a bare word that reads as a number (an `i64` or an `f64`,
/// `inf`, `infinity` and `nan` in any case included) is made of.
pub open spec fn number_char(c: char) -> bool {
    ||| '0' <= c && c <= '9'
    ||| c == '+' || c == '-' || c == '.' || c == 'e' || c == 'E'
    ||| c == 'i' || c == 'n' || c == 'f' || c == 't' || c == 'y' || c == 'a'
    ||| c == 'I' || c == 'N' || c == 'F' || c == 'T' || c == 'Y' || c == 'A'
}

/// `$env.`, the start of an environment reference.
pub open spec fn env_mark() -> Seq<char> {
    seq!['$', 'e', 'n', 'v', '.']
}

/// Whether a string written as a bare word reads back as that string: no
/// char of it ends the word (`"`, `[`, `]`, `,`), it starts no directive
/// (`@`) and holds no comment (`--`, `//`, `/*`, `_*`), and it is neither
/// `true`, `false`, `null`, a number, nor an environment reference.
pub open spec fn bare_word_reads_back(s: Seq<char>) -> bool {
    &&& s.len() > 0 && s[0] != '@'
    &&& forall|i: int| 0 <= i < s.len() ==> s[i] != '"' && s[i] != '[' && s[i] != ']' && s[i] != ','
    &&& !holds(s, seq!['-', '-']) && !holds(s, seq!['/', '/'])
    &&& !holds(s, seq!['/', '*']) && !holds(s, seq!['_', '*'])
    &&& s != seq!['t', 'r', 'u', 'e'] && s != seq!['f', 'a', 'l', 's', 'e'] && s != seq!['n', 'u', 'l', 'l']
    &&& !holds_at(s, 0, env_mark())
    &&& exists|i: int| 0 <= i < s.len() && !number_char(s[i])
}

/// Whether the line of a quoted string that starts at `i` is safe from the
/// `@version` pass, which reads every line of the text on its own: after
/// its leading white space it does not begin with `@` or a block comment.
pub open spec fn line_safe(s: Seq<char>, i: int) -> bool {
    forall|j: int|
        #![trigger s[j]]
        i <= j < s.len() && (forall|k: int| i <= k < j ==> is_ws(#[trigger] s[k])) ==> {
            &&& s[j] != '@'
            &&& !(s[j] == '/' && j + 1 < s.len() && s[j + 1] == '*')
            &&& !(s[j] == '_' && j + 1 < s.len() && s[j + 1] == '*')
        }
}

/// Whether a string written in quotes (its `\\` and `"` escaped) reads
/// back as that string: it is no environment reference, holds no CR LF
/// line end (lines are read without their CR), and each of its lines after
/// the first is [`line_safe`].
pub open spec fn quoted_reads_back(s: Seq<char>) -> bool {
    &&& !holds_at(s, 0, env_mark())
    &&& !holds(s, seq!['\r', '\n'])
    &&& forall|i: int| 0 <= i < s.len() && s[i] == '\n' ==> line_safe(s, i + 1)
}

/// Whether the library reads a written string back as itself.
pub open spec fn str_reads_back(s: Seq<char>) -> bool {
    if written_quoted(s) {
        quoted_reads_back(s)
    } else {
        bare_word_reads_back(s)
    }
}

/// Whether a written value reads back as [`read_back`] gives it.
pub open spec fn out_reads_back(o: OutV) -> bool {
    match o {
        OutV::Bool(_) => true,
        OutV::Int(_) => true,
        OutV::Str(s) => str_reads_back(s),
        OutV::StrList(l) => forall|i: int| 0 <= i < l.len() ==> str_reads_back(#[trigger] l[i]),
    }
}

/// A key the library writes bare and reads back: lower-case letters and
/// `_`, and not the block-type key `__type`.
pub open spec fn key_reads_back(k: Seq<char>) -> bool {
    &&& k.len() > 0
    &&& forall|i: int| 0 <= i < k.len() ==> ('a' <= #[trigger] k[i] && k[i] <= 'z') || k[i] == '_'
    &&& k != seq!['_', '_', 't', 'y', 'p', 'e']
}

/// Whether the library reads the block `m` back as written: it is finite,
/// and every key and every value reads back.
pub open spec fn block_reads_back(m: Map<Seq<char>, OutV>) -> bool {
    &&& m.dom().finite()
    &&& forall|k: Seq<char>| #[trigger] m.dom().contains(k) ==> key_reads_back(k) && out_reads_back(m[k])
}

/// The fields read are those of the block `m`, each as [`read_back`] gives
/// it.
pub open spec fn fields_of_block(fs: Seq<(Seq<char>, FieldV)>, m: Map<Seq<char>, OutV>) -> bool {
    forall|k: Seq<char>|
        #[trigger] field_at(fs, k) == (if m.dom().contains(k) {
            Some(read_back(m[k]))
        } else {
            None
        })
}

/// Whether a read document is a block with the fields of `m`.
pub open spec fn reads_as_block(
    d: Result<Option<Seq<(Seq<char>, FieldV)>>, Seq<char>>,
    m: Map<Seq<char>, OutV>,
) -> bool {
    d matches Ok(Some(fs)) && fields_of_block(fs, m)
}

/// What precedes a saved configuration's fields: the configuration
/// contract and `@is ResenderConfig`.
pub open spec fn config_prefix() -> Seq<char> {
    CONFIG_CONTRACT@ + "@is ResenderConfig\n"@
}

/// Reading written fields back gives, for each key, the value of the last
/// field of that key, read back.
pub proof fn lemma_read_back_fields_get(w: Seq<(Seq<char>, OutV)>, k: Seq<char>)
    ensures
        field_at(read_back_fields(w), k) == (match assoc_get(w, k) {
            Some(o) => Some(read_back(o)),
            None => None,
        }),
    decreases w.len(),
{
    if w.len() > 0 {
        assert(read_back_fields(w).drop_last() =~= read_back_fields(w.drop_last()));
        lemma_read_back_fields_get(w.drop_last(), k);
    }
}

/// Fields that are those of the block of `w` are the same fields as `w`
/// read back.
pub proof fn lemma_block_fields(fs: Seq<(Seq<char>, FieldV)>, w: Seq<(Seq<char>, OutV)>)
    requires
        fields_of_block(fs, assoc_map(w)),
    ensures
        same_fields(fs, read_back_fields(w)),
{
    assert forall|k: Seq<char>| #[trigger] field_at(fs, k) == field_at(read_back_fields(w), k) by {
        lemma_read_back_fields_get(w, k);
        assert(field_at(fs, k) == (if assoc_map(w).dom().contains(k) {
            Some(read_back(assoc_map(w)[k]))
        } else {
            None
        }));
    }
}

/// A read document in mathematical form: the refusal's message, or the
/// fields of the top-level block (`None` when the top level is not a
/// block).
pub open spec fn doc_view(r: Result<Option<Vec<(String, SmlField)>>, String>) -> Result<
    Option<Seq<(Seq<char>, FieldV)>>,
    Seq<char>,
> {
    match r {
        Ok(Some(f)) => Ok(Some(fields_view(f@))),
        Ok(None) => Ok(None),
        Err(e) => Err(e@),
    }
}

/// Whether something at `j` can take the place of the next char of a word
/// or string without being that char: a comment that a word continues
/// after (`#`, `--`, `//`, `/*`, `_*`) or an escape in a string (`\`).
pub open spec fn skips_at(t: Seq<char>, j: int) -> bool {
    ||| t[j] == '#'
    ||| t[j] == '\\'
    ||| j + 1 < t.len() && t[j] == '-' && t[j + 1] == '-'
    ||| j + 1 < t.len() && t[j] == '/' && (t[j + 1] == '/' || t[j + 1] == '*')
    ||| j + 1 < t.len() && t[j] == '_' && t[j + 1] == '*'
}

/// Whether the text after the `$` at `i` can go on to spell `env.`: it
/// spells a prefix of `env.` as written and then either completes it or
/// reaches a comment or an escape. Any other char (a different letter, a
/// space, a quote, a bracket) or the end of the text settles that the
/// word or string does not begin with `$env.`.
pub open spec fn env_after_dollar(t: Seq<char>, i: int) -> bool {
    i + 1 < t.len() && (skips_at(t, i + 1) || (t[i + 1] == 'e' && i + 2 < t.len() && (skips_at(
        t,
        i + 2,
    ) || (t[i + 2] == 'n' && i + 3 < t.len() && (skips_at(t, i + 3) || (t[i + 3] == 'v' && i + 4
        < t.len() && (skips_at(t, i + 4) || t[i + 4] == '.')))))))
}

/// Whether the `\u` escape whose `u` is at `i` can write `$` (code 24):
/// `\u{` with digits that begin `+`, `0` or `2`, or the four digits
/// `0024` or `+024`.
pub open spec fn u_escape_dollar(t: Seq<char>, i: int) -> bool {
    ||| i + 2 < t.len() && t[i + 1] == '{' && (t[i + 2] == '+' || t[i + 2] == '0' || t[i + 2] == '2')
    ||| holds_at(t, i + 1, seq!['0', '0', '2', '4'])
    ||| holds_at(t, i + 1, seq!['+', '0', '2', '4'])
}

/// Whether the SML library reads `text` without looking at the
/// environment. It reads a variable only for a bare word or a quoted string
/// that begins with `$env.`. A word gets its chars from the text as written,
/// comments left out, and ends at a space, a line end, a quote or a
/// bracket; a string gets them through escapes too (`\$` gives `$`, `\u`
/// with a code gives that char). So it suffices that after no `$` the text
/// can go on to spell `env.` ([`env_after_dollar`]), and that no `\u`
/// escape can write `$` ([`u_escape_dollar`]; a `$` it writes just before
/// the text ends starts nothing). Texts such as `a$eb`, `pay $each`,
/// `$100` or `x\u0041` pass; `$env.HOME` does not.
pub open spec fn env_free(text: Seq<char>) -> bool {
    &&& forall|i: int| 0 <= i < text.len() && #[trigger] text[i] == '$' ==> !env_after_dollar(text, i)
    &&& forall|i: int|
        0 < i < text.len() && #[trigger] text[i] == 'u' && text[i - 1] == '\\' ==> !u_escape_dollar(text, i)
}

/// What `sml::parse` reads `text` as, in the form above.
pub uninterp spec fn sml_parsed(text: Seq<char>) -> Result<Option<Seq<(Seq<char>, FieldV)>>, Seq<char>>;

/// What `sml::parse_versioned` reads `text` as, in the form above (the
/// declared version left out).
pub uninterp spec fn sml_parsed_versioned(text: Seq<char>) -> Result<
    Option<Seq<(Seq<char>, FieldV)>>,
    Seq<char>,
>;

/// `sml::parse`, its result read into the form above: a contract in the
/// text is applied; the error is the library's message. For a text that is
/// [`env_free`] the result is taken as a function of the text alone; any
/// other text may read environment variables, and nothing is said of it.
/// A text that `sml::to_sml` wrote for a block that reads back
/// ([`block_reads_back`]), alone or after the configuration contract and
/// `@is` when the block meets that contract, is read as that block: as the
/// library's source shows, each key and value is tokenized as written, no
/// line of it is taken for an `@version` directive, no environment variable
/// is read, and the contract, finding every field it declares with its
/// type, changes nothing.
#[verifier::external_body]
pub(crate) fn parse(text: &str) -> (r: Result<Option<Vec<(String, SmlField)>>, String>)
    ensures
        env_free(text@) ==> doc_view(r) == sml_parsed(text@),
        forall|m: Map<Seq<char>, OutV>|
            #![trigger block_text(m)]
            block_reads_back(m) && (text@ == block_text(m) || (text@ == config_prefix() + block_text(m)
                && meets_config_contract(m))) ==> doc_view(r) == sml_parsed(text@) && reads_as_block(
                doc_view(r),
                m,
            ),
{
    let item = |x: &sml::Value| match x {
        sml::Value::Bool(b) => SmlScalar::Bool(*b),
        sml::Value::Int(n) => SmlScalar::Int(*n),
        sml::Value::Str(s) => SmlScalar::Str(s.clone()),
        _ => SmlScalar::Other,
    };
    sml::parse(text).map(|v| match v {
        sml::Value::Object(m) => Some(m.iter().map(|(k, x)| (k.clone(), match x {
            sml::Value::Array(a) => SmlField::List(a.iter().map(item).collect()),
            _ => SmlField::Scalar(item(x)),
        })).collect()),
        _ => None,
    })
}

/// `sml::parse_versioned` (a text may declare its `@version`), read as
/// [`parse`] reads.
#[verifier::external_body]
pub(crate) fn parse_versioned(text: &str) -> (r: Result<Option<Vec<(String, SmlField)>>, String>)
    ensures
        env_free(text@) ==> doc_view(r) == sml_parsed_versioned(text@),
{
    let item = |x: &sml::Value| match x {
        sml::Value::Bool(b) => SmlScalar::Bool(*b),
        sml::Value::Int(n) => SmlScalar::Int(*n),
        sml::Value::Str(s) => SmlScalar::Str(s.clone()),
        _ => SmlScalar::Other,
    };
    sml::parse_versioned(text).map(|(v, _version)| match v {
        sml::Value::Object(m) => Some(m.iter().map(|(k, x)| (k.clone(), match x {
            sml::Value::Array(a) => SmlField::List(a.iter().map(item).collect()),
            _ => SmlField::Scalar(item(x)),
        })).collect()),
        _ => None,
    })
}

/// The field `key`, if the document has it.
pub fn get<'a>(fields: &'a [(String, SmlField)], key: &str) -> (r: Option<&'a SmlField>)
    ensures
        match field_at(fields_view(fields@), key@) {
            Some(f) => r matches Some(x) && x@ == f,
            None => r is None,
        },
{
    let ghost s = fields_view(fields@);
    let mut i = fields.len();
    assert(s.take(i as int) =~= s);
    while i > 0
        invariant
            i <= fields@.len(),
            s == fields_view(fields@),
            assoc_get(s, key@) == assoc_get(s.take(i as int), key@),
        decreases i,
    {
        assert(s.take(i as int).drop_last() =~= s.take(i - 1));
        if crate::text::str_eq(fields[i - 1].0.as_str(), key) {
            return Some(&fields[i - 1].1);
        }
        i = i - 1;
    }
    None
}

// ===========================================================================
// What is written
// ===========================================================================

/// A value to write.
pub enum SmlOut {
    Bool(bool),
    Int(i64),
    Str(String),
    StrList(Vec<String>),
}

/// A value to write in mathematical form.
pub enum OutV {
    Bool(bool),
    Int(i64),
    Str(Seq<char>),
    StrList(Seq<Seq<char>>),
}

impl View for SmlOut {
    type V = OutV;

    open spec fn view(&self) -> OutV {
        match self {
            SmlOut::Bool(b) => OutV::Bool(*b),
            SmlOut::Int(n) => OutV::Int(*n),
            SmlOut::Str(s) => OutV::Str(s@),
            SmlOut::StrList(l) => OutV::StrList(l@.map_values(|x: String| x@)),
        }
    }
}

/// What a written value is once read back, where the SML layer gives back
/// what was written: the scalar, or the list of strings.
pub open spec fn read_back(o: OutV) -> FieldV {
    match o {
        OutV::Bool(b) => FieldV::Scalar(ScalarV::Bool(b)),
        OutV::Int(n) => FieldV::Scalar(ScalarV::Int(n)),
        OutV::Str(s) => FieldV::Scalar(ScalarV::Str(s)),
        OutV::StrList(l) => FieldV::List(l.map_values(|x: Seq<char>| ScalarV::Str(x))),
    }
}

/// Written fields read back, each as [`read_back`] gives it.
pub open spec fn read_back_fields(f: Seq<(Seq<char>, OutV)>) -> Seq<(Seq<char>, FieldV)> {
    f.map_values(|e: (Seq<char>, OutV)| (e.0, read_back(e.1)))
}

pub open spec fn outs_view(f: Seq<(String, SmlOut)>) -> Seq<(Seq<char>, OutV)> {
    f.map_values(|e: (String, SmlOut)| (e.0@, e.1@))
}

/// What `sml::to_sml` writes for a block with these fields.
pub uninterp spec fn block_text(fields: Map<Seq<char>, OutV>) -> Seq<char>;

/// `sml::to_sml` of the block holding `fields`, a later field of a key
/// replacing an earlier one (the block is a map ordered by key). Its text is
/// taken as a function of the block alone.
#[verifier::external_body]
pub(crate) fn to_text(fields: &[(String, SmlOut)]) -> (r: String)
    ensures
        r@ == block_text(assoc_map(outs_view(fields@))),
{
    let m: std::collections::BTreeMap<String, sml::Value> = fields.iter().map(|(k, f)| (k.clone(), match f {
        SmlOut::Bool(b) => sml::Value::Bool(*b),
        SmlOut::Int(n) => sml::Value::Int(*n),
        SmlOut::Str(s) => sml::Value::Str(s.clone()),
        SmlOut::StrList(l) => sml::Value::Array(l.iter().map(|s| sml::Value::Str(s.clone())).collect()),
    })).collect();
    sml::to_sml(&sml::Value::Object(m))
}

} // verus!
