//! The compose draft: recipients, subject, body, body mode and attachment
//! paths, kept as an SML document of its own.
//!
//! The document is a block with the fields `to`, `subject`, `body`
//! (strings), `body_mode` (an integer) and `attachments` (a list of
//! strings).

use vstd::prelude::*;

use crate::assoc::{assoc_map, keys_distinct, lemma_distinct_dom_len, lemma_get_distinct, lemma_map_entry};
use crate::config::{app_file, app_file_spec, key_sig};
use crate::sml_doc::{self, field_at, fields_view, FieldV, OutV, ScalarV, SmlField, SmlOut, SmlScalar};
use crate::text::{is_blank, str_is_blank, string_from_chars, to_chars};

verus! {

/// A draft.
pub struct Draft {
    pub to: String,
    pub subject: String,
    pub body: String,
    /// Body mode: 0 Markdown, 1 HTML, anything else plain text.
    pub body_mode: i32,
    /// Paths of the attached files.
    pub attachments: Vec<String>,
}

/// A draft in mathematical form.
pub struct DraftV {
    pub to: Seq<char>,
    pub subject: Seq<char>,
    pub body: Seq<char>,
    pub body_mode: i32,
    pub attachments: Seq<Seq<char>>,
}

pub open spec fn strings_view(v: Seq<String>) -> Seq<Seq<char>> {
    v.map_values(|s: String| s@)
}

impl View for Draft {
    type V = DraftV;

    open spec fn view(&self) -> DraftV {
        DraftV {
            to: self.to@,
            subject: self.subject@,
            body: self.body@,
            body_mode: self.body_mode,
            attachments: strings_view(self.attachments@),
        }
    }
}

impl Default for Draft {
    fn default() -> (d: Self)
        ensures
            d@ == (DraftV {
                to: Seq::empty(),
                subject: Seq::empty(),
                body: Seq::empty(),
                body_mode: 0,
                attachments: Seq::empty(),
            }),
    {
        let d = Draft {
            to: String::new(),
            subject: String::new(),
            body: String::new(),
            body_mode: 0,
            attachments: Vec::new(),
        };
        assert(strings_view(d.attachments@) =~= Seq::<Seq<char>>::empty());
        d
    }
}

/// The fields a draft is written as.
pub open spec fn draft_out(d: DraftV) -> Seq<(Seq<char>, OutV)> {
    seq![
        ("to"@, OutV::Str(d.to)),
        ("subject"@, OutV::Str(d.subject)),
        ("body"@, OutV::Str(d.body)),
        ("body_mode"@, OutV::Int(d.body_mode as i64)),
        ("attachments"@, OutV::StrList(d.attachments)),
    ]
}

/// The text a draft is saved as.
pub open spec fn draft_text(d: DraftV) -> Seq<char> {
    sml_doc::block_text(assoc_map(draft_out(d)))
}

/// The texts of a list whose items are all strings.
pub open spec fn str_items(items: Seq<ScalarV>) -> Option<Seq<Seq<char>>>
    decreases items.len(),
{
    if items.len() == 0 {
        Some(Seq::empty())
    } else {
        match (str_items(items.drop_last()), items.last()) {
            (Some(rest), ScalarV::Str(s)) => Some(rest.push(s)),
            _ => None,
        }
    }
}

/// The draft the fields of a document describe: `to`, `subject` and `body`
/// strings, `body_mode` an integer that fits `i32`, and `attachments` a
/// list of strings; `None` when one is missing or of another type.
pub open spec fn draft_of_fields(fs: Seq<(Seq<char>, FieldV)>) -> Option<DraftV> {
    match (
        field_at(fs, "to"@),
        field_at(fs, "subject"@),
        field_at(fs, "body"@),
        field_at(fs, "body_mode"@),
        field_at(fs, "attachments"@),
    ) {
        (
            Some(FieldV::Scalar(ScalarV::Str(to))),
            Some(FieldV::Scalar(ScalarV::Str(subject))),
            Some(FieldV::Scalar(ScalarV::Str(body))),
            Some(FieldV::Scalar(ScalarV::Int(m))),
            Some(FieldV::List(items)),
        ) => match str_items(items) {
            Some(attachments) => if i32::MIN <= m <= i32::MAX {
                Some(DraftV { to, subject, body, body_mode: m as i32, attachments })
            } else {
                None
            },
            None => None,
        },
        _ => None,
    }
}

/// The position of a draft field name in [`draft_out`], by its
/// [`key_sig`].
spec fn draft_key_rank(g: int) -> int {
    if g == 372 {
        0
    } else if g == 1011 {
        1
    } else if g == 610 {
        2
    } else if g == 1250 {
        3
    } else if g == 1505 {
        4
    } else {
        -1
    }
}

proof fn lemma_str_items_of_strs(l: Seq<Seq<char>>)
    ensures
        str_items(l.map_values(|x: Seq<char>| ScalarV::Str(x))) == Some(l),
    decreases l.len(),
{
    let items = l.map_values(|x: Seq<char>| ScalarV::Str(x));
    if l.len() > 0 {
        assert(items.drop_last() =~= l.drop_last().map_values(|x: Seq<char>| ScalarV::Str(x)));
        lemma_str_items_of_strs(l.drop_last());
        assert(l.drop_last().push(l.last()) =~= l);
    } else {
        assert(l =~= Seq::<Seq<char>>::empty());
    }
}

/// What is written for a draft describes it again: the fields it is saved
/// as, read back as written, give the same draft. (Whether the SML library
/// reads its own text back as written is its business; see
/// [`sml_doc::block_text`].)
pub proof fn lemma_written_draft_reads_back(d: DraftV)
    ensures
        draft_of_fields(sml_doc::read_back_fields(draft_out(d))) == Some(d),
{
    let fs = sml_doc::read_back_fields(draft_out(d));
    reveal_strlit("to");
    reveal_strlit("subject");
    reveal_strlit("body");
    reveal_strlit("body_mode");
    reveal_strlit("attachments");
    assert forall|i: int| 0 <= i < 5 implies #[trigger] draft_key_rank(key_sig(fs[i].0)) == i by {
        if i == 0 {
        } else if i == 1 {
        } else if i == 2 {
        } else if i == 3 {
        } else {
        }
    }
    assert forall|i: int, j: int| 0 <= i < j < fs.len() implies fs[i].0 != fs[j].0 by {
        assert(draft_key_rank(key_sig(fs[i].0)) == i);
        assert(draft_key_rank(key_sig(fs[j].0)) == j);
    }
    assert(keys_distinct(fs));
    lemma_get_distinct(fs, 0);
    lemma_get_distinct(fs, 1);
    lemma_get_distinct(fs, 2);
    lemma_get_distinct(fs, 3);
    lemma_get_distinct(fs, 4);
    lemma_str_items_of_strs(d.attachments);
}

/// Whether every text of the draft is one the SML library reads back as
/// written ([`sml_doc::str_reads_back`]).
pub open spec fn draft_reads_back(d: DraftV) -> bool {
    &&& sml_doc::str_reads_back(d.to)
    &&& sml_doc::str_reads_back(d.subject)
    &&& sml_doc::str_reads_back(d.body)
    &&& forall|i: int| 0 <= i < d.attachments.len() ==> sml_doc::str_reads_back(#[trigger] d.attachments[i])
}

/// The saved block of a draft reads back as written when the draft's texts
/// do.
pub proof fn lemma_draft_block(d: DraftV)
    requires
        draft_reads_back(d),
    ensures
        sml_doc::block_reads_back(assoc_map(draft_out(d))),
{
    let s = draft_out(d);
    let m = assoc_map(s);
    reveal_strlit("to");
    reveal_strlit("subject");
    reveal_strlit("body");
    reveal_strlit("body_mode");
    reveal_strlit("attachments");
    assert forall|i: int| 0 <= i < 5 implies #[trigger] draft_key_rank(key_sig(s[i].0)) == i
        && sml_doc::key_reads_back(s[i].0) && sml_doc::out_reads_back(s[i].1) by {
        if i == 0 {
        } else if i == 1 {
        } else if i == 2 {
        } else if i == 3 {
        } else {
        }
    }
    assert forall|i: int, j: int| 0 <= i < j < s.len() implies s[i].0 != s[j].0 by {
        assert(draft_key_rank(key_sig(s[i].0)) == i);
        assert(draft_key_rank(key_sig(s[j].0)) == j);
    }
    assert(keys_distinct(s));
    lemma_distinct_dom_len(s);
    assert forall|k: Seq<char>| #[trigger] m.dom().contains(k) implies sml_doc::key_reads_back(k)
        && sml_doc::out_reads_back(m[k]) by {
        lemma_map_entry(s, k);
        let i = choose|i: int| 0 <= i < s.len() && s[i].0 == k && m[k] == s[i].1;
        assert(sml_doc::key_reads_back(s[i].0) && sml_doc::out_reads_back(s[i].1));
    }
}

/// The draft file's place under `config_dir`, joined with `sep`.
pub open spec fn draft_path(config_dir: Seq<char>, sep: char) -> Seq<char> {
    app_file_spec(config_dir, sep, "draft.sml"@)
}

fn get_str(fields: &[(String, SmlField)], key: &str) -> (r: Option<String>)
    ensures
        match field_at(fields_view(fields@), key@) {
            Some(FieldV::Scalar(ScalarV::Str(s))) => r matches Some(x) && x@ == s,
            _ => r is None,
        },
{
    match sml_doc::get(fields, key) {
        Some(SmlField::Scalar(SmlScalar::Str(s))) => Some(s.clone()),
        _ => None,
    }
}

fn string_items(items: &[SmlScalar]) -> (r: Option<Vec<String>>)
    ensures
        match str_items(sml_doc::scalars_view(items@)) {
            Some(v) => r matches Some(x) && strings_view(x@) == v,
            None => r is None,
        },
{
    let ghost s = sml_doc::scalars_view(items@);
    let mut out: Vec<String> = Vec::new();
    let n = items.len();
    let mut i: usize = 0;
    assert(s.take(0) =~= Seq::<ScalarV>::empty());
    assert(strings_view(out@) =~= Seq::<Seq<char>>::empty());
    while i < n
        invariant
            i <= n == items@.len(),
            s == sml_doc::scalars_view(items@),
            str_items(s.take(i as int)) == Some(strings_view(out@)),
        decreases n - i,
    {
        assert(s.take(i + 1).drop_last() =~= s.take(i as int));
        assert(s.take(i + 1).last() == items@[i as int]@);
        match &items[i] {
            SmlScalar::Str(x) => {
                let ghost before = strings_view(out@);
                out.push(x.clone());
                assert(strings_view(out@) =~= before.push(x@));
            },
            _ => {
                proof {
                    lemma_str_items_none_extends(s, i + 1, n as int);
                    assert(s.take(n as int) =~= s);
                }
                return None;
            },
        }
        i = i + 1;
    }
    assert(s.take(n as int) =~= s);
    Some(out)
}

proof fn lemma_str_items_none_extends(s: Seq<ScalarV>, k: int, n: int)
    requires
        0 <= k <= n <= s.len(),
        str_items(s.take(k)) is None,
    ensures
        str_items(s.take(n)) is None,
    decreases n - k,
{
    if k < n {
        assert(s.take(k + 1).drop_last() =~= s.take(k));
        lemma_str_items_none_extends(s, k + 1, n);
    }
}

impl Draft {
    /// Where a draft of an earlier version (JSON) is kept under the
    /// configuration directory, `sep` being the system's path separator; it
    /// is read once and moved to [`Self::path`].
    pub fn legacy_path(config_dir: &str, sep: char) -> (r: String)
        ensures
            r@ == app_file_spec(config_dir@, sep, "draft.json"@),
    {
        app_file(config_dir, sep, "draft.json")
    }

    /// Where the draft is kept under the configuration directory, `sep`
    /// being the system's path separator.
    pub fn path(config_dir: &str, sep: char) -> (r: String)
        ensures
            r@ == draft_path(config_dir@, sep),
    {
        app_file(config_dir, sep, "draft.sml")
    }

    /// The draft the fields of a document describe.
    pub fn from_fields(fields: &[(String, SmlField)]) -> (r: Option<Draft>)
        ensures
            match draft_of_fields(fields_view(fields@)) {
                Some(v) => r matches Some(d) && d@ == v,
                None => r is None,
            },
    {
        let to = match get_str(fields, "to") {
            Some(s) => s,
            None => return None,
        };
        let subject = match get_str(fields, "subject") {
            Some(s) => s,
            None => return None,
        };
        let body = match get_str(fields, "body") {
            Some(s) => s,
            None => return None,
        };
        let m: i64 = match sml_doc::get(fields, "body_mode") {
            Some(SmlField::Scalar(SmlScalar::Int(n))) => *n,
            _ => return None,
        };
        let attachments = match sml_doc::get(fields, "attachments") {
            Some(SmlField::List(items)) => match string_items(items.as_slice()) {
                Some(v) => v,
                None => return None,
            },
            _ => return None,
        };
        if m < -2147483648 || m > 2147483647 {
            return None;
        }
        Some(Draft { to, subject, body, body_mode: m as i32, attachments })
    }

    /// Reads a draft from its text; `None` when the SML library refuses the
    /// text or the text does not describe a draft. The text a draft is saved
    /// as loads back as that draft when its texts read back as written.
    /// (For a text that may mention an environment variable, what the
    /// library reads depends on the environment, and nothing is stated.)
    pub fn load(text: &str) -> (r: Option<Draft>)
        ensures
            sml_doc::env_free(text@) ==> match sml_doc::sml_parsed(text@) {
                Ok(Some(fs)) => match draft_of_fields(fs) {
                    Some(v) => r matches Some(d) && d@ == v,
                    None => r is None,
                },
                _ => r is None,
            },
            forall|d: DraftV|
                #![trigger draft_text(d)]
                text@ == draft_text(d) && draft_reads_back(d) ==> (r matches Some(x) && x@ == d),
    {
        let r = match sml_doc::parse(text) {
            Ok(Some(fields)) => Draft::from_fields(fields.as_slice()),
            _ => None,
        };
        proof {
            assert forall|d: DraftV|
                #![trigger draft_text(d)]
                text@ == draft_text(d) && draft_reads_back(d) implies (r matches Some(x) && x@ == d) by {
                let w = draft_out(d);
                lemma_draft_block(d);
                lemma_written_draft_reads_back(d);
                let fs = sml_doc::sml_parsed(text@)->Ok_0->Some_0;
                sml_doc::lemma_block_fields(fs, w);
                assert(draft_of_fields(fs) == draft_of_fields(sml_doc::read_back_fields(w)));
            }
        }
        r
    }

    /// The fields the draft is written as.
    pub fn to_fields(&self) -> (r: Vec<(String, SmlOut)>)
        ensures
            sml_doc::outs_view(r@) == draft_out(self@),
    {
        let mut d: Vec<(String, SmlOut)> = Vec::new();
        d.push((String::from_str("to"), SmlOut::Str(self.to.clone())));
        d.push((String::from_str("subject"), SmlOut::Str(self.subject.clone())));
        d.push((String::from_str("body"), SmlOut::Str(self.body.clone())));
        d.push((String::from_str("body_mode"), SmlOut::Int(self.body_mode as i64)));
        let mut atts: Vec<String> = Vec::new();
        let n = self.attachments.len();
        let mut i: usize = 0;
        while i < n
            invariant
                i <= n == self.attachments@.len(),
                strings_view(atts@) == strings_view(self.attachments@.take(i as int)),
            decreases n - i,
        {
            let ghost before = strings_view(atts@);
            atts.push(self.attachments[i].clone());
            assert(strings_view(atts@) =~= before.push(self.attachments@[i as int]@));
            assert(strings_view(self.attachments@.take(i + 1)) =~= strings_view(
                self.attachments@.take(i as int),
            ).push(self.attachments@[i as int]@));
            i = i + 1;
        }
        assert(self.attachments@.take(n as int) =~= self.attachments@);
        d.push((String::from_str("attachments"), SmlOut::StrList(atts)));
        assert(sml_doc::outs_view(d@) =~= draft_out(self@));
        d
    }

    /// The text the draft is saved as.
    pub fn save(&self) -> (r: String)
        ensures
            r@ == draft_text(self@),
    {
        let d = self.to_fields();
        sml_doc::to_text(d.as_slice())
    }

    /// Whether there is nothing worth keeping: recipients, subject and body
    /// blank, and no attachment.
    pub fn is_empty(&self) -> (r: bool)
        ensures
            r == (is_blank(self.to@) && is_blank(self.subject@) && is_blank(self.body@)
                && self.attachments@.len() == 0),
    {
        str_is_blank(self.to.as_str()) && str_is_blank(self.subject.as_str()) && str_is_blank(
            self.body.as_str(),
        ) && self.attachments.len() == 0
    }
}

} // verus!
