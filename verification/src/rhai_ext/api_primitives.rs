//! Automation handlers: scripts register named handlers, with the inputs
//! they need, that the interface, the command line (`run <name>`) or other
//! scripts then call. A later registration under a name replaces the
//! earlier one.

use vstd::prelude::*;

use super::{
    field_arg_ok, field_args, fields_spec, fields_view, parse_fields, triples_view, value_or_empty,
    AutomationField, FieldArg, FieldV, FieldValues,
};
use crate::assoc::{
    assoc_get, assoc_map, keys_distinct, lemma_distinct_dom_len, lemma_get_distinct, lemma_replace,
    lemma_replace_distinct, without_key,
};
use crate::json::{record_view, records_json, records_json_text, records_view};
use crate::text::{str_eq, string_from_chars, to_chars};

verus! {

/// A registered handler: what calls it, its description, its inputs.
pub struct Automation<H> {
    pub handler: H,
    pub description: String,
    pub fields: Vec<AutomationField>,
}

/// A registered handler in mathematical form.
pub struct AutomationV<H> {
    pub handler: H,
    pub description: Seq<char>,
    pub fields: Seq<FieldV>,
}

impl<H> View for Automation<H> {
    type V = AutomationV<H>;

    open spec fn view(&self) -> AutomationV<H> {
        AutomationV {
            handler: self.handler,
            description: self.description@,
            fields: fields_view(self.fields@),
        }
    }
}

pub open spec fn registry_view<H>(v: Seq<(String, Automation<H>)>) -> Seq<(Seq<char>, AutomationV<H>)> {
    v.map_values(|e: (String, Automation<H>)| (e.0@, e.1@))
}

/// The registered handlers by name.
pub struct AutomationRegistry<H> {
    entries: Vec<(String, Automation<H>)>,
}

impl<H> View for AutomationRegistry<H> {
    type V = Map<Seq<char>, AutomationV<H>>;

    closed spec fn view(&self) -> Map<Seq<char>, AutomationV<H>> {
        assoc_map(registry_view(self.entries@))
    }
}

/// The inputs of handler `name`: none when no handler has that name.
pub open spec fn fields_of<H>(m: Map<Seq<char>, AutomationV<H>>, name: Seq<char>) -> Seq<FieldV> {
    if m.dom().contains(name) {
        m[name].fields
    } else {
        Seq::empty()
    }
}

/// A listing of the handlers: each name once, with its description.
pub open spec fn lists_handlers<H>(m: Map<Seq<char>, AutomationV<H>>, rows: Seq<(Seq<char>, Seq<char>)>) -> bool {
    &&& rows.len() == m.dom().len()
    &&& forall|i: int|
        0 <= i < rows.len() ==> m.dom().contains(#[trigger] rows[i].0) && m[rows[i].0].description
            == rows[i].1
    &&& forall|i: int, j: int| 0 <= i < j < rows.len() ==> rows[i].0 != rows[j].0
}

/// The JSON record of one listed handler: its `name` and `desc`.
pub open spec fn handler_record(row: (Seq<char>, Seq<char>)) -> Seq<(Seq<char>, Seq<char>)> {
    seq![("name"@, row.0), ("desc"@, row.1)]
}

/// The JSON records of listed handlers.
pub open spec fn handler_records(rows: Seq<(Seq<char>, Seq<char>)>) -> Seq<Seq<(Seq<char>, Seq<char>)>> {
    rows.map_values(|row: (Seq<char>, Seq<char>)| handler_record(row))
}

/// Whether `text` is the JSON listing of the handlers in some order.
pub open spec fn is_listing<H>(m: Map<Seq<char>, AutomationV<H>>, text: Seq<char>) -> bool {
    exists|rows: Seq<(Seq<char>, Seq<char>)>|
        #[trigger] lists_handlers(m, rows) && text == records_json_text(handler_records(rows))
}

/// A handler as the automation panel shows it: its name, its description
/// and each of its inputs with the value typed into it.
pub struct AutomationItem {
    pub name: String,
    pub desc: String,
    pub fields: Vec<(AutomationField, String)>,
}

/// Whether `item` shows the inputs `fields` of its handler, each with the
/// value typed into it (empty when none).
pub open spec fn shows_inputs(item: AutomationItem, fields: Seq<FieldV>, values: Map<(Seq<char>, Seq<char>), Seq<char>>) -> bool {
    &&& item.fields@.len() == fields.len()
    &&& forall|j: int|
        0 <= j < fields.len() ==> (#[trigger] item.fields@[j]).0@ == fields[j] && item.fields@[j].1@
            == value_or_empty(values, item.name@, fields[j].key)
}

fn copy_field(f: &AutomationField) -> (r: AutomationField)
    ensures
        r@ == f@,
{
    AutomationField { key: f.key.clone(), label: f.label.clone(), kind: f.kind.clone() }
}

impl<H> AutomationRegistry<H> {
    #[verifier::type_invariant]
    spec fn names_distinct(self) -> bool {
        keys_distinct(registry_view(self.entries@))
    }

    /// No handler registered.
    pub fn new() -> (r: Self)
        ensures
            r@ == Map::<Seq<char>, AutomationV<H>>::empty(),
    {
        let r = AutomationRegistry { entries: Vec::new() };
        assert(r@ =~= Map::<Seq<char>, AutomationV<H>>::empty());
        r
    }

    fn insert(&mut self, name: &str, a: Automation<H>)
        ensures
            final(self)@ == old(self)@.insert(name@, a@),
            final(self)@.dom().len() == old(self)@.dom().len() + (if old(self)@.dom().contains(name@) {
                0int
            } else {
                1int
            }),
    {
        proof {
            use_type_invariant(&*self);
            lemma_distinct_dom_len(registry_view(self.entries@));
        }
        let ghost s = registry_view(self.entries@);
        let mut kept: Vec<(String, Automation<H>)> = Vec::new();
        let mut rest: Vec<(String, Automation<H>)> = Vec::new();
        std::mem::swap(&mut rest, &mut self.entries);
        let n = rest.len();
        let mut taken: usize = 0;
        assert(s.take(0) =~= Seq::<(Seq<char>, AutomationV<H>)>::empty());
        while rest.len() > 0
            invariant
                taken + rest@.len() == n,
                s.len() == n,
                registry_view(rest@) == s.skip(taken as int),
                registry_view(kept@) == without_key(s.take(taken as int), name@),
            decreases rest@.len(),
        {
            let ghost old_rest = rest@;
            let e = rest.remove(0);
            assert(rest@ =~= old_rest.subrange(1, old_rest.len() as int));
            assert(registry_view(rest@) =~= registry_view(old_rest).subrange(1, old_rest.len() as int));
            assert(s.take(taken + 1).drop_last() =~= s.take(taken as int));
            assert(s.take(taken + 1).last() == s[taken as int]);
            assert(s.skip(taken as int)[0] == s[taken as int]);
            assert(registry_view(rest@) =~= s.skip(taken + 1));
            if !str_eq(e.0.as_str(), name) {
                let ghost before = registry_view(kept@);
                kept.push(e);
                assert(registry_view(kept@) =~= before.push(s[taken as int]));
            }
            taken = taken + 1;
        }
        assert(s.take(n as int) =~= s);
        let ghost before = registry_view(kept@);
        let ghost av = a@;
        kept.push((String::from_str(name), a));
        assert(registry_view(kept@) =~= before.push((name@, av)));
        proof {
            lemma_replace(s, name@, av);
            lemma_replace_distinct(s, name@, av);
        }
        self.entries = kept;
    }

    /// Registers `handler` under `name`, with no inputs. A name registered
    /// again is replaced; a new name adds one handler.
    pub fn register(&mut self, name: &str, handler: H, desc: &str)
        ensures
            final(self)@ == old(self)@.insert(
                name@,
                AutomationV { handler, description: desc@, fields: Seq::empty() },
            ),
            final(self)@.dom().len() == old(self)@.dom().len() + (if old(self)@.dom().contains(name@) {
                0int
            } else {
                1int
            }),
    {
        let a = Automation { handler, description: String::from_str(desc), fields: Vec::new() };
        assert(fields_view(a.fields@) =~= Seq::<FieldV>::empty());
        self.insert(name, a);
    }

    /// Registers `handler` under `name` with the inputs that the
    /// declarations (`key`, `label`, `kind`) make.
    pub fn register_with_fields(
        &mut self,
        name: &str,
        handler: H,
        desc: &str,
        fields: &[(String, String, String)],
    )
        ensures
            final(self)@ == old(self)@.insert(
                name@,
                AutomationV {
                    handler,
                    description: desc@,
                    fields: fields_spec(triples_view(fields@)),
                },
            ),
            final(self)@.dom().len() == old(self)@.dom().len() + (if old(self)@.dom().contains(name@) {
                0int
            } else {
                1int
            }),
    {
        let parsed = parse_fields(fields);
        let a = Automation { handler, description: String::from_str(desc), fields: parsed };
        self.insert(name, a);
    }

    /// The handler registered under `name`.
    pub fn get(&self, name: &str) -> (r: Option<&Automation<H>>)
        ensures
            self@.dom().contains(name@) ==> (r matches Some(a) && a@ == self@[name@]),
            !self@.dom().contains(name@) ==> r is None,
    {
        let ghost s = registry_view(self.entries@);
        let mut i = self.entries.len();
        assert(s.take(i as int) =~= s);
        while i > 0
            invariant
                i <= self.entries@.len(),
                s == registry_view(self.entries@),
                assoc_get(s, name@) == assoc_get(s.take(i as int), name@),
            decreases i,
        {
            assert(s.take(i as int).drop_last() =~= s.take(i - 1));
            if str_eq(self.entries[i - 1].0.as_str(), name) {
                return Some(&self.entries[i - 1].1);
            }
            i = i - 1;
        }
        None
    }

    /// The number of registered handlers.
    pub fn count(&self) -> (r: i64)
        ensures
            r == self@.dom().len() as i64,
    {
        proof {
            use_type_invariant(self);
            lemma_distinct_dom_len(registry_view(self.entries@));
        }
        self.entries.len() as i64
    }

    /// Each handler's name with its description.
    pub fn descriptions(&self) -> (r: Vec<(String, String)>)
        ensures
            lists_handlers(self@, r@.map_values(|p: (String, String)| (p.0@, p.1@))),
    {
        proof {
            use_type_invariant(self);
            lemma_distinct_dom_len(registry_view(self.entries@));
        }
        let ghost s = registry_view(self.entries@);
        let n = self.entries.len();
        let mut out: Vec<(String, String)> = Vec::new();
        let mut i: usize = 0;
        while i < n
            invariant
                i <= n == self.entries@.len(),
                s == registry_view(self.entries@),
                keys_distinct(s),
                out@.len() == i,
                forall|j: int|
                    0 <= j < i ==> (#[trigger] out@[j]).0@ == s[j].0 && out@[j].1@ == s[j].1.description,
            decreases n - i,
        {
            out.push((self.entries[i].0.clone(), self.entries[i].1.description.clone()));
            i = i + 1;
        }
        let ghost rows = out@.map_values(|p: (String, String)| (p.0@, p.1@));
        assert forall|j: int| 0 <= j < rows.len() implies self@.dom().contains(#[trigger] rows[j].0)
            && self@[rows[j].0].description == rows[j].1 by {
            lemma_get_distinct(s, j);
        }
        proof {
            lemma_rows_list_handlers(s, rows);
        }
        out
    }

    /// The handlers as the automation panel lists them, in no particular
    /// order: each name once, with its description and its inputs with the
    /// values typed into them.
    pub fn items(&self, values: &FieldValues) -> (r: Vec<AutomationItem>)
        ensures
            lists_handlers(self@, r@.map_values(|it: AutomationItem| (it.name@, it.desc@))),
            forall|i: int|
                0 <= i < r@.len() ==> shows_inputs(
                    #[trigger] r@[i],
                    self@[r@[i].name@].fields,
                    values@,
                ),
    {
        proof {
            use_type_invariant(self);
            lemma_distinct_dom_len(registry_view(self.entries@));
        }
        let ghost s = registry_view(self.entries@);
        let n = self.entries.len();
        let mut out: Vec<AutomationItem> = Vec::new();
        let mut i: usize = 0;
        while i < n
            invariant
                i <= n == self.entries@.len(),
                s == registry_view(self.entries@),
                keys_distinct(s),
                out@.len() == i,
                forall|j: int|
                    0 <= j < i ==> (#[trigger] out@[j]).name@ == s[j].0 && out@[j].desc@
                        == s[j].1.description && shows_inputs(out@[j], s[j].1.fields, values@),
            decreases n - i,
        {
            let name = self.entries[i].0.clone();
            let a = &self.entries[i].1;
            let m = a.fields.len();
            let mut fs: Vec<(AutomationField, String)> = Vec::new();
            let mut k: usize = 0;
            while k < m
                invariant
                    k <= m == a.fields@.len(),
                    fs@.len() == k,
                    forall|j: int|
                        0 <= j < k ==> (#[trigger] fs@[j]).0@ == a.fields@[j]@ && fs@[j].1@
                            == value_or_empty(values@, name@, a.fields@[j].key@),
                decreases m - k,
            {
                let f = copy_field(&a.fields[k]);
                let v = values.get(name.as_str(), a.fields[k].key.as_str());
                fs.push((f, v));
                k = k + 1;
            }
            let item = AutomationItem { name, desc: a.description.clone(), fields: fs };
            assert(shows_inputs(item, s[i as int].1.fields, values@));
            out.push(item);
            i = i + 1;
        }
        let ghost rows = out@.map_values(|it: AutomationItem| (it.name@, it.desc@));
        assert forall|j: int| 0 <= j < rows.len() implies self@.dom().contains(#[trigger] rows[j].0)
            && self@[rows[j].0].description == rows[j].1 by {
            lemma_get_distinct(s, j);
        }
        proof {
            lemma_rows_list_handlers(s, rows);
            assert forall|j: int| 0 <= j < out@.len() implies shows_inputs(
                #[trigger] out@[j],
                self@[out@[j].name@].fields,
                values@,
            ) by {
                lemma_get_distinct(s, j);
            }
        }
        out
    }

    /// The handlers as a JSON array of `{name, desc}` objects, in no
    /// particular order.
    pub fn list(&self) -> (r: String)
        ensures
            is_listing(self@, r@),
    {
        let d = self.descriptions();
        let ghost rows = d@.map_values(|p: (String, String)| (p.0@, p.1@));
        let n = d.len();
        let mut recs: Vec<Vec<(String, String)>> = Vec::new();
        let mut i: usize = 0;
        while i < n
            invariant
                i <= n == d@.len(),
                rows == d@.map_values(|p: (String, String)| (p.0@, p.1@)),
                recs@.len() == i,
                forall|j: int| 0 <= j < i ==> record_view(#[trigger] recs@[j]@) == handler_record(rows[j]),
            decreases n - i,
        {
            let rec = vec![
                (String::from_str("name"), d[i].0.clone()),
                (String::from_str("desc"), d[i].1.clone()),
            ];
            assert(record_view(rec@) =~= handler_record(rows[i as int]));
            recs.push(rec);
            i = i + 1;
        }
        let ghost shaped = handler_records(rows);
        assert(records_view(recs@) =~= shaped);
        let r = records_json(&recs);
        assert(lists_handlers(self@, rows) && r@ == records_json_text(shaped));
        r
    }

    /// The handler that a script's call of `name` runs, or the answer it
    /// gets when no handler has that name.
    pub fn call_target(&self, name: &str) -> (r: Result<&H, String>)
        ensures
            self@.dom().contains(name@) ==> (r matches Ok(h) && *h == self@[name@].handler),
            !self@.dom().contains(name@) ==> (r matches Err(m) && m@ == "ERR: 未找到自动化 handler: "@
                + name@),
    {
        match self.get(name) {
            Some(a) => Ok(&a.handler),
            None => {
                let mut out = to_chars("ERR: 未找到自动化 handler: ");
                out.append(&mut to_chars(name));
                Err(string_from_chars(out.as_slice()))
            },
        }
    }

    /// The handler that running `name` (from the interface or the command
    /// line) calls, or the failure message when no handler has that name.
    pub fn run_target(&self, name: &str) -> (r: Result<&H, String>)
        ensures
            self@.dom().contains(name@) ==> (r matches Ok(h) && *h == self@[name@].handler),
            !self@.dom().contains(name@) ==> (r matches Err(m) && m@ == "未找到自动化 handler: "@
                + name@),
    {
        match self.get(name) {
            Some(a) => Ok(&a.handler),
            None => {
                let mut out = to_chars("未找到自动化 handler: ");
                out.append(&mut to_chars(name));
                Err(string_from_chars(out.as_slice()))
            },
        }
    }

    /// The arguments for handler `name`: the value of each of its inputs,
    /// in declaration order, `bool` inputs as flags; none when no handler
    /// has that name.
    pub fn collect_field_args(&self, values: &FieldValues, name: &str) -> (r: Vec<FieldArg>)
        ensures
            r@.len() == fields_of(self@, name@).len(),
            forall|i: int|
                0 <= i < r@.len() ==> field_arg_ok(
                    #[trigger] r@[i],
                    fields_of(self@, name@)[i],
                    value_or_empty(values@, name@, fields_of(self@, name@)[i].key),
                ),
    {
        match self.get(name) {
            Some(a) => {
                let r = field_args(values, name, a.fields.as_slice());
                assert(fields_of(self@, name@) =~= fields_view(a.fields@));
                r
            },
            None => Vec::new(),
        }
    }
}

/// Rows read in order off entries with distinct names list the handlers.
proof fn lemma_rows_list_handlers<H>(s: Seq<(Seq<char>, AutomationV<H>)>, rows: Seq<(Seq<char>, Seq<char>)>)
    requires
        keys_distinct(s),
        assoc_map(s).dom().finite(),
        assoc_map(s).dom().len() == s.len(),
        rows.len() == s.len(),
        forall|j: int| 0 <= j < rows.len() ==> (#[trigger] rows[j]).0 == s[j].0,
        forall|j: int|
            0 <= j < rows.len() ==> assoc_map(s).dom().contains(#[trigger] rows[j].0)
                && assoc_map(s)[rows[j].0].description == rows[j].1,
    ensures
        lists_handlers(assoc_map(s), rows),
{
    assert forall|i: int, j: int| 0 <= i < j < rows.len() implies rows[i].0 != rows[j].0 by {
        assert(rows[i].0 == s[i].0 && rows[j].0 == s[j].0);
    }
}

} // verus!
