//! The storage primitives scripts call: configuration fields, counters and
//! the history. All but the reading ones are refused until the script is
//! trusted. Loading and saving the configuration is left to the caller.

use vstd::prelude::*;

use super::trust_primitives::{gate_message, Gate, TrustState};
use crate::config::{AppConfig, ConfigV};
use crate::history::{appended, entry_fields, recent_count, HistoryEntry, HistoryStore};
use crate::json::{record_view, records_json, records_json_text, records_view};
use crate::text::{
    decimal, i64_to_decimal, parse_i64_chars, parse_i64_spec, parse_u64_chars, parse_u64_spec,
    signed_decimal, str_eq, string_from_chars, to_chars, u64_to_decimal,
};

verus! {

/// `b.to_string()`.
pub open spec fn bool_text(b: bool) -> Seq<char> {
    if b {
        "true"@
    } else {
        "false"@
    }
}

/// The text of a configuration field as scripts read it (encrypted fields
/// as stored); the empty text for a key scripts cannot read.
pub open spec fn config_text(c: ConfigV, key: Seq<char>) -> Seq<char> {
    if key == "api_key"@ {
        c.api_key
    } else if key == "api_key_enc"@ {
        bool_text(c.api_key_enc)
    } else if key == "from_name"@ {
        c.from_name
    } else if key == "from_name_enc"@ {
        bool_text(c.from_name_enc)
    } else if key == "plan_index"@ {
        decimal(c.plan_index as nat)
    } else if key == "custom_quota"@ {
        signed_decimal(c.custom_quota as int)
    } else if key == "cycle_start"@ {
        c.cycle_start
    } else if key == "cycle_mark"@ {
        c.cycle_mark
    } else if key == "month_count"@ {
        signed_decimal(c.month_count as int)
    } else if key == "total_count"@ {
        signed_decimal(c.total_count as int)
    } else {
        Seq::empty()
    }
}

/// `text.parse::<usize>()`.
pub open spec fn parse_usize_spec(t: Seq<char>) -> Option<usize> {
    match parse_u64_spec(t) {
        Some(n) => if n <= usize::MAX {
            Some(n as usize)
        } else {
            None
        },
        None => None,
    }
}

/// A parsed number, or 0.
pub open spec fn i64_or_zero(t: Seq<char>) -> i64 {
    match parse_i64_spec(t) {
        Some(n) => n,
        None => 0,
    }
}

/// The configuration after a script sets `key` to `value`: texts as given,
/// flags true exactly for `true`, numbers parsed (0 when they do not
/// parse); other keys change nothing.
pub open spec fn config_set_spec(c: ConfigV, key: Seq<char>, value: Seq<char>) -> ConfigV {
    if key == "api_key"@ {
        ConfigV { api_key: value, ..c }
    } else if key == "api_key_enc"@ {
        ConfigV { api_key_enc: value == "true"@, ..c }
    } else if key == "from_name"@ {
        ConfigV { from_name: value, ..c }
    } else if key == "from_name_enc"@ {
        ConfigV { from_name_enc: value == "true"@, ..c }
    } else if key == "plan_index"@ {
        ConfigV {
            plan_index: match parse_usize_spec(value) {
                Some(n) => n,
                None => 0,
            },
            ..c
        }
    } else if key == "custom_quota"@ {
        ConfigV { custom_quota: i64_or_zero(value), ..c }
    } else if key == "cycle_start"@ {
        ConfigV { cycle_start: value, ..c }
    } else if key == "cycle_mark"@ {
        ConfigV { cycle_mark: value, ..c }
    } else if key == "month_count"@ {
        ConfigV { month_count: i64_or_zero(value), ..c }
    } else if key == "total_count"@ {
        ConfigV { total_count: i64_or_zero(value), ..c }
    } else {
        c
    }
}

/// The keys scripts use are different texts: they differ in length or in
/// their first char.
proof fn lemma_config_keys_differ()
    ensures
        "api_key"@.len() == 7 && "api_key"@[0] == 'a',
        "api_key_enc"@.len() == 11 && "api_key_enc"@[0] == 'a',
        "from_name"@.len() == 9 && "from_name"@[0] == 'f',
        "from_name_enc"@.len() == 13 && "from_name_enc"@[0] == 'f',
        "plan_index"@.len() == 10 && "plan_index"@[0] == 'p',
        "custom_quota"@.len() == 12 && "custom_quota"@[0] == 'c',
        "cycle_start"@.len() == 11 && "cycle_start"@[0] == 'c',
        "cycle_mark"@.len() == 10 && "cycle_mark"@[0] == 'c',
        "month_count"@.len() == 11 && "month_count"@[0] == 'm',
        "total_count"@.len() == 11 && "total_count"@[0] == 't',
{
    reveal_strlit("api_key");
    reveal_strlit("api_key_enc");
    reveal_strlit("from_name");
    reveal_strlit("from_name_enc");
    reveal_strlit("plan_index");
    reveal_strlit("custom_quota");
    reveal_strlit("cycle_start");
    reveal_strlit("cycle_mark");
    reveal_strlit("month_count");
    reveal_strlit("total_count");
}

/// Setting one field leaves every other field as scripts read it: for keys
/// `k` and `k2` that differ, reading `k2` after setting `k` gives what it
/// gave before.
pub proof fn lemma_set_keeps_other_keys(c: ConfigV, k: Seq<char>, k2: Seq<char>, v: Seq<char>)
    requires
        k != k2,
    ensures
        config_text(config_set_spec(c, k, v), k2) == config_text(c, k2),
{
}

/// Reading a field after setting it gives what was written: a text as
/// given, a flag as `true` exactly for `true`, a number as the decimal
/// of its reading (0 when it does not read).
pub proof fn lemma_set_then_get(c: ConfigV, v: Seq<char>)
    ensures
        config_text(config_set_spec(c, "api_key"@, v), "api_key"@) == v,
        config_text(config_set_spec(c, "from_name"@, v), "from_name"@) == v,
        config_text(config_set_spec(c, "cycle_start"@, v), "cycle_start"@) == v,
        config_text(config_set_spec(c, "cycle_mark"@, v), "cycle_mark"@) == v,
        config_text(config_set_spec(c, "api_key_enc"@, v), "api_key_enc"@) == bool_text(v == "true"@),
        config_text(config_set_spec(c, "from_name_enc"@, v), "from_name_enc"@) == bool_text(v == "true"@),
        config_text(config_set_spec(c, "custom_quota"@, v), "custom_quota"@) == signed_decimal(
            i64_or_zero(v) as int,
        ),
        config_text(config_set_spec(c, "month_count"@, v), "month_count"@) == signed_decimal(
            i64_or_zero(v) as int,
        ),
        config_text(config_set_spec(c, "total_count"@, v), "total_count"@) == signed_decimal(
            i64_or_zero(v) as int,
        ),
        config_text(config_set_spec(c, "plan_index"@, v), "plan_index"@) == decimal(
            (match parse_usize_spec(v) {
                Some(n) => n,
                None => 0,
            }) as nat,
        ),
{
    lemma_config_keys_differ();
}

/// Setting a counter changes that counter, to the number the text reads
/// as (0 when it does not read), and no other field of the configuration.
pub proof fn lemma_set_counter(c: ConfigV, v: Seq<char>)
    ensures
        config_set_spec(c, "month_count"@, v) == (ConfigV { month_count: i64_or_zero(v), ..c }),
        config_set_spec(c, "total_count"@, v) == (ConfigV { total_count: i64_or_zero(v), ..c }),
        config_set_spec(c, "custom_quota"@, v) == (ConfigV { custom_quota: i64_or_zero(v), ..c }),
        parse_i64_spec(v) matches Some(n) ==> config_set_spec(c, "total_count"@, v).total_count == n
            && config_set_spec(c, "month_count"@, v).month_count == n,
{
    lemma_config_keys_differ();
}

fn bool_string(b: bool) -> (r: String)
    ensures
        r@ == bool_text(b),
{
    if b {
        String::from_str("true")
    } else {
        String::from_str("false")
    }
}

fn i64_string(n: i64) -> (r: String)
    ensures
        r@ == signed_decimal(n as int),
{
    let d = i64_to_decimal(n);
    string_from_chars(d.as_slice())
}

fn parse_usize_or_zero(t: &str) -> (r: usize)
    ensures
        r == (match parse_usize_spec(t@) {
            Some(n) => n,
            None => 0,
        }),
{
    let cs = to_chars(t);
    match parse_u64_chars(cs.as_slice()) {
        Some(n) => if n as u128 <= usize::MAX as u128 {
            n as usize
        } else {
            0
        },
        None => 0,
    }
}

fn parse_i64_or_zero(t: &str) -> (r: i64)
    ensures
        r == i64_or_zero(t@),
{
    let cs = to_chars(t);
    match parse_i64_chars(cs.as_slice()) {
        Some(n) => n,
        None => 0,
    }
}

/// Reads a configuration field.
pub fn get_config(t: &TrustState, cfg: &AppConfig, key: &str) -> (r: String)
    ensures
        !t.trusted ==> r@ == gate_message(Gate::Store),
        t.trusted ==> r@ == config_text(cfg@, key@),
{
    match t.guard(Gate::Store) {
        Some(e) => return e,
        None => {},
    }
    if str_eq(key, "api_key") {
        cfg.api_key.clone()
    } else if str_eq(key, "api_key_enc") {
        bool_string(cfg.api_key_enc)
    } else if str_eq(key, "from_name") {
        cfg.from_name.clone()
    } else if str_eq(key, "from_name_enc") {
        bool_string(cfg.from_name_enc)
    } else if str_eq(key, "plan_index") {
        let d = u64_to_decimal(cfg.plan_index as u64);
        string_from_chars(d.as_slice())
    } else if str_eq(key, "custom_quota") {
        i64_string(cfg.custom_quota)
    } else if str_eq(key, "cycle_start") {
        cfg.cycle_start.clone()
    } else if str_eq(key, "cycle_mark") {
        cfg.cycle_mark.clone()
    } else if str_eq(key, "month_count") {
        i64_string(cfg.month_count)
    } else if str_eq(key, "total_count") {
        i64_string(cfg.total_count)
    } else {
        String::new()
    }
}

/// Sets a configuration field; `None` when done (the configuration is then
/// to be saved), else the refusal.
pub fn set_config(t: &TrustState, cfg: &mut AppConfig, key: &str, value: &str) -> (r: Option<String>)
    ensures
        !t.trusted ==> (r matches Some(m) && m@ == gate_message(Gate::Store)) && final(cfg)@ == old(
            cfg,
        )@,
        t.trusted ==> r is None && final(cfg)@ == config_set_spec(old(cfg)@, key@, value@),
{
    match t.guard(Gate::Store) {
        Some(e) => return Some(e),
        None => {},
    }
    if str_eq(key, "api_key") {
        cfg.api_key = String::from_str(value);
    } else if str_eq(key, "api_key_enc") {
        cfg.api_key_enc = str_eq(value, "true");
    } else if str_eq(key, "from_name") {
        cfg.from_name = String::from_str(value);
    } else if str_eq(key, "from_name_enc") {
        cfg.from_name_enc = str_eq(value, "true");
    } else if str_eq(key, "plan_index") {
        cfg.plan_index = parse_usize_or_zero(value);
    } else if str_eq(key, "custom_quota") {
        cfg.custom_quota = parse_i64_or_zero(value);
    } else if str_eq(key, "cycle_start") {
        cfg.cycle_start = String::from_str(value);
    } else if str_eq(key, "cycle_mark") {
        cfg.cycle_mark = String::from_str(value);
    } else if str_eq(key, "month_count") {
        cfg.month_count = parse_i64_or_zero(value);
    } else if str_eq(key, "total_count") {
        cfg.total_count = parse_i64_or_zero(value);
    }
    None
}

/// Adds one to the period count (`month_count`) or the total count
/// (`total_count`) and answers the new value; any other key changes
/// nothing and answers `0`. The configuration is then to be saved.
pub fn bump_count(t: &TrustState, cfg: &mut AppConfig, key: &str) -> (r: String)
    requires
        t.trusted && key@ == "month_count"@ ==> old(cfg).month_count < i64::MAX,
        t.trusted && key@ == "total_count"@ ==> old(cfg).total_count < i64::MAX,
    ensures
        !t.trusted ==> r@ == gate_message(Gate::Store) && final(cfg)@ == old(cfg)@,
        t.trusted && key@ == "month_count"@ ==> final(cfg)@ == (ConfigV {
            month_count: (old(cfg).month_count + 1) as i64,
            ..old(cfg)@
        }) && r@ == signed_decimal(old(cfg).month_count + 1),
        t.trusted && key@ == "total_count"@ ==> final(cfg)@ == (ConfigV {
            total_count: (old(cfg).total_count + 1) as i64,
            ..old(cfg)@
        }) && r@ == signed_decimal(old(cfg).total_count + 1),
        t.trusted && key@ != "month_count"@ && key@ != "total_count"@ ==> final(cfg)@ == old(cfg)@
            && r@ == signed_decimal(0),
{
    match t.guard(Gate::Store) {
        Some(e) => return e,
        None => {},
    }
    proof {
        reveal_strlit("month_count");
        reveal_strlit("total_count");
        assert("month_count"@[0] != "total_count"@[0]);
    }
    let v: i64 = if str_eq(key, "month_count") {
        cfg.month_count = cfg.month_count + 1;
        cfg.month_count
    } else if str_eq(key, "total_count") {
        cfg.total_count = cfg.total_count + 1;
        cfg.total_count
    } else {
        0
    };
    i64_string(v)
}

/// The JSON records of the entries `get_history` lists.
pub open spec fn history_records(h: Seq<HistoryEntry>) -> Seq<Seq<(Seq<char>, Seq<char>)>> {
    h.map_values(|e: HistoryEntry| entry_fields(e))
}

/// The newest `limit` history entries (a negative limit counts as a very
/// large one, so all entries), as a JSON array of objects.
pub fn get_history(store: &HistoryStore, limit: i64) -> (r: String)
    ensures
        r@ == records_json_text(
            history_records(store@.take(recent_count(store@.len(), limit as usize))),
        ),
{
    let entries = store.get_recent(limit as usize);
    let n = entries.len();
    let mut rows: Vec<Vec<(String, String)>> = Vec::new();
    let mut i: usize = 0;
    while i < n
        invariant
            i <= n == entries@.len(),
            rows@.len() == i,
            forall|j: int| 0 <= j < i ==> record_view(#[trigger] rows@[j]@) == entry_fields(entries@[j]),
        decreases n - i,
    {
        rows.push(entries[i].json_fields());
        i = i + 1;
    }
    assert(records_view(rows@) =~= history_records(entries@));
    records_json(&rows)
}

/// Records a history entry.
pub fn add_history(t: &TrustState, store: &mut HistoryStore, entry: &HistoryEntry) -> (r: String)
    ensures
        !t.trusted ==> r@ == gate_message(Gate::Store) && final(store)@ == old(store)@,
        t.trusted ==> r@ == "ok"@ && final(store)@ == appended(old(store)@, *entry),
{
    match t.guard(Gate::Store) {
        Some(e) => return e,
        None => {},
    }
    store.append(entry);
    String::from_str("ok")
}

/// Removes every history entry.
pub fn clear_history(t: &TrustState, store: &mut HistoryStore) -> (r: String)
    ensures
        !t.trusted ==> r@ == gate_message(Gate::Store) && final(store)@ == old(store)@,
        t.trusted ==> r@ == "ok"@ && final(store)@ == Seq::<HistoryEntry>::empty(),
{
    match t.guard(Gate::Store) {
        Some(e) => return e,
        None => {},
    }
    store.clear();
    String::from_str("ok")
}

/// The number of history entries.
pub fn history_count(store: &HistoryStore) -> (r: i64)
    ensures
        r == store@.len() as i64,
{
    store.len() as i64
}

} // verus!
