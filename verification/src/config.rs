//! The application configuration, its SML form with the configuration
//! contract, the plan quotas and Rata Die day numbers as calendar dates.

use vstd::prelude::*;
use vstd::arithmetic::div_mod::lemma_fundamental_div_mod;
use vstd::arithmetic::div_mod::lemma_fundamental_div_mod_converse;
use vstd::arithmetic::div_mod::lemma_mod_bound;

use crate::assoc::{assoc_get, assoc_map, keys_distinct, lemma_distinct_dom_len, lemma_get_distinct, lemma_map_entry};
use crate::crypto::{is_check_value, stored_trust, stored_trust_value};
use crate::sml_doc::{self, field_at, fields_view, FieldV, OutV, ScalarV, SmlField, SmlOut, SmlScalar};
use crate::text::{string_from_chars, to_chars};

verus! {

/// The configuration.
#[derive(Clone, Debug)]
pub struct AppConfig {
    /// API key: plain text, or its ciphertext when `api_key_enc`.
    pub api_key: String,
    pub api_key_enc: bool,
    /// Fixed sender name: plain text, or its ciphertext when `from_name_enc`.
    pub from_name: String,
    pub from_name_enc: bool,
    /// Index of the plan in [`plan_count`]'s list.
    pub plan_index: usize,
    /// Monthly quota of the custom plan.
    pub custom_quota: i64,
    /// Start of the counting period, `YYYY-MM-DD`.
    pub cycle_start: String,
    /// Messages sent in total.
    pub total_count: i64,
    /// Start of the current period, `YYYY-MM-DD`.
    pub cycle_mark: String,
    /// Messages sent in the current period.
    pub month_count: i64,
    /// Whether the navigation rail shows icons only.
    pub nav_collapsed: bool,
    /// Whether focus mode hides everything but the content.
    pub zen_mode: bool,
    /// Whether script trust may be enabled.
    pub script_trust_enabled: bool,
    /// The check value of the password that unlocks script trust (see
    /// `crypto::trust_check`); the password itself is never kept or saved.
    pub script_trust_password: String,
    /// Signature check mode: "off", "sm2" or "pq".
    pub script_sig_verify: String,
    /// Public key (hex) for signature checks.
    pub script_pubkey: String,
    /// Whether the compose form is kept after a successful send.
    pub keep_after_send: bool,
    /// Address of the remote VersionFile; empty for no update check.
    pub update_url: String,
}

impl Default for AppConfig {
    fn default() -> (c: Self)
        ensures
            c.api_key@.len() == 0,
            !c.api_key_enc,
            c.from_name@.len() == 0,
            !c.from_name_enc,
            c.plan_index == 0,
            c.custom_quota == 0,
            c.cycle_start@.len() == 0,
            c.total_count == 0,
            c.cycle_mark@.len() == 0,
            c.month_count == 0,
            !c.nav_collapsed,
            !c.zen_mode,
            !c.script_trust_enabled,
            c.script_trust_password@.len() == 0,
            c.script_sig_verify@ == "off"@,
            c.script_pubkey@.len() == 0,
            !c.keep_after_send,
            c.update_url@.len() == 0,
    {
        AppConfig {
            api_key: String::new(),
            api_key_enc: false,
            from_name: String::new(),
            from_name_enc: false,
            plan_index: 0,
            custom_quota: 0,
            cycle_start: String::new(),
            total_count: 0,
            cycle_mark: String::new(),
            month_count: 0,
            nav_collapsed: false,
            zen_mode: false,
            script_trust_enabled: false,
            script_trust_password: String::new(),
            script_sig_verify: String::from_str("off"),
            script_pubkey: String::new(),
            keep_after_send: false,
            update_url: String::new(),
        }
    }
}

/// The configuration contract: the type and default of every field.
/// `loose` lets configuration files written by later versions, with fields
/// this version does not know, still be read.
pub const CONFIG_CONTRACT: &'static str = "@contract ResenderConfig loose {
    api_key: str default \"\"
    api_key_enc: bool default false
    from_name: str default \"\"
    from_name_enc: bool default false
    plan_index: int min 0 default 0
    custom_quota: int default 0
    cycle_start: str default \"\"
    cycle_mark: str default \"\"
    total_count: int default 0
    month_count: int default 0
    nav_collapsed: bool default false
    zen_mode: bool default false
    script_trust_enabled: bool default false
    script_trust_password: str default \"\"
    script_sig_verify: str default \"off\"
    script_pubkey: str default \"\"
    keep_after_send: bool default false
    update_url: str default \"\"
}
";

// ===========================================================================
// Reading a configuration
// ===========================================================================

/// Why a configuration could not be read.
#[derive(Clone, Debug)]
pub enum ConfigError {
    /// The SML library refused the text (or the contract refused a field):
    /// its message.
    Sml(String),
    /// The text's top level is not a block of fields.
    NotBlock,
    /// A field is absent.
    Missing(String),
    /// A field has a value of the wrong type.
    WrongType(String),
    /// The plan index does not fit the integers the file holds.
    PlanIndexRange,
}

/// The description of a configuration error.
pub open spec fn config_error_text(e: ConfigError) -> Seq<char> {
    match e {
        ConfigError::Sml(m) => "SML 解析失败: "@ + m@,
        ConfigError::NotBlock => "SML 内容反序列化为目标类型失败: 顶层不是块"@,
        ConfigError::Missing(f) => "SML 内容反序列化为目标类型失败: missing field `"@ + f@ + "`"@,
        ConfigError::WrongType(f) => "SML 内容反序列化为目标类型失败: invalid type for field `"@ + f@
            + "`"@,
        ConfigError::PlanIndexRange => "序列化为 JSON 中间值失败: plan_index"@,
    }
}

impl ConfigError {
    /// A human readable description, naming the field concerned.
    pub fn message(&self) -> (r: String)
        ensures
            r@ == config_error_text(*self),
    {
        let mut out: Vec<char> = Vec::new();
        match self {
            ConfigError::Sml(m) => {
                out.append(&mut to_chars("SML 解析失败: "));
                out.append(&mut to_chars(m.as_str()));
            },
            ConfigError::NotBlock => {
                out.append(&mut to_chars("SML 内容反序列化为目标类型失败: 顶层不是块"));
            },
            ConfigError::Missing(f) => {
                out.append(&mut to_chars("SML 内容反序列化为目标类型失败: missing field `"));
                out.append(&mut to_chars(f.as_str()));
                out.append(&mut to_chars("`"));
            },
            ConfigError::WrongType(f) => {
                out.append(&mut to_chars("SML 内容反序列化为目标类型失败: invalid type for field `"));
                out.append(&mut to_chars(f.as_str()));
                out.append(&mut to_chars("`"));
            },
            ConfigError::PlanIndexRange => {
                out.append(&mut to_chars("序列化为 JSON 中间值失败: plan_index"));
            },
        }
        string_from_chars(out.as_slice())
    }
}

/// A field read as a string: `None` when absent, `Some(None)` when of
/// another type.
pub open spec fn str_of(f: Option<FieldV>) -> Option<Option<Seq<char>>> {
    match f {
        None => None,
        Some(FieldV::Scalar(ScalarV::Str(s))) => Some(Some(s)),
        Some(_) => Some(None),
    }
}

/// A field read as a boolean.
pub open spec fn bool_of(f: Option<FieldV>) -> Option<Option<bool>> {
    match f {
        None => None,
        Some(FieldV::Scalar(ScalarV::Bool(b))) => Some(Some(b)),
        Some(_) => Some(None),
    }
}

/// A field read as an integer.
pub open spec fn int_of(f: Option<FieldV>) -> Option<Option<i64>> {
    match f {
        None => None,
        Some(FieldV::Scalar(ScalarV::Int(n))) => Some(Some(n)),
        Some(_) => Some(None),
    }
}

/// A field read as an index: a non-negative integer that fits `usize`.
pub open spec fn index_of(f: Option<FieldV>) -> Option<Option<usize>> {
    match f {
        None => None,
        Some(FieldV::Scalar(ScalarV::Int(n))) => if 0 <= n <= usize::MAX {
            Some(Some(n as usize))
        } else {
            Some(None)
        },
        Some(_) => Some(None),
    }
}

/// Whether a field is present with the kind of value wanted.
pub open spec fn present<T>(f: Option<Option<T>>) -> bool {
    f matches Some(Some(_))
}

pub open spec fn value_of<T>(f: Option<Option<T>>) -> T {
    f->Some_0->Some_0
}

/// Every field of the configuration is present with its type.
pub open spec fn config_fields_ok(fs: Seq<(Seq<char>, FieldV)>) -> bool {
    &&& present(str_of(field_at(fs, "api_key"@)))
    &&& present(bool_of(field_at(fs, "api_key_enc"@)))
    &&& present(str_of(field_at(fs, "from_name"@)))
    &&& present(bool_of(field_at(fs, "from_name_enc"@)))
    &&& present(index_of(field_at(fs, "plan_index"@)))
    &&& present(int_of(field_at(fs, "custom_quota"@)))
    &&& present(str_of(field_at(fs, "cycle_start"@)))
    &&& present(int_of(field_at(fs, "total_count"@)))
    &&& present(str_of(field_at(fs, "cycle_mark"@)))
    &&& present(int_of(field_at(fs, "month_count"@)))
    &&& present(bool_of(field_at(fs, "nav_collapsed"@)))
    &&& present(bool_of(field_at(fs, "zen_mode"@)))
    &&& present(bool_of(field_at(fs, "script_trust_enabled"@)))
    &&& present(str_of(field_at(fs, "script_trust_password"@)))
    &&& present(str_of(field_at(fs, "script_sig_verify"@)))
    &&& present(str_of(field_at(fs, "script_pubkey"@)))
    &&& present(bool_of(field_at(fs, "keep_after_send"@)))
    &&& present(str_of(field_at(fs, "update_url"@)))
}

/// The configuration the fields describe (meaningful when
/// [`config_fields_ok`]); fields it does not have are ignored.
pub open spec fn config_of_fields(fs: Seq<(Seq<char>, FieldV)>) -> ConfigV {
    ConfigV {
        api_key: value_of(str_of(field_at(fs, "api_key"@))),
        api_key_enc: value_of(bool_of(field_at(fs, "api_key_enc"@))),
        from_name: value_of(str_of(field_at(fs, "from_name"@))),
        from_name_enc: value_of(bool_of(field_at(fs, "from_name_enc"@))),
        plan_index: value_of(index_of(field_at(fs, "plan_index"@))),
        custom_quota: value_of(int_of(field_at(fs, "custom_quota"@))),
        cycle_start: value_of(str_of(field_at(fs, "cycle_start"@))),
        total_count: value_of(int_of(field_at(fs, "total_count"@))),
        cycle_mark: value_of(str_of(field_at(fs, "cycle_mark"@))),
        month_count: value_of(int_of(field_at(fs, "month_count"@))),
        nav_collapsed: value_of(bool_of(field_at(fs, "nav_collapsed"@))),
        zen_mode: value_of(bool_of(field_at(fs, "zen_mode"@))),
        script_trust_enabled: value_of(bool_of(field_at(fs, "script_trust_enabled"@))),
        script_trust_password: stored_trust(value_of(str_of(field_at(fs, "script_trust_password"@)))),
        script_sig_verify: value_of(str_of(field_at(fs, "script_sig_verify"@))),
        script_pubkey: value_of(str_of(field_at(fs, "script_pubkey"@))),
        keep_after_send: value_of(bool_of(field_at(fs, "keep_after_send"@))),
        update_url: value_of(str_of(field_at(fs, "update_url"@))),
    }
}

fn get_str(fields: &[(String, SmlField)], key: &str) -> (r: Result<String, ConfigError>)
    ensures
        match str_of(field_at(fields_view(fields@), key@)) {
            Some(Some(s)) => r matches Ok(x) && x@ == s,
            _ => r is Err,
        },
{
    match sml_doc::get(fields, key) {
        None => Err(ConfigError::Missing(String::from_str(key))),
        Some(SmlField::Scalar(SmlScalar::Str(s))) => Ok(s.clone()),
        Some(_) => Err(ConfigError::WrongType(String::from_str(key))),
    }
}

fn get_bool(fields: &[(String, SmlField)], key: &str) -> (r: Result<bool, ConfigError>)
    ensures
        match bool_of(field_at(fields_view(fields@), key@)) {
            Some(Some(b)) => r == Ok::<bool, ConfigError>(b),
            _ => r is Err,
        },
{
    match sml_doc::get(fields, key) {
        None => Err(ConfigError::Missing(String::from_str(key))),
        Some(SmlField::Scalar(SmlScalar::Bool(b))) => Ok(*b),
        Some(_) => Err(ConfigError::WrongType(String::from_str(key))),
    }
}

fn get_int(fields: &[(String, SmlField)], key: &str) -> (r: Result<i64, ConfigError>)
    ensures
        match int_of(field_at(fields_view(fields@), key@)) {
            Some(Some(n)) => r == Ok::<i64, ConfigError>(n),
            _ => r is Err,
        },
{
    match sml_doc::get(fields, key) {
        None => Err(ConfigError::Missing(String::from_str(key))),
        Some(SmlField::Scalar(SmlScalar::Int(n))) => Ok(*n),
        Some(_) => Err(ConfigError::WrongType(String::from_str(key))),
    }
}

fn get_index(fields: &[(String, SmlField)], key: &str) -> (r: Result<usize, ConfigError>)
    ensures
        match index_of(field_at(fields_view(fields@), key@)) {
            Some(Some(n)) => r == Ok::<usize, ConfigError>(n),
            _ => r is Err,
        },
{
    match sml_doc::get(fields, key) {
        None => Err(ConfigError::Missing(String::from_str(key))),
        Some(SmlField::Scalar(SmlScalar::Int(n))) => {
            if *n < 0 || *n as u64 as u128 > usize::MAX as u128 {
                Err(ConfigError::WrongType(String::from_str(key)))
            } else {
                Ok(*n as usize)
            }
        },
        Some(_) => Err(ConfigError::WrongType(String::from_str(key))),
    }
}

/// The fields the configuration is written as, in alphabetical order.
pub open spec fn config_out(c: ConfigV) -> Seq<(Seq<char>, OutV)> {
    seq![
        ("api_key"@, OutV::Str(c.api_key)),
        ("api_key_enc"@, OutV::Bool(c.api_key_enc)),
        ("custom_quota"@, OutV::Int(c.custom_quota)),
        ("cycle_mark"@, OutV::Str(c.cycle_mark)),
        ("cycle_start"@, OutV::Str(c.cycle_start)),
        ("from_name"@, OutV::Str(c.from_name)),
        ("from_name_enc"@, OutV::Bool(c.from_name_enc)),
        ("keep_after_send"@, OutV::Bool(c.keep_after_send)),
        ("month_count"@, OutV::Int(c.month_count)),
        ("nav_collapsed"@, OutV::Bool(c.nav_collapsed)),
        ("plan_index"@, OutV::Int(c.plan_index as i64)),
        ("script_pubkey"@, OutV::Str(c.script_pubkey)),
        ("script_sig_verify"@, OutV::Str(c.script_sig_verify)),
        ("script_trust_enabled"@, OutV::Bool(c.script_trust_enabled)),
        ("script_trust_password"@, OutV::Str(stored_trust(c.script_trust_password))),
        ("total_count"@, OutV::Int(c.total_count)),
        ("update_url"@, OutV::Str(c.update_url)),
        ("zen_mode"@, OutV::Bool(c.zen_mode)),
    ]
}

/// A number that tells the configuration's field names apart: length and
/// first letter.
pub open spec fn key_sig(k: Seq<char>) -> int {
    k.len() * 128 + (k[0] as int)
}

/// The position of a field name in [`config_out`], by its [`key_sig`].
spec fn config_key_rank(g: int) -> int {
    if g == 993 {
        0
    } else if g == 1505 {
        1
    } else if g == 1635 {
        2
    } else if g == 1379 {
        3
    } else if g == 1507 {
        4
    } else if g == 1254 {
        5
    } else if g == 1766 {
        6
    } else if g == 2027 {
        7
    } else if g == 1517 {
        8
    } else if g == 1774 {
        9
    } else if g == 1392 {
        10
    } else if g == 1779 {
        11
    } else if g == 2291 {
        12
    } else if g == 2675 {
        13
    } else if g == 2803 {
        14
    } else if g == 1524 {
        15
    } else if g == 1397 {
        16
    } else if g == 1146 {
        17
    } else {
        -1
    }
}

/// The configuration a saved one reads back as: the same, its trust field
/// kept as [`stored_trust`] keeps it (for a check value, the value itself).
pub open spec fn reloaded(c: ConfigV) -> ConfigV {
    ConfigV { script_trust_password: stored_trust(stored_trust(c.script_trust_password)), ..c }
}

/// Whether every text field of the configuration is one the SML library
/// reads back as written ([`sml_doc::str_reads_back`]).
pub open spec fn config_reads_back(c: ConfigV) -> bool {
    &&& sml_doc::str_reads_back(c.api_key)
    &&& sml_doc::str_reads_back(c.cycle_mark)
    &&& sml_doc::str_reads_back(c.cycle_start)
    &&& sml_doc::str_reads_back(c.from_name)
    &&& sml_doc::str_reads_back(c.script_pubkey)
    &&& sml_doc::str_reads_back(c.script_sig_verify)
    &&& sml_doc::str_reads_back(stored_trust(c.script_trust_password))
    &&& sml_doc::str_reads_back(c.update_url)
}

/// Whether a block meets [`CONFIG_CONTRACT`]: every field the contract
/// declares is present with its declared type, and `plan_index` is not
/// negative, so applying the contract changes nothing.
pub open spec fn meets_config_contract(m: Map<Seq<char>, OutV>) -> bool {
    &&& m.dom().contains("api_key"@) && m["api_key"@] is Str
    &&& m.dom().contains("api_key_enc"@) && m["api_key_enc"@] is Bool
    &&& m.dom().contains("custom_quota"@) && m["custom_quota"@] is Int
    &&& m.dom().contains("cycle_mark"@) && m["cycle_mark"@] is Str
    &&& m.dom().contains("cycle_start"@) && m["cycle_start"@] is Str
    &&& m.dom().contains("from_name"@) && m["from_name"@] is Str
    &&& m.dom().contains("from_name_enc"@) && m["from_name_enc"@] is Bool
    &&& m.dom().contains("keep_after_send"@) && m["keep_after_send"@] is Bool
    &&& m.dom().contains("month_count"@) && m["month_count"@] is Int
    &&& m.dom().contains("nav_collapsed"@) && m["nav_collapsed"@] is Bool
    &&& m.dom().contains("plan_index"@) && (m["plan_index"@] matches OutV::Int(n) && n >= 0)
    &&& m.dom().contains("script_pubkey"@) && m["script_pubkey"@] is Str
    &&& m.dom().contains("script_sig_verify"@) && m["script_sig_verify"@] is Str
    &&& m.dom().contains("script_trust_enabled"@) && m["script_trust_enabled"@] is Bool
    &&& m.dom().contains("script_trust_password"@) && m["script_trust_password"@] is Str
    &&& m.dom().contains("total_count"@) && m["total_count"@] is Int
    &&& m.dom().contains("update_url"@) && m["update_url"@] is Str
    &&& m.dom().contains("zen_mode"@) && m["zen_mode"@] is Bool
}

/// The saved block of a configuration: its keys are distinct, bare and
/// read back; it meets the contract; and it reads back as written when the
/// configuration's texts do.
pub proof fn lemma_config_block(c: ConfigV)
    requires
        c.plan_index <= i64::MAX,
    ensures
        keys_distinct(config_out(c)),
        meets_config_contract(assoc_map(config_out(c))),
        config_reads_back(c) ==> sml_doc::block_reads_back(assoc_map(config_out(c))),
{
    let s = config_out(c);
    let m = assoc_map(s);
    reveal_strlit("api_key");
    reveal_strlit("api_key_enc");
    reveal_strlit("custom_quota");
    reveal_strlit("cycle_mark");
    reveal_strlit("cycle_start");
    reveal_strlit("from_name");
    reveal_strlit("from_name_enc");
    reveal_strlit("keep_after_send");
    reveal_strlit("month_count");
    reveal_strlit("nav_collapsed");
    reveal_strlit("plan_index");
    reveal_strlit("script_pubkey");
    reveal_strlit("script_sig_verify");
    reveal_strlit("script_trust_enabled");
    reveal_strlit("script_trust_password");
    reveal_strlit("total_count");
    reveal_strlit("update_url");
    reveal_strlit("zen_mode");
    assert forall|i: int| 0 <= i < 18 implies #[trigger] config_key_rank(key_sig(s[i].0)) == i
        && sml_doc::key_reads_back(s[i].0) by {
        // one case per field, each settled by computing
        if i == 0 {
        } else if i == 1 {
        } else if i == 2 {
        } else if i == 3 {
        } else if i == 4 {
        } else if i == 5 {
        } else if i == 6 {
        } else if i == 7 {
        } else if i == 8 {
        } else if i == 9 {
        } else if i == 10 {
        } else if i == 11 {
        } else if i == 12 {
        } else if i == 13 {
        } else if i == 14 {
        } else if i == 15 {
        } else if i == 16 {
        } else if i == 17 {
        }
    }
    assert forall|i: int, j: int| 0 <= i < j < s.len() implies s[i].0 != s[j].0 by {
        assert(config_key_rank(key_sig(s[i].0)) == i);
        assert(config_key_rank(key_sig(s[j].0)) == j);
    }
    assert(keys_distinct(s));
    lemma_get_distinct(s, 0);
    lemma_get_distinct(s, 1);
    lemma_get_distinct(s, 2);
    lemma_get_distinct(s, 3);
    lemma_get_distinct(s, 4);
    lemma_get_distinct(s, 5);
    lemma_get_distinct(s, 6);
    lemma_get_distinct(s, 7);
    lemma_get_distinct(s, 8);
    lemma_get_distinct(s, 9);
    lemma_get_distinct(s, 10);
    lemma_get_distinct(s, 11);
    lemma_get_distinct(s, 12);
    lemma_get_distinct(s, 13);
    lemma_get_distinct(s, 14);
    lemma_get_distinct(s, 15);
    lemma_get_distinct(s, 16);
    lemma_get_distinct(s, 17);
    lemma_distinct_dom_len(s);
    if config_reads_back(c) {
        assert forall|k: Seq<char>| #[trigger] m.dom().contains(k) implies sml_doc::key_reads_back(k)
            && sml_doc::out_reads_back(m[k]) by {
            lemma_map_entry(s, k);
            let i = choose|i: int| 0 <= i < s.len() && s[i].0 == k && m[k] == s[i].1;
            assert(sml_doc::key_reads_back(s[i].0));
        }
    }
}

/// What is written for a configuration describes it again: the fields it
/// is saved as, read back as written, are all present with their types and
/// give the configuration back, its trust field kept as [`stored_trust`]
/// keeps it. The plan index must fit an `i64`, as saving requires.
pub proof fn lemma_written_config_reads_back(c: ConfigV)
    requires
        c.plan_index <= i64::MAX,
    ensures
        config_fields_ok(sml_doc::read_back_fields(config_out(c))),
        config_of_fields(sml_doc::read_back_fields(config_out(c))) == reloaded(c),
{
    let fs = sml_doc::read_back_fields(config_out(c));
    reveal_strlit("api_key");
    reveal_strlit("api_key_enc");
    reveal_strlit("custom_quota");
    reveal_strlit("cycle_mark");
    reveal_strlit("cycle_start");
    reveal_strlit("from_name");
    reveal_strlit("from_name_enc");
    reveal_strlit("keep_after_send");
    reveal_strlit("month_count");
    reveal_strlit("nav_collapsed");
    reveal_strlit("plan_index");
    reveal_strlit("script_pubkey");
    reveal_strlit("script_sig_verify");
    reveal_strlit("script_trust_enabled");
    reveal_strlit("script_trust_password");
    reveal_strlit("total_count");
    reveal_strlit("update_url");
    reveal_strlit("zen_mode");
    assert forall|i: int| 0 <= i < 18 implies #[trigger] config_key_rank(key_sig(fs[i].0)) == i by {
        // one case per field, each settled by computing
        if i == 0 {
        } else if i == 1 {
        } else if i == 2 {
        } else if i == 3 {
        } else if i == 4 {
        } else if i == 5 {
        } else if i == 6 {
        } else if i == 7 {
        } else if i == 8 {
        } else if i == 9 {
        } else if i == 10 {
        } else if i == 11 {
        } else if i == 12 {
        } else if i == 13 {
        } else if i == 14 {
        } else if i == 15 {
        } else if i == 16 {
        } else if i == 17 {
        }
    }
    assert forall|i: int, j: int| 0 <= i < j < fs.len() implies fs[i].0 != fs[j].0 by {
        assert(config_key_rank(key_sig(fs[i].0)) == i);
        assert(config_key_rank(key_sig(fs[j].0)) == j);
    }
    assert(keys_distinct(fs));
    lemma_get_distinct(fs, 0);
    lemma_get_distinct(fs, 1);
    lemma_get_distinct(fs, 2);
    lemma_get_distinct(fs, 3);
    lemma_get_distinct(fs, 4);
    lemma_get_distinct(fs, 5);
    lemma_get_distinct(fs, 6);
    lemma_get_distinct(fs, 7);
    lemma_get_distinct(fs, 8);
    lemma_get_distinct(fs, 9);
    lemma_get_distinct(fs, 10);
    lemma_get_distinct(fs, 11);
    lemma_get_distinct(fs, 12);
    lemma_get_distinct(fs, 13);
    lemma_get_distinct(fs, 14);
    lemma_get_distinct(fs, 15);
    lemma_get_distinct(fs, 16);
    lemma_get_distinct(fs, 17);
}

/// Reading a configuration takes each field from the key of its own name:
/// for a document with every field present, the configuration's field is
/// the value under that key (the trust field kept as [`stored_trust`]
/// keeps it).
pub proof fn lemma_fields_by_name(fs: Seq<(Seq<char>, FieldV)>)
    requires
        config_fields_ok(fs),
    ensures
        field_at(fs, "api_key"@) == Some(FieldV::Scalar(ScalarV::Str(config_of_fields(fs).api_key))),
        field_at(fs, "from_name"@) == Some(FieldV::Scalar(ScalarV::Str(config_of_fields(fs).from_name))),
        field_at(fs, "cycle_start"@) == Some(FieldV::Scalar(ScalarV::Str(config_of_fields(fs).cycle_start))),
        field_at(fs, "cycle_mark"@) == Some(FieldV::Scalar(ScalarV::Str(config_of_fields(fs).cycle_mark))),
        field_at(fs, "script_sig_verify"@) == Some(FieldV::Scalar(ScalarV::Str(config_of_fields(fs).script_sig_verify))),
        field_at(fs, "script_pubkey"@) == Some(FieldV::Scalar(ScalarV::Str(config_of_fields(fs).script_pubkey))),
        field_at(fs, "update_url"@) == Some(FieldV::Scalar(ScalarV::Str(config_of_fields(fs).update_url))),
        field_at(fs, "api_key_enc"@) == Some(FieldV::Scalar(ScalarV::Bool(config_of_fields(fs).api_key_enc))),
        field_at(fs, "from_name_enc"@) == Some(FieldV::Scalar(ScalarV::Bool(config_of_fields(fs).from_name_enc))),
        field_at(fs, "nav_collapsed"@) == Some(FieldV::Scalar(ScalarV::Bool(config_of_fields(fs).nav_collapsed))),
        field_at(fs, "zen_mode"@) == Some(FieldV::Scalar(ScalarV::Bool(config_of_fields(fs).zen_mode))),
        field_at(fs, "script_trust_enabled"@) == Some(FieldV::Scalar(ScalarV::Bool(config_of_fields(fs).script_trust_enabled))),
        field_at(fs, "keep_after_send"@) == Some(FieldV::Scalar(ScalarV::Bool(config_of_fields(fs).keep_after_send))),
        field_at(fs, "custom_quota"@) == Some(FieldV::Scalar(ScalarV::Int(config_of_fields(fs).custom_quota))),
        field_at(fs, "total_count"@) == Some(FieldV::Scalar(ScalarV::Int(config_of_fields(fs).total_count))),
        field_at(fs, "month_count"@) == Some(FieldV::Scalar(ScalarV::Int(config_of_fields(fs).month_count))),
        field_at(fs, "plan_index"@) == Some(FieldV::Scalar(ScalarV::Int(config_of_fields(fs).plan_index as i64))),
        field_at(fs, "script_trust_password"@) matches Some(FieldV::Scalar(ScalarV::Str(raw)))
            && config_of_fields(fs).script_trust_password == stored_trust(raw),
{
}

/// Saving a configuration writes each field under the key of its own name.
pub proof fn lemma_saved_by_name(c: ConfigV)
    requires
        c.plan_index <= i64::MAX,
    ensures
        assoc_get(config_out(c), "api_key"@) == Some(OutV::Str(c.api_key)),
        assoc_get(config_out(c), "from_name"@) == Some(OutV::Str(c.from_name)),
        assoc_get(config_out(c), "cycle_start"@) == Some(OutV::Str(c.cycle_start)),
        assoc_get(config_out(c), "cycle_mark"@) == Some(OutV::Str(c.cycle_mark)),
        assoc_get(config_out(c), "script_sig_verify"@) == Some(OutV::Str(c.script_sig_verify)),
        assoc_get(config_out(c), "script_pubkey"@) == Some(OutV::Str(c.script_pubkey)),
        assoc_get(config_out(c), "update_url"@) == Some(OutV::Str(c.update_url)),
        assoc_get(config_out(c), "api_key_enc"@) == Some(OutV::Bool(c.api_key_enc)),
        assoc_get(config_out(c), "from_name_enc"@) == Some(OutV::Bool(c.from_name_enc)),
        assoc_get(config_out(c), "nav_collapsed"@) == Some(OutV::Bool(c.nav_collapsed)),
        assoc_get(config_out(c), "zen_mode"@) == Some(OutV::Bool(c.zen_mode)),
        assoc_get(config_out(c), "script_trust_enabled"@) == Some(OutV::Bool(c.script_trust_enabled)),
        assoc_get(config_out(c), "keep_after_send"@) == Some(OutV::Bool(c.keep_after_send)),
        assoc_get(config_out(c), "custom_quota"@) == Some(OutV::Int(c.custom_quota)),
        assoc_get(config_out(c), "total_count"@) == Some(OutV::Int(c.total_count)),
        assoc_get(config_out(c), "month_count"@) == Some(OutV::Int(c.month_count)),
        assoc_get(config_out(c), "plan_index"@) == Some(OutV::Int(c.plan_index as i64)),
        assoc_get(config_out(c), "script_trust_password"@) == Some(OutV::Str(stored_trust(c.script_trust_password))),
{
    lemma_config_block(c);
    let s = config_out(c);
    lemma_get_distinct(s, 0);
    lemma_get_distinct(s, 1);
    lemma_get_distinct(s, 2);
    lemma_get_distinct(s, 3);
    lemma_get_distinct(s, 4);
    lemma_get_distinct(s, 5);
    lemma_get_distinct(s, 6);
    lemma_get_distinct(s, 7);
    lemma_get_distinct(s, 8);
    lemma_get_distinct(s, 9);
    lemma_get_distinct(s, 10);
    lemma_get_distinct(s, 11);
    lemma_get_distinct(s, 12);
    lemma_get_distinct(s, 13);
    lemma_get_distinct(s, 14);
    lemma_get_distinct(s, 15);
    lemma_get_distinct(s, 16);
    lemma_get_distinct(s, 17);
}

/// The text a configuration is saved as: the contract, `@is`, then the
/// fields as the SML library writes them.
pub open spec fn config_text(c: ConfigV) -> Seq<char> {
    CONFIG_CONTRACT@ + "@is ResenderConfig\n"@ + sml_doc::block_text(assoc_map(config_out(c)))
}

impl AppConfig {
    /// The configuration the fields of a document describe; every field
    /// must be present with its type (fields the configuration does not
    /// have are ignored).
    pub fn from_fields(fields: &[(String, SmlField)]) -> (r: Result<AppConfig, ConfigError>)
        ensures
            config_fields_ok(fields_view(fields@)) <==> r is Ok,
            r matches Ok(c) ==> c@ == config_of_fields(fields_view(fields@)),
            r matches Ok(c) ==> is_check_value(c.script_trust_password@),
    {
        let api_key = match get_str(fields, "api_key") { Ok(v) => v, Err(e) => return Err(e) };
        let api_key_enc = match get_bool(fields, "api_key_enc") { Ok(v) => v, Err(e) => return Err(e) };
        let from_name = match get_str(fields, "from_name") { Ok(v) => v, Err(e) => return Err(e) };
        let from_name_enc = match get_bool(fields, "from_name_enc") { Ok(v) => v, Err(e) => return Err(e) };
        let plan_index = match get_index(fields, "plan_index") { Ok(v) => v, Err(e) => return Err(e) };
        let custom_quota = match get_int(fields, "custom_quota") { Ok(v) => v, Err(e) => return Err(e) };
        let cycle_start = match get_str(fields, "cycle_start") { Ok(v) => v, Err(e) => return Err(e) };
        let total_count = match get_int(fields, "total_count") { Ok(v) => v, Err(e) => return Err(e) };
        let cycle_mark = match get_str(fields, "cycle_mark") { Ok(v) => v, Err(e) => return Err(e) };
        let month_count = match get_int(fields, "month_count") { Ok(v) => v, Err(e) => return Err(e) };
        let nav_collapsed = match get_bool(fields, "nav_collapsed") { Ok(v) => v, Err(e) => return Err(e) };
        let zen_mode = match get_bool(fields, "zen_mode") { Ok(v) => v, Err(e) => return Err(e) };
        let script_trust_enabled = match get_bool(fields, "script_trust_enabled") {
            Ok(v) => v,
            Err(e) => return Err(e),
        };
        let script_trust_password = match get_str(fields, "script_trust_password") {
            Ok(v) => stored_trust_value(v.as_str()),
            Err(e) => return Err(e),
        };
        let script_sig_verify = match get_str(fields, "script_sig_verify") {
            Ok(v) => v,
            Err(e) => return Err(e),
        };
        let script_pubkey = match get_str(fields, "script_pubkey") { Ok(v) => v, Err(e) => return Err(e) };
        let keep_after_send = match get_bool(fields, "keep_after_send") {
            Ok(v) => v,
            Err(e) => return Err(e),
        };
        let update_url = match get_str(fields, "update_url") { Ok(v) => v, Err(e) => return Err(e) };
        Ok(AppConfig {
            api_key,
            api_key_enc,
            from_name,
            from_name_enc,
            plan_index,
            custom_quota,
            cycle_start,
            total_count,
            cycle_mark,
            month_count,
            nav_collapsed,
            zen_mode,
            script_trust_enabled,
            script_trust_password,
            script_sig_verify,
            script_pubkey,
            keep_after_send,
            update_url,
        })
    }

    /// Keeps the trust field as a check value: a password found there (as
    /// an earlier version kept it) is replaced by its check value; every
    /// other field stays.
    pub fn seal_trust_password(&mut self)
        ensures
            final(self)@ == (ConfigV {
                script_trust_password: stored_trust(old(self)@.script_trust_password),
                ..old(self)@
            }),
            is_check_value(final(self).script_trust_password@),
    {
        let v = stored_trust_value(self.script_trust_password.as_str());
        self.script_trust_password = v;
    }

    /// Reads a configuration from SML text; the SML library applies a
    /// contract in the text first (filling defaults, checking types). The
    /// library's refusal is [`ConfigError::Sml`]; a text whose top level is
    /// not a block is [`ConfigError::NotBlock`]; otherwise the fields decide
    /// as in [`AppConfig::from_fields`], the trust field kept as a check
    /// value. The text a configuration is saved as loads back as that
    /// configuration ([`reloaded`]) when its texts read back as written.
    /// (For a text that may mention an environment variable, what the
    /// library reads depends on the environment, and nothing is stated.)
    pub fn from_sml_text(text: &str) -> (r: Result<AppConfig, ConfigError>)
        ensures
            sml_doc::env_free(text@) ==> match sml_doc::sml_parsed(text@) {
                Err(e) => r matches Err(ConfigError::Sml(m)) && m@ == e,
                Ok(None) => r matches Err(ConfigError::NotBlock),
                Ok(Some(fs)) => (config_fields_ok(fs) <==> r is Ok) && (r matches Ok(c) ==> c@
                    == config_of_fields(fs)),
            },
            forall|c: ConfigV|
                #![trigger config_text(c)]
                text@ == config_text(c) && c.plan_index <= i64::MAX && config_reads_back(c) ==> (r matches Ok(x)
                    && x@ == reloaded(c)),
            r matches Ok(c) ==> is_check_value(c.script_trust_password@),
    {
        let r = match sml_doc::parse(text) {
            Err(e) => Err(ConfigError::Sml(e)),
            Ok(None) => Err(ConfigError::NotBlock),
            Ok(Some(fields)) => AppConfig::from_fields(fields.as_slice()),
        };
        proof {
            assert forall|c: ConfigV|
                #![trigger config_text(c)]
                text@ == config_text(c) && c.plan_index <= i64::MAX && config_reads_back(c) implies (r matches Ok(x)
                    && x@ == reloaded(c)) by {
                let w = config_out(c);
                let m = assoc_map(w);
                lemma_config_block(c);
                lemma_written_config_reads_back(c);
                assert(text@ == sml_doc::config_prefix() + sml_doc::block_text(m));
                let fs = sml_doc::sml_parsed(text@)->Ok_0->Some_0;
                sml_doc::lemma_block_fields(fs, w);
                let rb = sml_doc::read_back_fields(w);
                assert(config_fields_ok(fs) == config_fields_ok(rb));
                assert(config_of_fields(fs) == config_of_fields(rb));
            }
        }
        r
    }

    /// The fields the configuration is written as, in alphabetical order;
    /// refused when the plan index does not fit an `i64`.
    pub fn to_fields(&self) -> (r: Result<Vec<(String, SmlOut)>, ConfigError>)
        ensures
            self.plan_index <= i64::MAX <==> r is Ok,
            r matches Ok(d) ==> sml_doc::outs_view(d@) == config_out(self@),
            r is Ok ==> is_check_value(stored_trust(self.script_trust_password@)),
    {
        if self.plan_index as u64 > 0x7fff_ffff_ffff_ffffu64 {
            return Err(ConfigError::PlanIndexRange);
        }
        let mut d: Vec<(String, SmlOut)> = Vec::new();
        d.push((String::from_str("api_key"), SmlOut::Str(self.api_key.clone())));
        d.push((String::from_str("api_key_enc"), SmlOut::Bool(self.api_key_enc)));
        d.push((String::from_str("custom_quota"), SmlOut::Int(self.custom_quota)));
        d.push((String::from_str("cycle_mark"), SmlOut::Str(self.cycle_mark.clone())));
        d.push((String::from_str("cycle_start"), SmlOut::Str(self.cycle_start.clone())));
        d.push((String::from_str("from_name"), SmlOut::Str(self.from_name.clone())));
        d.push((String::from_str("from_name_enc"), SmlOut::Bool(self.from_name_enc)));
        d.push((String::from_str("keep_after_send"), SmlOut::Bool(self.keep_after_send)));
        d.push((String::from_str("month_count"), SmlOut::Int(self.month_count)));
        d.push((String::from_str("nav_collapsed"), SmlOut::Bool(self.nav_collapsed)));
        d.push((String::from_str("plan_index"), SmlOut::Int(self.plan_index as i64)));
        d.push((String::from_str("script_pubkey"), SmlOut::Str(self.script_pubkey.clone())));
        d.push((String::from_str("script_sig_verify"), SmlOut::Str(self.script_sig_verify.clone())));
        d.push((String::from_str("script_trust_enabled"), SmlOut::Bool(self.script_trust_enabled)));
        d.push(
            (
                String::from_str("script_trust_password"),
                SmlOut::Str(stored_trust_value(self.script_trust_password.as_str())),
            ),
        );
        d.push((String::from_str("total_count"), SmlOut::Int(self.total_count)));
        d.push((String::from_str("update_url"), SmlOut::Str(self.update_url.clone())));
        d.push((String::from_str("zen_mode"), SmlOut::Bool(self.zen_mode)));
        assert(sml_doc::outs_view(d@) =~= config_out(self@));
        Ok(d)
    }

    /// The text that saving the configuration writes: the contract, `@is`,
    /// then the fields; refused when the plan index does not fit an `i64`.
    /// The trust field it writes, [`stored_trust`] of the one held, is a
    /// check value: a password held there is written as its check value.
    pub fn save(&self) -> (r: Result<String, ConfigError>)
        ensures
            self.plan_index <= i64::MAX <==> r is Ok,
            r matches Ok(s) ==> s@ == config_text(self@),
            r is Ok ==> is_check_value(stored_trust(self.script_trust_password@)),
    {
        let d = match self.to_fields() {
            Ok(d) => d,
            Err(e) => return Err(e),
        };
        let body = sml_doc::to_text(d.as_slice());
        let mut out = to_chars(CONFIG_CONTRACT);
        out.append(&mut to_chars("@is ResenderConfig\n"));
        out.append(&mut to_chars(body.as_str()));
        let s = string_from_chars(out.as_slice());
        assert(s@ =~= config_text(self@));
        Ok(s)
    }

    /// Where a configuration of an earlier version (JSON) is kept under the
    /// configuration directory, `sep` being the system's path separator; it
    /// is read once and moved to [`Self::path`].
    pub fn legacy_path(config_dir: &str, sep: char) -> (r: String)
        ensures
            r@ == app_file_spec(config_dir@, sep, "config.json"@),
    {
        app_file(config_dir, sep, "config.json")
    }

    /// Where the configuration is kept under the configuration directory,
    /// `sep` being the system's path separator.
    pub fn path(config_dir: &str, sep: char) -> (r: String)
        ensures
            r@ == app_file_spec(config_dir@, sep, "config.sml"@),
    {
        app_file(config_dir, sep, "config.sml")
    }
}

/// The file `name` in the application's directory `resender` under the
/// configuration directory, joined with the path separator `sep`.
pub open spec fn app_file_spec(config_dir: Seq<char>, sep: char, name: Seq<char>) -> Seq<char> {
    config_dir + seq![sep] + "resender"@ + seq![sep] + name
}

/// The file `name` in the application's directory.
pub fn app_file(config_dir: &str, sep: char, name: &str) -> (r: String)
    ensures
        r@ == app_file_spec(config_dir@, sep, name@),
{
    let mut out = to_chars(config_dir);
    out.push(sep);
    out.append(&mut to_chars("resender"));
    out.push(sep);
    out.append(&mut to_chars(name));
    string_from_chars(out.as_slice())
}

// ===========================================================================
// Plans
// ===========================================================================

/// Number of plans; the last one is the custom plan.
pub fn plan_count() -> (n: usize)
    ensures
        n == 4,
{
    4
}

/// Monthly quota of plan `i` (the custom plan's is 0 here).
pub open spec fn plan_quota_spec(i: int) -> i64 {
    if i == 0 {
        3000
    } else if i == 1 {
        50000
    } else if i == 2 {
        100000
    } else {
        0
    }
}

/// Name of plan `i`.
pub open spec fn plan_name_spec(i: int) -> Seq<char> {
    if i == 0 {
        "Free (3,000/月)"@
    } else if i == 1 {
        "Pro (50,000/月)"@
    } else if i == 2 {
        "Scale (100,000/月)"@
    } else {
        "自定义"@
    }
}

/// Name of plan `i`.
pub fn plan_name(i: usize) -> (r: &'static str)
    requires
        i < 4,
    ensures
        r@ == plan_name_spec(i as int),
{
    if i == 0 {
        "Free (3,000/月)"
    } else if i == 1 {
        "Pro (50,000/月)"
    } else if i == 2 {
        "Scale (100,000/月)"
    } else {
        "自定义"
    }
}

/// Monthly quota of plan `i`, 0 for an index past the list.
pub fn plan_quota(i: usize) -> (q: i64)
    ensures
        q == plan_quota_spec(i as int),
{
    if i == 0 {
        3000
    } else if i == 1 {
        50000
    } else if i == 2 {
        100000
    } else {
        0
    }
}

/// The monthly quota: that of the chosen plan, or, for the custom plan (and
/// any index past the list), the custom quota when it is positive and 0
/// otherwise.
pub fn compute_quota(plan_index: usize, custom: i64) -> (q: i64)
    ensures
        q == (if plan_index >= 3 {
            if custom > 0 {
                custom
            } else {
                0
            }
        } else {
            plan_quota_spec(plan_index as int)
        }),
        q >= 0,
{
    if plan_index >= plan_count() - 1 {
        if custom > 0 {
            custom
        } else {
            0
        }
    } else {
        plan_quota(plan_index)
    }
}

// ===========================================================================
// Day numbers to dates
// ===========================================================================

/// Leap years of the proleptic Gregorian calendar.
pub open spec fn is_leap_year(y: int) -> bool {
    (y % 4 == 0 && y % 100 != 0) || y % 400 == 0
}

/// Days in year `y`.
pub open spec fn year_length(y: int) -> int {
    if is_leap_year(y) {
        366
    } else {
        365
    }
}

/// Days in month `m` (1 to 12) of year `y`.
pub open spec fn month_length(y: int, m: int) -> int {
    if m == 2 {
        if is_leap_year(y) {
            29
        } else {
            28
        }
    } else if m == 4 || m == 6 || m == 9 || m == 11 {
        30
    } else {
        31
    }
}

/// Days of year `y` before the first of month `m` (1 to 13; 13 stands for
/// the end of the year).
pub open spec fn days_before_month(y: int, m: int) -> int {
    let leap: int = if is_leap_year(y) {
        1
    } else {
        0
    };
    if m <= 1 {
        0
    } else if m == 2 {
        31
    } else if m == 3 {
        59 + leap
    } else if m == 4 {
        90 + leap
    } else if m == 5 {
        120 + leap
    } else if m == 6 {
        151 + leap
    } else if m == 7 {
        181 + leap
    } else if m == 8 {
        212 + leap
    } else if m == 9 {
        243 + leap
    } else if m == 10 {
        273 + leap
    } else if m == 11 {
        304 + leap
    } else if m == 12 {
        334 + leap
    } else {
        365 + leap
    }
}

/// Days before 1 January of year `y`, counted from 1 January of year 1
/// (negative for earlier years).
pub open spec fn days_before_year(y: int) -> int {
    let p = y - 1;
    365 * p + p / 4 - p / 100 + p / 400
}

/// A calendar date: a month from 1 to 12 and a day within that month.
pub open spec fn valid_date(y: int, m: int, d: int) -> bool {
    1 <= m <= 12 && 1 <= d <= month_length(y, m)
}

/// The Rata Die day number of a date: 1 January of year 1 is day 1, and
/// 1 January 1970 is day 719163.
pub open spec fn rata_die(y: int, m: int, d: int) -> int {
    days_before_year(y) + days_before_month(y, m) + d
}

/// The calendar day after a date.
pub open spec fn next_date(y: int, m: int, d: int) -> (int, int, int) {
    if d < month_length(y, m) {
        (y, m, d + 1)
    } else if m < 12 {
        (y, m + 1, 1)
    } else {
        (y + 1, 1, 1)
    }
}

/// The date whose Rata Die day number is `rd`.
pub open spec fn civil_of(rd: int) -> (int, int, int) {
    choose|t: (int, int, int)| valid_date(t.0, t.1, t.2) && rata_die(t.0, t.1, t.2) == rd
}

/// Year of the date of day number `rd`.
pub open spec fn greg_year(rd: int) -> int {
    civil_of(rd).0
}

/// Month of the date of day number `rd`.
pub open spec fn greg_month(rd: int) -> int {
    civil_of(rd).1
}

/// Day of the month of the date of day number `rd`.
pub open spec fn greg_day(rd: int) -> int {
    civil_of(rd).2
}

/// One year on: `days_before_year(y + 1) == days_before_year(y) + year_length(y)`.
proof fn lemma_year_step(y: int)
    ensures
        days_before_year(y + 1) == days_before_year(y) + year_length(y),
{
    let p = y - 1;
    assert((p + 1) / 4 == p / 4 + (if y % 4 == 0 {
        1int
    } else {
        0
    })) by {
        lemma_fundamental_div_mod(p, 4);
        lemma_mod_bound(p, 4);
        if p % 4 == 3 {
            lemma_fundamental_div_mod_converse(p + 1, 4, p / 4 + 1, 0);
        } else {
            lemma_fundamental_div_mod_converse(p + 1, 4, p / 4, p % 4 + 1);
        }
    }
    assert((p + 1) / 100 == p / 100 + (if y % 100 == 0 {
        1int
    } else {
        0
    })) by {
        lemma_fundamental_div_mod(p, 100);
        lemma_mod_bound(p, 100);
        if p % 100 == 99 {
            lemma_fundamental_div_mod_converse(p + 1, 100, p / 100 + 1, 0);
        } else {
            lemma_fundamental_div_mod_converse(p + 1, 100, p / 100, p % 100 + 1);
        }
    }
    assert((p + 1) / 400 == p / 400 + (if y % 400 == 0 {
        1int
    } else {
        0
    })) by {
        lemma_fundamental_div_mod(p, 400);
        lemma_mod_bound(p, 400);
        if p % 400 == 399 {
            lemma_fundamental_div_mod_converse(p + 1, 400, p / 400 + 1, 0);
        } else {
            lemma_fundamental_div_mod_converse(p + 1, 400, p / 400, p % 400 + 1);
        }
    }
    assert(y % 400 == 0 ==> y % 100 == 0) by {
        if y % 400 == 0 {
            lemma_fundamental_div_mod(y, 400);
            lemma_fundamental_div_mod_converse(y, 100, 4 * (y / 400), 0);
        }
    }
    assert(y % 100 == 0 ==> y % 4 == 0) by {
        if y % 100 == 0 {
            lemma_fundamental_div_mod(y, 100);
            lemma_fundamental_div_mod_converse(y, 4, 25 * (y / 100), 0);
        }
    }
}

/// Days before year `b` are at least those before year `a <= b`.
proof fn lemma_years_ordered(a: int, b: int)
    requires
        a <= b,
    ensures
        days_before_year(a) + 365 * (b - a) <= days_before_year(b),
    decreases b - a,
{
    if a < b {
        lemma_years_ordered(a, b - 1);
        lemma_year_step(b - 1);
    }
}

/// Four hundred years hold 146097 days, and leap years repeat with them.
proof fn lemma_cycle(q: int, k: int)
    requires
        0 <= k,
    ensures
        days_before_year(400 * q + 1 + k) == 146097 * q + days_before_year(1 + k),
        is_leap_year(400 * q + 1 + k) == is_leap_year(1 + k),
        year_length(400 * q + 1 + k) == year_length(1 + k),
{
    let x = 400 * q + k;
    lemma_fundamental_div_mod_converse(x, 4, 100 * q + k / 4, k % 4);
    lemma_fundamental_div_mod_converse(x, 100, 4 * q + k / 100, k % 100);
    lemma_fundamental_div_mod_converse(x, 400, q + k / 400, k % 400);
    let z = x + 1;
    lemma_fundamental_div_mod_converse(z, 4, 100 * q + (k + 1) / 4, (k + 1) % 4);
    lemma_fundamental_div_mod_converse(z, 100, 4 * q + (k + 1) / 100, (k + 1) % 100);
    lemma_fundamental_div_mod_converse(z, 400, q + (k + 1) / 400, (k + 1) % 400);
}

/// Months within a year: the first day of a later month comes after every
/// day of an earlier one, and the months fill the year.
proof fn lemma_months_ordered(y: int, m1: int, m2: int)
    requires
        1 <= m1 < m2 <= 13,
    ensures
        days_before_month(y, m1) + month_length(y, m1) <= days_before_month(y, m2),
        m2 == m1 + 1 ==> days_before_month(y, m2) == days_before_month(y, m1) + month_length(
            y,
            m1,
        ),
        days_before_month(y, 13) == year_length(y),
{
}

/// A date lies within its year: after the days before the year and not past
/// its end.
proof fn lemma_date_in_year(y: int, m: int, d: int)
    requires
        valid_date(y, m, d),
    ensures
        days_before_year(y) < rata_die(y, m, d) <= days_before_year(y + 1),
{
    lemma_year_step(y);
    lemma_months_ordered(y, m, 13);
}

/// Different dates have different day numbers.
pub proof fn lemma_rata_die_injective(y1: int, m1: int, d1: int, y2: int, m2: int, d2: int)
    requires
        valid_date(y1, m1, d1),
        valid_date(y2, m2, d2),
        rata_die(y1, m1, d1) == rata_die(y2, m2, d2),
    ensures
        y1 == y2 && m1 == m2 && d1 == d2,
{
    lemma_date_in_year(y1, m1, d1);
    lemma_date_in_year(y2, m2, d2);
    if y1 < y2 {
        lemma_years_ordered(y1 + 1, y2);
    } else if y2 < y1 {
        lemma_years_ordered(y2 + 1, y1);
    } else if m1 < m2 {
        lemma_months_ordered(y1, m1, m2);
    } else if m2 < m1 {
        lemma_months_ordered(y1, m2, m1);
    }
}

/// The day after a date is a date, and its day number is one more.
pub proof fn lemma_next_day(y: int, m: int, d: int)
    requires
        valid_date(y, m, d),
    ensures
        valid_date(next_date(y, m, d).0, next_date(y, m, d).1, next_date(y, m, d).2),
        rata_die(next_date(y, m, d).0, next_date(y, m, d).1, next_date(y, m, d).2) == rata_die(
            y,
            m,
            d,
        ) + 1,
{
    lemma_year_step(y);
    if m < 12 {
        lemma_months_ordered(y, m, m + 1);
    }
}

/// The date of the day number of a date is that date.
pub proof fn lemma_civil_of(y: int, m: int, d: int)
    requires
        valid_date(y, m, d),
    ensures
        civil_of(rata_die(y, m, d)) == (y, m, d),
{
    let rd = rata_die(y, m, d);
    let t = (y, m, d);
    assert(valid_date(t.0, t.1, t.2) && rata_die(t.0, t.1, t.2) == rd);
    let c = civil_of(rd);
    lemma_rata_die_injective(c.0, c.1, c.2, y, m, d);
}

/// Consecutive day numbers name consecutive calendar days: the date of the
/// day number after that of a date is the next calendar day.
pub proof fn lemma_day_after(y: int, m: int, d: int)
    requires
        valid_date(y, m, d),
    ensures
        civil_of(rata_die(y, m, d) + 1) == next_date(y, m, d),
{
    lemma_next_day(y, m, d);
    let n = next_date(y, m, d);
    lemma_civil_of(n.0, n.1, n.2);
}

fn is_leap_exec(y: u64) -> (b: bool)
    ensures
        b == is_leap_year(y as int),
{
    (y % 4 == 0 && y % 100 != 0) || y % 400 == 0
}

fn year_length_exec(y: u64) -> (n: i64)
    ensures
        n == year_length(y as int),
{
    if is_leap_exec(y) {
        366
    } else {
        365
    }
}

fn month_length_exec(leap: bool, m: u32) -> (n: i64)
    ensures
        forall|y: int| is_leap_year(y) == leap ==> n == month_length(y, m as int),
{
    if m == 2 {
        if leap {
            29
        } else {
            28
        }
    } else if m == 4 || m == 6 || m == 9 || m == 11 {
        30
    } else {
        31
    }
}

/// The date of a day number, counted in 400-year cycles of 146097 days,
/// then years, then months.
fn civil_from_days(rd: i64) -> (r: (i64, u32, u32))
    requires
        rd > i64::MIN,
    ensures
        valid_date(r.0 as int, r.1 as int, r.2 as int),
        rata_die(r.0 as int, r.1 as int, r.2 as int) == rd,
{
    let n: i64 = rd - 1;
    let (q, r0): (i64, i64) = if n >= 0 {
        let t: u64 = n as u64;
        let s: u64 = t / 146097;
        let u: u64 = t % 146097;
        proof {
            lemma_fundamental_div_mod(t as int, 146097);
        }
        (s as i64, u as i64)
    } else {
        let t: u64 = (-1 - n) as u64;
        let s: u64 = t / 146097;
        let u: u64 = t % 146097;
        proof {
            lemma_fundamental_div_mod(t as int, 146097);
        }
        (0 - (s as i64) - 1, 146096 - u as i64)
    };
    assert(n == 146097 * q + r0 && 0 <= r0 < 146097);
    let mut rem: i64 = r0;
    let mut k: i64 = 0;
    proof {
        assert(days_before_year(1) == 0);
    }
    while rem >= year_length_exec((k + 1) as u64)
        invariant
            0 <= k <= 399,
            0 <= rem,
            rem + days_before_year(1 + k) == r0,
            0 <= r0 < 146097,
        decreases rem,
    {
        proof {
            lemma_year_step(1 + k);
        }
        let len: i64 = year_length_exec((k + 1) as u64);
        rem = rem - len;
        k = k + 1;
        proof {
            if k == 400 {
                assert(days_before_year(401) == 146097);
            }
        }
    }
    let year: i64 = 400 * q + 1 + k;
    let leap = is_leap_exec((k + 1) as u64);
    proof {
        lemma_cycle(q as int, k as int);
        assert(rem < year_length(1 + k));
    }
    let ghost rem_y: int = rem as int;
    let mut m: u32 = 1;
    while rem >= month_length_exec(leap, m)
        invariant
            1 <= m <= 12,
            0 <= rem,
            rem + days_before_month(year as int, m as int) == rem_y,
            rem_y < year_length(year as int),
            is_leap_year(year as int) == leap,
        decreases rem,
    {
        proof {
            lemma_months_ordered(year as int, m as int, (m + 1) as int);
            lemma_months_ordered(year as int, 1, 13);
        }
        let len = month_length_exec(leap, m);
        rem = rem - len;
        m = m + 1;
        proof {
            if m == 13 {
                assert(false);
            }
        }
    }
    (year, m, (rem + 1) as u32)
}

/// The proleptic Gregorian date of Rata Die day number `rd` (day 1 is
/// 1 January of year 1, day 719163 is 1 January 1970), the year taken to
/// `i32` as `as` takes it.
pub fn gregorian_std(rd: i64) -> (r: (i32, u32, u32))
    requires
        rd > i64::MIN,
    ensures
        valid_date(greg_year(rd as int), greg_month(rd as int), greg_day(rd as int)),
        rata_die(greg_year(rd as int), greg_month(rd as int), greg_day(rd as int)) == rd,
        r.0 == greg_year(rd as int) as i32,
        r.1 == greg_month(rd as int),
        r.2 == greg_day(rd as int),
{
    let (y, m, d) = civil_from_days(rd);
    proof {
        lemma_civil_of(y as int, m as int, d as int);
    }
    (y as i32, m, d)
}

// ===========================================================================
// The configuration in mathematical form
// ===========================================================================

/// The configuration's fields, texts as char sequences.
pub struct ConfigV {
    pub api_key: Seq<char>,
    pub api_key_enc: bool,
    pub from_name: Seq<char>,
    pub from_name_enc: bool,
    pub plan_index: usize,
    pub custom_quota: i64,
    pub cycle_start: Seq<char>,
    pub total_count: i64,
    pub cycle_mark: Seq<char>,
    pub month_count: i64,
    pub nav_collapsed: bool,
    pub zen_mode: bool,
    pub script_trust_enabled: bool,
    pub script_trust_password: Seq<char>,
    pub script_sig_verify: Seq<char>,
    pub script_pubkey: Seq<char>,
    pub keep_after_send: bool,
    pub update_url: Seq<char>,
}

impl View for AppConfig {
    type V = ConfigV;

    open spec fn view(&self) -> ConfigV {
        ConfigV {
            api_key: self.api_key@,
            api_key_enc: self.api_key_enc,
            from_name: self.from_name@,
            from_name_enc: self.from_name_enc,
            plan_index: self.plan_index,
            custom_quota: self.custom_quota,
            cycle_start: self.cycle_start@,
            total_count: self.total_count,
            cycle_mark: self.cycle_mark@,
            month_count: self.month_count,
            nav_collapsed: self.nav_collapsed,
            zen_mode: self.zen_mode,
            script_trust_enabled: self.script_trust_enabled,
            script_trust_password: self.script_trust_password@,
            script_sig_verify: self.script_sig_verify@,
            script_pubkey: self.script_pubkey@,
            keep_after_send: self.keep_after_send,
            update_url: self.update_url@,
        }
    }
}

} // verus!

