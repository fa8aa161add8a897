use resender::config::AppConfig;
use resender::crypto::trust_check;
use resender::history::{HistoryEntry, HistoryStore};
use resender::rhai_ext::crypto_primitives::{decrypt, derive_key, encrypt, sm3_hex};
use resender::rhai_ext::store_primitives::{add_history, bump_count, clear_history, get_config, get_history, history_count, set_config};
use resender::rhai_ext::trust_primitives::{get_sig_mode, is_trusted, lock, sign_script, unlock, Gate, TrustState};
use resender::rhai_ext::api_primitives::AutomationRegistry;
use resender::rhai_ext::http_primitives::{bearer_token, guard, make_err, reply_of, runtime_failure};
use resender::rhai_ext::ui_primitives::{
    confirm_accepts, get_i18n, get_theme, is_dark, log, set_dark, set_i18n, set_status, set_theme, StatusLine,
    LOG_BUFFER_LIMIT,
};
use resender::rhai_ext::{field_from_parts, is_builtin_script, parse_fields, script_fingerprint, to_int, FieldArg, FieldValues, TextTable, SORG_BANNER};

fn trusted() -> TrustState {
    let mut t = TrustState::new();
    t.trusted = true;
    t
}

#[test]
fn untrusted_scripts_are_refused() {
    let t = TrustState::new();
    assert!(!is_trusted(&t));
    assert_eq!(get_sig_mode(&t), "off");
    assert_eq!(encrypt(&t, "x", "pw"), "ERR: 脚本未受信任：加密原语已禁用");
    let mut c = AppConfig::default();
    assert_eq!(get_config(&t, &c, "api_key"), "ERR: 脚本未受信任：存储原语已禁用");
    assert!(set_config(&t, &mut c, "api_key", "v").is_some());
    assert_eq!(c.api_key, "");
    assert_eq!(t.guard(Gate::Http).unwrap(), "ERR: 脚本未受信任：功能已禁用，请在「设置 → 脚本信任」中启用并解锁");
}

#[test]
fn unlock_checks_the_configuration() {
    let mut t = TrustState::new();
    let mut c = AppConfig::default();
    assert_eq!(unlock(&mut t, &c, "pw", "src", ""), "ERR: 脚本信任未启用，请先在设置中启用");
    c.script_trust_enabled = true;
    c.script_trust_password = trust_check("pw");
    assert_eq!(unlock(&mut t, &c, "nope", "src", ""), "ERR: 信任密码错误");
    assert!(!t.trusted);
    c.script_sig_verify = "sm2".into();
    let r = unlock(&mut t, &c, "pw", "src", "");
    assert!(r.starts_with("ERR: 签名校验错误: "), "{r}");
    assert!(!t.trusted);
    c.script_sig_verify = "off".into();
    assert_eq!(unlock(&mut t, &c, "pw", "src", ""), "");
    assert!(is_trusted(&t));
    assert_eq!(t.trust_password, "pw");
    lock(&mut t);
    assert!(!t.trusted);
    assert_eq!(t.trust_password, "");
}

#[test]
fn unlock_with_a_valid_signature() {
    let priv_hex = "11".repeat(32);
    let sig = sign_script("fn main() {}", &priv_hex);
    assert!(!sig.starts_with("ERR"));
    let pk = libsmx::sm2::PrivateKey::from_bytes(&[0x11; 32]).ok().unwrap().public_key();
    let mut c = AppConfig::default();
    c.script_trust_enabled = true;
    c.script_trust_password = trust_check("pw");
    c.script_sig_verify = "sm2".into();
    c.script_pubkey = resender::text::hex_encode(&pk);
    let mut t = TrustState::new();
    assert_eq!(unlock(&mut t, &c, "pw", "fn main() {}", &sig), "");
    assert_eq!(get_sig_mode(&t), "sm2");
    let mut t2 = TrustState::new();
    assert_eq!(unlock(&mut t2, &c, "pw", "fn main() { evil() }", &sig), "ERR: 脚本签名校验未通过");
    assert!(sign_script("x", "zz").starts_with("ERR: "));
}

#[test]
fn trusted_crypto_primitives() {
    let t = trusted();
    let p = encrypt(&t, "hello", "pw");
    assert_eq!(decrypt(&t, &p, "pw"), "hello");
    assert!(decrypt(&t, &p, "bad").starts_with("ERR: 解密失败"));
    assert_eq!(derive_key(&t, "pw", "AAEC"), "ERR: salt 长度异常");
    assert_eq!(sm3_hex("abc"), "66c7f0f462eeedd9d1f2d46bdc10e4e24167c4875cf2f7a2297da02b8f4ba8e0");
}

#[test]
fn store_primitives_read_and_write_the_configuration() {
    let t = trusted();
    let mut c = AppConfig::default();
    assert!(set_config(&t, &mut c, "plan_index", "2").is_none());
    assert_eq!(c.plan_index, 2);
    set_config(&t, &mut c, "plan_index", "-1");
    assert_eq!(c.plan_index, 0);
    set_config(&t, &mut c, "api_key_enc", "true");
    assert!(c.api_key_enc);
    set_config(&t, &mut c, "custom_quota", " 5");
    assert_eq!(c.custom_quota, 0, "values are not trimmed");
    set_config(&t, &mut c, "unknown", "x");
    assert_eq!(get_config(&t, &c, "api_key_enc"), "true");
    assert_eq!(get_config(&t, &c, "month_count"), "0");
    assert_eq!(get_config(&t, &c, "unknown"), "");
    assert_eq!(bump_count(&t, &mut c, "month_count"), "1");
    assert_eq!(bump_count(&t, &mut c, "total_count"), "1");
    assert_eq!(bump_count(&t, &mut c, "other"), "0");
    assert_eq!(c.month_count, 1);
    c.custom_quota = -7;
    assert_eq!(get_config(&t, &c, "custom_quota"), "-7");
}

#[test]
fn store_primitives_keep_the_history() {
    let t = trusted();
    let mut h = HistoryStore::new(Vec::new());
    let e = HistoryEntry { ts: "t".into(), to: "a".into(), subject: "s".into(), from: "f".into(), status: "ok".into(), detail: "id".into() };
    assert_eq!(add_history(&TrustState::new(), &mut h, &e), "ERR: 脚本未受信任：存储原语已禁用");
    assert_eq!(history_count(&h), 0);
    assert_eq!(add_history(&t, &mut h, &e), "ok");
    assert_eq!(history_count(&h), 1);
    assert_eq!(
        get_history(&h, -1),
        r#"[{"detail":"id","from":"f","status":"ok","subject":"s","to":"a","ts":"t"}]"#
    );
    assert_eq!(get_history(&h, 0), "[]");
    assert_eq!(clear_history(&t, &mut h), "ok");
    assert_eq!(history_count(&h), 0);
    assert_eq!(get_history(&h, 5), "[]");
}

#[test]
fn interface_texts_and_log_buffer() {
    let mut table = TextTable::new();
    assert_eq!(get_i18n(&table, "t_send"), "t_send");
    set_i18n(&mut table, "t_send", "发信");
    set_i18n(&mut table, "t_send", "Compose");
    assert_eq!(get_i18n(&table, "t_send"), "Compose");
    assert_eq!(get_theme(&table, "accent"), "");
    set_theme(&mut table, "accent", "#3b82f6");
    assert_eq!(get_theme(&table, "accent"), "#3b82f6");
    let mut buf: Vec<String> = Vec::new();
    for i in 0..(LOG_BUFFER_LIMIT + 3) {
        assert_eq!(log(&mut buf, &format!("l{i}")), format!("l{i}"));
    }
    assert_eq!(buf.len(), LOG_BUFFER_LIMIT);
    assert_eq!(buf[0], "l3");
}

#[test]
fn automation_inputs() {
    assert!(field_from_parts("", "L", "bool").is_none());
    let f = field_from_parts("to", "", "").unwrap();
    assert_eq!(f.label, "to");
    assert_eq!(f.kind, "text");
    let decl: Vec<(String, String, String)> = vec![
        ("to".into(), "收件人".into(), "text".into()),
        (String::new(), "x".into(), "x".into()),
        ("dry".into(), String::new(), "bool".into()),
    ];
    let fields = parse_fields(&decl);
    assert_eq!(fields.len(), 2);
    let mut values = FieldValues::new();
    values.set("demo", "to", "a@b.c");
    values.set("demo", "dry", "true");
    values.set("demo", "to", "x@y.z");
    assert_eq!(values.get("demo", "to"), "x@y.z");
    assert_eq!(values.get("other", "to"), "");
    let mut reg: AutomationRegistry<u32> = AutomationRegistry::new();
    reg.register_with_fields("demo", 1, "演示", &decl);
    reg.register_with_fields("other", 2, "另一个", &decl);
    let a = reg.collect_field_args(&values, "demo");
    assert_eq!(a.len(), 2);
    assert!(matches!(&a[0], FieldArg::Text(s) if s == "x@y.z"));
    assert!(matches!(&a[1], FieldArg::Flag(true)));
    let b = reg.collect_field_args(&values, "other");
    assert!(matches!(&b[0], FieldArg::Text(s) if s.is_empty()));
    assert!(matches!(&b[1], FieldArg::Flag(false)));
    assert!(reg.collect_field_args(&values, "missing").is_empty());
    let mut items = reg.items(&values);
    items.sort_by(|a, b| a.name.cmp(&b.name));
    assert_eq!(items.len(), 2);
    assert_eq!((items[0].name.as_str(), items[0].desc.as_str()), ("demo", "演示"));
    assert_eq!(items[0].fields.len(), 2);
    assert_eq!(items[0].fields[0].0.label, "收件人");
    assert_eq!(items[0].fields[0].1, "x@y.z");
    assert_eq!(items[0].fields[1].1, "true");
    assert_eq!(items[1].fields[0].1, "", "no value typed for this handler");
}

#[test]
fn automation_registry() {
    let mut reg: AutomationRegistry<&str> = AutomationRegistry::new();
    assert_eq!(reg.count(), 0);
    assert_eq!(reg.list(), "[]");
    reg.register("demo.ping", "ping_v1", "回显测试");
    reg.register("demo.send", "send", "发送");
    assert_eq!(reg.count(), 2);
    reg.register("demo.ping", "ping_v2", "回显");
    assert_eq!(reg.count(), 2, "registering a name again replaces it");
    assert_eq!(*reg.call_target("demo.ping").ok().unwrap(), "ping_v2");
    assert_eq!(reg.get("demo.ping").unwrap().description, "回显");
    assert_eq!(reg.call_target("nope").err().unwrap(), "ERR: 未找到自动化 handler: nope");
    assert_eq!(reg.run_target("nope").err().unwrap(), "未找到自动化 handler: nope");
    assert_eq!(*reg.run_target("demo.send").ok().unwrap(), "send");
    let listing: serde_json::Value = serde_json::from_str(&reg.list()).unwrap();
    let items = listing.as_array().unwrap();
    assert_eq!(items.len(), 2);
    assert!(items.iter().any(|v| v["name"] == "demo.ping" && v["desc"] == "回显"));
    assert!(items.iter().any(|v| v["name"] == "demo.send" && v["desc"] == "发送"));
    let mut names = reg.descriptions();
    names.sort();
    assert_eq!(names, vec![("demo.ping".to_string(), "回显".to_string()), ("demo.send".to_string(), "发送".to_string())]);
}

#[test]
fn http_primitive_replies() {
    let r = guard(&TrustState::new()).unwrap();
    assert_eq!(r.status, -1);
    assert_eq!(r.body, "ERR: 脚本未受信任：功能已禁用，请在「设置 → 脚本信任」中启用并解锁");
    assert!(guard(&trusted()).is_none());
    assert_eq!(bearer_token(""), None);
    assert_eq!(bearer_token("re_123"), Some("re_123".to_string()));
    let ok = reply_of(Ok((200, "{}".to_string())));
    assert_eq!((ok.status, ok.body.as_str()), (200, "{}"));
    let e = reply_of(Err("timeout".to_string()));
    assert_eq!((e.status, e.body.as_str()), (-1, "ERR: request: timeout"));
    assert_eq!(runtime_failure("x").body, "ERR: runtime: x");
    assert_eq!(make_err("m").body, "ERR: m");
}

#[test]
fn status_confirm_and_dark_mode() {
    let mut st = StatusLine::new();
    assert_eq!((st.text.as_str(), st.is_err), ("就绪", false));
    set_status(&mut st, "发送失败", true);
    assert_eq!((st.text.as_str(), st.is_err), ("发送失败", true));
    assert!(confirm_accepts("y\n"));
    assert!(confirm_accepts("  YES "));
    assert!(confirm_accepts("Yes"));
    assert!(!confirm_accepts("no"));
    assert!(!confirm_accepts(""));
    assert!(!confirm_accepts("yess"));
    let mut dark = false;
    set_dark(&mut dark, true);
    assert!(is_dark(&dark));
}

#[test]
fn builtin_script_fingerprint_ignores_carriage_returns() {
    let lf = script_fingerprint("let a = 1;\nlet b = 2;\n");
    let crlf = script_fingerprint("let a = 1;\r\nlet b = 2;\r\n");
    assert_eq!(lf, crlf);
    assert_eq!(lf.len(), 64);
    assert_eq!(script_fingerprint("abc"), "66c7f0f462eeedd9d1f2d46bdc10e4e24167c4875cf2f7a2297da02b8f4ba8e0");
    assert!(is_builtin_script("abc", "66C7F0F462EEEDD9D1F2D46BDC10E4E24167C4875CF2F7A2297DA02B8F4BA8E0"));
    assert!(!is_builtin_script("abd", "66c7f0f462eeedd9d1f2d46bdc10e4e24167c4875cf2f7a2297da02b8f4ba8e0"));
}

#[test]
fn script_helpers() {
    assert_eq!(to_int(" 42 "), 42);
    assert_eq!(to_int("-3"), -3);
    assert_eq!(to_int("x"), 0);
    assert!(SORG_BANNER.starts_with("<<*>> SOrg"));
}
