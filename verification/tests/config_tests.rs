use resender::config::{compute_quota, gregorian_std, plan_count, plan_name, plan_quota, AppConfig, ConfigError, CONFIG_CONTRACT};

/// Reads a configuration body under the configuration contract, as a saved
/// configuration file holds it.
fn parse_with_contract(body: &str) -> Result<AppConfig, ConfigError> {
    let text = format!("{}@is ResenderConfig\n{}", CONFIG_CONTRACT, body);
    AppConfig::from_sml_text(&text)
}

#[test]
fn contract_accepts_existing_style_config() {
    let body = [
        "api_key: re_abc\n",
        "api_key_enc: false\n",
        "cycle_mark: -2686-07-01\n",
        "cycle_start: \"\"\n",
        "from_name: sal@mail.swebase.cn\n",
        "from_name_enc: false\n",
        "keep_after_send: true\n",
        "month_count: 6\n",
        "nav_collapsed: false\n",
        "plan_index: 0\n",
        "script_sig_verify: off\n",
        "script_trust_enabled: false\n",
        "total_count: 6\n",
        "update_url: \"\"\n",
        "zen_mode: false\n",
    ]
    .concat();
    let body = body.as_str();
    let c = match parse_with_contract(body) {
        Ok(c) => c,
        Err(e) => panic!("既有配置形态必须能通过契约校验: {}", e.message()),
    };
    assert_eq!(c.api_key, "re_abc");
    assert_eq!(c.month_count, 6);
    assert_eq!(c.script_sig_verify, "off");
    assert!(c.keep_after_send);
}

#[test]
fn contract_fills_missing_fields_with_defaults() {
    let c = match parse_with_contract("api_key: re_x\n") {
        Ok(c) => c,
        Err(e) => panic!("缺失字段应由 default 补齐: {}", e.message()),
    };
    assert_eq!(c.api_key, "re_x");
    assert_eq!(c.from_name, "");
    assert_eq!(c.plan_index, 0);
    assert!(!c.api_key_enc);
}

#[test]
fn contract_rejects_wrong_type() {
    let e = match parse_with_contract("plan_index: abc\n") {
        Ok(_) => panic!("a string plan index must be refused"),
        Err(e) => e,
    };
    let msg = e.message();
    assert!(msg.contains("plan_index"), "错误信息应指出字段，got: {msg}");
}

#[test]
fn contract_allows_undeclared_field_because_loose() {
    let c = match parse_with_contract("some_future_field: 1\n") {
        Ok(c) => c,
        Err(e) => panic!("loose 契约应允许未声明字段: {}", e.message()),
    };
    assert_eq!(c.api_key, "");
}

#[test]
fn config_roundtrip_with_contract() {
    let mut c = AppConfig::default();
    c.api_key = "re_round".into();
    c.plan_index = 2;
    c.keep_after_send = true;
    let text = c.save().ok().expect("a small plan index saves");
    assert!(text.starts_with(CONFIG_CONTRACT));
    let back = AppConfig::from_sml_text(&text).ok().expect("saved text reads back");
    assert_eq!(back.api_key, "re_round");
    assert_eq!(back.plan_index, 2);
    assert!(back.keep_after_send);
}

#[test]
fn default_config_has_signature_checks_off() {
    let c = AppConfig::default();
    assert_eq!(c.script_sig_verify, "off");
    assert!(!c.script_trust_enabled);
    assert_eq!(c.plan_index, 0);
    assert_eq!(c.update_url, "");
}

#[test]
fn config_without_contract_needs_every_field() {
    let e = AppConfig::from_sml_text("api_key: re_x\n").err().expect("fields are missing");
    assert!(matches!(e, ConfigError::Missing(_)));
}

#[test]
fn config_refuses_negative_plan_index_without_contract() {
    let mut c = AppConfig::default();
    c.plan_index = 1;
    let text = c.save().ok().unwrap();
    let body = text.replace("plan_index: 1", "plan_index: -1");
    // The contract refuses it first (min 0).
    let e = AppConfig::from_sml_text(&body).err().expect("negative index refused");
    assert!(e.message().contains("plan_index"));
}

#[test]
fn config_save_refuses_huge_plan_index() {
    let mut c = AppConfig::default();
    c.plan_index = usize::MAX;
    assert!(matches!(c.save(), Err(ConfigError::PlanIndexRange)));
}

#[test]
fn config_path_is_under_resender() {
    assert_eq!(AppConfig::path("/home/u/.config", '/'), "/home/u/.config/resender/config.sml");
    assert_eq!(AppConfig::path("C:\\Users\\u\\AppData\\Roaming", '\\'), "C:\\Users\\u\\AppData\\Roaming\\resender\\config.sml");
    assert_eq!(AppConfig::legacy_path("/c", '/'), "/c/resender/config.json");
}

#[test]
fn plans_and_quotas() {
    assert_eq!(plan_count(), 4);
    assert_eq!(plan_name(0), "Free (3,000/月)");
    assert_eq!(plan_quota(1), 50000);
    assert_eq!(compute_quota(0, 99), 3000);
    assert_eq!(compute_quota(1, 99), 50000);
    assert_eq!(compute_quota(2, 99), 100000);
    assert_eq!(compute_quota(3, 1234), 1234);
    assert_eq!(compute_quota(3, -5), 0);
    assert_eq!(compute_quota(10, 7), 7);
}

#[test]
fn day_numbers_to_dates() {
    // Rata Die: day 1 is 0001-01-01, day 719163 is 1970-01-01.
    assert_eq!(gregorian_std(1), (1, 1, 1));
    assert_eq!(gregorian_std(719163), (1970, 1, 1));
    assert_eq!(gregorian_std(719163 + 365), (1971, 1, 1));
    assert_eq!(gregorian_std(0), (0, 12, 31));
    assert_eq!(gregorian_std(730120), (2000, 1, 1));
    assert_eq!(gregorian_std(2451604), (6713, 4, 7));
    assert_eq!(gregorian_std(2460000), (6736, 4, 2));
    assert_eq!(gregorian_std(739000), (2024, 4, 24));
}

#[test]
fn consecutive_day_numbers_are_consecutive_days() {
    // Leap days and year ends.
    assert_eq!(gregorian_std(730179), (2000, 2, 29));
    assert_eq!(gregorian_std(730180), (2000, 3, 1));
    assert_eq!(gregorian_std(693654), (1900, 2, 28));
    assert_eq!(gregorian_std(693655), (1900, 3, 1));
    assert_eq!(gregorian_std(738885), (2023, 12, 31));
    assert_eq!(gregorian_std(738886), (2024, 1, 1));
    assert_eq!(gregorian_std(-365), (0, 1, 1));
    assert_eq!(gregorian_std(-366), (-1, 12, 31));
}

#[test]
fn config_text_that_is_not_a_block_or_not_sml() {
    assert!(matches!(AppConfig::from_sml_text("[1, 2, 3]"), Err(ConfigError::NotBlock)));
    match AppConfig::from_sml_text("@version v99\napi_key: x\n") {
        Err(ConfigError::Sml(m)) => assert!(!m.is_empty()),
        _ => panic!("an unsupported version is refused by the SML library"),
    }
    let e = AppConfig::from_sml_text("api_key: 5\n").err().unwrap();
    assert!(matches!(e, ConfigError::WrongType(ref k) if k == "api_key"));
}

#[test]
fn saved_text_holds_the_trust_check_not_the_password() {
    let mut c = AppConfig::default();
    let form = resender::compose::SettingsForm {
        api_key: "re_k".into(),
        from_name: "a@b.c".into(),
        crypto_password: String::new(),
        plan_index: 0,
        encrypt_api_key: false,
        encrypt_from: false,
        custom_quota_text: String::new(),
        cycle_start: String::new(),
        keep_after_send: false,
        trust_enabled: true,
        trust_password: "secret-pw".into(),
        sig_mode: "off".into(),
        pubkey: String::new(),
    };
    resender::compose::apply_settings(&mut c, &form);
    let text = c.save().ok().unwrap();
    assert!(!text.contains("secret-pw"));
    assert!(text.contains(&resender::crypto::trust_check("secret-pw")));
    let back = AppConfig::from_sml_text(&text).ok().unwrap();
    assert_eq!(back.script_trust_password, c.script_trust_password);
}

#[test]
fn dollar_values_read_back() {
    let mut c = AppConfig::default();
    c.api_key = "re_$abc".into();
    c.update_url = "https://x/$v1".into();
    let text = c.save().ok().unwrap();
    let back = AppConfig::from_sml_text(&text).ok().unwrap();
    assert_eq!(back.api_key, "re_$abc");
    assert_eq!(back.update_url, "https://x/$v1");
}

#[test]
fn values_with_dollar_e_read_back() {
    let mut c = AppConfig::default();
    c.api_key = "a$eb".into();
    c.from_name = "pay $each".into();
    let text = c.save().ok().unwrap();
    let back = AppConfig::from_sml_text(&text).ok().unwrap();
    assert_eq!(back.api_key, "a$eb");
    assert_eq!(back.from_name, "pay $each");
}

#[test]
fn a_password_in_the_trust_field_is_kept_as_its_check_value() {
    let check = resender::crypto::trust_check("legacy-pw");
    let mut c = AppConfig::default();
    c.script_trust_password = "legacy-pw".into();
    let text = c.save().ok().unwrap();
    assert!(!text.contains("legacy-pw"));
    assert!(text.contains(&check));
    c.seal_trust_password();
    assert_eq!(c.script_trust_password, check);
    c.seal_trust_password();
    assert_eq!(c.script_trust_password, check);
    let loaded = parse_with_contract("script_trust_password: legacy-pw\n").ok().unwrap();
    assert_eq!(loaded.script_trust_password, check);
}

#[test]
fn values_with_comments_and_escapes_read_back() {
    let mut c = AppConfig::default();
    c.api_key = "$e#1".into();
    c.from_name = "x\\u0041".into();
    c.update_url = "C:\\x\\y.txt".into();
    c.cycle_start = "".into();
    let text = c.save().ok().unwrap();
    let back = AppConfig::from_sml_text(&text).ok().unwrap();
    assert_eq!(back.api_key, "$e#1");
    assert_eq!(back.from_name, "x\\u0041");
    assert_eq!(back.update_url, "C:\\x\\y.txt");
    assert_eq!(back.cycle_start, "");
}
