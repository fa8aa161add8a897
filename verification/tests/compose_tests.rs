use resender::compose::{
    apply_settings, cycle_key, html_escape, now_iso_string, month_start, preview_html, resolve_body,
    quota_used_up, remaining_quota, roll_cycle, SettingsForm,
};
use resender::config::AppConfig;
use resender::crypto::decrypt_with_password;

#[test]
fn body_mode_markdown_converts_to_html() {
    let (body, is_html) = resolve_body("# t\n\n**b**", 0);
    assert!(is_html, "Markdown 模式应按 HTML 发送");
    assert!(body.contains("<h1"), "应转换为 HTML，got: {body}");
    assert!(!body.contains("# t"), "原文 Markdown 标记应已被解析掉");
}

#[test]
fn body_mode_html_passes_through() {
    let src = "<b>bold</b>";
    let (body, is_html) = resolve_body(src, 1);
    assert!(is_html, "HTML 模式应按 HTML 发送");
    assert_eq!(body, src, "HTML 模式应原样发送，不做转换");
}

#[test]
fn body_mode_text_is_plain() {
    let src = "plain text";
    let (body, is_html) = resolve_body(src, 2);
    assert!(!is_html, "纯文本模式应按 text 字段发送");
    assert_eq!(body, src, "纯文本模式应原样发送");
}

#[test]
fn html_escape_neutralizes_tags() {
    assert_eq!(html_escape("<script>&"), "&lt;script&gt;&amp;");
}

#[test]
fn html_escape_keeps_other_text() {
    assert_eq!(html_escape("a > b & c < d \"q\""), "a &gt; b &amp; c &lt; d \"q\"");
    assert_eq!(html_escape(""), "");
}

#[test]
fn preview_of_plain_text_is_escaped_in_pre() {
    let p = preview_html("1 < 2\nline", 2);
    assert_eq!(
        p,
        "<!DOCTYPE html><html><body><pre style=\"font-family: Consolas, monospace; white-space: pre-wrap; padding: 20px;\">1 &lt; 2\nline</pre></body></html>"
    );
    assert_eq!(preview_html("<i>x</i>", 1), "<i>x</i>");
    assert!(preview_html("# h", 0).contains("<h1"));
}

#[test]
fn time_stamps_are_utc_calendar_dates() {
    assert_eq!(now_iso_string(1700000000), "2023-11-14 22:13:20");
    assert_eq!(now_iso_string(0), "1970-01-01 00:00:00");
    assert_eq!(now_iso_string(951782400), "2000-02-29 00:00:00");
    assert_eq!(month_start(1700000000), "2023-11-01");
    assert_eq!(month_start(1784073600), "2026-07-01");
}

#[test]
fn cycle_key_prefers_configured_start() {
    assert_eq!(cycle_key("2026-01-15", 1700000000), "2026-01-15");
    assert_eq!(cycle_key("", 1700000000), "2023-11-01");
}

#[test]
fn roll_cycle_resets_the_period_count() {
    let mut c = AppConfig::default();
    c.month_count = 9;
    c.total_count = 40;
    c.cycle_mark = "old".into();
    assert!(roll_cycle(&mut c, 1700000000));
    assert_eq!(c.month_count, 0);
    assert_eq!(c.total_count, 40);
    assert_eq!(c.cycle_mark, "2023-11-01");
    c.month_count = 3;
    assert!(!roll_cycle(&mut c, 1700000000));
    assert_eq!(c.month_count, 3);
}

fn form() -> SettingsForm {
    SettingsForm {
        api_key: "re_k".into(),
        from_name: "Team <a@b.c>".into(),
        crypto_password: "pw".into(),
        plan_index: 3,
        encrypt_api_key: true,
        encrypt_from: false,
        custom_quota_text: " 1200 ".into(),
        cycle_start: "2026-01-01".into(),
        keep_after_send: true,
        trust_enabled: true,
        trust_password: "tp".into(),
        sig_mode: "sm2".into(),
        pubkey: "04ab".into(),
    }
}

#[test]
fn settings_encrypt_the_api_key_with_the_password() {
    let mut c = AppConfig::default();
    c.total_count = 5;
    apply_settings(&mut c, &form());
    assert!(c.api_key_enc);
    assert_eq!(decrypt_with_password(&c.api_key, "pw").ok().unwrap(), "re_k");
    assert!(!c.from_name_enc);
    assert_eq!(c.from_name, "Team <a@b.c>");
    assert_eq!(c.custom_quota, 1200);
    assert_eq!(c.plan_index, 3);
    assert_eq!(c.total_count, 5);
    assert_eq!(c.script_sig_verify, "sm2");
    // The trust password is kept only as its check value.
    assert_eq!(c.script_trust_password, resender::crypto::trust_check("tp"));
    assert_ne!(c.script_trust_password, "tp");
    assert_eq!(c.script_trust_password.len(), 64);
}

#[test]
fn settings_without_password_stay_plain() {
    let mut c = AppConfig::default();
    let mut f = form();
    f.crypto_password = String::new();
    f.encrypt_from = true;
    f.custom_quota_text = "abc".into();
    apply_settings(&mut c, &f);
    assert!(!c.api_key_enc);
    assert_eq!(c.api_key, "re_k");
    assert!(!c.from_name_enc);
    assert_eq!(c.custom_quota, 0);
}

#[test]
fn settings_saved_with_a_password_resolve_on_the_command_line() {
    let mut c = AppConfig::default();
    let mut f = form();
    f.encrypt_from = true;
    apply_settings(&mut c, &f);
    assert!(c.api_key_enc && c.from_name_enc);
    assert_eq!(resender::cli::resolve_api_key("", &c, "pw").ok().unwrap(), "re_k");
    assert_eq!(resender::cli::resolve_from("", &c, "pw"), "Team <a@b.c>");
    assert!(resender::cli::resolve_api_key("", &c, "").is_err());
}

#[test]
fn remaining_is_quota_less_the_period_count() {
    assert_eq!(remaining_quota(3000, 120), 2880);
    assert_eq!(remaining_quota(3000, 3000), 0);
    assert_eq!(remaining_quota(100, 130), -30);
    assert_eq!(remaining_quota(i64::MIN, 1), i64::MIN);
    assert_eq!(remaining_quota(i64::MAX, -1), i64::MAX);
    assert!(!quota_used_up(3000, 120));
    assert!(quota_used_up(3000, 3000));
    assert!(quota_used_up(100, 130));
}
