use resender::cli::{
    inject_identity, is_command, parse_command, parse_send_args, resolve_api_key, resolve_from, run_report, send_report, Command,
    KeyError, HELP_TEXT, RUN_USAGE, SEND_USAGE,
};
use resender::config::AppConfig;
use resender::crypto::encrypt_with_password;
use resender::resend::{check_request, check_response, status_error, SendError, SendRequest, SendResponse, RESEND_API};

fn args(v: &[&str]) -> Vec<String> {
    v.iter().map(|s| s.to_string()).collect()
}

#[test]
fn send_options_are_read() {
    let a = args(&["send", "--to", "x@y.z", "--subject", "S", "--body", "B", "--html", "--attach", "a.txt", "--bogus", "--attach", "b.txt", "--from", "F"]);
    let s = parse_send_args(&a);
    assert_eq!(s.to, "x@y.z");
    assert_eq!(s.subject, "S");
    assert_eq!(s.body, "B");
    assert!(s.html);
    assert_eq!(s.attachments, vec!["a.txt".to_string(), "b.txt".to_string()]);
    assert_eq!(s.from, "F");
    assert!(s.is_complete());
    let t = parse_send_args(&args(&["send", "--to"]));
    assert_eq!(t.to, "");
    assert!(!t.is_complete());
}

#[test]
fn commands_are_recognised() {
    assert!(is_command(&args(&["resender", "send"])));
    assert!(is_command(&args(&["resender", "-h"])));
    assert!(!is_command(&args(&["resender"])));
    assert!(!is_command(&args(&["resender", "gui"])));
    assert!(matches!(parse_command(&args(&["version"])), Command::Version));
    assert!(matches!(parse_command(&args(&["-V"])), Command::Version));
    assert!(matches!(parse_command(&args(&["check-update"])), Command::CheckUpdate));
    assert!(matches!(parse_command(&args(&["help"])), Command::Help));
    assert!(matches!(parse_command(&args(&[])), Command::Help));
    match parse_command(&args(&["run", "demo.ping", "a", "b"])) {
        Command::Run(name, rest) => {
            assert_eq!(name, "demo.ping");
            assert_eq!(rest, vec!["a".to_string(), "b".to_string()]);
        }
        _ => panic!("run expected"),
    }
    match parse_command(&args(&["run"])) {
        Command::Run(name, rest) => {
            assert_eq!(name, "");
            assert!(rest.is_empty());
        }
        _ => panic!("run expected"),
    }
    match parse_command(&args(&["send", "--body", "B"])) {
        Command::Send(s) => assert_eq!(s.body, "B"),
        _ => panic!("send expected"),
    }
}

#[test]
fn api_key_comes_from_the_command_line_or_the_configuration() {
    let mut c = AppConfig::default();
    c.api_key = "re_plain".into();
    assert_eq!(resolve_api_key("re_cli", &c, "").ok().unwrap(), "re_cli");
    assert_eq!(resolve_api_key("", &c, "").ok().unwrap(), "re_plain");
    c.api_key = encrypt_with_password("re_secret", "pw").ok().unwrap();
    c.api_key_enc = true;
    let e = resolve_api_key("", &c, "").err().unwrap();
    assert!(matches!(e, KeyError::NeedPassword));
    assert_eq!(e.message(), "API Key 已加密，请用 --password 提供密码");
    assert_eq!(resolve_api_key("", &c, "pw").ok().unwrap(), "re_secret");
    let e = resolve_api_key("", &c, "bad").err().unwrap();
    assert!(e.message().starts_with("解密失败: 解密失败（密码错误或数据损坏）"));
}

#[test]
fn sender_name_resolution_and_injection() {
    let mut c = AppConfig::default();
    c.from_name = encrypt_with_password("Team <t@x.y>", "pw").ok().unwrap();
    c.from_name_enc = true;
    assert_eq!(resolve_from("Me", &c, ""), "Me");
    assert_eq!(resolve_from("", &c, "pw"), "Team <t@x.y>");
    assert_eq!(resolve_from("", &c, "bad"), "");
    assert_eq!(resolve_from("", &c, ""), c.from_name);
    inject_identity(&mut c, "re_k", "Team");
    assert_eq!(c.api_key, "re_k");
    assert!(!c.api_key_enc);
    assert_eq!(c.from_name, "Team");
    assert!(!c.from_name_enc);
}

fn request(to: &[&str]) -> SendRequest {
    SendRequest {
        from: "me <m@x.y>".into(),
        to: to.iter().map(|s| s.to_string()).collect(),
        subject: Some("s".into()),
        text: Some("t".into()),
        html: None,
    }
}

#[test]
fn requests_are_checked_before_sending() {
    assert!(matches!(check_request("  ", &request(&["a@b.c"])), Err(SendError::MissingApiKey)));
    assert!(matches!(check_request("re_k", &request(&[])), Err(SendError::NoRecipient)));
    assert_eq!(check_request(" re_k\n", &request(&["a@b.c"])).ok().unwrap(), "re_k");
    assert_eq!(SendError::MissingApiKey.message(), "API Key 未配置");
    assert_eq!(SendError::NoRecipient.message(), "收件人不能为空");
    assert_eq!(RESEND_API, "https://api.resend.com/emails");
}

#[test]
fn replies_are_judged() {
    let e = status_error("422 Unprocessable Entity", Some("bad from"));
    assert_eq!(e.message(), "Resend 错误 (422 Unprocessable Entity): bad from");
    assert_eq!(status_error("500", None).message(), "Resend 错误 (500): 发送失败");
    let ok = check_response(SendResponse { id: Some("id1".into()), error: None }).ok().unwrap();
    assert_eq!(ok.id, Some("id1".to_string()));
    let e = check_response(SendResponse { id: None, error: Some("quota".into()) }).err().unwrap();
    assert_eq!(e.message(), "发送失败: quota");
}

#[test]
fn command_reports() {
    assert_eq!(send_report("已发送: id-1", false), (0, "✓ 已发送: id-1".to_string()));
    assert_eq!(send_report("发送失败", true), (1, "✗ 发送失败".to_string()));
    assert_eq!(run_report("demo.ping", true, "pong"), (0, "✓ demo.ping: pong".to_string()));
    assert_eq!(run_report("demo.ping", false, "未找到自动化 handler: demo.ping"), (1, "✗ 未找到自动化 handler: demo.ping".to_string()));
    assert!(SEND_USAGE.starts_with("用法: resender send --to"));
    assert!(RUN_USAGE.starts_with("用法: resender run"));
    assert_eq!(HELP_TEXT.lines().count(), 5);
}
