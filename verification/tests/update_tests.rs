use resender::update::{cmp_versions, has_update, parse_version, parse_version_file, update_notice, update_report, RemoteVersion};
use std::cmp::Ordering;

#[test]
fn version_parsing_and_comparison() {
    assert_eq!(cmp_versions("0.1.0", "0.1.0"), Ordering::Equal);
    assert_eq!(cmp_versions("0.2.0", "0.1.0"), Ordering::Greater);
    assert_eq!(cmp_versions("0.1.0", "0.1.1"), Ordering::Less);
    assert_eq!(cmp_versions("1.0.0", "0.9.9"), Ordering::Greater);
    assert_eq!(cmp_versions("0.1.x", "0.1.0"), Ordering::Equal);
    assert_eq!(cmp_versions("1.0", "1.0.0"), Ordering::Equal);
}

#[test]
fn parse_version_file_reads_fields() {
    let text = "@version v1
project: resender
latest: \"0.2.0\"
min: \"0.1.0\"
note: \"修复若干问题\"
url: \"https://gitee.com/snoware/resender/releases\"
";
    let rv = parse_version_file(text).ok().expect("a VersionFile");
    assert_eq!(rv.project, "resender");
    assert_eq!(rv.latest, "0.2.0");
    assert_eq!(rv.min, "0.1.0");
    assert_eq!(rv.note, "修复若干问题");
    assert_eq!(rv.url, "https://gitee.com/snoware/resender/releases");
}

#[test]
fn has_update_detects_newer() {
    let rv = RemoteVersion { latest: "0.2.0".into(), ..Default::default() };
    assert!(has_update("0.1.0", &rv));
    assert!(!has_update("0.2.0", &rv));
    assert!(!has_update("0.3.0", &rv));
}

#[test]
fn version_segments_read_as_numbers() {
    assert_eq!(parse_version("1.2.3"), vec![1, 2, 3]);
    assert_eq!(parse_version(" 4 . x .5"), vec![4, 0, 5]);
    assert_eq!(parse_version(""), vec![0]);
    assert_eq!(parse_version("+7.99999999999999999999"), vec![7, 0]);
}

#[test]
fn version_order_laws_on_examples() {
    // reflexive, antisymmetric, zero padding
    assert_eq!(cmp_versions("2.5", "2.5"), Ordering::Equal);
    assert_eq!(cmp_versions("2.5", "2.10"), Ordering::Less);
    assert_eq!(cmp_versions("2.10", "2.5"), Ordering::Greater);
    assert_eq!(cmp_versions("3", "3.0.0.0"), Ordering::Equal);
}

#[test]
fn version_file_with_numbers_reads_them_as_empty() {
    let rv = parse_version_file("latest: 2\nnote: \"hello world\"\n").ok().unwrap();
    assert_eq!(rv.latest, "");
    assert_eq!(rv.project, "");
}

#[test]
fn version_file_syntax_error_is_reported() {
    let e = parse_version_file("@version v1\n@version v2\n").err().expect("conflicting versions");
    assert!(e.starts_with("VersionFile 解析失败: "));
}

fn remote(latest: &str, note: &str) -> RemoteVersion {
    RemoteVersion {
        project: "resender".into(),
        latest: latest.into(),
        min: "0.1.0".into(),
        note: note.into(),
        url: "https://example.org/dl".into(),
    }
}

#[test]
fn update_check_report() {
    assert_eq!(
        update_report("0.1.0", &remote("0.2.0", "修复")),
        vec!["远端版本: 0.2.0", "更新说明: 修复", "发现新版本，可前往更新: https://example.org/dl"]
    );
    assert_eq!(update_report("0.2.0", &remote("0.2.0", "")), vec!["远端版本: 0.2.0", "已是最新版本"]);
    assert_eq!(update_report("0.3", &remote("0.2.9", "")), vec!["远端版本: 0.2.9", "已是最新版本"]);
}

#[test]
fn update_notice_only_for_newer_versions() {
    assert_eq!(update_notice("0.1.0", &remote("0.1.1", "")), Some("发现新版本 0.1.1（当前 0.1.0）".to_string()));
    assert_eq!(
        update_notice("0.1.0", &remote("1.0", "大版本")),
        Some("发现新版本 1.0（当前 0.1.0）\n大版本".to_string())
    );
    assert_eq!(update_notice("0.1.0", &remote("0.1.0", "x")), None);
}

#[test]
fn version_file_refusals_and_missing_fields() {
    let e = parse_version_file("@version v9\nlatest: 1\n").err().expect("unsupported version");
    assert!(e.starts_with("VersionFile 解析失败: "), "{e}");
    let rv = parse_version_file("latest: 1.2\nnote: 7\n").ok().unwrap();
    assert_eq!(rv.note, "", "a field that is not a string reads as empty");
    assert_eq!(rv.project, "");
    let rv = parse_version_file("[1]").ok().unwrap();
    assert_eq!(rv.latest, "", "a document that is not a block gives empty fields");
}
