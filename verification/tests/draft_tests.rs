use resender::draft::Draft;

fn sample() -> Draft {
    Draft {
        to: "a@b.c, d@e.f".into(),
        subject: "周报 <第 3 周>".into(),
        body: "# 标题\n\n正文".into(),
        body_mode: 0,
        attachments: vec!["/tmp/a b.pdf".into(), "C:\\x\\y.txt".into()],
    }
}

#[test]
fn draft_saves_and_loads_back() {
    let d = sample();
    let back = Draft::load(&d.save()).expect("draft reads back");
    assert_eq!(back.to, d.to);
    assert_eq!(back.subject, d.subject);
    assert_eq!(back.body, d.body);
    assert_eq!(back.body_mode, d.body_mode);
    assert_eq!(back.attachments, d.attachments);
}

#[test]
fn draft_with_plain_text_mode_and_no_attachments() {
    let d = Draft { to: "x@y.z".into(), subject: "s".into(), body: "b".into(), body_mode: 2, attachments: vec![] };
    let back = Draft::load(&d.save()).unwrap();
    assert_eq!(back.body_mode, 2);
    assert!(back.attachments.is_empty());
}

#[test]
fn draft_blankness_and_attachments() {
    assert!(Draft::default().is_empty());
    let mut d = Draft::default();
    d.body = "  \n ".into();
    assert!(d.is_empty());
    d.attachments.push("f".into());
    assert!(!d.is_empty());
    assert!(!sample().is_empty());
}

#[test]
fn draft_paths_and_refusals() {
    assert_eq!(Draft::path("/home/u/.config", '/'), "/home/u/.config/resender/draft.sml");
    assert_eq!(Draft::legacy_path("/home/u/.config", '/'), "/home/u/.config/resender/draft.json");
    assert!(Draft::load("to: x\nsubject: y\n").is_none(), "missing fields");
    assert!(Draft::load("[[[").is_none(), "not SML");
}

#[test]
fn draft_whose_subject_reads_as_a_number_does_not_load() {
    let d = Draft { to: "a@b.c".into(), subject: "42".into(), body: "b".into(), body_mode: 1, attachments: vec![] };
    assert!(Draft::load(&d.save()).is_none());
}

#[test]
fn roundtrip_empty_and_special_strings() {
    let d = Draft {
        to: String::new(),
        subject: "a#b".into(),
        body: "line1\nline2".into(),
        body_mode: 0,
        attachments: vec!["C:\\Users\\x".into(), "D:/data/file.txt".into()],
    };
    let back = Draft::load(&d.save()).expect("empty, #, colon, path and newline read back");
    assert_eq!(back.to, d.to);
    assert_eq!(back.subject, d.subject);
    assert_eq!(back.body, d.body);
    assert_eq!(back.attachments, d.attachments);
}

#[test]
fn draft_with_dollar_amounts_loads_back() {
    let d = Draft { to: "x@y.z".into(), subject: "Invoice $120".into(), body: "Total: $99.50\nPaid".into(), body_mode: 0, attachments: vec![] };
    let back = Draft::load(&d.save()).expect("draft reads back");
    assert_eq!(back.subject, "Invoice $120");
    assert_eq!(back.body, "Total: $99.50\nPaid");
}

#[test]
fn draft_with_dollar_e_loads_back() {
    let d = Draft { to: "x@y.z".into(), subject: "a$eb".into(), body: "pay $each month, $envelope".into(), body_mode: 1, attachments: vec![] };
    let back = Draft::load(&d.save()).expect("draft reads back");
    assert_eq!(back.subject, "a$eb");
    assert_eq!(back.body, "pay $each month, $envelope");
}
