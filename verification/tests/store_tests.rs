use resender::draft::Draft;
use resender::history::{history_line, HistoryEntry, HistoryStore, HISTORY_LIMIT};
use resender::log::{existing_key, fresh_key, merge_log_lines, LogStore, MAX_LINES, TRIM_AT, UNREADABLE};

fn entry(n: usize) -> HistoryEntry {
    HistoryEntry {
        ts: format!("t{n}"),
        to: "a@b.c".into(),
        subject: format!("s{n}"),
        from: "me".into(),
        status: "ok".into(),
        detail: String::new(),
    }
}

#[test]
fn history_keeps_newest_first() {
    let mut h = HistoryStore::new(Vec::new());
    assert!(h.is_empty());
    h.append(&entry(1));
    h.append(&entry(2));
    assert_eq!(h.len(), 2);
    let recent = h.get_recent(1);
    assert_eq!(recent.len(), 1);
    assert_eq!(recent[0].ts, "t2");
    assert_eq!(h.get_recent(0).len(), 0, "a limit of 0 gives none");
    assert_eq!(h.get_recent(10).len(), 2);
    assert_eq!(h.entries()[1].ts, "t1");
    h.clear();
    assert!(h.is_empty());
    assert_eq!(h.get_recent(5).len(), 0);
}

#[test]
fn history_caps_at_its_limit() {
    let mut h = HistoryStore::new(Vec::new());
    for i in 0..(HISTORY_LIMIT + 5) {
        h.append(&entry(i));
    }
    assert_eq!(h.len(), HISTORY_LIMIT);
    assert_eq!(h.get_recent(1)[0].ts, format!("t{}", HISTORY_LIMIT + 4));
}

#[test]
fn log_append_then_read_gives_the_line_back() {
    let store = LogStore::new("/tmp/logs.enc", "0123abcd");
    assert_eq!(store.path(), "/tmp/logs.enc");
    let c1 = store.append("", "first line");
    assert!(c1.ends_with('\n'));
    let c2 = store.append(&c1, "第二行");
    assert_eq!(store.read_all(&c2), vec!["first line".to_string(), "第二行".to_string()]);
    assert_eq!(store.read_all(""), Vec::<String>::new());
}

#[test]
fn log_lines_under_another_key_are_unreadable() {
    let a = LogStore::new("p", "key-a");
    let b = LogStore::new("p", "key-b");
    let c = a.append("", "secret");
    assert_eq!(b.read_all(&c), vec![UNREADABLE.to_string()]);
    let mixed = format!("{c}\n   \ngarbage\n");
    assert_eq!(a.read_all(&mixed), vec!["secret".to_string(), UNREADABLE.to_string()]);
}

#[test]
fn log_is_trimmed_to_the_newest_lines() {
    let store = LogStore::new("p", "k");
    let one = store.append("", "x");
    let line = one.trim_end().to_string();
    let mut content = String::new();
    for _ in 0..TRIM_AT {
        content.push_str(&line);
        content.push('\n');
    }
    let after = store.append(&content, "newest");
    let read = store.read_all(&after);
    assert_eq!(read.len(), MAX_LINES);
    assert_eq!(read[MAX_LINES - 1], "newest");
    assert_eq!(read[0], "x");
}

#[test]
fn log_has_content_and_keys() {
    let store = LogStore::new("p", "k");
    assert!(store.has_content(Some(3)));
    assert!(!store.has_content(Some(0)));
    assert!(!store.has_content(None));
    assert_eq!(existing_key("  abc \n"), Some("abc".to_string()));
    assert_eq!(existing_key(" \n"), None);
    let k = fresh_key();
    assert_eq!(k.len(), 64);
    assert!(k.chars().all(|c| c.is_ascii_hexdigit() && !c.is_ascii_uppercase()));
    assert_ne!(k, fresh_key());
}

#[test]
fn draft_save_then_load() {
    let d = Draft {
        to: "a@b.c, d@e.f".into(),
        subject: "周报 <draft>".into(),
        body: "line1\nline2 # not a comment".into(),
        body_mode: 2,
        attachments: vec!["C:\\Users\\x\\a.pdf".into(), "/tmp/b c.txt".into()],
    };
    let text = d.save();
    let back = Draft::load(&text).expect("a saved draft loads");
    assert_eq!(back.to, d.to);
    assert_eq!(back.subject, d.subject);
    assert_eq!(back.body, d.body);
    assert_eq!(back.body_mode, 2);
    assert_eq!(back.attachments, d.attachments);
}

#[test]
fn draft_emptiness() {
    let mut d = Draft::default();
    assert!(d.is_empty());
    d.body = "  \n ".into();
    assert!(d.is_empty());
    d.attachments.push("f".into());
    assert!(!d.is_empty());
    assert_eq!(Draft::path("/cfg", '/'), "/cfg/resender/draft.sml");
}

#[test]
fn draft_load_refuses_incomplete_text() {
    assert!(Draft::load("to: a\n").is_none());
    assert!(Draft::load("to: a\nsubject: b\nbody: c\nbody_mode: 99999999999\nattachments: []\n").is_none());
    let d = Draft::load("to: a\nsubject: b\nbody: c\nbody_mode: 1\nattachments: []\n").expect("complete");
    assert_eq!(d.body_mode, 1);
    assert!(d.attachments.is_empty());
}

#[test]
fn history_lines_mark_the_status() {
    let mut e = entry(1);
    e.detail = "id-9".into();
    assert_eq!(history_line(&e), "[t1] ✓ | a@b.c | 主题:s1 | id-9");
    e.status = "fail".into();
    assert_eq!(history_line(&e), "[t1] ✗ | a@b.c | 主题:s1 | id-9");
}

#[test]
fn log_panel_merges_memory_and_file_without_repeats() {
    let mem = vec!["a".to_string(), "b".to_string()];
    let disk = vec!["b".to_string(), "c".to_string(), "c".to_string(), "a".to_string(), "d".to_string()];
    assert_eq!(merge_log_lines(&mem, &disk), vec!["a", "b", "c", "d"]);
    assert_eq!(merge_log_lines(&[], &disk), vec!["b", "c", "a", "d"]);
    assert_eq!(merge_log_lines(&mem, &[]), vec!["a", "b"]);
}

#[test]
fn append_payload_writes_one_line() {
    assert_eq!(resender::log::append_payload("", "abc"), "abc\n");
    assert_eq!(resender::log::append_payload("x\n", "y|z|w"), "x\ny|z|w\n");
}
