//! The interface texts in the languages the application ships, held in a
//! `swi18n` message catalog, and the filling of the script-visible text
//! table from it in the user's language.
//!
//! Priority of a text: what the script sets > this catalog (in the user's
//! language) > the interface's own default.

use vstd::prelude::*;

use crate::rhai_ext::TextTable;

verus! {

/// `swi18n::Catalog`, a message catalog: key and language to text.
#[verifier::external_type_specification]
#[verifier::external_body]
pub struct ExCatalog(swi18n::Catalog);

/// What a catalog holds: (key, language tag) to text.
pub uninterp spec fn catalog_entries(c: swi18n::Catalog) -> Map<(Seq<char>, Seq<char>), Seq<char>>;

/// The text `swi18n::Catalog::t` gives for `key` in `lang`, from what the
/// catalog holds.
pub uninterp spec fn catalog_lookup(
    entries: Map<(Seq<char>, Seq<char>), Seq<char>>,
    key: Seq<char>,
    lang: Seq<char>,
) -> Seq<char>;

pub open spec fn chars_within(s: Seq<char>, lo: char, hi: char) -> bool {
    forall|i: int| 0 <= i < s.len() ==> lo <= #[trigger] s[i] <= hi
}

/// A language tag in the form the catalog keeps it: a lower-case language,
/// optionally followed by `-` and an upper-case region (`en`, `zh-CN`).
pub open spec fn canonical_lang(t: Seq<char>) -> bool {
    ||| (t.len() > 0 && chars_within(t, 'a', 'z'))
    ||| exists|i: int|
        0 < i < t.len() - 1 && #[trigger] t[i] == '-' && chars_within(t.take(i), 'a', 'z')
            && chars_within(t.skip(i + 1), 'A', 'Z')
}

/// Whether the catalog holds a text of `key` in some language.
pub open spec fn has_key(entries: Map<(Seq<char>, Seq<char>), Seq<char>>, key: Seq<char>) -> bool {
    exists|l: Seq<char>| #[trigger] entries.contains_key((key, l))
}

/// Whether the tag has a region part.
pub open spec fn has_region(t: Seq<char>) -> bool {
    exists|i: int| 0 <= i < t.len() && #[trigger] t[i] == '-'
}

/// No texts at all.
pub open spec fn no_texts() -> Map<(Seq<char>, Seq<char>), Seq<char>> {
    Map::empty()
}

/// An empty catalog (`swi18n::Catalog::new`).
#[verifier::external_body]
fn catalog_new() -> (cat: swi18n::Catalog)
    ensures
        catalog_entries(cat) == no_texts(),
{
    swi18n::Catalog::new()
}

/// `swi18n::Catalog::set`: the text of `key` in `lang` becomes `text`. The
/// catalog stores the tag normalised (language lower case, region upper
/// case); for a tag already in that form the stored tag is the tag itself,
/// which is all this states.
#[verifier::external_body]
fn catalog_set(c: &mut swi18n::Catalog, key: &str, lang: &str, text: &str)
    requires
        canonical_lang(lang@),
    ensures
        catalog_entries(*final(c)) == catalog_entries(*old(c)).insert((key@, lang@), text@),
{
    c.set(key, lang, text)
}

/// `swi18n::Catalog::keys`: each key that has a text, once. The source
/// gives them in ascending order; the order is not stated here.
#[verifier::external_body]
fn catalog_keys(c: &swi18n::Catalog) -> (r: Vec<String>)
    ensures
        forall|i: int| 0 <= i < r.len() ==> has_key(catalog_entries(*c), #[trigger] r[i]@),
        forall|k: Seq<char>|
            has_key(catalog_entries(*c), k) ==> exists|i: int| 0 <= i < r.len() && #[trigger] r[i]@ == k,
        forall|i: int, j: int| 0 <= i < j < r.len() ==> r[i]@ != r[j]@,
{
    c.keys()
}

/// The main tag of a tag with a region: what comes before the `-`.
pub open spec fn main_tag(t: Seq<char>) -> Seq<char> {
    t.take(choose|i: int| 0 <= i < t.len() && #[trigger] t[i] == '-')
}

/// Whether `l` is a tag of another region of language `main`.
pub open spec fn region_of(l: Seq<char>, main: Seq<char>) -> bool {
    l.len() > main.len() && l.take(main.len() as int) == main && l[main.len() as int] == '-'
}

/// Whether `text` is what the fallback chain gives for `key` in a tag
/// `lang` of the stored form: the exact tag's text; else, for a tag with a
/// region, the main tag's text, else the text of another region of the
/// main tag; else the `en` text; else a text of the key in some language;
/// else the key itself.
pub open spec fn fallback_text(
    entries: Map<(Seq<char>, Seq<char>), Seq<char>>,
    key: Seq<char>,
    lang: Seq<char>,
    text: Seq<char>,
) -> bool {
    if entries.contains_key((key, lang)) {
        text == entries[(key, lang)]
    } else if has_region(lang) && entries.contains_key((key, main_tag(lang))) {
        text == entries[(key, main_tag(lang))]
    } else if has_region(lang) && exists|l: Seq<char>|
        #[trigger] entries.contains_key((key, l)) && region_of(l, main_tag(lang)) {
        exists|l: Seq<char>|
            #[trigger] entries.contains_key((key, l)) && region_of(l, main_tag(lang)) && text
                == entries[(key, l)]
    } else if entries.contains_key((key, "en"@)) {
        text == entries[(key, "en"@)]
    } else if has_key(entries, key) {
        exists|l: Seq<char>| #[trigger] entries.contains_key((key, l)) && text == entries[(key, l)]
    } else {
        text == key
    }
}

/// `swi18n::Catalog::t`: the text of `key` in `lang` along the fallback
/// chain exact tag, main tag, another region of the main tag, `en`, any
/// text of the key, the key itself. For a tag in the stored form this is
/// stated as [`fallback_text`] (which of several other regions, or of
/// several languages, is taken follows the catalog's order, not stated);
/// for a key without texts the key comes back whatever the tag.
#[verifier::external_body]
fn catalog_text(c: &swi18n::Catalog, key: &str, lang: &str) -> (r: String)
    ensures
        r@ == catalog_lookup(catalog_entries(*c), key@, lang@),
        canonical_lang(lang@) ==> fallback_text(catalog_entries(*c), key@, lang@, r@),
        !has_key(catalog_entries(*c), key@) ==> r@ == key@,
{
    c.t(key, lang)
}

/// `m` with the Chinese and the English text of `key`.
pub open spec fn with_texts(
    m: Map<(Seq<char>, Seq<char>), Seq<char>>,
    key: Seq<char>,
    zh: Seq<char>,
    en: Seq<char>,
) -> Map<(Seq<char>, Seq<char>), Seq<char>> {
    m.insert((key, "zh-CN"@), zh).insert((key, "en"@), en)
}

/// The texts the application ships, in Chinese and English.
pub open spec fn shipped_texts() -> Map<(Seq<char>, Seq<char>), Seq<char>> {
    let m = no_texts();
    // navigation
    let m = with_texts(m, "t_send"@, "发信"@, "Compose"@);
    let m = with_texts(m, "t_settings"@, "设置"@, "Settings"@);
    let m = with_texts(m, "t_history"@, "历史"@, "History"@);
    let m = with_texts(m, "t_script"@, "脚本"@, "Script"@);
    let m = with_texts(m, "t_about"@, "关于"@, "About"@);
    // compose form
    let m = with_texts(m, "t_to"@, "收件人"@, "To"@);
    let m = with_texts(m, "t_subject"@, "主题"@, "Subject"@);
    let m = with_texts(m, "t_body"@, "正文"@, "Body"@);
    let m = with_texts(m, "t_from"@, "发信名称（From）"@, "From name"@);
    let m = with_texts(m, "t_send_btn"@, "发送"@, "Send"@);
    let m = with_texts(m, "t_attachments"@, "附件"@, "Attachments"@);
    let m = with_texts(m, "t_add_attachment"@, "添加附件"@, "Add attachment"@);
    let m = with_texts(m, "t_remove"@, "移除"@, "Remove"@);
    // settings
    let m = with_texts(m, "t_api_key"@, "Resend API Key"@, "Resend API Key"@);
    let m = with_texts(m, "t_quota"@, "套餐月度额度"@, "Monthly plan quota"@);
    let m = with_texts(m, "t_remaining"@, "本期剩余"@, "Remaining this period"@);
    let m = with_texts(m, "t_save"@, "保存设置"@, "Save settings"@);
    let m = with_texts(m, "t_unlock"@, "解锁"@, "Unlock"@);
    m
}

/// The shipped literals tell themselves apart: their lengths, and where two
/// have the same length, a char where they differ.
proof fn lemma_shipped_literals()
    ensures
        "About"@.len() == 5,
        "Add attachment"@.len() == 14,
        "Attachments"@.len() == 11,
        "Body"@.len() == 4,
        "Compose"@.len() == 7,
        "From name"@.len() == 9,
        "History"@.len() == 7,
        "Monthly plan quota"@.len() == 18,
        "Remaining this period"@.len() == 21,
        "Remove"@.len() == 6,
        "Resend API Key"@.len() == 14,
        "Save settings"@.len() == 13,
        "Script"@.len() == 6,
        "Send"@.len() == 4,
        "Settings"@.len() == 8,
        "Subject"@.len() == 7,
        "To"@.len() == 2,
        "Unlock"@.len() == 6,
        "en"@.len() == 2,
        "t_about"@.len() == 7,
        "t_add_attachment"@.len() == 16,
        "t_api_key"@.len() == 9,
        "t_attachments"@.len() == 13,
        "t_body"@.len() == 6,
        "t_from"@.len() == 6,
        "t_history"@.len() == 9,
        "t_quota"@.len() == 7,
        "t_remaining"@.len() == 11,
        "t_remove"@.len() == 8,
        "t_save"@.len() == 6,
        "t_script"@.len() == 8,
        "t_send"@.len() == 6,
        "t_send_btn"@.len() == 10,
        "t_settings"@.len() == 10,
        "t_subject"@.len() == 9,
        "t_to"@.len() == 4,
        "t_unlock"@.len() == 8,
        "zh-CN"@.len() == 5,
        "主题"@.len() == 2,
        "保存设置"@.len() == 4,
        "关于"@.len() == 2,
        "历史"@.len() == 2,
        "发信"@.len() == 2,
        "发信名称（From）"@.len() == 10,
        "发送"@.len() == 2,
        "套餐月度额度"@.len() == 6,
        "收件人"@.len() == 3,
        "本期剩余"@.len() == 4,
        "正文"@.len() == 2,
        "添加附件"@.len() == 4,
        "移除"@.len() == 2,
        "脚本"@.len() == 2,
        "解锁"@.len() == 2,
        "设置"@.len() == 2,
        "附件"@.len() == 2,
        "Add attachment"@[0] == 'A',
        "Body"@[0] == 'B',
        "Compose"@[0] == 'C',
        "History"@[0] == 'H',
        "Remove"@[0] == 'R',
        "Resend API Key"@[0] == 'R',
        "Script"@[0] == 'S',
        "Send"@[0] == 'S',
        "Subject"@[0] == 'S',
        "Unlock"@[0] == 'U',
        "t_about"@[2] == 'a',
        "t_api_key"@[2] == 'a',
        "t_body"@[2] == 'b',
        "t_from"@[2] == 'f',
        "t_history"@[2] == 'h',
        "t_quota"@[2] == 'q',
        "t_remove"@[2] == 'r',
        "t_save"@[2] == 's',
        "t_save"@[3] == 'a',
        "t_script"@[2] == 's',
        "t_send"@[2] == 's',
        "t_send"@[3] == 'e',
        "t_send_btn"@[4] == 'n',
        "t_settings"@[4] == 't',
        "t_subject"@[2] == 's',
        "t_unlock"@[2] == 'u',
        "主题"@[0] == '主',
        "保存设置"@[0] == '保',
        "关于"@[0] == '关',
        "历史"@[0] == '历',
        "发信"@[0] == '发',
        "发信"@[1] == '信',
        "发送"@[0] == '发',
        "发送"@[1] == '送',
        "本期剩余"@[0] == '本',
        "正文"@[0] == '正',
        "添加附件"@[0] == '添',
        "移除"@[0] == '移',
        "脚本"@[0] == '脚',
        "解锁"@[0] == '解',
        "设置"@[0] == '设',
        "附件"@[0] == '附',
{
    reveal_strlit("About");
    reveal_strlit("Add attachment");
    reveal_strlit("Attachments");
    reveal_strlit("Body");
    reveal_strlit("Compose");
    reveal_strlit("From name");
    reveal_strlit("History");
    reveal_strlit("Monthly plan quota");
    reveal_strlit("Remaining this period");
    reveal_strlit("Remove");
    reveal_strlit("Resend API Key");
    reveal_strlit("Save settings");
    reveal_strlit("Script");
    reveal_strlit("Send");
    reveal_strlit("Settings");
    reveal_strlit("Subject");
    reveal_strlit("To");
    reveal_strlit("Unlock");
    reveal_strlit("en");
    reveal_strlit("t_about");
    reveal_strlit("t_add_attachment");
    reveal_strlit("t_api_key");
    reveal_strlit("t_attachments");
    reveal_strlit("t_body");
    reveal_strlit("t_from");
    reveal_strlit("t_history");
    reveal_strlit("t_quota");
    reveal_strlit("t_remaining");
    reveal_strlit("t_remove");
    reveal_strlit("t_save");
    reveal_strlit("t_script");
    reveal_strlit("t_send");
    reveal_strlit("t_send_btn");
    reveal_strlit("t_settings");
    reveal_strlit("t_subject");
    reveal_strlit("t_to");
    reveal_strlit("t_unlock");
    reveal_strlit("zh-CN");
    reveal_strlit("主题");
    reveal_strlit("保存设置");
    reveal_strlit("关于");
    reveal_strlit("历史");
    reveal_strlit("发信");
    reveal_strlit("发信名称（From）");
    reveal_strlit("发送");
    reveal_strlit("套餐月度额度");
    reveal_strlit("收件人");
    reveal_strlit("本期剩余");
    reveal_strlit("正文");
    reveal_strlit("添加附件");
    reveal_strlit("移除");
    reveal_strlit("脚本");
    reveal_strlit("解锁");
    reveal_strlit("设置");
    reveal_strlit("附件");
}

/// What the shipped catalog holds: the keys below, each in Chinese and in
/// English, with these texts.
pub proof fn lemma_shipped_entries(k: Seq<char>, lang: Seq<char>)
    ensures
        shipped_texts().dom().contains((k, lang)) <==> (lang == "en"@ || lang == "zh-CN"@) && (k == "t_send"@ || k == "t_settings"@ || k == "t_history"@ || k == "t_script"@ || k == "t_about"@ || k == "t_to"@ || k == "t_subject"@ || k == "t_body"@ || k == "t_from"@ || k == "t_send_btn"@ || k == "t_attachments"@ || k == "t_add_attachment"@ || k == "t_remove"@ || k == "t_api_key"@ || k == "t_quota"@ || k == "t_remaining"@ || k == "t_save"@ || k == "t_unlock"@),
        shipped_texts()[("t_send"@, "en"@)] == "Compose"@,
        shipped_texts()[("t_settings"@, "en"@)] == "Settings"@,
        shipped_texts()[("t_history"@, "en"@)] == "History"@,
        shipped_texts()[("t_script"@, "en"@)] == "Script"@,
        shipped_texts()[("t_about"@, "en"@)] == "About"@,
        shipped_texts()[("t_to"@, "en"@)] == "To"@,
        shipped_texts()[("t_subject"@, "en"@)] == "Subject"@,
        shipped_texts()[("t_body"@, "en"@)] == "Body"@,
        shipped_texts()[("t_from"@, "en"@)] == "From name"@,
        shipped_texts()[("t_send_btn"@, "en"@)] == "Send"@,
        shipped_texts()[("t_attachments"@, "en"@)] == "Attachments"@,
        shipped_texts()[("t_add_attachment"@, "en"@)] == "Add attachment"@,
        shipped_texts()[("t_remove"@, "en"@)] == "Remove"@,
        shipped_texts()[("t_api_key"@, "en"@)] == "Resend API Key"@,
        shipped_texts()[("t_quota"@, "en"@)] == "Monthly plan quota"@,
        shipped_texts()[("t_remaining"@, "en"@)] == "Remaining this period"@,
        shipped_texts()[("t_save"@, "en"@)] == "Save settings"@,
        shipped_texts()[("t_unlock"@, "en"@)] == "Unlock"@,
        shipped_texts()[("t_send"@, "zh-CN"@)] == "发信"@,
        shipped_texts()[("t_settings"@, "zh-CN"@)] == "设置"@,
        shipped_texts()[("t_history"@, "zh-CN"@)] == "历史"@,
        shipped_texts()[("t_script"@, "zh-CN"@)] == "脚本"@,
        shipped_texts()[("t_about"@, "zh-CN"@)] == "关于"@,
        shipped_texts()[("t_to"@, "zh-CN"@)] == "收件人"@,
        shipped_texts()[("t_subject"@, "zh-CN"@)] == "主题"@,
        shipped_texts()[("t_body"@, "zh-CN"@)] == "正文"@,
        shipped_texts()[("t_from"@, "zh-CN"@)] == "发信名称（From）"@,
        shipped_texts()[("t_send_btn"@, "zh-CN"@)] == "发送"@,
        shipped_texts()[("t_attachments"@, "zh-CN"@)] == "附件"@,
        shipped_texts()[("t_add_attachment"@, "zh-CN"@)] == "添加附件"@,
        shipped_texts()[("t_remove"@, "zh-CN"@)] == "移除"@,
        shipped_texts()[("t_api_key"@, "zh-CN"@)] == "Resend API Key"@,
        shipped_texts()[("t_quota"@, "zh-CN"@)] == "套餐月度额度"@,
        shipped_texts()[("t_remaining"@, "zh-CN"@)] == "本期剩余"@,
        shipped_texts()[("t_save"@, "zh-CN"@)] == "保存设置"@,
        shipped_texts()[("t_unlock"@, "zh-CN"@)] == "解锁"@,
{
    lemma_shipped_literals();
}

/// No two keys of the shipped catalog share their English text, nor their
/// Chinese text: each text names one thing on the screen.
pub proof fn lemma_shipped_texts_distinct(k1: Seq<char>, k2: Seq<char>, lang: Seq<char>)
    requires
        lang == "en"@ || lang == "zh-CN"@,
        shipped_texts().dom().contains((k1, lang)),
        shipped_texts().dom().contains((k2, lang)),
        shipped_texts()[(k1, lang)] == shipped_texts()[(k2, lang)],
    ensures
        k1 == k2,
{
    lemma_shipped_entries(k1, lang);
    lemma_shipped_entries(k2, lang);
    lemma_shipped_literals();
}

proof fn lemma_shipped_tags_canonical()
    ensures
        canonical_lang("zh-CN"@),
        canonical_lang("en"@),
{
    reveal_strlit("zh-CN");
    reveal_strlit("en");
    let zh = "zh-CN"@;
    assert(zh[2] == '-');
    assert(chars_within(zh.take(2), 'a', 'z'));
    assert(chars_within(zh.skip(3), 'A', 'Z'));
}

/// Adds the Chinese and the English text of `key`.
fn put_texts(c: &mut swi18n::Catalog, key: &str, zh: &str, en: &str)
    ensures
        catalog_entries(*final(c)) == with_texts(catalog_entries(*old(c)), key@, zh@, en@),
{
    proof {
        lemma_shipped_tags_canonical();
    }
    catalog_set(c, key, "zh-CN", zh);
    catalog_set(c, key, "en", en);
}

/// The catalog of the interface texts, in Chinese (`zh-CN`) and English
/// (`en`); every key has both.
pub fn catalog() -> (c: swi18n::Catalog)
    ensures
        catalog_entries(c) == shipped_texts(),
{
    let mut c = catalog_new();
    put_texts(&mut c, "t_send", "发信", "Compose");
    put_texts(&mut c, "t_settings", "设置", "Settings");
    put_texts(&mut c, "t_history", "历史", "History");
    put_texts(&mut c, "t_script", "脚本", "Script");
    put_texts(&mut c, "t_about", "关于", "About");
    put_texts(&mut c, "t_to", "收件人", "To");
    put_texts(&mut c, "t_subject", "主题", "Subject");
    put_texts(&mut c, "t_body", "正文", "Body");
    put_texts(&mut c, "t_from", "发信名称（From）", "From name");
    put_texts(&mut c, "t_send_btn", "发送", "Send");
    put_texts(&mut c, "t_attachments", "附件", "Attachments");
    put_texts(&mut c, "t_add_attachment", "添加附件", "Add attachment");
    put_texts(&mut c, "t_remove", "移除", "Remove");
    put_texts(&mut c, "t_api_key", "Resend API Key", "Resend API Key");
    put_texts(&mut c, "t_quota", "套餐月度额度", "Monthly plan quota");
    put_texts(&mut c, "t_remaining", "本期剩余", "Remaining this period");
    put_texts(&mut c, "t_save", "保存设置", "Save settings");
    put_texts(&mut c, "t_unlock", "解锁", "Unlock");
    c
}

/// Each key of the catalog, with its text in `lang`.
pub open spec fn localized(entries: Map<(Seq<char>, Seq<char>), Seq<char>>, lang: Seq<char>) -> Map<
    Seq<char>,
    Seq<char>,
> {
    Map::new(|k: Seq<char>| has_key(entries, k), |k: Seq<char>| catalog_lookup(entries, k, lang))
}

/// Sets, in `table`, each key of the catalog to its text in `lang`; the
/// table's other keys keep their texts. Returns `lang`, the language the
/// texts were taken in.
pub fn fill(table: &mut TextTable, cat: &swi18n::Catalog, lang: &str) -> (r: String)
    ensures
        final(table)@ == old(table)@.union_prefer_right(localized(catalog_entries(*cat), lang@)),
        r@ == lang@,
{
    let ghost entries = catalog_entries(*cat);
    let keys = catalog_keys(cat);
    let n = keys.len();
    let mut i: usize = 0;
    while i < n
        invariant
            i <= n == keys@.len(),
            entries == catalog_entries(*cat),
            forall|j: int| 0 <= j < keys@.len() ==> has_key(entries, #[trigger] keys@[j]@),
            table@ == old(table)@.union_prefer_right(
                Map::new(
                    |k: Seq<char>| exists|j: int| 0 <= j < i && #[trigger] keys@[j]@ == k,
                    |k: Seq<char>| catalog_lookup(entries, k, lang@),
                ),
            ),
        decreases n - i,
    {
        let ghost before = table@;
        let text = catalog_text(cat, keys[i].as_str(), lang);
        table.set(keys[i].as_str(), text.as_str());
        assert(keys@[i as int]@ == keys[i as int]@);
        assert(table@ =~= old(table)@.union_prefer_right(
            Map::new(
                |k: Seq<char>| exists|j: int| 0 <= j < i + 1 && #[trigger] keys@[j]@ == k,
                |k: Seq<char>| catalog_lookup(entries, k, lang@),
            ),
        )) by {
            assert forall|k: Seq<char>|
                #![trigger table@.dom().contains(k)]
                (exists|j: int| 0 <= j < i + 1 && #[trigger] keys@[j]@ == k) <==> ((exists|j: int|
                    0 <= j < i && #[trigger] keys@[j]@ == k) || k == keys@[i as int]@) by {
                if exists|j: int| 0 <= j < i + 1 && #[trigger] keys@[j]@ == k {
                    let j = choose|j: int| 0 <= j < i + 1 && #[trigger] keys@[j]@ == k;
                    if j < i {
                        assert(exists|j: int| 0 <= j < i && #[trigger] keys@[j]@ == k);
                    }
                }
                if k == keys@[i as int]@ {
                    assert(0 <= i < i + 1 && keys@[i as int]@ == k);
                }
            }
        }
        i = i + 1;
    }
    assert(table@ =~= old(table)@.union_prefer_right(localized(entries, lang@))) by {
        assert forall|k: Seq<char>|
            (exists|j: int| 0 <= j < n && #[trigger] keys@[j]@ == k) <==> #[trigger] has_key(entries, k) by {
            if has_key(entries, k) {
                let j = choose|j: int| 0 <= j < keys@.len() && #[trigger] keys@[j]@ == k;
                assert(0 <= j < n && keys@[j]@ == k);
            }
            if exists|j: int| 0 <= j < n && #[trigger] keys@[j]@ == k {
                let j = choose|j: int| 0 <= j < n && #[trigger] keys@[j]@ == k;
                assert(has_key(entries, keys@[j]@));
            }
        }
    }
    String::from_str(lang)
}

} // verus!
