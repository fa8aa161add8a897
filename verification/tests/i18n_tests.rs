use resender::i18n::{catalog, fill};
use resender::rhai_ext::ui_primitives::{get_i18n, set_i18n};
use resender::rhai_ext::TextTable;

#[test]
fn catalog_has_every_text_in_both_languages() {
    let c = catalog();
    assert_eq!(c.keys().len(), 18);
    for k in c.keys() {
        assert!(!c.missing_for("zh-CN").contains(&k));
        assert!(!c.missing_for("en").contains(&k));
    }
    assert_eq!(c.t("t_send", "zh-CN"), "发信");
    assert_eq!(c.t("t_send", "en"), "Compose");
    assert_eq!(c.t("t_from", "zh-CN"), "发信名称（From）");
}

#[test]
fn fill_uses_the_language_and_keeps_other_texts() {
    let c = catalog();
    let mut t = TextTable::new();
    set_i18n(&mut t, "custom", "x");
    assert_eq!(fill(&mut t, &c, "en"), "en");
    assert_eq!(get_i18n(&t, "t_send"), "Compose");
    assert_eq!(get_i18n(&t, "custom"), "x");
    fill(&mut t, &c, "zh-CN");
    assert_eq!(get_i18n(&t, "t_unlock"), "解锁");
    assert_eq!(get_i18n(&t, "t_send"), "发信");
}

#[test]
fn fill_falls_back_along_the_language_chain() {
    let c = catalog();
    let mut t = TextTable::new();
    fill(&mut t, &c, "zh-TW");
    assert_eq!(get_i18n(&t, "t_history"), "历史", "another region of the same language");
    fill(&mut t, &c, "fr");
    assert_eq!(get_i18n(&t, "t_save"), "Save settings", "the default language");
    assert_eq!(get_i18n(&t, "t_nothing"), "t_nothing");
}
