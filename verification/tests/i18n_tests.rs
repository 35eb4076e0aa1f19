use netsentry::i18n::I18n;
use netsentry::tray::{tray_action, tray_menu, MenuEntry, TrayAction};

const DICT: &str = r#"{
  "zh": {"settings_saved": "设置已保存", "log_disconnected": "网络已断开", "settings": "设置", "view_logs": "查看日志", "about": "关于", "quit": "退出"},
  "en": {"settings_saved": "Settings saved", "log_disconnected": "Network disconnected", "settings": "Settings", "quit": "Quit"}
}"#;

#[test]
fn lookup_finds_text_in_language() {
    let d = I18n::load(DICT);
    assert_eq!(d.t("zh", "settings_saved"), "设置已保存");
    assert_eq!(d.t("en", "log_disconnected"), "Network disconnected");
}

#[test]
fn missing_key_or_language_gives_the_key() {
    let d = I18n::load(DICT);
    assert_eq!(d.t("en", "view_logs"), "view_logs");
    assert_eq!(d.t("fr", "settings_saved"), "settings_saved");
    assert_eq!(d.t("", ""), "");
}

#[test]
fn unreadable_resource_gives_empty_dictionary() {
    let d = I18n::load("not json");
    assert_eq!(d.t("zh", "settings_saved"), "settings_saved");
    let d = I18n::load(r#"{"zh": {"a": 1}}"#);
    assert_eq!(d.t("zh", "a"), "a");
    let e = I18n::load("");
    assert_eq!(e.t("en", "quit"), "quit");
}

#[test]
fn later_duplicate_key_wins() {
    let d = I18n::load(r#"{"en": {"k": "first", "k": "second"}}"#);
    assert_eq!(d.t("en", "k"), "second");
}

#[test]
fn tray_menu_labels_follow_language() {
    let d = I18n::load(DICT);
    let m = tray_menu(&d, "en");
    assert_eq!(m.len(), 8);
    assert_eq!(m[0], MenuEntry::Item("settings".to_string(), "Settings".to_string()));
    assert_eq!(m[1], MenuEntry::Item("logs".to_string(), "view_logs".to_string()));
    assert_eq!(m[2], MenuEntry::Separator);
    assert_eq!(m[3], MenuEntry::Item("lang_zh".to_string(), "中文".to_string()));
    assert_eq!(m[4], MenuEntry::Item("lang_en".to_string(), "English".to_string()));
    assert_eq!(m[5], MenuEntry::Separator);
    assert_eq!(m[6], MenuEntry::Item("about".to_string(), "about".to_string()));
    assert_eq!(m[7], MenuEntry::Item("quit".to_string(), "Quit".to_string()));
    let z = tray_menu(&d, "zh");
    assert_eq!(z[1], MenuEntry::Item("logs".to_string(), "查看日志".to_string()));
}

#[test]
fn tray_actions_by_id() {
    assert_eq!(tray_action("settings"), TrayAction::OpenSettings);
    assert_eq!(tray_action("logs"), TrayAction::OpenLogs);
    assert_eq!(tray_action("lang_zh"), TrayAction::SetLanguage("zh".to_string()));
    assert_eq!(tray_action("lang_en"), TrayAction::SetLanguage("en".to_string()));
    assert_eq!(tray_action("about"), TrayAction::OpenAbout);
    assert_eq!(tray_action("quit"), TrayAction::Quit);
    assert_eq!(tray_action("show"), TrayAction::Ignore);
    assert_eq!(tray_action(""), TrayAction::Ignore);
}
