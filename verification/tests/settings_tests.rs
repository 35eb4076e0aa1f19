use netsentry::settings::Settings;
use netsentry::update::{autostart_log_key, autostart_value, plan_settings_update, save_steps, tray_language_request, SaveStep};

fn settings(language: &str, port: u16, autostart: bool, web_access: bool) -> Settings {
    Settings { language: language.to_string(), port, autostart, web_access }
}

#[test]
fn default_settings_are_chinese_on_port_8080() {
    let s = Settings::default();
    assert_eq!(s.language, "zh");
    assert_eq!(s.port, 8080);
    assert!(!s.autostart);
    assert!(!s.web_access);
}

#[test]
fn normalize_accepts_english_in_any_case() {
    assert_eq!(settings("EN", 9000, false, false).normalize().language, "en");
    assert_eq!(settings("En", 9000, false, false).normalize().language, "en");
    assert_eq!(settings("en", 9000, false, false).normalize().language, "en");
}

#[test]
fn normalize_turns_other_languages_into_chinese() {
    assert_eq!(settings("fr", 9000, false, false).normalize().language, "zh");
    assert_eq!(settings("", 9000, false, false).normalize().language, "zh");
    assert_eq!(settings("eng", 9000, false, false).normalize().language, "zh");
    assert_eq!(settings("én", 9000, false, false).normalize().language, "zh");
}

#[test]
fn normalize_repairs_port_zero_and_keeps_the_rest() {
    let n = settings("en", 0, true, true).normalize();
    assert_eq!(n.port, 8080);
    assert!(n.autostart);
    assert!(n.web_access);
    assert_eq!(settings("en", 1, false, false).normalize().port, 1);
    assert_eq!(settings("en", 65535, false, false).normalize().port, 65535);
}

#[test]
fn normalize_is_idempotent_on_examples() {
    let once = settings("EN", 0, true, false).normalize();
    let twice = once.clone().normalize();
    assert_eq!(once.language, twice.language);
    assert_eq!(once.port, twice.port);
}

#[test]
fn validate_refuses_port_zero() {
    let e = settings("zh", 0, false, false).validate().unwrap_err();
    assert_eq!(e, "port must be between 1 and 65535");
    assert!(settings("zh", 1, false, false).validate().is_ok());
    assert!(settings("xx", 80, false, false).validate().is_ok());
}

#[test]
fn plan_refuses_invalid_settings() {
    let old = Settings::default();
    let r = plan_settings_update(&old, settings("en", 0, true, true));
    assert_eq!(r.err().unwrap(), "port must be between 1 and 65535");
}

#[test]
fn plan_lists_the_needed_steps() {
    let old = Settings::default();
    let u = plan_settings_update(&old, settings("EN", 9090, true, false)).ok().unwrap();
    assert_eq!(u.settings.language, "en");
    assert_eq!(u.settings.port, 9090);
    assert_eq!(u.autostart, Some(true));
    assert!(u.language_changed);
    assert!(u.restart_web_server);
}

#[test]
fn plan_of_unchanged_settings_does_nothing() {
    let old = Settings::default();
    let u = plan_settings_update(&old, Settings::default()).ok().unwrap();
    assert_eq!(u.autostart, None);
    assert!(!u.language_changed);
    assert!(!u.restart_web_server);
}

#[test]
fn plan_restarts_server_when_access_scope_changes() {
    let old = settings("zh", 8080, false, false);
    let u = plan_settings_update(&old, settings("zh", 8080, false, true)).ok().unwrap();
    assert!(u.restart_web_server);
    assert!(!u.language_changed);
    assert_eq!(u.autostart, None);
}

#[test]
fn plan_compares_against_repaired_language() {
    let old = settings("zh", 8080, false, false);
    let u = plan_settings_update(&old, settings("de", 8080, false, false)).ok().unwrap();
    assert_eq!(u.settings.language, "zh");
    assert!(!u.language_changed);
}

#[test]
fn autostart_entry_quotes_the_path() {
    assert_eq!(autostart_value(r"C:\Program Files\NetSentry\netsentry.exe"), "\"C:\\Program Files\\NetSentry\\netsentry.exe\"");
    assert_eq!(autostart_log_key(true), "log_autostart_enabled");
    assert_eq!(autostart_log_key(false), "log_autostart_disabled");
}

#[test]
fn tray_language_change_only_when_different() {
    let cur = settings("zh", 8081, true, true);
    assert!(tray_language_request(&cur, "zh").is_none());
    let s = tray_language_request(&cur, "en").unwrap();
    assert_eq!(s.language, "en");
    assert_eq!(s.port, 8081);
    assert!(s.autostart);
    assert!(s.web_access);
}

#[test]
fn normalized_settings_always_validate() {
    for (lang, port) in [("", 0u16), ("EN", 0), ("zh", 1), ("x", 65535)] {
        let n = settings(lang, port, false, false).normalize();
        assert!(n.validate().is_ok());
        assert!(n.language == "en" || n.language == "zh");
    }
}

#[test]
fn save_steps_put_fallible_steps_first() {
    let old = Settings::default();
    let u = plan_settings_update(&old, settings("en", 9090, true, false)).ok().unwrap();
    assert_eq!(
        save_steps(&u),
        vec![
            SaveStep::SetAutostart(true),
            SaveStep::LogAutostart(true),
            SaveStep::WriteFile,
            SaveStep::StoreInMemory,
            SaveStep::LogLanguageChanged,
            SaveStep::LogSaved,
            SaveStep::RestartWebServer,
            SaveStep::NotifyWindow,
        ]
    );
    let u = plan_settings_update(&old, Settings::default()).ok().unwrap();
    assert_eq!(
        save_steps(&u),
        vec![SaveStep::WriteFile, SaveStep::StoreInMemory, SaveStep::LogSaved, SaveStep::NotifyWindow]
    );
}
