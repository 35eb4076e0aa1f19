use netsentry::i18n::I18n;
use netsentry::logfile::{archive_file_name, log_file_name, needs_rotation, translate_log_lines, LOG_SIZE_LIMIT, MAX_LOG_LINES};
use netsentry::logline::{format_log_line, parse_log_line};

fn dict() -> I18n {
    I18n::load(r#"{"en": {"log_disconnected": "Network disconnected", "log_restored": "Network restored"}, "zh": {"log_restored": "网络已恢复"}}"#)
}

#[test]
fn format_without_detail() {
    assert_eq!(
        format_log_line("2026-09-11 13:04:05.123", "WARN", "log_disconnected", None),
        "[2026-09-11 13:04:05.123] [WARN] log_disconnected\n"
    );
}

#[test]
fn format_with_detail_and_empty_detail() {
    assert_eq!(
        format_log_line("t", "INFO", "log_restored", Some("12s")),
        "[t] [INFO] log_restored | 12s\n"
    );
    assert_eq!(format_log_line("t", "INFO", "log_restored", Some("")), "[t] [INFO] log_restored\n");
}

#[test]
fn parse_keeps_timestamp_with_space() {
    let d = dict();
    let e = parse_log_line("[2026-09-11 13:04:05.123] [WARN] log_disconnected", &d, "en").unwrap();
    assert_eq!(e.timestamp, "2026-09-11 13:04:05.123");
    assert_eq!(e.level, "WARN");
    assert_eq!(e.message, "log_disconnected");
    assert_eq!(e.translated, "Network disconnected");
}

#[test]
fn parse_translates_with_detail() {
    let d = dict();
    let e = parse_log_line("[t] [INFO] log_restored | 12s", &d, "zh").unwrap();
    assert_eq!(e.message, "log_restored");
    assert_eq!(e.translated, "网络已恢复 12s");
    let e = parse_log_line("[t] [INFO] unknown_key | a | b", &d, "zh").unwrap();
    assert_eq!(e.message, "unknown_key");
    assert_eq!(e.translated, "unknown_key a | b");
}

#[test]
fn parse_rejects_lines_without_two_fields() {
    let d = dict();
    assert!(parse_log_line("", &d, "en").is_none());
    assert!(parse_log_line("plain text", &d, "en").is_none());
    assert!(parse_log_line("[t] only one field", &d, "en").is_none());
    assert!(parse_log_line("[t] [INFO]", &d, "en").is_none());
}

#[test]
fn parse_of_empty_message() {
    let d = dict();
    let e = parse_log_line("[t] [INFO] ", &d, "en").unwrap();
    assert_eq!(e.message, "");
    assert_eq!(e.translated, "");
}

#[test]
fn parse_strips_all_leading_brackets() {
    let d = dict();
    let e = parse_log_line("[[x] [[[y] z] w", &d, "en").unwrap();
    assert_eq!(e.timestamp, "x");
    assert_eq!(e.level, "y");
    assert_eq!(e.message, "z] w");
}

#[test]
fn written_line_reads_back() {
    let d = dict();
    let line = format_log_line("2026-01-02 03:04:05.678", "INFO", "log_restored", Some("7s"));
    let e = parse_log_line(line.trim_end_matches('\n'), &d, "en").unwrap();
    assert_eq!(e.timestamp, "2026-01-02 03:04:05.678");
    assert_eq!(e.level, "INFO");
    assert_eq!(e.message, "log_restored");
    assert_eq!(e.translated, "Network restored 7s");
}

#[test]
fn rotation_threshold() {
    assert_eq!(LOG_SIZE_LIMIT, 131072);
    assert!(!needs_rotation(false, 1_000_000));
    assert!(!needs_rotation(true, LOG_SIZE_LIMIT - 1));
    assert!(!needs_rotation(true, LOG_SIZE_LIMIT));
    assert!(needs_rotation(true, LOG_SIZE_LIMIT + 1));
}

#[test]
fn log_file_names() {
    assert_eq!(log_file_name(), "netsentry.log");
    assert_eq!(archive_file_name("20260911_130405"), "netsentry_20260911_130405.log");
}

#[test]
fn log_view_shows_newest_first_and_skips_garbage() {
    let d = dict();
    let lines = vec![
        "[a] [INFO] first".to_string(),
        "garbage".to_string(),
        "[b] [WARN] log_disconnected".to_string(),
    ];
    let es = translate_log_lines(&lines, &d, "en");
    assert_eq!(es.len(), 2);
    assert_eq!(es[0].timestamp, "b");
    assert_eq!(es[0].translated, "Network disconnected");
    assert_eq!(es[1].timestamp, "a");
}

#[test]
fn log_view_keeps_only_newest_lines() {
    let d = dict();
    let lines: Vec<String> = (0..MAX_LOG_LINES + 20).map(|i| format!("[{}] [INFO] k", i)).collect();
    let es = translate_log_lines(&lines, &d, "en");
    assert_eq!(es.len(), MAX_LOG_LINES);
    assert_eq!(es[0].timestamp, format!("{}", MAX_LOG_LINES + 19));
    assert_eq!(es[MAX_LOG_LINES - 1].timestamp, "20");
    assert!(translate_log_lines(&Vec::new(), &d, "en").is_empty());
}
