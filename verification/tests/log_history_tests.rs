use orkesy::log_history::{format_record, hour_filename, parse_duration, project_hash, LevelFilter};
use orkesy::log_history::history_entry;
use orkesy::reducer::{EventEnvelope, RuntimeEvent};
use orkesy::state::LogStream;
use std::time::{Duration, UNIX_EPOCH};
use orkesy::log_history::{needs_new_file, should_flush};

#[test]
fn project_hash_is_stable() {
    let a = project_hash("/tmp/foo");
    let b = project_hash("/tmp/foo");
    let c = project_hash("/tmp/bar");
    assert_eq!(a, b);
    assert_ne!(a, c);
    assert_eq!(a.len(), 12);
}

#[test]
fn hour_filename_is_utc_iso_like() {
    // 2024-01-01T00:00:00 UTC = 1_704_067_200 seconds since epoch.
    assert_eq!(hour_filename(1_704_067_200), "2024-01-01T00.jsonl");
    assert_eq!(hour_filename(1_704_067_200 + 3_600), "2024-01-01T01.jsonl");
    assert!(hour_filename(1_704_067_200 + 3_600).is_ascii());
}

#[test]
fn hour_filename_handles_leap_day_and_epoch() {
    assert_eq!(hour_filename(0), "1970-01-01T00.jsonl");
    // 2024-02-29T13:00:00 UTC.
    assert_eq!(hour_filename(1_709_211_600), "2024-02-29T13.jsonl");
}

#[test]
fn parse_duration_handles_common_suffixes() {
    assert_eq!(parse_duration("30s").unwrap(), 30);
    assert_eq!(parse_duration("15m").unwrap(), 15 * 60);
    assert_eq!(parse_duration("1h").unwrap(), 3600);
    assert_eq!(parse_duration("7d").unwrap(), 7 * 86_400);
    assert!(parse_duration("").is_err());
    assert!(parse_duration("1y").is_err());
    assert!(parse_duration("xh").is_err());
}

#[test]
fn level_filter_parses_synonyms() {
    assert_eq!(LevelFilter::parse("error").unwrap(), LevelFilter::ErrorOnly);
    assert_eq!(LevelFilter::parse("err").unwrap(), LevelFilter::ErrorOnly);
    assert_eq!(LevelFilter::parse("warn").unwrap(), LevelFilter::WarnAndAbove);
    assert_eq!(LevelFilter::parse("all").unwrap(), LevelFilter::All);
    assert!(LevelFilter::parse("xyz").is_err());
}

#[test]
fn level_filter_matches_levels() {
    assert!(LevelFilter::ErrorOnly.matches("error"));
    assert!(!LevelFilter::ErrorOnly.matches("warn"));
    assert!(LevelFilter::WarnAndAbove.matches("warn"));
    assert!(!LevelFilter::WarnAndAbove.matches("info"));
    assert!(LevelFilter::All.matches("debug"));
}

#[test]
fn format_record_renders_time_level_unit_and_message() {
    let line = format_record(1_700_000_000, "api", "error", "ERROR: connect refused");
    assert_eq!(line, "2023-11-14T22:13:20 [ERR ] api | ERROR: connect refused");
    let line = format_record(1_704_067_200 + 61, "db", "verbose", "x");
    assert_eq!(line, "2024-01-01T00:01:01 [----] db | x");
}

#[test]
fn history_entries_come_from_log_lines() {
    let env = EventEnvelope {
        id: 1,
        at: UNIX_EPOCH + Duration::from_secs(1_700_000_000),
        event: RuntimeEvent::LogLine {
            id: "api".into(),
            stream: LogStream::Stderr,
            text: "ERROR: connect refused".into(),
        },
    };
    let e = history_entry(&env).unwrap();
    assert_eq!(e.unit, "api");
    assert_eq!(e.stream, "stderr");
    assert_eq!(e.level, "error");
    assert_eq!(e.message, "ERROR: connect refused");
    let env = EventEnvelope { id: 1, at: UNIX_EPOCH, event: RuntimeEvent::ClearLogs { id: "api".into() } };
    assert!(history_entry(&env).is_none());
}

#[test]
fn history_files_switch_and_flush() {
    assert!(needs_new_file(&None, "2024-01-01-10.jsonl"));
    assert!(!needs_new_file(&Some("2024-01-01-10.jsonl".into()), "2024-01-01-10.jsonl"));
    assert!(needs_new_file(&Some("2024-01-01-10.jsonl".into()), "2024-01-01-11.jsonl"));
    assert!(should_flush(1000, 0));
    assert!(should_flush(3, 5));
    assert!(!should_flush(999, 4));
}
