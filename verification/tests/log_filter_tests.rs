use orkesy::log_filter::{detect_level, GrepFilter, LogFilterMode, LogLevel};

#[test]
fn test_detect_level() {
    assert_eq!(detect_level("ERROR: something failed"), LogLevel::Error);
    assert_eq!(detect_level("[error] connection failed"), LogLevel::Error);
    assert_eq!(detect_level("WARN: deprecated API"), LogLevel::Warn);
    assert_eq!(detect_level("[warning] slow query"), LogLevel::Warn);
    assert_eq!(detect_level("DEBUG: variable x = 5"), LogLevel::Debug);
    assert_eq!(detect_level("GET /health 200"), LogLevel::Info);
}

#[test]
fn test_filter_mode_cycle() {
    let mode = LogFilterMode::All;
    assert_eq!(mode.cycle(), LogFilterMode::WarnAndAbove);
    assert_eq!(mode.cycle().cycle(), LogFilterMode::ErrorOnly);
    assert_eq!(mode.cycle().cycle().cycle(), LogFilterMode::All);
}

#[test]
fn test_grep_filter() {
    let filter = GrepFilter::with_pattern("error".into());
    assert!(filter.matches("Error occurred"));
    assert!(filter.matches("An ERROR happened"));
    assert!(!filter.matches("All good"));

    let case_filter = GrepFilter::with_pattern("Error".into()).with_case_sensitive(true);
    assert!(case_filter.matches("Error occurred"));
    assert!(!case_filter.matches("error occurred"));
}

#[test]
fn filter_modes_admit_levels_in_order() {
    assert!(LogFilterMode::All.matches(LogLevel::Debug));
    assert!(LogFilterMode::WarnAndAbove.matches(LogLevel::Error));
    assert!(!LogFilterMode::WarnAndAbove.matches(LogLevel::Info));
    assert!(!LogFilterMode::ErrorOnly.matches(LogLevel::Warn));
}
