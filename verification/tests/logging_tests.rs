use tmonitor::logging::{
    chrono_now, civil_date, enabled, format_record, format_timestamp, has_write_error,
    is_leap_year, level_filter, parse_level, LogHealth, LogLevel, LoggingError,
};

fn level_of(level: log::Level) -> LogLevel {
    match level {
        log::Level::Error => LogLevel::Error,
        log::Level::Warn => LogLevel::Warn,
        log::Level::Info => LogLevel::Info,
        log::Level::Debug => LogLevel::Debug,
        log::Level::Trace => LogLevel::Trace,
    }
}

#[test]
fn test_chrono_now_format() {
    let ts = chrono_now();
    assert_eq!(ts.len(), 20, "expected ISO 8601 format length");
    assert!(ts.ends_with('Z'), "expected UTC timezone");
    assert_eq!(&ts[4..5], "-", "expected ISO 8601 format YYYY-MM-DD");
    assert_eq!(&ts[7..8], "-", "expected ISO 8601 format YYYY-MM-DD");
    assert_eq!(&ts[10..11], "T", "expected ISO 8601 format T separator");
    assert_eq!(&ts[13..14], ":", "expected ISO 8601 time separator");
    assert_eq!(&ts[16..17], ":", "expected ISO 8601 time separator");
}

#[test]
fn test_is_leap_year() {
    assert!(is_leap_year(2000));
    assert!(!is_leap_year(1900));
    assert!(is_leap_year(2024));
    assert!(!is_leap_year(2023));
}

#[test]
fn test_file_logger_enabled() {
    let filter = LogLevel::Warn;
    let meta = |level: log::Level| log::Metadata::builder().level(level).build();
    assert!(enabled(level_of(meta(log::Level::Error).level()), filter));
    assert!(enabled(level_of(meta(log::Level::Warn).level()), filter));
    assert!(!enabled(level_of(meta(log::Level::Info).level()), filter));
    assert!(!enabled(level_of(meta(log::Level::Debug).level()), filter));
}

#[test]
fn levels_are_ordered_as_those_of_the_log_crate() {
    let levels = [
        (log::Level::Error, log::LevelFilter::Error),
        (log::Level::Warn, log::LevelFilter::Warn),
        (log::Level::Info, log::LevelFilter::Info),
        (log::Level::Debug, log::LevelFilter::Debug),
        (log::Level::Trace, log::LevelFilter::Trace),
    ];
    for (level, _) in levels {
        assert_eq!(level_of(level).name(), level.to_string());
        for (same, filter) in levels {
            assert_eq!(enabled(level_of(level), level_of(same)), level <= filter);
        }
    }
}

#[test]
fn test_file_logger_writes_output() {
    let line = format_record(LogLevel::Info, "2026-07-22T10:30:00Z", LogLevel::Info, "test message")
        .unwrap();
    assert!(line.contains("[INFO]"), "expected INFO level in log output");
    assert!(line.contains("test message"), "expected message in log output");
    assert_eq!(line, "[2026-07-22T10:30:00Z] [INFO] test message");
}

#[test]
fn test_file_logger_level_filter_excludes_lower() {
    let written = format_record(LogLevel::Warn, "t", LogLevel::Warn, "should appear");
    assert_eq!(written, Some("[t] [WARN] should appear".to_string()));
    let filtered = format_record(LogLevel::Warn, "t", LogLevel::Debug, "should not appear");
    assert!(filtered.is_none(), "debug should have been filtered");
}

#[test]
fn words_name_levels() {
    assert_eq!(parse_level("error"), Some(LogLevel::Error));
    assert_eq!(parse_level("warn"), Some(LogLevel::Warn));
    assert_eq!(parse_level("info"), Some(LogLevel::Info));
    assert_eq!(parse_level("debug"), Some(LogLevel::Debug));
    assert_eq!(parse_level("trace"), None);
    assert_eq!(parse_level("DEBUG"), None);
    assert_eq!(level_filter("debug"), LogLevel::Debug);
    assert_eq!(level_filter("anything"), LogLevel::Info);
}

#[test]
fn timestamps_of_known_seconds() {
    assert_eq!(format_timestamp(0), "1970-01-01T00:00:00Z");
    assert_eq!(format_timestamp(951_782_399), "2000-02-28T23:59:59Z");
    assert_eq!(format_timestamp(951_782_400), "2000-02-29T00:00:00Z");
    assert_eq!(format_timestamp(951_868_800), "2000-03-01T00:00:00Z");
    assert_eq!(format_timestamp(1_784_716_200), "2026-07-22T10:30:00Z");
    assert_eq!(format_timestamp(1_735_689_599), "2024-12-31T23:59:59Z");
    assert_eq!(format_timestamp(253_402_300_799), "9999-12-31T23:59:59Z");
    assert_eq!(format_timestamp(253_402_300_800), "10000-01-01T00:00:00Z");
}

#[test]
fn dates_follow_each_other() {
    let mut last = civil_date(0);
    assert_eq!(last, (1970, 1, 1));
    for days in 1..60_000u64 {
        let date = civil_date(days);
        assert!(date > last);
        last = date;
    }
    assert_eq!(civil_date(59), (1970, 3, 1));
    assert_eq!(civil_date(364), (1970, 12, 31));
    assert_eq!(civil_date(365), (1971, 1, 1));
}

#[test]
fn failure_to_write_is_remembered() {
    let mut health = LogHealth::new();
    assert!(!has_write_error(&health));
    health.record(true);
    assert!(!has_write_error(&health));
    health.record(false);
    health.record(true);
    assert!(has_write_error(&health));
}

#[test]
fn message_of_a_log_that_cannot_be_opened() {
    let error = tmonitor::check::IoError {
        kind: tmonitor::check::IoErrorKind::Other,
        message: "denied".to_string(),
    };
    assert_eq!(LoggingError::Io(error).message(), "failed to open log file: denied");
}
