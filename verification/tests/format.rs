use paperlog::level::LogLevel;
use paperlog::log_data::LogData;
use paperlog::numfmt::{i64_to_string, u32_to_string, u64_to_string};

fn record() -> LogData {
    LogData {
        level: LogLevel::Info,
        tag: None,
        message: String::from("hi! 5"),
        timestamp: 42,
        file: String::from("main.rs"),
        line: 7,
        column: 3,
        function_name: None,
    }
}

#[test]
fn test_decimal_rendering() {
    assert_eq!(u64_to_string(0), "0");
    assert_eq!(u64_to_string(9), "9");
    assert_eq!(u64_to_string(10), "10");
    assert_eq!(u64_to_string(1024), "1024");
    assert_eq!(u64_to_string(u64::MAX), "18446744073709551615");
    assert_eq!(i64_to_string(0), "0");
    assert_eq!(i64_to_string(-1), "-1");
    assert_eq!(i64_to_string(-123), "-123");
    assert_eq!(i64_to_string(i64::MIN), "-9223372036854775808");
    assert_eq!(u32_to_string(400000), "400000");
}

#[test]
fn test_level_short_codes() {
    assert_eq!(LogLevel::Info.short(), 'I');
    assert_eq!(LogLevel::Warn.short(), 'W');
    assert_eq!(LogLevel::Error.short(), 'E');
    assert_eq!(LogLevel::Debug.short(), 'D');
    assert_eq!(LogLevel::Crit.short(), 'C');
    assert_eq!(LogLevel::Off.short(), 'O');
}

#[test]
fn test_level_names() {
    assert_eq!(LogLevel::Info.as_str(), "INFO");
    assert_eq!(LogLevel::Warn.as_str(), "WARN");
    assert_eq!(LogLevel::Error.as_str(), "ERROR");
    assert_eq!(LogLevel::Debug.as_str(), "DEBUG");
    assert_eq!(LogLevel::Crit.as_str(), "CRIT");
    assert_eq!(LogLevel::Off.as_str(), "OFF");
}

#[test]
fn test_full_format_line() {
    let r = record();
    assert_eq!(r.format(), "INFO [42] [GLOBAL] main.rs:7:3@default hi! 5\n");
}

#[test]
fn test_format_with_tag_and_function() {
    let mut r = record();
    r.level = LogLevel::Error;
    r.tag = Some(String::from("Context"));
    r.function_name = Some(String::from("run"));
    assert_eq!(r.format(), "ERROR [42] [Context] main.rs:7:3@run hi! 5\n");
}

#[test]
fn test_compact_format_omits_tag() {
    let mut r = record();
    r.tag = Some(String::from("Context"));
    assert_eq!(r.format_compact(), "INFO [42] main.rs:7:3@default hi! 5\n");
}

#[test]
fn test_format_negative_timestamp() {
    let mut r = record();
    r.timestamp = -5;
    assert_eq!(r.format(), "INFO [-5] [GLOBAL] main.rs:7:3@default hi! 5\n");
}

#[test]
fn test_new_fills_fields_and_timestamp() {
    let before = std::time::SystemTime::now()
        .duration_since(std::time::UNIX_EPOCH)
        .unwrap()
        .as_secs() as i64;
    let r = LogData::new(
        LogLevel::Debug,
        Some(String::from("t")),
        String::from("m"),
        String::from("f.rs"),
        1,
        2,
        None,
    );
    let after = std::time::SystemTime::now()
        .duration_since(std::time::UNIX_EPOCH)
        .unwrap()
        .as_secs() as i64;
    assert!(matches!(r.level, LogLevel::Debug));
    assert_eq!(r.tag.as_deref(), Some("t"));
    assert_eq!(r.message, "m");
    assert_eq!(r.file, "f.rs");
    assert_eq!(r.line, 1);
    assert_eq!(r.column, 2);
    assert!(r.function_name.is_none());
    // the captured wall-clock time is between the two probes (with slack
    // for clock adjustments between the calls)
    assert!(r.timestamp >= before - 2 && r.timestamp <= after + 2);
}

#[test]
fn test_clone_record_keeps_fields() {
    let mut r = record();
    r.tag = Some(String::from("t"));
    let c = r.clone_record();
    assert_eq!(c.message, r.message);
    assert_eq!(c.tag, r.tag);
    assert_eq!(c.timestamp, r.timestamp);
    assert_eq!(c.file, r.file);
}
