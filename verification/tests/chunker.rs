use paperlog::chunker::{split_message_into_chunks, split_str_into_chunks};
use paperlog::level::LogLevel;
use paperlog::log_data::LogData;

fn record(message: &str) -> LogData {
    LogData {
        level: LogLevel::Info,
        tag: None,
        message: String::from(message),
        timestamp: 0,
        file: String::from("test.rs"),
        line: 1,
        column: 1,
        function_name: None,
    }
}

#[test]
fn test_newline_split() {
    // "a\nb\nc" yields three records with messages "a", "b", "c" in order
    let chunks = split_message_into_chunks("a\nb\nc", 100);
    assert_eq!(chunks, vec!["a", "b", "c"]);

    let records = split_str_into_chunks(vec![record("a\nb\nc")], 100);
    let messages: Vec<&str> = records.iter().map(|r| r.message.as_str()).collect();
    assert_eq!(messages, vec!["a", "b", "c"]);
}

#[test]
fn test_empty_message_yields_one_empty_record() {
    let records = split_str_into_chunks(vec![record("")], 100);
    assert_eq!(records.len(), 1);
    assert_eq!(records[0].message, "");
}

#[test]
fn test_trailing_newline_yields_trailing_empty_chunk() {
    let chunks = split_message_into_chunks("abc\n", 100);
    assert_eq!(chunks, vec!["abc", ""]);
}

#[test]
fn test_length_chunking() {
    let chunks = split_message_into_chunks("abcdefgh", 3);
    assert_eq!(chunks, vec!["abc", "def", "gh"]);
}

#[test]
fn test_chunking_is_character_aware() {
    // multibyte characters count as one character each, never split mid-codepoint
    let chunks = split_message_into_chunks("\u{a3} \u{939} \u{20ac} \u{d55c}", 3);
    assert_eq!(chunks, vec!["\u{a3} \u{939}", " \u{20ac} ", "\u{d55c}"]);
}

#[test]
fn test_chunking_idempotent_when_fits() {
    // a record whose message fits the cap passes through unchanged
    let single = record("short enough");
    let records = split_str_into_chunks(vec![single], 100);
    assert_eq!(records.len(), 1);
    assert_eq!(records[0].message, "short enough");
    assert_eq!(records[0].file, "test.rs");
    assert_eq!(records[0].line, 1);
}

#[test]
fn test_zero_cap_saturates_to_one() {
    let chunks = split_message_into_chunks("abc", 0);
    assert_eq!(chunks, vec!["a", "b", "c"]);
}

#[test]
fn test_other_fields_preserved_over_chunks() {
    let mut r = record("one\ntwo");
    r.tag = Some(String::from("Ctx"));
    r.line = 42;
    let records = split_str_into_chunks(vec![r], 100);
    assert_eq!(records.len(), 2);
    for rec in &records {
        assert_eq!(rec.tag.as_deref(), Some("Ctx"));
        assert_eq!(rec.line, 42);
        assert_eq!(rec.file, "test.rs");
    }
}

#[test]
fn test_batch_order_and_no_loss() {
    // chunking a batch keeps batch order and loses no record
    let batch: Vec<LogData> = (0..1000).map(|i| record(&format!("log i {i}"))).collect();
    let out = split_str_into_chunks(batch, 100);
    assert_eq!(out.len(), 1000);
    for (i, rec) in out.iter().enumerate() {
        assert_eq!(rec.message, format!("log i {i}"));
    }
}
