use paperlog::level::LogLevel;
use paperlog::log_data::LogData;
use paperlog::sinks::{LogSink, RecordingSink, SinkRegistry};

fn record(message: &str) -> LogData {
    LogData {
        level: LogLevel::Info,
        tag: None,
        message: String::from(message),
        timestamp: 0,
        file: String::from("test.rs"),
        line: 1,
        column: 1,
        function_name: None,
    }
}

#[test]
fn test_two_sinks_receive_once_in_order() {
    // two registered sinks each receive an enqueued record exactly once,
    // in registration order
    let mut registry: SinkRegistry<RecordingSink> = SinkRegistry::new();
    registry.add_sink(RecordingSink::new());
    registry.add_sink(RecordingSink::new());
    assert_eq!(registry.sink_count(), 2);

    let all_ok = registry.dispatch_record(&record("hello"));
    assert!(all_ok);

    // sink A (registered first) and sink B each hold the record once
    assert_eq!(registry.sinks[0].records.len(), 1);
    assert_eq!(registry.sinks[1].records.len(), 1);
    assert_eq!(registry.sinks[0].records[0].message, "hello");
    assert_eq!(registry.sinks[1].records[0].message, "hello");
}

#[test]
fn test_sink_receives_batch_in_order() {
    let mut registry: SinkRegistry<RecordingSink> = SinkRegistry::new();
    registry.add_sink(RecordingSink::new());
    let batch = vec![record("one"), record("two"), record("three")];
    let all_ok = registry.dispatch_batch(&batch);
    assert!(all_ok);

    let seen: Vec<&str> = registry.sinks[0]
        .records
        .iter()
        .map(|r| r.message.as_str())
        .collect();
    assert_eq!(seen, vec!["one", "two", "three"]);
}

#[test]
fn test_recording_sink_history() {
    let mut sink = RecordingSink::new();
    assert!(sink.on_record(&record("a")));
    assert!(sink.on_record(&record("b")));
    assert_eq!(sink.records.len(), 2);
    assert_eq!(sink.records[0].message, "a");
    assert_eq!(sink.records[1].message, "b");
}
