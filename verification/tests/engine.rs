use paperlog::config::LoggerConfig;
use paperlog::engine::{context_file_path, enqueue_record, take_batch, LoggerCore};
use paperlog::level::LogLevel;
use paperlog::log_data::LogData;

fn config() -> LoggerConfig {
    LoggerConfig {
        max_string_len: 100,
        log_max_buffer_count: 50,
        line_end: '\n',
        context_log_path: String::from("./logs"),
    }
}

fn record(tag: Option<&str>, message: &str) -> LogData {
    LogData {
        level: LogLevel::Info,
        tag: tag.map(String::from),
        message: String::from(message),
        timestamp: 42,
        file: String::from("main.rs"),
        line: 7,
        column: 3,
        function_name: None,
    }
}

#[test]
fn test_context_routing_registered_and_not() {
    let mut core = LoggerCore::new(config());

    // unregistered tag: only the global file receives the record
    let plan = core.plan_record(&record(Some("Context"), "context hi! 6"));
    assert_eq!(
        plan.global_line,
        "INFO [42] [Context] main.rs:7:3@default context hi! 6\n"
    );
    assert!(plan.context.is_none());

    // after registration the context file receives the compact line too
    assert!(core.register_context("Context"));
    let plan = core.plan_record(&record(Some("Context"), "context hi! 6"));
    let (tag, line) = plan.context.expect("registered context must be routed");
    assert_eq!(tag, "Context");
    assert_eq!(line, "INFO [42] main.rs:7:3@default context hi! 6\n");
}

#[test]
fn test_untagged_record_goes_only_to_global() {
    let mut core = LoggerCore::new(config());
    core.register_context("Context");
    let plan = core.plan_record(&record(None, "hi! 5"));
    assert!(plan.global_line.ends_with("hi! 5\n"));
    assert!(plan.global_line.starts_with("INFO ["));
    assert!(plan.context.is_none());
}

#[test]
fn test_register_twice_keeps_one_entry() {
    let mut core = LoggerCore::new(config());
    assert!(core.register_context("Context"));
    assert!(!core.register_context("Context"));
    assert!(core.is_registered("Context"));
}

#[test]
fn test_unregister_stops_routing() {
    let mut core = LoggerCore::new(config());
    core.register_context("Context");
    core.unregister_context("Context");
    assert!(!core.is_registered("Context"));
    let plan = core.plan_record(&record(Some("Context"), "x"));
    assert!(plan.context.is_none());
}

#[test]
fn test_unregister_keeps_other_contexts() {
    let mut core = LoggerCore::new(config());
    core.register_context("A");
    core.register_context("B");
    core.register_context("C");
    core.unregister_context("B");
    assert!(core.is_registered("A"));
    assert!(!core.is_registered("B"));
    assert!(core.is_registered("C"));
}

#[test]
fn test_context_file_path_shape() {
    assert_eq!(context_file_path("./logs", "Context"), "./logs/Context.log");
}

#[test]
fn test_flush_on_queue_empty() {
    let mut core = LoggerCore::new(config());
    let (actions, flush) = core.process_batch(vec![record(None, "hi! 5")], true);
    assert_eq!(actions.len(), 1);
    assert!(flush, "a drain that empties the queue must flush");
    assert_eq!(core.logged_count(), 0);
}

#[test]
fn test_flush_on_counter_threshold() {
    let mut core = LoggerCore::new(config());

    // 60 records, queue not yet empty: below the threshold, no flush
    let batch: Vec<LogData> = (0..60).map(|i| record(None, &format!("log i {i}"))).collect();
    let (actions, flush) = core.process_batch(batch, false);
    assert_eq!(actions.len(), 60);
    assert!(!flush);
    assert_eq!(core.logged_count(), 60);

    // 60 more: the counter passes 100, so this drain flushes and resets
    let batch: Vec<LogData> = (0..60).map(|i| record(None, &format!("log i {i}"))).collect();
    let (_, flush) = core.process_batch(batch, false);
    assert!(flush, "the counter trigger must flush even while producers keep the queue full");
    assert_eq!(core.logged_count(), 0);
}

#[test]
fn test_process_batch_chunks_and_plans_in_order() {
    let mut core = LoggerCore::new(config());
    core.register_context("Ctx");
    let batch = vec![
        record(Some("Ctx"), "a\nb"),
        record(None, "c"),
    ];
    let (actions, _) = core.process_batch(batch, true);
    assert_eq!(actions.len(), 3);
    assert!(actions[0].global_line.ends_with(" a\n"));
    assert!(actions[1].global_line.ends_with(" b\n"));
    assert!(actions[2].global_line.ends_with(" c\n"));
    assert!(actions[0].context.is_some());
    assert!(actions[1].context.is_some());
    assert!(actions[2].context.is_none());
}

#[test]
fn test_queue_buffer_order_and_drain() {
    // per-producer order: the queue buffer keeps enqueue order, and a
    // drain hands the batch over and leaves the queue empty
    let mut buffer: Vec<LogData> = Vec::new();
    for i in 0..1000 {
        enqueue_record(&mut buffer, record(None, &format!("log i {i}")));
    }
    assert_eq!(buffer.len(), 1000);
    let batch = take_batch(&mut buffer, Vec::new());
    assert!(buffer.is_empty());
    assert_eq!(batch.len(), 1000);
    for (i, rec) in batch.iter().enumerate() {
        assert_eq!(rec.message, format!("log i {i}"));
    }
}

#[test]
fn test_drain_process_no_loss() {
    // N records enqueued, drained and processed yield exactly N planned
    // writes when no message needs chunking, in enqueue order
    let mut core = LoggerCore::new(config());
    let mut buffer: Vec<LogData> = Vec::new();
    for i in 0..500 {
        enqueue_record(&mut buffer, record(None, &format!("seq {i}")));
    }
    let batch = take_batch(&mut buffer, Vec::new());
    let (actions, flush) = core.process_batch(batch, true);
    assert_eq!(actions.len(), 500);
    assert!(flush);
    for (i, a) in actions.iter().enumerate() {
        assert!(a.global_line.ends_with(&format!(" seq {i}\n")));
    }
}
