use paperlog::facade::{
    do_log, facade_enabled, format_panic_message, map_level, push_field, FacadeFilter,
    FacadeLevel, PaperLayer,
};
use paperlog::level::LogLevel;
use paperlog::log_data::LogData;

fn record(level: LogLevel) -> LogData {
    LogData {
        level,
        tag: None,
        message: String::from("msg"),
        timestamp: 1,
        file: String::from("f.rs"),
        line: 2,
        column: 3,
        function_name: None,
    }
}

#[test]
fn test_map_level() {
    assert!(matches!(map_level(FacadeLevel::Error), LogLevel::Error));
    assert!(matches!(map_level(FacadeLevel::Warn), LogLevel::Warn));
    assert!(matches!(map_level(FacadeLevel::Info), LogLevel::Info));
    assert!(matches!(map_level(FacadeLevel::Debug), LogLevel::Debug));
    // trace records are logged as debug
    assert!(matches!(map_level(FacadeLevel::Trace), LogLevel::Debug));
}

#[test]
fn test_facade_enabled() {
    assert!(facade_enabled(FacadeLevel::Error, FacadeFilter::Info));
    assert!(facade_enabled(FacadeLevel::Info, FacadeFilter::Info));
    assert!(!facade_enabled(FacadeLevel::Debug, FacadeFilter::Info));
    assert!(!facade_enabled(FacadeLevel::Error, FacadeFilter::Off));
    assert!(facade_enabled(FacadeLevel::Trace, FacadeFilter::Trace));
}

#[test]
fn test_tracing_dispatch() {
    // Off records are discarded at the sink layer
    assert!(do_log(&record(LogLevel::Off)).is_none());

    let (level, message) = do_log(&record(LogLevel::Info)).unwrap();
    assert!(matches!(level, FacadeLevel::Info));
    assert_eq!(message, "INFO [1] [GLOBAL] f.rs:2:3@default msg\n");

    // critical records are re-emitted as errors
    let (level, _) = do_log(&record(LogLevel::Crit)).unwrap();
    assert!(matches!(level, FacadeLevel::Error));
}

#[test]
fn test_paper_layer_tag() {
    let layer = PaperLayer::new();
    assert!(layer.tag.is_none());
    let layer = layer.with_tag("Mod");
    assert_eq!(layer.tag.as_deref(), Some("Mod"));
}

#[test]
fn test_push_field_assembly() {
    let mut parts = String::new();
    push_field(&mut parts, "message", "hello");
    assert_eq!(parts, "message=hello");
    push_field(&mut parts, "count", "3");
    assert_eq!(parts, "message=hello count=3");
}

#[test]
fn test_panic_message() {
    assert_eq!(
        format_panic_message("boom", "src/app.rs", 10, 5),
        "panicked at 'boom', src/app.rs:10:5"
    );
}
