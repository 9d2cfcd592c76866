use xerv_core::logging::collector::{EventBuffer, LogCollector, NullCollector};
use xerv_core::logging::event::{LogCategory, LogEvent, LogEventBuilder, LogLevel};
use xerv_core::logging::filter::{LogFilter, LogFilterBuilder};
use xerv_core::types::{NodeId, TraceId};

fn test_event() -> LogEvent {
    LogEvent::info(LogCategory::Node, "Test message")
        .with_trace_id(TraceId::new())
        .with_node_id(NodeId::new(42))
        .with_pipeline_id("test_pipeline")
}

#[test]
fn log_level_parsing() {
    assert_eq!(LogLevel::parse("trace"), Some(LogLevel::Trace));
    assert_eq!(LogLevel::parse("DEBUG"), Some(LogLevel::Debug));
    assert_eq!(LogLevel::parse("Info"), Some(LogLevel::Info));
    assert_eq!(LogLevel::parse("WARN"), Some(LogLevel::Warn));
    assert_eq!(LogLevel::parse("warning"), Some(LogLevel::Warn));
    assert_eq!(LogLevel::parse("error"), Some(LogLevel::Error));
    assert_eq!(LogLevel::parse("invalid"), None);
}

#[test]
fn log_level_ordering() {
    assert!(LogLevel::Trace < LogLevel::Debug);
    assert!(LogLevel::Debug < LogLevel::Info);
    assert!(LogLevel::Info < LogLevel::Warn);
    assert!(LogLevel::Warn < LogLevel::Error);
    assert!(LogLevel::Trace.rank() < LogLevel::Error.rank());
}

#[test]
fn log_event_creation() {
    let event = LogEvent::info(LogCategory::Node, "Node started")
        .with_trace_id(TraceId::new())
        .with_node_id(NodeId::new(42))
        .with_field("duration_ms", "123");

    assert_eq!(event.level, LogLevel::Info);
    assert_eq!(event.category, LogCategory::Node);
    assert_eq!(event.message, "Node started");
    assert!(event.trace_id.is_some());
    assert_eq!(event.node_id, Some(NodeId::new(42)));
    assert!(event.fields.get("duration_ms").is_some());
}

#[test]
fn log_event_builder() {
    let trace_id = TraceId::new();
    let builder = LogEventBuilder::new().with_trace_id(trace_id).with_pipeline_id("test_pipeline");

    let event = builder.info(LogCategory::Trace, "Trace started");

    assert_eq!(event.trace_id, Some(trace_id));
    assert_eq!(event.pipeline_id, Some("test_pipeline".to_string()));
    assert_eq!(event.level, LogLevel::Info);
}

#[test]
fn log_event_format_line() {
    let event = LogEvent::info(LogCategory::Node, "Processing order")
        .with_pipeline_id("order_pipeline")
        .with_field("order_id", "ORD-123");

    let line = event.format_line();
    assert!(line.contains("[INFO]"));
    assert!(line.contains("[node]"));
    assert!(line.contains("pipeline=order_pipeline"));
    assert!(line.contains("Processing order"));
    assert!(line.contains("order_id"));
}

#[test]
fn log_event_fields_hold_json_text() {
    let event = LogEvent::error(LogCategory::System, "Connection failed")
        .with_field("host", "localhost")
        .with_field_i64("port", 8080)
        .with_field_bool("tls", false)
        .with_field_json("tags", "[\"a\"]");
    assert_eq!(event.fields.get("host"), Some("\"localhost\""));
    assert_eq!(event.fields.get("port"), Some("8080"));
    assert_eq!(event.fields.get("tls"), Some("false"));
    assert_eq!(event.fields.get("tags"), Some("[\"a\"]"));
    assert_eq!(event.fields.len(), 4);
}

#[test]
fn string_fields_are_json_escaped() {
    let event = LogEvent::info(LogCategory::System, "x")
        .with_field("quote", "say \"hi\"\\")
        .with_field("ctl", "a\nb\tc\u{1}\u{8}\u{c}\r")
        .with_field("plain", "caf\u{e9} \u{7f}/");
    assert_eq!(event.fields.get("quote"), Some("\"say \\\"hi\\\"\\\\\""));
    assert_eq!(event.fields.get("ctl"), Some("\"a\\nb\\tc\\u0001\\b\\f\\r\""));
    assert_eq!(event.fields.get("plain"), Some("\"caf\u{e9} \u{7f}/\""));
}

#[test]
fn log_event_timestamp_iso() {
    let mut event = LogEvent::info(LogCategory::System, "x");
    event.timestamp_ns = 1_500_000_000;
    assert_eq!(event.timestamp_iso(), "1970-01-01T00:00:01.500Z");
    assert!(event.format_line().starts_with("1970-01-01T00:00:01.500Z [INFO] [system] x"));
}

#[test]
fn filter_empty_matches_all() {
    let filter = LogFilter::new();
    let event = test_event();

    assert!(filter.matches(&event));
    assert!(filter.is_empty());
}

#[test]
fn filter_by_level() {
    let event = LogEvent::warn(LogCategory::System, "Warning");

    assert!(LogFilter::new().min_level(LogLevel::Info).matches(&event));
    assert!(LogFilter::new().min_level(LogLevel::Warn).matches(&event));
    assert!(!LogFilter::new().min_level(LogLevel::Error).matches(&event));

    assert!(LogFilter::new().max_level(LogLevel::Warn).matches(&event));
    assert!(LogFilter::new().max_level(LogLevel::Error).matches(&event));
    assert!(!LogFilter::new().max_level(LogLevel::Info).matches(&event));

    assert!(LogFilter::new().level(LogLevel::Warn).matches(&event));
    assert!(!LogFilter::new().level(LogLevel::Info).matches(&event));
}

#[test]
fn filter_by_category() {
    let event = LogEvent::info(LogCategory::Node, "Node event");

    assert!(LogFilter::new().category(LogCategory::Node).matches(&event));
    assert!(!LogFilter::new().category(LogCategory::Trace).matches(&event));
    assert!(LogFilter::new().categories(vec![LogCategory::Node, LogCategory::Trace]).matches(&event));
}

#[test]
fn filter_by_trace_id() {
    let trace_id = TraceId::new();
    let event = LogEvent::info(LogCategory::Trace, "Event").with_trace_id(trace_id);

    assert!(LogFilter::new().trace_id(trace_id).matches(&event));
    assert!(!LogFilter::new().trace_id(TraceId::new()).matches(&event));
}

#[test]
fn filter_by_node_id() {
    let event = LogEvent::info(LogCategory::Node, "Event").with_node_id(NodeId::new(42));

    assert!(LogFilter::new().node_id(NodeId::new(42)).matches(&event));
    assert!(!LogFilter::new().node_id(NodeId::new(99)).matches(&event));
}

#[test]
fn filter_by_pipeline_id() {
    let event = LogEvent::info(LogCategory::Pipeline, "Event").with_pipeline_id("my_pipeline");

    assert!(LogFilter::new().pipeline_id("my_pipeline").matches(&event));
    assert!(!LogFilter::new().pipeline_id("other").matches(&event));
}

#[test]
fn filter_by_message() {
    let event = LogEvent::info(LogCategory::System, "Processing order ORD-123");

    assert!(LogFilter::new().message_contains("order").matches(&event));
    assert!(LogFilter::new().message_contains("ORDER").matches(&event));
    assert!(LogFilter::new().message_contains("ORD-123").matches(&event));
    assert!(!LogFilter::new().message_contains("user").matches(&event));
}

#[test]
fn filter_combined() {
    let trace_id = TraceId::new();
    let event = LogEvent::warn(LogCategory::Node, "Node timeout")
        .with_trace_id(trace_id)
        .with_node_id(NodeId::new(5))
        .with_pipeline_id("order_flow");

    let filter = LogFilter::new()
        .min_level(LogLevel::Warn)
        .trace_id(trace_id)
        .category(LogCategory::Node)
        .pipeline_id("order_flow");

    assert!(filter.matches(&event));

    let filter_wrong_pipeline = LogFilter::new()
        .min_level(LogLevel::Warn)
        .trace_id(trace_id)
        .category(LogCategory::Node)
        .pipeline_id("wrong_flow");

    assert!(!filter_wrong_pipeline.matches(&event));
}

#[test]
fn filter_by_time() {
    let mut event = LogEvent::info(LogCategory::System, "t");
    event.timestamp_ns = 100;
    assert!(LogFilter::new().time_range(100, 100).matches(&event));
    assert!(!LogFilter::new().start_time(101).matches(&event));
    assert!(!LogFilter::new().end_time(99).matches(&event));
}

#[test]
fn filter_pagination() {
    let events: Vec<LogEvent> = (0..10).map(|i| LogEvent::info(LogCategory::System, &format!("Event {}", i))).collect();

    let filter = LogFilter::new().offset(3).limit(4);
    let paginated: Vec<&LogEvent> = filter.paginate(&events);

    assert_eq!(paginated.len(), 4);
    assert_eq!(paginated[0].message, "Event 3");
    assert_eq!(paginated[3].message, "Event 6");
    assert_eq!(LogFilter::new().offset(20).paginate(&events).len(), 0);
}

#[test]
fn filter_describe() {
    let filter = LogFilter::new().min_level(LogLevel::Warn).category(LogCategory::Node).pipeline_id("test");

    let desc = filter.describe();
    assert!(desc.contains("level>=warn"));
    assert!(desc.contains("category=node"));
    assert!(desc.contains("pipeline=test"));
    assert_eq!(LogFilter::new().describe(), "all events");
}

#[test]
fn filter_builder() {
    let filter = LogFilterBuilder::new().parse_level("warn").pipeline_id("my_pipeline").limit(100).build();

    assert_eq!(filter.min_level, Some(LogLevel::Warn));
    assert_eq!(filter.pipeline_id, Some("my_pipeline".to_string()));
    assert_eq!(filter.limit, Some(100));
}

#[test]
fn buffered_collector_basic() {
    let mut collector = EventBuffer::new(100);

    collector.collect(LogEvent::info(LogCategory::System, "Test message"));
    collector.collect(LogEvent::warn(LogCategory::Node, "Warning"));

    assert_eq!(collector.len(), 2);
}

#[test]
fn buffered_collector_capacity() {
    let mut collector = EventBuffer::new(3);

    collector.collect(LogEvent::info(LogCategory::System, "Event 1"));
    collector.collect(LogEvent::info(LogCategory::System, "Event 2"));
    collector.collect(LogEvent::info(LogCategory::System, "Event 3"));
    collector.collect(LogEvent::info(LogCategory::System, "Event 4"));

    assert_eq!(collector.len(), 3);

    let events = collector.all();
    assert_eq!(events[0].message, "Event 2");
    assert_eq!(events[2].message, "Event 4");
}

#[test]
fn buffered_collector_event_ids() {
    let mut collector = EventBuffer::new(100);

    collector.collect(LogEvent::info(LogCategory::System, "Event 1"));
    collector.collect(LogEvent::info(LogCategory::System, "Event 2"));

    let events = collector.all();
    assert_eq!(events[0].id, 1);
    assert_eq!(events[1].id, 2);
}

#[test]
fn buffered_collector_by_trace() {
    let mut collector = EventBuffer::new(100);
    let trace_id = TraceId::new();

    collector.collect(LogEvent::info(LogCategory::System, "Unrelated"));
    collector.collect(LogEvent::info(LogCategory::Trace, "Trace event").with_trace_id(trace_id));
    collector.collect(LogEvent::info(LogCategory::Node, "Node event").with_trace_id(trace_id).with_node_id(NodeId::new(1)));

    let trace_events = collector.by_trace(trace_id);
    assert_eq!(trace_events.len(), 2);
    assert_eq!(collector.by_trace_node(trace_id, NodeId::new(1)).len(), 1);
}

#[test]
fn buffered_collector_by_level() {
    let mut collector = EventBuffer::new(100);

    collector.collect(LogEvent::debug(LogCategory::System, "Debug"));
    collector.collect(LogEvent::info(LogCategory::System, "Info"));
    collector.collect(LogEvent::warn(LogCategory::System, "Warn"));
    collector.collect(LogEvent::error(LogCategory::System, "Error"));

    let warnings = collector.by_level(LogLevel::Warn);
    assert_eq!(warnings.len(), 2);
    assert!(warnings.iter().all(|e| e.level >= LogLevel::Warn));
}

#[test]
fn buffered_collector_recent() {
    let mut collector = EventBuffer::new(100);

    for i in 1..=10 {
        collector.collect(LogEvent::info(LogCategory::System, &format!("Event {}", i)));
    }

    let recent = collector.recent(3);
    assert_eq!(recent.len(), 3);
    assert_eq!(recent[0].message, "Event 10");
    assert_eq!(recent[2].message, "Event 8");
}

#[test]
fn buffered_collector_since() {
    let mut collector = EventBuffer::new(100);

    collector.collect(LogEvent::info(LogCategory::System, "Event 1"));
    collector.collect(LogEvent::info(LogCategory::System, "Event 2"));
    collector.collect(LogEvent::info(LogCategory::System, "Event 3"));

    let since = collector.since(1);
    assert_eq!(since.len(), 2);
    assert_eq!(since[0].id, 2);
}

#[test]
fn buffered_collector_admission_filter() {
    let mut collector = EventBuffer::new(10).with_filter(LogFilter::new().min_level(LogLevel::Warn));
    assert!(!collector.collect(LogEvent::info(LogCategory::System, "dropped")));
    assert!(collector.collect(LogEvent::error(LogCategory::System, "kept")));
    let events = collector.all();
    assert_eq!(events.len(), 1);
    assert_eq!(events[0].id, 1);
    collector.clear();
    assert!(collector.is_empty());
    assert_eq!(collector.capacity(), 10);
}

#[test]
fn log_context_auto_fields() {
    let mut collector = EventBuffer::new(100);
    let trace_id = TraceId::new();

    let ctx = LogEventBuilder::new().with_trace_id(trace_id).with_pipeline_id("test_pipeline");

    collector.collect(ctx.info(LogCategory::Trace, "Trace started"));

    let events = collector.all();
    assert_eq!(events.len(), 1);
    assert_eq!(events[0].trace_id, Some(trace_id));
    assert_eq!(events[0].pipeline_id, Some("test_pipeline".to_string()));
}

#[test]
fn log_context_for_node() {
    let mut collector = EventBuffer::new(100);
    let trace_id = TraceId::new();

    let ctx = LogEventBuilder::new().with_trace_id(trace_id);
    let node_ctx = ctx.with_node_id(NodeId::new(42));

    collector.collect(node_ctx.info(LogCategory::Node, "Node processing"));

    let events = collector.all();
    assert_eq!(events[0].trace_id, Some(trace_id));
    assert_eq!(events[0].node_id, Some(NodeId::new(42)));
}

#[test]
fn null_collector() {
    let collector = NullCollector;

    collector.collect(LogEvent::info(LogCategory::System, "Discarded"));

    assert_eq!(collector.len(), 0);
}

#[test]
fn integration_test_logging_workflow() {
    let mut collector = EventBuffer::with_default_capacity();
    let trace_id = TraceId::new();
    let pipeline_id = "order_processing";

    let ctx = LogEventBuilder::new().with_trace_id(trace_id).with_pipeline_id(pipeline_id);

    collector.collect(ctx.info(LogCategory::Trace, "Trace started"));

    for node_id in [1u32, 2, 3] {
        let node_ctx = LogEventBuilder::new()
            .with_trace_id(trace_id)
            .with_pipeline_id(pipeline_id)
            .with_node_id(NodeId::new(node_id));
        collector.collect(node_ctx.debug(LogCategory::Node, &format!("Node {} started", node_id)));
        collector.collect(node_ctx.info(LogCategory::Node, &format!("Node {} completed", node_id)));
    }

    collector.collect(ctx.info(LogCategory::Trace, "Trace completed"));

    assert_eq!(collector.len(), 8);

    let trace_logs = collector.by_trace(trace_id);
    assert_eq!(trace_logs.len(), 8);

    let debug_logs = collector.query(&LogFilter::new().level(LogLevel::Debug));
    assert_eq!(debug_logs.len(), 3);

    let node_logs = collector.query(&LogFilter::new().category(LogCategory::Node));
    assert_eq!(node_logs.len(), 6);

    let filter = LogFilter::new().trace_id(trace_id).min_level(LogLevel::Info).category(LogCategory::Trace);
    let filtered = collector.query(&filter);
    assert_eq!(filtered.len(), 2);
    assert_eq!(collector.by_pipeline(pipeline_id).len(), 8);
}

#[test]
fn integration_test_event_formatting() {
    let trace_id = TraceId::new();
    let event = LogEvent::warn(LogCategory::Node, "Node timeout")
        .with_trace_id(trace_id)
        .with_node_id(NodeId::new(42))
        .with_pipeline_id("my_pipeline")
        .with_field("timeout_ms", "5000")
        .with_field_i64("retry_count", 3);

    let line = event.format_line();

    assert!(line.contains("[WARN]"));
    assert!(line.contains("[node]"));
    assert!(line.contains(&format!("trace={}", trace_id.to_text())));
    assert!(line.contains("node=42"));
    assert!(line.contains("pipeline=my_pipeline"));
    assert!(line.contains("Node timeout"));
    assert!(line.contains("timeout_ms"));
    assert!(line.contains("retry_count"));
}

#[test]
fn level_from_str() {
    let l: LogLevel = "WARNING".parse().unwrap();
    assert_eq!(l, LogLevel::Warn);
    assert_eq!("loud".parse::<LogLevel>(), Err("invalid log level"));
}

#[test]
fn json_fields_must_be_json() {
    let event = LogEvent::info(LogCategory::System, "x").try_with_field_json("n", "42").unwrap();
    assert_eq!(event.fields.get("n"), Some("42"));
    assert!(LogEvent::info(LogCategory::System, "x").try_with_field_json("n", "forty-two").is_none());
}

#[test]
fn integer_fields_render_in_decimal() {
    let event = LogEvent::info(LogCategory::System, "x")
        .with_field_i64("min", i64::MIN)
        .with_field_i64("neg", -7)
        .with_field_i64("zero", 0)
        .with_field_i64("max", i64::MAX);
    assert_eq!(event.fields.get("min"), Some("-9223372036854775808"));
    assert_eq!(event.fields.get("neg"), Some("-7"));
    assert_eq!(event.fields.get("zero"), Some("0"));
    assert_eq!(event.fields.get("max"), Some("9223372036854775807"));
}
