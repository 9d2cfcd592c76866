use xerv_core::flow::definition::FlowDefinition;
use xerv_core::flow::edge::{parse_node_port, EdgeDefinition};
use xerv_core::flow::node::{NodeDefinition, RetryConfig};
use xerv_core::flow::trigger::{TriggerDefinition, TriggerType};
use xerv_core::flow::validation::error::{ValidationError, ValidationErrorKind};
use xerv_core::flow::validation::limits::ValidationLimits;
use xerv_core::flow::validation::validator::FlowValidator;
use xerv_core::flow::yaml::YamlValue;

fn s(t: &str) -> YamlValue {
    YamlValue::String(t.to_string())
}

fn n(v: i64) -> YamlValue {
    YamlValue::Number(Some(v), v.to_string())
}

fn map(entries: Vec<(&str, YamlValue)>) -> YamlValue {
    YamlValue::Mapping(entries.into_iter().map(|(k, v)| (s(k), v)).collect())
}

fn minimal_flow() -> FlowDefinition {
    let mut flow = FlowDefinition::new("test");
    flow.triggers = vec![TriggerDefinition::new("webhook", "webhook")];
    flow
}

fn has_error(errors: &[ValidationError], kind: ValidationErrorKind, text: &str) -> bool {
    errors.iter().any(|e| e.kind == kind && e.message.contains(text))
}

#[test]
fn edge_builder() {
    let edge = EdgeDefinition::new("source.out", "target.in")
        .with_condition("${source.success}")
        .with_description("Main flow");

    assert_eq!(edge.from_node(), "source");
    assert_eq!(edge.from_port(), "out");
    assert_eq!(edge.condition, Some("${source.success}".to_string()));
}

#[test]
fn parse_node_without_port() {
    let edge = EdgeDefinition::new("simple_node", "another_node");
    assert_eq!(edge.from_node(), "simple_node");
    assert_eq!(edge.from_port(), "out");
    assert_eq!(edge.to_node(), "another_node");
    assert_eq!(edge.to_port(), "in");
}

#[test]
fn parse_special_ports() {
    let edge1 = EdgeDefinition::new("switch.true", "handler");
    assert_eq!(edge1.from_node(), "switch");
    assert_eq!(edge1.from_port(), "true");

    let edge2 = EdgeDefinition::new("switch.false", "error_handler");
    assert_eq!(edge2.from_node(), "switch");
    assert_eq!(edge2.from_port(), "false");

    let edge3 = EdgeDefinition::new("processor.error", "error_log");
    assert_eq!(edge3.from_node(), "processor");
    assert_eq!(edge3.from_port(), "error");
}

#[test]
fn selector_text_is_not_a_port() {
    assert_eq!(parse_node_port("${a.b}", "out"), ("${a.b}", "out"));
    assert_eq!(parse_node_port("node.", "in"), ("node.", "in"));
    assert_eq!(parse_node_port("a.b.c", "out"), ("a.b", "c"));
    assert_eq!(parse_node_port("a.very_long_port_name_here", "out"), ("a.very_long_port_name_here", "out"));
    assert!(EdgeDefinition::new("a", "b").as_loop_back().loop_back);
}

#[test]
fn node_builder() {
    let node = NodeDefinition::new("std::merge")
        .with_description("Wait for all inputs")
        .with_timeout_ms(5000)
        .with_label("category", "flow-control");

    assert_eq!(node.node_type, "std::merge");
    assert_eq!(node.description, Some("Wait for all inputs".to_string()));
    assert_eq!(node.timeout_ms, Some(5000));
    assert!(node.is_std());
    assert_eq!(node.labels.get("category"), Some("flow-control"));
}

#[test]
fn node_config_access() {
    let node = NodeDefinition::new("std::switch").with_config(map(vec![
        ("condition", map(vec![("type", s("greater_than")), ("field", s("amount")), ("value", n(100))])),
        ("enabled", YamlValue::Bool(true)),
    ]));
    assert_eq!(node.get_nested(&["condition", "type"]).and_then(|v| v.as_str()), Some("greater_than"));
    assert_eq!(node.get_nested(&["condition", "value"]).and_then(|v| v.as_i64()), Some(100));
    assert!(node.get_nested(&["condition", "missing"]).is_none());
    assert!(node.get_nested(&[]).is_some());
    assert_eq!(node.get_bool("enabled"), Some(true));
    assert_eq!(node.get_string("enabled"), None);
    assert!(!node.is_trigger());
    assert!(NodeDefinition::new("trigger::webhook").is_trigger());
    assert!(!NodeDefinition::new("std::log").disabled().enabled);
}

#[test]
fn retry_defaults() {
    let retry = RetryConfig::default();
    assert_eq!(retry.max_attempts, 3);
    assert_eq!(retry.initial_delay_ms, 1000);
    assert_eq!(retry.max_delay_ms, 30_000);
    assert_eq!(f64::from_bits(retry.backoff_multiplier_bits), 2.0);
    assert!(retry.jitter);
    let node = NodeDefinition::new("plugins::http_call").with_retry(retry);
    assert_eq!(node.retry.unwrap().max_attempts, 3);
}

#[test]
fn invalid_trigger_type() {
    let def = TriggerDefinition::new("test", "invalid_type");
    assert!(def.parsed_type().is_none());
    assert!(def.to_trigger_config().is_none());
}

#[test]
fn trigger_types_and_params() {
    assert_eq!(TriggerType::parse("webhook"), Some(TriggerType::Webhook));
    assert_eq!(TriggerType::parse("trigger::cron"), Some(TriggerType::Cron));
    assert_eq!(TriggerType::parse("filesystem"), Some(TriggerType::Filesystem));
    assert_eq!(TriggerType::parse("Webhook"), None);
    let t = TriggerDefinition::new("api", "webhook")
        .with_params(map(vec![("host", s("0.0.0.0")), ("port", n(8080)), ("tls", YamlValue::Bool(false))]))
        .with_description("Orders");
    assert_eq!(t.get_string("host"), Some("0.0.0.0"));
    assert_eq!(t.get_i64("port"), Some(8080));
    assert_eq!(t.get_bool("tls"), Some(false));
    assert_eq!(t.get_i64("host"), None);
    assert!(t.enabled);
    assert!(!t.disabled().enabled);
}

#[test]
fn flow_builder() {
    let flow = FlowDefinition::new("test_flow")
        .with_version("1.0.0")
        .with_description("A test flow")
        .with_trigger(TriggerDefinition::new("webhook", "webhook"))
        .with_node("log", NodeDefinition::new("std::log"))
        .with_edge(EdgeDefinition::new("webhook", "log"));

    assert_eq!(flow.name, "test_flow");
    assert_eq!(flow.triggers.len(), 1);
    assert_eq!(flow.nodes.len(), 1);
    assert_eq!(flow.edges.len(), 1);
    assert_eq!(flow.effective_version(), "1.0.0");
}

#[test]
fn query_methods() {
    let flow = FlowDefinition::new("query_test")
        .with_trigger(TriggerDefinition::new("t1", "webhook"))
        .with_node("n1", NodeDefinition::new("std::log"))
        .with_node("n2", NodeDefinition::new("std::switch"))
        .with_edge(EdgeDefinition::new("t1", "n1"))
        .with_edge(EdgeDefinition::new("n1", "n2"));

    assert!(flow.has_trigger("t1"));
    assert!(!flow.has_trigger("nonexistent"));

    assert!(flow.has_node("n1"));
    assert!(!flow.has_node("nonexistent"));

    let edges_from_t1 = flow.edges_from("t1");
    assert_eq!(edges_from_t1.len(), 1);

    let edges_to_n2 = flow.edges_to("n2");
    assert_eq!(edges_to_n2.len(), 1);
}

#[test]
fn listing_methods() {
    let flow = FlowDefinition::new("listing")
        .with_trigger(TriggerDefinition::new("t1", "webhook"))
        .with_trigger(TriggerDefinition::new("t2", "cron").disabled())
        .with_node("a", NodeDefinition::new("std::log"))
        .with_node("b", NodeDefinition::new("std::log").disabled())
        .with_node("a", NodeDefinition::new("std::switch"));
    assert_eq!(flow.node_ids(), vec!["a", "b"]);
    assert_eq!(flow.trigger_ids(), vec!["t1", "t2"]);
    assert_eq!(flow.get_node("a").unwrap().node_type, "std::switch");
    assert_eq!(flow.get_trigger("t2").unwrap().trigger_type, "cron");
    assert!(flow.get_trigger("t3").is_none());
    let enabled: Vec<&str> = flow.enabled_triggers().iter().map(|t| t.id.as_str()).collect();
    assert_eq!(enabled, vec!["t1"]);
    let nodes: Vec<&str> = flow.enabled_nodes().iter().map(|(id, _)| *id).collect();
    assert_eq!(nodes, vec!["a"]);
    let mut unversioned = FlowDefinition::new("v");
    unversioned.version = None;
    assert_eq!(unversioned.effective_version(), "1.0");
}

#[test]
fn validate_minimal_flow() {
    let flow = minimal_flow();
    let result = FlowValidator::new().validate(&flow);
    assert!(result.is_ok());
    assert!(flow.validate().is_ok());
}

#[test]
fn validate_missing_name() {
    let mut flow = minimal_flow();
    flow.name = String::new();

    let result = FlowValidator::new().validate(&flow);
    assert!(result.is_err());
    let errors = result.unwrap_err();
    assert!(errors.iter().any(|e| e.kind == ValidationErrorKind::MissingField && e.location == "flow"));
}

#[test]
fn validate_duplicate_trigger_ids() {
    let mut flow = minimal_flow();
    flow.triggers = vec![TriggerDefinition::new("dup_id", "webhook"), TriggerDefinition::new("dup_id", "cron")];

    let result = FlowValidator::new().validate(&flow);
    assert!(result.is_err());
    let errors = result.unwrap_err();
    assert!(errors.iter().any(|e| e.kind == ValidationErrorKind::DuplicateId));
}

#[test]
fn validate_invalid_trigger_type() {
    let mut flow = minimal_flow();
    flow.triggers = vec![TriggerDefinition::new("test", "invalid_type")];

    let result = FlowValidator::new().validate(&flow);
    assert!(result.is_err());
    let errors = result.unwrap_err();
    assert!(errors.iter().any(|e| e.kind == ValidationErrorKind::InvalidTriggerType));
}

#[test]
fn validate_invalid_edge_reference() {
    let mut flow = minimal_flow();
    flow.edges = vec![EdgeDefinition::new("nonexistent", "also_nonexistent")];

    let result = FlowValidator::new().validate(&flow);
    assert!(result.is_err());
    let errors = result.unwrap_err();
    assert!(errors.iter().any(|e| e.kind == ValidationErrorKind::InvalidReference));
}

#[test]
fn validate_valid_edge_reference() {
    let mut flow = minimal_flow();
    flow.nodes.insert("processor", NodeDefinition::new("std::log"));
    flow.edges = vec![EdgeDefinition::new("webhook", "processor")];

    let result = FlowValidator::new().validate(&flow);
    assert!(result.is_ok());
}

#[test]
fn validate_cron_requires_schedule() {
    let mut flow = minimal_flow();
    flow.triggers = vec![TriggerDefinition::new("cron_trigger", "cron")];

    let result = FlowValidator::new().validate(&flow);
    assert!(result.is_err());
    let errors = result.unwrap_err();
    assert!(has_error(&errors, ValidationErrorKind::MissingField, "schedule"));
}

#[test]
fn validate_reports_every_error_in_order() {
    let mut flow = FlowDefinition::new("");
    flow.triggers = vec![
        TriggerDefinition::new("hook", "webhook").with_params(map(vec![("port", n(70000))])),
        TriggerDefinition::new("hook", "filesystem"),
    ];
    flow.nodes.insert("hook", NodeDefinition::new("std::aggregate"));
    flow.nodes.insert("loop", NodeDefinition::new("std::loop").with_config(map(vec![("max_iterations", n(3))])));
    flow.edges = vec![EdgeDefinition::new("hook", "ghost").with_condition("${hook.value")];

    let errors = flow.validate().unwrap_err();
    let got: Vec<(ValidationErrorKind, String, String)> =
        errors.iter().map(|e| (e.kind, e.location.clone(), e.message.clone())).collect();
    let want = vec![
        (ValidationErrorKind::MissingField, "flow", "missing required field 'name'"),
        (ValidationErrorKind::InvalidValue, "triggers[0].params.port", "port must be between 1 and 65535, got 70000"),
        (ValidationErrorKind::DuplicateId, "triggers[1]", "duplicate identifier 'hook'"),
        (ValidationErrorKind::MissingField, "triggers[1].params", "missing required field 'path'"),
        (ValidationErrorKind::DuplicateId, "nodes.hook", "node ID conflicts with trigger ID 'hook'"),
        (ValidationErrorKind::DuplicateId, "nodes.hook", "node ID conflicts with trigger ID 'hook'"),
        (ValidationErrorKind::MissingField, "nodes.hook.config", "missing required field 'operation'"),
        (ValidationErrorKind::InvalidSelector, "edges[0].condition", "unbalanced braces in selector"),
        (ValidationErrorKind::InvalidReference, "edges[0].to", "reference to non-existent node 'ghost'"),
    ];
    let want: Vec<(ValidationErrorKind, String, String)> =
        want.into_iter().map(|(k, l, m)| (k, l.to_string(), m.to_string())).collect();
    assert_eq!(got, want);
    assert_eq!(errors[0].to_text(), "[MISSING_FIELD] flow: missing required field 'name'");
}

#[test]
fn selector_braces_only_count_after_a_selector_start() {
    let mut flow = minimal_flow();
    flow.nodes.insert("n", NodeDefinition::new("std::log"));
    flow.edges = vec![
        EdgeDefinition::new("webhook", "n").with_condition("{unbalanced but no selector"),
        EdgeDefinition::new("webhook", "n").with_condition("${a} and ${b}"),
        EdgeDefinition::new("webhook", "n").with_condition("}}${a}"),
    ];
    assert!(flow.validate().is_ok());
}

#[test]
fn validate_content_size_limit() {
    let limits = ValidationLimits::default().with_max_file_size(100);

    let small_content = "name: test\n";
    assert!(limits.validate_content_size(small_content).is_ok());

    let large_content = "a".repeat(200);
    let result = limits.validate_content_size(&large_content);
    assert!(result.is_err());
    let error = result.unwrap_err();
    assert_eq!(error.kind, ValidationErrorKind::LimitExceeded);
    assert!(error.message.contains("200 bytes"));
}

#[test]
fn validate_nesting_depth_limit() {
    let limits = ValidationLimits::default().with_max_nesting_depth(3);

    let shallow = map(vec![("a", map(vec![("b", n(1))]))]);
    assert!(limits.validate_nesting_depth(&shallow).is_ok());

    let deep = map(vec![("a", map(vec![("b", map(vec![("c", map(vec![("d", map(vec![("e", n(1))]))]))]))]))]);
    let result = limits.validate_nesting_depth(&deep);
    assert!(result.is_err());
    let error = result.unwrap_err();
    assert_eq!(error.kind, ValidationErrorKind::LimitExceeded);
    assert!(error.message.contains("nesting depth"));
}

#[test]
fn validate_node_count_limit() {
    let limits = ValidationLimits::default().with_max_node_count(2);
    let mut flow = minimal_flow();

    flow.nodes.insert("node1", NodeDefinition::new("std::log"));
    flow.nodes.insert("node2", NodeDefinition::new("std::log"));
    flow.nodes.insert("node3", NodeDefinition::new("std::log"));

    let result = FlowValidator::with_limits(limits).validate(&flow);
    assert!(result.is_err());
    let errors = result.unwrap_err();
    assert!(has_error(&errors, ValidationErrorKind::LimitExceeded, "node count"));
}

#[test]
fn validate_edge_count_limit() {
    let mut limits = ValidationLimits::default();
    limits.max_edge_count = 1;

    let mut flow = minimal_flow();
    flow.nodes.insert("n1", NodeDefinition::new("std::log"));
    flow.nodes.insert("n2", NodeDefinition::new("std::log"));
    flow.edges = vec![EdgeDefinition::new("webhook", "n1"), EdgeDefinition::new("n1", "n2")];

    let result = FlowValidator::with_limits(limits).validate(&flow);
    assert!(result.is_err());
    let errors = result.unwrap_err();
    assert!(has_error(&errors, ValidationErrorKind::LimitExceeded, "edge count"));
}

#[test]
fn validate_trigger_count_limit() {
    let mut limits = ValidationLimits::default();
    limits.max_trigger_count = 1;

    let mut flow = minimal_flow();
    flow.triggers = vec![TriggerDefinition::new("t1", "webhook"), TriggerDefinition::new("t2", "webhook")];

    let result = FlowValidator::with_limits(limits).validate(&flow);
    assert!(result.is_err());
    let errors = result.unwrap_err();
    assert!(has_error(&errors, ValidationErrorKind::LimitExceeded, "trigger count"));
    assert_eq!(errors[0].message, "trigger count (2) exceeds maximum allowed (1)");
}

#[test]
fn measure_depth_flat() {
    let value = map(vec![("a", n(1)), ("b", n(2))]);
    assert_eq!(ValidationLimits::measure_depth(&value), 2);
}

#[test]
fn measure_depth_nested_mapping() {
    let value = map(vec![("a", map(vec![("b", map(vec![("c", n(1))]))]))]);
    assert_eq!(ValidationLimits::measure_depth(&value), 4);
}

#[test]
fn measure_depth_sequence() {
    let value = YamlValue::Sequence(vec![n(1), YamlValue::Sequence(vec![n(2), YamlValue::Sequence(vec![n(3)])])]);
    assert_eq!(ValidationLimits::measure_depth(&value), 4);
}

#[test]
fn hard_depth_limit() {
    let limits = ValidationLimits::default().with_max_nesting_depth(0);
    let mut v = n(1);
    for _ in 0..20 {
        v = YamlValue::Sequence(vec![v]);
    }
    let e = limits.validate_nesting_depth(&v).unwrap_err();
    assert_eq!(e.message, "YAML recursion depth exceeded hard limit (possible attack)");
}

#[test]
fn yaml_lookup_through_tags() {
    let v = YamlValue::Tagged("!outer".to_string(), Box::new(map(vec![("k", YamlValue::Tagged("!inner".to_string(), Box::new(s("v"))))])));
    assert_eq!(v.get("k").and_then(|x| x.as_str()), Some("v"));
    assert!(YamlValue::Null.get("k").is_none());
    assert_eq!(YamlValue::Number(None, "1.5".to_string()).as_i64(), None);
    let dup = map(vec![("k", n(1)), ("k", n(2))]);
    assert_eq!(dup.get("k").and_then(|x| x.as_i64()), Some(1));
}

#[test]
fn file_size_limit() {
    let limits = ValidationLimits::default().with_max_file_size(100);
    assert!(limits.validate_file_size(100).is_ok());
    let err = limits.validate_file_size(101).unwrap_err();
    assert_eq!(err.kind, ValidationErrorKind::LimitExceeded);
    assert_eq!(err.location, "flow");
    assert_eq!(err.message, "file size (101 bytes) exceeds maximum allowed (100 bytes)");
}

#[test]
fn to_trigger_config() {
    let def = TriggerDefinition::new("test", "webhook").with_params(YamlValue::Mapping(vec![]));

    let config = def.to_trigger_config().unwrap();
    assert_eq!(config.id, "test");
    assert_eq!(config.trigger_type, TriggerType::Webhook);
}

#[test]
fn trigger_config_copies_params() {
    let params = YamlValue::Mapping(vec![
        (s("path"), YamlValue::String("/hook".to_string())),
        (s("retries"), n(3)),
        (n(7), YamlValue::Sequence(vec![YamlValue::Bool(true), YamlValue::Null])),
        (YamlValue::Bool(true), s("yes")),
    ]);
    let def = TriggerDefinition::new("hook", "cron").with_params(params);
    let config = def.to_trigger_config().unwrap();
    assert_eq!(config.trigger_type, TriggerType::Cron);
    assert_eq!(config.params.get("path").and_then(|v| v.as_str()), Some("/hook"));
    assert_eq!(config.params.get("retries").and_then(|v| v.as_i64()), Some(3));
    match &config.params {
        YamlValue::Mapping(entries) => {
            assert_eq!(entries.len(), 4);
            assert_eq!(entries[2].0.as_i64(), Some(7));
            assert!(matches!(&entries[2].1, YamlValue::Sequence(items) if items.len() == 2));
            assert_eq!(entries[3].0.as_bool(), Some(true));
            assert_eq!(entries[3].1.as_str(), Some("yes"));
            assert!(config.params.get("7").is_none());
        }
        _ => panic!("the parameters stay a mapping"),
    }
}
