use xerv_core::error::{ResultExt, XervError};
use xerv_core::types::{NodeId, TraceId};

#[test]
fn error_codes_are_correct() {
    let err = XervError::ArenaCreate { path: "/tmp/test".to_string(), cause: "test".to_string() };
    assert_eq!(err.code(), "E001");

    let err = XervError::SelectorResolution {
        selector: "${test}".to_string(),
        node_id: NodeId::new(1),
        cause: "not found".to_string(),
    };
    assert_eq!(err.code(), "E101");
}

#[test]
fn retriable_errors() {
    assert!(XervError::Network { cause: "timeout".to_string() }.is_retriable());

    assert!(!XervError::InvalidTopology { cause: "cycle".to_string() }.is_retriable());
}

#[test]
fn config_errors() {
    assert!(XervError::YamlParse { path: "test.yaml".to_string(), cause: "syntax".to_string() }.is_config_error());

    assert!(!XervError::NodeExecution { node_id: NodeId::new(1), trace_id: TraceId::new(), cause: "failed".to_string() }
        .is_config_error());
}

#[test]
fn more_error_codes() {
    assert_eq!(XervError::NodeTimeout { node_id: NodeId::new(5), trace_id: TraceId::new(), timeout_ms: 5000 }.code(), "E302");
    assert_eq!(XervError::AuthenticationFailed { cause: "x".to_string() }.code(), "E1001");
    assert!(!XervError::AuthenticationFailed { cause: "x".to_string() }.is_schema_error());
}

#[test]
fn error_display() {
    let err = XervError::NodeTimeout { node_id: NodeId::new(5), trace_id: TraceId::new(), timeout_ms: 5000 };
    let msg = err.message();
    assert!(msg.contains("E302"));
    assert!(msg.contains("node_5"));
    assert!(msg.contains("5000ms"));
}

#[test]
fn message_texts_are_exact() {
    let err = XervError::ArenaCapacity { requested: 4096, available: 12 };
    assert_eq!(err.message(), "E005: Arena capacity exceeded: requested 4096 bytes, available 12 bytes");

    let err = XervError::CircuitBreakerOpen { pipeline_id: "orders".to_string(), error_rate_tenths: 125 };
    assert_eq!(err.message(), "E504: Pipeline 'orders' circuit breaker open: error rate 12.5%");

    let err = XervError::UncontrolledCycle { nodes: vec![NodeId::new(1), NodeId::new(2)] };
    assert_eq!(err.message(), "E403: Uncontrolled cycle detected involving nodes: [NodeId(1), NodeId(2)]");

    let err = XervError::UncontrolledCycle { nodes: vec![] };
    assert_eq!(err.message(), "E403: Uncontrolled cycle detected involving nodes: []");

    let trace = TraceId::from_u128(0x0123_4567_89ab_cdef_0123_4567_89ab_cdef);
    let err = XervError::WalWrite { trace_id: trace, cause: "disk full".to_string() };
    assert_eq!(err.message(), "E601: WAL write failed for trace 01234567-89ab-cdef-0123-456789abcdef: disk full");

    let err = XervError::Serialization("bad json".to_string());
    assert_eq!(err.message(), "E804: Serialization error: bad json");
}

#[test]
fn node_id_text() {
    assert_eq!(NodeId::new(42).to_text(), "node_42");
}

#[test]
fn result_context_is_added_to_failures_only() {
    let trace = TraceId::new();
    let ok: Result<u32, String> = Ok(7);
    assert!(matches!(ok.with_trace(trace), Ok(7)));

    let failed: Result<u32, String> = Err("boom".to_string());
    match failed.with_trace(trace) {
        Err(XervError::NodeExecution { node_id, trace_id, cause }) => {
            assert_eq!(node_id, NodeId::new(0));
            assert_eq!(trace_id, trace);
            assert_eq!(cause, "boom");
        }
        _ => panic!("expected a node execution error"),
    }

    let failed: Result<u32, String> = Err("bad port".to_string());
    match failed.with_node(NodeId::new(3)) {
        Err(XervError::NodeConfig { node_id, cause }) => {
            assert_eq!(node_id, NodeId::new(3));
            assert_eq!(cause, "bad port");
        }
        _ => panic!("expected a node configuration error"),
    }
}
