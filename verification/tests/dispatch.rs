use xerv_core::dispatch::config::memory::MemoryConfig;
use xerv_core::dispatch::config::nats::{NatsConfig, NatsCredentials};
use xerv_core::dispatch::config::raft::RaftConfig;
use xerv_core::dispatch::config::redis::RedisConfig;
use xerv_core::dispatch::config::DispatchConfig;
use xerv_core::dispatch::error::DispatchError;
use xerv_core::dispatch::memory::MemoryQueue;
use xerv_core::dispatch::request::{PayloadType, TraceRequest};
use xerv_core::types::{PipelineId, TraceId};
use xerv_core::dispatch::redis::{entry_fields, pending_key, pipeline_string, queue_key, stream_key};
use xerv_core::dispatch::request::received;
use xerv_core::dispatch::redis::{claimed_entry, find_field, first_entry_with_data, pending_of_pipeline};
use xerv_core::dispatch::nats::{add_pipeline_trace, fetch_timeout_ms, nack_action, scan_range, stream_subject, trace_subject, NatsAck};
use xerv_core::dispatch::consumer::consumer_name;

fn create_request(name: &str) -> TraceRequest {
    TraceRequest::new(TraceId::new(), PipelineId::new(name, 1), "test-trigger", vec![])
}

#[test]
fn memory_default_values() {
    let config = MemoryConfig::default();
    assert_eq!(config.max_queue_size, 10_000);
    assert!(!config.priority_queue);
}

#[test]
fn memory_builder_pattern() {
    let config = MemoryConfig::new().max_queue_size(5_000).with_priority_queue();

    assert_eq!(config.max_queue_size, 5_000);
    assert!(config.priority_queue);
}

#[test]
fn default_config_is_memory() {
    let config = DispatchConfig::default();
    assert_eq!(config.backend_name(), "memory");
}

#[test]
fn settings_without_backend_select_nothing() {
    assert!(DispatchConfig::from_settings(None, None, None, None).is_none());
}

#[test]
fn settings_select_backends() {
    let memory = DispatchConfig::from_settings(Some("memory"), None, None, None).unwrap();
    assert_eq!(memory.backend_name(), "memory");
    let unknown = DispatchConfig::from_settings(Some("unknown_backend"), None, None, None).unwrap();
    assert_eq!(unknown.backend_name(), "memory");
    let raft = DispatchConfig::from_settings(Some("RAFT"), Some("7"), None, None).unwrap();
    assert_eq!(raft.backend_name(), "raft");
    match raft {
        DispatchConfig::Raft(c) => assert_eq!(c.node_id, 7),
        _ => panic!("expected raft"),
    }
    let raft_default = DispatchConfig::from_settings(Some("raft"), Some("x"), None, None).unwrap();
    match raft_default {
        DispatchConfig::Raft(c) => assert_eq!(c.node_id, 1),
        _ => panic!("expected raft"),
    }
    let redis = DispatchConfig::from_settings(Some("redis"), None, None, None).unwrap();
    match redis {
        DispatchConfig::Redis(c) => {
            assert_eq!(c.url, "redis://localhost:6379");
            assert!(c.use_streams);
        },
        _ => panic!("expected redis"),
    }
    let nats = DispatchConfig::from_settings(Some("nats"), None, None, Some("nats://n:1")).unwrap();
    match nats {
        DispatchConfig::Nats(c) => {
            assert_eq!(c.url, "nats://n:1");
            assert!(c.use_jetstream);
        },
        _ => panic!("expected nats"),
    }
}

#[test]
fn nats_default_values() {
    let config = NatsConfig::default();
    assert_eq!(config.url, "nats://localhost:4222");
    assert!(config.use_jetstream);
    assert_eq!(config.stream_name, "XERV_TRACES");
}

#[test]
fn nats_builder_pattern() {
    let config = NatsConfig::new("nats://nats:4222").with_jetstream().stream_name("MY_STREAM").durable("worker-1");

    assert!(config.use_jetstream);
    assert_eq!(config.stream_name, "MY_STREAM");
    assert_eq!(config.durable_name, Some("worker-1".to_string()));
}

#[test]
fn credentials_user_pass() {
    let config = NatsConfig::new("nats://nats:4222").with_user_pass("user", "pass");

    assert!(matches!(config.credentials, Some(NatsCredentials::UserPass { .. })));
}

#[test]
fn credentials_token() {
    let config = NatsConfig::new("nats://nats:4222").with_token("secret-token");

    assert!(matches!(config.credentials, Some(NatsCredentials::Token { .. })));
}

#[test]
fn raft_default_values() {
    let config = RaftConfig::default();
    assert_eq!(config.node_id, 1);
    assert_eq!(config.listen_addr, "127.0.0.1:5000");
    assert!(config.peers.is_empty());
}

#[test]
fn raft_builder_pattern() {
    let config = RaftConfig::builder()
        .node_id(1)
        .listen_addr("0.0.0.0:5000")
        .peer(2, "10.0.0.2:5000")
        .peer(3, "10.0.0.3:5000")
        .build();

    assert_eq!(config.node_id, 1);
    assert_eq!(config.peers.len(), 2);
    assert_eq!(config.peers[0].node_id, 2);
    assert_eq!(config.peers[1].address, "10.0.0.3:5000");
}

#[test]
fn new_with_node_id() {
    let config = RaftConfig::new(42);
    assert_eq!(config.node_id, 42);
}

#[test]
fn redis_default_values() {
    let config = RedisConfig::default();
    assert_eq!(config.url, "redis://localhost:6379");
    assert_eq!(config.pool_size, 10);
    assert!(config.use_streams);
}

#[test]
fn redis_builder_pattern() {
    let config = RedisConfig::new("redis://redis-cluster:6379").with_streams().pool_size(20).consumer_group("my-workers");

    assert!(config.use_streams);
    assert_eq!(config.pool_size, 20);
    assert_eq!(config.consumer_group, "my-workers");
}

#[test]
fn tls_configuration() {
    let config = RedisConfig::new("rediss://secure-redis:6379").with_tls().tls_ca_cert("/etc/ssl/ca.crt");

    assert!(config.tls);
    assert_eq!(config.tls_ca_cert, Some("/etc/ssl/ca.crt".to_string()));
}

#[test]
fn request_creation() {
    let pipeline_id = PipelineId::new("test", 1);
    let request = TraceRequest::new(TraceId::new(), pipeline_id.duplicate(), "webhook", b"{}".to_vec());

    assert_eq!(request.pipeline_id.name(), "test");
    assert_eq!(request.trigger_id, "webhook");
    assert_eq!(request.attempt, 0);
    assert!(!request.is_exhausted());
}

#[test]
fn builder_usage() {
    let request = TraceRequest::builder(PipelineId::new("orders", 2), "cron")
        .priority(10)
        .max_attempts(5)
        .metadata("region", "us-east")
        .json_payload(b"{\"key\":\"value\"}".to_vec())
        .build();

    assert_eq!(request.priority, 10);
    assert_eq!(request.max_attempts, 5);
    assert_eq!(request.get_metadata("region"), Some("us-east"));
    assert_eq!(request.payload_type, PayloadType::Json);
}

#[test]
fn attempt_tracking() {
    let mut request = TraceRequest::new(TraceId::new(), PipelineId::new("test", 1), "trigger", vec![]);
    request.max_attempts = 3;

    assert!(!request.is_exhausted());

    request.increment_attempt();
    assert!(!request.is_exhausted());

    request.increment_attempt();
    assert!(!request.is_exhausted());

    request.increment_attempt();
    assert!(request.is_exhausted());
}

#[test]
fn age_calculation() {
    let request = TraceRequest::new(TraceId::new(), PipelineId::new("test", 1), "trigger", vec![]);

    assert!(request.age_ms() < 1000);
}

#[test]
fn age_at_saturates() {
    let mut request = create_request("test");
    request.created_at_ms = 5_000;
    assert_eq!(request.age_at(7_500), 2_500);
    assert_eq!(request.age_at(1_000), 0);
}

fn _assert_send_sync<T: Send + Sync>() {}

#[test]
fn error_is_send_sync() {
    _assert_send_sync::<DispatchError>();
}

#[test]
fn error_messages() {
    assert_eq!(DispatchError::QueueFull { current: 2, max: 2 }.message(), "Queue full: 2/2 pending traces");
    assert_eq!(DispatchError::Timeout(250).message(), "Operation timed out after 250ms");
    assert_eq!(DispatchError::ShuttingDown.message(), "Backend is shutting down");
    assert_eq!(DispatchError::ConfigError("bad".to_string()).message(), "Configuration error: bad");
}

#[test]
fn queue_enqueue_dequeue() {
    let mut queue = MemoryQueue::with_defaults();

    let trace_id = queue.enqueue(create_request("test")).unwrap();

    let dequeued = queue.dequeue();
    assert!(dequeued.is_some());
    assert_eq!(dequeued.unwrap().trace_id, trace_id);

    assert!(queue.dequeue().is_none());
    assert_eq!(queue.total_enqueued(), 1);
    assert_eq!(queue.total_dequeued(), 1);
}

#[test]
fn queue_ack_removes_from_in_flight() {
    let mut queue = MemoryQueue::with_defaults();
    let trace_id = queue.enqueue(create_request("test")).unwrap();

    let _ = queue.dequeue();
    assert_eq!(queue.in_flight_count(), 1);

    queue.ack(trace_id);
    assert_eq!(queue.in_flight_count(), 0);
}

#[test]
fn queue_nack_with_retry() {
    let mut queue = MemoryQueue::with_defaults();
    let mut request = create_request("test");
    request.max_attempts = 3;
    let trace_id = queue.enqueue(request).unwrap();

    let _ = queue.dequeue();
    queue.nack(trace_id, true);

    assert_eq!(queue.queue_depth(), 1);
    assert_eq!(queue.in_flight_count(), 0);
}

#[test]
fn queue_nack_exhausted() {
    let mut queue = MemoryQueue::with_defaults();
    let mut request = create_request("test");
    request.max_attempts = 1;
    request.attempt = 1;
    let trace_id = queue.enqueue(request).unwrap();

    let _ = queue.dequeue();
    queue.nack(trace_id, true);

    assert_eq!(queue.queue_depth(), 0);
}

#[test]
fn queue_full() {
    let mut queue = MemoryQueue::new(MemoryConfig { max_queue_size: 2, priority_queue: false });

    queue.enqueue(create_request("test1")).unwrap();
    queue.enqueue(create_request("test2")).unwrap();

    let result = queue.enqueue(create_request("test3"));
    assert!(matches!(result, Err(DispatchError::QueueFull { current: 2, max: 2 })));
}

#[test]
fn queue_priority_order() {
    let mut queue = MemoryQueue::new(MemoryConfig { max_queue_size: 100, priority_queue: true });

    let mut low = create_request("low");
    low.priority = 0;
    queue.enqueue(low).unwrap();

    let mut high = create_request("high");
    high.priority = 10;
    let high_id = queue.enqueue(high).unwrap();

    let dequeued = queue.dequeue().unwrap();
    assert_eq!(dequeued.trace_id, high_id);
}

#[test]
fn queue_fifo_without_priority() {
    let mut queue = MemoryQueue::with_defaults();
    let mut low = create_request("low");
    low.priority = 0;
    let low_id = queue.enqueue(low).unwrap();
    let mut high = create_request("high");
    high.priority = 10;
    queue.enqueue(high).unwrap();
    assert_eq!(queue.dequeue().unwrap().trace_id, low_id);
}

#[test]
fn queue_shutdown_stops_dequeue() {
    let mut queue = MemoryQueue::with_defaults();
    queue.enqueue(create_request("queued")).unwrap();

    queue.shutdown();
    assert!(!queue.health_check());

    assert!(queue.dequeue().is_none());

    let result = queue.enqueue(create_request("test"));
    assert!(matches!(result, Err(DispatchError::ShuttingDown)));
}

#[test]
fn queue_pending_by_pipeline() {
    let mut queue = MemoryQueue::with_defaults();
    let pipeline_a = PipelineId::new("pipeline-a", 1);
    let pipeline_b = PipelineId::new("pipeline-b", 1);

    let a1 = queue.enqueue(TraceRequest::new(TraceId::new(), pipeline_a.duplicate(), "t", vec![])).unwrap();
    queue.enqueue(TraceRequest::new(TraceId::new(), pipeline_b.duplicate(), "t", vec![])).unwrap();
    let a2 = queue.enqueue(TraceRequest::new(TraceId::new(), pipeline_a.duplicate(), "t", vec![])).unwrap();

    let pending = queue.get_pending_by_pipeline(&pipeline_a);
    assert_eq!(pending.len(), 2);
    assert!(pending.contains(&a1));
    assert!(pending.contains(&a2));
    assert_eq!(queue.get_pending_by_pipeline(&pipeline_b).len(), 1);
    assert!(queue.health_check());
}

use xerv_core::dispatch::raft::RaftQueue;

#[test]
fn raft_dispatch_basic() {
    let mut dispatch = RaftQueue::new(RaftConfig::new(1));

    assert!(!dispatch.is_cluster_mode());
    assert_eq!(dispatch.node_id(), 1);

    let request = TraceRequest::new(TraceId::new(), PipelineId::new("test", 1), "trigger", vec![]);
    assert_eq!(dispatch.check_enqueue().unwrap(), false);
    let trace_id = dispatch.push(request);

    assert_eq!(dispatch.queue_depth(), 1);

    let dequeued = dispatch.dequeue();
    assert!(dequeued.is_some());
    let dequeued = dequeued.unwrap();
    assert_eq!(dequeued.trace_id, trace_id);
    assert_eq!(dequeued.attempt, 1);

    assert!(!dispatch.ack(trace_id));
    assert_eq!(dispatch.in_flight_count(), 0);

    dispatch.shutdown();
    assert!(matches!(dispatch.check_enqueue(), Err(DispatchError::ShuttingDown)));
}

#[test]
fn raft_dispatch_nack_retry() {
    let mut dispatch = RaftQueue::new(RaftConfig::new(1));

    let mut request = TraceRequest::new(TraceId::new(), PipelineId::new("test", 1), "trigger", vec![]);
    request.max_attempts = 3;
    let trace_id = dispatch.push(request);

    let _ = dispatch.dequeue();
    assert!(!dispatch.nack(trace_id, true));

    assert_eq!(dispatch.queue_depth(), 1);
    assert_eq!(dispatch.in_flight_count(), 0);
}

#[test]
fn raft_dispatch_cluster_records() {
    let mut dispatch = RaftQueue::new(RaftConfig::new(2));
    dispatch.attach_cluster();
    assert!(dispatch.is_cluster_mode());
    assert_eq!(dispatch.check_enqueue().unwrap(), true);

    let mut request = TraceRequest::new(TraceId::new(), PipelineId::new("test", 1), "trigger", vec![]);
    request.max_attempts = 1;
    let trace_id = dispatch.push(request);
    let _ = dispatch.dequeue();
    assert!(dispatch.nack(trace_id, true));
    assert_eq!(dispatch.queue_depth(), 0);
    assert!(!dispatch.nack(trace_id, true));
    assert!(dispatch.health_check(true));
    assert!(!dispatch.health_check(false));
}

#[test]
fn raft_dispatch_health_check() {
    let mut dispatch = RaftQueue::new(RaftConfig::new(1));

    assert!(dispatch.health_check(false));

    dispatch.shutdown();
    assert!(!dispatch.health_check(true));
    assert!(dispatch.dequeue().is_none());
}

#[test]
fn raft_dispatch_get_pending_by_pipeline() {
    let mut dispatch = RaftQueue::new(RaftConfig::new(1));

    let pipeline_a = PipelineId::new("pipeline-a", 1);
    let pipeline_b = PipelineId::new("pipeline-b", 1);

    let trace_a1 = dispatch.push(TraceRequest::new(TraceId::new(), pipeline_a.duplicate(), "trigger", vec![]));
    let trace_a2 = dispatch.push(TraceRequest::new(TraceId::new(), pipeline_a.duplicate(), "trigger", vec![]));
    let _trace_b = dispatch.push(TraceRequest::new(TraceId::new(), pipeline_b.duplicate(), "trigger", vec![]));

    let pending_a = dispatch.get_pending_by_pipeline(&pipeline_a);
    assert_eq!(pending_a.len(), 2);
    assert!(pending_a.contains(&trace_a1));
    assert!(pending_a.contains(&trace_a2));

    let pending_b = dispatch.get_pending_by_pipeline(&pipeline_b);
    assert_eq!(pending_b.len(), 1);

    let _ = dispatch.dequeue();
    assert_eq!(dispatch.get_pending_by_pipeline(&pipeline_a), vec![trace_a2, trace_a1]);
}

#[test]
fn from_env_or_default_returns_memory() {
    let config = DispatchConfig::from_env_or_default(None, None, None, None);
    assert_eq!(config.backend_name(), "memory");
}

#[test]
fn from_env_or_default_follows_the_backend_setting() {
    let config = DispatchConfig::from_env_or_default(Some("NATS"), None, None, None);
    assert_eq!(config.backend_name(), "nats");
    let config = DispatchConfig::from_env_or_default(Some("unknown"), None, None, None);
    assert_eq!(config.backend_name(), "memory");
}

fn fields(pairs: &[(&str, &str)]) -> Vec<(String, String)> {
    pairs.iter().map(|(k, v)| (k.to_string(), v.to_string())).collect()
}

#[test]
fn redis_keys_and_entry_fields() {
    let config = RedisConfig::new("redis://localhost:6379");
    let prefix = config.key_prefix.clone();
    assert_eq!(stream_key(&config), format!("{}:traces", prefix));
    assert_eq!(pending_key(&config), format!("{}:pending", prefix));
    assert_eq!(queue_key(&config), format!("{}:queue", prefix));

    let pipeline = PipelineId::new("orders", 2);
    assert_eq!(pipeline_string(&pipeline), "orders@v2");
    let trace = TraceId::from_u128(0x0123_4567_89ab_cdef_0123_4567_89ab_cdef);
    let request = TraceRequest::builder(pipeline, "webhook").trace_id(trace).priority(-3).build();
    let entry = entry_fields(&request, "{}");
    assert_eq!(
        entry,
        fields(&[
            ("trace_id", "01234567-89ab-cdef-0123-456789abcdef"),
            ("data", "{}"),
            ("pipeline_id", "orders@v2"),
            ("priority", "-3"),
        ])
    );
}

#[test]
fn redis_replies() {
    let with_data = ("1-0".to_string(), fields(&[("trace_id", "x"), ("data", "payload"), ("data", "second")]));
    let without = ("2-0".to_string(), fields(&[("trace_id", "y")]));
    assert_eq!(find_field(&with_data.1, "data"), Some("payload".to_string()));
    assert_eq!(find_field(&with_data.1, "nothing"), None);

    assert_eq!(claimed_entry(&vec![]), None);
    assert_eq!(claimed_entry(&vec![without.clone(), with_data.clone()]), None);
    assert_eq!(claimed_entry(&vec![with_data.clone()]), Some(("1-0".to_string(), "payload".to_string())));

    let streams = vec![
        ("a".to_string(), vec![without.clone()]),
        ("b".to_string(), vec![without.clone(), with_data.clone()]),
    ];
    assert_eq!(first_entry_with_data(&streams), Some(("1-0".to_string(), "payload".to_string())));
    assert_eq!(first_entry_with_data(&vec![("a".to_string(), vec![without.clone()])]), None);

    let t1 = "01234567-89ab-cdef-0123-456789abcdef";
    let t2 = "11234567-89ab-cdef-0123-456789abcdef";
    let entries = vec![
        ("1-0".to_string(), fields(&[("trace_id", t1), ("pipeline_id", "orders@v1")])),
        ("2-0".to_string(), fields(&[("trace_id", t2), ("pipeline_id", "users@v1")])),
        ("3-0".to_string(), fields(&[("trace_id", "not a uuid"), ("pipeline_id", "orders@v1")])),
        ("4-0".to_string(), fields(&[("trace_id", t2), ("pipeline_id", "orders@v1")])),
    ];
    let ids = pending_of_pipeline(&entries, &PipelineId::new("orders", 1));
    assert_eq!(ids, vec![TraceId::parse(t1).unwrap(), TraceId::parse(t2).unwrap()]);

    let request = TraceRequest::new(TraceId::new(), PipelineId::new("p", 1), "t", vec![]);
    assert_eq!(received(request).attempt, 1);
}

#[test]
fn nats_decisions() {
    let config = NatsConfig::new("nats://localhost:4222");
    let prefix = config.subject_prefix.clone();
    assert_eq!(trace_subject(&config, &PipelineId::new("orders", 3)), format!("{}.traces.orders", prefix));
    assert_eq!(stream_subject(&config), format!("{}.>", prefix));
    assert_eq!(fetch_timeout_ms(0), 100);
    assert_eq!(fetch_timeout_ms(2500), 2500);
    assert_eq!(scan_range(1, 10), (1, 10));
    assert_eq!(scan_range(1, 5000), (4001, 5000));
    assert_eq!(scan_range(0, 0), (0, 0));

    let mut request = TraceRequest::builder(PipelineId::new("orders", 1), "t").max_attempts(2).build();
    assert_eq!(nack_action(&request, true), NatsAck::Nak { delay_ms: 1000 });
    assert_eq!(nack_action(&request, false), NatsAck::Term);
    request.increment_attempt();
    request.increment_attempt();
    assert_eq!(nack_action(&request, true), NatsAck::Term);

    let mut traces = Vec::new();
    add_pipeline_trace(&mut traces, &request, &PipelineId::new("orders", 1));
    add_pipeline_trace(&mut traces, &request, &PipelineId::new("orders", 1));
    add_pipeline_trace(&mut traces, &request, &PipelineId::new("orders", 2));
    assert_eq!(traces, vec![request.trace_id]);
}

#[test]
fn consumer_names() {
    assert_eq!(consumer_name(&Some("w1".to_string())), "w1");
    let fresh = consumer_name(&None);
    assert!(fresh.starts_with("worker-"));
    assert_eq!(fresh.len(), "worker-".len() + 36);
}
