//! Error types for XERV: one enum with a stable code per variant.
use vstd::prelude::*;
use crate::types::{ArenaOffset, NodeId, TraceId, uuid_text};
use crate::text::{decimal_text, digit_char, owned, push_char, u64_text};

verus! {

/// The main error type for XERV operations.
#[derive(Debug)]
pub enum XervError {
    // =========================================================================
    // Arena Errors (E001-E099)
    // =========================================================================
    /// Failed to create or open arena file.
    ArenaCreate {
        /// The path where arena creation failed.
        path: String,
        /// Reason for the failure.
        cause: String,
    },

    /// Failed to memory-map the arena file.
    ArenaMmap {
        /// The path of the arena file.
        path: String,
        /// Reason for the mmap failure.
        cause: String,
    },

    /// Arena write operation failed.
    ArenaWrite {
        /// The trace identifier.
        trace_id: TraceId,
        /// The offset where write was attempted.
        offset: ArenaOffset,
        /// Reason for the write failure.
        cause: String,
    },

    /// Arena read operation failed.
    ArenaRead {
        /// The offset that could not be read.
        offset: ArenaOffset,
        /// Reason for the read failure.
        cause: String,
    },

    /// Arena capacity exceeded.
    ArenaCapacity {
        /// Number of bytes requested.
        requested: u64,
        /// Number of bytes available.
        available: u64,
    },

    /// Invalid arena offset.
    ArenaInvalidOffset {
        /// The invalid offset.
        offset: ArenaOffset,
        /// Reason why the offset is invalid.
        cause: String,
    },

    /// Arena corruption detected.
    ArenaCorruption {
        /// The offset where corruption was detected.
        offset: ArenaOffset,
        /// Description of the corruption.
        cause: String,
    },

    // =========================================================================
    // Selector/Linker Errors (E100-E199)
    // =========================================================================
    /// Failed to resolve a selector expression.
    SelectorResolution {
        /// The selector expression that failed to resolve.
        selector: String,
        /// The node where resolution was attempted.
        node_id: NodeId,
        /// Reason for the resolution failure.
        cause: String,
    },

    /// Non-deterministic layout detected (unstable offsets).
    NonDeterministicLayout {
        /// The type with non-deterministic layout.
        type_label: String,
        /// Description of the layout issue.
        cause: String,
    },

    /// Invalid selector syntax.
    SelectorSyntax {
        /// The selector with invalid syntax.
        selector: String,
        /// Description of the syntax error.
        cause: String,
    },

    /// Selector target not found.
    SelectorTargetNotFound {
        /// The field that was not found.
        field: String,
        /// The node whose output was queried.
        node_id: NodeId,
    },

    /// Type mismatch in selector.
    SelectorTypeMismatch {
        /// The selector expression with type mismatch.
        selector: String,
        /// The expected type.
        expected: String,
        /// The actual type found.
        actual: String,
    },

    // =========================================================================
    // Schema Evolution Errors (E110-E119)
    // =========================================================================
    /// Schema version not found.
    SchemaVersionNotFound {
        /// The schema name.
        schema: String,
        /// The requested version.
        version: String,
    },

    /// Schema incompatible with no migration.
    SchemaIncompatible {
        /// The source schema version.
        from: String,
        /// The target schema version.
        to: String,
        /// Reason why schemas are incompatible.
        cause: String,
    },

    /// Migration failed.
    MigrationFailed {
        /// The source schema version.
        from: String,
        /// The target schema version.
        to: String,
        /// Reason for the migration failure.
        cause: String,
    },

    /// Breaking schema change without migration.
    BreakingSchemaChange {
        /// The affected schema.
        schema: String,
        /// Description of the breaking change.
        change: String,
    },

    /// Migration path too long.
    MigrationPathTooLong {
        /// The source schema version.
        from: String,
        /// The target schema version.
        to: String,
        /// The maximum allowed number of migration hops.
        max_hops: u32,
    },

    // =========================================================================
    // Runtime/Dependency Errors (E200-E299)
    // =========================================================================
    /// Missing binary dependency.
    MissingBinary {
        /// The name of the missing binary.
        binary: String,
        /// Reason why the binary is missing.
        cause: String,
    },

    /// Runtime version mismatch.
    RuntimeMismatch {
        /// The runtime with version mismatch.
        runtime: String,
        /// The required version.
        required: String,
        /// The found version.
        found: String,
    },

    /// Container image unavailable.
    ContainerImageUnavailable {
        /// The container image reference.
        image: String,
    },

    /// Unsupported execution profile.
    UnsupportedProfile {
        /// The requested execution profile.
        profile: String,
    },

    // =========================================================================
    // Node Execution Errors (E300-E399)
    // =========================================================================
    /// Node execution failed.
    NodeExecution {
        /// The node that failed to execute.
        node_id: NodeId,
        /// The trace in which execution occurred.
        trace_id: TraceId,
        /// Reason for the execution failure.
        cause: String,
    },

    /// Node timeout.
    NodeTimeout {
        /// The node that timed out.
        node_id: NodeId,
        /// The trace in which timeout occurred.
        trace_id: TraceId,
        /// Timeout duration in milliseconds.
        timeout_ms: u64,
    },

    /// Node panic.
    NodePanic {
        /// The node that panicked.
        node_id: NodeId,
        /// The trace in which panic occurred.
        trace_id: TraceId,
        /// The panic message.
        message: String,
    },

    /// Invalid node configuration.
    NodeConfig {
        /// The node with invalid configuration.
        node_id: NodeId,
        /// Description of the configuration error.
        cause: String,
    },

    /// Node not found.
    NodeNotFound {
        /// The name of the node that was not found.
        node_name: String,
    },

    // =========================================================================
    // Flow/Topology Errors (E400-E499)
    // =========================================================================
    /// No compatible version for migration.
    NoCompatibleVersion {
        /// The trace for which no compatible version was found.
        trace_id: TraceId,
        /// Reason why no compatible version is available.
        cause: String,
    },

    /// Invalid flow topology.
    InvalidTopology {
        /// Description of the topology issue.
        cause: String,
    },

    /// Cycle detected without loop controller.
    UncontrolledCycle {
        /// The nodes involved in the cycle.
        nodes: Vec<NodeId>,
    },

    /// Invalid port reference.
    InvalidPort {
        /// The port name that is invalid.
        port: String,
        /// The node with the invalid port.
        node_id: NodeId,
    },

    /// Missing required edge.
    MissingEdge {
        /// The source node.
        from_node: NodeId,
        /// The source port.
        from_port: String,
        /// The destination node.
        to_node: NodeId,
        /// The destination port.
        to_port: String,
    },

    /// Invalid edge (references non-existent node or port).
    InvalidEdge {
        /// The source node.
        from_node: NodeId,
        /// The source port.
        from_port: String,
        /// The destination node.
        to_node: NodeId,
        /// The destination port.
        to_port: String,
    },

    // =========================================================================
    // Pipeline Errors (E500-E599)
    // =========================================================================
    /// Pipeline not found.
    PipelineNotFound {
        /// The pipeline identifier that was not found.
        pipeline_id: String,
    },

    /// Pipeline already exists.
    PipelineExists {
        /// The pipeline identifier that already exists.
        pipeline_id: String,
    },

    /// Pipeline concurrency limit reached.
    ConcurrencyLimit {
        /// The pipeline identifier.
        pipeline_id: String,
        /// Current number of concurrent executions.
        current: u32,
        /// Maximum allowed concurrent executions.
        max: u32,
    },

    /// Pipeline circuit breaker triggered.
    CircuitBreakerOpen {
        /// The pipeline identifier.
        pipeline_id: String,
        /// The error rate that triggered the circuit breaker, in tenths of a percent.
        error_rate_tenths: u32,
    },

    /// Pipeline drain timeout.
    DrainTimeout {
        /// The pipeline identifier.
        pipeline_id: String,
        /// Number of traces still pending.
        pending_traces: u32,
    },

    // =========================================================================
    // WAL Errors (E600-E699)
    // =========================================================================
    /// WAL write failed.
    WalWrite {
        /// The trace being written to the WAL.
        trace_id: TraceId,
        /// Reason for the write failure.
        cause: String,
    },

    /// WAL read failed.
    WalRead {
        /// Reason for the read failure.
        cause: String,
    },

    /// WAL corruption detected.
    WalCorruption {
        /// The position in the WAL where corruption was detected.
        position: u64,
        /// Description of the corruption.
        cause: String,
    },

    /// WAL replay failed.
    WalReplay {
        /// The trace being replayed from the WAL.
        trace_id: TraceId,
        /// Reason for the replay failure.
        cause: String,
    },

    // =========================================================================
    // WASM Errors (E700-E799)
    // =========================================================================
    /// WASM module loading failed.
    WasmLoad {
        /// The WASM module that failed to load.
        module: String,
        /// Reason for the load failure.
        cause: String,
    },

    /// WASM execution failed.
    WasmExecution {
        /// The node running WASM that failed.
        node_id: NodeId,
        /// Reason for the execution failure.
        cause: String,
    },

    /// WASM memory allocation failed.
    WasmMemoryAlloc {
        /// Number of bytes requested for allocation.
        requested: u64,
    },

    /// WASM host function error.
    WasmHostFunction {
        /// The host function name that failed.
        function: String,
        /// Reason for the function failure.
        cause: String,
    },

    // =========================================================================
    // Configuration Errors (E800-E899)
    // =========================================================================
    /// YAML parsing failed.
    YamlParse {
        /// The path to the YAML file.
        path: String,
        /// Reason for the parse failure.
        cause: String,
    },

    /// Invalid configuration value.
    ConfigValue {
        /// The configuration field with invalid value.
        field: String,
        /// Description of why the value is invalid.
        cause: String,
    },

    /// Schema validation failed.
    SchemaValidation {
        /// The schema being validated.
        schema: String,
        /// Reason for the validation failure.
        cause: String,
    },

    /// Serialization/deserialization error.
    Serialization(
        /// The serialization error message.
        String,
    ),

    // =========================================================================
    // I/O Errors (E900-E999)
    // =========================================================================
    /// File I/O error.
    Io {
        /// The path where the I/O error occurred.
        path: String,
        /// Description of the I/O error.
        cause: String,
    },

    /// Network error.
    Network {
        /// Description of the network error.
        cause: String,
    },

    // =========================================================================
    // Authentication/Authorization Errors (E1000-E1099)
    // =========================================================================
    /// Authentication failed.
    AuthenticationFailed {
        /// Reason for the authentication failure.
        cause: String,
    },

    /// Authorization denied.
    AuthorizationDenied {
        /// The identity that was denied.
        identity: String,
        /// The required scope.
        required_scope: String,
        /// Reason for the denial.
        cause: String,
    },

    // =========================================================================
    // Suspension Errors (E1100-E1199)
    // =========================================================================
    /// Hook not found.
    HookNotFound {
        /// The hook ID that was not found.
        hook_id: String,
    },

    /// Suspension failed.
    SuspensionFailed {
        /// The trace being suspended.
        trace_id: TraceId,
        /// Reason for the suspension failure.
        cause: String,
    },

    // =========================================================================
    // Compaction Errors (E1200-E1299)
    // =========================================================================
    /// Compaction failed.
    CompactionFailed {
        /// Reason for the compaction failure.
        cause: String,
    },

    // =========================================================================
    // Snapshot Errors (E1300-E1399)
    // =========================================================================
    /// Snapshot creation failed.
    SnapshotCreation {
        /// Reason for the snapshot failure.
        cause: String,
    },

    /// Snapshot load failed.
    SnapshotLoad {
        /// Reason for the load failure.
        cause: String,
    },
}

/// The stable code of each error variant (e.g. "E001").
pub open spec fn error_code(e: XervError) -> &'static str {
    match e {
        XervError::ArenaCreate { .. } => "E001",
        XervError::ArenaMmap { .. } => "E002",
        XervError::ArenaWrite { .. } => "E003",
        XervError::ArenaRead { .. } => "E004",
        XervError::ArenaCapacity { .. } => "E005",
        XervError::ArenaInvalidOffset { .. } => "E006",
        XervError::ArenaCorruption { .. } => "E007",
        XervError::SelectorResolution { .. } => "E101",
        XervError::NonDeterministicLayout { .. } => "E102",
        XervError::SelectorSyntax { .. } => "E103",
        XervError::SelectorTargetNotFound { .. } => "E104",
        XervError::SelectorTypeMismatch { .. } => "E105",
        XervError::SchemaVersionNotFound { .. } => "E110",
        XervError::SchemaIncompatible { .. } => "E111",
        XervError::MigrationFailed { .. } => "E112",
        XervError::BreakingSchemaChange { .. } => "E113",
        XervError::MigrationPathTooLong { .. } => "E114",
        XervError::MissingBinary { .. } => "E201",
        XervError::RuntimeMismatch { .. } => "E202",
        XervError::ContainerImageUnavailable { .. } => "E203",
        XervError::UnsupportedProfile { .. } => "E204",
        XervError::NodeExecution { .. } => "E301",
        XervError::NodeTimeout { .. } => "E302",
        XervError::NodePanic { .. } => "E303",
        XervError::NodeConfig { .. } => "E304",
        XervError::NodeNotFound { .. } => "E305",
        XervError::NoCompatibleVersion { .. } => "E401",
        XervError::InvalidTopology { .. } => "E402",
        XervError::UncontrolledCycle { .. } => "E403",
        XervError::InvalidPort { .. } => "E404",
        XervError::MissingEdge { .. } => "E405",
        XervError::PipelineNotFound { .. } => "E501",
        XervError::PipelineExists { .. } => "E502",
        XervError::ConcurrencyLimit { .. } => "E503",
        XervError::CircuitBreakerOpen { .. } => "E504",
        XervError::DrainTimeout { .. } => "E505",
        XervError::WalWrite { .. } => "E601",
        XervError::WalRead { .. } => "E602",
        XervError::WalCorruption { .. } => "E603",
        XervError::WalReplay { .. } => "E604",
        XervError::WasmLoad { .. } => "E701",
        XervError::WasmExecution { .. } => "E702",
        XervError::WasmMemoryAlloc { .. } => "E703",
        XervError::WasmHostFunction { .. } => "E704",
        XervError::YamlParse { .. } => "E801",
        XervError::ConfigValue { .. } => "E802",
        XervError::SchemaValidation { .. } => "E803",
        XervError::Serialization(..) => "E804",
        XervError::Io { .. } => "E901",
        XervError::Network { .. } => "E902",
        XervError::InvalidEdge { .. } => "E406",
        XervError::AuthenticationFailed { .. } => "E1001",
        XervError::AuthorizationDenied { .. } => "E1002",
        XervError::HookNotFound { .. } => "E1101",
        XervError::SuspensionFailed { .. } => "E1102",
        XervError::CompactionFailed { .. } => "E1201",
        XervError::SnapshotCreation { .. } => "E1301",
        XervError::SnapshotLoad { .. } => "E1302",
    }
}

/// The variants that a retry may cure.
pub open spec fn is_retriable_error(e: XervError) -> bool {
    matches!(e, XervError::ArenaWrite { .. } | XervError::NodeTimeout { .. } | XervError::WalWrite { .. } | XervError::Network { .. })
}

/// The configuration and validation variants.
pub open spec fn is_config_variant(e: XervError) -> bool {
    matches!(e, XervError::SelectorResolution { .. } | XervError::NonDeterministicLayout { .. } | XervError::SelectorSyntax { .. } | XervError::SelectorTargetNotFound { .. } | XervError::SelectorTypeMismatch { .. } | XervError::SchemaVersionNotFound { .. } | XervError::BreakingSchemaChange { .. } | XervError::InvalidTopology { .. } | XervError::UncontrolledCycle { .. } | XervError::InvalidPort { .. } | XervError::MissingEdge { .. } | XervError::YamlParse { .. } | XervError::ConfigValue { .. } | XervError::SchemaValidation { .. })
}

/// The schema evolution variants.
pub open spec fn is_schema_variant(e: XervError) -> bool {
    matches!(e, XervError::SchemaVersionNotFound { .. } | XervError::SchemaIncompatible { .. } | XervError::MigrationFailed { .. } | XervError::BreakingSchemaChange { .. } | XervError::MigrationPathTooLong { .. } | XervError::SchemaValidation { .. })
}

/// A node ID as its `Debug` form shows it: `NodeId(` and the decimal ID and `)`.
pub open spec fn node_debug_text(n: NodeId) -> Seq<char> {
    seq!['N', 'o', 'd', 'e', 'I', 'd', '('] + decimal_text(n.value as nat) + seq![')']
}

/// The items of a node list, each in its `Debug` form, separated by `, `.
pub open spec fn node_items_text(nodes: Seq<NodeId>) -> Seq<char>
    decreases nodes.len(),
{
    if nodes.len() == 0 {
        Seq::empty()
    } else if nodes.len() == 1 {
        node_debug_text(nodes[0])
    } else {
        node_items_text(nodes.drop_last()) + seq![',', ' '] + node_debug_text(nodes.last())
    }
}

/// A node list in its `Debug` form: its items in square brackets.
pub open spec fn node_list_text(nodes: Seq<NodeId>) -> Seq<char> {
    seq!['['] + node_items_text(nodes) + seq![']']
}

/// A number of tenths shown with one decimal place, such as `12.5` for 125.
pub open spec fn tenths_text(tenths: nat) -> Seq<char> {
    decimal_text(tenths / 10) + seq!['.', digit_char(tenths % 10)]
}

/// The message of each error: its code, then what went wrong, with the values it holds.
pub open spec fn error_message(e: XervError) -> Seq<char> {
    match e {
        XervError::ArenaCreate { path, cause } => "E001: Failed to create arena at "@ + path@ + ": "@ + cause@,
        XervError::ArenaMmap { path, cause } => "E002: Failed to mmap arena at "@ + path@ + ": "@ + cause@,
        XervError::ArenaWrite { offset, trace_id, cause } => "E003: Arena write failed at offset "@ + decimal_text(offset.value as nat) + " for trace "@ + uuid_text(trace_id.value) + ": "@ + cause@,
        XervError::ArenaRead { offset, cause } => "E004: Arena read failed at offset "@ + decimal_text(offset.value as nat) + ": "@ + cause@,
        XervError::ArenaCapacity { requested, available } => "E005: Arena capacity exceeded: requested "@ + decimal_text(requested as nat) + " bytes, available "@ + decimal_text(available as nat) + " bytes"@,
        XervError::ArenaInvalidOffset { offset, cause } => "E006: Invalid arena offset "@ + decimal_text(offset.value as nat) + ": "@ + cause@,
        XervError::ArenaCorruption { offset, cause } => "E007: Arena corruption detected at offset "@ + decimal_text(offset.value as nat) + ": "@ + cause@,
        XervError::SelectorResolution { selector, node_id, cause } => "E101: Selector resolution failed for '"@ + selector@ + "' in node "@ + node_id.display_text() + ": "@ + cause@,
        XervError::NonDeterministicLayout { type_label, cause } => "E102: Non-deterministic layout for type '"@ + type_label@ + "': "@ + cause@,
        XervError::SelectorSyntax { selector, cause } => "E103: Invalid selector syntax '"@ + selector@ + "': "@ + cause@,
        XervError::SelectorTargetNotFound { field, node_id } => "E104: Selector target '"@ + field@ + "' not found in output of node "@ + node_id.display_text(),
        XervError::SelectorTypeMismatch { selector, expected, actual } => "E105: Type mismatch for selector '"@ + selector@ + "': expected "@ + expected@ + ", got "@ + actual@,
        XervError::SchemaVersionNotFound { schema, version } => "E110: Schema version '"@ + schema@ + "@"@ + version@ + "' not found"@,
        XervError::SchemaIncompatible { from, to, .. } => "E111: Schema incompatible: "@ + from@ + " → "@ + to@ + ", no migration available"@,
        XervError::MigrationFailed { from, to, cause } => "E112: Migration failed from "@ + from@ + " to "@ + to@ + ": "@ + cause@,
        XervError::BreakingSchemaChange { schema, change } => "E113: Breaking change in "@ + schema@ + ": "@ + change@,
        XervError::MigrationPathTooLong { from, to, max_hops } => "E114: Migration path from "@ + from@ + " to "@ + to@ + " exceeds max hops ("@ + decimal_text(max_hops as nat) + ")"@,
        XervError::MissingBinary { binary, cause } => "E201: Missing binary '"@ + binary@ + "': "@ + cause@,
        XervError::RuntimeMismatch { runtime, required, found } => "E202: Runtime mismatch for '"@ + runtime@ + "': required "@ + required@ + ", found "@ + found@,
        XervError::ContainerImageUnavailable { image } => "E203: Container image unavailable: "@ + image@,
        XervError::UnsupportedProfile { profile } => "E204: Unsupported execution profile '"@ + profile@ + "' on this host"@,
        XervError::NodeExecution { node_id, trace_id, cause } => "E301: Node "@ + node_id.display_text() + " execution failed in trace "@ + uuid_text(trace_id.value) + ": "@ + cause@,
        XervError::NodeTimeout { node_id, timeout_ms, trace_id } => "E302: Node "@ + node_id.display_text() + " timed out after "@ + decimal_text(timeout_ms as nat) + "ms in trace "@ + uuid_text(trace_id.value),
        XervError::NodePanic { node_id, trace_id, message } => "E303: Node "@ + node_id.display_text() + " panicked in trace "@ + uuid_text(trace_id.value) + ": "@ + message@,
        XervError::NodeConfig { node_id, cause } => "E304: Invalid configuration for node "@ + node_id.display_text() + ": "@ + cause@,
        XervError::NodeNotFound { node_name } => "E305: Node '"@ + node_name@ + "' not found in flow"@,
        XervError::NoCompatibleVersion { trace_id, cause } => "E401: No compatible version found for trace "@ + uuid_text(trace_id.value) + ": "@ + cause@,
        XervError::InvalidTopology { cause } => "E402: Invalid flow topology: "@ + cause@,
        XervError::UncontrolledCycle { nodes } => "E403: Uncontrolled cycle detected involving nodes: "@ + node_list_text(nodes@),
        XervError::InvalidPort { port, node_id } => "E404: Invalid port '"@ + port@ + "' on node "@ + node_id.display_text(),
        XervError::MissingEdge { from_node, from_port, to_node, to_port } => "E405: Missing required edge from "@ + from_node.display_text() + "."@ + from_port@ + " to "@ + to_node.display_text() + "."@ + to_port@,
        XervError::InvalidEdge { from_node, from_port, to_node, to_port } => "E406: Invalid edge from "@ + from_node.display_text() + "."@ + from_port@ + " to "@ + to_node.display_text() + "."@ + to_port@,
        XervError::PipelineNotFound { pipeline_id } => "E501: Pipeline '"@ + pipeline_id@ + "' not found"@,
        XervError::PipelineExists { pipeline_id } => "E502: Pipeline '"@ + pipeline_id@ + "' already exists"@,
        XervError::ConcurrencyLimit { pipeline_id, current, max } => "E503: Pipeline '"@ + pipeline_id@ + "' concurrency limit reached: "@ + decimal_text(current as nat) + "/"@ + decimal_text(max as nat),
        XervError::CircuitBreakerOpen { pipeline_id, error_rate_tenths } => "E504: Pipeline '"@ + pipeline_id@ + "' circuit breaker open: error rate "@ + tenths_text(error_rate_tenths as nat) + "%"@,
        XervError::DrainTimeout { pipeline_id, pending_traces } => "E505: Pipeline '"@ + pipeline_id@ + "' drain timeout: "@ + decimal_text(pending_traces as nat) + " traces still pending"@,
        XervError::WalWrite { trace_id, cause } => "E601: WAL write failed for trace "@ + uuid_text(trace_id.value) + ": "@ + cause@,
        XervError::WalRead { cause } => "E602: WAL read failed: "@ + cause@,
        XervError::WalCorruption { position, cause } => "E603: WAL corruption detected at position "@ + decimal_text(position as nat) + ": "@ + cause@,
        XervError::WalReplay { trace_id, cause } => "E604: WAL replay failed for trace "@ + uuid_text(trace_id.value) + ": "@ + cause@,
        XervError::WasmLoad { module, cause } => "E701: Failed to load WASM module '"@ + module@ + "': "@ + cause@,
        XervError::WasmExecution { node_id, cause } => "E702: WASM execution failed in node "@ + node_id.display_text() + ": "@ + cause@,
        XervError::WasmMemoryAlloc { requested } => "E703: WASM memory allocation failed: requested "@ + decimal_text(requested as nat) + " bytes"@,
        XervError::WasmHostFunction { function, cause } => "E704: WASM host function '"@ + function@ + "' failed: "@ + cause@,
        XervError::YamlParse { path, cause } => "E801: Failed to parse YAML at "@ + path@ + ": "@ + cause@,
        XervError::ConfigValue { field, cause } => "E802: Invalid configuration '"@ + field@ + "': "@ + cause@,
        XervError::SchemaValidation { schema, cause } => "E803: Schema validation failed for '"@ + schema@ + "': "@ + cause@,
        XervError::Serialization(detail) => "E804: Serialization error: "@ + detail@,
        XervError::Io { path, cause } => "E901: I/O error at "@ + path@ + ": "@ + cause@,
        XervError::Network { cause } => "E902: Network error: "@ + cause@,
        XervError::AuthenticationFailed { cause } => "E1001: Authentication failed: "@ + cause@,
        XervError::AuthorizationDenied { identity, required_scope, cause } => "E1002: Authorization denied for '"@ + identity@ + "': required scope '"@ + required_scope@ + "' - "@ + cause@,
        XervError::HookNotFound { hook_id } => "E1101: Hook '"@ + hook_id@ + "' not found"@,
        XervError::SuspensionFailed { trace_id, cause } => "E1102: Suspension failed for trace "@ + uuid_text(trace_id.value) + ": "@ + cause@,
        XervError::CompactionFailed { cause } => "E1201: Arena compaction failed: "@ + cause@,
        XervError::SnapshotCreation { cause } => "E1301: WAL snapshot creation failed: "@ + cause@,
        XervError::SnapshotLoad { cause } => "E1302: WAL snapshot load failed: "@ + cause@,
    }
}

fn node_debug_string(n: NodeId) -> (r: String)
    ensures
        r@ == node_debug_text(n),
{
    let mut r = String::new();
    push_char(&mut r, 'N');
    push_char(&mut r, 'o');
    push_char(&mut r, 'd');
    push_char(&mut r, 'e');
    push_char(&mut r, 'I');
    push_char(&mut r, 'd');
    push_char(&mut r, '(');
    r.append(u64_text(n.value as u64).as_str());
    push_char(&mut r, ')');
    proof {
        assert(r@ =~= node_debug_text(n));
    }
    r
}

fn node_list_string(nodes: &Vec<NodeId>) -> (r: String)
    ensures
        r@ == node_list_text(nodes@),
{
    let mut r = String::new();
    push_char(&mut r, '[');
    let mut i: usize = 0;
    while i < nodes.len()
        invariant
            i <= nodes.len(),
            r@ == seq!['['] + node_items_text(nodes@.take(i as int)),
        decreases nodes.len() - i,
    {
        if i > 0 {
            push_char(&mut r, ',');
            push_char(&mut r, ' ');
        }
        let item = node_debug_string(nodes[i]);
        r.append(item.as_str());
        proof {
            let next = nodes@.take(i + 1);
            assert(next.drop_last() =~= nodes@.take(i as int));
            assert(next.last() == nodes@[i as int]);
            if i == 0 {
                assert(node_items_text(nodes@.take(0)) =~= Seq::<char>::empty());
                assert(r@ =~= seq!['['] + node_items_text(next));
            } else {
                assert(r@ =~= seq!['['] + node_items_text(next));
            }
        }
        i = i + 1;
    }
    push_char(&mut r, ']');
    proof {
        assert(nodes@.take(nodes@.len() as int) =~= nodes@);
        assert(r@ =~= node_list_text(nodes@));
    }
    r
}

fn tenths_text_of(tenths: u32) -> (r: String)
    ensures
        r@ == tenths_text(tenths as nat),
{
    let mut r = u64_text((tenths / 10) as u64);
    push_char(&mut r, '.');
    let d = (tenths % 10) as u8;
    let c = (('0' as u8) + d) as char;
    proof {
        assert(c == digit_char((tenths % 10) as nat));
    }
    push_char(&mut r, c);
    proof {
        assert(r@ =~= tenths_text(tenths as nat));
    }
    r
}

impl XervError {
    /// Get the error code (e.g., "E001").
    pub fn code(&self) -> (r: &'static str)
        ensures
            r == error_code(*self),
    {
        match self {
        Self::ArenaCreate { .. } => "E001",
        Self::ArenaMmap { .. } => "E002",
        Self::ArenaWrite { .. } => "E003",
        Self::ArenaRead { .. } => "E004",
        Self::ArenaCapacity { .. } => "E005",
        Self::ArenaInvalidOffset { .. } => "E006",
        Self::ArenaCorruption { .. } => "E007",
        Self::SelectorResolution { .. } => "E101",
        Self::NonDeterministicLayout { .. } => "E102",
        Self::SelectorSyntax { .. } => "E103",
        Self::SelectorTargetNotFound { .. } => "E104",
        Self::SelectorTypeMismatch { .. } => "E105",
        Self::SchemaVersionNotFound { .. } => "E110",
        Self::SchemaIncompatible { .. } => "E111",
        Self::MigrationFailed { .. } => "E112",
        Self::BreakingSchemaChange { .. } => "E113",
        Self::MigrationPathTooLong { .. } => "E114",
        Self::MissingBinary { .. } => "E201",
        Self::RuntimeMismatch { .. } => "E202",
        Self::ContainerImageUnavailable { .. } => "E203",
        Self::UnsupportedProfile { .. } => "E204",
        Self::NodeExecution { .. } => "E301",
        Self::NodeTimeout { .. } => "E302",
        Self::NodePanic { .. } => "E303",
        Self::NodeConfig { .. } => "E304",
        Self::NodeNotFound { .. } => "E305",
        Self::NoCompatibleVersion { .. } => "E401",
        Self::InvalidTopology { .. } => "E402",
        Self::UncontrolledCycle { .. } => "E403",
        Self::InvalidPort { .. } => "E404",
        Self::MissingEdge { .. } => "E405",
        Self::PipelineNotFound { .. } => "E501",
        Self::PipelineExists { .. } => "E502",
        Self::ConcurrencyLimit { .. } => "E503",
        Self::CircuitBreakerOpen { .. } => "E504",
        Self::DrainTimeout { .. } => "E505",
        Self::WalWrite { .. } => "E601",
        Self::WalRead { .. } => "E602",
        Self::WalCorruption { .. } => "E603",
        Self::WalReplay { .. } => "E604",
        Self::WasmLoad { .. } => "E701",
        Self::WasmExecution { .. } => "E702",
        Self::WasmMemoryAlloc { .. } => "E703",
        Self::WasmHostFunction { .. } => "E704",
        Self::YamlParse { .. } => "E801",
        Self::ConfigValue { .. } => "E802",
        Self::SchemaValidation { .. } => "E803",
        Self::Serialization(..) => "E804",
        Self::Io { .. } => "E901",
        Self::Network { .. } => "E902",
        Self::InvalidEdge { .. } => "E406",
        Self::AuthenticationFailed { .. } => "E1001",
        Self::AuthorizationDenied { .. } => "E1002",
        Self::HookNotFound { .. } => "E1101",
        Self::SuspensionFailed { .. } => "E1102",
        Self::CompactionFailed { .. } => "E1201",
        Self::SnapshotCreation { .. } => "E1301",
        Self::SnapshotLoad { .. } => "E1302",
        }
    }

    /// The message of this error, as people read it: its code, what went wrong, and
    /// the values it holds.
    #[verifier::rlimit(40)]
    pub fn message(&self) -> (r: String)
        ensures
            r@ == error_message(*self),
    {
        match self {
            Self::ArenaCreate { path, cause } => {
                let mut s = owned("E001: Failed to create arena at ");
                s.append(path.as_str());
                s.append(": ");
                s.append(cause.as_str());
                s
            },
            Self::ArenaMmap { path, cause } => {
                let mut s = owned("E002: Failed to mmap arena at ");
                s.append(path.as_str());
                s.append(": ");
                s.append(cause.as_str());
                s
            },
            Self::ArenaWrite { offset, trace_id, cause } => {
                let mut s = owned("E003: Arena write failed at offset ");
                s.append(u64_text(offset.value).as_str());
                s.append(" for trace ");
                s.append(trace_id.to_text().as_str());
                s.append(": ");
                s.append(cause.as_str());
                s
            },
            Self::ArenaRead { offset, cause } => {
                let mut s = owned("E004: Arena read failed at offset ");
                s.append(u64_text(offset.value).as_str());
                s.append(": ");
                s.append(cause.as_str());
                s
            },
            Self::ArenaCapacity { requested, available } => {
                let mut s = owned("E005: Arena capacity exceeded: requested ");
                s.append(u64_text(*requested).as_str());
                s.append(" bytes, available ");
                s.append(u64_text(*available).as_str());
                s.append(" bytes");
                s
            },
            Self::ArenaInvalidOffset { offset, cause } => {
                let mut s = owned("E006: Invalid arena offset ");
                s.append(u64_text(offset.value).as_str());
                s.append(": ");
                s.append(cause.as_str());
                s
            },
            Self::ArenaCorruption { offset, cause } => {
                let mut s = owned("E007: Arena corruption detected at offset ");
                s.append(u64_text(offset.value).as_str());
                s.append(": ");
                s.append(cause.as_str());
                s
            },
            Self::SelectorResolution { selector, node_id, cause } => {
                let mut s = owned("E101: Selector resolution failed for '");
                s.append(selector.as_str());
                s.append("' in node ");
                s.append(node_id.to_text().as_str());
                s.append(": ");
                s.append(cause.as_str());
                s
            },
            Self::NonDeterministicLayout { type_label, cause } => {
                let mut s = owned("E102: Non-deterministic layout for type '");
                s.append(type_label.as_str());
                s.append("': ");
                s.append(cause.as_str());
                s
            },
            Self::SelectorSyntax { selector, cause } => {
                let mut s = owned("E103: Invalid selector syntax '");
                s.append(selector.as_str());
                s.append("': ");
                s.append(cause.as_str());
                s
            },
            Self::SelectorTargetNotFound { field, node_id } => {
                let mut s = owned("E104: Selector target '");
                s.append(field.as_str());
                s.append("' not found in output of node ");
                s.append(node_id.to_text().as_str());
                s
            },
            Self::SelectorTypeMismatch { selector, expected, actual } => {
                let mut s = owned("E105: Type mismatch for selector '");
                s.append(selector.as_str());
                s.append("': expected ");
                s.append(expected.as_str());
                s.append(", got ");
                s.append(actual.as_str());
                s
            },
            Self::SchemaVersionNotFound { schema, version } => {
                let mut s = owned("E110: Schema version '");
                s.append(schema.as_str());
                s.append("@");
                s.append(version.as_str());
                s.append("' not found");
                s
            },
            Self::SchemaIncompatible { from, to, .. } => {
                let mut s = owned("E111: Schema incompatible: ");
                s.append(from.as_str());
                s.append(" → ");
                s.append(to.as_str());
                s.append(", no migration available");
                s
            },
            Self::MigrationFailed { from, to, cause } => {
                let mut s = owned("E112: Migration failed from ");
                s.append(from.as_str());
                s.append(" to ");
                s.append(to.as_str());
                s.append(": ");
                s.append(cause.as_str());
                s
            },
            Self::BreakingSchemaChange { schema, change } => {
                let mut s = owned("E113: Breaking change in ");
                s.append(schema.as_str());
                s.append(": ");
                s.append(change.as_str());
                s
            },
            Self::MigrationPathTooLong { from, to, max_hops } => {
                let mut s = owned("E114: Migration path from ");
                s.append(from.as_str());
                s.append(" to ");
                s.append(to.as_str());
                s.append(" exceeds max hops (");
                s.append(u64_text(*max_hops as u64).as_str());
                s.append(")");
                s
            },
            Self::MissingBinary { binary, cause } => {
                let mut s = owned("E201: Missing binary '");
                s.append(binary.as_str());
                s.append("': ");
                s.append(cause.as_str());
                s
            },
            Self::RuntimeMismatch { runtime, required, found } => {
                let mut s = owned("E202: Runtime mismatch for '");
                s.append(runtime.as_str());
                s.append("': required ");
                s.append(required.as_str());
                s.append(", found ");
                s.append(found.as_str());
                s
            },
            Self::ContainerImageUnavailable { image } => {
                let mut s = owned("E203: Container image unavailable: ");
                s.append(image.as_str());
                s
            },
            Self::UnsupportedProfile { profile } => {
                let mut s = owned("E204: Unsupported execution profile '");
                s.append(profile.as_str());
                s.append("' on this host");
                s
            },
            Self::NodeExecution { node_id, trace_id, cause } => {
                let mut s = owned("E301: Node ");
                s.append(node_id.to_text().as_str());
                s.append(" execution failed in trace ");
                s.append(trace_id.to_text().as_str());
                s.append(": ");
                s.append(cause.as_str());
                s
            },
            Self::NodeTimeout { node_id, timeout_ms, trace_id } => {
                let mut s = owned("E302: Node ");
                s.append(node_id.to_text().as_str());
                s.append(" timed out after ");
                s.append(u64_text(*timeout_ms).as_str());
                s.append("ms in trace ");
                s.append(trace_id.to_text().as_str());
                s
            },
            Self::NodePanic { node_id, trace_id, message } => {
                let mut s = owned("E303: Node ");
                s.append(node_id.to_text().as_str());
                s.append(" panicked in trace ");
                s.append(trace_id.to_text().as_str());
                s.append(": ");
                s.append(message.as_str());
                s
            },
            Self::NodeConfig { node_id, cause } => {
                let mut s = owned("E304: Invalid configuration for node ");
                s.append(node_id.to_text().as_str());
                s.append(": ");
                s.append(cause.as_str());
                s
            },
            Self::NodeNotFound { node_name } => {
                let mut s = owned("E305: Node '");
                s.append(node_name.as_str());
                s.append("' not found in flow");
                s
            },
            Self::NoCompatibleVersion { trace_id, cause } => {
                let mut s = owned("E401: No compatible version found for trace ");
                s.append(trace_id.to_text().as_str());
                s.append(": ");
                s.append(cause.as_str());
                s
            },
            Self::InvalidTopology { cause } => {
                let mut s = owned("E402: Invalid flow topology: ");
                s.append(cause.as_str());
                s
            },
            Self::UncontrolledCycle { nodes } => {
                let mut s = owned("E403: Uncontrolled cycle detected involving nodes: ");
                s.append(node_list_string(nodes).as_str());
                s
            },
            Self::InvalidPort { port, node_id } => {
                let mut s = owned("E404: Invalid port '");
                s.append(port.as_str());
                s.append("' on node ");
                s.append(node_id.to_text().as_str());
                s
            },
            Self::MissingEdge { from_node, from_port, to_node, to_port } => {
                let mut s = owned("E405: Missing required edge from ");
                s.append(from_node.to_text().as_str());
                s.append(".");
                s.append(from_port.as_str());
                s.append(" to ");
                s.append(to_node.to_text().as_str());
                s.append(".");
                s.append(to_port.as_str());
                s
            },
            Self::InvalidEdge { from_node, from_port, to_node, to_port } => {
                let mut s = owned("E406: Invalid edge from ");
                s.append(from_node.to_text().as_str());
                s.append(".");
                s.append(from_port.as_str());
                s.append(" to ");
                s.append(to_node.to_text().as_str());
                s.append(".");
                s.append(to_port.as_str());
                s
            },
            Self::PipelineNotFound { pipeline_id } => {
                let mut s = owned("E501: Pipeline '");
                s.append(pipeline_id.as_str());
                s.append("' not found");
                s
            },
            Self::PipelineExists { pipeline_id } => {
                let mut s = owned("E502: Pipeline '");
                s.append(pipeline_id.as_str());
                s.append("' already exists");
                s
            },
            Self::ConcurrencyLimit { pipeline_id, current, max } => {
                let mut s = owned("E503: Pipeline '");
                s.append(pipeline_id.as_str());
                s.append("' concurrency limit reached: ");
                s.append(u64_text(*current as u64).as_str());
                s.append("/");
                s.append(u64_text(*max as u64).as_str());
                s
            },
            Self::CircuitBreakerOpen { pipeline_id, error_rate_tenths } => {
                let mut s = owned("E504: Pipeline '");
                s.append(pipeline_id.as_str());
                s.append("' circuit breaker open: error rate ");
                s.append(tenths_text_of(*error_rate_tenths).as_str());
                s.append("%");
                s
            },
            Self::DrainTimeout { pipeline_id, pending_traces } => {
                let mut s = owned("E505: Pipeline '");
                s.append(pipeline_id.as_str());
                s.append("' drain timeout: ");
                s.append(u64_text(*pending_traces as u64).as_str());
                s.append(" traces still pending");
                s
            },
            Self::WalWrite { trace_id, cause } => {
                let mut s = owned("E601: WAL write failed for trace ");
                s.append(trace_id.to_text().as_str());
                s.append(": ");
                s.append(cause.as_str());
                s
            },
            Self::WalRead { cause } => {
                let mut s = owned("E602: WAL read failed: ");
                s.append(cause.as_str());
                s
            },
            Self::WalCorruption { position, cause } => {
                let mut s = owned("E603: WAL corruption detected at position ");
                s.append(u64_text(*position).as_str());
                s.append(": ");
                s.append(cause.as_str());
                s
            },
            Self::WalReplay { trace_id, cause } => {
                let mut s = owned("E604: WAL replay failed for trace ");
                s.append(trace_id.to_text().as_str());
                s.append(": ");
                s.append(cause.as_str());
                s
            },
            Self::WasmLoad { module, cause } => {
                let mut s = owned("E701: Failed to load WASM module '");
                s.append(module.as_str());
                s.append("': ");
                s.append(cause.as_str());
                s
            },
            Self::WasmExecution { node_id, cause } => {
                let mut s = owned("E702: WASM execution failed in node ");
                s.append(node_id.to_text().as_str());
                s.append(": ");
                s.append(cause.as_str());
                s
            },
            Self::WasmMemoryAlloc { requested } => {
                let mut s = owned("E703: WASM memory allocation failed: requested ");
                s.append(u64_text(*requested).as_str());
                s.append(" bytes");
                s
            },
            Self::WasmHostFunction { function, cause } => {
                let mut s = owned("E704: WASM host function '");
                s.append(function.as_str());
                s.append("' failed: ");
                s.append(cause.as_str());
                s
            },
            Self::YamlParse { path, cause } => {
                let mut s = owned("E801: Failed to parse YAML at ");
                s.append(path.as_str());
                s.append(": ");
                s.append(cause.as_str());
                s
            },
            Self::ConfigValue { field, cause } => {
                let mut s = owned("E802: Invalid configuration '");
                s.append(field.as_str());
                s.append("': ");
                s.append(cause.as_str());
                s
            },
            Self::SchemaValidation { schema, cause } => {
                let mut s = owned("E803: Schema validation failed for '");
                s.append(schema.as_str());
                s.append("': ");
                s.append(cause.as_str());
                s
            },
            Self::Serialization(detail) => {
                let mut s = owned("E804: Serialization error: ");
                s.append(detail.as_str());
                s
            },
            Self::Io { path, cause } => {
                let mut s = owned("E901: I/O error at ");
                s.append(path.as_str());
                s.append(": ");
                s.append(cause.as_str());
                s
            },
            Self::Network { cause } => {
                let mut s = owned("E902: Network error: ");
                s.append(cause.as_str());
                s
            },
            Self::AuthenticationFailed { cause } => {
                let mut s = owned("E1001: Authentication failed: ");
                s.append(cause.as_str());
                s
            },
            Self::AuthorizationDenied { identity, required_scope, cause } => {
                let mut s = owned("E1002: Authorization denied for '");
                s.append(identity.as_str());
                s.append("': required scope '");
                s.append(required_scope.as_str());
                s.append("' - ");
                s.append(cause.as_str());
                s
            },
            Self::HookNotFound { hook_id } => {
                let mut s = owned("E1101: Hook '");
                s.append(hook_id.as_str());
                s.append("' not found");
                s
            },
            Self::SuspensionFailed { trace_id, cause } => {
                let mut s = owned("E1102: Suspension failed for trace ");
                s.append(trace_id.to_text().as_str());
                s.append(": ");
                s.append(cause.as_str());
                s
            },
            Self::CompactionFailed { cause } => {
                let mut s = owned("E1201: Arena compaction failed: ");
                s.append(cause.as_str());
                s
            },
            Self::SnapshotCreation { cause } => {
                let mut s = owned("E1301: WAL snapshot creation failed: ");
                s.append(cause.as_str());
                s
            },
            Self::SnapshotLoad { cause } => {
                let mut s = owned("E1302: WAL snapshot load failed: ");
                s.append(cause.as_str());
                s
            },
        }
    }

    /// Check if this error is retriable.
    pub fn is_retriable(&self) -> (r: bool)
        ensures
            r == is_retriable_error(*self),
    {
        matches!(self, Self::ArenaWrite { .. } | Self::NodeTimeout { .. } | Self::WalWrite { .. } | Self::Network { .. })
    }

    /// Check if this error is a configuration/validation error.
    pub fn is_config_error(&self) -> (r: bool)
        ensures
            r == is_config_variant(*self),
    {
        matches!(self, Self::SelectorResolution { .. } | Self::NonDeterministicLayout { .. } | Self::SelectorSyntax { .. } | Self::SelectorTargetNotFound { .. } | Self::SelectorTypeMismatch { .. } | Self::SchemaVersionNotFound { .. } | Self::BreakingSchemaChange { .. } | Self::InvalidTopology { .. } | Self::UncontrolledCycle { .. } | Self::InvalidPort { .. } | Self::MissingEdge { .. } | Self::YamlParse { .. } | Self::ConfigValue { .. } | Self::SchemaValidation { .. })
    }

    /// Check if this error is a schema evolution error.
    pub fn is_schema_error(&self) -> (r: bool)
        ensures
            r == is_schema_variant(*self),
    {
        matches!(self, Self::SchemaVersionNotFound { .. } | Self::SchemaIncompatible { .. } | Self::MigrationFailed { .. } | Self::BreakingSchemaChange { .. } | Self::MigrationPathTooLong { .. } | Self::SchemaValidation { .. })
    }
}

/// Adds trace or node context to a failure whose cause is already text.
pub trait ResultExt<T>: Sized {
    /// Turn a failure into a node execution error of the given trace (node 0).
    fn with_trace(self, trace_id: TraceId) -> Result<T, XervError>;

    /// Turn a failure into a configuration error of the given node.
    fn with_node(self, node_id: NodeId) -> Result<T, XervError>;
}

impl<T> ResultExt<T> for Result<T, String> {
    fn with_trace(self, trace_id: TraceId) -> (r: Result<T, XervError>)
        ensures
            r == (match self {
                Ok(v) => Ok(v),
                Err(cause) => Err(XervError::NodeExecution { node_id: NodeId { value: 0 }, trace_id, cause }),
            }),
    {
        match self {
            Ok(v) => Ok(v),
            Err(cause) => Err(XervError::NodeExecution { node_id: NodeId::new(0), trace_id, cause }),
        }
    }

    fn with_node(self, node_id: NodeId) -> (r: Result<T, XervError>)
        ensures
            r == (match self {
                Ok(v) => Ok(v),
                Err(cause) => Err(XervError::NodeConfig { node_id, cause }),
            }),
    {
        match self {
            Ok(v) => Ok(v),
            Err(cause) => Err(XervError::NodeConfig { node_id, cause }),
        }
    }
}

} // verus!
