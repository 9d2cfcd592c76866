//! Raft-based dispatch configuration.
use vstd::prelude::*;
use crate::text::owned;

verus! {

/// A Raft peer in the cluster.
#[derive(Debug, Clone)]
pub struct RaftPeer {
    /// Peer's node ID.
    pub node_id: u64,
    /// Peer's address (host:port).
    pub address: String,
}

impl RaftPeer {
    /// Create a new peer.
    pub fn new(node_id: u64, address: &str) -> (r: Self)
        ensures
            r.node_id == node_id,
            r.address@ == address@,
    {
        RaftPeer { node_id, address: owned(address) }
    }
}

/// Configuration for Raft-based dispatch.
#[derive(Debug, Clone)]
pub struct RaftConfig {
    /// This node's ID in the cluster.
    pub node_id: u64,
    /// Address to listen for Raft RPC.
    pub listen_addr: String,
    /// Peers of this node.
    pub peers: Vec<RaftPeer>,
    /// Data directory for Raft log persistence.
    pub data_dir: String,
    /// Election timeout in milliseconds.
    pub election_timeout_ms: u64,
    /// Heartbeat interval in milliseconds.
    pub heartbeat_interval_ms: u64,
    /// Maximum entries per append request.
    pub max_entries_per_request: u64,
    /// Snapshot interval (number of log entries).
    pub snapshot_interval: u64,
}

/// The defaults of a Raft config, but for its node ID.
pub open spec fn raft_defaults_but_node(c: RaftConfig) -> bool {
    &&& c.listen_addr@ == "127.0.0.1:5000"@
    &&& c.peers@.len() == 0
    &&& c.data_dir@ == "/var/lib/xerv/raft"@
    &&& c.election_timeout_ms == 1000
    &&& c.heartbeat_interval_ms == 100
    &&& c.max_entries_per_request == 64
    &&& c.snapshot_interval == 10_000
}

/// `a` and `b` agree on every field but those a builder step sets.
pub open spec fn raft_same_except(a: RaftConfig, b: RaftConfig, node: bool, listen: bool, peers: bool, dir: bool, election: bool, heartbeat: bool) -> bool {
    &&& (node || a.node_id == b.node_id)
    &&& (listen || a.listen_addr == b.listen_addr)
    &&& (peers || a.peers == b.peers)
    &&& (dir || a.data_dir == b.data_dir)
    &&& (election || a.election_timeout_ms == b.election_timeout_ms)
    &&& (heartbeat || a.heartbeat_interval_ms == b.heartbeat_interval_ms)
    &&& a.max_entries_per_request == b.max_entries_per_request
    &&& a.snapshot_interval == b.snapshot_interval
}

impl Default for RaftConfig {
    /// Node 1 on `127.0.0.1:5000`, with no peers.
    fn default() -> (r: Self)
        ensures
            r.node_id == 1,
            raft_defaults_but_node(r),
    {
        RaftConfig::new(1)
    }
}

impl RaftConfig {
    /// A Raft config with the given node ID and default settings.
    pub fn new(node_id: u64) -> (r: Self)
        ensures
            r.node_id == node_id,
            raft_defaults_but_node(r),
    {
        RaftConfig {
            node_id,
            listen_addr: owned("127.0.0.1:5000"),
            peers: Vec::new(),
            data_dir: owned("/var/lib/xerv/raft"),
            election_timeout_ms: 1000,
            heartbeat_interval_ms: 100,
            max_entries_per_request: 64,
            snapshot_interval: 10_000,
        }
    }

    /// A builder starting from the default config.
    pub fn builder() -> (r: RaftConfigBuilder)
        ensures
            r.spec_config().node_id == 1,
            raft_defaults_but_node(r.spec_config()),
    {
        RaftConfigBuilder { config: RaftConfig::new(1) }
    }
}

/// Builder for a Raft config.
pub struct RaftConfigBuilder {
    config: RaftConfig,
}

impl Default for RaftConfigBuilder {
    /// A builder starting from the default config.
    fn default() -> (r: Self)
        ensures
            r.spec_config().node_id == 1,
            raft_defaults_but_node(r.spec_config()),
    {
        RaftConfig::builder()
    }
}

impl RaftConfigBuilder {
    /// The config built so far.
    pub closed spec fn spec_config(&self) -> RaftConfig {
        self.config
    }

    /// Set the node ID.
    pub fn node_id(self, id: u64) -> (r: Self)
        ensures
            r.spec_config().node_id == id,
            raft_same_except(r.spec_config(), self.spec_config(), true, false, false, false, false, false),
    {
        RaftConfigBuilder { config: RaftConfig { node_id: id, ..self.config } }
    }

    /// Set the listen address.
    pub fn listen_addr(self, addr: &str) -> (r: Self)
        ensures
            r.spec_config().listen_addr@ == addr@,
            raft_same_except(r.spec_config(), self.spec_config(), false, true, false, false, false, false),
    {
        RaftConfigBuilder { config: RaftConfig { listen_addr: owned(addr), ..self.config } }
    }

    /// Add a peer after those added before.
    pub fn peer(self, node_id: u64, address: &str) -> (r: Self)
        ensures
            r.spec_config().peers@.len() == self.spec_config().peers@.len() + 1,
            r.spec_config().peers@.drop_last() == self.spec_config().peers@,
            r.spec_config().peers@.last().node_id == node_id,
            r.spec_config().peers@.last().address@ == address@,
            raft_same_except(r.spec_config(), self.spec_config(), false, false, true, false, false, false),
    {
        let mut config = self.config;
        config.peers.push(RaftPeer::new(node_id, address));
        assert(config.peers@.drop_last() =~= self.config.peers@);
        RaftConfigBuilder { config }
    }

    /// Set the peers, replacing those added before.
    pub fn peers(self, peers: Vec<(u64, String)>) -> (r: Self)
        ensures
            r.spec_config().peers@.len() == peers@.len(),
            forall|i: int| 0 <= i < peers@.len() ==> (#[trigger] r.spec_config().peers@[i]).node_id == peers@[i].0
                && r.spec_config().peers@[i].address@ == peers@[i].1@,
            raft_same_except(r.spec_config(), self.spec_config(), false, false, true, false, false, false),
    {
        let mut list: Vec<RaftPeer> = Vec::new();
        let mut i: usize = 0;
        while i < peers.len()
            invariant
                i <= peers@.len(),
                list@.len() == i,
                forall|k: int| 0 <= k < i ==> (#[trigger] list@[k]).node_id == peers@[k].0 && list@[k].address@ == peers@[k].1@,
            decreases peers@.len() - i,
        {
            list.push(RaftPeer::new(peers[i].0, peers[i].1.as_str()));
            i = i + 1;
        }
        RaftConfigBuilder { config: RaftConfig { peers: list, ..self.config } }
    }

    /// Set the data directory.
    pub fn data_dir(self, dir: &str) -> (r: Self)
        ensures
            r.spec_config().data_dir@ == dir@,
            raft_same_except(r.spec_config(), self.spec_config(), false, false, false, true, false, false),
    {
        RaftConfigBuilder { config: RaftConfig { data_dir: owned(dir), ..self.config } }
    }

    /// Set the election timeout in milliseconds.
    pub fn election_timeout_ms(self, ms: u64) -> (r: Self)
        ensures
            r.spec_config().election_timeout_ms == ms,
            raft_same_except(r.spec_config(), self.spec_config(), false, false, false, false, true, false),
    {
        RaftConfigBuilder { config: RaftConfig { election_timeout_ms: ms, ..self.config } }
    }

    /// Set the heartbeat interval in milliseconds.
    pub fn heartbeat_interval_ms(self, ms: u64) -> (r: Self)
        ensures
            r.spec_config().heartbeat_interval_ms == ms,
            raft_same_except(r.spec_config(), self.spec_config(), false, false, false, false, false, true),
    {
        RaftConfigBuilder { config: RaftConfig { heartbeat_interval_ms: ms, ..self.config } }
    }

    /// The config built.
    pub fn build(self) -> (r: RaftConfig)
        ensures
            r == self.spec_config(),
    {
        self.config
    }
}

} // verus!
