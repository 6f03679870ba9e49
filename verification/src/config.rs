//! The configuration of the indexer.

use vstd::prelude::*;

verus! {

/// The whole configuration.
pub struct Config {
    pub chain: ChainConfig,
    pub node: NodeConfig,
    pub parsing: ParserConfig,
    pub database: DBConfig,
    pub logging: LogginConfig,
}

/// The modules to run.
pub struct ChainConfig {
    pub modules: Vec<String>,
}

/// How to reach the node.
pub struct NodeConfig {
    pub config: NodeDetail,
}

/// The node's endpoints.
pub struct NodeDetail {
    pub rpc: RPCConfig,
}

/// The node's RPC endpoint.
pub struct RPCConfig {
    pub client_name: String,
    pub address: String,
    pub max_connections: i64,
}

/// What to parse and with how many workers.
pub struct ParserConfig {
    pub workers: i64,
    pub genesis_file_path: Option<String>,
    pub start_height: u64,
    pub listen_new_blocks: bool,
    pub parse_old_blocks: bool,
    pub parse_genesis: bool,
}

/// How to reach the relational store.
pub struct DBConfig {
    pub url: String,
    pub max_open_connections: u32,
}

/// How to log.
pub struct LogginConfig {
    pub level: String,
    pub format: String,
}

impl ParserConfig {
    /// The number of workers to start: the configured number, none when it
    /// is negative.
    pub open spec fn spec_worker_count(&self) -> int {
        if self.workers <= 0 {
            0
        } else if self.workers > usize::MAX {
            usize::MAX as int
        } else {
            self.workers as int
        }
    }

    /// The number of workers to start.
    pub fn worker_count(&self) -> (n: usize)
        ensures
            n == self.spec_worker_count(),
    {
        if self.workers <= 0 {
            0
        } else if self.workers as u64 > usize::MAX as u64 {
            usize::MAX
        } else {
            self.workers as usize
        }
    }
}

} // verus!
