use vstd::prelude::*;

verus! {

/// Settings of the execution-runtime boundary.
#[derive(Debug, Clone, PartialEq, Eq)]
pub struct GhostPlaneConfig {
    /// The runtime's network identifier.
    pub network_id: u64,
    /// Its RPC endpoint.
    pub rpc_endpoint: String,
    /// Most transactions handed over at once.
    pub max_batch_size: u32,
    /// How long a settlement call may take, in milliseconds.
    pub settlement_timeout_ms: u64,
    /// Whether the runtime executes optimistically.
    pub enable_optimistic_execution: bool,
    /// Whether the runtime produces attestations.
    pub zk_proof_generation: bool,
    /// The runtime's memory budget, in megabytes.
    pub memory_limit_mb: u64,
}

impl Default for GhostPlaneConfig {
    /// The stock boundary: the rollup network id, a local endpoint,
    /// thousand-transaction batches.
    fn default() -> (r: GhostPlaneConfig)
        ensures
            r.network_id == 10000,
            r.max_batch_size == 1000,
            r.settlement_timeout_ms == 30000,
            r.enable_optimistic_execution,
            r.zk_proof_generation,
            r.memory_limit_mb == 1024,
    {
        GhostPlaneConfig {
            network_id: 10000,
            rpc_endpoint: String::from_str("http://localhost:9090"),
            max_batch_size: 1000,
            settlement_timeout_ms: 30000,
            enable_optimistic_execution: true,
            zk_proof_generation: true,
            memory_limit_mb: 1024,
        }
    }
}

/// What the execution runtime reports for one batch.
#[derive(Debug, Clone, Copy, PartialEq, Eq)]
pub struct BatchResult {
    /// Digest of the batch.
    pub batch_hash: [u8; 32],
    /// The root the runtime computed.
    pub state_root: [u8; 32],
    /// Transactions executed.
    pub transaction_count: u32,
    /// Gas consumed.
    pub gas_used: u64,
    /// Whether execution succeeded.
    pub success: bool,
}

/// A transaction receipt in the boundary's fixed layout.
#[derive(Debug, Clone, Copy, PartialEq, Eq)]
pub struct FfiTransactionReceipt {
    /// Digest of the transaction.
    pub tx_hash: [u8; 32],
    /// The block it landed in.
    pub block_number: u64,
    /// That block's digest.
    pub block_hash: [u8; 32],
    /// Its position in the block.
    pub tx_index: u32,
    /// Gas consumed.
    pub gas_used: u64,
    /// Whether it succeeded.
    pub success: bool,
}

impl Default for FfiTransactionReceipt {
    /// An all-zero receipt.
    fn default() -> (r: FfiTransactionReceipt)
        ensures
            r.block_number == 0,
            r.tx_index == 0,
            r.gas_used == 0,
            !r.success,
    {
        FfiTransactionReceipt {
            tx_hash: [0u8; 32],
            block_number: 0,
            block_hash: [0u8; 32],
            tx_index: 0,
            gas_used: 0,
            success: false,
        }
    }
}

/// A batch result in the boundary's fixed layout.
#[derive(Debug, Clone, Copy, PartialEq, Eq)]
pub struct FfiBatchResult {
    /// Digest of the batch.
    pub batch_hash: [u8; 32],
    /// The root the runtime computed.
    pub state_root: [u8; 32],
    /// Transactions executed.
    pub tx_count: u32,
    /// Gas consumed.
    pub total_gas_used: u64,
    /// Whether execution succeeded.
    pub success: bool,
}

impl Default for FfiBatchResult {
    /// An all-zero result.
    fn default() -> (r: FfiBatchResult)
        ensures
            r.tx_count == 0,
            r.total_gas_used == 0,
            !r.success,
    {
        FfiBatchResult {
            batch_hash: [0u8; 32],
            state_root: [0u8; 32],
            tx_count: 0,
            total_gas_used: 0,
            success: false,
        }
    }
}

} // verus!
