use vstd::prelude::*;

verus! {

/// The record kinds a name query can ask for.
#[derive(Debug, Clone, Copy, PartialEq, Eq, Structural)]
pub enum QueryType {
    /// An IPv4 address record.
    A,
    /// An IPv6 address record.
    AAAA,
    /// An alias record.
    CNAME,
    /// A mail exchanger record.
    MX,
    /// A text record.
    TXT,
    /// A name-server record.
    NS,
    /// A start-of-authority record.
    SOA,
}

impl QueryType {
    /// The wire code of the record kind.
    pub fn code(&self) -> (r: u16)
        ensures
            r == match *self {
                QueryType::A => 1u16,
                QueryType::AAAA => 28u16,
                QueryType::CNAME => 5u16,
                QueryType::MX => 15u16,
                QueryType::TXT => 16u16,
                QueryType::NS => 2u16,
                QueryType::SOA => 6u16,
            },
    {
        match self {
            QueryType::A => 1,
            QueryType::AAAA => 28,
            QueryType::CNAME => 5,
            QueryType::MX => 15,
            QueryType::TXT => 16,
            QueryType::NS => 2,
            QueryType::SOA => 6,
        }
    }
}

/// Tuning of the connection pool.
#[derive(Debug, Clone, Copy, PartialEq, Eq, Structural)]
pub struct PoolConfig {
    /// Connections kept per endpoint.
    pub max_connections_per_endpoint: usize,
    /// Idle time before a connection is dropped, in milliseconds.
    pub connection_idle_timeout_ms: u64,
    /// Pause between cleanup sweeps, in milliseconds.
    pub cleanup_interval_ms: u64,
    /// Whether streams share connections.
    pub enable_multiplexing: bool,
    /// Pause between health probes, in milliseconds.
    pub health_check_interval_ms: u64,
    /// Retries before a dial is abandoned.
    pub max_retries: u32,
}

impl Default for PoolConfig {
    /// The stock pool: fifty connections per endpoint, multiplexing on.
    fn default() -> (r: PoolConfig)
        ensures
            r.max_connections_per_endpoint == 50,
            r.connection_idle_timeout_ms == 300000,
            r.cleanup_interval_ms == 60000,
            r.enable_multiplexing,
            r.health_check_interval_ms == 30000,
            r.max_retries == 3,
    {
        PoolConfig {
            max_connections_per_endpoint: 50,
            connection_idle_timeout_ms: 300000,
            cleanup_interval_ms: 60000,
            enable_multiplexing: true,
            health_check_interval_ms: 30000,
            max_retries: 3,
        }
    }
}

/// Counts over the connection pool.
#[derive(Debug, Clone, Copy, PartialEq, Eq, Structural)]
pub struct PoolStats {
    /// Connections held.
    pub total_connections: usize,
    /// Connections answering probes.
    pub healthy_connections: usize,
    /// Endpoints with at least one connection.
    pub endpoint_count: usize,
    /// The per-endpoint cap in force.
    pub max_connections_per_endpoint: usize,
}

} // verus!
