//! Configuration of the bot: RPC endpoints, wallet, nonce pool, sniffer
//! stream and monitoring, with the defaults that a configuration file may
//! leave out.

use vstd::prelude::*;

verus! {

/// RPC endpoints and how they are called.
#[derive(Debug, Clone)]
pub struct RpcConfig {
    /// List of RPC endpoints
    pub endpoints: Vec<String>,
    /// Request timeout in seconds
    pub timeout_secs: u64,
    /// Max retries per request
    pub max_retries: u32,
    /// Rate limit (requests per second)
    pub rate_limit_rps: u32,
}

/// The signing wallet.
#[derive(Debug, Clone)]
pub struct WalletConfig {
    /// Path to keypair file
    pub keypair_path: String,
    /// Enable hardware wallet
    pub use_hardware_wallet: bool,
}

/// The pool of durable nonce accounts.
#[derive(Debug, Clone, Copy)]
pub struct NonceConfig {
    /// Number of nonce accounts to maintain
    pub pool_size: usize,
    /// Nonce refresh interval in seconds
    pub refresh_interval_secs: u64,
}

/// The transaction stream that the sniffer reads.
#[derive(Debug, Clone)]
pub struct SnifferConfig {
    /// Geyser gRPC endpoint
    pub geyser_endpoint: String,
    /// Programs to monitor
    pub monitored_programs: Vec<String>,
    /// Buffer size for transaction stream
    pub stream_buffer_size: usize,
}

/// Metrics and tracing.
#[derive(Debug, Clone, Copy)]
pub struct MonitoringConfig {
    /// Enable Prometheus metrics
    pub enable_metrics: bool,
    /// Metrics port
    pub metrics_port: u16,
    /// Enable tracing
    pub enable_tracing: bool,
}

/// Default RPC request timeout: 30 seconds.
pub fn default_rpc_timeout() -> (r: u64)
    ensures
        r == 30,
{
    30
}

/// Default retries per RPC request: 3.
pub fn default_max_retries() -> (r: u32)
    ensures
        r == 3,
{
    3
}

/// Default RPC rate limit: 100 requests per second.
pub fn default_rate_limit() -> (r: u32)
    ensures
        r == 100,
{
    100
}

/// Default slippage tolerance: 500 basis points.
pub fn default_max_slippage() -> (r: u16)
    ensures
        r == 500,
{
    500
}

/// Default minimum liquidity: one SOL, in lamports.
pub fn default_min_liquidity() -> (r: u64)
    ensures
        r == 1_000_000_000,
{
    1_000_000_000
}

/// Default Jito tip: 10 000 lamports.
pub fn default_jito_tip() -> (r: u64)
    ensures
        r == 10_000,
{
    10_000
}

/// Default nonce pool size: 10 accounts.
pub fn default_nonce_pool_size() -> (r: usize)
    ensures
        r == 10,
{
    10
}

/// Default nonce refresh interval: 60 seconds.
pub fn default_nonce_refresh_interval() -> (r: u64)
    ensures
        r == 60,
{
    60
}

/// Default stream buffer: 4096 transactions.
pub fn default_stream_buffer_size() -> (r: usize)
    ensures
        r == 4096,
{
    4096
}

/// Default metrics port: 9090.
pub fn default_metrics_port() -> (r: u16)
    ensures
        r == 9090,
{
    9090
}

/// Default for switches that are on unless turned off.
pub fn default_true() -> (r: bool)
    ensures
        r,
{
    true
}

/// Default nonce accounts per transaction: 1.
pub fn default_nonce_count() -> (r: usize)
    ensures
        r == 1,
{
    1
}

impl RpcConfig {
    /// The default RPC settings: the public mainnet endpoint, with the
    /// default timeout, retries and rate limit.
    pub fn default_mainnet() -> (c: Self)
        ensures
            c.endpoints@.len() == 1,
            c.endpoints@[0]@ == "https://api.mainnet-beta.solana.com"@,
            c.timeout_secs == 30,
            c.max_retries == 3,
            c.rate_limit_rps == 100,
    {
        RpcConfig {
            endpoints: vec![String::from_str("https://api.mainnet-beta.solana.com")],
            timeout_secs: default_rpc_timeout(),
            max_retries: default_max_retries(),
            rate_limit_rps: default_rate_limit(),
        }
    }
}

impl WalletConfig {
    /// The default wallet: the Solana CLI keypair, no hardware wallet.
    pub fn default_keypair() -> (c: Self)
        ensures
            c.keypair_path@ == "~/.config/solana/id.json"@,
            !c.use_hardware_wallet,
    {
        WalletConfig { keypair_path: String::from_str("~/.config/solana/id.json"), use_hardware_wallet: false }
    }
}

impl Default for NonceConfig {
    fn default() -> (c: Self)
        ensures
            c.pool_size == 10,
            c.refresh_interval_secs == 60,
    {
        NonceConfig { pool_size: default_nonce_pool_size(), refresh_interval_secs: default_nonce_refresh_interval() }
    }
}

impl SnifferConfig {
    /// The default stream: a local Geyser endpoint, no monitored programs,
    /// the default buffer.
    pub fn default_local() -> (c: Self)
        ensures
            c.geyser_endpoint@ == "http://localhost:10000"@,
            c.monitored_programs@.len() == 0,
            c.stream_buffer_size == 4096,
    {
        SnifferConfig {
            geyser_endpoint: String::from_str("http://localhost:10000"),
            monitored_programs: Vec::new(),
            stream_buffer_size: default_stream_buffer_size(),
        }
    }
}

impl Default for MonitoringConfig {
    fn default() -> (c: Self)
        ensures
            c.enable_metrics,
            c.metrics_port == 9090,
            c.enable_tracing,
    {
        MonitoringConfig {
            enable_metrics: default_true(),
            metrics_port: default_metrics_port(),
            enable_tracing: default_true(),
        }
    }
}

} // verus!
