//! Server configuration and its defaults.
//!
//! Configuration is loaded in order of precedence: command-line arguments,
//! environment variables (`LYNX_*`), a config file (`config.toml`), and
//! finally the defaults below.

use crate::rate_limiter::RefillRate;
use crate::text::{decimal, u64_to_decimal};
use vstd::prelude::*;
use vstd::string::*;

verus! {

/// Server configuration.
///
/// | Variable | Default | Description |
/// |----------|---------|-------------|
/// | `LYNX_HOST` | `127.0.0.1` | Bind address |
/// | `LYNX_PORT` | `6006` | TCP port |
/// | `LYNX_MAXCONNECTIONS` | `1000` | Max concurrent clients |
/// | `LYNX_LOGLEVEL` | `info` | Log level (trace/debug/info/warn/error) |
/// | `LYNX_METRICSHOST` | `127.0.0.1` | Metrics server bind address |
/// | `LYNX_METRICSPORT` | `9090` | Metrics server port |
/// | `LYNX_SLOW_CLIENT_THRESHOLD` | `50` | Dropped messages before disconnect |
/// | `LYNX_RATE_LIMIT_PER_SECOND` | `10.0` | Messages per second limit |
/// | `LYNX_RATE_LIMIT_BURST` | `20` | Burst capacity for rate limiter |
#[derive(Debug, Clone)]
pub struct Config {
    /// TCP bind address (e.g., "0.0.0.0" for all interfaces).
    pub host: String,
    /// TCP port for client connections.
    pub port: u16,
    /// Maximum concurrent client connections.
    pub maxconnections: usize,
    /// Log level: trace, debug, info, warn, error.
    pub loglevel: String,
    /// Metrics HTTP server bind address.
    pub metricshost: String,
    /// Metrics HTTP server port (serves /metrics, /health, /ready).
    pub metricsport: u16,
    /// Number of dropped messages before disconnecting a slow client.
    pub slow_client_threshold: usize,
    /// Token bucket refill rate.
    pub rate_limit_per_second: RefillRate,
    /// Token bucket burst capacity (max messages in burst).
    pub rate_limit_burst: usize,
}

pub fn default_host() -> (s: String)
    ensures
        s@ == "127.0.0.1"@,
{
    String::from_str("127.0.0.1")
}

pub fn default_port() -> (p: u16)
    ensures
        p == 6006,
{
    6006
}

pub fn default_maxconnections() -> (n: usize)
    ensures
        n == 1000,
{
    1000
}

pub fn default_loglevel() -> (s: String)
    ensures
        s@ == "info"@,
{
    String::from_str("info")
}

pub fn default_metricshost() -> (s: String)
    ensures
        s@ == "127.0.0.1"@,
{
    String::from_str("127.0.0.1")
}

pub fn default_metricsport() -> (p: u16)
    ensures
        p == 9090,
{
    9090
}

pub fn default_slow_client_threshold() -> (n: usize)
    ensures
        n == 50,
{
    50
}

/// Ten tokens a second.
pub fn default_rate_limit_per_second() -> (r: RefillRate)
    ensures
        r.milli_tokens_per_second == 10_000,
{
    RefillRate::per_second(10)
}

pub fn default_rate_limit_burst() -> (n: usize)
    ensures
        n == 20,
{
    20
}

/// Whether `c` holds the default configuration.
pub open spec fn is_default(c: Config) -> bool {
    &&& c.host@ == "127.0.0.1"@
    &&& c.port == 6006
    &&& c.maxconnections == 1000
    &&& c.loglevel@ == "info"@
    &&& c.metricshost@ == "127.0.0.1"@
    &&& c.metricsport == 9090
    &&& c.slow_client_threshold == 50
    &&& c.rate_limit_per_second.milli_tokens_per_second == 10_000
    &&& c.rate_limit_burst == 20
}

impl Default for Config {
    fn default() -> (c: Config)
        ensures
            is_default(c),
    {
        Config {
            host: default_host(),
            port: default_port(),
            maxconnections: default_maxconnections(),
            loglevel: default_loglevel(),
            metricshost: default_metricshost(),
            metricsport: default_metricsport(),
            slow_client_threshold: default_slow_client_threshold(),
            rate_limit_per_second: default_rate_limit_per_second(),
            rate_limit_burst: default_rate_limit_burst(),
        }
    }
}

/// `"host:port"`.
pub open spec fn host_port(host: Seq<char>, port: u16) -> Seq<char> {
    host + ":"@ + decimal(port as nat)
}

fn join_host_port(host: &String, port: u16) -> (s: String)
    ensures
        s@ == host_port(host@, port),
{
    let mut s = host.clone();
    s.append(":");
    let digits = u64_to_decimal(port as u64);
    s.append(digits.as_str());
    s
}

impl Config {
    /// The server socket address as `"host:port"`.
    pub fn address(&self) -> (a: String)
        ensures
            a@ == host_port(self.host@, self.port),
    {
        join_host_port(&self.host, self.port)
    }

    /// The metrics server address as `"metricshost:metricsport"`.
    pub fn metrics_address(&self) -> (a: String)
        ensures
            a@ == host_port(self.metricshost@, self.metricsport),
    {
        join_host_port(&self.metricshost, self.metricsport)
    }
}

} // verus!
