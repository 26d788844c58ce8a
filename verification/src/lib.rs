//! Lynx: the wire protocol, the per-user rate limiter and the message-routing
//! rules of a room-based TCP chat server, with their contracts.
//!
//! - `protocol`: messages, responses and their length-prefixed frames;
//! - `rate_limiter`: the token bucket that limits each user;
//! - `clients` and `server`: the registry of users and what each message does;
//! - `config` and `metrics`: defaults, addresses, metric tables, readiness;
//! - `load`: the traffic model of the load tester.

pub mod clients;
pub mod codec;
pub mod config;
pub mod draw;
pub mod load;
pub mod metrics;
pub mod protocol;
pub mod rate_limiter;
pub mod server;
pub mod text;
pub mod wire;

pub use config::Config;
pub use metrics::HealthState;
pub use protocol::{
    decode_frame, decode_response, encode_frame, encode_response, try_extract_frame,
    try_extract_response, Message, Response,
};
