//! The data path of a local Shadowsocks relay, without the sockets.
//!
//! A connection to a target either bypasses the tunnel or goes through an
//! upstream server. On the way through the server the bytes are framed and
//! encrypted by one of three cipher families. This library holds the state
//! of such connections and decides every step; reading and writing sockets,
//! and waiting for them, is left to the caller, who reports what the sockets
//! did and is told what to do next.

pub mod address;
pub mod aead;
pub mod auto_proxy_stream;
pub mod buf;
pub mod config;
pub mod context;
pub mod crypto;
pub mod crypto_io;
pub mod dns;
pub mod encoding;
pub mod error;
pub mod flow;
pub mod laws;
pub mod loadbalancing;
pub mod model;
pub mod pipe;
pub mod plain;
pub mod primitives;
pub mod proxy_stream;
pub mod queue;
pub mod record;
pub mod relay;
pub mod service;
pub mod stream;
pub mod tunnel;
