//! The decisions of an L1 RPC proxy that detects cross-chain calls.
//!
//! The proxy sits in front of the L1 RPC and forwards requests as they came. It intercepts
//! `eth_sendRawTransaction`: a transaction that calls a cross-chain proxy is queued for the builder
//! together with the entries it needs, and answered with its hash. Everything here is computed from
//! values alone; sockets, HTTP requests and the clock are left to the caller, who performs the
//! actions that these modules decide on and tells them what happened.

pub mod detection;
pub mod discovery;
pub mod exchange;
pub mod hex;
pub mod json;
pub mod server;
pub mod text;
pub mod transaction;
pub mod wait;
