//! A Trojan-protocol proxy node driven by an external management panel.
//!
//! The library holds the node's logic: the Trojan wire codec, credential
//! derivation, the user directory, the traffic aggregator and the
//! per-connection decisions. The surrounding I/O (sockets, TLS, HTTP)
//! lives outside and hands the library plain values.

pub mod config;
pub mod error;
pub mod panel;
pub mod parser;
pub mod relay;
pub mod render;
pub mod traffic;
pub mod trojan;
pub mod user;
