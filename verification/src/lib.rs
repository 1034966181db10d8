//! Verified core logic of a programmable sandbox runtime: network policy
//! evaluation, request rewriting, command-line parsing, wire framing and the
//! decisions of the daemon and the guest agent.

pub mod text;
pub mod sandbox;
pub mod domain;
pub mod string_map;
pub mod numbers;
pub mod error;
pub mod network;
pub mod credential;
pub mod policy;
pub mod firewall;
pub mod proxy;
pub mod cli;
pub mod args;
pub mod table;
pub mod time;
pub mod storage;
pub mod transport;
pub mod agent;
pub mod registry;
pub mod sdk;
pub mod dto;
pub mod tls;
pub mod redirect;
pub mod laws;
