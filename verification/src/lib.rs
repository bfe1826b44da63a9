//! A verified core for an Ethereum JSON-RPC replay and state-tracking tool.
//!
//! The library covers the wire-level logic of the tool: hex and decimal
//! codecs, JSON-RPC request construction and response classification, RLP
//! re-encoding of fetched transactions, the replay session state machine
//! with its precondition and failure-tolerance policy, and the state
//! tracking engine with its change-list invariants and output formats.
//! Network transport, signal handling and file writes live outside the
//! library and drive it through plain values.

pub mod error;
pub mod format;
pub mod jsonrpc;
pub mod output;
pub mod rlp;
pub mod rpc;
pub mod reader;
pub mod replay;
pub mod tracker;
pub mod types;
pub mod time;
