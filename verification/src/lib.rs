//! A peer-to-peer inference network library: the command protocol and its
//! validation, shard discovery and pipeline ordering, coordination decisions,
//! QUIC diagnostics bookkeeping and protocol logging.
use vstd::prelude::*;

pub mod text;
pub mod keyed;
pub mod dht_keys;
pub mod command_protocol;
pub mod command_validation;
pub mod kademlia_shard_discovery;
pub mod protocol_logging;
pub mod quic_diagnostics;
pub mod pipeline_coordinator;
pub mod torrent;
pub mod shard_node;
pub mod shard_loader;
pub mod ai_inference_handler;
pub mod message;
pub mod llama_inference;
pub mod llama_cpp_backend;
pub mod web_server;
pub mod bootstrap;
pub mod network_monitor;
pub mod peer_listener;
pub mod coordinator_node;
pub mod web_console;
pub mod status_report;
pub mod peer_dialer;

verus! {
} // verus!
