//! Standard command names.
use vstd::prelude::*;

verus! {

pub const GET_CAPABILITIES: &'static str = "GET_CAPABILITIES";
pub const EXECUTE_TASK: &'static str = "EXECUTE_TASK";
pub const GET_REPUTATION: &'static str = "GET_REPUTATION";
pub const UPDATE_REPUTATION: &'static str = "UPDATE_REPUTATION";
pub const FIND_NODES: &'static str = "FIND_NODES";
pub const LIST_FILES: &'static str = "LIST_FILES";
pub const GET_FILE_METADATA: &'static str = "GET_FILE_METADATA";
pub const REQUEST_PIECE: &'static str = "REQUEST_PIECE";
pub const LOAD_SHARD: &'static str = "LOAD_SHARD";
pub const SYNC_TORRENTS: &'static str = "SYNC_TORRENTS";
pub const SWARM_READY: &'static str = "SWARM_READY";
pub const SWARM_STATUS: &'static str = "SWARM_STATUS";
pub const SHARD_LOADED: &'static str = "SHARD_LOADED";

} // verus!
