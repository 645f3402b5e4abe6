//! The message that carries JSON text between peers.
use vstd::prelude::*;
use vstd::string::*;
use crate::command_protocol::{now_millis, now_secs};

verus! {

/// A JSON message between peers: who sent it, its text, and when.
#[derive(Debug)]
pub struct JsonMessage {
    pub from: String,
    pub message: String,
    /// Seconds since the epoch
    pub timestamp: u64,
    /// Milliseconds since the epoch, for latency tracking
    pub send_time_ms: Option<u64>,
}

impl JsonMessage {
    /// A message stamped with the given clock readings.
    pub fn new_at(from: String, message: String, now_secs: u64, now_millis: u64) -> (r: JsonMessage)
        ensures
            r == (JsonMessage { from, message, timestamp: now_secs, send_time_ms: Some(now_millis) }),
    {
        JsonMessage { from, message, timestamp: now_secs, send_time_ms: Some(now_millis) }
    }

    /// A message stamped with the current time.
    pub fn new(from: String, message: String) -> (r: JsonMessage)
        ensures
            r.from == from,
            r.message == message,
            r.send_time_ms is Some,
    {
        let secs = now_secs();
        let millis = now_millis();
        JsonMessage::new_at(from, message, secs, millis)
    }
}

} // verus!
