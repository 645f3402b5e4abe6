//! DHT records of shard announcements.
use vstd::prelude::*;
use crate::dht_keys::{shard_key, shard_key_spec};
use crate::kademlia_shard_discovery::KademliaShardDiscovery;

verus! {

#[verifier::external_type_specification]
#[verifier::external_body]
pub struct ExKadRecord(libp2p::kad::Record);

#[verifier::external_type_specification]
#[verifier::external_body]
pub struct ExKadRecordKey(libp2p::kad::RecordKey);

/// The record that `kad::Record::new` builds from a key (given by its
/// characters, stored as their UTF-8 bytes) and a value.
pub uninterp spec fn kad_record(key: Seq<char>, value: Seq<u8>) -> libp2p::kad::Record;

/// The record key that `kad::RecordKey::new` builds from a string (given by
/// its characters, stored as their UTF-8 bytes).
pub uninterp spec fn kad_record_key(key: Seq<char>) -> libp2p::kad::RecordKey;

/// Builds a DHT record.
///
/// Trusted: calls `libp2p::kad::Record::new` with the key's UTF-8 bytes and
/// the value. Its source sets the record's key to those bytes, its value to
/// `value`, and leaves publisher and expiry unset; the contract names that
/// result as a function of the key and the value.
#[verifier::external_body]
fn new_kad_record(key: &str, value: Vec<u8>) -> (r: libp2p::kad::Record)
    ensures
        r == kad_record(key@, value@),
{
    libp2p::kad::Record::new(key.as_bytes().to_vec(), value)
}

/// Builds a DHT record key.
///
/// Trusted: calls `libp2p::kad::RecordKey::new`, whose source copies the
/// bytes of the given string; the contract names that result as a function
/// of the string.
#[verifier::external_body]
fn new_kad_record_key(key: &str) -> (r: libp2p::kad::RecordKey)
    ensures
        r == kad_record_key(key@),
{
    libp2p::kad::RecordKey::new(&key)
}

impl KademliaShardDiscovery {
    /// The DHT record that announces shard `shard_id`: keyed by the shard's
    /// key in this cluster, holding the serialized announcement `value`.
    pub fn create_announcement_record(&self, shard_id: u32, value: Vec<u8>) -> (r:
        libp2p::kad::Record)
        ensures
            r == kad_record(shard_key_spec(self.spec_cluster_name(), shard_id), value@),
    {
        let key = shard_key(self.cluster_name(), shard_id);
        new_kad_record(key.as_str(), value)
    }

    /// The DHT key under which shard `shard_id` of this cluster is stored.
    pub fn shard_record_key(&self, shard_id: u32) -> (r: libp2p::kad::RecordKey)
        ensures
            r == kad_record_key(shard_key_spec(self.spec_cluster_name(), shard_id)),
    {
        let key = shard_key(self.cluster_name(), shard_id);
        new_kad_record_key(key.as_str())
    }
}

} // verus!
