use punch_simple::dht_keys;

#[test]
fn test_dht_keys() {
    assert_eq!(dht_keys::cluster_key("llama-8b"), "/llama-cluster/llama-8b");
    assert_eq!(dht_keys::shard_key("llama-8b", 2), "/llama-cluster/llama-8b/shard/2");
    assert_eq!(dht_keys::parse_shard_id("/llama-cluster/test/shard/3"), Some(3));
}

#[test]
fn all_shards_and_metadata_keys() {
    assert_eq!(dht_keys::all_shards_key("llama-8b"), "/llama-cluster/llama-8b/shards");
    assert_eq!(dht_keys::metadata_key("llama-8b"), "/llama-cluster/llama-8b/metadata");
}

#[test]
fn parse_shard_id_rejects_non_numbers() {
    assert_eq!(dht_keys::parse_shard_id("/llama-cluster/test/shard/x"), None);
    assert_eq!(dht_keys::parse_shard_id("/llama-cluster/test/shard/"), None);
    assert_eq!(dht_keys::parse_shard_id("17"), Some(17));
}
