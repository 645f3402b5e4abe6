use punch_simple::kademlia_shard_discovery::{
    announcement_settings, KademliaShardDiscovery, ShardAnnouncement, ShardCapabilities,
};

const NOW: u64 = 1_000;

fn ann(peer: &str, shard_id: u32, addr: &str, model: &str) -> ShardAnnouncement {
    ShardAnnouncement::new(peer, shard_id, 4, 32, addr, model, ShardCapabilities::default(), NOW)
}

#[test]
fn test_shard_announcement_creation() {
    let a = ann("12D3KooWTest", 0, "/ip4/192.168.1.100/tcp/51820", "llama-8b");
    assert_eq!(a.shard_id, 0);
    assert_eq!(a.layer_start, 0);
    assert_eq!(a.layer_end, 8);
    assert!(a.has_embeddings);
    assert!(!a.has_output);
    assert_eq!(a.total_shards, 4);
}

#[test]
fn test_shard_announcement_last_shard() {
    let a = ann("12D3KooWTest", 3, "/ip4/192.168.1.103/tcp/51820", "llama-8b");
    assert_eq!(a.shard_id, 3);
    assert_eq!(a.layer_start, 24);
    assert_eq!(a.layer_end, 32);
    assert!(!a.has_embeddings);
    assert!(a.has_output);
}

#[test]
fn last_shard_takes_the_remaining_layers() {
    let a = ShardAnnouncement::new("p", 2, 3, 32, "/x", "m", ShardCapabilities::default(), NOW);
    assert_eq!(a.layer_start, 20);
    assert_eq!(a.layer_end, 32);
    assert_eq!(a.num_layers, 12);
    assert_eq!(a.version, 2);
    assert_eq!(a.quantization, "FP16");
}

#[test]
fn test_discovery_pipeline_building() {
    let mut d = KademliaShardDiscovery::with_expected_shards("test-cluster", 4);
    d.add_shard(ann("peer2", 2, "/ip4/10.0.0.2/tcp/51820", "llama"), 0);
    d.add_shard(ann("peer0", 0, "/ip4/10.0.0.0/tcp/51820", "llama"), 0);
    d.add_shard(ann("peer3", 3, "/ip4/10.0.0.3/tcp/51820", "llama"), 0);
    d.add_shard(ann("peer1", 1, "/ip4/10.0.0.1/tcp/51820", "llama"), 0);

    let pipeline = d.get_pipeline(NOW);
    assert_eq!(pipeline.len(), 4);
    assert_eq!(pipeline[0].shard_id, 0);
    assert_eq!(pipeline[1].shard_id, 1);
    assert_eq!(pipeline[2].shard_id, 2);
    assert_eq!(pipeline[3].shard_id, 3);

    assert!(d.entry_node(NOW).unwrap().has_embeddings);
    assert!(d.exit_node(NOW).unwrap().has_output);
    assert!(d.is_pipeline_complete(NOW));
}

#[test]
fn test_discovery_incomplete_pipeline() {
    let mut d = KademliaShardDiscovery::with_expected_shards("test-cluster", 4);
    d.add_shard(ann("peer0", 0, "/ip4/10.0.0.0/tcp/51820", "llama"), 0);
    d.add_shard(ann("peer2", 2, "/ip4/10.0.0.2/tcp/51820", "llama"), 0);
    assert!(!d.is_pipeline_complete(NOW));
    assert_eq!(d.get_missing_shards(NOW), vec![1, 3]);
}

/// The weighted selection score of a node's capabilities (default weights:
/// cpu 0.20, memory 0.15, latency 0.25, reputation 0.25, and 0.10 for
/// free request slots), as the rank the discovery orders replicas by.
fn rank(c: &ShardCapabilities) -> u64 {
    let cpu_usage = f64::from_bits(c.cpu_usage);
    let latency = f64::from_bits(c.latency_ms);
    let reputation = f64::from_bits(c.reputation);
    let cpu_score = (c.cpu_cores as f64 / 16.0).min(1.0) * (1.0 - cpu_usage / 100.0);
    let memory_score = c.memory_available_mb as f64 / c.memory_total_mb.max(1) as f64;
    let load_score = 1.0 - (c.active_requests as f64 / c.max_concurrent.max(1) as f64);
    let latency_score = 1.0 / (1.0 + latency / 100.0);
    let bonus = if c.shard_loaded { 0.1 } else { 0.0 };
    let score = 0.20 * cpu_score + 0.15 * memory_score + 0.25 * latency_score
        + 0.25 * reputation.clamp(0.0, 1.0) + 0.10 * load_score + bonus;
    assert!(score >= 0.0);
    score.to_bits()
}

#[test]
fn test_discovery_multiple_replicas() {
    let mut d = KademliaShardDiscovery::new("test-cluster");
    let mut replica1 = ann("peer0a", 0, "/ip4/10.0.0.1/tcp/51820", "llama");
    replica1.capabilities.cpu_cores = 8;
    replica1.capabilities.reputation = 0.9f64.to_bits();
    let mut replica2 = ann("peer0b", 0, "/ip4/10.0.0.2/tcp/51820", "llama");
    replica2.capabilities.cpu_cores = 16;
    replica2.capabilities.reputation = 0.95f64.to_bits();
    let (rank1, rank2) = (rank(&replica1.capabilities), rank(&replica2.capabilities));
    d.add_shard(replica1, rank1);
    d.add_shard(replica2, rank2);

    assert_eq!(d.shard_count(), 1);
    assert_eq!(d.replica_count(), 2);
    let best = d.get_best_node_for_shard(0, NOW).unwrap();
    assert_eq!(best.peer_id, "peer0b");
}

#[test]
fn test_next_shard() {
    let mut d = KademliaShardDiscovery::new("test-cluster");
    for i in 0..4u32 {
        d.add_shard(ann(&format!("peer{}", i), i, &format!("/ip4/10.0.0.{}/tcp/51820", i), "llama"), 0);
    }
    assert_eq!(d.next_shard(0, NOW).unwrap().shard_id, 1);
    assert_eq!(d.next_shard(1, NOW).unwrap().shard_id, 2);
    assert_eq!(d.next_shard(2, NOW).unwrap().shard_id, 3);
    assert!(d.next_shard(3, NOW).is_none());
    assert_eq!(d.previous_shard(2, NOW).unwrap().shard_id, 1);
    assert!(d.previous_shard(0, NOW).is_none());
}

#[test]
fn test_pipeline_status() {
    let mut d = KademliaShardDiscovery::with_expected_shards("test-cluster", 4);
    d.add_shard(ann("peer0", 0, "/ip4/10.0.0.0/tcp/51820", "llama"), 0);
    let status = d.status(NOW);
    assert_eq!(status.discovered_shards, 1);
    assert_eq!(status.expected_shards, 4);
    assert!(!status.is_complete);
    assert!(status.has_entry);
    assert!(!status.has_exit);
    assert_eq!(status.missing_shards, vec![1, 2, 3]);
    assert_eq!(
        status.summary(),
        "Pipeline 'test-cluster': 1/4 shards, 1 replicas, complete: false, entry: true, exit: false"
    );
}

#[test]
fn stale_announcements_leave_the_pipeline() {
    let mut d = KademliaShardDiscovery::with_expected_shards("c", 1);
    let only = ShardAnnouncement::new("p", 0, 1, 32, "/x", "m", ShardCapabilities::default(), NOW);
    d.add_shard(only, 0);
    assert!(d.is_pipeline_complete(NOW + 299));
    assert!(!d.is_pipeline_complete(NOW + 300));
    d.cleanup_stale(NOW + 300);
    assert_eq!(d.shard_count(), 0);
}

#[test]
fn fresh_announcements_are_processed_and_stale_ones_refused() {
    let mut d = KademliaShardDiscovery::new("c");
    assert!(d.process_announcement(ann("p", 1, "/x", "m"), 0, NOW + 10));
    assert!(!d.process_announcement(ann("q", 2, "/y", "m"), 0, NOW + 1000));
    assert_eq!(d.shard_count(), 1);
}

#[test]
fn settings_come_from_the_environment_values() {
    let s = announcement_settings(Some("2"), None, Some("40"), None).unwrap();
    assert_eq!(s.shard_id, 2);
    assert_eq!(s.total_shards, 4);
    assert_eq!(s.total_layers, 40);
    assert_eq!(s.model_name, "llama-8b");
    let t = announcement_settings(Some("0"), Some("x"), None, Some("tiny")).unwrap();
    assert_eq!(t.total_shards, 4);
    assert_eq!(t.total_layers, 32);
    assert_eq!(t.model_name, "tiny");
    assert!(announcement_settings(None, Some("4"), None, None).is_none());
    assert!(announcement_settings(Some("one"), None, None, None).is_none());
}

#[test]
fn gpu_settings_from_the_environment() {
    assert_eq!(ShardCapabilities::gpu_from_env(Some("8192"), Some("64")), (8192, 64, true));
    assert_eq!(ShardCapabilities::gpu_from_env(Some("8192"), None), (8192, 5000, true));
    assert_eq!(ShardCapabilities::gpu_from_env(None, Some("64")), (0, 0, false));
}

#[test]
fn the_better_replica_wins_in_either_order() {
    let mut d = KademliaShardDiscovery::new("test-cluster");
    let mut strong = ann("strong", 0, "/ip4/10.0.0.1/tcp/51820", "llama");
    strong.capabilities.cpu_cores = 16;
    strong.capabilities.reputation = 0.95f64.to_bits();
    let weak = ann("weak", 0, "/ip4/10.0.0.2/tcp/51820", "llama");
    let (rs, rw) = (rank(&strong.capabilities), rank(&weak.capabilities));
    assert!(rs > rw);
    d.add_shard(strong, rs);
    d.add_shard(weak, rw);
    assert_eq!(d.get_best_node_for_shard(0, NOW).unwrap().peer_id, "strong");
}

#[test]
fn no_exit_node_without_shards() {
    let mut d = KademliaShardDiscovery::with_expected_shards("c", 0);
    d.add_shard(ann("peer0", 0, "/ip4/10.0.0.0/tcp/51820", "llama"), 0);
    assert!(d.exit_node(NOW).is_none());
    assert!(!d.is_pipeline_complete(NOW));
    let status = d.status(NOW);
    assert!(!status.is_complete);
    assert!(!status.has_exit);
    assert_eq!(status.expected_shards, 0);
}

#[test]
fn adding_an_announcement_again_changes_no_count() {
    let mut d = KademliaShardDiscovery::new("c");
    d.add_shard(ann("peer0", 0, "/ip4/10.0.0.0/tcp/51820", "llama"), 3);
    d.add_shard(ann("peer0", 0, "/ip4/10.0.0.0/tcp/51820", "llama"), 3);
    assert_eq!(d.shard_count(), 1);
    assert_eq!(d.replica_count(), 1);
    d.add_shard(ann("peer1", 0, "/ip4/10.0.0.1/tcp/51820", "llama"), 1);
    assert_eq!(d.shard_count(), 1);
    assert_eq!(d.replica_count(), 2);
    d.add_shard(ann("peer1", 1, "/ip4/10.0.0.1/tcp/51820", "llama"), 1);
    assert_eq!(d.shard_count(), 2);
    assert_eq!(d.replica_count(), 3);
}
