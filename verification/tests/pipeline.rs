use punch_simple::kademlia_shard_discovery::{KademliaShardDiscovery, ShardAnnouncement, ShardCapabilities};
use punch_simple::pipeline_coordinator::{
    expand_template, Attempt, CoordinatorState, InferenceRequest, NodeSpawner, PipelineCoordinator, PipelineError,
    PipelineStrategy, Submission,
};

const NOW: u64 = 5_000;

fn test_shard(shard_id: u32, memory_mb: u64) -> ShardAnnouncement {
    let mut a = ShardAnnouncement::new(
        &format!("peer{}", shard_id),
        shard_id,
        4,
        32,
        &format!("/ip4/10.0.0.{}/tcp/51820", shard_id),
        "llama-test",
        ShardCapabilities::default(),
        NOW,
    );
    a.capabilities.memory_available_mb = memory_mb;
    a
}

fn coordinator() -> PipelineCoordinator {
    PipelineCoordinator::new(KademliaShardDiscovery::with_expected_shards("test", 4))
}

/// Runs one request through a complete pipeline, each shard taking 10 ms.
fn run_complete(c: &mut PipelineCoordinator, prompt: &str) -> punch_simple::pipeline_coordinator::InferenceResponse {
    let request = InferenceRequest::new(prompt);
    match c.submit_inference(NOW) {
        Submission::ProcessNow => {},
        other => panic!("expected ProcessNow, got {:?}", other),
    }
    let shards = c.process_inference(NOW).unwrap();
    let latencies: Vec<u64> = shards.iter().map(|_| 10).collect();
    let total = 10 * latencies.len() as u64;
    c.finish_pipeline_inference(request, &shards, &latencies, total)
}

#[test]
fn test_coordinator_creation() {
    let c = coordinator();
    assert!(matches!(c.state(), CoordinatorState::Unavailable { .. }));
}

#[test]
fn test_complete_pipeline_ready() {
    let mut c = coordinator();
    for i in 0..4 {
        c.add_shard(test_shard(i, 8192), 0, NOW);
    }
    assert!(matches!(c.state(), CoordinatorState::Ready));
}

#[test]
fn test_incomplete_pipeline_waiting() {
    let mut c = coordinator();
    c.add_shard(test_shard(0, 8192), 0, NOW);
    c.add_shard(test_shard(2, 8192), 0, NOW);
    match c.state() {
        CoordinatorState::WaitingForShards { missing } => {
            assert!(missing.contains(&1));
            assert!(missing.contains(&3));
        },
        _ => panic!("Expected WaitingForShards state"),
    }
}

#[test]
fn test_fail_fast_strategy() {
    let mut c = coordinator();
    c.set_strategy(PipelineStrategy::FailFast);
    c.add_shard(test_shard(0, 8192), 0, NOW);
    let _request = InferenceRequest::new("test prompt");
    match c.submit_inference(NOW) {
        Submission::Rejected(PipelineError::NoFallback { .. }) => {},
        e => panic!("Expected NoFallback error, got: {:?}", e),
    }
    assert_eq!(c.stats().failed_requests, 1);
}

#[test]
fn test_complete_pipeline_inference() {
    let mut c = coordinator();
    for i in 0..4 {
        c.add_shard(test_shard(i, 8192), 0, NOW);
    }
    let response = run_complete(&mut c, "test prompt");
    assert!(response.success);
    assert_eq!(response.shard_latencies.len(), 4);
    let ids: Vec<u32> = response.shard_latencies.iter().map(|l| l.shard_id).collect();
    assert_eq!(ids, vec![0, 1, 2, 3]);
    assert!(response.error.is_none());
    assert_eq!(c.stats().total_requests, 1);
    assert_eq!(c.stats().successful_requests, 1);
    assert_eq!(response.text, "Generated response for: test prompt | Pipeline: 4 shards");
    assert_eq!(response.strategy_used, "pipeline");
    assert_eq!(response.tokens_generated, 100);
}

#[test]
fn test_single_node_fallback() {
    let mut c = coordinator();
    c.set_strategy(PipelineStrategy::SingleNodeFallback { required_memory_mb: 16000 });
    c.add_shard(test_shard(0, 32000), 0, NOW);
    let request = InferenceRequest::new("test prompt");
    let attempts = match c.submit_inference(NOW) {
        Submission::Attempts { attempts, .. } => attempts,
        other => panic!("expected attempts, got {:?}", other),
    };
    assert_eq!(attempts.len(), 1);
    let required = match attempts[0] {
        Attempt::Fallback { required_memory_mb } => required_memory_mb,
        ref a => panic!("unexpected attempt {:?}", a),
    };
    let node = c.try_fallback(&vec![1], required, NOW).unwrap();
    let response = c.finish_fallback_inference(request, &node, 12);
    assert!(response.success);
    assert_eq!(response.strategy_used, "single_node_fallback");
    assert!(matches!(c.state(), CoordinatorState::FallbackMode { .. }));
}

#[test]
fn fallback_needs_enough_memory() {
    let mut c = coordinator();
    c.add_shard(test_shard(0, 8000), 0, NOW);
    match c.try_fallback(&vec![1], 16000, NOW) {
        Err(e) => assert_eq!(e.message(), "No fallback available: No node with 16000MB+ memory available"),
        Ok(n) => panic!("unexpected node {}", n.peer_id),
    }
}

#[test]
fn test_inference_request_builder() {
    let request = InferenceRequest::new("Hello world")
        .with_max_tokens(500)
        .with_temperature(0.8f32.to_bits())
        .with_priority(1);
    assert_eq!(request.prompt, "Hello world");
    assert_eq!(request.max_tokens, 500);
    assert_eq!(f32::from_bits(request.temperature), 0.8);
    assert_eq!(request.priority, 1);
    assert_eq!(request.request_id.len(), 36);
}

#[test]
fn test_stats_tracking() {
    let mut c = coordinator();
    for i in 0..4 {
        c.add_shard(test_shard(i, 8192), 0, NOW);
    }
    for _ in 0..3 {
        let _ = run_complete(&mut c, "test");
    }
    let stats = c.stats();
    assert_eq!(stats.total_requests, 3);
    assert_eq!(stats.successful_requests, 3);
}

#[test]
fn adaptive_strategy_waits_then_falls_back() {
    let mut c = coordinator();
    c.add_shard(test_shard(0, 8192), 0, NOW);
    match c.submit_inference(NOW) {
        Submission::Attempts { missing, attempts } => {
            assert_eq!(missing, vec![1, 2, 3]);
            assert_eq!(attempts.len(), 2);
            assert!(matches!(attempts[0], Attempt::Wait { timeout_secs: 15, retry_interval_ms: 500 }));
            assert!(matches!(attempts[1], Attempt::Fallback { required_memory_mb: 16384 }));
        },
        other => panic!("unexpected {:?}", other),
    }
}

#[test]
fn spawned_nodes_start_with_the_strategy_template() {
    let spawner = NodeSpawner::new(
        "/ip4/1.2.3.4/tcp/1".to_string(),
        "c".to_string(),
        4,
        32,
        "m".to_string(),
        "d".to_string(),
    );
    let default_command = spawner.spawn_command(2);
    assert_eq!(default_command[0], "cargo");
    assert_eq!(default_command[1..], spawner.spawn_args(2)[..]);
    let mut c = coordinator().with_node_spawner(spawner);
    c.set_strategy(PipelineStrategy::SpawnNodes {
        max_nodes_per_request: 2,
        min_memory_per_node_mb: 1024,
        spawn_command_template: "run-shard  --id {shard_id} --tag s{shard_id}x".to_string(),
        node_startup_timeout_secs: 5,
    });
    let (missing, attempts) = match c.submit_inference(NOW) {
        Submission::Attempts { missing, attempts } => (missing, attempts),
        other => panic!("expected attempts, got {:?}", other),
    };
    assert_eq!(missing, vec![0, 1, 2, 3]);
    let template = match &attempts[0] {
        Attempt::SpawnNodes { max_nodes_per_request: 2, node_startup_timeout_secs: 5, command_template } => {
            command_template.clone()
        },
        other => panic!("expected spawning, got {:?}", other),
    };
    let shards = c.start_spawning(&missing, 2, template).unwrap();
    assert_eq!(shards, vec![0, 1]);
    let command = c.node_spawner().unwrap().spawn_command(1);
    assert_eq!(command, vec!["run-shard", "--id", "1", "--tag", "s1x"]);
}

#[test]
fn templates_replace_every_shard_id() {
    assert_eq!(expand_template("a {shard_id}{shard_id} {shard_id", 12), vec!["a", "1212", "{shard_id"]);
    assert_eq!(expand_template("   ", 3), Vec::<String>::new());
}

#[test]
fn request_ids_are_hyphenated_lower_case_uuids() {
    let id = InferenceRequest::new("p").request_id;
    assert_eq!(id.len(), 36);
    for (i, c) in id.chars().enumerate() {
        if [8, 13, 18, 23].contains(&i) {
            assert_eq!(c, '-');
        } else {
            assert!(c.is_ascii_digit() || ('a'..='f').contains(&c));
        }
    }
}
