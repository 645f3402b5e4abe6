use punch_simple::bootstrap::{
    connection_record_plan, extract_ip_from_multiaddr, handshake_stage_for_error, is_quic_address,
};
use punch_simple::coordinator_node::{
    bootstrap_addresses, bootstrap_target, bootstrap_wait_step, shard_query_round, shard_wait_step,
    PendingRequests, WaitStep,
};
use punch_simple::kademlia_shard_discovery::{ShardAnnouncement, ShardCapabilities};
use punch_simple::network_monitor::NetworkState;
use punch_simple::peer_dialer::{
    dial_order, dialer_tag, echo_text, hello_text, on_connection_failure, periodic_text, RetryDecision,
};
use punch_simple::peer_listener::{
    listener_reply, listener_tag, random_message_text, ConnectionAction, ListenerReply, ListenerState,
};
use punch_simple::command_protocol::{commands, Command, JsonValue, ResponseStatus};
use punch_simple::quic_diagnostics::QuicHandshakeStage;
use punch_simple::status_report::{pipeline_ready, progress_bar, shard_counts, shard_rows, ShardPresence};

fn strings(v: &[&str]) -> Vec<String> {
    v.iter().map(|s| s.to_string()).collect()
}

#[test]
fn ip_is_read_from_the_first_ip_component() {
    let c = strings(&["/ip4/192.168.1.7", "/tcp/51820"]);
    assert_eq!(extract_ip_from_multiaddr(&c), Some("192.168.1.7".to_string()));
    let d = strings(&["/dns4/example.org", "/ip6/::1", "/udp/1"]);
    assert_eq!(extract_ip_from_multiaddr(&d), Some("::1".to_string()));
    assert_eq!(extract_ip_from_multiaddr(&strings(&["/dns4/x", "/tcp/1"])), None);
}

#[test]
fn quic_addresses_are_recognised() {
    assert!(is_quic_address("/ip4/1.2.3.4/udp/51820/quic-v1"));
    assert!(!is_quic_address("/ip4/1.2.3.4/tcp/51820"));
    let inbound_quic = connection_record_plan(false, "/ip4/1.2.3.4/udp/9");
    assert!(inbound_quic.record_attempt && inbound_quic.record_established);
    let outbound_tcp = connection_record_plan(true, "/ip4/1.2.3.4/tcp/9");
    assert!(!outbound_tcp.record_attempt && !outbound_tcp.record_established);
}

#[test]
fn handshake_stage_is_read_from_the_error() {
    assert_eq!(handshake_stage_for_error("HandshakeTimedOut"), Some(QuicHandshakeStage::Failed));
    assert_eq!(handshake_stage_for_error("read timeout"), Some(QuicHandshakeStage::Failed));
    assert_eq!(handshake_stage_for_error("bad Initial packet"), Some(QuicHandshakeStage::Initial));
    assert_eq!(handshake_stage_for_error("Handshake aborted"), Some(QuicHandshakeStage::Handshake));
    assert_eq!(handshake_stage_for_error("refused"), None);
}

#[test]
fn bootstrap_addresses_are_read_and_rebuilt() {
    let (host, port) = bootstrap_target("/ip4/eagleoneonline.ca/udp/51820/quic-v1").unwrap();
    assert_eq!(host, "eagleoneonline.ca");
    assert_eq!(port, "51820");
    assert_eq!(bootstrap_target("/ip4/1.2.3.4/tcp").unwrap_err(), "Invalid multiaddr format");
    assert_eq!(bootstrap_target("/dns4/x/ws/1").unwrap_err(), "Invalid multiaddr format");
    let (q, t) = bootstrap_addresses("1.2.3.4", "51820");
    assert_eq!(q, "/ip4/1.2.3.4/udp/51820/quic-v1");
    assert_eq!(t, "/ip4/1.2.3.4/tcp/51820");
}

#[test]
fn waits_time_out_after_their_limit() {
    assert_eq!(bootstrap_wait_step(0, true), (WaitStep::Ready, false));
    assert_eq!(bootstrap_wait_step(10, false), (WaitStep::Again(11), true));
    assert_eq!(bootstrap_wait_step(119, false), (WaitStep::Again(120), false));
    assert_eq!(bootstrap_wait_step(120, false), (WaitStep::TimedOut, true));
    assert_eq!(shard_wait_step(3, true, false), WaitStep::Again(4));
    assert_eq!(shard_wait_step(60, false, true), WaitStep::TimedOut);
    assert_eq!(shard_wait_step(60, true, true), WaitStep::Ready);
}

#[test]
fn shard_queries_start_after_the_bootstrap() {
    let (keys, delay) = shard_query_round("llama-8b-cluster", true);
    assert_eq!(delay, 5000);
    assert_eq!(keys.len(), 4);
    assert_eq!(keys[3], "/llama-cluster/llama-8b-cluster/shard/3");
    let (none, short) = shard_query_round("c", false);
    assert!(none.is_empty());
    assert_eq!(short, 100);
}

#[test]
fn a_response_reaches_its_waiting_request_once() {
    let mut p = PendingRequests::new();
    p.insert("req-1", 7);
    p.insert("req-2", 8);
    assert_eq!(p.take("req-1"), Some(7));
    assert_eq!(p.take("req-1"), None);
    assert_eq!(p.len(), 1);
    p.insert("req-2", 9);
    assert_eq!(p.take("req-2"), Some(9));
}

#[test]
fn listener_bootstraps_registers_then_meets_peers() {
    let mut l = ListenerState::new();
    assert_eq!(l.on_connection_established("boot", "me"), ConnectionAction::StartBootstrap);
    assert!(!l.on_routing_updated());
    assert_eq!(l.on_connection_established("boot", "me"), ConnectionAction::Register);
    l.mark_registered();
    assert_eq!(l.on_connection_established("peerA", "me"), ConnectionAction::NewPeer);
    assert_eq!(l.on_connection_established("peerA", "me"), ConnectionAction::Nothing);
    assert_eq!(l.on_connection_established("me", "me"), ConnectionAction::Nothing);
    assert!(l.is_connected("peerA"));
    l.on_connection_closed("peerA");
    assert!(!l.is_connected("peerA"));
    assert_eq!(l.lookups_for_discovered(&strings(&["me", "x", "y"]), "me"), 2);
    assert_eq!(l.next_round(), 1);
}

#[test]
fn listener_queries_on_first_routing_update_once_registered() {
    let mut l = ListenerState::new();
    l.mark_registered();
    assert!(l.on_routing_updated());
    assert!(!l.on_routing_updated());
}

#[test]
fn listener_echoes_plain_messages() {
    match listener_reply(None, "hi there", "12D3KooWAbcdefgh") {
        ListenerReply::Echo(m) => {
            assert_eq!(m.from, "listener-12D3KooW");
            assert_eq!(m.message, "Echo: hi there");
        },
        other => panic!("unexpected {:?}", other),
    }
    assert_eq!(listener_tag("abc"), "listener-abc");
}

#[test]
fn listener_runs_inference_tasks() {
    let cmd = Command::new(commands::EXECUTE_TASK, "asker", Some("me"))
        .with_param("task_type", JsonValue::Str("ai_inference".to_string()))
        .with_param("model_name", JsonValue::Str("m".to_string()))
        .with_param("input_data", JsonValue::Str("hello".to_string()));
    match listener_reply(Some(&cmd), "{..}", "me") {
        ListenerReply::Task(resp) => {
            assert_eq!(resp.status, ResponseStatus::Success);
            assert_eq!(resp.from, "me");
            assert_eq!(resp.to, "asker");
            let data = resp.result.unwrap();
            assert_eq!(data.get("output"), Some(&JsonValue::Str("AI Response to: hello".to_string())));
            assert_eq!(data.get("model"), Some(&JsonValue::Str("m".to_string())));
            assert_eq!(data.len(), 2);
        },
        other => panic!("unexpected {:?}", other),
    }
    let bad = Command::new(commands::EXECUTE_TASK, "asker", Some("me"))
        .with_param("task_type", JsonValue::Str("ai_inference".to_string()))
        .with_param("model_name", JsonValue::Str("".to_string()))
        .with_param("input_data", JsonValue::Str("hello".to_string()));
    match listener_reply(Some(&bad), "{..}", "me") {
        ListenerReply::Task(resp) => {
            assert_eq!(resp.status, ResponseStatus::Error);
            assert!(resp.error.is_some());
        },
        other => panic!("unexpected {:?}", other),
    }
}

#[test]
fn random_messages_take_four_forms() {
    assert_eq!(random_message_text(3, 0, 1234, 5), "Load test message #3");
    assert_eq!(random_message_text(3, 1, 1234, 5), "Random payload 1234");
    assert_eq!(random_message_text(3, 2, 1234, 5), "Test data: 5");
    assert_eq!(random_message_text(3, 7, 1234, 5), "Message batch 3");
}

#[test]
fn dialer_retries_with_growing_delays() {
    assert_eq!(on_connection_failure(0), (RetryDecision::RetryAfter(2), 1));
    assert_eq!(on_connection_failure(4), (RetryDecision::RetryAfter(10), 5));
    assert_eq!(on_connection_failure(5), (RetryDecision::GiveUp, 0));
}

#[test]
fn dialer_tries_local_addresses_first() {
    let addrs = strings(&["/ip4/10.0.0.1/tcp/1", "/ip4/127.0.0.1/tcp/2", "/ip4/10.0.0.2/tcp/3", "/ip4/127.0.0.1/tcp/4"]);
    assert_eq!(
        dial_order(&addrs),
        strings(&["/ip4/127.0.0.1/tcp/2", "/ip4/127.0.0.1/tcp/4", "/ip4/10.0.0.1/tcp/1", "/ip4/10.0.0.2/tcp/3"])
    );
}

#[test]
fn dialer_message_texts() {
    assert_eq!(dialer_tag("12D3KooWxyz123"), "dialer-12D3KooW");
    assert_eq!(hello_text(2), "Hello from dialer! Message #2");
    assert_eq!(echo_text("hi", 4), "Echo from dialer: hi (response #4)");
    assert_eq!(periodic_text(9), "Periodic message #9 from dialer");
}

#[test]
fn monitor_tracks_connections_and_nodes() {
    let mut m = NetworkState::new("boot");
    m.on_connection_established("a", false, 10);
    m.on_connection_established("a", true, 20);
    m.on_connection_established("b", false, 30);
    assert_eq!(m.node_count(), 2);
    let a = m.node("a").unwrap();
    assert_eq!(a.first_seen, 10);
    assert_eq!(a.last_seen, 20);
    assert_eq!(a.connection_count, 2);
    assert_eq!(m.connections()[1].direction, "outbound");
    assert_eq!(m.counters().total_connections, 3);
    assert_eq!(m.counters().active_connections, 3);
    assert_eq!(m.namespace_count("intensive-test"), Some(2));
    m.on_connection_closed("a", 40);
    m.on_connection_closed("a", 41);
    m.on_connection_closed("b", 42);
    m.on_connection_closed("b", 43);
    assert_eq!(m.counters().active_connections, 0);
    assert_eq!(m.connections().len(), 7);
    assert_eq!(m.connections()[6].event_type, "disconnected");
}

#[test]
fn monitor_identify_and_refresh() {
    let mut m = NetworkState::new("boot");
    m.on_connection_established("a", false, 10);
    m.on_identify("a", "agent/1", "proto/1", Some("/ip4/1.2.3.4/tcp/1"));
    m.on_identify("zzz", "agent/1", "proto/1", None);
    let a = m.node("a").unwrap();
    assert_eq!(a.agent, Some("agent/1".to_string()));
    assert_eq!(a.addresses, strings(&["/ip4/1.2.3.4/tcp/1"]));
    assert!(m.node("zzz").is_none());
    m.record_message_time(5);
    m.record_message_time(95);
    m.record_message_time(100);
    assert_eq!(m.refresh(100, 40), 2);
    assert_eq!(m.counters().uptime_seconds, 60);
    m.on_dht_record();
    assert_eq!(m.counters().dht_records, 1);
}

fn ann(id: u32, loaded: bool) -> ShardAnnouncement {
    let mut caps = ShardCapabilities::default();
    caps.shard_loaded = loaded;
    ShardAnnouncement::new(&format!("peer{}", id), id, 4, 32, "/x", "m", caps, 0)
}

#[test]
fn status_report_rows_and_counts() {
    let pipeline = vec![ann(0, true), ann(1, false), ann(3, true)];
    let rows = shard_rows(&pipeline, 3, 4);
    assert_eq!(rows.len(), 4);
    assert_eq!(rows[0].presence, ShardPresence::OnlineLoaded);
    assert_eq!(rows[0].peer, Some(("peer0".to_string(), 0, 8)));
    assert_eq!(rows[1].presence, ShardPresence::Online);
    assert_eq!(rows[2].presence, ShardPresence::Offline);
    assert_eq!(rows[2].peer, None);
    assert_eq!(rows[3].presence, ShardPresence::Local);
    assert_eq!(rows[3].peer, None);
    assert_eq!(rows[1].presence.text(), "ONLINE (not loaded)");
    assert_eq!(rows[3].presence.icon(), "★");
    assert_eq!(shard_counts(&pipeline), (3, 2));
    assert_eq!(shard_counts(&vec![ann(1, true), ann(1, true)]), (1, 1));
    assert!(pipeline_ready(true, 4, 4));
    assert!(!pipeline_ready(true, 3, 4));
}

#[test]
fn progress_bars_have_twenty_cells() {
    assert_eq!(progress_bar(0), "░".repeat(20));
    assert_eq!(progress_bar(50), "█".repeat(10) + &"░".repeat(10));
    assert_eq!(progress_bar(100), "█".repeat(20));
    assert_eq!(progress_bar(250), "█".repeat(20));
}
