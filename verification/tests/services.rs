use punch_simple::llama_cpp_backend::{extract_completion, failure_text, looks_like_path};
use punch_simple::llama_inference::{create_inference_engine, LlamaInferenceEngine};
use punch_simple::protocol_logging::{
    log_connection_closed, log_connection_established, log_connection_failed, log_transaction_completed,
    log_transaction_failed, log_transaction_started, log_transaction_timeout, ConnectionEventType,
    TransactionEventType,
};
use punch_simple::quic_diagnostics::{QuicDiagnosticsManager, QuicHandshakeStage};
use punch_simple::shard_node::{join_path, shard_file_name, shard_id_of_file, DownloadState, PieceReceipt};
use punch_simple::torrent::{info_hash, split_pieces, TorrentFile, TorrentMessage, TorrentServer};
use punch_simple::web_console::{
    content_type_for, ok_header, static_file_path, updates_after_run, updates_before_submit,
};
use punch_simple::web_server::{generate_response, ShardNode, CAPITAL_JAPAN, DEFAULT_PREFIX, DEFAULT_SUFFIX};
use sha2::{Digest, Sha256};

fn hex(bytes: &[u8]) -> String {
    format!("{:x}", Sha256::digest(bytes))
}

#[test]
fn test_inference_engine_creation() {
    let engine = LlamaInferenceEngine::new("/tmp/test_model.safetensors", "test-model");
    assert_eq!(engine.model_name(), "test-model");
}

#[test]
fn test_inference_placeholder() {
    let engine = LlamaInferenceEngine::new("/tmp/test_model.safetensors", "test-model");
    let result = engine.infer("Test input", 100, "0.7");
    assert!(result.is_ok());
    let output = result.unwrap();
    assert!(output.contains("test-model"));
}

#[test]
fn missing_model_files_are_reported() {
    let mut engine = LlamaInferenceEngine::new("/nonexistent/dir/model.gguf", "m");
    assert!(!engine.is_loaded());
    assert_eq!(engine.load_model().unwrap_err(), "Model file not found: /nonexistent/dir/model.gguf");
    assert!(!engine.is_loaded());
    assert!(create_inference_engine("/nonexistent/dir/model.gguf", "m").is_err());
}

#[test]
fn an_engine_is_loaded_only_after_loading_succeeds() {
    let mut engine = LlamaInferenceEngine::new("/tmp", "m");
    assert!(!engine.is_loaded());
    assert!(engine.load_model().is_ok());
    assert!(engine.is_loaded());
    assert!(create_inference_engine("/tmp", "m").unwrap().is_loaded());
}

#[test]
fn llama_cli_output_is_cut_after_the_prompt() {
    assert_eq!(extract_completion("Q: hi\nA: hello world  \n", "Q: hi\n").unwrap(), "A: hello world");
    assert_eq!(extract_completion("  plain  ", "absent").unwrap(), "plain");
    assert_eq!(extract_completion("\u{3000}\tplain text\u{a0}\n", "absent").unwrap(), "plain text");
    assert_eq!(extract_completion("   ", "x").unwrap_err(), "llama.cpp returned empty output");
    assert_eq!(
        failure_text(Some(-2), "err", "out"),
        "llama.cpp failed (exit=Some(-2)).\nSTDERR:\nerr\nSTDOUT:\nout"
    );
    assert_eq!(failure_text(None, "", ""), "llama.cpp failed (exit=None).\nSTDERR:\n\nSTDOUT:\n");
    assert!(looks_like_path("/opt/llama"));
    assert!(looks_like_path("models\\x.gguf"));
    assert!(!looks_like_path("llama-cli"));
}

#[test]
fn connection_lines_name_the_event() {
    let (rec, line) = log_connection_established("peerX", "inbound", "quic", Some("/ip4/1.2.3.4"));
    assert_eq!(rec.event_type, ConnectionEventType::Established);
    assert_eq!(line.text, "[CONN] ✓ inbound quic connection established: peerX (/ip4/1.2.3.4)");
    assert!(!line.to_stderr);
    let (_, closed) = log_connection_closed("peerX", "inbound", "quic");
    assert_eq!(closed.text, "[CONN] ✗ inbound quic connection closed: peerX");
    let (_, failed) = log_connection_failed("peerX", "outbound", "tcp", "refused");
    assert_eq!(failed.text, "[CONN] ✗ outbound tcp connection failed: peerX - refused");
    assert!(failed.to_stderr);
}

#[test]
fn transaction_lines_name_the_event() {
    let (rec, started) = log_transaction_started("json", "PING", "req-1", "a", Some("b"));
    assert_eq!(rec.event_type, TransactionEventType::Started);
    assert_eq!(started.text, "[TX] → json transaction started: PING (req: req-1) from a to b");
    let (_, done) = log_transaction_completed("json", "PING", "req-1", "a", None, 42, Some(7));
    assert_eq!(done.text, "[TX] ✓ json transaction completed: PING (req: req-1) in 42ms (size: 7 bytes)");
    let (_, failed) = log_transaction_failed("json", "PING", "req-1", "a", None, "boom");
    assert_eq!(failed.text, "[TX] ✗ json transaction failed: PING (req: req-1) - boom");
    assert!(failed.to_stderr);
    let (_, late) = log_transaction_timeout("json", "PING", "req-1", "a", None);
    assert_eq!(late.text, "[TX] ⏱ json transaction timeout: PING (req: req-1)");
}

#[test]
fn diagnostics_count_attempts_errors_and_closes() {
    let mut d = QuicDiagnosticsManager::new();
    d.record_connection_attempt_at(Some("p"), Some("/ip4/1.2.3.4/udp/1"), None, 100);
    let diag = d.get_diagnostics();
    assert_eq!(diag.total_connections, 1);
    assert_eq!(diag.active_connections, 1);
    let stats = d.get_connection_stats("p", "/ip4/1.2.3.4/udp/1").unwrap();
    assert_eq!(stats.handshake_stage, QuicHandshakeStage::Initial);
    d.record_connection_error_at(Some("p"), None, "HandshakeTimedOut", Some(QuicHandshakeStage::Failed), 101);
    let diag = d.get_diagnostics();
    assert_eq!(diag.failed_connections, 1);
    assert_eq!(diag.handshake_timeouts, 1);
    assert_eq!(d.get_error_log(10), vec!["[101] p: HandshakeTimedOut".to_string()]);
    d.record_connection_closed_at("p", "/ip4/1.2.3.4/udp/1", None, 105);
    let events = d.get_recent_events(2);
    assert_eq!(events.len(), 2);
    assert_eq!(events[0].timestamp, 105);
    assert!(d.get_connection_stats("nobody", "x").is_none());
}

#[test]
fn shard_files_are_named_and_read_back() {
    assert_eq!(shard_file_name(3), "shard-3.gguf");
    assert_eq!(shard_id_of_file("shard-12.gguf"), Some(12));
    assert_eq!(shard_id_of_file("model.gguf"), None);
    assert_eq!(join_path("models_cache/shards", "shard-0.gguf"), "models_cache/shards/shard-0.gguf");
    assert_eq!(join_path("dir/", "f"), "dir/f");
    assert_eq!(join_path("", "f"), "f");
}

#[test]
fn info_hash_is_the_sha256_of_name_and_size() {
    let mut bytes = b"shard-0.gguf".to_vec();
    bytes.extend_from_slice(&1234u64.to_le_bytes());
    assert_eq!(info_hash("shard-0.gguf", 1234), hex(&bytes));
    assert_eq!(info_hash("shard-0.gguf", 1234).len(), 64);
}

#[test]
fn files_are_split_into_64k_pieces() {
    let data: Vec<u8> = (0..150_000u32).map(|i| (i % 251) as u8).collect();
    let pieces = split_pieces(&data);
    assert_eq!(pieces.len(), 3);
    assert_eq!(pieces[0].len(), 65536);
    assert_eq!(pieces[2].len(), 150_000 - 2 * 65536);
    assert_eq!(pieces.concat(), data);
    assert!(split_pieces(&Vec::new()).is_empty());
}

#[test]
fn a_download_reassembles_the_file() {
    let data: Vec<u8> = (0..70_000u32).map(|i| (i % 7) as u8).collect();
    let file = TorrentFile::from_data("shards/f.gguf".to_string(), "f.gguf", data.clone());
    assert_eq!(file.metadata.pieces[1], hex(&data[65536..]));
    let mut dl = DownloadState::new(file.metadata.info_hash.clone(), "f.gguf".to_string(), "out".to_string(), None);
    assert_eq!(dl.assemble(), Ok(None));
    dl.receive_metadata(file.metadata.duplicate());
    assert_eq!(dl.receive_piece(5, vec![1]), PieceReceipt::InvalidIndex);
    assert_eq!(dl.receive_piece(1, vec![9, 9]), PieceReceipt::HashMismatch);
    assert_eq!(dl.receive_piece(1, file.pieces[1].clone()), PieceReceipt::Stored);
    assert_eq!(dl.assemble(), Ok(None));
    assert_eq!(dl.receive_piece(0, file.pieces[0].clone()), PieceReceipt::Stored);
    assert_eq!(dl.assemble(), Ok(Some(data)));
}

#[test]
fn the_torrent_server_answers_requests() {
    let mut server = TorrentServer::new("");
    assert_eq!(server.share_dir(), "models_cache/shards");
    let data = vec![1u8, 2, 3];
    let file = TorrentFile::from_data("p/a.gguf".to_string(), "a.gguf", data.clone());
    let hash = file.metadata.info_hash.clone();
    server.add_file(file);
    match server.answer(&TorrentMessage::ListFiles) {
        TorrentMessage::FileList { files } => {
            assert_eq!(files.len(), 1);
            assert_eq!(files[0].filename, "a.gguf");
            assert_eq!(files[0].size, 3);
        },
        other => panic!("unexpected {:?}", other),
    }
    match server.answer(&TorrentMessage::RequestPiece { info_hash: hash.clone(), piece_index: 0 }) {
        TorrentMessage::PieceData { data: d, piece_index, .. } => {
            assert_eq!(d, data);
            assert_eq!(piece_index, 0);
        },
        other => panic!("unexpected {:?}", other),
    }
    match server.answer(&TorrentMessage::RequestPiece { info_hash: hash.clone(), piece_index: 1 }) {
        TorrentMessage::FileList { files } => assert!(files.is_empty()),
        other => panic!("unexpected {:?}", other),
    }
    match server.answer(&TorrentMessage::RequestMetadata { info_hash: hash.clone() }) {
        TorrentMessage::Metadata { metadata } => assert_eq!(metadata.file_size, 3),
        other => panic!("unexpected {:?}", other),
    }
    match server.answer(&TorrentMessage::RequestMetadata { info_hash: "nope".to_string() }) {
        TorrentMessage::FileList { files } => assert!(files.is_empty()),
        other => panic!("unexpected {:?}", other),
    }
}

#[test]
fn canned_answers_ignore_case() {
    assert_eq!(generate_response("What is the CAPITAL of JAPAN?"), CAPITAL_JAPAN);
    assert_eq!(
        generate_response("tell me about quarks"),
        format!("{}{}{}", DEFAULT_PREFIX, "tell me about quarks", DEFAULT_SUFFIX)
    );
    assert!(generate_response("Who wrote Wonderwall?").contains("Noel Gallagher"));
}

#[test]
fn simulated_shards_split_the_layers() {
    let s = ShardNode::new(3, 4, 30, );
    assert_eq!((s.layer_start, s.layer_end), (21, 30));
    assert!(s.has_output && !s.has_embeddings);
}

#[test]
fn static_files_and_content_types() {
    assert_eq!(static_file_path("/"), "web/ai-console.html");
    assert_eq!(static_file_path(""), "web/ai-console.html");
    assert_eq!(static_file_path("//css/site.css"), "css/site.css");
    assert_eq!(content_type_for("css/site.css"), "text/css");
    assert_eq!(content_type_for("img/logo.JPEG"), "application/octet-stream");
    assert_eq!(content_type_for("img/logo.jpeg"), "image/jpeg");
    assert_eq!(content_type_for("README"), "application/octet-stream");
    assert_eq!(
        ok_header("text/html", 12),
        "HTTP/1.1 200 OK\r\nContent-Type: text/html\r\nContent-Length: 12\r\nAccess-Control-Allow-Origin: *\r\n\r\n"
    );
}

#[test]
fn query_updates_bracket_the_run() {
    let before = updates_before_submit();
    assert_eq!(before.len(), 2);
    assert_eq!(before[0].stage, "input");
    let failed: Result<punch_simple::pipeline_coordinator::InferenceResponse, _> =
        Err(punch_simple::pipeline_coordinator::PipelineError::Cancelled);
    let after = updates_after_run(&failed);
    assert_eq!(after.len(), 1);
    assert_eq!(after[0].latency_ms, Some(100));
}
