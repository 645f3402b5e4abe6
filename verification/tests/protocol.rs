use punch_simple::ai_inference_handler::{
    create_ai_inference_error_response, create_ai_inference_response, process_ai_inference, value_get,
    AIInferenceRequest,
};
use punch_simple::command_protocol::commands;
use punch_simple::command_protocol::{Command, CommandResponse, JsonValue, Params, ResponseStatus};
use punch_simple::command_validation::{
    validate_command, validate_command_structure, validate_execute_task, validate_load_shard, ValidationError,
};

fn s(v: &str) -> JsonValue {
    JsonValue::Str(v.to_string())
}

fn float(x: f64, text: &str) -> JsonValue {
    JsonValue::Float { bits: x.to_bits(), display: text.to_string() }
}

fn task(model: &str, input: JsonValue) -> Command {
    Command::new(commands::EXECUTE_TASK, "peer1", Some("peer2"))
        .with_param("task_type", s("ai_inference"))
        .with_param("model_name", s(model))
        .with_param("input_data", input)
}

#[test]
fn test_command_creation() {
    let cmd = Command::new("TEST_COMMAND", "peer1", Some("peer2"));
    assert_eq!(cmd.command, "TEST_COMMAND");
    assert_eq!(cmd.from, "peer1");
    assert_eq!(cmd.to, Some("peer2".to_string()));
    assert!(!cmd.request_id.is_empty());
}

#[test]
fn test_command_with_params() {
    let cmd = Command::new("TEST_COMMAND", "peer1", None)
        .with_param("key1", s("value1"))
        .with_param("key2", JsonValue::UInt(42));
    assert_eq!(cmd.params.get("key1"), Some(&s("value1")));
    assert_eq!(cmd.params.get("key2"), Some(&JsonValue::UInt(42)));
}

#[test]
fn test_command_response_success() {
    let mut result = Params::new();
    result.insert("data".to_string(), s("test"));
    let resp = CommandResponse::success("TEST_COMMAND", "req-123", "peer2", "peer1", result);
    assert_eq!(resp.status, ResponseStatus::Success);
    assert_eq!(resp.from, "peer2");
    assert_eq!(resp.to, "peer1");
    assert!(resp.error.is_none());
    assert!(resp.result.is_some());
}

#[test]
fn test_command_response_error() {
    let resp = CommandResponse::error("TEST_COMMAND", "req-123", "peer2", "peer1", "Error message");
    assert_eq!(resp.status, ResponseStatus::Error);
    assert_eq!(resp.error, Some("Error message".to_string()));
    assert!(resp.result.is_none());
}

#[test]
fn request_ids_carry_the_req_prefix() {
    let cmd = Command::new_at("PING", "a", None, 7, 12345);
    assert_eq!(cmd.request_id, "req-12345");
    assert_eq!(cmd.timestamp, 7);
    assert_eq!(cmd.params.len(), 0);
}

#[test]
fn params_replace_a_key() {
    let mut p = Params::new();
    p.insert("k".to_string(), JsonValue::UInt(1));
    p.insert("k".to_string(), JsonValue::UInt(2));
    assert_eq!(p.len(), 1);
    assert_eq!(p.get("k"), Some(&JsonValue::UInt(2)));
    assert!(p.contains_key("k"));
    assert!(!p.contains_key("x"));
}

#[test]
fn test_validate_command_structure() {
    let cmd = Command::new("TEST", "peer1", Some("peer2"));
    assert!(validate_command_structure(&cmd).is_ok());
}

#[test]
fn test_validate_missing_command() {
    let cmd = Command::new("", "peer1", Some("peer2"));
    assert!(validate_command_structure(&cmd).is_err());
}

#[test]
fn test_validate_load_shard() {
    let mut cmd = Command::new(commands::LOAD_SHARD, "peer1", Some("peer2"));
    cmd.params.insert("shard_id".to_string(), JsonValue::UInt(5));
    assert!(validate_load_shard(&cmd).is_ok());
}

#[test]
fn test_validate_load_shard_missing_param() {
    let cmd = Command::new(commands::LOAD_SHARD, "peer1", Some("peer2"));
    assert!(validate_load_shard(&cmd).is_err());
}

#[test]
fn test_validate_execute_task() {
    let mut cmd = Command::new(commands::EXECUTE_TASK, "peer1", Some("peer2"));
    cmd.params.insert("task_type".to_string(), s("ai_inference"));
    cmd.params.insert("input_data".to_string(), s("test input"));
    cmd.params.insert("max_tokens".to_string(), JsonValue::UInt(100));
    cmd.params.insert("temperature".to_string(), float(0.7, "0.7"));
    assert!(validate_execute_task(&cmd).is_ok());
}

#[test]
fn test_validate_execute_task_invalid_temperature() {
    let mut cmd = Command::new(commands::EXECUTE_TASK, "peer1", Some("peer2"));
    cmd.params.insert("task_type".to_string(), s("ai_inference"));
    cmd.params.insert("temperature".to_string(), float(3.0, "3.0"));
    assert!(validate_execute_task(&cmd).is_err());
}

#[test]
fn validation_errors_name_their_field() {
    let cmd = Command::new(commands::LOAD_SHARD, "peer1", Some("peer2"));
    match validate_load_shard(&cmd) {
        Err(ValidationError::MissingField(f)) => assert_eq!(f, "shard_id"),
        other => panic!("unexpected: {:?}", other),
    }
    let mut bad = Command::new(commands::LOAD_SHARD, "peer1", Some("peer2"));
    bad.params.insert("shard_id".to_string(), s("five"));
    match validate_load_shard(&bad) {
        Err(ValidationError::InvalidType(f, _)) => assert_eq!(f, "shard_id"),
        other => panic!("unexpected: {:?}", other),
    }
    let e = ValidationError::MissingField("shard_id".to_string());
    assert!(e.message().contains("shard_id"));
}

#[test]
fn unknown_commands_pass_structure_checks() {
    let cmd = Command::new("SOMETHING_ELSE", "peer1", Some("peer2"));
    assert!(validate_command(&cmd).is_ok());
}

#[test]
fn test_ai_inference_request_from_command() {
    let cmd = task("gpt-4", s("What is AI?"));
    let request = AIInferenceRequest::from_command(&cmd).unwrap();
    assert_eq!(request.model_name, "gpt-4");
    assert_eq!(request.input_data, s("What is AI?"));
}

#[test]
fn test_ai_inference_request_validation() {
    let request = AIInferenceRequest::from_command(&task("gpt-4", s("Test input"))).unwrap();
    assert!(request.validate().is_ok());
}

#[test]
fn test_ai_inference_request_validation_empty_model() {
    let request = AIInferenceRequest::from_command(&task("", s("Test"))).unwrap();
    assert!(request.validate().is_err());
}

#[test]
fn test_ai_inference_request_validation_temperature() {
    let cmd = task("gpt-4", s("Test")).with_param("temperature", float(3.0, "3.0"));
    let request = AIInferenceRequest::from_command(&cmd).unwrap();
    assert!(request.validate().is_err());
}

#[test]
fn test_process_ai_inference() {
    let request = AIInferenceRequest::from_command(&task("gpt-4", s("What is AI?"))).unwrap();
    let result = process_ai_inference(&request).unwrap();
    assert!(value_get(&result, "output").is_some());
    assert!(value_get(&result, "model").is_some());
    assert!(value_get(&result, "tokens_used").is_some());
}

#[test]
fn inference_output_echoes_the_prompt() {
    let request = AIInferenceRequest::from_command(&task("gpt-4", s("What is AI?"))).unwrap();
    let result = process_ai_inference(&request).unwrap();
    assert_eq!(value_get(&result, "output"), Some(&s("AI Response to: What is AI?")));
    assert_eq!(value_get(&result, "tokens_used"), Some(&JsonValue::UInt(100)));
    assert_eq!(value_get(&result, "model"), Some(&s("gpt-4")));
}

#[test]
fn inference_knows_why_the_sky_is_blue() {
    let request = AIInferenceRequest::from_command(&task("m", s("Why is the SKY blue?"))).unwrap();
    let result = process_ai_inference(&request).unwrap();
    match value_get(&result, "output") {
        Some(JsonValue::Str(t)) => assert!(t.starts_with("The sky looks blue mainly because of Rayleigh scattering")),
        other => panic!("unexpected: {:?}", other),
    }
}

#[test]
fn inference_counts_a_batch() {
    let batch = JsonValue::Array(vec![s("a"), s("b"), s("c")]);
    let request = AIInferenceRequest::from_command(&task("m", batch)).unwrap();
    let result = process_ai_inference(&request).unwrap();
    assert_eq!(value_get(&result, "output"), Some(&s("AI Response to batch of 3 items")));
}

#[test]
fn inference_refuses_an_invalid_request() {
    let request = AIInferenceRequest::from_command(&task("", s("x"))).unwrap();
    assert!(process_ai_inference(&request).is_err());
}

#[test]
fn from_command_refuses_other_tasks() {
    let cmd = Command::new(commands::EXECUTE_TASK, "peer1", Some("peer2"))
        .with_param("task_type", s("training"))
        .with_param("model_name", s("m"))
        .with_param("input_data", s("x"));
    let e = AIInferenceRequest::from_command(&cmd).unwrap_err();
    assert_eq!(e, "Task type is not ai_inference, got: training");
    let other = Command::new("PING", "peer1", None);
    assert_eq!(AIInferenceRequest::from_command(&other).unwrap_err(), "Command is not EXECUTE_TASK");
}

#[test]
fn test_create_ai_inference_response() {
    let cmd = task("gpt-4", s("Test"));
    let result = JsonValue::Object(vec![
        ("output".to_string(), s("AI Response")),
        ("tokens_used".to_string(), JsonValue::UInt(100)),
        ("model".to_string(), s("gpt-4")),
        ("latency_ms".to_string(), float(125.5, "125.5")),
    ]);
    let response = create_ai_inference_response(&cmd, &result);
    assert_eq!(response.status, ResponseStatus::Success);
    assert!(response.result.is_some());
    let data = response.result.unwrap();
    assert_eq!(data.get("output"), Some(&s("AI Response")));
    assert_eq!(response.from, "peer2");
    assert_eq!(response.to, "peer1");
}

#[test]
fn error_response_carries_the_error() {
    let cmd = task("gpt-4", s("Test"));
    let response = create_ai_inference_error_response(&cmd, "boom");
    assert_eq!(response.status, ResponseStatus::Error);
    assert_eq!(response.error, Some("boom".to_string()));
    assert!(response.result.is_none());
}
