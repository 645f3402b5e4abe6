//! Command input validation: rejects malformed commands before a node acts
//! on them.
use vstd::prelude::*;
use vstd::string::*;
use crate::command_protocol::{
    f64_bits_above, f64_bits_below_zero, f64_two_bits, now_secs, Command, JsonValue, Params,
};
use crate::command_protocol::commands::{EXECUTE_TASK, GET_CAPABILITIES, LOAD_SHARD};
use crate::text::{append_decimal, decimal, str_eq};

verus! {

/// Validation error type.
#[derive(Debug, Clone)]
pub enum ValidationError {
    MissingField(String),
    /// field, expected type
    InvalidType(String, String),
    /// field, reason
    InvalidRange(String, String),
    /// field, reason
    InvalidValue(String, String),
    MalformedInput(String),
}

/// What a validation error says, as character sequences.
pub enum ValidationFailure {
    MissingField(Seq<char>),
    InvalidType(Seq<char>, Seq<char>),
    InvalidRange(Seq<char>, Seq<char>),
    InvalidValue(Seq<char>, Seq<char>),
    MalformedInput(Seq<char>),
}

impl View for ValidationError {
    type V = ValidationFailure;

    open spec fn view(&self) -> ValidationFailure {
        match self {
            ValidationError::MissingField(f) => ValidationFailure::MissingField(f@),
            ValidationError::InvalidType(f, t) => ValidationFailure::InvalidType(f@, t@),
            ValidationError::InvalidRange(f, r) => ValidationFailure::InvalidRange(f@, r@),
            ValidationError::InvalidValue(f, r) => ValidationFailure::InvalidValue(f@, r@),
            ValidationError::MalformedInput(m) => ValidationFailure::MalformedInput(m@),
        }
    }
}

pub open spec fn failure_message(f: ValidationFailure) -> Seq<char> {
    match f {
        ValidationFailure::MissingField(field) => "Missing required field: "@ + field,
        ValidationFailure::InvalidType(field, expected) => "Invalid type for field '"@ + field
            + "': expected "@ + expected,
        ValidationFailure::InvalidRange(field, reason) => "Invalid range for field '"@ + field
            + "': "@ + reason,
        ValidationFailure::InvalidValue(field, reason) => "Invalid value for field '"@ + field
            + "': "@ + reason,
        ValidationFailure::MalformedInput(msg) => "Malformed input: "@ + msg,
    }
}

impl ValidationError {
    /// The text that the error displays.
    pub fn message(&self) -> (r: String)
        ensures
            r@ == failure_message(self@),
    {
        match self {
            ValidationError::MissingField(field) => {
                let mut s = String::from_str("Missing required field: ");
                s.append(field.as_str());
                s
            },
            ValidationError::InvalidType(field, expected) => {
                let mut s = String::from_str("Invalid type for field '");
                s.append(field.as_str());
                s.append("': expected ");
                s.append(expected.as_str());
                s
            },
            ValidationError::InvalidRange(field, reason) => {
                let mut s = String::from_str("Invalid range for field '");
                s.append(field.as_str());
                s.append("': ");
                s.append(reason.as_str());
                s
            },
            ValidationError::InvalidValue(field, reason) => {
                let mut s = String::from_str("Invalid value for field '");
                s.append(field.as_str());
                s.append("': ");
                s.append(reason.as_str());
                s
            },
            ValidationError::MalformedInput(msg) => {
                let mut s = String::from_str("Malformed input: ");
                s.append(msg.as_str());
                s
            },
        }
    }
}

pub open spec fn result_view(r: Result<(), ValidationError>) -> Result<(), ValidationFailure> {
    match r {
        Ok(()) => Ok(()),
        Err(e) => Err(e@),
    }
}

/// `now - 300`, floored at zero.
pub open spec fn past_limit(now: u64) -> int {
    if now >= 300 {
        now - 300
    } else {
        0
    }
}

/// Checks of the basic fields, against the clock reading `now` (seconds):
/// the command, request id and sender must be non-empty and the timestamp
/// at most 60 s ahead of `now` and at most 300 s behind it.
pub open spec fn structure_spec(cmd: Command, now: u64) -> Result<(), ValidationFailure> {
    if cmd.command@.len() == 0 {
        Err(ValidationFailure::MissingField("command"@))
    } else if cmd.request_id@.len() == 0 {
        Err(ValidationFailure::MissingField("request_id"@))
    } else if cmd.from@.len() == 0 {
        Err(ValidationFailure::MissingField("from"@))
    } else if cmd.timestamp > now + 60 {
        Err(
            ValidationFailure::InvalidValue(
                "timestamp"@,
                "Timestamp "@ + decimal(cmd.timestamp as nat) + " is too far in future (now: "@
                    + decimal(now as nat) + ")"@,
            ),
        )
    } else if cmd.timestamp < past_limit(now) {
        Err(
            ValidationFailure::InvalidValue(
                "timestamp"@,
                "Timestamp "@ + decimal(cmd.timestamp as nat) + " is too far in past (now: "@
                    + decimal(now as nat) + ")"@,
            ),
        )
    } else {
        Ok(())
    }
}

pub open spec fn name_mismatch(expected: Seq<char>, got: Seq<char>) -> ValidationFailure {
    ValidationFailure::InvalidValue("command"@, "Expected "@ + expected + ", got "@ + got)
}

pub open spec fn get_capabilities_spec(cmd: Command, now: u64) -> Result<(), ValidationFailure> {
    if structure_spec(cmd, now) is Err {
        structure_spec(cmd, now)
    } else if cmd.command@ != "GET_CAPABILITIES"@ {
        Err(name_mismatch("GET_CAPABILITIES"@, cmd.command@))
    } else {
        Ok(())
    }
}

/// An optional non-negative integer parameter with an upper bound.
pub open spec fn bounded_u64_param(p: Map<Seq<char>, JsonValue>, key: Seq<char>, max: u64) -> Option<
    ValidationFailure,
> {
    if !p.dom().contains(key) {
        None
    } else if p[key].spec_as_u64() is None {
        Some(ValidationFailure::InvalidType(key, "u64"@))
    } else if p[key].spec_as_u64()->0 > max {
        Some(
            ValidationFailure::InvalidRange(
                key,
                key + " "@ + decimal(p[key].spec_as_u64()->0 as nat) + " exceeds maximum "@
                    + decimal(max as nat),
            ),
        )
    } else {
        None
    }
}

pub open spec fn load_shard_spec(cmd: Command, now: u64) -> Result<(), ValidationFailure> {
    if structure_spec(cmd, now) is Err {
        structure_spec(cmd, now)
    } else if cmd.command@ != "LOAD_SHARD"@ {
        Err(name_mismatch("LOAD_SHARD"@, cmd.command@))
    } else if !cmd.params@.dom().contains("shard_id"@) {
        Err(ValidationFailure::MissingField("shard_id"@))
    } else if bounded_u64_param(cmd.params@, "shard_id"@, 1000) is Some {
        Err(bounded_u64_param(cmd.params@, "shard_id"@, 1000)->0)
    } else {
        Ok(())
    }
}

/// Text of a JSON number read as an `f64`: the rendered text of a float,
/// the decimal digits (with a minus sign when negative) of an integer.
pub open spec fn number_text(v: JsonValue) -> Seq<char> {
    match v {
        JsonValue::UInt(u) => decimal(u as nat),
        JsonValue::NegInt(i) => if i < 0 {
            "-"@ + decimal((-i) as nat)
        } else {
            decimal(i as nat)
        },
        JsonValue::Float { display, .. } => display@,
        _ => Seq::empty(),
    }
}

/// Whether a JSON number, read as an `f64`, lies outside `[0.0, 2.0]`.
pub open spec fn temperature_out_of_range(v: JsonValue) -> bool {
    match v {
        JsonValue::UInt(u) => u > 2,
        JsonValue::NegInt(i) => i < 0 || i > 2,
        JsonValue::Float { bits, .. } => f64_bits_below_zero(bits) || f64_bits_above(
            bits,
            f64_two_bits(),
        ),
        _ => false,
    }
}

pub open spec fn task_type_check(p: Map<Seq<char>, JsonValue>) -> Option<ValidationFailure> {
    if !p.dom().contains("task_type"@) || p["task_type"@].spec_as_str() is None {
        Some(ValidationFailure::MissingField("task_type"@))
    } else if p["task_type"@].spec_as_str()->0 != "llama_fragment"@ && p["task_type"@].spec_as_str()->0
        != "ai_inference"@ {
        Some(
            ValidationFailure::InvalidValue(
                "task_type"@,
                "Invalid task_type: "@ + p["task_type"@].spec_as_str()->0
                    + ". Must be 'llama_fragment' or 'ai_inference'"@,
            ),
        )
    } else {
        None
    }
}

pub open spec fn input_data_check(p: Map<Seq<char>, JsonValue>) -> Option<ValidationFailure> {
    if !p.dom().contains("input_data"@) {
        None
    } else {
        match p["input_data"@] {
            JsonValue::Str(s) => if vstd::utf8::encode_utf8(s@).len() > 1_000_000 {
                Some(
                    ValidationFailure::InvalidRange(
                        "input_data"@,
                        "input_data length "@ + decimal(vstd::utf8::encode_utf8(s@).len())
                            + " exceeds maximum 1MB"@,
                    ),
                )
            } else {
                None
            },
            _ => Some(ValidationFailure::InvalidType("input_data"@, "string"@)),
        }
    }
}

pub open spec fn max_tokens_check(p: Map<Seq<char>, JsonValue>) -> Option<ValidationFailure> {
    if !p.dom().contains("max_tokens"@) {
        None
    } else if p["max_tokens"@].spec_as_u64() is None {
        Some(ValidationFailure::InvalidType("max_tokens"@, "u64"@))
    } else if p["max_tokens"@].spec_as_u64()->0 == 0 || p["max_tokens"@].spec_as_u64()->0 > 100_000 {
        Some(
            ValidationFailure::InvalidRange(
                "max_tokens"@,
                "max_tokens "@ + decimal(p["max_tokens"@].spec_as_u64()->0 as nat)
                    + " must be between 1 and 100000"@,
            ),
        )
    } else {
        None
    }
}

pub open spec fn temperature_check(p: Map<Seq<char>, JsonValue>) -> Option<ValidationFailure> {
    if !p.dom().contains("temperature"@) {
        None
    } else if !p["temperature"@].spec_is_number() {
        Some(ValidationFailure::InvalidType("temperature"@, "f64"@))
    } else if temperature_out_of_range(p["temperature"@]) {
        Some(
            ValidationFailure::InvalidRange(
                "temperature"@,
                "temperature "@ + number_text(p["temperature"@]) + " must be between 0.0 and 2.0"@,
            ),
        )
    } else {
        None
    }
}

pub open spec fn layer_order_check(p: Map<Seq<char>, JsonValue>) -> Option<ValidationFailure> {
    if p.dom().contains("layer_end"@) && p.dom().contains("layer_start"@)
        && p["layer_start"@].spec_as_u64() is Some && p["layer_end"@].spec_as_u64()->0
        <= p["layer_start"@].spec_as_u64()->0 {
        Some(
            ValidationFailure::InvalidRange(
                "layer_end"@,
                "layer_end "@ + decimal(p["layer_end"@].spec_as_u64()->0 as nat)
                    + " must be greater than layer_start "@ + decimal(
                    p["layer_start"@].spec_as_u64()->0 as nat,
                ),
            ),
        )
    } else {
        None
    }
}

/// The first failing check among the parameter checks of EXECUTE_TASK, in
/// the order in which the validator applies them.
pub open spec fn execute_task_params_spec(p: Map<Seq<char>, JsonValue>) -> Option<ValidationFailure> {
    if task_type_check(p) is Some {
        task_type_check(p)
    } else if input_data_check(p) is Some {
        input_data_check(p)
    } else if max_tokens_check(p) is Some {
        max_tokens_check(p)
    } else if temperature_check(p) is Some {
        temperature_check(p)
    } else if bounded_u64_param(p, "shard_id"@, 1000) is Some {
        bounded_u64_param(p, "shard_id"@, 1000)
    } else if bounded_u64_param(p, "layer_start"@, 10000) is Some {
        bounded_u64_param(p, "layer_start"@, 10000)
    } else if bounded_u64_param(p, "layer_end"@, 10000) is Some {
        bounded_u64_param(p, "layer_end"@, 10000)
    } else {
        layer_order_check(p)
    }
}

pub open spec fn execute_task_spec(cmd: Command, now: u64) -> Result<(), ValidationFailure> {
    if structure_spec(cmd, now) is Err {
        structure_spec(cmd, now)
    } else if cmd.command@ != "EXECUTE_TASK"@ {
        Err(name_mismatch("EXECUTE_TASK"@, cmd.command@))
    } else if execute_task_params_spec(cmd.params@) is Some {
        Err(execute_task_params_spec(cmd.params@)->0)
    } else {
        Ok(())
    }
}

/// Validation of any command by its name: the dedicated checks for
/// GET_CAPABILITIES, LOAD_SHARD and EXECUTE_TASK, the basic field checks
/// for every other name.
pub open spec fn command_spec(cmd: Command, now: u64) -> Result<(), ValidationFailure> {
    if cmd.command@ == "GET_CAPABILITIES"@ {
        get_capabilities_spec(cmd, now)
    } else if cmd.command@ == "LOAD_SHARD"@ {
        load_shard_spec(cmd, now)
    } else if cmd.command@ == "EXECUTE_TASK"@ {
        execute_task_spec(cmd, now)
    } else {
        structure_spec(cmd, now)
    }
}

fn text(s: &str) -> (r: String)
    ensures
        r@ == s@,
{
    String::from_str(s)
}

fn timestamp_reason(ts: u64, middle: &str, now: u64) -> (r: String)
    ensures
        r@ == "Timestamp "@ + decimal(ts as nat) + middle@ + decimal(now as nat) + ")"@,
{
    let mut s = String::from_str("Timestamp ");
    append_decimal(&mut s, ts as u128);
    s.append(middle);
    append_decimal(&mut s, now as u128);
    s.append(")");
    s
}

/// Validates the basic fields of a command against the clock reading `now`.
pub fn validate_command_structure_at(cmd: &Command, now: u64) -> (r: Result<(), ValidationError>)
    ensures
        result_view(r) == structure_spec(*cmd, now),
{
    if cmd.command.as_str().is_empty() {
        return Err(ValidationError::MissingField(text("command")));
    }
    if cmd.request_id.as_str().is_empty() {
        return Err(ValidationError::MissingField(text("request_id")));
    }
    if cmd.from.as_str().is_empty() {
        return Err(ValidationError::MissingField(text("from")));
    }
    if cmd.timestamp as u128 > now as u128 + 60 {
        return Err(
            ValidationError::InvalidValue(
                text("timestamp"),
                timestamp_reason(cmd.timestamp, " is too far in future (now: ", now),
            ),
        );
    }
    let limit = if now >= 300 {
        now - 300
    } else {
        0
    };
    if cmd.timestamp < limit {
        return Err(
            ValidationError::InvalidValue(
                text("timestamp"),
                timestamp_reason(cmd.timestamp, " is too far in past (now: ", now),
            ),
        );
    }
    Ok(())
}

/// Validates the basic fields of a command against the system clock.
pub fn validate_command_structure(cmd: &Command) -> (r: Result<(), ValidationError>)
    ensures
        exists|now: u64| result_view(r) == structure_spec(*cmd, now),
{
    let now = now_secs();
    validate_command_structure_at(cmd, now)
}

fn expect_name(cmd: &Command, expected: &str) -> (r: Result<(), ValidationError>)
    ensures
        cmd.command@ == expected@ ==> r is Ok,
        cmd.command@ != expected@ ==> result_view(r) == Err::<(), ValidationFailure>(
            name_mismatch(expected@, cmd.command@),
        ),
{
    if str_eq(cmd.command.as_str(), expected) {
        Ok(())
    } else {
        let mut reason = String::from_str("Expected ");
        reason.append(expected);
        reason.append(", got ");
        reason.append(cmd.command.as_str());
        Err(ValidationError::InvalidValue(text("command"), reason))
    }
}

/// Validates a GET_CAPABILITIES command against the clock reading `now`.
pub fn validate_get_capabilities_at(cmd: &Command, now: u64) -> (r: Result<(), ValidationError>)
    ensures
        result_view(r) == get_capabilities_spec(*cmd, now),
{
    validate_command_structure_at(cmd, now)?;
    proof {
        reveal_strlit("GET_CAPABILITIES");
    }
    expect_name(cmd, GET_CAPABILITIES)
}

/// Validates a GET_CAPABILITIES command against the system clock.
pub fn validate_get_capabilities(cmd: &Command) -> (r: Result<(), ValidationError>)
    ensures
        exists|now: u64| result_view(r) == get_capabilities_spec(*cmd, now),
{
    validate_get_capabilities_at(cmd, now_secs())
}

fn bounded_u64(p: &Params, key: &str, max: u64) -> (r: Option<ValidationError>)
    ensures
        match r {
            None => bounded_u64_param(p@, key@, max) is None,
            Some(e) => bounded_u64_param(p@, key@, max) == Some(e@),
        },
{
    match p.get(key) {
        None => None,
        Some(v) => match v.as_u64() {
            None => Some(ValidationError::InvalidType(text(key), text("u64"))),
            Some(n) => {
                if n > max {
                    let mut reason = String::from_str(key);
                    reason.append(" ");
                    append_decimal(&mut reason, n as u128);
                    reason.append(" exceeds maximum ");
                    append_decimal(&mut reason, max as u128);
                    Some(ValidationError::InvalidRange(text(key), reason))
                } else {
                    None
                }
            },
        },
    }
}

/// Validates a LOAD_SHARD command against the clock reading `now`.
pub fn validate_load_shard_at(cmd: &Command, now: u64) -> (r: Result<(), ValidationError>)
    ensures
        result_view(r) == load_shard_spec(*cmd, now),
{
    validate_command_structure_at(cmd, now)?;
    proof {
        reveal_strlit("LOAD_SHARD");
        reveal_strlit("shard_id");
    }
    expect_name(cmd, LOAD_SHARD)?;
    if !cmd.params.contains_key("shard_id") {
        return Err(ValidationError::MissingField(text("shard_id")));
    }
    match bounded_u64(&cmd.params, "shard_id", 1000) {
        Some(e) => Err(e),
        None => Ok(()),
    }
}

/// Validates a LOAD_SHARD command against the system clock.
pub fn validate_load_shard(cmd: &Command) -> (r: Result<(), ValidationError>)
    ensures
        exists|now: u64| result_view(r) == load_shard_spec(*cmd, now),
{
    validate_load_shard_at(cmd, now_secs())
}

fn check_task_type(p: &Params) -> (r: Option<ValidationError>)
    ensures
        match r {
            None => task_type_check(p@) is None,
            Some(e) => task_type_check(p@) == Some(e@),
        },
{
    proof {
        reveal_strlit("task_type");
    }
    let t = match p.get("task_type") {
        None => {
            return Some(ValidationError::MissingField(text("task_type")));
        },
        Some(v) => match v.as_str() {
            None => {
                return Some(ValidationError::MissingField(text("task_type")));
            },
            Some(t) => t,
        },
    };
    if !str_eq(t, "llama_fragment") && !str_eq(t, "ai_inference") {
        let mut reason = String::from_str("Invalid task_type: ");
        reason.append(t);
        reason.append(". Must be 'llama_fragment' or 'ai_inference'");
        return Some(ValidationError::InvalidValue(text("task_type"), reason));
    }
    None
}

fn check_input_data(p: &Params) -> (r: Option<ValidationError>)
    ensures
        match r {
            None => input_data_check(p@) is None,
            Some(e) => input_data_check(p@) == Some(e@),
        },
{
    proof {
        reveal_strlit("input_data");
    }
    match p.get("input_data") {
        None => None,
        Some(v) => match v {
            JsonValue::Str(s) => {
                let n = s.as_str().as_bytes().len();
                if n > 1_000_000 {
                    let mut reason = String::from_str("input_data length ");
                    append_decimal(&mut reason, n as u128);
                    reason.append(" exceeds maximum 1MB");
                    Some(ValidationError::InvalidRange(text("input_data"), reason))
                } else {
                    None
                }
            },
            _ => Some(ValidationError::InvalidType(text("input_data"), text("string"))),
        },
    }
}

fn check_max_tokens(p: &Params) -> (r: Option<ValidationError>)
    ensures
        match r {
            None => max_tokens_check(p@) is None,
            Some(e) => max_tokens_check(p@) == Some(e@),
        },
{
    proof {
        reveal_strlit("max_tokens");
    }
    match p.get("max_tokens") {
        None => None,
        Some(v) => match v.as_u64() {
            None => Some(ValidationError::InvalidType(text("max_tokens"), text("u64"))),
            Some(n) => {
                if n == 0 || n > 100_000 {
                    let mut reason = String::from_str("max_tokens ");
                    append_decimal(&mut reason, n as u128);
                    reason.append(" must be between 1 and 100000");
                    Some(ValidationError::InvalidRange(text("max_tokens"), reason))
                } else {
                    None
                }
            },
        },
    }
}

/// Text of a JSON number read as an `f64` (see `number_text`).
pub fn render_number(v: &JsonValue) -> (r: String)
    ensures
        r@ == number_text(*v),
{
    match v {
        JsonValue::UInt(u) => crate::text::u128_to_decimal(*u as u128),
        JsonValue::NegInt(i) => {
            if *i < 0 {
                let mut s = String::from_str("-");
                let mag: u128 = (0i128 - (*i as i128)) as u128;
                append_decimal(&mut s, mag);
                s
            } else {
                crate::text::u128_to_decimal(*i as u128)
            }
        },
        JsonValue::Float { display, .. } => display.clone(),
        _ => String::new(),
    }
}

/// Whether a JSON number, read as an `f64`, lies outside `[0.0, 2.0]`.
pub fn temperature_outside_range(v: &JsonValue) -> (r: bool)
    ensures
        r == temperature_out_of_range(*v),
{
    match v {
        JsonValue::UInt(u) => *u > 2,
        JsonValue::NegInt(i) => *i < 0 || *i > 2,
        JsonValue::Float { bits, .. } => {
            let b = *bits;
            let nan = (b & 0x7ff0_0000_0000_0000u64) == 0x7ff0_0000_0000_0000u64 && (b
                & 0x000f_ffff_ffff_ffffu64) != 0;
            let below = !nan && (b & 0x8000_0000_0000_0000u64) != 0 && (b
                & 0x7fff_ffff_ffff_ffffu64) != 0;
            let above = !nan && (b & 0x8000_0000_0000_0000u64) == 0 && b
                > 0x4000_0000_0000_0000u64;
            below || above
        },
        _ => false,
    }
}

fn check_temperature(p: &Params) -> (r: Option<ValidationError>)
    ensures
        match r {
            None => temperature_check(p@) is None,
            Some(e) => temperature_check(p@) == Some(e@),
        },
{
    proof {
        reveal_strlit("temperature");
    }
    match p.get("temperature") {
        None => None,
        Some(v) => {
            if !v.is_number() {
                Some(ValidationError::InvalidType(text("temperature"), text("f64")))
            } else if temperature_outside_range(v) {
                let mut reason = String::from_str("temperature ");
                let t = render_number(v);
                reason.append(t.as_str());
                reason.append(" must be between 0.0 and 2.0");
                Some(ValidationError::InvalidRange(text("temperature"), reason))
            } else {
                None
            }
        },
    }
}

fn check_layer_order(p: &Params) -> (r: Option<ValidationError>)
    requires
        bounded_u64_param(p@, "layer_end"@, 10000) is None,
    ensures
        match r {
            None => layer_order_check(p@) is None,
            Some(e) => layer_order_check(p@) == Some(e@),
        },
{
    proof {
        reveal_strlit("layer_end");
        reveal_strlit("layer_start");
    }
    match p.get("layer_end") {
        None => None,
        Some(ve) => match ve.as_u64() {
            None => None,
            Some(e) => match p.get("layer_start") {
                None => None,
                Some(vs) => match vs.as_u64() {
                    None => None,
                    Some(s) => {
                        if e <= s {
                            let mut reason = String::from_str("layer_end ");
                            append_decimal(&mut reason, e as u128);
                            reason.append(" must be greater than layer_start ");
                            append_decimal(&mut reason, s as u128);
                            Some(ValidationError::InvalidRange(text("layer_end"), reason))
                        } else {
                            None
                        }
                    },
                },
            },
        },
    }
}

/// Validates an EXECUTE_TASK command against the clock reading `now`.
pub fn validate_execute_task_at(cmd: &Command, now: u64) -> (r: Result<(), ValidationError>)
    ensures
        result_view(r) == execute_task_spec(*cmd, now),
        r is Ok ==> cmd.params@.dom().contains("task_type"@) && (cmd.params@["task_type"@] matches JsonValue::Str(
            t,
        ) && (t@ == "llama_fragment"@ || t@ == "ai_inference"@)),
        cmd.params@.dom().contains("task_type"@) && (cmd.params@["task_type"@] matches JsonValue::Str(t) && t@
            != "llama_fragment"@ && t@ != "ai_inference"@) ==> r is Err,
{
    proof {
        lemma_execute_task_type(*cmd, now);
    }
    validate_command_structure_at(cmd, now)?;
    proof {
        reveal_strlit("EXECUTE_TASK");
        reveal_strlit("shard_id");
        reveal_strlit("layer_start");
        reveal_strlit("layer_end");
    }
    expect_name(cmd, EXECUTE_TASK)?;
    let p = &cmd.params;
    if let Some(e) = check_task_type(p) {
        return Err(e);
    }
    if let Some(e) = check_input_data(p) {
        return Err(e);
    }
    if let Some(e) = check_max_tokens(p) {
        return Err(e);
    }
    if let Some(e) = check_temperature(p) {
        return Err(e);
    }
    if let Some(e) = bounded_u64(p, "shard_id", 1000) {
        return Err(e);
    }
    if let Some(e) = bounded_u64(p, "layer_start", 10000) {
        return Err(e);
    }
    if let Some(e) = bounded_u64(p, "layer_end", 10000) {
        return Err(e);
    }
    match check_layer_order(p) {
        Some(e) => Err(e),
        None => Ok(()),
    }
}

/// Validates an EXECUTE_TASK command against the system clock.
pub fn validate_execute_task(cmd: &Command) -> (r: Result<(), ValidationError>)
    ensures
        exists|now: u64| result_view(r) == execute_task_spec(*cmd, now),
        r is Ok ==> cmd.params@.dom().contains("task_type"@) && (cmd.params@["task_type"@] matches JsonValue::Str(
            t,
        ) && (t@ == "llama_fragment"@ || t@ == "ai_inference"@)),
        cmd.params@.dom().contains("task_type"@) && (cmd.params@["task_type"@] matches JsonValue::Str(t) && t@
            != "llama_fragment"@ && t@ != "ai_inference"@) ==> r is Err,
{
    validate_execute_task_at(cmd, now_secs())
}

/// Validates any command, by its name, against the clock reading `now`.
pub fn validate_command_at(cmd: &Command, now: u64) -> (r: Result<(), ValidationError>)
    ensures
        result_view(r) == command_spec(*cmd, now),
{
    let name = cmd.command.as_str();
    proof {
        reveal_strlit("GET_CAPABILITIES");
        reveal_strlit("LOAD_SHARD");
        reveal_strlit("EXECUTE_TASK");
    }
    if str_eq(name, GET_CAPABILITIES) {
        validate_get_capabilities_at(cmd, now)
    } else if str_eq(name, LOAD_SHARD) {
        validate_load_shard_at(cmd, now)
    } else if str_eq(name, EXECUTE_TASK) {
        validate_execute_task_at(cmd, now)
    } else {
        // GET_REPUTATION, UPDATE_REPUTATION, FIND_NODES, LIST_FILES,
        // GET_FILE_METADATA, REQUEST_PIECE and unknown names: basic checks

        validate_command_structure_at(cmd, now)
    }
}

/// Validates any command, by its name, against the system clock.
pub fn validate_command(cmd: &Command) -> (r: Result<(), ValidationError>)
    ensures
        exists|now: u64| result_view(r) == command_spec(*cmd, now),
{
    validate_command_at(cmd, now_secs())
}

/// Law: an EXECUTE_TASK command passes only with a `task_type` string
/// that is "llama_fragment" or "ai_inference"; one with another string,
/// whose basic fields pass, is refused for its task type, naming it; and
/// one whose basic fields pass with only a known task type passes.
pub proof fn lemma_execute_task_type(cmd: Command, now: u64)
    ensures
        execute_task_spec(cmd, now) is Ok ==> cmd.params@.dom().contains("task_type"@) && (
        cmd.params@["task_type"@] matches JsonValue::Str(t) && (t@ == "llama_fragment"@ || t@ == "ai_inference"@)),
        cmd.params@.dom().contains("task_type"@) && (cmd.params@["task_type"@] matches JsonValue::Str(t) && t@
            != "llama_fragment"@ && t@ != "ai_inference"@) ==> execute_task_spec(cmd, now) is Err,
        structure_spec(cmd, now) is Ok && cmd.command@ == "EXECUTE_TASK"@ && cmd.params@.dom().contains(
            "task_type"@,
        ) && (cmd.params@["task_type"@] matches JsonValue::Str(t) && t@ != "llama_fragment"@ && t@
            != "ai_inference"@) ==> execute_task_spec(cmd, now) == Err::<(), ValidationFailure>(
            ValidationFailure::InvalidValue(
                "task_type"@,
                "Invalid task_type: "@ + cmd.params@["task_type"@]->Str_0@
                    + ". Must be 'llama_fragment' or 'ai_inference'"@,
            ),
        ),
        structure_spec(cmd, now) is Ok && cmd.command@ == "EXECUTE_TASK"@ && cmd.params@.dom() =~= set!["task_type"@]
            && (cmd.params@["task_type"@] matches JsonValue::Str(t) && (t@ == "llama_fragment"@ || t@
            == "ai_inference"@)) ==> execute_task_spec(cmd, now) is Ok,
{
    reveal_strlit("task_type");
    reveal_strlit("input_data");
    reveal_strlit("max_tokens");
    reveal_strlit("temperature");
    reveal_strlit("shard_id");
    reveal_strlit("layer_start");
    reveal_strlit("layer_end");
    let d = cmd.params@.dom();
    if d =~= set!["task_type"@] {
        assert("input_data"@[0] != "task_type"@[0]);
        assert("input_data"@ != "task_type"@);
        assert(!d.contains("input_data"@));
        assert("max_tokens"@[0] != "task_type"@[0]);
        assert("max_tokens"@ != "task_type"@);
        assert(!d.contains("max_tokens"@));
        assert("temperature"@[1] != "task_type"@[1]);
        assert("temperature"@ != "task_type"@);
        assert(!d.contains("temperature"@));
        assert("shard_id"@[0] != "task_type"@[0]);
        assert("shard_id"@ != "task_type"@);
        assert(!d.contains("shard_id"@));
        assert("layer_start"@[0] != "task_type"@[0]);
        assert("layer_start"@ != "task_type"@);
        assert(!d.contains("layer_start"@));
        assert("layer_end"@[0] != "task_type"@[0]);
        assert("layer_end"@ != "task_type"@);
        assert(!d.contains("layer_end"@));
    }
}

} // verus!
