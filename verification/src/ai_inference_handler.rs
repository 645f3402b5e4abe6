//! AI inference requests carried by `EXECUTE_TASK` commands: reading them
//! from a command, checking them, answering them (with a deterministic
//! stand-in for a model) and building the responses.
use vstd::prelude::*;
use vstd::string::*;
use crate::command_protocol::{
    Command, CommandResponse, JsonValue, Params, json_same, number_outside_unit_range, f64_one_bits, f64_two_bits,
    f64_bits_is_nan, f64_bits_below_zero, f64_bits_above, f64_sign_mask,
};
use crate::command_protocol::commands;
use crate::text::{append_decimal, decimal, lowercase, seq_contains, str_contains, str_eq, to_lowercase};

verus! {

/// An AI inference request. Temperature and top-p are the JSON numbers as
/// sent.
#[derive(Debug)]
pub struct AIInferenceRequest {
    pub model_name: String,
    pub input_data: JsonValue,
    pub max_tokens: Option<u32>,
    pub temperature: Option<JsonValue>,
    pub top_p: Option<JsonValue>,
    pub stream: Option<bool>,
    pub priority: Option<String>,
    pub timeout_seconds: Option<u32>,
}

/// A string parameter, if the command has one under `key`.
pub open spec fn param_str(p: Map<Seq<char>, JsonValue>, key: Seq<char>) -> Option<Seq<char>> {
    if p.dom().contains(key) {
        p[key].spec_as_str()
    } else {
        None
    }
}

/// An integer parameter, if the command has one under `key`.
pub open spec fn param_u64(p: Map<Seq<char>, JsonValue>, key: Seq<char>) -> Option<u64> {
    if p.dom().contains(key) {
        p[key].spec_as_u64()
    } else {
        None
    }
}

/// A number parameter, if the command has one under `key`.
pub open spec fn param_number(p: Map<Seq<char>, JsonValue>, key: Seq<char>) -> Option<JsonValue> {
    if p.dom().contains(key) && p[key].spec_is_number() {
        Some(p[key])
    } else {
        None
    }
}

/// A boolean parameter, if the command has one under `key`.
pub open spec fn param_bool(p: Map<Seq<char>, JsonValue>, key: Seq<char>) -> Option<bool> {
    if p.dom().contains(key) {
        p[key].spec_as_bool()
    } else {
        None
    }
}

pub open spec fn truncate_u32(o: Option<u64>) -> Option<u32> {
    match o {
        Some(v) => Some(v as u32),
        None => None,
    }
}

pub open spec fn opt_string_view(o: Option<String>) -> Option<Seq<char>> {
    match o {
        Some(s) => Some(s@),
        None => None,
    }
}

/// Why a command is not an AI inference request, if it is not one.
pub open spec fn from_command_error(cmd: Command) -> Option<Seq<char>> {
    let p = cmd.params@;
    if cmd.command@ != commands::EXECUTE_TASK@ {
        Some("Command is not EXECUTE_TASK"@)
    } else if param_str(p, "task_type"@) is None {
        Some("Missing task_type parameter"@)
    } else if param_str(p, "task_type"@)->0 != "ai_inference"@ {
        Some("Task type is not ai_inference, got: "@ + param_str(p, "task_type"@)->0)
    } else if param_str(p, "model_name"@) is None {
        Some("Missing model_name parameter"@)
    } else if !p.dom().contains("input_data"@) {
        Some("Missing input_data parameter"@)
    } else {
        None
    }
}

/// Why a request is invalid, if it is.
pub open spec fn validate_error(r: AIInferenceRequest) -> Option<Seq<char>> {
    if r.model_name@.len() == 0 {
        Some("Model name cannot be empty"@)
    } else if r.input_data matches JsonValue::Str(s) && s@.len() == 0 {
        Some("Input data cannot be empty"@)
    } else if r.input_data matches JsonValue::Array(a) && a@.len() == 0 {
        Some("Input data array cannot be empty"@)
    } else if r.temperature matches Some(t) && number_outside_unit_range(t, 2, f64_two_bits()) == Some(true) {
        Some("Temperature must be between 0.0 and 2.0"@)
    } else if r.top_p matches Some(t) && number_outside_unit_range(t, 1, f64_one_bits()) == Some(true) {
        Some("top_p must be between 0.0 and 1.0"@)
    } else {
        None
    }
}

/// A double's bits that are neither below zero nor above `limit_bits`
/// encode a value from +0.0 up to the limit, -0.0, or a NaN.
proof fn lemma_bits_within(bits: u64, limit_bits: u64)
    requires
        !f64_bits_below_zero(bits),
        !f64_bits_above(bits, limit_bits),
    ensures
        bits <= limit_bits || bits == 0x8000_0000_0000_0000u64 || f64_bits_is_nan(bits),
{
    assert(f64_sign_mask() == 0x8000_0000_0000_0000u64);
    if !f64_bits_is_nan(bits) && (bits & 0x8000_0000_0000_0000u64) != 0 {
        assert((bits & 0x7fff_ffff_ffff_ffffu64) == 0);
        assert(bits == 0x8000_0000_0000_0000u64) by (bit_vector)
            requires
                (bits & 0x8000_0000_0000_0000u64) != 0,
                (bits & 0x7fff_ffff_ffff_ffffu64) == 0,
        ;
    }
}

/// The converse: such bits are neither below zero nor above the limit.
proof fn lemma_bits_within_rev(bits: u64, limit_bits: u64)
    requires
        limit_bits < 0x8000_0000_0000_0000u64,
    ensures
        bits <= limit_bits || bits == 0x8000_0000_0000_0000u64 || f64_bits_is_nan(bits) ==> !f64_bits_below_zero(
            bits,
        ) && !f64_bits_above(bits, limit_bits),
{
    assert(f64_sign_mask() == 0x8000_0000_0000_0000u64);
    if bits <= limit_bits {
        assert((bits & 0x8000_0000_0000_0000u64) == 0) by (bit_vector)
            requires
                bits <= limit_bits,
                limit_bits < 0x8000_0000_0000_0000u64,
        ;
    }
    if bits == 0x8000_0000_0000_0000u64 {
        assert((bits & 0x7fff_ffff_ffff_ffffu64) == 0 && (bits & 0x8000_0000_0000_0000u64) != 0) by (bit_vector)
            requires
                bits == 0x8000_0000_0000_0000u64,
        ;
    }
}

/// Law: a request that passes validation has a model name, a temperature
/// (when given) between 0 and 2 and a top-p (when given) between 0 and 1:
/// an integer in range, or a double from +0.0 up to the bound (its bits at
/// most those of the bound), -0.0, or a NaN, which no comparison rules
/// out; and a request with all of these, and input that is not an empty
/// text or list, passes.
pub proof fn lemma_valid_request_ranges(r: AIInferenceRequest)
    ensures
        validate_error(r) is None ==> r.model_name@.len() > 0,
        validate_error(r) is None ==> !(r.input_data matches JsonValue::Str(s) && s@.len() == 0) && !(
        r.input_data matches JsonValue::Array(a) && a@.len() == 0),
        r.model_name@.len() > 0 && !(r.input_data matches JsonValue::Str(s) && s@.len() == 0) && !(
        r.input_data matches JsonValue::Array(a) && a@.len() == 0) && (r.temperature is None || match r.temperature->0 {
            JsonValue::UInt(u) => u <= 2,
            JsonValue::NegInt(i) => 0 <= i <= 2,
            JsonValue::Float { bits, .. } => bits <= 0x4000_0000_0000_0000u64 || bits == 0x8000_0000_0000_0000u64
                || f64_bits_is_nan(bits),
            _ => true,
        }) && (r.top_p is None || match r.top_p->0 {
            JsonValue::UInt(u) => u <= 1,
            JsonValue::NegInt(i) => 0 <= i <= 1,
            JsonValue::Float { bits, .. } => bits <= 0x3ff0_0000_0000_0000u64 || bits == 0x8000_0000_0000_0000u64
                || f64_bits_is_nan(bits),
            _ => true,
        }) ==> validate_error(r) is None,
        validate_error(r) is None && r.temperature is Some ==> match r.temperature->0 {
                JsonValue::UInt(u) => u <= 2,
                JsonValue::NegInt(i) => 0 <= i <= 2,
                JsonValue::Float { bits, .. } => bits <= 0x4000_0000_0000_0000u64 || bits == 0x8000_0000_0000_0000u64
                    || f64_bits_is_nan(bits),
                _ => true,
            },
        validate_error(r) is None && r.top_p is Some ==> match r.top_p->0 {
                JsonValue::UInt(u) => u <= 1,
                JsonValue::NegInt(i) => 0 <= i <= 1,
                JsonValue::Float { bits, .. } => bits <= 0x3ff0_0000_0000_0000u64 || bits == 0x8000_0000_0000_0000u64
                    || f64_bits_is_nan(bits),
                _ => true,
            },
{
    match r.temperature {
        Some(JsonValue::Float { bits, .. }) => lemma_bits_within_rev(bits, 0x4000_0000_0000_0000u64),
        _ => {},
    }
    match r.top_p {
        Some(JsonValue::Float { bits, .. }) => lemma_bits_within_rev(bits, 0x3ff0_0000_0000_0000u64),
        _ => {},
    }
    if validate_error(r) is None {
        match r.temperature {
            Some(JsonValue::Float { bits, .. }) => lemma_bits_within(bits, 0x4000_0000_0000_0000u64),
            _ => {},
        }
        match r.top_p {
            Some(JsonValue::Float { bits, .. }) => lemma_bits_within(bits, 0x3ff0_0000_0000_0000u64),
            _ => {},
        }
    }
}

/// Bits that are not from +0.0 up to the limit, not -0.0 and not a NaN
/// encode a double below zero or above the limit.
proof fn lemma_bits_outside(bits: u64, limit_bits: u64)
    requires
        limit_bits < 0x8000_0000_0000_0000u64,
        !(bits <= limit_bits || bits == 0x8000_0000_0000_0000u64 || f64_bits_is_nan(bits)),
    ensures
        f64_bits_below_zero(bits) || f64_bits_above(bits, limit_bits),
{
    assert(f64_sign_mask() == 0x8000_0000_0000_0000u64);
    if (bits & 0x8000_0000_0000_0000u64) != 0 {
        assert((bits & 0x7fff_ffff_ffff_ffffu64) != 0) by (bit_vector)
            requires
                (bits & 0x8000_0000_0000_0000u64) != 0,
                bits != 0x8000_0000_0000_0000u64,
        ;
    }
}

/// Law: a request with a model name, non-empty input and a temperature in
/// range (or none), whose top-p is a number outside `[0, 1]`, is refused
/// for its top-p.
pub proof fn lemma_top_p_refused(r: AIInferenceRequest)
    ensures
        r.model_name@.len() > 0 && !(r.input_data matches JsonValue::Str(s) && s@.len() == 0) && !(
        r.input_data matches JsonValue::Array(a) && a@.len() == 0) && (r.temperature is None || match r.temperature->0 {
            JsonValue::UInt(u) => u <= 2,
            JsonValue::NegInt(i) => 0 <= i <= 2,
            JsonValue::Float { bits, .. } => bits <= 0x4000_0000_0000_0000u64 || bits == 0x8000_0000_0000_0000u64
                || f64_bits_is_nan(bits),
            _ => true,
        }) && r.top_p is Some && (r.top_p->0 is UInt || r.top_p->0 is NegInt
            || r.top_p->0 is Float) && !match r.top_p->0 {
            JsonValue::UInt(u) => u <= 1,
            JsonValue::NegInt(i) => 0 <= i <= 1,
            JsonValue::Float { bits, .. } => bits <= 0x3ff0_0000_0000_0000u64 || bits == 0x8000_0000_0000_0000u64
                || f64_bits_is_nan(bits),
            _ => true,
        } ==> validate_error(r) == Some("top_p must be between 0.0 and 1.0"@),
{
    match r.temperature {
        Some(JsonValue::Float { bits, .. }) => lemma_bits_within_rev(bits, 0x4000_0000_0000_0000u64),
        _ => {},
    }
    match r.top_p {
        Some(JsonValue::Float { bits, .. }) => {
            if !(bits <= 0x3ff0_0000_0000_0000u64 || bits == 0x8000_0000_0000_0000u64 || f64_bits_is_nan(bits)) {
                lemma_bits_outside(bits, 0x3ff0_0000_0000_0000u64);
            }
        },
        _ => {},
    }
}

/// Whether a JSON number, read as an `f64`, lies outside `[0, limit]`
/// (`limit_bits` being the bits of `limit` as an `f64`).
pub fn number_outside(v: &JsonValue, limit: u64, limit_bits: u64) -> (r: bool)
    ensures
        r == (number_outside_unit_range(*v, limit, limit_bits) == Some(true)),
{
    match v {
        JsonValue::UInt(u) => *u > limit,
        JsonValue::NegInt(i) => *i < 0 || (*i >= 0 && (*i as u64) > limit),
        JsonValue::Float { bits, .. } => {
            let b = *bits;
            let nan = (b & 0x7ff0_0000_0000_0000u64) == 0x7ff0_0000_0000_0000u64 && (b
                & 0x000f_ffff_ffff_ffffu64) != 0;
            let below = !nan && (b & 0x8000_0000_0000_0000u64) != 0 && (b
                & 0x7fff_ffff_ffff_ffffu64) != 0;
            let above = !nan && (b & 0x8000_0000_0000_0000u64) == 0 && b > limit_bits;
            below || above
        },
        _ => false,
    }
}

fn get_str<'a>(p: &'a Params, key: &str) -> (r: Option<&'a str>)
    ensures
        match param_str(p@, key@) {
            Some(s) => r is Some && r->0@ == s,
            None => r is None,
        },
{
    match p.get(key) {
        Some(v) => v.as_str(),
        None => None,
    }
}

fn get_u64(p: &Params, key: &str) -> (r: Option<u64>)
    ensures
        r == param_u64(p@, key@),
{
    match p.get(key) {
        Some(v) => v.as_u64(),
        None => None,
    }
}

fn get_number(p: &Params, key: &str) -> (r: Option<JsonValue>)
    ensures
        match param_number(p@, key@) {
            Some(n) => r matches Some(m) && json_same(m, n),
            None => r is None,
        },
{
    match p.get(key) {
        Some(v) => if v.is_number() {
            Some(v.duplicate())
        } else {
            None
        },
        None => None,
    }
}

/// `req` is the request that the parameters of `cmd` give: the model name,
/// the input data, and the optional settings.
pub open spec fn reads_request(cmd: Command, req: AIInferenceRequest) -> bool {
    let p = cmd.params@;
    &&& req.model_name@ == param_str(p, "model_name"@)->0
    &&& json_same(req.input_data, p["input_data"@])
    &&& req.max_tokens == truncate_u32(param_u64(p, "max_tokens"@))
    &&& match param_number(p, "temperature"@) {
        Some(n) => req.temperature matches Some(t) && json_same(t, n),
        None => req.temperature is None,
    }
    &&& match param_number(p, "top_p"@) {
        Some(n) => req.top_p matches Some(t) && json_same(t, n),
        None => req.top_p is None,
    }
    &&& req.stream == param_bool(p, "stream"@)
    &&& opt_string_view(req.priority) == param_str(p, "priority"@)
    &&& req.timeout_seconds == truncate_u32(param_u64(p, "timeout_seconds"@))
}

impl AIInferenceRequest {
    /// Reads an AI inference request from an `EXECUTE_TASK` command with
    /// task type `ai_inference`, a model name and input data.
    pub fn from_command(cmd: &Command) -> (r: Result<AIInferenceRequest, String>)
        ensures
            match from_command_error(*cmd) {
                Some(e) => r matches Err(m) && m@ == e,
                None => r matches Ok(req) && reads_request(*cmd, req),
            },
    {
        if !str_eq(cmd.command.as_str(), commands::EXECUTE_TASK) {
            return Err(String::from_str("Command is not EXECUTE_TASK"));
        }
        let task_type = match get_str(&cmd.params, "task_type") {
            Some(t) => t,
            None => {
                return Err(String::from_str("Missing task_type parameter"));
            },
        };
        if !str_eq(task_type, "ai_inference") {
            let mut e = String::from_str("Task type is not ai_inference, got: ");
            e.append(task_type);
            return Err(e);
        }
        let model_name = match get_str(&cmd.params, "model_name") {
            Some(m) => String::from_str(m),
            None => {
                return Err(String::from_str("Missing model_name parameter"));
            },
        };
        let input_data = match cmd.params.get("input_data") {
            Some(v) => v.duplicate(),
            None => {
                return Err(String::from_str("Missing input_data parameter"));
            },
        };
        let max_tokens = match get_u64(&cmd.params, "max_tokens") {
            Some(v) => Some(v as u32),
            None => None,
        };
        let timeout_seconds = match get_u64(&cmd.params, "timeout_seconds") {
            Some(v) => Some(v as u32),
            None => None,
        };
        let stream = match cmd.params.get("stream") {
            Some(v) => v.as_bool(),
            None => None,
        };
        let priority = match get_str(&cmd.params, "priority") {
            Some(s) => Some(String::from_str(s)),
            None => None,
        };
        Ok(
            AIInferenceRequest {
                model_name,
                input_data,
                max_tokens,
                temperature: get_number(&cmd.params, "temperature"),
                top_p: get_number(&cmd.params, "top_p"),
                stream,
                priority,
                timeout_seconds,
            },
        )
    }

    /// Checks the request: a model name, non-empty input text or list, and
    /// temperature within `[0, 2]` and top-p within `[0, 1]` when given.
    pub fn validate(&self) -> (r: Result<(), String>)
        ensures
            match validate_error(*self) {
                Some(e) => r matches Err(m) && m@ == e,
                None => r is Ok,
            },
            r is Ok ==> self.model_name@.len() > 0,
            r is Ok ==> !(self.input_data matches JsonValue::Str(s) && s@.len() == 0) && !(
            self.input_data matches JsonValue::Array(a) && a@.len() == 0),
            self.model_name@.len() > 0 && !(self.input_data matches JsonValue::Str(s) && s@.len() == 0) && !(
            self.input_data matches JsonValue::Array(a) && a@.len() == 0) && (self.temperature is None || match self.temperature->0 {
                JsonValue::UInt(u) => u <= 2,
                JsonValue::NegInt(i) => 0 <= i <= 2,
                JsonValue::Float { bits, .. } => bits <= 0x4000_0000_0000_0000u64 || bits == 0x8000_0000_0000_0000u64
                    || f64_bits_is_nan(bits),
                _ => true,
            }) && (self.top_p is None || match self.top_p->0 {
                JsonValue::UInt(u) => u <= 1,
                JsonValue::NegInt(i) => 0 <= i <= 1,
                JsonValue::Float { bits, .. } => bits <= 0x3ff0_0000_0000_0000u64 || bits == 0x8000_0000_0000_0000u64
                    || f64_bits_is_nan(bits),
                _ => true,
            }) ==> r is Ok,
            r is Ok && self.temperature is Some ==> match self.temperature->0 {
                JsonValue::UInt(u) => u <= 2,
                JsonValue::NegInt(i) => 0 <= i <= 2,
                JsonValue::Float { bits, .. } => bits <= 0x4000_0000_0000_0000u64 || bits == 0x8000_0000_0000_0000u64
                    || f64_bits_is_nan(bits),
                _ => true,
            },
            r is Ok && self.top_p is Some ==> match self.top_p->0 {
                JsonValue::UInt(u) => u <= 1,
                JsonValue::NegInt(i) => 0 <= i <= 1,
                JsonValue::Float { bits, .. } => bits <= 0x3ff0_0000_0000_0000u64 || bits == 0x8000_0000_0000_0000u64
                    || f64_bits_is_nan(bits),
                _ => true,
            },
    {
        proof {
            lemma_valid_request_ranges(*self);
        }
        if self.model_name.unicode_len() == 0 {
            return Err(String::from_str("Model name cannot be empty"));
        }
        match &self.input_data {
            JsonValue::Str(s) => {
                if s.unicode_len() == 0 {
                    return Err(String::from_str("Input data cannot be empty"));
                }
            },
            JsonValue::Array(a) => {
                if a.len() == 0 {
                    return Err(String::from_str("Input data array cannot be empty"));
                }
            },
            _ => {},
        }
        match &self.temperature {
            Some(t) => {
                if number_outside(t, 2, 0x4000_0000_0000_0000u64) {
                    return Err(String::from_str("Temperature must be between 0.0 and 2.0"));
                }
            },
            None => {},
        }
        match &self.top_p {
            Some(t) => {
                if number_outside(t, 1, 0x3ff0_0000_0000_0000u64) {
                    return Err(String::from_str("top_p must be between 0.0 and 1.0"));
                }
            },
            None => {},
        }
        Ok(())
    }
}

/// The answer text given for the question why the sky is blue.
pub open spec fn sky_answer() -> Seq<char> {
    "The sky looks blue mainly because of Rayleigh scattering: molecules in Earth’s atmosphere scatter shorter wavelengths of sunlight much more strongly than longer wavelengths. Blue light (shorter wavelength) gets scattered in many directions across the sky, so when you look up you see more scattered blue light coming from all around. At sunrise and sunset, sunlight passes through more atmosphere, scattering out much of the blue and leaving the reds and oranges to dominate."@
}

/// The output the stand-in model gives for some input.
pub open spec fn inference_output(input: JsonValue) -> Seq<char> {
    match input {
        JsonValue::Str(text) => {
            let normalized = lowercase(text@);
            if seq_contains(normalized, "why is the sky blue"@) || seq_contains(normalized, "why's the sky blue"@) {
                sky_answer()
            } else {
                "AI Response to: "@ + text@
            }
        },
        JsonValue::Array(items) => "AI Response to batch of "@ + decimal(items@.len()) + " items"@,
        _ => "AI Response"@,
    }
}

/// Bits of the `f64` 125.5 (the reported latency).
pub const LATENCY_BITS: u64 = 0x405f_6000_0000_0000u64;

/// The value under `key` in a JSON object (the last entry with that key),
/// if the value is an object that has it.
pub open spec fn entries_lookup(e: Seq<(String, JsonValue)>, key: Seq<char>) -> Option<JsonValue>
    decreases e.len(),
{
    if e.len() == 0 {
        None
    } else if e.last().0@ == key {
        Some(e.last().1)
    } else {
        entries_lookup(e.drop_last(), key)
    }
}

pub open spec fn value_lookup(v: JsonValue, key: Seq<char>) -> Option<JsonValue> {
    match v {
        JsonValue::Object(e) => entries_lookup(e@, key),
        _ => None,
    }
}

/// The value under `key`, if `v` is an object that has it.
pub fn value_get<'a>(v: &'a JsonValue, key: &str) -> (r: Option<&'a JsonValue>)
    ensures
        match value_lookup(*v, key@) {
            Some(x) => r is Some && *r->0 == x,
            None => r is None,
        },
{
    match v {
        JsonValue::Object(e) => {
            let mut i: usize = e.len();
            assert(e@.subrange(0, e@.len() as int) =~= e@);
            while i > 0
                invariant
                    i <= e@.len(),
                    value_lookup(*v, key@) == entries_lookup(e@, key@),
                    entries_lookup(e@, key@) == entries_lookup(e@.subrange(0, i as int), key@),
                decreases i,
            {
                let ghost pre = e@.subrange(0, i as int);
                assert(pre.drop_last() =~= e@.subrange(0, i - 1));
                assert(pre.last() == e@[i - 1]);
                if str_eq(e[i - 1].0.as_str(), key) {
                    assert(entries_lookup(pre, key@) == Some(e@[i - 1].1));
                    return Some(&e[i - 1].1);
                }
                i = i - 1;
            }
            assert(e@.subrange(0, 0) =~= Seq::<(String, JsonValue)>::empty());
            assert(e@.subrange(0, e@.len() as int) =~= e@);
            None
        },
        _ => None,
    }
}

/// The result the stand-in model gives: an object of the latency (125.5),
/// the model, the output and the tokens used (100), with keys in order.
pub open spec fn inference_result_is(v: JsonValue, request: AIInferenceRequest) -> bool {
    &&& v matches JsonValue::Object(e)
    &&& e@.len() == 4
    &&& e@[0].0@ == "latency_ms"@
    &&& e@[0].1 matches JsonValue::Float { bits, display } && bits == LATENCY_BITS && display@ == "125.5"@
    &&& e@[1].0@ == "model"@ && e@[1].1.spec_as_str() == Some(request.model_name@)
    &&& e@[2].0@ == "output"@ && e@[2].1.spec_as_str() == Some(inference_output(request.input_data))
    &&& e@[3].0@ == "tokens_used"@ && e@[3].1 == JsonValue::UInt(100)
}

/// What answering `request` gives: the validation error of an invalid
/// request, else the stand-in model's result.
pub open spec fn inference_outcome(request: AIInferenceRequest, r: Result<JsonValue, String>) -> bool {
    match validate_error(request) {
        Some(e) => r matches Err(m) && m@ == e,
        None => r matches Ok(v) && inference_result_is(v, request),
    }
}

/// Answers an AI inference request: an invalid request is refused with its
/// error; otherwise the stand-in model's result.
pub fn process_ai_inference(request: &AIInferenceRequest) -> (r: Result<JsonValue, String>)
    ensures
        inference_outcome(*request, r),
{
    match request.validate() {
        Err(e) => {
            return Err(e);
        },
        Ok(()) => {},
    }
    let output = match &request.input_data {
        JsonValue::Str(text) => {
            let normalized = to_lowercase(text.as_str());
            if str_contains(normalized.as_str(), "why is the sky blue") || str_contains(
                normalized.as_str(),
                "why's the sky blue",
            ) {
                String::from_str(
                    "The sky looks blue mainly because of Rayleigh scattering: molecules in Earth’s atmosphere scatter shorter wavelengths of sunlight much more strongly than longer wavelengths. Blue light (shorter wavelength) gets scattered in many directions across the sky, so when you look up you see more scattered blue light coming from all around. At sunrise and sunset, sunlight passes through more atmosphere, scattering out much of the blue and leaving the reds and oranges to dominate.",
                )
            } else {
                let mut s = String::from_str("AI Response to: ");
                s.append(text.as_str());
                s
            }
        },
        JsonValue::Array(items) => {
            let mut s = String::from_str("AI Response to batch of ");
            append_decimal(&mut s, items.len() as u128);
            s.append(" items");
            s
        },
        _ => String::from_str("AI Response"),
    };
    let mut e: Vec<(String, JsonValue)> = Vec::new();
    e.push(
        (
            String::from_str("latency_ms"),
            JsonValue::Float { bits: LATENCY_BITS, display: String::from_str("125.5") },
        ),
    );
    e.push((String::from_str("model"), JsonValue::Str(request.model_name.clone())));
    e.push((String::from_str("output"), JsonValue::Str(output)));
    e.push((String::from_str("tokens_used"), JsonValue::UInt(100)));
    Ok(JsonValue::Object(e))
}

/// The keys copied from an inference result into a response.
pub open spec fn copied_key(k: Seq<char>) -> bool {
    k == "output"@ || k == "tokens_used"@ || k == "model"@ || k == "latency_ms"@
}

/// The result of a response to a request whose inference gave `result`:
/// its output, tokens used, model and latency, those it has.
pub open spec fn response_data_is(p: Map<Seq<char>, JsonValue>, result: JsonValue) -> bool {
    &&& forall|k: Seq<char>| #[trigger] p.dom().contains(k) ==> copied_key(k)
    &&& forall|k: Seq<char>|
        copied_key(k) ==> match value_lookup(result, k) {
            Some(x) => #[trigger] p.dom().contains(k) && json_same(p[k], x),
            None => !p.dom().contains(k),
        }
}

pub(crate) fn copy_key(data: &mut Params, result: &JsonValue, key: &str)
    ensures
        match value_lookup(*result, key@) {
            Some(x) => final(data)@ == old(data)@.insert(key@, final(data)@[key@]) && json_same(
                final(data)@[key@],
                x,
            ),
            None => final(data)@ == old(data)@,
        },
{
    match value_get(result, key) {
        Some(v) => {
            let c = v.duplicate();
            data.insert(String::from_str(key), c);
        },
        None => {},
    }
}

/// The answering node of a request: its target, or "unknown".
pub open spec fn responder(request: Command) -> Seq<char> {
    match request.to {
        Some(t) => t@,
        None => "unknown"@,
    }
}

/// The success response to an AI inference request whose inference gave
/// `result`, stamped with the current time.
pub fn create_ai_inference_response(request: &Command, result: &JsonValue) -> (r: CommandResponse)
    ensures
        r.command@ == request.command@,
        r.request_id@ == request.request_id@,
        r.from@ == responder(*request),
        r.to@ == request.from@,
        r.status == crate::command_protocol::ResponseStatus::Success,
        r.error is None,
        r.result matches Some(p) && response_data_is(p@, *result),
{
    let mut data = Params::new();
    copy_key(&mut data, result, "output");
    copy_key(&mut data, result, "tokens_used");
    copy_key(&mut data, result, "model");
    copy_key(&mut data, result, "latency_ms");
    proof {
        reveal_strlit("output");
        reveal_strlit("tokens_used");
        reveal_strlit("model");
        reveal_strlit("latency_ms");
        assert("output"@[0] != "tokens_used"@[0]);
        assert("output"@[0] != "model"@[0]);
        assert("output"@[0] != "latency_ms"@[0]);
        assert("tokens_used"@[0] != "model"@[0]);
        assert("tokens_used"@[0] != "latency_ms"@[0]);
        assert("model"@[0] != "latency_ms"@[0]);
    }
    let from: &str = match &request.to {
        Some(t) => t.as_str(),
        None => "unknown",
    };
    CommandResponse::success(request.command.as_str(), request.request_id.as_str(), from, request.from.as_str(), data)
}

/// The error response to an AI inference request, stamped with the
/// current time.
pub fn create_ai_inference_error_response(request: &Command, error: &str) -> (r: CommandResponse)
    ensures
        r.command@ == request.command@,
        r.request_id@ == request.request_id@,
        r.from@ == responder(*request),
        r.to@ == request.from@,
        r.status == crate::command_protocol::ResponseStatus::Error,
        r.result is None,
        opt_string_view(r.error) == Some(error@),
{
    let from: &str = match &request.to {
        Some(t) => t.as_str(),
        None => "unknown",
    };
    CommandResponse::error(request.command.as_str(), request.request_id.as_str(), from, request.from.as_str(), error)
}

} // verus!
