//! The llama.cpp inference path: which model file and settings the
//! `llama-cli` program is run with, and what is taken from its output.
//!
//! Reading the environment and running the program are the caller's; it
//! hands over the settings it read and what the program printed.
use vstd::prelude::*;
use vstd::string::*;
use crate::command_protocol::JsonValue;
use crate::text::{
    append_decimal, decimal, has_char, is_suffix, lowercase, parse_u32, parse_u32_spec, seq_contains, str_contains,
    str_ends_with, str_has_char, to_lowercase, trim, trimmed,
};

verus! {

/// A setting read from the environment: its value trimmed, when that is
/// not empty.
pub open spec fn env_value_spec(raw: Option<Seq<char>>) -> Option<Seq<char>> {
    match raw {
        Some(v) => if trimmed(v).len() > 0 {
            Some(trimmed(v))
        } else {
            None
        },
        None => None,
    }
}

pub open spec fn opt_str_view(o: Option<&str>) -> Option<Seq<char>> {
    match o {
        Some(s) => Some(s@),
        None => None,
    }
}

pub open spec fn opt_string_view(o: Option<String>) -> Option<Seq<char>> {
    match o {
        Some(s) => Some(s@),
        None => None,
    }
}

/// A setting read from the environment (`raw` is the variable's value, if
/// set): trimmed, and absent when empty.
pub fn env_value(raw: Option<&str>) -> (r: Option<String>)
    ensures
        opt_string_view(r) == env_value_spec(opt_str_view(raw)),
{
    match raw {
        Some(v) => {
            let t = trim(v);
            if t.unicode_len() > 0 {
                Some(t)
            } else {
                None
            }
        },
        None => None,
    }
}

/// Whether a model name looks like a file path: it has a separator, or
/// ends (in lower case) with `.gguf`.
pub open spec fn looks_like_path_spec(s: Seq<char>) -> bool {
    has_char(s, '\\') || has_char(s, '/') || is_suffix(".gguf"@, lowercase(s))
}

/// Whether a model name looks like a file path.
pub fn looks_like_path(s: &str) -> (r: bool)
    ensures
        r == looks_like_path_spec(s@),
{
    if str_has_char(s, '\\') || str_has_char(s, '/') {
        return true;
    }
    let lower = to_lowercase(s);
    str_ends_with(lower.as_str(), ".gguf")
}

/// The prompt of an inference: the input must be a string. `rendered` is
/// the input written as JSON, for the error.
pub fn parse_input_text(input_data: &JsonValue, rendered: &str) -> (r: Result<String, String>)
    ensures
        match input_data {
            JsonValue::Str(s) => r matches Ok(t) && t@ == s@,
            _ => r matches Err(e) && e@ == "input_data must be a string for llama.cpp backend, got: "@ + rendered@,
        },
{
    match input_data {
        JsonValue::Str(s) => Ok(s.clone()),
        _ => {
            let mut e = String::from_str("input_data must be a string for llama.cpp backend, got: ");
            e.append(rendered);
            Err(e)
        },
    }
}

/// The program to run, from the `LLAMA_CPP_EXE` setting.
pub fn require_exe(exe: Option<&str>) -> (r: Result<String, String>)
    ensures
        match exe {
            Some(e) => r matches Ok(x) && x@ == e@,
            None => r matches Err(m) && m@ == "LLAMA_CPP_EXE not set (path to llama-cli)"@,
        },
{
    match exe {
        Some(e) => Ok(String::from_str(e)),
        None => Err(String::from_str("LLAMA_CPP_EXE not set (path to llama-cli)")),
    }
}

/// The model file: the `LLAMA_GGUF_PATH` setting, else the model name when
/// it looks like a path.
pub fn select_gguf_path(gguf_setting: Option<&str>, model_name: &str) -> (r: Result<String, String>)
    ensures
        match gguf_setting {
            Some(p) => r matches Ok(x) && x@ == p@,
            None => if looks_like_path_spec(model_name@) {
                r matches Ok(x) && x@ == model_name@
            } else {
                r matches Err(m) && m@
                    == "LLAMA_GGUF_PATH not set (path to model.gguf), and model_name did not look like a path"@
            },
        },
{
    match gguf_setting {
        Some(p) => Ok(String::from_str(p)),
        None => if looks_like_path(model_name) {
            Ok(String::from_str(model_name))
        } else {
            Err(
                String::from_str(
                    "LLAMA_GGUF_PATH not set (path to model.gguf), and model_name did not look like a path",
                ),
            )
        },
    }
}

/// The thread count: the `LLAMA_THREADS` setting when it reads as a
/// number, else `default_threads`.
pub fn threads_from(setting: Option<&str>, default_threads: u32) -> (r: u32)
    ensures
        r == match setting {
            Some(s) => match parse_u32_spec(s@) {
                Some(n) => n,
                None => default_threads,
            },
            None => default_threads,
        },
{
    match setting {
        Some(s) => match parse_u32(s) {
            Some(n) => n,
            None => default_threads,
        },
        None => default_threads,
    }
}

/// Whether to pass `--no-mmap`: unless the `LLAMA_NO_MMAP` setting is `0`.
pub fn no_mmap_from(setting: Option<&str>) -> (r: bool)
    ensures
        r == match setting {
            Some(s) => s@ != "0"@,
            None => true,
        },
{
    match setting {
        Some(s) => !crate::text::str_eq(s, "0"),
        None => true,
    }
}

/// The arguments of `llama-cli`.
pub open spec fn cli_args_spec(
    gguf_path: Seq<char>,
    prompt: Seq<char>,
    max_tokens: u32,
    threads: u32,
    temperature_text: Seq<char>,
    top_p_text: Seq<char>,
    no_mmap: bool,
) -> Seq<Seq<char>> {
    seq![
        "-m"@,
        gguf_path,
        "-p"@,
        prompt,
        "-n"@,
        decimal(max_tokens as nat),
        "-t"@,
        decimal(threads as nat),
        "--temp"@,
        temperature_text,
        "--top-p"@,
        top_p_text,
    ] + if no_mmap {
        seq!["--no-mmap"@]
    } else {
        Seq::empty()
    }
}

/// The arguments of `llama-cli` (temperature and top-p as their text, with
/// three decimals).
pub fn cli_args(
    gguf_path: &str,
    prompt: &str,
    max_tokens: u32,
    threads: u32,
    temperature_text: &str,
    top_p_text: &str,
    no_mmap: bool,
) -> (r: Vec<String>)
    ensures
        r@.len() == cli_args_spec(gguf_path@, prompt@, max_tokens, threads, temperature_text@, top_p_text@, no_mmap).len(),
        forall|i: int|
            0 <= i < r@.len() ==> (#[trigger] r@[i])@ == cli_args_spec(
                gguf_path@,
                prompt@,
                max_tokens,
                threads,
                temperature_text@,
                top_p_text@,
                no_mmap,
            )[i],
{
    let mut v: Vec<String> = Vec::new();
    v.push(String::from_str("-m"));
    v.push(String::from_str(gguf_path));
    v.push(String::from_str("-p"));
    v.push(String::from_str(prompt));
    v.push(String::from_str("-n"));
    v.push(crate::text::u128_to_decimal(max_tokens as u128));
    v.push(String::from_str("-t"));
    v.push(crate::text::u128_to_decimal(threads as u128));
    v.push(String::from_str("--temp"));
    v.push(String::from_str(temperature_text));
    v.push(String::from_str("--top-p"));
    v.push(String::from_str(top_p_text));
    if no_mmap {
        v.push(String::from_str("--no-mmap"));
    }
    v
}

/// The debug rendering of an exit code: `Some(3)` or `None`.
pub open spec fn exit_code_text(code: Option<i32>) -> Seq<char> {
    match code {
        Some(c) => "Some("@ + (if c < 0 {
            "-"@ + decimal((-c) as nat)
        } else {
            decimal(c as nat)
        }) + ")"@,
        None => "None"@,
    }
}

/// The error for a run of `llama-cli` that failed.
pub fn failure_text(code: Option<i32>, stderr: &str, stdout: &str) -> (r: String)
    ensures
        r@ == "llama.cpp failed (exit="@ + exit_code_text(code) + ").\nSTDERR:\n"@ + stderr@ + "\nSTDOUT:\n"@
            + stdout@,
{
    let mut s = String::from_str("llama.cpp failed (exit=");
    match code {
        Some(c) => {
            s.append("Some(");
            if c < 0 {
                s.append("-");
                let m: i64 = -(c as i64);
                append_decimal(&mut s, m as u128);
            } else {
                append_decimal(&mut s, c as u128);
            }
            s.append(")");
        },
        None => {
            s.append("None");
        },
    }
    s.append(").\nSTDERR:\n");
    s.append(stderr);
    s.append("\nSTDOUT:\n");
    s.append(stdout);
    s
}

/// Index of the first occurrence of `p` in `s` at or after `from`, if any.
pub open spec fn first_from(s: Seq<char>, p: Seq<char>, from: int) -> Option<int>
    decreases s.len() + 1 - from,
{
    if from < 0 || from + p.len() > s.len() {
        None
    } else if s.subrange(from, from + p.len()) == p {
        Some(from)
    } else {
        first_from(s, p, from + 1)
    }
}

/// What `split(p).nth(1)` gives of `s` for a non-empty pattern: the text
/// between the first and the second occurrence of `p` (or the end).
pub open spec fn second_piece(s: Seq<char>, p: Seq<char>) -> Option<Seq<char>> {
    match first_from(s, p, 0) {
        Some(i) => {
            let start = i + p.len();
            match first_from(s, p, start) {
                Some(j) => Some(s.subrange(start, j)),
                None => Some(s.subrange(start, s.len() as int)),
            }
        },
        None => None,
    }
}

/// The completion in `llama-cli`'s output: when the output repeats the
/// prompt, what follows it (up to a repetition), else the whole output;
/// trimmed. (An empty prompt splits before every character: the first
/// character is taken.)
pub open spec fn completion_spec(stdout: Seq<char>, prompt: Seq<char>) -> Seq<char> {
    if prompt.len() == 0 {
        trimmed(
            if stdout.len() > 0 {
                stdout.subrange(0, 1)
            } else {
                Seq::empty()
            },
        )
    } else if seq_contains(stdout, prompt) {
        trimmed(
            match second_piece(stdout, prompt) {
                Some(t) => t,
                None => stdout,
            },
        )
    } else {
        trimmed(stdout)
    }
}

proof fn lemma_first_from_bounds(s: Seq<char>, p: Seq<char>, from: int)
    ensures
        first_from(s, p, from) matches Some(i) ==> from <= i && i + p.len() <= s.len() && s.subrange(i, i + p.len())
            == p,
    decreases s.len() + 1 - from,
{
    if !(from < 0 || from + p.len() > s.len()) && s.subrange(from, from + p.len()) != p {
        lemma_first_from_bounds(s, p, from + 1);
    }
}

proof fn lemma_first_from_found(s: Seq<char>, p: Seq<char>, from: int, k: int)
    requires
        0 <= from <= k,
        k + p.len() <= s.len(),
        s.subrange(k, k + p.len()) == p,
    ensures
        first_from(s, p, from) is Some,
        from <= first_from(s, p, from)->0 <= k,
    decreases k - from,
{
    if s.subrange(from, from + p.len()) != p {
        lemma_first_from_found(s, p, from + 1, k);
    }
}

/// The first occurrence of `p` in `s` at or after `from`.
fn find_from(s: &str, p: &str, from: usize) -> (r: Option<usize>)
    requires
        from <= s@.len(),
    ensures
        match first_from(s@, p@, from as int) {
            Some(i) => r == Some(i as usize),
            None => r is None,
        },
{
    let n = s.unicode_len();
    let m = p.unicode_len();
    let mut i = from;
    while m <= n - i
        invariant
            n == s@.len(),
            m == p@.len(),
            from <= i,
            i <= n,
            first_from(s@, p@, from as int) == first_from(s@, p@, i as int),
        decreases n - i,
    {
        let mut j: usize = 0;
        let mut same = true;
        while j < m
            invariant
                n == s@.len(),
                m == p@.len(),
                i + m <= n,
                j <= m,
                same == (forall|t: int| 0 <= t < j ==> s@[i + t] == p@[t]),
            decreases m - j,
        {
            if s.get_char(i + j) != p.get_char(j) {
                same = false;
            }
            j = j + 1;
        }
        if same {
            assert(s@.subrange(i as int, i + m) =~= p@);
            return Some(i);
        }
        assert(s@.subrange(i as int, i + m) != p@) by {
            let t = choose|t: int| 0 <= t < m && s@[i + t] != p@[t];
            assert(s@.subrange(i as int, i + m)[t] != p@[t]);
        }
        i = i + 1;
    }
    None
}

/// The completion in `llama-cli`'s output (see `completion_spec`); an
/// error when it is empty.
pub fn extract_completion(stdout: &str, prompt: &str) -> (r: Result<String, String>)
    ensures
        completion_spec(stdout@, prompt@).len() > 0 ==> (r matches Ok(c) && c@ == completion_spec(stdout@, prompt@)),
        completion_spec(stdout@, prompt@).len() == 0 ==> (r matches Err(e) && e@ == "llama.cpp returned empty output"@),
{
    let n = stdout.unicode_len();
    let m = prompt.unicode_len();
    let piece: &str = if m == 0 {
        if n > 0 {
            stdout.substring_char(0, 1)
        } else {
            stdout
        }
    } else if str_contains(stdout, prompt) {
        proof {
            lemma_first_from_bounds(stdout@, prompt@, 0);
        }
        match find_from(stdout, prompt, 0) {
            Some(i) => {
                let start = i + m;
                proof {
                    lemma_first_from_bounds(stdout@, prompt@, start as int);
                }
                match find_from(stdout, prompt, start) {
                    Some(j) => stdout.substring_char(start, j),
                    None => stdout.substring_char(start, n),
                }
            },
            None => stdout,
        }
    } else {
        stdout
    };
    proof {
        if m == 0 && n == 0 {
            assert(piece@ =~= Seq::<char>::empty());
        }
    }
    let completion = trim(piece);
    if completion.unicode_len() == 0 {
        return Err(String::from_str("llama.cpp returned empty output"));
    }
    Ok(completion)
}

} // verus!
