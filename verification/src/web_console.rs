//! The web console's serving decisions: which file a request path names,
//! its content type, the HTTP header of the answer, and the progress
//! updates a query produces.
use vstd::prelude::*;
use vstd::string::*;
use crate::pipeline_coordinator::{InferenceResponse, PipelineError};
use crate::text::{append_decimal, decimal, push_char, str_eq};
use crate::web_server::{PipelineUpdate, shard_stage, shard_updates, update};

verus! {

/// The page served for the root path.
pub const CONSOLE_PAGE: &'static str = "web/ai-console.html";

/// `s` without its leading `c` characters (what `trim_start_matches(c)`
/// gives).
pub open spec fn trim_leading(s: Seq<char>, c: char) -> Seq<char>
    decreases s.len(),
{
    if s.len() > 0 && s[0] == c {
        trim_leading(s.drop_first(), c)
    } else {
        s
    }
}

/// The file a request path names: the console page for `/` or an empty
/// path, else the path without its leading slashes.
pub open spec fn static_file_spec(path: Seq<char>) -> Seq<char> {
    if path == "/"@ || path.len() == 0 {
        CONSOLE_PAGE@
    } else {
        trim_leading(path, '/')
    }
}

/// The file a request path names.
pub fn static_file_path(path: &str) -> (r: String)
    ensures
        r@ == static_file_spec(path@),
{
    if str_eq(path, "/") || path.unicode_len() == 0 {
        return String::from_str(CONSOLE_PAGE);
    }
    let n = path.unicode_len();
    let mut i: usize = 0;
    assert(path@.skip(0) =~= path@);
    while i < n && path.get_char(i) == '/'
        invariant
            n == path@.len(),
            i <= n,
            trim_leading(path@, '/') == trim_leading(path@.skip(i as int), '/'),
        decreases n - i,
    {
        proof {
            assert(path@.skip(i as int).drop_first() =~= path@.skip(i + 1));
        }
        i = i + 1;
    }
    proof {
        assert(path@.skip(i as int) =~= path@.subrange(i as int, n as int));
    }
    String::from_str(path.substring_char(i, n))
}

/// The extension of a path, as `Path::extension` gives it.
pub uninterp spec fn path_extension(path: Seq<char>) -> Option<Seq<char>>;

/// The extension of a path.
///
/// Trusted: calls `std::path::Path::extension`, which yields the part of
/// the file name after its last `.` (none for a name without an inner
/// dot); a name that is not valid text gives none. The result depends on
/// the path alone and is named, not stated.
#[verifier::external_body]
fn file_extension(path: &str) -> (r: Option<String>)
    ensures
        match r {
            Some(e) => path_extension(path@) == Some(e@),
            None => path_extension(path@) is None,
        },
{
    std::path::Path::new(path).extension().and_then(|e| e.to_str()).map(|e| e.to_string())
}

/// The content type served for a file extension.
pub open spec fn content_type_spec(ext: Option<Seq<char>>) -> Seq<char> {
    match ext {
        Some(e) => if e == "html"@ {
            "text/html"@
        } else if e == "css"@ {
            "text/css"@
        } else if e == "js"@ {
            "application/javascript"@
        } else if e == "json"@ {
            "application/json"@
        } else if e == "png"@ {
            "image/png"@
        } else if e == "jpg"@ || e == "jpeg"@ {
            "image/jpeg"@
        } else if e == "svg"@ {
            "image/svg+xml"@
        } else {
            "application/octet-stream"@
        },
        None => "application/octet-stream"@,
    }
}

/// The content type served for an extension (none for a path without one).
pub fn content_type_for_extension(ext: Option<&str>) -> (r: &'static str)
    ensures
        r@ == content_type_spec(match ext {
            Some(e) => Some(e@),
            None => None,
        }),
{
    match ext {
        Some(e) => if str_eq(e, "html") {
            "text/html"
        } else if str_eq(e, "css") {
            "text/css"
        } else if str_eq(e, "js") {
            "application/javascript"
        } else if str_eq(e, "json") {
            "application/json"
        } else if str_eq(e, "png") {
            "image/png"
        } else if str_eq(e, "jpg") || str_eq(e, "jpeg") {
            "image/jpeg"
        } else if str_eq(e, "svg") {
            "image/svg+xml"
        } else {
            "application/octet-stream"
        },
        None => "application/octet-stream",
    }
}

/// The content type served for the file at `path`.
pub fn content_type_for(path: &str) -> (r: &'static str)
    ensures
        r@ == content_type_spec(path_extension(path@)),
{
    let ext = file_extension(path);
    match &ext {
        Some(e) => content_type_for_extension(Some(e.as_str())),
        None => content_type_for_extension(None),
    }
}

/// The header of a found file's answer.
pub open spec fn ok_header_spec(content_type: Seq<char>, len: usize) -> Seq<char> {
    "HTTP/1.1 200 OK\r\nContent-Type: "@ + content_type + "\r\nContent-Length: "@ + decimal(len as nat)
        + "\r\nAccess-Control-Allow-Origin: *\r\n\r\n"@
}

/// The header of a found file's answer, for a body of `len` bytes.
pub fn ok_header(content_type: &str, len: usize) -> (r: String)
    ensures
        r@ == ok_header_spec(content_type@, len),
{
    let mut h = String::from_str("HTTP/1.1 200 OK\r\nContent-Type: ");
    h.append(content_type);
    h.append("\r\nContent-Length: ");
    append_decimal(&mut h, len as u128);
    h.append("\r\nAccess-Control-Allow-Origin: *\r\n\r\n");
    h
}

/// The whole answer when no file is found.
pub const NOT_FOUND_RESPONSE: &'static str = "HTTP/1.1 404 Not Found\r\nContent-Length: 9\r\n\r\nNot Found";

/// A stage update, as plain values: stage, status, shard and latency.
pub open spec fn update_is(u: PipelineUpdate, stage: Seq<char>, status: Seq<char>, shard: Option<u32>, latency: Option<u64>) -> bool {
    u.stage@ == stage && u.status@ == status && u.shard_id == shard && u.latency_ms == latency
}

/// The updates streamed before a query is submitted: the input and the
/// discovery are being processed.
pub fn updates_before_submit() -> (r: Vec<PipelineUpdate>)
    ensures
        r@.len() == 2,
        update_is(r@[0], "input"@, "processing"@, None, None),
        update_is(r@[1], "discovery"@, "processing"@, None, None),
{
    let mut v: Vec<PipelineUpdate> = Vec::new();
    v.push(update("input", "processing", None, None));
    v.push(update("discovery", "processing", None, None));
    v
}

/// The updates streamed once a query's run ended with `result`: the
/// discovery is complete (100 ms); after a success, each shard's
/// processing and completion with its latency, then the output's
/// processing and completion (50 ms).
pub fn updates_after_run(result: &Result<InferenceResponse, PipelineError>) -> (r: Vec<PipelineUpdate>)
    ensures
        r@.len() >= 1,
        update_is(r@[0], "discovery"@, "complete"@, None, Some(100)),
        match *result {
            Ok(resp) => {
                let n = resp.shard_latencies@.len() as int;
                &&& r@.len() == 1 + 2 * n + 2
                &&& forall|i: int|
                    0 <= i < n ==> {
                        let id = resp.shard_latencies@[i].shard_id;
                        &&& update_is(#[trigger] r@[1 + 2 * i], shard_stage(id), "processing"@, Some(id), None)
                        &&& update_is(r@[2 + 2 * i], shard_stage(id), "complete"@, Some(id), Some(resp.shard_latencies@[i].latency_ms))
                    }
                &&& update_is(r@[1 + 2 * n], "output"@, "processing"@, None, None)
                &&& update_is(r@[2 + 2 * n], "output"@, "complete"@, None, Some(50))
            },
            Err(_) => r@.len() == 1,
        },
{
    let mut v: Vec<PipelineUpdate> = Vec::new();
    v.push(update("discovery", "complete", None, Some(100)));
    match result {
        Ok(resp) => {
            let mut shards = shard_updates(&resp.shard_latencies);
            let ghost s = shards@;
            let ghost first = v@;
            v.append(&mut shards);
            v.push(update("output", "processing", None, None));
            v.push(update("output", "complete", None, Some(50)));
            proof {
                let n = resp.shard_latencies@.len() as int;
                assert forall|i: int| 0 <= i < n implies {
                    let id = resp.shard_latencies@[i].shard_id;
                    &&& update_is(#[trigger] v@[1 + 2 * i], shard_stage(id), "processing"@, Some(id), None)
                    &&& update_is(v@[2 + 2 * i], shard_stage(id), "complete"@, Some(id), Some(resp.shard_latencies@[i].latency_ms))
                } by {
                    assert(v@[1 + 2 * i] == s[2 * i]);
                    assert(v@[2 + 2 * i] == s[2 * i + 1]);
                }
            }
        },
        Err(_) => {},
    }
    v
}

} // verus!
