//! The pipeline coordinator: what to do with an inference request when the
//! shard pipeline is complete, and which strategy to follow when it is not
//! (fail at once, wait, load missing shards on nodes with room, spawn nodes,
//! or fall back to one node that can run the whole model).
//!
//! The coordinator here makes every decision and keeps every count; waiting,
//! spawning processes and sending commands are done by its caller, which
//! reports each outcome back. Latencies are whole milliseconds; the running
//! averages of latency and queue time are floating-point and kept by the
//! caller from the counts here.
use vstd::prelude::*;
use vstd::string::*;
use crate::command_protocol::{Command, CommandResponse, JsonValue, ResponseStatus, now_secs, opt_string_view};
use crate::command_protocol::commands;
use crate::kademlia_shard_discovery::{
    KademliaShardDiscovery, ShardAnnouncement, PipelineStatus, Replica, complete_spec, missing_spec, pipeline_spec,
    has_id, replicas_of, with_replica,
};
use crate::keyed::{entries_map, unique_keys, lemma_entries_value, lemma_entries_update, lemma_entries_push, find_key};
use crate::text::{append_decimal, decimal, u128_to_decimal, replace_all, replace_spec, split_words, words_spec};
use crate::kademlia_shard_discovery::lemma_filter_step;

verus! {

/// Strategy for handling incomplete pipelines.
#[derive(Debug)]
pub enum PipelineStrategy {
    /// Fail immediately if the pipeline is incomplete.
    FailFast,
    /// Wait for missing shards (with a timeout).
    WaitAndRetry { timeout_secs: u64, retry_interval_ms: u64 },
    /// Load missing shards on nodes with capacity.
    DynamicLoading {
        /// Maximum shards a single node can load
        max_shards_per_node: u32,
        /// Minimum available memory (MB) required to load a shard
        min_memory_mb: u64,
    },
    /// Fall back to one node that can run the full model.
    SingleNodeFallback {
        /// Minimum memory required for the full model
        required_memory_mb: u64,
    },
    /// Try dynamic loading, then wait, then spawn nodes, then fall back.
    Adaptive { wait_timeout_secs: u64, min_memory_for_shard_mb: u64, min_memory_for_full_mb: u64 },
    /// Spawn new nodes on demand when shards are missing.
    SpawnNodes {
        /// Maximum nodes to spawn per request
        max_nodes_per_request: u32,
        /// Minimum memory (MB) required per spawned node
        min_memory_per_node_mb: u64,
        /// Spawn command template: the command line that starts the node of
        /// a shard, with `{shard_id}` standing for the shard's id (e.g.
        /// "cargo run --bin shard_listener -- --shard-id {shard_id}")
        spawn_command_template: String,
        /// Timeout for a node to come online (seconds)
        node_startup_timeout_secs: u64,
    },
}

impl Default for PipelineStrategy {
    fn default() -> (r: PipelineStrategy)
        ensures
            r == (PipelineStrategy::Adaptive {
                wait_timeout_secs: 30,
                min_memory_for_shard_mb: 4096,
                min_memory_for_full_mb: 16384,
            }),
    {
        PipelineStrategy::Adaptive {
            wait_timeout_secs: 30,
            min_memory_for_shard_mb: 4096,
            min_memory_for_full_mb: 16384,
        }
    }
}

impl PipelineStrategy {
    /// A copy of the strategy.
    pub fn duplicate(&self) -> (r: PipelineStrategy)
        ensures
            r == *self,
    {
        match self {
            PipelineStrategy::FailFast => PipelineStrategy::FailFast,
            PipelineStrategy::WaitAndRetry { timeout_secs, retry_interval_ms } => PipelineStrategy::WaitAndRetry {
                timeout_secs: *timeout_secs,
                retry_interval_ms: *retry_interval_ms,
            },
            PipelineStrategy::DynamicLoading { max_shards_per_node, min_memory_mb } => PipelineStrategy::DynamicLoading {
                max_shards_per_node: *max_shards_per_node,
                min_memory_mb: *min_memory_mb,
            },
            PipelineStrategy::SingleNodeFallback { required_memory_mb } => PipelineStrategy::SingleNodeFallback {
                required_memory_mb: *required_memory_mb,
            },
            PipelineStrategy::Adaptive { wait_timeout_secs, min_memory_for_shard_mb, min_memory_for_full_mb } => {
                PipelineStrategy::Adaptive {
                    wait_timeout_secs: *wait_timeout_secs,
                    min_memory_for_shard_mb: *min_memory_for_shard_mb,
                    min_memory_for_full_mb: *min_memory_for_full_mb,
                }
            },
            PipelineStrategy::SpawnNodes {
                max_nodes_per_request,
                min_memory_per_node_mb,
                spawn_command_template,
                node_startup_timeout_secs,
            } => PipelineStrategy::SpawnNodes {
                max_nodes_per_request: *max_nodes_per_request,
                min_memory_per_node_mb: *min_memory_per_node_mb,
                spawn_command_template: spawn_command_template.clone(),
                node_startup_timeout_secs: *node_startup_timeout_secs,
            },
        }
    }
}

/// Bits of the `f32` 0.7 (the default temperature).
pub const F32_POINT_SEVEN_BITS: u32 = 0x3f33_3333u32;

/// Bits of the `f32` 0.9 (the default top-p).
pub const F32_POINT_NINE_BITS: u32 = 0x3f66_6666u32;

/// Inference request to be processed.
#[derive(Debug, Clone)]
pub struct InferenceRequest {
    pub request_id: String,
    pub prompt: String,
    pub max_tokens: u32,
    /// Sampling temperature, as the bits of an `f32`
    pub temperature: u32,
    /// Nucleus sampling bound, as the bits of an `f32`
    pub top_p: u32,
    pub context: Option<Vec<String>>,
    pub created_at: u64,
    pub priority: u32,
}

/// The hyphenated lower-case form of a UUID: 36 characters, hyphens at
/// positions 8, 13, 18 and 23, lower-case hexadecimal digits elsewhere.
pub open spec fn is_hyphenated_uuid(s: Seq<char>) -> bool {
    &&& s.len() == 36
    &&& forall|i: int|
        0 <= i < 36 ==> if i == 8 || i == 13 || i == 18 || i == 23 {
            #[trigger] s[i] == '-'
        } else {
            ('0' <= s[i] <= '9') || ('a' <= s[i] <= 'f')
        }
}

/// A random version-4 UUID in its hyphenated form.
///
/// Trusted: calls `uuid::Uuid::new_v4` and formats the result with
/// `to_string`, which in `uuid` writes the hyphenated lower-case form: 32
/// lower-case hexadecimal digits in groups of 8, 4, 4, 4 and 12, joined by
/// hyphens. The value is random, so only that form is stated.
#[verifier::external_body]
fn new_uuid_string() -> (r: String)
    ensures
        is_hyphenated_uuid(r@),
{
    uuid::Uuid::new_v4().to_string()
}

impl InferenceRequest {
    /// A request for `prompt` with the given id, created at time `now`, with
    /// the default settings: 256 tokens, temperature 0.7, top-p 0.9, no
    /// context, priority 0.
    pub fn new_at(prompt: &str, request_id: String, now: u64) -> (r: InferenceRequest)
        ensures
            r.request_id == request_id,
            r.prompt@ == prompt@,
            r.max_tokens == 256,
            r.temperature == F32_POINT_SEVEN_BITS,
            r.top_p == F32_POINT_NINE_BITS,
            r.context is None,
            r.created_at == now,
            r.priority == 0,
    {
        InferenceRequest {
            request_id,
            prompt: String::from_str(prompt),
            max_tokens: 256,
            temperature: F32_POINT_SEVEN_BITS,
            top_p: F32_POINT_NINE_BITS,
            context: None,
            created_at: now,
            priority: 0,
        }
    }

    /// A request for `prompt` with a fresh random id, created now, with the
    /// default settings.
    pub fn new(prompt: &str) -> (r: InferenceRequest)
        ensures
            is_hyphenated_uuid(r.request_id@),
            r.prompt@ == prompt@,
            r.max_tokens == 256,
            r.temperature == F32_POINT_SEVEN_BITS,
            r.top_p == F32_POINT_NINE_BITS,
            r.context is None,
            r.priority == 0,
    {
        let id = new_uuid_string();
        let now = now_secs();
        InferenceRequest::new_at(prompt, id, now)
    }

    /// The request with another token limit.
    pub fn with_max_tokens(self, tokens: u32) -> (r: InferenceRequest)
        ensures
            r == (InferenceRequest { max_tokens: tokens, ..self }),
    {
        InferenceRequest { max_tokens: tokens, ..self }
    }

    /// The request with another temperature (bits of an `f32`).
    pub fn with_temperature(self, temp: u32) -> (r: InferenceRequest)
        ensures
            r == (InferenceRequest { temperature: temp, ..self }),
    {
        InferenceRequest { temperature: temp, ..self }
    }

    /// The request with another priority.
    pub fn with_priority(self, priority: u32) -> (r: InferenceRequest)
        ensures
            r == (InferenceRequest { priority, ..self }),
    {
        InferenceRequest { priority, ..self }
    }
}

/// Latency of one shard's part of an inference.
#[derive(Debug)]
pub struct ShardLatency {
    pub shard_id: u32,
    pub node_id: String,
    /// Whole milliseconds
    pub latency_ms: u64,
}

/// Inference response.
#[derive(Debug)]
pub struct InferenceResponse {
    pub request_id: String,
    pub text: String,
    pub tokens_generated: u32,
    /// Whole milliseconds
    pub total_latency_ms: u64,
    pub shard_latencies: Vec<ShardLatency>,
    pub strategy_used: String,
    pub success: bool,
    pub error: Option<String>,
}

/// Pipeline coordinator state.
#[derive(Debug)]
pub enum CoordinatorState {
    /// Pipeline complete, ready to process
    Ready,
    /// Waiting for missing shards
    WaitingForShards { missing: Vec<u32> },
    /// Loading shards
    LoadingShards { loading: Vec<u32> },
    /// Using the single-node fallback
    FallbackMode { node_id: String },
    /// Pipeline unavailable
    Unavailable { reason: String },
}

/// The data of a coordinator state, with lists as sequences.
pub enum CoordinatorStateView {
    Ready,
    WaitingForShards { missing: Seq<u32> },
    LoadingShards { loading: Seq<u32> },
    FallbackMode { node_id: Seq<char> },
    Unavailable { reason: Seq<char> },
}

impl View for CoordinatorState {
    type V = CoordinatorStateView;

    open spec fn view(&self) -> CoordinatorStateView {
        match self {
            CoordinatorState::Ready => CoordinatorStateView::Ready,
            CoordinatorState::WaitingForShards { missing } => CoordinatorStateView::WaitingForShards {
                missing: missing@,
            },
            CoordinatorState::LoadingShards { loading } => CoordinatorStateView::LoadingShards {
                loading: loading@,
            },
            CoordinatorState::FallbackMode { node_id } => CoordinatorStateView::FallbackMode {
                node_id: node_id@,
            },
            CoordinatorState::Unavailable { reason } => CoordinatorStateView::Unavailable {
                reason: reason@,
            },
        }
    }
}

impl CoordinatorState {
    /// A copy of the state.
    pub fn duplicate(&self) -> (r: CoordinatorState)
        ensures
            r@ == self@,
    {
        match self {
            CoordinatorState::Ready => CoordinatorState::Ready,
            CoordinatorState::WaitingForShards { missing } => CoordinatorState::WaitingForShards {
                missing: copy_ids(missing),
            },
            CoordinatorState::LoadingShards { loading } => CoordinatorState::LoadingShards {
                loading: copy_ids(loading),
            },
            CoordinatorState::FallbackMode { node_id } => CoordinatorState::FallbackMode {
                node_id: node_id.clone(),
            },
            CoordinatorState::Unavailable { reason } => CoordinatorState::Unavailable {
                reason: reason.clone(),
            },
        }
    }
}

fn copy_ids(v: &Vec<u32>) -> (r: Vec<u32>)
    ensures
        r@ == v@,
{
    let mut out: Vec<u32> = Vec::new();
    let mut i: usize = 0;
    while i < v.len()
        invariant
            i <= v@.len(),
            out@ == v@.subrange(0, i as int),
        decreases v.len() - i,
    {
        out.push(v[i]);
        i = i + 1;
        assert(out@ =~= v@.subrange(0, i as int));
    }
    assert(v@.subrange(0, v@.len() as int) =~= v@);
    out
}

/// Pipeline errors.
#[derive(Debug)]
pub enum PipelineError {
    /// Pipeline incomplete and timeout expired
    Timeout { missing_shards: Vec<u32>, waited_secs: u64 },
    /// No fallback available
    NoFallback { reason: String },
    /// Shard loading failed
    ShardLoadFailed { shard_id: u32, error: String },
    /// Inference failed
    InferenceFailed { shard_id: u32, error: String },
    /// Request cancelled
    Cancelled,
    /// Internal error
    Internal { message: String },
}

/// The debug rendering of a list of shard ids without its brackets.
pub open spec fn id_list_body(s: Seq<u32>) -> Seq<char>
    decreases s.len(),
{
    if s.len() == 0 {
        Seq::empty()
    } else if s.len() == 1 {
        decimal(s[0] as nat)
    } else {
        id_list_body(s.drop_last()) + ", "@ + decimal(s.last() as nat)
    }
}

/// The debug rendering of a list of shard ids: `[0, 2, 3]`.
pub open spec fn id_list_text(s: Seq<u32>) -> Seq<char> {
    "["@ + id_list_body(s) + "]"@
}

/// Appends the debug rendering of a list of shard ids.
pub fn append_id_list(s: &mut String, ids: &Vec<u32>)
    ensures
        final(s)@ == old(s)@ + id_list_text(ids@),
{
    s.append("[");
    let ghost start = s@;
    let mut i: usize = 0;
    while i < ids.len()
        invariant
            i <= ids@.len(),
            s@ == start + id_list_body(ids@.subrange(0, i as int)),
        decreases ids.len() - i,
    {
        let ghost before = s@;
        if i > 0 {
            s.append(", ");
        }
        append_decimal(s, ids[i] as u128);
        proof {
            let t = ids@.subrange(0, i + 1);
            assert(t.drop_last() =~= ids@.subrange(0, i as int));
            assert(t.last() == ids@[i as int]);
            if i == 0 {
                assert(id_list_body(ids@.subrange(0, 0)) =~= Seq::<char>::empty());
                assert(s@ =~= start + id_list_body(t));
            } else {
                assert(s@ =~= start + id_list_body(t));
            }
        }
        i = i + 1;
    }
    assert(ids@.subrange(0, ids@.len() as int) =~= ids@);
    s.append("]");
    assert(s@ =~= old(s)@ + id_list_text(ids@));
}

/// The message of an error, as its `Display` writes it.
pub open spec fn error_message(e: PipelineError) -> Seq<char> {
    match e {
        PipelineError::Timeout { missing_shards, waited_secs } => "Timeout after "@ + decimal(
            waited_secs as nat,
        ) + "s waiting for shards: "@ + id_list_text(missing_shards@),
        PipelineError::NoFallback { reason } => "No fallback available: "@ + reason@,
        PipelineError::ShardLoadFailed { shard_id, error } => "Failed to load shard "@ + decimal(
            shard_id as nat,
        ) + ": "@ + error@,
        PipelineError::InferenceFailed { shard_id, error } => "Inference failed at shard "@ + decimal(
            shard_id as nat,
        ) + ": "@ + error@,
        PipelineError::Cancelled => "Request cancelled"@,
        PipelineError::Internal { message } => "Internal error: "@ + message@,
    }
}

impl PipelineError {
    /// The error's message.
    pub fn message(&self) -> (r: String)
        ensures
            r@ == error_message(*self),
    {
        let mut s = String::new();
        match self {
            PipelineError::Timeout { missing_shards, waited_secs } => {
                s.append("Timeout after ");
                append_decimal(&mut s, *waited_secs as u128);
                s.append("s waiting for shards: ");
                append_id_list(&mut s, missing_shards);
            },
            PipelineError::NoFallback { reason } => {
                s.append("No fallback available: ");
                s.append(reason.as_str());
            },
            PipelineError::ShardLoadFailed { shard_id, error } => {
                s.append("Failed to load shard ");
                append_decimal(&mut s, *shard_id as u128);
                s.append(": ");
                s.append(error.as_str());
            },
            PipelineError::InferenceFailed { shard_id, error } => {
                s.append("Inference failed at shard ");
                append_decimal(&mut s, *shard_id as u128);
                s.append(": ");
                s.append(error.as_str());
            },
            PipelineError::Cancelled => {
                s.append("Request cancelled");
            },
            PipelineError::Internal { message } => {
                s.append("Internal error: ");
                s.append(message.as_str());
            },
        }
        assert(s@ =~= error_message(*self));
        s
    }
}

/// Coordinator counters.
#[derive(Debug, Clone, Copy, PartialEq, Eq, Structural)]
pub struct CoordinatorStats {
    pub total_requests: u64,
    pub successful_requests: u64,
    pub failed_requests: u64,
    pub queued_requests: u64,
    pub fallback_requests: u64,
    pub dynamic_loads: u64,
    pub nodes_spawned: u64,
}

impl Default for CoordinatorStats {
    fn default() -> (r: CoordinatorStats)
        ensures
            r == (CoordinatorStats {
                total_requests: 0,
                successful_requests: 0,
                failed_requests: 0,
                queued_requests: 0,
                fallback_requests: 0,
                dynamic_loads: 0,
                nodes_spawned: 0,
            }),
    {
        CoordinatorStats {
            total_requests: 0,
            successful_requests: 0,
            failed_requests: 0,
            queued_requests: 0,
            fallback_requests: 0,
            dynamic_loads: 0,
            nodes_spawned: 0,
        }
    }
}

/// The arguments of the command that starts a shard node.
pub open spec fn spawn_args_spec(
    bootstrap_addr: Seq<char>,
    cluster_name: Seq<char>,
    shard_id: u32,
    total_shards: u32,
    total_layers: u32,
    model_name: Seq<char>,
    shards_dir: Seq<char>,
) -> Seq<Seq<char>> {
    seq![
        "run"@,
        "--bin"@,
        "shard_listener"@,
        "--"@,
        "--bootstrap"@,
        bootstrap_addr,
        "--cluster"@,
        cluster_name,
        "--shard-id"@,
        decimal(shard_id as nat),
        "--total-shards"@,
        decimal(total_shards as nat),
        "--total-layers"@,
        decimal(total_layers as nat),
        "--model-name"@,
        model_name,
        "--shards-dir"@,
        shards_dir,
        "--enable-torrent"@,
    ]
}

/// The words of a command template once `{shard_id}` in it is replaced by
/// the decimal shard id: the program, then its arguments.
pub open spec fn template_command(template: Seq<char>, shard_id: u32) -> Seq<Seq<char>> {
    words_spec(replace_spec(template, "{shard_id}"@, decimal(shard_id as nat)))
}

/// The words of a command template for one shard.
pub fn expand_template(template: &str, shard_id: u32) -> (r: Vec<String>)
    ensures
        r@.map_values(|w: String| w@) == template_command(template@, shard_id),
{
    let id = u128_to_decimal(shard_id as u128);
    let pat = "{shard_id}";
    proof {
        reveal_strlit("{shard_id}");
    }
    let line = replace_all(template, pat, id.as_str());
    split_words(line.as_str())
}

/// Creates shard nodes on demand: the settings they are started with, the
/// command template that starts them (when one was given), and the shards
/// for which one was started. The processes themselves are held by the
/// caller.
pub struct NodeSpawner {
    spawned: Vec<u32>,
    command_template: Option<String>,
    bootstrap_addr: String,
    cluster_name: String,
    total_shards: u32,
    total_layers: u32,
    model_name: String,
    shards_dir: String,
}

impl NodeSpawner {
    /// The shards for which a node was started, oldest first.
    pub closed spec fn spawned_ids(&self) -> Seq<u32> {
        self.spawned@
    }

    /// No shard occurs twice among the started ones.
    pub closed spec fn wf(&self) -> bool {
        self.spawned@.no_duplicates()
    }

    /// The command template the nodes are started with, if one was given.
    pub closed spec fn template(&self) -> Option<Seq<char>> {
        match self.command_template {
            Some(t) => Some(t@),
            None => None,
        }
    }

    /// The spawner, started with `template` where one is given, else as
    /// before.
    pub closed spec fn spec_with_template(self, template: Option<String>) -> NodeSpawner {
        match template {
            Some(t) => NodeSpawner { command_template: Some(t), ..self },
            None => self,
        }
    }

    /// The command (program, then arguments) that starts the node of
    /// `shard_id`: the template with `{shard_id}` replaced where one was
    /// given, else `cargo` with the default arguments.
    pub open spec fn command_spec(&self, shard_id: u32) -> Seq<Seq<char>> {
        match self.template() {
            Some(t) => template_command(t, shard_id),
            None => seq!["cargo"@] + self.spec_args(shard_id),
        }
    }

    pub closed spec fn spec_args(&self, shard_id: u32) -> Seq<Seq<char>> {
        spawn_args_spec(
            self.bootstrap_addr@,
            self.cluster_name@,
            shard_id,
            self.total_shards,
            self.total_layers,
            self.model_name@,
            self.shards_dir@,
        )
    }

    pub fn new(
        bootstrap_addr: String,
        cluster_name: String,
        total_shards: u32,
        total_layers: u32,
        model_name: String,
        shards_dir: String,
    ) -> (r: NodeSpawner)
        ensures
            r.wf(),
            r.spawned_ids().len() == 0,
            r.template() is None,
            forall|id: u32|
                #[trigger] r.spec_args(id) == spawn_args_spec(
                    bootstrap_addr@,
                    cluster_name@,
                    id,
                    total_shards,
                    total_layers,
                    model_name@,
                    shards_dir@,
                ),
    {
        NodeSpawner {
            spawned: Vec::new(),
            command_template: None,
            bootstrap_addr,
            cluster_name,
            total_shards,
            total_layers,
            model_name,
            shards_dir,
        }
    }

    /// The spawner, starting nodes with the command `template` (in which
    /// `{shard_id}` stands for the shard's id).
    pub fn with_command_template(self, template: String) -> (r: NodeSpawner)
        ensures
            r == self.spec_with_template(Some(template)),
            r.template() == Some(template@),
            r.wf() == self.wf(),
            r.spawned_ids() == self.spawned_ids(),
            forall|id: u32| #[trigger] r.spec_args(id) == self.spec_args(id),
    {
        NodeSpawner { command_template: Some(template), ..self }
    }

    /// The spawner, with `template` in place of its own where one is given.
    pub fn use_template(self, template: Option<String>) -> (r: NodeSpawner)
        ensures
            r == self.spec_with_template(template),
            r.wf() == self.wf(),
            r.spawned_ids() == self.spawned_ids(),
            forall|id: u32| #[trigger] r.spec_args(id) == self.spec_args(id),
            r.template() == match template {
                Some(t) => Some(t@),
                None => self.template(),
            },
    {
        match template {
            Some(t) => NodeSpawner { command_template: Some(t), ..self },
            None => self,
        }
    }

    /// The command (program first, then its arguments) that starts the
    /// node of `shard_id`.
    pub fn spawn_command(&self, shard_id: u32) -> (r: Vec<String>)
        ensures
            r@.map_values(|w: String| w@) == self.command_spec(shard_id),
    {
        match &self.command_template {
            Some(t) => expand_template(t.as_str(), shard_id),
            None => {
                let args = self.spawn_args(shard_id);
                let mut v: Vec<String> = Vec::new();
                v.push(String::from_str("cargo"));
                let mut i: usize = 0;
                proof {
                    reveal_strlit("cargo");
                }
                while i < args.len()
                    invariant
                        i <= args@.len(),
                        args@.len() == self.spec_args(shard_id).len(),
                        forall|j: int| 0 <= j < args@.len() ==> (#[trigger] args@[j])@ == self.spec_args(shard_id)[j],
                        v@.map_values(|w: String| w@) == seq!["cargo"@] + self.spec_args(shard_id).subrange(0, i as int),
                    decreases args.len() - i,
                {
                    let ghost before = v@.map_values(|w: String| w@);
                    let w = args[i].clone();
                    assert(w@ == args@[i as int]@);
                    v.push(w);
                    proof {
                        assert(v@.map_values(|w: String| w@) =~= before.push(self.spec_args(shard_id)[i as int]));
                        assert(v@.map_values(|w: String| w@) =~= seq!["cargo"@] + self.spec_args(shard_id).subrange(
                            0,
                            i + 1,
                        ));
                    }
                    i = i + 1;
                }
                proof {
                    assert(self.spec_args(shard_id).subrange(0, i as int) =~= self.spec_args(shard_id));
                }
                v
            },
        }
    }

    /// The program that starts a shard node.
    pub fn spawn_program(&self) -> (r: &'static str)
        ensures
            r@ == "cargo"@,
    {
        "cargo"
    }

    /// The arguments that start the node of `shard_id`.
    pub fn spawn_args(&self, shard_id: u32) -> (r: Vec<String>)
        ensures
            r@.len() == self.spec_args(shard_id).len(),
            forall|i: int| 0 <= i < r@.len() ==> (#[trigger] r@[i])@ == self.spec_args(shard_id)[i],
    {
        let mut v: Vec<String> = Vec::new();
        v.push(String::from_str("run"));
        v.push(String::from_str("--bin"));
        v.push(String::from_str("shard_listener"));
        v.push(String::from_str("--"));
        v.push(String::from_str("--bootstrap"));
        v.push(self.bootstrap_addr.clone());
        v.push(String::from_str("--cluster"));
        v.push(self.cluster_name.clone());
        v.push(String::from_str("--shard-id"));
        v.push(u128_to_decimal(shard_id as u128));
        v.push(String::from_str("--total-shards"));
        v.push(u128_to_decimal(self.total_shards as u128));
        v.push(String::from_str("--total-layers"));
        v.push(u128_to_decimal(self.total_layers as u128));
        v.push(String::from_str("--model-name"));
        v.push(self.model_name.clone());
        v.push(String::from_str("--shards-dir"));
        v.push(self.shards_dir.clone());
        v.push(String::from_str("--enable-torrent"));
        v
    }

    /// Whether a node was started for `shard_id` (then none is started again).
    pub fn is_spawned(&self, shard_id: u32) -> (r: bool)
        ensures
            r == self.spawned_ids().contains(shard_id),
    {
        let mut i: usize = 0;
        while i < self.spawned.len()
            invariant
                i <= self.spawned@.len(),
                forall|j: int| 0 <= j < i ==> self.spawned@[j] != shard_id,
            decreases self.spawned.len() - i,
        {
            if self.spawned[i] == shard_id {
                return true;
            }
            i = i + 1;
        }
        false
    }

    /// Notes that a node was started for `shard_id`.
    pub fn record_spawned(&mut self, shard_id: u32)
        requires
            old(self).wf(),
        ensures
            final(self).wf(),
            final(self).spawned_ids() == if old(self).spawned_ids().contains(shard_id) {
                old(self).spawned_ids()
            } else {
                old(self).spawned_ids().push(shard_id)
            },
            forall|id: u32| #[trigger] final(self).spec_args(id) == old(self).spec_args(id),
            final(self).template() == old(self).template(),
    {
        if !self.is_spawned(shard_id) {
            self.spawned.push(shard_id);
        }
    }

    /// Forgets the node of `shard_id`; answers whether there was one.
    pub fn record_terminated(&mut self, shard_id: u32) -> (r: bool)
        requires
            old(self).wf(),
        ensures
            final(self).wf(),
            r == old(self).spawned_ids().contains(shard_id),
            final(self).spawned_ids() == old(self).spawned_ids().filter(|x: u32| x != shard_id),
            forall|id: u32| #[trigger] final(self).spec_args(id) == old(self).spec_args(id),
            final(self).template() == old(self).template(),
    {
        let ghost pred = |x: u32| x != shard_id;
        let ghost s = self.spawned@;
        let mut kept: Vec<u32> = Vec::new();
        let mut found = false;
        let mut i: usize = 0;
        while i < self.spawned.len()
            invariant
                s == self.spawned@,
                s.no_duplicates(),
                pred == (|x: u32| x != shard_id),
                i <= s.len(),
                kept@ == s.subrange(0, i as int).filter(pred),
                found == s.subrange(0, i as int).contains(shard_id),
                forall|j: int| 0 <= j < kept@.len() ==> s.subrange(0, i as int).contains(#[trigger] kept@[j]),
                kept@.no_duplicates(),
            decreases self.spawned.len() - i,
        {
            proof {
                lemma_filter_step(s, i as int, pred);
                assert(s.subrange(0, i + 1) =~= s.subrange(0, i as int).push(s[i as int]));
            }
            let x = self.spawned[i];
            if x == shard_id {
                found = true;
            } else {
                proof {
                    assert(s[i as int] == x);
                    if s.subrange(0, i as int).contains(x) {
                        let j = choose|j: int| 0 <= j < i && s.subrange(0, i as int)[j] == x;
                        assert(s[j] == x);
                    }
                    assert(!kept@.contains(x));
                }
                kept.push(x);
            }
            proof {
                let p = s.subrange(0, i + 1);
                let q = s.subrange(0, i as int);
                assert(p =~= q.push(x));
                assert(p.contains(shard_id) == (q.contains(shard_id) || x == shard_id)) by {
                    if p.contains(shard_id) {
                        let t = choose|t: int| 0 <= t < p.len() && p[t] == shard_id;
                        if t < i {
                            assert(q[t] == shard_id);
                        }
                    }
                    if q.contains(shard_id) {
                        let t = choose|t: int| 0 <= t < q.len() && q[t] == shard_id;
                        assert(p[t] == shard_id);
                    }
                    if x == shard_id {
                        assert(p[i as int] == shard_id);
                    }
                }
                assert forall|j: int| 0 <= j < kept@.len() implies p.contains(#[trigger] kept@[j]) by {
                    if j < kept@.len() - 1 || x == shard_id {
                        let q = s.subrange(0, i as int);
                        assert(q.contains(kept@[j]));
                        let t = choose|t: int| 0 <= t < q.len() && q[t] == kept@[j];
                        assert(p[t] == q[t]);
                    } else {
                        assert(p[i as int] == x);
                    }
                }
            }
            i = i + 1;
        }
        assert(s.subrange(0, s.len() as int) =~= s);
        self.spawned = kept;
        found
    }

    /// The shards for which a node was started.
    pub fn get_spawned_shards(&self) -> (r: Vec<u32>)
        ensures
            r@ == self.spawned_ids(),
    {
        copy_ids(&self.spawned)
    }
}

/// The error for a node that could not be started.
pub fn spawn_failure(shard_id: u32, error: &str) -> (r: PipelineError)
    ensures
        r matches PipelineError::ShardLoadFailed { shard_id: id, error: e } && id == shard_id && e@
            == "Failed to spawn node: "@ + error@,
{
    let mut e = String::from_str("Failed to spawn node: ");
    e.append(error);
    PipelineError::ShardLoadFailed { shard_id, error: e }
}

/// The error for a node that did not come online in time.
pub fn online_timeout(shard_id: u32, timeout_secs: u64) -> (r: PipelineError)
    ensures
        r matches PipelineError::Timeout { missing_shards, waited_secs } && missing_shards@ == seq![
            shard_id,
        ] && waited_secs == timeout_secs,
{
    let mut v: Vec<u32> = Vec::new();
    v.push(shard_id);
    PipelineError::Timeout { missing_shards: v, waited_secs: timeout_secs }
}

/// The error for a node that could not be stopped.
pub fn terminate_failure(error: &str) -> (r: PipelineError)
    ensures
        r matches PipelineError::Internal { message } && message@ == "Failed to terminate node: "@ + error@,
{
    let mut m = String::from_str("Failed to terminate node: ");
    m.append(error);
    PipelineError::Internal { message: m }
}

/// Whether a node can take one more shard: enough free memory, and fewer
/// shards loaded on it than the limit.
pub open spec fn capable_spec(n: ShardAnnouncement, min_memory_mb: u64, max_shards_per_node: u32, loaded: nat) -> bool {
    n.capabilities.memory_available_mb >= min_memory_mb && (loaded as u32) < max_shards_per_node
}

/// Law: the nodes picked as capable are exactly those of `nodes` with at
/// least `min_memory_mb` megabytes free and fewer than
/// `max_shards_per_node` shards loaded by `loader` (the count cut to 32
/// bits), in their order.
pub proof fn lemma_capable_nodes(
    loader: DynamicShardLoader,
    nodes: Seq<ShardAnnouncement>,
    min_memory_mb: u64,
    max_shards_per_node: u32,
)
    ensures
        ({
            let f = nodes.filter(
                |n: ShardAnnouncement| capable_spec(n, min_memory_mb, max_shards_per_node, loader.loaded_count(n.peer_id@)),
            );
            &&& forall|i: int|
                0 <= i < f.len() ==> {
                    &&& (#[trigger] f[i]).capabilities.memory_available_mb >= min_memory_mb
                    &&& (loader.loaded_count(f[i].peer_id@) as u32) < max_shards_per_node
                    &&& nodes.contains(f[i])
                }
            &&& forall|j: int|
                0 <= j < nodes.len() && (#[trigger] nodes[j]).capabilities.memory_available_mb >= min_memory_mb
                    && (loader.loaded_count(nodes[j].peer_id@) as u32) < max_shards_per_node ==> f.contains(nodes[j])
        }),
{
    let pred = |n: ShardAnnouncement| capable_spec(n, min_memory_mb, max_shards_per_node, loader.loaded_count(n.peer_id@));
    let f = nodes.filter(pred);
    assert forall|i: int| 0 <= i < f.len() implies {
        &&& (#[trigger] f[i]).capabilities.memory_available_mb >= min_memory_mb
        &&& (loader.loaded_count(f[i].peer_id@) as u32) < max_shards_per_node
        &&& nodes.contains(f[i])
    } by {
        nodes.lemma_filter_pred(pred, i);
        assert(f.contains(f[i]));
        nodes.lemma_filter_contains_rev(pred, f[i]);
    }
    assert forall|j: int|
        0 <= j < nodes.len() && (#[trigger] nodes[j]).capabilities.memory_available_mb >= min_memory_mb && (
        loader.loaded_count(nodes[j].peer_id@) as u32) < max_shards_per_node implies f.contains(nodes[j]) by {
        nodes.lemma_filter_contains(pred, j);
    }
}

/// What a shard-loading request came back with.
pub enum LoadOutcome {
    /// No command sender is configured: the load is simulated.
    NotSent,
    /// The node answered.
    Replied(CommandResponse),
    /// The command could not be sent; the message says why.
    SendFailed(String),
}

/// The error text of a failed load, if it failed.
pub open spec fn load_error_text(node_id: Seq<char>, outcome: LoadOutcome) -> Option<Seq<char>> {
    match outcome {
        LoadOutcome::NotSent => None,
        LoadOutcome::Replied(resp) => if resp.status == ResponseStatus::Success {
            None
        } else {
            Some(
                "Node "@ + node_id + " returned error: "@ + match resp.error {
                    Some(e) => e@,
                    None => "Unknown error"@,
                },
            )
        },
        LoadOutcome::SendFailed(e) => Some("Failed to send command to node "@ + node_id + ": "@ + e@),
    }
}

/// Loads missing shards on nodes with spare capacity, and remembers which
/// shards it loaded on which node.
pub struct DynamicShardLoader {
    loaded_shards: Vec<(String, Vec<u32>)>,
    has_command_sender: bool,
}

impl DynamicShardLoader {
    /// The shards loaded on each node, by node id.
    pub closed spec fn loaded(&self) -> Map<Seq<char>, Seq<u32>> {
        Map::new(
            |k: Seq<char>| entries_map(self.loaded_shards@).dom().contains(k),
            |k: Seq<char>| entries_map(self.loaded_shards@)[k]@,
        )
    }

    /// Whether load commands are sent to nodes.
    pub closed spec fn sends_commands(&self) -> bool {
        self.has_command_sender
    }

    /// Each node occurs once.
    pub closed spec fn wf(&self) -> bool {
        unique_keys(self.loaded_shards@)
    }

    /// How many shards were loaded on a node.
    pub open spec fn loaded_count(&self, peer: Seq<char>) -> nat {
        if self.loaded().dom().contains(peer) {
            self.loaded()[peer].len()
        } else {
            0
        }
    }

    pub fn new() -> (r: DynamicShardLoader)
        ensures
            r.wf(),
            r.loaded() == Map::<Seq<char>, Seq<u32>>::empty(),
            !r.sends_commands(),
    {
        let r = DynamicShardLoader { loaded_shards: Vec::new(), has_command_sender: false };
        assert(r.loaded() =~= Map::<Seq<char>, Seq<u32>>::empty());
        r
    }

    /// The loader, sending load commands to nodes (the caller holds the
    /// sender).
    pub fn with_command_sender(self) -> (r: DynamicShardLoader)
        ensures
            r.wf() == self.wf(),
            r.loaded() == self.loaded(),
            r.sends_commands(),
    {
        DynamicShardLoader { has_command_sender: true, ..self }
    }

    /// Whether load commands are sent to nodes.
    pub fn has_command_sender(&self) -> (r: bool)
        ensures
            r == self.sends_commands(),
    {
        self.has_command_sender
    }

    /// Whether a node can load an additional shard: enough free memory and
    /// its shard loaded.
    pub fn can_load_shard(&self, node: &ShardAnnouncement, min_memory_mb: u64) -> (r: bool)
        ensures
            r == (node.capabilities.memory_available_mb >= min_memory_mb && node.capabilities.shard_loaded),
    {
        node.capabilities.memory_available_mb >= min_memory_mb && node.capabilities.shard_loaded
    }

    /// How many shards were loaded on a node.
    pub fn loaded_count_of(&self, peer: &str) -> (r: usize)
        requires
            self.wf(),
        ensures
            r == self.loaded_count(peer@),
    {
        match find_key(&self.loaded_shards, peer) {
            Some(i) => {
                proof {
                    lemma_entries_value(self.loaded_shards@, i as int);
                }
                self.loaded_shards[i].1.len()
            },
            None => 0,
        }
    }

    /// The nodes, in order, that could load one more shard.
    pub fn get_capable_nodes(
        &self,
        nodes: &Vec<ShardAnnouncement>,
        min_memory_mb: u64,
        max_shards_per_node: u32,
    ) -> (r: Vec<ShardAnnouncement>)
        requires
            self.wf(),
        ensures
            r@ == nodes@.filter(
                |n: ShardAnnouncement|
                    capable_spec(n, min_memory_mb, max_shards_per_node, self.loaded_count(n.peer_id@)),
            ),
            forall|i: int|
                0 <= i < r@.len() ==> {
                    &&& (#[trigger] r@[i]).capabilities.memory_available_mb >= min_memory_mb
                    &&& (self.loaded_count(r@[i].peer_id@) as u32) < max_shards_per_node
                    &&& nodes@.contains(r@[i])
                },
            forall|j: int|
                0 <= j < nodes@.len() && (#[trigger] nodes@[j]).capabilities.memory_available_mb >= min_memory_mb
                    && (self.loaded_count(nodes@[j].peer_id@) as u32) < max_shards_per_node ==> r@.contains(
                    nodes@[j],
                ),
    {
        let ghost pred = |n: ShardAnnouncement|
            capable_spec(n, min_memory_mb, max_shards_per_node, self.loaded_count(n.peer_id@));
        let mut out: Vec<ShardAnnouncement> = Vec::new();
        let mut i: usize = 0;
        while i < nodes.len()
            invariant
                self.wf(),
                pred == (|n: ShardAnnouncement|
                    capable_spec(n, min_memory_mb, max_shards_per_node, self.loaded_count(n.peer_id@))),
                i <= nodes@.len(),
                out@ == nodes@.subrange(0, i as int).filter(pred),
            decreases nodes.len() - i,
        {
            proof {
                lemma_filter_step(nodes@, i as int, pred);
            }
            let n = &nodes[i];
            let count = self.loaded_count_of(n.peer_id.as_str());
            if n.capabilities.memory_available_mb >= min_memory_mb && (count as u32) < max_shards_per_node {
                out.push(n.duplicate());
            }
            i = i + 1;
        }
        assert(nodes@.subrange(0, nodes@.len() as int) =~= nodes@);
        proof {
            lemma_capable_nodes(*self, nodes@, min_memory_mb, max_shards_per_node);
        }
        out
    }

    /// Notes that `shard_id` was loaded on `node_id`.
    pub fn track_loaded(&mut self, node_id: &str, shard_id: u32)
        requires
            old(self).wf(),
        ensures
            final(self).wf(),
            final(self).sends_commands() == old(self).sends_commands(),
            final(self).loaded() == old(self).loaded().insert(
                node_id@,
                if old(self).loaded().dom().contains(node_id@) {
                    old(self).loaded()[node_id@].push(shard_id)
                } else {
                    seq![shard_id]
                },
            ),
    {
        let ghost old_e = self.loaded_shards@;
        match find_key(&self.loaded_shards, node_id) {
            Some(i) => {
                proof {
                    lemma_entries_value(old_e, i as int);
                }
                let mut shards = copy_ids(&self.loaded_shards[i].1);
                shards.push(shard_id);
                let key = self.loaded_shards[i].0.clone();
                proof {
                    lemma_entries_update(old_e, i as int, (key, shards));
                }
                self.loaded_shards.set(i, (key, shards));
            },
            None => {
                let mut shards: Vec<u32> = Vec::new();
                shards.push(shard_id);
                let key = String::from_str(node_id);
                proof {
                    lemma_entries_push(old_e, (key, shards));
                }
                self.loaded_shards.push((key, shards));
            },
        }
        proof {
            let m1 = self.loaded();
            let m2 = old(self).loaded().insert(
                node_id@,
                if old(self).loaded().dom().contains(node_id@) {
                    old(self).loaded()[node_id@].push(shard_id)
                } else {
                    seq![shard_id]
                },
            );
            assert(m1 =~= m2);
        }
    }

    /// The command that asks `node_id` to load shard `shard_id` of
    /// `model_name`.
    pub fn load_shard_command(&self, node_id: &str, shard_id: u32, model_name: &str) -> (r: Command)
        ensures
            r.command@ == commands::LOAD_SHARD@,
            r.from@ == "coordinator"@,
            opt_string_view(r.to) == Some(node_id@),
            r.params@.dom() == set!["shard_id"@, "model_name"@],
            r.params@["shard_id"@] == JsonValue::UInt(shard_id as u64),
            r.params@["model_name"@].spec_as_str() == Some(model_name@),
    {
        let cmd = Command::new(commands::LOAD_SHARD, "coordinator", Some(node_id));
        let cmd = cmd.with_param("shard_id", JsonValue::UInt(shard_id as u64));
        let cmd = cmd.with_param("model_name", JsonValue::Str(String::from_str(model_name)));
        proof {
            reveal_strlit("shard_id");
            reveal_strlit("model_name");
            assert("shard_id"@.len() != "model_name"@.len());
            assert(cmd.params@.dom() =~= set!["shard_id"@, "model_name"@]);
        }
        cmd
    }

    /// Takes in what a load of `shard_id` on `node_id` came back with: a
    /// success (or a simulated load) is remembered; a failure becomes an
    /// error.
    pub fn finish_load(&mut self, node_id: &str, shard_id: u32, outcome: LoadOutcome) -> (r: Result<
        (),
        PipelineError,
    >)
        requires
            old(self).wf(),
        ensures
            final(self).wf(),
            final(self).sends_commands() == old(self).sends_commands(),
            match load_error_text(node_id@, outcome) {
                None => {
                    &&& r is Ok
                    &&& final(self).loaded() == old(self).loaded().insert(
                        node_id@,
                        if old(self).loaded().dom().contains(node_id@) {
                            old(self).loaded()[node_id@].push(shard_id)
                        } else {
                            seq![shard_id]
                        },
                    )
                },
                Some(text) => {
                    &&& r matches Err(PipelineError::ShardLoadFailed { shard_id: id, error })
                    &&& id == shard_id
                    &&& error@ == text
                    &&& final(self).loaded() == old(self).loaded()
                },
            },
    {
        match outcome {
            LoadOutcome::NotSent => {
                self.track_loaded(node_id, shard_id);
                Ok(())
            },
            LoadOutcome::Replied(resp) => {
                if resp.status == ResponseStatus::Success {
                    self.track_loaded(node_id, shard_id);
                    Ok(())
                } else {
                    let mut e = String::from_str("Node ");
                    e.append(node_id);
                    e.append(" returned error: ");
                    match &resp.error {
                        Some(m) => e.append(m.as_str()),
                        None => e.append("Unknown error"),
                    }
                    Err(PipelineError::ShardLoadFailed { shard_id, error: e })
                }
            },
            LoadOutcome::SendFailed(m) => {
                let mut e = String::from_str("Failed to send command to node ");
                e.append(node_id);
                e.append(": ");
                e.append(m.as_str());
                Err(PipelineError::ShardLoadFailed { shard_id, error: e })
            },
        }
    }
}

/// Index of the node that the fallback search picks: among the nodes with
/// at least `required_memory_mb` free, the highest score, and among equal
/// scores the last one.
pub open spec fn fallback_index(nodes: Seq<ShardAnnouncement>, scores: Seq<u64>, required_memory_mb: u64) -> Option<int>
    decreases nodes.len(),
{
    if nodes.len() == 0 {
        None
    } else {
        let prev = fallback_index(nodes.drop_last(), scores, required_memory_mb);
        let k = nodes.len() - 1;
        if nodes.last().capabilities.memory_available_mb < required_memory_mb {
            prev
        } else {
            match prev {
                None => Some(k),
                Some(b) => if scores[b] <= scores[k] {
                    Some(k)
                } else {
                    prev
                },
            }
        }
    }
}

proof fn lemma_fallback_index_bound(nodes: Seq<ShardAnnouncement>, scores: Seq<u64>, required_memory_mb: u64)
    ensures
        fallback_index(nodes, scores, required_memory_mb) is Some ==> {
            let b = fallback_index(nodes, scores, required_memory_mb)->0;
            0 <= b < nodes.len() && nodes[b].capabilities.memory_available_mb >= required_memory_mb
        },
    decreases nodes.len(),
{
    if nodes.len() > 0 {
        lemma_fallback_index_bound(nodes.drop_last(), scores, required_memory_mb);
        let p = fallback_index(nodes.drop_last(), scores, required_memory_mb);
        if p is Some {
            assert(nodes.drop_last()[p->0] == nodes[p->0]);
        }
    }
}

/// Law: the fallback node has enough memory and no node with enough memory
/// scores higher; one is found exactly when some node has enough memory.
pub proof fn lemma_fallback_is_best(nodes: Seq<ShardAnnouncement>, scores: Seq<u64>, required_memory_mb: u64)
    ensures
        fallback_index(nodes, scores, required_memory_mb) is Some <==> exists|k: int|
            0 <= k < nodes.len() && (#[trigger] nodes[k]).capabilities.memory_available_mb >= required_memory_mb,
        fallback_index(nodes, scores, required_memory_mb) is Some ==> {
            let b = fallback_index(nodes, scores, required_memory_mb)->0;
            &&& 0 <= b < nodes.len()
            &&& nodes[b].capabilities.memory_available_mb >= required_memory_mb
            &&& forall|k: int|
                0 <= k < nodes.len() && (#[trigger] nodes[k]).capabilities.memory_available_mb >= required_memory_mb
                    ==> scores[k] <= scores[b]
        },
    decreases nodes.len(),
{
    lemma_fallback_index_bound(nodes, scores, required_memory_mb);
    if nodes.len() > 0 {
        let d = nodes.drop_last();
        lemma_fallback_is_best(d, scores, required_memory_mb);
        if exists|k: int| 0 <= k < d.len() && (#[trigger] d[k]).capabilities.memory_available_mb >= required_memory_mb {
            let k = choose|k: int|
                0 <= k < d.len() && (#[trigger] d[k]).capabilities.memory_available_mb >= required_memory_mb;
            assert(nodes[k] == d[k]);
        }
        if exists|k: int|
            0 <= k < nodes.len() && (#[trigger] nodes[k]).capabilities.memory_available_mb >= required_memory_mb {
            let k = choose|k: int|
                0 <= k < nodes.len() && (#[trigger] nodes[k]).capabilities.memory_available_mb >= required_memory_mb;
            if k < nodes.len() - 1 {
                assert(d[k] == nodes[k]);
            }
        }
        if fallback_index(nodes, scores, required_memory_mb) is Some {
            let b = fallback_index(nodes, scores, required_memory_mb)->0;
            assert forall|k: int|
                0 <= k < nodes.len() && (#[trigger] nodes[k]).capabilities.memory_available_mb
                    >= required_memory_mb implies scores[k] <= scores[b] by {
                if k < nodes.len() - 1 {
                    assert(d[k] == nodes[k]);
                    let p = fallback_index(d, scores, required_memory_mb);
                    assert(p is Some);
                }
            }
        }
    }
}

/// Handler of the fallback to one node that runs the full model.
pub struct SingleNodeFallback {
    fallback_node: Option<ShardAnnouncement>,
    model_path: Option<String>,
}

impl SingleNodeFallback {
    /// The node chosen last.
    pub closed spec fn node(&self) -> Option<ShardAnnouncement> {
        self.fallback_node
    }

    pub fn new() -> (r: SingleNodeFallback)
        ensures
            r.node() is None,
    {
        SingleNodeFallback { fallback_node: None, model_path: None }
    }

    /// Finds a node that can run the full model: among those with at least
    /// `required_memory_mb` free, the one with the highest score (the last
    /// of equal ones). `scores` holds one order key per node, larger is
    /// better; the caller derives it from free memory over one plus the
    /// latency. A node found is remembered.
    pub fn find_capable_node(
        &mut self,
        nodes: &Vec<ShardAnnouncement>,
        scores: &Vec<u64>,
        required_memory_mb: u64,
    ) -> (r: Option<ShardAnnouncement>)
        requires
            scores@.len() == nodes@.len(),
        ensures
            match fallback_index(nodes@, scores@, required_memory_mb) {
                Some(b) => r == Some(nodes@[b]) && final(self).node() == Some(nodes@[b]),
                None => r is None && final(self).node() == old(self).node(),
            },
    {
        proof {
            lemma_fallback_index_bound(nodes@, scores@, required_memory_mb);
        }
        let mut best: Option<usize> = None;
        let mut k: usize = 0;
        while k < nodes.len()
            invariant
                k <= nodes@.len(),
                scores@.len() == nodes@.len(),
                match fallback_index(nodes@.subrange(0, k as int), scores@, required_memory_mb) {
                    Some(i) => best == Some(i as usize),
                    None => best is None,
                },
                best is Some ==> best->0 < k,
            decreases nodes.len() - k,
        {
            let ghost pre = nodes@.subrange(0, k as int);
            let ghost cur = nodes@.subrange(0, k + 1);
            assert(cur.drop_last() =~= pre);
            assert(cur.last() == nodes@[k as int]);
            proof {
                lemma_fallback_index_bound(pre, scores@, required_memory_mb);
            }
            assert(fallback_index(cur, scores@, required_memory_mb) == {
                let prev = fallback_index(pre, scores@, required_memory_mb);
                if nodes@[k as int].capabilities.memory_available_mb < required_memory_mb {
                    prev
                } else {
                    match prev {
                        None => Some(k as int),
                        Some(b) => if scores@[b] <= scores@[k as int] {
                            Some(k as int)
                        } else {
                            prev
                        },
                    }
                }
            });
            if nodes[k].capabilities.memory_available_mb >= required_memory_mb {
                match best {
                    None => {
                        best = Some(k);
                    },
                    Some(b) => {
                        if scores[b] <= scores[k] {
                            best = Some(k);
                        }
                    },
                }
            }
            k = k + 1;
        }
        assert(nodes@.subrange(0, nodes@.len() as int) =~= nodes@);
        match best {
            Some(b) => {
                let node = nodes[b].duplicate();
                self.fallback_node = Some(nodes[b].duplicate());
                Some(node)
            },
            None => None,
        }
    }

    /// Whether a fallback node was found.
    pub fn is_available(&self) -> (r: bool)
        ensures
            r == self.node() is Some,
    {
        self.fallback_node.is_some()
    }

    /// The fallback node.
    pub fn get_node(&self) -> (r: Option<&ShardAnnouncement>)
        ensures
            match self.node() {
                Some(n) => r == Some(&n),
                None => r is None,
            },
    {
        self.fallback_node.as_ref()
    }
}

impl Default for SingleNodeFallback {
    fn default() -> (r: SingleNodeFallback)
        ensures
            r.node() is None,
    {
        SingleNodeFallback::new()
    }
}

/// One step that a strategy tries when the pipeline is incomplete.
#[derive(Debug, Clone)]
pub enum Attempt {
    /// Load the missing shards on nodes with room.
    DynamicLoading { max_shards_per_node: u32, min_memory_mb: u64 },
    /// Wait for the pipeline to complete, checking at each interval.
    Wait { timeout_secs: u64, retry_interval_ms: u64 },
    /// Start nodes for the missing shards and wait for them; a command
    /// template, where the strategy gives one, is what starts them.
    SpawnNodes { max_nodes_per_request: u32, node_startup_timeout_secs: u64, command_template: Option<String> },
    /// Run the whole model on one node with enough memory.
    Fallback { required_memory_mb: u64 },
}

/// The steps a strategy tries, in order, until one succeeds; the error of
/// the last is the request's.
pub open spec fn attempts_spec(s: PipelineStrategy, has_loader: bool, has_spawner: bool) -> Seq<Attempt> {
    match s {
        PipelineStrategy::FailFast => Seq::empty(),
        PipelineStrategy::WaitAndRetry { timeout_secs, retry_interval_ms } => seq![
            Attempt::Wait { timeout_secs, retry_interval_ms },
        ],
        PipelineStrategy::DynamicLoading { max_shards_per_node, min_memory_mb } => seq![
            Attempt::DynamicLoading { max_shards_per_node, min_memory_mb },
        ],
        PipelineStrategy::SingleNodeFallback { required_memory_mb } => seq![
            Attempt::Fallback { required_memory_mb },
        ],
        PipelineStrategy::Adaptive { wait_timeout_secs, min_memory_for_shard_mb, min_memory_for_full_mb } => {
            (if has_loader {
                seq![Attempt::DynamicLoading { max_shards_per_node: 2, min_memory_mb: min_memory_for_shard_mb }]
            } else {
                Seq::empty()
            }) + seq![Attempt::Wait { timeout_secs: wait_timeout_secs / 2, retry_interval_ms: 500 }] + (
            if has_spawner {
                seq![
                    Attempt::SpawnNodes {
                        max_nodes_per_request: 4,
                        node_startup_timeout_secs: 30,
                        command_template: None,
                    },
                ]
            } else {
                Seq::empty()
            }) + seq![Attempt::Fallback { required_memory_mb: min_memory_for_full_mb }]
        },
        PipelineStrategy::SpawnNodes {
            max_nodes_per_request,
            node_startup_timeout_secs,
            spawn_command_template,
            ..
        } => seq![
            Attempt::SpawnNodes {
                max_nodes_per_request,
                node_startup_timeout_secs,
                command_template: Some(spawn_command_template),
            },
        ],
    }
}

/// What to do with a submitted request.
#[derive(Debug)]
pub enum Submission {
    /// The pipeline is complete: run the request through it.
    ProcessNow,
    /// The pipeline misses these shards: try these steps in order.
    Attempts { missing: Vec<u32>, attempts: Vec<Attempt> },
    /// The request fails at once.
    Rejected(PipelineError),
}

/// One shard to load on one node, and the announcement the node makes for
/// it once loaded.
#[derive(Debug)]
pub struct LoadTask {
    pub node_id: String,
    pub shard_id: u32,
    pub model_name: String,
    pub announcement: ShardAnnouncement,
}

/// The announcement a node makes for a shard it loaded: its own, for that
/// shard of a four-shard, 32-layer model.
pub open spec fn loaded_announcement(node: ShardAnnouncement, shard_id: u32) -> ShardAnnouncement {
    ShardAnnouncement {
        shard_id,
        layer_start: (shard_id * 8) as u32,
        layer_end: ((shard_id + 1) * 8) as u32,
        has_embeddings: shard_id == 0,
        has_output: shard_id == 3,
        ..node
    }
}

/// What adding a replica does to the discovery.
pub open spec fn add_shard_post(
    o: KademliaShardDiscovery,
    n: KademliaShardDiscovery,
    announcement: ShardAnnouncement,
    rank: u64,
) -> bool {
    &&& forall|id: u32| #[trigger]
        has_id(n.entries(), id) == (has_id(o.entries(), id) || id == announcement.shard_id)
    &&& forall|id: u32| #[trigger]
        replicas_of(n.entries(), id) == if id == announcement.shard_id {
            with_replica(replicas_of(o.entries(), id), Replica { announcement, rank })
        } else {
            replicas_of(o.entries(), id)
        }
    &&& n.spec_cluster_name() == o.spec_cluster_name()
}

/// The pipeline coordinator.
pub struct PipelineCoordinator {
    discovery: KademliaShardDiscovery,
    strategy: PipelineStrategy,
    state: CoordinatorState,
    shard_loader: Option<DynamicShardLoader>,
    node_spawner: Option<NodeSpawner>,
    fallback: SingleNodeFallback,
    stats: CoordinatorStats,
}

impl PipelineCoordinator {
    pub closed spec fn disc(&self) -> KademliaShardDiscovery {
        self.discovery
    }

    pub closed spec fn spec_strategy(&self) -> PipelineStrategy {
        self.strategy
    }

    pub closed spec fn spec_state(&self) -> CoordinatorStateView {
        self.state@
    }

    pub closed spec fn spec_stats(&self) -> CoordinatorStats {
        self.stats
    }

    pub closed spec fn loader(&self) -> Option<DynamicShardLoader> {
        self.shard_loader
    }

    pub closed spec fn spawner(&self) -> Option<NodeSpawner> {
        self.node_spawner
    }

    pub closed spec fn fallback_node(&self) -> Option<ShardAnnouncement> {
        self.fallback.node()
    }

    /// The discovery is well formed, and so are the loader and the spawner.
    pub closed spec fn wf(&self) -> bool {
        &&& self.discovery.wf()
        &&& (self.shard_loader matches Some(l) ==> l.wf())
        &&& (self.node_spawner matches Some(n) ==> n.wf())
    }

    /// Whether the pipeline is complete at time `now`.
    pub open spec fn complete_at(&self, now: u64) -> bool {
        complete_spec(self.disc().entries(), self.disc().spec_expected(), self.disc().spec_ttl(), now)
    }

    /// The missing shards at time `now`.
    pub open spec fn missing_at(&self, now: u64) -> Seq<u32> {
        missing_spec(self.disc().entries(), self.disc().spec_expected(), self.disc().spec_ttl(), now)
    }

    /// The pipeline at time `now`.
    pub open spec fn pipeline_at(&self, now: u64) -> Seq<ShardAnnouncement> {
        pipeline_spec(self.disc().entries(), self.disc().spec_ttl(), now)
    }

    /// The state the discovery gives at time `now`.
    pub open spec fn state_for(&self, now: u64) -> CoordinatorStateView {
        if self.complete_at(now) {
            CoordinatorStateView::Ready
        } else {
            CoordinatorStateView::WaitingForShards { missing: self.missing_at(now) }
        }
    }

    /// A coordinator over `discovery`, with the default strategy, no loader
    /// and no spawner, in the state `Unavailable` ("Initializing").
    pub fn new(discovery: KademliaShardDiscovery) -> (r: PipelineCoordinator)
        requires
            discovery.wf(),
        ensures
            r.wf(),
            r.disc() == discovery,
            r.spec_strategy() == (PipelineStrategy::Adaptive {
                wait_timeout_secs: 30,
                min_memory_for_shard_mb: 4096,
                min_memory_for_full_mb: 16384,
            }),
            r.spec_state() == (CoordinatorStateView::Unavailable { reason: "Initializing"@ }),
            r.spec_stats() == CoordinatorStats::default_spec(),
            r.loader() is None,
            r.spawner() is None,
            r.fallback_node() is None,
    {
        PipelineCoordinator {
            discovery,
            strategy: PipelineStrategy::default(),
            state: CoordinatorState::Unavailable { reason: String::from_str("Initializing") },
            shard_loader: None,
            node_spawner: None,
            fallback: SingleNodeFallback::new(),
            stats: CoordinatorStats::default(),
        }
    }

    /// The coordinator, able to load shards on nodes.
    pub fn with_model_manager(self) -> (r: PipelineCoordinator)
        requires
            self.wf(),
        ensures
            r.wf(),
            r.disc() == self.disc(),
            r.spec_strategy() == self.spec_strategy(),
            r.spec_state() == self.spec_state(),
            r.spec_stats() == self.spec_stats(),
            r.loader() matches Some(l) && l.loaded().len() == 0 && !l.sends_commands(),
            r.spawner() == self.spawner(),
    {
        let loader = DynamicShardLoader::new();
        PipelineCoordinator { shard_loader: Some(loader), ..self }
    }

    /// The coordinator, able to spawn nodes.
    pub fn with_node_spawner(self, spawner: NodeSpawner) -> (r: PipelineCoordinator)
        requires
            self.wf(),
            spawner.wf(),
        ensures
            r.wf(),
            r.disc() == self.disc(),
            r.spec_strategy() == self.spec_strategy(),
            r.spec_state() == self.spec_state(),
            r.spec_stats() == self.spec_stats(),
            r.loader() == self.loader(),
            r.spawner() == Some(spawner),
    {
        PipelineCoordinator { node_spawner: Some(spawner), ..self }
    }

    /// Sets the strategy.
    pub fn set_strategy(&mut self, strategy: PipelineStrategy)
        requires
            old(self).wf(),
        ensures
            final(self).wf(),
            final(self).spec_strategy() == strategy,
            final(self).disc() == old(self).disc(),
            final(self).spec_state() == old(self).spec_state(),
            final(self).spec_stats() == old(self).spec_stats(),
            final(self).loader() == old(self).loader(),
            final(self).spawner() == old(self).spawner(),
    {
        self.strategy = strategy;
    }

    /// The current state.
    pub fn state(&self) -> (r: CoordinatorState)
        ensures
            r@ == self.spec_state(),
    {
        self.state.duplicate()
    }

    /// The current counters.
    pub fn stats(&self) -> (r: CoordinatorStats)
        ensures
            r == self.spec_stats(),
    {
        self.stats
    }

    /// The discovery the coordinator works on.
    pub fn discovery(&self) -> (r: &KademliaShardDiscovery)
        ensures
            *r == self.disc(),
    {
        &self.discovery
    }

    /// The node spawner, if there is one.
    pub fn node_spawner(&self) -> (r: Option<&NodeSpawner>)
        ensures
            match self.spawner() {
                Some(n) => r == Some(&n),
                None => r is None,
            },
    {
        self.node_spawner.as_ref()
    }

    /// The pipeline status at time `now`: the pipeline's length, the four
    /// shards the web page expects, the missing shards and completeness.
    pub fn get_pipeline_status(&self, now: u64) -> (r: (u32, u32, Vec<u32>, bool))
        requires
            self.wf(),
        ensures
            r.0 == self.pipeline_at(now).len() as u32,
            r.1 == 4,
            r.2@ == self.missing_at(now),
            r.3 == self.complete_at(now),
    {
        let pipeline = self.discovery.get_pipeline(now);
        let missing = self.discovery.get_missing_shards(now);
        let complete = self.discovery.is_pipeline_complete(now);
        (pipeline.len() as u32, 4, missing, complete)
    }

    /// The discovery's status at time `now`.
    pub fn pipeline_status(&self, now: u64) -> (r: PipelineStatus)
        requires
            self.wf(),
        ensures
            r.is_complete == self.complete_at(now),
            r.missing_shards@ == self.missing_at(now),
            r.cluster_name@ == self.disc().spec_cluster_name(),
    {
        self.discovery.status(now)
    }

    /// Sets the state from the discovery at time `now`: `Ready` when the
    /// pipeline is complete, else waiting for the missing shards.
    pub fn update_state(&mut self, now: u64)
        requires
            old(self).wf(),
        ensures
            final(self).wf(),
            final(self).spec_state() == old(self).state_for(now),
            final(self).disc() == old(self).disc(),
            final(self).spec_strategy() == old(self).spec_strategy(),
            final(self).spec_stats() == old(self).spec_stats(),
            final(self).loader() == old(self).loader(),
            final(self).spawner() == old(self).spawner(),
            final(self).fallback_node() == old(self).fallback_node(),
    {
        if self.discovery.is_pipeline_complete(now) {
            self.state = CoordinatorState::Ready;
        } else {
            let missing = self.discovery.get_missing_shards(now);
            self.state = CoordinatorState::WaitingForShards { missing };
        }
    }

    /// Adds an announcement (with its rank) to the discovery and updates
    /// the state at time `now`.
    pub fn update_discovery(&mut self, announcement: ShardAnnouncement, rank: u64, now: u64)
        requires
            old(self).wf(),
        ensures
            final(self).wf(),
            final(self).spec_state() == final(self).state_for(now),
            final(self).disc().spec_expected() == old(self).disc().spec_expected(),
            final(self).disc().spec_ttl() == old(self).disc().spec_ttl(),
            final(self).spec_strategy() == old(self).spec_strategy(),
            final(self).spec_stats() == old(self).spec_stats(),
            final(self).loader() == old(self).loader(),
            final(self).spawner() == old(self).spawner(),
            final(self).fallback_node() == old(self).fallback_node(),
            add_shard_post(old(self).disc(), final(self).disc(), announcement, rank),
    {
        self.discovery.add_shard(announcement, rank);
        self.update_state(now);
    }

    /// Adds a shard announcement (see `update_discovery`).
    pub fn add_shard(&mut self, announcement: ShardAnnouncement, rank: u64, now: u64)
        requires
            old(self).wf(),
        ensures
            final(self).wf(),
            final(self).spec_state() == final(self).state_for(now),
            final(self).disc().spec_expected() == old(self).disc().spec_expected(),
            final(self).disc().spec_ttl() == old(self).disc().spec_ttl(),
            final(self).spec_strategy() == old(self).spec_strategy(),
            final(self).spec_stats() == old(self).spec_stats(),
            final(self).loader() == old(self).loader(),
            final(self).spawner() == old(self).spawner(),
            add_shard_post(old(self).disc(), final(self).disc(), announcement, rank),
    {
        self.update_discovery(announcement, rank, now);
    }

    /// The rejection of a fail-fast request: the pipeline misses `missing`.
    pub open spec fn fail_fast_reason(missing: Seq<u32>) -> Seq<char> {
        "Pipeline incomplete, missing shards: "@ + id_list_text(missing)
    }

    /// Counts a failed request.
    pub fn record_failure(&mut self)
        requires
            old(self).spec_stats().failed_requests < u64::MAX,
        ensures
            final(self).spec_stats() == (CoordinatorStats {
                failed_requests: (old(self).spec_stats().failed_requests + 1) as u64,
                ..old(self).spec_stats()
            }),
            final(self).disc() == old(self).disc(),
            final(self).spec_state() == old(self).spec_state(),
            final(self).spec_strategy() == old(self).spec_strategy(),
            final(self).loader() == old(self).loader(),
            final(self).spawner() == old(self).spawner(),
            final(self).fallback_node() == old(self).fallback_node(),
            final(self).wf() == old(self).wf(),
    {
        self.stats.failed_requests = self.stats.failed_requests + 1;
    }

    /// Counts a failed request and hands back its error.
    pub fn fail_with(&mut self, error: PipelineError) -> (r: PipelineError)
        requires
            old(self).spec_stats().failed_requests < u64::MAX,
        ensures
            r == error,
            final(self).spec_stats() == (CoordinatorStats {
                failed_requests: (old(self).spec_stats().failed_requests + 1) as u64,
                ..old(self).spec_stats()
            }),
            final(self).disc() == old(self).disc(),
            final(self).spec_state() == old(self).spec_state(),
            final(self).spec_strategy() == old(self).spec_strategy(),
            final(self).loader() == old(self).loader(),
            final(self).spawner() == old(self).spawner(),
            final(self).fallback_node() == old(self).fallback_node(),
            final(self).wf() == old(self).wf(),
    {
        self.record_failure();
        error
    }

    /// The steps the current strategy tries when the pipeline is incomplete.
    pub fn strategy_attempts(&self) -> (r: Vec<Attempt>)
        ensures
            r@ == attempts_spec(self.spec_strategy(), self.loader() is Some, self.spawner() is Some),
            ({
                let s = self.spec_strategy();
                &&& s is FailFast ==> r@.len() == 0
                &&& s matches PipelineStrategy::WaitAndRetry { timeout_secs, retry_interval_ms } ==> r@
                    == seq![Attempt::Wait { timeout_secs, retry_interval_ms }]
                &&& s matches PipelineStrategy::DynamicLoading { max_shards_per_node, min_memory_mb } ==> r@
                    == seq![Attempt::DynamicLoading { max_shards_per_node, min_memory_mb }]
                &&& s matches PipelineStrategy::SingleNodeFallback { required_memory_mb } ==> r@
                    == seq![Attempt::Fallback { required_memory_mb }]
            }),
    {
        let mut v: Vec<Attempt> = Vec::new();
        match &self.strategy {
            PipelineStrategy::FailFast => {},
            PipelineStrategy::WaitAndRetry { timeout_secs, retry_interval_ms } => {
                v.push(Attempt::Wait { timeout_secs: *timeout_secs, retry_interval_ms: *retry_interval_ms });
            },
            PipelineStrategy::DynamicLoading { max_shards_per_node, min_memory_mb } => {
                v.push(
                    Attempt::DynamicLoading {
                        max_shards_per_node: *max_shards_per_node,
                        min_memory_mb: *min_memory_mb,
                    },
                );
            },
            PipelineStrategy::SingleNodeFallback { required_memory_mb } => {
                v.push(Attempt::Fallback { required_memory_mb: *required_memory_mb });
            },
            PipelineStrategy::Adaptive { wait_timeout_secs, min_memory_for_shard_mb, min_memory_for_full_mb } => {
                if self.shard_loader.is_some() {
                    v.push(
                        Attempt::DynamicLoading { max_shards_per_node: 2, min_memory_mb: *min_memory_for_shard_mb },
                    );
                }
                v.push(Attempt::Wait { timeout_secs: *wait_timeout_secs / 2, retry_interval_ms: 500 });
                if self.node_spawner.is_some() {
                    v.push(
                        Attempt::SpawnNodes {
                            max_nodes_per_request: 4,
                            node_startup_timeout_secs: 30,
                            command_template: None,
                        },
                    );
                }
                v.push(Attempt::Fallback { required_memory_mb: *min_memory_for_full_mb });
            },
            PipelineStrategy::SpawnNodes {
                max_nodes_per_request,
                node_startup_timeout_secs,
                spawn_command_template,
                ..
            } => {
                v.push(
                    Attempt::SpawnNodes {
                        max_nodes_per_request: *max_nodes_per_request,
                        node_startup_timeout_secs: *node_startup_timeout_secs,
                        command_template: Some(spawn_command_template.clone()),
                    },
                );
            },
        }
        assert(v@ =~= attempts_spec(self.spec_strategy(), self.loader() is Some, self.spawner() is Some));
        proof {
            lemma_strategy_steps(self.spec_strategy(), self.loader() is Some, self.spawner() is Some);
        }
        v
    }

    /// Takes in a request at time `now`: counts it, and says whether to run
    /// it at once (complete pipeline), reject it (fail-fast strategy, counted
    /// as failed), or try the strategy's steps for the missing shards.
    pub fn submit_inference(&mut self, now: u64) -> (r: Submission)
        requires
            old(self).wf(),
            old(self).spec_stats().total_requests < u64::MAX,
            old(self).spec_stats().failed_requests < u64::MAX,
        ensures
            final(self).wf(),
            final(self).disc() == old(self).disc(),
            final(self).spec_state() == old(self).spec_state(),
            final(self).spec_strategy() == old(self).spec_strategy(),
            final(self).loader() == old(self).loader(),
            final(self).spawner() == old(self).spawner(),
            final(self).fallback_node() == old(self).fallback_node(),
            if old(self).complete_at(now) {
                &&& r is ProcessNow
                &&& final(self).spec_stats() == (CoordinatorStats {
                    total_requests: (old(self).spec_stats().total_requests + 1) as u64,
                    ..old(self).spec_stats()
                })
            } else if old(self).spec_strategy() is FailFast {
                &&& r matches Submission::Rejected(PipelineError::NoFallback { reason })
                &&& reason@ == Self::fail_fast_reason(old(self).missing_at(now))
                &&& final(self).spec_stats() == (CoordinatorStats {
                    total_requests: (old(self).spec_stats().total_requests + 1) as u64,
                    failed_requests: (old(self).spec_stats().failed_requests + 1) as u64,
                    ..old(self).spec_stats()
                })
            } else {
                &&& r matches Submission::Attempts { missing, attempts }
                &&& missing@ == old(self).missing_at(now)
                &&& attempts@ == attempts_spec(
                    old(self).spec_strategy(),
                    old(self).loader() is Some,
                    old(self).spawner() is Some,
                )
                &&& final(self).spec_stats() == (CoordinatorStats {
                    total_requests: (old(self).spec_stats().total_requests + 1) as u64,
                    ..old(self).spec_stats()
                })
            },
    {
        self.stats.total_requests = self.stats.total_requests + 1;
        if self.discovery.is_pipeline_complete(now) {
            return Submission::ProcessNow;
        }
        let missing = self.discovery.get_missing_shards(now);
        match &self.strategy {
            PipelineStrategy::FailFast => {
                let mut reason = String::from_str("Pipeline incomplete, missing shards: ");
                append_id_list(&mut reason, &missing);
                self.record_failure();
                Submission::Rejected(PipelineError::NoFallback { reason })
            },
            _ => {
                let attempts = self.strategy_attempts();
                Submission::Attempts { missing, attempts }
            },
        }
    }

    /// Starts loading the missing shards on nodes with room (at time `now`):
    /// the state becomes `LoadingShards`, and each missing shard goes, in
    /// turn, to the capable node at its id modulo their number. Fails,
    /// counted as a failed request, without a loader or without a capable
    /// node.
    pub fn start_dynamic_loading(
        &mut self,
        missing: &Vec<u32>,
        max_shards_per_node: u32,
        min_memory_mb: u64,
        now: u64,
    ) -> (r: Result<Vec<LoadTask>, PipelineError>)
        requires
            old(self).wf(),
            old(self).spec_stats().failed_requests < u64::MAX,
            forall|i: int| 0 <= i < missing@.len() ==> #[trigger] missing@[i] < 0x1fff_ffffu32,
        ensures
            final(self).wf(),
            final(self).disc() == old(self).disc(),
            final(self).spec_strategy() == old(self).spec_strategy(),
            final(self).loader() == old(self).loader(),
            final(self).spawner() == old(self).spawner(),
            final(self).fallback_node() == old(self).fallback_node(),
            match old(self).loader() {
                None => {
                    &&& r matches Err(PipelineError::NoFallback { reason })
                    &&& reason@ == "Dynamic loading not configured"@
                    &&& final(self).spec_state() == old(self).spec_state()
                    &&& final(self).spec_stats().failed_requests == old(self).spec_stats().failed_requests + 1
                },
                Some(l) => {
                    let capable = old(self).pipeline_at(now).filter(
                        |n: ShardAnnouncement|
                            capable_spec(n, min_memory_mb, max_shards_per_node, l.loaded_count(n.peer_id@)),
                    );
                    &&& final(self).spec_state() == (CoordinatorStateView::LoadingShards { loading: missing@ })
                    &&& (capable.len() == 0) == (forall|k: int|
                        0 <= k < old(self).pipeline_at(now).len() ==> !((
                        #[trigger] old(self).pipeline_at(now)[k]).capabilities.memory_available_mb >= min_memory_mb
                            && (l.loaded_count(old(self).pipeline_at(now)[k].peer_id@) as u32)
                            < max_shards_per_node))
                    &&& if capable.len() == 0 {
                        &&& r matches Err(PipelineError::NoFallback { reason })
                        &&& reason@ == "No nodes with sufficient capacity for dynamic loading"@
                        &&& final(self).spec_stats().failed_requests == old(self).spec_stats().failed_requests + 1
                    } else {
                        &&& r matches Ok(tasks)
                        &&& tasks@.len() == missing@.len()
                        &&& forall|i: int|
                            0 <= i < tasks@.len() ==> {
                                let node = capable[missing@[i] as int % capable.len() as int];
                                &&& (#[trigger] tasks@[i]).shard_id == missing@[i]
                                &&& tasks@[i].node_id@ == node.peer_id@
                                &&& tasks@[i].model_name@ == node.model_name@
                                &&& tasks@[i].announcement == loaded_announcement(node, missing@[i])
                                &&& node.capabilities.memory_available_mb >= min_memory_mb
                                &&& (l.loaded_count(node.peer_id@) as u32) < max_shards_per_node
                                &&& old(self).pipeline_at(now).contains(node)
                            }
                        &&& final(self).spec_stats() == old(self).spec_stats()
                    }
                },
            },
            final(self).spec_stats() == (CoordinatorStats {
                failed_requests: final(self).spec_stats().failed_requests,
                ..old(self).spec_stats()
            }),
    {
        match &self.shard_loader {
            None => {
                self.record_failure();
                return Err(PipelineError::NoFallback { reason: String::from_str("Dynamic loading not configured") });
            },
            Some(_) => {},
        }
        self.state = CoordinatorState::LoadingShards { loading: copy_ids(missing) };
        let pipeline = self.discovery.get_pipeline(now);
        let capable = match &self.shard_loader {
            Some(l) => l.get_capable_nodes(&pipeline, min_memory_mb, max_shards_per_node),
            None => Vec::new(),
        };
        proof {
            if self.shard_loader is Some {
                let l = self.shard_loader->0;
                {
                    lemma_capable_nodes(l, pipeline@, min_memory_mb, max_shards_per_node);
                    let f = pipeline@.filter(
                        |n: ShardAnnouncement| capable_spec(n, min_memory_mb, max_shards_per_node, l.loaded_count(n.peer_id@)),
                    );
                    if f.len() > 0 {
                        assert(f.contains(f[0]));
                        let k = choose|k: int| 0 <= k < pipeline@.len() && pipeline@[k] == f[0];
                        assert(pipeline@[k].capabilities.memory_available_mb >= min_memory_mb);
                    }
                }
            }
        }
        if capable.len() == 0 {
            self.record_failure();
            return Err(
                PipelineError::NoFallback {
                    reason: String::from_str("No nodes with sufficient capacity for dynamic loading"),
                },
            );
        }
        let mut tasks: Vec<LoadTask> = Vec::new();
        let mut i: usize = 0;
        while i < missing.len()
            invariant
                i <= missing@.len(),
                capable@.len() > 0,
                forall|j: int| 0 <= j < missing@.len() ==> #[trigger] missing@[j] < 0x1fff_ffffu32,
                tasks@.len() == i,
                forall|j: int|
                    0 <= j < i ==> {
                        let node = capable@[missing@[j] as int % capable@.len() as int];
                        &&& (#[trigger] tasks@[j]).shard_id == missing@[j]
                        &&& tasks@[j].node_id@ == node.peer_id@
                        &&& tasks@[j].model_name@ == node.model_name@
                        &&& tasks@[j].announcement == loaded_announcement(node, missing@[j])
                    },
            decreases missing.len() - i,
        {
            let shard_id = missing[i];
            let idx = (shard_id as usize) % capable.len();
            let node = &capable[idx];
            let mut ann = node.duplicate();
            ann.shard_id = shard_id;
            ann.layer_start = shard_id * 8;
            ann.layer_end = (shard_id + 1) * 8;
            ann.has_embeddings = shard_id == 0;
            ann.has_output = shard_id == 3;
            tasks.push(
                LoadTask {
                    node_id: node.peer_id.clone(),
                    shard_id,
                    model_name: node.model_name.clone(),
                    announcement: ann,
                },
            );
            i = i + 1;
        }
        Ok(tasks)
    }

    /// Whether the pipeline is complete at time `now`.
    pub fn is_pipeline_complete(&self, now: u64) -> (r: bool)
        requires
            self.wf(),
        ensures
            r == self.complete_at(now),
    {
        self.discovery.is_pipeline_complete(now)
    }

    /// The pipeline at time `now`.
    pub fn pipeline(&self, now: u64) -> (r: Vec<ShardAnnouncement>)
        requires
            self.wf(),
        ensures
            r@ == self.pipeline_at(now),
    {
        self.discovery.get_pipeline(now)
    }

    /// Whether load commands are sent to nodes (a loader with a sender).
    pub fn sends_load_commands(&self) -> (r: bool)
        ensures
            r == (self.loader() matches Some(l) && l.sends_commands()),
    {
        match &self.shard_loader {
            Some(l) => l.has_command_sender(),
            None => false,
        }
    }

    /// Lets the loader send load commands to nodes (the caller holds the
    /// sender).
    pub fn with_command_sender(self) -> (r: PipelineCoordinator)
        requires
            self.wf(),
        ensures
            r.wf(),
            r.disc() == self.disc(),
            r.spec_strategy() == self.spec_strategy(),
            r.spec_state() == self.spec_state(),
            r.spec_stats() == self.spec_stats(),
            r.spawner() == self.spawner(),
            match self.loader() {
                Some(l) => r.loader() matches Some(m) && m.loaded() == l.loaded() && m.sends_commands(),
                None => r.loader() is None,
            },
    {
        let PipelineCoordinator { discovery, strategy, state, shard_loader, node_spawner, fallback, stats } = self;
        let shard_loader = match shard_loader {
            Some(l) => Some(l.with_command_sender()),
            None => None,
        };
        PipelineCoordinator { discovery, strategy, state, shard_loader, node_spawner, fallback, stats }
    }

    /// Takes in what loading `task` came back with, at time `now`: a loaded
    /// shard is remembered by the loader, announced with `rank` and counted;
    /// a failure is counted as a failed request and returned.
    pub fn finish_dynamic_load(&mut self, task: &LoadTask, outcome: LoadOutcome, rank: u64, now: u64) -> (r:
        Result<(), PipelineError>)
        requires
            old(self).wf(),
            old(self).loader() is Some,
            old(self).spec_stats().failed_requests < u64::MAX,
            old(self).spec_stats().dynamic_loads < u64::MAX,
        ensures
            final(self).wf(),
            final(self).spec_strategy() == old(self).spec_strategy(),
            final(self).spawner() == old(self).spawner(),
            final(self).loader() is Some,
            match load_error_text(task.node_id@, outcome) {
                None => {
                    &&& r is Ok
                    &&& final(self).spec_stats() == (CoordinatorStats {
                        dynamic_loads: (old(self).spec_stats().dynamic_loads + 1) as u64,
                        ..old(self).spec_stats()
                    })
                    &&& add_shard_post(old(self).disc(), final(self).disc(), task.announcement, rank)
                    &&& final(self).spec_state() == final(self).state_for(now)
                },
                Some(text) => {
                    &&& r matches Err(PipelineError::ShardLoadFailed { shard_id, error })
                    &&& shard_id == task.shard_id
                    &&& error@ == text
                    &&& final(self).spec_stats() == (CoordinatorStats {
                        failed_requests: (old(self).spec_stats().failed_requests + 1) as u64,
                        ..old(self).spec_stats()
                    })
                    &&& final(self).disc() == old(self).disc()
                    &&& final(self).spec_state() == old(self).spec_state()
                },
            },
    {
        let mut loader = match self.shard_loader.take() {
            Some(l) => l,
            None => DynamicShardLoader::new(),
        };
        let result = loader.finish_load(task.node_id.as_str(), task.shard_id, outcome);
        self.shard_loader = Some(loader);
        match result {
            Ok(()) => {
                self.update_discovery(task.announcement.duplicate(), rank, now);
                self.stats.dynamic_loads = self.stats.dynamic_loads + 1;
                Ok(())
            },
            Err(e) => {
                self.record_failure();
                Err(e)
            },
        }
    }

    /// Counts a request that starts waiting for the pipeline.
    pub fn begin_wait(&mut self)
        requires
            old(self).spec_stats().queued_requests < u64::MAX,
        ensures
            final(self).spec_stats() == (CoordinatorStats {
                queued_requests: (old(self).spec_stats().queued_requests + 1) as u64,
                ..old(self).spec_stats()
            }),
            final(self).disc() == old(self).disc(),
            final(self).spec_state() == old(self).spec_state(),
            final(self).spec_strategy() == old(self).spec_strategy(),
            final(self).loader() == old(self).loader(),
            final(self).spawner() == old(self).spawner(),
            final(self).fallback_node() == old(self).fallback_node(),
            final(self).wf() == old(self).wf(),
    {
        self.stats.queued_requests = self.stats.queued_requests + 1;
    }

    /// The end of a wait that timed out at time `now`: counted as a failed
    /// request, with the shards still missing.
    pub fn wait_timed_out(&mut self, timeout_secs: u64, now: u64) -> (r: PipelineError)
        requires
            old(self).wf(),
            old(self).spec_stats().failed_requests < u64::MAX,
        ensures
            final(self).wf(),
            r matches PipelineError::Timeout { missing_shards, waited_secs } && missing_shards@
                == old(self).missing_at(now) && waited_secs == timeout_secs,
            final(self).spec_stats() == (CoordinatorStats {
                failed_requests: (old(self).spec_stats().failed_requests + 1) as u64,
                ..old(self).spec_stats()
            }),
            final(self).disc() == old(self).disc(),
            final(self).spec_state() == old(self).spec_state(),
    {
        let missing = self.discovery.get_missing_shards(now);
        self.record_failure();
        PipelineError::Timeout { missing_shards: missing, waited_secs: timeout_secs }
    }

    /// Starts spawning nodes for at most `max_nodes_per_request` of the
    /// missing shards (the first ones): the state becomes `LoadingShards`,
    /// and the spawner takes up the step's command template, where it has
    /// one. Fails without a spawner (counted as a failed request) or with
    /// nothing to spawn.
    pub fn start_spawning(
        &mut self,
        missing: &Vec<u32>,
        max_nodes_per_request: u32,
        command_template: Option<String>,
    ) -> (r: Result<Vec<u32>, PipelineError>)
        requires
            old(self).wf(),
            old(self).spec_stats().failed_requests < u64::MAX,
        ensures
            final(self).wf(),
            final(self).disc() == old(self).disc(),
            final(self).spawner() == match old(self).spawner() {
                Some(sp) => Some(sp.spec_with_template(command_template)),
                None => None,
            },
            final(self).loader() == old(self).loader(),
            ({
                let n = if (max_nodes_per_request as int) < missing@.len() {
                    max_nodes_per_request as int
                } else {
                    missing@.len() as int
                };
                if old(self).spawner() is None {
                    &&& r matches Err(PipelineError::NoFallback { reason })
                    &&& reason@ == "Node spawner not configured"@
                    &&& final(self).spec_stats().failed_requests == old(self).spec_stats().failed_requests + 1
                    &&& final(self).spec_state() == old(self).spec_state()
                } else if n == 0 {
                    &&& r matches Err(PipelineError::NoFallback { reason })
                    &&& reason@ == "No shards to spawn"@
                    &&& final(self).spec_stats() == old(self).spec_stats()
                    &&& final(self).spec_state() == old(self).spec_state()
                } else {
                    &&& r matches Ok(shards)
                    &&& shards@ == missing@.subrange(0, n)
                    &&& final(self).spec_stats() == old(self).spec_stats()
                    &&& final(self).spec_state() == (CoordinatorStateView::LoadingShards { loading: shards@ })
                }
            }),
            final(self).spec_stats() == (CoordinatorStats {
                failed_requests: final(self).spec_stats().failed_requests,
                ..old(self).spec_stats()
            }),
    {
        if self.node_spawner.is_none() {
            self.record_failure();
            return Err(PipelineError::NoFallback { reason: String::from_str("Node spawner not configured") });
        }
        let sp = match self.node_spawner.take() {
            Some(sp) => sp,
            None => NodeSpawner::new(String::new(), String::new(), 0, 0, String::new(), String::new()),
        };
        self.node_spawner = Some(sp.use_template(command_template));
        let n: usize = if (max_nodes_per_request as usize) < missing.len() {
            max_nodes_per_request as usize
        } else {
            missing.len()
        };
        if n == 0 {
            return Err(PipelineError::NoFallback { reason: String::from_str("No shards to spawn") });
        }
        let mut shards: Vec<u32> = Vec::new();
        let mut i: usize = 0;
        while i < n
            invariant
                n <= missing@.len(),
                i <= n,
                shards@ == missing@.subrange(0, i as int),
            decreases n - i,
        {
            shards.push(missing[i]);
            i = i + 1;
            assert(shards@ =~= missing@.subrange(0, i as int));
        }
        self.state = CoordinatorState::LoadingShards { loading: copy_ids(&shards) };
        Ok(shards)
    }

    /// Notes that a node was started for `shard_id`.
    pub fn record_spawned(&mut self, shard_id: u32)
        requires
            old(self).wf(),
            old(self).spawner() is Some,
        ensures
            final(self).wf(),
            final(self).spawner() matches Some(n) && n.spawned_ids() == if old(
                self,
            ).spawner()->0.spawned_ids().contains(shard_id) {
                old(self).spawner()->0.spawned_ids()
            } else {
                old(self).spawner()->0.spawned_ids().push(shard_id)
            },
            final(self).spawner() matches Some(n) && forall|id: u32| #[trigger] n.command_spec(id)
                == old(self).spawner()->0.command_spec(id),
            final(self).disc() == old(self).disc(),
            final(self).spec_stats() == old(self).spec_stats(),
            final(self).spec_state() == old(self).spec_state(),
            final(self).loader() == old(self).loader(),
    {
        let mut sp = match self.node_spawner.take() {
            Some(n) => n,
            None => NodeSpawner::new(
                String::new(),
                String::new(),
                0,
                0,
                String::new(),
                String::new(),
            ),
        };
        sp.record_spawned(shard_id);
        self.node_spawner = Some(sp);
    }

    /// Counts `count` spawned nodes that came online.
    pub fn finish_spawning(&mut self, count: u64)
        requires
            old(self).spec_stats().nodes_spawned + count <= u64::MAX,
        ensures
            final(self).spec_stats() == (CoordinatorStats {
                nodes_spawned: (old(self).spec_stats().nodes_spawned + count) as u64,
                ..old(self).spec_stats()
            }),
            final(self).disc() == old(self).disc(),
            final(self).spec_state() == old(self).spec_state(),
            final(self).spec_strategy() == old(self).spec_strategy(),
            final(self).loader() == old(self).loader(),
            final(self).spawner() == old(self).spawner(),
            final(self).wf() == old(self).wf(),
    {
        self.stats.nodes_spawned = self.stats.nodes_spawned + count;
    }

    /// Tries the single-node fallback at time `now`: the best-scoring node
    /// of the pipeline with at least `required_memory_mb` free (`scores`
    /// holds one key per pipeline node). A node found puts the coordinator
    /// in `FallbackMode` and is counted; none is a failed request.
    pub fn try_fallback(&mut self, scores: &Vec<u64>, required_memory_mb: u64, now: u64) -> (r: Result<
        ShardAnnouncement,
        PipelineError,
    >)
        requires
            old(self).wf(),
            scores@.len() == old(self).pipeline_at(now).len(),
            old(self).spec_stats().failed_requests < u64::MAX,
            old(self).spec_stats().fallback_requests < u64::MAX,
        ensures
            final(self).wf(),
            final(self).disc() == old(self).disc(),
            final(self).loader() == old(self).loader(),
            final(self).spawner() == old(self).spawner(),
            match fallback_index(old(self).pipeline_at(now), scores@, required_memory_mb) {
                Some(b) => {
                    let node = old(self).pipeline_at(now)[b];
                    &&& r == Ok::<ShardAnnouncement, PipelineError>(node)
                    &&& final(self).fallback_node() == Some(node)
                    &&& final(self).spec_state() == (CoordinatorStateView::FallbackMode { node_id: node.peer_id@ })
                    &&& final(self).spec_stats() == (CoordinatorStats {
                        fallback_requests: (old(self).spec_stats().fallback_requests + 1) as u64,
                        ..old(self).spec_stats()
                    })
                },
                None => {
                    &&& r matches Err(PipelineError::NoFallback { reason })
                    &&& reason@ == "No node with "@ + decimal(required_memory_mb as nat) + "MB+ memory available"@
                    &&& final(self).spec_state() == old(self).spec_state()
                    &&& final(self).spec_stats() == (CoordinatorStats {
                        failed_requests: (old(self).spec_stats().failed_requests + 1) as u64,
                        ..old(self).spec_stats()
                    })
                },
            },
    {
        let nodes = self.discovery.get_pipeline(now);
        match self.fallback.find_capable_node(&nodes, scores, required_memory_mb) {
            Some(node) => {
                self.state = CoordinatorState::FallbackMode { node_id: node.peer_id.clone() };
                self.stats.fallback_requests = self.stats.fallback_requests + 1;
                Ok(node)
            },
            None => {
                self.record_failure();
                let mut reason = String::from_str("No node with ");
                append_decimal(&mut reason, required_memory_mb as u128);
                reason.append("MB+ memory available");
                Err(PipelineError::NoFallback { reason })
            },
        }
    }

    /// The shards to run a request through at time `now`, in order; an
    /// empty pipeline is an internal error, counted as a failed request.
    pub fn process_inference(&mut self, now: u64) -> (r: Result<Vec<ShardAnnouncement>, PipelineError>)
        requires
            old(self).wf(),
            old(self).spec_stats().failed_requests < u64::MAX,
        ensures
            final(self).wf(),
            final(self).disc() == old(self).disc(),
            final(self).spec_state() == old(self).spec_state(),
            if old(self).pipeline_at(now).len() == 0 {
                &&& r matches Err(PipelineError::Internal { message })
                &&& message@ == "Pipeline is empty"@
                &&& final(self).spec_stats() == (CoordinatorStats {
                    failed_requests: (old(self).spec_stats().failed_requests + 1) as u64,
                    ..old(self).spec_stats()
                })
            } else {
                &&& r matches Ok(shards)
                &&& shards@ == old(self).pipeline_at(now)
                &&& final(self).spec_stats() == old(self).spec_stats()
            },
    {
        let pipeline = self.discovery.get_pipeline(now);
        if pipeline.len() == 0 {
            self.record_failure();
            return Err(PipelineError::Internal { message: String::from_str("Pipeline is empty") });
        }
        Ok(pipeline)
    }

    /// The response of a request run through `pipeline` (the nodes
    /// `process_inference` gave, in order), with the measured latency of
    /// each of them and the total; counted as a success.
    pub fn finish_pipeline_inference(
        &mut self,
        request: InferenceRequest,
        pipeline: &Vec<ShardAnnouncement>,
        latencies_ms: &Vec<u64>,
        total_latency_ms: u64,
    ) -> (r: InferenceResponse)
        requires
            old(self).spec_stats().successful_requests < u64::MAX,
            latencies_ms@.len() == pipeline@.len(),
        ensures
            r.request_id == request.request_id,
            r.text@ == "Generated response for: "@ + request.prompt@ + " | Pipeline: "@ + decimal(
                pipeline@.len(),
            ) + " shards"@,
            r.tokens_generated == if request.max_tokens < 100 {
                request.max_tokens
            } else {
                100
            },
            r.total_latency_ms == total_latency_ms,
            r.shard_latencies@.len() == pipeline@.len(),
            forall|i: int|
                0 <= i < pipeline@.len() ==> {
                    &&& (#[trigger] r.shard_latencies@[i]).shard_id == pipeline@[i].shard_id
                    &&& r.shard_latencies@[i].node_id@ == pipeline@[i].peer_id@
                    &&& r.shard_latencies@[i].latency_ms == latencies_ms@[i]
                },
            r.strategy_used@ == "pipeline"@,
            r.success,
            r.error is None,
            final(self).spec_stats() == (CoordinatorStats {
                successful_requests: (old(self).spec_stats().successful_requests + 1) as u64,
                ..old(self).spec_stats()
            }),
            final(self).disc() == old(self).disc(),
            final(self).spec_state() == old(self).spec_state(),
            final(self).wf() == old(self).wf(),
    {
        let mut shard_latencies: Vec<ShardLatency> = Vec::new();
        let mut k: usize = 0;
        while k < pipeline.len()
            invariant
                k <= pipeline@.len(),
                latencies_ms@.len() == pipeline@.len(),
                shard_latencies@.len() == k,
                forall|i: int|
                    0 <= i < k ==> {
                        &&& (#[trigger] shard_latencies@[i]).shard_id == pipeline@[i].shard_id
                        &&& shard_latencies@[i].node_id@ == pipeline@[i].peer_id@
                        &&& shard_latencies@[i].latency_ms == latencies_ms@[i]
                    },
            decreases pipeline.len() - k,
        {
            shard_latencies.push(
                ShardLatency {
                    shard_id: pipeline[k].shard_id,
                    node_id: pipeline[k].peer_id.clone(),
                    latency_ms: latencies_ms[k],
                },
            );
            k = k + 1;
        }
        self.stats.successful_requests = self.stats.successful_requests + 1;
        let mut text = String::from_str("Generated response for: ");
        text.append(request.prompt.as_str());
        text.append(" | Pipeline: ");
        append_decimal(&mut text, pipeline.len() as u128);
        text.append(" shards");
        let tokens = if request.max_tokens < 100 {
            request.max_tokens
        } else {
            100
        };
        InferenceResponse {
            request_id: request.request_id,
            text,
            tokens_generated: tokens,
            total_latency_ms,
            shard_latencies,
            strategy_used: String::from_str("pipeline"),
            success: true,
            error: None,
        }
    }

    /// The response of a request run on the fallback node `node`; counted
    /// as a success.
    pub fn finish_fallback_inference(
        &mut self,
        request: InferenceRequest,
        node: &ShardAnnouncement,
        total_latency_ms: u64,
    ) -> (r: InferenceResponse)
        requires
            old(self).spec_stats().successful_requests < u64::MAX,
        ensures
            r.request_id == request.request_id,
            r.text@ == "Generated response for: "@ + request.prompt@ + " | Fallback mode on "@ + node.peer_id@,
            r.tokens_generated == if request.max_tokens < 100 {
                request.max_tokens
            } else {
                100
            },
            r.total_latency_ms == total_latency_ms,
            r.shard_latencies@.len() == 1,
            r.shard_latencies@[0].shard_id == 0,
            r.shard_latencies@[0].node_id@ == node.peer_id@,
            r.shard_latencies@[0].latency_ms == total_latency_ms,
            r.strategy_used@ == "single_node_fallback"@,
            r.success,
            r.error is None,
            final(self).spec_stats() == (CoordinatorStats {
                successful_requests: (old(self).spec_stats().successful_requests + 1) as u64,
                ..old(self).spec_stats()
            }),
            final(self).disc() == old(self).disc(),
            final(self).spec_state() == old(self).spec_state(),
            final(self).wf() == old(self).wf(),
    {
        self.stats.successful_requests = self.stats.successful_requests + 1;
        let mut text = String::from_str("Generated response for: ");
        text.append(request.prompt.as_str());
        text.append(" | Fallback mode on ");
        text.append(node.peer_id.as_str());
        let tokens = if request.max_tokens < 100 {
            request.max_tokens
        } else {
            100
        };
        let mut lat: Vec<ShardLatency> = Vec::new();
        lat.push(ShardLatency { shard_id: 0, node_id: node.peer_id.clone(), latency_ms: total_latency_ms });
        InferenceResponse {
            request_id: request.request_id,
            text,
            tokens_generated: tokens,
            total_latency_ms,
            shard_latencies: lat,
            strategy_used: String::from_str("single_node_fallback"),
            success: true,
            error: None,
        }
    }

    /// The shards to start nodes for at startup, at time `now`: none when
    /// the pipeline is complete, else the missing ones; an error without a
    /// spawner.
    pub fn startup_spawn_plan(&self, now: u64) -> (r: Result<Vec<u32>, PipelineError>)
        requires
            self.wf(),
        ensures
            match self.spawner() {
                None => r matches Err(PipelineError::NoFallback { reason }) && reason@
                    == "Node spawner not configured"@,
                Some(_) => r matches Ok(shards) && shards@ == if self.complete_at(now) {
                    Seq::<u32>::empty()
                } else {
                    self.missing_at(now)
                },
            },
    {
        if self.node_spawner.is_none() {
            return Err(PipelineError::NoFallback { reason: String::from_str("Node spawner not configured") });
        }
        if self.discovery.is_pipeline_complete(now) {
            return Ok(Vec::new());
        }
        Ok(self.discovery.get_missing_shards(now))
    }
}

impl CoordinatorStats {
    pub open spec fn default_spec() -> CoordinatorStats {
        CoordinatorStats {
            total_requests: 0,
            successful_requests: 0,
            failed_requests: 0,
            queued_requests: 0,
            fallback_requests: 0,
            dynamic_loads: 0,
            nodes_spawned: 0,
        }
    }
}

/// The adaptive strategy waits for half its timeout at half-second
/// intervals and ends with the single-node fallback, after trying dynamic
/// loading first when a loader is configured and spawning nodes before the
/// fallback when a spawner is.
pub proof fn lemma_adaptive_attempts(
    wait_timeout_secs: u64,
    min_memory_for_shard_mb: u64,
    min_memory_for_full_mb: u64,
    has_loader: bool,
    has_spawner: bool,
)
    ensures
        ({
            let a = attempts_spec(
                PipelineStrategy::Adaptive { wait_timeout_secs, min_memory_for_shard_mb, min_memory_for_full_mb },
                has_loader,
                has_spawner,
            );
            &&& a.len() == 2 + (if has_loader {
                1int
            } else {
                0
            }) + (if has_spawner {
                1int
            } else {
                0
            })
            &&& a.last() == Attempt::Fallback { required_memory_mb: min_memory_for_full_mb }
            &&& has_loader ==> a[0] == Attempt::DynamicLoading {
                max_shards_per_node: 2,
                min_memory_mb: min_memory_for_shard_mb,
            }
            &&& a[if has_loader {
                1int
            } else {
                0
            }] == Attempt::Wait { timeout_secs: wait_timeout_secs / 2, retry_interval_ms: 500 }
            &&& has_spawner ==> a[a.len() - 2] == Attempt::SpawnNodes {
                max_nodes_per_request: 4,
                node_startup_timeout_secs: 30,
                command_template: None,
            }
        }),
{
}

/// Every strategy but fail-fast has at least one step to try, so only
/// fail-fast rejects a request without trying anything.
pub proof fn lemma_only_fail_fast_rejects(s: PipelineStrategy, has_loader: bool, has_spawner: bool)
    ensures
        (attempts_spec(s, has_loader, has_spawner).len() == 0) == (s is FailFast),
{
}

/// Law: under the spawn-nodes strategy, the spawning step carries the
/// strategy's command template, and a spawner that takes it up starts the
/// node of each shard with that template, `{shard_id}` replaced by the
/// shard's id in decimal.
pub proof fn lemma_spawn_uses_template(
    max_nodes_per_request: u32,
    min_memory_per_node_mb: u64,
    spawn_command_template: String,
    node_startup_timeout_secs: u64,
    has_loader: bool,
    spawner: NodeSpawner,
    shard_id: u32,
)
    ensures
        attempts_spec(
            PipelineStrategy::SpawnNodes {
                max_nodes_per_request,
                min_memory_per_node_mb,
                spawn_command_template,
                node_startup_timeout_secs,
            },
            has_loader,
            true,
        ) == seq![
            Attempt::SpawnNodes {
                max_nodes_per_request,
                node_startup_timeout_secs,
                command_template: Some(spawn_command_template),
            },
        ],
        spawner.spec_with_template(Some(spawn_command_template)).command_spec(shard_id) == template_command(
            spawn_command_template@,
            shard_id,
        ),
{
}

/// Law: each plain strategy tries its own step with its own settings:
/// fail-fast tries nothing; wait-and-retry waits up to its timeout,
/// checking at its interval; dynamic loading loads with its per-node limit
/// and memory floor; the single-node fallback asks for its memory.
pub proof fn lemma_strategy_steps(s: PipelineStrategy, has_loader: bool, has_spawner: bool)
    ensures
            ({
                let s = s;
                &&& s is FailFast ==> attempts_spec(s, has_loader, has_spawner).len() == 0
                &&& s matches PipelineStrategy::WaitAndRetry { timeout_secs, retry_interval_ms } ==> attempts_spec(s, has_loader, has_spawner)
                    == seq![Attempt::Wait { timeout_secs, retry_interval_ms }]
                &&& s matches PipelineStrategy::DynamicLoading { max_shards_per_node, min_memory_mb } ==> attempts_spec(s, has_loader, has_spawner)
                    == seq![Attempt::DynamicLoading { max_shards_per_node, min_memory_mb }]
                &&& s matches PipelineStrategy::SingleNodeFallback { required_memory_mb } ==> attempts_spec(s, has_loader, has_spawner)
                    == seq![Attempt::Fallback { required_memory_mb }]
            }),
{
}

} // verus!
