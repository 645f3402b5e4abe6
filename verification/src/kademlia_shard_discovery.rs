//! Kademlia-based shard discovery for distributed Llama inference.
//!
//! Each node announces its shard to the DHT; a discoverer keeps the
//! announcements it has seen, orders the pipeline by shard id and picks the
//! best fresh replica of each shard.
//!
//! Announcements carry floating-point figures (usage, latency, reputation,
//! parameter count); they are held here as their IEEE-754 bit patterns. The
//! weighted score that ranks replicas is floating-point arithmetic and is
//! computed outside this library: each replica is stored with the rank that
//! its score gives (a larger rank is a better replica).
use vstd::prelude::*;
use vstd::string::*;
use crate::text::{decimal, parse_u32, parse_u32_spec};

pub mod records;

verus! {

/// Capabilities specific to shard processing.
#[derive(Debug, Clone, Copy, Default)]
pub struct ShardCapabilities {
    /// Number of CPU cores available
    pub cpu_cores: u32,
    /// Current CPU usage (0-100), as the bits of an `f64`
    pub cpu_usage: u64,
    /// Total memory in MB
    pub memory_total_mb: u64,
    /// Available memory in MB
    pub memory_available_mb: u64,
    /// GPU memory in MB (0 if no GPU)
    pub gpu_memory_mb: u64,
    /// Number of GPU compute units
    pub gpu_compute_units: u32,
    /// GPU utilization percentage (0-100), as the bits of an `f64`
    pub gpu_usage: u64,
    /// Whether a GPU is available for inference
    pub gpu_available: bool,
    /// Network latency to the bootstrap node in ms, as the bits of an `f64`
    pub latency_ms: u64,
    /// Node reputation score (0.0 - 1.0), as the bits of an `f64`
    pub reputation: u64,
    /// Whether the shard is currently loaded in memory
    pub shard_loaded: bool,
    /// Current number of active inference requests
    pub active_requests: u32,
    /// Maximum concurrent requests this node can handle
    pub max_concurrent: u32,
}

/// Bits of the `f64` 1.0.
pub const F64_ONE_BITS: u64 = 0x3ff0_0000_0000_0000u64;

/// Bits of the `f32` 7.0 (the default parameter count, in billions).
pub const F32_SEVEN_BITS: u32 = 0x40e0_0000u32;

/// GPU figures from the node's environment: a memory size (MB) when one is
/// set and reads as a number, with a compute-unit count (5000 when unset or
/// unreadable); no GPU otherwise.
pub open spec fn gpu_from_env_spec(memory: Option<Seq<char>>, compute: Option<Seq<char>>) -> (
    u64,
    u32,
    bool,
) {
    match memory {
        Some(m) => match crate::text::parse_u64_spec(m) {
            Some(mem) => (
                mem,
                match compute {
                    Some(c) => match crate::text::parse_u32_spec(c) {
                        Some(n) => n,
                        None => 5000u32,
                    },
                    None => 5000u32,
                },
                true,
            ),
            None => (0u64, 0u32, false),
        },
        None => (0u64, 0u32, false),
    }
}

pub open spec fn opt_view(o: Option<&str>) -> Option<Seq<char>> {
    match o {
        Some(s) => Some(s@),
        None => None,
    }
}

impl ShardCapabilities {
    /// GPU figures from the values of `NODE_GPU_MEMORY_MB` and
    /// `NODE_GPU_COMPUTE_UNITS`.
    pub fn gpu_from_env(memory: Option<&str>, compute: Option<&str>) -> (r: (u64, u32, bool))
        ensures
            r == gpu_from_env_spec(opt_view(memory), opt_view(compute)),
    {
        match memory {
            Some(m) => match crate::text::parse_u64(m) {
                Some(mem) => {
                    let units = match compute {
                        Some(c) => match crate::text::parse_u32(c) {
                            Some(n) => n,
                            None => 5000u32,
                        },
                        None => 5000u32,
                    };
                    (mem, units, true)
                },
                None => (0, 0, false),
            },
            None => (0, 0, false),
        }
    }

    /// Capabilities of this node from its core count and GPU figures; the
    /// other figures take their fixed defaults (16384 MB total memory, 8192
    /// MB available, reputation 1.0, four concurrent requests).
    pub fn detected(cpu_cores: u32, gpu: (u64, u32, bool)) -> (r: ShardCapabilities)
        ensures
            r.cpu_cores == cpu_cores,
            r.cpu_usage == 0,
            r.memory_total_mb == 16384,
            r.memory_available_mb == 8192,
            r.gpu_memory_mb == gpu.0,
            r.gpu_compute_units == gpu.1,
            r.gpu_usage == 0,
            r.gpu_available == gpu.2,
            r.latency_ms == 0,
            r.reputation == F64_ONE_BITS,
            !r.shard_loaded,
            r.active_requests == 0,
            r.max_concurrent == 4,
    {
        ShardCapabilities {
            cpu_cores,
            cpu_usage: 0,
            memory_total_mb: 16384,
            memory_available_mb: 8192,
            gpu_memory_mb: gpu.0,
            gpu_compute_units: gpu.1,
            gpu_usage: 0,
            gpu_available: gpu.2,
            latency_ms: 0,
            reputation: F64_ONE_BITS,
            shard_loaded: false,
            active_requests: 0,
            max_concurrent: 4,
        }
    }

    pub open spec fn spec_is_inference_capable(&self) -> bool {
        &&& self.memory_available_mb >= 4096
        &&& (self.gpu_available || self.cpu_cores >= 4)
        &&& self.active_requests < self.max_concurrent
    }

    /// Whether this node is a good candidate for inference: at least 4 GB
    /// of free memory, a GPU or at least four cores, and spare capacity.
    pub fn is_inference_capable(&self) -> (r: bool)
        ensures
            r == self.spec_is_inference_capable(),
    {
        self.memory_available_mb >= 4096 && (self.gpu_available || self.cpu_cores >= 4)
            && self.active_requests < self.max_concurrent
    }
}

/// Shard announcement stored in the DHT.
#[derive(Debug, Clone)]
pub struct ShardAnnouncement {
    /// PeerId of the node hosting this shard
    pub peer_id: String,
    /// Shard identifier (0, 1, 2, ...)
    pub shard_id: u32,
    /// First layer of this shard
    pub layer_start: u32,
    /// End of this shard's layers (exclusive)
    pub layer_end: u32,
    /// Number of layers in this shard
    pub num_layers: u32,
    /// Whether this shard holds the embedding layer
    pub has_embeddings: bool,
    /// Whether this shard holds the output head
    pub has_output: bool,
    /// Multiaddress for connecting to this node
    pub multiaddr: String,
    /// Node capabilities for weighted selection
    pub capabilities: ShardCapabilities,
    /// Model name
    pub model_name: String,
    /// Total shards in the cluster
    pub total_shards: u32,
    /// Time of this announcement (seconds since the epoch)
    pub timestamp: u64,
    /// Version of the announcement format
    pub version: u32,
    /// Quantization label of this shard
    pub quantization: String,
    /// Model parameter count in billions, as the bits of an `f32`
    pub model_params_billions: u32,
}

/// The settings of an announcement read from the node's environment.
#[derive(Debug)]
pub struct AnnouncementSettings {
    pub shard_id: u32,
    pub total_shards: u32,
    pub total_layers: u32,
    pub model_name: String,
}

/// A setting read as a number, or `default` when unset or unreadable.
pub open spec fn number_or(v: Option<Seq<char>>, default: u32) -> u32 {
    match v {
        Some(t) => match parse_u32_spec(t) {
            Some(n) => n,
            None => default,
        },
        None => default,
    }
}

fn read_number_or(v: Option<&str>, default: u32) -> (r: u32)
    ensures
        r == number_or(opt_view(v), default),
{
    match v {
        Some(t) => match parse_u32(t) {
            Some(n) => n,
            None => default,
        },
        None => default,
    }
}

/// The announcement settings given by the environment values of the shard
/// id, shard count, layer count and model name: none without a readable
/// shard id; 4 shards, 32 layers and `llama-8b` by default.
pub fn announcement_settings(
    shard_id: Option<&str>,
    total_shards: Option<&str>,
    total_layers: Option<&str>,
    model_name: Option<&str>,
) -> (r: Option<AnnouncementSettings>)
    ensures
        match opt_view(shard_id) {
            Some(t) => match parse_u32_spec(t) {
                Some(id) => r matches Some(a) && a.shard_id == id && a.total_shards == number_or(
                    opt_view(total_shards),
                    4,
                ) && a.total_layers == number_or(opt_view(total_layers), 32) && a.model_name@ == match opt_view(
                    model_name,
                ) {
                    Some(m) => m,
                    None => "llama-8b"@,
                },
                None => r is None,
            },
            None => r is None,
        },
{
    let id = match shard_id {
        Some(t) => match parse_u32(t) {
            Some(n) => n,
            None => {
                return None;
            },
        },
        None => {
            return None;
        },
    };
    let model = match model_name {
        Some(m) => String::from_str(m),
        None => String::from_str("llama-8b"),
    };
    Some(
        AnnouncementSettings {
            shard_id: id,
            total_shards: read_number_or(total_shards, 4),
            total_layers: read_number_or(total_layers, 32),
            model_name: model,
        },
    )
}

/// Layers per shard when `total_layers` are split over `total_shards`.
pub open spec fn layers_per_shard(total_layers: u32, total_shards: u32) -> int {
    total_layers as int / total_shards as int
}

/// First layer of a shard.
pub open spec fn layer_start_spec(shard_id: u32, total_shards: u32, total_layers: u32) -> int {
    shard_id * layers_per_shard(total_layers, total_shards)
}

/// End of a shard's layers: the last shard runs to the last layer, every
/// other one covers `layers_per_shard` layers.
pub open spec fn layer_end_spec(shard_id: u32, total_shards: u32, total_layers: u32) -> int {
    if shard_id == total_shards - 1 {
        total_layers as int
    } else {
        (shard_id + 1) * layers_per_shard(total_layers, total_shards)
    }
}

/// Inputs on which the layer arithmetic stays within `u32`.
pub open spec fn layout_fits(shard_id: u32, total_shards: u32, total_layers: u32) -> bool {
    &&& total_shards > 0
    &&& (shard_id == total_shards - 1 || (shard_id < u32::MAX && (shard_id + 1) * layers_per_shard(
        total_layers,
        total_shards,
    ) <= u32::MAX))
}

/// Whether a shard layout fits: some shards, and the layer arithmetic of
/// the shard stays within `u32`.
pub fn layers_fit_u32(shard_id: u32, total_shards: u32, total_layers: u32) -> (r: bool)
    ensures
        r == layout_fits(shard_id, total_shards, total_layers),
{
    if total_shards == 0 {
        return false;
    }
    if shard_id == total_shards - 1 {
        return true;
    }
    if shard_id == u32::MAX {
        return false;
    }
    let per = (total_layers / total_shards) as u64;
    let n = shard_id as u64 + 1;
    assert(n * per <= 0xffff_ffff * 0xffff_ffff) by (nonlinear_arith)
        requires
            n <= 0xffff_ffff,
            per <= 0xffff_ffff,
    ;
    n * per <= u32::MAX as u64
}

/// On inputs that fit, a shard's layer range is ordered and stays within `u32`.
pub proof fn lemma_layout(shard_id: u32, total_shards: u32, total_layers: u32)
    requires
        layout_fits(shard_id, total_shards, total_layers),
    ensures
        0 <= layer_start_spec(shard_id, total_shards, total_layers) <= layer_end_spec(
            shard_id,
            total_shards,
            total_layers,
        ) <= u32::MAX,
{
    let l = layers_per_shard(total_layers, total_shards);
    assert(l >= 0);
    assert(shard_id * l <= (shard_id + 1) * l) by (nonlinear_arith)
        requires
            l >= 0,
    ;
    if shard_id == total_shards - 1 {
        assert(total_shards * l <= total_layers) by (nonlinear_arith)
            requires
                l == total_layers as int / total_shards as int,
                total_shards > 0,
        ;
        assert(shard_id * l <= total_shards * l) by (nonlinear_arith)
            requires
                l >= 0,
                shard_id < total_shards,
        ;
    }
    assert(0 <= shard_id * l) by (nonlinear_arith)
        requires
            l >= 0,
    ;
}

impl ShardAnnouncement {
    /// An announcement of shard `shard_id` of `total_shards`, for a model of
    /// `total_layers` layers, stamped with time `now`.
    pub fn new(
        peer_id: &str,
        shard_id: u32,
        total_shards: u32,
        total_layers: u32,
        multiaddr: &str,
        model_name: &str,
        capabilities: ShardCapabilities,
        now: u64,
    ) -> (r: ShardAnnouncement)
        requires
            layout_fits(shard_id, total_shards, total_layers),
        ensures
            r.peer_id@ == peer_id@,
            r.shard_id == shard_id,
            r.layer_start == layer_start_spec(shard_id, total_shards, total_layers),
            r.layer_end == layer_end_spec(shard_id, total_shards, total_layers),
            r.num_layers == r.layer_end - r.layer_start,
            r.has_embeddings == (shard_id == 0),
            r.has_output == (shard_id == total_shards - 1),
            r.multiaddr@ == multiaddr@,
            r.capabilities == capabilities,
            r.model_name@ == model_name@,
            r.total_shards == total_shards,
            r.timestamp == now,
            r.version == 2,
            r.quantization@ == "FP16"@,
            r.model_params_billions == F32_SEVEN_BITS,
    {
        proof {
            lemma_layout(shard_id, total_shards, total_layers);
        }
        let layers_per_shard = total_layers / total_shards;
        let layer_start = shard_id * layers_per_shard;
        let layer_end = if shard_id == total_shards - 1 {
            total_layers
        } else {
            (shard_id + 1) * layers_per_shard
        };
        ShardAnnouncement {
            peer_id: String::from_str(peer_id),
            shard_id,
            layer_start,
            layer_end,
            num_layers: layer_end - layer_start,
            has_embeddings: shard_id == 0,
            has_output: shard_id == total_shards - 1,
            multiaddr: String::from_str(multiaddr),
            capabilities,
            model_name: String::from_str(model_name),
            total_shards,
            timestamp: now,
            version: 2,
            quantization: String::from_str("FP16"),
            model_params_billions: F32_SEVEN_BITS,
        }
    }

    /// The announcement with the given quantization label and parameter
    /// count (bits of an `f32`).
    pub fn with_quantization(self, quantization: String, params_billions: u32) -> (r:
        ShardAnnouncement)
        ensures
            r == (ShardAnnouncement {
                quantization,
                model_params_billions: params_billions,
                ..self
            }),
    {
        ShardAnnouncement { quantization, model_params_billions: params_billions, ..self }
    }

    pub open spec fn spec_is_fresh(&self, ttl_seconds: u64, now: u64) -> bool {
        (if now >= self.timestamp {
            now - self.timestamp
        } else {
            0
        }) < ttl_seconds
    }

    /// Whether the announcement is less than `ttl_seconds` old at time `now`.
    pub fn is_fresh(&self, ttl_seconds: u64, now: u64) -> (r: bool)
        ensures
            r == self.spec_is_fresh(ttl_seconds, now),
    {
        now.saturating_sub(self.timestamp) < ttl_seconds
    }

    /// A copy of the announcement.
    pub fn duplicate(&self) -> (r: ShardAnnouncement)
        ensures
            r == *self,
    {
        ShardAnnouncement {
            peer_id: self.peer_id.clone(),
            shard_id: self.shard_id,
            layer_start: self.layer_start,
            layer_end: self.layer_end,
            num_layers: self.num_layers,
            has_embeddings: self.has_embeddings,
            has_output: self.has_output,
            multiaddr: self.multiaddr.clone(),
            capabilities: self.capabilities,
            model_name: self.model_name.clone(),
            total_shards: self.total_shards,
            timestamp: self.timestamp,
            version: self.version,
            quantization: self.quantization.clone(),
            model_params_billions: self.model_params_billions,
        }
    }
}

/// Cluster metadata stored in the DHT.
#[derive(Debug, Clone)]
pub struct ClusterMetadata {
    pub cluster_name: String,
    pub model_name: String,
    pub total_shards: u32,
    pub total_layers: u32,
    pub created_at: u64,
    pub last_updated: u64,
}

/// Pipeline status summary.
#[derive(Debug, Clone)]
pub struct PipelineStatus {
    pub cluster_name: String,
    pub discovered_shards: u32,
    pub expected_shards: u32,
    pub total_replicas: u32,
    pub is_complete: bool,
    pub has_entry: bool,
    pub has_exit: bool,
    pub missing_shards: Vec<u32>,
}

/// The text of a boolean.
pub open spec fn bool_text(b: bool) -> Seq<char> {
    if b {
        "true"@
    } else {
        "false"@
    }
}

fn append_bool(s: &mut String, b: bool)
    ensures
        final(s)@ == old(s)@ + bool_text(b),
{
    if b {
        s.append("true");
    } else {
        s.append("false");
    }
}

/// The one-line summary of a pipeline status.
pub open spec fn status_summary_spec(st: PipelineStatus) -> Seq<char> {
    "Pipeline '"@ + st.cluster_name@ + "': "@ + decimal(st.discovered_shards as nat) + "/"@ + decimal(
        st.expected_shards as nat,
    ) + " shards, "@ + decimal(st.total_replicas as nat) + " replicas, complete: "@ + bool_text(st.is_complete)
        + ", entry: "@ + bool_text(st.has_entry) + ", exit: "@ + bool_text(st.has_exit)
}

impl PipelineStatus {
    /// The one-line summary: cluster, shard counts, replicas, completeness,
    /// entry and exit.
    pub fn summary(&self) -> (r: String)
        ensures
            r@ == status_summary_spec(*self),
    {
        let mut s = String::from_str("Pipeline '");
        s.append(self.cluster_name.as_str());
        s.append("': ");
        crate::text::append_decimal(&mut s, self.discovered_shards as u128);
        s.append("/");
        crate::text::append_decimal(&mut s, self.expected_shards as u128);
        s.append(" shards, ");
        crate::text::append_decimal(&mut s, self.total_replicas as u128);
        s.append(" replicas, complete: ");
        append_bool(&mut s, self.is_complete);
        s.append(", entry: ");
        append_bool(&mut s, self.has_entry);
        s.append(", exit: ");
        append_bool(&mut s, self.has_exit);
        s
    }
}

/// One known replica of a shard: its announcement and the rank that its
/// weighted score gives it among replicas (larger is better).
#[derive(Debug, Clone)]
pub struct Replica {
    pub announcement: ShardAnnouncement,
    pub rank: u64,
}

/// The replicas known for one shard id.
#[derive(Debug, Clone)]
pub struct ShardEntry {
    pub shard_id: u32,
    pub replicas: Vec<Replica>,
}

/// Entries ordered by strictly increasing shard id.
pub open spec fn sorted_ids(e: Seq<ShardEntry>) -> bool {
    forall|i: int, j: int| 0 <= i < j < e.len() ==> (#[trigger] e[i]).shard_id < (#[trigger] e[j]).shard_id
}

/// Within one shard, no two replicas come from the same peer.
pub open spec fn distinct_peers(r: Seq<Replica>) -> bool {
    forall|j: int, k: int|
        0 <= j < r.len() && 0 <= k < r.len() && j != k ==> (#[trigger] r[j]).announcement.peer_id@
            != (#[trigger] r[k]).announcement.peer_id@
}

/// The shape that the discoverer keeps: sorted ids, no empty entry, every
/// replica filed under its own shard id, one replica per peer and shard.
pub open spec fn entries_wf(e: Seq<ShardEntry>) -> bool {
    &&& sorted_ids(e)
    &&& forall|i: int| 0 <= i < e.len() ==> (#[trigger] e[i]).replicas@.len() > 0
    &&& forall|i: int, j: int|
        0 <= i < e.len() && 0 <= j < e[i].replicas@.len() ==> (#[trigger] e[i].replicas@[j]).announcement.shard_id
            == e[i].shard_id
    &&& forall|i: int| 0 <= i < e.len() ==> distinct_peers((#[trigger] e[i]).replicas@)
}

pub open spec fn has_id(e: Seq<ShardEntry>, id: u32) -> bool {
    exists|i: int| 0 <= i < e.len() && (#[trigger] e[i]).shard_id == id
}

/// The replicas known for shard `id` (none when it is unknown).
pub open spec fn replicas_of(e: Seq<ShardEntry>, id: u32) -> Seq<Replica> {
    if has_id(e, id) {
        e[choose|i: int| 0 <= i < e.len() && (#[trigger] e[i]).shard_id == id].replicas@
    } else {
        Seq::empty()
    }
}

pub open spec fn replica_fresh(r: Replica, ttl: u64, now: u64) -> bool {
    r.announcement.spec_is_fresh(ttl, now)
}

/// Index of the replica that `max_by` over the fresh replicas picks: the
/// highest rank, and among equal ranks the last one.
pub open spec fn best_index(s: Seq<Replica>, ttl: u64, now: u64) -> Option<int>
    decreases s.len(),
{
    if s.len() == 0 {
        None
    } else {
        let prev = best_index(s.drop_last(), ttl, now);
        if !replica_fresh(s.last(), ttl, now) {
            prev
        } else {
            match prev {
                None => Some(s.len() - 1),
                Some(b) => if s[b].rank <= s.last().rank {
                    Some(s.len() - 1)
                } else {
                    prev
                },
            }
        }
    }
}

/// The best fresh replica's announcement of shard `id`.
pub open spec fn best_of(e: Seq<ShardEntry>, id: u32, ttl: u64, now: u64) -> Option<
    ShardAnnouncement,
> {
    match best_index(replicas_of(e, id), ttl, now) {
        Some(i) => Some(replicas_of(e, id)[i].announcement),
        None => None,
    }
}

/// The pipeline: the best fresh replica of each known shard, by shard id.
pub open spec fn pipeline_spec(e: Seq<ShardEntry>, ttl: u64, now: u64) -> Seq<ShardAnnouncement>
    decreases e.len(),
{
    if e.len() == 0 {
        Seq::empty()
    } else {
        let prev = pipeline_spec(e.drop_last(), ttl, now);
        match best_index(e.last().replicas@, ttl, now) {
            Some(i) => prev.push(e.last().replicas@[i].announcement),
            None => prev,
        }
    }
}

/// Total number of replicas over all shards.
pub open spec fn replica_total(e: Seq<ShardEntry>) -> nat
    decreases e.len(),
{
    if e.len() == 0 {
        0
    } else {
        replica_total(e.drop_last()) + e.last().replicas@.len()
    }
}

/// How the replicas of one shard change when an announcement is added: a
/// replica from the same peer is replaced in place, otherwise the new one
/// is appended.
pub open spec fn with_replica(old: Seq<Replica>, r: Replica) -> Seq<Replica> {
    if exists|j: int| 0 <= j < old.len() && (#[trigger] old[j]).announcement.peer_id@ == r.announcement.peer_id@ {
        old.update(
            choose|j: int| 0 <= j < old.len() && (#[trigger] old[j]).announcement.peer_id@ == r.announcement.peer_id@,
            r,
        )
    } else {
        old.push(r)
    }
}

/// Whether some replica comes from `peer`.
pub open spec fn has_peer(rs: Seq<Replica>, peer: Seq<char>) -> bool {
    exists|j: int| 0 <= j < rs.len() && (#[trigger] rs[j]).announcement.peer_id@ == peer
}

proof fn lemma_replica_total_update(e: Seq<ShardEntry>, i: int, x: ShardEntry)
    requires
        0 <= i < e.len(),
    ensures
        replica_total(e.update(i, x)) == replica_total(e) - e[i].replicas@.len() + x.replicas@.len(),
    decreases e.len(),
{
    let u = e.update(i, x);
    if i == e.len() - 1 {
        assert(u.drop_last() =~= e.drop_last());
    } else {
        lemma_replica_total_update(e.drop_last(), i, x);
        assert(u.drop_last() =~= e.drop_last().update(i, x));
    }
}

proof fn lemma_replica_total_insert(e: Seq<ShardEntry>, p: int, x: ShardEntry)
    requires
        0 <= p <= e.len(),
    ensures
        replica_total(e.insert(p, x)) == replica_total(e) + x.replicas@.len(),
    decreases e.len(),
{
    let u = e.insert(p, x);
    if p == e.len() {
        assert(u.drop_last() =~= e);
    } else {
        lemma_replica_total_insert(e.drop_last(), p, x);
        assert(u.drop_last() =~= e.drop_last().insert(p, x));
        assert(u.last() == e.last());
    }
}

proof fn lemma_id_unique(e: Seq<ShardEntry>, i: int, j: int)
    requires
        sorted_ids(e),
        0 <= i < e.len(),
        0 <= j < e.len(),
        e[i].shard_id == e[j].shard_id,
    ensures
        i == j,
{
    if i < j {
        assert(e[i].shard_id < e[j].shard_id);
    } else if j < i {
        assert(e[j].shard_id < e[i].shard_id);
    }
}

proof fn lemma_replicas_at(e: Seq<ShardEntry>, i: int)
    requires
        sorted_ids(e),
        0 <= i < e.len(),
    ensures
        has_id(e, e[i].shard_id),
        replicas_of(e, e[i].shard_id) == e[i].replicas@,
{
    let id = e[i].shard_id;
    assert(has_id(e, id));
    let j = choose|j: int| 0 <= j < e.len() && (#[trigger] e[j]).shard_id == id;
    lemma_id_unique(e, i, j);
}

/// The entry node: the best replica of shard 0, when it holds the
/// embeddings.
pub open spec fn entry_spec(e: Seq<ShardEntry>, ttl: u64, now: u64) -> Option<ShardAnnouncement> {
    match best_of(e, 0, ttl, now) {
        Some(a) => if a.has_embeddings {
            Some(a)
        } else {
            None
        },
        None => None,
    }
}

/// Whether some fresh replica holds the output head.
pub open spec fn some_fresh_output(e: Seq<ShardEntry>, ttl: u64, now: u64) -> bool {
    exists|i: int, j: int|
        0 <= i < e.len() && 0 <= j < e[i].replicas@.len() && (#[trigger] e[i].replicas@[j]).announcement.has_output
            && replica_fresh(e[i].replicas@[j], ttl, now)
}

/// Whether there is an exit node: with an expected shard count, the best
/// replica of the last shard holds the output head (with a count of zero
/// there is no last shard); without one, some fresh replica holds it.
pub open spec fn exit_exists_spec(e: Seq<ShardEntry>, expected: Option<u32>, ttl: u64, now: u64) -> bool {
    match expected {
        Some(x) => x > 0 && match best_of(e, (x - 1) as u32, ttl, now) {
            Some(a) => a.has_output,
            None => false,
        },
        None => some_fresh_output(e, ttl, now),
    }
}

/// The pipeline is complete: a shard count is expected, at least that many
/// shards are known, every shard below it has a fresh replica, and there
/// are entry and exit nodes.
pub open spec fn complete_spec(e: Seq<ShardEntry>, expected: Option<u32>, ttl: u64, now: u64) -> bool {
    match expected {
        None => false,
        Some(x) => {
            &&& e.len() >= x
            &&& forall|id: u32| id < x ==> (#[trigger] best_of(e, id, ttl, now)) is Some
            &&& entry_spec(e, ttl, now) is Some
            &&& exit_exists_spec(e, expected, ttl, now)
        },
    }
}

/// The shard ids below the expected count that have no fresh replica, in
/// increasing order (none when no count is expected).
pub open spec fn missing_spec(e: Seq<ShardEntry>, expected: Option<u32>, ttl: u64, now: u64) -> Seq<
    u32,
> {
    match expected {
        None => Seq::empty(),
        Some(x) => Seq::new(x as nat, |i: int| i as u32).filter(
            |id: u32| best_of(e, id, ttl, now) is None,
        ),
    }
}

/// Index of the replica that `max_by` over the fresh replicas picks.
pub fn best_replica_index(replicas: &Vec<Replica>, ttl: u64, now: u64) -> (r: Option<usize>)
    ensures
        match best_index(replicas@, ttl, now) {
            Some(i) => r == Some(i as usize),
            None => r is None,
        },
        r is Some ==> r->0 < replicas@.len(),
        r is Some ==> best_index(replicas@, ttl, now) == Some(r->0 as int),
{
    proof {
        lemma_best_index_bound(replicas@, ttl, now);
    }
    let mut best: Option<usize> = None;
    let mut k: usize = 0;
    while k < replicas.len()
        invariant
            k <= replicas@.len(),
            match best_index(replicas@.subrange(0, k as int), ttl, now) {
                Some(i) => best == Some(i as usize),
                None => best is None,
            },
            best is Some ==> best->0 < k,
        decreases replicas.len() - k,
    {
        let ghost pre = replicas@.subrange(0, k as int);
        let ghost cur = replicas@.subrange(0, k + 1);
        assert(cur.drop_last() =~= pre);
        assert(cur.last() == replicas@[k as int]);
        proof {
            lemma_best_index_bound(pre, ttl, now);
        }
        if replicas[k].announcement.is_fresh(ttl, now) {
            match best {
                None => {
                    best = Some(k);
                },
                Some(b) => {
                    assert(cur[b as int] == replicas@[b as int]);
                    if replicas[b].rank <= replicas[k].rank {
                        best = Some(k);
                    }
                },
            }
        }
        k = k + 1;
    }
    assert(replicas@.subrange(0, replicas@.len() as int) =~= replicas@);
    best
}

proof fn lemma_best_index_bound(s: Seq<Replica>, ttl: u64, now: u64)
    ensures
        best_index(s, ttl, now) is Some ==> 0 <= best_index(s, ttl, now)->0 < s.len(),
        best_index(s, ttl, now) is Some ==> replica_fresh(s[best_index(s, ttl, now)->0], ttl, now),
    decreases s.len(),
{
    if s.len() > 0 {
        lemma_best_index_bound(s.drop_last(), ttl, now);
        let p = best_index(s.drop_last(), ttl, now);
        if p is Some {
            assert(s.drop_last()[p->0] == s[p->0]);
        }
    }
}

/// Law: the chosen replica is fresh and no fresh replica ranks higher;
/// and a replica is chosen exactly when some replica is fresh.
pub proof fn lemma_best_index_is_max(s: Seq<Replica>, ttl: u64, now: u64)
    ensures
        best_index(s, ttl, now) is Some <==> exists|k: int| 0 <= k < s.len() && replica_fresh(
            #[trigger] s[k],
            ttl,
            now,
        ),
        best_index(s, ttl, now) is Some ==> {
            let b = best_index(s, ttl, now)->0;
            &&& 0 <= b < s.len()
            &&& replica_fresh(s[b], ttl, now)
            &&& forall|k: int| 0 <= k < s.len() && replica_fresh(#[trigger] s[k], ttl, now) ==> s[k].rank <= s[b].rank
        },
    decreases s.len(),
{
    lemma_best_index_bound(s, ttl, now);
    if s.len() > 0 {
        let d = s.drop_last();
        lemma_best_index_is_max(d, ttl, now);
        if exists|k: int| 0 <= k < d.len() && replica_fresh(#[trigger] d[k], ttl, now) {
            let k = choose|k: int| 0 <= k < d.len() && replica_fresh(#[trigger] d[k], ttl, now);
            assert(s[k] == d[k]);
        }
        if exists|k: int| 0 <= k < s.len() && replica_fresh(#[trigger] s[k], ttl, now) {
            let k = choose|k: int| 0 <= k < s.len() && replica_fresh(#[trigger] s[k], ttl, now);
            if k < s.len() - 1 {
                assert(d[k] == s[k]);
            }
        }
        if best_index(s, ttl, now) is Some {
            let b = best_index(s, ttl, now)->0;
            assert forall|k: int| 0 <= k < s.len() && replica_fresh(#[trigger] s[k], ttl, now) implies s[k].rank
                <= s[b].rank by {
                if k < s.len() - 1 {
                    assert(d[k] == s[k]);
                    let p = best_index(d, ttl, now);
                    assert(p is Some);
                    assert(d[p->0] == s[p->0]);
                }
            }
        }
    }
}

proof fn lemma_pipeline_ids(e: Seq<ShardEntry>, ttl: u64, now: u64)
    requires
        entries_wf(e),
    ensures
        forall|k: int|
            0 <= k < pipeline_spec(e, ttl, now).len() ==> exists|i: int|
                0 <= i < e.len() && (#[trigger] pipeline_spec(e, ttl, now)[k]).shard_id == e[i].shard_id,
    decreases e.len(),
{
    if e.len() > 0 {
        let d = e.drop_last();
        assert(entries_wf(d)) by {
            assert forall|i: int, j: int| 0 <= i < j < d.len() implies (#[trigger] d[i]).shard_id < (
            #[trigger] d[j]).shard_id by {
                assert(d[i] == e[i] && d[j] == e[j]);
            }
            assert forall|i: int| 0 <= i < d.len() implies (#[trigger] d[i]).replicas@.len() > 0 by {
                assert(d[i] == e[i]);
            }
            assert forall|i: int, j: int| 0 <= i < d.len() && 0 <= j < d[i].replicas@.len() implies (
            #[trigger] d[i].replicas@[j]).announcement.shard_id == d[i].shard_id by {
                assert(d[i] == e[i]);
            }
            assert forall|i: int| 0 <= i < d.len() implies distinct_peers((#[trigger] d[i]).replicas@) by {
                assert(d[i] == e[i]);
            }
        }
        lemma_pipeline_ids(d, ttl, now);
        lemma_best_index_bound(e.last().replicas@, ttl, now);
        let p = pipeline_spec(e, ttl, now);
        let q = pipeline_spec(d, ttl, now);
        assert forall|k: int| 0 <= k < p.len() implies exists|i: int|
            0 <= i < e.len() && (#[trigger] p[k]).shard_id == e[i].shard_id by {
            if k < q.len() {
                assert(p[k] == q[k]);
                let i = choose|i: int| 0 <= i < d.len() && (#[trigger] q[k]).shard_id == d[i].shard_id;
                assert(d[i] == e[i]);
            } else {
                let b = best_index(e.last().replicas@, ttl, now)->0;
                assert(p[k] == e.last().replicas@[b].announcement);
                assert(e[e.len() - 1].replicas@[b].announcement.shard_id == e[e.len() - 1].shard_id);
            }
        }
    }
}

/// Law: the pipeline runs in shard order, one node per shard: its shard
/// ids strictly increase.
pub proof fn lemma_pipeline_sorted(e: Seq<ShardEntry>, ttl: u64, now: u64)
    requires
        entries_wf(e),
    ensures
        forall|i: int, j: int|
            0 <= i < j < pipeline_spec(e, ttl, now).len() ==> (#[trigger] pipeline_spec(e, ttl, now)[i]).shard_id
                < (#[trigger] pipeline_spec(e, ttl, now)[j]).shard_id,
    decreases e.len(),
{
    if e.len() > 0 {
        let d = e.drop_last();
        assert(entries_wf(d)) by {
            assert forall|i: int, j: int| 0 <= i < j < d.len() implies (#[trigger] d[i]).shard_id < (
            #[trigger] d[j]).shard_id by {
                assert(d[i] == e[i] && d[j] == e[j]);
            }
            assert forall|i: int| 0 <= i < d.len() implies (#[trigger] d[i]).replicas@.len() > 0 by {
                assert(d[i] == e[i]);
            }
            assert forall|i: int, j: int| 0 <= i < d.len() && 0 <= j < d[i].replicas@.len() implies (
            #[trigger] d[i].replicas@[j]).announcement.shard_id == d[i].shard_id by {
                assert(d[i] == e[i]);
            }
            assert forall|i: int| 0 <= i < d.len() implies distinct_peers((#[trigger] d[i]).replicas@) by {
                assert(d[i] == e[i]);
            }
        }
        lemma_pipeline_sorted(d, ttl, now);
        lemma_pipeline_ids(d, ttl, now);
        lemma_best_index_bound(e.last().replicas@, ttl, now);
        let p = pipeline_spec(e, ttl, now);
        let q = pipeline_spec(d, ttl, now);
        assert forall|i: int, j: int| 0 <= i < j < p.len() implies (#[trigger] p[i]).shard_id < (
        #[trigger] p[j]).shard_id by {
            if j < q.len() {
                assert(p[i] == q[i] && p[j] == q[j]);
            } else {
                assert(p[i] == q[i]);
                let m = choose|m: int| 0 <= m < d.len() && (#[trigger] q[i]).shard_id == d[m].shard_id;
                assert(d[m] == e[m]);
                let b = best_index(e.last().replicas@, ttl, now)->0;
                assert(p[j] == e.last().replicas@[b].announcement);
                assert(e[e.len() - 1].replicas@[b].announcement.shard_id == e[e.len() - 1].shard_id);
            }
        }
    }
}

/// Law: a complete pipeline misses no shard.
pub proof fn lemma_complete_has_no_missing(e: Seq<ShardEntry>, expected: Option<u32>, ttl: u64, now: u64)
    requires
        complete_spec(e, expected, ttl, now),
    ensures
        missing_spec(e, expected, ttl, now).len() == 0,
{
    let x = expected->0;
    let ids = Seq::new(x as nat, |i: int| i as u32);
    let pred = |id: u32| best_of(e, id, ttl, now) is None;
    let f = ids.filter(pred);
    if f.len() > 0 {
        ids.lemma_filter_pred(pred, 0);
        assert(f.contains(f[0]));
        ids.lemma_filter_contains_rev(pred, f[0]);
        assert(ids.contains(f[0]));
        assert(pred(f[0]));
        let k = choose|k: int| 0 <= k < ids.len() && ids[k] == f[0];
        assert(best_of(e, f[0], ttl, now) is Some);
    }
}

proof fn lemma_entries_wf_drop(e: Seq<ShardEntry>)
    requires
        entries_wf(e),
        e.len() > 0,
    ensures
        entries_wf(e.drop_last()),
{
    let d = e.drop_last();
    assert forall|i: int, j: int| 0 <= i < j < d.len() implies (#[trigger] d[i]).shard_id < (
    #[trigger] d[j]).shard_id by {
        assert(d[i] == e[i] && d[j] == e[j]);
    }
    assert forall|i: int| 0 <= i < d.len() implies (#[trigger] d[i]).replicas@.len() > 0 by {
        assert(d[i] == e[i]);
    }
    assert forall|i: int, j: int| 0 <= i < d.len() && 0 <= j < d[i].replicas@.len() implies (
    #[trigger] d[i].replicas@[j]).announcement.shard_id == d[i].shard_id by {
        assert(d[i] == e[i]);
    }
    assert forall|i: int| 0 <= i < d.len() implies distinct_peers((#[trigger] d[i]).replicas@) by {
        assert(d[i] == e[i]);
    }
}

/// Dropping the last entry leaves the replicas of every other shard.
proof fn lemma_replicas_drop(e: Seq<ShardEntry>, id: u32)
    requires
        sorted_ids(e),
        e.len() > 0,
        id != e.last().shard_id,
    ensures
        has_id(e, id) == has_id(e.drop_last(), id),
        replicas_of(e, id) == replicas_of(e.drop_last(), id),
{
    let d = e.drop_last();
    if has_id(e, id) {
        let j = choose|j: int| 0 <= j < e.len() && (#[trigger] e[j]).shard_id == id;
        assert(j < e.len() - 1);
        assert(d[j] == e[j]);
        assert(has_id(d, id));
        lemma_replicas_at(e, j);
        assert(sorted_ids(d)) by {
            assert forall|a: int, b: int| 0 <= a < b < d.len() implies (#[trigger] d[a]).shard_id < (
            #[trigger] d[b]).shard_id by {
                assert(d[a] == e[a] && d[b] == e[b]);
            }
        }
        lemma_replicas_at(d, j);
    }
    if has_id(d, id) {
        let j = choose|j: int| 0 <= j < d.len() && (#[trigger] d[j]).shard_id == id;
        assert(e[j] == d[j]);
    }
}

/// Law: the pipeline holds, for each shard with a fresh replica and for no
/// other, the best fresh replica of that shard, in increasing shard order.
pub proof fn lemma_pipeline_is_best(e: Seq<ShardEntry>, ttl: u64, now: u64)
    requires
        entries_wf(e),
    ensures
        forall|i: int, j: int|
            0 <= i < j < pipeline_spec(e, ttl, now).len() ==> (#[trigger] pipeline_spec(e, ttl, now)[i]).shard_id
                < (#[trigger] pipeline_spec(e, ttl, now)[j]).shard_id,
        forall|k: int|
            0 <= k < pipeline_spec(e, ttl, now).len() ==> best_of(
                e,
                (#[trigger] pipeline_spec(e, ttl, now)[k]).shard_id,
                ttl,
                now,
            ) == Some(pipeline_spec(e, ttl, now)[k]),
        forall|id: u32|
            #[trigger] best_of(e, id, ttl, now) is Some ==> exists|k: int|
                0 <= k < pipeline_spec(e, ttl, now).len() && pipeline_spec(e, ttl, now)[k].shard_id == id,
    decreases e.len(),
{
    lemma_pipeline_sorted(e, ttl, now);
    if e.len() > 0 {
        let d = e.drop_last();
        lemma_entries_wf_drop(e);
        lemma_pipeline_is_best(d, ttl, now);
        lemma_pipeline_ids(d, ttl, now);
        lemma_best_index_bound(e.last().replicas@, ttl, now);
        lemma_replicas_at(e, e.len() - 1);
        let last = e.last().shard_id;
        let p = pipeline_spec(e, ttl, now);
        let q = pipeline_spec(d, ttl, now);
        assert forall|k: int| 0 <= k < p.len() implies best_of(e, (#[trigger] p[k]).shard_id, ttl, now) == Some(
            p[k],
        ) by {
            if k < q.len() {
                assert(p[k] == q[k]);
                let m = choose|m: int| 0 <= m < d.len() && (#[trigger] q[k]).shard_id == d[m].shard_id;
                assert(d[m] == e[m]);
                assert(e[m].shard_id < last);
                lemma_replicas_drop(e, q[k].shard_id);
            } else {
                let b = best_index(e.last().replicas@, ttl, now)->0;
                assert(p[k] == e.last().replicas@[b].announcement);
                assert(e[e.len() - 1].replicas@[b].announcement.shard_id == last);
            }
        }
        assert forall|id: u32| #[trigger] best_of(e, id, ttl, now) is Some implies exists|k: int|
            0 <= k < p.len() && p[k].shard_id == id by {
            if id == last {
                let b = best_index(e.last().replicas@, ttl, now)->0;
                assert(p[q.len() as int] == e.last().replicas@[b].announcement);
                assert(e[e.len() - 1].replicas@[b].announcement.shard_id == last);
            } else {
                lemma_replicas_drop(e, id);
                assert(best_of(d, id, ttl, now) is Some);
                let k = choose|k: int| 0 <= k < q.len() && q[k].shard_id == id;
                assert(p[k] == q[k]);
            }
        }
    }
}

/// Where every shard below `x` is known, at least `x` shards are known.
proof fn lemma_known_count(e: Seq<ShardEntry>, x: u32)
    requires
        sorted_ids(e),
        forall|id: u32| id < x ==> #[trigger] has_id(e, id),
    ensures
        e.len() >= x,
{
    if x > 0 {
        // The entry of the last shard below `x` sits at an index of at least
        // its id.
        lemma_index_at_least(e, x, (x - 1) as u32);
        let i = choose|i: int| (x - 1) as u32 <= i < e.len() && (#[trigger] e[i]).shard_id == (x - 1) as u32;
    }
}

proof fn lemma_index_at_least(e: Seq<ShardEntry>, x: u32, id: u32)
    requires
        sorted_ids(e),
        forall|k: u32| k < x ==> #[trigger] has_id(e, k),
        id < x,
    ensures
        exists|i: int| id <= i < e.len() && (#[trigger] e[i]).shard_id == id,
    decreases id,
{
    assert(has_id(e, id));
    let i = choose|i: int| 0 <= i < e.len() && (#[trigger] e[i]).shard_id == id;
    if id > 0 {
        lemma_index_at_least(e, x, (id - 1) as u32);
        let j = choose|j: int| (id - 1) as u32 <= j < e.len() && (#[trigger] e[j]).shard_id == (id - 1) as u32;
        if i <= j {
            if i < j {
                assert(e[i].shard_id < e[j].shard_id);
            }
        }
        assert(i > j);
    }
}

/// Law: the pipeline is complete exactly when a shard count is expected,
/// every shard below it has a fresh replica, and there are entry and exit
/// nodes (without an expected count it is never complete).
pub proof fn lemma_complete_per_shard(e: Seq<ShardEntry>, expected: Option<u32>, ttl: u64, now: u64)
    requires
        entries_wf(e),
    ensures
        complete_spec(e, expected, ttl, now) <==> (expected is Some && (forall|id: u32|
            id < expected->0 ==> (#[trigger] best_of(e, id, ttl, now)) is Some) && entry_spec(e, ttl, now) is Some
            && exit_exists_spec(e, expected, ttl, now)),
{
    if expected is Some && (forall|id: u32| id < expected->0 ==> (#[trigger] best_of(e, id, ttl, now)) is Some) {
        let x = expected->0;
        assert forall|id: u32| id < x implies #[trigger] has_id(e, id) by {
            assert(best_of(e, id, ttl, now) is Some);
            if !has_id(e, id) {
                assert(replicas_of(e, id) =~= Seq::<Replica>::empty());
            }
        }
        lemma_known_count(e, x);
    }
}

/// What adding an announcement with a rank does to the known shards: its
/// shard becomes known, and its replicas take the announcement in (in place
/// of one from the same peer, else at the end); every other shard keeps its
/// replicas.
pub open spec fn added(
    o: Seq<ShardEntry>,
    n: Seq<ShardEntry>,
    announcement: ShardAnnouncement,
    rank: u64,
) -> bool {
    &&& forall|id: u32| #[trigger] has_id(n, id) == (has_id(o, id) || id == announcement.shard_id)
    &&& forall|id: u32| #[trigger]
        replicas_of(n, id) == if id == announcement.shard_id {
            with_replica(replicas_of(o, id), Replica { announcement, rank })
        } else {
            replicas_of(o, id)
        }
}

/// Kademlia-based shard discoverer: keeps the announcements it has seen
/// and orders the pipeline by shard id.
pub struct KademliaShardDiscovery {
    cluster_name: String,
    known_shards: Vec<ShardEntry>,
    expected_shards: Option<u32>,
    metadata: Option<ClusterMetadata>,
    ttl_seconds: u64,
}

impl KademliaShardDiscovery {
    /// The known shards, by increasing shard id.
    pub closed spec fn entries(&self) -> Seq<ShardEntry> {
        self.known_shards@
    }

    pub closed spec fn spec_expected(&self) -> Option<u32> {
        self.expected_shards
    }

    pub closed spec fn spec_ttl(&self) -> u64 {
        self.ttl_seconds
    }

    pub closed spec fn spec_cluster_name(&self) -> Seq<char> {
        self.cluster_name@
    }

    pub open spec fn wf(&self) -> bool {
        entries_wf(self.entries())
    }

    /// A discoverer for a cluster, with no shards known, no expected shard
    /// count and a five-minute announcement lifetime.
    pub fn new(cluster_name: &str) -> (r: KademliaShardDiscovery)
        ensures
            r.wf(),
            r.entries().len() == 0,
            r.spec_expected() is None,
            r.spec_ttl() == 300,
            r.spec_cluster_name() == cluster_name@,
    {
        KademliaShardDiscovery {
            cluster_name: String::from_str(cluster_name),
            known_shards: Vec::new(),
            expected_shards: None,
            metadata: None,
            ttl_seconds: 300,
        }
    }

    /// A discoverer that expects `expected_shards` shards.
    pub fn with_expected_shards(cluster_name: &str, expected_shards: u32) -> (r:
        KademliaShardDiscovery)
        ensures
            r.wf(),
            r.entries().len() == 0,
            r.spec_expected() == Some(expected_shards),
            r.spec_ttl() == 300,
            r.spec_cluster_name() == cluster_name@,
    {
        let mut d = KademliaShardDiscovery::new(cluster_name);
        d.expected_shards = Some(expected_shards);
        d
    }

    /// Sets the announcement lifetime.
    pub fn set_ttl(&mut self, ttl_seconds: u64)
        ensures
            final(self).spec_ttl() == ttl_seconds,
            final(self).entries() == old(self).entries(),
            final(self).spec_expected() == old(self).spec_expected(),
            final(self).spec_cluster_name() == old(self).spec_cluster_name(),
    {
        self.ttl_seconds = ttl_seconds;
    }

    /// The announcement lifetime in seconds.
    pub fn ttl_seconds(&self) -> (r: u64)
        ensures
            r == self.spec_ttl(),
    {
        self.ttl_seconds
    }

    /// The expected shard count, if known.
    pub fn expected_shards(&self) -> (r: Option<u32>)
        ensures
            r == self.spec_expected(),
    {
        self.expected_shards
    }

    /// The cluster name.
    pub fn cluster_name(&self) -> (r: &str)
        ensures
            r@ == self.spec_cluster_name(),
    {
        self.cluster_name.as_str()
    }

    /// Position of the entry for `id`, or where it would be inserted.
    fn find_entry(&self, id: u32) -> (r: Result<usize, usize>)
        requires
            sorted_ids(self.entries()),
        ensures
            match r {
                Ok(i) => i < self.entries().len() && self.entries()[i as int].shard_id == id,
                Err(p) => p <= self.entries().len() && !has_id(self.entries(), id) && (forall|k: int|
                    0 <= k < p ==> (#[trigger] self.entries()[k]).shard_id < id) && (forall|k: int|
                    p <= k < self.entries().len() ==> (#[trigger] self.entries()[k]).shard_id > id),
            },
    {
        let mut i: usize = 0;
        while i < self.known_shards.len()
            invariant
                sorted_ids(self.known_shards@),
                i <= self.known_shards@.len(),
                forall|k: int| 0 <= k < i ==> (#[trigger] self.known_shards@[k]).shard_id < id,
            decreases self.known_shards.len() - i,
        {
            let sid = self.known_shards[i].shard_id;
            if sid == id {
                return Ok(i);
            }
            if sid > id {
                assert forall|k: int| i <= k < self.known_shards@.len() implies (#[trigger] self.known_shards@[k]).shard_id
                    > id by {
                    if k > i {
                        assert(self.known_shards@[i as int].shard_id < self.known_shards@[k].shard_id);
                    }
                }
                return Err(i);
            }
            i = i + 1;
        }
        Err(i)
    }

    /// The replicas known for a shard.
    pub fn get_shard_replicas(&self, shard_id: u32) -> (r: Option<&Vec<Replica>>)
        requires
            self.wf(),
        ensures
            r is Some <==> has_id(self.entries(), shard_id),
            r is Some ==> r->0@ == replicas_of(self.entries(), shard_id),
    {
        match self.find_entry(shard_id) {
            Ok(i) => {
                proof {
                    lemma_replicas_at(self.entries(), i as int);
                }
                Some(&self.known_shards[i].replicas)
            },
            Err(_) => None,
        }
    }

    /// The best fresh replica of a shard at time `now`.
    pub fn get_best_node_for_shard(&self, shard_id: u32, now: u64) -> (r: Option<&ShardAnnouncement>)
        requires
            self.wf(),
        ensures
            match best_of(self.entries(), shard_id, self.spec_ttl(), now) {
                Some(a) => r is Some && *r->0 == a,
                None => r is None,
            },
    {
        match self.find_entry(shard_id) {
            Ok(i) => {
                proof {
                    lemma_replicas_at(self.entries(), i as int);
                }
                let reps = &self.known_shards[i].replicas;
                assert(reps@ == replicas_of(self.entries(), shard_id));
                match best_replica_index(reps, self.ttl_seconds, now) {
                    Some(b) => {
                        assert(best_of(self.entries(), shard_id, self.spec_ttl(), now) == Some(
                            reps@[b as int].announcement,
                        ));
                        Some(&reps[b].announcement)
                    },
                    None => {
                        assert(best_of(self.entries(), shard_id, self.spec_ttl(), now) is None);
                        None
                    },
                }
            },
            Err(_) => {
                assert(replicas_of(self.entries(), shard_id) =~= Seq::<Replica>::empty());
                assert(best_index(Seq::<Replica>::empty(), self.ttl_seconds, now) is None);
                None
            },
        }
    }

    /// The best fresh replica of a shard at time `now`, with its rank.
    pub fn get_best_replica(&self, shard_id: u32, now: u64) -> (r: Option<&Replica>)
        requires
            self.wf(),
        ensures
            match best_index(replicas_of(self.entries(), shard_id), self.spec_ttl(), now) {
                Some(i) => r is Some && *r->0 == replicas_of(self.entries(), shard_id)[i],
                None => r is None,
            },
            match best_of(self.entries(), shard_id, self.spec_ttl(), now) {
                Some(a) => r is Some && r->0.announcement == a,
                None => r is None,
            },
    {
        match self.find_entry(shard_id) {
            Ok(i) => {
                proof {
                    lemma_replicas_at(self.entries(), i as int);
                }
                let reps = &self.known_shards[i].replicas;
                assert(reps@ == replicas_of(self.entries(), shard_id));
                match best_replica_index(reps, self.ttl_seconds, now) {
                    Some(b) => Some(&reps[b]),
                    None => None,
                }
            },
            Err(_) => {
                assert(replicas_of(self.entries(), shard_id) =~= Seq::<Replica>::empty());
                assert(best_index(Seq::<Replica>::empty(), self.ttl_seconds, now) is None);
                None
            },
        }
    }

    /// Adds (or, for a peer already known for that shard, replaces) a
    /// replica with the given rank.
    pub fn add_shard(&mut self, announcement: ShardAnnouncement, rank: u64)
        requires
            old(self).wf(),
        ensures
            final(self).wf(),
            forall|id: u32| #[trigger]
                has_id(final(self).entries(), id) == (has_id(old(self).entries(), id) || id
                    == announcement.shard_id),
            forall|id: u32| #[trigger]
                replicas_of(final(self).entries(), id) == if id == announcement.shard_id {
                    with_replica(
                        replicas_of(old(self).entries(), id),
                        Replica { announcement, rank },
                    )
                } else {
                    replicas_of(old(self).entries(), id)
                },
            final(self).spec_expected() == old(self).spec_expected(),
            final(self).spec_ttl() == old(self).spec_ttl(),
            final(self).spec_cluster_name() == old(self).spec_cluster_name(),
            added(old(self).entries(), final(self).entries(), announcement, rank),
            final(self).entries().len() == old(self).entries().len() + if has_id(
                old(self).entries(),
                announcement.shard_id,
            ) {
                0int
            } else {
                1int
            },
            replica_total(final(self).entries()) == replica_total(old(self).entries()) + if has_peer(
                replicas_of(old(self).entries(), announcement.shard_id),
                announcement.peer_id@,
            ) {
                0int
            } else {
                1int
            },
    {
        let id = announcement.shard_id;
        let ghost old_e = self.known_shards@;
        let rep = Replica { announcement, rank };
        match self.find_entry(id) {
            Ok(i) => {
                proof {
                    lemma_replicas_at(old_e, i as int);
                }
                let mut entry = self.known_shards.remove(i);
                let ghost old_reps = entry.replicas@;
                let found = find_peer(&entry.replicas, rep.announcement.peer_id.as_str());
                proof {
                    lemma_with_replica(old_reps, rep, found);
                }
                match found {
                    Some(j) => {
                        entry.replicas.set(j, rep);
                    },
                    None => {
                        entry.replicas.push(rep);
                    },
                }
                assert(entry.replicas@ == with_replica(old_reps, rep));
                assert(entry.replicas@.len() == old_reps.len() + if has_peer(old_reps, rep.announcement.peer_id@) {
                    0int
                } else {
                    1int
                });
                self.known_shards.insert(i, entry);
                proof {
                    assert(self.known_shards@ =~= old_e.update(i as int, entry));
                    lemma_update_entry(old_e, i as int, entry);
                    lemma_replica_total_update(old_e, i as int, entry);
                    assert(has_id(old_e, id));
                    assert(added(old_e, self.known_shards@, rep.announcement, rep.rank));
                }
            },
            Err(p) => {
                let entry = ShardEntry { shard_id: id, replicas: vec![rep] };
                proof {
                    assert(!has_id(old_e, id));
                    assert(replicas_of(old_e, id) =~= Seq::<Replica>::empty());
                    assert(with_replica(Seq::<Replica>::empty(), rep) =~= seq![rep]);
                }
                self.known_shards.insert(p, entry);
                proof {
                    lemma_insert_entry(old_e, p as int, entry);
                    lemma_replica_total_insert(old_e, p as int, entry);
                    assert(!has_peer(replicas_of(old_e, id), rep.announcement.peer_id@));
                    assert forall|x: u32| #[trigger] replicas_of(self.known_shards@, x) == if x == id {
                        with_replica(replicas_of(old_e, x), rep)
                    } else {
                        replicas_of(old_e, x)
                    } by {
                        if x == id {
                            assert(replicas_of(old_e, x) =~= Seq::<Replica>::empty());
                            assert(with_replica(Seq::<Replica>::empty(), rep) =~= seq![rep]);
                        }
                    }
                    assert(added(old_e, self.known_shards@, rep.announcement, rep.rank));
                }
            },
        }
    }

    /// Records an announcement read from the DHT at time `now`: a stale
    /// one is ignored (answer `false`); a fresh one is added with the given
    /// rank, and sets the expected shard count when none was known yet
    /// (answer `true`).
    pub fn process_announcement(&mut self, announcement: ShardAnnouncement, rank: u64, now: u64) -> (r:
        bool)
        requires
            old(self).wf(),
        ensures
            final(self).wf(),
            r == announcement.spec_is_fresh(old(self).spec_ttl(), now),
            !r ==> final(self).entries() == old(self).entries() && final(self).spec_expected()
                == old(self).spec_expected(),
            r ==> added(old(self).entries(), final(self).entries(), announcement, rank),
            r ==> forall|id: u32| #[trigger]
                replicas_of(final(self).entries(), id) == if id == announcement.shard_id {
                    with_replica(
                        replicas_of(old(self).entries(), id),
                        Replica { announcement, rank },
                    )
                } else {
                    replicas_of(old(self).entries(), id)
                },
            r ==> forall|id: u32| #[trigger]
                has_id(final(self).entries(), id) == (has_id(old(self).entries(), id) || id
                    == announcement.shard_id),
            r ==> final(self).spec_expected() == if old(self).spec_expected() is None {
                Some(announcement.total_shards)
            } else {
                old(self).spec_expected()
            },
            final(self).spec_ttl() == old(self).spec_ttl(),
            final(self).spec_cluster_name() == old(self).spec_cluster_name(),
    {
        if !announcement.is_fresh(self.ttl_seconds, now) {
            return false;
        }
        let total = announcement.total_shards;
        self.add_shard(announcement, rank);
        if self.expected_shards.is_none() {
            self.expected_shards = Some(total);
        }
        true
    }

    /// Sets the rank of the replica of shard `shard_id` from `peer_id`
    /// (when there is one; answers whether there was).
    pub fn set_rank(&mut self, shard_id: u32, peer_id: &str, rank: u64) -> (r: bool)
        requires
            old(self).wf(),
        ensures
            final(self).wf(),
            final(self).spec_expected() == old(self).spec_expected(),
            final(self).spec_ttl() == old(self).spec_ttl(),
            final(self).spec_cluster_name() == old(self).spec_cluster_name(),
            forall|id: u32| #[trigger] has_id(final(self).entries(), id) == has_id(old(self).entries(), id),
            r == exists|j: int|
                0 <= j < replicas_of(old(self).entries(), shard_id).len() && (#[trigger] replicas_of(
                    old(self).entries(),
                    shard_id,
                )[j]).announcement.peer_id@ == peer_id@,
            forall|id: u32| #[trigger]
                replicas_of(final(self).entries(), id) == if id == shard_id && r {
                    {
                        let old_reps = replicas_of(old(self).entries(), id);
                        let j = choose|j: int|
                            0 <= j < old_reps.len() && (#[trigger] old_reps[j]).announcement.peer_id@
                                == peer_id@;
                        old_reps.update(j, Replica { rank, ..old_reps[j] })
                    }
                } else {
                    replicas_of(old(self).entries(), id)
                },
    {
        let ghost old_e = self.known_shards@;
        match self.find_entry(shard_id) {
            Ok(i) => {
                proof {
                    lemma_replicas_at(old_e, i as int);
                }
                let mut entry = self.known_shards.remove(i);
                let ghost old_reps = entry.replicas@;
                match find_peer(&entry.replicas, peer_id) {
                    Some(j) => {
                        let mut rep = entry.replicas.remove(j);
                        rep.rank = rank;
                        entry.replicas.insert(j, rep);
                        proof {
                            let c = choose|c: int|
                                0 <= c < old_reps.len() && (#[trigger] old_reps[c]).announcement.peer_id@
                                    == peer_id@;
                            if c != j as int {
                                assert(old_reps[c].announcement.peer_id@ != old_reps[j as int].announcement.peer_id@);
                            }
                            assert(entry.replicas@ =~= old_reps.update(j as int, Replica { rank, ..old_reps[j as int] }));
                            let u = entry.replicas@;
                            assert forall|a: int, b: int| 0 <= a < u.len() && 0 <= b < u.len() && a != b implies (#[trigger] u[a]).announcement.peer_id@
                                != (#[trigger] u[b]).announcement.peer_id@ by {
                                assert(u[a].announcement == old_reps[a].announcement);
                                assert(u[b].announcement == old_reps[b].announcement);
                            }
                            assert forall|k: int| 0 <= k < u.len() implies (#[trigger] u[k]).announcement.shard_id == shard_id by {
                                assert(u[k].announcement == old_reps[k].announcement);
                            }
                        }
                        self.known_shards.insert(i, entry);
                        proof {
                            assert(self.known_shards@ =~= old_e.update(i as int, entry));
                            lemma_update_entry(old_e, i as int, entry);
                        }
                        true
                    },
                    None => {
                        self.known_shards.insert(i, entry);
                        proof {
                            assert(self.known_shards@ =~= old_e);
                        }
                        false
                    },
                }
            },
            Err(_) => {
                proof {
                    assert(replicas_of(old_e, shard_id) =~= Seq::<Replica>::empty());
                }
                false
            },
        }
    }

    /// Drops the replicas that are stale at time `now`, and the shards left
    /// without replicas.
    pub fn cleanup_stale(&mut self, now: u64)
        requires
            old(self).wf(),
        ensures
            final(self).wf(),
            forall|id: u32| #[trigger]
                replicas_of(final(self).entries(), id) == replicas_of(old(self).entries(), id).filter(
                    |r: Replica| replica_fresh(r, old(self).spec_ttl(), now),
                ),
            forall|id: u32| #[trigger]
                has_id(final(self).entries(), id) == (replicas_of(old(self).entries(), id).filter(
                    |r: Replica| replica_fresh(r, old(self).spec_ttl(), now),
                ).len() > 0),
            final(self).spec_expected() == old(self).spec_expected(),
            final(self).spec_ttl() == old(self).spec_ttl(),
            final(self).spec_cluster_name() == old(self).spec_cluster_name(),
    {
        let ttl = self.ttl_seconds;
        let ghost pred = |r: Replica| replica_fresh(r, ttl, now);
        let ghost old_e = self.known_shards@;
        let mut old_entries: Vec<ShardEntry> = Vec::new();
        std::mem::swap(&mut old_entries, &mut self.known_shards);
        let mut out: Vec<ShardEntry> = Vec::new();
        let mut i: usize = 0;
        while i < old_entries.len()
            invariant
                old_entries@ == old_e,
                entries_wf(old_e),
                i <= old_e.len(),
                entries_wf(out@),
                forall|k: int| 0 <= k < out@.len() ==> exists|m: int| 0 <= m < i && (#[trigger] out@[k]).shard_id == old_e[m].shard_id,
                forall|id: u32| #[trigger] replicas_of(out@, id) == if exists|m: int| 0 <= m < i && (#[trigger] old_e[m]).shard_id == id {
                    replicas_of(old_e, id).filter(pred)
                } else {
                    Seq::empty()
                },
                forall|id: u32| #[trigger] has_id(out@, id) == ((exists|m: int| 0 <= m < i && (#[trigger] old_e[m]).shard_id == id) && replicas_of(old_e, id).filter(pred).len() > 0),
                pred == (|r: Replica| replica_fresh(r, ttl, now)),
            decreases old_e.len() - i,
        {
            let entry = &old_entries[i];
            let kept = fresh_replicas(&entry.replicas, ttl, now);
            proof {
                lemma_replicas_at(old_e, i as int);
                assert(kept@ == old_e[i as int].replicas@.filter(pred));
            }
            let ghost out_before = out@;
            if kept.len() > 0 {
                let new_entry = ShardEntry { shard_id: entry.shard_id, replicas: kept };
                proof {
                    lemma_filter_keeps(old_e[i as int].replicas@, pred);
                    assert forall|k: int| 0 <= k < out@.len() implies (#[trigger] out@[k]).shard_id < new_entry.shard_id by {
                        let m = choose|m: int| 0 <= m < i && out@[k].shard_id == (#[trigger] old_e[m]).shard_id;
                        assert(old_e[m].shard_id < old_e[i as int].shard_id);
                    }
                    lemma_insert_entry(out@, out@.len() as int, new_entry);
                    assert(out@.insert(out@.len() as int, new_entry) =~= out@.push(new_entry));
                }
                out.push(new_entry);
            }
            proof {
                let id_i = old_e[i as int].shard_id;
                assert forall|id: u32| #[trigger] replicas_of(out@, id) == if exists|m: int| 0 <= m < i + 1 && (#[trigger] old_e[m]).shard_id == id {
                    replicas_of(old_e, id).filter(pred)
                } else {
                    Seq::empty()
                } by {
                    if id != id_i {
                        if exists|m: int| 0 <= m < i + 1 && (#[trigger] old_e[m]).shard_id == id {
                            let m = choose|m: int| 0 <= m < i + 1 && (#[trigger] old_e[m]).shard_id == id;
                            assert(m < i);
                        }
                    } else {
                        if exists|m: int| 0 <= m < i && (#[trigger] old_e[m]).shard_id == id {
                            let m = choose|m: int| 0 <= m < i && (#[trigger] old_e[m]).shard_id == id;
                            lemma_id_unique(old_e, m, i as int);
                        }
                        if kept.len() == 0 {
                            assert(replicas_of(old_e, id).filter(pred) =~= Seq::<Replica>::empty());
                        }
                    }
                }
                assert forall|id: u32| #[trigger] has_id(out@, id) == ((exists|m: int| 0 <= m < i + 1 && (#[trigger] old_e[m]).shard_id == id) && replicas_of(old_e, id).filter(pred).len() > 0) by {
                    if id != id_i {
                        if exists|m: int| 0 <= m < i + 1 && (#[trigger] old_e[m]).shard_id == id {
                            let m = choose|m: int| 0 <= m < i + 1 && (#[trigger] old_e[m]).shard_id == id;
                            assert(m < i);
                        }
                    } else {
                        if exists|m: int| 0 <= m < i && (#[trigger] old_e[m]).shard_id == id {
                            let m = choose|m: int| 0 <= m < i && (#[trigger] old_e[m]).shard_id == id;
                            lemma_id_unique(old_e, m, i as int);
                        }
                        assert(old_e[i as int].shard_id == id);
                    }
                }
                assert forall|k: int| 0 <= k < out@.len() implies exists|m: int| 0 <= m < i + 1 && (#[trigger] out@[k]).shard_id == old_e[m].shard_id by {
                    if k < out_before.len() {
                        assert(out@[k] == out_before[k]);
                        let m = choose|m: int| 0 <= m < i && (#[trigger] out_before[k]).shard_id == old_e[m].shard_id;
                    } else {
                        assert(out@[k].shard_id == old_e[i as int].shard_id);
                    }
                }
            }
            i = i + 1;
        }
        proof {
            assert forall|id: u32| #[trigger] replicas_of(out@, id) == replicas_of(old_e, id).filter(pred) by {
                if !(exists|m: int| 0 <= m < old_e.len() && (#[trigger] old_e[m]).shard_id == id) {
                    assert(!has_id(old_e, id));
                    assert(replicas_of(old_e, id) =~= Seq::<Replica>::empty());
                    assert(Seq::<Replica>::empty().filter(pred) =~= Seq::<Replica>::empty()) by {
                        reveal(Seq::filter);
                    }
                }
            }
            assert forall|id: u32| #[trigger] has_id(out@, id) == (replicas_of(old_e, id).filter(pred).len() > 0) by {
                if !(exists|m: int| 0 <= m < old_e.len() && (#[trigger] old_e[m]).shard_id == id) {
                    assert(replicas_of(old_e, id) =~= Seq::<Replica>::empty());
                    assert(Seq::<Replica>::empty().filter(pred) =~= Seq::<Replica>::empty()) by {
                        reveal(Seq::filter);
                    }
                }
            }
        }
        self.known_shards = out;
    }

    /// The pipeline at time `now`: the best fresh replica of each known
    /// shard, by increasing shard id.
    pub fn get_pipeline(&self, now: u64) -> (r: Vec<ShardAnnouncement>)
        requires
            self.wf(),
        ensures
            r@ == pipeline_spec(self.entries(), self.spec_ttl(), now),
    {
        let mut out: Vec<ShardAnnouncement> = Vec::new();
        let mut i: usize = 0;
        while i < self.known_shards.len()
            invariant
                i <= self.known_shards@.len(),
                out@ == pipeline_spec(self.known_shards@.subrange(0, i as int), self.ttl_seconds, now),
            decreases self.known_shards.len() - i,
        {
            let ghost pre = self.known_shards@.subrange(0, i as int);
            assert(self.known_shards@.subrange(0, i + 1).drop_last() =~= pre);
            let reps = &self.known_shards[i].replicas;
            match best_replica_index(reps, self.ttl_seconds, now) {
                Some(b) => {
                    out.push(reps[b].announcement.duplicate());
                },
                None => {},
            }
            i = i + 1;
        }
        assert(self.known_shards@.subrange(0, self.known_shards@.len() as int) =~= self.known_shards@);
        out
    }

    /// The entry node at time `now`: the best replica of shard 0, when it
    /// holds the embeddings.
    pub fn entry_node(&self, now: u64) -> (r: Option<&ShardAnnouncement>)
        requires
            self.wf(),
        ensures
            match entry_spec(self.entries(), self.spec_ttl(), now) {
                Some(a) => r is Some && *r->0 == a,
                None => r is None,
            },
    {
        match self.get_best_node_for_shard(0, now) {
            Some(a) => if a.has_embeddings {
                Some(a)
            } else {
                None
            },
            None => None,
        }
    }

    /// The exit node at time `now`. With an expected shard count it is the
    /// best replica of the last shard, when that holds the output head (none
    /// with a count of zero); without one, a fresh replica holding the
    /// output head on the highest such shard.
    pub fn exit_node(&self, now: u64) -> (r: Option<&ShardAnnouncement>)
        requires
            self.wf(),
        ensures
            r is Some == exit_exists_spec(self.entries(), self.spec_expected(), self.spec_ttl(), now),
            self.spec_expected() == Some(0u32) ==> r is None,
            self.spec_expected() is Some && self.spec_expected()->0 > 0 ==> match best_of(
                self.entries(),
                (self.spec_expected()->0 - 1) as u32,
                self.spec_ttl(),
                now,
            ) {
                Some(a) => a.has_output ==> r is Some && *r->0 == a,
                None => true,
            },
            self.spec_expected() is None && r is Some ==> {
                &&& r->0.has_output
                &&& r->0.spec_is_fresh(self.spec_ttl(), now)
                &&& exists|i: int, j: int|
                    0 <= i < self.entries().len() && 0 <= j < self.entries()[i].replicas@.len()
                        && (#[trigger] self.entries()[i].replicas@[j]).announcement == *r->0
                &&& forall|i: int, j: int|
                    0 <= i < self.entries().len() && 0 <= j < self.entries()[i].replicas@.len()
                        && (#[trigger] self.entries()[i].replicas@[j]).announcement.has_output
                        && replica_fresh(self.entries()[i].replicas@[j], self.spec_ttl(), now)
                        ==> self.entries()[i].replicas@[j].announcement.shard_id <= r->0.shard_id
            },
    {
        match self.expected_shards {
            Some(0) => None,
            Some(expected) => match self.get_best_node_for_shard(expected - 1, now) {
                Some(a) => if a.has_output {
                    Some(a)
                } else {
                    None
                },
                None => None,
            },
            None => {
                let mut best: Option<&ShardAnnouncement> = None;
                let mut i: usize = 0;
                while i < self.known_shards.len()
                    invariant
                        entries_wf(self.known_shards@),
                        self.expected_shards is None,
                        i <= self.known_shards@.len(),
                        best is Some <==> exists|m: int, j: int|
                            0 <= m < i && 0 <= j < self.known_shards@[m].replicas@.len()
                                && (#[trigger] self.known_shards@[m].replicas@[j]).announcement.has_output
                                && replica_fresh(self.known_shards@[m].replicas@[j], self.ttl_seconds, now),
                        best is Some ==> {
                            &&& best->0.has_output
                            &&& best->0.spec_is_fresh(self.ttl_seconds, now)
                            &&& exists|m: int, j: int|
                                0 <= m < i && 0 <= j < self.known_shards@[m].replicas@.len()
                                    && (#[trigger] self.known_shards@[m].replicas@[j]).announcement == *best->0
                            &&& forall|m: int, j: int|
                                0 <= m < i && 0 <= j < self.known_shards@[m].replicas@.len()
                                    && (#[trigger] self.known_shards@[m].replicas@[j]).announcement.has_output
                                    && replica_fresh(self.known_shards@[m].replicas@[j], self.ttl_seconds, now)
                                    ==> self.known_shards@[m].replicas@[j].announcement.shard_id
                                    <= best->0.shard_id
                        },
                    decreases self.known_shards.len() - i,
                {
                    let reps = &self.known_shards[i].replicas;
                    let mut j: usize = 0;
                    while j < reps.len()
                        invariant
                            entries_wf(self.known_shards@),
                            i < self.known_shards@.len(),
                            *reps == self.known_shards@[i as int].replicas,
                            j <= reps@.len(),
                            best is Some <==> (exists|m: int, t: int|
                                0 <= m < i && 0 <= t < self.known_shards@[m].replicas@.len()
                                    && (#[trigger] self.known_shards@[m].replicas@[t]).announcement.has_output
                                    && replica_fresh(self.known_shards@[m].replicas@[t], self.ttl_seconds, now))
                                || (exists|t: int| 0 <= t < j && (#[trigger] reps@[t]).announcement.has_output
                                    && replica_fresh(reps@[t], self.ttl_seconds, now)),
                            best is Some ==> {
                                &&& best->0.has_output
                                &&& best->0.spec_is_fresh(self.ttl_seconds, now)
                                &&& (exists|m: int, t: int|
                                    0 <= m < i && 0 <= t < self.known_shards@[m].replicas@.len()
                                        && (#[trigger] self.known_shards@[m].replicas@[t]).announcement == *best->0)
                                    || (exists|t: int| 0 <= t < j && (#[trigger] reps@[t]).announcement == *best->0)
                                &&& forall|m: int, t: int|
                                    0 <= m < i && 0 <= t < self.known_shards@[m].replicas@.len()
                                        && (#[trigger] self.known_shards@[m].replicas@[t]).announcement.has_output
                                        && replica_fresh(self.known_shards@[m].replicas@[t], self.ttl_seconds, now)
                                        ==> self.known_shards@[m].replicas@[t].announcement.shard_id
                                        <= best->0.shard_id
                                &&& forall|t: int|
                                    0 <= t < j && (#[trigger] reps@[t]).announcement.has_output
                                        && replica_fresh(reps@[t], self.ttl_seconds, now)
                                        ==> reps@[t].announcement.shard_id <= best->0.shard_id
                            },
                        decreases reps.len() - j,
                    {
                        let cand = &reps[j].announcement;
                        if cand.has_output && cand.is_fresh(self.ttl_seconds, now) {
                            match best {
                                None => {
                                    best = Some(cand);
                                },
                                Some(b) => {
                                    if b.shard_id <= cand.shard_id {
                                        best = Some(cand);
                                    }
                                },
                            }
                        }
                        j = j + 1;
                    }
                    proof {
                        let ii = i as int;
                        assert forall|m: int, t: int|
                            0 <= m < i + 1 && 0 <= t < self.known_shards@[m].replicas@.len()
                                && (#[trigger] self.known_shards@[m].replicas@[t]).announcement.has_output
                                && replica_fresh(self.known_shards@[m].replicas@[t], self.ttl_seconds, now)
                            implies best is Some && self.known_shards@[m].replicas@[t].announcement.shard_id
                                <= best->0.shard_id by {
                            if m == ii {
                                assert(reps@[t] == self.known_shards@[m].replicas@[t]);
                            }
                        }
                        if best is Some {
                            if exists|t: int| 0 <= t < reps@.len() && (#[trigger] reps@[t]).announcement == *best->0 {
                                let t = choose|t: int| 0 <= t < reps@.len() && (#[trigger] reps@[t]).announcement == *best->0;
                                assert(self.known_shards@[ii].replicas@[t].announcement == *best->0);
                            }
                        }
                        if exists|m: int, t: int|
                            0 <= m < i + 1 && 0 <= t < self.known_shards@[m].replicas@.len()
                                && (#[trigger] self.known_shards@[m].replicas@[t]).announcement.has_output
                                && replica_fresh(self.known_shards@[m].replicas@[t], self.ttl_seconds, now) {
                            let (m, t) = choose|m: int, t: int|
                                0 <= m < i + 1 && 0 <= t < self.known_shards@[m].replicas@.len()
                                    && (#[trigger] self.known_shards@[m].replicas@[t]).announcement.has_output
                                    && replica_fresh(self.known_shards@[m].replicas@[t], self.ttl_seconds, now);
                            if m == ii {
                                assert(reps@[t] == self.known_shards@[m].replicas@[t]);
                            }
                        }
                    }
                    i = i + 1;
                }
                best
            },
        }
    }

    /// The best replica of the shard after `current_shard_id`.
    pub fn next_shard(&self, current_shard_id: u32, now: u64) -> (r: Option<&ShardAnnouncement>)
        requires
            self.wf(),
            current_shard_id < u32::MAX,
        ensures
            match best_of(self.entries(), (current_shard_id + 1) as u32, self.spec_ttl(), now) {
                Some(a) => r is Some && *r->0 == a,
                None => r is None,
            },
    {
        self.get_best_node_for_shard(current_shard_id + 1, now)
    }

    /// The best replica of the shard before `current_shard_id` (none before
    /// shard 0).
    pub fn previous_shard(&self, current_shard_id: u32, now: u64) -> (r: Option<&ShardAnnouncement>)
        requires
            self.wf(),
        ensures
            current_shard_id == 0 ==> r is None,
            current_shard_id > 0 ==> match best_of(
                self.entries(),
                (current_shard_id - 1) as u32,
                self.spec_ttl(),
                now,
            ) {
                Some(a) => r is Some && *r->0 == a,
                None => r is None,
            },
    {
        if current_shard_id > 0 {
            self.get_best_node_for_shard(current_shard_id - 1, now)
        } else {
            None
        }
    }

    /// Whether the pipeline is complete at time `now`.
    pub fn is_pipeline_complete(&self, now: u64) -> (r: bool)
        requires
            self.wf(),
        ensures
            r == complete_spec(self.entries(), self.spec_expected(), self.spec_ttl(), now),
    {
        let expected = match self.expected_shards {
            None => {
                return false;
            },
            Some(x) => x,
        };
        if self.known_shards.len() < expected as usize {
            return false;
        }
        let mut i: u32 = 0;
        while i < expected
            invariant
                self.wf(),
                self.expected_shards == Some(expected),
                i <= expected,
                forall|id: u32| id < i ==> (#[trigger] best_of(self.entries(), id, self.spec_ttl(), now)) is Some,
            decreases expected - i,
        {
            if self.get_best_node_for_shard(i, now).is_none() {
                return false;
            }
            i = i + 1;
        }
        self.entry_node(now).is_some() && self.exit_node(now).is_some()
    }

    /// The shards below the expected count that have no fresh replica at
    /// time `now`, in increasing order.
    pub fn get_missing_shards(&self, now: u64) -> (r: Vec<u32>)
        requires
            self.wf(),
        ensures
            r@ == missing_spec(self.entries(), self.spec_expected(), self.spec_ttl(), now),
    {
        let expected = match self.expected_shards {
            None => {
                return Vec::new();
            },
            Some(x) => x,
        };
        let ghost ttl = self.ttl_seconds;
        let ghost e = self.known_shards@;
        let ghost pred = |id: u32| best_of(e, id, ttl, now) is None;
        let ghost ids = Seq::new(expected as nat, |i: int| i as u32);
        let mut out: Vec<u32> = Vec::new();
        let mut i: u32 = 0;
        while i < expected
            invariant
                self.wf(),
                e == self.entries(),
                ttl == self.spec_ttl(),
                i <= expected,
                ids == Seq::new(expected as nat, |i: int| i as u32),
                pred == (|id: u32| best_of(e, id, ttl, now) is None),
                out@ == ids.subrange(0, i as int).filter(pred),
            decreases expected - i,
        {
            proof {
                lemma_filter_step(ids, i as int, pred);
            }
            if self.get_best_node_for_shard(i, now).is_none() {
                out.push(i);
            }
            i = i + 1;
        }
        assert(ids.subrange(0, expected as int) =~= ids);
        out
    }

    /// Total number of replicas over all shards.
    pub fn replica_count(&self) -> (r: usize)
        requires
            replica_total(self.entries()) <= usize::MAX,
        ensures
            r == replica_total(self.entries()),
    {
        let total = self.replica_total_wide();
        total as usize
    }

    fn replica_total_wide(&self) -> (r: u128)
        ensures
            r == replica_total(self.entries()),
    {
        let mut total: u128 = 0;
        let mut i: usize = 0;
        while i < self.known_shards.len()
            invariant
                i <= self.known_shards@.len(),
                total == replica_total(self.known_shards@.subrange(0, i as int)),
                total <= i * (usize::MAX as int),
            decreases self.known_shards.len() - i,
        {
            assert(self.known_shards@.subrange(0, i + 1).drop_last() =~= self.known_shards@.subrange(
                0,
                i as int,
            ));
            proof {
                let m = usize::MAX as int;
                assert((i + 1) * m == i * m + m) by (nonlinear_arith);
                assert((i + 1) * m <= m * m) by (nonlinear_arith)
                    requires
                        i + 1 <= m,
                        m >= 0,
                ;
                assert(m <= 0xffff_ffff_ffff_ffff);
                assert(m * m <= 0xffff_ffff_ffff_ffff * 0xffff_ffff_ffff_ffffint) by (nonlinear_arith)
                    requires
                        0 <= m <= 0xffff_ffff_ffff_ffff,
                ;
            }
            total = total + self.known_shards[i].replicas.len() as u128;
            i = i + 1;
        }
        assert(self.known_shards@.subrange(0, self.known_shards@.len() as int) =~= self.known_shards@);
        total
    }

    /// Pipeline status summary at time `now`.
    pub fn status(&self, now: u64) -> (r: PipelineStatus)
        requires
            self.wf(),
        ensures
            r.cluster_name@ == self.spec_cluster_name(),
            r.discovered_shards == self.entries().len() as u32,
            r.expected_shards == match self.spec_expected() {
                Some(x) => x,
                None => self.entries().len() as u32,
            },
            r.total_replicas == replica_total(self.entries()) as u32,
            r.is_complete == complete_spec(self.entries(), self.spec_expected(), self.spec_ttl(), now),
            r.has_entry == entry_spec(self.entries(), self.spec_ttl(), now) is Some,
            r.has_exit == exit_exists_spec(self.entries(), self.spec_expected(), self.spec_ttl(), now),
            r.missing_shards@ == missing_spec(self.entries(), self.spec_expected(), self.spec_ttl(), now),
    {
        let discovered = self.known_shards.len() as u32;
        let expected = match self.expected_shards {
            Some(x) => x,
            None => discovered,
        };
        let total = self.replica_total_wide();
        PipelineStatus {
            cluster_name: self.cluster_name.clone(),
            discovered_shards: discovered,
            expected_shards: expected,
            total_replicas: total as u32,
            is_complete: self.is_pipeline_complete(now),
            has_entry: self.entry_node(now).is_some(),
            has_exit: self.exit_node(now).is_some(),
            missing_shards: self.get_missing_shards(now),
        }
    }

    /// Number of known shards.
    pub fn shard_count(&self) -> (r: usize)
        ensures
            r == self.entries().len(),
    {
        self.known_shards.len()
    }
}

/// First replica from the given peer.
fn find_peer(replicas: &Vec<Replica>, peer: &str) -> (r: Option<usize>)
    ensures
        match r {
            Some(j) => j < replicas@.len() && replicas@[j as int].announcement.peer_id@ == peer@,
            None => forall|j: int| 0 <= j < replicas@.len() ==> (#[trigger] replicas@[j]).announcement.peer_id@ != peer@,
        },
{
    let mut j: usize = 0;
    while j < replicas.len()
        invariant
            j <= replicas@.len(),
            forall|k: int| 0 <= k < j ==> (#[trigger] replicas@[k]).announcement.peer_id@ != peer@,
        decreases replicas.len() - j,
    {
        if crate::text::str_eq(replicas[j].announcement.peer_id.as_str(), peer) {
            return Some(j);
        }
        j = j + 1;
    }
    None
}

proof fn lemma_with_replica(old: Seq<Replica>, r: Replica, found: Option<usize>)
    requires
        distinct_peers(old),
        match found {
            Some(j) => j < old.len() && old[j as int].announcement.peer_id@ == r.announcement.peer_id@,
            None => forall|j: int| 0 <= j < old.len() ==> (#[trigger] old[j]).announcement.peer_id@ != r.announcement.peer_id@,
        },
    ensures
        match found {
            Some(j) => with_replica(old, r) == old.update(j as int, r),
            None => with_replica(old, r) == old.push(r),
        },
        distinct_peers(with_replica(old, r)),
        with_replica(old, r).len() > 0,
        forall|k: int| 0 <= k < with_replica(old, r).len() ==> (#[trigger] with_replica(old, r)[k]) == r || old.contains(with_replica(old, r)[k]),
{
    match found {
        Some(j) => {
            let c = choose|c: int| 0 <= c < old.len() && (#[trigger] old[c]).announcement.peer_id@ == r.announcement.peer_id@;
            if c != j as int {
                assert(old[c].announcement.peer_id@ != old[j as int].announcement.peer_id@);
            }
            let u = old.update(j as int, r);
            assert forall|a: int, b: int| 0 <= a < u.len() && 0 <= b < u.len() && a != b implies (#[trigger] u[a]).announcement.peer_id@
                != (#[trigger] u[b]).announcement.peer_id@ by {
                if a != j && b != j {
                    assert(u[a] == old[a] && u[b] == old[b]);
                } else if a == j {
                    assert(u[b] == old[b]);
                } else {
                    assert(u[a] == old[a]);
                }
            }
            assert forall|k: int| 0 <= k < u.len() implies (#[trigger] u[k]) == r || old.contains(u[k]) by {
                if k != j {
                    assert(u[k] == old[k]);
                }
            }
        },
        None => {
            let u = old.push(r);
            assert forall|a: int, b: int| 0 <= a < u.len() && 0 <= b < u.len() && a != b implies (#[trigger] u[a]).announcement.peer_id@
                != (#[trigger] u[b]).announcement.peer_id@ by {
                if a < old.len() {
                    assert(u[a] == old[a]);
                }
                if b < old.len() {
                    assert(u[b] == old[b]);
                }
            }
            assert forall|k: int| 0 <= k < u.len() implies (#[trigger] u[k]) == r || old.contains(u[k]) by {
                if k < old.len() {
                    assert(u[k] == old[k]);
                }
            }
        },
    }
}

proof fn lemma_update_entry(e: Seq<ShardEntry>, i: int, x: ShardEntry)
    requires
        entries_wf(e),
        0 <= i < e.len(),
        x.shard_id == e[i].shard_id,
        x.replicas@.len() > 0,
        distinct_peers(x.replicas@),
        forall|j: int| 0 <= j < x.replicas@.len() ==> (#[trigger] x.replicas@[j]).announcement.shard_id == x.shard_id,
    ensures
        entries_wf(e.update(i, x)),
        forall|id: u32| #[trigger] has_id(e.update(i, x), id) == has_id(e, id),
        forall|id: u32| #[trigger] replicas_of(e.update(i, x), id) == if id == x.shard_id {
            x.replicas@
        } else {
            replicas_of(e, id)
        },
{
    let u = e.update(i, x);
    assert(sorted_ids(u)) by {
        assert forall|a: int, b: int| 0 <= a < b < u.len() implies (#[trigger] u[a]).shard_id < (#[trigger] u[b]).shard_id by {
            assert(e[a].shard_id < e[b].shard_id);
        }
    }
    assert forall|id: u32| #[trigger] has_id(u, id) == has_id(e, id) by {
        if has_id(e, id) {
            let k = choose|k: int| 0 <= k < e.len() && (#[trigger] e[k]).shard_id == id;
            assert(u[k].shard_id == id);
        }
        if has_id(u, id) {
            let k = choose|k: int| 0 <= k < u.len() && (#[trigger] u[k]).shard_id == id;
            assert(e[k].shard_id == id);
        }
    }
    assert forall|id: u32| #[trigger] replicas_of(u, id) == if id == x.shard_id {
        x.replicas@
    } else {
        replicas_of(e, id)
    } by {
        if id == x.shard_id {
            lemma_replicas_at(u, i);
        } else if has_id(e, id) {
            let k = choose|k: int| 0 <= k < e.len() && (#[trigger] e[k]).shard_id == id;
            lemma_replicas_at(e, k);
            lemma_replicas_at(u, k);
        }
    }
}

proof fn lemma_insert_entry(e: Seq<ShardEntry>, p: int, x: ShardEntry)
    requires
        entries_wf(e),
        0 <= p <= e.len(),
        forall|k: int| 0 <= k < p ==> (#[trigger] e[k]).shard_id < x.shard_id,
        forall|k: int| p <= k < e.len() ==> (#[trigger] e[k]).shard_id > x.shard_id,
        x.replicas@.len() > 0,
        distinct_peers(x.replicas@),
        forall|j: int| 0 <= j < x.replicas@.len() ==> (#[trigger] x.replicas@[j]).announcement.shard_id == x.shard_id,
    ensures
        entries_wf(e.insert(p, x)),
        forall|id: u32| #[trigger] has_id(e.insert(p, x), id) == (has_id(e, id) || id == x.shard_id),
        forall|id: u32| #[trigger] replicas_of(e.insert(p, x), id) == if id == x.shard_id {
            x.replicas@
        } else {
            replicas_of(e, id)
        },
{
    let u = e.insert(p, x);
    assert forall|k: int| 0 <= k < u.len() implies (#[trigger] u[k]) == if k < p {
        e[k]
    } else if k == p {
        x
    } else {
        e[k - 1]
    } by {}
    assert(sorted_ids(u)) by {
        assert forall|a: int, b: int| 0 <= a < b < u.len() implies (#[trigger] u[a]).shard_id < (#[trigger] u[b]).shard_id by {
            if a < p && b < p {
                assert(e[a].shard_id < e[b].shard_id);
            } else if a < p && b > p {
                assert(e[a].shard_id < x.shard_id);
                assert(e[b - 1].shard_id > x.shard_id);
            } else if a > p {
                assert(e[a - 1].shard_id < e[b - 1].shard_id);
            }
        }
    }
    assert forall|id: u32| #[trigger] has_id(u, id) == (has_id(e, id) || id == x.shard_id) by {
        if has_id(e, id) {
            let k = choose|k: int| 0 <= k < e.len() && (#[trigger] e[k]).shard_id == id;
            if k < p {
                assert(u[k].shard_id == id);
            } else {
                assert(u[k + 1].shard_id == id);
            }
        }
        if id == x.shard_id {
            assert(u[p].shard_id == id);
        }
        if has_id(u, id) && id != x.shard_id {
            let k = choose|k: int| 0 <= k < u.len() && (#[trigger] u[k]).shard_id == id;
            if k < p {
                assert(e[k].shard_id == id);
            } else if k > p {
                assert(e[k - 1].shard_id == id);
            }
        }
    }
    assert forall|id: u32| #[trigger] replicas_of(u, id) == if id == x.shard_id {
        x.replicas@
    } else {
        replicas_of(e, id)
    } by {
        if id == x.shard_id {
            lemma_replicas_at(u, p);
        } else if has_id(e, id) {
            let k = choose|k: int| 0 <= k < e.len() && (#[trigger] e[k]).shard_id == id;
            lemma_replicas_at(e, k);
            if k < p {
                lemma_replicas_at(u, k);
            } else {
                lemma_replicas_at(u, k + 1);
            }
        }
    }
}

/// Law: adding the same announcement again changes nothing: its replica is
/// already there, in place.
pub proof fn lemma_add_again(old: Seq<Replica>, r: Replica)
    requires
        distinct_peers(old),
    ensures
        with_replica(with_replica(old, r), r) == with_replica(old, r),
{
    let w = with_replica(old, r);
    let peer = r.announcement.peer_id@;
    let at: int = if exists|j: int| 0 <= j < old.len() && (#[trigger] old[j]).announcement.peer_id@ == peer {
        choose|j: int| 0 <= j < old.len() && (#[trigger] old[j]).announcement.peer_id@ == peer
    } else {
        old.len() as int
    };
    assert(w[at] == r);
    assert forall|k: int| 0 <= k < w.len() && k != at implies (#[trigger] w[k]).announcement.peer_id@ != peer by {
        if at < old.len() {
            assert(w[k] == old[k]);
            assert(old[k].announcement.peer_id@ != old[at].announcement.peer_id@);
        } else {
            assert(w[k] == old[k]);
        }
    }
    let c = choose|c: int| 0 <= c < w.len() && (#[trigger] w[c]).announcement.peer_id@ == peer;
    assert(c == at);
    assert(w.update(c, r) =~= w);
}

/// The replicas that are fresh at time `now`, in order.
fn fresh_replicas(replicas: &Vec<Replica>, ttl: u64, now: u64) -> (r: Vec<Replica>)
    ensures
        r@ == replicas@.filter(|x: Replica| replica_fresh(x, ttl, now)),
{
    let ghost pred = |x: Replica| replica_fresh(x, ttl, now);
    let mut out: Vec<Replica> = Vec::new();
    let mut k: usize = 0;
    while k < replicas.len()
        invariant
            k <= replicas@.len(),
            out@ == replicas@.subrange(0, k as int).filter(pred),
            pred == (|x: Replica| replica_fresh(x, ttl, now)),
        decreases replicas.len() - k,
    {
        proof {
            lemma_filter_step(replicas@, k as int, pred);
        }
        if replicas[k].announcement.is_fresh(ttl, now) {
            out.push(replicas[k].clone_replica());
        }
        k = k + 1;
    }
    assert(replicas@.subrange(0, replicas@.len() as int) =~= replicas@);
    out
}

impl Replica {
    /// A copy of the replica.
    pub fn clone_replica(&self) -> (r: Replica)
        ensures
            r == *self,
    {
        Replica { announcement: self.announcement.duplicate(), rank: self.rank }
    }
}

/// Filtering a prefix one item longer adds that item when it passes.
pub proof fn lemma_filter_step<A>(s: Seq<A>, k: int, pred: spec_fn(A) -> bool)
    requires
        0 <= k < s.len(),
    ensures
        s.subrange(0, k + 1).filter(pred) == if pred(s[k]) {
            s.subrange(0, k).filter(pred).push(s[k])
        } else {
            s.subrange(0, k).filter(pred)
        },
{
    reveal(Seq::filter);
    assert(s.subrange(0, k + 1).drop_last() =~= s.subrange(0, k));
}

/// Filtering keeps the one-peer-per-shard and shard-id facts of a
/// replica list.
proof fn lemma_filter_keeps(s: Seq<Replica>, pred: spec_fn(Replica) -> bool)
    ensures
        forall|j: int| 0 <= j < s.filter(pred).len() ==> s.contains(#[trigger] s.filter(pred)[j]),
        distinct_peers(s) ==> distinct_peers(s.filter(pred)),
    decreases s.len(),
{
    reveal(Seq::filter);
    if s.len() > 0 {
        let d = s.drop_last();
        lemma_filter_keeps(d, pred);
        let fd = d.filter(pred);
        let f = s.filter(pred);
        assert forall|j: int| 0 <= j < f.len() implies s.contains(#[trigger] f[j]) by {
            if pred(s.last()) && j == f.len() - 1 {
                assert(s[s.len() - 1] == f[j]);
            } else {
                assert(f[j] == fd[j]);
                assert(d.contains(fd[j]));
                let t = choose|t: int| 0 <= t < d.len() && d[t] == fd[j];
                assert(s[t] == d[t]);
            }
        }
        if distinct_peers(s) {
            assert(distinct_peers(d)) by {
                assert forall|a: int, b: int| 0 <= a < d.len() && 0 <= b < d.len() && a != b implies (#[trigger] d[a]).announcement.peer_id@
                    != (#[trigger] d[b]).announcement.peer_id@ by {
                    assert(d[a] == s[a] && d[b] == s[b]);
                }
            }
            if pred(s.last()) {
                assert forall|a: int, b: int| 0 <= a < f.len() && 0 <= b < f.len() && a != b implies (#[trigger] f[a]).announcement.peer_id@
                    != (#[trigger] f[b]).announcement.peer_id@ by {
                    if a < fd.len() && b < fd.len() {
                        assert(f[a] == fd[a] && f[b] == fd[b]);
                    } else {
                        let (x, y) = if a < fd.len() { (a, b) } else { (b, a) };
                        if x < fd.len() {
                            assert(f[x] == fd[x]);
                            assert(d.contains(fd[x]));
                            let t = choose|t: int| 0 <= t < d.len() && d[t] == fd[x];
                            assert(s[t] == d[t]);
                            assert(t != s.len() - 1);
                        }
                    }
                }
            }
        }
    }
}

} // verus!
