//! A shard node's answers to the commands peers send it.
use vstd::prelude::*;
use vstd::string::*;
use crate::command_protocol::{Command, CommandResponse, JsonValue, Params, ResponseStatus};
use crate::command_protocol::commands;
use crate::command_validation::{validate_command_at, command_spec, failure_message};
use crate::kademlia_shard_discovery::{
    KademliaShardDiscovery, Replica, ShardAnnouncement, ShardCapabilities, best_of, best_index, replicas_of, pipeline_spec, missing_spec,
    complete_spec,
};
use crate::pipeline_coordinator::add_shard_post;
use crate::keyed::{entries_map, unique_keys};
use crate::pipeline_coordinator::{append_id_list, id_list_text};
use crate::shard_node::{ShardNodeState, shard_file_name_spec, join_path_spec};
use crate::text::{append_decimal, decimal, str_eq};

verus! {

/// Something a node does after answering a command.
#[derive(Debug)]
pub enum NodeAction {
    /// Tell each of these peers that the node loaded shard `shard_id`.
    BroadcastShardLoaded { shard_id: u32, peers: Vec<String> },
    /// Ask `peer` for the metadata of the file with info hash `info_hash`.
    RequestMetadata { peer: String, info_hash: String },
    /// Look up the swarm's readiness record in the DHT.
    QuerySwarmReadiness,
}

/// There is a best replica and its shard is loaded.
pub open spec fn loaded_best(b: Option<ShardAnnouncement>) -> bool {
    b matches Some(a) && a.capabilities.shard_loaded
}

/// Whether every expected shard's best replica has its shard loaded.
pub open spec fn all_loaded_spec(s: ShardNodeState, now: u64) -> bool {
    discovery_all_loaded(s.discovery, now)
}

/// Whether every expected shard's best replica in `d` has its shard loaded.
pub open spec fn discovery_all_loaded(d: KademliaShardDiscovery, now: u64) -> bool {
    match d.spec_expected() {
        Some(n) => forall|id: u32| id < n ==> loaded_best(#[trigger] best_of(d.entries(), id, d.spec_ttl(), now)),
        None => false,
    }
}

/// The value is the string `t`.
pub open spec fn is_str(v: JsonValue, t: Seq<char>) -> bool {
    v.spec_as_str() == Some(t)
}

/// The value is the list of a seeded file: an object of its name, info
/// hash and size.
pub open spec fn file_entry_is(v: JsonValue, name: Seq<char>, hash: Seq<char>, size: u64) -> bool {
    &&& v matches JsonValue::Object(entries)
    &&& unique_keys(entries@)
    &&& entries_map(entries@).dom() == set!["filename"@, "info_hash"@, "size"@]
    &&& is_str(entries_map(entries@)["filename"@], name)
    &&& is_str(entries_map(entries@)["info_hash"@], hash)
    &&& entries_map(entries@)["size"@] == JsonValue::UInt(size)
}

/// The value lists the node's seeded files, in order.
pub open spec fn files_json_is(v: JsonValue, s: ShardNodeState) -> bool {
    &&& v matches JsonValue::Array(items)
    &&& items@.len() == s.torrent_files@.len()
    &&& forall|i: int|
        0 <= i < items@.len() ==> file_entry_is(
            #[trigger] items@[i],
            s.torrent_files@[i].1.filename@,
            s.torrent_files@[i].1.info_hash@,
            s.torrent_files@[i].1.size,
        )
}

/// The value is the list of the given shard ids.
pub open spec fn ids_json_is(v: JsonValue, ids: Seq<u32>) -> bool {
    &&& v matches JsonValue::Array(items)
    &&& items@.len() == ids.len()
    &&& forall|i: int| 0 <= i < items@.len() ==> #[trigger] items@[i] == JsonValue::UInt(ids[i] as u64)
}

/// The capabilities result: the shard and its layers, whether it holds the
/// embeddings and the output head, the active requests and the serialized
/// capabilities.
pub open spec fn capabilities_result_is(p: Map<Seq<char>, JsonValue>, s: ShardNodeState, caps: JsonValue) -> bool {
    p == Map::<Seq<char>, JsonValue>::empty().insert("shard_id"@, JsonValue::UInt(s.shard_id as u64)).insert(
        "layer_start"@,
        JsonValue::UInt(s.announcement.layer_start as u64),
    ).insert("layer_end"@, JsonValue::UInt(s.announcement.layer_end as u64)).insert(
        "has_embeddings"@,
        JsonValue::Bool(s.announcement.has_embeddings),
    ).insert("has_output"@, JsonValue::Bool(s.announcement.has_output)).insert(
        "active_requests"@,
        JsonValue::UInt(s.active_requests as u64),
    ).insert("capabilities"@, caps)
}

/// The pipeline's peers other than the node itself.
pub open spec fn other_peers(pipeline: Seq<ShardAnnouncement>, local: Seq<char>) -> Seq<Seq<char>> {
    pipeline.map_values(|a: ShardAnnouncement| a.peer_id@).filter(|p: Seq<char>| p != local)
}

fn json_str(s: &str) -> (r: JsonValue)
    ensures
        is_str(r, s@),
{
    JsonValue::Str(String::from_str(s))
}

fn ids_json(ids: &Vec<u32>) -> (r: JsonValue)
    ensures
        ids_json_is(r, ids@),
{
    let mut items: Vec<JsonValue> = Vec::new();
    let mut i: usize = 0;
    while i < ids.len()
        invariant
            i <= ids@.len(),
            items@.len() == i,
            forall|j: int| 0 <= j < i ==> #[trigger] items@[j] == JsonValue::UInt(ids@[j] as u64),
        decreases ids.len() - i,
    {
        items.push(JsonValue::UInt(ids[i] as u64));
        i = i + 1;
    }
    JsonValue::Array(items)
}

/// The number of shards the node expects: the cluster's expected count,
/// or the number known when none is set.
pub open spec fn expected_count(s: ShardNodeState) -> u32 {
    match s.discovery.spec_expected() {
        Some(x) => x,
        None => s.discovery.entries().len() as u32,
    }
}

/// `c` is the notice from `local` to `peer` that the swarm of cluster
/// `cluster` with `total` shards is ready.
pub open spec fn ready_notice_is(c: Command, local: Seq<char>, peer: Seq<char>, total: u32, cluster: Seq<char>) -> bool {
    &&& c.command@ == commands::SWARM_READY@
    &&& c.from@ == local
    &&& crate::command_protocol::opt_string_view(c.to) == Some(peer)
    &&& c.params@.dom() == set!["total_shards"@, "cluster_name"@]
    &&& c.params@["total_shards"@] == JsonValue::UInt(total as u64)
    &&& is_str(c.params@["cluster_name"@], cluster)
}

/// Whether every expected shard's best replica at time `now` has its shard
/// loaded (none is expected: no).
pub fn all_shards_loaded(d: &KademliaShardDiscovery, now: u64) -> (r: bool)
    requires
        d.wf(),
    ensures
        r == discovery_all_loaded(*d, now),
{
    let n = match d.expected_shards() {
        Some(n) => n,
        None => {
            return false;
        },
    };
    let mut id: u32 = 0;
    while id < n
        invariant
            d.wf(),
            d.spec_expected() == Some(n),
            id <= n,
            forall|k: u32| k < id ==> loaded_best(#[trigger] best_of(d.entries(), k, d.spec_ttl(), now)),
        decreases n - id,
    {
        match d.get_best_node_for_shard(id, now) {
            Some(a) => {
                if !a.capabilities.shard_loaded {
                    return false;
                }
            },
            None => {
                return false;
            },
        }
        id = id + 1;
    }
    true
}

impl ShardNodeState {
    /// Whether every expected shard's best replica at time `now` has its
    /// shard loaded.
    pub fn are_all_shards_loaded(&self, now: u64) -> (r: bool)
        requires
            self.wf(),
        ensures
            r == all_loaded_spec(*self, now),
    {
        all_shards_loaded(&self.discovery, now)
    }

    /// The capabilities result, with the capabilities serialized as
    /// `capabilities`.
    pub fn capabilities_result(&self, capabilities: JsonValue) -> (r: Params)
        ensures
            capabilities_result_is(r@, *self, capabilities),
    {
        let mut p = Params::new();
        p.insert(String::from_str("shard_id"), JsonValue::UInt(self.shard_id as u64));
        p.insert(String::from_str("layer_start"), JsonValue::UInt(self.announcement.layer_start as u64));
        p.insert(String::from_str("layer_end"), JsonValue::UInt(self.announcement.layer_end as u64));
        p.insert(String::from_str("has_embeddings"), JsonValue::Bool(self.announcement.has_embeddings));
        p.insert(String::from_str("has_output"), JsonValue::Bool(self.announcement.has_output));
        p.insert(String::from_str("active_requests"), JsonValue::UInt(self.active_requests as u64));
        p.insert(String::from_str("capabilities"), capabilities);
        p
    }

    /// The seeded files, as a JSON list of objects.
    pub fn file_list_json(&self) -> (r: JsonValue)
        ensures
            files_json_is(r, *self),
    {
        let mut items: Vec<JsonValue> = Vec::new();
        let mut i: usize = 0;
        while i < self.torrent_files.len()
            invariant
                i <= self.torrent_files@.len(),
                items@.len() == i,
                forall|j: int|
                    0 <= j < i ==> file_entry_is(
                        #[trigger] items@[j],
                        self.torrent_files@[j].1.filename@,
                        self.torrent_files@[j].1.info_hash@,
                        self.torrent_files@[j].1.size,
                    ),
            decreases self.torrent_files.len() - i,
        {
            let f = &self.torrent_files[i].1;
            let mut entries: Vec<(String, JsonValue)> = Vec::new();
            entries.push((String::from_str("filename"), JsonValue::Str(f.filename.clone())));
            entries.push((String::from_str("info_hash"), JsonValue::Str(f.info_hash.clone())));
            entries.push((String::from_str("size"), JsonValue::UInt(f.size)));
            proof {
                reveal_strlit("filename");
                reveal_strlit("info_hash");
                reveal_strlit("size");
                let e = entries@;
                assert(e[0].0@ != e[1].0@ && e[0].0@ != e[2].0@ && e[1].0@ != e[2].0@) by {
                    assert(e[0].0@.len() != e[1].0@.len());
                    assert(e[0].0@[0] != e[2].0@[0]);
                    assert(e[1].0@[0] != e[2].0@[0]);
                }
                assert(unique_keys(e));
                assert(e.drop_last().drop_last().drop_last() =~= Seq::<(String, JsonValue)>::empty());
                assert(e.drop_last().drop_last().last() == e[0]);
                assert(e.drop_last().last() == e[1]);
                reveal_with_fuel(entries_map, 4);
                let m = Map::<Seq<char>, JsonValue>::empty().insert(e[0].0@, e[0].1).insert(e[1].0@, e[1].1).insert(
                    e[2].0@,
                    e[2].1,
                );
                assert(entries_map(e) == m);
                assert(m.dom() =~= set!["filename"@, "info_hash"@, "size"@]);
                assert(m["filename"@] == e[0].1);
                assert(m["info_hash"@] == e[1].1);
                assert(m["size"@] == e[2].1);
                assert(file_entry_is(JsonValue::Object(entries), f.filename@, f.info_hash@, f.size));
            }
            items.push(JsonValue::Object(entries));
            i = i + 1;
        }
        JsonValue::Array(items)
    }

    /// The pipeline's peers at time `now`, other than `local`.
    pub fn other_pipeline_peers(&self, local: &str, now: u64) -> (r: Vec<String>)
        requires
            self.wf(),
        ensures
            r@.len() == other_peers(
                pipeline_spec(self.discovery.entries(), self.discovery.spec_ttl(), now),
                local@,
            ).len(),
            forall|i: int|
                0 <= i < r@.len() ==> (#[trigger] r@[i])@ == other_peers(
                    pipeline_spec(self.discovery.entries(), self.discovery.spec_ttl(), now),
                    local@,
                )[i],
    {
        let pipeline = self.discovery.get_pipeline(now);
        let ghost names = pipeline@.map_values(|a: ShardAnnouncement| a.peer_id@);
        let ghost pred = |p: Seq<char>| p != local@;
        let mut out: Vec<String> = Vec::new();
        let mut i: usize = 0;
        while i < pipeline.len()
            invariant
                i <= pipeline@.len(),
                names == pipeline@.map_values(|a: ShardAnnouncement| a.peer_id@),
                pred == (|p: Seq<char>| p != local@),
                out@.len() == names.subrange(0, i as int).filter(pred).len(),
                forall|j: int| 0 <= j < out@.len() ==> (#[trigger] out@[j])@ == names.subrange(0, i as int).filter(pred)[j],
            decreases pipeline.len() - i,
        {
            proof {
                crate::kademlia_shard_discovery::lemma_filter_step(names, i as int, pred);
            }
            let p = &pipeline[i].peer_id;
            if !str_eq(p.as_str(), local) {
                out.push(p.clone());
            }
            i = i + 1;
        }
        assert(names.subrange(0, names.len() as int) =~= names);
        out
    }
}

/// A handler's outcome: a result map, or an error text.
pub type Outcome = Result<Map<Seq<char>, JsonValue>, Seq<char>>;

pub open spec fn outcome_of(r: Result<Params, String>) -> Outcome {
    match r {
        Ok(p) => Ok(p@),
        Err(e) => Err(e@),
    }
}

/// The outcome a response carries.
pub open spec fn response_outcome(r: CommandResponse) -> Outcome {
    if r.status == ResponseStatus::Success {
        Ok(
            match r.result {
                Some(p) => p@,
                None => Map::empty(),
            },
        )
    } else {
        Err(
            match r.error {
                Some(e) => e@,
                None => Seq::empty(),
            },
        )
    }
}

/// The result of a load: the shard, its status and one more field.
pub open spec fn load_result_is(p: Map<Seq<char>, JsonValue>, id: u32, status: Seq<char>, key: Seq<char>, value: Seq<char>) -> bool {
    &&& p.dom() == set!["shard_id"@, "status"@, key]
    &&& p["shard_id"@] == JsonValue::UInt(id as u64)
    &&& is_str(p["status"@], status)
    &&& is_str(p[key], value)
}

/// What a load request for `requested` does: a shard already loaded is
/// reported with its path; a shard whose file exists is loaded, marked and
/// broadcast to the pipeline's other peers; otherwise its download from the
/// requester starts and its metadata is requested.
pub open spec fn load_shard_post(
    o: ShardNodeState,
    n: ShardNodeState,
    requested: Option<u32>,
    file_exists: bool,
    requester: Seq<char>,
    local: Seq<char>,
    now: u64,
    res: Outcome,
    action: Option<NodeAction>,
) -> bool {
    match requested {
        None => res == Err::<Map<Seq<char>, JsonValue>, Seq<char>>("Missing shard_id parameter"@) && n == o && action is None,
        Some(id) => if o.loaded_shards@.contains_key(id) {
            &&& res matches Ok(p) && load_result_is(p, id, "already_loaded"@, "path"@, o.loaded_shards@[id]@)
            &&& n == o
            &&& action is None
        } else if file_exists {
            &&& res matches Ok(p) && load_result_is(p, id, "loaded"@, "path"@, o.shard_path_spec(id))
            &&& n.loaded_shards@ == o.loaded_shards@.insert(id, n.loaded_shards@[id])
            &&& n.loaded_shards@[id]@ == o.shard_path_spec(id)
            &&& n.announcement == (ShardAnnouncement {
                capabilities: ShardCapabilities { shard_loaded: true, ..o.announcement.capabilities },
                ..o.announcement
            })
            &&& n == (ShardNodeState {
                loaded_shards: n.loaded_shards,
                announcement: n.announcement,
                needs_reannounce: true,
                ..o
            })
            &&& action matches Some(NodeAction::BroadcastShardLoaded { shard_id, peers }) && shard_id == id
                && peers@.map_values(|p: String| p@) == other_peers(
                pipeline_spec(o.discovery.entries(), o.discovery.spec_ttl(), now),
                local,
            )
        } else {
            &&& res matches Ok(p) && p.dom() == set!["shard_id"@, "status"@, "info_hash"@] && p["shard_id"@]
                == JsonValue::UInt(id as u64) && is_str(p["status"@], "downloading"@) && p["info_hash"@].spec_as_str() is Some
                && n.downloads().dom().contains(p["info_hash"@].spec_as_str()->0)
            &&& action matches Some(NodeAction::RequestMetadata { peer, info_hash }) && peer@ == requester
                && (res matches Ok(p) && is_str(p["info_hash"@], info_hash@))
            &&& n == (ShardNodeState { active_downloads: n.active_downloads, ..o })
        },
    }
}

/// The swarm's figures: readiness, shards discovered and expected, the
/// missing ones, the node's peer id.
pub open spec fn swarm_fields_are(p: Map<Seq<char>, JsonValue>, s: ShardNodeState, ready: bool, local: Seq<char>, now: u64) -> bool {
    &&& p["swarm_ready"@] == JsonValue::Bool(ready)
    &&& p["discovered_shards"@] == JsonValue::UInt(s.discovery.entries().len() as u32 as u64)
    &&& p["expected_shards"@] == JsonValue::UInt(
        match s.discovery.spec_expected() {
            Some(x) => x,
            None => s.discovery.entries().len() as u32,
        } as u64,
    )
    &&& ids_json_is(
        p["missing_shards"@],
        missing_spec(s.discovery.entries(), s.discovery.spec_expected(), s.discovery.spec_ttl(), now),
    )
    &&& is_str(p["peer_id"@], local)
}

/// The node is ready when the pipeline is complete and every shard is
/// loaded.
pub open spec fn ready_now(s: ShardNodeState, now: u64) -> bool {
    complete_spec(s.discovery.entries(), s.discovery.spec_expected(), s.discovery.spec_ttl(), now) && all_loaded_spec(
        s,
        now,
    )
}

/// The text of the answer to an inference task before the swarm is ready.
pub open spec fn not_ready_text(s: ShardNodeState, now: u64) -> Seq<char> {
    "Swarm not ready for inference. "@ + decimal(s.discovery.entries().len() as u32 as nat) + "/"@ + decimal(
        match s.discovery.spec_expected() {
            Some(x) => x,
            None => s.discovery.entries().len() as u32,
        } as nat,
    ) + " shards available. Missing: "@ + id_list_text(
        missing_spec(s.discovery.entries(), s.discovery.spec_expected(), s.discovery.spec_ttl(), now),
    ) + ". "@
}

/// The output of a shard's part of an inference.
pub open spec fn task_output_spec(s: ShardNodeState, input: Seq<char>, path: Seq<char>) -> Seq<char> {
    if s.shard_id == 0 {
        "[Shard "@ + decimal(s.shard_id as nat) + " processed input: '"@ + input + "' through layers "@ + decimal(
            s.announcement.layer_start as nat,
        ) + "-"@ + decimal(s.announcement.layer_end as nat) + " using "@ + path + "]"@
    } else {
        "[Shard "@ + decimal(s.shard_id as nat) + " processed activations through layers "@ + decimal(
            s.announcement.layer_start as nat,
        ) + "-"@ + decimal(s.announcement.layer_end as nat) + " using "@ + path + "]"@
    }
}

/// A string parameter, or a default.
pub open spec fn str_param(p: Map<Seq<char>, JsonValue>, key: Seq<char>, default: Seq<char>) -> Seq<char> {
    if p.dom().contains(key) && p[key].spec_as_str() is Some {
        p[key].spec_as_str()->0
    } else {
        default
    }
}

/// An integer parameter, or a default.
pub open spec fn u64_param(p: Map<Seq<char>, JsonValue>, key: Seq<char>, default: u64) -> u64 {
    if p.dom().contains(key) && p[key].spec_as_u64() is Some {
        p[key].spec_as_u64()->0
    } else {
        default
    }
}

/// What an inference task does: before the swarm is ready it is refused
/// and the readiness record looked up; otherwise it is counted, and a
/// fragment or inference task runs on the node's shard (loaded first if
/// need be: a missing file refuses it), any other task type is refused.
pub open spec fn execute_task_post(
    o: ShardNodeState,
    n: ShardNodeState,
    params: Map<Seq<char>, JsonValue>,
    file_exists: bool,
    now: u64,
    res: Outcome,
    action: Option<NodeAction>,
) -> bool {
    let task = str_param(params, "task_type"@, "unknown"@);
    let loaded_before = o.loaded_shards@.contains_key(o.shard_id);
    if !o.swarm_ready {
        &&& res == Err::<Map<Seq<char>, JsonValue>, Seq<char>>(not_ready_text(o, now))
        &&& action matches Some(NodeAction::QuerySwarmReadiness)
        &&& n == o
    } else {
        &&& action is None
        &&& n.total_requests == o.total_requests + 1
        &&& n.active_requests == o.active_requests
        &&& n.announcement == (ShardAnnouncement {
            capabilities: ShardCapabilities { active_requests: o.active_requests, ..o.announcement.capabilities },
            ..o.announcement
        })
        &&& if task == "llama_fragment"@ || task == "ai_inference"@ {
            if !loaded_before && !file_exists {
                &&& res == Err::<Map<Seq<char>, JsonValue>, Seq<char>>(
                    "Shard "@ + decimal(o.shard_id as nat) + " not loaded: "@ + "Shard file not found: "@
                        + o.shard_path_spec(o.shard_id) + ". Use LOAD_SHARD command first."@,
                )
                &&& n.successful_requests == o.successful_requests
                &&& n == (ShardNodeState {
                    total_requests: n.total_requests,
                    announcement: n.announcement,
                    ..o
                })
            } else {
                let path = if loaded_before {
                    o.loaded_shards@[o.shard_id]@
                } else {
                    o.shard_path_spec(o.shard_id)
                };
                &&& res matches Ok(p) && p.dom() == set![
                    "output"@,
                    "shard_id"@,
                    "layer_start"@,
                    "layer_end"@,
                    "tokens_generated"@,
                ] && is_str(p["output"@], task_output_spec(o, str_param(params, "input_data"@, ""@), path))
                    && p["shard_id"@] == JsonValue::UInt(o.shard_id as u64) && p["layer_start"@] == JsonValue::UInt(
                    o.announcement.layer_start as u64,
                ) && p["layer_end"@] == JsonValue::UInt(o.announcement.layer_end as u64) && p["tokens_generated"@]
                    == JsonValue::UInt(
                    if (u64_param(params, "max_tokens"@, 100) as u32) < 50 {
                        (u64_param(params, "max_tokens"@, 100) as u32) as u64
                    } else {
                        50
                    },
                )
                &&& n.successful_requests == o.successful_requests + 1
                &&& n.loaded_shards@.contains_key(o.shard_id)
                &&& n.loaded_shards@[o.shard_id]@ == path
                &&& loaded_before ==> n.loaded_shards@ == o.loaded_shards@
                &&& n == (ShardNodeState {
                    total_requests: n.total_requests,
                    successful_requests: n.successful_requests,
                    announcement: n.announcement,
                    loaded_shards: n.loaded_shards,
                    ..o
                })
            }
        } else {
            &&& res == Err::<Map<Seq<char>, JsonValue>, Seq<char>>("Unknown task type: "@ + task)
            &&& n.successful_requests == o.successful_requests
            &&& n == (ShardNodeState { total_requests: n.total_requests, announcement: n.announcement, ..o })
        }
    }
}

fn load_result(id: u32, status: &str, key: &str, value: &str) -> (r: Params)
    requires
        key@ != "shard_id"@,
        key@ != "status"@,
    ensures
        load_result_is(r@, id, status@, key@, value@),
{
    let mut p = Params::new();
    p.insert(String::from_str("shard_id"), JsonValue::UInt(id as u64));
    p.insert(String::from_str("status"), json_str(status));
    p.insert(String::from_str(key), json_str(value));
    proof {
        reveal_strlit("shard_id");
        reveal_strlit("status");
        assert("shard_id"@ != "status"@) by {
            assert("shard_id"@.len() != "status"@.len());
        }
        assert(p@.dom() =~= set!["shard_id"@, "status"@, key@]);
    }
    p
}

/// The keys of a load result differ from each other.
proof fn lemma_load_keys()
    ensures
        "path"@ != "shard_id"@,
        "path"@ != "status"@,
        "info_hash"@ != "shard_id"@,
        "info_hash"@ != "status"@,
{
    reveal_strlit("path");
    reveal_strlit("info_hash");
    reveal_strlit("shard_id");
    reveal_strlit("status");
    assert("path"@.len() != "shard_id"@.len());
    assert("path"@.len() != "status"@.len());
    assert("info_hash"@.len() != "shard_id"@.len());
    assert("info_hash"@.len() != "status"@.len());
}

impl ShardNodeState {
    /// Answers a load request for shard `requested` from `requester` (see
    /// `load_shard_post`); `file_exists` tells whether the shard's file is
    /// in the shards directory.
    pub fn handle_load_shard(
        &mut self,
        requested: Option<u32>,
        file_exists: bool,
        requester: &str,
        local: &str,
        now: u64,
    ) -> (r: (Result<Params, String>, Option<NodeAction>))
        requires
            old(self).wf(),
        ensures
            final(self).wf(),
            load_shard_post(
                *old(self),
                *final(self),
                requested,
                file_exists,
                requester@,
                local@,
                now,
                outcome_of(r.0),
                r.1,
            ),
    {
        proof {
            lemma_load_keys();
        }
        let id = match requested {
            None => {
                return (Err(String::from_str("Missing shard_id parameter")), None);
            },
            Some(id) => id,
        };
        match self.query_completed_tensor_file(id) {
            Some(path) => {
                return (Ok(load_result(id, "already_loaded", "path", path.as_str())), None);
            },
            None => {},
        }
        if file_exists {
            let path = match self.load_shard_file(id, true) {
                Ok(p) => p,
                Err(e) => e,
            };
            proof {
                assert(self.loaded_shards@ =~= old(self).loaded_shards@.insert(id, self.loaded_shards@[id]));
            }
            self.mark_shard_loaded();
            let peers = self.other_pipeline_peers(local, now);
            proof {
                let want = other_peers(pipeline_spec(self.discovery.entries(), self.discovery.spec_ttl(), now), local@);
                assert(peers@.map_values(|p: String| p@) =~= want);
            }
            (
                Ok(load_result(id, "loaded", "path", path.as_str())),
                Some(NodeAction::BroadcastShardLoaded { shard_id: id, peers }),
            )
        } else {
            let hash = match self.start_download(id, requester) {
                Ok(h) => h,
                Err(e) => e,
            };
            let p = load_result(id, "downloading", "info_hash", hash.as_str());
            (Ok(p), Some(NodeAction::RequestMetadata { peer: String::from_str(requester), info_hash: hash }))
        }
    }

    fn swarm_fields(&self, p: &mut Params, ready: bool, local: &str, now: u64)
        requires
            self.wf(),
        ensures
            final(p)@ == old(p)@.insert("swarm_ready"@, JsonValue::Bool(ready)).insert(
                "discovered_shards"@,
                final(p)@["discovered_shards"@],
            ).insert("expected_shards"@, final(p)@["expected_shards"@]).insert(
                "missing_shards"@,
                final(p)@["missing_shards"@],
            ).insert("peer_id"@, final(p)@["peer_id"@]),
            swarm_fields_are(final(p)@, *self, ready, local@, now),
    {
        let status = self.discovery.status(now);
        p.insert(String::from_str("swarm_ready"), JsonValue::Bool(ready));
        p.insert(String::from_str("discovered_shards"), JsonValue::UInt(status.discovered_shards as u64));
        p.insert(String::from_str("expected_shards"), JsonValue::UInt(status.expected_shards as u64));
        p.insert(String::from_str("missing_shards"), ids_json(&status.missing_shards));
        p.insert(String::from_str("peer_id"), json_str(local));
        proof {
            reveal_strlit("swarm_ready");
            reveal_strlit("discovered_shards");
            reveal_strlit("expected_shards");
            reveal_strlit("missing_shards");
            reveal_strlit("peer_id");
            assert("swarm_ready"@[1] != "discovered_shards"@[1]);
            assert("swarm_ready"@.len() != "expected_shards"@.len());
            assert("swarm_ready"@[0] != "missing_shards"@[0]);
            assert("swarm_ready"@[0] != "peer_id"@[0]);
            assert("discovered_shards"@[0] != "expected_shards"@[0]);
            assert("discovered_shards"@[0] != "missing_shards"@[0]);
            assert("discovered_shards"@[0] != "peer_id"@[0]);
            assert("expected_shards"@[0] != "missing_shards"@[0]);
            assert("expected_shards"@[0] != "peer_id"@[0]);
            assert("missing_shards"@[0] != "peer_id"@[0]);
        }
    }

    /// Answers a peer's notice that the swarm is ready: the node agrees
    /// when its pipeline is complete and every shard is loaded (and then
    /// notes it), and reports its figures.
    pub fn handle_swarm_ready(&mut self, local: &str, now: u64) -> (r: Params)
        requires
            old(self).wf(),
        ensures
            final(self).wf(),
            *final(self) == (ShardNodeState {
                swarm_ready: old(self).swarm_ready || ready_now(*old(self), now),
                ..*old(self)
            }),
            r@.dom() == set!["swarm_ready"@, "discovered_shards"@, "expected_shards"@, "missing_shards"@, "peer_id"@],
            swarm_fields_are(r@, *old(self), ready_now(*old(self), now), local@, now),
    {
        let ready = self.discovery.is_pipeline_complete(now) && self.are_all_shards_loaded(now);
        if ready {
            self.swarm_ready = true;
        }
        let mut p = Params::new();
        self.swarm_fields(&mut p, ready, local, now);
        assert(p@.dom() =~= set!["swarm_ready"@, "discovered_shards"@, "expected_shards"@, "missing_shards"@, "peer_id"@]);
        p
    }

    /// The periodic refresh at time `now`: when the swarm has just become
    /// ready (complete, every shard loaded, and not noted before), the node
    /// notes it and gives the `SWARM_READY` notices for the other pipeline
    /// peers, carrying the expected shard count and the cluster name.
    pub fn refresh_readiness(&mut self, local: &str, cluster: &str, now: u64) -> (r: Vec<Command>)
        requires
            old(self).wf(),
        ensures
            final(self).wf(),
            *final(self) == (ShardNodeState {
                swarm_ready: old(self).swarm_ready || ready_now(*old(self), now),
                ..*old(self)
            }),
            (!old(self).swarm_ready && ready_now(*old(self), now)) ==> {
                let peers = other_peers(
                    pipeline_spec(old(self).discovery.entries(), old(self).discovery.spec_ttl(), now),
                    local@,
                );
                &&& r@.len() == peers.len()
                &&& forall|i: int|
                    0 <= i < r@.len() ==> ready_notice_is(
                        #[trigger] r@[i],
                        local@,
                        peers[i],
                        expected_count(*old(self)),
                        cluster@,
                    )
            },
            !(!old(self).swarm_ready && ready_now(*old(self), now)) ==> r@.len() == 0,
    {
        let mut out: Vec<Command> = Vec::new();
        if self.swarm_ready {
            return out;
        }
        let ready = self.discovery.is_pipeline_complete(now) && self.are_all_shards_loaded(now);
        if !ready {
            return out;
        }
        self.swarm_ready = true;
        let total: u32 = match self.discovery.expected_shards() {
            Some(x) => x,
            None => self.discovery.shard_count() as u32,
        };
        let peers = self.other_pipeline_peers(local, now);
        let mut i: usize = 0;
        while i < peers.len()
            invariant
                i <= peers@.len(),
                out@.len() == i,
                forall|j: int|
                    0 <= j < i ==> ready_notice_is(#[trigger] out@[j], local@, peers@[j]@, total, cluster@),
            decreases peers.len() - i,
        {
            let cmd = Command::new(commands::SWARM_READY, local, Some(peers[i].as_str())).with_param(
                "total_shards",
                JsonValue::UInt(total as u64),
            ).with_param("cluster_name", json_str(cluster));
            proof {
                reveal_strlit("total_shards");
                reveal_strlit("cluster_name");
                assert("total_shards"@[0] != "cluster_name"@[0]);
            }
            out.push(cmd);
            i = i + 1;
        }
        out
    }

    /// The swarm's status: the node's readiness flag, its figures and
    /// whether the pipeline is complete.
    pub fn swarm_status(&self, local: &str, now: u64) -> (r: Params)
        requires
            self.wf(),
        ensures
            r@.dom() == set![
                "swarm_ready"@,
                "discovered_shards"@,
                "expected_shards"@,
                "missing_shards"@,
                "peer_id"@,
                "is_complete"@,
            ],
            swarm_fields_are(r@, *self, self.swarm_ready, local@, now),
            r@["is_complete"@] == JsonValue::Bool(
                complete_spec(self.discovery.entries(), self.discovery.spec_expected(), self.discovery.spec_ttl(), now),
            ),
    {
        let mut p = Params::new();
        self.swarm_fields(&mut p, self.swarm_ready, local, now);
        let complete = self.discovery.is_pipeline_complete(now);
        let ghost before = p@;
        p.insert(String::from_str("is_complete"), JsonValue::Bool(complete));
        proof {
            reveal_strlit("is_complete");
            reveal_strlit("swarm_ready");
            reveal_strlit("discovered_shards");
            reveal_strlit("expected_shards");
            reveal_strlit("missing_shards");
            reveal_strlit("peer_id");
            assert("is_complete"@[0] != "swarm_ready"@[0]);
            assert("is_complete"@[0] != "discovered_shards"@[0]);
            assert("is_complete"@[0] != "expected_shards"@[0]);
            assert("is_complete"@[0] != "missing_shards"@[0]);
            assert("is_complete"@[0] != "peer_id"@[0]);
            assert(p@.dom() =~= set![
                "swarm_ready"@,
                "discovered_shards"@,
                "expected_shards"@,
                "missing_shards"@,
                "peer_id"@,
                "is_complete"@,
            ]);
        }
        p
    }
}

/// What a peer's notice that it loaded shard `shard_id` does: when that
/// peer holds the shard's best replica, the replica is marked loaded (its
/// rank kept); the node becomes ready once every shard is loaded; the
/// answer says whether the replica was updated and whether all are loaded.
pub open spec fn shard_loaded_post(
    o: ShardNodeState,
    n: ShardNodeState,
    shard_id: Option<u32>,
    notifying: Seq<char>,
    now: u64,
    res: Outcome,
) -> bool {
    match shard_id {
        None => res == Err::<Map<Seq<char>, JsonValue>, Seq<char>>("Missing shard_id parameter"@) && n == o,
        Some(id) => {
            let e = o.discovery.entries();
            let reps = replicas_of(e, id);
            let b = best_index(reps, o.discovery.spec_ttl(), now);
            let updated = b matches Some(i) && reps[i].announcement.peer_id@ == notifying;
            &&& if updated {
                let best = reps[b->0];
                &&& add_shard_post(
                    o.discovery,
                    n.discovery,
                    ShardAnnouncement {
                        capabilities: ShardCapabilities { shard_loaded: true, ..best.announcement.capabilities },
                        ..best.announcement
                    },
                    best.rank,
                )
                &&& n.discovery.spec_expected() == o.discovery.spec_expected()
                &&& n.discovery.spec_ttl() == o.discovery.spec_ttl()
            } else {
                n.discovery == o.discovery
            }
            &&& n.swarm_ready == (o.swarm_ready || all_loaded_spec(n, now))
            &&& n == (ShardNodeState { discovery: n.discovery, swarm_ready: n.swarm_ready, ..o })
            &&& res == Ok::<Map<Seq<char>, JsonValue>, Seq<char>>(
                Map::<Seq<char>, JsonValue>::empty().insert("shard_id"@, JsonValue::UInt(id as u64)).insert(
                    "updated"@,
                    JsonValue::Bool(updated),
                ).insert("all_shards_loaded"@, JsonValue::Bool(all_loaded_spec(n, now))),
            )
        },
    }
}

impl ShardNodeState {
    /// Answers a peer's notice that it loaded shard `shard_id` (see
    /// `shard_loaded_post`).
    pub fn handle_shard_loaded(&mut self, shard_id: Option<u32>, notifying: &str, now: u64) -> (r: Result<
        Params,
        String,
    >)
        requires
            old(self).wf(),
        ensures
            final(self).wf(),
            shard_loaded_post(*old(self), *final(self), shard_id, notifying@, now, outcome_of(r)),
    {
        let id = match shard_id {
            None => {
                return Err(String::from_str("Missing shard_id parameter"));
            },
            Some(id) => id,
        };
        let mut updated = false;
        let found = match self.discovery.get_best_replica(id, now) {
            Some(rep) => {
                if str_eq(rep.announcement.peer_id.as_str(), notifying) {
                    let mut ann = rep.announcement.duplicate();
                    ann.capabilities.shard_loaded = true;
                    Some((ann, rep.rank))
                } else {
                    None
                }
            },
            None => None,
        };
        match found {
            Some((ann, rank)) => {
                self.discovery.add_shard(ann, rank);
                updated = true;
            },
            None => {},
        }
        let all_loaded = self.are_all_shards_loaded(now);
        if all_loaded && !self.swarm_ready {
            self.swarm_ready = true;
        }
        let mut p = Params::new();
        p.insert(String::from_str("shard_id"), JsonValue::UInt(id as u64));
        p.insert(String::from_str("updated"), JsonValue::Bool(updated));
        p.insert(String::from_str("all_shards_loaded"), JsonValue::Bool(all_loaded));
        Ok(p)
    }

    /// Answers an inference task with parameters `params` (see
    /// `execute_task_post`); `file_exists` tells whether the node's shard
    /// file is in the shards directory. A result is missing the processing
    /// time, which the caller adds.
    pub fn handle_execute_task(&mut self, params: &Params, file_exists: bool, now: u64) -> (r: (
        Result<Params, String>,
        Option<NodeAction>,
    ))
        requires
            old(self).wf(),
            old(self).active_requests < u32::MAX,
            old(self).total_requests < u64::MAX,
            old(self).successful_requests < u64::MAX,
        ensures
            final(self).wf(),
            execute_task_post(*old(self), *final(self), params@, file_exists, now, outcome_of(r.0), r.1),
    {
        if !self.swarm_ready {
            let status = self.discovery.status(now);
            let mut e = String::from_str("Swarm not ready for inference. ");
            append_decimal(&mut e, status.discovered_shards as u128);
            e.append("/");
            append_decimal(&mut e, status.expected_shards as u128);
            e.append(" shards available. Missing: ");
            append_id_list(&mut e, &status.missing_shards);
            e.append(". ");
            return (Err(e), Some(NodeAction::QuerySwarmReadiness));
        }
        self.handle_inference_request();
        proof {
            reveal_strlit("task_type");
            reveal_strlit("unknown");
        }
        let task: &str = match params.get("task_type") {
            Some(v) => match v.as_str() {
                Some(t) => t,
                None => "unknown",
            },
            None => "unknown",
        };
        if !(str_eq(task, "llama_fragment") || str_eq(task, "ai_inference")) {
            self.complete_request(false);
            let mut e = String::from_str("Unknown task type: ");
            e.append(task);
            return (Err(e), None);
        }
        let own = self.shard_id;
        let path = match self.load_shard_file(own, file_exists) {
            Ok(p) => p,
            Err(err) => {
                self.complete_request(false);
                let mut e = String::from_str("Shard ");
                append_decimal(&mut e, own as u128);
                e.append(" not loaded: ");
                e.append(err.as_str());
                e.append(". Use LOAD_SHARD command first.");
                assert(e@ =~= "Shard "@ + decimal(own as nat) + " not loaded: "@ + "Shard file not found: "@
                    + old(self).shard_path_spec(own) + ". Use LOAD_SHARD command first."@);
                return (Err(e), None);
            },
        };
        let input: &str = match params.get("input_data") {
            Some(v) => match v.as_str() {
                Some(t) => t,
                None => "",
            },
            None => "",
        };
        let max_tokens: u64 = match params.get("max_tokens") {
            Some(v) => match v.as_u64() {
                Some(m) => m,
                None => 100,
            },
            None => 100,
        };
        let max32 = max_tokens as u32;
        let tokens: u32 = if max32 < 50 {
            max32
        } else {
            50
        };
        let mut out = String::from_str("[Shard ");
        append_decimal(&mut out, own as u128);
        if own == 0 {
            out.append(" processed input: '");
            out.append(input);
            out.append("' through layers ");
        } else {
            out.append(" processed activations through layers ");
        }
        append_decimal(&mut out, self.announcement.layer_start as u128);
        out.append("-");
        append_decimal(&mut out, self.announcement.layer_end as u128);
        out.append(" using ");
        out.append(path.as_str());
        out.append("]");
        proof {
            reveal_strlit("input_data");
            reveal_strlit("max_tokens");
            assert(input@ == str_param(params@, "input_data"@, ""@));
            assert(max_tokens == u64_param(params@, "max_tokens"@, 100));
            assert(out@ =~= task_output_spec(*old(self), input@, path@));
        }
        let mut p = Params::new();
        p.insert(String::from_str("output"), JsonValue::Str(out));
        p.insert(String::from_str("shard_id"), JsonValue::UInt(own as u64));
        p.insert(String::from_str("layer_start"), JsonValue::UInt(self.announcement.layer_start as u64));
        p.insert(String::from_str("layer_end"), JsonValue::UInt(self.announcement.layer_end as u64));
        p.insert(String::from_str("tokens_generated"), JsonValue::UInt(tokens as u64));
        proof {
            reveal_strlit("output");
            reveal_strlit("shard_id");
            reveal_strlit("layer_start");
            reveal_strlit("layer_end");
            reveal_strlit("tokens_generated");
            assert("output"@[0] != "shard_id"@[0]);
            assert("output"@[0] != "layer_start"@[0]);
            assert("output"@[0] != "layer_end"@[0]);
            assert("output"@[0] != "tokens_generated"@[0]);
            assert("shard_id"@[0] != "layer_start"@[0]);
            assert("shard_id"@[0] != "layer_end"@[0]);
            assert("shard_id"@[0] != "tokens_generated"@[0]);
            assert("layer_start"@[6] != "layer_end"@[6]);
            assert("layer_start"@[0] != "tokens_generated"@[0]);
            assert("layer_end"@[0] != "tokens_generated"@[0]);
            assert(p@.dom() =~= set!["output"@, "shard_id"@, "layer_start"@, "layer_end"@, "tokens_generated"@]);
        }
        self.complete_request(true);
        (Ok(p), None)
    }
}

/// The shard id a command asks for, if it gives one.
pub open spec fn requested_shard(p: Map<Seq<char>, JsonValue>) -> Option<u32> {
    if p.dom().contains("shard_id"@) && p["shard_id"@].spec_as_u64() is Some {
        Some(p["shard_id"@].spec_as_u64()->0 as u32)
    } else {
        None
    }
}

/// The shard whose file a command needs: the requested one for a load,
/// the node's own for an inference task.
pub open spec fn shard_to_check_spec(s: ShardNodeState, cmd: Command) -> Option<u32> {
    if cmd.command@ == commands::LOAD_SHARD@ {
        requested_shard(cmd.params@)
    } else if cmd.command@ == commands::EXECUTE_TASK@ {
        Some(s.shard_id)
    } else {
        None
    }
}

/// The response to `cmd` from `local`, at time `now`, carrying `res`.
fn respond(cmd: &Command, local: &str, res: Result<Params, String>, now: u64) -> (r: CommandResponse)
    ensures
        r.command@ == cmd.command@,
        r.request_id@ == cmd.request_id@,
        r.from@ == local@,
        r.to@ == cmd.from@,
        r.timestamp == now,
        response_outcome(r) == outcome_of(res),
        res is Ok ==> r.result == Some(res->Ok_0),
{
    match res {
        Ok(p) => CommandResponse::success_at(
            cmd.command.as_str(),
            cmd.request_id.as_str(),
            local,
            cmd.from.as_str(),
            p,
            now,
        ),
        Err(e) => CommandResponse::error_at(
            cmd.command.as_str(),
            cmd.request_id.as_str(),
            local,
            cmd.from.as_str(),
            e.as_str(),
            now,
        ),
    }
}

impl ShardNodeState {
    /// The shard whose file `cmd` needs, so that the caller can tell
    /// whether that file exists.
    pub fn shard_to_check(&self, cmd: &Command) -> (r: Option<u32>)
        ensures
            r == shard_to_check_spec(*self, *cmd),
    {
        if str_eq(cmd.command.as_str(), commands::LOAD_SHARD) {
            self.requested_shard_of(&cmd.params)
        } else if str_eq(cmd.command.as_str(), commands::EXECUTE_TASK) {
            Some(self.shard_id)
        } else {
            None
        }
    }

    fn requested_shard_of(&self, p: &Params) -> (r: Option<u32>)
        ensures
            r == requested_shard(p@),
    {
        match p.get("shard_id") {
            Some(v) => match v.as_u64() {
                Some(x) => Some(x as u32),
                None => None,
            },
            None => None,
        }
    }

    /// Answers a command `cmd` received from `requester`, as node `local`,
    /// at time `now`: an invalid command is refused; each known command is
    /// answered as its handler says; any other is refused as unknown.
    /// `shard_file_exists` tells whether the file of `shard_to_check` exists;
    /// `capabilities` is the node's capabilities serialized.
    pub fn handle_command(
        &mut self,
        cmd: &Command,
        local: &str,
        requester: &str,
        shard_file_exists: bool,
        capabilities: JsonValue,
        now: u64,
    ) -> (r: (CommandResponse, Option<NodeAction>))
        requires
            old(self).wf(),
            old(self).active_requests < u32::MAX,
            old(self).total_requests < u64::MAX,
            old(self).successful_requests < u64::MAX,
        ensures
            final(self).wf(),
            r.0.command@ == cmd.command@,
            r.0.request_id@ == cmd.request_id@,
            r.0.from@ == local@,
            r.0.to@ == cmd.from@,
            r.0.timestamp == now,
            match command_spec(*cmd, now) {
                Err(f) => {
                    &&& response_outcome(r.0) == Err::<Map<Seq<char>, JsonValue>, Seq<char>>(
                        "Input validation failed: "@ + failure_message(f),
                    )
                    &&& *final(self) == *old(self)
                    &&& r.1 is None
                },
                Ok(()) => {
                    let name = cmd.command@;
                    let p = cmd.params@;
                    if name == commands::GET_CAPABILITIES@ {
                        &&& r.0.status == ResponseStatus::Success
                        &&& r.0.result matches Some(q) && capabilities_result_is(q@, *old(self), capabilities)
                        &&& *final(self) == *old(self)
                        &&& r.1 is None
                    } else if name == commands::LOAD_SHARD@ {
                        load_shard_post(
                            *old(self),
                            *final(self),
                            requested_shard(p),
                            shard_file_exists,
                            requester@,
                            local@,
                            now,
                            response_outcome(r.0),
                            r.1,
                        )
                    } else if name == commands::LIST_FILES@ || name == commands::SYNC_TORRENTS@ {
                        &&& r.0.status == ResponseStatus::Success
                        &&& r.0.result matches Some(q) && q@.dom().contains("files"@) && files_json_is(
                            q@["files"@],
                            *old(self),
                        ) && (if name == commands::LIST_FILES@ {
                            q@.dom() == set!["files"@]
                        } else {
                            q@.dom() == set!["files"@, "total_files"@] && q@["total_files"@] == JsonValue::UInt(
                                old(self).torrent_files@.len() as u64,
                            )
                        })
                        &&& *final(self) == *old(self)
                        &&& r.1 is None
                    } else if name == commands::SWARM_READY@ {
                        &&& r.0.status == ResponseStatus::Success
                        &&& r.0.result matches Some(q) && q@.dom() == set![
                            "swarm_ready"@,
                            "discovered_shards"@,
                            "expected_shards"@,
                            "missing_shards"@,
                            "peer_id"@,
                        ] && swarm_fields_are(q@, *old(self), ready_now(*old(self), now), local@, now)
                        &&& *final(self) == (ShardNodeState {
                            swarm_ready: old(self).swarm_ready || ready_now(*old(self), now),
                            ..*old(self)
                        })
                        &&& r.1 is None
                    } else if name == commands::SWARM_STATUS@ {
                        &&& r.0.status == ResponseStatus::Success
                        &&& r.0.result matches Some(q) && swarm_fields_are(
                            q@,
                            *old(self),
                            old(self).swarm_ready,
                            local@,
                            now,
                        ) && q@["is_complete"@] == JsonValue::Bool(
                            complete_spec(
                                old(self).discovery.entries(),
                                old(self).discovery.spec_expected(),
                                old(self).discovery.spec_ttl(),
                                now,
                            ),
                        )
                        &&& *final(self) == *old(self)
                        &&& r.1 is None
                    } else if name == commands::SHARD_LOADED@ {
                        &&& shard_loaded_post(
                            *old(self),
                            *final(self),
                            requested_shard(p),
                            str_param(p, "peer_id"@, cmd.from@),
                            now,
                            response_outcome(r.0),
                        )
                        &&& r.1 is None
                    } else if name == commands::EXECUTE_TASK@ {
                        execute_task_post(
                            *old(self),
                            *final(self),
                            p,
                            shard_file_exists,
                            now,
                            response_outcome(r.0),
                            r.1,
                        )
                    } else {
                        &&& response_outcome(r.0) == Err::<Map<Seq<char>, JsonValue>, Seq<char>>(
                            "Unknown command: "@ + name,
                        )
                        &&& *final(self) == *old(self)
                        &&& r.1 is None
                    }
                },
            },
    {
        match validate_command_at(cmd, now) {
            Err(v) => {
                let mut e = String::from_str("Input validation failed: ");
                let m = v.message();
                e.append(m.as_str());
                return (respond(cmd, local, Err(e), now), None);
            },
            Ok(()) => {},
        }
        let name = cmd.command.as_str();
        if str_eq(name, commands::GET_CAPABILITIES) {
            let p = self.capabilities_result(capabilities);
            (respond(cmd, local, Ok(p), now), None)
        } else if str_eq(name, commands::LOAD_SHARD) {
            let requested = self.requested_shard_of(&cmd.params);
            let (res, action) = self.handle_load_shard(requested, shard_file_exists, requester, local, now);
            (respond(cmd, local, res, now), action)
        } else if str_eq(name, commands::LIST_FILES) || str_eq(name, commands::SYNC_TORRENTS) {
            let mut p = Params::new();
            p.insert(String::from_str("files"), self.file_list_json());
            if str_eq(name, commands::SYNC_TORRENTS) {
                p.insert(String::from_str("total_files"), JsonValue::UInt(self.torrent_files.len() as u64));
            }
            proof {
                reveal_strlit("files");
                reveal_strlit("total_files");
                assert("files"@.len() != "total_files"@.len());
                reveal_strlit("LIST_FILES");
                reveal_strlit("SYNC_TORRENTS");
                assert(commands::LIST_FILES@.len() != commands::SYNC_TORRENTS@.len());
                if name@ == commands::LIST_FILES@ {
                    assert(p@.dom() =~= set!["files"@]);
                } else {
                    assert(p@.dom() =~= set!["files"@, "total_files"@]);
                }
            }
            (respond(cmd, local, Ok(p), now), None)
        } else if str_eq(name, commands::SWARM_READY) {
            let p = self.handle_swarm_ready(local, now);
            (respond(cmd, local, Ok(p), now), None)
        } else if str_eq(name, commands::SWARM_STATUS) {
            let p = self.swarm_status(local, now);
            (respond(cmd, local, Ok(p), now), None)
        } else if str_eq(name, commands::SHARD_LOADED) {
            let requested = self.requested_shard_of(&cmd.params);
            proof {
                reveal_strlit("peer_id");
            }
            let notifying: &str = match cmd.params.get("peer_id") {
                Some(v) => match v.as_str() {
                    Some(t) => t,
                    None => cmd.from.as_str(),
                },
                None => cmd.from.as_str(),
            };
            let res = self.handle_shard_loaded(requested, notifying, now);
            (respond(cmd, local, res, now), None)
        } else if str_eq(name, commands::EXECUTE_TASK) {
            let (res, action) = self.handle_execute_task(&cmd.params, shard_file_exists, now);
            (respond(cmd, local, res, now), action)
        } else {
            let mut e = String::from_str("Unknown command: ");
            e.append(name);
            (respond(cmd, local, Err(e), now), None)
        }
    }
}

} // verus!
