//! Loading shard files described by a metadata file: where the metadata
//! and the shard files lie, which safetensors file becomes which
//! `shard-{id}.gguf`, and the status of each expected shard file.
//!
//! The file system is the caller's: it reads the metadata, checks and
//! copies the files, and hands the sizes it found to the loader.
use vstd::prelude::*;
use vstd::string::*;
use std::collections::HashMap;
use crate::shard_node::{join_path, join_path_spec, shard_file_name, shard_file_name_spec};

verus! {

broadcast use vstd::std_specs::hash::group_hash_axioms;

/// Model figures. Sizes are the bits of `f64` values.
#[derive(Debug)]
pub struct ModelInfo {
    pub n_layers: u32,
    pub n_embd: u32,
    pub n_head: u32,
    pub n_vocab: u32,
    pub file_size_gb: u64,
    pub file_size_mb: u64,
    pub model_name: String,
}

/// One shard of a sharding plan. The size is the bits of an `f64`.
#[derive(Debug)]
pub struct ShardPlan {
    pub shard_id: u32,
    /// `[start, end]`
    pub layer_range: Vec<u32>,
    pub num_layers: u32,
    pub estimated_size_mb: u64,
    pub includes_embeddings: bool,
    pub includes_output: bool,
}

/// Shard metadata. Sizes are the bits of `f64` values.
#[derive(Debug)]
pub struct ShardMetadata {
    pub original_model: String,
    pub model_info: ModelInfo,
    pub sharding_plan: Vec<ShardPlan>,
    pub total_shards: u32,
    pub avg_shard_size_mb: u64,
    pub total_size_mb: u64,
}

/// One safetensors shard file.
#[derive(Debug)]
pub struct SafetensorsShard {
    pub shard_id: u32,
    pub layer_start: u32,
    pub layer_end: u32,
    pub num_layers: u32,
    pub file_name: String,
    pub file_size: u64,
    pub checksum: String,
    pub has_embeddings: bool,
    pub has_output: bool,
    pub tensors: Vec<String>,
    pub dtype: String,
}

/// The configuration a safetensors split was made with.
#[derive(Debug)]
pub struct ShardConfig {
    pub num_shards: u32,
    pub layers_per_shard: u32,
    pub output_dtype: String,
    pub output_dir: String,
    pub keep_quantized: bool,
    pub compute_checksums: bool,
}

/// Metadata of a safetensors split. The size is the bits of an `f64`.
#[derive(Debug)]
pub struct SafetensorsShardMetadata {
    pub original_model: String,
    pub architecture: Option<String>,
    pub model_info: ModelInfo,
    pub shards: Vec<SafetensorsShard>,
    pub total_shards: u32,
    pub total_size_mb: u64,
    pub created_at: Option<u64>,
    pub config: Option<ShardConfig>,
}

/// The status of an expected shard file. Sizes are in bytes.
#[derive(Debug)]
pub enum ShardStatus {
    Found { path: String, size_bytes: u64 },
    Empty { path: String },
    Missing { expected: String },
}

/// The name of the metadata file.
pub open spec fn metadata_file_name() -> Seq<char> {
    "shard_metadata.json"@
}

/// Loads shard files from a metadata directory into a target directory.
pub struct ShardLoader {
    metadata_dir: String,
    safetensors_dir: Option<String>,
    target_dir: String,
}

impl ShardLoader {
    pub closed spec fn spec_metadata_dir(&self) -> Seq<char> {
        self.metadata_dir@
    }

    pub closed spec fn spec_safetensors_dir(&self) -> Option<Seq<char>> {
        match self.safetensors_dir {
            Some(d) => Some(d@),
            None => None,
        }
    }

    pub closed spec fn spec_target_dir(&self) -> Seq<char> {
        self.target_dir@
    }

    /// The directory of the safetensors files: its own, else the metadata
    /// directory.
    pub open spec fn source_dir(&self) -> Seq<char> {
        match self.spec_safetensors_dir() {
            Some(d) => d,
            None => self.spec_metadata_dir(),
        }
    }

    /// A loader reading metadata from `metadata_dir` and writing shard files
    /// into `target_dir`.
    pub fn new(metadata_dir: &str, target_dir: &str) -> (r: ShardLoader)
        ensures
            r.spec_metadata_dir() == metadata_dir@,
            r.spec_safetensors_dir() is None,
            r.spec_target_dir() == target_dir@,
    {
        ShardLoader {
            metadata_dir: String::from_str(metadata_dir),
            safetensors_dir: None,
            target_dir: String::from_str(target_dir),
        }
    }

    /// The loader, reading safetensors files (and their metadata) from `dir`.
    pub fn with_safetensors_dir(self, dir: &str) -> (r: ShardLoader)
        ensures
            r.spec_metadata_dir() == self.spec_metadata_dir(),
            r.spec_safetensors_dir() == Some(dir@),
            r.spec_target_dir() == self.spec_target_dir(),
    {
        ShardLoader { safetensors_dir: Some(String::from_str(dir)), ..self }
    }

    /// The target directory.
    pub fn target_dir(&self) -> (r: &str)
        ensures
            r@ == self.spec_target_dir(),
    {
        self.target_dir.as_str()
    }

    /// The path of the shard metadata file.
    pub fn metadata_path(&self) -> (r: String)
        ensures
            r@ == join_path_spec(self.spec_metadata_dir(), metadata_file_name()),
    {
        join_path(self.metadata_dir.as_str(), "shard_metadata.json")
    }

    /// The path of the safetensors metadata file.
    pub fn safetensors_metadata_path(&self) -> (r: String)
        ensures
            r@ == join_path_spec(self.source_dir(), metadata_file_name()),
    {
        match &self.safetensors_dir {
            Some(d) => join_path(d.as_str(), "shard_metadata.json"),
            None => join_path(self.metadata_dir.as_str(), "shard_metadata.json"),
        }
    }

    /// The path a shard's file has in the target directory.
    pub fn target_path(&self, shard_id: u32) -> (r: String)
        ensures
            r@ == join_path_spec(self.spec_target_dir(), shard_file_name_spec(shard_id)),
    {
        let name = shard_file_name(shard_id);
        join_path(self.target_dir.as_str(), name.as_str())
    }

    /// The files to map: for each safetensors shard, in order, its source
    /// file and the `shard-{id}.gguf` it becomes in the target directory.
    pub fn mapping_plan(&self, meta: &SafetensorsShardMetadata) -> (r: Vec<(String, String)>)
        ensures
            r@.len() == meta.shards@.len(),
            forall|i: int|
                0 <= i < r@.len() ==> (#[trigger] r@[i]).0@ == join_path_spec(
                    self.source_dir(),
                    meta.shards@[i].file_name@,
                ) && r@[i].1@ == join_path_spec(
                    self.spec_target_dir(),
                    shard_file_name_spec(meta.shards@[i].shard_id),
                ),
    {
        let dir: &str = match &self.safetensors_dir {
            Some(d) => d.as_str(),
            None => self.metadata_dir.as_str(),
        };
        let mut out: Vec<(String, String)> = Vec::new();
        let mut i: usize = 0;
        while i < meta.shards.len()
            invariant
                dir@ == self.source_dir(),
                i <= meta.shards@.len(),
                out@.len() == i,
                forall|j: int|
                    0 <= j < i ==> (#[trigger] out@[j]).0@ == join_path_spec(
                        self.source_dir(),
                        meta.shards@[j].file_name@,
                    ) && out@[j].1@ == join_path_spec(
                        self.spec_target_dir(),
                        shard_file_name_spec(meta.shards@[j].shard_id),
                    ),
            decreases meta.shards.len() - i,
        {
            let shard = &meta.shards[i];
            let source = join_path(dir, shard.file_name.as_str());
            let target = self.target_path(shard.shard_id);
            out.push((source, target));
            i = i + 1;
        }
        out
    }

    /// The status of each expected shard `0..expected_shards`, given the size
    /// of each one's target file (`None` when it does not exist): found when
    /// it has bytes, empty when it has none, missing otherwise.
    pub fn validate_shards(&self, expected_shards: u32, sizes: &Vec<Option<u64>>) -> (r: HashMap<
        u32,
        ShardStatus,
    >)
        requires
            sizes@.len() == expected_shards,
        ensures
            forall|id: u32| #[trigger] r@.contains_key(id) <==> id < expected_shards,
            forall|id: u32|
                #![trigger r@[id]]
                id < expected_shards ==> {
                    let path = join_path_spec(self.spec_target_dir(), shard_file_name_spec(id));
                    match sizes@[id as int] {
                        Some(n) => if n > 0 {
                            r@[id] matches ShardStatus::Found { path: p, size_bytes } && p@ == path
                                && size_bytes == n
                        } else {
                            r@[id] matches ShardStatus::Empty { path: p } && p@ == path
                        },
                        None => r@[id] matches ShardStatus::Missing { expected } && expected@ == path,
                    }
                },
    {
        let mut status: HashMap<u32, ShardStatus> = HashMap::new();
        let mut id: u32 = 0;
        while id < expected_shards
            invariant
                sizes@.len() == expected_shards,
                id <= expected_shards,
                forall|k: u32| #[trigger] status@.contains_key(k) <==> k < id,
                forall|k: u32|
                    #![trigger status@[k]]
                    k < id ==> {
                        let path = join_path_spec(self.spec_target_dir(), shard_file_name_spec(k));
                        match sizes@[k as int] {
                            Some(n) => if n > 0 {
                                status@[k] matches ShardStatus::Found { path: p, size_bytes } && p@
                                    == path && size_bytes == n
                            } else {
                                status@[k] matches ShardStatus::Empty { path: p } && p@ == path
                            },
                            None => status@[k] matches ShardStatus::Missing { expected } && expected@ == path,
                        }
                    },
            decreases expected_shards - id,
        {
            let path = self.target_path(id);
            let entry = match sizes[id as usize] {
                Some(n) => if n > 0 {
                    ShardStatus::Found { path, size_bytes: n }
                } else {
                    ShardStatus::Empty { path }
                },
                None => ShardStatus::Missing { expected: path },
            };
            status.insert(id, entry);
            id = id + 1;
        }
        status
    }
}

/// The plan of shard `shard_id` in the metadata, if any (the first one).
pub fn get_shard_config(metadata: &ShardMetadata, shard_id: u32) -> (r: Option<&ShardPlan>)
    ensures
        match r {
            Some(p) => exists|i: int|
                0 <= i < metadata.sharding_plan@.len() && #[trigger] metadata.sharding_plan@[i] == *p && p.shard_id
                    == shard_id && forall|j: int| 0 <= j < i ==> (#[trigger] metadata.sharding_plan@[j]).shard_id
                    != shard_id,
            None => forall|j: int|
                0 <= j < metadata.sharding_plan@.len() ==> (#[trigger] metadata.sharding_plan@[j]).shard_id
                    != shard_id,
        },
{
    let mut i: usize = 0;
    while i < metadata.sharding_plan.len()
        invariant
            i <= metadata.sharding_plan@.len(),
            forall|j: int| 0 <= j < i ==> (#[trigger] metadata.sharding_plan@[j]).shard_id != shard_id,
        decreases metadata.sharding_plan.len() - i,
    {
        if metadata.sharding_plan[i].shard_id == shard_id {
            return Some(&metadata.sharding_plan[i]);
        }
        i = i + 1;
    }
    None
}

/// Whether a source file is mapped: it exists and has bytes.
pub open spec fn maps_source_spec(size: Option<u64>) -> bool {
    size matches Some(n) && n > 0
}

/// Whether a source file is mapped, given its size (`None` when missing).
pub fn maps_source(size: Option<u64>) -> (r: bool)
    ensures
        r == maps_source_spec(size),
{
    match size {
        Some(n) => n > 0,
        None => false,
    }
}

/// How many of the expected shards were found.
pub fn found_count(status: &HashMap<u32, ShardStatus>, expected_shards: u32) -> (r: u32)
    ensures
        r == Set::new(
            |id: u32| id < expected_shards && status@.contains_key(id) && status@[id] is Found,
        ).len(),
        r <= expected_shards,
{
    let mut count: u32 = 0;
    let mut id: u32 = 0;
    assert(Set::new(|k: u32| k < id && status@.contains_key(k) && status@[k] is Found) =~= Set::<u32>::empty());
    while id < expected_shards
        invariant
            id <= expected_shards,
            count <= id,
            count == Set::new(|k: u32| k < id && status@.contains_key(k) && status@[k] is Found).len(),
            Set::new(|k: u32| k < id && status@.contains_key(k) && status@[k] is Found).finite(),
        decreases expected_shards - id,
    {
        let ghost before = Set::new(|k: u32| k < id && status@.contains_key(k) && status@[k] is Found);
        let is_found = match status.get(&id) {
            Some(ShardStatus::Found { .. }) => true,
            _ => false,
        };
        proof {
            let after = Set::new(|k: u32| k < id + 1 && status@.contains_key(k) && status@[k] is Found);
            if is_found {
                assert(after =~= before.insert(id));
            } else {
                assert(after =~= before);
            }
        }
        if is_found {
            count = count + 1;
        }
        id = id + 1;
    }
    count
}

} // verus!
