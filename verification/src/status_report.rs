//! What a shard node's status report says of the cluster: each shard's
//! presence, the online and loaded counts, download progress bars and
//! whether the pipeline is ready.
use vstd::prelude::*;
use vstd::string::*;
use crate::kademlia_shard_discovery::ShardAnnouncement;
use crate::text::push_char;

verus! {

/// How a shard shows in the report.
#[derive(Debug, Clone, Copy, PartialEq, Eq, Structural)]
pub enum ShardPresence {
    /// The shard this node serves.
    Local,
    /// Another node serves it and has it loaded.
    OnlineLoaded,
    /// Another node serves it without having it loaded.
    Online,
    /// No node serves it.
    Offline,
}

impl ShardPresence {
    /// The report's icon.
    pub fn icon(&self) -> (r: &'static str)
        ensures
            r@ == match *self {
                ShardPresence::Local => "★"@,
                ShardPresence::OnlineLoaded => "✓"@,
                ShardPresence::Online => "○"@,
                ShardPresence::Offline => "✗"@,
            },
    {
        match self {
            ShardPresence::Local => "★",
            ShardPresence::OnlineLoaded => "✓",
            ShardPresence::Online => "○",
            ShardPresence::Offline => "✗",
        }
    }

    /// The report's wording.
    pub fn text(&self) -> (r: &'static str)
        ensures
            r@ == match *self {
                ShardPresence::Local => "LOCAL"@,
                ShardPresence::OnlineLoaded => "ONLINE + LOADED"@,
                ShardPresence::Online => "ONLINE (not loaded)"@,
                ShardPresence::Offline => "OFFLINE"@,
            },
    {
        match self {
            ShardPresence::Local => "LOCAL",
            ShardPresence::OnlineLoaded => "ONLINE + LOADED",
            ShardPresence::Online => "ONLINE (not loaded)",
            ShardPresence::Offline => "OFFLINE",
        }
    }
}

/// Whether some node of the pipeline serves shard `id`.
pub open spec fn online(p: Seq<ShardAnnouncement>, id: u32) -> bool {
    exists|i: int| 0 <= i < p.len() && (#[trigger] p[i]).shard_id == id
}

/// Whether some node of the pipeline serves shard `id` with it loaded.
pub open spec fn loaded(p: Seq<ShardAnnouncement>, id: u32) -> bool {
    exists|i: int| 0 <= i < p.len() && (#[trigger] p[i]).shard_id == id && p[i].capabilities.shard_loaded
}

/// How shard `id` shows in the report of the node serving `local`.
pub open spec fn presence_spec(p: Seq<ShardAnnouncement>, id: u32, local: u32) -> ShardPresence {
    if id == local {
        ShardPresence::Local
    } else if online(p, id) && loaded(p, id) {
        ShardPresence::OnlineLoaded
    } else if online(p, id) {
        ShardPresence::Online
    } else {
        ShardPresence::Offline
    }
}

/// The first node of the pipeline that serves shard `id`.
pub open spec fn first_with(p: Seq<ShardAnnouncement>, id: u32) -> Option<int> {
    if online(p, id) {
        Some(choose|i: int| 0 <= i < p.len() && p[i].shard_id == id && forall|j: int| 0 <= j < i ==> p[j].shard_id != id)
    } else {
        None
    }
}

/// A shard's line of the report: its presence and, for another node's
/// shard, that node's peer id and layers.
#[derive(Debug)]
pub struct ShardRow {
    pub shard_id: u32,
    pub presence: ShardPresence,
    pub peer: Option<(String, u32, u32)>,
}

fn find_shard(p: &Vec<ShardAnnouncement>, id: u32) -> (r: Option<usize>)
    ensures
        match r {
            Some(i) => i < p@.len() && p@[i as int].shard_id == id && forall|j: int| 0 <= j < i ==> p@[j].shard_id != id,
            None => !online(p@, id),
        },
{
    let mut i: usize = 0;
    while i < p.len()
        invariant
            i <= p@.len(),
            forall|j: int| 0 <= j < i ==> p@[j].shard_id != id,
        decreases p.len() - i,
    {
        if p[i].shard_id == id {
            return Some(i);
        }
        i = i + 1;
    }
    None
}

fn find_loaded(p: &Vec<ShardAnnouncement>, id: u32) -> (r: bool)
    ensures
        r == loaded(p@, id),
{
    let mut i: usize = 0;
    while i < p.len()
        invariant
            i <= p@.len(),
            forall|j: int| 0 <= j < i ==> !(p@[j].shard_id == id && p@[j].capabilities.shard_loaded),
        decreases p.len() - i,
    {
        if p[i].shard_id == id && p[i].capabilities.shard_loaded {
            return true;
        }
        i = i + 1;
    }
    false
}

/// The shard lines of the report of the node serving `local`, for shards
/// 0 to `total - 1` of pipeline `p`: each shard's presence, and for a shard
/// another node serves, the peer id and layers of the first such node.
pub fn shard_rows(p: &Vec<ShardAnnouncement>, local: u32, total: u32) -> (r: Vec<ShardRow>)
    ensures
        r@.len() == total,
        forall|k: int|
            0 <= k < total ==> {
                let row = #[trigger] r@[k];
                &&& row.shard_id == k as u32
                &&& row.presence == presence_spec(p@, k as u32, local)
                &&& if online(p@, k as u32) && k != local {
                    let i = first_with(p@, k as u32)->0;
                    row.peer matches Some((peer, start, end)) && peer@ == p@[i].peer_id@ && start
                        == p@[i].layer_start && end == p@[i].layer_end
                } else {
                    row.peer is None
                }
            },
{
    let mut rows: Vec<ShardRow> = Vec::new();
    let mut id: u32 = 0;
    while id < total
        invariant
            id <= total,
            rows@.len() == id,
            forall|k: int|
                0 <= k < id ==> {
                    let row = #[trigger] rows@[k];
                    &&& row.shard_id == k as u32
                    &&& row.presence == presence_spec(p@, k as u32, local)
                    &&& if online(p@, k as u32) && k != local {
                        let i = first_with(p@, k as u32)->0;
                        row.peer matches Some((peer, start, end)) && peer@ == p@[i].peer_id@ && start
                            == p@[i].layer_start && end == p@[i].layer_end
                    } else {
                        row.peer is None
                    }
                },
        decreases total - id,
    {
        let found = find_shard(p, id);
        let is_loaded = find_loaded(p, id);
        let presence = if id == local {
            ShardPresence::Local
        } else if found.is_some() && is_loaded {
            ShardPresence::OnlineLoaded
        } else if found.is_some() {
            ShardPresence::Online
        } else {
            ShardPresence::Offline
        };
        let peer = match found {
            Some(i) => if id != local {
                proof {
                    assert(online(p@, id));
                    let w = i as int;
                    assert(0 <= w < p@.len() && p@[w].shard_id == id && forall|j: int| 0 <= j < w ==> p@[j].shard_id != id);
                    let c = first_with(p@, id)->0;
                    assert(0 <= c < p@.len() && p@[c].shard_id == id && forall|j: int| 0 <= j < c ==> p@[j].shard_id != id);
                    if c < w {
                        assert(p@[c].shard_id != id);
                    }
                    if w < c {
                        assert(p@[w].shard_id != id);
                    }
                    assert(c == w);
                }
                Some((p[i].peer_id.clone(), p[i].layer_start, p[i].layer_end))
            } else {
                None
            },
            None => None,
        };
        rows.push(ShardRow { shard_id: id, presence, peer });
        id = id + 1;
    }
    rows
}

/// Whether the id at position `i` occurred before it.
pub open spec fn seen_before(ids: Seq<u32>, i: int) -> bool {
    exists|j: int| 0 <= j < i && ids[j] == ids[i]
}

/// The number of different ids in `ids`.
pub open spec fn distinct_count(ids: Seq<u32>) -> nat
    decreases ids.len(),
{
    if ids.len() == 0 {
        0
    } else {
        distinct_count(ids.drop_last()) + if seen_before(ids, ids.len() - 1) {
            0nat
        } else {
            1nat
        }
    }
}

proof fn lemma_distinct_count_bound(ids: Seq<u32>)
    ensures
        distinct_count(ids) <= ids.len(),
    decreases ids.len(),
{
    if ids.len() > 0 {
        lemma_distinct_count_bound(ids.drop_last());
    }
}

/// The number of different ids in `ids`.
pub fn count_distinct(ids: &Vec<u32>) -> (r: usize)
    ensures
        r == distinct_count(ids@),
{
    let mut n: usize = 0;
    let mut i: usize = 0;
    while i < ids.len()
        invariant
            i <= ids@.len(),
            n == distinct_count(ids@.subrange(0, i as int)),
            n <= i,
        decreases ids.len() - i,
    {
        let mut seen = false;
        let mut j: usize = 0;
        while j < i
            invariant
                j <= i < ids@.len(),
                seen == exists|k: int| 0 <= k < j && ids@[k] == ids@[i as int],
            decreases i - j,
        {
            if ids[j] == ids[i] {
                seen = true;
            }
            j = j + 1;
        }
        proof {
            let t = ids@.subrange(0, i + 1);
            assert(t.drop_last() =~= ids@.subrange(0, i as int));
            assert(seen_before(t, i as int) == seen) by {
                if seen {
                    let k = choose|k: int| 0 <= k < i && ids@[k] == ids@[i as int];
                    assert(t[k] == t[i as int]);
                }
                if seen_before(t, i as int) {
                    let k = choose|k: int| 0 <= k < i && t[k] == t[i as int];
                    assert(ids@[k] == ids@[i as int]);
                }
            }
            lemma_distinct_count_bound(ids@.subrange(0, i as int));
        }
        if !seen {
            n = n + 1;
        }
        i = i + 1;
    }
    assert(ids@.subrange(0, i as int) =~= ids@);
    n
}

/// The shard ids of the nodes of a pipeline.
pub open spec fn ids_of(p: Seq<ShardAnnouncement>) -> Seq<u32> {
    p.map_values(|a: ShardAnnouncement| a.shard_id)
}

/// The nodes of the pipeline that have their shard loaded.
pub open spec fn loaded_nodes(p: Seq<ShardAnnouncement>) -> Seq<ShardAnnouncement> {
    p.filter(|a: ShardAnnouncement| a.capabilities.shard_loaded)
}

/// The numbers of shards online and of shards loaded in pipeline `p`:
/// the different shard ids of its nodes, and of its nodes that have their
/// shard loaded.
pub fn shard_counts(p: &Vec<ShardAnnouncement>) -> (r: (usize, usize))
    ensures
        r.0 == distinct_count(ids_of(p@)),
        r.1 == distinct_count(ids_of(loaded_nodes(p@))),
{
    let ghost pred = |a: ShardAnnouncement| a.capabilities.shard_loaded;
    let mut all: Vec<u32> = Vec::new();
    let mut with_loaded: Vec<u32> = Vec::new();
    let mut i: usize = 0;
    while i < p.len()
        invariant
            i <= p@.len(),
            all@ == ids_of(p@.subrange(0, i as int)),
            with_loaded@ == ids_of(p@.subrange(0, i as int).filter(pred)),
            pred == (|a: ShardAnnouncement| a.capabilities.shard_loaded),
        decreases p.len() - i,
    {
        proof {
            crate::kademlia_shard_discovery::lemma_filter_step(p@, i as int, pred);
            assert(ids_of(p@.subrange(0, i + 1)) =~= ids_of(p@.subrange(0, i as int)).push(p@[i as int].shard_id));
            assert(ids_of(p@.subrange(0, i as int).filter(pred).push(p@[i as int])) =~= ids_of(
                p@.subrange(0, i as int).filter(pred),
            ).push(p@[i as int].shard_id));
        }
        all.push(p[i].shard_id);
        if p[i].capabilities.shard_loaded {
            with_loaded.push(p[i].shard_id);
        }
        i = i + 1;
    }
    assert(p@.subrange(0, i as int) =~= p@);
    (count_distinct(&all), count_distinct(&with_loaded))
}

/// Whether the pipeline is ready: complete, with every shard loaded.
pub fn pipeline_ready(complete: bool, loaded_count: usize, total: u32) -> (r: bool)
    ensures
        r == (complete && loaded_count == total),
{
    complete && loaded_count == total as usize
}

/// The width of a progress bar.
pub const BAR_WIDTH: usize = 20;

/// A progress bar for `pct` percent: `filled` full cells then empty ones,
/// twenty in all.
pub open spec fn bar_spec(filled: nat) -> Seq<char> {
    Seq::new(BAR_WIDTH as nat, |i: int| if i < filled { '█' } else { '░' })
}

/// The full cells of a bar for `pct` percent: a twentieth per five
/// percent, at most twenty.
pub open spec fn filled_cells(pct: u32) -> nat {
    if pct as nat * BAR_WIDTH as nat / 100 <= BAR_WIDTH as nat {
        pct as nat * BAR_WIDTH as nat / 100
    } else {
        BAR_WIDTH as nat
    }
}

/// The progress bar of a download at `pct` percent.
pub fn progress_bar(pct: u32) -> (r: String)
    ensures
        r@ == bar_spec(filled_cells(pct)),
{
    let raw: u64 = pct as u64 * 20 / 100;
    let filled: usize = if raw <= 20 {
        raw as usize
    } else {
        BAR_WIDTH
    };
    let mut s = String::new();
    let mut i: usize = 0;
    while i < BAR_WIDTH
        invariant
            i <= BAR_WIDTH,
            filled == filled_cells(pct),
            s@ == bar_spec(filled as nat).subrange(0, i as int),
        decreases BAR_WIDTH - i,
    {
        let ghost before = s@;
        if i < filled {
            push_char(&mut s, '█');
        } else {
            push_char(&mut s, '░');
        }
        proof {
            assert(s@ =~= bar_spec(filled as nat).subrange(0, i + 1));
        }
        i = i + 1;
    }
    proof {
        assert(s@ =~= bar_spec(filled as nat));
    }
    s
}

} // verus!
