//! The coordinator node's decisions: reading the bootstrap address, how
//! long to wait for the bootstrap and for the shards, which shard records to
//! look up, and which waiting request a response answers.
use vstd::prelude::*;
use vstd::string::*;
use crate::dht_keys::{shard_key, shard_key_spec};
use crate::keyed::{entries_map, find_key, lemma_entries_len, lemma_entries_push, lemma_entries_remove, lemma_entries_update, lemma_entries_value, unique_keys};
use crate::text::{split_char, split_spec, str_eq};

verus! {

/// The message of a bootstrap address that cannot be read.
pub const INVALID_MULTIADDR: &'static str = "Invalid multiaddr format";

/// The host and port of a bootstrap address `/ip4/HOST/tcp/PORT` or
/// `/ip4/HOST/udp/PORT/...`: the third and fifth `/`-separated pieces, when
/// the fourth is `tcp` or `udp` and there is a fifth.
pub open spec fn bootstrap_target_spec(addr: Seq<char>) -> Option<(Seq<char>, Seq<char>)> {
    let parts = split_spec(addr, '/');
    if parts.len() >= 5 && (parts[3] == "tcp"@ || parts[3] == "udp"@) {
        Some((parts[2], parts[4]))
    } else {
        None
    }
}

/// The host and port to resolve for a bootstrap address, or the error
/// `Invalid multiaddr format`.
pub fn bootstrap_target(addr: &str) -> (r: Result<(String, String), String>)
    ensures
        match bootstrap_target_spec(addr@) {
            Some((host, port)) => r matches Ok((h, p)) && h@ == host && p@ == port,
            None => r matches Err(e) && e@ == INVALID_MULTIADDR@,
        },
{
    let parts = split_char(addr, '/');
    let ghost views = parts@.map_values(|p: String| p@);
    assert(views.len() == parts@.len());
    if parts.len() >= 5 && (str_eq(parts[3].as_str(), "tcp") || str_eq(parts[3].as_str(), "udp")) {
        proof {
            assert(views[2] == parts@[2]@);
            assert(views[3] == parts@[3]@);
            assert(views[4] == parts@[4]@);
        }
        Ok((parts[2].clone(), parts[4].clone()))
    } else {
        proof {
            if parts@.len() >= 5 {
                assert(views[3] == parts@[3]@);
            }
        }
        Err(String::from_str(INVALID_MULTIADDR))
    }
}

/// The QUIC address of a bootstrap node at `ip`, `port`.
pub open spec fn quic_bootstrap_spec(ip: Seq<char>, port: Seq<char>) -> Seq<char> {
    "/ip4/"@ + ip + "/udp/"@ + port + "/quic-v1"@
}

/// The TCP address of a bootstrap node at `ip`, `port`.
pub open spec fn tcp_bootstrap_spec(ip: Seq<char>, port: Seq<char>) -> Seq<char> {
    "/ip4/"@ + ip + "/tcp/"@ + port
}

/// The QUIC and TCP addresses of a bootstrap node whose host resolved to
/// `ip`.
pub fn bootstrap_addresses(ip: &str, port: &str) -> (r: (String, String))
    ensures
        r.0@ == quic_bootstrap_spec(ip@, port@),
        r.1@ == tcp_bootstrap_spec(ip@, port@),
{
    let mut q = String::from_str("/ip4/");
    q.append(ip);
    q.append("/udp/");
    q.append(port);
    q.append("/quic-v1");
    let mut t = String::from_str("/ip4/");
    t.append(ip);
    t.append("/tcp/");
    t.append(port);
    (q, t)
}

/// How many half-second checks the coordinator waits for the bootstrap.
pub const BOOTSTRAP_CHECKS: u32 = 120;

/// How many two-second checks the coordinator waits for the shards.
pub const SHARD_CHECKS: u32 = 60;

/// What a check of a wait decides.
#[derive(Debug, Clone, Copy, PartialEq, Eq, Structural)]
pub enum WaitStep {
    /// What was waited for is there.
    Ready,
    /// Check again; the number of checks that failed so far.
    Again(u32),
    /// Too many checks failed.
    TimedOut,
}

/// The check after `attempts` failed checks, with at most `limit` failed
/// checks allowed: ready when `done`, else one more failure, which times out
/// past the limit.
pub open spec fn wait_step_spec(attempts: u32, done: bool, limit: u32) -> WaitStep {
    if done {
        WaitStep::Ready
    } else if attempts + 1 > limit {
        WaitStep::TimedOut
    } else {
        WaitStep::Again((attempts + 1) as u32)
    }
}

/// A check of the wait for the bootstrap. Returns the step and whether to
/// report that it is still waiting (every tenth failed check).
pub fn bootstrap_wait_step(attempts: u32, bootstrapped: bool) -> (r: (WaitStep, bool))
    requires
        attempts <= BOOTSTRAP_CHECKS,
    ensures
        r.0 == wait_step_spec(attempts, bootstrapped, BOOTSTRAP_CHECKS),
        r.1 == (!bootstrapped && attempts > 0 && attempts % 10 == 0),
{
    if bootstrapped {
        return (WaitStep::Ready, false);
    }
    let report = attempts > 0 && attempts % 10 == 0;
    let next = attempts + 1;
    if next > BOOTSTRAP_CHECKS {
        (WaitStep::TimedOut, report)
    } else {
        (WaitStep::Again(next), report)
    }
}

/// A check of the wait for the shards: ready when the pipeline is complete
/// and every shard is loaded.
pub fn shard_wait_step(attempts: u32, complete: bool, all_loaded: bool) -> (r: WaitStep)
    requires
        attempts <= SHARD_CHECKS,
    ensures
        r == wait_step_spec(attempts, complete && all_loaded, SHARD_CHECKS),
{
    if complete && all_loaded {
        return WaitStep::Ready;
    }
    let next = attempts + 1;
    if next > SHARD_CHECKS {
        WaitStep::TimedOut
    } else {
        WaitStep::Again(next)
    }
}

/// Law: a wait ends. Starting from no failed check, `limit + 1` failed
/// checks in a row time the wait out, and no earlier one does.
pub proof fn lemma_wait_ends(attempts: u32, limit: u32)
    requires
        attempts <= limit,
        limit < u32::MAX,
    ensures
        (wait_step_spec(attempts, false, limit) == WaitStep::TimedOut) == (attempts == limit),
        attempts < limit ==> wait_step_spec(attempts, false, limit) == WaitStep::Again((attempts + 1) as u32),
{
}

/// The number of shards the coordinator looks up.
pub const QUERIED_SHARDS: u32 = 4;

/// The record keys to look up in one round, and the delay in milliseconds
/// before the next round: once bootstrapped, the keys of shards 0 to 3 and
/// five seconds; before, none and a tenth of a second.
pub fn shard_query_round(cluster: &str, bootstrapped: bool) -> (r: (Vec<String>, u64))
    ensures
        bootstrapped ==> r.0@.len() == QUERIED_SHARDS && r.1 == 5000 && forall|i: int|
            0 <= i < QUERIED_SHARDS ==> (#[trigger] r.0@[i])@ == shard_key_spec(cluster@, i as u32),
        !bootstrapped ==> r.0@.len() == 0 && r.1 == 100,
{
    let mut keys: Vec<String> = Vec::new();
    if !bootstrapped {
        return (keys, 100);
    }
    let mut id: u32 = 0;
    while id < QUERIED_SHARDS
        invariant
            id <= QUERIED_SHARDS,
            keys@.len() == id,
            forall|i: int| 0 <= i < id ==> (#[trigger] keys@[i])@ == shard_key_spec(cluster@, i as u32),
        decreases QUERIED_SHARDS - id,
    {
        keys.push(shard_key(cluster, id));
        id = id + 1;
    }
    (keys, 5000)
}

/// The requests that wait for a response, by request id, each with the
/// slot its response is handed to.
pub struct PendingRequests {
    entries: Vec<(String, u64)>,
}

impl PendingRequests {
    /// The waiting requests: request id to slot.
    pub closed spec fn waiting(&self) -> Map<Seq<char>, u64> {
        entries_map(self.entries@)
    }

    pub closed spec fn wf(&self) -> bool {
        unique_keys(self.entries@)
    }

    /// No request waits.
    pub fn new() -> (r: PendingRequests)
        ensures
            r.wf(),
            r.waiting() == Map::<Seq<char>, u64>::empty(),
    {
        let r = PendingRequests { entries: Vec::new() };
        assert(r.waiting() =~= Map::<Seq<char>, u64>::empty());
        r
    }

    /// The number of waiting requests.
    pub fn len(&self) -> (r: usize)
        requires
            self.wf(),
        ensures
            r == self.waiting().len(),
    {
        proof {
            lemma_entries_len(self.entries@);
        }
        self.entries.len()
    }

    /// A request now waits for its response in `slot` (replacing an
    /// earlier wait of the same id).
    pub fn insert(&mut self, request_id: &str, slot: u64)
        requires
            old(self).wf(),
        ensures
            final(self).wf(),
            final(self).waiting() == old(self).waiting().insert(request_id@, slot),
    {
        let key = String::from_str(request_id);
        match find_key(&self.entries, request_id) {
            Some(i) => {
                proof {
                    lemma_entries_update(self.entries@, i as int, (key, slot));
                }
                self.entries.set(i, (key, slot));
            },
            None => {
                proof {
                    lemma_entries_push(self.entries@, (key, slot));
                }
                self.entries.push((key, slot));
            },
        }
    }

    /// A response with request id `request_id` came: the slot of the
    /// request it answers, which stops waiting; none if no request waits
    /// under that id.
    pub fn take(&mut self, request_id: &str) -> (r: Option<u64>)
        requires
            old(self).wf(),
        ensures
            final(self).wf(),
            r == (if old(self).waiting().dom().contains(request_id@) {
                Some(old(self).waiting()[request_id@])
            } else {
                None::<u64>
            }),
            final(self).waiting() == old(self).waiting().remove(request_id@),
    {
        match find_key(&self.entries, request_id) {
            Some(i) => {
                proof {
                    lemma_entries_value(self.entries@, i as int);
                    lemma_entries_remove(self.entries@, i as int);
                }
                let (_, slot) = self.entries.remove(i);
                Some(slot)
            },
            None => {
                proof {
                    assert(self.waiting().remove(request_id@) =~= self.waiting());
                }
                None
            },
        }
    }
}

/// Law: a response reaches the request that waits for it once. Right after
/// a request waits in `slot`, taking its id gives `slot` and leaves the
/// other waits as they were; taking it again gives nothing.
pub proof fn lemma_take_after_insert(waiting: Map<Seq<char>, u64>, request_id: Seq<char>, slot: u64)
    ensures
        waiting.insert(request_id, slot).dom().contains(request_id),
        waiting.insert(request_id, slot)[request_id] == slot,
        waiting.insert(request_id, slot).remove(request_id) == waiting.remove(request_id),
        !waiting.insert(request_id, slot).remove(request_id).dom().contains(request_id),
{
    assert(waiting.insert(request_id, slot).remove(request_id) =~= waiting.remove(request_id));
}

} // verus!
