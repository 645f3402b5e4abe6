//! The network monitor's bookkeeping: the nodes seen, the log of
//! connections, and the counters shown on the dashboard.
use vstd::prelude::*;
use vstd::string::*;
use crate::kademlia_shard_discovery::lemma_filter_step;
use crate::keyed::{entries_map, find_key, lemma_entries_len, lemma_entries_push, lemma_entries_update, lemma_entries_value, unique_keys};

verus! {

/// The namespace under which the monitor counts every node.
pub const TEST_NAMESPACE: &'static str = "intensive-test";

/// How far back, in seconds, message times count toward the message rate.
pub const RATE_WINDOW_SECS: u64 = 10;

/// What the monitor knows of a node.
#[derive(Debug)]
pub struct NodeInfo {
    pub peer_id: String,
    pub first_seen: u64,
    pub last_seen: u64,
    pub connection_count: u32,
    pub addresses: Vec<String>,
    pub agent: Option<String>,
    pub protocol: Option<String>,
    pub namespace: Option<String>,
}

/// A node as plain values.
pub struct NodeView {
    pub peer_id: Seq<char>,
    pub first_seen: u64,
    pub last_seen: u64,
    pub connection_count: u32,
    pub addresses: Seq<Seq<char>>,
    pub agent: Option<Seq<char>>,
    pub protocol: Option<Seq<char>>,
    pub namespace: Option<Seq<char>>,
}

pub open spec fn opt_string_view(o: Option<String>) -> Option<Seq<char>> {
    match o {
        Some(s) => Some(s@),
        None => None,
    }
}

impl View for NodeInfo {
    type V = NodeView;

    open spec fn view(&self) -> NodeView {
        NodeView {
            peer_id: self.peer_id@,
            first_seen: self.first_seen,
            last_seen: self.last_seen,
            connection_count: self.connection_count,
            addresses: self.addresses@.map_values(|a: String| a@),
            agent: opt_string_view(self.agent),
            protocol: opt_string_view(self.protocol),
            namespace: opt_string_view(self.namespace),
        }
    }
}

/// A connection or disconnection in the monitor's log.
#[derive(Debug)]
pub struct ConnectionEvent {
    pub timestamp: u64,
    /// "connected" or "disconnected"
    pub event_type: String,
    pub peer_id: String,
    /// "inbound", "outbound" or "unknown"
    pub direction: String,
}

/// A logged event as plain values: time, kind, peer and direction.
pub open spec fn event_view(e: ConnectionEvent) -> (u64, Seq<char>, Seq<char>, Seq<char>) {
    (e.timestamp, e.event_type@, e.peer_id@, e.direction@)
}

/// The dashboard's counters.
#[derive(Debug, Clone, Copy, PartialEq, Eq, Structural)]
pub struct NetworkCounters {
    pub total_nodes: usize,
    pub active_connections: usize,
    pub total_connections: u64,
    pub dht_records: usize,
    pub uptime_seconds: u64,
    pub messages_sent: u64,
    pub messages_received: u64,
    pub bytes_sent: u64,
    pub bytes_received: u64,
    pub message_errors: u64,
    pub timeout_errors: u64,
}

/// The monitor's view of the network.
pub struct NetworkState {
    bootstrap_peer_id: String,
    nodes: Vec<(String, NodeInfo)>,
    connections: Vec<ConnectionEvent>,
    counters: NetworkCounters,
    namespaces: Vec<(String, usize)>,
    active_connection_count: usize,
    message_timestamps: Vec<u64>,
}

impl NetworkState {
    /// The nodes seen, by peer id.
    pub closed spec fn nodes(&self) -> Map<Seq<char>, NodeInfo> {
        entries_map(self.nodes@)
    }

    /// The node count of each namespace.
    pub closed spec fn namespaces(&self) -> Map<Seq<char>, usize> {
        entries_map(self.namespaces@)
    }

    /// The peer id of the monitor itself.
    pub closed spec fn bootstrap(&self) -> Seq<char> {
        self.bootstrap_peer_id@
    }

    /// The log of connections and disconnections, oldest first.
    pub closed spec fn log(&self) -> Seq<ConnectionEvent> {
        self.connections@
    }

    /// The dashboard's counters.
    pub closed spec fn counts(&self) -> NetworkCounters {
        self.counters
    }

    /// The connections open now.
    pub closed spec fn active(&self) -> usize {
        self.active_connection_count
    }

    /// The times of the messages counted toward the message rate.
    pub closed spec fn message_times(&self) -> Seq<u64> {
        self.message_timestamps@
    }

    /// Each peer and each namespace occurs once, and each node is filed
    /// under its own peer id.
    pub closed spec fn wf(&self) -> bool {
        &&& unique_keys(self.nodes@)
        &&& unique_keys(self.namespaces@)
        &&& forall|i: int| 0 <= i < self.nodes@.len() ==> (#[trigger] self.nodes@[i]).0@ == self.nodes@[i].1.peer_id@
    }

    /// A monitor that has seen nothing yet.
    pub fn new(bootstrap_peer_id: &str) -> (r: NetworkState)
        ensures
            r.wf(),
            r.bootstrap() == bootstrap_peer_id@,
            r.nodes() == Map::<Seq<char>, NodeInfo>::empty(),
            r.namespaces() == Map::<Seq<char>, usize>::empty(),
            r.log().len() == 0,
            r.active() == 0,
            r.message_times().len() == 0,
            r.counts() == (NetworkCounters {
                total_nodes: 0,
                active_connections: 0,
                total_connections: 0,
                dht_records: 0,
                uptime_seconds: 0,
                messages_sent: 0,
                messages_received: 0,
                bytes_sent: 0,
                bytes_received: 0,
                message_errors: 0,
                timeout_errors: 0,
            }),
    {
        let r = NetworkState {
            bootstrap_peer_id: String::from_str(bootstrap_peer_id),
            nodes: Vec::new(),
            connections: Vec::new(),
            counters: NetworkCounters {
                total_nodes: 0,
                active_connections: 0,
                total_connections: 0,
                dht_records: 0,
                uptime_seconds: 0,
                messages_sent: 0,
                messages_received: 0,
                bytes_sent: 0,
                bytes_received: 0,
                message_errors: 0,
                timeout_errors: 0,
            },
            namespaces: Vec::new(),
            active_connection_count: 0,
            message_timestamps: Vec::new(),
        };
        assert(r.nodes() =~= Map::<Seq<char>, NodeInfo>::empty());
        assert(r.namespaces() =~= Map::<Seq<char>, usize>::empty());
        r
    }

    /// The peer id of the monitor itself.
    pub fn bootstrap_peer_id(&self) -> (r: &str)
        ensures
            r@ == self.bootstrap(),
    {
        self.bootstrap_peer_id.as_str()
    }

    /// The log of connections and disconnections, oldest first.
    pub fn connections(&self) -> (r: &Vec<ConnectionEvent>)
        ensures
            r@ == self.log(),
    {
        &self.connections
    }

    /// The dashboard's counters.
    pub fn counters(&self) -> (r: NetworkCounters)
        ensures
            r == self.counts(),
    {
        self.counters
    }

    /// The number of nodes seen.
    pub fn node_count(&self) -> (r: usize)
        requires
            self.wf(),
        ensures
            r == self.nodes().len(),
    {
        proof {
            lemma_entries_len(self.nodes@);
        }
        self.nodes.len()
    }

    /// The node with peer id `peer_id`, if it was seen.
    pub fn node(&self, peer_id: &str) -> (r: Option<&NodeInfo>)
        requires
            self.wf(),
        ensures
            r is Some <==> self.nodes().dom().contains(peer_id@),
            r is Some ==> *r->0 == self.nodes()[peer_id@],
    {
        match find_key(&self.nodes, peer_id) {
            Some(i) => {
                proof {
                    lemma_entries_value(self.nodes@, i as int);
                }
                Some(&self.nodes[i].1)
            },
            None => None,
        }
    }

    /// The peer ids of the nodes seen, each once.
    pub fn node_ids(&self) -> (r: Vec<String>)
        requires
            self.wf(),
        ensures
            r@.len() == self.nodes().len(),
            forall|i: int| 0 <= i < r@.len() ==> self.nodes().dom().contains(#[trigger] r@[i]@),
            forall|p: Seq<char>|
                self.nodes().dom().contains(p) ==> exists|i: int| 0 <= i < r@.len() && (#[trigger] r@[i])@ == p,
    {
        proof {
            lemma_entries_len(self.nodes@);
        }
        let mut out: Vec<String> = Vec::new();
        let mut i: usize = 0;
        while i < self.nodes.len()
            invariant
                self.wf(),
                i <= self.nodes@.len(),
                out@.len() == i,
                forall|j: int| 0 <= j < i ==> (#[trigger] out@[j])@ == self.nodes@[j].0@,
            decreases self.nodes.len() - i,
        {
            out.push(self.nodes[i].0.clone());
            i = i + 1;
        }
        proof {
            assert forall|j: int| 0 <= j < out@.len() implies self.nodes().dom().contains(#[trigger] out@[j]@) by {
                lemma_entries_value(self.nodes@, j);
            }
            assert forall|p: Seq<char>| self.nodes().dom().contains(p) implies exists|j: int|
                0 <= j < out@.len() && (#[trigger] out@[j])@ == p by {
                crate::keyed::lemma_entries_dom(self.nodes@, p);
                let j = choose|j: int| 0 <= j < self.nodes@.len() && (#[trigger] self.nodes@[j]).0@ == p;
                assert(out@[j]@ == p);
            }
        }
        out
    }

    /// The node count of a namespace.
    pub fn namespace_count(&self, namespace: &str) -> (r: Option<usize>)
        requires
            self.wf(),
        ensures
            r is Some <==> self.namespaces().dom().contains(namespace@),
            r is Some ==> r->0 == self.namespaces()[namespace@],
    {
        match find_key(&self.namespaces, namespace) {
            Some(i) => {
                proof {
                    lemma_entries_value(self.namespaces@, i as int);
                }
                Some(self.namespaces[i].1)
            },
            None => None,
        }
    }

    /// Whether a connection of `peer_id` can be counted without a counter
    /// overflowing.
    pub open spec fn can_count_connection(&self, peer_id: Seq<char>) -> bool {
        &&& self.nodes().dom().contains(peer_id) ==> self.nodes()[peer_id].connection_count < u32::MAX
        &&& self.counts().total_connections < u64::MAX
        &&& self.active() < usize::MAX
        &&& self.nodes().len() < usize::MAX
    }

    fn set_namespace_count(&mut self, namespace: &str, count: usize)
        requires
            old(self).wf(),
        ensures
            final(self).wf(),
            final(self).namespaces() == old(self).namespaces().insert(namespace@, count),
            final(self).nodes() == old(self).nodes(),
            final(self).log() == old(self).log(),
            final(self).counts() == old(self).counts(),
            final(self).active() == old(self).active(),
            final(self).message_times() == old(self).message_times(),
            final(self).bootstrap() == old(self).bootstrap(),
    {
        match find_key(&self.namespaces, namespace) {
            Some(i) => {
                let key = String::from_str(namespace);
                proof {
                    lemma_entries_update(self.namespaces@, i as int, (key, count));
                }
                self.namespaces.set(i, (key, count));
            },
            None => {
                let key = String::from_str(namespace);
                proof {
                    lemma_entries_push(self.namespaces@, (key, count));
                }
                self.namespaces.push((key, count));
            },
        }
    }

    /// A connection with `peer_id` was established at time `now`: the node
    /// is seen (first seen now if new, one more connection otherwise), the
    /// connection is logged with its direction, the connection counters
    /// grow by one, and the test namespace counts every node.
    pub fn on_connection_established(&mut self, peer_id: &str, is_dialer: bool, now: u64)
        requires
            old(self).wf(),
            old(self).can_count_connection(peer_id@),
        ensures
            final(self).wf(),
            final(self).nodes().dom() == old(self).nodes().dom().insert(peer_id@),
            forall|p: Seq<char>| #![auto] p != peer_id@ && old(self).nodes().dom().contains(p) ==> final(self).nodes()[p]
                == old(self).nodes()[p],
            ({
                let n = final(self).nodes()[peer_id@]@;
                if old(self).nodes().dom().contains(peer_id@) {
                    let o = old(self).nodes()[peer_id@]@;
                    n == NodeView { last_seen: now, connection_count: (o.connection_count + 1) as u32, ..o }
                } else {
                    &&& n.peer_id == peer_id@
                    &&& n.first_seen == now
                    &&& n.last_seen == now
                    &&& n.connection_count == 1
                    &&& n.addresses.len() == 0
                    &&& n.agent is None
                    &&& n.protocol is None
                    &&& n.namespace is None
                }
            }),
            final(self).log().len() == old(self).log().len() + 1,
            forall|i: int| 0 <= i < old(self).log().len() ==> #[trigger] final(self).log()[i] == old(self).log()[i],
            event_view(final(self).log().last()) == (now, "connected"@, peer_id@, if is_dialer {
                "outbound"@
            } else {
                "inbound"@
            }),
            final(self).active() == old(self).active() + 1,
            final(self).counts() == (NetworkCounters {
                total_connections: (old(self).counts().total_connections + 1) as u64,
                active_connections: final(self).active(),
                total_nodes: if old(self).nodes().dom().contains(peer_id@) {
                    old(self).counts().total_nodes
                } else {
                    final(self).nodes().len() as usize
                },
                ..old(self).counts()
            }),
            final(self).namespaces() == old(self).namespaces().insert(TEST_NAMESPACE@, final(self).nodes().len() as usize),
            final(self).message_times() == old(self).message_times(),
            final(self).bootstrap() == old(self).bootstrap(),
    {
        let ghost old_nodes = self.nodes();
        let is_new: bool;
        match find_key(&self.nodes, peer_id) {
            Some(i) => {
                is_new = false;
                proof {
                    lemma_entries_value(self.nodes@, i as int);
                }
                let (key, mut node) = self.nodes.remove(i);
                node.last_seen = now;
                node.connection_count = node.connection_count + 1;
                proof {
                    assert(old(self).nodes@.remove(i as int).insert(i as int, (key, node)) =~= old(
                        self,
                    ).nodes@.update(i as int, (key, node)));
                    lemma_entries_update(old(self).nodes@, i as int, (key, node));
                }
                self.nodes.insert(i, (key, node));
                proof {
                    assert(self.nodes@ =~= old(self).nodes@.update(i as int, (key, node)));
                    assert(self.nodes() =~= old_nodes.insert(peer_id@, node));
                }
            },
            None => {
                is_new = true;
                let node = NodeInfo {
                    peer_id: String::from_str(peer_id),
                    first_seen: now,
                    last_seen: now,
                    connection_count: 1,
                    addresses: Vec::new(),
                    agent: None,
                    protocol: None,
                    namespace: None,
                };
                let key = String::from_str(peer_id);
                proof {
                    lemma_entries_push(self.nodes@, (key, node));
                    assert(node@.addresses =~= Seq::<Seq<char>>::empty());
                }
                self.nodes.push((key, node));
            },
        }
        let direction = if is_dialer {
            String::from_str("outbound")
        } else {
            String::from_str("inbound")
        };
        self.connections.push(
            ConnectionEvent {
                timestamp: now,
                event_type: String::from_str("connected"),
                peer_id: String::from_str(peer_id),
                direction,
            },
        );
        self.counters.total_connections = self.counters.total_connections + 1;
        self.active_connection_count = self.active_connection_count + 1;
        self.counters.active_connections = self.active_connection_count;
        proof {
            lemma_entries_len(self.nodes@);
        }
        if is_new {
            self.counters.total_nodes = self.nodes.len();
        }
        let node_count = self.nodes.len();
        if node_count > 0 {
            self.set_namespace_count(TEST_NAMESPACE, node_count);
        }
        proof {
            assert(self.nodes().dom() =~= old_nodes.dom().insert(peer_id@));
        }
    }

    /// A connection with `peer_id` closed at time `now`: the disconnection
    /// is logged and the open-connection count drops by one (never below
    /// zero).
    pub fn on_connection_closed(&mut self, peer_id: &str, now: u64)
        requires
            old(self).wf(),
        ensures
            final(self).wf(),
            final(self).nodes() == old(self).nodes(),
            final(self).namespaces() == old(self).namespaces(),
            final(self).log().len() == old(self).log().len() + 1,
            forall|i: int| 0 <= i < old(self).log().len() ==> #[trigger] final(self).log()[i] == old(self).log()[i],
            event_view(final(self).log().last()) == (now, "disconnected"@, peer_id@, "unknown"@),
            final(self).active() == if old(self).active() > 0 {
                old(self).active() - 1
            } else {
                0
            },
            final(self).counts() == (NetworkCounters {
                active_connections: final(self).active(),
                ..old(self).counts()
            }),
            final(self).message_times() == old(self).message_times(),
            final(self).bootstrap() == old(self).bootstrap(),
    {
        self.connections.push(
            ConnectionEvent {
                timestamp: now,
                event_type: String::from_str("disconnected"),
                peer_id: String::from_str(peer_id),
                direction: String::from_str("unknown"),
            },
        );
        if self.active_connection_count > 0 {
            self.active_connection_count = self.active_connection_count - 1;
        }
        self.counters.active_connections = self.active_connection_count;
    }

    /// A DHT record was found or stored.
    pub fn on_dht_record(&mut self)
        requires
            old(self).counts().dht_records < usize::MAX,
        ensures
            final(self).counts() == (NetworkCounters {
                dht_records: (old(self).counts().dht_records + 1) as usize,
                ..old(self).counts()
            }),
            final(self).nodes() == old(self).nodes(),
            final(self).namespaces() == old(self).namespaces(),
            final(self).log() == old(self).log(),
            final(self).active() == old(self).active(),
            final(self).message_times() == old(self).message_times(),
            final(self).wf() == old(self).wf(),
    {
        self.counters.dht_records = self.counters.dht_records + 1;
    }

    /// A node identified itself: a node already seen takes its agent and
    /// protocol, and its first listen address, if any, is added to its
    /// addresses. Unknown peers are ignored.
    pub fn on_identify(&mut self, peer_id: &str, agent: &str, protocol: &str, first_listen_addr: Option<&str>)
        requires
            old(self).wf(),
        ensures
            final(self).wf(),
            final(self).nodes().dom() == old(self).nodes().dom(),
            forall|p: Seq<char>| #![auto] p != peer_id@ && old(self).nodes().dom().contains(p) ==> final(self).nodes()[p]
                == old(self).nodes()[p],
            old(self).nodes().dom().contains(peer_id@) ==> {
                let o = old(self).nodes()[peer_id@]@;
                final(self).nodes()[peer_id@]@ == NodeView {
                    agent: Some(agent@),
                    protocol: Some(protocol@),
                    addresses: match first_listen_addr {
                        Some(a) => o.addresses.push(a@),
                        None => o.addresses,
                    },
                    ..o
                }
            },
            !old(self).nodes().dom().contains(peer_id@) ==> final(self).nodes() == old(self).nodes(),
            final(self).namespaces() == old(self).namespaces(),
            final(self).log() == old(self).log(),
            final(self).counts() == old(self).counts(),
            final(self).active() == old(self).active(),
            final(self).message_times() == old(self).message_times(),
            final(self).bootstrap() == old(self).bootstrap(),
    {
        let ghost old_nodes = self.nodes();
        match find_key(&self.nodes, peer_id) {
            Some(i) => {
                proof {
                    lemma_entries_value(self.nodes@, i as int);
                }
                let (key, mut node) = self.nodes.remove(i);
                let ghost before = node@;
                node.agent = Some(String::from_str(agent));
                node.protocol = Some(String::from_str(protocol));
                match first_listen_addr {
                    Some(a) => {
                        node.addresses.push(String::from_str(a));
                        proof {
                            assert(node@.addresses =~= before.addresses.push(a@));
                        }
                    },
                    None => {},
                }
                proof {
                    assert(old(self).nodes@.remove(i as int).insert(i as int, (key, node)) =~= old(
                        self,
                    ).nodes@.update(i as int, (key, node)));
                    lemma_entries_update(old(self).nodes@, i as int, (key, node));
                }
                self.nodes.insert(i, (key, node));
                proof {
                    assert(self.nodes@ =~= old(self).nodes@.update(i as int, (key, node)));
                    assert(self.nodes() =~= old_nodes.insert(peer_id@, node));
                    assert(self.nodes().dom() =~= old_nodes.dom());
                }
            },
            None => {},
        }
    }

    /// Counts a message exchanged at time `t` toward the message rate.
    pub fn record_message_time(&mut self, t: u64)
        ensures
            final(self).message_times() == old(self).message_times().push(t),
            final(self).nodes() == old(self).nodes(),
            final(self).namespaces() == old(self).namespaces(),
            final(self).log() == old(self).log(),
            final(self).counts() == old(self).counts(),
            final(self).active() == old(self).active(),
            final(self).wf() == old(self).wf(),
    {
        self.message_timestamps.push(t);
    }

    /// The periodic refresh at time `now` of a monitor started at
    /// `start_time`: the uptime, the open connections and the node count are
    /// brought up to date, and only the message times of the last
    /// `RATE_WINDOW_SECS` seconds are kept. Returns how many remain (the
    /// message rate is that count over the window).
    pub fn refresh(&mut self, now: u64, start_time: u64) -> (r: usize)
        requires
            old(self).wf(),
            start_time <= now,
        ensures
            final(self).wf(),
            final(self).counts() == (NetworkCounters {
                uptime_seconds: (now - start_time) as u64,
                active_connections: old(self).active(),
                total_nodes: old(self).nodes().len() as usize,
                ..old(self).counts()
            }),
            final(self).message_times() == old(self).message_times().filter(
                |t: u64| t >= if now >= RATE_WINDOW_SECS { now - RATE_WINDOW_SECS } else { 0 },
            ),
            r == final(self).message_times().len(),
            final(self).nodes() == old(self).nodes(),
            final(self).namespaces() == old(self).namespaces(),
            final(self).log() == old(self).log(),
            final(self).active() == old(self).active(),
            final(self).bootstrap() == old(self).bootstrap(),
    {
        self.counters.uptime_seconds = now - start_time;
        self.counters.active_connections = self.active_connection_count;
        proof {
            lemma_entries_len(self.nodes@);
        }
        self.counters.total_nodes = self.nodes.len();
        let cutoff = now.saturating_sub(RATE_WINDOW_SECS);
        let ghost pred = |t: u64| t >= cutoff;
        let mut kept: Vec<u64> = Vec::new();
        let mut i: usize = 0;
        while i < self.message_timestamps.len()
            invariant
                i <= self.message_timestamps@.len(),
                kept@ == self.message_timestamps@.subrange(0, i as int).filter(pred),
                pred == (|t: u64| t >= cutoff),
            decreases self.message_timestamps.len() - i,
        {
            let t = self.message_timestamps[i];
            proof {
                lemma_filter_step(self.message_timestamps@, i as int, pred);
            }
            if t >= cutoff {
                kept.push(t);
            }
            i = i + 1;
        }
        proof {
            assert(self.message_timestamps@.subrange(0, i as int) =~= self.message_timestamps@);
        }
        self.message_timestamps = kept;
        self.message_timestamps.len()
    }
}

} // verus!
