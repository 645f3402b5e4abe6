//! QUIC connection diagnostics: the bookkeeping of the rendezvous server's
//! protocol analyzer.
//!
//! Connections are tracked by the id `"{peer}_{remote address}"`. Every
//! recorded event goes to a bounded list of recent events (the oldest falls
//! out once the list is full), errors also go to a bounded error log, and
//! the statistics of a known connection follow each event.
//!
//! The running average of handshake durations is floating-point and is kept
//! by the caller: `record_connection_established` reports when an existing
//! connection took a new handshake duration into its statistics.
use vstd::prelude::*;
use vstd::string::*;
use crate::command_protocol::{now_secs, opt_str_view, opt_string_view};
use crate::keyed::{entries_map, unique_keys, lemma_entries_value, lemma_entries_update, lemma_entries_push, find_key};
use crate::text::{append_decimal, decimal, seq_contains, str_contains};

verus! {

/// How many events the recent-event list holds.
pub const MAX_RECENT_EVENTS: usize = 1000;

/// How many lines the error log holds.
pub const MAX_ERROR_LOG: usize = 500;

/// QUIC handshake stage.
#[derive(Debug, Clone, Copy, PartialEq, Eq, Structural)]
pub enum QuicHandshakeStage {
    /// Initial packet sent/received
    Initial,
    /// Handshake packet sent/received
    Handshake,
    /// 1-RTT packet (connection established)
    OneRtt,
    /// Handshake completed
    Completed,
    /// Handshake failed
    Failed,
}

impl Default for QuicHandshakeStage {
    fn default() -> (r: QuicHandshakeStage)
        ensures
            r == QuicHandshakeStage::Completed,
    {
        QuicHandshakeStage::Completed
    }
}

/// QUIC connection event type.
#[derive(Debug, Clone, Copy, PartialEq, Eq, Structural)]
pub enum QuicEventType {
    ConnectionAttempt,
    InitialSent,
    InitialReceived,
    HandshakeSent,
    HandshakeReceived,
    Established,
    Closed,
    Error,
    HandshakeTimeout,
    Migration,
    StreamOpened,
    StreamClosed,
}

/// One recorded QUIC connection event.
#[derive(Debug)]
pub struct QuicConnectionEvent {
    pub timestamp: u64,
    pub event_type: QuicEventType,
    pub peer_id: Option<String>,
    pub remote_addr: Option<String>,
    pub local_addr: Option<String>,
    pub handshake_stage: Option<QuicHandshakeStage>,
    pub error: Option<String>,
}

/// Statistics of one QUIC connection.
#[derive(Debug)]
pub struct QuicConnectionStats {
    pub peer_id: String,
    pub remote_addr: String,
    pub local_addr: String,
    pub established_at: Option<u64>,
    pub closed_at: Option<u64>,
    pub duration_ms: Option<u64>,
    pub handshake_duration_ms: Option<u64>,
    pub bytes_sent: u64,
    pub bytes_received: u64,
    pub packets_sent: u64,
    pub packets_received: u64,
    pub streams_opened: u64,
    pub streams_closed: u64,
    pub retransmissions: u64,
    pub handshake_stage: QuicHandshakeStage,
    pub error_count: u64,
    pub last_error: Option<String>,
    pub events: Vec<QuicConnectionEvent>,
}

/// The diagnostic state: counters, the connections by id, the recent events
/// (oldest first) and the error log (oldest first).
#[derive(Debug)]
pub struct QuicDiagnostics {
    pub total_connections: u64,
    pub active_connections: u64,
    pub failed_connections: u64,
    pub handshake_timeouts: u64,
    pub total_bytes_sent: u64,
    pub total_bytes_received: u64,
    pub total_packets_sent: u64,
    pub total_packets_received: u64,
    pub connections: Vec<(String, QuicConnectionStats)>,
    pub recent_events: Vec<QuicConnectionEvent>,
    pub error_log: Vec<String>,
}

/// The id under which a connection is tracked.
pub open spec fn conn_id(peer: Seq<char>, remote: Seq<char>) -> Seq<char> {
    peer + "_"@ + remote
}

pub open spec fn or_unknown(o: Option<Seq<char>>) -> Seq<char> {
    match o {
        Some(s) => s,
        None => "unknown"@,
    }
}

/// `s` with `x` appended, the first item dropped when that makes it longer
/// than `max`.
pub open spec fn bounded_push<T>(s: Seq<T>, x: T, max: nat) -> Seq<T> {
    if s.len() + 1 > max {
        s.push(x).drop_first()
    } else {
        s.push(x)
    }
}

/// The last `limit` items of `s`, newest first.
pub open spec fn newest_first<T>(s: Seq<T>, limit: nat) -> Seq<T> {
    let n = if limit < s.len() {
        limit
    } else {
        s.len()
    };
    Seq::new(n, |i: int| s[s.len() - 1 - i])
}

/// The event type recorded for a handshake stage.
pub open spec fn stage_event_type(stage: QuicHandshakeStage) -> QuicEventType {
    match stage {
        QuicHandshakeStage::Initial => QuicEventType::InitialReceived,
        QuicHandshakeStage::Handshake => QuicEventType::HandshakeReceived,
        QuicHandshakeStage::OneRtt => QuicEventType::Established,
        _ => QuicEventType::ConnectionAttempt,
    }
}

/// Whether `error` reads as a handshake timeout.
pub open spec fn is_timeout_error(error: Seq<char>) -> bool {
    seq_contains(error, "HandshakeTimedOut"@) || seq_contains(error, "timeout"@)
}

/// The error-log line for an error.
pub open spec fn error_line(now: u64, peer: Option<Seq<char>>, error: Seq<char>) -> Seq<char> {
    "["@ + decimal(now as nat) + "] "@ + or_unknown(peer) + ": "@ + error
}

/// The event's fields are the given ones.
pub open spec fn event_is(
    e: QuicConnectionEvent,
    timestamp: u64,
    event_type: QuicEventType,
    peer_id: Option<Seq<char>>,
    remote_addr: Option<Seq<char>>,
    local_addr: Option<Seq<char>>,
    handshake_stage: Option<QuicHandshakeStage>,
    error: Option<Seq<char>>,
) -> bool {
    &&& e.timestamp == timestamp
    &&& e.event_type == event_type
    &&& opt_string_view(e.peer_id) == peer_id
    &&& opt_string_view(e.remote_addr) == remote_addr
    &&& opt_string_view(e.local_addr) == local_addr
    &&& e.handshake_stage == handshake_stage
    &&& opt_string_view(e.error) == error
}

/// The statistics of a newly tracked connection.
pub open spec fn new_stats_is(
    s: QuicConnectionStats,
    peer_id: Seq<char>,
    remote_addr: Seq<char>,
    local_addr: Seq<char>,
    established_at: Option<u64>,
    handshake_duration_ms: Option<u64>,
    stage: QuicHandshakeStage,
    first_event: QuicConnectionEvent,
) -> bool {
    &&& s.peer_id@ == peer_id
    &&& s.remote_addr@ == remote_addr
    &&& s.local_addr@ == local_addr
    &&& s.established_at == established_at
    &&& s.closed_at is None
    &&& s.duration_ms is None
    &&& s.handshake_duration_ms == handshake_duration_ms
    &&& s.bytes_sent == 0
    &&& s.bytes_received == 0
    &&& s.packets_sent == 0
    &&& s.packets_received == 0
    &&& s.streams_opened == 0
    &&& s.streams_closed == 0
    &&& s.retransmissions == 0
    &&& s.handshake_stage == stage
    &&& s.error_count == 0
    &&& s.last_error is None
    &&& s.events@ == seq![first_event]
}

/// Two statistics records hold the same data.
pub open spec fn stats_same(a: QuicConnectionStats, b: QuicConnectionStats) -> bool {
    &&& a == QuicConnectionStats { events: a.events, ..b }
    &&& a.events@ == b.events@
}

impl QuicDiagnostics {
    /// The tracked connections, by id.
    pub open spec fn connection_map(&self) -> Map<Seq<char>, QuicConnectionStats> {
        entries_map(self.connections@)
    }

    /// The traffic totals and the counters that no event changes.
    pub open spec fn totals_same(&self, other: QuicDiagnostics) -> bool {
        &&& self.total_bytes_sent == other.total_bytes_sent
        &&& self.total_bytes_received == other.total_bytes_received
        &&& self.total_packets_sent == other.total_packets_sent
        &&& self.total_packets_received == other.total_packets_received
    }

    /// An empty state.
    pub fn new() -> (r: QuicDiagnostics)
        ensures
            r.total_connections == 0,
            r.active_connections == 0,
            r.failed_connections == 0,
            r.handshake_timeouts == 0,
            r.total_bytes_sent == 0,
            r.total_bytes_received == 0,
            r.total_packets_sent == 0,
            r.total_packets_received == 0,
            r.connections@.len() == 0,
            r.recent_events@.len() == 0,
            r.error_log@.len() == 0,
    {
        QuicDiagnostics {
            total_connections: 0,
            active_connections: 0,
            failed_connections: 0,
            handshake_timeouts: 0,
            total_bytes_sent: 0,
            total_bytes_received: 0,
            total_packets_sent: 0,
            total_packets_received: 0,
            connections: Vec::new(),
            recent_events: Vec::new(),
            error_log: Vec::new(),
        }
    }
}

/// Two states hold the same data.
pub open spec fn diagnostics_same(a: QuicDiagnostics, b: QuicDiagnostics) -> bool {
    &&& a == QuicDiagnostics { connections: a.connections, recent_events: a.recent_events, error_log: a.error_log, ..b }
    &&& a.connections@.len() == b.connections@.len()
    &&& forall|i: int|
        0 <= i < a.connections@.len() ==> (#[trigger] a.connections@[i]).0@ == b.connections@[i].0@
            && stats_same(a.connections@[i].1, b.connections@[i].1)
    &&& a.recent_events@ == b.recent_events@
    &&& a.error_log@.len() == b.error_log@.len()
    &&& forall|i: int| 0 <= i < a.error_log@.len() ==> (#[trigger] a.error_log@[i])@ == b.error_log@[i]@
}

fn opt_clone(o: &Option<String>) -> (r: Option<String>)
    ensures
        r == *o,
{
    match o {
        Some(s) => Some(s.clone()),
        None => None,
    }
}

fn opt_to_string(o: Option<&str>) -> (r: Option<String>)
    ensures
        opt_string_view(r) == opt_str_view(o),
{
    match o {
        Some(s) => Some(String::from_str(s)),
        None => None,
    }
}

fn or_unknown_string(o: Option<&str>) -> (r: String)
    ensures
        r@ == or_unknown(opt_str_view(o)),
{
    match o {
        Some(s) => String::from_str(s),
        None => String::from_str("unknown"),
    }
}

/// The tracking id of a connection.
fn make_conn_id(peer: &str, remote: &str) -> (r: String)
    ensures
        r@ == conn_id(peer@, remote@),
{
    let mut s = String::from_str(peer);
    s.append("_");
    s.append(remote);
    s
}

/// Appends `x`, dropping the first item when the list would exceed `max`.
fn push_bounded<T>(v: &mut Vec<T>, x: T, max: usize)
    requires
        max >= 1,
        old(v)@.len() <= max,
    ensures
        final(v)@ == bounded_push(old(v)@, x, max as nat),
        final(v)@.len() <= max,
{
    v.push(x);
    if v.len() > max {
        v.remove(0);
        assert(v@ =~= old(v)@.push(x).drop_first());
    }
}

impl QuicConnectionEvent {
    /// A copy of the event.
    pub fn duplicate(&self) -> (r: QuicConnectionEvent)
        ensures
            r == *self,
    {
        QuicConnectionEvent {
            timestamp: self.timestamp,
            event_type: self.event_type,
            peer_id: opt_clone(&self.peer_id),
            remote_addr: opt_clone(&self.remote_addr),
            local_addr: opt_clone(&self.local_addr),
            handshake_stage: self.handshake_stage,
            error: opt_clone(&self.error),
        }
    }
}

fn duplicate_events(v: &Vec<QuicConnectionEvent>) -> (r: Vec<QuicConnectionEvent>)
    ensures
        r@ == v@,
{
    let mut out: Vec<QuicConnectionEvent> = Vec::new();
    let mut i: usize = 0;
    while i < v.len()
        invariant
            i <= v@.len(),
            out@ == v@.subrange(0, i as int),
        decreases v.len() - i,
    {
        out.push(v[i].duplicate());
        i = i + 1;
        assert(out@ =~= v@.subrange(0, i as int));
    }
    assert(v@.subrange(0, v@.len() as int) =~= v@);
    out
}

impl QuicConnectionStats {
    /// A copy of the statistics.
    pub fn duplicate(&self) -> (r: QuicConnectionStats)
        ensures
            stats_same(r, *self),
    {
        QuicConnectionStats {
            peer_id: self.peer_id.clone(),
            remote_addr: self.remote_addr.clone(),
            local_addr: self.local_addr.clone(),
            established_at: self.established_at,
            closed_at: self.closed_at,
            duration_ms: self.duration_ms,
            handshake_duration_ms: self.handshake_duration_ms,
            bytes_sent: self.bytes_sent,
            bytes_received: self.bytes_received,
            packets_sent: self.packets_sent,
            packets_received: self.packets_received,
            streams_opened: self.streams_opened,
            streams_closed: self.streams_closed,
            retransmissions: self.retransmissions,
            handshake_stage: self.handshake_stage,
            error_count: self.error_count,
            last_error: opt_clone(&self.last_error),
            events: duplicate_events(&self.events),
        }
    }
}


/// The diagnostics manager: the state and the bounds of its two lists.
pub struct QuicDiagnosticsManager {
    state: QuicDiagnostics,
    max_events: usize,
    max_errors: usize,
}

/// The new event is the last of the recent events, which grew by it.
pub open spec fn event_logged(o: QuicDiagnostics, n: QuicDiagnostics) -> bool {
    n.recent_events@ == bounded_push(o.recent_events@, n.recent_events@.last(), MAX_RECENT_EVENTS as nat)
}

/// What recording a connection attempt does.
pub open spec fn attempt_post(
    o: QuicDiagnostics,
    n: QuicDiagnostics,
    peer_id: Option<Seq<char>>,
    remote_addr: Option<Seq<char>>,
    local_addr: Option<Seq<char>>,
    now: u64,
) -> bool {
    let ev = n.recent_events@.last();
    let id = conn_id(or_unknown(peer_id), or_unknown(remote_addr));
    &&& event_is(
        ev,
        now,
        QuicEventType::ConnectionAttempt,
        peer_id,
        remote_addr,
        local_addr,
        Some(QuicHandshakeStage::Initial),
        None,
    )
    &&& event_logged(o, n)
    &&& n.total_connections == o.total_connections + 1
    &&& n.active_connections == o.active_connections + 1
    &&& n.failed_connections == o.failed_connections
    &&& n.handshake_timeouts == o.handshake_timeouts
    &&& n.totals_same(o)
    &&& n.error_log@ == o.error_log@
    &&& n.connection_map() == o.connection_map().insert(id, n.connection_map()[id])
    &&& new_stats_is(
        n.connection_map()[id],
        or_unknown(peer_id),
        or_unknown(remote_addr),
        or_unknown(local_addr),
        None,
        None,
        QuicHandshakeStage::Initial,
        ev,
    )
}

/// What recording an established connection does; `updated` tells whether
/// the connection was tracked before.
pub open spec fn established_post(
    o: QuicDiagnostics,
    n: QuicDiagnostics,
    peer_id: Seq<char>,
    remote_addr: Seq<char>,
    local_addr: Option<Seq<char>>,
    handshake_duration_ms: Option<u64>,
    now: u64,
    updated: bool,
) -> bool {
    let ev = n.recent_events@.last();
    let id = conn_id(peer_id, remote_addr);
    let s = o.connection_map()[id];
    let t = n.connection_map()[id];
    &&& event_is(
        ev,
        now,
        QuicEventType::Established,
        Some(peer_id),
        Some(remote_addr),
        local_addr,
        Some(QuicHandshakeStage::Completed),
        None,
    )
    &&& event_logged(o, n)
    &&& n.total_connections == o.total_connections
    &&& n.active_connections == o.active_connections
    &&& n.failed_connections == o.failed_connections
    &&& n.handshake_timeouts == o.handshake_timeouts
    &&& n.totals_same(o)
    &&& n.error_log@ == o.error_log@
    &&& updated == o.connection_map().dom().contains(id)
    &&& n.connection_map() == o.connection_map().insert(id, t)
    &&& if updated {
        &&& t == QuicConnectionStats {
            established_at: Some(now),
            handshake_stage: QuicHandshakeStage::Completed,
            handshake_duration_ms,
            events: t.events,
            ..s
        }
        &&& t.events@ == s.events@.push(ev)
    } else {
        new_stats_is(
            t,
            peer_id,
            remote_addr,
            or_unknown(local_addr),
            Some(now),
            handshake_duration_ms,
            QuicHandshakeStage::Completed,
            ev,
        )
    }
}

/// What recording a connection error does.
pub open spec fn error_post(
    o: QuicDiagnostics,
    n: QuicDiagnostics,
    peer_id: Option<Seq<char>>,
    remote_addr: Option<Seq<char>>,
    error: Seq<char>,
    stage: Option<QuicHandshakeStage>,
    now: u64,
) -> bool {
    let ev = n.recent_events@.last();
    let id = conn_id(or_unknown(peer_id), or_unknown(remote_addr));
    let tracked_conn = peer_id is Some && remote_addr is Some && o.connection_map().dom().contains(id);
    let s = o.connection_map()[id];
    let t = n.connection_map()[id];
    &&& event_is(ev, now, QuicEventType::Error, peer_id, remote_addr, None, stage, Some(error))
    &&& event_logged(o, n)
    &&& n.total_connections == o.total_connections
    &&& n.active_connections == (if o.active_connections > 0 {
        o.active_connections - 1
    } else {
        0
    })
    &&& n.failed_connections == o.failed_connections + 1
    &&& n.handshake_timeouts == o.handshake_timeouts + (if is_timeout_error(error) {
        1int
    } else {
        0int
    })
    &&& n.totals_same(o)
    &&& n.error_log@.last()@ == error_line(now, peer_id, error)
    &&& n.error_log@ == bounded_push(o.error_log@, n.error_log@.last(), MAX_ERROR_LOG as nat)
    &&& if tracked_conn {
        &&& n.connection_map() == o.connection_map().insert(id, t)
        &&& t == QuicConnectionStats {
            error_count: (s.error_count + 1) as u64,
            last_error: t.last_error,
            handshake_stage: match stage {
                Some(x) => x,
                None => QuicHandshakeStage::Failed,
            },
            events: t.events,
            ..s
        }
        &&& opt_string_view(t.last_error) == Some(error)
        &&& t.events@ == s.events@.push(ev)
    } else {
        n.connection_map() == o.connection_map()
    }
}

/// What recording a closed connection does.
pub open spec fn closed_post(
    o: QuicDiagnostics,
    n: QuicDiagnostics,
    peer_id: Seq<char>,
    remote_addr: Seq<char>,
    cause: Option<Seq<char>>,
    now: u64,
) -> bool {
    let ev = n.recent_events@.last();
    let id = conn_id(peer_id, remote_addr);
    let s = o.connection_map()[id];
    let t = n.connection_map()[id];
    &&& event_is(ev, now, QuicEventType::Closed, Some(peer_id), Some(remote_addr), None, None, cause)
    &&& event_logged(o, n)
    &&& n.total_connections == o.total_connections
    &&& n.active_connections == (if o.active_connections > 0 {
        o.active_connections - 1
    } else {
        0
    })
    &&& n.failed_connections == o.failed_connections
    &&& n.handshake_timeouts == o.handshake_timeouts
    &&& n.totals_same(o)
    &&& n.error_log@ == o.error_log@
    &&& if o.connection_map().dom().contains(id) {
        &&& n.connection_map() == o.connection_map().insert(id, t)
        &&& t == QuicConnectionStats {
            closed_at: Some(now),
            duration_ms: match s.established_at {
                Some(e) => Some(
                    if now >= e {
                        (now - e) as u64
                    } else {
                        0
                    },
                ),
                None => s.duration_ms,
            },
            events: t.events,
            ..s
        }
        &&& t.events@ == s.events@.push(ev)
    } else {
        n.connection_map() == o.connection_map()
    }
}

/// What recording a handshake stage does.
pub open spec fn stage_post(
    o: QuicDiagnostics,
    n: QuicDiagnostics,
    peer_id: Option<Seq<char>>,
    remote_addr: Option<Seq<char>>,
    stage: QuicHandshakeStage,
    now: u64,
) -> bool {
    let ev = n.recent_events@.last();
    let id = conn_id(or_unknown(peer_id), or_unknown(remote_addr));
    let tracked_conn = peer_id is Some && remote_addr is Some && o.connection_map().dom().contains(id);
    let s = o.connection_map()[id];
    let t = n.connection_map()[id];
    &&& event_is(ev, now, stage_event_type(stage), peer_id, remote_addr, None, Some(stage), None)
    &&& event_logged(o, n)
    &&& n.total_connections == o.total_connections
    &&& n.active_connections == o.active_connections
    &&& n.failed_connections == o.failed_connections
    &&& n.handshake_timeouts == o.handshake_timeouts
    &&& n.totals_same(o)
    &&& n.error_log@ == o.error_log@
    &&& if tracked_conn {
        &&& n.connection_map() == o.connection_map().insert(id, t)
        &&& t == QuicConnectionStats { handshake_stage: stage, events: t.events, ..s }
        &&& t.events@ == s.events@.push(ev)
    } else {
        n.connection_map() == o.connection_map()
    }
}

impl QuicDiagnosticsManager {
    /// The current diagnostic state.
    pub closed spec fn diag(&self) -> QuicDiagnostics {
        self.state
    }

    /// Each connection id occurs once and both lists are within their bounds.
    pub closed spec fn wf(&self) -> bool {
        &&& unique_keys(self.state.connections@)
        &&& self.max_events == MAX_RECENT_EVENTS
        &&& self.max_errors == MAX_ERROR_LOG
        &&& self.state.recent_events@.len() <= MAX_RECENT_EVENTS
        &&& self.state.error_log@.len() <= MAX_ERROR_LOG
    }

    /// A manager with an empty state.
    pub fn new() -> (r: QuicDiagnosticsManager)
        ensures
            r.wf(),
            r.diag().total_connections == 0,
            r.diag().active_connections == 0,
            r.diag().failed_connections == 0,
            r.diag().handshake_timeouts == 0,
            r.diag().total_bytes_sent == 0,
            r.diag().total_bytes_received == 0,
            r.diag().total_packets_sent == 0,
            r.diag().total_packets_received == 0,
            r.diag().connection_map() == Map::<Seq<char>, QuicConnectionStats>::empty(),
            r.diag().recent_events@.len() == 0,
            r.diag().error_log@.len() == 0,
    {
        let r = QuicDiagnosticsManager {
            state: QuicDiagnostics::new(),
            max_events: MAX_RECENT_EVENTS,
            max_errors: MAX_ERROR_LOG,
        };
        assert(r.state.connection_map() =~= Map::<Seq<char>, QuicConnectionStats>::empty());
        r
    }

    /// Records a connection attempt at time `now`.
    pub fn record_connection_attempt_at(
        &mut self,
        peer_id: Option<&str>,
        remote_addr: Option<&str>,
        local_addr: Option<&str>,
        now: u64,
    )
        requires
            old(self).wf(),
            old(self).diag().total_connections < u64::MAX,
            old(self).diag().active_connections < u64::MAX,
        ensures
            final(self).wf(),
            attempt_post(
                old(self).diag(),
                final(self).diag(),
                opt_str_view(peer_id),
                opt_str_view(remote_addr),
                opt_str_view(local_addr),
                now,
            ),
    {
        self.state.total_connections = self.state.total_connections + 1;
        self.state.active_connections = self.state.active_connections + 1;
        let event = QuicConnectionEvent {
            timestamp: now,
            event_type: QuicEventType::ConnectionAttempt,
            peer_id: opt_to_string(peer_id),
            remote_addr: opt_to_string(remote_addr),
            local_addr: opt_to_string(local_addr),
            handshake_stage: Some(QuicHandshakeStage::Initial),
            error: None,
        };
        push_bounded(&mut self.state.recent_events, event.duplicate(), self.max_events);
        let peer = or_unknown_string(peer_id);
        let remote = or_unknown_string(remote_addr);
        let id = make_conn_id(peer.as_str(), remote.as_str());
        let mut events: Vec<QuicConnectionEvent> = Vec::new();
        events.push(event);
        let stats = QuicConnectionStats {
            peer_id: peer,
            remote_addr: remote,
            local_addr: or_unknown_string(local_addr),
            established_at: None,
            closed_at: None,
            duration_ms: None,
            handshake_duration_ms: None,
            bytes_sent: 0,
            bytes_received: 0,
            packets_sent: 0,
            packets_received: 0,
            streams_opened: 0,
            streams_closed: 0,
            retransmissions: 0,
            handshake_stage: QuicHandshakeStage::Initial,
            error_count: 0,
            last_error: None,
            events,
        };
        self.insert_stats(id, stats);
    }

    /// Sets the statistics of a connection, replacing earlier ones.
    fn insert_stats(&mut self, id: String, stats: QuicConnectionStats)
        requires
            old(self).wf(),
        ensures
            final(self).wf(),
            final(self).state == (QuicDiagnostics { connections: final(self).state.connections, ..old(self).state }),
            final(self).max_events == old(self).max_events,
            final(self).max_errors == old(self).max_errors,
            final(self).state.connection_map() == old(self).state.connection_map().insert(id@, stats),
    {
        match find_key(&self.state.connections, id.as_str()) {
            Some(i) => {
                proof {
                    lemma_entries_update(self.state.connections@, i as int, (id, stats));
                }
                self.state.connections.set(i, (id, stats));
            },
            None => {
                proof {
                    lemma_entries_push(self.state.connections@, (id, stats));
                }
                self.state.connections.push((id, stats));
            },
        }
    }

    /// A copy of the statistics tracked under `id`, if any.
    fn lookup(&self, id: &str) -> (r: Option<QuicConnectionStats>)
        requires
            self.wf(),
        ensures
            r is Some <==> self.state.connection_map().dom().contains(id@),
            r is Some ==> stats_same(r->0, self.state.connection_map()[id@]),
    {
        match find_key(&self.state.connections, id) {
            Some(i) => {
                proof {
                    lemma_entries_value(self.state.connections@, i as int);
                }
                Some(self.state.connections[i].1.duplicate())
            },
            None => None,
        }
    }

    /// Records an established connection at time `now`. Answers whether the
    /// connection was tracked before (then its statistics took the handshake
    /// duration, and the caller folds it into the running average).
    pub fn record_connection_established_at(
        &mut self,
        peer_id: &str,
        remote_addr: &str,
        local_addr: Option<&str>,
        handshake_duration_ms: Option<u64>,
        now: u64,
    ) -> (updated: bool)
        requires
            old(self).wf(),
        ensures
            final(self).wf(),
            established_post(
                old(self).diag(),
                final(self).diag(),
                peer_id@,
                remote_addr@,
                opt_str_view(local_addr),
                handshake_duration_ms,
                now,
                updated,
            ),
    {
        let event = QuicConnectionEvent {
            timestamp: now,
            event_type: QuicEventType::Established,
            peer_id: Some(String::from_str(peer_id)),
            remote_addr: Some(String::from_str(remote_addr)),
            local_addr: opt_to_string(local_addr),
            handshake_stage: Some(QuicHandshakeStage::Completed),
            error: None,
        };
        push_bounded(&mut self.state.recent_events, event.duplicate(), self.max_events);
        let id = make_conn_id(peer_id, remote_addr);
        match self.lookup(id.as_str()) {
            Some(mut stats) => {
                stats.established_at = Some(now);
                stats.handshake_stage = QuicHandshakeStage::Completed;
                stats.handshake_duration_ms = handshake_duration_ms;
                stats.events.push(event);
                self.insert_stats(id, stats);
                true
            },
            None => {
                let mut events: Vec<QuicConnectionEvent> = Vec::new();
                events.push(event);
                let stats = QuicConnectionStats {
                    peer_id: String::from_str(peer_id),
                    remote_addr: String::from_str(remote_addr),
                    local_addr: or_unknown_string(local_addr),
                    established_at: Some(now),
                    closed_at: None,
                    duration_ms: None,
                    handshake_duration_ms,
                    bytes_sent: 0,
                    bytes_received: 0,
                    packets_sent: 0,
                    packets_received: 0,
                    streams_opened: 0,
                    streams_closed: 0,
                    retransmissions: 0,
                    handshake_stage: QuicHandshakeStage::Completed,
                    error_count: 0,
                    last_error: None,
                    events,
                };
                self.insert_stats(id, stats);
                false
            },
        }
    }

    /// Records a connection error at time `now`.
    pub fn record_connection_error_at(
        &mut self,
        peer_id: Option<&str>,
        remote_addr: Option<&str>,
        error: &str,
        handshake_stage: Option<QuicHandshakeStage>,
        now: u64,
    )
        requires
            old(self).wf(),
            old(self).diag().failed_connections < u64::MAX,
            old(self).diag().handshake_timeouts < u64::MAX,
            ({
                let id = conn_id(or_unknown(opt_str_view(peer_id)), or_unknown(opt_str_view(remote_addr)));
                old(self).diag().connection_map().dom().contains(id)
                    ==> old(self).diag().connection_map()[id].error_count < u64::MAX
            }),
        ensures
            final(self).wf(),
            error_post(
                old(self).diag(),
                final(self).diag(),
                opt_str_view(peer_id),
                opt_str_view(remote_addr),
                error@,
                handshake_stage,
                now,
            ),
            final(self).diag().handshake_timeouts == old(self).diag().handshake_timeouts + if seq_contains(
                error@,
                "timeout"@,
            ) || seq_contains(error@, "HandshakeTimedOut"@) {
                1int
            } else {
                0int
            },
    {
        self.state.failed_connections = self.state.failed_connections + 1;
        self.state.active_connections = self.state.active_connections.saturating_sub(1);
        let event = QuicConnectionEvent {
            timestamp: now,
            event_type: QuicEventType::Error,
            peer_id: opt_to_string(peer_id),
            remote_addr: opt_to_string(remote_addr),
            local_addr: None,
            handshake_stage,
            error: Some(String::from_str(error)),
        };
        push_bounded(&mut self.state.recent_events, event.duplicate(), self.max_events);
        let mut line = String::from_str("[");
        append_decimal(&mut line, now as u128);
        line.append("] ");
        line.append(or_unknown_string(peer_id).as_str());
        line.append(": ");
        line.append(error);
        proof {
            assert(line@ =~= error_line(now, opt_str_view(peer_id), error@));
        }
        push_bounded(&mut self.state.error_log, line, self.max_errors);
        match (peer_id, remote_addr) {
            (Some(p), Some(a)) => {
                let id = make_conn_id(p, a);
                match self.lookup(id.as_str()) {
                    Some(mut stats) => {
                        stats.error_count = stats.error_count + 1;
                        stats.last_error = Some(String::from_str(error));
                        stats.handshake_stage = match handshake_stage {
                            Some(x) => x,
                            None => QuicHandshakeStage::Failed,
                        };
                        stats.events.push(event);
                        self.insert_stats(id, stats);
                    },
                    None => {},
                }
            },
            _ => {},
        }
        if str_contains(error, "HandshakeTimedOut") || str_contains(error, "timeout") {
            self.state.handshake_timeouts = self.state.handshake_timeouts + 1;
        }
    }

    /// Records a closed connection at time `now`.
    pub fn record_connection_closed_at(
        &mut self,
        peer_id: &str,
        remote_addr: &str,
        cause: Option<&str>,
        now: u64,
    )
        requires
            old(self).wf(),
        ensures
            final(self).wf(),
            closed_post(
                old(self).diag(),
                final(self).diag(),
                peer_id@,
                remote_addr@,
                opt_str_view(cause),
                now,
            ),
    {
        self.state.active_connections = self.state.active_connections.saturating_sub(1);
        let event = QuicConnectionEvent {
            timestamp: now,
            event_type: QuicEventType::Closed,
            peer_id: Some(String::from_str(peer_id)),
            remote_addr: Some(String::from_str(remote_addr)),
            local_addr: None,
            handshake_stage: None,
            error: opt_to_string(cause),
        };
        push_bounded(&mut self.state.recent_events, event.duplicate(), self.max_events);
        let id = make_conn_id(peer_id, remote_addr);
        match self.lookup(id.as_str()) {
            Some(mut stats) => {
                stats.closed_at = Some(now);
                match stats.established_at {
                    Some(established) => {
                        stats.duration_ms = Some(now.saturating_sub(established));
                    },
                    None => {},
                }
                stats.events.push(event);
                self.insert_stats(id, stats);
            },
            None => {},
        }
    }

    /// Records the progression of a handshake to `stage` at time `now`.
    pub fn record_handshake_stage_at(
        &mut self,
        peer_id: Option<&str>,
        remote_addr: Option<&str>,
        stage: QuicHandshakeStage,
        now: u64,
    )
        requires
            old(self).wf(),
        ensures
            final(self).wf(),
            stage_post(
                old(self).diag(),
                final(self).diag(),
                opt_str_view(peer_id),
                opt_str_view(remote_addr),
                stage,
                now,
            ),
    {
        let event_type = match stage {
            QuicHandshakeStage::Initial => QuicEventType::InitialReceived,
            QuicHandshakeStage::Handshake => QuicEventType::HandshakeReceived,
            QuicHandshakeStage::OneRtt => QuicEventType::Established,
            _ => QuicEventType::ConnectionAttempt,
        };
        let event = QuicConnectionEvent {
            timestamp: now,
            event_type,
            peer_id: opt_to_string(peer_id),
            remote_addr: opt_to_string(remote_addr),
            local_addr: None,
            handshake_stage: Some(stage),
            error: None,
        };
        push_bounded(&mut self.state.recent_events, event.duplicate(), self.max_events);
        match (peer_id, remote_addr) {
            (Some(p), Some(a)) => {
                let id = make_conn_id(p, a);
                match self.lookup(id.as_str()) {
                    Some(mut stats) => {
                        stats.handshake_stage = stage;
                        stats.events.push(event);
                        self.insert_stats(id, stats);
                    },
                    None => {},
                }
            },
            _ => {},
        }
    }

    /// Records a connection attempt, stamped with the current time.
    pub fn record_connection_attempt(
        &mut self,
        peer_id: Option<&str>,
        remote_addr: Option<&str>,
        local_addr: Option<&str>,
    )
        requires
            old(self).wf(),
            old(self).diag().total_connections < u64::MAX,
            old(self).diag().active_connections < u64::MAX,
        ensures
            final(self).wf(),
            exists|now: u64|
                attempt_post(
                    old(self).diag(),
                    final(self).diag(),
                    opt_str_view(peer_id),
                    opt_str_view(remote_addr),
                    opt_str_view(local_addr),
                    now,
                ),
    {
        let now = now_secs();
        self.record_connection_attempt_at(peer_id, remote_addr, local_addr, now);
    }

    /// Records an established connection, stamped with the current time.
    pub fn record_connection_established(
        &mut self,
        peer_id: &str,
        remote_addr: &str,
        local_addr: Option<&str>,
        handshake_duration_ms: Option<u64>,
    ) -> (updated: bool)
        requires
            old(self).wf(),
        ensures
            final(self).wf(),
            exists|now: u64|
                established_post(
                    old(self).diag(),
                    final(self).diag(),
                    peer_id@,
                    remote_addr@,
                    opt_str_view(local_addr),
                    handshake_duration_ms,
                    now,
                    updated,
                ),
    {
        let now = now_secs();
        self.record_connection_established_at(peer_id, remote_addr, local_addr, handshake_duration_ms, now)
    }

    /// Records a connection error, stamped with the current time.
    pub fn record_connection_error(
        &mut self,
        peer_id: Option<&str>,
        remote_addr: Option<&str>,
        error: &str,
        handshake_stage: Option<QuicHandshakeStage>,
    )
        requires
            old(self).wf(),
            old(self).diag().failed_connections < u64::MAX,
            old(self).diag().handshake_timeouts < u64::MAX,
            ({
                let id = conn_id(or_unknown(opt_str_view(peer_id)), or_unknown(opt_str_view(remote_addr)));
                old(self).diag().connection_map().dom().contains(id)
                    ==> old(self).diag().connection_map()[id].error_count < u64::MAX
            }),
        ensures
            final(self).wf(),
            exists|now: u64|
                error_post(
                    old(self).diag(),
                    final(self).diag(),
                    opt_str_view(peer_id),
                    opt_str_view(remote_addr),
                    error@,
                    handshake_stage,
                    now,
                ),
            final(self).diag().handshake_timeouts == old(self).diag().handshake_timeouts + if seq_contains(
                error@,
                "timeout"@,
            ) || seq_contains(error@, "HandshakeTimedOut"@) {
                1int
            } else {
                0int
            },
    {
        let now = now_secs();
        self.record_connection_error_at(peer_id, remote_addr, error, handshake_stage, now);
    }

    /// Records a closed connection, stamped with the current time.
    pub fn record_connection_closed(&mut self, peer_id: &str, remote_addr: &str, cause: Option<&str>)
        requires
            old(self).wf(),
        ensures
            final(self).wf(),
            exists|now: u64|
                closed_post(
                    old(self).diag(),
                    final(self).diag(),
                    peer_id@,
                    remote_addr@,
                    opt_str_view(cause),
                    now,
                ),
    {
        let now = now_secs();
        self.record_connection_closed_at(peer_id, remote_addr, cause, now);
    }

    /// Records the progression of a handshake, stamped with the current time.
    pub fn record_handshake_stage(
        &mut self,
        peer_id: Option<&str>,
        remote_addr: Option<&str>,
        stage: QuicHandshakeStage,
    )
        requires
            old(self).wf(),
        ensures
            final(self).wf(),
            exists|now: u64|
                stage_post(
                    old(self).diag(),
                    final(self).diag(),
                    opt_str_view(peer_id),
                    opt_str_view(remote_addr),
                    stage,
                    now,
                ),
    {
        let now = now_secs();
        self.record_handshake_stage_at(peer_id, remote_addr, stage, now);
    }

    /// A snapshot of the diagnostic state.
    pub fn get_diagnostics(&self) -> (r: QuicDiagnostics)
        ensures
            diagnostics_same(r, self.diag()),
    {
        let mut connections: Vec<(String, QuicConnectionStats)> = Vec::new();
        let mut i: usize = 0;
        while i < self.state.connections.len()
            invariant
                i <= self.state.connections@.len(),
                connections@.len() == i,
                forall|j: int|
                    0 <= j < i ==> (#[trigger] connections@[j]).0@ == self.state.connections@[j].0@
                        && stats_same(connections@[j].1, self.state.connections@[j].1),
            decreases self.state.connections.len() - i,
        {
            let entry = (self.state.connections[i].0.clone(), self.state.connections[i].1.duplicate());
            connections.push(entry);
            i = i + 1;
        }
        let mut error_log: Vec<String> = Vec::new();
        let mut k: usize = 0;
        while k < self.state.error_log.len()
            invariant
                k <= self.state.error_log@.len(),
                error_log@.len() == k,
                forall|j: int| 0 <= j < k ==> (#[trigger] error_log@[j])@ == self.state.error_log@[j]@,
            decreases self.state.error_log.len() - k,
        {
            error_log.push(self.state.error_log[k].clone());
            k = k + 1;
        }
        QuicDiagnostics {
            total_connections: self.state.total_connections,
            active_connections: self.state.active_connections,
            failed_connections: self.state.failed_connections,
            handshake_timeouts: self.state.handshake_timeouts,
            total_bytes_sent: self.state.total_bytes_sent,
            total_bytes_received: self.state.total_bytes_received,
            total_packets_sent: self.state.total_packets_sent,
            total_packets_received: self.state.total_packets_received,
            connections,
            recent_events: duplicate_events(&self.state.recent_events),
            error_log,
        }
    }

    /// The statistics of the connection of `peer_id` at `remote_addr`.
    pub fn get_connection_stats(&self, peer_id: &str, remote_addr: &str) -> (r: Option<
        QuicConnectionStats,
    >)
        requires
            self.wf(),
        ensures
            r is Some <==> self.diag().connection_map().dom().contains(conn_id(peer_id@, remote_addr@)),
            r is Some ==> stats_same(r->0, self.diag().connection_map()[conn_id(peer_id@, remote_addr@)]),
    {
        let id = make_conn_id(peer_id, remote_addr);
        self.lookup(id.as_str())
    }

    /// The last `limit` recorded events, newest first.
    pub fn get_recent_events(&self, limit: usize) -> (r: Vec<QuicConnectionEvent>)
        ensures
            r@ == newest_first(self.diag().recent_events@, limit as nat),
    {
        let ghost s = self.state.recent_events@;
        let n = self.state.recent_events.len();
        let count = if limit < n {
            limit
        } else {
            n
        };
        let mut out: Vec<QuicConnectionEvent> = Vec::new();
        let mut i: usize = 0;
        while i < count
            invariant
                count <= n,
                n == s.len(),
                s == self.state.recent_events@,
                i <= count,
                out@.len() == i,
                forall|j: int| 0 <= j < i ==> #[trigger] out@[j] == s[n - 1 - j],
            decreases count - i,
        {
            out.push(self.state.recent_events[n - 1 - i].duplicate());
            i = i + 1;
        }
        assert(out@ =~= newest_first(s, limit as nat));
        out
    }

    /// The last `limit` error-log lines, newest first.
    pub fn get_error_log(&self, limit: usize) -> (r: Vec<String>)
        ensures
            r@.len() == newest_first(self.diag().error_log@, limit as nat).len(),
            forall|i: int|
                0 <= i < r@.len() ==> (#[trigger] r@[i])@ == newest_first(
                    self.diag().error_log@,
                    limit as nat,
                )[i]@,
    {
        let ghost s = self.state.error_log@;
        let n = self.state.error_log.len();
        let count = if limit < n {
            limit
        } else {
            n
        };
        let mut out: Vec<String> = Vec::new();
        let mut i: usize = 0;
        while i < count
            invariant
                count <= n,
                n == s.len(),
                s == self.state.error_log@,
                i <= count,
                out@.len() == i,
                forall|j: int| 0 <= j < i ==> (#[trigger] out@[j])@ == s[n - 1 - j]@,
            decreases count - i,
        {
            out.push(self.state.error_log[n - 1 - i].clone());
            i = i + 1;
        }
        out
    }
}

impl Default for QuicDiagnosticsManager {
    fn default() -> (r: QuicDiagnosticsManager)
        ensures
            r.wf(),
            r.diag().total_connections == 0,
            r.diag().active_connections == 0,
            r.diag().failed_connections == 0,
            r.diag().connection_map() == Map::<Seq<char>, QuicConnectionStats>::empty(),
            r.diag().recent_events@.len() == 0,
            r.diag().error_log@.len() == 0,
    {
        QuicDiagnosticsManager::new()
    }
}

impl Default for QuicDiagnostics {
    fn default() -> (r: QuicDiagnostics)
        ensures
            r.total_connections == 0,
            r.active_connections == 0,
            r.failed_connections == 0,
            r.handshake_timeouts == 0,
            r.total_bytes_sent == 0,
            r.total_bytes_received == 0,
            r.total_packets_sent == 0,
            r.total_packets_received == 0,
            r.connections@.len() == 0,
            r.recent_events@.len() == 0,
            r.error_log@.len() == 0,
    {
        QuicDiagnostics::new()
    }
}

/// However many events are recorded, the recent-event list holds at most
/// `MAX_RECENT_EVENTS` events and the error log at most `MAX_ERROR_LOG`
/// lines, and each connection id is tracked once.
pub proof fn lemma_lists_bounded(m: QuicDiagnosticsManager)
    requires
        m.wf(),
    ensures
        m.diag().recent_events@.len() <= MAX_RECENT_EVENTS,
        m.diag().error_log@.len() <= MAX_ERROR_LOG,
        unique_keys(m.diag().connections@),
{
}

/// A recorded event is the newest of the recent events, and the events
/// recorded before it keep their order, the oldest dropping out once the
/// list is full.
pub proof fn lemma_event_newest(o: Seq<QuicConnectionEvent>, e: QuicConnectionEvent)
    requires
        o.len() <= MAX_RECENT_EVENTS,
    ensures
        bounded_push(o, e, MAX_RECENT_EVENTS as nat).last() == e,
        bounded_push(o, e, MAX_RECENT_EVENTS as nat).len() == if o.len() < MAX_RECENT_EVENTS {
            o.len() + 1int
        } else {
            o.len() as int
        },
        forall|i: int|
            0 <= i < bounded_push(o, e, MAX_RECENT_EVENTS as nat).len() - 1 ==> #[trigger] bounded_push(
                o,
                e,
                MAX_RECENT_EVENTS as nat,
            )[i] == o[i + o.len() + 1 - bounded_push(o, e, MAX_RECENT_EVENTS as nat).len()],
{
}

/// After an attempt is recorded for a known peer and address, the
/// connection is tracked under their id at the initial stage, with no error.
pub proof fn lemma_attempt_then_tracked(
    o: QuicDiagnostics,
    n: QuicDiagnostics,
    peer: Seq<char>,
    remote: Seq<char>,
    local: Option<Seq<char>>,
    now: u64,
)
    requires
        attempt_post(o, n, Some(peer), Some(remote), local, now),
    ensures
        n.connection_map().dom().contains(conn_id(peer, remote)),
        n.connection_map()[conn_id(peer, remote)].handshake_stage == QuicHandshakeStage::Initial,
        n.connection_map()[conn_id(peer, remote)].error_count == 0,
        n.connection_map()[conn_id(peer, remote)].events@.len() == 1,
{
}

/// An attempt followed by an establishment of the same connection leaves it
/// tracked as completed, established at the second time, with both events.
pub proof fn lemma_attempt_then_established(
    a: QuicDiagnostics,
    b: QuicDiagnostics,
    c: QuicDiagnostics,
    peer: Seq<char>,
    remote: Seq<char>,
    local: Option<Seq<char>>,
    duration: Option<u64>,
    t1: u64,
    t2: u64,
    updated: bool,
)
    requires
        attempt_post(a, b, Some(peer), Some(remote), local, t1),
        established_post(b, c, peer, remote, local, duration, t2, updated),
    ensures
        updated,
        c.connection_map()[conn_id(peer, remote)].handshake_stage == QuicHandshakeStage::Completed,
        c.connection_map()[conn_id(peer, remote)].established_at == Some(t2),
        c.connection_map()[conn_id(peer, remote)].handshake_duration_ms == duration,
        c.connection_map()[conn_id(peer, remote)].events@.len() == 2,
        c.total_connections == a.total_connections + 1,
        c.active_connections == a.active_connections + 1,
{
}

/// An attempt followed by the close of the same connection brings the
/// count of active connections back to where it was, and the total up by
/// one.
pub proof fn lemma_attempt_then_closed(
    a: QuicDiagnostics,
    b: QuicDiagnostics,
    c: QuicDiagnostics,
    peer: Seq<char>,
    remote: Seq<char>,
    local: Option<Seq<char>>,
    cause: Option<Seq<char>>,
    t1: u64,
    t2: u64,
)
    requires
        attempt_post(a, b, Some(peer), Some(remote), local, t1),
        closed_post(b, c, peer, remote, cause, t2),
    ensures
        c.active_connections == a.active_connections,
        c.total_connections == a.total_connections + 1,
        c.connection_map()[conn_id(peer, remote)].closed_at == Some(t2),
        c.connection_map()[conn_id(peer, remote)].duration_ms is None,
{
}

/// Every recorded error adds one line to the error log (the oldest dropping
/// out once it is full) and one failed connection, and, when its text
/// contains "timeout" or "HandshakeTimedOut", one handshake timeout.
pub proof fn lemma_error_logged(
    o: QuicDiagnostics,
    n: QuicDiagnostics,
    peer: Option<Seq<char>>,
    remote: Option<Seq<char>>,
    error: Seq<char>,
    stage: Option<QuicHandshakeStage>,
    now: u64,
)
    requires
        error_post(o, n, peer, remote, error, stage, now),
        o.error_log@.len() <= MAX_ERROR_LOG,
    ensures
        n.failed_connections == o.failed_connections + 1,
        n.error_log@.len() == if o.error_log@.len() < MAX_ERROR_LOG {
            o.error_log@.len() + 1int
        } else {
            o.error_log@.len() as int
        },
        n.error_log@.last()@ == error_line(now, peer, error),
        n.handshake_timeouts == o.handshake_timeouts + if seq_contains(error, "timeout"@) || seq_contains(
            error,
            "HandshakeTimedOut"@,
        ) {
            1int
        } else {
            0int
        },
{
}

} // verus!
