//! Structured logging of connections and transactions across protocols.
//!
//! Each logging call builds the log record and the console line that
//! reports it; the caller writes the line to standard output or standard
//! error, as the line says.
use vstd::prelude::*;
use vstd::string::*;
use crate::command_protocol::now_secs;
use crate::text::{append_decimal, decimal};

verus! {

/// Connection event types.
#[derive(Debug, Clone, Copy, PartialEq, Eq, Structural)]
pub enum ConnectionEventType {
    Established,
    Closed,
    Failed,
    Rejected,
}

/// Connection log entry.
#[derive(Debug, Clone)]
pub struct ConnectionLog {
    pub timestamp: u64,
    pub event_type: ConnectionEventType,
    pub peer_id: String,
    /// "inbound" or "outbound"
    pub direction: String,
    /// "QUIC", "TCP", ...
    pub protocol: String,
    pub endpoint: Option<String>,
    pub error: Option<String>,
}

/// Transaction event types.
#[derive(Debug, Clone, Copy, PartialEq, Eq, Structural)]
pub enum TransactionEventType {
    Started,
    Completed,
    Failed,
    Timeout,
}

/// Transaction log entry.
#[derive(Debug, Clone)]
pub struct TransactionLog {
    pub timestamp: u64,
    pub event_type: TransactionEventType,
    /// "JSON_COMMAND", "TORRENT", "METRICS", ...
    pub protocol: String,
    pub command: Option<String>,
    pub request_id: Option<String>,
    pub from_peer: String,
    pub to_peer: Option<String>,
    pub duration_ms: Option<u64>,
    pub error: Option<String>,
    pub result_size: Option<usize>,
}

/// A console line, and whether it goes to standard error.
#[derive(Debug, Clone)]
pub struct LogLine {
    pub to_stderr: bool,
    pub text: String,
}

pub open spec fn or_text(o: Option<Seq<char>>, d: Seq<char>) -> Seq<char> {
    match o {
        Some(s) => s,
        None => d,
    }
}

pub open spec fn opt_view(o: Option<&str>) -> Option<Seq<char>> {
    match o {
        Some(s) => Some(s@),
        None => None,
    }
}

pub open spec fn opt_string_view(o: Option<String>) -> Option<Seq<char>> {
    match o {
        Some(s) => Some(s@),
        None => None,
    }
}

/// The console line for a connection event.
pub open spec fn connection_text(
    event_type: ConnectionEventType,
    peer_id: Seq<char>,
    direction: Seq<char>,
    protocol: Seq<char>,
    endpoint: Option<Seq<char>>,
    error: Option<Seq<char>>,
) -> Seq<char> {
    let head = direction + " "@ + protocol;
    match event_type {
        ConnectionEventType::Established => "[CONN] ✓ "@ + head + " connection established: "@ + peer_id
            + " ("@ + or_text(endpoint, "unknown"@) + ")"@,
        ConnectionEventType::Closed => "[CONN] ✗ "@ + head + " connection closed: "@ + peer_id,
        ConnectionEventType::Failed => "[CONN] ✗ "@ + head + " connection failed: "@ + peer_id + " - "@
            + or_text(error, "unknown error"@),
        ConnectionEventType::Rejected => "[CONN] ✗ "@ + head + " connection rejected: "@ + peer_id
            + " - "@ + or_text(error, "unknown reason"@),
    }
}

/// Failed and rejected connections are reported on standard error.
pub open spec fn connection_to_stderr(event_type: ConnectionEventType) -> bool {
    event_type == ConnectionEventType::Failed || event_type == ConnectionEventType::Rejected
}

/// Appends what a transaction is about: its command and request id.
fn append_what(s: &mut String, command: Option<&str>, request_id: Option<&str>)
    ensures
        final(s)@ == old(s)@ + (or_text(opt_view(command), "unknown"@) + " (req: "@ + or_text(
            opt_view(request_id),
            "none"@,
        ) + ")"@),
{
    append_or(s, command, "unknown");
    s.append(" (req: ");
    append_or(s, request_id, "none");
    s.append(")");
}

/// Appends the duration and result size of a completed transaction.
fn append_completed_tail(s: &mut String, duration_ms: Option<u64>, result_size: Option<usize>)
    ensures
        final(s)@ == old(s)@ + (" in "@ + match duration_ms {
            Some(d) => decimal(d as nat) + "ms"@,
            None => "unknown"@,
        } + " (size: "@ + match result_size {
            Some(z) => decimal(z as nat) + " bytes"@,
            None => "unknown"@,
        } + ")"@),
{
    s.append(" in ");
    match duration_ms {
        Some(d) => {
            append_decimal(s, d as u128);
            s.append("ms");
        },
        None => s.append("unknown"),
    }
    s.append(" (size: ");
    match result_size {
        Some(z) => {
            append_decimal(s, z as u128);
            s.append(" bytes");
        },
        None => s.append("unknown"),
    }
    s.append(")");
}

/// The console line for a transaction event.
pub open spec fn transaction_text(
    event_type: TransactionEventType,
    protocol: Seq<char>,
    command: Option<Seq<char>>,
    request_id: Option<Seq<char>>,
    from_peer: Seq<char>,
    to_peer: Option<Seq<char>>,
    duration_ms: Option<u64>,
    error: Option<Seq<char>>,
    result_size: Option<usize>,
) -> Seq<char> {
    let what = or_text(command, "unknown"@) + " (req: "@ + or_text(request_id, "none"@) + ")"@;
    match event_type {
        TransactionEventType::Started => "[TX] → "@ + protocol + " transaction started: "@ + what
            + " from "@ + from_peer + " to "@ + or_text(to_peer, "unknown"@),
        TransactionEventType::Completed => "[TX] ✓ "@ + protocol + " transaction completed: "@ + what
            + " in "@ + match duration_ms {
            Some(d) => decimal(d as nat) + "ms"@,
            None => "unknown"@,
        } + " (size: "@ + match result_size {
            Some(s) => decimal(s as nat) + " bytes"@,
            None => "unknown"@,
        } + ")"@,
        TransactionEventType::Failed => "[TX] ✗ "@ + protocol + " transaction failed: "@ + what + " - "@
            + or_text(error, "unknown error"@),
        TransactionEventType::Timeout => "[TX] ⏱ "@ + protocol + " transaction timeout: "@ + what,
    }
}

/// Failed and timed-out transactions are reported on standard error.
pub open spec fn transaction_to_stderr(event_type: TransactionEventType) -> bool {
    event_type == TransactionEventType::Failed || event_type == TransactionEventType::Timeout
}

fn opt_to_string(o: Option<&str>) -> (r: Option<String>)
    ensures
        opt_string_view(r) == opt_view(o),
{
    match o {
        Some(s) => Some(String::from_str(s)),
        None => None,
    }
}

fn append_or(s: &mut String, o: Option<&str>, d: &str)
    ensures
        final(s)@ == old(s)@ + or_text(opt_view(o), d@),
{
    match o {
        Some(x) => s.append(x),
        None => s.append(d),
    }
}

/// The connection log record for an event at time `now`.
pub fn connection_record(
    event_type: ConnectionEventType,
    peer_id: &str,
    direction: &str,
    protocol: &str,
    endpoint: Option<&str>,
    error: Option<&str>,
    now: u64,
) -> (r: ConnectionLog)
    ensures
        r.timestamp == now,
        r.event_type == event_type,
        r.peer_id@ == peer_id@,
        r.direction@ == direction@,
        r.protocol@ == protocol@,
        opt_string_view(r.endpoint) == opt_view(endpoint),
        opt_string_view(r.error) == opt_view(error),
{
    ConnectionLog {
        timestamp: now,
        event_type,
        peer_id: String::from_str(peer_id),
        direction: String::from_str(direction),
        protocol: String::from_str(protocol),
        endpoint: opt_to_string(endpoint),
        error: opt_to_string(error),
    }
}

/// The console line for a connection event.
pub fn connection_line(
    event_type: ConnectionEventType,
    peer_id: &str,
    direction: &str,
    protocol: &str,
    endpoint: Option<&str>,
    error: Option<&str>,
) -> (r: LogLine)
    ensures
        r.text@ == connection_text(
            event_type,
            peer_id@,
            direction@,
            protocol@,
            opt_view(endpoint),
            opt_view(error),
        ),
        r.to_stderr == connection_to_stderr(event_type),
{
    let mut s = String::new();
    match event_type {
        ConnectionEventType::Established => s.append("[CONN] ✓ "),
        _ => s.append("[CONN] ✗ "),
    }
    s.append(direction);
    s.append(" ");
    s.append(protocol);
    match event_type {
        ConnectionEventType::Established => {
            s.append(" connection established: ");
            s.append(peer_id);
            s.append(" (");
            append_or(&mut s, endpoint, "unknown");
            s.append(")");
        },
        ConnectionEventType::Closed => {
            s.append(" connection closed: ");
            s.append(peer_id);
        },
        ConnectionEventType::Failed => {
            s.append(" connection failed: ");
            s.append(peer_id);
            s.append(" - ");
            append_or(&mut s, error, "unknown error");
        },
        ConnectionEventType::Rejected => {
            s.append(" connection rejected: ");
            s.append(peer_id);
            s.append(" - ");
            append_or(&mut s, error, "unknown reason");
        },
    }
    proof {
        assert(s@ =~= connection_text(
            event_type,
            peer_id@,
            direction@,
            protocol@,
            opt_view(endpoint),
            opt_view(error),
        ));
    }
    LogLine {
        to_stderr: match event_type {
            ConnectionEventType::Failed | ConnectionEventType::Rejected => true,
            _ => false,
        },
        text: s,
    }
}

/// Logs a connection event: the record, stamped with the current time, and
/// its console line.
pub fn log_connection(
    event_type: ConnectionEventType,
    peer_id: &str,
    direction: &str,
    protocol: &str,
    endpoint: Option<&str>,
    error: Option<&str>,
) -> (r: (ConnectionLog, LogLine))
    ensures
        r.0.event_type == event_type,
        r.0.peer_id@ == peer_id@,
        r.0.direction@ == direction@,
        r.0.protocol@ == protocol@,
        opt_string_view(r.0.endpoint) == opt_view(endpoint),
        opt_string_view(r.0.error) == opt_view(error),
        r.1.text@ == connection_text(
            event_type,
            peer_id@,
            direction@,
            protocol@,
            opt_view(endpoint),
            opt_view(error),
        ),
        r.1.to_stderr == connection_to_stderr(event_type),
{
    let now = now_secs();
    (
        connection_record(event_type, peer_id, direction, protocol, endpoint, error, now),
        connection_line(event_type, peer_id, direction, protocol, endpoint, error),
    )
}

/// The transaction log record for an event at time `now`.
pub fn transaction_record(
    event_type: TransactionEventType,
    protocol: &str,
    command: Option<&str>,
    request_id: Option<&str>,
    from_peer: &str,
    to_peer: Option<&str>,
    duration_ms: Option<u64>,
    error: Option<&str>,
    result_size: Option<usize>,
    now: u64,
) -> (r: TransactionLog)
    ensures
        r.timestamp == now,
        r.event_type == event_type,
        r.protocol@ == protocol@,
        opt_string_view(r.command) == opt_view(command),
        opt_string_view(r.request_id) == opt_view(request_id),
        r.from_peer@ == from_peer@,
        opt_string_view(r.to_peer) == opt_view(to_peer),
        r.duration_ms == duration_ms,
        opt_string_view(r.error) == opt_view(error),
        r.result_size == result_size,
{
    TransactionLog {
        timestamp: now,
        event_type,
        protocol: String::from_str(protocol),
        command: opt_to_string(command),
        request_id: opt_to_string(request_id),
        from_peer: String::from_str(from_peer),
        to_peer: opt_to_string(to_peer),
        duration_ms,
        error: opt_to_string(error),
        result_size,
    }
}

/// The console line for a transaction event.
pub fn transaction_line(
    event_type: TransactionEventType,
    protocol: &str,
    command: Option<&str>,
    request_id: Option<&str>,
    from_peer: &str,
    to_peer: Option<&str>,
    duration_ms: Option<u64>,
    error: Option<&str>,
    result_size: Option<usize>,
) -> (r: LogLine)
    ensures
        r.text@ == transaction_text(
            event_type,
            protocol@,
            opt_view(command),
            opt_view(request_id),
            from_peer@,
            opt_view(to_peer),
            duration_ms,
            opt_view(error),
            result_size,
        ),
        r.to_stderr == transaction_to_stderr(event_type),
{
    let mut s = String::new();
    match event_type {
        TransactionEventType::Started => {
            s.append("[TX] → ");
            s.append(protocol);
            s.append(" transaction started: ");
            append_what(&mut s, command, request_id);
            s.append(" from ");
            s.append(from_peer);
            s.append(" to ");
            append_or(&mut s, to_peer, "unknown");
        },
        TransactionEventType::Completed => {
            s.append("[TX] ✓ ");
            s.append(protocol);
            s.append(" transaction completed: ");
            append_what(&mut s, command, request_id);
            append_completed_tail(&mut s, duration_ms, result_size);
        },
        TransactionEventType::Failed => {
            s.append("[TX] ✗ ");
            s.append(protocol);
            s.append(" transaction failed: ");
            append_what(&mut s, command, request_id);
            s.append(" - ");
            append_or(&mut s, error, "unknown error");
        },
        TransactionEventType::Timeout => {
            s.append("[TX] ⏱ ");
            s.append(protocol);
            s.append(" transaction timeout: ");
            append_what(&mut s, command, request_id);
        },
    }
    proof {
        assert(s@ =~= transaction_text(
            event_type,
            protocol@,
            opt_view(command),
            opt_view(request_id),
            from_peer@,
            opt_view(to_peer),
            duration_ms,
            opt_view(error),
            result_size,
        ));
    }
    LogLine {
        to_stderr: match event_type {
            TransactionEventType::Failed | TransactionEventType::Timeout => true,
            _ => false,
        },
        text: s,
    }
}

/// Logs a transaction event: the record, stamped with the current time, and
/// its console line.
pub fn log_transaction(
    event_type: TransactionEventType,
    protocol: &str,
    command: Option<&str>,
    request_id: Option<&str>,
    from_peer: &str,
    to_peer: Option<&str>,
    duration_ms: Option<u64>,
    error: Option<&str>,
    result_size: Option<usize>,
) -> (r: (TransactionLog, LogLine))
    ensures
        r.0.event_type == event_type,
        r.0.protocol@ == protocol@,
        opt_string_view(r.0.command) == opt_view(command),
        opt_string_view(r.0.request_id) == opt_view(request_id),
        r.0.from_peer@ == from_peer@,
        opt_string_view(r.0.to_peer) == opt_view(to_peer),
        r.0.duration_ms == duration_ms,
        opt_string_view(r.0.error) == opt_view(error),
        r.0.result_size == result_size,
        r.1.text@ == transaction_text(
            event_type,
            protocol@,
            opt_view(command),
            opt_view(request_id),
            from_peer@,
            opt_view(to_peer),
            duration_ms,
            opt_view(error),
            result_size,
        ),
        r.1.to_stderr == transaction_to_stderr(event_type),
{
    let now = now_secs();
    (
        transaction_record(
            event_type,
            protocol,
            command,
            request_id,
            from_peer,
            to_peer,
            duration_ms,
            error,
            result_size,
            now,
        ),
        transaction_line(
            event_type,
            protocol,
            command,
            request_id,
            from_peer,
            to_peer,
            duration_ms,
            error,
            result_size,
        ),
    )
}

/// Logs an established connection.
pub fn log_connection_established(
    peer_id: &str,
    direction: &str,
    protocol: &str,
    endpoint: Option<&str>,
) -> (r: (ConnectionLog, LogLine))
    ensures
        r.0.event_type == ConnectionEventType::Established,
        r.0.peer_id@ == peer_id@,
        r.0.direction@ == direction@,
        r.0.protocol@ == protocol@,
        opt_string_view(r.0.endpoint) == opt_view(endpoint),
        r.0.error is None,
        r.1.text@ == connection_text(
            ConnectionEventType::Established,
            peer_id@,
            direction@,
            protocol@,
            opt_view(endpoint),
            None,
        ),
        !r.1.to_stderr,
{
    log_connection(ConnectionEventType::Established, peer_id, direction, protocol, endpoint, None)
}

/// Logs a closed connection.
pub fn log_connection_closed(peer_id: &str, direction: &str, protocol: &str) -> (r: (
    ConnectionLog,
    LogLine,
))
    ensures
        r.0.event_type == ConnectionEventType::Closed,
        r.0.peer_id@ == peer_id@,
        r.0.direction@ == direction@,
        r.0.protocol@ == protocol@,
        r.0.endpoint is None,
        r.0.error is None,
        r.1.text@ == connection_text(
            ConnectionEventType::Closed,
            peer_id@,
            direction@,
            protocol@,
            None,
            None,
        ),
        !r.1.to_stderr,
{
    log_connection(ConnectionEventType::Closed, peer_id, direction, protocol, None, None)
}

/// Logs a failed connection.
pub fn log_connection_failed(peer_id: &str, direction: &str, protocol: &str, error: &str) -> (r: (
    ConnectionLog,
    LogLine,
))
    ensures
        r.0.event_type == ConnectionEventType::Failed,
        r.0.peer_id@ == peer_id@,
        r.0.direction@ == direction@,
        r.0.protocol@ == protocol@,
        r.0.endpoint is None,
        opt_string_view(r.0.error) == Some(error@),
        r.1.text@ == connection_text(
            ConnectionEventType::Failed,
            peer_id@,
            direction@,
            protocol@,
            None,
            Some(error@),
        ),
        r.1.to_stderr,
{
    log_connection(ConnectionEventType::Failed, peer_id, direction, protocol, None, Some(error))
}

/// Logs a started transaction.
pub fn log_transaction_started(
    protocol: &str,
    command: &str,
    request_id: &str,
    from_peer: &str,
    to_peer: Option<&str>,
) -> (r: (TransactionLog, LogLine))
    ensures
        r.0.event_type == TransactionEventType::Started,
        r.0.protocol@ == protocol@,
        opt_string_view(r.0.command) == Some(command@),
        opt_string_view(r.0.request_id) == Some(request_id@),
        r.0.from_peer@ == from_peer@,
        opt_string_view(r.0.to_peer) == opt_view(to_peer),
        r.0.duration_ms is None,
        r.0.error is None,
        r.0.result_size is None,
        r.1.text@ == transaction_text(
            TransactionEventType::Started,
            protocol@,
            Some(command@),
            Some(request_id@),
            from_peer@,
            opt_view(to_peer),
            None,
            None,
            None,
        ),
        !r.1.to_stderr,
{
    log_transaction(
        TransactionEventType::Started,
        protocol,
        Some(command),
        Some(request_id),
        from_peer,
        to_peer,
        None,
        None,
        None,
    )
}

/// Logs a completed transaction.
pub fn log_transaction_completed(
    protocol: &str,
    command: &str,
    request_id: &str,
    from_peer: &str,
    to_peer: Option<&str>,
    duration_ms: u64,
    result_size: Option<usize>,
) -> (r: (TransactionLog, LogLine))
    ensures
        r.0.event_type == TransactionEventType::Completed,
        r.0.protocol@ == protocol@,
        opt_string_view(r.0.command) == Some(command@),
        opt_string_view(r.0.request_id) == Some(request_id@),
        r.0.from_peer@ == from_peer@,
        opt_string_view(r.0.to_peer) == opt_view(to_peer),
        r.0.duration_ms == Some(duration_ms),
        r.0.error is None,
        r.0.result_size == result_size,
        r.1.text@ == transaction_text(
            TransactionEventType::Completed,
            protocol@,
            Some(command@),
            Some(request_id@),
            from_peer@,
            opt_view(to_peer),
            Some(duration_ms),
            None,
            result_size,
        ),
        !r.1.to_stderr,
{
    log_transaction(
        TransactionEventType::Completed,
        protocol,
        Some(command),
        Some(request_id),
        from_peer,
        to_peer,
        Some(duration_ms),
        None,
        result_size,
    )
}

/// Logs a failed transaction.
pub fn log_transaction_failed(
    protocol: &str,
    command: &str,
    request_id: &str,
    from_peer: &str,
    to_peer: Option<&str>,
    error: &str,
) -> (r: (TransactionLog, LogLine))
    ensures
        r.0.event_type == TransactionEventType::Failed,
        r.0.protocol@ == protocol@,
        opt_string_view(r.0.command) == Some(command@),
        opt_string_view(r.0.request_id) == Some(request_id@),
        r.0.from_peer@ == from_peer@,
        opt_string_view(r.0.to_peer) == opt_view(to_peer),
        r.0.duration_ms is None,
        opt_string_view(r.0.error) == Some(error@),
        r.0.result_size is None,
        r.1.text@ == transaction_text(
            TransactionEventType::Failed,
            protocol@,
            Some(command@),
            Some(request_id@),
            from_peer@,
            opt_view(to_peer),
            None,
            Some(error@),
            None,
        ),
        r.1.to_stderr,
{
    log_transaction(
        TransactionEventType::Failed,
        protocol,
        Some(command),
        Some(request_id),
        from_peer,
        to_peer,
        None,
        Some(error),
        None,
    )
}

/// Logs a timed-out transaction.
pub fn log_transaction_timeout(
    protocol: &str,
    command: &str,
    request_id: &str,
    from_peer: &str,
    to_peer: Option<&str>,
) -> (r: (TransactionLog, LogLine))
    ensures
        r.0.event_type == TransactionEventType::Timeout,
        r.0.protocol@ == protocol@,
        opt_string_view(r.0.command) == Some(command@),
        opt_string_view(r.0.request_id) == Some(request_id@),
        r.0.from_peer@ == from_peer@,
        opt_string_view(r.0.to_peer) == opt_view(to_peer),
        r.0.duration_ms is None,
        r.0.error is None,
        r.0.result_size is None,
        r.1.text@ == transaction_text(
            TransactionEventType::Timeout,
            protocol@,
            Some(command@),
            Some(request_id@),
            from_peer@,
            opt_view(to_peer),
            None,
            None,
            None,
        ),
        r.1.to_stderr,
{
    log_transaction(
        TransactionEventType::Timeout,
        protocol,
        Some(command),
        Some(request_id),
        from_peer,
        to_peer,
        None,
        None,
        None,
    )
}

} // verus!
