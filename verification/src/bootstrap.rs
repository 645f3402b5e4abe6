//! The bootstrap node's decisions: which address a failed connection came
//! from, which QUIC handshake stage an error names, and what to record for a
//! new connection.
use vstd::prelude::*;
use vstd::string::*;
use crate::quic_diagnostics::QuicHandshakeStage;
use crate::text::{is_prefix, seq_contains, str_contains, str_starts_with};

verus! {

/// The IP address that a component of an address names, if it is an `ip4`
/// or `ip6` component: the text after `/ip4/` or `/ip6/`.
pub open spec fn component_ip(c: Seq<char>) -> Option<Seq<char>> {
    if is_prefix("/ip4/"@, c) || is_prefix("/ip6/"@, c) {
        Some(c.skip(5))
    } else {
        None
    }
}

/// The IP address of the first `ip4` or `ip6` component of an address.
pub open spec fn first_ip(components: Seq<Seq<char>>) -> Option<Seq<char>>
    decreases components.len(),
{
    if components.len() == 0 {
        None
    } else if component_ip(components[0]) is Some {
        component_ip(components[0])
    } else {
        first_ip(components.drop_first())
    }
}

proof fn lemma_first_ip_step(components: Seq<Seq<char>>, i: int)
    requires
        0 <= i < components.len(),
        forall|j: int| 0 <= j < i ==> component_ip(#[trigger] components[j]) is None,
    ensures
        first_ip(components) == first_ip(components.skip(i)),
    decreases i,
{
    if i > 0 {
        assert(component_ip(components[0]) is None);
        let rest = components.drop_first();
        assert forall|j: int| 0 <= j < i - 1 implies component_ip(#[trigger] rest[j]) is None by {
            assert(rest[j] == components[j + 1]);
        }
        lemma_first_ip_step(rest, i - 1);
        assert(rest.skip(i - 1) =~= components.skip(i));
    } else {
        assert(components.skip(0) =~= components);
    }
}

proof fn lemma_first_ip_none(components: Seq<Seq<char>>)
    requires
        forall|j: int| 0 <= j < components.len() ==> component_ip(#[trigger] components[j]) is None,
    ensures
        first_ip(components) is None,
    decreases components.len(),
{
    if components.len() > 0 {
        assert(component_ip(components[0]) is None);
        let rest = components.drop_first();
        assert forall|j: int| 0 <= j < rest.len() implies component_ip(#[trigger] rest[j]) is None by {
            assert(rest[j] == components[j + 1]);
        }
        lemma_first_ip_none(rest);
    }
}

/// The IP address an address names (its first `ip4` or `ip6` component),
/// given the address's components in their text form (`/ip4/1.2.3.4`,
/// `/tcp/51820`, ...).
pub fn extract_ip_from_multiaddr(components: &Vec<String>) -> (r: Option<String>)
    ensures
        match r {
            Some(ip) => first_ip(components@.map_values(|c: String| c@)) == Some(ip@),
            None => first_ip(components@.map_values(|c: String| c@)) is None,
        },
{
    let ghost views = components@.map_values(|c: String| c@);
    let mut i: usize = 0;
    while i < components.len()
        invariant
            i <= components@.len(),
            views == components@.map_values(|c: String| c@),
            forall|j: int| 0 <= j < i ==> component_ip(#[trigger] views[j]) is None,
        decreases components.len() - i,
    {
        let c = components[i].as_str();
        proof {
            reveal_strlit("/ip4/");
            reveal_strlit("/ip6/");
        }
        if str_starts_with(c, "/ip4/") || str_starts_with(c, "/ip6/") {
            let n = c.unicode_len();
            let ip = c.substring_char(5, n);
            proof {
                lemma_first_ip_step(views, i as int);
                assert(views.skip(i as int)[0] == c@);
                assert(ip@ =~= c@.skip(5));
            }
            return Some(String::from_str(ip));
        }
        i = i + 1;
    }
    proof {
        lemma_first_ip_none(views);
    }
    None
}

/// Whether an address is a QUIC one: it runs over UDP or names `quic-v1`.
pub open spec fn is_quic_spec(addr: Seq<char>) -> bool {
    seq_contains(addr, "/udp/"@) || seq_contains(addr, "/quic-v1"@)
}

/// Whether an address is a QUIC one.
pub fn is_quic_address(addr: &str) -> (r: bool)
    ensures
        r == is_quic_spec(addr@),
{
    str_contains(addr, "/udp/") || str_contains(addr, "/quic-v1")
}

/// The handshake stage that a connection error names: a timeout is a
/// failure, then the initial and handshake stages; other errors name none.
pub open spec fn stage_of_error_spec(error: Seq<char>) -> Option<QuicHandshakeStage> {
    if seq_contains(error, "HandshakeTimedOut"@) || seq_contains(error, "timeout"@) {
        Some(QuicHandshakeStage::Failed)
    } else if seq_contains(error, "Initial"@) {
        Some(QuicHandshakeStage::Initial)
    } else if seq_contains(error, "Handshake"@) {
        Some(QuicHandshakeStage::Handshake)
    } else {
        None
    }
}

/// The handshake stage that a connection error's text names.
pub fn handshake_stage_for_error(error: &str) -> (r: Option<QuicHandshakeStage>)
    ensures
        r == stage_of_error_spec(error@),
{
    if str_contains(error, "HandshakeTimedOut") || str_contains(error, "timeout") {
        Some(QuicHandshakeStage::Failed)
    } else if str_contains(error, "Initial") {
        Some(QuicHandshakeStage::Initial)
    } else if str_contains(error, "Handshake") {
        Some(QuicHandshakeStage::Handshake)
    } else {
        None
    }
}

/// What the diagnostics record of a new connection.
#[derive(Debug, Clone, Copy, PartialEq, Eq, Structural)]
pub struct ConnectionRecordPlan {
    /// Record a connection attempt (for inbound connections).
    pub record_attempt: bool,
    /// Record the connection as established, with a completed handshake
    /// (for QUIC connections).
    pub record_established: bool,
}

/// What to record of a connection to `remote_addr`: the attempt when the
/// peer dialed in, the establishment and completed handshake when it runs
/// over QUIC.
pub fn connection_record_plan(is_dialer: bool, remote_addr: &str) -> (r: ConnectionRecordPlan)
    ensures
        r.record_attempt == !is_dialer,
        r.record_established == is_quic_spec(remote_addr@),
{
    ConnectionRecordPlan { record_attempt: !is_dialer, record_established: is_quic_address(remote_addr) }
}

} // verus!
