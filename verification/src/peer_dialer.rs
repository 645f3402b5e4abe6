//! The dialer peer's decisions: how it retries the server it joins through, in
//! which order it dials a discovered peer's addresses, and the texts of its
//! messages.
use vstd::prelude::*;
use vstd::string::*;
use crate::peer_listener::first8;
use crate::text::{append_decimal, decimal, seq_contains, str_contains};

verus! {

/// How many failed connections are retried before a longer pause.
pub const MAX_RETRIES: u32 = 5;

/// The delay, in seconds, of the first retry (later ones wait a multiple).
pub const INITIAL_RETRY_DELAY: u64 = 2;

/// The pause, in seconds, after the retries ran out.
pub const GIVE_UP_PAUSE: u64 = 30;

/// What a failed connection to the server the dialer joins through leads to.
#[derive(Debug, Clone, Copy, PartialEq, Eq, Structural)]
pub enum RetryDecision {
    /// Dial again after this many seconds.
    RetryAfter(u64),
    /// The retries ran out: report it, and dial again after the pause.
    GiveUp,
}

/// After `failures` failed connections, one more: the n-th failure is
/// retried after `2 n` seconds, up to five; the sixth gives up for a pause,
/// and the count starts over.
pub open spec fn on_failure_spec(failures: u32) -> (RetryDecision, u32) {
    if failures + 1 <= MAX_RETRIES {
        (RetryDecision::RetryAfter((INITIAL_RETRY_DELAY * (failures + 1)) as u64), (failures + 1) as u32)
    } else {
        (RetryDecision::GiveUp, 0)
    }
}

/// A connection to the server the dialer joins through failed after `failures` earlier
/// failures: the decision and the new failure count.
pub fn on_connection_failure(failures: u32) -> (r: (RetryDecision, u32))
    requires
        failures <= MAX_RETRIES,
    ensures
        r == on_failure_spec(failures),
{
    let count = failures + 1;
    if count <= MAX_RETRIES {
        (RetryDecision::RetryAfter(INITIAL_RETRY_DELAY * count as u64), count)
    } else {
        (RetryDecision::GiveUp, 0)
    }
}

/// Whether a retry signal dials that server again.
pub fn should_redial(failures: u32) -> (r: bool)
    ensures
        r == (failures <= MAX_RETRIES),
{
    failures <= MAX_RETRIES
}

/// Law: the failure count stays within the retry limit, and failures wait
/// longer each time until the retries run out.
pub proof fn lemma_retry_bounded(failures: u32)
    requires
        failures <= MAX_RETRIES,
    ensures
        on_failure_spec(failures).1 <= MAX_RETRIES,
        failures < MAX_RETRIES ==> on_failure_spec(failures).0 == RetryDecision::RetryAfter(
            (INITIAL_RETRY_DELAY * (failures + 1)) as u64,
        ),
        failures == MAX_RETRIES ==> on_failure_spec(failures) == (RetryDecision::GiveUp, 0u32),
{
}

/// Whether an address is a local one (`/ip4/127.0.0.1/`).
pub open spec fn is_local_addr(a: Seq<char>) -> bool {
    seq_contains(a, "/ip4/127.0.0.1/"@)
}

/// The order in which a discovered peer's addresses are dialed: the local
/// ones first, each group in its original order.
pub open spec fn dial_order_spec(addrs: Seq<Seq<char>>) -> Seq<Seq<char>> {
    addrs.filter(|a: Seq<char>| is_local_addr(a)) + addrs.filter(|a: Seq<char>| !is_local_addr(a))
}

/// The order in which a discovered peer's addresses are dialed.
pub fn dial_order(addrs: &Vec<String>) -> (r: Vec<String>)
    ensures
        r@.map_values(|a: String| a@) == dial_order_spec(addrs@.map_values(|a: String| a@)),
{
    let ghost views = addrs@.map_values(|a: String| a@);
    let ghost local = |a: Seq<char>| is_local_addr(a);
    let ghost other = |a: Seq<char>| !is_local_addr(a);
    let mut first: Vec<String> = Vec::new();
    let mut rest: Vec<String> = Vec::new();
    let mut i: usize = 0;
    while i < addrs.len()
        invariant
            i <= addrs@.len(),
            views == addrs@.map_values(|a: String| a@),
            local == (|a: Seq<char>| is_local_addr(a)),
            other == (|a: Seq<char>| !is_local_addr(a)),
            first@.map_values(|a: String| a@) == views.subrange(0, i as int).filter(local),
            rest@.map_values(|a: String| a@) == views.subrange(0, i as int).filter(other),
        decreases addrs.len() - i,
    {
        proof {
            crate::kademlia_shard_discovery::lemma_filter_step(views, i as int, local);
            crate::kademlia_shard_discovery::lemma_filter_step(views, i as int, other);
        }
        let a = &addrs[i];
        let ghost fv = first@.map_values(|a: String| a@);
        let ghost rv = rest@.map_values(|a: String| a@);
        if str_contains(a.as_str(), "/ip4/127.0.0.1/") {
            first.push(a.clone());
            proof {
                assert(first@.map_values(|a: String| a@) =~= fv.push(views[i as int]));
            }
        } else {
            rest.push(a.clone());
            proof {
                assert(rest@.map_values(|a: String| a@) =~= rv.push(views[i as int]));
            }
        }
        i = i + 1;
    }
    proof {
        assert(views.subrange(0, i as int) =~= views);
    }
    let ghost fv = first@.map_values(|a: String| a@);
    let ghost rv = rest@.map_values(|a: String| a@);
    first.append(&mut rest);
    proof {
        assert(first@.map_values(|a: String| a@) =~= fv + rv);
    }
    first
}

/// The name a dialer's message carries for peer `peer`: `dialer-` and the
/// first eight characters of the peer id.
pub open spec fn dialer_tag_spec(peer: Seq<char>) -> Seq<char> {
    "dialer-"@ + first8(peer)
}

/// The name a dialer's message carries for a peer.
pub fn dialer_tag(peer: &str) -> (r: String)
    ensures
        r@ == dialer_tag_spec(peer@),
{
    let n = peer.unicode_len();
    let k = if n <= 8 {
        n
    } else {
        8
    };
    let head = peer.substring_char(0, k);
    let mut r = String::from_str("dialer-");
    r.append(head);
    proof {
        assert(head@ =~= first8(peer@));
    }
    r
}

/// The greeting sent to a newly connected peer, as message `n`.
pub fn hello_text(n: u32) -> (r: String)
    ensures
        r@ == "Hello from dialer! Message #"@ + decimal(n as nat),
{
    let mut s = String::from_str("Hello from dialer! Message #");
    append_decimal(&mut s, n as u128);
    s
}

/// The answer to a message of text `message`, as response `n`.
pub fn echo_text(message: &str, n: u32) -> (r: String)
    ensures
        r@ == "Echo from dialer: "@ + message@ + " (response #"@ + decimal(n as nat) + ")"@,
{
    let mut s = String::from_str("Echo from dialer: ");
    s.append(message);
    s.append(" (response #");
    append_decimal(&mut s, n as u128);
    s.append(")");
    s
}

/// The periodic message `n` sent to every connected peer.
pub fn periodic_text(n: u32) -> (r: String)
    ensures
        r@ == "Periodic message #"@ + decimal(n as nat) + " from dialer"@,
{
    let mut s = String::from_str("Periodic message #");
    append_decimal(&mut s, n as u128);
    s.append(" from dialer");
    s
}

} // verus!
