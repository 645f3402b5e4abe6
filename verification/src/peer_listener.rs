//! The listener peer's decisions: when to start the DHT bootstrap, when to
//! register, which peers it talks to, and how it answers a message.
use vstd::prelude::*;
use vstd::string::*;
use crate::ai_inference_handler::{
    AIInferenceRequest, copy_key, from_command_error, inference_outcome, process_ai_inference,
    reads_request, value_lookup,
};
use crate::command_protocol::{Command, CommandResponse, JsonValue, Params, ResponseStatus, json_same, opt_string_view};
use crate::command_protocol::commands;
use crate::message::JsonMessage;
use crate::text::{append_decimal, decimal, str_eq};

verus! {

/// What a new connection leads to.
#[derive(Debug, Clone, Copy, PartialEq, Eq, Structural)]
pub enum ConnectionAction {
    /// The first connection (to the bootstrap node): start the DHT bootstrap.
    StartBootstrap,
    /// Bootstrapped but not registered: put the peer's record in the DHT.
    Register,
    /// A new peer to exchange messages with.
    NewPeer,
    /// Nothing to do.
    Nothing,
}

/// The listener's state: its DHT progress, the peers it talks to, its
/// addresses and how many random messages it sent.
pub struct ListenerState {
    bootstrapped: bool,
    registered: bool,
    connected_peers: Vec<String>,
    message_counter: u32,
    listen_addrs: Vec<String>,
}

/// Each peer occurs once.
pub open spec fn distinct(s: Seq<Seq<char>>) -> bool {
    forall|i: int, j: int| 0 <= i < s.len() && 0 <= j < s.len() && i != j ==> s[i] != s[j]
}

impl ListenerState {
    pub closed spec fn is_bootstrapped(&self) -> bool {
        self.bootstrapped
    }

    pub closed spec fn is_registered(&self) -> bool {
        self.registered
    }

    /// The peers it talks to.
    pub closed spec fn peers(&self) -> Seq<Seq<char>> {
        self.connected_peers@.map_values(|p: String| p@)
    }

    /// The number of random message rounds so far.
    pub closed spec fn counter(&self) -> u32 {
        self.message_counter
    }

    /// The addresses it listens on.
    pub closed spec fn addrs(&self) -> Seq<Seq<char>> {
        self.listen_addrs@.map_values(|a: String| a@)
    }

    pub open spec fn wf(&self) -> bool {
        distinct(self.peers())
    }

    /// A listener that has not bootstrapped, registered nor met anyone.
    pub fn new() -> (r: ListenerState)
        ensures
            r.wf(),
            !r.is_bootstrapped(),
            !r.is_registered(),
            r.peers().len() == 0,
            r.counter() == 0,
            r.addrs().len() == 0,
    {
        let r = ListenerState {
            bootstrapped: false,
            registered: false,
            connected_peers: Vec::new(),
            message_counter: 0,
            listen_addrs: Vec::new(),
        };
        assert(r.peers().len() == 0);
        r
    }

    pub fn bootstrapped(&self) -> (r: bool)
        ensures
            r == self.is_bootstrapped(),
    {
        self.bootstrapped
    }

    pub fn registered(&self) -> (r: bool)
        ensures
            r == self.is_registered(),
    {
        self.registered
    }

    /// The number of random message rounds so far.
    pub fn rounds(&self) -> (r: u32)
        ensures
            r == self.counter(),
    {
        self.message_counter
    }

    /// The peers it talks to.
    pub fn connected_peers(&self) -> (r: &Vec<String>)
        ensures
            r@.map_values(|p: String| p@) == self.peers(),
    {
        &self.connected_peers
    }

    /// The addresses it listens on, in the order they came.
    pub fn listen_addrs(&self) -> (r: &Vec<String>)
        ensures
            r@.map_values(|a: String| a@) == self.addrs(),
    {
        &self.listen_addrs
    }

    fn peer_index(&self, peer: &str) -> (r: Option<usize>)
        ensures
            match r {
                Some(i) => i < self.peers().len() && self.peers()[i as int] == peer@,
                None => !self.peers().contains(peer@),
            },
    {
        let mut i: usize = 0;
        while i < self.connected_peers.len()
            invariant
                i <= self.connected_peers@.len(),
                forall|j: int| 0 <= j < i ==> self.peers()[j] != peer@,
            decreases self.connected_peers.len() - i,
        {
            if str_eq(self.connected_peers[i].as_str(), peer) {
                return Some(i);
            }
            i = i + 1;
        }
        None
    }

    /// Whether it talks to `peer`.
    pub fn is_connected(&self, peer: &str) -> (r: bool)
        ensures
            r == self.peers().contains(peer@),
    {
        self.peer_index(peer).is_some()
    }

    /// A new listen address.
    pub fn on_new_listen_addr(&mut self, addr: &str)
        ensures
            final(self).addrs() == old(self).addrs().push(addr@),
            final(self).peers() == old(self).peers(),
            final(self).is_bootstrapped() == old(self).is_bootstrapped(),
            final(self).is_registered() == old(self).is_registered(),
            final(self).counter() == old(self).counter(),
    {
        self.listen_addrs.push(String::from_str(addr));
        assert(self.addrs() =~= old(self).addrs().push(addr@));
    }

    /// A connection with `peer` was established (`local` is this peer's
    /// own id): before the bootstrap, start it; before registering, put the
    /// record; afterwards a peer not yet known, other than itself, is added.
    pub fn on_connection_established(&mut self, peer: &str, local: &str) -> (r: ConnectionAction)
        requires
            old(self).wf(),
        ensures
            final(self).wf(),
            r == if !old(self).is_bootstrapped() {
                ConnectionAction::StartBootstrap
            } else if !old(self).is_registered() {
                ConnectionAction::Register
            } else if peer@ != local@ && !old(self).peers().contains(peer@) {
                ConnectionAction::NewPeer
            } else {
                ConnectionAction::Nothing
            },
            final(self).peers() == if r == ConnectionAction::NewPeer {
                old(self).peers().push(peer@)
            } else {
                old(self).peers()
            },
            final(self).is_bootstrapped() == old(self).is_bootstrapped(),
            final(self).is_registered() == old(self).is_registered(),
            final(self).counter() == old(self).counter(),
            final(self).addrs() == old(self).addrs(),
    {
        if !self.bootstrapped {
            ConnectionAction::StartBootstrap
        } else if !self.registered {
            ConnectionAction::Register
        } else if !str_eq(peer, local) && self.peer_index(peer).is_none() {
            self.connected_peers.push(String::from_str(peer));
            assert(self.peers() =~= old(self).peers().push(peer@));
            ConnectionAction::NewPeer
        } else {
            ConnectionAction::Nothing
        }
    }

    /// The peer's record was put in the DHT.
    pub fn mark_registered(&mut self)
        ensures
            final(self).is_registered(),
            final(self).peers() == old(self).peers(),
            final(self).is_bootstrapped() == old(self).is_bootstrapped(),
            final(self).counter() == old(self).counter(),
            final(self).addrs() == old(self).addrs(),
    {
        self.registered = true;
    }

    /// The connection with `peer` closed: it is no longer talked to.
    pub fn on_connection_closed(&mut self, peer: &str)
        requires
            old(self).wf(),
        ensures
            final(self).wf(),
            !final(self).peers().contains(peer@),
            forall|p: Seq<char>| p != peer@ ==> (final(self).peers().contains(p) <==> old(self).peers().contains(p)),
            final(self).is_bootstrapped() == old(self).is_bootstrapped(),
            final(self).is_registered() == old(self).is_registered(),
            final(self).counter() == old(self).counter(),
            final(self).addrs() == old(self).addrs(),
    {
        match self.peer_index(peer) {
            Some(i) => {
                let ghost before = self.peers();
                self.connected_peers.remove(i);
                proof {
                    assert(self.peers() =~= before.remove(i as int));
                    assert forall|p: Seq<char>| p != peer@ implies (self.peers().contains(p) <==> before.contains(p)) by {
                        if before.contains(p) {
                            let k = choose|k: int| 0 <= k < before.len() && before[k] == p;
                            assert(k != i);
                            if k < i {
                                assert(self.peers()[k] == p);
                            } else {
                                assert(self.peers()[k - 1] == p);
                            }
                        }
                    }
                    assert(!self.peers().contains(peer@)) by {
                        if self.peers().contains(peer@) {
                            let k = choose|k: int| 0 <= k < self.peers().len() && self.peers()[k] == peer@;
                            if k < i {
                                assert(before[k] == before[i as int]);
                            } else {
                                assert(before[k + 1] == before[i as int]);
                            }
                        }
                    }
                }
            },
            None => {},
        }
    }

    /// The routing table was updated: the first update marks the DHT as
    /// bootstrapped. Returns whether to look the namespace up now (on the
    /// first update, once registered).
    pub fn on_routing_updated(&mut self) -> (r: bool)
        ensures
            r == (!old(self).is_bootstrapped() && old(self).is_registered()),
            final(self).is_bootstrapped(),
            final(self).is_registered() == old(self).is_registered(),
            final(self).peers() == old(self).peers(),
            final(self).counter() == old(self).counter(),
            final(self).addrs() == old(self).addrs(),
    {
        if !self.bootstrapped {
            self.bootstrapped = true;
            self.registered
        } else {
            false
        }
    }

    /// The bootstrap query succeeded.
    pub fn on_bootstrap_ok(&mut self)
        ensures
            final(self).is_bootstrapped(),
            final(self).is_registered() == old(self).is_registered(),
            final(self).peers() == old(self).peers(),
            final(self).counter() == old(self).counter(),
            final(self).addrs() == old(self).addrs(),
    {
        self.bootstrapped = true;
    }

    /// How many record lookups a list of discovered peers calls for: one for
    /// each that is neither talked to already nor this peer itself.
    pub fn lookups_for_discovered(&self, discovered: &Vec<String>, local: &str) -> (r: usize)
        ensures
            r == discovered@.filter(|d: String| !self.peers().contains(d@) && d@ != local@).len(),
    {
        let ghost pred = |d: String| !self.peers().contains(d@) && d@ != local@;
        let mut n: usize = 0;
        let mut i: usize = 0;
        while i < discovered.len()
            invariant
                i <= discovered@.len(),
                n == discovered@.subrange(0, i as int).filter(pred).len(),
                n <= i,
                pred == (|d: String| !self.peers().contains(d@) && d@ != local@),
            decreases discovered.len() - i,
        {
            proof {
                crate::kademlia_shard_discovery::lemma_filter_step(discovered@, i as int, pred);
            }
            let d = discovered[i].as_str();
            if !self.is_connected(d) && !str_eq(d, local) {
                n = n + 1;
            }
            i = i + 1;
        }
        assert(discovered@.subrange(0, i as int) =~= discovered@);
        n
    }

    /// Starts a round of random messages: the round counter grows by one.
    pub fn next_round(&mut self) -> (r: u32)
        requires
            old(self).counter() < u32::MAX,
        ensures
            r == old(self).counter() + 1,
            final(self).counter() == r,
            final(self).peers() == old(self).peers(),
            final(self).is_bootstrapped() == old(self).is_bootstrapped(),
            final(self).is_registered() == old(self).is_registered(),
            final(self).addrs() == old(self).addrs(),
    {
        self.message_counter = self.message_counter + 1;
        self.message_counter
    }
}

/// The first eight characters of `s` (all of it, if shorter).
pub open spec fn first8(s: Seq<char>) -> Seq<char> {
    if s.len() <= 8 {
        s
    } else {
        s.take(8)
    }
}

/// The name a listener signs its messages with: `listener-` and the first
/// eight characters of its peer id.
pub open spec fn listener_tag_spec(local: Seq<char>) -> Seq<char> {
    "listener-"@ + first8(local)
}

/// The name a listener signs its messages with.
pub fn listener_tag(local: &str) -> (r: String)
    ensures
        r@ == listener_tag_spec(local@),
{
    let n = local.unicode_len();
    let k = if n <= 8 {
        n
    } else {
        8
    };
    let head = local.substring_char(0, k);
    let mut r = String::from_str("listener-");
    r.append(head);
    proof {
        assert(head@ =~= first8(local@));
    }
    r
}

/// The text of a random message of round `round`: one of four forms, chosen
/// by `choice` (taken modulo 4), with the random numbers `payload` and
/// `data`.
pub open spec fn random_text_spec(round: u32, choice: usize, payload: u32, data: u32) -> Seq<char> {
    let c = choice % 4;
    if c == 0 {
        "Load test message #"@ + decimal(round as nat)
    } else if c == 1 {
        "Random payload "@ + decimal(payload as nat)
    } else if c == 2 {
        "Test data: "@ + decimal(data as nat)
    } else {
        "Message batch "@ + decimal(round as nat)
    }
}

/// The text of a random message (the random numbers come from the caller).
pub fn random_message_text(round: u32, choice: usize, payload: u32, data: u32) -> (r: String)
    ensures
        r@ == random_text_spec(round, choice, payload, data),
{
    let c = choice % 4;
    let mut s: String;
    if c == 0 {
        s = String::from_str("Load test message #");
        append_decimal(&mut s, round as u128);
    } else if c == 1 {
        s = String::from_str("Random payload ");
        append_decimal(&mut s, payload as u128);
    } else if c == 2 {
        s = String::from_str("Test data: ");
        append_decimal(&mut s, data as u128);
    } else {
        s = String::from_str("Message batch ");
        append_decimal(&mut s, round as u128);
    }
    s
}

/// How a listener answers a message.
#[derive(Debug)]
pub enum ListenerReply {
    /// The response to an AI inference task, signed with the listener's peer id.
    Task(CommandResponse),
    /// An echo of the message, signed with the listener's tag.
    Echo(JsonMessage),
}

/// The data of a task response whose inference gave `result`: its output
/// and model, those it has.
pub open spec fn task_data_is(p: Map<Seq<char>, JsonValue>, result: JsonValue) -> bool {
    &&& forall|k: Seq<char>| #[trigger] p.dom().contains(k) ==> k == "output"@ || k == "model"@
    &&& forall|k: Seq<char>|
        (k == "output"@ || k == "model"@) ==> match value_lookup(result, k) {
            Some(x) => #[trigger] p.dom().contains(k) && json_same(p[k], x),
            None => !p.dom().contains(k),
        }
}

/// The response `resp` of listener `local` to task `cmd` whose inference
/// gave `outcome`.
pub open spec fn task_response_is(
    resp: CommandResponse,
    cmd: Command,
    outcome: Result<JsonValue, String>,
    local: Seq<char>,
) -> bool {
    &&& resp.command@ == cmd.command@
    &&& resp.request_id@ == cmd.request_id@
    &&& resp.from@ == local
    &&& resp.to@ == cmd.from@
    &&& match outcome {
        Ok(v) => {
            &&& resp.status == ResponseStatus::Success
            &&& resp.error is None
            &&& resp.result matches Some(p) && task_data_is(p@, v)
        },
        Err(e) => {
            &&& resp.status == ResponseStatus::Error
            &&& resp.result is None
            &&& opt_string_view(resp.error) == Some(e@)
        },
    }
}

/// The response of listener `local` to task `cmd` whose inference gave
/// `outcome`.
pub fn task_response(cmd: &Command, outcome: &Result<JsonValue, String>, local: &str) -> (r: CommandResponse)
    ensures
        task_response_is(r, *cmd, *outcome, local@),
{
    match outcome {
        Ok(v) => {
            let mut data = Params::new();
            copy_key(&mut data, v, "output");
            copy_key(&mut data, v, "model");
            proof {
                reveal_strlit("output");
                reveal_strlit("model");
                assert("output"@[0] != "model"@[0]);
            }
            CommandResponse::success(cmd.command.as_str(), cmd.request_id.as_str(), local, cmd.from.as_str(), data)
        },
        Err(e) => CommandResponse::error(
            cmd.command.as_str(),
            cmd.request_id.as_str(),
            local,
            cmd.from.as_str(),
            e.as_str(),
        ),
    }
}

/// Whether a parsed message is an AI inference task the listener runs.
pub open spec fn is_task(parsed: Option<Command>) -> bool {
    parsed matches Some(cmd) && cmd.command@ == commands::EXECUTE_TASK@ && from_command_error(cmd) is None
}

/// How listener `local` answers a message of text `text`, which parsed as
/// the command `parsed` (or did not parse): an AI inference task is run
/// and answered with its response; anything else is echoed back as
/// `Echo: {text}`, signed with the listener's tag.
pub fn listener_reply(parsed: Option<&Command>, text: &str, local: &str) -> (r: ListenerReply)
    ensures
        if parsed is Some && is_task(Some(*parsed->0)) {
            (r matches ListenerReply::Task(resp) && exists|req: AIInferenceRequest, outcome: Result<JsonValue, String>|
                #![trigger reads_request(*parsed->0, req), inference_outcome(req, outcome)]
                reads_request(*parsed->0, req) && inference_outcome(req, outcome) && task_response_is(
                    resp,
                    *parsed->0,
                    outcome,
                    local@,
                ))
        } else {
            (r matches ListenerReply::Echo(m) && m.from@ == listener_tag_spec(local@) && m.message@ == "Echo: "@
                + text@ && m.send_time_ms is Some)
        },
{
    match parsed {
        Some(cmd) => {
            if str_eq(cmd.command.as_str(), commands::EXECUTE_TASK) {
                match AIInferenceRequest::from_command(cmd) {
                    Ok(req) => {
                        let outcome = process_ai_inference(&req);
                        let resp = task_response(cmd, &outcome, local);
                        return ListenerReply::Task(resp);
                    },
                    Err(_) => {},
                }
            }
        },
        None => {},
    }
    let mut m = String::from_str("Echo: ");
    m.append(text);
    ListenerReply::Echo(JsonMessage::new(listener_tag(local), m))
}

} // verus!
