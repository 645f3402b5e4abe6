//! The web front end's decisions: the canned answers of the demo, the
//! answer it sends for a query run through the pipeline, the progress
//! updates it streams, and the layer split of a simulated shard.
use vstd::prelude::*;
use vstd::string::*;
use crate::pipeline_coordinator::{InferenceResponse, PipelineError, error_message, ShardLatency};
use crate::kademlia_shard_discovery::{layer_start_spec, layer_end_spec, layout_fits};
use crate::text::{decimal, is_prefix, lowercase, seq_contains, str_contains, str_starts_with, to_lowercase};

verus! {
pub const PINBALL_WIZARD: &'static str = "**Pete Townshend** wrote \"Pinball Wizard\" for The Who's 1969 rock opera \"Tommy\". The song tells the story of a \"deaf, dumb and blind kid\" who becomes a pinball champion. It reached #4 in the UK and #19 in the US. Elton John later covered it for the 1975 film.";
pub const WONDERWALL: &'static str = "**Noel Gallagher** wrote \"Wonderwall\" for **Oasis** in 1995. It appeared on \"(What's the Story) Morning Glory?\" and reached #2 in the UK. Noel said it's about \"an imaginary friend who's gonna save you from yourself.\" It's one of the most-covered songs ever.";
pub const BOHEMIAN_RHAPSODY: &'static str = "**Freddie Mercury** wrote \"Bohemian Rhapsody\" for **Queen** in 1975. The 6-minute epic features an intro, ballad, operatic section, hard rock segment, and outro. Despite being \"too long for radio,\" it became one of the best-selling singles of all time.";
pub const TWIST_AND_SHOUT: &'static str = "\"Twist and Shout\" was written by **Phil Medley** and **Bert Berns** in 1961. The Beatles' 1963 version is most famous - recorded in one take at the end of a 10-hour session when John Lennon's voice was nearly gone, giving it that raw, powerful sound.";
pub const IMAGINE: &'static str = "**John Lennon** wrote \"Imagine\" in 1971. It envisions a world without borders, religion, or possessions. Yoko Ono was credited as co-writer in 2017. It's been voted the best song of the 20th century and remains an anthem for peace movements worldwide.";
pub const STAIRWAY_TO_HEAVEN: &'static str = "**Jimmy Page** (music) and **Robert Plant** (lyrics) wrote \"Stairway to Heaven\" for Led Zeppelin in 1971. At 8 minutes, it builds from acoustic to thundering rock. Never released as a single, yet became the most-requested song in radio history.";
pub const HOTEL_CALIFORNIA: &'static str = "**Don Felder** wrote the music, **Don Henley** and **Glenn Frey** wrote the lyrics to \"Hotel California\" for the Eagles in 1977. Often interpreted as a metaphor for excess in the music industry. The guitar outro with Felder and Joe Walsh is iconic.";
pub const TEEN_SPIRIT: &'static str = "**Kurt Cobain** wrote \"Smells Like Teen Spirit\" for Nirvana in 1991. The title came from graffiti by Kathleen Hanna (referencing a deodorant brand). It knocked Michael Jackson off #1 and defined the grunge movement. Cobain grew to hate it due to its popularity.";
pub const YESTERDAY: &'static str = "**Paul McCartney** wrote \"Yesterday\" for the Beatles in 1965. It's the most-covered song in history with 2,200+ versions. McCartney woke up with the melody and initially used \"Scrambled eggs\" as placeholder lyrics. It was the first Beatles song featuring just one member.";
pub const ROLLING_STONE: &'static str = "**Bob Dylan** wrote \"Like a Rolling Stone\" in 1965. Rolling Stone magazine ranked it #1 greatest song of all time. At 6 minutes, it broke radio conventions. The opening snare hit by Bobby Gregg is one of rock's most famous drum sounds.";
pub const SWEET_HOME_ALABAMA: &'static str = "Lynyrd Skynyrd's **Ronnie Van Zant**, **Ed King**, and **Gary Rossington** wrote \"Sweet Home Alabama\" in 1974. It was a response to Neil Young's \"Southern Man.\" Despite the lyrical rivalry, Van Zant was a huge Neil Young fan and wore his t-shirt on stage.";
pub const CAPITAL_FRANCE: &'static str = "The capital of **France** is **Paris**. Located on the Seine River, it's known as the \"City of Light.\" Key landmarks include the Eiffel Tower (1889), Louvre Museum, Notre-Dame Cathedral, and Arc de Triomphe. Population: 2.1 million (12 million metro).";
pub const CAPITAL_JAPAN: &'static str = "The capital of **Japan** is **Tokyo**. With 37 million people, it's the world's most populous metro area. Famous districts include Shibuya, Shinjuku, and Akihabara. It blends ancient temples like Senso-ji with ultramodern architecture and technology.";
pub const CAPITAL_GERMANY: &'static str = "The capital of **Germany** is **Berlin**. Population: 3.7 million. It's been the capital of reunified Germany since 1990. Key sites include Brandenburg Gate, the Reichstag, Berlin Wall remnants, and Museum Island (UNESCO World Heritage).";
pub const CAPITAL_ITALY: &'static str = "The capital of **Italy** is **Rome**. Founded in 753 BC, it was the center of the Roman Empire. Home to the Vatican City, Colosseum, Pantheon, and Trevi Fountain. Population: 2.8 million. It's called \"The Eternal City.\"";
pub const CAPITAL_SPAIN: &'static str = "The capital of **Spain** is **Madrid**. Located in the center of the Iberian Peninsula, it's Spain's largest city with 3.3 million people. Famous for the Prado Museum, Royal Palace, and vibrant nightlife. It became the capital in 1561.";
pub const ABOUT_PROMETHOS: &'static str = "I am **Promethos-AI**, a distributed AI running on a decentralized swarm network. Your queries are processed across 4 neural network shards via Kademlia DHT. The name references Prometheus, who brought fire to humanity - we're bringing AI to everyone through distributed computing.";
pub const RUST_EXAMPLE: &'static str = "Here's a Rust async example:\n\n```rust\n#[tokio::main]\nasync fn main() {\n    let result = fetch_data().await;\n    println!(\"Got: {}\", result);\n}\n\nasync fn fetch_data() -> String {\n    tokio::time::sleep(Duration::from_secs(1)).await;\n    \"Hello from async Rust!\".to_string()\n}\n```\n\nThis shows Rust's async/await with Tokio runtime.";
pub const GREETING: &'static str = "**Hello!** 👋 I'm Promethos-AI, running on a distributed swarm network. Try asking me about:\n\n• 🎵 Music: \"Who wrote Bohemian Rhapsody?\"\n• 🌍 Geography: \"What is the capital of Japan?\"\n• 💻 Code: \"Show me some Rust code\"\n• 🤖 About me: \"What is Promethos?\"";
pub const ARITHMETIC: &'static str = "2 + 2 = **4**\n\nFun fact: This simple equation is processed through the same distributed pipeline as complex queries - tokenized, embedded into vectors, processed through transformer layers, and decoded into this response!";
pub const WEATHER: &'static str = "I don't have real-time data access, but I can explain weather! It's determined by atmospheric pressure, humidity, temperature, and wind patterns. For current conditions, try weather.gov (US) or your phone's weather app.";

/// The start of the answer to a query the demo has no answer for.
pub const DEFAULT_PREFIX: &'static str = "I processed your query \"";

/// The end of the answer to a query the demo has no answer for.
pub const DEFAULT_SUFFIX: &'static str = "\" through the distributed Promethos-AI pipeline.\n\nWhile I don't have specific information about that topic in my current knowledge base, I can help with:\n\n• 🎵 **Music**: Song writers and history\n• 🌍 **Geography**: World capitals and facts\n• 💻 **Code**: Rust programming examples\n• 🤖 **AI**: How this system works\n\nTry asking something like \"Who wrote Hotel California?\" or \"What is the capital of France?\"";

/// The demo's answer to a query, by the first topic its lower-case form
/// matches; for no topic, an invitation that quotes the query.
pub open spec fn response_spec(query: Seq<char>) -> Seq<char> {
    let q = lowercase(query);
    if seq_contains(q, "pinball wizard"@) {
        PINBALL_WIZARD@
    } else if seq_contains(q, "wonderwall"@) {
        WONDERWALL@
    } else if seq_contains(q, "bohemian rhapsody"@) {
        BOHEMIAN_RHAPSODY@
    } else if seq_contains(q, "twist and shout"@) || seq_contains(q, "twist & shout"@) {
        TWIST_AND_SHOUT@
    } else if seq_contains(q, "imagine"@) && !seq_contains(q, "dragon"@) {
        IMAGINE@
    } else if seq_contains(q, "stairway to heaven"@) {
        STAIRWAY_TO_HEAVEN@
    } else if seq_contains(q, "hotel california"@) {
        HOTEL_CALIFORNIA@
    } else if seq_contains(q, "smells like teen spirit"@) {
        TEEN_SPIRIT@
    } else if seq_contains(q, "yesterday"@) && seq_contains(q, "beatles"@) || (seq_contains(q, "yesterday"@) && seq_contains(q, "wrote"@)) {
        YESTERDAY@
    } else if seq_contains(q, "like a rolling stone"@) {
        ROLLING_STONE@
    } else if seq_contains(q, "sweet home alabama"@) {
        SWEET_HOME_ALABAMA@
    } else if seq_contains(q, "capital"@) && seq_contains(q, "france"@) {
        CAPITAL_FRANCE@
    } else if seq_contains(q, "capital"@) && seq_contains(q, "japan"@) {
        CAPITAL_JAPAN@
    } else if seq_contains(q, "capital"@) && seq_contains(q, "germany"@) {
        CAPITAL_GERMANY@
    } else if seq_contains(q, "capital"@) && seq_contains(q, "italy"@) {
        CAPITAL_ITALY@
    } else if seq_contains(q, "capital"@) && seq_contains(q, "spain"@) {
        CAPITAL_SPAIN@
    } else if seq_contains(q, "promethos"@) || seq_contains(q, "what are you"@) || seq_contains(q, "who are you"@) {
        ABOUT_PROMETHOS@
    } else if seq_contains(q, "rust"@) || seq_contains(q, "code"@) || seq_contains(q, "program"@) {
        RUST_EXAMPLE@
    } else if seq_contains(q, "hello"@) || seq_contains(q, "hi "@) || is_prefix("hi"@, q) || seq_contains(q, "hey"@) {
        GREETING@
    } else if seq_contains(q, "2+2"@) || seq_contains(q, "2 + 2"@) {
        ARITHMETIC@
    } else if seq_contains(q, "weather"@) {
        WEATHER@
    } else {
        DEFAULT_PREFIX@ + query + DEFAULT_SUFFIX@
    }
}

/// The demo's canned answer to a query.
pub fn generate_response(query: &str) -> (r: String)
    ensures
        r@ == response_spec(query@),
{
    let lower = to_lowercase(query);
    let q = lower.as_str();
    if str_contains(q, "pinball wizard") {
        String::from_str(PINBALL_WIZARD)
    } else if str_contains(q, "wonderwall") {
        String::from_str(WONDERWALL)
    } else if str_contains(q, "bohemian rhapsody") {
        String::from_str(BOHEMIAN_RHAPSODY)
    } else if str_contains(q, "twist and shout") || str_contains(q, "twist & shout") {
        String::from_str(TWIST_AND_SHOUT)
    } else if str_contains(q, "imagine") && !str_contains(q, "dragon") {
        String::from_str(IMAGINE)
    } else if str_contains(q, "stairway to heaven") {
        String::from_str(STAIRWAY_TO_HEAVEN)
    } else if str_contains(q, "hotel california") {
        String::from_str(HOTEL_CALIFORNIA)
    } else if str_contains(q, "smells like teen spirit") {
        String::from_str(TEEN_SPIRIT)
    } else if str_contains(q, "yesterday") && str_contains(q, "beatles") || (str_contains(q, "yesterday") && str_contains(q, "wrote")) {
        String::from_str(YESTERDAY)
    } else if str_contains(q, "like a rolling stone") {
        String::from_str(ROLLING_STONE)
    } else if str_contains(q, "sweet home alabama") {
        String::from_str(SWEET_HOME_ALABAMA)
    } else if str_contains(q, "capital") && str_contains(q, "france") {
        String::from_str(CAPITAL_FRANCE)
    } else if str_contains(q, "capital") && str_contains(q, "japan") {
        String::from_str(CAPITAL_JAPAN)
    } else if str_contains(q, "capital") && str_contains(q, "germany") {
        String::from_str(CAPITAL_GERMANY)
    } else if str_contains(q, "capital") && str_contains(q, "italy") {
        String::from_str(CAPITAL_ITALY)
    } else if str_contains(q, "capital") && str_contains(q, "spain") {
        String::from_str(CAPITAL_SPAIN)
    } else if str_contains(q, "promethos") || str_contains(q, "what are you") || str_contains(q, "who are you") {
        String::from_str(ABOUT_PROMETHOS)
    } else if str_contains(q, "rust") || str_contains(q, "code") || str_contains(q, "program") {
        String::from_str(RUST_EXAMPLE)
    } else if str_contains(q, "hello") || str_contains(q, "hi ") || str_starts_with(q, "hi") || str_contains(q, "hey") {
        String::from_str(GREETING)
    } else if str_contains(q, "2+2") || str_contains(q, "2 + 2") {
        String::from_str(ARITHMETIC)
    } else if str_contains(q, "weather") {
        String::from_str(WEATHER)
    } else {
        let mut s = String::from_str(DEFAULT_PREFIX);
        s.append(query);
        s.append(DEFAULT_SUFFIX);
        s
    }
}

/// A simulated shard node: its layers and whether it holds the embeddings
/// and the output head.
#[derive(Debug, Clone, Copy, PartialEq, Eq, Structural)]
pub struct ShardNode {
    pub shard_id: u32,
    pub layer_start: u32,
    pub layer_end: u32,
    pub has_embeddings: bool,
    pub has_output: bool,
}

impl ShardNode {
    /// Shard `shard_id` of `total_shards` of a model of `total_layers`
    /// layers: an equal share each, the last running to the last layer.
    pub fn new(shard_id: u32, total_shards: u32, total_layers: u32) -> (r: ShardNode)
        requires
            layout_fits(shard_id, total_shards, total_layers),
        ensures
            r.shard_id == shard_id,
            r.layer_start == layer_start_spec(shard_id, total_shards, total_layers),
            r.layer_end == layer_end_spec(shard_id, total_shards, total_layers),
            r.has_embeddings == (shard_id == 0),
            r.has_output == (shard_id == total_shards - 1),
    {
        proof {
            crate::kademlia_shard_discovery::lemma_layout(shard_id, total_shards, total_layers);
        }
        let layers_per_shard = total_layers / total_shards;
        let layer_start = shard_id * layers_per_shard;
        let layer_end = if shard_id == total_shards - 1 {
            total_layers
        } else {
            (shard_id + 1) * layers_per_shard
        };
        ShardNode {
            shard_id,
            layer_start,
            layer_end,
            has_embeddings: shard_id == 0,
            has_output: shard_id == total_shards - 1,
        }
    }
}

/// Shard figures in an answer.
#[derive(Debug, Clone, Copy, PartialEq, Eq, Structural)]
pub struct ShardInfo {
    pub shard_id: u32,
    pub layer_start: u32,
    pub layer_end: u32,
    pub latency_ms: u64,
}

/// The answer sent for a query.
#[derive(Debug)]
pub struct QueryResponse {
    pub response: String,
    pub tokens: usize,
    pub latency_ms: u64,
    pub shards_used: Vec<ShardInfo>,
    pub success: bool,
    pub request_id: Option<String>,
}

/// A progress update streamed while a query runs.
#[derive(Debug)]
pub struct PipelineUpdate {
    pub stage: String,
    /// "waiting", "processing", "complete" or "error"
    pub status: String,
    pub shard_id: Option<u32>,
    pub latency_ms: Option<u64>,
}

/// The pipeline status sent to a web client.
#[derive(Debug)]
pub struct PipelineStatusMessage {
    pub message_type: String,
    pub total_nodes: u32,
    pub online_nodes: u32,
    pub missing_shards: Vec<u32>,
    pub is_complete: bool,
}

/// The pipeline status message: `pipeline_status` with the given figures.
pub fn pipeline_status_message(total_nodes: u32, online_nodes: u32, missing_shards: Vec<u32>, is_complete: bool) -> (r:
    PipelineStatusMessage)
    ensures
        r.message_type@ == "pipeline_status"@,
        r.total_nodes == total_nodes,
        r.online_nodes == online_nodes,
        r.missing_shards == missing_shards,
        r.is_complete == is_complete,
{
    PipelineStatusMessage {
        message_type: String::from_str("pipeline_status"),
        total_nodes,
        online_nodes,
        missing_shards,
        is_complete,
    }
}

/// A progress update.
pub fn update(stage: &str, status: &str, shard_id: Option<u32>, latency_ms: Option<u64>) -> (r: PipelineUpdate)
    ensures
        r.stage@ == stage@,
        r.status@ == status@,
        r.shard_id == shard_id,
        r.latency_ms == latency_ms,
{
    PipelineUpdate { stage: String::from_str(stage), status: String::from_str(status), shard_id, latency_ms }
}

/// The stage name of a shard: `shard{id}`.
pub open spec fn shard_stage(shard_id: u32) -> Seq<char> {
    "shard"@ + decimal(shard_id as nat)
}

/// The updates streamed for the shards of a successful run: for each shard
/// in order, processing and then complete with its latency.
pub fn shard_updates(latencies: &Vec<ShardLatency>) -> (r: Vec<PipelineUpdate>)
    ensures
        r@.len() == 2 * latencies@.len(),
        forall|i: int|
            0 <= i < latencies@.len() ==> {
                let a = #[trigger] r@[2 * i];
                let b = r@[2 * i + 1];
                let id = latencies@[i].shard_id;
                &&& a.stage@ == shard_stage(id) && a.status@ == "processing"@ && a.shard_id == Some(id)
                    && a.latency_ms is None
                &&& b.stage@ == shard_stage(id) && b.status@ == "complete"@ && b.shard_id == Some(id)
                    && b.latency_ms == Some(latencies@[i].latency_ms)
            },
{
    let mut out: Vec<PipelineUpdate> = Vec::new();
    let mut i: usize = 0;
    while i < latencies.len()
        invariant
            i <= latencies@.len(),
            out@.len() == 2 * i,
            forall|j: int|
                0 <= j < i ==> {
                    let a = #[trigger] out@[2 * j];
                    let b = out@[2 * j + 1];
                    let id = latencies@[j].shard_id;
                    &&& a.stage@ == shard_stage(id) && a.status@ == "processing"@ && a.shard_id == Some(id)
                        && a.latency_ms is None
                    &&& b.stage@ == shard_stage(id) && b.status@ == "complete"@ && b.shard_id == Some(id)
                        && b.latency_ms == Some(latencies@[j].latency_ms)
                },
        decreases latencies.len() - i,
    {
        let id = latencies[i].shard_id;
        let mut stage = String::from_str("shard");
        crate::text::append_decimal(&mut stage, id as u128);
        let stage2 = stage.clone();
        out.push(PipelineUpdate { stage, status: String::from_str("processing"), shard_id: Some(id), latency_ms: None });
        out.push(
            PipelineUpdate {
                stage: stage2,
                status: String::from_str("complete"),
                shard_id: Some(id),
                latency_ms: Some(latencies[i].latency_ms),
            },
        );
        proof {
            assert forall|j: int| 0 <= j < i + 1 implies {
                let a = #[trigger] out@[2 * j];
                let b = out@[2 * j + 1];
                let id = latencies@[j].shard_id;
                &&& a.stage@ == shard_stage(id) && a.status@ == "processing"@ && a.shard_id == Some(id)
                    && a.latency_ms is None
                &&& b.stage@ == shard_stage(id) && b.status@ == "complete"@ && b.shard_id == Some(id)
                    && b.latency_ms == Some(latencies@[j].latency_ms)
            } by {
                if j == i {
                    assert(out@[2 * j] == out@[2 * i as int]);
                }
            }
        }
        i = i + 1;
    }
    out
}

/// The answer for a query whose run gave `result`, `elapsed_ms` after it
/// started: a success carries the text, tokens, latency, shards (with
/// their latencies) and request id; a failure carries the error.
pub fn query_response(result: Result<InferenceResponse, PipelineError>, elapsed_ms: u64) -> (r: QueryResponse)
    ensures
        match result {
            Ok(resp) => {
                &&& r.response == resp.text
                &&& r.tokens == resp.tokens_generated as usize
                &&& r.latency_ms == resp.total_latency_ms
                &&& r.shards_used@.len() == resp.shard_latencies@.len()
                &&& forall|i: int|
                    0 <= i < r.shards_used@.len() ==> #[trigger] r.shards_used@[i] == (ShardInfo {
                        shard_id: resp.shard_latencies@[i].shard_id,
                        layer_start: 0,
                        layer_end: 0,
                        latency_ms: resp.shard_latencies@[i].latency_ms,
                    })
                &&& r.success == resp.success
                &&& r.request_id == Some(resp.request_id)
            },
            Err(e) => {
                &&& r.response@ == "Pipeline error: "@ + error_message(e)
                &&& r.tokens == 0
                &&& r.latency_ms == elapsed_ms
                &&& r.shards_used@.len() == 0
                &&& !r.success
                &&& r.request_id is None
            },
        },
{
    match result {
        Ok(resp) => {
            let mut shards: Vec<ShardInfo> = Vec::new();
            let mut i: usize = 0;
            while i < resp.shard_latencies.len()
                invariant
                    i <= resp.shard_latencies@.len(),
                    shards@.len() == i,
                    forall|j: int|
                        0 <= j < i ==> #[trigger] shards@[j] == (ShardInfo {
                            shard_id: resp.shard_latencies@[j].shard_id,
                            layer_start: 0,
                            layer_end: 0,
                            latency_ms: resp.shard_latencies@[j].latency_ms,
                        }),
                decreases resp.shard_latencies.len() - i,
            {
                shards.push(
                    ShardInfo {
                        shard_id: resp.shard_latencies[i].shard_id,
                        layer_start: 0,
                        layer_end: 0,
                        latency_ms: resp.shard_latencies[i].latency_ms,
                    },
                );
                i = i + 1;
            }
            QueryResponse {
                response: resp.text,
                tokens: resp.tokens_generated as usize,
                latency_ms: resp.total_latency_ms,
                shards_used: shards,
                success: resp.success,
                request_id: Some(resp.request_id),
            }
        },
        Err(e) => {
            let mut m = String::from_str("Pipeline error: ");
            let t = e.message();
            m.append(t.as_str());
            QueryResponse {
                response: m,
                tokens: 0,
                latency_ms: elapsed_ms,
                shards_used: Vec::new(),
                success: false,
                request_id: None,
            }
        },
    }
}

/// The background discovery's progress: whether the DHT bootstrap started
/// and whether the shard records were asked for.
#[derive(Debug, Clone, Copy, PartialEq, Eq, Structural)]
pub struct DhtDiscoveryState {
    pub bootstrapped: bool,
    pub queries_sent: bool,
}

impl DhtDiscoveryState {
    pub fn new() -> (r: DhtDiscoveryState)
        ensures
            r == (DhtDiscoveryState { bootstrapped: false, queries_sent: false }),
    {
        DhtDiscoveryState { bootstrapped: false, queries_sent: false }
    }

    /// On a new connection: whether to start the DHT bootstrap.
    pub fn should_bootstrap(&self) -> (r: bool)
        ensures
            r == !self.bootstrapped,
    {
        !self.bootstrapped
    }

    /// Takes in whether the bootstrap started.
    pub fn bootstrap_started(&mut self, ok: bool)
        ensures
            *final(self) == (DhtDiscoveryState { bootstrapped: old(self).bootstrapped || ok, ..*old(self) }),
    {
        if ok {
            self.bootstrapped = true;
        }
    }

    /// On a routing update: whether to ask for the shard records now (once,
    /// after the bootstrap started).
    pub fn on_routing_updated(&mut self) -> (r: bool)
        ensures
            r == (old(self).bootstrapped && !old(self).queries_sent),
            *final(self) == (DhtDiscoveryState { queries_sent: old(self).queries_sent || r, ..*old(self) }),
    {
        if !self.queries_sent && self.bootstrapped {
            self.queries_sent = true;
            true
        } else {
            false
        }
    }
}

} // verus!
