# punch_simple

A peer-to-peer network for distributed Llama inference over libp2p: shard
nodes announce the model shards they serve in a Kademlia DHT, a coordinator
assembles them into a pipeline, and a bootstrap node, a monitor and a web
console keep the network together and show its state.

## Layout

- `src/` is the library, verified with Verus. It holds the command
  protocol and its validation, shard discovery and the pipeline order,
  the coordinator's strategies (waiting, dynamic loading, spawning nodes,
  single-node fallback), the torrent-style file transfer (pieces, hashes,
  reassembly), QUIC connection diagnostics, and the state machines of
  each kind of node. Calls into `sha2`, `uuid`, `libp2p-kad` and std that
  the logic makes stand behind small trusted wrappers whose contracts are
  stated in their doc comments.
- `app/` is the program around it: command-line handling, the libp2p
  swarms, tokio tasks, HTTP, files and processes, and the scoring that
  uses floating point. It feeds the library's state machines with events
  and carries out the actions they return.
- `tests/` runs the library on concrete values.
