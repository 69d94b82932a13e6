# quorumdb

A key-value store replicated with the Raft consensus protocol. The library in `src/`
holds the protocol's logic with its contracts and proofs; `app/` is the node program
around it: sockets, the write-ahead log file, the background loop and the wire format.

- `src/raft/`: the replicated log (`log.rs`), a node's state (`state.rs`), the messages
  (`message.rs`), the node itself (`node.rs`), identifier sets and maps (`ids.rs`), the
  ordering of replication progress (`quorum.rs`) and the clock (`clock.rs`).
- `src/storage/`: the store that committed commands are applied to (`engine.rs`) and the
  framing of write-ahead log records (`wal.rs`).
- `src/protocol.rs`: the line protocol that clients speak; `src/handler.rs`: the replies
  to its commands; `src/raft_handler.rs`: the answers to Raft messages; `src/tick.rs`:
  what one round of a node's background loop does; `src/cluster_config.rs`: where a node
  listens and who its peers are; `src/text.rs`: characters, pieces and decimal numbers.
- `src/laws.rs`: properties that span several operations, each a proof function.
