# ethlambda

The decision core of a lean consensus node, written in Verus: what to do with a block, a tick, a
request or a lost peer is decided by functions whose contracts are proved; reading, sending and
waiting are left to the actors around them.

- `src/chain` follows the chain: pending blocks and import, validator duties, aggregation
  sessions, proposals, and the Beacon Chain.
- `src/net` keeps the peers: addresses and bootnodes, catching up over ranges of slots, fetching
  by root, requests and responses, connections, discovery and startup.
- `src/clock.rs`, `src/text.rs`, `src/keyed.rs` and `src/primitives.rs` are what both build on;
  `src/report.rs` lays out the report of the block-building benchmark.
- `app` runs the node: actors, timers, the libp2p swarm, and the benchmark's statistics.
- `tests` exercises the library from outside.

Functions that hold a call into another crate are marked `external_body`; their doc comments say
what is taken on trust of that crate. Functions named `law_…` state what holds of the node as a
whole.
