# rqbit_peer

The state that a BitTorrent client keeps of each peer of a torrent, verified with Verus: how a peer
goes from one state to another, what is counted of peers meanwhile, and which chunks are requested of
a live peer, answered, cancelled or given up.

- `src/peer.rs`: a peer and its state.
- `src/live.rs`: the dealings with a live peer. `src/inflight.rs` holds the outstanding requests.
- `src/stats.rs`: the counts, and the set of addresses of live peers connected to from here.
- `src/counting.rs`: the laws of the counts: they stay true of the peers that are counted in them.
- `src/requests.rs`: the laws of requests: what is excused, expected, expired, snubbed and signalled.
- `src/writer.rs`, `src/signal.rs`, `src/monotonic.rs`: tokio's unbounded channel and `Notify`, and the
  clock of the standard library, each behind a few trusted functions. `src/time.rs` builds on the last.
- `src/chunk.rs`, `src/addr.rs`, `src/dht.rs`: plain data.
- `app/`: locks, logs, error types and async code around the library.

Time is passed in: the functions that read the clock take a `Clock`, and each has a sibling, whose name
ends in `_at`, that takes the present as an argument. The counts are plain values behind `&mut`; `app/`
shares them between tasks.
