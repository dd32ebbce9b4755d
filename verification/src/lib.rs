//! The state that a BitTorrent client keeps of each peer of a torrent.

pub mod addr;
pub mod chunk;
pub mod counting;
pub mod dht;
pub mod inflight;
pub mod live;
pub mod monotonic;
pub mod peer;
pub mod requests;
pub mod signal;
pub mod stats;
pub mod time;
pub mod writer;
