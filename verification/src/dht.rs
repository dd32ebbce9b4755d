//! How the node of the distributed hash table is set up.

use vstd::prelude::*;

verus! {

/// How long a node is given to respond, in seconds.
pub const RESPONSE_TIMEOUT_SECS: u64 = 10;

/// How long to wait before a node is asked again, in seconds.
pub const REQUERY_INTERVAL_SECS: u64 = 60;

/// How long a node of the routing table can be silent before it is in question, in
/// seconds.
pub const INACTIVITY_TIMEOUT_SECS: u64 = 15 * 60;

/// The nodes by which the table is entered. There are several, run by different people, since from
/// some networks some of them cannot be reached, and a magnet link without a tracker needs one.
pub const DHT_BOOTSTRAP: [&'static str; 5] = [
    "router.bittorrent.com:6881",
    "router.utorrent.com:6881",
    "router.bitcomet.net:6881",
    "dht.transmissionbt.com:6881",
    "dht.libtorrent.org:25401",
];

/// Makes nodes of the distributed hash table.
#[derive(Clone, Copy, Debug)]
pub struct DhtBuilder {}

} // verus!
