use rqbit_peer::dht::{
    DHT_BOOTSTRAP, INACTIVITY_TIMEOUT_SECS, REQUERY_INTERVAL_SECS, RESPONSE_TIMEOUT_SECS,
};

#[test]
fn bootstrap_nodes() {
    assert_eq!(
        DHT_BOOTSTRAP,
        [
            "router.bittorrent.com:6881",
            "router.utorrent.com:6881",
            "router.bitcomet.net:6881",
            "dht.transmissionbt.com:6881",
            "dht.libtorrent.org:25401",
        ]
    );
}

#[test]
fn intervals() {
    assert_eq!(RESPONSE_TIMEOUT_SECS, 10);
    assert_eq!(REQUERY_INTERVAL_SECS, 60);
    assert_eq!(INACTIVITY_TIMEOUT_SECS, 900);
}
