use hid_over_ip::addr::{IpAddress, SocketAddress};
use hid_over_ip::peers::{PeerCache, RoundRobin};

fn peer(n: u8) -> SocketAddress {
    SocketAddress { ip: IpAddress::V4(u32::from_be_bytes([10, 0, 0, n])), port: 27056, scope_id: 0 }
}

#[test]
fn round_robin_cycles() {
    let mut rr = RoundRobin::new(vec![peer(1), peer(2), peer(3)]);
    let got: Vec<SocketAddress> = (0..7).map(|_| rr.next_peer()).collect();
    assert_eq!(got, vec![peer(1), peer(2), peer(3), peer(1), peer(2), peer(3), peer(1)]);
}

#[test]
fn new_finds_are_selected_once() {
    let mut cache = PeerCache::new();
    assert!(!cache.cache_timeout_enabled());
    assert!(cache.offer(peer(1)));
    assert!(cache.cache_timeout_enabled());
    assert!(!cache.offer(peer(1)));
    assert!(cache.offer(peer(2)));
    assert!(cache.is_cached(&peer(1)));
    assert!(!cache.is_cached(&peer(3)));
}

#[test]
fn cache_rotates() {
    let mut cache = PeerCache::new();
    assert_eq!(cache.take_cached(), None);
    cache.offer(peer(1));
    cache.offer(peer(2));
    assert_eq!(cache.take_cached(), Some(peer(1)));
    assert_eq!(cache.take_cached(), Some(peer(2)));
    assert_eq!(cache.take_cached(), Some(peer(1)));
}

#[test]
fn blacklisted_peer_leaves_cache() {
    let mut cache = PeerCache::new();
    cache.offer(peer(1));
    cache.offer(peer(2));
    cache.offer(peer(3));
    cache.blacklist(peer(2));
    // still cached until the next selection starts
    assert!(cache.is_cached(&peer(2)));
    cache.prune();
    assert!(!cache.is_cached(&peer(2)));
    for _ in 0..5 {
        assert_ne!(cache.take_cached(), Some(peer(2)));
    }
    // blacklisting lasts: a later find is pruned again at the next start
    assert!(cache.offer(peer(2)));
    cache.prune();
    assert!(!cache.is_cached(&peer(2)));
    assert_eq!(cache.take_cached(), Some(peer(3)));
    assert_eq!(cache.take_cached(), Some(peer(1)));
}

#[test]
fn prune_all() {
    let mut cache = PeerCache::new();
    cache.offer(peer(1));
    cache.blacklist(peer(1));
    cache.blacklist(peer(1));
    cache.prune();
    assert!(!cache.cache_timeout_enabled());
    assert_eq!(cache.take_cached(), None);
}
