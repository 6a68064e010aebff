use usrnet::arp_cache::ArpCache;
use usrnet::repr::{
    EthernetAddress,
    Ipv4Address,
};
use usrnet::time::{
    Env,
    Instant,
};

/// A clock that stands still until a test moves it.
struct MockEnv {
    now: Instant,
}

impl MockEnv {
    fn new() -> MockEnv {
        MockEnv { now: 1_000_000_000 }
    }
}

impl Env for MockEnv {
    fn now_instant(&self) -> Instant {
        self.now
    }
}

fn secs(n: u64) -> u64 {
    n * 1_000_000_000
}

fn arp_cache() -> ArpCache<MockEnv> {
    ArpCache::new(60, MockEnv::new())
}

fn ipv4(i: u8) -> Ipv4Address {
    Ipv4Address::new([0, 0, 0, i])
}

fn eth(i: u8) -> EthernetAddress {
    EthernetAddress::new([0, 0, 0, 0, 0, i])
}

#[test]
fn test_lookup_ip_with_no_mapping() {
    let mut arp_cache = arp_cache();
    assert!(matches!(arp_cache.eth_addr_for_ip(ipv4(0)), None));
}

#[test]
fn test_lookup_ip_with_mapping() {
    let mut arp_cache = arp_cache();

    arp_cache.set_eth_addr_for_ip(ipv4(0), eth(0));
    assert_eq!(arp_cache.eth_addr_for_ip(ipv4(0)).unwrap(), eth(0));

    arp_cache.time_env().now += secs(60);
    assert_eq!(arp_cache.eth_addr_for_ip(ipv4(0)).unwrap(), eth(0));
}

#[test]
fn test_lookup_ip_after_expiring() {
    let mut arp_cache = arp_cache();

    arp_cache.set_eth_addr_for_ip(ipv4(0), eth(0));
    assert_eq!(arp_cache.eth_addr_for_ip(ipv4(0)).unwrap(), eth(0));

    arp_cache.time_env().now += secs(61);
    assert!(matches!(arp_cache.eth_addr_for_ip(ipv4(0)), None));
}

#[test]
fn test_push_back_expiration() {
    let mut arp_cache = arp_cache();

    arp_cache.set_eth_addr_for_ip(ipv4(0), eth(0));
    assert_eq!(arp_cache.eth_addr_for_ip(ipv4(0)).unwrap(), eth(0));

    arp_cache.time_env().now += secs(60);
    assert_eq!(arp_cache.eth_addr_for_ip(ipv4(0)).unwrap(), eth(0));

    arp_cache.set_eth_addr_for_ip(ipv4(0), eth(0));
    arp_cache.time_env().now += secs(60);

    assert_eq!(arp_cache.eth_addr_for_ip(ipv4(0)).unwrap(), eth(0));

    arp_cache.time_env().now += secs(1);
    assert!(matches!(arp_cache.eth_addr_for_ip(ipv4(0)), None));
}

#[test]
fn test_chained_expiration() {
    let mut arp_cache = arp_cache();

    arp_cache.set_eth_addr_for_ip(ipv4(0), eth(0));
    arp_cache.time_env().now += secs(30);
    arp_cache.set_eth_addr_for_ip(ipv4(1), eth(1));
    assert_eq!(arp_cache.eth_addr_for_ip(ipv4(0)).unwrap(), eth(0));
    assert_eq!(arp_cache.eth_addr_for_ip(ipv4(1)).unwrap(), eth(1));

    arp_cache.time_env().now += secs(31);
    assert!(matches!(arp_cache.eth_addr_for_ip(ipv4(0)), None));
    assert_eq!(arp_cache.eth_addr_for_ip(ipv4(1)).unwrap(), eth(1));

    arp_cache.time_env().now += secs(30);
    assert!(matches!(arp_cache.eth_addr_for_ip(ipv4(0)), None));
    assert!(matches!(arp_cache.eth_addr_for_ip(ipv4(1)), None));
}

#[test]
fn set_then_lookup_at_explicit_times() {
    let mut arp_cache = arp_cache();
    arp_cache.set_eth_addr_for_ip_at(ipv4(7), eth(7), secs(100));
    // Within the expiration the mapping is found.
    assert_eq!(arp_cache.eth_addr_for_ip_at(ipv4(7), secs(160)), Some(eth(7)));
    // Past it, it is gone.
    assert_eq!(arp_cache.eth_addr_for_ip_at(ipv4(7), secs(160) + 1), None);
}

#[test]
fn update_replaces_mapping_and_restarts_expiration() {
    let mut arp_cache = arp_cache();
    arp_cache.set_eth_addr_for_ip_at(ipv4(1), eth(1), secs(10));
    arp_cache.set_eth_addr_for_ip_at(ipv4(1), eth(2), secs(50));
    assert_eq!(arp_cache.eth_addr_for_ip_at(ipv4(1), secs(100)), Some(eth(2)));
    assert_eq!(arp_cache.eth_addr_for_ip_at(ipv4(2), secs(100)), None);
}

#[test]
fn huge_expiration_saturates() {
    let mut arp_cache = ArpCache::new(u64::MAX, MockEnv::new());
    arp_cache.set_eth_addr_for_ip_at(ipv4(3), eth(3), 0);
    assert_eq!(arp_cache.eth_addr_for_ip_at(ipv4(3), u64::MAX), Some(eth(3)));
}

#[test]
fn lookups_follow_the_latest_set_over_a_sequence_of_calls() {
    // Expiration of 60 s; calls at times that never go back.
    let mut arp_cache = arp_cache();
    arp_cache.set_eth_addr_for_ip_at(ipv4(1), eth(1), secs(0));
    arp_cache.set_eth_addr_for_ip_at(ipv4(2), eth(2), secs(30));
    assert_eq!(arp_cache.eth_addr_for_ip_at(ipv4(1), secs(60)), Some(eth(1)));
    arp_cache.set_eth_addr_for_ip_at(ipv4(1), eth(3), secs(70));
    assert_eq!(arp_cache.eth_addr_for_ip_at(ipv4(2), secs(90)), Some(eth(2)));
    assert_eq!(arp_cache.eth_addr_for_ip_at(ipv4(2), secs(90) + 1), None);
    // The latest set of address 1 was at 70 s: it holds until 130 s.
    assert_eq!(arp_cache.eth_addr_for_ip_at(ipv4(1), secs(130)), Some(eth(3)));
    assert_eq!(arp_cache.eth_addr_for_ip_at(ipv4(1), secs(130) + 1), None);
    // A lookup refreshes nothing: address 2 stays gone.
    assert_eq!(arp_cache.eth_addr_for_ip_at(ipv4(2), secs(131)), None);
    arp_cache.set_eth_addr_for_ip_at(ipv4(2), eth(4), secs(200));
    assert_eq!(arp_cache.eth_addr_for_ip_at(ipv4(2), secs(260)), Some(eth(4)));
    assert_eq!(arp_cache.eth_addr_for_ip_at(ipv4(1), secs(260)), None);
}
