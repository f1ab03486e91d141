use vpn_core::ipv4_pool::{IPv4Pool, BASE_IPV4, BASE_IPV4_MASK};
use vpn_core::ipv6_pool::{IPv6Pool, BASE_IPV6, BASE_IPV6_PREFIX};

#[test]
fn base_constants() {
    assert_eq!(BASE_IPV4, u32::from_be_bytes([10, 0, 0, 0]));
    assert_eq!(BASE_IPV4_MASK, 24);
    assert_eq!(BASE_IPV6, 0xfd00_0000_0000_0001_0000_0000_0000_0000u128);
    assert_eq!(BASE_IPV6_PREFIX, 64);
}

#[test]
fn ipv4_allocates_in_ascending_order() {
    let mut pool = IPv4Pool::new(BASE_IPV4, 24);
    assert_eq!(pool.allocate(), Some(0x0a00_0001));
    assert_eq!(pool.allocate(), Some(0x0a00_0002));
    assert_eq!(pool.allocate(), Some(0x0a00_0003));
}

#[test]
fn ipv4_never_hands_out_base_or_broadcast() {
    let mut pool = IPv4Pool::new(BASE_IPV4, 24);
    let mut seen = Vec::new();
    while let Some(a) = pool.allocate() {
        assert!(a >= 0x0a00_0001 && a <= 0x0a00_00fe);
        assert!(!seen.contains(&a));
        seen.push(a);
    }
    assert_eq!(seen.len(), 254);
    assert_eq!(pool.allocate(), None);
}

#[test]
fn ipv4_small_prefixes() {
    let mut pool_30 = IPv4Pool::new(0xc0a8_0100, 30);
    assert_eq!(pool_30.allocate(), Some(0xc0a8_0101));
    assert_eq!(pool_30.allocate(), Some(0xc0a8_0102));
    assert_eq!(pool_30.allocate(), None);
    let mut pool_31 = IPv4Pool::new(0xc0a8_0100, 31);
    assert_eq!(pool_31.allocate(), None);
    let mut pool_32 = IPv4Pool::new(0xc0a8_0100, 32);
    assert_eq!(pool_32.allocate(), None);
    let mut top = IPv4Pool::new(0xffff_fffc, 30);
    assert_eq!(top.allocate(), Some(0xffff_fffd));
    assert_eq!(top.allocate(), Some(0xffff_fffe));
    assert_eq!(top.allocate(), None);
}

#[test]
fn ipv4_whole_address_space_starts_at_one() {
    let mut pool = IPv4Pool::new(0, 0);
    assert_eq!(pool.allocate(), Some(1));
    assert_eq!(pool.allocate(), Some(2));
}

#[test]
fn ipv4_release_makes_the_lowest_free_again() {
    let mut pool = IPv4Pool::new(BASE_IPV4, 24);
    let a = pool.allocate().unwrap();
    let b = pool.allocate().unwrap();
    let c = pool.allocate().unwrap();
    pool.release(&b);
    assert_eq!(pool.allocate(), Some(b));
    pool.release(&a);
    pool.release(&a);
    pool.release(&0x0a00_0050);
    assert_eq!(pool.allocate(), Some(a));
    assert_eq!(pool.allocate(), Some(c + 1));
}

#[test]
fn ipv4_exhaustion_ends_with_a_release() {
    let mut pool = IPv4Pool::new(0xc0a8_0100, 30);
    pool.allocate().unwrap();
    pool.allocate().unwrap();
    assert_eq!(pool.allocate(), None);
    pool.release(&0xc0a8_0102);
    assert_eq!(pool.allocate(), Some(0xc0a8_0102));
    assert_eq!(pool.allocate(), None);
}

#[test]
fn ipv6_allocates_in_ascending_order() {
    let mut pool = IPv6Pool::new(BASE_IPV6, BASE_IPV6_PREFIX);
    assert_eq!(pool.allocate(), Some(BASE_IPV6 + 1));
    assert_eq!(pool.allocate(), Some(BASE_IPV6 + 2));
    pool.release(&(BASE_IPV6 + 1));
    assert_eq!(pool.allocate(), Some(BASE_IPV6 + 1));
    assert_eq!(pool.allocate(), Some(BASE_IPV6 + 3));
}

#[test]
fn ipv6_small_prefixes() {
    let mut pool_126 = IPv6Pool::new(BASE_IPV6, 126);
    assert_eq!(pool_126.allocate(), Some(BASE_IPV6 + 1));
    assert_eq!(pool_126.allocate(), Some(BASE_IPV6 + 2));
    assert_eq!(pool_126.allocate(), Some(BASE_IPV6 + 3));
    assert_eq!(pool_126.allocate(), None);
    pool_126.release(&(BASE_IPV6 + 2));
    pool_126.release(&(BASE_IPV6 + 2));
    assert_eq!(pool_126.allocate(), Some(BASE_IPV6 + 2));
    assert_eq!(pool_126.allocate(), None);
    let mut pool_127 = IPv6Pool::new(BASE_IPV6, 127);
    assert_eq!(pool_127.allocate(), Some(BASE_IPV6 + 1));
    assert_eq!(pool_127.allocate(), None);
    let mut pool_128 = IPv6Pool::new(BASE_IPV6, 128);
    assert_eq!(pool_128.allocate(), None);
}

#[test]
fn ipv6_edges_of_the_address_space() {
    let mut all = IPv6Pool::new(0, 0);
    assert_eq!(all.allocate(), Some(1));
    let mut top = IPv6Pool::new(u128::MAX - 3, 126);
    assert_eq!(top.allocate(), Some(u128::MAX - 2));
    assert_eq!(top.allocate(), Some(u128::MAX - 1));
    assert_eq!(top.allocate(), Some(u128::MAX));
    assert_eq!(top.allocate(), None);
}

#[test]
fn ipv4_prefix_must_fit_the_address_space() {
    assert!(IPv4Pool::try_new(BASE_IPV4, 24).is_some());
    assert!(IPv4Pool::try_new(0, 0).is_some());
    assert!(IPv4Pool::try_new(1, 0).is_none());
    assert!(IPv4Pool::try_new(BASE_IPV4, 33).is_none());
    assert!(IPv4Pool::try_new(0xffff_ff00, 24).is_some());
    assert!(IPv4Pool::try_new(0xffff_ff01, 24).is_none());
    assert!(IPv4Pool::try_new(u32::MAX, 32).is_some());
    assert_eq!(IPv4Pool::try_new(BASE_IPV4, 24).unwrap().allocate(), Some(0x0a00_0001));
}

#[test]
fn ipv6_prefix_must_fit_the_address_space() {
    assert!(IPv6Pool::try_new(BASE_IPV6, 64).is_some());
    assert!(IPv6Pool::try_new(0, 0).is_some());
    assert!(IPv6Pool::try_new(1, 0).is_none());
    assert!(IPv6Pool::try_new(BASE_IPV6, 129).is_none());
    assert!(IPv6Pool::try_new(u128::MAX, 128).is_some());
    assert!(IPv6Pool::try_new(u128::MAX, 127).is_none());
    assert!(IPv6Pool::try_new(u128::MAX - 1, 127).is_some());
    assert_eq!(IPv6Pool::try_new(BASE_IPV6, 64).unwrap().allocate(), Some(BASE_IPV6 + 1));
}
