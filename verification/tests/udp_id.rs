use vpn_core::udp_id::{UdpId, UDP_ID_LEN, UDP_ID_TOTAL_LEN};

#[test]
fn checksum_of_known_identifiers() {
    assert_eq!(UdpId::compute_checksum(&[1, 2, 3, 4]), [0xd1, 0x7d]);
    assert_eq!(UdpId::compute_checksum(&[0, 0, 0, 0]), [0xb1, 0x61]);
    assert_eq!(UdpId::compute_checksum(&[0xff, 0xff, 0xff, 0xff]), [0x01, 0x44]);
}

#[test]
fn from_attaches_the_checksum() {
    let id = UdpId::from([1, 2, 3, 4]);
    assert!(id.validate());
    assert_eq!(id.as_bytes(), [1, 2, 3, 4, 0xd1, 0x7d]);
    assert_eq!(UDP_ID_LEN, 4);
    assert_eq!(UDP_ID_TOTAL_LEN, 6);
}

#[test]
fn as_u32_is_little_endian() {
    assert_eq!(UdpId::from([1, 2, 3, 4]).as_u32(), 0x0403_0201);
    assert_eq!(UdpId::from([0xff, 0, 0, 0]).as_u32(), 0xff);
    assert_eq!(UdpId::from([0, 0, 0, 0x80]).as_u32(), 0x8000_0000);
}

#[test]
fn from_u32_round_trips() {
    for v in [0u32, 1, 0x0403_0201, 0xdead_beef, u32::MAX] {
        let id = UdpId::from_u32(v);
        assert_eq!(id.as_u32(), v);
        assert!(id.validate());
    }
    assert_eq!(UdpId::from_u32(0x0403_0201), UdpId::from([1, 2, 3, 4]));
}

#[test]
fn try_from_needs_six_bytes() {
    assert_eq!(UdpId::try_from(&[]), None);
    assert_eq!(UdpId::try_from(&[1, 2, 3, 4]), None);
    assert_eq!(UdpId::try_from(&[1, 2, 3, 4, 5]), None);
    assert!(UdpId::try_from(&[1, 2, 3, 4, 5, 6]).is_some());
}

#[test]
fn try_from_takes_the_checksum_as_found() {
    let good = UdpId::try_from(&[1, 2, 3, 4, 0xd1, 0x7d, 9, 9]).unwrap();
    assert!(good.validate());
    assert_eq!(good, UdpId::from([1, 2, 3, 4]));
    let bad = UdpId::try_from(&[1, 2, 3, 4, 0xd1, 0x7e]).unwrap();
    assert!(!bad.validate());
    assert_eq!(bad.as_bytes(), [1, 2, 3, 4, 0xd1, 0x7e]);
    assert_eq!(bad.as_u32(), good.as_u32());
}

#[test]
fn as_bytes_reads_back() {
    let id = UdpId::from([0xaa, 0xbb, 0xcc, 0xdd]);
    let again = UdpId::try_from(&id.as_bytes()).unwrap();
    assert_eq!(again, id);
}

#[test]
fn generate_gives_valid_identifiers() {
    let a = UdpId::generate();
    assert!(a.validate());
    let mut differs = false;
    for _ in 0..16 {
        let b = UdpId::generate();
        assert!(b.validate());
        if b != a {
            differs = true;
        }
    }
    assert!(differs);
}
