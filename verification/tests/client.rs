use vpn_core::client::{handle_tun_read, handle_udp_read, ClientAction};
use vpn_core::packet::encode_virtual_addresses;
use vpn_core::udp_id::UdpId;
use vpn_core::FatalError;

#[test]
fn assignment_opens_the_device() {
    let frame = [0x02, 10, 0, 0, 2, 0xfd, 0, 0, 0, 0, 0, 0, 1, 0, 0, 0, 0, 0, 0, 0, 2];
    let expected = ClientAction::Configure {
        virtual_ipv4: 0x0a00_0002,
        virtual_ipv6: 0xfd00_0000_0000_0001_0000_0000_0000_0002,
        gateway: 0x0a00_0001,
    };
    assert_eq!(handle_udp_read(&frame, false), Ok(ClientAction::Configure {
        virtual_ipv4: 0x0a00_0002,
        virtual_ipv6: 0xfd00_0000_0000_0001_0000_0000_0000_0002,
        gateway: 0x0a00_0001,
    }));
    assert_eq!(handle_udp_read(&frame, true), Ok(expected));
}

#[test]
fn assignment_round_trips() {
    for (v4, v6) in [(0u32, 0u128), (0x0102_03fe, 0x0102_0304_0506_0708_090a_0b0c_0d0e_0f10), (u32::MAX, u128::MAX)] {
        let frame = encode_virtual_addresses(v4, v6);
        assert_eq!(
            handle_udp_read(&frame, false),
            Ok(ClientAction::Configure {
                virtual_ipv4: v4,
                virtual_ipv6: v6,
                gateway: (v4 & 0xffff_ff00) | 1
            })
        );
    }
}

#[test]
fn short_assignment_is_passed_over() {
    let frame = [0x02, 10, 0, 0, 2, 0xfd, 0, 0, 0, 0, 0, 0, 1, 0, 0, 0, 0, 0, 0, 0];
    assert_eq!(handle_udp_read(&frame, true), Ok(ClientAction::Ignore));
    assert_eq!(handle_udp_read(&[0x02], false), Ok(ClientAction::Ignore));
}

#[test]
fn forward_goes_to_an_open_device_only() {
    assert_eq!(handle_udp_read(&[1, 0x45, 9, 9], true), Ok(ClientAction::WriteTun(vec![0x45, 9, 9])));
    assert_eq!(handle_udp_read(&[1, 0x45, 9, 9], false), Ok(ClientAction::Ignore));
    assert_eq!(handle_udp_read(&[1], true), Ok(ClientAction::WriteTun(vec![])));
}

#[test]
fn other_frame_types_are_passed_over() {
    assert_eq!(handle_udp_read(&[0, 1, 2, 3], true), Ok(ClientAction::Ignore));
    assert_eq!(handle_udp_read(&[3; 30], true), Ok(ClientAction::Ignore));
    assert_eq!(handle_udp_read(&[0xff], false), Ok(ClientAction::Ignore));
}

#[test]
fn empty_reads_end_the_client() {
    assert_eq!(handle_udp_read(&[], true), Err(FatalError::Eof));
    assert_eq!(handle_tun_read(&UdpId::from([1, 2, 3, 4]), &[]), Err(FatalError::Eof));
}

#[test]
fn outbound_packets_carry_the_identifier() {
    let id = UdpId::from([1, 2, 3, 4]);
    assert_eq!(handle_tun_read(&id, &[0x45, 0, 0, 20]), Ok(vec![1, 2, 3, 4, 0x45, 0, 0, 20]));
}
