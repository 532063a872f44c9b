use redox_kernel::error::{Error, ENOENT};
use redox_kernel::network::udp::{parse_port, UdpHeader, UdpScheme, UdpTarget};

#[test]
fn a_port_is_decimal_digits() {
    assert_eq!(parse_port(b"53"), Some(53));
    assert_eq!(parse_port(b"0"), Some(0));
    assert_eq!(parse_port(b"00080"), Some(80));
    assert_eq!(parse_port(b"+8080"), Some(8080));
    assert_eq!(parse_port(b"65535"), Some(65535));
}

#[test]
fn a_port_is_none_where_std_reads_none() {
    for text in ["", "+", "-1", "65536", "99999999999", "12a", " 12", "1 ", "++1", "0x10"] {
        assert_eq!(parse_port(text.as_bytes()), text.parse::<u16>().ok(), "{:?}", text);
    }
}

#[test]
fn a_port_is_what_std_reads() {
    for text in ["1", "9", "10", "255", "256", "4096", "32768", "65534", "+0", "+65535", "065535"] {
        assert_eq!(parse_port(text.as_bytes()), text.parse::<u16>().ok(), "{:?}", text);
    }
}

#[test]
fn a_url_without_a_remote_side_listens() {
    assert_eq!(UdpScheme::target(b"udp:/53"), Ok(UdpTarget::Listen { port: 53 }));
    assert_eq!(UdpScheme::target(b"udp:/53/more"), Ok(UdpTarget::Listen { port: 53 }));
}

#[test]
fn a_listening_url_needs_a_port() {
    assert_eq!(UdpScheme::target(b"udp:"), Err(Error::new(ENOENT)));
    assert_eq!(UdpScheme::target(b"udp"), Err(Error::new(ENOENT)));
    assert_eq!(UdpScheme::target(b"udp:/"), Err(Error::new(ENOENT)));
    assert_eq!(UdpScheme::target(b"udp:/0"), Err(Error::new(ENOENT)));
    assert_eq!(UdpScheme::target(b"udp:/port"), Err(Error::new(ENOENT)));
    assert_eq!(UdpScheme::target(b"udp:/70000"), Err(Error::new(ENOENT)));
}

#[test]
fn a_url_with_a_remote_side_connects() {
    assert_eq!(
        UdpScheme::target(b"udp:10.0.2.3:53/4000"),
        Ok(UdpTarget::Connect { peer_addr: b"10.0.2.3".to_vec(), peer_port: 53, host_port: Some(4000) })
    );
    assert_eq!(
        UdpScheme::target(b"udp:10.0.2.3:53"),
        Ok(UdpTarget::Connect { peer_addr: b"10.0.2.3".to_vec(), peer_port: 53, host_port: None })
    );
    assert_eq!(
        UdpScheme::target(b"udp:10.0.2.3:53/x"),
        Ok(UdpTarget::Connect { peer_addr: b"10.0.2.3".to_vec(), peer_port: 53, host_port: None })
    );
    assert_eq!(
        UdpScheme::target(b"udp:10.0.2.3:53:9/0"),
        Ok(UdpTarget::Connect { peer_addr: b"10.0.2.3".to_vec(), peer_port: 53, host_port: Some(0) })
    );
}

#[test]
fn a_connecting_url_needs_the_port_of_the_peer() {
    assert_eq!(UdpScheme::target(b"udp:10.0.2.3/4000"), Err(Error::new(ENOENT)));
    assert_eq!(UdpScheme::target(b"udp:10.0.2.3:0/4000"), Err(Error::new(ENOENT)));
    assert_eq!(UdpScheme::target(b"udp:10.0.2.3:dns/4000"), Err(Error::new(ENOENT)));
}

#[test]
fn a_picked_port_is_of_the_upper_half() {
    assert_eq!(UdpScheme::pick_port(0), 32768);
    assert_eq!(UdpScheme::pick_port(32767), 65535);
    assert_eq!(UdpScheme::pick_port(32768), 32768);
    assert_eq!(UdpScheme::pick_port(100_001), 32768 + 1697);
}

#[test]
fn a_socket_accepts_what_its_peer_sent_to_its_port() {
    let header = UdpHeader { src: 53, dst: 4000, len: 8, checksum: 0 };
    assert!(header.accepts(4000, 53));
    assert!(!header.accepts(4001, 53));
    assert!(!header.accepts(4000, 54));
    assert!(!header.accepts(53, 4000));
}

#[test]
fn an_outgoing_header_counts_itself() {
    assert_eq!(UdpHeader::outgoing(4000, 53, 0), UdpHeader { src: 4000, dst: 53, len: 8, checksum: 0 });
    assert_eq!(UdpHeader::outgoing(4000, 53, 100), UdpHeader { src: 4000, dst: 53, len: 108, checksum: 0 });
    assert_eq!(UdpHeader::outgoing(4000, 53, 65528), UdpHeader { src: 4000, dst: 53, len: 0, checksum: 0 });
    assert_eq!(UdpHeader::outgoing(4000, 53, 65536 + 2), UdpHeader { src: 4000, dst: 53, len: 10, checksum: 0 });
}
