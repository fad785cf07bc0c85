use ppp::v2::{Builder, Command, Protocol, Version, IPv4, IPv6};
use worldsync::peer::{classify_connection_start, is_private, peer_addr, peer_source, AddressKind, HeaderError, PeerSource, ProxyHeader};
use worldsync::protocol::{Addr, IpAddr};

fn pp_header(source: [u8; 4], dest: [u8; 4]) -> Vec<u8> {
    Builder::with_addresses(Version::Two | Command::Proxy, Protocol::Stream, IPv4::new(source, dest, 80, 80))
        .build()
        .unwrap()
}

fn pp_header_v6(source: [u16; 8], dest: [u16; 8]) -> Vec<u8> {
    Builder::with_addresses(Version::Two | Command::Proxy, Protocol::Stream, IPv6::new(source, dest, 80, 80))
        .build()
        .unwrap()
}

#[test]
fn header_stripping_reads_the_v4_source() {
    let mut bytes = pp_header([192, 168, 42, 42], [192, 168, 2, 2]);
    let len = bytes.len();
    bytes.extend_from_slice(&[0, 0, 0, 12, 1, 2, 3]);
    let r = classify_connection_start(&bytes);
    assert_eq!(r, Some(Ok(PeerSource::Header { len, ip: IpAddr::V4([192, 168, 42, 42]) })));
    assert_eq!(len, 28);
}

#[test]
fn v6_source_is_read() {
    let bytes = pp_header_v6([0x2001, 0xdb8, 0, 0, 0, 0, 0, 7], [0x2001, 0xdb8, 0, 0, 0, 0, 0, 1]);
    let r = classify_connection_start(&bytes);
    assert_eq!(
        r,
        Some(Ok(PeerSource::Header { len: bytes.len(), ip: IpAddr::V6([0x2001, 0xdb8, 0, 0, 0, 0, 0, 7]) }))
    );
}

#[test]
fn no_header_means_the_connection_address() {
    let bytes = [0u8, 0, 0, 20, 1, 2, 3, 4, 5, 6, 7, 8, 9, 10, 11, 12, 13, 14, 15, 16];
    assert_eq!(classify_connection_start(&bytes), Some(Ok(PeerSource::Connection)));
}

#[test]
fn v1_header_counts_as_none() {
    let bytes = b"PROXY TCP4 192.168.0.1 192.168.0.11 56324 443\r\nrest";
    assert_eq!(classify_connection_start(bytes), Some(Ok(PeerSource::Connection)));
}

#[test]
fn incomplete_v2_header_needs_more_bytes() {
    let full = pp_header([192, 168, 42, 42], [192, 168, 2, 2]);
    assert_eq!(classify_connection_start(&full[..14]), None);
}

#[test]
fn local_header_without_addresses_is_refused() {
    let bytes = Builder::new(Version::Two | Command::Local, 0).build().unwrap();
    assert_eq!(
        classify_connection_start(&bytes),
        Some(Err(HeaderError::InvalidAddressType(AddressKind::Unspecified)))
    );
}

#[test]
fn header_decisions() {
    assert_eq!(peer_source(ProxyHeader::V1), Ok(PeerSource::Connection));
    assert_eq!(peer_source(ProxyHeader::V2Invalid), Ok(PeerSource::Connection));
    assert_eq!(peer_source(ProxyHeader::V2Unix), Err(HeaderError::InvalidAddressType(AddressKind::Unix)));
    assert_eq!(
        peer_source(ProxyHeader::V2Ipv4 { len: 28, source: [1, 2, 3, 4] }),
        Ok(PeerSource::Header { len: 28, ip: IpAddr::V4([1, 2, 3, 4]) })
    );
}

#[test]
fn private_peers_are_reached_through_the_domain() {
    assert!(is_private(IpAddr::V4([10, 1, 2, 3])));
    assert!(is_private(IpAddr::V4([192, 168, 1, 1])));
    assert!(!is_private(IpAddr::V4([192, 169, 1, 1])));
    assert!(!is_private(IpAddr::V4([8, 8, 8, 8])));
    let domain = "example.org".to_string();
    assert!(matches!(peer_addr(IpAddr::V4([192, 168, 1, 1]), &domain), Addr::Domain(ref d) if d == "example.org"));
    assert!(matches!(peer_addr(IpAddr::V4([8, 8, 4, 4]), &domain), Addr::Ip(IpAddr::V4([8, 8, 4, 4]))));
}
