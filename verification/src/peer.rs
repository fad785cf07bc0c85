//! Where a connection comes from: a proxy protocol header at its start, if
//! a proxy sent one, or the socket's own peer address.

use vstd::prelude::*;
use ppp::PartialResult;
use ppp::v2::Addresses;
use crate::protocol::{Addr, IpAddr};

verus! {

/// What a proxy protocol header at the start of a connection says, as far
/// as the server cares.
#[derive(Debug, Clone, Copy, PartialEq, Eq)]
#[allow(inconsistent_fields)]
pub enum ProxyHeader {
    /// A version 1 header, or bytes that are no version 2 header.
    V1,
    /// A version 2 header of `len` bytes with a version 4 source address.
    V2Ipv4 { len: usize, source: [u8; 4] },
    /// A version 2 header of `len` bytes with a version 6 source address.
    V2Ipv6 { len: usize, source: [u16; 8] },
    /// A version 2 header with unspecified addresses.
    V2Unspecified,
    /// A version 2 header with unix socket addresses.
    V2Unix,
    /// The start of a version 2 header that needs more bytes.
    V2Incomplete,
    /// A version 2 header that will not parse even with more bytes.
    V2Invalid,
}

/// What `ppp::HeaderResult::parse` makes of the bytes.
pub uninterp spec fn proxy_header(bytes: Seq<u8>) -> ProxyHeader;

/// Parses the start of a connection with `ppp::HeaderResult::parse`; the
/// outcome is named [`proxy_header`].
#[verifier::external_body]
fn parse_proxy_header(bytes: &[u8]) -> (r: ProxyHeader)
    ensures
        r == proxy_header(bytes@),
{
    match ppp::HeaderResult::parse(bytes) {
        ppp::HeaderResult::V1(_) => ProxyHeader::V1,
        ppp::HeaderResult::V2(Ok(h)) => match h.addresses {
            Addresses::IPv4(a) => ProxyHeader::V2Ipv4 { len: h.len(), source: a.source_address.octets() },
            Addresses::IPv6(a) => ProxyHeader::V2Ipv6 { len: h.len(), source: a.source_address.segments() },
            Addresses::Unspecified => ProxyHeader::V2Unspecified,
            Addresses::Unix(_) => ProxyHeader::V2Unix,
        },
        ppp::HeaderResult::V2(Err(e)) if e.is_incomplete() => ProxyHeader::V2Incomplete,
        ppp::HeaderResult::V2(Err(_)) => ProxyHeader::V2Invalid,
    }
}

/// The kinds of header addresses that name no internet address.
#[derive(Debug, Clone, Copy, PartialEq, Eq)]
pub enum AddressKind {
    Unspecified,
    Unix,
}

/// A header that names no usable source address.
#[derive(Debug, Clone, Copy, PartialEq, Eq)]
pub enum HeaderError {
    InvalidAddressType(AddressKind),
}

/// Where to take a connection's peer address from.
#[derive(Debug, Clone, Copy, PartialEq, Eq)]
pub enum PeerSource {
    /// From the socket: there is no usable proxy header.
    Connection,
    /// From a proxy header of `len` bytes, which must be read off the
    /// connection before anything else.
    Header { len: usize, ip: IpAddr },
}

/// The peer address decision for a parsed header. A version 1 header is
/// not supported and counts as no header.
pub open spec fn peer_source_spec(header: ProxyHeader) -> Result<PeerSource, HeaderError> {
    match header {
        ProxyHeader::V2Ipv4 { len, source } => Ok(PeerSource::Header { len, ip: IpAddr::V4(source) }),
        ProxyHeader::V2Ipv6 { len, source } => Ok(PeerSource::Header { len, ip: IpAddr::V6(source) }),
        ProxyHeader::V2Unspecified => Err(HeaderError::InvalidAddressType(AddressKind::Unspecified)),
        ProxyHeader::V2Unix => Err(HeaderError::InvalidAddressType(AddressKind::Unix)),
        _ => Ok(PeerSource::Connection),
    }
}

/// Decides where a connection's peer address comes from, given what its
/// first bytes parse to. An incomplete header is not handled here.
pub fn peer_source(header: ProxyHeader) -> (r: Result<PeerSource, HeaderError>)
    requires
        !(header is V2Incomplete),
    ensures
        r == peer_source_spec(header),
{
    match header {
        ProxyHeader::V2Ipv4 { len, source } => Ok(PeerSource::Header { len, ip: IpAddr::V4(source) }),
        ProxyHeader::V2Ipv6 { len, source } => Ok(PeerSource::Header { len, ip: IpAddr::V6(source) }),
        ProxyHeader::V2Unspecified => Err(HeaderError::InvalidAddressType(AddressKind::Unspecified)),
        ProxyHeader::V2Unix => Err(HeaderError::InvalidAddressType(AddressKind::Unix)),
        _ => Ok(PeerSource::Connection),
    }
}

/// Parses the first bytes of a connection and decides where its peer
/// address comes from; nothing where the bytes are the start of a version 2
/// header that needs more bytes.
pub fn classify_connection_start(bytes: &[u8]) -> (r: Option<Result<PeerSource, HeaderError>>)
    ensures
        match proxy_header(bytes@) {
            ProxyHeader::V2Incomplete => r is None,
            h => r == Some(peer_source_spec(h)),
        },
{
    let header = parse_proxy_header(bytes);
    match header {
        ProxyHeader::V2Incomplete => None,
        _ => Some(peer_source(header)),
    }
}

/// Whether an address belongs to the local network as this server judges
/// it: 10.0.0.0/8 and 192.168.0.0/16. Only version 4 addresses outside
/// 172.0.0.0/8 are judged.
pub fn is_private(ip: IpAddr) -> (r: bool)
    requires
        ip matches IpAddr::V4(o) && o[0] != 172,
    ensures
        r == (ip matches IpAddr::V4(o) && (o[0] == 10 || (o[0] == 192 && o[1] == 168))),
{
    match ip {
        IpAddr::V4(o) => o[0] == 10 || (o[0] == 192 && o[1] == 168),
        IpAddr::V6(_) => false,
    }
}

/// The address under which clients are told to reach a peer: the server's
/// domain for a peer on the local network, else the peer's address.
pub fn peer_addr(ip: IpAddr, domain: &String) -> (r: Addr)
    requires
        ip matches IpAddr::V4(o) && o[0] != 172,
    ensures
        r == (if ip matches IpAddr::V4(o) && (o[0] == 10 || (o[0] == 192 && o[1] == 168)) {
            Addr::Domain(*domain)
        } else {
            Addr::Ip(ip)
        }),
{
    if is_private(ip) {
        Addr::Domain(domain.clone())
    } else {
        Addr::Ip(ip)
    }
}

} // verus!
