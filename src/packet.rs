//! Decoding of captured packets into flow records.
use vstd::prelude::*;
use etherparse::{IpHeader, PacketHeaders, TransportHeader};
use crate::dns::{dns_message_of, parse_dns, summarizes, DnsInfo};
use crate::utils::timestamp;

verus! {

/// An IP address, version 4 or 6, as its bytes in network order.
#[derive(Clone, Copy, Debug, PartialEq, Eq)]
pub enum IpAddress {
    V4([u8; 4]),
    V6([u8; 16]),
}

/// The network and transport headers of a packet, as the header parser
/// decoded them. `ports` (source, destination) and `payload` are those of a
/// UDP or TCP segment; for any other protocol `ports` is absent.
#[derive(Clone, Debug, PartialEq, Eq)]
pub struct IpHeaders {
    pub src: IpAddress,
    pub dst: IpAddress,
    pub protocol: u8,
    pub ports: Option<(u16, u16)>,
    pub payload: Vec<u8>,
}

/// One observed packet.
#[derive(Clone, Debug, PartialEq, Eq)]
pub struct FlowLog {
    pub src: IpAddress,
    pub src_port: Option<u16>,
    pub dst: IpAddress,
    pub dst_port: Option<u16>,
    pub l3_protocol: u8,
    pub size: u32,
    pub timestamp: u128,
    pub dns: Option<DnsInfo>,
}

/// Why a packet gave no flow record.
#[derive(Clone, Copy, Debug, PartialEq, Eq, Structural)]
pub enum DecodeError {
    UnsupportedOrMalformed,
}

/// What `etherparse::PacketHeaders::from_ip_slice` makes of a packet, in the
/// library's types.
pub uninterp spec fn ip_headers_of(b: Seq<u8>) -> Option<IpHeaders>;

/// The IPv4 header length that the first byte declares, in bytes.
pub open spec fn ipv4_header_len(b: Seq<u8>) -> int {
    (b[0] % 16) as int * 4
}

/// The big-endian 16-bit value at `i`.
pub open spec fn be16(b: Seq<u8>, i: int) -> int {
    b[i] as int * 256 + b[i + 1] as int
}

/// A well-formed IPv4 header: version 4, a declared header length of at
/// least twenty bytes that the packet holds, and a total length that covers
/// that header.
pub open spec fn is_ipv4_header(b: Seq<u8>) -> bool {
    &&& b.len() >= 20
    &&& b[0] / 16 == 4
    &&& b[0] % 16 >= 5
    &&& b.len() >= ipv4_header_len(b)
    &&& be16(b, 2) >= ipv4_header_len(b)
}

/// A well-formed IPv4 packet that carries UDP: protocol 17, and a full
/// eight-byte UDP header after the IP header.
pub open spec fn is_ipv4_udp(b: Seq<u8>) -> bool {
    &&& is_ipv4_header(b)
    &&& b.len() >= ipv4_header_len(b) + 8
    &&& b[9] == 17
}

/// A well-formed IPv4 packet whose protocol has no ports: neither TCP (6)
/// nor UDP (17), nor an authentication header (51) in front of them.
pub open spec fn is_ipv4_portless(b: Seq<u8>) -> bool {
    &&& is_ipv4_header(b)
    &&& b[9] != 6
    &&& b[9] != 17
    &&& b[9] != 51
}

/// Network framing cut short: fewer than the twenty bytes of the smallest IP
/// header, fewer than the header length that an IPv4 header declares, or
/// fewer than the forty bytes of an IPv6 header.
pub open spec fn is_truncated_ip(b: Seq<u8>) -> bool {
    ||| b.len() < 20
    ||| b[0] / 16 == 4 && b.len() < ipv4_header_len(b)
    ||| b[0] / 16 == 6 && b.len() < 40
}

/// The headers of an IPv4 packet whose protocol has no ports: the addresses
/// of bytes 12 to 20, the protocol of byte 9, and no ports.
pub open spec fn ipv4_portless_headers(b: Seq<u8>, h: IpHeaders) -> bool {
    &&& h.src matches IpAddress::V4(a) && a@ == b.subrange(12, 16)
    &&& h.dst matches IpAddress::V4(a) && a@ == b.subrange(16, 20)
    &&& h.protocol == b[9]
    &&& h.ports is None
}

/// The payload of an IPv4/UDP packet: what follows the UDP header.
pub open spec fn ipv4_udp_payload(b: Seq<u8>) -> Seq<u8> {
    b.subrange(ipv4_header_len(b) + 8, b.len() as int)
}

/// The headers of an IPv4/UDP packet: the addresses of bytes 12 to 20,
/// protocol 17, the ports of the UDP header, and all after it as payload.
pub open spec fn ipv4_udp_headers(b: Seq<u8>, h: IpHeaders) -> bool {
    &&& h.src matches IpAddress::V4(a) && a@ == b.subrange(12, 16)
    &&& h.dst matches IpAddress::V4(a) && a@ == b.subrange(16, 20)
    &&& h.protocol == 17
    &&& h.ports == Some((be16(b, ipv4_header_len(b)) as u16, be16(b, ipv4_header_len(b) + 2) as u16))
    &&& h.payload@ == ipv4_udp_payload(b)
}

/// Relies on etherparse::PacketHeaders::from_ip_slice. Its `IpHeader::from_slice`
/// refuses an empty slice and any version but 4 and 6, and reads at least the
/// twenty bytes of an IPv4 header (and all `ihl` words that it declares) or
/// the forty of an IPv6 one. For IPv4 it takes the addresses from bytes 12
/// to 20 and the protocol from byte 9, and reads a further header only for
/// protocol 51. For protocol 17 it reads the UDP header right after the IP
/// header, ports big-endian, and hands on all that follows it as payload;
/// for a protocol other than 6 and 17 it reads no transport header.
#[verifier::external_body]
fn read_ip_headers(b: &[u8]) -> (r: Option<IpHeaders>)
    ensures
        r == ip_headers_of(b@),
        is_truncated_ip(b@) ==> r is None,
        b@.len() > 0 && b@[0] / 16 != 4 && b@[0] / 16 != 6 ==> r is None,
        is_ipv4_udp(b@) ==> r is Some && ipv4_udp_headers(b@, r->0),
        is_ipv4_portless(b@) ==> r is Some && ipv4_portless_headers(b@, r->0),
{
    let p = PacketHeaders::from_ip_slice(b).ok()?;
    let (src, dst, protocol) = match p.ip? {
        IpHeader::Version4(h, _) => (IpAddress::V4(h.source), IpAddress::V4(h.destination), h.protocol),
        IpHeader::Version6(h, _) => (IpAddress::V6(h.source), IpAddress::V6(h.destination), h.next_header),
    };
    let ports = match p.transport {
        Some(TransportHeader::Udp(u)) => Some((u.source_port, u.destination_port)),
        Some(TransportHeader::Tcp(t)) => Some((t.source_port, t.destination_port)),
        None => None,
    };
    Some(IpHeaders { src, dst, protocol, ports, payload: p.payload.to_vec() })
}

/// The source (or else the destination) port of `ports`, if there are ports.
pub open spec fn port_of(ports: Option<(u16, u16)>, source: bool) -> Option<u16> {
    match ports {
        Some(p) => Some(if source { p.0 } else { p.1 }),
        None => None,
    }
}

/// `f` is the flow record of a packet with headers `h` and wire length
/// `size`: addresses, ports and protocol are those of the headers, and a DNS
/// summary is present exactly where the packet is UDP or TCP and its payload
/// is a well-formed DNS message.
pub open spec fn flow_matches(h: IpHeaders, size: u32, f: FlowLog) -> bool {
    &&& f.src == h.src
    &&& f.dst == h.dst
    &&& f.src_port == port_of(h.ports, true)
    &&& f.dst_port == port_of(h.ports, false)
    &&& f.l3_protocol == h.protocol
    &&& f.size == size
    &&& if h.ports is Some && dns_message_of(h.payload@) is Some {
        f.dns is Some && summarizes(dns_message_of(h.payload@)->0, f.dns->0)
    } else {
        f.dns is None
    }
}

/// Builds the flow record of a packet from its decoded headers, its wire
/// length and its capture time. A DNS parse is tried on the payload of UDP
/// and TCP segments only; an empty payload never parses as DNS.
pub fn flow_log(h: &IpHeaders, size: u32, timestamp: u128) -> (r: FlowLog)
    ensures
        flow_matches(*h, size, r),
        r.timestamp == timestamp,
{
    let (src_port, dst_port, dns) = match h.ports {
        Some((s, d)) => {
            (Some(s), Some(d), parse_dns(h.payload.as_slice()))
        },
        None => (None, None, None),
    };
    FlowLog { src: h.src, src_port, dst: h.dst, dst_port, l3_protocol: h.protocol, size, timestamp, dns }
}

/// The flow record of an IPv4/UDP packet: addresses, ports and protocol are
/// those of its header bytes, and a DNS summary is present exactly where the
/// UDP payload is a well-formed DNS message.
pub open spec fn ipv4_udp_flow(b: Seq<u8>, size: u32, f: FlowLog) -> bool {
    &&& f.src matches IpAddress::V4(a) && a@ == b.subrange(12, 16)
    &&& f.dst matches IpAddress::V4(a) && a@ == b.subrange(16, 20)
    &&& f.l3_protocol == 17
    &&& f.src_port == Some(be16(b, ipv4_header_len(b)) as u16)
    &&& f.dst_port == Some(be16(b, ipv4_header_len(b) + 2) as u16)
    &&& f.size == size
    &&& (f.dns is Some <==> dns_message_of(ipv4_udp_payload(b)) is Some)
}

/// The flow record of an IPv4 packet whose protocol has no ports: addresses
/// and protocol of its header bytes, and neither ports nor DNS.
pub open spec fn ipv4_portless_flow(b: Seq<u8>, size: u32, f: FlowLog) -> bool {
    &&& f.src matches IpAddress::V4(a) && a@ == b.subrange(12, 16)
    &&& f.dst matches IpAddress::V4(a) && a@ == b.subrange(16, 20)
    &&& f.l3_protocol == b[9]
    &&& f.src_port is None
    &&& f.dst_port is None
    &&& f.size == size
    &&& f.dns is None
}

/// Decodes captured packets, one at a time, into flow records whose capture
/// times never decrease from one record to the next.
#[derive(Clone, Copy, Debug)]
pub struct FlowLogCodec {
    pub last_timestamp: u128,
}

/// The capture time given to a record observed at `now`, after a record
/// stamped `last`.
pub open spec fn stamped(last: u128, now: u128) -> u128 {
    if now >= last { now } else { last }
}

impl FlowLogCodec {
    pub fn new() -> (r: FlowLogCodec)
        ensures
            r.last_timestamp == 0,
    {
        FlowLogCodec { last_timestamp: 0 }
    }

    /// Decodes an IP packet observed at `now` (nanoseconds since the epoch)
    /// whose wire length is `size`.
    pub fn decode_at(&mut self, packet: &[u8], size: u32, now: u128) -> (r: Result<FlowLog, DecodeError>)
        ensures
            ip_headers_of(packet@) is None ==> r is Err && *final(self) == *old(self),
            ip_headers_of(packet@) is Some ==> r is Ok && flow_matches(
                ip_headers_of(packet@)->0,
                size,
                r->Ok_0,
            ) && r->Ok_0.timestamp == stamped(old(self).last_timestamp, now)
                && final(self).last_timestamp == r->Ok_0.timestamp,
            is_truncated_ip(packet@) ==> r is Err,
            is_ipv4_udp(packet@) ==> r is Ok && ipv4_udp_flow(packet@, size, r->Ok_0),
            is_ipv4_portless(packet@) ==> r is Ok && ipv4_portless_flow(packet@, size, r->Ok_0),
    {
        match read_ip_headers(packet) {
            Some(h) => {
                let t = if now >= self.last_timestamp { now } else { self.last_timestamp };
                self.last_timestamp = t;
                Ok(flow_log(&h, size, t))
            },
            None => Err(DecodeError::UnsupportedOrMalformed),
        }
    }

    /// Decodes an IP packet whose wire length is `size`, stamped with the
    /// current time.
    pub fn decode(&mut self, packet: &[u8], size: u32) -> (r: Result<FlowLog, DecodeError>)
        ensures
            ip_headers_of(packet@) is None ==> r is Err && *final(self) == *old(self),
            ip_headers_of(packet@) is Some ==> r is Ok && flow_matches(
                ip_headers_of(packet@)->0,
                size,
                r->Ok_0,
            ) && r->Ok_0.timestamp >= old(self).last_timestamp
                && final(self).last_timestamp == r->Ok_0.timestamp,
            is_truncated_ip(packet@) ==> r is Err,
            is_ipv4_udp(packet@) ==> r is Ok && ipv4_udp_flow(packet@, size, r->Ok_0),
            is_ipv4_portless(packet@) ==> r is Ok && ipv4_portless_flow(packet@, size, r->Ok_0),
    {
        let now = timestamp();
        self.decode_at(packet, size, now)
    }
}

} // verus!
