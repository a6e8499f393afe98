use flowlog::dns::RecordType;
use flowlog::packet::{DecodeError, FlowLogCodec, IpAddress};

fn dns_query() -> Vec<u8> {
    let mut q = vec![0x12, 0x34, 0x01, 0x00, 0, 1, 0, 0, 0, 0, 0, 0];
    q.extend_from_slice(&[7, b'e', b'x', b'a', b'm', b'p', b'l', b'e', 3, b'c', b'o', b'm', 0]);
    q.extend_from_slice(&[0, 1, 0, 1]);
    q
}

fn dns_response() -> Vec<u8> {
    let mut r = vec![0x12, 0x34, 0x81, 0x80, 0, 1, 0, 1, 0, 0, 0, 0];
    r.extend_from_slice(&[7, b'e', b'x', b'a', b'm', b'p', b'l', b'e', 3, b'c', b'o', b'm', 0]);
    r.extend_from_slice(&[0, 1, 0, 1]);
    r.extend_from_slice(&[0xc0, 0x0c, 0, 1, 0, 1, 0, 0, 0x0e, 0x10, 0, 4, 93, 184, 216, 34]);
    r
}

fn ipv4_packet(protocol: u8, transport: &[u8]) -> Vec<u8> {
    let total = (20 + transport.len()) as u16;
    let mut p = vec![0x45, 0, (total >> 8) as u8, total as u8, 0, 0, 0x40, 0, 64, protocol, 0, 0];
    p.extend_from_slice(&[10, 0, 0, 1, 8, 8, 4, 4]);
    p.extend_from_slice(transport);
    p
}

fn udp(src: u16, dst: u16, payload: &[u8]) -> Vec<u8> {
    let len = (8 + payload.len()) as u16;
    let mut u = vec![(src >> 8) as u8, src as u8, (dst >> 8) as u8, dst as u8, (len >> 8) as u8, len as u8, 0, 0];
    u.extend_from_slice(payload);
    u
}

#[test]
fn ipv4_udp_dns_query_decodes_headers_and_question() {
    let packet = ipv4_packet(17, &udp(53000, 53, &dns_query()));
    let mut codec = FlowLogCodec::new();
    let f = codec.decode_at(&packet, 1500, 7).unwrap();
    assert_eq!(f.src, IpAddress::V4([10, 0, 0, 1]));
    assert_eq!(f.dst, IpAddress::V4([8, 8, 4, 4]));
    assert_eq!(f.src_port, Some(53000));
    assert_eq!(f.dst_port, Some(53));
    assert_eq!(f.l3_protocol, 17);
    assert_eq!(f.size, 1500);
    assert_eq!(f.timestamp, 7);
    let dns = f.dns.unwrap();
    assert_eq!(dns.queried_name, Some("example.com".to_string()));
    assert!(dns.answers.is_empty());
}

#[test]
fn ipv4_udp_dns_response_renders_answer() {
    let packet = ipv4_packet(17, &udp(53, 40000, &dns_response()));
    let f = FlowLogCodec::new().decode_at(&packet, 90, 1).unwrap();
    let dns = f.dns.unwrap();
    assert_eq!(dns.answers.len(), 1);
    assert_eq!(dns.answers[0].name, "example.com");
    assert_eq!(dns.answers[0].record_type, RecordType::A);
    assert_eq!(dns.answers[0].rdata, "93.184.216.34");
}

#[test]
fn udp_payload_that_is_not_dns_has_no_dns() {
    let packet = ipv4_packet(17, &udp(1234, 5678, b"hello"));
    let f = FlowLogCodec::new().decode_at(&packet, 33, 0).unwrap();
    assert_eq!(f.src_port, Some(1234));
    assert_eq!(f.dst_port, Some(5678));
    assert!(f.dns.is_none());
}

#[test]
fn empty_udp_payload_has_no_dns() {
    let packet = ipv4_packet(17, &udp(1, 2, &[]));
    let f = FlowLogCodec::new().decode_at(&packet, 28, 0).unwrap();
    assert!(f.dns.is_none());
}

#[test]
fn protocol_without_ports_gives_portless_record() {
    let packet = ipv4_packet(1, &[8, 0, 0, 0, 0, 1, 0, 1]);
    let f = FlowLogCodec::new().decode_at(&packet, 28, 0).unwrap();
    assert_eq!(f.l3_protocol, 1);
    assert_eq!(f.src_port, None);
    assert_eq!(f.dst_port, None);
    assert!(f.dns.is_none());
}

#[test]
fn truncated_headers_are_decode_errors() {
    let packet = ipv4_packet(17, &udp(1, 2, b"abc"));
    let mut codec = FlowLogCodec::new();
    assert_eq!(codec.decode_at(&packet[..19], 19, 5), Err(DecodeError::UnsupportedOrMalformed));
    assert_eq!(codec.decode_at(&[], 0, 5), Err(DecodeError::UnsupportedOrMalformed));
    assert_eq!(codec.decode_at(&packet[..24], 24, 5), Err(DecodeError::UnsupportedOrMalformed));
    assert_eq!(codec.last_timestamp, 0);
}

#[test]
fn header_shorter_than_declared_is_decode_error() {
    let mut packet = ipv4_packet(1, &[0; 8]);
    packet[0] = 0x4f;
    assert_eq!(FlowLogCodec::new().decode_at(&packet, 28, 0), Err(DecodeError::UnsupportedOrMalformed));
}

#[test]
fn short_ipv6_header_is_decode_error() {
    let mut p = vec![0x60, 0, 0, 0, 0, 0, 59, 64];
    p.extend_from_slice(&[0; 31]);
    assert_eq!(FlowLogCodec::new().decode_at(&p, 39, 0), Err(DecodeError::UnsupportedOrMalformed));
}

#[test]
fn unknown_protocol_gives_portless_record() {
    let packet = ipv4_packet(200, b"anything");
    let f = FlowLogCodec::new().decode_at(&packet, 28, 0).unwrap();
    assert_eq!(f.l3_protocol, 200);
    assert_eq!(f.src_port, None);
    assert!(f.dns.is_none());
}

#[test]
fn unsupported_ip_version_is_decode_error() {
    let mut packet = ipv4_packet(17, &udp(1, 2, b"abc"));
    packet[0] = 0x55;
    assert_eq!(FlowLogCodec::new().decode_at(&packet, 31, 0), Err(DecodeError::UnsupportedOrMalformed));
}

#[test]
fn ipv6_tcp_packet_decodes() {
    let mut p = vec![0x60, 0, 0, 0, 0, 20, 6, 64];
    let mut src = [0u8; 16];
    src[0] = 0x20;
    src[1] = 0x01;
    src[15] = 1;
    let mut dst = [0u8; 16];
    dst[15] = 2;
    p.extend_from_slice(&src);
    p.extend_from_slice(&dst);
    p.extend_from_slice(&[0x01, 0xbb, 0xc0, 0x00, 0, 0, 0, 0, 0, 0, 0, 0, 0x50, 0x02, 0xff, 0xff, 0, 0, 0, 0]);
    let f = FlowLogCodec::new().decode_at(&p, 60, 3).unwrap();
    assert_eq!(f.src, IpAddress::V6(src));
    assert_eq!(f.dst, IpAddress::V6(dst));
    assert_eq!(f.l3_protocol, 6);
    assert_eq!(f.src_port, Some(443));
    assert_eq!(f.dst_port, Some(49152));
    assert!(f.dns.is_none());
}

#[test]
fn timestamps_never_decrease() {
    let packet = ipv4_packet(17, &udp(1, 2, b"x"));
    let mut codec = FlowLogCodec::new();
    assert_eq!(codec.decode_at(&packet, 29, 100).unwrap().timestamp, 100);
    assert_eq!(codec.decode_at(&packet, 29, 50).unwrap().timestamp, 100);
    assert_eq!(codec.decode_at(&packet, 29, 100).unwrap().timestamp, 100);
    assert_eq!(codec.decode_at(&packet, 29, 101).unwrap().timestamp, 101);
}

#[test]
fn decode_stamps_with_the_clock() {
    let packet = ipv4_packet(17, &udp(1, 2, b"x"));
    let mut codec = FlowLogCodec::new();
    let a = codec.decode(&packet, 29).unwrap();
    let b = codec.decode(&packet, 29).unwrap();
    assert!(a.timestamp > 0);
    assert!(b.timestamp >= a.timestamp);
}
