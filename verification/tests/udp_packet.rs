use trojan_rust::tproto::common::addr::{IpAddrPort, IpAddress};
use trojan_rust::tproto::common::atype::Atype;
use trojan_rust::tproto::trojan::packet::{client_datagram, encode_udp_packet, DatagramError, BUF_SIZE};
use trojan_rust::tproto::trojan::parser::ParseError;
use trojan_rust::tproto::trojan::parse_udp;

#[test]
fn encode_ipv4_packet() {
    let addr = IpAddrPort::new(IpAddress::V4([8, 8, 4, 4]), 53);
    let out = encode_udp_packet(&addr, b"hi");
    assert_eq!(out, vec![1, 8, 8, 4, 4, 0, 53, 0, 2, 0x0D, 0x0A, b'h', b'i']);
}

#[test]
fn encode_domain_packet() {
    let addr = IpAddrPort::new(IpAddress::Domain(b"ab.c".to_vec()), 0x0102);
    let out = encode_udp_packet(&addr, &[]);
    assert_eq!(out, vec![3, 4, b'a', b'b', b'.', b'c', 1, 2, 0, 0, 0x0D, 0x0A]);
}

#[test]
fn encode_ipv6_packet() {
    let a = [0xfe, 0x80, 0, 0, 0, 0, 0, 0, 0, 0, 0, 0, 0, 0, 0, 9];
    let addr = IpAddrPort::new(IpAddress::V6(a), 1);
    let out = encode_udp_packet(&addr, &[7; 300]);
    assert_eq!(out[0], 4);
    assert_eq!(&out[1..17], &a);
    assert_eq!(&out[17..23], &[0, 1, 1, 44, 0x0D, 0x0A]);
    assert_eq!(out.len(), 23 + 300);
}

#[test]
fn long_domain_length_byte_wraps() {
    let name = vec![b'x'; 300];
    let addr = IpAddrPort::new(IpAddress::Domain(name), 1);
    let out = encode_udp_packet(&addr, &[]);
    assert_eq!(out[1], (300 % 256) as u8);
}

#[test]
fn packet_roundtrip() {
    let addr = IpAddrPort::new(IpAddress::Domain(b"relay.example".to_vec()), 4444);
    let payload = vec![5u8; 1000];
    let out = encode_udp_packet(&addr, &payload);
    let (h, n) = parse_udp(&out).unwrap();
    assert_eq!(h.atype, Atype::DomainName);
    assert_eq!(h.dest.port, 4444);
    assert_eq!(h.payload_size, 1000);
    assert!(matches!(h.dest.ip, IpAddress::Domain(ref d) if d == b"relay.example"));
    assert_eq!(&out[n..], &payload[..]);
    let (h2, n2) = client_datagram(&out).unwrap();
    assert_eq!((h2.payload_size, n2), (1000, n));
}

#[test]
fn datagram_waits_for_payload_and_refuses_oversize() {
    let addr = IpAddrPort::new(IpAddress::V4([1, 2, 3, 4]), 9);
    let out = encode_udp_packet(&addr, &[1, 2, 3]);
    assert_eq!(client_datagram(&out[..out.len() - 1]).err(), Some(DatagramError::Parse(ParseError::Incomplete)));
    assert_eq!(client_datagram(&out[..3]).err(), Some(DatagramError::Parse(ParseError::Incomplete)));
    let big = encode_udp_packet(&addr, &vec![0u8; BUF_SIZE + 1]);
    assert_eq!(client_datagram(&big[..11]).err(), Some(DatagramError::PayloadTooLarge));
    let fits = encode_udp_packet(&addr, &vec![0u8; BUF_SIZE]);
    assert!(client_datagram(&fits).is_ok());
}

#[test]
fn udp_header_errors() {
    assert_eq!(parse_udp(&[9]).err(), Some(ParseError::UnknownAddressType(9)));
    assert_eq!(parse_udp(&[1, 1, 1, 1, 1, 0, 1, 0, 1, 0, 0]).err(), Some(ParseError::MissingCrlf));
    assert_eq!(parse_udp(&[]).err(), Some(ParseError::Incomplete));
}
