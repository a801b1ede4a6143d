use trojan_rust::protocol::common::request::InbounndRequest;
use trojan_rust::protocol::trojan as legacy;
use trojan_rust::proxy::base::SupportedProtocols_Dep;
use trojan_rust::server::acceptor::{trojan_accept, AcceptError};
use trojan_rust::tproto::common::addr::{IpAddrPort, IpAddress};
use trojan_rust::tproto::common::atype::Atype;
use trojan_rust::tproto::common::command::Command;
use trojan_rust::tproto::common::request::{InboundProtocol, InboundRequest};
use trojan_rust::tproto::trojan::base::Request;
use trojan_rust::tproto::trojan::parser::{parse_address, parse_trojan, read_u16_be, ParseError};
use trojan_rust::tproto::trojan::{CRLF, HEX_SIZE};

fn hex56(c: u8) -> Vec<u8> {
    vec![c; 56]
}

fn header(hex: &[u8], cmd: u8, addr: &[u8], port: u16) -> Vec<u8> {
    let mut v = hex.to_vec();
    v.extend_from_slice(&[0x0D, 0x0A, cmd]);
    v.extend_from_slice(addr);
    v.extend_from_slice(&port.to_be_bytes());
    v.extend_from_slice(&[0x0D, 0x0A]);
    v
}

#[test]
fn constants() {
    assert_eq!(HEX_SIZE, 56);
    assert_eq!(CRLF, 0x0D0A);
    assert_eq!(legacy::HEX_SIZE, 56);
    assert_eq!(legacy::CRLF, 0x0D0A);
}

#[test]
fn atype_and_command_bytes() {
    assert_eq!(Atype::IPv4.to_byte(), 1);
    assert_eq!(Atype::DomainName.to_byte(), 3);
    assert_eq!(Atype::IPv6.to_byte(), 4);
    assert_eq!(Atype::from_byte(4), Some(Atype::IPv6));
    assert_eq!(Atype::from_byte(2), None);
    assert_eq!(Command::Connect.to_byte(), 1);
    assert_eq!(Command::Udp.to_byte(), 3);
    assert_eq!(Command::from_byte(3), Some(Command::Udp));
    assert_eq!(Command::from_byte(2), None);
}

#[test]
fn big_endian_port() {
    assert_eq!(read_u16_be(0x1F, 0x90), 8080);
    assert_eq!(read_u16_be(0xFF, 0xFF), 65535);
    assert_eq!(read_u16_be(0, 0), 0);
}

#[test]
fn parse_ipv4_connect_header() {
    let mut buf = header(&hex56(b'a'), 1, &[1, 127, 0, 0, 1], 8080);
    let len = buf.len();
    assert_eq!(len, 68);
    buf.extend_from_slice(b"GET / HTTP/1.1");
    let (req, n) = parse_trojan(&buf).unwrap();
    assert_eq!(n, 68);
    let (hex, cmd, atype, addr, port) = req.into_parts();
    assert_eq!(hex, hex56(b'a'));
    assert_eq!(cmd, Command::Connect);
    assert_eq!(atype, Atype::IPv4);
    assert!(matches!(addr, IpAddress::V4([127, 0, 0, 1])));
    assert_eq!(port, 8080);
}

#[test]
fn parse_ipv6_udp_header() {
    let mut addr = vec![4u8];
    addr.extend_from_slice(&[0x20, 0x01, 0x0d, 0xb8, 0, 0, 0, 0, 0, 0, 0, 0, 0, 0, 0, 1]);
    let buf = header(&hex56(b'b'), 3, &addr, 53);
    let (req, n) = parse_trojan(&buf).unwrap();
    assert_eq!(n, 56 + 2 + 1 + 17 + 2 + 2);
    let r = req.into_request();
    assert_eq!(r.atype, Atype::IPv6);
    assert_eq!(r.command, Command::Udp);
    assert_eq!(r.transport_protocol, InboundProtocol::UDP);
    assert_eq!(r.addr_port.port, 53);
    match r.addr_port.ip {
        IpAddress::V6(a) => assert_eq!(a, [0x20, 0x01, 0x0d, 0xb8, 0, 0, 0, 0, 0, 0, 0, 0, 0, 0, 0, 1]),
        _ => panic!("expected an IPv6 address"),
    }
}

#[test]
fn parse_domain_header() {
    let mut addr = vec![3u8, 11];
    addr.extend_from_slice(b"example.com");
    let buf = header(&hex56(b'c'), 1, &addr, 443);
    let (req, n) = parse_trojan(&buf).unwrap();
    assert_eq!(n, buf.len());
    let r = req.into_request();
    assert_eq!(r.atype, Atype::DomainName);
    assert_eq!(r.transport_protocol, InboundProtocol::TCP);
    assert_eq!(r.addr_port.port, 443);
    match r.addr_port.ip {
        IpAddress::Domain(d) => assert_eq!(d, b"example.com".to_vec()),
        _ => panic!("expected a domain"),
    }
}

#[test]
fn parse_empty_domain() {
    let buf = header(&hex56(b'c'), 1, &[3, 0], 1);
    let (req, n) = parse_trojan(&buf).unwrap();
    assert_eq!(n, 56 + 2 + 1 + 2 + 2 + 2);
    let (_, _, _, addr, _) = req.into_parts();
    assert!(matches!(addr, IpAddress::Domain(d) if d.is_empty()));
}

#[test]
fn every_proper_prefix_is_incomplete() {
    let mut addr = vec![3u8, 4];
    addr.extend_from_slice(b"host");
    let buf = header(&hex56(b'd'), 1, &addr, 80);
    for k in 0..buf.len() {
        assert_eq!(parse_trojan(&buf[..k]).err(), Some(ParseError::Incomplete), "prefix {}", k);
    }
    assert!(parse_trojan(&buf).is_ok());
}

#[test]
fn parse_errors() {
    let mut bad_delim = header(&hex56(b'a'), 1, &[1, 1, 2, 3, 4], 80);
    bad_delim[56] = b'x';
    assert_eq!(parse_trojan(&bad_delim).err(), Some(ParseError::MissingCrlf));

    let mut bad_tail = header(&hex56(b'a'), 1, &[1, 1, 2, 3, 4], 80);
    let l = bad_tail.len();
    bad_tail[l - 1] = 0;
    assert_eq!(parse_trojan(&bad_tail).err(), Some(ParseError::MissingCrlf));

    let bad_cmd = header(&hex56(b'a'), 2, &[1, 1, 2, 3, 4], 80);
    assert_eq!(parse_trojan(&bad_cmd).err(), Some(ParseError::UnknownCommand(2)));

    let bad_atype = header(&hex56(b'a'), 1, &[5, 1, 2, 3, 4], 80);
    assert_eq!(parse_trojan(&bad_atype).err(), Some(ParseError::UnknownAddressType(5)));
}

#[test]
fn decided_parse_ignores_later_bytes() {
    let buf = header(&hex56(b'a'), 1, &[1, 1, 2, 3, 4], 80);
    let mut longer = buf.clone();
    longer.extend_from_slice(&[9, 9, 9]);
    assert_eq!(parse_trojan(&buf).unwrap().1, parse_trojan(&longer).unwrap().1);
    let bad = header(&hex56(b'a'), 7, &[1, 1, 2, 3, 4], 80);
    let mut bad_longer = bad[..59].to_vec();
    bad_longer.extend_from_slice(&[1, 2]);
    assert_eq!(parse_trojan(&bad[..59]).err(), Some(ParseError::UnknownCommand(7)));
    assert_eq!(parse_trojan(&bad_longer).err(), Some(ParseError::UnknownCommand(7)));
}

#[test]
fn parse_address_at_offset() {
    let buf = [9u8, 9, 1, 10, 0, 0, 1, 7];
    let (a, n) = parse_address(&buf, 2).unwrap();
    assert!(matches!(a, IpAddress::V4([10, 0, 0, 1])));
    assert_eq!(n, 7);
    assert_eq!(parse_address(&buf, 8).err(), Some(ParseError::Incomplete));
    assert_eq!(parse_address(&buf, 100).err(), Some(ParseError::Incomplete));
    assert_eq!(parse_address(&[3, 5, b'a'], 0).err(), Some(ParseError::Incomplete));
}

#[test]
fn request_new_validate_and_into_request() {
    let secret = hex56(b'e');
    let req = Request::new(secret.clone(), Command::Connect, Atype::IPv4, IpAddress::V4([1, 2, 3, 4]), 22);
    assert!(req.validate(&secret));
    assert!(!req.validate(&hex56(b'f')));
    assert!(!req.validate(&secret[..55]));
    assert!(!req.validate(b""));
    let r = req.into_request();
    assert_eq!(r.transport_protocol, InboundProtocol::TCP);
    assert_eq!(r.command, Command::Connect);
    assert_eq!(r.atype, Atype::IPv4);
    assert_eq!(r.addr_port.port, 22);
    assert!(matches!(r.addr_port.ip, IpAddress::V4([1, 2, 3, 4])));
}

#[test]
fn inbound_request_new_pairs_address_and_port() {
    let r = InboundRequest::new(Atype::DomainName, IpAddress::Domain(b"a.b".to_vec()), Command::Udp, 9, InboundProtocol::UDP);
    assert_eq!(r.addr_port.port, 9);
    assert_eq!(r.transport_protocol, InboundProtocol::UDP);
    let p = IpAddrPort::new(IpAddress::V4([0, 0, 0, 0]), 5);
    assert_eq!(p.port, 5);
    let l = InbounndRequest::new(
        Atype::IPv4,
        IpAddress::V4([8, 8, 8, 8]),
        Command::Connect,
        53,
        trojan_rust::protocol::common::request::InboundProtocol::TCP,
        SupportedProtocols_Dep::DIRECT,
    );
    assert_eq!(l.proxy_protocol_dep, SupportedProtocols_Dep::DIRECT);
    assert_eq!(l.addr_port.port, 53);
    assert_eq!(l.atype, Atype::IPv4);
}

#[test]
fn accept_checks_the_secret() {
    let secret = hex56(b'7');
    let buf = header(&secret, 3, &[1, 192, 168, 1, 1], 5353);
    let (r, n) = trojan_accept(&buf, &secret).unwrap();
    assert_eq!(n, buf.len());
    assert_eq!(r.transport_protocol, InboundProtocol::UDP);
    assert_eq!(r.addr_port.port, 5353);
    assert_eq!(trojan_accept(&buf, &hex56(b'8')).err().map(|e| e), Some(AcceptError::InvalidHex));
    assert_eq!(trojan_accept(&buf[..10], &secret).err(), Some(AcceptError::Parse(ParseError::Incomplete)));
}

#[test]
fn legacy_accept_tags_trojan() {
    let secret = hex56(b'7');
    let buf = header(&secret, 1, &[1, 10, 0, 0, 2], 80);
    let (r, n) = legacy::accept(&buf, &secret).unwrap();
    assert_eq!(n, buf.len());
    assert_eq!(r.proxy_protocol_dep, SupportedProtocols_Dep::TROJAN);
    assert_eq!(r.transport_protocol, trojan_rust::protocol::common::request::InboundProtocol::TCP);
    assert!(matches!(legacy::accept(&buf, &hex56(b'0')), Err(AcceptError::InvalidHex)));
    let (req, _) = legacy::parse(&buf).unwrap();
    assert!(req.validate(&secret));
    let legacy_req = legacy::base::Request::new(
        secret.clone(),
        Command::Udp,
        Atype::IPv4,
        IpAddress::V4([1, 1, 1, 1]),
        1,
        SupportedProtocols_Dep::DIRECT,
    );
    let lr = legacy_req.into_request();
    assert_eq!(lr.transport_protocol, trojan_rust::protocol::common::request::InboundProtocol::UDP);
    assert_eq!(lr.proxy_protocol_dep, SupportedProtocols_Dep::DIRECT);
}
