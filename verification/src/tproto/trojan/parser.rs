use vstd::prelude::*;
use crate::tproto::common::addr::{spec_address_wf, spec_atype_of, AddressView, IpAddress};
use crate::tproto::common::atype::{spec_atype_byte, spec_atype_from_byte, Atype};
use crate::tproto::common::command::{spec_command_byte, spec_command_from_byte, Command};
use crate::tproto::common::addr::IpAddrPort;
use crate::tproto::trojan::base::{Request, RequestView, HEX_SIZE};
use crate::tproto::trojan::packet::{TrojanUdpPacketHeader, UdpHeaderView};

verus! {

/// Why a header could not be read from the bytes received so far.
#[derive(Clone, Copy, Debug, PartialEq, Eq, Structural)]
pub enum ParseError {
    /// The bytes end before the header does; more must be read.
    Incomplete,
    /// A CRLF delimiter was expected and other bytes stand there.
    MissingCrlf,
    /// The CMD byte names no known command.
    UnknownCommand(u8),
    /// The ATYP byte names no known address type.
    UnknownAddressType(u8),
}

/// The CRLF delimiter, `CRLF` written big-endian.
pub open spec fn spec_crlf() -> Seq<u8> {
    seq![13u8, 10u8]
}

/// A 16-bit number written big-endian.
pub open spec fn spec_u16_be(v: u16) -> Seq<u8> {
    seq![(v / 256) as u8, (v % 256) as u8]
}

/// The 16-bit number that two big-endian bytes stand for.
pub open spec fn spec_be_u16(hi: u8, lo: u8) -> u16 {
    (hi * 256 + lo) as u16
}

/// An address on the wire: the ATYP byte, then four or sixteen octets, or for a domain name a
/// length byte and the name. The length byte holds the name's length modulo 256.
pub open spec fn spec_address_wire(a: AddressView) -> Seq<u8> {
    seq![spec_atype_byte(spec_atype_of(a))] + match a {
        AddressView::V4(b) => b,
        AddressView::V6(b) => b,
        AddressView::Domain(d) => seq![(d.len() % 256) as u8] + d,
    }
}

/// Reads an address (ATYP and host) that starts at offset `i` of `s`; gives the address and the
/// offset just past it.
pub open spec fn spec_parse_address(s: Seq<u8>, i: int) -> Result<(AddressView, int), ParseError> {
    if s.len() <= i {
        Err(ParseError::Incomplete)
    } else {
        match spec_atype_from_byte(s[i]) {
            None => Err(ParseError::UnknownAddressType(s[i])),
            Some(Atype::IPv4) => if s.len() < i + 5 {
                Err(ParseError::Incomplete)
            } else {
                Ok((AddressView::V4(s.subrange(i + 1, i + 5)), i + 5))
            },
            Some(Atype::IPv6) => if s.len() < i + 17 {
                Err(ParseError::Incomplete)
            } else {
                Ok((AddressView::V6(s.subrange(i + 1, i + 17)), i + 17))
            },
            Some(Atype::DomainName) => if s.len() < i + 2 {
                Err(ParseError::Incomplete)
            } else if s.len() < i + 2 + s[i + 1] {
                Err(ParseError::Incomplete)
            } else {
                Ok((AddressView::Domain(s.subrange(i + 2, i + 2 + s[i + 1])), i + 2 + s[i + 1]))
            },
        }
    }
}

/// A Trojan request header on the wire: 56 bytes of hex, CRLF, the CMD byte, the address,
/// the port big-endian, CRLF.
pub open spec fn spec_request_wire(r: RequestView) -> Seq<u8> {
    r.hex + spec_crlf() + seq![spec_command_byte(r.command)] + spec_address_wire(r.addr)
        + spec_u16_be(r.port) + spec_crlf()
}

/// A request header that can be written and read back.
pub open spec fn spec_request_wf(r: RequestView) -> bool {
    &&& r.hex.len() == HEX_SIZE
    &&& r.atype == spec_atype_of(r.addr)
    &&& spec_address_wf(r.addr)
}

/// Reads a Trojan request header from the start of `s`; gives the header and its length.
pub open spec fn spec_parse_request(s: Seq<u8>) -> Result<(RequestView, int), ParseError> {
    if s.len() < HEX_SIZE + 2 {
        Err(ParseError::Incomplete)
    } else if s[56] != 13 || s[57] != 10 {
        Err(ParseError::MissingCrlf)
    } else if s.len() < 59 {
        Err(ParseError::Incomplete)
    } else {
        match spec_command_from_byte(s[58]) {
            None => Err(ParseError::UnknownCommand(s[58])),
            Some(command) => match spec_parse_address(s, 59) {
                Err(e) => Err(e),
                Ok((addr, off)) => if s.len() < off + 4 {
                    Err(ParseError::Incomplete)
                } else if s[off + 2] != 13 || s[off + 3] != 10 {
                    Err(ParseError::MissingCrlf)
                } else {
                    Ok(
                        (
                            RequestView {
                                hex: s.subrange(0, 56),
                                command,
                                atype: spec_atype_of(addr),
                                addr,
                                port: spec_be_u16(s[off], s[off + 1]),
                            },
                            off + 4,
                        ),
                    )
                },
            },
        }
    }
}

/// The view of what `parse_address` returns.
pub open spec fn address_result_view(r: Result<(IpAddress, usize), ParseError>) -> Result<(AddressView, int), ParseError> {
    match r {
        Ok((a, n)) => Ok((a@, n as int)),
        Err(e) => Err(e),
    }
}

/// The view of what `parse_trojan` returns.
pub open spec fn request_result_view(r: Result<(Request, usize), ParseError>) -> Result<(RequestView, int), ParseError> {
    match r {
        Ok((req, n)) => Ok((req@, n as int)),
        Err(e) => Err(e),
    }
}

/// Reads a big-endian 16-bit number.
pub fn read_u16_be(hi: u8, lo: u8) -> (v: u16)
    ensures
        v == spec_be_u16(hi, lo),
{
    (hi as u16) * 256 + (lo as u16)
}

/// Copies `buf[start..end]` into a new vector.
fn copy_range(buf: &[u8], start: usize, end: usize) -> (v: Vec<u8>)
    requires
        start <= end <= buf@.len(),
    ensures
        v@ == buf@.subrange(start as int, end as int),
{
    let mut v: Vec<u8> = Vec::new();
    let mut k: usize = start;
    while k < end
        invariant
            start <= k <= end <= buf@.len(),
            v@ == buf@.subrange(start as int, k as int),
        decreases end - k,
    {
        v.push(buf[k]);
        k = k + 1;
    }
    v
}

/// Reads an address (ATYP and host) starting at offset `i` of `buf`.
pub fn parse_address(buf: &[u8], i: usize) -> (r: Result<(IpAddress, usize), ParseError>)
    ensures
        address_result_view(r) == spec_parse_address(buf@, i as int),
        r matches Ok((_, n)) ==> n <= buf@.len(),
{
    let len = buf.len();
    if len <= i {
        return Err(ParseError::Incomplete);
    }
    match Atype::from_byte(buf[i]) {
        None => Err(ParseError::UnknownAddressType(buf[i])),
        Some(Atype::IPv4) => {
            if len - i < 5 {
                return Err(ParseError::Incomplete);
            }
            let a = [buf[i + 1], buf[i + 2], buf[i + 3], buf[i + 4]];
            assert(a@ =~= buf@.subrange(i + 1, i + 5));
            Ok((IpAddress::V4(a), i + 5))
        },
        Some(Atype::IPv6) => {
            if len - i < 17 {
                return Err(ParseError::Incomplete);
            }
            let a = [
                buf[i + 1],
                buf[i + 2],
                buf[i + 3],
                buf[i + 4],
                buf[i + 5],
                buf[i + 6],
                buf[i + 7],
                buf[i + 8],
                buf[i + 9],
                buf[i + 10],
                buf[i + 11],
                buf[i + 12],
                buf[i + 13],
                buf[i + 14],
                buf[i + 15],
                buf[i + 16],
            ];
            assert(a@ =~= buf@.subrange(i + 1, i + 17));
            Ok((IpAddress::V6(a), i + 17))
        },
        Some(Atype::DomainName) => {
            if len - i < 2 {
                return Err(ParseError::Incomplete);
            }
            let l = buf[i + 1] as usize;
            if len - i - 2 < l {
                return Err(ParseError::Incomplete);
            }
            let d = copy_range(buf, i + 2, i + 2 + l);
            Ok((IpAddress::Domain(d), i + 2 + l))
        },
    }
}

/// Reads a Trojan request header from the start of `buf`: the hex, the command, the destination
/// and its port. Gives the header and the number of bytes it takes, so that what follows is
/// payload; `Incomplete` when `buf` ends before the header does.
pub fn parse_trojan(buf: &[u8]) -> (r: Result<(Request, usize), ParseError>)
    ensures
        request_result_view(r) == spec_parse_request(buf@),
{
    let len = buf.len();
    if len < HEX_SIZE + 2 {
        return Err(ParseError::Incomplete);
    }
    if buf[56] != 13 || buf[57] != 10 {
        return Err(ParseError::MissingCrlf);
    }
    if len < 59 {
        return Err(ParseError::Incomplete);
    }
    let command = match Command::from_byte(buf[58]) {
        None => return Err(ParseError::UnknownCommand(buf[58])),
        Some(c) => c,
    };
    let (addr, off) = match parse_address(buf, 59) {
        Err(e) => return Err(e),
        Ok(p) => p,
    };
    if len - off < 4 {
        return Err(ParseError::Incomplete);
    }
    if buf[off + 2] != 13 || buf[off + 3] != 10 {
        return Err(ParseError::MissingCrlf);
    }
    let port = read_u16_be(buf[off], buf[off + 1]);
    let hex = copy_range(buf, 0, HEX_SIZE);
    let atype = addr.atype();
    Ok((Request::new(hex, command, atype, addr, port), off + 4))
}



/// Reads the header of a Trojan UDP packet from the start of `s`: the address, the port, the
/// payload length and CRLF. Gives the header and its length.
pub open spec fn spec_parse_udp(s: Seq<u8>) -> Result<(UdpHeaderView, int), ParseError> {
    match spec_parse_address(s, 0) {
        Err(e) => Err(e),
        Ok((addr, off)) => if s.len() < off + 6 {
            Err(ParseError::Incomplete)
        } else if s[off + 4] != 13 || s[off + 5] != 10 {
            Err(ParseError::MissingCrlf)
        } else {
            Ok(
                (
                    UdpHeaderView {
                        atype: spec_atype_of(addr),
                        dest: (addr, spec_be_u16(s[off], s[off + 1])),
                        payload_size: spec_be_u16(s[off + 2], s[off + 3]) as int,
                    },
                    off + 6,
                ),
            )
        },
    }
}

/// The view of what `parse_udp` returns.
pub open spec fn udp_result_view(r: Result<(TrojanUdpPacketHeader, usize), ParseError>) -> Result<(UdpHeaderView, int), ParseError> {
    match r {
        Ok((h, n)) => Ok((h@, n as int)),
        Err(e) => Err(e),
    }
}

/// Reads the header of a Trojan UDP packet from the start of `buf`; gives the header and the
/// number of bytes it takes, the payload following it.
pub fn parse_udp(buf: &[u8]) -> (r: Result<(TrojanUdpPacketHeader, usize), ParseError>)
    ensures
        udp_result_view(r) == spec_parse_udp(buf@),
        r matches Ok((_, n)) ==> n <= buf@.len(),
{
    let len = buf.len();
    let (addr, off) = match parse_address(buf, 0) {
        Err(e) => return Err(e),
        Ok(p) => p,
    };
    if len - off < 6 {
        return Err(ParseError::Incomplete);
    }
    if buf[off + 4] != 13 || buf[off + 5] != 10 {
        return Err(ParseError::MissingCrlf);
    }
    let port = read_u16_be(buf[off], buf[off + 1]);
    let size = read_u16_be(buf[off + 2], buf[off + 3]);
    let atype = addr.atype();
    Ok((TrojanUdpPacketHeader { atype, dest: IpAddrPort::new(addr, port), payload_size: size as usize }, off + 6))
}

/// Reading a well-formed address back from its wire form, wherever it stands and whatever
/// follows it, gives the address and the offset just past it.
pub proof fn lemma_parse_address_roundtrip(pre: Seq<u8>, a: AddressView, rest: Seq<u8>)
    requires
        spec_address_wf(a),
    ensures
        spec_parse_address(pre + spec_address_wire(a) + rest, pre.len() as int) == Ok::<(AddressView, int), ParseError>(
            (a, (pre.len() + spec_address_wire(a).len()) as int),
        ),
{
    let w = spec_address_wire(a);
    let s = pre + w + rest;
    let i = pre.len() as int;
    assert(s[i] == w[0]);
    match a {
        AddressView::V4(b) => {
            assert(s.subrange(i + 1, i + 5) =~= b);
        },
        AddressView::V6(b) => {
            assert(s.subrange(i + 1, i + 17) =~= b);
        },
        AddressView::Domain(d) => {
            assert(s[i + 1] == w[1]);
            assert(s.subrange(i + 2, i + 2 + d.len()) =~= d);
        },
    }
}

/// What the address reader accepts is exactly the wire form of a well-formed address.
pub proof fn lemma_parse_address_exact(s: Seq<u8>, i: int)
    requires
        0 <= i,
        spec_parse_address(s, i) is Ok,
    ensures
        ({
            let (a, off) = spec_parse_address(s, i)->Ok_0;
            &&& spec_address_wf(a)
            &&& i < off <= s.len()
            &&& s.subrange(i, off) == spec_address_wire(a)
        }),
{
    let (a, off) = spec_parse_address(s, i)->Ok_0;
    match a {
        AddressView::V4(b) => {
            assert(s.subrange(i, off) =~= spec_address_wire(a));
        },
        AddressView::V6(b) => {
            assert(s.subrange(i, off) =~= spec_address_wire(a));
        },
        AddressView::Domain(d) => {
            assert(s.subrange(i, off) =~= spec_address_wire(a));
        },
    }
}

/// Once the address reader has decided (anything but `Incomplete`), more bytes change nothing.
pub proof fn lemma_parse_address_prefix(s: Seq<u8>, t: Seq<u8>, i: int)
    requires
        0 <= i,
        spec_parse_address(s, i) != Err::<(AddressView, int), ParseError>(ParseError::Incomplete),
    ensures
        spec_parse_address(s + t, i) == spec_parse_address(s, i),
{
    let u = s + t;
    assert(i < s.len());
    assert(u[i] == s[i]);
    match spec_atype_from_byte(s[i]) {
        None => {},
        Some(Atype::IPv4) => {
            assert(u.subrange(i + 1, i + 5) =~= s.subrange(i + 1, i + 5));
        },
        Some(Atype::IPv6) => {
            assert(u.subrange(i + 1, i + 17) =~= s.subrange(i + 1, i + 17));
        },
        Some(Atype::DomainName) => {
            assert(u[i + 1] == s[i + 1]);
            assert(u.subrange(i + 2, i + 2 + s[i + 1]) =~= s.subrange(i + 2, i + 2 + s[i + 1]));
        },
    }
}

/// A port written big-endian reads back as the same port.
pub proof fn lemma_u16_be_roundtrip(v: u16)
    ensures
        spec_be_u16(spec_u16_be(v)[0], spec_u16_be(v)[1]) == v,
{
}

/// Law: a well-formed request header, written to the wire and followed by any payload, reads
/// back as the same header, and the reader reports exactly the header's length.
pub proof fn lemma_parse_request_roundtrip(r: RequestView, rest: Seq<u8>)
    requires
        spec_request_wf(r),
    ensures
        spec_parse_request(spec_request_wire(r) + rest) == Ok::<(RequestView, int), ParseError>(
            (r, spec_request_wire(r).len() as int),
        ),
{
    let pre = r.hex + spec_crlf() + seq![spec_command_byte(r.command)];
    let aw = spec_address_wire(r.addr);
    let tail = spec_u16_be(r.port) + spec_crlf() + rest;
    let s = spec_request_wire(r) + rest;
    assert(s =~= pre + aw + tail);
    assert(pre.len() == 59);
    assert(s[56] == 13 && s[57] == 10);
    assert(s[58] == spec_command_byte(r.command));
    lemma_parse_address_roundtrip(pre, r.addr, tail);
    let off = 59 + aw.len() as int;
    assert(s[off] == spec_u16_be(r.port)[0]);
    assert(s[off + 1] == spec_u16_be(r.port)[1]);
    assert(s[off + 2] == 13 && s[off + 3] == 10);
    lemma_u16_be_roundtrip(r.port);
    assert(s.subrange(0, 56) =~= r.hex);
    match r.command {
        Command::Connect => {},
        Command::Udp => {},
    }
}

/// Law: whatever the request reader accepts is a well-formed header followed by payload: the
/// bytes it consumed are exactly that header's wire form.
pub proof fn lemma_parse_request_exact(s: Seq<u8>)
    requires
        spec_parse_request(s) is Ok,
    ensures
        ({
            let (r, n) = spec_parse_request(s)->Ok_0;
            &&& spec_request_wf(r)
            &&& n <= s.len()
            &&& s.subrange(0, n) == spec_request_wire(r)
        }),
{
    let (r, n) = spec_parse_request(s)->Ok_0;
    let (a, off) = spec_parse_address(s, 59)->Ok_0;
    lemma_parse_address_exact(s, 59);
    let c = spec_command_from_byte(s[58])->Some_0;
    assert(spec_command_byte(c) == s[58]);
    let p = spec_be_u16(s[off], s[off + 1]);
    assert(spec_u16_be(p) =~= s.subrange(off, off + 2));
    assert(s.subrange(0, n) =~= spec_request_wire(r)) by {
        assert(s.subrange(0, n) =~= s.subrange(0, 56) + s.subrange(56, 58) + s.subrange(58, 59)
            + s.subrange(59, off) + s.subrange(off, off + 2) + s.subrange(off + 2, n));
    }
}

/// Law: once the request reader has decided (anything but `Incomplete`), reading more bytes
/// changes neither the header nor the error.
pub proof fn lemma_parse_request_prefix(s: Seq<u8>, t: Seq<u8>)
    requires
        spec_parse_request(s) != Err::<(RequestView, int), ParseError>(ParseError::Incomplete),
    ensures
        spec_parse_request(s + t) == spec_parse_request(s),
{
    let u = s + t;
    assert(s.len() >= 58);
    assert(u[56] == s[56] && u[57] == s[57]);
    if s[56] == 13 && s[57] == 10 {
        assert(s.len() >= 59);
        assert(u[58] == s[58]);
        if spec_command_from_byte(s[58]) is Some {
            lemma_parse_address_prefix(s, t, 59);
            if let Ok((addr, off)) = spec_parse_address(s, 59) {
                assert(s.len() >= off + 4);
                assert(u[off] == s[off] && u[off + 1] == s[off + 1]);
                assert(u[off + 2] == s[off + 2] && u[off + 3] == s[off + 3]);
                assert(u.subrange(0, 56) =~= s.subrange(0, 56));
            }
        }
    }
}

} // verus!
