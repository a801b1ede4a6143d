use vstd::prelude::*;
use crate::tproto::common::addr::{AddressView, IpAddrPort, IpAddress};
use crate::tproto::common::atype::Atype;
use crate::tproto::trojan::base::CRLF;
use crate::tproto::common::addr::{spec_address_wf, spec_atype_of};
use crate::tproto::trojan::parser::{
    lemma_parse_address_exact, lemma_parse_address_prefix, lemma_parse_address_roundtrip,
    lemma_u16_be_roundtrip, parse_udp, spec_address_wire, spec_be_u16, spec_crlf,
    spec_parse_address, spec_parse_udp, spec_u16_be, ParseError,
};

verus! {

/// Define the size of the buffer used to transport the data back and forth
pub const BUF_SIZE: usize = 4096;

/// According the official documentation for Trojan protocol, the UDP data will be segmented into Trojan UDP packets,
/// which allows the outbound handler to also forward them as real UDP packets to the desired destinations.
/// Link: https://trojan-gfw.github.io/trojan/protocol.html
pub struct TrojanUdpPacketHeader {
    pub atype: Atype,
    pub dest: IpAddrPort,
    pub payload_size: usize,
}

/// What a `TrojanUdpPacketHeader` holds.
pub struct UdpHeaderView {
    pub atype: Atype,
    pub dest: (AddressView, u16),
    pub payload_size: int,
}

impl View for TrojanUdpPacketHeader {
    type V = UdpHeaderView;

    open spec fn view(&self) -> UdpHeaderView {
        UdpHeaderView { atype: self.atype, dest: self.dest@, payload_size: self.payload_size as int }
    }
}

/// The header of a Trojan UDP packet on the wire: the address, the port, the payload length
/// (both big-endian) and CRLF.
pub open spec fn spec_udp_header_wire(dest: (AddressView, u16), size: u16) -> Seq<u8> {
    spec_address_wire(dest.0) + spec_u16_be(dest.1) + spec_u16_be(size) + spec_crlf()
}

/// Appends the wire form of an address (ATYP and host) to `out`.
fn write_address(addr: &IpAddress, out: &mut Vec<u8>)
    ensures
        final(out)@ == old(out)@ + spec_address_wire(addr@),
{
    let ghost start = out@;
    out.push(addr.atype().to_byte());
    match addr {
        IpAddress::V4(a) => {
            let mut k: usize = 0;
            while k < 4
                invariant
                    k <= 4,
                    out@ == start + seq![1u8] + a@.subrange(0, k as int),
                decreases 4 - k,
            {
                out.push(a[k]);
                k = k + 1;
            }
            assert(a@.subrange(0, 4) =~= a@);
        },
        IpAddress::V6(a) => {
            let mut k: usize = 0;
            while k < 16
                invariant
                    k <= 16,
                    out@ == start + seq![4u8] + a@.subrange(0, k as int),
                decreases 16 - k,
            {
                out.push(a[k]);
                k = k + 1;
            }
            assert(a@.subrange(0, 16) =~= a@);
        },
        IpAddress::Domain(d) => {
            out.push((d.len() % 256) as u8);
            let mut k: usize = 0;
            while k < d.len()
                invariant
                    k <= d@.len(),
                    out@ == start + seq![3u8, (d@.len() % 256) as u8] + d@.subrange(0, k as int),
                decreases d@.len() - k,
            {
                out.push(d[k]);
                k = k + 1;
            }
            assert(d@.subrange(0, d@.len() as int) =~= d@);
        },
    }
    assert(out@ =~= start + spec_address_wire(addr@));
}

/// Appends a 16-bit number, big-endian, to `out`.
fn write_u16_be(v: u16, out: &mut Vec<u8>)
    ensures
        final(out)@ == old(out)@ + spec_u16_be(v),
{
    out.push((v / 256) as u8);
    out.push((v % 256) as u8);
    assert(out@ =~= old(out)@ + spec_u16_be(v));
}

/// Frames a datagram received for a client as a Trojan UDP packet: the header naming the
/// client's destination `addr` and the payload length, then the payload. The length field
/// holds the payload length modulo 2^16.
pub fn encode_udp_packet(addr: &IpAddrPort, payload: &[u8]) -> (out: Vec<u8>)
    ensures
        out@ == spec_udp_header_wire(addr@, (payload@.len() % 65536) as u16) + payload@,
{
    let mut out: Vec<u8> = Vec::new();
    write_address(&addr.ip, &mut out);
    write_u16_be(addr.port, &mut out);
    write_u16_be((payload.len() % 65536) as u16, &mut out);
    write_u16_be(CRLF, &mut out);
    let ghost header = out@;
    assert(header =~= spec_udp_header_wire(addr@, (payload@.len() % 65536) as u16));
    let mut k: usize = 0;
    while k < payload.len()
        invariant
            k <= payload@.len(),
            out@ == header + payload@.subrange(0, k as int),
        decreases payload@.len() - k,
    {
        out.push(payload[k]);
        k = k + 1;
    }
    assert(payload@.subrange(0, payload@.len() as int) =~= payload@);
    out
}

/// Why no datagram can be taken from a client's bytes yet.
#[derive(Clone, Copy, Debug, PartialEq, Eq, Structural)]
pub enum DatagramError {
    /// The packet header cannot be read (or is not all there yet).
    Parse(ParseError),
    /// The header announces more payload than the relay buffer holds.
    PayloadTooLarge,
}

/// Takes the next Trojan UDP packet from the bytes a client sent: its header and the header's
/// length, the payload being the `payload_size` bytes that follow. A header announcing more
/// than `BUF_SIZE` bytes is refused as soon as it is read; a payload not yet all there is
/// `Incomplete`.
pub fn client_datagram(buf: &[u8]) -> (r: Result<(TrojanUdpPacketHeader, usize), DatagramError>)
    ensures
        match spec_parse_udp(buf@) {
            Err(e) => r == Err::<(TrojanUdpPacketHeader, usize), DatagramError>(DatagramError::Parse(e)),
            Ok((h, n)) => if h.payload_size > BUF_SIZE {
                r == Err::<(TrojanUdpPacketHeader, usize), DatagramError>(DatagramError::PayloadTooLarge)
            } else if buf@.len() < n + h.payload_size {
                r == Err::<(TrojanUdpPacketHeader, usize), DatagramError>(DatagramError::Parse(ParseError::Incomplete))
            } else {
                r matches Ok((rh, rn)) && rh@ == h && rn == n
            },
        },
{
    match parse_udp(buf) {
        Err(e) => Err(DatagramError::Parse(e)),
        Ok((h, n)) => {
            if h.payload_size > BUF_SIZE {
                Err(DatagramError::PayloadTooLarge)
            } else if buf.len() - n < h.payload_size {
                Err(DatagramError::Parse(ParseError::Incomplete))
            } else {
                Ok((h, n))
            }
        },
    }
}


/// Law: the header of a UDP packet for a well-formed destination, followed by anything, reads
/// back as that destination and payload length, and the reader reports exactly its length.
pub proof fn lemma_udp_header_roundtrip(dest: (AddressView, u16), size: u16, rest: Seq<u8>)
    requires
        spec_address_wf(dest.0),
    ensures
        spec_parse_udp(spec_udp_header_wire(dest, size) + rest) == Ok::<(UdpHeaderView, int), ParseError>(
            (
                UdpHeaderView { atype: spec_atype_of(dest.0), dest, payload_size: size as int },
                spec_udp_header_wire(dest, size).len() as int,
            ),
        ),
{
    let aw = spec_address_wire(dest.0);
    let tail = spec_u16_be(dest.1) + spec_u16_be(size) + spec_crlf() + rest;
    let s = spec_udp_header_wire(dest, size) + rest;
    assert(s =~= Seq::<u8>::empty() + aw + tail);
    lemma_parse_address_roundtrip(Seq::<u8>::empty(), dest.0, tail);
    let off = aw.len() as int;
    assert(s[off] == spec_u16_be(dest.1)[0] && s[off + 1] == spec_u16_be(dest.1)[1]);
    assert(s[off + 2] == spec_u16_be(size)[0] && s[off + 3] == spec_u16_be(size)[1]);
    assert(s[off + 4] == 13 && s[off + 5] == 10);
    lemma_u16_be_roundtrip(dest.1);
    lemma_u16_be_roundtrip(size);
}

/// Law: a packet framed by `encode_udp_packet` for a well-formed destination, with a payload
/// that fits the 16-bit length field, reads back as its destination and payload length, and
/// the payload stands right after the header.
pub proof fn lemma_udp_packet_roundtrip(dest: (AddressView, u16), payload: Seq<u8>)
    requires
        spec_address_wf(dest.0),
        payload.len() <= 65535,
    ensures
        ({
            let packet = spec_udp_header_wire(dest, (payload.len() % 65536) as u16) + payload;
            &&& spec_parse_udp(packet) is Ok
            &&& ({
                let (h, n) = spec_parse_udp(packet)->Ok_0;
                &&& h.dest == dest
                &&& h.payload_size == payload.len()
                &&& n + payload.len() == packet.len()
                &&& packet.subrange(n, n + payload.len()) == payload
            })
        }),
{
    let size = (payload.len() % 65536) as u16;
    let header = spec_udp_header_wire(dest, size);
    lemma_udp_header_roundtrip(dest, size, payload);
    let packet = header + payload;
    assert(packet.subrange(header.len() as int, (header.len() + payload.len()) as int) =~= payload);
}

/// Law: whatever the UDP header reader accepts is the wire form of a header for a well-formed
/// destination.
pub proof fn lemma_udp_header_exact(s: Seq<u8>)
    requires
        spec_parse_udp(s) is Ok,
    ensures
        ({
            let (h, n) = spec_parse_udp(s)->Ok_0;
            &&& spec_address_wf(h.dest.0)
            &&& 0 <= h.payload_size <= 65535
            &&& n <= s.len()
            &&& s.subrange(0, n) == spec_udp_header_wire(h.dest, h.payload_size as u16)
        }),
{
    let (h, n) = spec_parse_udp(s)->Ok_0;
    let (a, off) = spec_parse_address(s, 0)->Ok_0;
    lemma_parse_address_exact(s, 0);
    let p = spec_be_u16(s[off], s[off + 1]);
    let z = spec_be_u16(s[off + 2], s[off + 3]);
    assert(spec_u16_be(p) =~= s.subrange(off, off + 2));
    assert(spec_u16_be(z) =~= s.subrange(off + 2, off + 4));
    assert(s.subrange(0, n) =~= s.subrange(0, off) + s.subrange(off, off + 2) + s.subrange(off + 2, off + 4)
        + s.subrange(off + 4, n));
}

/// Law: once the UDP header reader has decided (anything but `Incomplete`), reading more bytes
/// changes neither the header nor the error.
pub proof fn lemma_udp_header_prefix(s: Seq<u8>, t: Seq<u8>)
    requires
        spec_parse_udp(s) != Err::<(UdpHeaderView, int), ParseError>(ParseError::Incomplete),
    ensures
        spec_parse_udp(s + t) == spec_parse_udp(s),
{
    let u = s + t;
    lemma_parse_address_prefix(s, t, 0);
    if let Ok((a, off)) = spec_parse_address(s, 0) {
        assert(s.len() >= off + 6);
        assert(u[off] == s[off] && u[off + 1] == s[off + 1]);
        assert(u[off + 2] == s[off + 2] && u[off + 3] == s[off + 3]);
        assert(u[off + 4] == s[off + 4] && u[off + 5] == s[off + 5]);
    }
}

} // verus!
