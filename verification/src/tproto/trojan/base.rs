use vstd::prelude::*;
use crate::tproto::common::addr::{AddressView, IpAddress};
use crate::tproto::common::atype::Atype;
use crate::tproto::common::command::Command;
use crate::tproto::common::request::{InboundProtocol, InboundRequest, InboundRequestView};

verus! {

/// Trojan hex payload is always 56 bytes
pub const HEX_SIZE: usize = 56;

/// Trojan protocol uses the 0x0D0A as deliminate for packet header and payload
pub const CRLF: u16 = 0x0D0A;

/// `constant_time_eq::constant_time_eq`: compares two byte strings without an early exit.
/// Trusted to return whether the two strings are equal, which its source computes as equal
/// lengths and a zero XOR-accumulation over all positions.
#[verifier::external_body]
pub(crate) fn bytes_equal_constant_time(a: &[u8], b: &[u8]) -> (eq: bool)
    ensures
        eq == (a@ == b@),
{
    constant_time_eq::constant_time_eq(a, b)
}

/// A Trojan request header as read from a client.
pub struct Request {
    hex: Vec<u8>,
    command: Command,
    atype: Atype,
    addr: IpAddress,
    port: u16,
}

/// What a `Request` holds.
pub struct RequestView {
    pub hex: Seq<u8>,
    pub command: Command,
    pub atype: Atype,
    pub addr: AddressView,
    pub port: u16,
}

impl View for Request {
    type V = RequestView;

    closed spec fn view(&self) -> RequestView {
        RequestView {
            hex: self.hex@,
            command: self.command,
            atype: self.atype,
            addr: self.addr@,
            port: self.port,
        }
    }
}

/// The transport that a command is relayed over: UDP for a UDP association, TCP otherwise.
pub open spec fn spec_transport_of(command: Command) -> InboundProtocol {
    match command {
        Command::Udp => InboundProtocol::UDP,
        _ => InboundProtocol::TCP,
    }
}

/// The accepted request that a Trojan request header becomes.
pub open spec fn spec_into_request(r: RequestView) -> InboundRequestView {
    InboundRequestView {
        atype: r.atype,
        addr: r.addr,
        port: r.port,
        command: r.command,
        transport_protocol: spec_transport_of(r.command),
    }
}

impl Request {
    /// Builds a request header from its fields.
    pub fn new(hex: Vec<u8>, command: Command, atype: Atype, addr: IpAddress, port: u16) -> (r: Request)
        ensures
            r@ == (RequestView { hex: hex@, command, atype, addr: addr@, port }),
    {
        return Request { hex, command, atype, addr, port };
    }

    /// Turns the header into an accepted request; a UDP association is relayed over UDP and
    /// every other command over TCP.
    pub fn into_request(self) -> (r: InboundRequest)
        ensures
            r@ == spec_into_request(self@),
    {
        return match self.command {
            Command::Udp => InboundRequest::new(
                self.atype,
                self.addr,
                self.command,
                self.port,
                InboundProtocol::UDP,
            ),
            _ => InboundRequest::new(
                self.atype,
                self.addr,
                self.command,
                self.port,
                InboundProtocol::TCP,
            ),
        };
    }

    /// Whether the hex carried by the request is exactly `secret`.
    pub fn validate(&self, secret: &[u8]) -> (ok: bool)
        ensures
            ok == (secret@ == self@.hex),
    {
        return bytes_equal_constant_time(secret, self.hex.as_slice());
    }

    /// Gives back the fields of the header: hex, command, address type, address and port.
    pub fn into_parts(self) -> (parts: (Vec<u8>, Command, Atype, IpAddress, u16))
        ensures
            parts.0@ == self@.hex,
            parts.1 == self@.command,
            parts.2 == self@.atype,
            parts.3@ == self@.addr,
            parts.4 == self@.port,
    {
        (self.hex, self.command, self.atype, self.addr, self.port)
    }
}


/// Law: the request a header becomes keeps the header's address type, address, port and command,
/// and is relayed over UDP exactly when the command is a UDP association, over TCP otherwise,
/// whatever kind of address (IPv4, IPv6 or domain name) it names.
pub proof fn lemma_into_request_transport(r: RequestView)
    ensures
        spec_into_request(r).atype == r.atype,
        spec_into_request(r).addr == r.addr,
        spec_into_request(r).port == r.port,
        spec_into_request(r).command == r.command,
        (spec_into_request(r).transport_protocol == InboundProtocol::UDP) <==> (r.command == Command::Udp),
        (spec_into_request(r).transport_protocol == InboundProtocol::TCP) <==> (r.command != Command::Udp),
{
}

} // verus!
