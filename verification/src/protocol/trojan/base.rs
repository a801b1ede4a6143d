use vstd::prelude::*;
use crate::protocol::common::request::{InboundProtocol, InbounndRequest, InbounndRequestView};
use crate::proxy::base::SupportedProtocols_Dep;
use crate::tproto::common::addr::{AddressView, IpAddress};
use crate::tproto::common::atype::Atype;
use crate::tproto::common::command::Command;
use crate::tproto::trojan::base::bytes_equal_constant_time;

verus! {

/// Trojan hex payload is always 56 bytes
pub const HEX_SIZE: usize = 56;

/// Trojan protocol uses the 0x0D0A as deliminate for packet header and payload
pub const CRLF: u16 = 0x0D0A;

/// A Trojan request header as read from a client, with the proxy protocol it arrived by.
pub struct Request {
    hex: Vec<u8>,
    command: Command,
    atype: Atype,
    addr: IpAddress,
    port: u16,
    proxy_protocol: SupportedProtocols_Dep,
}

/// What a `Request` holds.
pub struct RequestView {
    pub hex: Seq<u8>,
    pub command: Command,
    pub atype: Atype,
    pub addr: AddressView,
    pub port: u16,
    pub proxy_protocol: SupportedProtocols_Dep,
}

impl View for Request {
    type V = RequestView;

    closed spec fn view(&self) -> RequestView {
        RequestView {
            hex: self.hex@,
            command: self.command,
            atype: self.atype,
            addr: self.addr@,
            port: self.port,
            proxy_protocol: self.proxy_protocol,
        }
    }
}

/// The accepted request that a Trojan request header becomes: relayed over UDP for a UDP
/// association and over TCP otherwise.
pub open spec fn spec_into_request(r: RequestView) -> InbounndRequestView {
    InbounndRequestView {
        atype: r.atype,
        addr: r.addr,
        port: r.port,
        command: r.command,
        transport_protocol: match r.command {
            Command::Udp => InboundProtocol::UDP,
            _ => InboundProtocol::TCP,
        },
        proxy_protocol: r.proxy_protocol,
    }
}

impl Request {
    /// Builds a request header from its fields.
    pub fn new(
        hex: Vec<u8>,
        command: Command,
        atype: Atype,
        addr: IpAddress,
        port: u16,
        proxy_protocol: SupportedProtocols_Dep,
    ) -> (r: Request)
        ensures
            r@ == (RequestView { hex: hex@, command, atype, addr: addr@, port, proxy_protocol }),
    {
        return Request { hex, command, atype, addr, port, proxy_protocol };
    }

    /// Turns the header into an accepted request; a UDP association is relayed over UDP and
    /// every other command over TCP.
    pub fn into_request(self) -> (r: InbounndRequest)
        ensures
            r@ == spec_into_request(self@),
    {
        return match self.command {
            Command::Udp => InbounndRequest::new(
                self.atype,
                self.addr,
                self.command,
                self.port,
                InboundProtocol::UDP,
                self.proxy_protocol,
            ),
            _ => InbounndRequest::new(
                self.atype,
                self.addr,
                self.command,
                self.port,
                InboundProtocol::TCP,
                self.proxy_protocol,
            ),
        };
    }

    /// Whether the hex carried by the request is exactly `secret`.
    pub fn validate(&self, secret: &[u8]) -> (ok: bool)
        ensures
            ok == (secret@ == self@.hex),
    {
        return bytes_equal_constant_time(secret, self.hex.as_slice());
    }
}


/// Law: the request a header becomes keeps every field of the header, and is relayed over UDP
/// exactly when the command is a UDP association, over TCP otherwise, whatever proxy protocol it
/// arrived by and whatever kind of address it names.
pub proof fn lemma_into_request_transport(r: RequestView)
    ensures
        spec_into_request(r).atype == r.atype,
        spec_into_request(r).addr == r.addr,
        spec_into_request(r).port == r.port,
        spec_into_request(r).command == r.command,
        spec_into_request(r).proxy_protocol == r.proxy_protocol,
        (spec_into_request(r).transport_protocol == InboundProtocol::UDP) <==> (r.command == Command::Udp),
        (spec_into_request(r).transport_protocol == InboundProtocol::TCP) <==> (r.command != Command::Udp),
{
}

} // verus!
