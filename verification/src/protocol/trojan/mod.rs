pub mod base;

pub use self::base::CRLF;
pub use self::base::HEX_SIZE;

use vstd::prelude::*;
use crate::protocol::common::request::{InboundProtocol, InbounndRequest};
use crate::protocol::trojan::base::{spec_into_request, Request, RequestView};
use crate::proxy::base::SupportedProtocols_Dep;
use crate::server::acceptor::AcceptError;
use crate::tproto::trojan::parser::{parse_trojan, spec_parse_request, ParseError};

verus! {

/// Reads a Trojan request header from the start of `buf`, tagged as arrived by the Trojan
/// protocol; gives the header and its length.
pub fn parse(buf: &[u8]) -> (r: Result<(Request, usize), ParseError>)
    ensures
        match spec_parse_request(buf@) {
            Err(e) => r == Err::<(Request, usize), ParseError>(e),
            Ok((h, n)) => r matches Ok((req, m)) && m == n && req@ == (RequestView {
                hex: h.hex,
                command: h.command,
                atype: h.atype,
                addr: h.addr,
                port: h.port,
                proxy_protocol: SupportedProtocols_Dep::TROJAN,
            }),
        },
{
    match parse_trojan(buf) {
        Err(e) => Err(e),
        Ok((h, n)) => {
            let (hex, command, atype, addr, port) = h.into_parts();
            Ok((Request::new(hex, command, atype, addr, port, SupportedProtocols_Dep::TROJAN), n))
        },
    }
}

/// Helper function to accept an abstract TCP stream to Trojan connection: reads the header
/// from the bytes a client sent, checks its hex against `secret`, and turns it into the request
/// to relay; gives the request and the header's length.
pub fn accept(buf: &[u8], secret: &[u8]) -> (r: Result<(InbounndRequest, usize), AcceptError>)
    ensures
        match spec_parse_request(buf@) {
            Err(e) => r == Err::<(InbounndRequest, usize), AcceptError>(AcceptError::Parse(e)),
            Ok((h, n)) => if h.hex == secret@ {
                r matches Ok((ir, m)) && m == n && ir@ == spec_into_request(RequestView {
                    hex: h.hex,
                    command: h.command,
                    atype: h.atype,
                    addr: h.addr,
                    port: h.port,
                    proxy_protocol: SupportedProtocols_Dep::TROJAN,
                })
            } else {
                r == Err::<(InbounndRequest, usize), AcceptError>(AcceptError::InvalidHex)
            },
        },
{
    let (request, n) = match parse(buf) {
        Err(e) => return Err(AcceptError::Parse(e)),
        Ok(p) => p,
    };
    if !request.validate(secret) {
        return Err(AcceptError::InvalidHex);
    }
    Ok((request.into_request(), n))
}


/// Law: a header read from the bytes `buf` through this tree is tagged as arrived by the Trojan
/// protocol, and the request it becomes is relayed over UDP exactly when the header's CMD byte
/// (the byte after the hex and CRLF) is 3, a UDP association, and over TCP exactly when it is 1,
/// a connect.
pub proof fn lemma_accept_transport_follows_command_byte(buf: Seq<u8>)
    requires
        spec_parse_request(buf) is Ok,
    ensures
        ({
            let h = spec_parse_request(buf)->Ok_0.0;
            let req = spec_into_request(RequestView {
                hex: h.hex,
                command: h.command,
                atype: h.atype,
                addr: h.addr,
                port: h.port,
                proxy_protocol: SupportedProtocols_Dep::TROJAN,
            });
            &&& buf.len() > 58
            &&& req.proxy_protocol == SupportedProtocols_Dep::TROJAN
            &&& (req.transport_protocol == InboundProtocol::UDP) <==> buf[58] == 3
            &&& (req.transport_protocol == InboundProtocol::TCP) <==> buf[58] == 1
        }),
{
    let h = spec_parse_request(buf)->Ok_0.0;
    crate::protocol::trojan::base::lemma_into_request_transport(RequestView {
        hex: h.hex,
        command: h.command,
        atype: h.atype,
        addr: h.addr,
        port: h.port,
        proxy_protocol: SupportedProtocols_Dep::TROJAN,
    });
}

} // verus!
