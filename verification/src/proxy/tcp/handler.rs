use vstd::prelude::*;
use crate::protocol::common::request::InboundProtocol;
use crate::protocol::trojan::base::HEX_SIZE;
use crate::proxy::base::SupportedProtocols_Dep;
use crate::server::acceptor::{
    lemma_accept_decides_on_secret, secret_to_passeord_temp, sha224, spec_accept, spec_hex_lower,
};
use crate::tproto::trojan::base::RequestView;
use crate::tproto::trojan::parser::{spec_request_wf, spec_request_wire};
use vstd::utf8::encode_utf8;

verus! {

/// The secret an outbound handler presents to the remote server: for the Trojan protocol with a
/// configured password, the lower-case hex of the SHA-224 digest of the password's UTF-8 bytes;
/// otherwise nothing.
pub open spec fn spec_outbound_secret(protocol: SupportedProtocols_Dep, secret: Option<Seq<char>>) -> Seq<u8> {
    match (protocol, secret) {
        (SupportedProtocols_Dep::TROJAN, Some(s)) => spec_hex_lower(sha224(encode_utf8(s))),
        _ => Seq::empty(),
    }
}

/// Computes the secret an outbound handler presents to the remote server.
pub fn outbound_secret(protocol: SupportedProtocols_Dep, secret: &Option<String>) -> (s: Vec<u8>)
    ensures
        s@ == spec_outbound_secret(
            protocol,
            match secret {
                Some(p) => Some(p@),
                None => None,
            },
        ),
        protocol == SupportedProtocols_Dep::TROJAN && secret.is_some() ==> s@.len() == HEX_SIZE,
{
    match protocol {
        SupportedProtocols_Dep::TROJAN => match secret {
            Some(p) => secret_to_passeord_temp(p.as_str().as_bytes()),
            None => Vec::new(),
        },
        _ => Vec::new(),
    }
}

/// The remote server an outbound handler dials: the configured address and port when both are
/// given, none when neither is. A configuration with only one of them is refused, so callers
/// check that first.
pub fn outbound_destination(address: &Option<String>, port: Option<u16>) -> (d: Option<(String, u16)>)
    requires
        address.is_some() == port.is_some(),
    ensures
        match (address, port) {
            (Some(a), Some(p)) => d matches Some((da, dp)) && da@ == a@ && dp == p,
            _ => d is None,
        },
{
    match (address, port) {
        (Some(addr), Some(p)) => Some((addr.clone(), p)),
        _ => None,
    }
}


/// Why an outbound handler refuses to relay a request.
#[derive(Clone, Copy, Debug, PartialEq, Eq, Structural)]
pub enum HandlerError {
    /// The proxy protocol cannot be relayed this way.
    UnsupportedProtocol,
    /// No remote server is configured.
    MissingDestination,
    /// The Trojan secret is not `HEX_SIZE` bytes of hex.
    BadSecretLength,
}

/// How a request that arrived by `proxy_protocol` is relayed directly: a Trojan request over its
/// own transport; a request that arrived directly cannot be relayed directly.
pub fn direct_relay(proxy_protocol: SupportedProtocols_Dep, transport: InboundProtocol) -> (r: Result<InboundProtocol, HandlerError>)
    ensures
        r == (match proxy_protocol {
            SupportedProtocols_Dep::TROJAN => Ok::<InboundProtocol, HandlerError>(transport),
            SupportedProtocols_Dep::DIRECT => Err(HandlerError::UnsupportedProtocol),
        }),
{
    match proxy_protocol {
        SupportedProtocols_Dep::TROJAN => Ok(transport),
        SupportedProtocols_Dep::DIRECT => Err(HandlerError::UnsupportedProtocol),
    }
}

/// The remote server an outbound handler dials to relay a request through: the configured
/// destination, or `MissingDestination` when none is configured, decided before any connection
/// is attempted.
pub fn proxied_destination(destination: &Option<(String, u16)>) -> (r: Result<(String, u16), HandlerError>)
    ensures
        match destination {
            Some((a, p)) => r matches Ok((ra, rp)) && ra@ == a@ && rp == *p,
            None => r == Err::<(String, u16), HandlerError>(HandlerError::MissingDestination),
        },
{
    match destination {
        Some((addr, port)) => Ok((addr.clone(), *port)),
        None => Err(HandlerError::MissingDestination),
    }
}

/// How a request is relayed through the remote server once connected: with the Trojan protocol
/// and a secret of `HEX_SIZE` bytes, over the request's own transport after the handshake; the
/// direct protocol is refused, and so is a secret of another length.
pub fn proxied_relay(protocol: SupportedProtocols_Dep, secret: &[u8], transport: InboundProtocol) -> (r: Result<InboundProtocol, HandlerError>)
    ensures
        r == (match protocol {
            SupportedProtocols_Dep::TROJAN => if secret@.len() == HEX_SIZE {
                Ok::<InboundProtocol, HandlerError>(transport)
            } else {
                Err(HandlerError::BadSecretLength)
            },
            SupportedProtocols_Dep::DIRECT => Err(HandlerError::UnsupportedProtocol),
        }),
{
    match protocol {
        SupportedProtocols_Dep::TROJAN => {
            if secret.len() != HEX_SIZE {
                return Err(HandlerError::BadSecretLength);
            }
            Ok(transport)
        },
        SupportedProtocols_Dep::DIRECT => Err(HandlerError::UnsupportedProtocol),
    }
}


/// Law: a header that an outbound Trojan handler configured with password `p` sends, carrying
/// its secret, is accepted by a server whose secret is computed from the same password.
pub proof fn lemma_outbound_secret_accepted(p: Seq<char>, r: RequestView, rest: Seq<u8>)
    requires
        spec_request_wf(r),
        r.hex == spec_outbound_secret(SupportedProtocols_Dep::TROJAN, Some(p)),
    ensures
        spec_accept(spec_request_wire(r) + rest, spec_hex_lower(sha224(encode_utf8(p)))) is Ok,
{
    lemma_accept_decides_on_secret(r, rest, spec_hex_lower(sha224(encode_utf8(p))));
}

} // verus!
