use vstd::prelude::*;
use crate::tproto::common::addr::{AddressView, IpAddrPort, IpAddress};
use crate::tproto::common::atype::Atype;
use crate::tproto::common::command::Command;

verus! {

/// Transport over which an accepted request is relayed.
#[derive(Clone, Copy, Debug, PartialEq, Eq, Structural)]
pub enum InboundProtocol {
    TCP,
    UDP,
}

/// A request accepted from a client, ready to be relayed.
pub struct InboundRequest {
    pub atype: Atype,
    pub addr_port: IpAddrPort,
    pub command: Command,
    pub transport_protocol: InboundProtocol,
}

/// What an `InboundRequest` holds.
pub struct InboundRequestView {
    pub atype: Atype,
    pub addr: AddressView,
    pub port: u16,
    pub command: Command,
    pub transport_protocol: InboundProtocol,
}

impl View for InboundRequest {
    type V = InboundRequestView;

    open spec fn view(&self) -> InboundRequestView {
        InboundRequestView {
            atype: self.atype,
            addr: self.addr_port.ip@,
            port: self.addr_port.port,
            command: self.command,
            transport_protocol: self.transport_protocol,
        }
    }
}

impl InboundRequest {
    /// Builds a request from its parts, pairing the address with the port.
    pub fn new(
        atype: Atype,
        addr: IpAddress,
        command: Command,
        port: u16,
        transport_protocol: InboundProtocol,
    ) -> (r: Self)
        ensures
            r@ == (InboundRequestView {
                atype,
                addr: addr@,
                port,
                command,
                transport_protocol,
            }),
    {
        Self { atype, addr_port: IpAddrPort::new(addr, port), command, transport_protocol }
    }
}

} // verus!
