use vstd::prelude::*;
use crate::proxy::base::SupportedProtocols_Dep;
use crate::tproto::common::addr::{AddressView, IpAddrPort, IpAddress};
use crate::tproto::common::atype::Atype;
use crate::tproto::common::command::Command;

verus! {

/// Transport over which an accepted request is relayed.
#[derive(Clone, Copy, Debug, PartialEq, Eq, Structural)]
pub enum InboundProtocol {
    TCP,
    UDP,
}

/// A request accepted from a client, with the proxy protocol it arrived by.
pub struct InbounndRequest {
    pub atype: Atype,
    pub addr_port: IpAddrPort,
    pub command: Command,
    pub transport_protocol: InboundProtocol,
    pub proxy_protocol_dep: SupportedProtocols_Dep,
}

/// What an `InbounndRequest` holds.
pub struct InbounndRequestView {
    pub atype: Atype,
    pub addr: AddressView,
    pub port: u16,
    pub command: Command,
    pub transport_protocol: InboundProtocol,
    pub proxy_protocol: SupportedProtocols_Dep,
}

impl View for InbounndRequest {
    type V = InbounndRequestView;

    open spec fn view(&self) -> InbounndRequestView {
        InbounndRequestView {
            atype: self.atype,
            addr: self.addr_port.ip@,
            port: self.addr_port.port,
            command: self.command,
            transport_protocol: self.transport_protocol,
            proxy_protocol: self.proxy_protocol_dep,
        }
    }
}

impl InbounndRequest {
    /// Builds a request from its parts, pairing the address with the port.
    pub fn new(
        atype: Atype,
        addr: IpAddress,
        command: Command,
        port: u16,
        transport_protocol: InboundProtocol,
        proxy_protocol: SupportedProtocols_Dep,
    ) -> (r: Self)
        ensures
            r@ == (InbounndRequestView {
                atype,
                addr: addr@,
                port,
                command,
                transport_protocol,
                proxy_protocol,
            }),
    {
        Self {
            atype,
            addr_port: IpAddrPort::new(addr, port),
            command,
            transport_protocol,
            proxy_protocol_dep: proxy_protocol,
        }
    }
}

} // verus!
