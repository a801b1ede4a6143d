use vstd::prelude::*;
use crate::tproto::common::atype::Atype;

verus! {

/// A destination host: an IPv4 or IPv6 address given by its octets, or a domain name given by
/// its bytes.
#[derive(Debug)]
pub enum IpAddress {
    V4([u8; 4]),
    V6([u8; 16]),
    Domain(Vec<u8>),
}

/// What an `IpAddress` holds, as sequences of octets.
pub enum AddressView {
    V4(Seq<u8>),
    V6(Seq<u8>),
    Domain(Seq<u8>),
}

impl View for IpAddress {
    type V = AddressView;

    open spec fn view(&self) -> AddressView {
        match self {
            IpAddress::V4(a) => AddressView::V4(a@),
            IpAddress::V6(a) => AddressView::V6(a@),
            IpAddress::Domain(d) => AddressView::Domain(d@),
        }
    }
}

/// The address type that names the kind of an address.
pub open spec fn spec_atype_of(a: AddressView) -> Atype {
    match a {
        AddressView::V4(_) => Atype::IPv4,
        AddressView::V6(_) => Atype::IPv6,
        AddressView::Domain(_) => Atype::DomainName,
    }
}

/// An address can be written in a header and read back: IPv4 has four octets, IPv6 sixteen,
/// and a domain name at most 255 bytes, since its length travels in one byte.
pub open spec fn spec_address_wf(a: AddressView) -> bool {
    match a {
        AddressView::V4(b) => b.len() == 4,
        AddressView::V6(b) => b.len() == 16,
        AddressView::Domain(d) => d.len() <= 255,
    }
}

impl IpAddress {
    /// The address type of this address.
    pub fn atype(&self) -> (t: Atype)
        ensures
            t == spec_atype_of(self@),
    {
        match self {
            IpAddress::V4(_) => Atype::IPv4,
            IpAddress::V6(_) => Atype::IPv6,
            IpAddress::Domain(_) => Atype::DomainName,
        }
    }
}

/// A destination host together with its port.
#[derive(Debug)]
pub struct IpAddrPort {
    pub ip: IpAddress,
    pub port: u16,
}

impl View for IpAddrPort {
    type V = (AddressView, u16);

    open spec fn view(&self) -> (AddressView, u16) {
        (self.ip@, self.port)
    }
}

impl IpAddrPort {
    /// Pairs a host with a port.
    pub fn new(ip: IpAddress, port: u16) -> (r: IpAddrPort)
        ensures
            r@ == (ip@, port),
    {
        IpAddrPort { ip, port }
    }
}

} // verus!
