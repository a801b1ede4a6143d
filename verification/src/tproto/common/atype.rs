use vstd::prelude::*;

verus! {

/// Address type of a destination, as carried in the ATYP byte of a Trojan header.
#[derive(Clone, Copy, Debug, PartialEq, Eq, Structural)]
pub enum Atype {
    IPv4,
    DomainName,
    IPv6,
}

/// The byte that stands for an address type on the wire.
pub open spec fn spec_atype_byte(a: Atype) -> u8 {
    match a {
        Atype::IPv4 => 1u8,
        Atype::DomainName => 3u8,
        Atype::IPv6 => 4u8,
    }
}

/// The address type that a byte on the wire names, if any.
pub open spec fn spec_atype_from_byte(b: u8) -> Option<Atype> {
    if b == 1 {
        Some(Atype::IPv4)
    } else if b == 3 {
        Some(Atype::DomainName)
    } else if b == 4 {
        Some(Atype::IPv6)
    } else {
        None
    }
}

impl Atype {
    /// The ATYP byte of this address type.
    pub fn to_byte(self) -> (b: u8)
        ensures
            b == spec_atype_byte(self),
    {
        match self {
            Atype::IPv4 => 1,
            Atype::DomainName => 3,
            Atype::IPv6 => 4,
        }
    }

    /// Reads an ATYP byte; `None` for a byte that names no address type.
    pub fn from_byte(b: u8) -> (r: Option<Atype>)
        ensures
            r == spec_atype_from_byte(b),
    {
        if b == 1 {
            Some(Atype::IPv4)
        } else if b == 3 {
            Some(Atype::DomainName)
        } else if b == 4 {
            Some(Atype::IPv6)
        } else {
            None
        }
    }
}

/// Reading back the byte of an address type gives that type again.
pub proof fn lemma_atype_byte_roundtrip(a: Atype)
    ensures
        spec_atype_from_byte(spec_atype_byte(a)) == Some(a),
{
}

} // verus!
