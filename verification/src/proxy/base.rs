use vstd::prelude::*;

verus! {

/// Proxy protocol that a request arrived by.
#[allow(non_camel_case_types)]
#[derive(Clone, Copy, Debug, PartialEq, Eq, Structural)]
pub enum SupportedProtocols_Dep {
    TROJAN,
    DIRECT,
}

} // verus!
