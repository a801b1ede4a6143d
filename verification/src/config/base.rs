use vstd::prelude::*;

verus! {

/// The server's configuration: where to listen, the passwords it accepts, and its TLS files.
pub struct NewConfig {
    pub address: String,
    pub port: u16,
    pub secret: Vec<String>,
    pub list: String,
    pub tls: Option<InboundTlsConfig>,
}

/// Paths of the PEM files holding the server's certificate chain and private key.
#[derive(Clone)]
pub struct InboundTlsConfig {
    pub cert_path: String,
    pub key_path: String,
}

} // verus!
