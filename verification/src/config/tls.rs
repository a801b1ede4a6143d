use vstd::prelude::*;
use rustls_pemfile::Item;

verus! {

/// The kind of a PEM section, as its BEGIN line names it.
#[derive(Clone, Copy, Debug, PartialEq, Eq, Structural)]
pub enum PemKind {
    Certificate,
    RsaKey,
    Pkcs8Key,
    EcKey,
    Crl,
    Unknown,
}

/// What `rustls_pemfile::read_one` gives for the PEM text `pem`: an error for malformed text,
/// no section, or the first recognised section with its decoded DER bytes.
pub uninterp spec fn pem_read_one(pem: Seq<u8>) -> Result<Option<(PemKind, Seq<u8>)>, ()>;

/// What `rustls_pemfile::certs` gives for the PEM text `pem`: an error for malformed text, or
/// the DER bytes of every certificate section in order.
pub uninterp spec fn pem_certs(pem: Seq<u8>) -> Result<Seq<Seq<u8>>, ()>;

/// The view of a PEM section read into memory.
pub open spec fn pem_item_view(r: Result<Option<(PemKind, Vec<u8>)>, ()>) -> Result<Option<(PemKind, Seq<u8>)>, ()> {
    match r {
        Ok(Some((k, der))) => Ok(Some((k, der@))),
        Ok(None) => Ok(None),
        Err(()) => Err(()),
    }
}

/// `rustls_pemfile::read_one`, reading from the bytes `pem`: trusted to give the value named
/// `pem_read_one`, which depends on the bytes alone (a byte slice reader has no I/O error).
/// Each `Item` variant is mapped to its `PemKind`; the `Unknown` arm covers the enum being
/// non-exhaustive and is not reached in the version used.
#[verifier::external_body]
pub(crate) fn read_first_pem_section(pem: &[u8]) -> (r: Result<Option<(PemKind, Vec<u8>)>, ()>)
    ensures
        pem_item_view(r) == pem_read_one(pem@),
{
    let mut reader: &[u8] = pem;
    let item = match rustls_pemfile::read_one(&mut reader) {
        Ok(item) => item,
        Err(_) => return Err(()),
    };
    Ok(match item {
        None => None,
        Some(Item::X509Certificate(der)) => Some((PemKind::Certificate, der)),
        Some(Item::RSAKey(der)) => Some((PemKind::RsaKey, der)),
        Some(Item::PKCS8Key(der)) => Some((PemKind::Pkcs8Key, der)),
        Some(Item::ECKey(der)) => Some((PemKind::EcKey, der)),
        Some(Item::Crl(der)) => Some((PemKind::Crl, der)),
        Some(_) => Some((PemKind::Unknown, Vec::new())),
    })
}

/// `rustls_pemfile::certs`, reading from the bytes `pem`: trusted to give the value named
/// `pem_certs`, which depends on the bytes alone.
#[verifier::external_body]
pub(crate) fn read_pem_certificates(pem: &[u8]) -> (r: Result<Vec<Vec<u8>>, ()>)
    ensures
        match r {
            Ok(certs) => pem_certs(pem@) == Ok::<Seq<Seq<u8>>, ()>(certs.deep_view()),
            Err(()) => pem_certs(pem@) is Err,
        },
{
    let mut reader: &[u8] = pem;
    match rustls_pemfile::certs(&mut reader) {
        Ok(certs) => Ok(certs),
        Err(_) => Err(()),
    }
}

/// Why the server's TLS material could not be loaded.
#[derive(Clone, Copy, Debug, PartialEq, Eq, Structural)]
pub enum TlsLoadError {
    /// The PEM text is malformed.
    Malformed,
    /// The first section of the key file is not a private key.
    CertificateInKeyFile,
    /// The key file holds no PEM section.
    NoPrivateKey,
    /// The certificate file cannot be read as certificates.
    InvalidCertificates,
}

/// The key (or error) that the first section of a key file gives: RSA, PKCS#8 and SEC1 keys are
/// taken, any other section is refused, and a file with no section has no key.
pub open spec fn spec_select_private_key(item: Result<Option<(PemKind, Seq<u8>)>, ()>) -> Result<Seq<u8>, TlsLoadError> {
    match item {
        Err(()) => Err(TlsLoadError::Malformed),
        Ok(None) => Err(TlsLoadError::NoPrivateKey),
        Ok(Some((kind, der))) => match kind {
            PemKind::RsaKey => Ok(der),
            PemKind::Pkcs8Key => Ok(der),
            PemKind::EcKey => Ok(der),
            _ => Err(TlsLoadError::CertificateInKeyFile),
        },
    }
}

/// The view of a loaded key.
pub open spec fn key_result_view(r: Result<Vec<u8>, TlsLoadError>) -> Result<Seq<u8>, TlsLoadError> {
    match r {
        Ok(k) => Ok(k@),
        Err(e) => Err(e),
    }
}

/// Takes the private key out of the first section read from a key file.
pub fn select_private_key(item: Result<Option<(PemKind, Vec<u8>)>, ()>) -> (r: Result<Vec<u8>, TlsLoadError>)
    ensures
        key_result_view(r) == spec_select_private_key(pem_item_view(item)),
{
    return match item {
        Ok(opt) => match opt {
            Some((kind, der)) => match kind {
                PemKind::RsaKey => Ok(der),
                PemKind::Pkcs8Key => Ok(der),
                PemKind::EcKey => Ok(der),
                _ => Err(TlsLoadError::CertificateInKeyFile),
            },
            None => Err(TlsLoadError::NoPrivateKey),
        },
        Err(()) => Err(TlsLoadError::Malformed),
    };
}

/// Loads the server's private key from the text of its PEM key file: the first section must be
/// an RSA, PKCS#8 or SEC1 key.
pub fn load_private_key(pem: &[u8]) -> (r: Result<Vec<u8>, TlsLoadError>)
    ensures
        key_result_view(r) == spec_select_private_key(pem_read_one(pem@)),
{
    select_private_key(read_first_pem_section(pem))
}

/// Loads the server's certificate chain (DER bytes of each certificate, in order) from the text
/// of its PEM certificate file.
pub fn load_certs(pem: &[u8]) -> (r: Result<Vec<Vec<u8>>, TlsLoadError>)
    ensures
        match pem_certs(pem@) {
            Ok(certs) => r matches Ok(v) && v.deep_view() == certs,
            Err(()) => r == Err::<Vec<Vec<u8>>, TlsLoadError>(TlsLoadError::InvalidCertificates),
        },
{
    return match read_pem_certificates(pem) {
        Ok(certs) => Ok(certs),
        Err(()) => Err(TlsLoadError::InvalidCertificates),
    };
}

/// The certificate chain and private key that a TLS server is configured with, from the texts
/// of the two PEM files; `None` when either cannot be loaded.
pub fn load_tls_material(cert_pem: &[u8], key_pem: &[u8]) -> (r: Option<(Vec<Vec<u8>>, Vec<u8>)>)
    ensures
        match (pem_certs(cert_pem@), spec_select_private_key(pem_read_one(key_pem@))) {
            (Ok(certs), Ok(key)) => r matches Some((c, k)) && c.deep_view() == certs && k@ == key,
            _ => r is None,
        },
{
    let certificates = match load_certs(cert_pem) {
        Ok(certs) => certs,
        Err(_) => return None,
    };
    let key = match load_private_key(key_pem) {
        Ok(key) => key,
        Err(_) => return None,
    };
    Some((certificates, key))
}

} // verus!
