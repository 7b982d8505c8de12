//! The TLS material of the QUIC listener: the certificate chain and the
//! private key, parsed from PEM with `rustls_pemfile`.
use vstd::prelude::*;

verus! {

#[verifier::external_type_specification]
#[verifier::external_body]
pub struct ExIoError(std::io::Error);

/// The DER certificates that `rustls_pemfile::certs` finds in a PEM text, or
/// `None` when it fails on the text.
pub uninterp spec fn pem_certs(pem: Seq<u8>) -> Option<Seq<Seq<u8>>>;

/// The DER PKCS#8 keys that `rustls_pemfile::pkcs8_private_keys` finds in a
/// PEM text, or `None` when it fails on the text.
pub uninterp spec fn pem_pkcs8_keys(pem: Seq<u8>) -> Option<Seq<Seq<u8>>>;

/// The error that `rustls_pemfile::certs` gives for a PEM text it fails on.
pub uninterp spec fn pem_certs_error(pem: Seq<u8>) -> std::io::Error;

/// The error that `rustls_pemfile::pkcs8_private_keys` gives for a PEM text it
/// fails on.
pub uninterp spec fn pem_pkcs8_keys_error(pem: Seq<u8>) -> std::io::Error;

/// `rustls_pemfile::certs` read from the bytes `pem`: the certificates' DER
/// bytes in the order they appear, or its error, which depends on the bytes
/// alone (reading a byte slice never fails as I/O).
#[verifier::external_body]
fn read_pem_certs(pem: &[u8]) -> (r: Result<Vec<Vec<u8>>, std::io::Error>)
    ensures
        r is Ok <==> pem_certs(pem@) is Some,
        r matches Ok(v) ==> v.deep_view() == pem_certs(pem@)->0,
        r matches Err(e) ==> e == pem_certs_error(pem@),
{
    let mut reader: &[u8] = pem;
    rustls_pemfile::certs(&mut reader)
}

/// `rustls_pemfile::pkcs8_private_keys` read from the bytes `pem`: the keys'
/// DER bytes in the order they appear, or its error, which depends on the
/// bytes alone.
#[verifier::external_body]
fn read_pem_pkcs8_keys(pem: &[u8]) -> (r: Result<Vec<Vec<u8>>, std::io::Error>)
    ensures
        r is Ok <==> pem_pkcs8_keys(pem@) is Some,
        r matches Ok(v) ==> v.deep_view() == pem_pkcs8_keys(pem@)->0,
        r matches Err(e) ==> e == pem_pkcs8_keys_error(pem@),
{
    let mut reader: &[u8] = pem;
    rustls_pemfile::pkcs8_private_keys(&mut reader)
}

/// Why the TLS material cannot be had.
#[derive(Debug)]
pub enum TlsError {
    /// The certificate file is not valid PEM.
    CertPem(std::io::Error),
    /// The key file is not valid PEM.
    KeyPem(std::io::Error),
    /// The key file holds no PKCS#8 key.
    NoKey,
}

/// The kinds of `TlsError`.
pub enum TlsErrorKind {
    CertPem,
    KeyPem,
    NoKey,
}

impl TlsError {
    pub open spec fn kind(&self) -> TlsErrorKind {
        match self {
            TlsError::CertPem(_) => TlsErrorKind::CertPem,
            TlsError::KeyPem(_) => TlsErrorKind::KeyPem,
            TlsError::NoKey => TlsErrorKind::NoKey,
        }
    }
}

/// The certificate chain and the private key the listener uses: every
/// certificate of the certificate file, in order, and the first PKCS#8 key of
/// the key file. The certificate file is parsed first.
pub fn tls_material(cert_pem: &[u8], key_pem: &[u8]) -> (r: Result<(Vec<Vec<u8>>, Vec<u8>), TlsError>)
    ensures
        r is Ok <==> (pem_certs(cert_pem@) is Some && pem_pkcs8_keys(key_pem@) is Some
            && pem_pkcs8_keys(key_pem@)->0.len() > 0),
        r matches Ok((chain, key)) ==> chain.deep_view() == pem_certs(cert_pem@)->0
            && key@ == pem_pkcs8_keys(key_pem@)->0[0],
        r matches Err(e) ==> (e.kind() is CertPem <==> pem_certs(cert_pem@) is None),
        r matches Err(e) ==> (e.kind() is KeyPem <==> (pem_certs(cert_pem@) is Some
            && pem_pkcs8_keys(key_pem@) is None)),
        r matches Err(e) ==> (e.kind() is NoKey <==> (pem_certs(cert_pem@) is Some
            && pem_pkcs8_keys(key_pem@) is Some && pem_pkcs8_keys(key_pem@)->0.len() == 0)),
        r matches Err(TlsError::CertPem(e)) ==> e == pem_certs_error(cert_pem@),
        r matches Err(TlsError::KeyPem(e)) ==> e == pem_pkcs8_keys_error(key_pem@),
{
    let chain = match read_pem_certs(cert_pem) {
        Ok(c) => c,
        Err(e) => return Err(TlsError::CertPem(e)),
    };
    let mut keys = match read_pem_pkcs8_keys(key_pem) {
        Ok(k) => k,
        Err(e) => return Err(TlsError::KeyPem(e)),
    };
    if keys.len() == 0 {
        return Err(TlsError::NoKey);
    }
    let ghost all = keys.deep_view();
    let key = keys.remove(0);
    assert(key@ == all[0]);
    Ok((chain, key))
}

} // verus!
