//! Secure-transport configuration. The host process assembles the
//! actual TLS and QUIC configuration objects; this module owns what
//! can be decided from plain values: the configuration record, the
//! fixed protocol constants, and exactly when PEM bytes yield usable
//! certificate material — mutual authentication needs at least one
//! certificate and one private key, with PKCS8 tried first.

use vstd::prelude::*;

verus! {

/// Idle timeout of a connection, in milliseconds: a silently dead
/// peer is detected without an application-level heartbeat.
pub const MAX_IDLE_TIMEOUT_MILLIS: u32 = 300_000;

/// Keep-alive interval of a connection, in seconds.
pub const KEEP_ALIVE_INTERVAL_SECS: u64 = 30;

/// The advertised application protocol identifiers: exactly `h3`.
pub fn alpn_protocols() -> (r: Vec<Vec<u8>>)
    ensures
        r@.len() == 1,
        r@[0]@ =~= seq![0x68u8, 0x33u8],
{
    let mut proto: Vec<u8> = Vec::new();
    proto.push(0x68);
    proto.push(0x33);
    let mut out: Vec<Vec<u8>> = Vec::new();
    out.push(proto);
    out
}

/// Where the secure transport binds and which certificate files it
/// uses; paths and address are kept in textual form.
#[derive(Clone, Debug)]
pub struct QuicConfig {
    pub bind_addr: String,
    pub cert_path: String,
    pub key_path: String,
    pub ca_cert_path: String,
}

impl QuicConfig {
    /// Assemble a configuration record from its parts.
    pub fn new(
        bind_addr: String,
        cert_path: String,
        key_path: String,
        ca_cert_path: String,
    ) -> (r: QuicConfig)
        ensures
            r.bind_addr == bind_addr,
            r.cert_path == cert_path,
            r.key_path == key_path,
            r.ca_cert_path == ca_cert_path,
    {
        QuicConfig { bind_addr, cert_path, key_path, ca_cert_path }
    }
}

#[verifier::external_type_specification]
#[verifier::external_body]
pub struct ExCertificateDer<'a>(rustls::pki_types::CertificateDer<'a>);

#[verifier::external_type_specification]
#[verifier::external_body]
pub struct ExPrivateKeyDer<'a>(rustls::pki_types::PrivateKeyDer<'a>);

#[verifier::external_type_specification]
#[verifier::external_body]
pub struct ExPrivatePkcs8KeyDer<'a>(rustls::pki_types::PrivatePkcs8KeyDer<'a>);

/// How many certificate sections `rustls_pemfile::certs` yields for
/// `pem`, or `None` when a section is malformed; a function of the
/// bytes alone.
pub uninterp spec fn pem_cert_outcome(pem: Seq<u8>) -> Option<nat>;

/// What `rustls_pemfile::private_key` finds in `pem`: `None` when a
/// section is malformed, otherwise whether a private-key section of
/// any supported encoding is present; a function of the bytes alone.
pub uninterp spec fn pem_private_key_outcome(pem: Seq<u8>) -> Option<bool>;

/// How many PKCS8 private-key sections
/// `rustls_pemfile::pkcs8_private_keys` yields for `pem`, or `None`
/// when a section is malformed; a function of the bytes alone.
pub uninterp spec fn pem_pkcs8_outcome(pem: Seq<u8>) -> Option<nat>;

/// Relies on rustls_pemfile::certs: the DER certificates of the
/// certificate sections of `pem`, in order.
#[verifier::external_body]
fn parse_certs(pem: &[u8]) -> (r: Option<Vec<rustls::pki_types::CertificateDer<'static>>>)
    ensures
        match r {
            Some(v) => pem_cert_outcome(pem@) == Some(v@.len() as nat),
            None => pem_cert_outcome(pem@) is None,
        },
{
    let mut rd: &[u8] = pem;
    match rustls_pemfile::certs(&mut rd).collect::<Result<Vec<_>, _>>() {
        Ok(v) => Some(v),
        Err(_) => None,
    }
}

/// Relies on rustls_pemfile::private_key: the first private-key
/// section of `pem`, of any supported encoding.
#[verifier::external_body]
fn parse_private_key(pem: &[u8]) -> (r: Option<Option<rustls::pki_types::PrivateKeyDer<'static>>>)
    ensures
        match r {
            Some(found) => pem_private_key_outcome(pem@) == Some(found is Some),
            None => pem_private_key_outcome(pem@) is None,
        },
{
    let mut rd: &[u8] = pem;
    match rustls_pemfile::private_key(&mut rd) {
        Ok(opt) => Some(opt),
        Err(_) => None,
    }
}

/// Relies on rustls_pemfile::pkcs8_private_keys: the PKCS8
/// private-key sections of `pem`, in order.
#[verifier::external_body]
fn parse_pkcs8_keys(pem: &[u8]) -> (r: Option<
    Vec<rustls::pki_types::PrivatePkcs8KeyDer<'static>>,
>)
    ensures
        match r {
            Some(v) => pem_pkcs8_outcome(pem@) == Some(v@.len() as nat),
            None => pem_pkcs8_outcome(pem@) is None,
        },
{
    let mut rd: &[u8] = pem;
    match rustls_pemfile::pkcs8_private_keys(&mut rd).collect::<Result<Vec<_>, _>>() {
        Ok(v) => Some(v),
        Err(_) => None,
    }
}

/// Relies on the PrivateKeyDer::Pkcs8 constructor: wraps a PKCS8 key
/// as a private key of known encoding.
#[verifier::external_body]
fn pkcs8_into_key(key: rustls::pki_types::PrivatePkcs8KeyDer<'static>) -> (r:
    rustls::pki_types::PrivateKeyDer<'static>) {
    rustls::pki_types::PrivateKeyDer::Pkcs8(key)
}

/// Why PEM bytes yielded no certificate material.
#[derive(Clone, Copy, Debug, PartialEq, Eq, Structural)]
pub enum CertMaterialError {
    /// A certificate section could not be read.
    MalformedCertificatePem,
    /// No certificate section is present.
    NoCertificates,
    /// A private-key section could not be read.
    MalformedKeyPem,
    /// No private-key section is present.
    NoPrivateKey,
}

/// The outcome of reading leaf material: the certificate sections
/// first, then a private key — any encoding, with a PKCS8-only
/// second pass when none is found.
pub open spec fn spec_leaf_material_outcome(cert_pem: Seq<u8>, key_pem: Seq<u8>) -> Result<
    (),
    CertMaterialError,
> {
    match pem_cert_outcome(cert_pem) {
        None => Err(CertMaterialError::MalformedCertificatePem),
        Some(n) => {
            if n == 0 {
                Err(CertMaterialError::NoCertificates)
            } else {
                match pem_private_key_outcome(key_pem) {
                    None => Err(CertMaterialError::MalformedKeyPem),
                    Some(true) => Ok(()),
                    Some(false) => match pem_pkcs8_outcome(key_pem) {
                        None => Err(CertMaterialError::MalformedKeyPem),
                        Some(m) => {
                            if m > 0 {
                                Ok(())
                            } else {
                                Err(CertMaterialError::NoPrivateKey)
                            }
                        },
                    },
                }
            }
        },
    }
}

/// The outcome of reading a CA certificate: at least one readable
/// certificate section.
pub open spec fn spec_ca_material_outcome(pem: Seq<u8>) -> Result<(), CertMaterialError> {
    match pem_cert_outcome(pem) {
        None => Err(CertMaterialError::MalformedCertificatePem),
        Some(n) => {
            if n == 0 {
                Err(CertMaterialError::NoCertificates)
            } else {
                Ok(())
            }
        },
    }
}

/// The node's own certificate chain and private key, from the PEM
/// bytes of the leaf certificate and key files. Succeeds exactly
/// when the certificate bytes hold at least one readable
/// certificate and the key bytes hold a readable private key.
pub fn leaf_material_from_pem(cert_pem: &[u8], key_pem: &[u8]) -> (r: Result<
    (Vec<rustls::pki_types::CertificateDer<'static>>, rustls::pki_types::PrivateKeyDer<'static>),
    CertMaterialError,
>)
    ensures
        r is Ok <==> spec_leaf_material_outcome(cert_pem@, key_pem@) is Ok,
        r matches Err(e) ==> spec_leaf_material_outcome(cert_pem@, key_pem@) == Err::<
            (),
            CertMaterialError,
        >(e),
        r matches Ok(p) ==> pem_cert_outcome(cert_pem@) == Some(p.0@.len() as nat)
            && p.0@.len() > 0,
{
    let certs = match parse_certs(cert_pem) {
        Some(v) => v,
        None => {
            return Err(CertMaterialError::MalformedCertificatePem);
        },
    };
    if certs.len() == 0 {
        return Err(CertMaterialError::NoCertificates);
    }
    match parse_private_key(key_pem) {
        None => Err(CertMaterialError::MalformedKeyPem),
        Some(Some(key)) => Ok((certs, key)),
        Some(None) => {
            // no key of any encoding: retry reading PKCS8 sections only
            let mut keys = match parse_pkcs8_keys(key_pem) {
                Some(v) => v,
                None => {
                    return Err(CertMaterialError::MalformedKeyPem);
                },
            };
            if keys.len() > 0 {
                let key = keys.remove(0);
                Ok((certs, pkcs8_into_key(key)))
            } else {
                Err(CertMaterialError::NoPrivateKey)
            }
        },
    }
}

/// The trust root, from the PEM bytes of the CA certificate file:
/// its first certificate section. Succeeds exactly when at least
/// one readable certificate is present.
pub fn ca_certificate_from_pem(pem: &[u8]) -> (r: Result<
    rustls::pki_types::CertificateDer<'static>,
    CertMaterialError,
>)
    ensures
        r is Ok <==> spec_ca_material_outcome(pem@) is Ok,
        r matches Err(e) ==> spec_ca_material_outcome(pem@) == Err::<(), CertMaterialError>(e),
{
    let mut certs = match parse_certs(pem) {
        Some(v) => v,
        None => {
            return Err(CertMaterialError::MalformedCertificatePem);
        },
    };
    if certs.len() == 0 {
        return Err(CertMaterialError::NoCertificates);
    }
    Ok(certs.remove(0))
}

} // verus!
