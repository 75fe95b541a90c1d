use megaengine::transport::alpn_protocols;
use megaengine::transport::ca_certificate_from_pem;
use megaengine::transport::leaf_material_from_pem;
use megaengine::transport::CertMaterialError;
use megaengine::transport::QuicConfig;
use megaengine::transport::KEEP_ALIVE_INTERVAL_SECS;
use megaengine::transport::MAX_IDLE_TIMEOUT_MILLIS;

fn generated_cert_and_key_pem() -> (String, String) {
    let keypair = rcgen::KeyPair::generate().unwrap();
    let params = rcgen::CertificateParams::new(vec!["localhost".to_string()]).unwrap();
    let cert = params.self_signed(&keypair).unwrap();
    (cert.pem(), keypair.serialize_pem())
}

#[test]
fn test_quic_config_new() {
    let cfg = QuicConfig::new(
        "0.0.0.0:9000".to_string(),
        "cert/cert.pem".to_string(),
        "cert/key.pem".to_string(),
        "cert/ca-cert.pem".to_string(),
    );
    assert_eq!(cfg.bind_addr, "0.0.0.0:9000");
    assert_eq!(cfg.cert_path, "cert/cert.pem");
    assert_eq!(cfg.key_path, "cert/key.pem");
    assert_eq!(cfg.ca_cert_path, "cert/ca-cert.pem");
}

#[test]
fn test_transport_constants() {
    assert_eq!(MAX_IDLE_TIMEOUT_MILLIS, 300_000);
    assert_eq!(KEEP_ALIVE_INTERVAL_SECS, 30);
    let alpn = alpn_protocols();
    assert_eq!(alpn, vec![b"h3".to_vec()]);
}

#[test]
fn test_leaf_material_from_generated_pem() {
    let (cert_pem, key_pem) = generated_cert_and_key_pem();
    let (certs, _key) =
        leaf_material_from_pem(cert_pem.as_bytes(), key_pem.as_bytes()).unwrap();
    assert_eq!(certs.len(), 1);
}

#[test]
fn test_leaf_material_without_certificates() {
    let (_, key_pem) = generated_cert_and_key_pem();
    let r = leaf_material_from_pem(b"", key_pem.as_bytes());
    assert_eq!(r.unwrap_err(), CertMaterialError::NoCertificates);
}

#[test]
fn test_leaf_material_without_key() {
    let (cert_pem, _) = generated_cert_and_key_pem();
    let r = leaf_material_from_pem(cert_pem.as_bytes(), b"");
    assert_eq!(r.unwrap_err(), CertMaterialError::NoPrivateKey);
}

#[test]
fn test_leaf_material_malformed_certificate() {
    let (_, key_pem) = generated_cert_and_key_pem();
    let bad = b"-----BEGIN CERTIFICATE-----\n!!!not base64!!!\n-----END CERTIFICATE-----\n";
    let r = leaf_material_from_pem(bad, key_pem.as_bytes());
    assert_eq!(r.unwrap_err(), CertMaterialError::MalformedCertificatePem);
}

#[test]
fn test_ca_certificate_from_pem() {
    let (cert_pem, _) = generated_cert_and_key_pem();
    assert!(ca_certificate_from_pem(cert_pem.as_bytes()).is_ok());
    assert_eq!(
        ca_certificate_from_pem(b"").unwrap_err(),
        CertMaterialError::NoCertificates
    );
}
