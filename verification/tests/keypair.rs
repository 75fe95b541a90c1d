use megaengine::keypair::KeyError;
use megaengine::keypair::KeyPair;

#[test]
fn test_generate_and_sign_verify() {
    let kp = KeyPair::generate().unwrap();
    let msg = b"hello world";
    let sig = kp.sign(msg).unwrap();
    assert!(kp.verify(msg, &sig));
}

#[test]
fn test_export_and_import_signing_key() {
    let kp1 = KeyPair::generate().unwrap();
    let sk_bytes = kp1.signing_key_bytes().unwrap();
    let kp2 = KeyPair::from_signing_key_bytes(sk_bytes).unwrap();

    let msg = b"test message";
    let sig1 = kp1.sign(msg).unwrap();
    let sig2 = kp2.sign(msg).unwrap();
    assert_eq!(sig1, sig2);
    assert_eq!(kp1.verifying_key_bytes(), kp2.verifying_key_bytes());
}

#[test]
fn test_export_and_import_verifying_key() {
    let kp1 = KeyPair::generate().unwrap();
    let vk_bytes = kp1.verifying_key_bytes();
    let kp2 = KeyPair::from_verifying_key_bytes(vk_bytes).unwrap();

    let msg = b"verify test";
    let sig = kp1.sign(msg).unwrap();

    assert!(kp2.verify(msg, &sig));
}

#[test]
fn test_invalid_signature() {
    let kp1 = KeyPair::generate().unwrap();
    let kp2 = KeyPair::generate().unwrap();

    let msg = b"fake msg";
    let sig = kp1.sign(msg).unwrap();

    assert!(!kp2.verify(msg, &sig));
}

#[test]
fn test_no_signing_key_error() {
    let kp =
        KeyPair::from_verifying_key_bytes(KeyPair::generate().unwrap().verifying_key_bytes())
            .unwrap();
    assert!(kp.sign(b"hi").is_err());
}

#[test]
fn test_no_signing_key_error_kind() {
    let kp =
        KeyPair::from_verifying_key_bytes(KeyPair::generate().unwrap().verifying_key_bytes())
            .unwrap();
    assert_eq!(kp.sign(b"any message at all"), Err(KeyError::NoSigningKey));
    assert_eq!(kp.signing_key_bytes(), Err(KeyError::NoSigningKey));
}

#[test]
fn test_signature_is_sixty_four_bytes() {
    let kp = KeyPair::generate().unwrap();
    let sig = kp.sign(b"length check").unwrap();
    assert_eq!(sig.len(), 64);
}

#[test]
fn test_verify_rejects_tampered_message() {
    let kp = KeyPair::generate().unwrap();
    let sig = kp.sign(b"original").unwrap();
    assert!(kp.verify(b"original", &sig));
    assert!(!kp.verify(b"tampered", &sig));
}

#[test]
fn test_verify_rejects_garbage_signature() {
    let kp = KeyPair::generate().unwrap();
    let sig = vec![0u8; 64];
    assert!(!kp.verify(b"msg", &sig));
    let short = vec![1u8, 2, 3];
    assert!(!kp.verify(b"msg", &short));
}
