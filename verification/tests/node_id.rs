use megaengine::keypair::KeyPair;
use megaengine::node_id::IdentityError;
use megaengine::node_id::NodeId;
use multibase::encode;
use multibase::Base;

const DID_KEY_PREFIX: &str = "did:key:";

#[test]
fn test_node_id_from_and_to_keypair() {
    let kp = KeyPair::generate().unwrap();

    let node_id = NodeId::from_keypair(&kp);
    assert!(node_id.0.starts_with(DID_KEY_PREFIX));
    assert!(node_id.0.len() > 20);

    let recovered = node_id.clone().to_keypair().unwrap();
    assert_eq!(
        kp.verifying_key_bytes(),
        recovered.verifying_key_bytes(),
        "Recovered pubkey should match original"
    );
}

#[test]
fn test_valid_from_string() {
    let node_id_str = "did:key:z2DXbAovGq5vNKpXVFyrhVLppMdUCmV1hCNjbUydLMEWasE";
    let node_id = NodeId::from_string(&node_id_str).unwrap();
    assert_eq!(node_id.0, node_id_str);
}

#[test]
fn test_invalid_prefix_from_string() {
    let result = NodeId::from_string("invalid:zabcdef");
    assert!(result.is_err());
}

#[test]
fn test_invalid_base_from_string() {
    let encoded = encode(Base::Base64, vec![0xed, 1, 2, 3]);
    let node_id_str = format!("{}{}", DID_KEY_PREFIX, encoded);
    let result = NodeId::from_string(&node_id_str);
    assert!(result.is_err());
    assert_eq!(result.unwrap_err(), IdentityError::InvalidBase);
}

#[test]
fn test_invalid_key_prefix_from_string() {
    let encoded = encode(Base::Base58Btc, vec![0xaa, 1, 2, 3]);
    let node_id_str = format!("{}{}", DID_KEY_PREFIX, encoded);
    let result = NodeId::from_string(&node_id_str);
    assert!(result.is_err());
    assert_eq!(result.unwrap_err(), IdentityError::InvalidKeyTag);
}

#[test]
fn test_invalid_prefix() {
    let node_id = NodeId("invalid:zabc".into());
    let result = node_id.to_keypair();
    assert!(result.is_err());
}

#[test]
fn test_invalid_encoding() {
    let node_id = NodeId(format!("{}{}", DID_KEY_PREFIX, "notbase58!"));
    let result = node_id.to_keypair();
    assert!(result.is_err());
}

#[test]
fn test_invalid_key_prefix() {
    let bad_data = encode(Base::Base58Btc, vec![0xaa, 1, 2, 3]);
    let node_id = NodeId(format!("{}{}", DID_KEY_PREFIX, bad_data));
    let result = node_id.to_keypair();
    assert!(result.is_err());
}

#[test]
fn test_invalid_key_length() {
    let mut data = vec![0xed];
    data.extend_from_slice(&[1, 2, 3, 4, 5]);
    let bad_data = encode(Base::Base58Btc, data);
    let node_id = NodeId(format!("{}{}", DID_KEY_PREFIX, bad_data));
    let result = node_id.to_keypair();
    assert_eq!(result.unwrap_err(), IdentityError::InvalidKeyLength);
}

#[test]
fn test_empty_encoded_part() {
    let result = NodeId::from_string("did:key:");
    assert_eq!(result.unwrap_err(), IdentityError::EmptyEncoded);
}

#[test]
fn test_decode_failure_from_string() {
    let result = NodeId::from_string("did:key:z0OIl");
    assert_eq!(result.unwrap_err(), IdentityError::DecodeFailed);
}

#[test]
fn test_derived_id_has_multibase_code() {
    let kp = KeyPair::generate().unwrap();
    let node_id = NodeId::from_keypair(&kp);
    // the encoded part opens with the base58btc code character
    assert!(node_id.0.starts_with("did:key:z"));
    // and it differs from the raw payload: the wrapper really encoded
    assert!(!node_id.as_str().contains('\u{ed}'));
}

#[test]
fn test_round_trip_through_text() {
    let kp = KeyPair::generate().unwrap();
    let node_id = NodeId::from_keypair(&kp);
    let reparsed = NodeId::from_string(node_id.as_str()).unwrap();
    assert_eq!(reparsed, node_id);
    let recovered = reparsed.to_keypair().unwrap();
    assert_eq!(recovered.verifying_key_bytes(), kp.verifying_key_bytes());
    assert!(recovered.signing_key_bytes().is_err());
}

#[test]
fn test_as_bytes_and_as_vec() {
    let node_id = NodeId("did:key:zabc".to_string());
    assert_eq!(node_id.as_str(), "did:key:zabc");
    assert_eq!(node_id.as_bytes(), b"did:key:zabc");
    assert_eq!(node_id.as_vec(), b"did:key:zabc".to_vec());
}

#[test]
fn test_from_str_trait() {
    let kp = KeyPair::generate().unwrap();
    let node_id = NodeId::from_keypair(&kp);
    let parsed: NodeId = node_id.as_str().parse().unwrap();
    assert_eq!(parsed, node_id);
    let bad: Result<NodeId, _> = "invalid:zabc".parse();
    assert!(bad.is_err());
}
