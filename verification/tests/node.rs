use megaengine::keypair::KeyPair;
use megaengine::node::Node;
use megaengine::node::NodeRouting;
use megaengine::node::NodeType;
use megaengine::node::DEFAULT_TTL_MILLIS;
use megaengine::node_id::NodeId;

fn create_sample_node() -> Node {
    let keypair = &KeyPair::generate().unwrap();
    let node_id = NodeId::from_keypair(keypair);
    let alias = "Test Node";
    let addresses = vec!["127.0.0.1:8080".to_string()];
    let node_type = NodeType::Normal;

    Node::new(node_id, alias, addresses, node_type, keypair.clone())
}

#[test]
fn test_create_node() {
    let node = create_sample_node();

    assert_eq!(node.alias(), "Test Node");
    assert_eq!(node.node_type(), NodeType::Normal);
    assert_eq!(node.version(), 1);
    assert_eq!(node.addresses().len(), 1);
    assert_eq!(node.addresses()[0], "127.0.0.1:8080".to_string());
}

#[test]
fn test_node_from_keypair() {
    let keypair = KeyPair::generate().unwrap();
    let alias = "Keypair Node";
    let addresses = vec!["127.0.0.1:8080".to_string()];
    let node_type = NodeType::Relay;

    let node = Node::from_keypair(&keypair, alias, addresses, node_type);

    assert_eq!(node.node_type(), NodeType::Relay);
    assert_eq!(node.alias(), alias);
    assert_eq!(node.addresses()[0], "127.0.0.1:8080".to_string());
}

#[test]
fn test_node_routing() {
    let node_id = NodeId::from_keypair(&KeyPair::generate().unwrap());
    let addresses = vec!["127.0.0.1:8080".to_string()];

    let mut node_routing = NodeRouting::new_at(node_id.clone(), addresses, 1_000);

    assert_eq!(node_routing.node_id, node_id);
    assert_eq!(node_routing.addresses.len(), 1);
    assert_eq!(node_routing.addresses[0], "127.0.0.1:8080".to_string());
    assert_eq!(node_routing.score, 1);
    assert_eq!(node_routing.ttl, DEFAULT_TTL_MILLIS);

    // a refresh moves the liveness timestamp
    let initial_last_seen = node_routing.last_seen;
    node_routing.refresh_at(initial_last_seen + 5);
    assert_ne!(node_routing.last_seen, initial_last_seen);

    // two seconds in: not expired while the ttl is 24 hours
    assert_eq!(node_routing.expired_at(node_routing.last_seen + 2_000), false);

    // with a one-second ttl, two seconds of silence expire the entry
    node_routing.ttl = 1_000;
    assert_eq!(node_routing.expired_at(node_routing.last_seen + 2_000), true);
}

#[test]
fn test_node_type_enum() {
    let node = create_sample_node();
    assert_eq!(node.node_type(), NodeType::Normal);

    let node = Node::new(
        NodeId::from_keypair(&KeyPair::generate().unwrap()),
        "Relay Node",
        vec!["127.0.0.1:8080".to_string()],
        NodeType::Relay,
        KeyPair::generate().unwrap(),
    );
    assert_eq!(node.node_type(), NodeType::Relay);
}

#[test]
fn test_expiry_boundary() {
    let node_id = NodeId::from_keypair(&KeyPair::generate().unwrap());
    let entry = NodeRouting::new_at(node_id, vec![], 10_000);

    // never stale at the refresh instant
    assert!(!entry.expired_at(10_000));
    // not stale at exactly ttl elapsed, stale one past it
    assert!(!entry.expired_at(10_000 + DEFAULT_TTL_MILLIS));
    assert!(entry.expired_at(10_000 + DEFAULT_TTL_MILLIS + 1));
    // a clock that went backwards never counts as stale
    assert!(!entry.expired_at(9_000));
}

#[test]
fn test_sign_message() {
    let keypair = KeyPair::generate().unwrap();
    let node = Node::from_keypair(&keypair, "signer", vec![], NodeType::Normal);
    let sig = node.sign_message(b"payload").unwrap();
    assert_eq!(sig.len(), 64);
    assert!(node.keypair().verify(b"payload", &sig));

    let verify_only =
        KeyPair::from_verifying_key_bytes(keypair.verifying_key_bytes()).unwrap();
    let node2 = Node::from_keypair(&verify_only, "verify-only", vec![], NodeType::Normal);
    assert!(node2.sign_message(b"payload").is_err());
}
