use megaengine::keypair::KeyPair;
use megaengine::node::Node;
use megaengine::node::NodeRouting;
use megaengine::node::NodeType;
use megaengine::node_id::NodeId;
use megaengine::node_manager::NodeManager;
use megaengine::repo::P2PDescription;
use megaengine::repo::Repo;
use megaengine::repo_manager::RepoManager;

fn create_sample_node() -> Node {
    let keypair = &KeyPair::generate().unwrap();
    let node_id = NodeId::from_keypair(keypair);
    let alias = "Test Node";
    let addresses = vec!["127.0.0.1:8080".to_string()];
    let node_type = NodeType::Normal;

    Node::new(node_id, alias, addresses, node_type, keypair.clone())
}

#[test]
fn test_node_manager_insert_node() {
    let mut manager = NodeManager::new();
    let node = create_sample_node();

    manager.insert_node(&node);

    assert_eq!(manager.list().len(), 1);
    let node_routing = manager.get_node(node.node_id());
    assert!(node_routing.is_some());
    assert_eq!(node_routing.unwrap().node_id, *node.node_id());
}

#[test]
fn test_node_manager_mark_alive() {
    let mut manager = NodeManager::new();
    let node = create_sample_node();

    manager.insert_node(&node);

    let initial_last_seen = manager.get_node(node.node_id()).unwrap().last_seen;

    manager.mark_alive_at(node.node_id(), initial_last_seen + 100);

    let refreshed_last_seen = manager.get_node(node.node_id()).unwrap().last_seen;
    assert_ne!(initial_last_seen, refreshed_last_seen);
    assert_eq!(refreshed_last_seen, initial_last_seen + 100);
}

#[test]
fn test_node_manager_mark_alive_unknown_is_noop() {
    let mut manager = NodeManager::new();
    let node = create_sample_node();
    manager.insert_node(&node);

    let other = NodeId::from_keypair(&KeyPair::generate().unwrap());
    manager.mark_alive_at(&other, 99);
    assert_eq!(manager.list().len(), 1);
    assert!(manager.get_node(&other).is_none());
}

#[test]
fn test_node_manager_cleanup_expired() {
    let mut manager = NodeManager::new();
    let node = create_sample_node();

    let mut entry = NodeRouting::new_at(
        node.node_id().clone(),
        vec!["127.0.0.1:8080".to_string()],
        1_000,
    );
    entry.ttl = 1_000;
    manager.insert_routing(entry);
    assert_eq!(manager.list().len(), 1);

    // one second past the ttl, the sweep drops the entry
    manager.cleanup_expired_at(1_000 + 1_000 + 1);
    assert_eq!(manager.list().len(), 0);
    assert!(manager.get_node(node.node_id()).is_none());
}

#[test]
fn test_node_manager_cleanup_keeps_live_entries() {
    let mut manager = NodeManager::new();

    let id1 = NodeId::from_keypair(&KeyPair::generate().unwrap());
    let id2 = NodeId::from_keypair(&KeyPair::generate().unwrap());
    let mut stale = NodeRouting::new_at(id1.clone(), vec![], 1_000);
    stale.ttl = 10;
    let live = NodeRouting::new_at(id2.clone(), vec![], 5_000);
    manager.insert_routing(stale);
    manager.insert_routing(live);

    manager.cleanup_expired_at(5_500);
    assert!(manager.get_node(&id1).is_none());
    assert!(manager.get_node(&id2).is_some());
    assert_eq!(manager.list().len(), 1);
}

#[test]
fn test_node_manager_insert_overwrites() {
    let mut manager = NodeManager::new();
    let id = NodeId::from_keypair(&KeyPair::generate().unwrap());

    let first = NodeRouting::new_at(id.clone(), vec!["10.0.0.1:1".to_string()], 100);
    manager.insert_routing(first);
    let second = NodeRouting::new_at(id.clone(), vec!["10.0.0.2:2".to_string()], 200);
    manager.insert_routing(second);

    assert_eq!(manager.list().len(), 1);
    let entry = manager.get_node(&id).unwrap();
    assert_eq!(entry.last_seen, 200);
    assert_eq!(entry.addresses, vec!["10.0.0.2:2".to_string()]);
}

#[test]
fn test_repo_manager() {
    let mut manager = RepoManager::new();

    let desc = P2PDescription {
        creator: "did:key:test".to_string(),
        name: "test-repo".to_string(),
        description: "A test repository".to_string(),
        timestamp: 1000,
    };

    let repo = Repo::new(
        "did:repo:test".to_string(),
        desc,
        "/tmp/test-repo".to_string(),
    );

    assert!(manager.register_repo(repo).is_ok());
    assert_eq!(manager.repo_count(), 1);
    assert!(manager.get_repo("did:repo:test").is_some());
}

fn sample_repo(repo_id: &str, path: &str) -> Repo {
    let desc = P2PDescription {
        creator: "did:key:test".to_string(),
        name: "repo".to_string(),
        description: String::new(),
        timestamp: 1000,
    };
    Repo::new(repo_id.to_string(), desc, path.to_string())
}

#[test]
fn test_repo_manager_duplicate_id_rejected() {
    let mut manager = RepoManager::new();

    assert!(manager.register_repo(sample_repo("did:repo:test", "/tmp/a")).is_ok());
    let err = manager
        .register_repo(sample_repo("did:repo:test", "/tmp/b"))
        .unwrap_err();
    assert_eq!(err, "Repository did:repo:test already exists");
    assert_eq!(manager.repo_count(), 1);
    // the surviving entry is the first registration
    assert_eq!(manager.get_repo("did:repo:test").unwrap().path, "/tmp/a");
}

#[test]
fn test_repo_manager_lookup_and_remove() {
    let mut manager = RepoManager::new();
    manager.register_repo(sample_repo("did:repo:one", "/tmp/one")).unwrap();
    manager.register_repo(sample_repo("did:repo:two", "/tmp/two")).unwrap();

    assert_eq!(manager.repo_count(), 2);
    assert_eq!(
        manager.get_repo_id_by_path("/tmp/two").unwrap(),
        "did:repo:two"
    );
    assert!(manager.get_repo_id_by_path("/tmp/absent").is_none());

    let removed = manager.remove_repo("did:repo:one").unwrap();
    assert_eq!(removed.repo_id, "did:repo:one");
    assert_eq!(manager.repo_count(), 1);
    assert!(manager.get_repo("did:repo:one").is_none());
    assert!(manager.get_repo_id_by_path("/tmp/one").is_none());
    assert!(manager.remove_repo("did:repo:one").is_none());

    let listed = manager.list_repos();
    assert_eq!(listed.len(), 1);
    assert_eq!(listed[0].repo_id, "did:repo:two");
}

#[test]
fn test_repo_manager_get_repo_mut() {
    let mut manager = RepoManager::new();
    manager.register_repo(sample_repo("did:repo:one", "/tmp/one")).unwrap();

    {
        let repo = manager.get_repo_mut("did:repo:one").unwrap();
        repo.bundle = "/tmp/one.bundle".to_string();
        repo.is_external = true;
    }
    assert!(manager.get_repo_mut("did:repo:absent").is_none());

    let repo = manager.get_repo("did:repo:one").unwrap();
    assert_eq!(repo.bundle, "/tmp/one.bundle");
    assert!(repo.is_external);
}
