//! Trust-and-connectivity substrate for a peer-to-peer repository
//! replication node: self-certifying node identities derived from
//! signing keys, a certificate-authority bootstrap for mutual TLS,
//! a liveness-tracked peer routing table, and the decision logic of
//! the periodic reconciliation loops.

pub mod assoc;
pub mod cert;
pub mod keypair;
pub mod node;
pub mod node_id;
pub mod node_manager;
pub mod repo;
pub mod repo_manager;
pub mod storage;
pub mod sync;
pub mod transport;
pub mod util;
