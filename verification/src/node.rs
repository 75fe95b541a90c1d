//! The local node's runtime identity and the peer directory entry.
//! Wall-clock readings come through a trusted wrapper as plain
//! milliseconds; everything decided from a reading is verified in
//! functions that take the reading as an argument.

use vstd::prelude::*;

use crate::keypair::KeyError;
use crate::keypair::KeyPair;
use crate::keypair::signature_accepted;
use crate::keypair::signature_of;
use crate::node_id::IdentityError;
use crate::node_id::NodeId;
use crate::node_id::spec_node_id_text;
use crate::node_id::spec_public_key_of;

verus! {

/// How long a peer directory entry stays trusted without a fresh
/// contact signal: 24 hours, in milliseconds.
pub const DEFAULT_TTL_MILLIS: u64 = 86_400_000;

/// Relies on chrono::Utc::now: a wall-clock reading, about which
/// nothing is promised.
#[verifier::external_body]
fn chrono_now_millis() -> (r: i64) {
    chrono::Utc::now().timestamp_millis()
}

/// The wall clock as milliseconds since the epoch; readings before
/// the epoch are clamped to zero.
pub fn now_millis() -> (r: u64) {
    let t = chrono_now_millis();
    if t < 0 {
        0
    } else {
        t as u64
    }
}

/// The class of a node in the swarm.
#[derive(Clone, Copy, Debug, PartialEq, Eq, Structural)]
pub enum NodeType {
    Normal,
    Relay,
}

/// The shareable part of a node's identity. Addresses are kept in
/// textual `host:port` form.
#[derive(Clone, Debug, PartialEq, Eq)]
pub struct NodeInfo {
    pub node_id: NodeId,
    pub alias: String,
    pub addresses: Vec<String>,
    pub node_type: NodeType,
    pub version: u8,
}

/// The running node: its shareable info and its key material. The
/// handle to an active connection manager lives with the host
/// process, outside this library.
#[derive(Clone, Debug)]
pub struct Node {
    pub info: NodeInfo,
    pub keypair: KeyPair,
}

impl Node {
    /// Assemble a node from its parts; the schema version is fixed
    /// at 1.
    pub fn new(
        node_id: NodeId,
        alias: &str,
        addresses: Vec<String>,
        node_type: NodeType,
        keypair: KeyPair,
    ) -> (r: Node)
        ensures
            r.info.node_id == node_id,
            r.info.alias@ == alias@,
            r.info.addresses == addresses,
            r.info.node_type == node_type,
            r.info.version == 1,
            r.keypair == keypair,
    {
        let info = NodeInfo {
            node_id,
            alias: String::from_str(alias),
            addresses,
            node_type,
            version: 1,
        };
        Node { info, keypair }
    }

    /// Assemble a node whose identifier is derived from the key
    /// pair, so that the identifier names exactly this pair's public
    /// key.
    pub fn from_keypair(
        keypair: &KeyPair,
        alias: &str,
        addresses: Vec<String>,
        node_type: NodeType,
    ) -> (r: Node)
        ensures
            r.info.node_id@ == spec_node_id_text(keypair.spec_verifying_key()),
            spec_public_key_of(r.info.node_id@) == Ok::<Seq<u8>, IdentityError>(
                keypair.spec_verifying_key(),
            ),
            r.info.alias@ == alias@,
            r.info.addresses == addresses,
            r.info.node_type == node_type,
            r.info.version == 1,
            r.keypair == *keypair,
    {
        let node_id = NodeId::from_keypair(keypair);
        Node::new(node_id, alias, addresses, node_type, keypair.clone())
    }

    /// Sign `msg` with the node's key pair: succeeds exactly when
    /// the pair holds a private half, and the signature verifies
    /// under the node's public key.
    pub fn sign_message(&self, msg: &[u8]) -> (r: Result<Vec<u8>, KeyError>)
        ensures
            r is Ok <==> self.keypair.has_signing_key(),
            r matches Ok(sig) ==> {
                &&& sig@ == signature_of(self.keypair.spec_signing_key()->Some_0, msg@)
                &&& signature_accepted(self.keypair.spec_verifying_key(), msg@, sig@)
            },
            r is Err ==> r == Err::<Vec<u8>, KeyError>(KeyError::NoSigningKey),
    {
        self.keypair.sign(msg)
    }

    /// The node's identifier.
    pub fn node_id(&self) -> (r: &NodeId)
        ensures
            r == &self.info.node_id,
    {
        &self.info.node_id
    }

    /// The node's human-readable alias.
    pub fn alias(&self) -> (r: &str)
        ensures
            r@ == self.info.alias@,
    {
        self.info.alias.as_str()
    }

    /// The node's announce addresses.
    pub fn addresses(&self) -> (r: &[String])
        ensures
            r@ == self.info.addresses@,
    {
        self.info.addresses.as_slice()
    }

    /// The node's class.
    pub fn node_type(&self) -> (r: NodeType)
        ensures
            r == self.info.node_type,
    {
        self.info.node_type
    }

    /// The schema version.
    pub fn version(&self) -> (r: u8)
        ensures
            r == self.info.version,
    {
        self.info.version
    }

    /// The node's key material.
    pub fn keypair(&self) -> (r: &KeyPair)
        ensures
            r == &self.keypair,
    {
        &self.keypair
    }
}

/// A peer directory entry: where a peer was reachable and when it
/// was last heard from. Times are milliseconds since the epoch. The
/// score is a reputation weight reserved for future policies.
#[derive(Clone, Debug)]
pub struct NodeRouting {
    pub node_id: NodeId,
    pub addresses: Vec<String>,
    pub last_seen: u64,
    pub ttl: u64,
    pub score: u32,
}

impl NodeRouting {
    /// Whether the entry is stale at reading `now`: strictly more
    /// than `ttl` milliseconds have passed since `last_seen`. A
    /// reading earlier than `last_seen` (a clock that went back)
    /// never counts as stale.
    pub open spec fn spec_expired_at(&self, now: u64) -> bool {
        now > self.last_seen && now - self.last_seen > self.ttl
    }

    /// A fresh entry with the default time-to-live, last seen at
    /// reading `now`.
    pub fn new_at(node_id: NodeId, addresses: Vec<String>, now: u64) -> (r: NodeRouting)
        ensures
            r.node_id == node_id,
            r.addresses == addresses,
            r.last_seen == now,
            r.ttl == DEFAULT_TTL_MILLIS,
            r.score == 1,
    {
        NodeRouting { node_id, addresses, last_seen: now, ttl: DEFAULT_TTL_MILLIS, score: 1 }
    }

    /// A fresh entry last seen now, by the wall clock.
    pub fn new(node_id: NodeId, addresses: Vec<String>) -> (r: NodeRouting)
        ensures
            r.node_id == node_id,
            r.addresses == addresses,
            r.ttl == DEFAULT_TTL_MILLIS,
            r.score == 1,
    {
        let now = now_millis();
        NodeRouting::new_at(node_id, addresses, now)
    }

    /// Record a contact signal at reading `now`; nothing else
    /// changes.
    pub fn refresh_at(&mut self, now: u64)
        ensures
            final(self).node_id == old(self).node_id,
            final(self).addresses == old(self).addresses,
            final(self).last_seen == now,
            final(self).ttl == old(self).ttl,
            final(self).score == old(self).score,
            !final(self).spec_expired_at(now),
    {
        self.last_seen = now;
    }

    /// Record a contact signal now, by the wall clock.
    pub fn refresh(&mut self)
        ensures
            final(self).node_id == old(self).node_id,
            final(self).addresses == old(self).addresses,
            final(self).ttl == old(self).ttl,
            final(self).score == old(self).score,
    {
        let now = now_millis();
        self.refresh_at(now);
    }

    /// Whether the entry is stale at reading `now`.
    pub fn expired_at(&self, now: u64) -> (r: bool)
        ensures
            r == self.spec_expired_at(now),
    {
        now > self.last_seen && now - self.last_seen > self.ttl
    }

    /// Whether the entry is stale now, by the wall clock; see
    /// `spec_expired_at` for what one reading decides.
    pub fn expired(&self) -> (r: bool)
        ensures
            exists|now: u64| r == self.spec_expired_at(now),
    {
        let now = now_millis();
        self.expired_at(now)
    }
}

/// Law: an entry is never stale at the reading that refreshed it.
pub proof fn lemma_fresh_entry_not_expired(n: NodeRouting)
    ensures
        !n.spec_expired_at(n.last_seen),
{
}

/// Law: staleness at `last_seen + elapsed` holds exactly when the
/// elapsed time exceeds the time-to-live.
pub proof fn lemma_expired_iff_elapsed_exceeds_ttl(n: NodeRouting, elapsed: u64)
    requires
        n.last_seen + elapsed <= u64::MAX,
    ensures
        n.spec_expired_at((n.last_seen + elapsed) as u64) == (elapsed > n.ttl),
{
}

/// Law: staleness is monotone in the clock reading: once an entry is
/// stale, it stays stale at every later reading.
pub proof fn lemma_expiry_monotone(n: NodeRouting, now1: u64, now2: u64)
    requires
        now1 <= now2,
        n.spec_expired_at(now1),
    ensures
        n.spec_expired_at(now2),
{
}

} // verus!
