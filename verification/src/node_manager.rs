//! The peer routing table: an in-memory directory from node
//! identifier to routing entry, with overwrite-on-conflict
//! insertion, liveness refresh and an expiry sweep. The directory is
//! read as a `Map` from identifier text to entry.

use vstd::prelude::*;

use crate::assoc::as_map;
use crate::assoc::has_key;
use crate::assoc::index_of_key;
use crate::assoc::keys_unique;
use crate::assoc::lemma_empty;
use crate::assoc::lemma_entry_is_value;
use crate::assoc::lemma_push;
use crate::assoc::lemma_remove;
use crate::assoc::lemma_unique_len;
use crate::assoc::lemma_update;
use crate::assoc::lemma_value_carries_key;
use crate::assoc::vec_index_mut;
use crate::node::DEFAULT_TTL_MILLIS;
use crate::node::Node;
use crate::node::NodeRouting;
use crate::node::now_millis;
use crate::node_id::NodeId;

verus! {

/// The key an entry is filed under: its identifier text.
pub open spec fn routing_key() -> spec_fn(NodeRouting) -> Seq<char> {
    |e: NodeRouting| e.node_id@
}

/// What one expiry sweep at reading `now` leaves behind: exactly the
/// entries that were not stale at `now`, each unchanged.
pub open spec fn spec_swept(
    old_m: Map<Seq<char>, NodeRouting>,
    new_m: Map<Seq<char>, NodeRouting>,
    now: u64,
) -> bool {
    &&& forall|k: Seq<char>|
        #[trigger] new_m.dom().contains(k) <==> (old_m.dom().contains(k)
            && !old_m[k].spec_expired_at(now))
    &&& forall|k: Seq<char>| #[trigger] new_m.dom().contains(k) ==> new_m[k] == old_m[k]
}

/// The peer routing table.
pub struct NodeManager {
    nodes: Vec<NodeRouting>,
}

impl View for NodeManager {
    type V = Map<Seq<char>, NodeRouting>;

    /// The directory read as a map from identifier text to entry.
    closed spec fn view(&self) -> Map<Seq<char>, NodeRouting> {
        as_map(self.nodes@, routing_key())
    }
}

impl NodeManager {
    /// Entries are filed under pairwise-distinct identifiers.
    pub closed spec fn wf(&self) -> bool {
        keys_unique(self.nodes@, routing_key())
    }

    /// An empty directory.
    pub fn new() -> (r: NodeManager)
        ensures
            r.wf(),
            r@ =~= Map::<Seq<char>, NodeRouting>::empty(),
    {
        proof {
            lemma_empty::<NodeRouting, Seq<char>>(routing_key());
        }
        NodeManager { nodes: Vec::new() }
    }

    /// File `routing` under its identifier, replacing any entry
    /// already filed there.
    pub fn insert_routing(&mut self, routing: NodeRouting)
        requires
            old(self).wf(),
        ensures
            final(self).wf(),
            final(self)@ =~= old(self)@.insert(routing.node_id@, routing),
    {
        let n = self.nodes.len();
        let mut i: usize = 0;
        while i < n
            invariant
                i <= n,
                n == self.nodes@.len(),
                self.wf(),
                self.nodes@ == old(self).nodes@,
                forall|j: int| 0 <= j < i ==> self.nodes@[j].node_id@ != routing.node_id@,
            decreases n - i,
        {
            if self.nodes[i].node_id.0 == routing.node_id.0 {
                proof {
                    lemma_update(self.nodes@, routing_key(), i as int, routing);
                }
                self.nodes.set(i, routing);
                return;
            }
            i = i + 1;
        }
        proof {
            if has_key(self.nodes@, routing_key(), routing.node_id@) {
                let j = index_of_key(self.nodes@, routing_key(), routing.node_id@);
                assert(self.nodes@[j].node_id@ == routing.node_id@);
            }
            lemma_push(self.nodes@, routing_key(), routing);
        }
        self.nodes.push(routing);
    }

    /// File a fresh entry for `node`: its identifier and addresses,
    /// the default time-to-live, and liveness reset to the present
    /// reading. An entry already filed under the same identifier is
    /// replaced.
    pub fn insert_node(&mut self, node: &Node)
        requires
            old(self).wf(),
        ensures
            final(self).wf(),
            final(self)@.dom() =~= old(self)@.dom().insert(node.info.node_id@),
            final(self)@[node.info.node_id@].node_id == node.info.node_id,
            final(self)@[node.info.node_id@].addresses@ == node.info.addresses@,
            final(self)@[node.info.node_id@].ttl == DEFAULT_TTL_MILLIS,
            final(self)@[node.info.node_id@].score == 1,
            forall|k: Seq<char>|
                k != node.info.node_id@ && old(self)@.dom().contains(k)
                    ==> final(self)@[k] == #[trigger] old(self)@[k],
    {
        let id = node.info.node_id.clone();
        let addresses = node.info.addresses.clone();
        proof {
            assert forall|i: int| 0 <= i < node.info.addresses@.len() implies addresses@[i]
                == node.info.addresses@[i] by {
                assert(cloned::<String>(node.info.addresses@[i], addresses@[i]));
            }
            assert(addresses@ =~= node.info.addresses@);
        }
        let routing = NodeRouting::new(id, addresses);
        self.insert_routing(routing);
    }

    /// Refresh the liveness of the entry filed under `node_id` to
    /// reading `now`; a no-op when none is filed.
    pub fn mark_alive_at(&mut self, node_id: &NodeId, now: u64)
        requires
            old(self).wf(),
        ensures
            final(self).wf(),
            old(self)@.dom().contains(node_id@) ==> final(self)@ =~= old(self)@.insert(
                node_id@,
                (NodeRouting { last_seen: now, ..old(self)@[node_id@] }),
            ),
            !old(self)@.dom().contains(node_id@) ==> final(self)@ =~= old(self)@,
    {
        let n = self.nodes.len();
        let mut i: usize = 0;
        while i < n
            invariant
                i <= n,
                n == self.nodes@.len(),
                self.wf(),
                self.nodes@ == old(self).nodes@,
                forall|j: int| 0 <= j < i ==> self.nodes@[j].node_id@ != node_id@,
            decreases n - i,
        {
            if self.nodes[i].node_id.0 == node_id.0 {
                proof {
                    lemma_entry_is_value(self.nodes@, routing_key(), i as int);
                }
                let entry = vec_index_mut(&mut self.nodes, i);
                entry.refresh_at(now);
                proof {
                    lemma_update(
                        old(self).nodes@,
                        routing_key(),
                        i as int,
                        self.nodes@[i as int],
                    );
                }
                return;
            }
            i = i + 1;
        }
        proof {
            if self@.dom().contains(node_id@) {
                let j = index_of_key(self.nodes@, routing_key(), node_id@);
                assert(self.nodes@[j].node_id@ == node_id@);
            }
        }
    }

    /// Refresh the liveness of the entry filed under `node_id` to
    /// the present wall-clock reading; a no-op when none is filed.
    pub fn mark_alive(&mut self, node_id: &NodeId)
        requires
            old(self).wf(),
        ensures
            final(self).wf(),
            final(self)@.dom() =~= old(self)@.dom(),
            !old(self)@.dom().contains(node_id@) ==> final(self)@ =~= old(self)@,
            forall|k: Seq<char>|
                k != node_id@ && old(self)@.dom().contains(k) ==> final(self)@[k]
                    == #[trigger] old(self)@[k],
    {
        let now = now_millis();
        self.mark_alive_at(node_id, now);
    }

    /// Sweep out every entry that is stale at reading `now`; the
    /// rest stay unchanged.
    pub fn cleanup_expired_at(&mut self, now: u64)
        requires
            old(self).wf(),
        ensures
            final(self).wf(),
            spec_swept(old(self)@, final(self)@, now),
    {
        let ghost m0 = self@;
        let mut i: usize = 0;
        while i < self.nodes.len()
            invariant
                i <= self.nodes@.len(),
                self.wf(),
                forall|j: int| 0 <= j < i ==> !(#[trigger] self.nodes@[j]).spec_expired_at(now),
                forall|k: Seq<char>|
                    #[trigger] self@.dom().contains(k) ==> m0.dom().contains(k) && self@[k]
                        == m0[k],
                forall|k: Seq<char>|
                    m0.dom().contains(k) && !(#[trigger] m0[k]).spec_expired_at(now)
                        ==> self@.dom().contains(k),
            decreases self.nodes@.len() - i,
        {
            if self.nodes[i].expired_at(now) {
                let ghost m_prev = self@;
                let ghost key = self.nodes@[i as int].node_id@;
                proof {
                    lemma_entry_is_value(self.nodes@, routing_key(), i as int);
                    lemma_remove(self.nodes@, routing_key(), i as int);
                    self.nodes@.remove_ensures(i as int);
                }
                self.nodes.remove(i);
                proof {
                    assert(self@ =~= m_prev.remove(key));
                    assert forall|k: Seq<char>| #[trigger] self@.dom().contains(k) implies m0.dom().contains(
                        k,
                    ) && self@[k] == m0[k] by {
                        assert(k != key);
                        assert(m_prev.dom().contains(k));
                    }
                    assert forall|k: Seq<char>|
                        m0.dom().contains(k) && !(#[trigger] m0[k]).spec_expired_at(now) implies self@.dom().contains(
                        k,
                    ) by {
                        assert(m_prev.dom().contains(k));
                        if k == key {
                            assert(m_prev[key] == m0[key]);
                            assert(false);
                        }
                    }
                }
            } else {
                i = i + 1;
            }
        }
        proof {
            assert forall|k: Seq<char>| #[trigger] self@.dom().contains(k) implies !self@[
                k
            ].spec_expired_at(now) by {
                let j = index_of_key(self.nodes@, routing_key(), k);
                assert(0 <= j < self.nodes@.len() && self.nodes@[j].node_id@ == k);
                lemma_entry_is_value(self.nodes@, routing_key(), j);
            }
        }
    }

    /// Sweep out every entry stale at the present wall-clock
    /// reading.
    pub fn cleanup_expired(&mut self)
        requires
            old(self).wf(),
        ensures
            final(self).wf(),
            exists|now: u64| spec_swept(old(self)@, final(self)@, now),
    {
        let now = now_millis();
        self.cleanup_expired_at(now);
    }

    /// The entry filed under `node_id`, when there is one.
    pub fn get_node(&self, node_id: &NodeId) -> (r: Option<&NodeRouting>)
        requires
            self.wf(),
        ensures
            self@.dom().contains(node_id@) ==> (r matches Some(e) && *e == self@[node_id@]),
            !self@.dom().contains(node_id@) ==> r is None,
    {
        let n = self.nodes.len();
        let mut i: usize = 0;
        while i < n
            invariant
                i <= n,
                n == self.nodes@.len(),
                self.wf(),
                forall|j: int| 0 <= j < i ==> self.nodes@[j].node_id@ != node_id@,
            decreases n - i,
        {
            if self.nodes[i].node_id.0 == node_id.0 {
                proof {
                    lemma_entry_is_value(self.nodes@, routing_key(), i as int);
                }
                return Some(&self.nodes[i]);
            }
            i = i + 1;
        }
        proof {
            if self@.dom().contains(node_id@) {
                let j = index_of_key(self.nodes@, routing_key(), node_id@);
                assert(self.nodes@[j].node_id@ == node_id@);
            }
        }
        None
    }

    /// All entries, in no promised order; they read as this
    /// directory's map.
    pub fn list(&self) -> (r: &Vec<NodeRouting>)
        ensures
            as_map(r@, routing_key()) == self@,
            self.wf() ==> keys_unique(r@, routing_key()) && r@.len() == self@.dom().len(),
    {
        proof {
            if self.wf() {
                lemma_unique_len(self.nodes@, routing_key());
            }
        }
        &self.nodes
    }
}

impl Default for NodeManager {
    /// The default directory is empty.
    fn default() -> (r: Self)
        ensures
            r.wf(),
            r@ =~= Map::<Seq<char>, NodeRouting>::empty(),
    {
        NodeManager::new()
    }
}

/// Law: an entry looked up under an identifier carries that
/// identifier.
pub proof fn lemma_entry_carries_its_id(m: &NodeManager, k: Seq<char>)
    requires
        m@.dom().contains(k),
    ensures
        m@[k].node_id@ == k,
{
    lemma_value_carries_key(m.nodes@, routing_key(), k);
}

/// Law: after a sweep at reading `now`, no remaining entry is stale
/// at `now`.
pub proof fn lemma_swept_entries_live(
    old_m: Map<Seq<char>, NodeRouting>,
    new_m: Map<Seq<char>, NodeRouting>,
    now: u64,
    k: Seq<char>,
)
    requires
        spec_swept(old_m, new_m, now),
        new_m.dom().contains(k),
    ensures
        !new_m[k].spec_expired_at(now),
{
}

} // verus!
