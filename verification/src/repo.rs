//! A repository as the reconciliation loops see it: its swarm-wide
//! identity, where it lives on disk, whether this node is a replica,
//! and whether a packaged bundle of it has been fetched. Paths are
//! kept in textual form.

use vstd::prelude::*;

verus! {

/// The shared description of a repository: who created it, under
/// what name, and when.
#[derive(Clone, Debug, PartialEq, Eq)]
pub struct P2PDescription {
    /// The creator's node identifier, as text.
    pub creator: String,
    pub name: String,
    pub description: String,
    /// Creation time, whole seconds since the epoch.
    pub timestamp: i64,
}

/// A repository known to this node.
#[derive(Clone, Debug, PartialEq, Eq)]
pub struct Repo {
    pub repo_id: String,
    pub p2p_description: P2PDescription,
    /// The local working-copy path.
    pub path: String,
    /// Whether this node is a replica rather than the origin.
    pub is_external: bool,
    /// The path of the packaged bundle artifact; empty while none
    /// has been fetched.
    pub bundle: String,
}

impl Repo {
    /// A freshly registered local repository: not a replica, no
    /// bundle yet.
    pub fn new(repo_id: String, p2p_description: P2PDescription, path: String) -> (r: Repo)
        ensures
            r.repo_id == repo_id,
            r.p2p_description == p2p_description,
            r.path == path,
            r.is_external == false,
            r.bundle@ == Seq::<char>::empty(),
    {
        Repo { repo_id, p2p_description, path, is_external: false, bundle: String::new() }
    }
}

} // verus!
