//! The decision logic of the two periodic reconciliation loops. The
//! host process runs the timers and performs the outside work —
//! listing the registry, reading refs, requesting bundles,
//! persisting snapshots — and hands the results back as plain
//! values; which repositories a tick touches and what it does with
//! each is decided here. A failed step is skipped, never fatal: the
//! next tick is the retry.

use vstd::prelude::*;

use crate::node_id::IdentityError;
use crate::node_id::NodeId;
use crate::node_id::spec_parse_outcome;
use crate::repo::Repo;

verus! {

/// Seconds between two bundle reconciliation ticks.
pub const BUNDLE_SYNC_INTERVAL_SECS: u64 = 30;

/// Seconds between two ref reconciliation ticks.
pub const REPO_CHECK_INTERVAL_SECS: u64 = 60;

/// Whether a bundle tick must request a bundle for `r`: this node
/// is a replica of it and no bundle has been fetched yet.
pub open spec fn spec_needs_bundle_request(r: Repo) -> bool {
    r.is_external && r.bundle@.len() == 0
}

/// Whether a ref tick must check `r`: the repository originates
/// here.
pub open spec fn spec_tracked_by_ref_sync(r: Repo) -> bool {
    !r.is_external
}

/// Whether a bundle tick must request a bundle for `repo`.
pub fn needs_bundle_request(repo: &Repo) -> (r: bool)
    ensures
        r == spec_needs_bundle_request(*repo),
{
    repo.is_external && repo.bundle.as_str().is_empty()
}

/// What a bundle tick does with one repository.
#[derive(Debug)]
pub enum BundleStep {
    /// Leave the repository alone: it originates here, or its
    /// bundle is already fetched (an idempotent no-op).
    Leave,
    /// Ask the repository's creator for a bundle.
    Request(NodeId),
    /// Skip the repository for this tick: its creator field does
    /// not parse as a node identifier. The next tick retries.
    SkipBadCreator(IdentityError),
}

/// The bundle tick's decision for `repo` is `r`: leave it alone
/// unless it is an unfetched replica; then request from the
/// creator, or skip when the creator field does not parse.
pub open spec fn spec_bundle_step(repo: Repo, r: BundleStep) -> bool {
    if !spec_needs_bundle_request(repo) {
        r is Leave
    } else {
        match spec_parse_outcome(repo.p2p_description.creator@) {
            Ok(parsed) => r matches BundleStep::Request(id) && id@
                == repo.p2p_description.creator@,
            Err(e) => r == BundleStep::SkipBadCreator(e),
        }
    }
}

/// The bundle tick's decision for one repository: request exactly
/// when the repository is an unfetched replica and its creator
/// field parses as a node identifier.
pub fn bundle_step_for(repo: &Repo) -> (r: BundleStep)
    ensures
        spec_bundle_step(*repo, r),
{
    if needs_bundle_request(repo) {
        match NodeId::from_string(repo.p2p_description.creator.as_str()) {
            Ok(id) => BundleStep::Request(id),
            Err(e) => BundleStep::SkipBadCreator(e),
        }
    } else {
        BundleStep::Leave
    }
}

/// The predicate the bundle tick filters the registry listing with.
pub open spec fn bundle_request_pred<'a>() -> spec_fn(&'a Repo) -> bool {
    |x: &'a Repo| spec_needs_bundle_request(*x)
}

/// The predicate the ref tick filters the registry listing with.
pub open spec fn ref_sync_pred<'a>() -> spec_fn(&'a Repo) -> bool {
    |x: &'a Repo| spec_tracked_by_ref_sync(*x)
}

/// The repositories a bundle tick requests bundles for, in listing
/// order: exactly the unfetched replicas.
pub fn bundle_sync_candidates<'a>(repos: &Vec<&'a Repo>) -> (r: Vec<&'a Repo>)
    ensures
        r@ == repos@.filter(bundle_request_pred()),
{
    let n = repos.len();
    let mut out: Vec<&'a Repo> = Vec::new();
    let mut i: usize = 0;
    proof {
        assert(repos@.subrange(0, 0) =~= Seq::<&'a Repo>::empty());
        reveal_with_fuel(Seq::filter, 1);
    }
    while i < n
        invariant
            0 <= i <= n,
            n == repos@.len(),
            out@ == repos@.subrange(0, i as int).filter(bundle_request_pred()),
        decreases n - i,
    {
        let ghost prefix = repos@.subrange(0, i as int);
        let ghost next = repos@.subrange(0, i as int + 1);
        proof {
            assert(next.drop_last() =~= prefix);
            assert(next.last() == repos@[i as int]);
            reveal_with_fuel(Seq::filter, 2);
        }
        if needs_bundle_request(repos[i]) {
            out.push(repos[i]);
        }
        i = i + 1;
    }
    proof {
        assert(repos@.subrange(0, n as int) =~= repos@);
    }
    out
}

/// The repositories a ref tick checks for changed refs, in listing
/// order: exactly the ones that originate here.
pub fn ref_sync_candidates<'a>(repos: &Vec<&'a Repo>) -> (r: Vec<&'a Repo>)
    ensures
        r@ == repos@.filter(ref_sync_pred()),
{
    let n = repos.len();
    let mut out: Vec<&'a Repo> = Vec::new();
    let mut i: usize = 0;
    proof {
        assert(repos@.subrange(0, 0) =~= Seq::<&'a Repo>::empty());
        reveal_with_fuel(Seq::filter, 1);
    }
    while i < n
        invariant
            0 <= i <= n,
            n == repos@.len(),
            out@ == repos@.subrange(0, i as int).filter(ref_sync_pred()),
        decreases n - i,
    {
        let ghost prefix = repos@.subrange(0, i as int);
        let ghost next = repos@.subrange(0, i as int + 1);
        proof {
            assert(next.drop_last() =~= prefix);
            assert(next.last() == repos@[i as int]);
            reveal_with_fuel(Seq::filter, 2);
        }
        if !repos[i].is_external {
            out.push(repos[i]);
        }
        i = i + 1;
    }
    proof {
        assert(repos@.subrange(0, n as int) =~= repos@);
    }
    out
}

} // verus!
