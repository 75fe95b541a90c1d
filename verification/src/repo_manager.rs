//! The repository manager: the local directory from repository id
//! to repository, with a secondary index from working-copy path to
//! repository id. Registration refuses duplicate ids; removal keeps
//! the two indexes in step.

use vstd::prelude::*;

use crate::assoc::as_map;
use crate::assoc::has_key;
use crate::assoc::index_of_key;
use crate::assoc::keys_unique;
use crate::assoc::lemma_empty;
use crate::assoc::lemma_entry_is_value;
use crate::assoc::lemma_push;
use crate::assoc::lemma_remove;
use crate::assoc::lemma_unique_len;
use crate::assoc::lemma_update;
use crate::assoc::vec_index_mut;
use crate::repo::Repo;
use crate::util::str_eq;

verus! {

/// The key a repository is filed under: its id text.
pub open spec fn repo_key() -> spec_fn(Repo) -> Seq<char> {
    |r: Repo| r.repo_id@
}

/// The key a path entry is filed under: the path text of the
/// `(path, repo_id)` pair.
pub open spec fn path_key() -> spec_fn((String, String)) -> Seq<char> {
    |p: (String, String)| p.0@
}

/// The repository directory.
pub struct RepoManager {
    repos: Vec<Repo>,
    path_to_repo_id: Vec<(String, String)>,
}

impl View for RepoManager {
    type V = Map<Seq<char>, Repo>;

    /// The directory read as a map from repository id to repository.
    closed spec fn view(&self) -> Map<Seq<char>, Repo> {
        as_map(self.repos@, repo_key())
    }
}

impl RepoManager {
    /// The secondary index read as a map from path text to the
    /// `(path, repo_id)` pair filed there.
    pub closed spec fn spec_paths(&self) -> Map<Seq<char>, (String, String)> {
        as_map(self.path_to_repo_id@, path_key())
    }

    /// Both indexes are filed under pairwise-distinct keys.
    pub closed spec fn wf(&self) -> bool {
        &&& keys_unique(self.repos@, repo_key())
        &&& keys_unique(self.path_to_repo_id@, path_key())
    }

    /// An empty directory.
    pub fn new() -> (r: RepoManager)
        ensures
            r.wf(),
            r@ =~= Map::<Seq<char>, Repo>::empty(),
            r.spec_paths() =~= Map::<Seq<char>, (String, String)>::empty(),
    {
        proof {
            lemma_empty::<Repo, Seq<char>>(repo_key());
            lemma_empty::<(String, String), Seq<char>>(path_key());
        }
        RepoManager { repos: Vec::new(), path_to_repo_id: Vec::new() }
    }

    /// File `repo` under its id and its path. Fails, changing
    /// nothing, exactly when a repository with the same id is
    /// already filed; a pair already filed under the same path is
    /// overwritten.
    pub fn register_repo(&mut self, repo: Repo) -> (r: Result<(), String>)
        requires
            old(self).wf(),
        ensures
            final(self).wf(),
            r is Ok <==> !old(self)@.dom().contains(repo.repo_id@),
            r is Ok ==> final(self)@ =~= old(self)@.insert(repo.repo_id@, repo),
            r is Ok ==> final(self).spec_paths().dom() =~= old(self).spec_paths().dom().insert(
                repo.path@,
            ),
            r is Ok ==> final(self).spec_paths()[repo.path@].0@ == repo.path@,
            r is Ok ==> final(self).spec_paths()[repo.path@].1@ == repo.repo_id@,
            r is Ok ==> forall|k: Seq<char>|
                k != repo.path@ && old(self).spec_paths().dom().contains(k)
                    ==> final(self).spec_paths()[k] == #[trigger] old(self).spec_paths()[k],
            r matches Err(msg) ==> msg@ == "Repository "@ + repo.repo_id@ + " already exists"@
                && *final(self) == *old(self),
    {
        let n = self.repos.len();
        let mut i: usize = 0;
        while i < n
            invariant
                i <= n,
                n == self.repos@.len(),
                self == old(self),
                self.wf(),
                forall|j: int| 0 <= j < i ==> self.repos@[j].repo_id@ != repo.repo_id@,
            decreases n - i,
        {
            if str_eq(self.repos[i].repo_id.as_str(), repo.repo_id.as_str()) {
                let mut msg = String::from_str("Repository ");
                msg.append(repo.repo_id.as_str());
                msg.append(" already exists");
                proof {
                    lemma_entry_is_value(self.repos@, repo_key(), i as int);
                }
                return Err(msg);
            }
            i = i + 1;
        }
        proof {
            if self@.dom().contains(repo.repo_id@) {
                let j = index_of_key(self.repos@, repo_key(), repo.repo_id@);
                assert(self.repos@[j].repo_id@ == repo.repo_id@);
            }
        }
        let path = repo.path.clone();
        let repo_id = repo.repo_id.clone();
        proof {
            lemma_push(self.repos@, repo_key(), repo);
        }
        self.repos.push(repo);
        self.set_path_entry(path, repo_id);
        Ok(())
    }

    /// File the pair `(path, repo_id)` in the secondary index,
    /// overwriting whatever pair the path already carried.
    fn set_path_entry(&mut self, path: String, repo_id: String)
        requires
            keys_unique(old(self).path_to_repo_id@, path_key()),
        ensures
            final(self).repos == old(self).repos,
            keys_unique(final(self).path_to_repo_id@, path_key()),
            final(self).spec_paths() =~= old(self).spec_paths().insert(
                path@,
                (path, repo_id),
            ),
    {
        let n = self.path_to_repo_id.len();
        let mut i: usize = 0;
        while i < n
            invariant
                i <= n,
                n == self.path_to_repo_id@.len(),
                self == old(self),
                keys_unique(self.path_to_repo_id@, path_key()),
                forall|j: int| 0 <= j < i ==> self.path_to_repo_id@[j].0@ != path@,
            decreases n - i,
        {
            if str_eq(self.path_to_repo_id[i].0.as_str(), path.as_str()) {
                proof {
                    lemma_update(
                        self.path_to_repo_id@,
                        path_key(),
                        i as int,
                        (path, repo_id),
                    );
                }
                self.path_to_repo_id.set(i, (path, repo_id));
                return;
            }
            i = i + 1;
        }
        proof {
            if has_key(self.path_to_repo_id@, path_key(), path@) {
                let j = index_of_key(self.path_to_repo_id@, path_key(), path@);
                assert(self.path_to_repo_id@[j].0@ == path@);
            }
            lemma_push(self.path_to_repo_id@, path_key(), (path, repo_id));
        }
        self.path_to_repo_id.push((path, repo_id));
    }

    /// The repository filed under `repo_id`, when there is one.
    pub fn get_repo(&self, repo_id: &str) -> (r: Option<&Repo>)
        requires
            self.wf(),
        ensures
            self@.dom().contains(repo_id@) ==> (r matches Some(e) && *e == self@[repo_id@]),
            !self@.dom().contains(repo_id@) ==> r is None,
    {
        let n = self.repos.len();
        let mut i: usize = 0;
        while i < n
            invariant
                i <= n,
                n == self.repos@.len(),
                self.wf(),
                forall|j: int| 0 <= j < i ==> self.repos@[j].repo_id@ != repo_id@,
            decreases n - i,
        {
            if str_eq(self.repos[i].repo_id.as_str(), repo_id) {
                proof {
                    lemma_entry_is_value(self.repos@, repo_key(), i as int);
                }
                return Some(&self.repos[i]);
            }
            i = i + 1;
        }
        proof {
            if self@.dom().contains(repo_id@) {
                let j = index_of_key(self.repos@, repo_key(), repo_id@);
                assert(self.repos@[j].repo_id@ == repo_id@);
            }
        }
        None
    }

    /// A mutable borrow of the repository filed under `repo_id`,
    /// when there is one. As long as the borrower keeps the id
    /// field, the directory afterwards reads as the old one with
    /// that entry replaced by the borrow's final value.
    pub fn get_repo_mut(&mut self, repo_id: &str) -> (r: Option<&mut Repo>)
        requires
            old(self).wf(),
        ensures
            old(self)@.dom().contains(repo_id@) <==> r is Some,
            r matches Some(e) ==> {
                &&& *e == old(self)@[repo_id@]
                &&& final(self).spec_paths() == old(self).spec_paths()
                &&& (final(e).repo_id@ == repo_id@ ==> final(self).wf() && final(self)@
                    =~= old(self)@.insert(repo_id@, *final(e)))
            },
            r is None ==> *final(self) == *old(self),
    {
        let n = self.repos.len();
        let mut i: usize = 0;
        while i < n
            invariant
                i <= n,
                n == self.repos@.len(),
                self == old(self),
                self.wf(),
                forall|j: int| 0 <= j < i ==> self.repos@[j].repo_id@ != repo_id@,
            decreases n - i,
        {
            if str_eq(self.repos[i].repo_id.as_str(), repo_id) {
                proof {
                    lemma_entry_is_value(self.repos@, repo_key(), i as int);
                    assert forall|v: Repo| v.repo_id@ == repo_id@ implies keys_unique(
                        old(self).repos@.update(i as int, v),
                        repo_key(),
                    ) && as_map(old(self).repos@.update(i as int, v), repo_key()) == as_map(
                        old(self).repos@,
                        repo_key(),
                    ).insert(repo_id@, v) by {
                        lemma_update(old(self).repos@, repo_key(), i as int, v);
                    }
                }
                let e = vec_index_mut(&mut self.repos, i);
                return Some(e);
            }
            i = i + 1;
        }
        proof {
            if self@.dom().contains(repo_id@) {
                let j = index_of_key(self.repos@, repo_key(), repo_id@);
                assert(self.repos@[j].repo_id@ == repo_id@);
            }
        }
        None
    }

    /// The repository id filed under `path`, when there is one.
    pub fn get_repo_id_by_path(&self, path: &str) -> (r: Option<&String>)
        requires
            self.wf(),
        ensures
            self.spec_paths().dom().contains(path@) ==> (r matches Some(s) && s@ == self.spec_paths()[
                path@
            ].1@),
            !self.spec_paths().dom().contains(path@) ==> r is None,
    {
        let n = self.path_to_repo_id.len();
        let mut i: usize = 0;
        while i < n
            invariant
                i <= n,
                n == self.path_to_repo_id@.len(),
                self.wf(),
                forall|j: int| 0 <= j < i ==> self.path_to_repo_id@[j].0@ != path@,
            decreases n - i,
        {
            if str_eq(self.path_to_repo_id[i].0.as_str(), path) {
                proof {
                    lemma_entry_is_value(self.path_to_repo_id@, path_key(), i as int);
                }
                return Some(&self.path_to_repo_id[i].1);
            }
            i = i + 1;
        }
        proof {
            if self.spec_paths().dom().contains(path@) {
                let j = index_of_key(self.path_to_repo_id@, path_key(), path@);
                assert(self.path_to_repo_id@[j].0@ == path@);
            }
        }
        None
    }

    /// Unfile and return the repository filed under `repo_id`, also
    /// unfiling whatever pair its path carries in the secondary
    /// index; `None`, changing nothing, when no such repository is
    /// filed.
    pub fn remove_repo(&mut self, repo_id: &str) -> (r: Option<Repo>)
        requires
            old(self).wf(),
        ensures
            final(self).wf(),
            !old(self)@.dom().contains(repo_id@) ==> r is None && *final(self) == *old(self),
            old(self)@.dom().contains(repo_id@) ==> {
                &&& r == Some(old(self)@[repo_id@])
                &&& final(self)@ =~= old(self)@.remove(repo_id@)
                &&& final(self).spec_paths() =~= old(self).spec_paths().remove(
                    old(self)@[repo_id@].path@,
                )
            },
    {
        let n = self.repos.len();
        let mut i: usize = 0;
        while i < n
            invariant
                i <= n,
                n == self.repos@.len(),
                self == old(self),
                self.wf(),
                forall|j: int| 0 <= j < i ==> self.repos@[j].repo_id@ != repo_id@,
            decreases n - i,
        {
            if str_eq(self.repos[i].repo_id.as_str(), repo_id) {
                proof {
                    lemma_entry_is_value(self.repos@, repo_key(), i as int);
                    lemma_remove(self.repos@, repo_key(), i as int);
                }
                let repo = self.repos.remove(i);
                self.remove_path_entry(repo.path.as_str());
                return Some(repo);
            }
            i = i + 1;
        }
        proof {
            if self@.dom().contains(repo_id@) {
                let j = index_of_key(self.repos@, repo_key(), repo_id@);
                assert(self.repos@[j].repo_id@ == repo_id@);
            }
        }
        None
    }

    /// Unfile the pair the secondary index carries for `path`, if
    /// any.
    fn remove_path_entry(&mut self, path: &str)
        requires
            keys_unique(old(self).path_to_repo_id@, path_key()),
        ensures
            final(self).repos == old(self).repos,
            keys_unique(final(self).path_to_repo_id@, path_key()),
            final(self).spec_paths() =~= old(self).spec_paths().remove(path@),
    {
        let n = self.path_to_repo_id.len();
        let mut i: usize = 0;
        while i < n
            invariant
                i <= n,
                n == self.path_to_repo_id@.len(),
                self == old(self),
                keys_unique(self.path_to_repo_id@, path_key()),
                forall|j: int| 0 <= j < i ==> self.path_to_repo_id@[j].0@ != path@,
            decreases n - i,
        {
            if str_eq(self.path_to_repo_id[i].0.as_str(), path) {
                proof {
                    lemma_remove(self.path_to_repo_id@, path_key(), i as int);
                }
                self.path_to_repo_id.remove(i);
                return;
            }
            i = i + 1;
        }
        proof {
            if self.spec_paths().dom().contains(path@) {
                let j = index_of_key(self.path_to_repo_id@, path_key(), path@);
                assert(self.path_to_repo_id@[j].0@ == path@);
            }
            assert(self.spec_paths() =~= old(self).spec_paths().remove(path@));
        }
    }

    /// Borrows of all filed repositories, in no promised order.
    pub fn list_repos(&self) -> (r: Vec<&Repo>)
        requires
            self.wf(),
        ensures
            r@.len() == self@.dom().len(),
            forall|i: int|
                0 <= i < r@.len() ==> self@.dom().contains((#[trigger] r@[i]).repo_id@)
                    && self@[r@[i].repo_id@] == *r@[i],
    {
        proof {
            lemma_unique_len(self.repos@, repo_key());
        }
        let n = self.repos.len();
        let mut out: Vec<&Repo> = Vec::new();
        let mut i: usize = 0;
        while i < n
            invariant
                i <= n,
                n == self.repos@.len(),
                self.wf(),
                out@.len() == i,
                forall|j: int|
                    0 <= j < i ==> self@.dom().contains((#[trigger] out@[j]).repo_id@)
                        && self@[out@[j].repo_id@] == *out@[j],
            decreases n - i,
        {
            proof {
                lemma_entry_is_value(self.repos@, repo_key(), i as int);
            }
            out.push(&self.repos[i]);
            i = i + 1;
        }
        out
    }

    /// How many repositories are filed.
    pub fn repo_count(&self) -> (r: usize)
        requires
            self.wf(),
        ensures
            r == self@.dom().len(),
    {
        proof {
            lemma_unique_len(self.repos@, repo_key());
        }
        self.repos.len()
    }
}

impl Default for RepoManager {
    /// The default directory is empty.
    fn default() -> (r: Self)
        ensures
            r.wf(),
            r@ =~= Map::<Seq<char>, Repo>::empty(),
    {
        RepoManager::new()
    }
}

} // verus!
