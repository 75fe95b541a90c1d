//! Small helpers over identifier strings: both repository ids and node
//! ids are colon-separated, and callers often want only the last
//! segment (for display and for file names).

use vstd::prelude::*;

verus! {

/// The characters after the last `':'` of `s`; all of `s` when it has
/// no `':'`; empty when `s` ends in `':'`.
pub open spec fn last_segment(s: Seq<char>) -> Seq<char>
    decreases s.len(),
{
    if s.len() == 0 {
        Seq::<char>::empty()
    } else if s[s.len() - 1] == ':' {
        Seq::<char>::empty()
    } else {
        last_segment(s.drop_last()).push(s[s.len() - 1])
    }
}

proof fn lemma_last_segment_from(s: Seq<char>, i: int)
    requires
        0 <= i <= s.len(),
        forall|j: int| i <= j < s.len() ==> s[j] != ':',
        i == 0 || s[i - 1] == ':',
    ensures
        last_segment(s) =~= s.subrange(i, s.len() as int),
    decreases s.len(),
{
    if i == s.len() {
        // the suffix is empty: either the string is empty or it ends in ':'
    } else {
        lemma_last_segment_from(s.drop_last(), i);
    }
}

/// Whether two strings hold the same characters.
pub fn str_eq(a: &str, b: &str) -> (r: bool)
    ensures
        r == (a@ == b@),
{
    let n = a.unicode_len();
    if n != b.unicode_len() {
        return false;
    }
    let mut i: usize = 0;
    while i < n
        invariant
            0 <= i <= n,
            n == a@.len(),
            n == b@.len(),
            forall|j: int| 0 <= j < i ==> a@[j] == b@[j],
        decreases n - i,
    {
        if a.get_char(i) != b.get_char(i) {
            return false;
        }
        i = i + 1;
    }
    proof {
        assert(a@ =~= b@);
    }
    true
}

/// Relies on chrono::Local::now: the wall clock as whole seconds
/// since the epoch, about which nothing is promised.
#[verifier::external_body]
pub fn timestamp_now() -> (r: i64) {
    chrono::Local::now().timestamp()
}

/// The last colon-separated segment of `s`: what follows the final
/// `':'`, or `s` itself when it has none.
fn last_part(s: &str) -> (r: String)
    ensures
        r@ == last_segment(s@),
{
    let n = s.unicode_len();
    let mut i = n;
    while i > 0
        invariant
            0 <= i <= n,
            n == s@.len(),
            forall|j: int| i <= j < n ==> s@[j] != ':',
        decreases i,
    {
        if s.get_char(i - 1) == ':' {
            proof {
                lemma_last_segment_from(s@, i as int);
            }
            let suffix = s.substring_char(i, n);
            return String::from_str(suffix);
        }
        i = i - 1;
    }
    proof {
        lemma_last_segment_from(s@, 0);
        assert(s@.subrange(0, s@.len() as int) =~= s@);
    }
    String::from_str(s)
}

/// The last segment of a repository id such as `did:repo:<hash>`.
pub fn get_repo_id_last_part(repo_id: &str) -> (r: String)
    ensures
        r@ == last_segment(repo_id@),
{
    last_part(repo_id)
}

/// The last segment of a node id such as `did:key:<encoded>`.
pub fn get_node_id_last_part(node_id: &str) -> (r: String)
    ensures
        r@ == last_segment(node_id@),
{
    last_part(node_id)
}

} // verus!
