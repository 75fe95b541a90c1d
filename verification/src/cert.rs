//! Certificate bootstrap. The host process owns the files and the
//! crypto library; this module owns every decision: which files to
//! delete, when the certificate authority is generated versus
//! reloaded, when the leaf pair is regenerated, what subject fields
//! and alternative names each certificate carries, and how the CA
//! key path is derived from the CA certificate path. A half-written
//! pair is never trusted: if exactly one of its files exists, both
//! are deleted and regenerated.

use vstd::prelude::*;

use crate::util::str_eq;

verus! {

/// Which of the four certificate files exist on disk.
#[derive(Clone, Copy, Debug, PartialEq, Eq, Structural)]
pub struct CertFilesState {
    pub cert_exists: bool,
    pub key_exists: bool,
    pub ca_cert_exists: bool,
    pub ca_key_exists: bool,
}

/// One step of the bootstrap, for the host process to carry out.
#[derive(Clone, Copy, Debug, PartialEq, Eq, Structural)]
pub enum CertAction {
    /// Delete both halves of the leaf pair: exactly one half exists,
    /// and a partial pair is never trusted.
    RemoveLeafPair,
    /// Generate the self-signed CA and persist its certificate and
    /// key, PEM-encoded.
    GenerateCa,
    /// Rebuild the in-memory CA signing context from the persisted
    /// CA key; no file changes.
    LoadCa,
    /// Generate a fresh leaf pair, sign it with the CA, and persist
    /// both halves.
    GenerateLeaf,
}

/// Exactly one half of the leaf pair exists.
pub open spec fn spec_leaf_mismatch(st: CertFilesState) -> bool {
    st.cert_exists != st.key_exists
}

/// Both halves of the leaf pair exist.
pub open spec fn spec_leaf_complete(st: CertFilesState) -> bool {
    st.cert_exists && st.key_exists
}

/// Both halves of the CA pair exist.
pub open spec fn spec_ca_present(st: CertFilesState) -> bool {
    st.ca_cert_exists && st.ca_key_exists
}

/// The bootstrap plan for `st`, in execution order: heal a partial
/// leaf pair, generate the CA once or reload it thereafter, and
/// regenerate the leaf pair unless it was already complete.
pub open spec fn spec_bootstrap_plan(st: CertFilesState) -> Seq<CertAction> {
    (if spec_leaf_mismatch(st) {
        seq![CertAction::RemoveLeafPair]
    } else {
        Seq::<CertAction>::empty()
    }) + (if spec_ca_present(st) {
        seq![CertAction::LoadCa]
    } else {
        seq![CertAction::GenerateCa]
    }) + (if !spec_leaf_complete(st) {
        seq![CertAction::GenerateLeaf]
    } else {
        Seq::<CertAction>::empty()
    })
}

/// What one action leaves on disk.
pub open spec fn spec_apply_action(st: CertFilesState, a: CertAction) -> CertFilesState {
    match a {
        CertAction::RemoveLeafPair => (CertFilesState {
            cert_exists: false,
            key_exists: false,
            ..st
        }),
        CertAction::GenerateCa => (CertFilesState {
            ca_cert_exists: true,
            ca_key_exists: true,
            ..st
        }),
        CertAction::LoadCa => st,
        CertAction::GenerateLeaf => (CertFilesState { cert_exists: true, key_exists: true, ..st }),
    }
}

/// What a run of `actions` leaves on disk.
pub open spec fn spec_apply_plan(st: CertFilesState, actions: Seq<CertAction>) -> CertFilesState
    decreases actions.len(),
{
    if actions.len() == 0 {
        st
    } else {
        spec_apply_plan(spec_apply_action(st, actions[0]), actions.drop_first())
    }
}

/// The bootstrap plan for `st`, as the host process runs it.
pub fn bootstrap_plan(st: CertFilesState) -> (r: Vec<CertAction>)
    ensures
        r@ == spec_bootstrap_plan(st),
{
    let mut plan: Vec<CertAction> = Vec::new();
    if st.cert_exists != st.key_exists {
        plan.push(CertAction::RemoveLeafPair);
    }
    if st.ca_cert_exists && st.ca_key_exists {
        plan.push(CertAction::LoadCa);
    } else {
        plan.push(CertAction::GenerateCa);
    }
    if !(st.cert_exists && st.key_exists) {
        plan.push(CertAction::GenerateLeaf);
    }
    proof {
        assert(plan@ =~= spec_bootstrap_plan(st));
    }
    plan
}

/// Law: when both pairs are fully present, the plan only reloads
/// the CA: no file is deleted, nothing is regenerated, so a second
/// bootstrap run leaves every file byte-identical.
pub proof fn lemma_bootstrap_idempotent(st: CertFilesState)
    requires
        st.cert_exists,
        st.key_exists,
        st.ca_cert_exists,
        st.ca_key_exists,
    ensures
        spec_bootstrap_plan(st) =~= seq![CertAction::LoadCa],
{
}

/// Law: a half-written leaf pair heals itself: when exactly one of
/// the two leaf files exists, the plan first deletes the pair and
/// later regenerates both halves.
pub proof fn lemma_bootstrap_heals_partial_leaf(st: CertFilesState)
    requires
        st.cert_exists != st.key_exists,
    ensures
        spec_bootstrap_plan(st).first() == CertAction::RemoveLeafPair,
        spec_bootstrap_plan(st).last() == CertAction::GenerateLeaf,
{
}

/// Law: one bootstrap run leaves all four files present, and the
/// plan for that state is only the CA reload.
pub proof fn lemma_second_run_regenerates_nothing(st: CertFilesState)
    ensures
        spec_apply_plan(st, spec_bootstrap_plan(st)) == (CertFilesState {
            cert_exists: true,
            key_exists: true,
            ca_cert_exists: true,
            ca_key_exists: true,
        }),
        spec_bootstrap_plan(spec_apply_plan(st, spec_bootstrap_plan(st))) =~= seq![
            CertAction::LoadCa,
        ],
{
    let plan = spec_bootstrap_plan(st);
    let done = CertFilesState {
        cert_exists: true,
        key_exists: true,
        ca_cert_exists: true,
        ca_key_exists: true,
    };
    assert(spec_apply_plan(st, plan) == done) by {
        if spec_leaf_mismatch(st) {
            let st1 = spec_apply_action(st, CertAction::RemoveLeafPair);
            if spec_ca_present(st) {
                assert(plan =~= seq![
                    CertAction::RemoveLeafPair,
                    CertAction::LoadCa,
                    CertAction::GenerateLeaf,
                ]);
                reveal_with_fuel(spec_apply_plan, 4);
            } else {
                assert(plan =~= seq![
                    CertAction::RemoveLeafPair,
                    CertAction::GenerateCa,
                    CertAction::GenerateLeaf,
                ]);
                reveal_with_fuel(spec_apply_plan, 4);
            }
        } else if spec_leaf_complete(st) {
            if spec_ca_present(st) {
                assert(plan =~= seq![CertAction::LoadCa]);
                reveal_with_fuel(spec_apply_plan, 2);
            } else {
                assert(plan =~= seq![CertAction::GenerateCa]);
                reveal_with_fuel(spec_apply_plan, 2);
            }
        } else {
            if spec_ca_present(st) {
                assert(plan =~= seq![CertAction::LoadCa, CertAction::GenerateLeaf]);
                reveal_with_fuel(spec_apply_plan, 3);
            } else {
                assert(plan =~= seq![CertAction::GenerateCa, CertAction::GenerateLeaf]);
                reveal_with_fuel(spec_apply_plan, 3);
            }
        }
    }
    lemma_bootstrap_idempotent(done);
}

/// The occurrences of `.pem` in `s` each replaced by `-key.pem`,
/// scanning left to right without overlap, as `str::replace` does.
pub open spec fn spec_ca_key_path(s: Seq<char>) -> Seq<char>
    decreases s.len(),
{
    if s.len() < 4 {
        s
    } else if s.subrange(0, 4) == ".pem"@ {
        "-key.pem"@ + spec_ca_key_path(s.skip(4))
    } else {
        seq![s[0]] + spec_ca_key_path(s.skip(1))
    }
}

/// The CA key path derived from the CA certificate path: every
/// `.pem` becomes `-key.pem`.
pub fn ca_key_path_for(ca_cert_path: &str) -> (r: String)
    ensures
        r@ == spec_ca_key_path(ca_cert_path@),
{
    proof {
        reveal_strlit(".pem");
        reveal_strlit("-key.pem");
    }
    let n = ca_cert_path.unicode_len();
    let mut out = String::new();
    let mut i: usize = 0;
    proof {
        assert(ca_cert_path@.skip(0) =~= ca_cert_path@);
        assert(out@ + ca_cert_path@ =~= ca_cert_path@);
        assert(out@ + spec_ca_key_path(ca_cert_path@) =~= spec_ca_key_path(ca_cert_path@));
    }
    while i < n
        invariant
            0 <= i <= n,
            n == ca_cert_path@.len(),
            ".pem"@.len() == 4,
            "-key.pem"@.len() == 8,
            out@ + spec_ca_key_path(ca_cert_path@.skip(i as int)) == spec_ca_key_path(
                ca_cert_path@,
            ),
        decreases n - i,
    {
        let ghost rest = ca_cert_path@.skip(i as int);
        if n - i >= 4 && str_eq(ca_cert_path.substring_char(i, i + 4), ".pem") {
            proof {
                assert(rest.subrange(0, 4) =~= ca_cert_path@.subrange(i as int, i as int + 4));
                assert(rest.skip(4) =~= ca_cert_path@.skip(i as int + 4));
            }
            out.append("-key.pem");
            i = i + 4;
        } else {
            proof {
                if rest.len() >= 4 {
                    assert(rest.subrange(0, 4) =~= ca_cert_path@.subrange(
                        i as int,
                        i as int + 4,
                    ));
                    if i + 4 <= n {
                        assert(ca_cert_path@.subrange(i as int, i as int + 4) != ".pem"@);
                    }
                }
                assert(rest.skip(1) =~= ca_cert_path@.skip(i as int + 1));
                assert(seq![rest[0]] =~= ca_cert_path@.subrange(i as int, i as int + 1));
            }
            let c = ca_cert_path.substring_char(i, i + 1);
            out.append(c);
            i = i + 1;
        }
    }
    proof {
        assert(ca_cert_path@.skip(n as int) =~= Seq::<char>::empty());
        assert(out@ =~= out@ + spec_ca_key_path(ca_cert_path@.skip(n as int)));
    }
    out
}

/// The subject fields and role a certificate is generated with.
#[derive(Clone, Debug)]
pub struct CertProfile {
    pub common_name: String,
    pub organization: String,
    pub country: String,
    /// Whether the certificate is a certificate authority with
    /// unconstrained path length.
    pub is_ca: bool,
    /// DNS names and addresses the certificate is valid for.
    pub subject_alt_names: Vec<String>,
}

/// The profile of the self-signed certificate authority: fixed
/// subject fields, CA role, no alternative names. Re-deriving the
/// same subject keeps re-signing deterministic.
pub fn ca_profile() -> (r: CertProfile)
    ensures
        r.common_name@ == "MegaEngine CA"@,
        r.organization@ == "MegaEngine"@,
        r.country@ == "CN"@,
        r.is_ca,
        r.subject_alt_names@ =~= Seq::<String>::empty(),
{
    CertProfile {
        common_name: String::from_str("MegaEngine CA"),
        organization: String::from_str("MegaEngine"),
        country: String::from_str("CN"),
        is_ca: true,
        subject_alt_names: Vec::new(),
    }
}

/// The profile of the leaf certificate: bound to the loopback and
/// wildcard-bind addresses and to `localhost`, not a CA.
pub fn leaf_profile() -> (r: CertProfile)
    ensures
        r.common_name@ == "localhost"@,
        r.organization@ == "MegaEngine"@,
        r.country@ == "CN"@,
        !r.is_ca,
        r.subject_alt_names@.len() == 3,
        r.subject_alt_names@[0]@ == "localhost"@,
        r.subject_alt_names@[1]@ == "127.0.0.1"@,
        r.subject_alt_names@[2]@ == "0.0.0.0"@,
{
    let mut sans: Vec<String> = Vec::new();
    sans.push(String::from_str("localhost"));
    sans.push(String::from_str("127.0.0.1"));
    sans.push(String::from_str("0.0.0.0"));
    CertProfile {
        common_name: String::from_str("localhost"),
        organization: String::from_str("MegaEngine"),
        country: String::from_str("CN"),
        is_ca: false,
        subject_alt_names: sans,
    }
}

} // verus!
