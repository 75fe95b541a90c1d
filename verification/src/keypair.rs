//! Signing key material. A `KeyPair` holds an optional 32-byte
//! signing (private) half and a mandatory 32-byte verifying (public)
//! half; a pair built from a public key alone can verify but not
//! sign. The ed25519 primitives themselves are called through
//! trusted wrappers whose results are named below.

use vstd::prelude::*;

use ed25519_dalek::Signer;
use ed25519_dalek::Verifier;

verus! {

/// The 32 bytes of the verifying key that ed25519 derives from the
/// signing-key bytes `sk`
/// (`SigningKey::from_bytes(sk).verifying_key().to_bytes()`).
pub uninterp spec fn derived_verifying_key(sk: Seq<u8>) -> Seq<u8>;

/// Whether 32 bytes are a valid ed25519 verifying key, that is,
/// whether `VerifyingKey::from_bytes` accepts them.
pub uninterp spec fn valid_verifying_key(vk: Seq<u8>) -> bool;

/// The 64-byte ed25519 signature of `msg` under signing-key bytes
/// `sk`; ed25519 signing is deterministic (RFC 8032).
pub uninterp spec fn signature_of(sk: Seq<u8>, msg: Seq<u8>) -> Seq<u8>;

/// Whether `VerifyingKey::verify` accepts `sig` as a signature of
/// `msg` under the verifying key `vk` (false when `vk` is not a
/// valid key).
pub uninterp spec fn signature_accepted(vk: Seq<u8>, msg: Seq<u8>, sig: Seq<u8>) -> bool;

/// Relies on ed25519_dalek::SigningKey::generate with the operating
/// system's entropy source. Nothing is promised of the fresh bytes
/// except what holds of every signing key: its derived verifying key
/// is a valid key.
#[verifier::external_body]
fn ed25519_generate() -> (sk: [u8; 32])
    ensures
        valid_verifying_key(derived_verifying_key(sk@)),
{
    let mut rng = rand_core::OsRng;
    ed25519_dalek::SigningKey::generate(&mut rng).to_bytes()
}

/// Relies on ed25519_dalek::SigningKey::verifying_key: the verifying
/// key is a function of the signing-key bytes alone, and is always a
/// valid key (it is a compressed point of the curve).
#[verifier::external_body]
fn ed25519_verifying_key(sk: &[u8; 32]) -> (vk: [u8; 32])
    ensures
        vk@ == derived_verifying_key(sk@),
        valid_verifying_key(vk@),
{
    ed25519_dalek::SigningKey::from_bytes(sk).verifying_key().to_bytes()
}

/// Relies on ed25519_dalek::VerifyingKey::from_bytes: whether the
/// bytes decode to a key is a function of the bytes alone.
#[verifier::external_body]
fn ed25519_check_verifying_key(vk: &[u8; 32]) -> (r: bool)
    ensures
        r == valid_verifying_key(vk@),
{
    ed25519_dalek::VerifyingKey::from_bytes(vk).is_ok()
}

/// Relies on ed25519_dalek::SigningKey::sign: signing is
/// deterministic, the signature is 64 bytes, and it verifies under
/// the verifying key derived from the same signing key.
#[verifier::external_body]
fn ed25519_sign(sk: &[u8; 32], msg: &[u8]) -> (sig: Vec<u8>)
    ensures
        sig@ == signature_of(sk@, msg@),
        sig@.len() == 64,
        signature_accepted(derived_verifying_key(sk@), msg@, sig@),
{
    let key = ed25519_dalek::SigningKey::from_bytes(sk);
    key.sign(msg).to_bytes().to_vec()
}

/// Relies on ed25519_dalek::VerifyingKey::verify: acceptance is a
/// function of key, message and signature bytes alone. Bytes that
/// are not a valid key or not a well-formed signature accept
/// nothing.
#[verifier::external_body]
fn ed25519_verify(vk: &[u8; 32], msg: &[u8], sig: &[u8]) -> (r: bool)
    ensures
        r == signature_accepted(vk@, msg@, sig@),
{
    match ed25519_dalek::VerifyingKey::from_bytes(vk) {
        Ok(key) => match ed25519_dalek::Signature::from_slice(sig) {
            Ok(signature) => key.verify(msg, &signature).is_ok(),
            Err(_) => false,
        },
        Err(_) => false,
    }
}

/// Why an operation on key material was refused.
#[derive(Clone, Copy, Debug, PartialEq, Eq, Structural)]
pub enum KeyError {
    /// The pair holds no private half, so it cannot sign.
    NoSigningKey,
    /// The given bytes are not a valid verifying key.
    InvalidVerifyingKey,
}

/// An ed25519 key pair: an optional signing half and a mandatory
/// verifying half. A pair without the signing half can only verify.
#[derive(Clone, Copy, Debug)]
pub struct KeyPair {
    signing_key: Option<[u8; 32]>,
    verifying_key: [u8; 32],
}

impl KeyPair {
    /// The verifying half is always a valid key, and matches the
    /// signing half whenever one is present.
    #[verifier::type_invariant]
    spec fn wf(self) -> bool {
        &&& valid_verifying_key(self.verifying_key@)
        &&& match self.signing_key {
            Some(sk) => self.verifying_key@ == derived_verifying_key(sk@),
            None => true,
        }
    }

    /// The signing-key bytes, when the pair holds a private half.
    pub closed spec fn spec_signing_key(&self) -> Option<Seq<u8>> {
        match self.signing_key {
            Some(sk) => Some(sk@),
            None => None,
        }
    }

    /// The verifying-key bytes.
    pub closed spec fn spec_verifying_key(&self) -> Seq<u8> {
        self.verifying_key@
    }

    /// Whether the pair can sign.
    pub open spec fn has_signing_key(&self) -> bool {
        self.spec_signing_key() is Some
    }

    /// A fresh random pair, able to sign.
    pub fn generate() -> (r: Result<KeyPair, KeyError>)
        ensures
            r matches Ok(kp) ==> {
                &&& kp.has_signing_key()
                &&& kp.spec_verifying_key() == derived_verifying_key(
                    kp.spec_signing_key()->Some_0,
                )
                &&& valid_verifying_key(kp.spec_verifying_key())
            },
            r is Ok,
    {
        let sk = ed25519_generate();
        let vk = ed25519_verifying_key(&sk);
        Ok(KeyPair { signing_key: Some(sk), verifying_key: vk })
    }

    /// Rebuild a signing pair from exported signing-key bytes. Every
    /// 32-byte string is a signing key, so this never fails.
    pub fn from_signing_key_bytes(bytes: [u8; 32]) -> (r: Result<KeyPair, KeyError>)
        ensures
            r matches Ok(kp) ==> {
                &&& kp.spec_signing_key() == Some(bytes@)
                &&& kp.spec_verifying_key() == derived_verifying_key(bytes@)
                &&& valid_verifying_key(kp.spec_verifying_key())
            },
            r is Ok,
    {
        let vk = ed25519_verifying_key(&bytes);
        Ok(KeyPair { signing_key: Some(bytes), verifying_key: vk })
    }

    /// Rebuild a verify-only pair from exported verifying-key bytes;
    /// fails exactly when the bytes are not a valid key.
    pub fn from_verifying_key_bytes(verifying_key: [u8; 32]) -> (r: Result<KeyPair, KeyError>)
        ensures
            r matches Ok(kp) ==> {
                &&& kp.spec_signing_key() is None
                &&& kp.spec_verifying_key() == verifying_key@
            },
            r is Ok <==> valid_verifying_key(verifying_key@),
            r is Err ==> r == Err::<KeyPair, KeyError>(KeyError::InvalidVerifyingKey),
    {
        if ed25519_check_verifying_key(&verifying_key) {
            Ok(KeyPair { signing_key: None, verifying_key })
        } else {
            Err(KeyError::InvalidVerifyingKey)
        }
    }

    /// Sign `msg` with the private half. Succeeds exactly when the
    /// pair holds one, and the signature then verifies under this
    /// pair's verifying key.
    pub fn sign(&self, msg: &[u8]) -> (r: Result<Vec<u8>, KeyError>)
        ensures
            r is Ok <==> self.has_signing_key(),
            r matches Ok(sig) ==> {
                &&& sig@ == signature_of(self.spec_signing_key()->Some_0, msg@)
                &&& sig@.len() == 64
                &&& signature_accepted(self.spec_verifying_key(), msg@, sig@)
            },
            r is Err ==> r == Err::<Vec<u8>, KeyError>(KeyError::NoSigningKey),
    {
        proof {
            use_type_invariant(&*self);
        }
        match &self.signing_key {
            Some(sk) => Ok(ed25519_sign(sk, msg)),
            None => Err(KeyError::NoSigningKey),
        }
    }

    /// Whether `sig` is a valid signature of `msg` under this pair's
    /// verifying key.
    pub fn verify(&self, msg: &[u8], sig: &[u8]) -> (r: bool)
        ensures
            r == signature_accepted(self.spec_verifying_key(), msg@, sig@),
    {
        ed25519_verify(&self.verifying_key, msg, sig)
    }

    /// The public half as bytes.
    pub fn verifying_key_bytes(&self) -> (r: [u8; 32])
        ensures
            r@ == self.spec_verifying_key(),
            valid_verifying_key(r@),
    {
        proof {
            use_type_invariant(&*self);
        }
        self.verifying_key
    }

    /// The private half as bytes; fails exactly when there is none.
    pub fn signing_key_bytes(&self) -> (r: Result<[u8; 32], KeyError>)
        ensures
            r is Ok <==> self.has_signing_key(),
            r matches Ok(b) ==> self.spec_signing_key() == Some(b@),
            r is Err ==> r == Err::<[u8; 32], KeyError>(KeyError::NoSigningKey),
    {
        match &self.signing_key {
            Some(sk) => Ok(*sk),
            None => Err(KeyError::NoSigningKey),
        }
    }
}

} // verus!
