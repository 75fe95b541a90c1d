//! Self-certifying node identifiers. A node id is the text
//! `did:key:` followed by the multibase base58btc encoding of a
//! payload whose first byte is the ed25519 key-type tag `0xed` and
//! whose remaining 32 bytes are the raw verifying key. The public
//! key can be recovered from the text alone, with no registry
//! lookup, and deriving then recovering gives the key back.

use vstd::prelude::*;

use crate::keypair::KeyPair;
use crate::keypair::valid_verifying_key;

verus! {

/// The text that multibase base58btc encoding produces for `data`:
/// the code character `'z'` followed by the base58 digits.
pub uninterp spec fn b58btc_encoding(data: Seq<u8>) -> Seq<char>;

/// What multibase decoding yields for `s`: whether the leading code
/// character names base58btc, and the decoded bytes; `None` when `s`
/// is not valid multibase text.
pub uninterp spec fn multibase_decoded(s: Seq<char>) -> Option<(bool, Seq<u8>)>;

/// Relies on multibase::encode with Base::Base58Btc: the encoding is
/// a function of the bytes alone, starts with the code character
/// `'z'`, and multibase::decode inverts it.
#[verifier::external_body]
fn multibase_encode_b58(data: &Vec<u8>) -> (r: String)
    ensures
        r@ == b58btc_encoding(data@),
        r@.len() >= 1 && r@[0] == 'z',
        multibase_decoded(r@) == Some((true, data@)),
{
    multibase::encode(multibase::Base::Base58Btc, data.as_slice())
}

/// Relies on multibase::decode: the decoded base and bytes are a
/// function of the text alone. The boolean reports whether the base
/// is base58btc.
#[verifier::external_body]
fn multibase_decode(s: &str) -> (r: Option<(bool, Vec<u8>)>)
    ensures
        match r {
            Some(p) => multibase_decoded(s@) == Some((p.0, p.1@)),
            None => multibase_decoded(s@) is None,
        },
{
    match multibase::decode(s) {
        Ok((base, data)) => Some((matches!(base, multibase::Base::Base58Btc), data)),
        Err(_) => None,
    }
}

/// The fixed identifier prefix.
pub open spec fn did_key_prefix() -> Seq<char> {
    "did:key:"@
}

/// The fixed key-type tag that opens the encoded payload.
pub open spec fn key_type_tag() -> u8 {
    0xed
}

/// Whether `s` starts with the characters of `p`.
pub open spec fn spec_has_prefix(s: Seq<char>, p: Seq<char>) -> bool {
    s.len() >= p.len() && s.subrange(0, p.len() as int) == p
}

/// Why an identifier string was rejected.
#[derive(Clone, Copy, Debug, PartialEq, Eq, Structural)]
pub enum IdentityError {
    /// The text does not start with `did:key:`.
    InvalidPrefix,
    /// Nothing follows the prefix.
    EmptyEncoded,
    /// The remainder is not valid multibase text.
    DecodeFailed,
    /// The multibase base is not base58btc.
    InvalidBase,
    /// The decoded payload is empty or does not open with the
    /// key-type tag.
    InvalidKeyTag,
    /// The decoded payload is not tag plus exactly 32 key bytes.
    InvalidKeyLength,
    /// The 32 key bytes are not a valid verifying key.
    InvalidVerifyingKey,
}

/// The outcome of parsing an identifier string: the checks of
/// `NodeId::from_string`, in order.
pub open spec fn spec_parse_outcome(s: Seq<char>) -> Result<(), IdentityError> {
    if !spec_has_prefix(s, did_key_prefix()) {
        Err(IdentityError::InvalidPrefix)
    } else if s.len() == did_key_prefix().len() {
        Err(IdentityError::EmptyEncoded)
    } else {
        match multibase_decoded(s.subrange(did_key_prefix().len() as int, s.len() as int)) {
            None => Err(IdentityError::DecodeFailed),
            Some((is_b58, data)) => {
                if !is_b58 {
                    Err(IdentityError::InvalidBase)
                } else if data.len() == 0 || data[0] != key_type_tag() {
                    Err(IdentityError::InvalidKeyTag)
                } else {
                    Ok(())
                }
            },
        }
    }
}

/// The public key that an identifier string names: the checks of
/// `NodeId::to_keypair`, in order, then the 32 bytes after the tag.
pub open spec fn spec_public_key_of(s: Seq<char>) -> Result<Seq<u8>, IdentityError> {
    if !spec_has_prefix(s, did_key_prefix()) {
        Err(IdentityError::InvalidPrefix)
    } else {
        match multibase_decoded(s.subrange(did_key_prefix().len() as int, s.len() as int)) {
            None => Err(IdentityError::DecodeFailed),
            Some((is_b58, data)) => {
                if !is_b58 {
                    Err(IdentityError::InvalidBase)
                } else if data.len() == 0 || data[0] != key_type_tag() {
                    Err(IdentityError::InvalidKeyTag)
                } else if data.len() != 33 {
                    Err(IdentityError::InvalidKeyLength)
                } else {
                    Ok(data.subrange(1, 33))
                }
            },
        }
    }
}

/// The identifier text derived from verifying-key bytes `vk`.
pub open spec fn spec_node_id_text(vk: Seq<u8>) -> Seq<char> {
    did_key_prefix() + b58btc_encoding(seq![key_type_tag()] + vk)
}

/// A self-certifying node identifier in its textual form.
#[derive(Debug, Hash, PartialEq, Eq)]
pub struct NodeId(pub String);

impl Clone for NodeId {
    /// A clone is the same identifier.
    fn clone(&self) -> (r: Self)
        ensures
            r == *self,
    {
        NodeId(self.0.clone())
    }
}

impl View for NodeId {
    type V = Seq<char>;

    open spec fn view(&self) -> Seq<char> {
        self.0@
    }
}

/// Whether `s` starts with the characters of `prefix`.
fn starts_with_str(s: &str, prefix: &str) -> (r: bool)
    ensures
        r == spec_has_prefix(s@, prefix@),
{
    let n = s.unicode_len();
    let p = prefix.unicode_len();
    if n < p {
        return false;
    }
    let mut i: usize = 0;
    while i < p
        invariant
            0 <= i <= p,
            p <= n,
            n == s@.len(),
            p == prefix@.len(),
            forall|j: int| 0 <= j < i ==> s@[j] == prefix@[j],
        decreases p - i,
    {
        if s.get_char(i) != prefix.get_char(i) {
            proof {
                assert(s@.subrange(0, p as int)[i as int] == s@[i as int]);
            }
            return false;
        }
        i = i + 1;
    }
    proof {
        assert(s@.subrange(0, p as int) =~= prefix@);
    }
    true
}

impl NodeId {
    /// Derive the identifier of a key pair: tag byte, then the 32 key
    /// bytes, base58btc-encoded behind the fixed prefix. Recovering
    /// the public key from the result gives the pair's key back, and
    /// parsing the result succeeds.
    pub fn from_keypair(keypair: &KeyPair) -> (r: NodeId)
        ensures
            r@ == spec_node_id_text(keypair.spec_verifying_key()),
            spec_public_key_of(r@) == Ok::<Seq<u8>, IdentityError>(keypair.spec_verifying_key()),
            spec_parse_outcome(r@) is Ok,
            r@.len() > did_key_prefix().len(),
            r@[did_key_prefix().len() as int] == 'z',
    {
        let vkb = keypair.verifying_key_bytes();
        let mut payload: Vec<u8> = Vec::new();
        payload.push(0xed);
        let mut i: usize = 0;
        while i < 32
            invariant
                0 <= i <= 32,
                vkb@.len() == 32,
                payload@ == seq![key_type_tag()] + vkb@.subrange(0, i as int),
            decreases 32 - i,
        {
            payload.push(vkb[i]);
            proof {
                assert(seq![key_type_tag()] + vkb@.subrange(0, i as int) + seq![vkb@[i as int]]
                    =~= seq![key_type_tag()] + vkb@.subrange(0, i as int + 1));
            }
            i = i + 1;
        }
        proof {
            assert(payload@ =~= seq![key_type_tag()] + vkb@);
        }
        let encoded = multibase_encode_b58(&payload);
        let mut text = String::from_str("did:key:");
        text.append(encoded.as_str());
        proof {
            reveal_strlit("did:key:");
            assert(text@.subrange(0, 8) =~= did_key_prefix());
            assert(text@.subrange(8, text@.len() as int) =~= encoded@);
            assert((seq![key_type_tag()] + vkb@).subrange(1, 33) =~= vkb@);
        }
        NodeId(text)
    }

    /// Parse an identifier string, accepting exactly the texts with
    /// the fixed prefix, a non-empty remainder that decodes as
    /// base58btc multibase, and a payload opening with the key-type
    /// tag. On success the identifier keeps the given text.
    pub fn from_string(node_id: &str) -> (r: Result<NodeId, IdentityError>)
        ensures
            r matches Ok(id) ==> id@ == node_id@,
            r is Ok <==> spec_parse_outcome(node_id@) is Ok,
            r matches Err(e) ==> spec_parse_outcome(node_id@) == Err::<(), IdentityError>(e),
    {
        let prefix = "did:key:";
        proof {
            reveal_strlit("did:key:");
        }
        if !starts_with_str(node_id, prefix) {
            return Err(IdentityError::InvalidPrefix);
        }
        let n = node_id.unicode_len();
        let p = prefix.unicode_len();
        if n == p {
            return Err(IdentityError::EmptyEncoded);
        }
        let encoded = node_id.substring_char(p, n);
        match multibase_decode(encoded) {
            None => Err(IdentityError::DecodeFailed),
            Some(pair) => {
                let is_b58 = pair.0;
                let data = pair.1;
                if !is_b58 {
                    Err(IdentityError::InvalidBase)
                } else if data.len() == 0 {
                    Err(IdentityError::InvalidKeyTag)
                } else if data[0] != 0xed {
                    Err(IdentityError::InvalidKeyTag)
                } else {
                    Ok(NodeId(String::from_str(node_id)))
                }
            },
        }
    }

    /// Recover the public key that this identifier names and wrap it
    /// as a verify-only key pair. Beyond the parsing checks, the
    /// payload must be the tag plus exactly 32 bytes, and those bytes
    /// must be a valid verifying key.
    pub fn to_keypair(&self) -> (r: Result<KeyPair, IdentityError>)
        ensures
            r matches Ok(kp) ==> {
                &&& spec_public_key_of(self@) == Ok::<Seq<u8>, IdentityError>(
                    kp.spec_verifying_key(),
                )
                &&& !kp.has_signing_key()
            },
            spec_public_key_of(self@) matches Ok(vk) ==> {
                &&& (r is Ok <==> valid_verifying_key(vk))
                &&& (r is Err ==> r == Err::<KeyPair, IdentityError>(
                    IdentityError::InvalidVerifyingKey,
                ))
            },
            spec_public_key_of(self@) matches Err(e) ==> r == Err::<KeyPair, IdentityError>(e),
    {
        let s = self.0.as_str();
        let prefix = "did:key:";
        proof {
            reveal_strlit("did:key:");
        }
        if !starts_with_str(s, prefix) {
            return Err(IdentityError::InvalidPrefix);
        }
        let n = s.unicode_len();
        let p = prefix.unicode_len();
        let encoded = s.substring_char(p, n);
        match multibase_decode(encoded) {
            None => Err(IdentityError::DecodeFailed),
            Some(pair) => {
                let is_b58 = pair.0;
                let data = pair.1;
                if !is_b58 {
                    Err(IdentityError::InvalidBase)
                } else if data.len() == 0 {
                    Err(IdentityError::InvalidKeyTag)
                } else if data[0] != 0xed {
                    Err(IdentityError::InvalidKeyTag)
                } else if data.len() != 33 {
                    Err(IdentityError::InvalidKeyLength)
                } else {
                    let mut vk_bytes: [u8; 32] = [0u8; 32];
                    let mut i: usize = 0;
                    while i < 32
                        invariant
                            0 <= i <= 32,
                            data@.len() == 33,
                            forall|j: int| 0 <= j < i ==> vk_bytes@[j] == data@[j + 1],
                        decreases 32 - i,
                    {
                        vk_bytes[i] = data[i + 1];
                        i = i + 1;
                    }
                    proof {
                        assert(vk_bytes@ =~= data@.subrange(1, 33));
                    }
                    match KeyPair::from_verifying_key_bytes(vk_bytes) {
                        Ok(kp) => Ok(kp),
                        Err(_) => Err(IdentityError::InvalidVerifyingKey),
                    }
                }
            },
        }
    }

    /// The identifier text.
    pub fn as_str(&self) -> (r: &str)
        ensures
            r@ == self@,
    {
        self.0.as_str()
    }

    /// The identifier text as bytes.
    pub fn as_bytes(&self) -> (r: &[u8])
        ensures
            self.0.is_ascii() ==> r@ =~= Seq::new(self@.len(), |i: int| self@[i] as u8),
    {
        let s = self.0.as_str();
        proof {
            vstd::string::is_ascii_spec_bytes(s);
        }
        s.as_bytes()
    }

    /// The identifier text as an owned byte vector.
    pub fn as_vec(&self) -> (r: Vec<u8>)
        ensures
            self.0.is_ascii() ==> r@ =~= Seq::new(self@.len(), |i: int| self@[i] as u8),
    {
        let s = self.0.as_str();
        proof {
            vstd::string::is_ascii_spec_bytes(s);
        }
        s.as_bytes_vec()
    }
}

/// Returned when `NodeId` is parsed through the standard `FromStr`
/// trait; the detailed reason is available from
/// `NodeId::from_string`.
#[derive(Debug, PartialEq, Eq)]
pub struct ParseNodeIdError;

impl core::str::FromStr for NodeId {
    type Err = ParseNodeIdError;

    fn from_str(s: &str) -> Result<Self, Self::Err> {
        match NodeId::from_string(s) {
            Ok(id) => Ok(id),
            Err(_) => Err(ParseNodeIdError {}),
        }
    }
}

} // verus!
