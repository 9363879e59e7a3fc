//! Mutable and immutable items as stored by the DHT (BEP_0044).

use vstd::prelude::*;

use crate::common::Id;
use crate::crypto::{
    ed25519_parse_key, ed25519_parse_signature, ed25519_valid_key, ed25519_verifies,
    ed25519_verify, sha1, sha1_digest,
};
use crate::encoding::{decimal, push_bytes, push_decimal, push_signed_decimal, signed_decimal};

verus! {

/// Largest value (`v` field) a node accepts to store, in bytes.
pub const MAX_VALUE_SIZE: usize = 1000;

/// Largest salt a node accepts for a mutable item, in bytes.
pub const MAX_SALT_SIZE: usize = 64;

/// A mutable item: a value signed by an Ed25519 key with a sequence number
/// and an optional salt.
#[derive(Clone, Debug, PartialEq, Eq)]
pub struct MutableItem {
    target: Id,
    key: [u8; 32],
    value: Vec<u8>,
    seq: i64,
    signature: [u8; 64],
    salt: Option<Vec<u8>>,
}

/// The contents of a [MutableItem] as plain values.
pub struct MutableItemModel {
    pub target: Id,
    pub key: Seq<u8>,
    pub value: Seq<u8>,
    pub seq: i64,
    pub signature: Seq<u8>,
    pub salt: Option<Seq<u8>>,
}

/// The view of an optional byte vector.
pub open spec fn opt_bytes(v: Option<Vec<u8>>) -> Option<Seq<u8>> {
    match v {
        Some(b) => Some(b@),
        None => None,
    }
}

impl View for MutableItem {
    type V = MutableItemModel;

    closed spec fn view(&self) -> MutableItemModel {
        MutableItemModel {
            target: self.target,
            key: self.key@,
            value: self.value@,
            seq: self.seq,
            signature: self.signature@,
            salt: opt_bytes(self.salt),
        }
    }
}

/// Why a mutable item received from the network was rejected.
#[derive(Clone, Copy, Debug, PartialEq, Eq)]
pub enum MutableError {
    /// Invalid mutable item signature
    InvalidMutableSignature,
    /// Invalid mutable item public key
    InvalidMutablePublicKey,
}

/// The bencoded dictionary entries a mutable item's signature covers:
/// `4:salt<len>:<salt>` when there is a salt, then
/// `3:seqi<seq>e1:v<len>:<value>`.
pub open spec fn mutable_signable(seq: i64, value: Seq<u8>, salt: Option<Seq<u8>>) -> Seq<u8> {
    let salt_part = match salt {
        // "4:salt" <len> ":" <salt>
        Some(s) => seq![52u8, 58u8, 115u8, 97u8, 108u8, 116u8] + decimal(s.len()) + seq![58u8] + s,
        None => Seq::<u8>::empty(),
    };
    // "3:seqi" <seq> "e1:v" <len> ":" <value>
    salt_part + seq![51u8, 58u8, 115u8, 101u8, 113u8, 105u8] + signed_decimal(seq as int)
        + seq![101u8, 49u8, 58u8, 118u8] + decimal(value.len()) + seq![58u8] + value
}

/// The error, if any, with which a mutable item received as `key`, `value`,
/// `seq`, `signature` and `salt` is rejected.
pub open spec fn mutable_rejection(key: Seq<u8>, value: Seq<u8>, seq: i64, signature: Seq<u8>, salt: Option<Seq<u8>>) -> Option<MutableError> {
    if !(key.len() == 32 && ed25519_valid_key(key)) {
        Some(MutableError::InvalidMutablePublicKey)
    } else if !(signature.len() == 64 && ed25519_verifies(key, mutable_signable(seq, value, salt), signature)) {
        Some(MutableError::InvalidMutableSignature)
    } else {
        None
    }
}

/// Encodes what a mutable item's signature covers.
pub fn encode_signable(seq: i64, value: &[u8], salt: Option<&[u8]>) -> (signable: Vec<u8>)
    ensures
        signable@ == mutable_signable(seq, value@, match salt { Some(s) => Some(s@), None => None }),
{
    let mut out: Vec<u8> = Vec::new();
    match salt {
        Some(s) => {
            out.push(52u8);
            out.push(58u8);
            out.push(115u8);
            out.push(97u8);
            out.push(108u8);
            out.push(116u8);
            push_decimal(&mut out, s.len() as u64);
            out.push(58u8);
            push_bytes(&mut out, s);
        },
        None => {},
    }
    let ghost prefix = out@;
    out.push(51u8);
    out.push(58u8);
    out.push(115u8);
    out.push(101u8);
    out.push(113u8);
    out.push(105u8);
    push_signed_decimal(&mut out, seq);
    out.push(101u8);
    out.push(49u8);
    out.push(58u8);
    out.push(118u8);
    push_decimal(&mut out, value.len() as u64);
    out.push(58u8);
    push_bytes(&mut out, value);
    let ghost salt_view = match salt { Some(s) => Some(s@), None => None };
    assert(out@ =~= mutable_signable(seq, value@, salt_view));
    out
}

/// Whether `v` is the immutable value stored under `target`: its SHA-1
/// digest is the target.
pub open spec fn immutable_matches(v: Seq<u8>, target: Id) -> bool {
    sha1_digest(v) == target.0@
}

/// Checks that `target` is the SHA-1 digest of the immutable value `v`.
pub fn validate_immutable(v: &[u8], target: Id) -> (valid: bool)
    ensures
        valid == immutable_matches(v@, target),
{
    let digest = sha1(v);
    let mut i: usize = 0;
    while i < 20
        invariant
            i <= 20,
            digest@ == sha1_digest(v@),
            digest@.len() == 20,
            forall|j: int| 0 <= j < i ==> digest@[j] == target.0@[j],
        decreases 20 - i,
    {
        if digest[i] != target.0[i] {
            assert(digest@[i as int] != target.0@[i as int]);
            return false;
        }
        i = i + 1;
    }
    assert(digest@ =~= target.0@);
    true
}

/// The human readable description of a [MutableError].
pub open spec fn mutable_error_text(error: MutableError) -> Seq<char> {
    match error {
        MutableError::InvalidMutableSignature => "Invalid mutable item signature"@,
        MutableError::InvalidMutablePublicKey => "Invalid mutable item public key"@,
    }
}

impl MutableError {
    /// The human readable description of this error.
    pub fn message(&self) -> (text: &'static str)
        ensures
            text@ == mutable_error_text(*self),
    {
        match self {
            MutableError::InvalidMutableSignature => "Invalid mutable item signature",
            MutableError::InvalidMutablePublicKey => "Invalid mutable item public key",
        }
    }
}

impl MutableItem {
    /// Checks a mutable item received from the network: the key must be a
    /// valid Ed25519 public key and the signature must verify over the
    /// item's bencoded `salt`, `seq` and `v`.
    pub fn from_dht_message(target: Id, key: &[u8], v: Vec<u8>, seq: i64, signature: &[u8], salt: Option<Vec<u8>>) -> (result: Result<MutableItem, MutableError>)
        ensures
            match mutable_rejection(key@, v@, seq, signature@, opt_bytes(salt)) {
                Some(e) => result == Err::<MutableItem, MutableError>(e),
                None => result matches Ok(item) && item@ == (MutableItemModel {
                    target,
                    key: key@,
                    value: v@,
                    seq,
                    signature: signature@,
                    salt: opt_bytes(salt),
                }),
            },
    {
        let key = match ed25519_parse_key(key) {
            Ok(k) => k,
            Err(_) => return Err(MutableError::InvalidMutablePublicKey),
        };
        let signature = match ed25519_parse_signature(signature) {
            Ok(s) => s,
            Err(_) => return Err(MutableError::InvalidMutableSignature),
        };
        let signable = match &salt {
            Some(s) => encode_signable(seq, v.as_slice(), Some(s.as_slice())),
            None => encode_signable(seq, v.as_slice(), None),
        };
        match ed25519_verify(&key, signable.as_slice(), &signature) {
            Ok(()) => Ok(MutableItem { target, key, value: v, seq, signature, salt }),
            Err(_) => Err(MutableError::InvalidMutableSignature),
        }
    }

    /// Returns the target this item is stored under.
    pub fn target(&self) -> (target: Id)
        ensures
            target == self@.target,
    {
        self.target
    }

    /// Returns the 32 bytes Ed25519 public key of this item.
    pub fn key(&self) -> (key: &[u8; 32])
        ensures
            key@ == self@.key,
    {
        &self.key
    }

    /// Returns the value of this item.
    pub fn value(&self) -> (value: &[u8])
        ensures
            value@ == self@.value,
    {
        self.value.as_slice()
    }

    /// Returns the sequence number of this item.
    pub fn seq(&self) -> (seq: i64)
        ensures
            seq == self@.seq,
    {
        self.seq
    }

    /// Returns the signature over this item.
    pub fn signature(&self) -> (signature: &[u8; 64])
        ensures
            signature@ == self@.signature,
    {
        &self.signature
    }

    /// Returns the salt of this item, if any.
    pub fn salt(&self) -> (salt: Option<&[u8]>)
        ensures
            match salt {
                Some(s) => self@.salt == Some(s@),
                None => self@.salt is None,
            },
    {
        match &self.salt {
            Some(s) => Some(s.as_slice()),
            None => None,
        }
    }
}

} // verus!
