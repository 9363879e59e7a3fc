//! Signed peer announcements: an Ed25519 key, a timestamp and a signature
//! over the announced target and that timestamp.

use ed25519_dalek::SigningKey;

use vstd::prelude::*;

use crate::common::Id;
use crate::crypto::{
    ed25519_parse_key, ed25519_parse_signature, ed25519_public_key, ed25519_public_key_of,
    ed25519_sign, ed25519_signature, ed25519_valid_key, ed25519_verifies, ed25519_verify,
    signing_key_bytes, signing_key_secret, unix_time_micros,
};

verus! {

/// A signed peer announcement.
#[derive(Clone, Copy, Debug, PartialEq, Eq)]
pub struct SignedAnnounce {
    /// ed25519 public key
    key: [u8; 32],
    /// timestamp of the signed announcement
    timestamp: u64,
    /// ed25519 signature
    signature: [u8; 64],
}

/// The contents of a [SignedAnnounce] as plain values.
pub struct AnnounceModel {
    pub key: Seq<u8>,
    pub timestamp: u64,
    pub signature: Seq<u8>,
}

impl View for SignedAnnounce {
    type V = AnnounceModel;

    closed spec fn view(&self) -> AnnounceModel {
        AnnounceModel { key: self.key@, timestamp: self.timestamp, signature: self.signature@ }
    }
}

/// Why an announcement received from the network was rejected.
#[derive(Clone, Copy, Debug, PartialEq, Eq)]
pub enum SignedAnnounceError {
    /// Invalid mutable item signature
    InvalidSignedAnnounceSignature,
    /// Invalid mutable item public key
    InvalidSignedAnnouncePublicKey,
}

/// The human readable description of a [SignedAnnounceError].
pub open spec fn announce_error_text(error: SignedAnnounceError) -> Seq<char> {
    match error {
        SignedAnnounceError::InvalidSignedAnnounceSignature => "Invalid mutable item signature"@,
        SignedAnnounceError::InvalidSignedAnnouncePublicKey => "Invalid mutable item public key"@,
    }
}

impl SignedAnnounceError {
    /// The human readable description of this error.
    pub fn message(&self) -> (text: &'static str)
        ensures
            text@ == announce_error_text(*self),
    {
        match self {
            SignedAnnounceError::InvalidSignedAnnounceSignature => "Invalid mutable item signature",
            SignedAnnounceError::InvalidSignedAnnouncePublicKey => "Invalid mutable item public key",
        }
    }
}

/// Byte `i` (0 is the most significant) of the big-endian encoding of `t`.
pub open spec fn be_byte(t: u64, i: int) -> u8 {
    ((t >> ((8 * (7 - i)) as u64)) & 0xff) as u8
}

/// The 8 byte big-endian encoding of `t`.
pub open spec fn u64_be_bytes(t: u64) -> Seq<u8> {
    Seq::new(8, |i: int| be_byte(t, i))
}

/// What an announcement signs: the 20 target bytes, then the timestamp in
/// big-endian order.
pub open spec fn signable(target: Id, timestamp: u64) -> Seq<u8> {
    target.0@ + u64_be_bytes(timestamp)
}

/// The error, if any, with which an announcement of `key`, `timestamp` and
/// `signature` for `target` is rejected.
pub open spec fn announce_rejection(key: Seq<u8>, target: Id, timestamp: u64, signature: Seq<u8>) -> Option<SignedAnnounceError> {
    if !(key.len() == 32 && ed25519_valid_key(key)) {
        Some(SignedAnnounceError::InvalidSignedAnnouncePublicKey)
    } else if !(signature.len() == 64 && ed25519_verifies(key, signable(target, timestamp), signature)) {
        Some(SignedAnnounceError::InvalidSignedAnnounceSignature)
    } else {
        None
    }
}

/// Distinct targets or timestamps never encode to the same signable bytes,
/// so a signature binds both the target and the timestamp.
pub proof fn lemma_signable_injective(target1: Id, timestamp1: u64, target2: Id, timestamp2: u64)
    requires
        signable(target1, timestamp1) == signable(target2, timestamp2),
    ensures
        target1 == target2,
        timestamp1 == timestamp2,
{
    let s1 = signable(target1, timestamp1);
    let s2 = signable(target2, timestamp2);
    assert(target1.0@ =~= s1.subrange(0, 20));
    assert(target2.0@ =~= s2.subrange(0, 20));
    assert(target1.0@ == target2.0@);
    assert(target1.0 == target2.0);
    assert forall|i: int| 0 <= i < 8 implies be_byte(timestamp1, i) == be_byte(timestamp2, i) by {
        assert(s1[20 + i] == s2[20 + i]);
    }
    let (a, b) = (timestamp1, timestamp2);
    assert(be_byte(a, 0) == be_byte(b, 0));
    assert(be_byte(a, 1) == be_byte(b, 1));
    assert(be_byte(a, 2) == be_byte(b, 2));
    assert(be_byte(a, 3) == be_byte(b, 3));
    assert(be_byte(a, 4) == be_byte(b, 4));
    assert(be_byte(a, 5) == be_byte(b, 5));
    assert(be_byte(a, 6) == be_byte(b, 6));
    assert(be_byte(a, 7) == be_byte(b, 7));
    assert(a == b) by (bit_vector)
        requires
            ((a >> 56u64) & 0xff) as u8 == ((b >> 56u64) & 0xff) as u8,
            ((a >> 48u64) & 0xff) as u8 == ((b >> 48u64) & 0xff) as u8,
            ((a >> 40u64) & 0xff) as u8 == ((b >> 40u64) & 0xff) as u8,
            ((a >> 32u64) & 0xff) as u8 == ((b >> 32u64) & 0xff) as u8,
            ((a >> 24u64) & 0xff) as u8 == ((b >> 24u64) & 0xff) as u8,
            ((a >> 16u64) & 0xff) as u8 == ((b >> 16u64) & 0xff) as u8,
            ((a >> 8u64) & 0xff) as u8 == ((b >> 8u64) & 0xff) as u8,
            ((a >> 0u64) & 0xff) as u8 == ((b >> 0u64) & 0xff) as u8,
    ;
}

/// Encodes what an announcement signs: `target` then `timestamp` big-endian.
pub fn encode_signable(target: Id, timestamp: u64) -> (signable_bytes: Vec<u8>)
    ensures
        signable_bytes@ == signable(target, timestamp),
        signable_bytes@.len() == 28,
{
    let mut out: Vec<u8> = Vec::with_capacity(28);
    let mut i: usize = 0;
    while i < 20
        invariant
            i <= 20,
            out@ == target.0@.subrange(0, i as int),
        decreases 20 - i,
    {
        out.push(target.0[i]);
        i = i + 1;
    }
    let mut j: usize = 0;
    while j < 8
        invariant
            j <= 8,
            out@ == target.0@ + u64_be_bytes(timestamp).subrange(0, j as int),
        decreases 8 - j,
    {
        let shift: u64 = (8 * (7 - j)) as u64;
        let byte: u8 = ((timestamp >> shift) & 0xff) as u8;
        assert(byte == be_byte(timestamp, j as int));
        out.push(byte);
        assert(u64_be_bytes(timestamp).subrange(0, j + 1) =~= u64_be_bytes(timestamp).subrange(0, j as int).push(byte));
        j = j + 1;
    }
    assert(u64_be_bytes(timestamp).subrange(0, 8) =~= u64_be_bytes(timestamp));
    out
}

impl SignedAnnounce {
    /// Signs an announcement of `target` with `signer` at the current time,
    /// in microseconds since the UNIX epoch; `None` when the system clock
    /// reads before the epoch.
    pub fn new(signer: SigningKey, target: Id) -> (announce: Option<SignedAnnounce>)
        ensures
            announce matches Some(a) ==> {
                &&& a@.key == ed25519_public_key(signing_key_bytes(signer))
                &&& a@.signature == ed25519_signature(signing_key_bytes(signer), signable(target, a@.timestamp))
                &&& announce_rejection(a@.key, target, a@.timestamp, a@.signature) is None
            },
    {
        let timestamp = match unix_time_micros() {
            Some(t) => t,
            None => return None,
        };
        let secret = signing_key_secret(&signer);
        Some(Self::sign(&secret, target, timestamp))
    }

    /// Signs an announcement of `target` at `timestamp` with the 32 byte
    /// Ed25519 `secret` key.
    pub fn sign(secret: &[u8; 32], target: Id, timestamp: u64) -> (announce: SignedAnnounce)
        ensures
            announce@.key == ed25519_public_key(secret@),
            announce@.timestamp == timestamp,
            announce@.signature == ed25519_signature(secret@, signable(target, timestamp)),
            announce_rejection(announce@.key, target, timestamp, announce@.signature) is None,
    {
        let signable_bytes = encode_signable(target, timestamp);
        let signature = ed25519_sign(secret, signable_bytes.as_slice());
        let key = ed25519_public_key_of(secret);
        Self::new_signed_unchecked(key, timestamp, signature)
    }

    /// Create a new announcement from an already signed value.
    pub fn new_signed_unchecked(key: [u8; 32], timestamp: u64, signature: [u8; 64]) -> (announce: SignedAnnounce)
        ensures
            announce@.key == key@,
            announce@.timestamp == timestamp,
            announce@.signature == signature@,
    {
        SignedAnnounce { key, timestamp, signature }
    }

    /// Checks an announcement received for `target`: the key must be a valid
    /// Ed25519 public key and the signature must verify over `target` and
    /// `timestamp`.
    pub fn from_dht_message(key: &[u8], target: Id, timestamp: u64, signature: &[u8]) -> (result: Result<SignedAnnounce, SignedAnnounceError>)
        ensures
            match announce_rejection(key@, target, timestamp, signature@) {
                Some(e) => result == Err::<SignedAnnounce, SignedAnnounceError>(e),
                None => result matches Ok(a) && a@.key == key@ && a@.timestamp == timestamp && a@.signature == signature@,
            },
    {
        let key = match ed25519_parse_key(key) {
            Ok(k) => k,
            Err(_) => return Err(SignedAnnounceError::InvalidSignedAnnouncePublicKey),
        };
        let signature = match ed25519_parse_signature(signature) {
            Ok(s) => s,
            Err(_) => return Err(SignedAnnounceError::InvalidSignedAnnounceSignature),
        };
        let signable_bytes = encode_signable(target, timestamp);
        match ed25519_verify(&key, signable_bytes.as_slice(), &signature) {
            Ok(()) => Ok(SignedAnnounce { key, timestamp, signature }),
            Err(_) => Err(SignedAnnounceError::InvalidSignedAnnounceSignature),
        }
    }

    /// Returns a reference to the 32 bytes Ed25519 public key of this item.
    pub fn key(&self) -> (key: &[u8; 32])
        ensures
            key@ == self@.key,
    {
        &self.key
    }

    /// Returns the `timestamp` of this announcement.
    pub fn timestamp(&self) -> (timestamp: u64)
        ensures
            timestamp == self@.timestamp,
    {
        self.timestamp
    }

    /// Returns the signature over this item.
    pub fn signature(&self) -> (signature: &[u8; 64])
        ensures
            signature@ == self@.signature,
    {
        &self.signature
    }
}

} // verus!
