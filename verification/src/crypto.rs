//! The outside cryptography and clock this library relies on: Ed25519 keys,
//! signatures and verification from `ed25519_dalek`, SHA-1 from `sha1_smol`,
//! and the system clock.

use ed25519_dalek::{Signature, SignatureError, Signer, SigningKey, Verifier, VerifyingKey};
use std::time::{Duration, SystemTime, UNIX_EPOCH};

use vstd::prelude::*;

verus! {

#[verifier::external_type_specification]
#[verifier::external_body]
pub struct ExSigningKey(SigningKey);

#[verifier::external_type_specification]
#[verifier::external_body]
pub struct ExSignatureError(SignatureError);

#[verifier::external_type_specification]
#[verifier::external_body]
pub struct ExSystemTime(SystemTime);

/// The 32 byte Ed25519 public key that belongs to a 32 byte secret key.
pub uninterp spec fn ed25519_public_key(secret: Seq<u8>) -> Seq<u8>;

/// The 64 byte Ed25519 signature of `message` under a 32 byte secret key.
pub uninterp spec fn ed25519_signature(secret: Seq<u8>, message: Seq<u8>) -> Seq<u8>;

/// Whether 32 bytes are the compressed form of a point on the curve.
pub uninterp spec fn ed25519_valid_key(key: Seq<u8>) -> bool;

/// Whether a 64 byte signature over `message` verifies under a public key.
pub uninterp spec fn ed25519_verifies(key: Seq<u8>, message: Seq<u8>, signature: Seq<u8>) -> bool;

/// The 20 byte SHA-1 digest of `data`.
pub uninterp spec fn sha1_digest(data: Seq<u8>) -> Seq<u8>;

/// The 32 secret bytes a signing key was made from.
pub uninterp spec fn signing_key_bytes(signer: SigningKey) -> Seq<u8>;

/// Calls `SigningKey::to_bytes`: the 32 secret bytes the key holds, which
/// `signing_key_bytes` names.
#[verifier::external_body]
pub(crate) fn signing_key_secret(signer: &SigningKey) -> (secret: [u8; 32])
    ensures
        secret@ == signing_key_bytes(*signer),
{
    signer.to_bytes()
}

/// Calls `SigningKey::verifying_key` on the key made from `secret` and
/// returns its bytes. Claims the result is `ed25519_public_key(secret)`, and,
/// as `VerifyingKey::to_bytes` returns the compressed form of a point it
/// holds, that these bytes are a valid key.
#[verifier::external_body]
pub(crate) fn ed25519_public_key_of(secret: &[u8; 32]) -> (key: [u8; 32])
    ensures
        key@ == ed25519_public_key(secret@),
        ed25519_valid_key(key@),
{
    SigningKey::from_bytes(secret).verifying_key().to_bytes()
}

/// Calls `Signer::sign` of the key made from `secret`. Ed25519 signing is
/// deterministic, so the result is named by the secret and message; it also
/// claims the defining property of the scheme: the signature verifies under
/// the public key of the same secret.
#[verifier::external_body]
pub(crate) fn ed25519_sign(secret: &[u8; 32], message: &[u8]) -> (signature: [u8; 64])
    ensures
        signature@ == ed25519_signature(secret@, message@),
        ed25519_verifies(ed25519_public_key(secret@), message@, signature@),
{
    SigningKey::from_bytes(secret).sign(message).to_bytes()
}

/// Calls `VerifyingKey::try_from(&[u8])`: succeeds exactly on 32 bytes that
/// decompress to a curve point, and then hands back those same bytes.
#[verifier::external_body]
pub(crate) fn ed25519_parse_key(key: &[u8]) -> (parsed: Result<[u8; 32], SignatureError>)
    ensures
        parsed is Ok <==> (key@.len() == 32 && ed25519_valid_key(key@)),
        parsed matches Ok(bytes) ==> bytes@ == key@,
{
    match VerifyingKey::try_from(key) {
        Ok(k) => Ok(k.to_bytes()),
        Err(e) => Err(e),
    }
}

/// Calls `Signature::from_slice`: succeeds exactly on 64 bytes, and then
/// hands back those same bytes.
#[verifier::external_body]
pub(crate) fn ed25519_parse_signature(signature: &[u8]) -> (parsed: Result<[u8; 64], SignatureError>)
    ensures
        parsed is Ok <==> signature@.len() == 64,
        parsed matches Ok(bytes) ==> bytes@ == signature@,
{
    match Signature::from_slice(signature) {
        Ok(s) => Ok(s.to_bytes()),
        Err(e) => Err(e),
    }
}

/// Calls `Verifier::verify` of the key decoded from `key` on `message` and
/// `signature`: `Ok` exactly when the signature verifies.
#[verifier::external_body]
pub(crate) fn ed25519_verify(key: &[u8; 32], message: &[u8], signature: &[u8; 64]) -> (verified: Result<(), SignatureError>)
    requires
        ed25519_valid_key(key@),
    ensures
        verified is Ok <==> ed25519_verifies(key@, message@, signature@),
{
    match VerifyingKey::from_bytes(key) {
        Ok(k) => k.verify(message, &Signature::from_bytes(signature)),
        Err(e) => Err(e),
    }
}

/// Calls `sha1_smol::Sha1::digest` on `data`.
#[verifier::external_body]
pub(crate) fn sha1(data: &[u8]) -> (digest: [u8; 20])
    ensures
        digest@ == sha1_digest(data@),
{
    sha1_smol::Sha1::from(data).digest().bytes()
}

/// Calls `SystemTime::now`: the clock reading at the call, of which nothing
/// is stated.
#[verifier::external_body]
fn system_now() -> (now: SystemTime) {
    SystemTime::now()
}

/// Calls `SystemTime::duration_since` with the UNIX epoch: the time elapsed
/// since the epoch, or `None` when `now` is before it (the error).
#[verifier::external_body]
fn elapsed_since_epoch(now: &SystemTime) -> (elapsed: Option<Duration>) {
    match now.duration_since(UNIX_EPOCH) {
        Ok(elapsed) => Some(elapsed),
        Err(_) => None,
    }
}

/// Calls `Duration::as_micros`: the whole microseconds of `duration`.
#[verifier::external_body]
fn duration_micros(duration: &Duration) -> (micros: u128) {
    duration.as_micros()
}

/// Reads the system clock: microseconds since the UNIX epoch, truncated to
/// 64 bits, or `None` when the clock reads before the epoch.
pub(crate) fn unix_time_micros() -> (micros: Option<u64>) {
    let now = system_now();
    match elapsed_since_epoch(&now) {
        Some(elapsed) => Some(duration_micros(&elapsed) as u64),
        None => None,
    }
}

} // verus!
