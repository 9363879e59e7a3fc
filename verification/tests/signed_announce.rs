use dht::errors::SignedAnnounceError;
use dht::signed_announce::{encode_signable, SignedAnnounce};
use dht::Id;
use ed25519_dalek::{Signer, SigningKey};

const SECRET: [u8; 32] = [9u8; 32];

#[test]
fn encode_signable_is_target_then_big_endian_timestamp() {
    let target = Id([7u8; 20]);
    let bytes = encode_signable(target, 0x0102030405060708);
    let mut expected = vec![7u8; 20];
    expected.extend_from_slice(&[1, 2, 3, 4, 5, 6, 7, 8]);
    assert_eq!(bytes, expected);
    assert_eq!(bytes.len(), 28);
}

#[test]
fn encode_signable_distinguishes_timestamps_and_targets() {
    let a = encode_signable(Id([1u8; 20]), 1);
    let b = encode_signable(Id([1u8; 20]), 256);
    let c = encode_signable(Id([2u8; 20]), 1);
    assert_ne!(a, b);
    assert_ne!(a, c);
}

#[test]
fn new_signed_unchecked_keeps_its_parts() {
    let announce = SignedAnnounce::new_signed_unchecked([1u8; 32], 42, [2u8; 64]);
    assert_eq!(announce.key(), &[1u8; 32]);
    assert_eq!(announce.timestamp(), 42);
    assert_eq!(announce.signature(), &[2u8; 64]);
}

#[test]
fn sign_uses_the_ed25519_signature_and_public_key() {
    let target = Id([3u8; 20]);
    let announce = SignedAnnounce::sign(&SECRET, target, 1234);
    let signer = SigningKey::from_bytes(&SECRET);
    let expected = signer.sign(&encode_signable(target, 1234)).to_bytes();
    assert_eq!(announce.signature(), &expected);
    assert_eq!(announce.key(), &signer.verifying_key().to_bytes());
    assert_eq!(announce.timestamp(), 1234);
}

#[test]
fn signed_announce_is_accepted_for_its_target() {
    let target = Id([4u8; 20]);
    let announce = SignedAnnounce::sign(&SECRET, target, 99);
    let received = SignedAnnounce::from_dht_message(announce.key(), target, 99, announce.signature());
    assert_eq!(received, Ok(announce));
}

#[test]
fn signed_announce_is_rejected_for_another_target_or_time() {
    let target = Id([4u8; 20]);
    let announce = SignedAnnounce::sign(&SECRET, target, 99);
    assert_eq!(
        SignedAnnounce::from_dht_message(announce.key(), Id([5u8; 20]), 99, announce.signature()),
        Err(SignedAnnounceError::InvalidSignedAnnounceSignature)
    );
    assert_eq!(
        SignedAnnounce::from_dht_message(announce.key(), target, 100, announce.signature()),
        Err(SignedAnnounceError::InvalidSignedAnnounceSignature)
    );
}

#[test]
fn malformed_key_or_signature_is_rejected() {
    let target = Id([4u8; 20]);
    let announce = SignedAnnounce::sign(&SECRET, target, 99);
    assert_eq!(
        SignedAnnounce::from_dht_message(&announce.key()[..31], target, 99, announce.signature()),
        Err(SignedAnnounceError::InvalidSignedAnnouncePublicKey)
    );
    assert_eq!(
        SignedAnnounce::from_dht_message(announce.key(), target, 99, &announce.signature()[..63]),
        Err(SignedAnnounceError::InvalidSignedAnnounceSignature)
    );
}

#[test]
fn new_signs_at_the_current_time() {
    let target = Id([6u8; 20]);
    let signer = SigningKey::from_bytes(&SECRET);
    let announce = SignedAnnounce::new(signer.clone(), target).expect("clock after 1970");
    assert!(announce.timestamp() > 1_600_000_000_000_000);
    assert_eq!(announce.key(), &signer.verifying_key().to_bytes());
    let received = SignedAnnounce::from_dht_message(announce.key(), target, announce.timestamp(), announce.signature());
    assert_eq!(received, Ok(announce));
}

#[test]
fn error_messages() {
    assert_eq!(SignedAnnounceError::InvalidSignedAnnounceSignature.message(), "Invalid mutable item signature");
    assert_eq!(SignedAnnounceError::InvalidSignedAnnouncePublicKey.message(), "Invalid mutable item public key");
}
