use dht::errors::MutableError;
use dht::mutable::{encode_signable, validate_immutable, MutableItem};
use dht::Id;
use ed25519_dalek::{Signer, SigningKey};

const SECRET: [u8; 32] = [11u8; 32];

fn hex(s: &str) -> Vec<u8> {
    (0..s.len() / 2).map(|i| u8::from_str_radix(&s[2 * i..2 * i + 2], 16).unwrap()).collect()
}

#[test]
fn signable_without_salt_follows_bep44() {
    let signable = encode_signable(1, b"Hello World!", None);
    assert_eq!(signable, b"3:seqi1e1:v12:Hello World!".to_vec());
}

#[test]
fn signable_with_salt_follows_bep44() {
    let signable = encode_signable(1, b"Hello World!", Some(b"foobar"));
    assert_eq!(signable, b"4:salt6:foobar3:seqi1e1:v12:Hello World!".to_vec());
}

#[test]
fn signable_with_negative_and_large_sequence_numbers() {
    assert_eq!(encode_signable(-5, b"", None), b"3:seqi-5e1:v0:".to_vec());
    assert_eq!(
        encode_signable(i64::MIN, b"x", None),
        b"3:seqi-9223372036854775808e1:v1:x".to_vec()
    );
    assert_eq!(encode_signable(1234567890, b"ab", None), b"3:seqi1234567890e1:v2:ab".to_vec());
}

#[test]
fn immutable_target_is_the_sha1_of_the_value() {
    let abc = hex("a9993e364706816aba3e25717850c26c9cd0d89d");
    let empty = hex("da39a3ee5e6b4b0d3255bfef95601890afd80709");
    assert!(validate_immutable(b"abc", Id(abc.clone().try_into().unwrap())));
    assert!(validate_immutable(b"", Id(empty.try_into().unwrap())));
    assert!(!validate_immutable(b"abd", Id(abc.try_into().unwrap())));
}

fn signed(value: &[u8], seq: i64, salt: Option<&[u8]>) -> ([u8; 32], [u8; 64]) {
    let signer = SigningKey::from_bytes(&SECRET);
    let signature = signer.sign(&encode_signable(seq, value, salt)).to_bytes();
    (signer.verifying_key().to_bytes(), signature)
}

#[test]
fn correctly_signed_item_is_accepted() {
    let target = Id([1u8; 20]);
    let (key, sig) = signed(b"value", 7, Some(b"salt"));
    let item = MutableItem::from_dht_message(target, &key, b"value".to_vec(), 7, &sig, Some(b"salt".to_vec())).unwrap();
    assert_eq!(item.target(), target);
    assert_eq!(item.key(), &key);
    assert_eq!(item.value(), b"value");
    assert_eq!(item.seq(), 7);
    assert_eq!(item.signature(), &sig);
    assert_eq!(item.salt(), Some(&b"salt"[..]));
}

#[test]
fn tampered_item_is_rejected() {
    let target = Id([1u8; 20]);
    let (key, sig) = signed(b"value", 7, None);
    assert_eq!(
        MutableItem::from_dht_message(target, &key, b"value".to_vec(), 8, &sig, None),
        Err(MutableError::InvalidMutableSignature)
    );
    assert_eq!(
        MutableItem::from_dht_message(target, &key, b"value".to_vec(), 7, &sig, Some(b"s".to_vec())),
        Err(MutableError::InvalidMutableSignature)
    );
    assert_eq!(
        MutableItem::from_dht_message(target, &key[..8], b"value".to_vec(), 7, &sig, None),
        Err(MutableError::InvalidMutablePublicKey)
    );
    assert_eq!(
        MutableItem::from_dht_message(target, &key, b"value".to_vec(), 7, &sig[..10], None),
        Err(MutableError::InvalidMutableSignature)
    );
}
