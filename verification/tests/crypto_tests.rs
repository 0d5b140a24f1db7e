use ledger_client::crypto::{hash, Algorithm, KeyMaterial, KeyPair, PrivateKey, HASH_LEN};
use ledger_client::error::{CryptoError, Error};

fn material() -> KeyMaterial {
    KeyMaterial { public: vec![1, 2, 3], private: vec![4, 5, 6, 7] }
}

#[test]
fn algorithm_names() {
    assert_eq!(Algorithm::from_name("ed25519"), Some(Algorithm::Ed25519));
    assert_eq!(Algorithm::from_name("secp256k1"), Some(Algorithm::Secp256k1));
    assert_eq!(Algorithm::from_name("bls_normal"), Some(Algorithm::BlsNormal));
    assert_eq!(Algorithm::from_name("bls_small"), Some(Algorithm::BlsSmall));
    assert_eq!(Algorithm::from_name("ED25519"), None);
    assert_eq!(Algorithm::from_name(""), None);
    assert_eq!(Algorithm::default_algorithm(), Algorithm::Ed25519);
}

#[test]
fn private_key_from_hex_defaults_to_ed25519() {
    let key = PrivateKey::from_hex(None, "0aff").ok().unwrap();
    assert_eq!(key.algorithm, Algorithm::Ed25519);
    assert_eq!(key.bytes, vec![0x0a, 0xff]);
}

#[test]
fn private_key_from_hex_with_named_algorithm() {
    let key = PrivateKey::from_hex(Some("secp256k1"), "AB").ok().unwrap();
    assert_eq!(key.algorithm, Algorithm::Secp256k1);
    assert_eq!(key.bytes, vec![0xab]);
}

#[test]
fn private_key_from_hex_errors() {
    assert_eq!(
        PrivateKey::from_hex(Some("rsa"), "00").err(),
        Some(Error::Crypto(CryptoError::UnknownAlgorithm))
    );
    assert_eq!(
        PrivateKey::from_hex(Some("rsa"), "0").err(),
        Some(Error::Crypto(CryptoError::UnknownAlgorithm))
    );
    assert_eq!(
        PrivateKey::from_hex(None, "0").err(),
        Some(Error::Crypto(CryptoError::MalformedHex))
    );
    assert_eq!(
        PrivateKey::from_hex(None, "0x").err(),
        Some(Error::Crypto(CryptoError::MalformedHex))
    );
    assert_eq!(PrivateKey::from_hex(None, "").err(), Some(Error::Crypto(CryptoError::InvalidKey)));
}

#[test]
fn generate_takes_what_the_backend_made() {
    let pair = KeyPair::generate(Some(material())).ok().unwrap();
    assert_eq!(pair.public().algorithm, Algorithm::Ed25519);
    assert_eq!(pair.public().bytes, vec![1, 2, 3]);
    assert_eq!(pair.private().algorithm, Algorithm::Ed25519);
    assert_eq!(pair.private().bytes, vec![4, 5, 6, 7]);
}

#[test]
fn generate_errors() {
    assert_eq!(KeyPair::generate(None).err(), Some(Error::Crypto(CryptoError::Backend)));
    let no_public = KeyMaterial { public: vec![], private: vec![1] };
    assert_eq!(KeyPair::generate(Some(no_public)).err(), Some(Error::Crypto(CryptoError::InvalidKey)));
    let no_private = KeyMaterial { public: vec![1], private: vec![] };
    assert_eq!(
        KeyPair::generate(Some(no_private)).err(),
        Some(Error::Crypto(CryptoError::InvalidKey))
    );
}

#[test]
fn with_seed_same_material_same_pair() {
    let a = KeyPair::with_seed(Some(material())).ok().unwrap();
    let b = KeyPair::with_seed(Some(material())).ok().unwrap();
    assert_eq!(a.public(), b.public());
    assert_eq!(a.private().bytes, b.private().bytes);
    assert_eq!(KeyPair::with_seed(None).err(), Some(Error::Crypto(CryptoError::Backend)));
}

#[test]
fn from_private_keeps_algorithm_and_key() {
    let private = PrivateKey::from_hex(Some("bls_small"), "0102").ok().unwrap();
    let pair = KeyPair::from_private(private, Some(vec![9, 9])).ok().unwrap();
    assert_eq!(pair.public().algorithm, Algorithm::BlsSmall);
    assert_eq!(pair.public().bytes, vec![9, 9]);
    assert_eq!(pair.private().bytes, vec![1, 2]);
}

#[test]
fn from_private_errors() {
    let private = PrivateKey::from_hex(None, "0102").ok().unwrap();
    assert_eq!(
        KeyPair::from_private(private, None).err(),
        Some(Error::Crypto(CryptoError::InvalidKey))
    );
    let private = PrivateKey::from_hex(None, "0102").ok().unwrap();
    assert_eq!(
        KeyPair::from_private(private, Some(vec![])).err(),
        Some(Error::Crypto(CryptoError::InvalidKey))
    );
    let empty = PrivateKey { algorithm: Algorithm::Ed25519, bytes: vec![] };
    assert_eq!(
        KeyPair::from_private(empty, Some(vec![1])).err(),
        Some(Error::Crypto(CryptoError::InvalidKey))
    );
}

#[test]
fn sign_pairs_signature_with_public_key() {
    let pair = KeyPair::generate(Some(material())).ok().unwrap();
    let signature = pair.sign(Some(vec![0x51, 0x52])).unwrap();
    assert_eq!(signature.algorithm, Algorithm::Ed25519);
    assert_eq!(signature.public_key, vec![1, 2, 3]);
    assert_eq!(signature.payload, vec![0x51, 0x52]);
    assert_eq!(pair.public().bytes, vec![1, 2, 3]);
    assert_eq!(pair.sign(None), Err(Error::Crypto(CryptoError::Backend)));
}

#[test]
fn hash_has_fixed_length() {
    assert_eq!(HASH_LEN, 32);
    let h = hash(vec![7u8; 32]).unwrap();
    assert_eq!(h.as_bytes(), &vec![7u8; 32]);
    assert_eq!(hash(vec![7u8; 31]), None);
    assert_eq!(hash(vec![7u8; 33]), None);
    assert_eq!(hash(vec![]), None);
}

#[test]
fn algorithm_tags() {
    let all = [Algorithm::Ed25519, Algorithm::Secp256k1, Algorithm::BlsNormal, Algorithm::BlsSmall];
    for (i, a) in all.iter().enumerate() {
        assert_eq!(a.tag(), i as u8);
        assert_eq!(Algorithm::from_tag(a.tag()), Some(*a));
    }
    assert_eq!(Algorithm::from_tag(4), None);
    assert_eq!(Algorithm::from_tag(255), None);
}

#[test]
fn sign_keeps_the_scheme_of_the_pair() {
    let private = PrivateKey::from_hex(Some("bls_normal"), "0102").ok().unwrap();
    let pair = KeyPair::from_private(private, Some(vec![9])).ok().unwrap();
    let signature = pair.sign(Some(vec![5])).unwrap();
    assert_eq!(signature.algorithm, Algorithm::BlsNormal);
    assert_eq!(signature.public_key, vec![9]);
}
