use ledger_client::crypto::Algorithm;
use ledger_client::error::{CryptoError, DecodeError, Error};
use ledger_client::transaction::{
    all_distinct, all_known, payload_bytes, position, same_bytes, Metadata, Signature,
    SignedTransaction, VERSION,
};

fn sig(key: u8, body: u8) -> Signature {
    Signature { algorithm: Algorithm::Secp256k1, public_key: vec![key; 3], payload: vec![body; 4] }
}

fn sample() -> SignedTransaction {
    let mut metadata = Metadata::new();
    assert!(metadata.insert(b"memo".to_vec(), b"rent".to_vec()));
    SignedTransaction::build(vec![vec![0xa1, 0xa2], vec![0xb1]], metadata, sig(1, 9)).unwrap()
}

#[test]
fn build_keeps_instruction_order_and_first_signature() {
    let tx = sample();
    assert_eq!(tx.instructions(), &vec![vec![0xa1, 0xa2], vec![0xb1]]);
    assert_eq!(tx.metadata().keys(), &vec![b"memo".to_vec()]);
    assert_eq!(tx.metadata().values(), &vec![b"rent".to_vec()]);
    assert_eq!(tx.signers(), &vec![vec![1u8; 3]]);
    assert_eq!(tx.signatures(), &vec![vec![9u8; 4]]);
    assert_eq!(tx.schemes(), &vec![1u8]);
}

#[test]
fn build_does_not_merge_equal_instructions() {
    let tx = SignedTransaction::build(vec![vec![7], vec![7], vec![1]], Metadata::new(), sig(1, 1))
        .unwrap();
    assert_eq!(tx.instructions(), &vec![vec![7u8], vec![7u8], vec![1u8]]);
}

#[test]
fn wire_form_exact_bytes() {
    let tx = sample();
    let expected: Vec<u8> = vec![
        1, // version
        0x08, 0x08, 0xa1, 0xa2, 0x04, 0xb1, // instructions
        0x04, 0x10, b'm', b'e', b'm', b'o', // keys
        0x04, 0x10, b'r', b'e', b'n', b't', // values
        0x04, 0x0c, 1, 1, 1, // signers
        0x04, 0x10, 9, 9, 9, 9, // signatures
        0x04, 1, // schemes
    ];
    assert_eq!(tx.to_bytes(), expected);
    assert_eq!(VERSION, 1);
}

#[test]
fn identity_bytes_exact() {
    let tx = sample();
    let expected: Vec<u8> = vec![
        1, 0x08, 0x08, 0xa1, 0xa2, 0x04, 0xb1, 0x04, 0x10, b'm', b'e', b'm', b'o', 0x04, 0x10, b'r',
        b'e', b'n', b't',
    ];
    assert_eq!(tx.identity_bytes(), expected);
    assert_eq!(payload_bytes(tx.instructions(), tx.metadata()), expected);
}

#[test]
fn round_trip_binary() {
    let tx = sample();
    let bytes = tx.to_bytes();
    assert_eq!(SignedTransaction::from_bytes(&bytes), Ok(tx));
}

#[test]
fn round_trip_hex() {
    let tx = sample();
    let text = tx.encode();
    assert_eq!(text, "0108" .to_string() + "08a1a204b1" + "04106d656d6f" + "041072656e74" + "040c010101" + "041009090909" + "0401");
    assert_eq!(SignedTransaction::decode(&text), Ok(tx));
}

#[test]
fn decode_takes_upper_case_hex() {
    let tx = sample();
    let text = tx.encode().to_uppercase();
    assert_eq!(SignedTransaction::decode(&text), Ok(tx));
}

#[test]
fn decode_rejects_bad_hex() {
    assert_eq!(SignedTransaction::decode("012"), Err(Error::Decode(DecodeError::BadHex)));
    assert_eq!(SignedTransaction::decode("xy"), Err(Error::Decode(DecodeError::BadHex)));
}

#[test]
fn append_signature_grows_by_one_and_keeps_identity() {
    let tx = sample();
    let before = tx.identity_bytes();
    let grown = sample().append_signature(sig(2, 8)).unwrap();
    assert_eq!(grown.signers(), &vec![vec![1u8; 3], vec![2u8; 3]]);
    assert_eq!(grown.signatures(), &vec![vec![9u8; 4], vec![8u8; 4]]);
    assert_eq!(grown.schemes(), &vec![1u8, 1]);
    assert_eq!(grown.instructions(), tx.instructions());
    assert_eq!(grown.metadata(), tx.metadata());
    assert_eq!(grown.identity_bytes(), before);
}

#[test]
fn two_party_transaction_survives_the_wire() {
    let a = vec![0x0a, 0x01];
    let b = vec![0x0b];
    let tx = SignedTransaction::build(vec![a.clone(), b.clone()], Metadata::new(), sig(1, 1)).unwrap();
    let identity = tx.identity_bytes();
    let tx = tx.append_signature(sig(2, 2)).unwrap();
    let text = tx.encode();
    let back = SignedTransaction::decode(&text).unwrap();
    assert_eq!(back.signatures().len(), 2);
    assert_eq!(back.signers().len(), 2);
    assert_eq!(back.instructions(), &vec![a, b]);
    assert_eq!(back.metadata().keys().len(), 0);
    assert_eq!(back.identity_bytes(), identity);
}

#[test]
fn unknown_version_is_rejected() {
    let mut bytes = sample().to_bytes();
    bytes[0] = 2;
    assert_eq!(
        SignedTransaction::from_bytes(&bytes),
        Err(Error::Decode(DecodeError::UnknownVersion(2)))
    );
    assert_eq!(
        SignedTransaction::from_bytes(&[0]),
        Err(Error::Decode(DecodeError::UnknownVersion(0)))
    );
    assert_eq!(
        SignedTransaction::decode("ff00"),
        Err(Error::Decode(DecodeError::UnknownVersion(0xff)))
    );
}

#[test]
fn empty_input_is_rejected() {
    assert_eq!(SignedTransaction::from_bytes(&[]), Err(Error::Decode(DecodeError::Empty)));
    assert_eq!(SignedTransaction::decode(""), Err(Error::Decode(DecodeError::Empty)));
}

#[test]
fn truncated_input_is_rejected() {
    let bytes = sample().to_bytes();
    for cut in 1..bytes.len() {
        assert_eq!(
            SignedTransaction::from_bytes(&bytes[..cut]),
            Err(Error::Decode(DecodeError::Malformed))
        );
    }
}

#[test]
fn trailing_bytes_are_rejected() {
    let mut bytes = sample().to_bytes();
    bytes.push(0);
    assert_eq!(SignedTransaction::from_bytes(&bytes), Err(Error::Decode(DecodeError::Malformed)));
}

#[test]
fn signature_count_mismatch_is_rejected() {
    // one signer, one signature, one scheme
    let bytes: Vec<u8> = vec![1, 0x00, 0x00, 0x00, 0x04, 0x04, 7, 0x04, 0x04, 8, 0x04, 0];
    assert!(SignedTransaction::from_bytes(&bytes).is_ok());
    // one signer, no signature
    let bytes: Vec<u8> = vec![1, 0x00, 0x00, 0x00, 0x04, 0x04, 7, 0x00, 0x04, 0];
    assert_eq!(SignedTransaction::from_bytes(&bytes), Err(Error::Decode(DecodeError::Malformed)));
    // one signer, one signature, no scheme
    let bytes: Vec<u8> = vec![1, 0x00, 0x00, 0x00, 0x04, 0x04, 7, 0x04, 0x04, 8, 0x00];
    assert_eq!(SignedTransaction::from_bytes(&bytes), Err(Error::Decode(DecodeError::Malformed)));
    // one key, no value
    let bytes: Vec<u8> = vec![1, 0x00, 0x04, 0x04, 7, 0x00, 0x00, 0x00, 0x00];
    assert_eq!(SignedTransaction::from_bytes(&bytes), Err(Error::Decode(DecodeError::Malformed)));
}

#[test]
fn smallest_transaction_reads() {
    let bytes: Vec<u8> = vec![1, 0x00, 0x00, 0x00, 0x00, 0x00, 0x00];
    let tx = SignedTransaction::from_bytes(&bytes).unwrap();
    assert!(tx.instructions().is_empty());
    assert!(tx.signatures().is_empty());
    assert_eq!(tx.to_bytes(), bytes);
}

#[test]
fn metadata_from_entries_wants_pairs() {
    let good = Metadata::from_entries(vec![vec![1], vec![3]], vec![vec![2], vec![2]]).unwrap();
    assert_eq!(good.keys(), &vec![vec![1u8], vec![3u8]]);
    assert_eq!(good.values(), &vec![vec![2u8], vec![2u8]]);
    assert_eq!(Metadata::from_entries(vec![vec![1]], vec![]), None);
    assert_eq!(Metadata::from_entries(vec![], vec![vec![1]]), None);
    assert_eq!(Metadata::from_entries(vec![], vec![]), Some(Metadata::new()));
}

#[test]
fn oversized_is_a_crypto_error() {
    // the variant exists and is what a signature beyond the wire's limit gives;
    // a value of that size cannot be built in a test
    assert_ne!(Error::Crypto(CryptoError::Oversized), Error::Crypto(CryptoError::Backend));
}

#[test]
fn unknown_scheme_is_rejected() {
    let bytes: Vec<u8> = vec![1, 0x00, 0x00, 0x00, 0x04, 0x04, 7, 0x04, 0x04, 8, 0x04, 3];
    assert!(SignedTransaction::from_bytes(&bytes).is_ok());
    let bytes: Vec<u8> = vec![1, 0x00, 0x00, 0x00, 0x04, 0x04, 7, 0x04, 0x04, 8, 0x04, 4];
    assert_eq!(SignedTransaction::from_bytes(&bytes), Err(Error::Decode(DecodeError::Malformed)));
}

#[test]
fn repeated_metadata_key_is_rejected() {
    let bytes: Vec<u8> = vec![1, 0x00, 0x08, 0x04, 7, 0x04, 8, 0x08, 0x04, 1, 0x04, 2, 0x00, 0x00, 0x00];
    assert!(SignedTransaction::from_bytes(&bytes).is_ok());
    let bytes: Vec<u8> = vec![1, 0x00, 0x08, 0x04, 7, 0x04, 7, 0x08, 0x04, 1, 0x04, 2, 0x00, 0x00, 0x00];
    assert_eq!(SignedTransaction::from_bytes(&bytes), Err(Error::Decode(DecodeError::Malformed)));
}

#[test]
fn metadata_insert_sets_and_replaces() {
    let mut m = Metadata::new();
    assert!(m.insert(vec![1], vec![10]));
    assert!(m.insert(vec![2], vec![20]));
    assert!(m.insert(vec![1], vec![11]));
    assert_eq!(m.keys(), &vec![vec![1u8], vec![2u8]]);
    assert_eq!(m.values(), &vec![vec![11u8], vec![20u8]]);
    assert_eq!(m.get(&vec![1]), Some(&vec![11u8]));
    assert_eq!(m.get(&vec![2]), Some(&vec![20u8]));
    assert_eq!(m.get(&vec![3]), None);
    assert_eq!(m.get(&vec![]), None);
}

#[test]
fn metadata_from_entries_rejects_repeated_keys() {
    assert_eq!(Metadata::from_entries(vec![vec![1], vec![1]], vec![vec![2], vec![3]]), None);
}

#[test]
fn key_helpers() {
    assert!(same_bytes(&vec![1, 2], &vec![1, 2]));
    assert!(!same_bytes(&vec![1, 2], &vec![1, 3]));
    assert!(!same_bytes(&vec![1, 2], &vec![1]));
    assert!(same_bytes(&vec![], &vec![]));
    let keys = vec![vec![1u8], vec![2u8], vec![1u8]];
    assert_eq!(position(&keys, &vec![1], 3), Some(0));
    assert_eq!(position(&keys, &vec![2], 3), Some(1));
    assert_eq!(position(&keys, &vec![2], 1), None);
    assert_eq!(position(&keys, &vec![9], 3), None);
    assert!(!all_distinct(&keys));
    assert!(all_distinct(&vec![vec![1u8], vec![2u8]]));
    assert!(all_known(&vec![0, 1, 2, 3]));
    assert!(!all_known(&vec![0, 4]));
    assert!(all_known(&vec![]));
}
