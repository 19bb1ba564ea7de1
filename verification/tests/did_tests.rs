use did_ledger::did::decode_create_wallet;
use did_ledger::did::decode_read_doc;
use did_ledger::did::decode_write_doc;
use did_ledger::did::encode_create_wallet;
use did_ledger::did::encode_read_doc;
use did_ledger::did::encode_write_doc;
use did_ledger::did::CreateWalletRequest;
use did_ledger::did::ReadDocRequest;
use did_ledger::did::VerifyResult;
use did_ledger::did::WriteDocRequest;
use did_ledger::did::WriteType;
use did_ledger::error::Error;
use did_ledger::peers::identify_peer;
use did_ledger::pqc_sign::PublicKey;
use did_ledger::pqc_sign::SecretKey;
use did_ledger::pqc_sign::Signature;
use did_ledger::pqc_sign::CRYPTO_PUBLICKEYBYTES;
use did_ledger::pqc_sign::CRYPTO_SECRETKEYBYTES;
use did_ledger::pqc_sign::SIGNATURE_BYTES;

fn key_of(fill: u8) -> PublicKey {
    PublicKey::from_vec(vec![fill; CRYPTO_PUBLICKEYBYTES]).unwrap()
}

#[test]
fn read_doc_roundtrip() {
    for did in [0i64, 1, -1, i64::MAX, i64::MIN, 0x1234_5678] {
        let bytes = encode_read_doc(&ReadDocRequest { request_did: did });
        assert_eq!(bytes.len(), 8);
        assert_eq!(decode_read_doc(&bytes).unwrap().request_did, did);
    }
}

#[test]
fn read_doc_rejects_wrong_length() {
    assert_eq!(decode_read_doc(&vec![1; 7]).unwrap_err(), Error::MalformedPacket);
    assert_eq!(decode_read_doc(&vec![1; 9]).unwrap_err(), Error::MalformedPacket);
}

#[test]
fn write_doc_roundtrip_each_kind() {
    for kind in [WriteType::CreateWallet, WriteType::IssueCert, WriteType::RegisterCert] {
        let w = WriteDocRequest { write_type: kind, value: vec![5, 6, 7] };
        let bytes = encode_write_doc(&w);
        let back = decode_write_doc(&bytes).unwrap();
        assert_eq!(back.write_type, kind);
        assert_eq!(back.value, vec![5, 6, 7]);
    }
}

#[test]
fn write_doc_rejects_empty_and_bad_tag() {
    assert_eq!(decode_write_doc(&vec![]).unwrap_err(), Error::MalformedPacket);
    assert_eq!(decode_write_doc(&vec![7, 1, 2]).unwrap_err(), Error::MalformedPacket);
}

#[test]
fn create_wallet_roundtrip() {
    let c = CreateWalletRequest { did: -77, public_key: key_of(0xEE) };
    let bytes = encode_create_wallet(&c);
    assert_eq!(bytes.len(), 8 + CRYPTO_PUBLICKEYBYTES);
    let back = decode_create_wallet(&bytes).unwrap();
    assert_eq!(back.did, -77);
    assert_eq!(back.public_key.value, vec![0xEE; CRYPTO_PUBLICKEYBYTES]);
}

#[test]
fn create_wallet_rejects_wrong_length() {
    assert_eq!(decode_create_wallet(&vec![0; 71]).unwrap_err(), Error::MalformedPacket);
    assert_eq!(decode_create_wallet(&vec![0; 73]).unwrap_err(), Error::MalformedPacket);
}

#[test]
fn verify_result_wraps_value() {
    assert!(VerifyResult::new(true).value);
    assert!(!VerifyResult::new(false).value);
}

#[test]
fn key_constructors_enforce_sizes() {
    assert_eq!(PublicKey::new().value, vec![0u8; CRYPTO_PUBLICKEYBYTES]);
    assert_eq!(SecretKey::new().value.len(), CRYPTO_SECRETKEYBYTES);
    assert_eq!(Signature::new().value.len(), SIGNATURE_BYTES);

    assert!(PublicKey::from_vec(vec![1; CRYPTO_PUBLICKEYBYTES]).is_ok());
    assert_eq!(
        PublicKey::from_vec(vec![1; CRYPTO_PUBLICKEYBYTES - 1]).unwrap_err(),
        Error::InvalidLength
    );
    assert!(Signature::from_vec(vec![1; SIGNATURE_BYTES]).is_ok());
    assert_eq!(
        Signature::from_vec(vec![1; SIGNATURE_BYTES + 1]).unwrap_err(),
        Error::InvalidLength
    );
}

#[test]
fn public_keys_compare_by_bytes() {
    assert!(key_of(0x11) == key_of(0x11));
    assert!(key_of(0x11) != key_of(0x12));
}

#[test]
fn identify_peer_maps_keys_to_one_based_indices() {
    let keys = vec![key_of(0x11), key_of(0x22), key_of(0x33)];
    assert_eq!(identify_peer(&key_of(0x11), &keys), Some(1));
    assert_eq!(identify_peer(&key_of(0x22), &keys), Some(2));
    assert_eq!(identify_peer(&key_of(0x33), &keys), Some(3));
    assert_eq!(identify_peer(&key_of(0x44), &keys), None);
    assert_eq!(identify_peer(&key_of(0x11), &vec![]), None);
}
