use did_ledger::codec::decode_ack;
use did_ledger::codec::decode_packet;
use did_ledger::codec::encode_ack;
use did_ledger::codec::encode_packet;
use did_ledger::consensus::AckPacket;
use did_ledger::consensus::ProtocolPacket;
use did_ledger::consensus::ProtocolType;
use did_ledger::error::Error;
use did_ledger::pqc_sign::PublicKey;
use did_ledger::pqc_sign::Signature;
use did_ledger::pqc_sign::CRYPTO_PUBLICKEYBYTES;
use did_ledger::pqc_sign::SIGNATURE_BYTES;

fn key_of(fill: u8) -> PublicKey {
    PublicKey::from_vec(vec![fill; CRYPTO_PUBLICKEYBYTES]).unwrap()
}

fn sig_of(fill: u8) -> Signature {
    Signature::from_vec(vec![fill; SIGNATURE_BYTES]).unwrap()
}

#[test]
fn packet_roundtrip_bare() {
    let p = ProtocolPacket::new(ProtocolType::Read, vec![1, 2, 3]);
    let bytes = encode_packet(&p);
    let q = decode_packet(&bytes).unwrap();
    assert!(matches!(q.protocol_type, ProtocolType::Read));
    assert_eq!(q.data, vec![1, 2, 3]);
    assert!(q.protocol_id.is_none());
    assert!(q.signature.is_none());
}

#[test]
fn packet_roundtrip_empty_payload() {
    let p = ProtocolPacket::new(ProtocolType::Write, vec![]);
    let bytes = encode_packet(&p);
    let q = decode_packet(&bytes).unwrap();
    assert!(matches!(q.protocol_type, ProtocolType::Write));
    assert!(q.data.is_empty());
}

#[test]
fn packet_roundtrip_signed() {
    let p = ProtocolPacket {
        protocol_type: ProtocolType::Ack,
        data: vec![9, 8, 7, 6],
        protocol_id: Some(key_of(0xAB)),
        signature: Some(sig_of(0xCD)),
    };
    let bytes = encode_packet(&p);
    let q = decode_packet(&bytes).unwrap();
    assert!(matches!(q.protocol_type, ProtocolType::Ack));
    assert_eq!(q.data, vec![9, 8, 7, 6]);
    assert_eq!(q.protocol_id.unwrap().value, vec![0xAB; CRYPTO_PUBLICKEYBYTES]);
    assert_eq!(q.signature.unwrap().value, vec![0xCD; SIGNATURE_BYTES]);
}

#[test]
fn packet_encoding_exact_bytes() {
    let p = ProtocolPacket::new(ProtocolType::Read, vec![1, 2]);
    let bytes = encode_packet(&p);
    assert_eq!(bytes, vec![0, 2, 0, 0, 0, 0, 0, 0, 0, 1, 2, 0, 0]);
}

#[test]
fn packet_decode_rejects_empty() {
    assert_eq!(decode_packet(&vec![]).unwrap_err(), Error::MalformedPacket);
}

#[test]
fn packet_decode_rejects_bad_tag() {
    let mut bytes = encode_packet(&ProtocolPacket::new(ProtocolType::Read, vec![1]));
    bytes[0] = 9;
    assert_eq!(decode_packet(&bytes).unwrap_err(), Error::MalformedPacket);
}

#[test]
fn packet_decode_rejects_truncation() {
    let bytes = encode_packet(&ProtocolPacket::new(ProtocolType::Write, vec![5; 40]));
    for cut in 0..bytes.len() {
        let shorter: Vec<u8> = bytes[..cut].to_vec();
        assert_eq!(decode_packet(&shorter).unwrap_err(), Error::MalformedPacket);
    }
}

#[test]
fn packet_decode_rejects_trailing_byte() {
    let mut bytes = encode_packet(&ProtocolPacket::new(ProtocolType::Write, vec![5, 6]));
    bytes.push(0);
    assert_eq!(decode_packet(&bytes).unwrap_err(), Error::MalformedPacket);
}

#[test]
fn packet_decode_rejects_bad_presence_byte() {
    let p = ProtocolPacket::new(ProtocolType::Read, vec![1]);
    let mut bytes = encode_packet(&p);
    let id_pos = bytes.len() - 2;
    bytes[id_pos] = 3;
    assert_eq!(decode_packet(&bytes).unwrap_err(), Error::MalformedPacket);
}

#[test]
fn ack_roundtrip() {
    let a = AckPacket {
        protocol_type: ProtocolType::Write,
        protocol_data: vec![4, 5, 6],
        hash_value: 0xDEAD_BEEF_u64,
    };
    let bytes = encode_ack(&a);
    let b = decode_ack(&bytes).unwrap();
    assert!(matches!(b.protocol_type, ProtocolType::Write));
    assert_eq!(b.protocol_data, vec![4, 5, 6]);
    assert_eq!(b.hash_value, 0xDEAD_BEEF_u64);
}

#[test]
fn ack_encoding_exact_bytes() {
    let a = AckPacket {
        protocol_type: ProtocolType::Write,
        protocol_data: vec![7],
        hash_value: 2,
    };
    let bytes = encode_ack(&a);
    assert_eq!(bytes, vec![1, 1, 0, 0, 0, 0, 0, 0, 0, 7, 2, 0, 0, 0, 0, 0, 0, 0]);
}

#[test]
fn ack_decode_rejects_truncation() {
    let bytes = encode_ack(&AckPacket {
        protocol_type: ProtocolType::Write,
        protocol_data: vec![1, 2, 3],
        hash_value: 77,
    });
    for cut in 0..bytes.len() {
        let shorter: Vec<u8> = bytes[..cut].to_vec();
        assert_eq!(decode_ack(&shorter).unwrap_err(), Error::MalformedPacket);
    }
}

#[test]
fn ack_decode_rejects_trailing_byte() {
    let mut bytes = encode_ack(&AckPacket {
        protocol_type: ProtocolType::Read,
        protocol_data: vec![],
        hash_value: 0,
    });
    bytes.push(1);
    assert_eq!(decode_ack(&bytes).unwrap_err(), Error::MalformedPacket);
}
