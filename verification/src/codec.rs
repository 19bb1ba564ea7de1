//! The binary wire codec.
//!
//! A packet is laid out as: one tag byte for the kind, an 8-byte
//! little-endian length followed by that many payload bytes, then the
//! optional signer key and the optional signature, each introduced by a
//! presence byte (`0` absent, `1` present) and carried at its fixed size.
//! An acknowledgment payload is laid out as: one tag byte, the 8-byte
//! length and payload of the original request, then the 8-byte
//! little-endian fingerprint.
//!
//! Encoding and decoding are exact inverses: decoding accepts precisely the
//! encodings (no trailing bytes, no out-of-range tags, no truncation) and
//! returns [`Error::MalformedPacket`] on everything else.

use vstd::bytes::lemma_auto_spec_u64_to_from_le_bytes;
use vstd::bytes::spec_u64_from_le_bytes;
use vstd::bytes::spec_u64_to_le_bytes;
use vstd::bytes::u64_from_le_bytes;
use vstd::bytes::u64_to_le_bytes;
use vstd::prelude::*;

use crate::consensus::AckModel;
use crate::consensus::AckPacket;
use crate::consensus::PacketModel;
use crate::consensus::ProtocolPacket;
use crate::consensus::ProtocolType;
use crate::consensus::spec_ack_wf;
use crate::consensus::spec_packet_wf;
use crate::error::Error;
use crate::pqc_sign::CRYPTO_PUBLICKEYBYTES;
use crate::pqc_sign::PublicKey;
use crate::pqc_sign::SIGNATURE_BYTES;
use crate::pqc_sign::Signature;
use crate::util::push_bytes;
use crate::util::vec_subrange;

verus! {

/// The tag byte of each packet kind.
pub open spec fn spec_tag_byte(t: ProtocolType) -> u8 {
    match t {
        ProtocolType::Read => 0u8,
        ProtocolType::Write => 1u8,
        ProtocolType::Ack => 2u8,
    }
}

/// The packet kind a tag byte stands for, if any.
pub open spec fn spec_type_of_tag(b: u8) -> Option<ProtocolType> {
    if b == 0 {
        Some(ProtocolType::Read)
    } else if b == 1 {
        Some(ProtocolType::Write)
    } else if b == 2 {
        Some(ProtocolType::Ack)
    } else {
        None
    }
}

/// The encoding of an optional fixed-size byte string: a presence byte,
/// then the bytes themselves if present.
pub open spec fn spec_encode_opt(o: Option<Seq<u8>>) -> Seq<u8> {
    match o {
        None => seq![0u8],
        Some(b) => seq![1u8] + b,
    }
}

/// Decodes an optional byte string of fixed size `n` from the front of
/// `s`: yields the option and the remaining bytes, or nothing if `s` is
/// truncated or starts with an unknown presence byte.
pub open spec fn spec_decode_opt(s: Seq<u8>, n: nat) -> Option<(Option<Seq<u8>>, Seq<u8>)> {
    if s.len() < 1 {
        None
    } else if s[0] == 0 {
        Some((None, s.subrange(1, s.len() as int)))
    } else if s[0] == 1 {
        if s.len() < 1 + n {
            None
        } else {
            Some(
                (
                    Some(s.subrange(1, 1 + n as int)),
                    s.subrange(1 + n as int, s.len() as int),
                ),
            )
        }
    } else {
        None
    }
}

/// The encoding of a whole packet.
pub open spec fn spec_encode_packet(m: PacketModel) -> Seq<u8> {
    seq![spec_tag_byte(m.protocol_type)] + spec_u64_to_le_bytes(m.data.len() as u64) + m.data
        + spec_encode_opt(m.protocol_id) + spec_encode_opt(m.signature)
}

/// Decodes a whole packet, accepting exactly the encodings of well-formed
/// packets and nothing else.
pub open spec fn spec_decode_packet(s: Seq<u8>) -> Option<PacketModel> {
    if s.len() < 9 {
        None
    } else {
        match spec_type_of_tag(s[0]) {
            None => None,
            Some(t) => {
                let dlen = spec_u64_from_le_bytes(s.subrange(1, 9)) as int;
                if s.len() < 9 + dlen {
                    None
                } else {
                    let data = s.subrange(9, 9 + dlen);
                    let rest = s.subrange(9 + dlen, s.len() as int);
                    match spec_decode_opt(rest, CRYPTO_PUBLICKEYBYTES as nat) {
                        None => None,
                        Some((id, rest2)) => match spec_decode_opt(rest2, SIGNATURE_BYTES as nat) {
                            None => None,
                            Some((sig, rest3)) => if rest3.len() != 0 {
                                None
                            } else {
                                Some(
                                    (PacketModel {
                                        protocol_type: t,
                                        data: data,
                                        protocol_id: id,
                                        signature: sig,
                                    }),
                                )
                            },
                        },
                    }
                }
            },
        }
    }
}

/// The encoding of an acknowledgment payload.
pub open spec fn spec_encode_ack(m: AckModel) -> Seq<u8> {
    seq![spec_tag_byte(m.protocol_type)] + spec_u64_to_le_bytes(m.protocol_data.len() as u64)
        + m.protocol_data + spec_u64_to_le_bytes(m.hash_value)
}

/// Decodes an acknowledgment payload, accepting exactly the encodings of
/// well-formed acknowledgments and nothing else.
pub open spec fn spec_decode_ack(s: Seq<u8>) -> Option<AckModel> {
    if s.len() < 9 {
        None
    } else {
        match spec_type_of_tag(s[0]) {
            None => None,
            Some(t) => {
                let dlen = spec_u64_from_le_bytes(s.subrange(1, 9)) as int;
                if s.len() != 9 + dlen + 8 {
                    None
                } else {
                    let data = s.subrange(9, 9 + dlen);
                    let hash = spec_u64_from_le_bytes(s.subrange(9 + dlen, 9 + dlen + 8));
                    Some(
                        (AckModel { protocol_type: t, protocol_data: data, hash_value: hash }),
                    )
                }
            },
        }
    }
}

/// Decoding undoes encoding for an optional fixed-size byte string, for
/// any following bytes.
proof fn lemma_decode_opt_encode(o: Option<Seq<u8>>, n: nat, rest: Seq<u8>)
    requires
        o matches Some(b) ==> b.len() == n,
    ensures
        spec_decode_opt(spec_encode_opt(o) + rest, n) == Some((o, rest)),
{
    let s = spec_encode_opt(o) + rest;
    match o {
        None => {
            assert(s[0] == 0);
            assert(s.subrange(1, s.len() as int) =~= rest);
        },
        Some(b) => {
            assert(s[0] == 1);
            assert(s.len() == 1 + n + rest.len());
            assert(s.subrange(1, 1 + n as int) =~= b);
            assert(s.subrange(1 + n as int, s.len() as int) =~= rest);
        },
    }
}

/// A decoded optional byte string is the exact encoding of what was
/// decoded, followed by the returned remainder.
proof fn lemma_decode_opt_sound(s: Seq<u8>, n: nat)
    ensures
        spec_decode_opt(s, n) matches Some(pair) ==> {
            &&& s == spec_encode_opt(pair.0) + pair.1
            &&& (pair.0 matches Some(b) ==> b.len() == n)
        },
{
    match spec_decode_opt(s, n) {
        Some((o, rest)) => {
            if s[0] == 0 {
                assert(s =~= spec_encode_opt(o) + rest);
            } else {
                assert(s =~= spec_encode_opt(o) + rest);
            }
        },
        None => {},
    }
}

/// Tag bytes name packet kinds one-for-one.
proof fn lemma_tag_byte_of_type(t: ProtocolType)
    ensures
        spec_type_of_tag(spec_tag_byte(t)) == Some(t),
{
}

/// Decoding a packet undoes encoding it: the codec is an exact inverse
/// pair on well-formed packets.
pub proof fn lemma_packet_codec_roundtrip(m: PacketModel)
    requires
        spec_packet_wf(m),
    ensures
        spec_decode_packet(spec_encode_packet(m)) == Some(m),
{
    lemma_auto_spec_u64_to_from_le_bytes();
    let s = spec_encode_packet(m);
    let tagb = seq![spec_tag_byte(m.protocol_type)];
    let lenb = spec_u64_to_le_bytes(m.data.len() as u64);
    let dlen = m.data.len() as int;
    assert(s.len() == 9 + dlen + spec_encode_opt(m.protocol_id).len() + spec_encode_opt(
        m.signature,
    ).len());
    assert(s[0] == spec_tag_byte(m.protocol_type));
    lemma_tag_byte_of_type(m.protocol_type);
    assert(s.subrange(1, 9) =~= lenb);
    assert(spec_u64_from_le_bytes(s.subrange(1, 9)) == m.data.len() as u64);
    assert(s.subrange(9, 9 + dlen) =~= m.data);
    let rest = s.subrange(9 + dlen, s.len() as int);
    assert(rest =~= spec_encode_opt(m.protocol_id) + spec_encode_opt(m.signature));
    let empty = Seq::<u8>::empty();
    assert(spec_encode_opt(m.signature) + empty =~= spec_encode_opt(m.signature));
    lemma_decode_opt_encode(m.protocol_id, CRYPTO_PUBLICKEYBYTES as nat, spec_encode_opt(
        m.signature,
    ));
    lemma_decode_opt_encode(m.signature, SIGNATURE_BYTES as nat, empty);
    assert(spec_decode_packet(s) == Some(m));
}

/// Whatever the packet decoder accepts is well formed and re-encodes to
/// the exact input bytes: only true encodings are accepted, trailing bytes
/// and all truncations are refused.
pub proof fn lemma_packet_decode_sound(s: Seq<u8>)
    ensures
        spec_decode_packet(s) matches Some(m) ==> spec_packet_wf(m) && spec_encode_packet(m) == s,
{
    lemma_auto_spec_u64_to_from_le_bytes();
    match spec_decode_packet(s) {
        Some(m) => {
            let t = spec_type_of_tag(s[0])->Some_0;
            let dlen = spec_u64_from_le_bytes(s.subrange(1, 9)) as int;
            let rest = s.subrange(9 + dlen, s.len() as int);
            lemma_decode_opt_sound(rest, CRYPTO_PUBLICKEYBYTES as nat);
            let (id, rest2) = spec_decode_opt(rest, CRYPTO_PUBLICKEYBYTES as nat)->Some_0;
            lemma_decode_opt_sound(rest2, SIGNATURE_BYTES as nat);
            let (sig, rest3) = spec_decode_opt(rest2, SIGNATURE_BYTES as nat)->Some_0;
            assert(rest3.len() == 0);
            assert(m.data == s.subrange(9, 9 + dlen));
            assert(m.data.len() == dlen);
            assert(spec_tag_byte(t) == s[0]);
            assert(spec_u64_to_le_bytes(m.data.len() as u64) =~= s.subrange(1, 9));
            assert(rest2 =~= spec_encode_opt(sig));
            assert(rest =~= spec_encode_opt(id) + spec_encode_opt(sig));
            assert(spec_encode_packet(m) =~= s);
        },
        None => {},
    }
}

/// Decoding an acknowledgment undoes encoding it.
pub proof fn lemma_ack_codec_roundtrip(m: AckModel)
    requires
        spec_ack_wf(m),
    ensures
        spec_decode_ack(spec_encode_ack(m)) == Some(m),
{
    lemma_auto_spec_u64_to_from_le_bytes();
    let s = spec_encode_ack(m);
    let dlen = m.protocol_data.len() as int;
    assert(s.len() == 9 + dlen + 8);
    assert(s[0] == spec_tag_byte(m.protocol_type));
    lemma_tag_byte_of_type(m.protocol_type);
    assert(s.subrange(1, 9) =~= spec_u64_to_le_bytes(m.protocol_data.len() as u64));
    assert(spec_u64_from_le_bytes(s.subrange(1, 9)) == m.protocol_data.len() as u64);
    assert(s.subrange(9, 9 + dlen) =~= m.protocol_data);
    assert(s.subrange(9 + dlen, 9 + dlen + 8) =~= spec_u64_to_le_bytes(m.hash_value));
    assert(spec_decode_ack(s) == Some(m));
}

/// Whatever the acknowledgment decoder accepts is well formed and
/// re-encodes to the exact input bytes.
pub proof fn lemma_ack_decode_sound(s: Seq<u8>)
    ensures
        spec_decode_ack(s) matches Some(m) ==> spec_ack_wf(m) && spec_encode_ack(m) == s,
{
    lemma_auto_spec_u64_to_from_le_bytes();
    match spec_decode_ack(s) {
        Some(m) => {
            let t = spec_type_of_tag(s[0])->Some_0;
            let dlen = spec_u64_from_le_bytes(s.subrange(1, 9)) as int;
            assert(m.protocol_data == s.subrange(9, 9 + dlen));
            assert(m.protocol_data.len() == dlen);
            assert(spec_tag_byte(t) == s[0]);
            assert(spec_u64_to_le_bytes(m.protocol_data.len() as u64) =~= s.subrange(1, 9));
            assert(spec_u64_to_le_bytes(m.hash_value) =~= s.subrange(9 + dlen, 9 + dlen + 8));
            assert(spec_encode_ack(m) =~= s);
        },
        None => {},
    }
}

/// The tag byte of a packet kind.
pub fn tag_byte(t: ProtocolType) -> (r: u8)
    ensures
        r == spec_tag_byte(t),
{
    match t {
        ProtocolType::Read => 0u8,
        ProtocolType::Write => 1u8,
        ProtocolType::Ack => 2u8,
    }
}

/// The packet kind a tag byte stands for, if any.
pub fn type_of_tag(b: u8) -> (r: Option<ProtocolType>)
    ensures
        r == spec_type_of_tag(b),
{
    if b == 0 {
        Some(ProtocolType::Read)
    } else if b == 1 {
        Some(ProtocolType::Write)
    } else if b == 2 {
        Some(ProtocolType::Ack)
    } else {
        None
    }
}

/// Serializes a packet.
pub fn encode_packet(p: &ProtocolPacket) -> (r: Vec<u8>)
    requires
        p.wf(),
    ensures
        r@ == spec_encode_packet(p@),
{
    proof {
        assert(p.data.len() == p.data@.len());
    }
    let mut out: Vec<u8> = Vec::new();
    out.push(tag_byte(p.protocol_type));
    let len_bytes = u64_to_le_bytes(p.data.len() as u64);
    push_bytes(&mut out, &len_bytes);
    push_bytes(&mut out, &p.data);
    match &p.protocol_id {
        None => {
            out.push(0u8);
        },
        Some(k) => {
            out.push(1u8);
            push_bytes(&mut out, &k.value);
        },
    }
    match &p.signature {
        None => {
            out.push(0u8);
        },
        Some(s) => {
            out.push(1u8);
            push_bytes(&mut out, &s.value);
        },
    }
    proof {
        assert(out@ =~= spec_encode_packet(p@));
    }
    out
}

/// Serializes an acknowledgment payload.
pub fn encode_ack(a: &AckPacket) -> (r: Vec<u8>)
    ensures
        r@ == spec_encode_ack(a@),
{
    proof {
        assert(a.protocol_data.len() == a.protocol_data@.len());
    }
    let mut out: Vec<u8> = Vec::new();
    out.push(tag_byte(a.protocol_type));
    let len_bytes = u64_to_le_bytes(a.protocol_data.len() as u64);
    push_bytes(&mut out, &len_bytes);
    push_bytes(&mut out, &a.protocol_data);
    let hash_bytes = u64_to_le_bytes(a.hash_value);
    push_bytes(&mut out, &hash_bytes);
    proof {
        assert(out@ =~= spec_encode_ack(a@));
    }
    out
}

/// Deserializes a packet; fails on anything that is not exactly the
/// encoding of a well-formed packet.
pub fn decode_packet(bytes: &Vec<u8>) -> (r: Result<ProtocolPacket, Error>)
    ensures
        r matches Ok(p) ==> p.wf() && spec_decode_packet(bytes@) == Some(p@),
        r is Err ==> spec_decode_packet(bytes@) is None && r == Err::<ProtocolPacket, Error>(
            Error::MalformedPacket,
        ),
{
    proof {
        assert(bytes.len() == bytes@.len());
    }
    if bytes.len() < 9 {
        return Err(Error::MalformedPacket);
    }
    let t = match type_of_tag(bytes[0]) {
        Some(t) => t,
        None => {
            return Err(Error::MalformedPacket);
        },
    };
    let len_slice = vstd::slice::slice_subrange(bytes.as_slice(), 1, 9);
    let dlen64 = u64_from_le_bytes(len_slice);
    if dlen64 > (bytes.len() as u64) - 9 {
        return Err(Error::MalformedPacket);
    }
    let dlen = dlen64 as usize;
    let data = vec_subrange(bytes, 9, 9 + dlen);
    let mut pos: usize = 9 + dlen;
    let ghost pos1 = pos as int;
    let ghost rest = bytes@.subrange(pos1, bytes@.len() as int);

    // optional signer key
    if bytes.len() - pos < 1 {
        return Err(Error::MalformedPacket);
    }
    let id_tag = bytes[pos];
    let protocol_id: Option<PublicKey>;
    if id_tag == 0 {
        protocol_id = None;
        pos = pos + 1;
    } else if id_tag == 1 {
        if bytes.len() - pos - 1 < CRYPTO_PUBLICKEYBYTES {
            proof {
                assert(rest.len() < 1 + CRYPTO_PUBLICKEYBYTES);
            }
            return Err(Error::MalformedPacket);
        }
        let kv = vec_subrange(bytes, pos + 1, pos + 1 + CRYPTO_PUBLICKEYBYTES);
        protocol_id = Some(PublicKey { value: kv });
        pos = pos + 1 + CRYPTO_PUBLICKEYBYTES;
    } else {
        return Err(Error::MalformedPacket);
    }
    let ghost pos2 = pos as int;
    let ghost rest2 = bytes@.subrange(pos2, bytes@.len() as int);
    let ghost idm: Option<Seq<u8>> = match &protocol_id {
        Some(k) => Some(k.value@),
        None => None,
    };
    proof {
        if idm is None {
            assert(rest.subrange(1, rest.len() as int) =~= rest2);
        } else {
            assert(rest.subrange(1, 1 + CRYPTO_PUBLICKEYBYTES as int) =~= bytes@.subrange(
                pos1 + 1,
                pos1 + 1 + CRYPTO_PUBLICKEYBYTES as int,
            ));
            assert(rest.subrange(1 + CRYPTO_PUBLICKEYBYTES as int, rest.len() as int) =~= rest2);
        }
        assert(spec_decode_opt(rest, CRYPTO_PUBLICKEYBYTES as nat) == Some((idm, rest2)));
    }

    // optional signature
    if bytes.len() - pos < 1 {
        return Err(Error::MalformedPacket);
    }
    let sig_tag = bytes[pos];
    let signature: Option<Signature>;
    if sig_tag == 0 {
        signature = None;
        pos = pos + 1;
    } else if sig_tag == 1 {
        if bytes.len() - pos - 1 < SIGNATURE_BYTES {
            proof {
                assert(rest2.len() < 1 + SIGNATURE_BYTES);
            }
            return Err(Error::MalformedPacket);
        }
        let sv = vec_subrange(bytes, pos + 1, pos + 1 + SIGNATURE_BYTES);
        signature = Some(Signature { value: sv });
        pos = pos + 1 + SIGNATURE_BYTES;
    } else {
        return Err(Error::MalformedPacket);
    }
    let ghost pos3 = pos as int;
    let ghost rest3 = bytes@.subrange(pos3, bytes@.len() as int);
    let ghost sigm: Option<Seq<u8>> = match &signature {
        Some(s) => Some(s.value@),
        None => None,
    };
    proof {
        if sigm is None {
            assert(rest2.subrange(1, rest2.len() as int) =~= rest3);
        } else {
            assert(rest2.subrange(1, 1 + SIGNATURE_BYTES as int) =~= bytes@.subrange(
                pos2 + 1,
                pos2 + 1 + SIGNATURE_BYTES as int,
            ));
            assert(rest2.subrange(1 + SIGNATURE_BYTES as int, rest2.len() as int) =~= rest3);
        }
        assert(spec_decode_opt(rest2, SIGNATURE_BYTES as nat) == Some((sigm, rest3)));
    }

    if pos != bytes.len() {
        return Err(Error::MalformedPacket);
    }
    let p = ProtocolPacket { protocol_type: t, data, protocol_id, signature };
    proof {
        assert(rest3.len() == 0);
        assert(spec_decode_packet(bytes@) == Some(p@));
    }
    Ok(p)
}

/// Deserializes an acknowledgment payload; fails on anything that is not
/// exactly the encoding of a well-formed acknowledgment.
pub fn decode_ack(bytes: &Vec<u8>) -> (r: Result<AckPacket, Error>)
    ensures
        r matches Ok(a) ==> spec_decode_ack(bytes@) == Some(a@),
        r is Err ==> spec_decode_ack(bytes@) is None && r == Err::<AckPacket, Error>(
            Error::MalformedPacket,
        ),
{
    proof {
        assert(bytes.len() == bytes@.len());
    }
    if bytes.len() < 9 {
        return Err(Error::MalformedPacket);
    }
    let t = match type_of_tag(bytes[0]) {
        Some(t) => t,
        None => {
            return Err(Error::MalformedPacket);
        },
    };
    let len_slice = vstd::slice::slice_subrange(bytes.as_slice(), 1, 9);
    let dlen64 = u64_from_le_bytes(len_slice);
    if bytes.len() < 17 {
        return Err(Error::MalformedPacket);
    }
    if dlen64 != (bytes.len() as u64) - 17 {
        return Err(Error::MalformedPacket);
    }
    let dlen = dlen64 as usize;
    let data = vec_subrange(bytes, 9, 9 + dlen);
    let hash_slice = vstd::slice::slice_subrange(bytes.as_slice(), 9 + dlen, 9 + dlen + 8);
    let hash_value = u64_from_le_bytes(hash_slice);
    let a = AckPacket { protocol_type: t, protocol_data: data, hash_value };
    proof {
        assert(spec_decode_ack(bytes@) == Some(a@));
    }
    Ok(a)
}

} // verus!
