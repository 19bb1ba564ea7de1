//! The document-store request and response payloads that ride inside the
//! consensus packets, with their own verified binary codec.
//!
//! The consensus core treats every payload as opaque bytes; these are the
//! shapes the application callback decodes them into.  An `i64` document
//! identifier is carried as its 8 little-endian two's-complement bytes.

use vstd::bytes::lemma_auto_spec_u64_to_from_le_bytes;
use vstd::bytes::spec_u64_from_le_bytes;
use vstd::bytes::spec_u64_to_le_bytes;
use vstd::bytes::u64_from_le_bytes;
use vstd::bytes::u64_to_le_bytes;
use vstd::prelude::*;

use crate::error::Error;
use crate::pqc_sign::CRYPTO_PUBLICKEYBYTES;
use crate::pqc_sign::PublicKey;
use crate::util::push_bytes;
use crate::util::vec_subrange;

verus! {

/// A request to read the document stored under a DID.
#[derive(Debug)]
pub struct ReadDocRequest {
    /// The requested document identifier.
    pub request_did: i64,
}

/// Which kind of document write is requested.
#[derive(Clone, Copy, Debug, PartialEq, Eq, Structural)]
pub enum WriteType {
    CreateWallet,
    IssueCert,
    RegisterCert,
}

/// A document write: the kind and the serialized kind-specific request.
#[derive(Debug)]
pub struct WriteDocRequest {
    /// Kind of the write.
    pub write_type: WriteType,
    /// The serialized kind-specific request.
    pub value: Vec<u8>,
}

/// A request to create a wallet document binding a DID to a public key.
#[derive(Debug)]
pub struct CreateWalletRequest {
    /// The new document identifier.
    pub did: i64,
    /// The owner's public key.
    pub public_key: PublicKey,
}

/// The identifier of a freshly created wallet document.
pub struct CreateWalletResponse {
    /// The new document identifier.
    pub did: i64,
}

/// The identifier of a freshly issued certificate document.
pub struct IssueCertResponse {
    /// The new document identifier.
    pub did: i64,
}

/// The identifier of a freshly registered certificate document.
pub struct RegisterCertResponse {
    /// The new document identifier.
    pub did: i64,
}

/// Outcome of a certificate verification query.
pub struct VerifyResult {
    /// Whether the certificate checked out.
    pub value: bool,
}

impl VerifyResult {
    /// Wraps a verification outcome.
    pub fn new(value: bool) -> (r: Self)
        ensures
            r.value == value,
    {
        VerifyResult { value }
    }
}

/// The 8 little-endian bytes of a document identifier.
pub open spec fn spec_encode_i64(x: i64) -> Seq<u8> {
    spec_u64_to_le_bytes(x as u64)
}

/// The document identifier 8 little-endian bytes stand for.
pub open spec fn spec_decode_i64(s: Seq<u8>) -> i64
    recommends
        s.len() == 8,
{
    spec_u64_from_le_bytes(s) as i64
}

/// Decoding 8 identifier bytes undoes encoding them, and the other way
/// round.
pub proof fn lemma_i64_roundtrip(x: i64)
    ensures
        spec_decode_i64(spec_encode_i64(x)) == x,
{
    lemma_auto_spec_u64_to_from_le_bytes();
    assert(x as u64 as i64 == x) by (bit_vector);
}

/// Serializes a document identifier.
pub fn encode_i64(x: i64) -> (r: Vec<u8>)
    ensures
        r@ == spec_encode_i64(x),
        r@.len() == 8,
{
    proof {
        lemma_auto_spec_u64_to_from_le_bytes();
    }
    u64_to_le_bytes(x as u64)
}

/// Deserializes a document identifier from exactly 8 bytes.
pub fn decode_i64(bytes: &[u8]) -> (r: i64)
    requires
        bytes@.len() == 8,
    ensures
        r == spec_decode_i64(bytes@),
{
    let x = u64_from_le_bytes(bytes);
    x as i64
}

/// The encoding of a read request: the 8 identifier bytes alone.
pub open spec fn spec_encode_read_doc(r: ReadDocRequest) -> Seq<u8> {
    spec_encode_i64(r.request_did)
}

/// Decodes a read request, accepting exactly 8 bytes.
pub open spec fn spec_decode_read_doc(s: Seq<u8>) -> Option<ReadDocRequest> {
    if s.len() != 8 {
        None
    } else {
        Some((ReadDocRequest { request_did: spec_decode_i64(s) }))
    }
}

/// Decoding a read request undoes encoding it.
pub proof fn lemma_read_doc_roundtrip(r: ReadDocRequest)
    ensures
        spec_decode_read_doc(spec_encode_read_doc(r)) == Some(r),
{
    lemma_auto_spec_u64_to_from_le_bytes();
    lemma_i64_roundtrip(r.request_did);
}

/// Serializes a read request.
pub fn encode_read_doc(r: &ReadDocRequest) -> (out: Vec<u8>)
    ensures
        out@ == spec_encode_read_doc(*r),
{
    encode_i64(r.request_did)
}

/// Deserializes a read request; fails unless given exactly its encoding.
pub fn decode_read_doc(bytes: &Vec<u8>) -> (r: Result<ReadDocRequest, Error>)
    ensures
        r matches Ok(q) ==> spec_decode_read_doc(bytes@) == Some(q),
        r is Err ==> spec_decode_read_doc(bytes@) is None && r == Err::<ReadDocRequest, Error>(
            Error::MalformedPacket,
        ),
{
    proof {
        assert(bytes.len() == bytes@.len());
    }
    if bytes.len() != 8 {
        return Err(Error::MalformedPacket);
    }
    let did = decode_i64(bytes.as_slice());
    Ok(ReadDocRequest { request_did: did })
}

/// The tag byte of each write kind.
pub open spec fn spec_write_tag(t: WriteType) -> u8 {
    match t {
        WriteType::CreateWallet => 0u8,
        WriteType::IssueCert => 1u8,
        WriteType::RegisterCert => 2u8,
    }
}

/// The write kind a tag byte stands for, if any.
pub open spec fn spec_write_type_of_tag(b: u8) -> Option<WriteType> {
    if b == 0 {
        Some(WriteType::CreateWallet)
    } else if b == 1 {
        Some(WriteType::IssueCert)
    } else if b == 2 {
        Some(WriteType::RegisterCert)
    } else {
        None
    }
}

/// The abstract content of a document write request.
pub ghost struct WriteDocModel {
    /// Kind of the write.
    pub write_type: WriteType,
    /// The serialized kind-specific request.
    pub value: Seq<u8>,
}

impl View for WriteDocRequest {
    type V = WriteDocModel;

    open spec fn view(&self) -> WriteDocModel {
        WriteDocModel { write_type: self.write_type, value: self.value@ }
    }
}

/// The encoding of a document write: the kind's tag byte, then the
/// kind-specific request bytes to the end.
pub open spec fn spec_encode_write_doc(m: WriteDocModel) -> Seq<u8> {
    seq![spec_write_tag(m.write_type)] + m.value
}

/// Decodes a document write, accepting exactly the encodings.
pub open spec fn spec_decode_write_doc(s: Seq<u8>) -> Option<WriteDocModel> {
    if s.len() < 1 {
        None
    } else {
        match spec_write_type_of_tag(s[0]) {
            None => None,
            Some(t) => Some(
                (WriteDocModel { write_type: t, value: s.subrange(1, s.len() as int) }),
            ),
        }
    }
}

/// Decoding a document write undoes encoding it.
pub proof fn lemma_write_doc_roundtrip(m: WriteDocModel)
    ensures
        spec_decode_write_doc(spec_encode_write_doc(m)) == Some(m),
{
    let s = spec_encode_write_doc(m);
    assert(s.subrange(1, s.len() as int) =~= m.value);
}

/// Serializes a document write.
pub fn encode_write_doc(w: &WriteDocRequest) -> (r: Vec<u8>)
    ensures
        r@ == spec_encode_write_doc(w@),
{
    let mut out: Vec<u8> = Vec::new();
    out.push(
        match w.write_type {
            WriteType::CreateWallet => 0u8,
            WriteType::IssueCert => 1u8,
            WriteType::RegisterCert => 2u8,
        },
    );
    push_bytes(&mut out, &w.value);
    proof {
        assert(out@ =~= spec_encode_write_doc(w@));
    }
    out
}

/// Deserializes a document write; fails unless given exactly an encoding.
pub fn decode_write_doc(bytes: &Vec<u8>) -> (r: Result<WriteDocRequest, Error>)
    ensures
        r matches Ok(w) ==> spec_decode_write_doc(bytes@) == Some(w@),
        r is Err ==> spec_decode_write_doc(bytes@) is None && r == Err::<WriteDocRequest, Error>(
            Error::MalformedPacket,
        ),
{
    proof {
        assert(bytes.len() == bytes@.len());
    }
    if bytes.len() < 1 {
        return Err(Error::MalformedPacket);
    }
    let t = if bytes[0] == 0 {
        WriteType::CreateWallet
    } else if bytes[0] == 1 {
        WriteType::IssueCert
    } else if bytes[0] == 2 {
        WriteType::RegisterCert
    } else {
        return Err(Error::MalformedPacket);
    };
    let value = vec_subrange(bytes, 1, bytes.len());
    Ok(WriteDocRequest { write_type: t, value })
}

/// The abstract content of a wallet-creation request.
pub ghost struct CreateWalletModel {
    /// The new document identifier.
    pub did: i64,
    /// Bytes of the owner's public key.
    pub public_key: Seq<u8>,
}

impl View for CreateWalletRequest {
    type V = CreateWalletModel;

    open spec fn view(&self) -> CreateWalletModel {
        CreateWalletModel { did: self.did, public_key: self.public_key.value@ }
    }
}

/// A wallet-creation request is well formed when its key has the fixed
/// key size.
pub open spec fn spec_create_wallet_wf(m: CreateWalletModel) -> bool {
    m.public_key.len() == CRYPTO_PUBLICKEYBYTES
}

/// The encoding of a wallet creation: the 8 identifier bytes, then the
/// key bytes at their fixed size.
pub open spec fn spec_encode_create_wallet(m: CreateWalletModel) -> Seq<u8> {
    spec_encode_i64(m.did) + m.public_key
}

/// Decodes a wallet creation, accepting exactly the encodings of
/// well-formed requests.
pub open spec fn spec_decode_create_wallet(s: Seq<u8>) -> Option<CreateWalletModel> {
    if s.len() != 8 + CRYPTO_PUBLICKEYBYTES {
        None
    } else {
        Some(
            (CreateWalletModel {
                did: spec_decode_i64(s.subrange(0, 8)),
                public_key: s.subrange(8, s.len() as int),
            }),
        )
    }
}

/// Decoding a wallet creation undoes encoding it.
pub proof fn lemma_create_wallet_roundtrip(m: CreateWalletModel)
    requires
        spec_create_wallet_wf(m),
    ensures
        spec_decode_create_wallet(spec_encode_create_wallet(m)) == Some(m),
{
    lemma_auto_spec_u64_to_from_le_bytes();
    let s = spec_encode_create_wallet(m);
    assert(s.subrange(0, 8) =~= spec_encode_i64(m.did));
    assert(s.subrange(8, s.len() as int) =~= m.public_key);
    lemma_i64_roundtrip(m.did);
}

/// Serializes a wallet-creation request.
pub fn encode_create_wallet(c: &CreateWalletRequest) -> (r: Vec<u8>)
    requires
        c.public_key.wf(),
    ensures
        r@ == spec_encode_create_wallet(c@),
{
    let mut out = encode_i64(c.did);
    push_bytes(&mut out, &c.public_key.value);
    proof {
        assert(out@ =~= spec_encode_create_wallet(c@));
    }
    out
}

/// Deserializes a wallet-creation request; fails unless given exactly an
/// encoding.
pub fn decode_create_wallet(bytes: &Vec<u8>) -> (r: Result<CreateWalletRequest, Error>)
    ensures
        r matches Ok(c) ==> c.public_key.wf() && spec_decode_create_wallet(bytes@) == Some(c@),
        r is Err ==> spec_decode_create_wallet(bytes@) is None && r == Err::<
            CreateWalletRequest,
            Error,
        >(Error::MalformedPacket),
{
    proof {
        assert(bytes.len() == bytes@.len());
    }
    if bytes.len() != 8 + CRYPTO_PUBLICKEYBYTES {
        return Err(Error::MalformedPacket);
    }
    let did_slice = vstd::slice::slice_subrange(bytes.as_slice(), 0, 8);
    let did = decode_i64(did_slice);
    let key = vec_subrange(bytes, 8, bytes.len());
    Ok(CreateWalletRequest { did, public_key: PublicKey { value: key } })
}

} // verus!
