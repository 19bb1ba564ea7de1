//! Key and signature containers, and the opaque signing capability.
//!
//! The byte lengths match the SQIsign level-1 parameter set used by the
//! cluster's deployment.  The cryptographic operations themselves are not
//! part of this crate: the consensus engine only ever reaches them through
//! the [`Signer`] capability, which the embedding application implements.

use vstd::prelude::*;

use crate::error::Error;
use crate::util::copy_bytes;
use crate::util::zero_bytes;

verus! {

/// Length in bytes of a secret key.
pub const CRYPTO_SECRETKEYBYTES: usize = 782;

/// Length in bytes of a public key.
pub const CRYPTO_PUBLICKEYBYTES: usize = 64;

/// Length in bytes of a detached signature, without the message suffix.
pub const CRYPTO_BYTES: usize = 177;

/// Length in bytes of a full signature as carried on the wire.
pub const SIGNATURE_BYTES: usize = CRYPTO_BYTES + 32;

/// A public key, used on the wire to identify the sending peer.
#[derive(Debug)]
pub struct PublicKey {
    pub value: Vec<u8>,
}

impl PublicKey {
    /// A public key is well formed when it holds exactly the fixed number of
    /// key bytes.
    pub open spec fn wf(&self) -> bool {
        self.value@.len() == CRYPTO_PUBLICKEYBYTES
    }

    /// The all-zero public key.
    pub fn new() -> (r: Self)
        ensures
            r.wf(),
            forall|i: int| 0 <= i < CRYPTO_PUBLICKEYBYTES ==> r.value@[i] == 0u8,
    {
        PublicKey { value: zero_bytes(CRYPTO_PUBLICKEYBYTES) }
    }

    /// Builds a public key from raw bytes; fails unless exactly the fixed
    /// number of key bytes is given.
    pub fn from_vec(value: Vec<u8>) -> (r: Result<Self, Error>)
        ensures
            value@.len() == CRYPTO_PUBLICKEYBYTES ==> (r matches Ok(k) && k.value@ == value@),
            value@.len() != CRYPTO_PUBLICKEYBYTES ==> r == Err::<PublicKey, Error>(
                Error::InvalidLength,
            ),
    {
        if value.len() != CRYPTO_PUBLICKEYBYTES {
            return Err(Error::InvalidLength);
        }
        Ok(PublicKey { value })
    }
}

impl Clone for PublicKey {
    fn clone(&self) -> (r: Self)
        ensures
            r.value@ == self.value@,
    {
        PublicKey { value: copy_bytes(&self.value) }
    }
}

impl PartialEq for PublicKey {
    fn eq(&self, other: &Self) -> (r: bool) {
        crate::util::bytes_equal(&self.value, &other.value)
    }
}

impl Eq for PublicKey {

}

impl vstd::std_specs::cmp::PartialEqSpecImpl for PublicKey {
    open spec fn obeys_eq_spec() -> bool {
        true
    }

    open spec fn eq_spec(&self, other: &PublicKey) -> bool {
        self.value@ == other.value@
    }
}

/// A secret key, held locally and handed to the [`Signer`] when signing.
#[derive(Debug)]
pub struct SecretKey {
    pub value: Vec<u8>,
}

impl SecretKey {
    /// A secret key is well formed when it holds exactly the fixed number of
    /// key bytes.
    pub open spec fn wf(&self) -> bool {
        self.value@.len() == CRYPTO_SECRETKEYBYTES
    }

    /// The all-zero secret key.
    pub fn new() -> (r: Self)
        ensures
            r.wf(),
            forall|i: int| 0 <= i < CRYPTO_SECRETKEYBYTES ==> r.value@[i] == 0u8,
    {
        SecretKey { value: zero_bytes(CRYPTO_SECRETKEYBYTES) }
    }
}

/// A signature over a serialized packet.
#[derive(Debug)]
pub struct Signature {
    pub value: Vec<u8>,
}

impl Signature {
    /// A signature is well formed when it holds exactly the fixed number of
    /// signature bytes.
    pub open spec fn wf(&self) -> bool {
        self.value@.len() == SIGNATURE_BYTES
    }

    /// The all-zero signature.
    pub fn new() -> (r: Self)
        ensures
            r.wf(),
            forall|i: int| 0 <= i < SIGNATURE_BYTES ==> r.value@[i] == 0u8,
    {
        Signature { value: zero_bytes(SIGNATURE_BYTES) }
    }

    /// Builds a signature from raw bytes; fails unless exactly the fixed
    /// number of signature bytes is given.
    pub fn from_vec(value: Vec<u8>) -> (r: Result<Self, Error>)
        ensures
            value@.len() == SIGNATURE_BYTES ==> (r matches Ok(s) && s.value@ == value@),
            value@.len() != SIGNATURE_BYTES ==> r == Err::<Signature, Error>(Error::InvalidLength),
    {
        if value.len() != SIGNATURE_BYTES {
            return Err(Error::InvalidLength);
        }
        Ok(Signature { value })
    }
}

impl Clone for Signature {
    fn clone(&self) -> (r: Self)
        ensures
            r.value@ == self.value@,
    {
        Signature { value: copy_bytes(&self.value) }
    }
}

/// The opaque signing capability the engine is handed at startup.
///
/// The cryptographic scheme lives outside this crate; implementations wrap
/// it and are free to behave arbitrarily, so nothing is promised about the
/// results.  The protocol logic never relies on more than the boolean answer
/// of `verify`.
pub trait Signer {
    /// Produces a signature over `message` with the local secret key.
    fn sign(&self, message: &Vec<u8>, secret_key: &SecretKey) -> Signature;

    /// Checks `signature` over `message` against `public_key`.
    fn verify(&self, message: &Vec<u8>, signature: &Signature, public_key: &PublicKey) -> bool;
}

} // verus!
