//! Content fingerprinting of request payloads.
//!
//! Every node derives the same 64-bit fingerprint from the same payload
//! bytes, so independently received copies of one request converge on one
//! commit-ledger entry.  The fingerprint is a content address for
//! deduplication only, not a cryptographic commitment: committing still
//! requires a quorum of signature-checked votes.

use std::collections::hash_map::DefaultHasher;
use std::hash::Hasher;
use vstd::prelude::*;
use vstd::std_specs::hash::DefaultHasherAdditionalSpecFns;

verus! {

/// The fingerprint of a payload: the digest the standard hasher yields
/// after a single write of the payload bytes.  A function of the bytes
/// alone, so equal payloads always fingerprint equally.
pub open spec fn spec_fingerprint(data: Seq<u8>) -> u64 {
    DefaultHasher::spec_finish(seq![data])
}

/// Computes the content fingerprint of `data`.
pub fn hash_data(data: &Vec<u8>) -> (r: u64)
    ensures
        r == spec_fingerprint(data@),
{
    let mut hasher = DefaultHasher::new();
    hasher.write(data.as_slice());
    proof {
        assert(hasher@ =~= seq![data@]);
    }
    hasher.finish()
}

/// Fingerprinting is deterministic: the same payload bytes always produce
/// the same fingerprint, on every node.
pub proof fn lemma_fingerprint_deterministic(a: Seq<u8>, b: Seq<u8>)
    requires
        a == b,
    ensures
        spec_fingerprint(a) == spec_fingerprint(b),
{
}

} // verus!
