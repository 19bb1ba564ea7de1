//! Resolution of a signer's public key to its peer directory index.
//!
//! The directory is the ordered list of the remote peers' public keys.
//! Index `0` of the vote bitmap is reserved for the local replica, so the
//! peer at list position `i` votes at index `i + 1`.

use vstd::prelude::*;

use crate::pqc_sign::PublicKey;
use crate::util::bytes_equal;

verus! {

/// The vote index of the first directory entry whose key bytes equal
/// `pk`, if any: list position plus one, since index zero is the local
/// replica.
pub open spec fn spec_peer_index(keys: Seq<PublicKey>, pk: Seq<u8>) -> Option<int>
    decreases keys.len(),
{
    if keys.len() == 0 {
        None
    } else if keys[0].value@ == pk {
        Some(1int)
    } else {
        match spec_peer_index(keys.drop_first(), pk) {
            Some(n) => Some(n + 1),
            None => None,
        }
    }
}

/// Shifts a found index by `k`.
pub open spec fn shift_opt(o: Option<int>, k: int) -> Option<int> {
    match o {
        Some(n) => Some(n + k),
        None => None,
    }
}

/// A found index names a matching key within bounds; no index means no
/// directory entry matches.
pub proof fn lemma_peer_index_props(keys: Seq<PublicKey>, pk: Seq<u8>)
    ensures
        spec_peer_index(keys, pk) matches Some(n) ==> 1 <= n <= keys.len() && keys[n
            - 1].value@ == pk,
        spec_peer_index(keys, pk) is None ==> forall|j: int|
            0 <= j < keys.len() ==> keys[j].value@ != pk,
    decreases keys.len(),
{
    if keys.len() > 0 && keys[0].value@ != pk {
        lemma_peer_index_props(keys.drop_first(), pk);
        assert forall|j: int| 1 <= j < keys.len() implies keys[j] == keys.drop_first()[j - 1] by {
        }
    }
}

/// Skipping past one non-matching entry shifts the found index by one.
proof fn lemma_peer_index_skip(keys: Seq<PublicKey>, pk: Seq<u8>, i: int)
    requires
        0 <= i < keys.len(),
        keys[i].value@ != pk,
    ensures
        spec_peer_index(keys.skip(i), pk) == shift_opt(spec_peer_index(keys.skip(i + 1), pk), 1),
{
    assert(keys.skip(i).drop_first() =~= keys.skip(i + 1));
    assert(keys.skip(i)[0] == keys[i]);
}

/// Resolves a public key to the vote index of the first directory entry
/// carrying it, or nothing if the key is absent from the directory.
pub fn identify_peer(pubkey: &PublicKey, peer_keys: &Vec<PublicKey>) -> (r: Option<u8>)
    requires
        peer_keys@.len() < 255,
    ensures
        (r is None) == (spec_peer_index(peer_keys@, pubkey.value@) is None),
        r matches Some(n) ==> spec_peer_index(peer_keys@, pubkey.value@) == Some(n as int),
{
    let ghost pkv = pubkey.value@;
    let mut i: usize = 0;
    proof {
        assert(peer_keys@.skip(0) =~= peer_keys@);
    }
    while i < peer_keys.len()
        invariant
            pkv == pubkey.value@,
            i <= peer_keys@.len() < 255,
            spec_peer_index(peer_keys@, pkv) == shift_opt(
                spec_peer_index(peer_keys@.skip(i as int), pkv),
                i as int,
            ),
        decreases peer_keys@.len() - i,
    {
        let ki = vstd::std_specs::vec::vec_index(peer_keys, i);
        let matched = bytes_equal(&ki.value, &pubkey.value);
        if matched {
            proof {
                assert(peer_keys@[i as int].value@ == pkv);
                assert(peer_keys@.skip(i as int).len() == peer_keys@.len() - i);
                assert(peer_keys@.skip(i as int)[0] == peer_keys@[i as int]);
                assert(spec_peer_index(peer_keys@.skip(i as int), pkv) == Some(1int));
            }
            return Some((i + 1) as u8);
        }
        proof {
            assert(peer_keys@[i as int].value@ != pkv);
            lemma_peer_index_skip(peer_keys@, pkv, i as int);
        }
        i = i + 1;
    }
    proof {
        assert(peer_keys@.skip(peer_keys@.len() as int) =~= Seq::<PublicKey>::empty());
    }
    None
}

} // verus!
