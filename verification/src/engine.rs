//! Per-packet dispatch decisions of the consensus engine.
//!
//! [`handle_packet`] is the decision core of a connection handler: given a
//! decoded packet, the (externally computed) signature verdict, the peer
//! directory and the clock, it updates the commit ledger and reports which
//! actions the caller must perform — invoke the application callback,
//! broadcast a signed acknowledgment, write a response back.  All I/O, the
//! signature scheme and the callback itself stay outside; every decision is
//! in here, specified against the ledger's transition functions.

use vstd::prelude::*;

use crate::codec::decode_ack;
use crate::codec::encode_ack;
use crate::codec::encode_packet;
use crate::codec::spec_decode_ack;
use crate::codec::spec_encode_ack;
use crate::consensus::AckPacket;
use crate::consensus::CLUSTER_SIZE;
use crate::consensus::ProtocolPacket;
use crate::consensus::ProtocolType;
use crate::consensus::QUORUM_SIZE;
use crate::error::Error;
use crate::fingerprint::spec_fingerprint;
use crate::ledger::CommitLedger;
use crate::ledger::spec_observe_ack;
use crate::ledger::spec_observe_write;
use crate::peers::identify_peer;
use crate::peers::lemma_peer_index_props;
use crate::peers::spec_peer_index;
use crate::pqc_sign::PublicKey;
use crate::pqc_sign::SIGNATURE_BYTES;
use crate::pqc_sign::SecretKey;
use crate::pqc_sign::Signature;
use crate::pqc_sign::Signer;
use crate::util::copy_bytes;

verus! {

/// What the connection handler must do after one packet was dispatched:
/// first broadcast the acknowledgment (signed) to every peer if one is
/// given, then invoke the application callback if an invocation is given,
/// and write the callback's result back on the connection if `respond`
/// holds.
#[derive(Debug)]
pub struct Dispatch {
    /// Kind and payload to hand to the application callback, if any.
    pub execute: Option<(ProtocolType, Vec<u8>)>,
    /// Acknowledgment to sign and send to every peer, if any.
    pub broadcast: Option<AckPacket>,
    /// Whether the callback's result is written back on the connection.
    pub respond: bool,
}

/// Dispatches one decoded packet.
///
/// `ack_sig_valid` is the signature verdict for acknowledgment packets,
/// computed by the caller with [`ProtocolPacket::verify`]; it is ignored
/// for reads and writes.  Every error leaves the ledger untouched: an
/// unauthenticated or unattributable acknowledgment never influences
/// consensus state, and a read never creates or mutates a record.
pub fn handle_packet(
    ledger: &mut CommitLedger,
    packet: ProtocolPacket,
    ack_sig_valid: bool,
    peer_keys: &Vec<PublicKey>,
    now: u64,
) -> (r: Result<Dispatch, Error>)
    requires
        old(ledger).wf(),
        packet.wf(),
        peer_keys@.len() < CLUSTER_SIZE,
    ensures
        final(ledger).wf(),
        r is Err ==> final(ledger)@ == old(ledger)@,
        packet.protocol_type is Read ==> {
            &&& final(ledger)@ == old(ledger)@
            &&& r matches Ok(d) && d.broadcast is None && d.respond && (d.execute matches Some(e)
                && e.0 is Read && e.1@ == packet.data@)
        },
        packet.protocol_type is Write ==> ({
            let (m2, brd, exe) = spec_observe_write(old(ledger)@, packet.data@, now);
            &&& final(ledger)@ == m2
            &&& r matches Ok(d)
            &&& d.respond == exe
            &&& (if exe {
                d.execute matches Some(e) && e.0 is Write && e.1@ == packet.data@
            } else {
                d.execute is None
            })
            &&& (if brd {
                d.broadcast matches Some(a) && a.protocol_type is Write && a.protocol_data@
                    == packet.data@ && a.hash_value == spec_fingerprint(packet.data@)
            } else {
                d.broadcast is None
            })
        }),
        packet.protocol_type is Ack && !ack_sig_valid ==> r == Err::<Dispatch, Error>(
            Error::InvalidSignature,
        ),
        packet.protocol_type is Ack && ack_sig_valid && packet.protocol_id is None ==> r == Err::<
            Dispatch,
            Error,
        >(Error::MissingIdentity),
        packet.protocol_type is Ack && ack_sig_valid ==> (packet.protocol_id matches Some(pk)
            ==> (if spec_peer_index(peer_keys@, pk.value@) is None {
            r == Err::<Dispatch, Error>(Error::UnknownPeer)
        } else if spec_decode_ack(packet.data@) is None {
            r == Err::<Dispatch, Error>(Error::MalformedPacket)
        } else {
            true
        })),
        packet.protocol_type is Ack && ack_sig_valid ==> (packet.protocol_id matches Some(pk)
            ==> (spec_peer_index(peer_keys@, pk.value@) matches Some(voter) ==> (spec_decode_ack(
            packet.data@,
        ) matches Some(ack) ==> ({
            let (m2, exe) = spec_observe_ack(
                old(ledger)@,
                ack.hash_value,
                voter,
                ack.protocol_type,
                ack.protocol_data,
                now,
            );
            &&& final(ledger)@ == m2
            &&& r matches Ok(d)
            &&& d.broadcast is None
            &&& d.respond == false
            &&& (if exe {
                d.execute matches Some(e) && e.0 == ack.protocol_type && e.1@ == ack.protocol_data
            } else {
                d.execute is None
            })
        })))),
{
    match packet.protocol_type {
        ProtocolType::Read => {
            Ok(
                Dispatch {
                    execute: Some((ProtocolType::Read, packet.data)),
                    broadcast: None,
                    respond: true,
                },
            )
        },
        ProtocolType::Write => {
            let outcome = ledger.observe_write(&packet.data, now);
            let fp = outcome.0;
            let brd = outcome.1;
            let exe = outcome.2;
            let broadcast = if brd {
                Some(
                    AckPacket {
                        protocol_type: ProtocolType::Write,
                        protocol_data: copy_bytes(&packet.data),
                        hash_value: fp,
                    },
                )
            } else {
                None
            };
            let execute = if exe {
                Some((ProtocolType::Write, packet.data))
            } else {
                None
            };
            Ok(Dispatch { execute, broadcast, respond: exe })
        },
        ProtocolType::Ack => {
            if !ack_sig_valid {
                return Err(Error::InvalidSignature);
            }
            let pk = match &packet.protocol_id {
                Some(pk) => pk,
                None => {
                    return Err(Error::MissingIdentity);
                },
            };
            let voter = match identify_peer(pk, peer_keys) {
                Some(n) => n,
                None => {
                    return Err(Error::UnknownPeer);
                },
            };
            let ack = match decode_ack(&packet.data) {
                Ok(a) => a,
                Err(_) => {
                    return Err(Error::MalformedPacket);
                },
            };
            proof {
                lemma_peer_index_props(peer_keys@, pk.value@);
            }
            let fired = ledger.observe_ack(
                ack.hash_value,
                voter as usize,
                ack.protocol_type,
                &ack.protocol_data,
                now,
            );
            let execute = if fired {
                Some((ack.protocol_type, ack.protocol_data))
            } else {
                None
            };
            Ok(Dispatch { execute, broadcast: None, respond: false })
        },
    }
}

/// Attaches a signature to the acknowledgment packet it was computed
/// over: wraps the serialized acknowledgment in a packet identified by
/// the local public key and carrying `sig`.  The outcome is fixed by the
/// signature's size alone: a signature of the fixed size yields exactly
/// that packet, any other size yields [`Error::InvalidLength`].
pub fn attach_signature(ack: &AckPacket, local_pk: &PublicKey, sig: Signature) -> (r: Result<
    ProtocolPacket,
    Error,
>)
    requires
        local_pk.wf(),
    ensures
        sig.value@.len() == SIGNATURE_BYTES ==> (r matches Ok(p) && {
            &&& p.wf()
            &&& p.protocol_type is Ack
            &&& p.data@ == spec_encode_ack(ack@)
            &&& (p.protocol_id matches Some(k) && k.value@ == local_pk.value@)
            &&& (p.signature matches Some(s) && s.value@ == sig.value@)
        }),
        sig.value@.len() != SIGNATURE_BYTES ==> r == Err::<ProtocolPacket, Error>(
            Error::InvalidLength,
        ),
{
    if sig.value.len() != SIGNATURE_BYTES {
        return Err(Error::InvalidLength);
    }
    let data = encode_ack(ack);
    proof {
        assert(data.len() == data@.len());
    }
    Ok(
        ProtocolPacket {
            protocol_type: ProtocolType::Ack,
            data,
            protocol_id: Some(local_pk.clone()),
            signature: Some(sig),
        },
    )
}

/// Builds the signed acknowledgment packet to broadcast: serializes the
/// acknowledgment payload, wraps it in a packet identified by the local
/// public key, signs the packet's serialization with the signature field
/// cleared, and attaches the signature through [`attach_signature`],
/// which fixes the outcome for every signature the capability can hand
/// back: it fails exactly when that signature has the wrong size.
pub fn build_signed_ack<S: Signer>(
    signer: &S,
    ack: &AckPacket,
    local_pk: &PublicKey,
    secret_key: &SecretKey,
) -> (r: Result<ProtocolPacket, Error>)
    requires
        local_pk.wf(),
    ensures
        r matches Ok(p) ==> {
            &&& p.wf()
            &&& p.protocol_type is Ack
            &&& p.data@ == spec_encode_ack(ack@)
            &&& (p.protocol_id matches Some(k) && k.value@ == local_pk.value@)
            &&& p.signature is Some
        },
        r is Err ==> r == Err::<ProtocolPacket, Error>(Error::InvalidLength),
{
    let data = encode_ack(ack);
    let unsigned = ProtocolPacket {
        protocol_type: ProtocolType::Ack,
        data,
        protocol_id: Some(local_pk.clone()),
        signature: None,
    };
    proof {
        assert(unsigned.data.len() == unsigned.data@.len());
    }
    let raw = encode_packet(&unsigned);
    let sig = signer.sign(&raw, secret_key);
    attach_signature(ack, local_pk, sig)
}

/// Number of responses whose payload fingerprints to `h`.
pub open spec fn count_matching(rs: Seq<Vec<u8>>, h: u64) -> nat
    decreases rs.len(),
{
    if rs.len() == 0 {
        0
    } else {
        count_matching(rs.drop_last(), h) + if spec_fingerprint(rs.last()@) == h {
            1nat
        } else {
            0nat
        }
    }
}

/// Extending the counted prefix by one response adds its match.
proof fn lemma_count_matching_prefix(rs: Seq<Vec<u8>>, h: u64, j: int)
    requires
        0 <= j < rs.len(),
    ensures
        count_matching(rs.subrange(0, j + 1), h) == count_matching(rs.subrange(0, j), h) + if
            spec_fingerprint(rs[j]@) == h {
            1int
        } else {
            0int
        },
{
    assert(rs.subrange(0, j + 1).drop_last() =~= rs.subrange(0, j));
    assert(rs.subrange(0, j + 1).last() == rs[j]);
}

/// Position of the first response, from `i` on, whose fingerprint is
/// shared by at least [`QUORUM_SIZE`] responses, if any.
pub open spec fn spec_select_from(rs: Seq<Vec<u8>>, i: int) -> Option<int>
    recommends
        0 <= i,
    decreases rs.len() - i,
{
    if i >= rs.len() {
        None
    } else if count_matching(rs, spec_fingerprint(rs[i]@)) >= QUORUM_SIZE {
        Some(i)
    } else {
        spec_select_from(rs, i + 1)
    }
}

/// Picks the first of the peers' responses whose content at least
/// [`QUORUM_SIZE`] responses agree on, compared by fingerprint; yields
/// nothing when no response reaches that agreement.
pub fn select_quorum_response(responses: &Vec<Vec<u8>>) -> (r: Option<Vec<u8>>)
    ensures
        (r is None) == (spec_select_from(responses@, 0) is None),
        r matches Some(v) ==> (spec_select_from(responses@, 0) matches Some(i) && v@
            == responses@[i]@),
{
    let n = responses.len();
    let mut hashes: Vec<u64> = Vec::new();
    let mut j: usize = 0;
    while j < n
        invariant
            n == responses@.len(),
            j <= n,
            hashes@.len() == j,
            forall|k: int| 0 <= k < j ==> hashes@[k] == spec_fingerprint(responses@[k]@),
        decreases n - j,
    {
        let rj = vstd::std_specs::vec::vec_index(responses, j);
        hashes.push(crate::fingerprint::hash_data(rj));
        j = j + 1;
    }
    let mut i: usize = 0;
    while i < n
        invariant
            n == responses@.len(),
            i <= n,
            hashes@.len() == n,
            forall|k: int| 0 <= k < n ==> hashes@[k] == spec_fingerprint(responses@[k]@),
            spec_select_from(responses@, 0) == spec_select_from(responses@, i as int),
        decreases n - i,
    {
        let hi = hashes[i];
        let mut count: usize = 0;
        let mut j2: usize = 0;
        proof {
            assert(responses@.subrange(0, 0) =~= Seq::<Vec<u8>>::empty());
        }
        while j2 < n
            invariant
                n == responses@.len(),
                j2 <= n,
                hashes@.len() == n,
                forall|k: int| 0 <= k < n ==> hashes@[k] == spec_fingerprint(responses@[k]@),
                count == count_matching(responses@.subrange(0, j2 as int), hi),
                count <= j2,
            decreases n - j2,
        {
            proof {
                lemma_count_matching_prefix(responses@, hi, j2 as int);
            }
            if hashes[j2] == hi {
                count = count + 1;
            }
            j2 = j2 + 1;
        }
        proof {
            assert(responses@.subrange(0, n as int) =~= responses@);
        }
        if count >= QUORUM_SIZE {
            let picked = vstd::std_specs::vec::vec_index(responses, i);
            let out = copy_bytes(picked);
            proof {
                assert(spec_select_from(responses@, i as int) == Some(i as int));
            }
            return Some(out);
        }
        proof {
            assert(spec_select_from(responses@, i as int) == spec_select_from(
                responses@,
                i as int + 1,
            ));
        }
        i = i + 1;
    }
    None
}

} // verus!
