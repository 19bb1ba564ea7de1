//! Wire packet shapes and the per-record quorum-tracking state.

use vstd::prelude::*;

use crate::pqc_sign::PublicKey;
use crate::pqc_sign::Signature;

verus! {

/// Fault-tolerance parameter of the cluster: up to this many replicas may be
/// faulty or unresponsive.
pub const CONSENSUS_THRESHOLD: usize = 1;

/// Number of replicas in the cluster.
pub const CLUSTER_SIZE: usize = 3 * CONSENSUS_THRESHOLD + 1;

/// Number of distinct votes needed before a request is executed.
pub const QUORUM_SIZE: usize = 2 * CONSENSUS_THRESHOLD + 1;

/// Tag of a wire packet: reads and writes come from clients, acknowledgments
/// are internal to the protocol.
#[derive(Clone, Copy, Debug, PartialEq, Eq, Structural)]
pub enum ProtocolType {
    Read,
    Write,
    Ack,
}

/// The abstract content of one wire packet, as the codec contracts speak
/// of it.
pub ghost struct PacketModel {
    /// Kind of the message.
    pub protocol_type: ProtocolType,
    /// The carried payload bytes.
    pub data: Seq<u8>,
    /// Bytes of the sending peer's public key, if identified.
    pub protocol_id: Option<Seq<u8>>,
    /// Bytes of the signature, if signed.
    pub signature: Option<Seq<u8>>,
}

/// A packet is well formed when its optional key and signature have their
/// fixed sizes and its payload length fits the wire's length field.
pub open spec fn spec_packet_wf(m: PacketModel) -> bool {
    &&& (m.protocol_id matches Some(k) ==> k.len() == crate::pqc_sign::CRYPTO_PUBLICKEYBYTES)
    &&& (m.signature matches Some(s) ==> s.len() == crate::pqc_sign::SIGNATURE_BYTES)
    &&& m.data.len() <= u64::MAX
}

/// One wire packet.  Identity and signature are populated only on
/// acknowledgments; the signature covers the packet serialized with the
/// signature field cleared.
#[derive(Debug)]
pub struct ProtocolPacket {
    /// Kind of the message.
    pub protocol_type: ProtocolType,
    /// The carried payload bytes.
    pub data: Vec<u8>,
    /// Public key identifying the sending peer.
    pub protocol_id: Option<PublicKey>,
    /// Signature authenticating the sending peer.
    pub signature: Option<Signature>,
}

impl View for ProtocolPacket {
    type V = PacketModel;

    open spec fn view(&self) -> PacketModel {
        PacketModel {
            protocol_type: self.protocol_type,
            data: self.data@,
            protocol_id: match self.protocol_id {
                Some(k) => Some(k.value@),
                None => None,
            },
            signature: match self.signature {
                Some(s) => Some(s.value@),
                None => None,
            },
        }
    }
}

impl ProtocolPacket {
    /// A packet is well formed when its optional key and signature have
    /// their fixed sizes and its payload length fits the wire's length
    /// field.
    pub open spec fn wf(&self) -> bool {
        spec_packet_wf(self@)
    }

    /// Builds an unsigned, unidentified packet around a payload.
    pub fn new(protocol_type: ProtocolType, data: Vec<u8>) -> (r: Self)
        ensures
            r.protocol_type == protocol_type,
            r.data@ == data@,
            r.protocol_id is None,
            r.signature is None,
            r.wf(),
    {
        proof {
            assert(data.len() == data@.len());
        }
        ProtocolPacket { protocol_type, data, protocol_id: None, signature: None }
    }

    /// Checks the packet's signature against its declared signer identity:
    /// re-serializes the packet with the signature field cleared (so the
    /// signature never covers itself) and asks the signing capability.
    /// A packet without both a signature and an identity never verifies.
    pub fn verify<S: crate::pqc_sign::Signer>(&self, signer: &S) -> (r: bool)
        requires
            self.wf(),
        ensures
            self.signature is None || self.protocol_id is None ==> r == false,
    {
        match (&self.signature, &self.protocol_id) {
            (Some(sig), Some(pk)) => {
                let unsigned = ProtocolPacket {
                    protocol_type: self.protocol_type,
                    data: crate::util::copy_bytes(&self.data),
                    protocol_id: Some(pk.clone()),
                    signature: None,
                };
                proof {
                    assert(unsigned.data.len() == unsigned.data@.len());
                }
                let raw = crate::codec::encode_packet(&unsigned);
                signer.verify(&raw, sig, pk)
            },
            _ => false,
        }
    }

    /// Reports at run time whether the packet is well formed, so unverified
    /// callers can test the codec's precondition before encoding.
    pub fn is_well_formed(&self) -> (r: bool)
        ensures
            r == self.wf(),
    {
        proof {
            assert(self.data.len() == self.data@.len());
        }
        let id_ok = match &self.protocol_id {
            Some(k) => k.value.len() == crate::pqc_sign::CRYPTO_PUBLICKEYBYTES,
            None => true,
        };
        let sig_ok = match &self.signature {
            Some(s) => s.value.len() == crate::pqc_sign::SIGNATURE_BYTES,
            None => true,
        };
        id_ok && sig_ok
    }
}

/// The abstract content of an acknowledgment payload, as the codec
/// contracts speak of it.
pub ghost struct AckModel {
    /// Kind of the original request.
    pub protocol_type: ProtocolType,
    /// Payload of the original request.
    pub protocol_data: Seq<u8>,
    /// Content fingerprint of the original request's payload.
    pub hash_value: u64,
}

/// An acknowledgment payload is well formed when its carried payload length
/// fits the wire's length field.
pub open spec fn spec_ack_wf(m: AckModel) -> bool {
    m.protocol_data.len() <= u64::MAX
}

/// The payload carried inside an acknowledgment packet.  It repeats the
/// original request so that a node that only ever sees acknowledgments can
/// still execute the request once quorum is reached.
#[derive(Debug)]
pub struct AckPacket {
    /// Kind of the original request.
    pub protocol_type: ProtocolType,
    /// Payload of the original request.
    pub protocol_data: Vec<u8>,
    /// Content fingerprint of the original request's payload.
    pub hash_value: u64,
}

impl View for AckPacket {
    type V = AckModel;

    open spec fn view(&self) -> AckModel {
        AckModel {
            protocol_type: self.protocol_type,
            protocol_data: self.protocol_data@,
            hash_value: self.hash_value,
        }
    }
}

/// Number of `true` entries of a vote sequence: how many distinct replicas
/// have voted.
pub open spec fn count_true(s: Seq<bool>) -> nat
    decreases s.len(),
{
    if s.len() == 0 {
        0
    } else {
        count_true(s.drop_last()) + if s.last() {
            1nat
        } else {
            0nat
        }
    }
}

/// No more votes can be counted than there are slots.
pub proof fn lemma_count_true_le_len(s: Seq<bool>)
    ensures
        count_true(s) <= s.len(),
    decreases s.len(),
{
    if s.len() > 0 {
        lemma_count_true_le_len(s.drop_last());
    }
}

/// Extending the counted prefix by one slot adds that slot's vote.
pub proof fn lemma_count_true_prefix(s: Seq<bool>, i: int)
    requires
        0 <= i < s.len(),
    ensures
        count_true(s.subrange(0, i + 1)) == count_true(s.subrange(0, i)) + if s[i] {
            1int
        } else {
            0int
        },
{
    assert(s.subrange(0, i + 1).drop_last() =~= s.subrange(0, i));
    assert(s.subrange(0, i + 1).last() == s[i]);
}

/// The vote pattern of a freshly created record: only the local replica,
/// slot zero, has voted.
pub open spec fn initial_votes() -> Seq<bool> {
    Seq::new(CLUSTER_SIZE as nat, |i: int| i == 0)
}

/// A fresh record carries exactly one vote.
pub proof fn lemma_count_initial_votes()
    ensures
        count_true(initial_votes()) == 1,
{
    lemma_count_single_true(CLUSTER_SIZE as nat);
}

proof fn lemma_count_single_true(n: nat)
    requires
        n >= 1,
    ensures
        count_true(Seq::new(n, |i: int| i == 0)) == 1,
    decreases n,
{
    let s = Seq::new(n, |i: int| i == 0);
    if n == 1 {
        assert(s.last() == s[0]);
        assert(s[0]);
        assert(s.drop_last().len() == 0);
        assert(count_true(s.drop_last()) == 0);
        assert(count_true(s) == 1);
    } else {
        assert(s.drop_last() =~= Seq::new((n - 1) as nat, |i: int| i == 0));
        assert(!s.last());
        lemma_count_single_true((n - 1) as nat);
        assert(count_true(s.drop_last()) == 1);
        assert(count_true(s) == 1);
    }
    assert(count_true(Seq::new(n, |i: int| i == 0)) == count_true(s));
}

/// A fixed-size bitmap with one vote slot per replica of the cluster.
pub struct VoteBitmap {
    /// One slot per replica.
    pub bits: Vec<bool>,
}

impl View for VoteBitmap {
    type V = Seq<bool>;

    open spec fn view(&self) -> Seq<bool> {
        self.bits@
    }
}

impl VoteBitmap {
    /// A bitmap with one slot per replica, all clear.
    pub fn new() -> (r: Self)
        ensures
            r@.len() == CLUSTER_SIZE,
            forall|i: int| 0 <= i < CLUSTER_SIZE ==> !r@[i],
    {
        let mut bits: Vec<bool> = Vec::new();
        let mut i: usize = 0;
        while i < CLUSTER_SIZE
            invariant
                i <= CLUSTER_SIZE,
                bits@.len() == i,
                forall|j: int| 0 <= j < i ==> !bits@[j],
            decreases CLUSTER_SIZE - i,
        {
            bits.push(false);
            i = i + 1;
        }
        VoteBitmap { bits }
    }

    /// Sets the slot at `index`.
    pub fn set(&mut self, index: usize, value: bool)
        requires
            index < old(self)@.len(),
        ensures
            final(self)@ == old(self)@.update(index as int, value),
    {
        self.bits.set(index, value);
    }

    /// Reads the slot at `index`.
    pub fn get(&self, index: usize) -> (r: bool)
        requires
            index < self@.len(),
        ensures
            r == self@[index as int],
    {
        self.bits[index]
    }

    /// Counts the votes set so far.
    pub fn count(&self) -> (r: usize)
        ensures
            r == count_true(self@),
    {
        let mut total: usize = 0;
        let mut i: usize = 0;
        proof {
            assert(self@.subrange(0, 0) =~= Seq::<bool>::empty());
        }
        while i < self.bits.len()
            invariant
                i <= self@.len(),
                total == count_true(self@.subrange(0, i as int)),
                total <= i,
            decreases self@.len() - i,
        {
            proof {
                lemma_count_true_prefix(self@, i as int);
            }
            if self.bits[i] {
                total = total + 1;
            }
            i = i + 1;
        }
        proof {
            assert(self@.subrange(0, self@.len() as int) =~= self@);
        }
        total
    }
}

/// The abstract state of one commit record, as the contracts speak of it.
pub ghost struct RecordModel {
    /// Creation timestamp handed in by the caller.
    pub time: u64,
    /// One vote slot per replica; slot zero is the local replica.
    pub votes: Seq<bool>,
    /// Kind of the original request.
    pub kind: ProtocolType,
    /// Payload of the original request.
    pub payload: Seq<u8>,
    /// Whether the request has been executed; flips to `true` exactly once,
    /// when the votes first reach quorum.
    pub done: bool,
}

/// Per-fingerprint quorum-tracking state: accumulates votes, evaluates
/// quorum, and guards against re-executing a request.
pub struct CommitThresholder {
    /// Creation timestamp handed in by the caller.
    pub time: u64,
    /// One vote slot per replica; slot zero is the local replica.
    pub bitmap: VoteBitmap,
    /// Kind of the original request.
    pub protocol_type: ProtocolType,
    /// Payload of the original request.
    pub protocol_data: Vec<u8>,
    /// Whether the request has been executed.
    pub done: bool,
}

impl View for CommitThresholder {
    type V = RecordModel;

    open spec fn view(&self) -> RecordModel {
        RecordModel {
            time: self.time,
            votes: self.bitmap@,
            kind: self.protocol_type,
            payload: self.protocol_data@,
            done: self.done,
        }
    }
}

impl CommitThresholder {
    /// Creates the record for a request first seen now, with the local vote
    /// already cast.
    pub fn new(protocol_type: ProtocolType, protocol_data: Vec<u8>, created_at: u64) -> (r: Self)
        ensures
            r@.time == created_at,
            r@.votes == initial_votes(),
            r@.kind == protocol_type,
            r@.payload == protocol_data@,
            r@.done == false,
    {
        let mut bitmap = VoteBitmap::new();
        bitmap.set(0, true);
        proof {
            assert(bitmap@ =~= initial_votes());
        }
        CommitThresholder { time: created_at, bitmap, protocol_type, protocol_data, done: false }
    }
}

} // verus!
