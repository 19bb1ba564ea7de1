//! The commit ledger: per-fingerprint quorum tracking with deduplication.
//!
//! The ledger maps each content fingerprint to its quorum-tracking record.
//! `observe_write` and `observe_ack` are the only mutations; both are
//! specified exactly by the transition functions [`spec_observe_write`] and
//! [`spec_observe_ack`], and both preserve every record's well-formedness.
//! A record's `done` flag flips to `true` exactly once, when its votes
//! first reach [`QUORUM_SIZE`]; from then on every operation on that
//! fingerprint is a no-op.

use std::collections::HashMap;
use vstd::prelude::*;

use crate::consensus::CLUSTER_SIZE;
use crate::consensus::CommitThresholder;
use crate::consensus::ProtocolType;
use crate::consensus::QUORUM_SIZE;
use crate::consensus::RecordModel;
use crate::consensus::count_true;
use crate::consensus::initial_votes;
use crate::consensus::lemma_count_initial_votes;
use crate::fingerprint::hash_data;
use crate::fingerprint::spec_fingerprint;
use crate::util::copy_bytes;

verus! {

/// A record is well formed when it has one vote slot per replica, carries
/// the local vote, and is executed exactly when its votes reach quorum.
pub open spec fn rec_wf(r: RecordModel) -> bool {
    &&& r.votes.len() == CLUSTER_SIZE
    &&& r.votes[0]
    &&& (r.done <==> count_true(r.votes) >= QUORUM_SIZE)
}

/// A ledger state is well formed when every record in it is.
pub open spec fn map_wf(m: Map<u64, RecordModel>) -> bool {
    forall|fp: u64| #[trigger] m.dom().contains(fp) ==> rec_wf(m[fp])
}

/// The record created on first sight of a request: local vote cast, not
/// yet executed.
pub open spec fn spec_record_new(kind: ProtocolType, payload: Seq<u8>, now: u64) -> RecordModel {
    RecordModel { time: now, votes: initial_votes(), kind: kind, payload: payload, done: false }
}

/// The record after one replica's vote is applied: the slot is set and the
/// quorum test is re-evaluated.
pub open spec fn spec_vote(r: RecordModel, voter: int) -> RecordModel {
    let votes2 = r.votes.update(voter, true);
    RecordModel {
        time: r.time,
        votes: votes2,
        kind: r.kind,
        payload: r.payload,
        done: count_true(votes2) >= QUORUM_SIZE,
    }
}

/// The ledger transition for a directly submitted write, with its two
/// outputs: whether to broadcast an acknowledgment and whether to execute
/// the request now.
pub open spec fn spec_observe_write(m: Map<u64, RecordModel>, payload: Seq<u8>, now: u64) -> (
    Map<u64, RecordModel>,
    bool,
    bool,
) {
    let fp = spec_fingerprint(payload);
    if m.dom().contains(fp) {
        let r = m[fp];
        if r.done {
            (m, false, false)
        } else {
            let r2 = spec_vote(r, 0);
            (m.insert(fp, r2), true, r2.done && !r.done)
        }
    } else {
        let r = spec_record_new(ProtocolType::Write, payload, now);
        (m.insert(fp, r), true, r.done)
    }
}

/// The ledger transition for a verified acknowledgment from the peer at
/// `voter`, with its output: whether to execute the request now.  A record
/// absent from the ledger is first created from the carried original
/// request, so a node that never saw the write can still reach quorum.
pub open spec fn spec_observe_ack(
    m: Map<u64, RecordModel>,
    fp: u64,
    voter: int,
    kind: ProtocolType,
    payload: Seq<u8>,
    now: u64,
) -> (Map<u64, RecordModel>, bool) {
    if m.dom().contains(fp) {
        let r = m[fp];
        if r.done {
            (m, false)
        } else {
            let r2 = spec_vote(r, voter);
            (m.insert(fp, r2), r2.done)
        }
    } else {
        let r2 = spec_vote(spec_record_new(kind, payload, now), voter);
        (m.insert(fp, r2), r2.done)
    }
}

/// The in-memory commit ledger, owned by the consensus engine and mutated
/// only under its coordination lock.
pub struct CommitLedger {
    /// One quorum-tracking record per fingerprint seen so far.
    pub commit_queue: HashMap<u64, CommitThresholder>,
}

impl View for CommitLedger {
    type V = Map<u64, RecordModel>;

    open spec fn view(&self) -> Map<u64, RecordModel> {
        Map::new(
            |fp: u64| self.commit_queue@.dom().contains(fp),
            |fp: u64| self.commit_queue@[fp]@,
        )
    }
}

impl CommitLedger {
    /// Every record of the ledger is well formed.
    pub open spec fn wf(&self) -> bool {
        map_wf(self@)
    }

    /// An empty ledger.
    pub fn new() -> (r: Self)
        ensures
            r.wf(),
            r@ == Map::<u64, RecordModel>::empty(),
    {
        let r = CommitLedger { commit_queue: HashMap::new() };
        proof {
            assert(r@ =~= Map::<u64, RecordModel>::empty());
        }
        r
    }

    /// Applies a directly submitted write: computes the payload's
    /// fingerprint, creates or updates its record, and reports the
    /// fingerprint, whether to broadcast an acknowledgment, and whether to
    /// execute the request now.
    pub fn observe_write(&mut self, payload: &Vec<u8>, now: u64) -> (r: (u64, bool, bool))
        requires
            old(self).wf(),
        ensures
            final(self).wf(),
            r.0 == spec_fingerprint(payload@),
            (final(self)@, r.1, r.2) == spec_observe_write(old(self)@, payload@, now),
    {
        let fp = hash_data(payload);
        let existing: Option<bool> = match self.commit_queue.get(&fp) {
            Some(rc) => Some(rc.done),
            None => None,
        };
        match existing {
            None => {
                let rec = CommitThresholder::new(ProtocolType::Write, copy_bytes(payload), now);
                proof {
                    lemma_count_initial_votes();
                }
                self.commit_queue.insert(fp, rec);
                proof {
                    assert(self@ =~= old(self)@.insert(fp, rec@));
                }
                (fp, true, false)
            },
            Some(true) => {
                proof {
                    assert(self@ =~= old(self)@);
                }
                (fp, false, false)
            },
            Some(false) => {
                let mut rec = match self.commit_queue.remove(&fp) {
                    Some(rec) => rec,
                    None => vstd::pervasive::unreached(),
                };
                proof {
                    assert(old(self)@.dom().contains(fp));
                    assert(rec@ == old(self)@[fp]);
                    assert(rec_wf(rec@));
                }
                rec.bitmap.set(0, true);
                let votes = rec.bitmap.count();
                rec.done = votes >= QUORUM_SIZE;
                let fired = rec.done;
                self.commit_queue.insert(fp, rec);
                proof {
                    assert(rec@ == spec_vote(old(self)@[fp], 0));
                    assert(self@ =~= old(self)@.insert(fp, rec@));
                }
                (fp, true, fired)
            },
        }
    }

    /// Applies a signature-verified acknowledgment from the peer at
    /// `voter_index`: creates the record from the carried original request
    /// if absent, sets the peer's vote, and reports whether to execute the
    /// request now.
    pub fn observe_ack(
        &mut self,
        fingerprint: u64,
        voter_index: usize,
        original_kind: ProtocolType,
        original_payload: &Vec<u8>,
        now: u64,
    ) -> (r: bool)
        requires
            old(self).wf(),
            0 < voter_index < CLUSTER_SIZE,
        ensures
            final(self).wf(),
            (final(self)@, r) == spec_observe_ack(
                old(self)@,
                fingerprint,
                voter_index as int,
                original_kind,
                original_payload@,
                now,
            ),
    {
        let fp = fingerprint;
        let existing: Option<bool> = match self.commit_queue.get(&fp) {
            Some(rc) => Some(rc.done),
            None => None,
        };
        match existing {
            None => {
                let mut rec = CommitThresholder::new(
                    original_kind,
                    copy_bytes(original_payload),
                    now,
                );
                rec.bitmap.set(voter_index, true);
                let votes = rec.bitmap.count();
                rec.done = votes >= QUORUM_SIZE;
                let fired = rec.done;
                self.commit_queue.insert(fp, rec);
                proof {
                    lemma_count_initial_votes();
                    assert(rec@ == spec_vote(
                        spec_record_new(original_kind, original_payload@, now),
                        voter_index as int,
                    ));
                    assert(self@ =~= old(self)@.insert(fp, rec@));
                }
                fired
            },
            Some(true) => {
                proof {
                    assert(self@ =~= old(self)@);
                }
                false
            },
            Some(false) => {
                let mut rec = match self.commit_queue.remove(&fp) {
                    Some(rec) => rec,
                    None => vstd::pervasive::unreached(),
                };
                proof {
                    assert(old(self)@.dom().contains(fp));
                    assert(rec@ == old(self)@[fp]);
                    assert(rec_wf(rec@));
                }
                rec.bitmap.set(voter_index, true);
                let votes = rec.bitmap.count();
                rec.done = votes >= QUORUM_SIZE;
                let fired = rec.done;
                self.commit_queue.insert(fp, rec);
                proof {
                    assert(rec@ == spec_vote(old(self)@[fp], voter_index as int));
                    assert(self@ =~= old(self)@.insert(fp, rec@));
                }
                fired
            },
        }
    }
}

impl CommitLedger {
    /// Whether a record exists for `fingerprint`.
    pub fn contains(&self, fingerprint: u64) -> (r: bool)
        ensures
            r == self@.dom().contains(fingerprint),
    {
        self.commit_queue.contains_key(&fingerprint)
    }

    /// Whether the record for `fingerprint` has been executed, if one
    /// exists.
    pub fn is_executed(&self, fingerprint: u64) -> (r: Option<bool>)
        ensures
            self@.dom().contains(fingerprint) ==> r == Some(self@[fingerprint].done),
            !self@.dom().contains(fingerprint) ==> r is None,
    {
        match self.commit_queue.get(&fingerprint) {
            Some(rc) => Some(rc.done),
            None => None,
        }
    }

    /// How many distinct replicas have voted for `fingerprint`, if a
    /// record exists.
    pub fn vote_count(&self, fingerprint: u64) -> (r: Option<usize>)
        ensures
            self@.dom().contains(fingerprint) ==> r == Some(
                count_true(self@[fingerprint].votes) as usize,
            ),
            !self@.dom().contains(fingerprint) ==> r is None,
    {
        match self.commit_queue.get(&fingerprint) {
            Some(rc) => {
                proof {
                    crate::consensus::lemma_count_true_le_len(rc.bitmap@);
                }
                Some(rc.bitmap.count())
            },
            None => None,
        }
    }
}

/// Idempotence of writes: once the record of a payload's fingerprint is
/// executed, a further directly submitted write of that payload leaves the
/// ledger unchanged and reports nothing to broadcast and nothing to
/// execute — and since the state is unchanged, so does every later one.
pub proof fn lemma_write_idempotent_after_execution(
    m: Map<u64, RecordModel>,
    payload: Seq<u8>,
    now: u64,
)
    requires
        m.dom().contains(spec_fingerprint(payload)),
        m[spec_fingerprint(payload)].done,
    ensures
        spec_observe_write(m, payload, now) == (m, false, false),
{
}

/// Idempotence of acknowledgments: once a fingerprint's record is
/// executed, a further acknowledgment for it leaves the ledger unchanged
/// and reports nothing to execute — and since the state is unchanged, so
/// does every later one.
pub proof fn lemma_ack_idempotent_after_execution(
    m: Map<u64, RecordModel>,
    fp: u64,
    voter: int,
    kind: ProtocolType,
    payload: Seq<u8>,
    now: u64,
)
    requires
        m.dom().contains(fp),
        m[fp].done,
    ensures
        spec_observe_ack(m, fp, voter, kind, payload, now) == (m, false),
{
}

/// Quorum correctness for a single record: a well-formed record is
/// executed exactly when at least [`QUORUM_SIZE`] distinct replicas,
/// the local one included, have set their vote slot.
pub proof fn lemma_executed_iff_quorum(r: RecordModel)
    requires
        rec_wf(r),
    ensures
        r.done <==> count_true(r.votes) >= QUORUM_SIZE,
{
}

/// Quorum correctness for the acknowledgment step: the step reports
/// execution exactly when the fingerprint's record was not already
/// executed and its votes, after this vote, reach [`QUORUM_SIZE`].  In
/// particular fewer than [`QUORUM_SIZE`] votes never trigger execution.
pub proof fn lemma_ack_executes_iff_quorum(
    m: Map<u64, RecordModel>,
    fp: u64,
    voter: int,
    kind: ProtocolType,
    payload: Seq<u8>,
    now: u64,
)
    requires
        map_wf(m),
        0 < voter < CLUSTER_SIZE,
    ensures
        ({
            let (m2, fired) = spec_observe_ack(m, fp, voter, kind, payload, now);
            &&& m2.dom().contains(fp)
            &&& (fired <==> count_true(m2[fp].votes) >= QUORUM_SIZE && !(m.dom().contains(fp)
                && m[fp].done))
        }),
{
    let (m2, fired) = spec_observe_ack(m, fp, voter, kind, payload, now);
    if m.dom().contains(fp) && m[fp].done {
        assert(m2 == m);
        assert(!fired);
    }
}

/// Quorum correctness for the write step: the step reports execution
/// exactly when the payload's record was not already executed and its
/// votes, after the local vote, reach [`QUORUM_SIZE`].
pub proof fn lemma_write_executes_iff_quorum(m: Map<u64, RecordModel>, payload: Seq<u8>, now: u64)
    requires
        map_wf(m),
    ensures
        ({
            let fp = spec_fingerprint(payload);
            let (m2, broadcast, fired) = spec_observe_write(m, payload, now);
            &&& m2.dom().contains(fp)
            &&& (fired <==> count_true(m2[fp].votes) >= QUORUM_SIZE && !(m.dom().contains(fp)
                && m[fp].done))
        }),
{
    let fp = spec_fingerprint(payload);
    let (m2, broadcast, fired) = spec_observe_write(m, payload, now);
    if m.dom().contains(fp) && m[fp].done {
        assert(m2 == m);
        assert(!fired);
    } else if !m.dom().contains(fp) {
        lemma_count_initial_votes();
        assert(m2[fp].votes == initial_votes());
        assert(!fired);
    }
}

} // verus!
