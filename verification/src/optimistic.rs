use vstd::prelude::*;

use crate::batch::{canonical_root, replay_batch_root, GasSchedule, SettlementBatch,
    spec_execute_batch};
use crate::config::SettlementConfig;
use crate::error::SettlementError;
use crate::hashing::{hex_lower, hex_of};
use crate::state::{bytes_eq, copy_bytes, zero32, L2State};
use crate::types::{low64_of, Address, U256};

verus! {

/// What a challenge claims went wrong.
#[derive(Debug, Clone, Copy, PartialEq, Eq, Structural)]
pub enum ChallengeType {
    /// The claimed post-root does not follow from the transactions.
    InvalidStateTransition,
    /// A committed transaction was invalid.
    InvalidTransaction,
    /// The merkle commitment does not match the transactions.
    InvalidMerkleProof,
    /// The accounted gas is wrong.
    InvalidGasUsage,
    /// The batch's data was withheld.
    DataAvailability,
}

/// Where a challenge stands.
#[derive(Debug, Clone, Copy, PartialEq, Eq, Structural)]
pub enum ChallengeStatus {
    /// Open, awaiting processing.
    Pending,
    /// Being arbitrated.
    UnderReview,
    /// Upheld: the batch was fraudulent.
    Proven,
    /// Rejected: the batch stood.
    Dismissed,
    /// Lapsed past its deadline.
    Expired,
}

/// How a processed challenge came out.
#[derive(Debug, Clone, Copy, PartialEq, Eq, Structural)]
pub enum ChallengeOutcome {
    /// The replayed transition contradicted the claimed root; the batch is
    /// reverted.
    ChallengeSuccessful,
    /// The replay confirmed the claimed root; the challenger's stake is
    /// slashed.
    ChallengeFailed,
    /// No verdict was reached.
    NoContest,
}

/// Where a recorded batch stands on its way to finality.
#[derive(Debug, Clone, Copy, PartialEq, Eq, Structural)]
pub enum FinalityStatus {
    /// Submitted, unchallenged so far.
    Pending,
    /// Under an open challenge.
    Challenged,
    /// Irreversible.
    Finalized,
    /// Proven fraudulent and rolled back; terminal.
    Reverted,
}

/// One open dispute against a batch.
#[derive(Debug)]
pub struct Challenge {
    /// Opaque identifier of the challenge.
    pub challenge_id: u64,
    /// The batch under dispute.
    pub batch_id: u64,
    /// Who raised the dispute.
    pub challenger: Address,
    /// What the dispute claims.
    pub challenge_type: ChallengeType,
    /// The stake put up.
    pub stake_amount: U256,
    /// When the dispute was raised, in milliseconds.
    pub created_at: u64,
    /// When the fraud proof is due, in milliseconds.
    pub deadline: u64,
    /// The evidence blob.
    pub evidence: Vec<u8>,
    /// Where the dispute stands.
    pub status: ChallengeStatus,
}

/// A submitted batch kept with everything needed to replay it: the batch
/// itself and the state it started from.
#[derive(Debug)]
pub struct HistoricalBatch {
    /// The batch as submitted.
    pub batch: SettlementBatch,
    /// The state the batch executed against.
    pub pre_state: L2State,
    /// Where the batch stands.
    pub finality_status: FinalityStatus,
}

/// The audit record of one resolved challenge.
#[derive(Debug, Clone, Copy)]
pub struct ChallengeRecord {
    /// The resolved challenge.
    pub challenge_id: u64,
    /// The batch it targeted.
    pub batch_id: u64,
    /// How it came out.
    pub outcome: ChallengeOutcome,
    /// When it was resolved, in milliseconds.
    pub resolved_at: u64,
    /// The stake moved by the resolution.
    pub slashed_amount: U256,
}

/// The position of the first recorded batch with id `id`, or `-1`.
pub open spec fn batch_index(s: Seq<HistoricalBatch>, id: u64) -> int
    decreases s.len(),
{
    if s.len() == 0 {
        -1
    } else if s.first().batch.batch_id == id {
        0
    } else {
        let r = batch_index(s.drop_first(), id);
        if r == -1 {
            -1
        } else {
            r + 1
        }
    }
}

/// Appending a batch leaves every found position where it was.
pub proof fn lemma_batch_index_push(s: Seq<HistoricalBatch>, b: HistoricalBatch, id: u64)
    requires
        batch_index(s, id) != -1,
    ensures
        batch_index(s.push(b), id) == batch_index(s, id),
    decreases s.len(),
{
    if s.len() == 0 {
    } else {
        assert(s.push(b).first() == s.first());
        if s.first().batch.batch_id != id {
            assert(s.push(b).drop_first() =~= s.drop_first().push(b));
            lemma_batch_index_push(s.drop_first(), b, id);
        }
    }
}

/// Sequences whose entries carry the same batch ids find them at the same
/// positions.
pub proof fn lemma_batch_index_congruent(x: Seq<HistoricalBatch>, y: Seq<HistoricalBatch>, id: u64)
    requires
        x.len() == y.len(),
        forall|q: int| 0 <= q < x.len() ==> (#[trigger] x[q].batch.batch_id) == y[q].batch.batch_id,
    ensures
        batch_index(x, id) == batch_index(y, id),
    decreases x.len(),
{
    if x.len() > 0 {
        assert(x[0].batch.batch_id == y[0].batch.batch_id);
        if x.first().batch.batch_id != id {
            assert forall|q: int|
                0 <= q < x.drop_first().len() implies (#[trigger] x.drop_first()[q].batch.batch_id)
                == y.drop_first()[q].batch.batch_id by {
                assert(x.drop_first()[q] == x[q + 1]);
                assert(y.drop_first()[q] == y[q + 1]);
            }
            lemma_batch_index_congruent(x.drop_first(), y.drop_first(), id);
        }
    }
}

/// The chosen batch position is in bounds and carries the id.
pub proof fn lemma_batch_index(s: Seq<HistoricalBatch>, id: u64)
    ensures
        batch_index(s, id) == -1 || (0 <= batch_index(s, id) < s.len() && s[batch_index(
            s,
            id,
        )].batch.batch_id == id),
    decreases s.len(),
{
    if s.len() > 0 && s.first().batch.batch_id != id {
        lemma_batch_index(s.drop_first(), id);
    }
}

/// The position of the first open challenge with id `id`, or `-1`.
pub open spec fn challenge_index(s: Seq<Challenge>, id: u64) -> int
    decreases s.len(),
{
    if s.len() == 0 {
        -1
    } else if s.first().challenge_id == id {
        0
    } else {
        let r = challenge_index(s.drop_first(), id);
        if r == -1 {
            -1
        } else {
            r + 1
        }
    }
}

/// Whether an open challenge targets batch `id`.
pub open spec fn has_open_challenge(s: Seq<Challenge>, batch_id: u64) -> bool {
    exists|i: int|
        0 <= i < s.len() && (#[trigger] s[i]).batch_id == batch_id && (s[i].status
            == ChallengeStatus::Pending || s[i].status == ChallengeStatus::UnderReview)
}

/// Optimistic settlement: batches are recorded and their claimed roots
/// adopted without upfront proof; a successful fraud proof within the
/// dispute window reverts the batch to the root it started from.
pub struct OptimisticRollup {
    config: SettlementConfig,
    current_state_root: Vec<u8>,
    batches: Vec<HistoricalBatch>,
    challenges: Vec<Challenge>,
    history: Vec<ChallengeRecord>,
    next_challenge_id: u64,
    gas_schedule: GasSchedule,
}

impl OptimisticRollup {
    /// The canonical root the rollup has adopted.
    pub closed spec fn spec_root(self) -> Seq<u8> {
        self.current_state_root@
    }

    /// The recorded batches, in submission order.
    pub closed spec fn spec_batches(self) -> Seq<HistoricalBatch> {
        self.batches@
    }

    /// The open challenges.
    pub closed spec fn spec_challenges(self) -> Seq<Challenge> {
        self.challenges@
    }

    /// The resolved-challenge audit trail.
    pub closed spec fn spec_history(self) -> Seq<ChallengeRecord> {
        self.history@
    }

    /// The gas schedule replays run under.
    pub closed spec fn spec_gas_schedule(self) -> GasSchedule {
        self.gas_schedule
    }

    /// The configured minimum challenge stake.
    pub closed spec fn spec_min_stake(self) -> Seq<u8> {
        self.config.min_challenge_stake.0@
    }

    /// The adopted root has digest length, every recorded batch can be
    /// replayed, and every open challenge targets a recorded batch —
    /// challenges are only ever opened against recorded batches, and
    /// batches are never removed.
    pub closed spec fn wf(self) -> bool {
        &&& self.current_state_root@.len() == 32
        &&& forall|i: int|
            0 <= i < self.batches@.len() ==> (#[trigger] self.batches@[i]).pre_state.wf()
                && self.batches@[i].batch.previous_state_root@.len() == 32
        &&& forall|i: int|
            0 <= i < self.challenges@.len() ==> batch_index(
                self.batches@,
                (#[trigger] self.challenges@[i]).batch_id,
            ) != -1
    }

    /// A rollup holding the genesis root, with nothing recorded.
    pub fn new(config: &SettlementConfig) -> (r: OptimisticRollup)
        ensures
            r.wf(),
            r.spec_root() =~= zero32(),
            r.spec_batches().len() == 0,
            r.spec_challenges().len() == 0,
            r.spec_history().len() == 0,
            r.spec_min_stake() == config.min_challenge_stake.0@,
    {
        let mut root: Vec<u8> = Vec::new();
        let mut i: usize = 0;
        while i < 32
            invariant
                0 <= i <= 32,
                root@.len() == i,
                forall|j: int| 0 <= j < i ==> root@[j] == 0u8,
            decreases 32 - i,
        {
            root.push(0u8);
            i = i + 1;
        }
        proof {
            assert(root@ =~= zero32());
        }
        OptimisticRollup {
            config: *config,
            current_state_root: root,
            batches: Vec::new(),
            challenges: Vec::new(),
            history: Vec::new(),
            next_challenge_id: 1,
            gas_schedule: GasSchedule::stock(),
        }
    }

    /// The adopted canonical root.
    pub fn get_state_root(&self) -> (r: Vec<u8>)
        ensures
            r@ == self.spec_root(),
    {
        copy_bytes(&self.current_state_root)
    }

    /// The recorded batch with id `batch_id`, if any.
    pub fn get_batch(&self, batch_id: u64) -> (r: Option<&HistoricalBatch>)
        ensures
            match r {
                Some(hb) => batch_index(self.spec_batches(), batch_id) >= 0 && *hb
                    == self.spec_batches()[batch_index(self.spec_batches(), batch_id)],
                None => batch_index(self.spec_batches(), batch_id) == -1,
            },
    {
        let n = self.batches.len();
        let mut i: usize = 0;
        proof {
            lemma_batch_index(self.batches@, batch_id);
        }
        while i < n
            invariant
                n == self.batches@.len(),
                0 <= i <= n,
                batch_index(self.batches@, batch_id) == -1 || batch_index(
                    self.batches@,
                    batch_id,
                ) >= i,
                forall|j: int| 0 <= j < i ==> (#[trigger] self.batches@[j]).batch.batch_id
                    != batch_id,
            decreases n - i,
        {
            proof {
                lemma_batch_index_step(self.batches@, batch_id, i as int);
            }
            if self.batches[i].batch.batch_id == batch_id {
                return Some(&self.batches[i]);
            }
            i = i + 1;
        }
        proof {
            lemma_batch_index(self.batches@, batch_id);
        }
        None
    }

    /// Whether the rollup is serviceable: the adopted root has digest
    /// length and the open challenges are manageable.
    pub fn is_healthy(&self) -> (r: bool)
        ensures
            r == (self.spec_root().len() == 32 && self.spec_challenges().len() < 100),
    {
        self.current_state_root.len() == 32 && self.challenges.len() < 100
    }
}

impl OptimisticRollup {
    /// Records `batch` and adopts its claimed root, optimistically. The
    /// batch is refused when it is empty, when its claimed root is not 32
    /// bytes, when its merkle commitment does not match its transactions,
    /// or when its previous root is not the currently adopted root — the
    /// hash-chain check. `pre_state` is the state the batch executed
    /// against, retained for replay under a challenge. Returns the anchor
    /// submission handle: `0x` followed by the first eight root bytes in
    /// hexadecimal.
    pub fn submit_batch(&mut self, batch: SettlementBatch, pre_state: L2State, now: u64) -> (r:
        Result<String, SettlementError>)
        requires
            old(self).wf(),
            pre_state.wf(),
            pre_state@.state_root == batch.previous_state_root@,
        ensures
            final(self).wf(),
            match r {
                Ok(handle) => {
                    &&& batch.transactions@.len() > 0
                    &&& batch.state_root@.len() == 32
                    &&& batch.merkle_proof@ == crate::batch::merkle_root_of(batch.transactions@)
                    &&& batch.previous_state_root@ == old(self).spec_root()
                    &&& final(self).spec_root() == batch.state_root@
                    &&& final(self).spec_batches().len() == old(self).spec_batches().len() + 1
                    &&& final(self).spec_batches().last().batch == batch
                    &&& final(self).spec_batches().last().finality_status
                        == FinalityStatus::Pending
                    &&& final(self).spec_batches().last().pre_state@ == pre_state@
                    &&& forall|i: int|
                        0 <= i < old(self).spec_batches().len() ==> final(self).spec_batches()[i]
                            == old(self).spec_batches()[i]
                    &&& handle@ == seq!['0', 'x'] + hex_of(batch.state_root@.take(8))
                },
                Err(SettlementError::EmptyBatch) => batch.transactions@.len() == 0 && *final(self) == *old(self),
                Err(SettlementError::InvalidStateRootLength) => batch.transactions@.len() > 0
                    && batch.state_root@.len() != 32 && *final(self) == *old(self),
                Err(SettlementError::InvalidMerkleProof) => batch.transactions@.len() > 0
                    && batch.state_root@.len() == 32 && batch.merkle_proof@
                    != crate::batch::merkle_root_of(batch.transactions@) && *final(self) == *old(self),
                Err(SettlementError::PreviousRootMismatch) => batch.transactions@.len() > 0
                    && batch.state_root@.len() == 32 && batch.merkle_proof@
                    == crate::batch::merkle_root_of(batch.transactions@)
                    && batch.previous_state_root@ != old(self).spec_root() && *final(self) == *old(self),
                Err(_) => false,
            },
    {
        if batch.transactions.len() == 0 {
            return Err(SettlementError::EmptyBatch);
        }
        if batch.state_root.len() != 32 {
            return Err(SettlementError::InvalidStateRootLength);
        }
        let recomputed = crate::batch::build_merkle_proof(&batch.transactions);
        if !bytes_eq(&recomputed, &batch.merkle_proof) {
            return Err(SettlementError::InvalidMerkleProof);
        }
        if !bytes_eq(&batch.previous_state_root, &self.current_state_root) {
            return Err(SettlementError::PreviousRootMismatch);
        }
        let mut prefix: Vec<u8> = Vec::new();
        let mut i: usize = 0;
        while i < 8
            invariant
                0 <= i <= 8,
                batch.state_root@.len() == 32,
                prefix@ == batch.state_root@.take(i as int),
            decreases 8 - i,
        {
            prefix.push(batch.state_root[i]);
            proof {
                assert(prefix@ =~= batch.state_root@.take(i + 1));
            }
            i = i + 1;
        }
        let hexpart = hex_lower(prefix.as_slice());
        proof {
            reveal_strlit("0x");
        }
        let mut handle = String::from_str("0x");
        handle.append(hexpart.as_str());
        proof {
            assert(handle@ =~= seq!['0', 'x'] + hex_of(batch.state_root@.take(8)));
        }
        self.current_state_root = copy_bytes(&batch.state_root);
        self.batches.push(
            HistoricalBatch { batch, pre_state, finality_status: FinalityStatus::Pending },
        );
        proof {
            let news = self.batches@;
            assert forall|j: int| 0 <= j < self.challenges@.len() implies batch_index(
                news,
                (#[trigger] self.challenges@[j]).batch_id,
            ) != -1 by {
                assert(batch_index(old(self).batches@, self.challenges@[j].batch_id) != -1);
                assert(news =~= old(self).batches@.push(news.last()));
                lemma_batch_index_push(
                    old(self).batches@,
                    news.last(),
                    self.challenges@[j].batch_id,
                );
            }
        }
        Ok(handle)
    }

    /// Opens a challenge against a recorded batch. Refused when the stake
    /// is below the configured minimum, when the batch is unknown, or when
    /// it is already finalized; otherwise the challenge is recorded open,
    /// with its fraud-proof deadline, and the batch is marked challenged.
    pub fn submit_challenge(
        &mut self,
        batch_id: u64,
        challenger: Address,
        challenge_type: ChallengeType,
        stake_amount: U256,
        evidence: Vec<u8>,
        now: u64,
    ) -> (r: Result<u64, SettlementError>)
        requires
            old(self).wf(),
        ensures
            final(self).wf(),
            ({
                let bi = batch_index(old(self).spec_batches(), batch_id);
                match r {
                    Ok(cid) => {
                        &&& low64_of(stake_amount.0@) >= low64_of(old(self).spec_min_stake())
                        &&& bi >= 0
                        &&& old(self).spec_batches()[bi].finality_status
                            != FinalityStatus::Finalized
                        &&& cid == old(self).spec_next_challenge_id()
                        &&& final(self).spec_challenges().len() == old(self).spec_challenges().len() + 1
                        &&& final(self).spec_challenges().last().challenge_id == cid
                        &&& final(self).spec_challenges().last().batch_id == batch_id
                        &&& final(self).spec_challenges().last().challenger == challenger
                        &&& final(self).spec_challenges().last().stake_amount == stake_amount
                        &&& final(self).spec_challenges().last().created_at == now
                        &&& final(self).spec_challenges().last().deadline == crate::types::sat_add_nat(
                            now as nat,
                            old(self).spec_fraud_window() as nat,
                        ) as u64
                        &&& final(self).spec_challenges().last().status == ChallengeStatus::Pending
                        &&& final(self).spec_challenges().last().challenge_type == challenge_type
                        &&& final(self).spec_challenges().last().evidence@ == evidence@
                        &&& forall|i: int|
                            0 <= i < old(self).spec_challenges().len() ==> final(self).spec_challenges()[i] == old(self).spec_challenges()[i]
                        &&& final(self).spec_batches()[bi].finality_status
                            == FinalityStatus::Challenged
                        &&& final(self).spec_batches()[bi].batch == old(self).spec_batches()[bi].batch
                        &&& forall|i: int|
                            0 <= i < old(self).spec_batches().len() && i != bi ==> final(self).spec_batches()[i] == old(self).spec_batches()[i]
                        &&& final(self).spec_root() == old(self).spec_root()
                    },
                    Err(SettlementError::InsufficientStake) => low64_of(stake_amount.0@)
                        < low64_of(old(self).spec_min_stake()) && *final(self) == *old(self),
                    Err(SettlementError::BatchNotFound) => low64_of(stake_amount.0@) >= low64_of(
                        old(self).spec_min_stake(),
                    ) && bi == -1 && *final(self) == *old(self),
                    Err(SettlementError::BatchAlreadyFinalized) => low64_of(stake_amount.0@)
                        >= low64_of(old(self).spec_min_stake()) && bi >= 0 && old(self).spec_batches()[bi].finality_status == FinalityStatus::Finalized && *final(self) == *old(self),
                    Err(_) => false,
                }
            }),
    {
        if stake_amount.lt(&self.config.min_challenge_stake) {
            return Err(SettlementError::InsufficientStake);
        }
        let n = self.batches.len();
        let mut i: usize = 0;
        proof {
            lemma_batch_index(self.batches@, batch_id);
        }
        while i < n
            invariant
                *self == *old(self),
                old(self).wf(),
                low64_of(stake_amount.0@) >= low64_of(old(self).spec_min_stake()),
                n == self.batches@.len(),
                0 <= i <= n,
                forall|j: int| 0 <= j < i ==> (#[trigger] self.batches@[j]).batch.batch_id
                    != batch_id,
            decreases n - i,
        {
            proof {
                lemma_batch_index_step(self.batches@, batch_id, i as int);
            }
            if self.batches[i].batch.batch_id == batch_id {
                if matches!(self.batches[i].finality_status, FinalityStatus::Finalized) {
                    return Err(SettlementError::BatchAlreadyFinalized);
                }
                let cid = self.next_challenge_id;
                self.next_challenge_id = if self.next_challenge_id < u64::MAX {
                    self.next_challenge_id + 1
                } else {
                    u64::MAX
                };
                let deadline: u64 = if now <= u64::MAX - self.config.fraud_proof_window_ms {
                    now + self.config.fraud_proof_window_ms
                } else {
                    u64::MAX
                };
                self.challenges.push(
                    Challenge {
                        challenge_id: cid,
                        batch_id,
                        challenger,
                        challenge_type,
                        stake_amount,
                        created_at: now,
                        deadline,
                        evidence,
                        status: ChallengeStatus::Pending,
                    },
                );
                self.batches[i].finality_status = FinalityStatus::Challenged;
                proof {
                    assert forall|j: int| 0 <= j < self.batches@.len() implies (#[trigger] self.batches@[j]).pre_state.wf()
                        && self.batches@[j].batch.previous_state_root@.len() == 32 by {
                        if j != i {
                            assert(self.batches@[j] == old(self).batches@[j]);
                        }
                    }
                    assert forall|q: int|
                        0 <= q < self.batches@.len() implies (#[trigger] self.batches@[q].batch.batch_id)
                        == old(self).batches@[q].batch.batch_id by {
                        if q != i {
                            assert(self.batches@[q] == old(self).batches@[q]);
                        }
                    }
                    assert forall|j: int| 0 <= j < self.challenges@.len() implies batch_index(
                        self.batches@,
                        (#[trigger] self.challenges@[j]).batch_id,
                    ) != -1 by {
                        if j < old(self).challenges@.len() {
                            assert(self.challenges@[j] == old(self).challenges@[j]);
                            assert(batch_index(
                                old(self).batches@,
                                self.challenges@[j].batch_id,
                            ) != -1);
                            lemma_batch_index_congruent(
                                old(self).batches@,
                                self.batches@,
                                self.challenges@[j].batch_id,
                            );
                        } else {
                            assert(self.challenges@[j].batch_id == batch_id);
                            assert(forall|q: int|
                                0 <= q < i ==> (#[trigger] self.batches@[q]).batch.batch_id
                                    != batch_id);
                            lemma_batch_index_step(self.batches@, batch_id, i as int);
                        }
                    }
                }
                return Ok(cid);
            }
            i = i + 1;
        }
        proof {
            lemma_batch_index(self.batches@, batch_id);
        }
        Err(SettlementError::BatchNotFound)
    }

    /// The id the next challenge will carry.
    pub closed spec fn spec_next_challenge_id(self) -> u64 {
        self.next_challenge_id
    }

    /// The configured fraud-proof window, in milliseconds.
    pub closed spec fn spec_fraud_window(self) -> u64 {
        self.config.fraud_proof_window_ms
    }
}

/// The chosen challenge position is in bounds and carries the id.
pub proof fn lemma_challenge_index(s: Seq<Challenge>, id: u64)
    ensures
        challenge_index(s, id) == -1 || (0 <= challenge_index(s, id) < s.len() && s[challenge_index(
            s,
            id,
        )].challenge_id == id),
    decreases s.len(),
{
    if s.len() > 0 && s.first().challenge_id != id {
        lemma_challenge_index(s.drop_first(), id);
    }
}

/// If no challenge before `i` carries the id, a match at `i` is the
/// first.
pub proof fn lemma_challenge_index_step(s: Seq<Challenge>, id: u64, i: int)
    requires
        0 <= i < s.len(),
        forall|j: int| 0 <= j < i ==> (#[trigger] s[j]).challenge_id != id,
    ensures
        s[i].challenge_id == id ==> challenge_index(s, id) == i,
    decreases i,
{
    if i == 0 {
    } else {
        assert(s.first().challenge_id != id);
        let t = s.drop_first();
        assert forall|j: int| 0 <= j < i - 1 implies (#[trigger] t[j]).challenge_id != id by {
            assert(t[j] == s[j + 1]);
        }
        assert(t[i - 1] == s[i]);
        lemma_challenge_index_step(t, id, i - 1);
    }
}

impl OptimisticRollup {
    /// The position of the challenge with id `id`, if any.
    fn find_challenge(&self, id: u64) -> (r: Option<usize>)
        ensures
            match r {
                Some(i) => i as int == challenge_index(self.spec_challenges(), id) && i
                    < self.spec_challenges().len() && self.spec_challenges()[i as int].challenge_id
                    == id,
                None => challenge_index(self.spec_challenges(), id) == -1,
            },
    {
        let cn = self.challenges.len();
        let mut ci: usize = 0;
        while ci < cn
            invariant
                cn == self.challenges@.len(),
                0 <= ci <= cn,
                forall|j: int| 0 <= j < ci ==> (#[trigger] self.challenges@[j]).challenge_id != id,
            decreases cn - ci,
        {
            proof {
                lemma_challenge_index_step(self.challenges@, id, ci as int);
            }
            if self.challenges[ci].challenge_id == id {
                return Some(ci);
            }
            ci = ci + 1;
        }
        proof {
            lemma_challenge_index(self.challenges@, id);
        }
        None
    }

    /// The position of the recorded batch with id `id`, if any.
    fn find_batch(&self, id: u64) -> (r: Option<usize>)
        ensures
            match r {
                Some(i) => i as int == batch_index(self.spec_batches(), id) && i
                    < self.spec_batches().len() && self.spec_batches()[i as int].batch.batch_id
                    == id,
                None => batch_index(self.spec_batches(), id) == -1,
            },
    {
        let bn = self.batches.len();
        let mut bi: usize = 0;
        while bi < bn
            invariant
                bn == self.batches@.len(),
                0 <= bi <= bn,
                forall|j: int| 0 <= j < bi ==> (#[trigger] self.batches@[j]).batch.batch_id != id,
            decreases bn - bi,
        {
            proof {
                lemma_batch_index_step(self.batches@, id, bi as int);
            }
            if self.batches[bi].batch.batch_id == id {
                return Some(bi);
            }
            bi = bi + 1;
        }
        proof {
            lemma_batch_index(self.batches@, id);
        }
        None
    }

    /// The batch an open challenge targets, if the challenge is known.
    pub fn get_challenge_batch(&self, challenge_id: u64) -> (r: Option<u64>)
        ensures
            match r {
                Some(bid) => challenge_index(self.spec_challenges(), challenge_id) >= 0 && bid
                    == self.spec_challenges()[challenge_index(
                    self.spec_challenges(),
                    challenge_id,
                )].batch_id,
                None => challenge_index(self.spec_challenges(), challenge_id) == -1,
            },
    {
        match self.find_challenge(challenge_id) {
            Some(i) => Some(self.challenges[i].batch_id),
            None => None,
        }
    }

    /// Processes an open challenge: the challenged batch's state
    /// transition is re-derived from its retained pre-state and its
    /// original transaction list, and the re-derived root is compared
    /// against the claimed one. A mismatch upholds the challenge: the
    /// rollup reverts to the batch's previous root, the batch becomes
    /// terminally reverted, and the submitter is slashed the challenge's
    /// stake. A match rejects the challenge and the challenger's stake is
    /// slashed instead. Either way the challenge closes and the
    /// resolution is recorded.
    pub fn process_challenge(&mut self, challenge_id: u64, now: u64) -> (r: Result<
        ChallengeOutcome,
        SettlementError,
    >)
        requires
            old(self).wf(),
        ensures
            final(self).wf(),
            ({
                let ci = challenge_index(old(self).spec_challenges(), challenge_id);
                match r {
                    Ok(outcome) => {
                        let ch = old(self).spec_challenges()[ci];
                        let bi = batch_index(old(self).spec_batches(), ch.batch_id);
                        let hb = old(self).spec_batches()[bi];
                        let replayed = canonical_root(
                            spec_execute_batch(
                                old(self).spec_gas_schedule(),
                                hb.pre_state@,
                                hb.batch.transactions@,
                                Seq::empty(),
                                0,
                            ).0.accounts,
                        );
                        &&& ci >= 0
                        &&& bi >= 0
                        &&& (outcome == ChallengeOutcome::ChallengeSuccessful <==> replayed
                            != hb.batch.state_root@)
                        &&& (outcome == ChallengeOutcome::ChallengeSuccessful || outcome
                            == ChallengeOutcome::ChallengeFailed)
                        &&& (outcome == ChallengeOutcome::ChallengeSuccessful ==> final(self).spec_root() == hb.batch.previous_state_root@ && final(self).spec_batches()[bi].finality_status == FinalityStatus::Reverted)
                        &&& (outcome == ChallengeOutcome::ChallengeFailed ==> final(self).spec_root() == old(self).spec_root() && final(self).spec_batches()
                            == old(self).spec_batches())
                        &&& final(self).spec_challenges().len() == old(self).spec_challenges().len() - 1
                        &&& (forall|j: int|
                            0 <= j < ci ==> final(self).spec_challenges()[j] == old(self).spec_challenges()[j])
                        &&& (forall|j: int|
                            ci <= j < final(self).spec_challenges().len() ==> final(self).spec_challenges()[j] == old(self).spec_challenges()[j + 1])
                        &&& final(self).spec_history().len() == old(self).spec_history().len() + 1
                        &&& final(self).spec_history().last().challenge_id == challenge_id
                        &&& final(self).spec_history().last().batch_id == ch.batch_id
                        &&& final(self).spec_history().last().outcome == outcome
                        &&& final(self).spec_history().last().resolved_at == now
                        &&& final(self).spec_history().last().slashed_amount == ch.stake_amount
                    },
                    Err(e) => e == SettlementError::ChallengeNotFound && ci == -1 && *final(self)
                        == *old(self),
                }
            }),
    {
        let ci: usize = match self.find_challenge(challenge_id) {
            Some(i) => i,
            None => {
                return Err(SettlementError::ChallengeNotFound);
            },
        };
        let batch_id = self.challenges[ci].batch_id;
        let stake = self.challenges[ci].stake_amount;
        proof {
            assert(batch_index(self.batches@, self.challenges@[ci as int].batch_id) != -1);
        }
        let bi: usize = match self.find_batch(batch_id) {
            Some(i) => i,
            None => {
                // a challenge only ever targets a recorded batch
                proof {
                    assert(false);
                }
                return Err(SettlementError::ChallengeNotFound);
            },
        };
        // re-derive the transition and compare roots
        let replayed = replay_batch_root(
            &self.gas_schedule,
            &self.batches[bi].pre_state,
            &self.batches[bi].batch.transactions,
        );
        let outcome: ChallengeOutcome;
        if !bytes_eq(&replayed, &self.batches[bi].batch.state_root) {
            self.current_state_root = copy_bytes(&self.batches[bi].batch.previous_state_root);
            self.batches[bi].finality_status = FinalityStatus::Reverted;
            outcome = ChallengeOutcome::ChallengeSuccessful;
            proof {
                assert forall|j: int|
                    0 <= j < self.batches@.len() implies (#[trigger] self.batches@[j]).pre_state.wf()
                    && self.batches@[j].batch.previous_state_root@.len() == 32 by {
                    if j != bi {
                        assert(self.batches@[j] == old(self).batches@[j]);
                    }
                }
            }
        } else {
            outcome = ChallengeOutcome::ChallengeFailed;
        }
        let ghost ch_pre = self.challenges@;
        self.challenges.remove(ci);
        self.history.push(
            ChallengeRecord {
                challenge_id,
                batch_id,
                outcome,
                resolved_at: now,
                slashed_amount: stake,
            },
        );
        proof {
            assert forall|q: int|
                0 <= q < self.batches@.len() implies (#[trigger] self.batches@[q].batch.batch_id)
                == old(self).batches@[q].batch.batch_id by {
                if q != bi {
                    assert(self.batches@[q] == old(self).batches@[q]);
                }
            }
            assert forall|j: int| 0 <= j < self.challenges@.len() implies batch_index(
                self.batches@,
                (#[trigger] self.challenges@[j]).batch_id,
            ) != -1 by {
                if j < ci {
                    assert(self.challenges@[j] == old(self).challenges@[j]);
                } else {
                    assert(self.challenges@[j] == old(self).challenges@[j + 1]);
                }
                assert(batch_index(old(self).batches@, self.challenges@[j].batch_id) != -1);
                lemma_batch_index_congruent(
                    old(self).batches@,
                    self.batches@,
                    self.challenges@[j].batch_id,
                );
            }
        }
        Ok(outcome)
    }

    /// Marks a recorded batch irreversible. Refused while any open
    /// challenge targets the batch — only resolved challenges let
    /// finality proceed — and refused outright for a batch that was
    /// reverted, or that is not known.
    pub fn mark_finalized(&mut self, batch_id: u64) -> (r: Result<(), SettlementError>)
        requires
            old(self).wf(),
        ensures
            final(self).wf(),
            ({
                let bi = batch_index(old(self).spec_batches(), batch_id);
                match r {
                    Ok(()) => {
                        &&& bi >= 0
                        &&& !has_open_challenge(old(self).spec_challenges(), batch_id)
                        &&& old(self).spec_batches()[bi].finality_status
                            != FinalityStatus::Reverted
                        &&& final(self).spec_batches()[bi].finality_status
                            == FinalityStatus::Finalized
                        &&& final(self).spec_batches()[bi].batch == old(self).spec_batches()[bi].batch
                        &&& forall|i: int|
                            0 <= i < old(self).spec_batches().len() && i != bi ==> final(self).spec_batches()[i] == old(self).spec_batches()[i]
                        &&& final(self).spec_challenges() == old(self).spec_challenges()
                        &&& final(self).spec_root() == old(self).spec_root()
                    },
                    Err(SettlementError::ChallengeStillOpen) => has_open_challenge(
                        old(self).spec_challenges(),
                        batch_id,
                    ) && *final(self) == *old(self),
                    Err(SettlementError::BatchNotFound) => !has_open_challenge(
                        old(self).spec_challenges(),
                        batch_id,
                    ) && bi == -1 && *final(self) == *old(self),
                    Err(SettlementError::BatchReverted) => !has_open_challenge(
                        old(self).spec_challenges(),
                        batch_id,
                    ) && bi >= 0 && old(self).spec_batches()[bi].finality_status
                        == FinalityStatus::Reverted && *final(self) == *old(self),
                    Err(_) => false,
                }
            }),
    {
        // an open challenge blocks finality outright
        let cn = self.challenges.len();
        let mut ci: usize = 0;
        while ci < cn
            invariant
                *self == *old(self),
                old(self).wf(),
                cn == self.challenges@.len(),
                0 <= ci <= cn,
                forall|j: int|
                    0 <= j < ci ==> !((#[trigger] self.challenges@[j]).batch_id == batch_id && (
                    self.challenges@[j].status == ChallengeStatus::Pending
                        || self.challenges@[j].status == ChallengeStatus::UnderReview)),
            decreases cn - ci,
        {
            let open = matches!(self.challenges[ci].status, ChallengeStatus::Pending)
                || matches!(self.challenges[ci].status, ChallengeStatus::UnderReview);
            if self.challenges[ci].batch_id == batch_id && open {
                return Err(SettlementError::ChallengeStillOpen);
            }
            ci = ci + 1;
        }
        proof {
            assert(!has_open_challenge(self.challenges@, batch_id));
        }
        let bn = self.batches.len();
        let mut bi: usize = 0;
        while bi < bn
            invariant
                *self == *old(self),
                old(self).wf(),
                !has_open_challenge(old(self).spec_challenges(), batch_id),
                bn == self.batches@.len(),
                0 <= bi <= bn,
                forall|j: int| 0 <= j < bi ==> (#[trigger] self.batches@[j]).batch.batch_id
                    != batch_id,
            decreases bn - bi,
        {
            proof {
                lemma_batch_index_step(self.batches@, batch_id, bi as int);
            }
            if self.batches[bi].batch.batch_id == batch_id {
                if matches!(self.batches[bi].finality_status, FinalityStatus::Reverted) {
                    return Err(SettlementError::BatchReverted);
                }
                self.batches[bi].finality_status = FinalityStatus::Finalized;
                proof {
                    assert forall|j: int|
                        0 <= j < self.batches@.len() implies (#[trigger] self.batches@[j]).pre_state.wf()
                        && self.batches@[j].batch.previous_state_root@.len() == 32 by {
                        if j != bi {
                            assert(self.batches@[j] == old(self).batches@[j]);
                        }
                    }
                    assert forall|q: int|
                        0 <= q < self.batches@.len() implies (#[trigger] self.batches@[q].batch.batch_id)
                        == old(self).batches@[q].batch.batch_id by {
                        if q != bi {
                            assert(self.batches@[q] == old(self).batches@[q]);
                        }
                    }
                    assert forall|j: int| 0 <= j < self.challenges@.len() implies batch_index(
                        self.batches@,
                        (#[trigger] self.challenges@[j]).batch_id,
                    ) != -1 by {
                        assert(batch_index(old(self).batches@, self.challenges@[j].batch_id)
                            != -1);
                        lemma_batch_index_congruent(
                            old(self).batches@,
                            self.batches@,
                            self.challenges@[j].batch_id,
                        );
                    }
                }
                return Ok(());
            }
            bi = bi + 1;
        }
        proof {
            lemma_batch_index(self.batches@, batch_id);
        }
        Err(SettlementError::BatchNotFound)
    }
}

/// If no batch before `i` carries the id, the first match is at or past
/// `i`, and a match at `i` is the first.
pub proof fn lemma_batch_index_step(s: Seq<HistoricalBatch>, id: u64, i: int)
    requires
        0 <= i < s.len(),
        forall|j: int| 0 <= j < i ==> (#[trigger] s[j]).batch.batch_id != id,
    ensures
        s[i].batch.batch_id == id ==> batch_index(s, id) == i,
        s[i].batch.batch_id != id ==> (batch_index(s, id) == -1 || batch_index(s, id) > i),
    decreases i,
{
    if i == 0 {
        if s.first().batch.batch_id != id {
            lemma_batch_index(s.drop_first(), id);
        }
    } else {
        assert(s.first().batch.batch_id != id);
        let t = s.drop_first();
        assert forall|j: int| 0 <= j < i - 1 implies (#[trigger] t[j]).batch.batch_id != id by {
            assert(t[j] == s[j + 1]);
        }
        assert(t[i - 1] == s[i]);
        lemma_batch_index_step(t, id, i - 1);
    }
}

} // verus!
