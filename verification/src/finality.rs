use vstd::prelude::*;

use crate::config::SettlementConfig;
use crate::error::SettlementError;
use crate::types::Address;

verus! {

/// A graded confidence level that a settled batch will never revert.
#[derive(Debug, Clone, Copy, PartialEq, Eq, Structural)]
pub enum FinalityType {
    /// High probability, backed by confirmation depth.
    Probabilistic,
    /// Backed by stakes and an expired challenge period.
    Economic,
    /// Backed by confirmation depth and elapsed time.
    Absolute,
}

/// What a challenge tracked here claims.
#[derive(Debug, Clone, Copy, PartialEq, Eq, Structural)]
pub enum TrackedChallengeType {
    /// The state transition is disputed.
    StateTransition,
    /// The batch data is said to be unavailable.
    DataAvailability,
    /// The execution is said to be wrong.
    InvalidExecution,
    /// A fraud proof is announced.
    FraudProof,
}

/// Where a tracked challenge stands. Only resolved challenges let
/// finality evaluation proceed.
#[derive(Debug, Clone, Copy, PartialEq, Eq, Structural)]
pub enum TrackedChallengeStatus {
    /// Raised and unresolved.
    Open,
    /// Being arbitrated; still unresolved.
    UnderReview,
    /// Settled one way or the other.
    Resolved,
    /// Lapsed past its deadline.
    Expired,
}

/// A finalized batch: terminal, written once, queryable by id.
#[derive(Debug)]
pub struct FinalizedBatch {
    /// The batch made irreversible.
    pub batch_id: u64,
    /// The anchor-chain block it settled in.
    pub l1_block_number: u64,
    /// The anchor-chain transaction that carried it.
    pub l1_transaction_hash: String,
    /// The gas the batch consumed.
    pub gas_used: u64,
    /// When finality was reached, in milliseconds.
    pub finalized_at: u64,
    /// The tier that granted finality.
    pub finality_type: FinalityType,
    /// Confirmations counted at finalization.
    pub confirmation_count: u32,
}

/// A submitted batch watched for finality.
#[derive(Debug)]
pub struct PendingFinality {
    /// The batch being watched.
    pub batch_id: u64,
    /// The anchor-chain transaction that carried it.
    pub l1_transaction_hash: String,
    /// The anchor-chain block it landed in, once known.
    pub l1_block_number: u64,
    /// When it was submitted, in milliseconds.
    pub submitted_at: u64,
    /// Confirmations counted so far.
    pub l1_confirmations: u32,
    /// When its challenge period ends, in milliseconds.
    pub challenge_period_end: u64,
    /// Open challenges currently against it.
    pub open_challenges: u64,
    /// The gas the batch consumed, carried to the finalized record.
    pub gas_used: u64,
}

/// A challenge the engine tracks against a watched batch.
#[derive(Debug)]
pub struct TrackedChallenge {
    /// Opaque identifier of the challenge.
    pub challenge_id: u64,
    /// The batch it targets.
    pub batch_id: u64,
    /// Who raised it.
    pub challenger: Address,
    /// What it claims.
    pub challenge_type: TrackedChallengeType,
    /// When it was raised, in milliseconds.
    pub submitted_at: u64,
    /// When its fraud proof is due, in milliseconds.
    pub deadline: u64,
    /// The evidence blob.
    pub evidence: Vec<u8>,
    /// Where it stands.
    pub status: TrackedChallengeStatus,
}

/// The confirmation depths the tiers ask for.
#[derive(Debug, Clone, Copy, PartialEq, Eq, Structural)]
pub struct ConfirmationRequirements {
    /// Depth for economic finality.
    pub minimum_confirmations: u32,
    /// Depth for probabilistic finality.
    pub fast_finality_threshold: u32,
    /// Depth for absolute finality.
    pub deep_finality_threshold: u32,
}

/// The conditions a finality rule can ask for.
#[derive(Debug, Clone, Copy, PartialEq, Eq, Structural)]
pub enum ConditionType {
    /// At least this many confirmations.
    MinConfirmations,
    /// The challenge period has ended.
    ChallengePeriodExpired,
    /// No challenge is open.
    NoActiveChallenges,
    /// At least this much aggregate stake.
    StakeThreshold,
    /// At least this much time since submission, in milliseconds.
    TimeElapsed,
}

/// One condition of a finality rule.
#[derive(Debug, Clone, Copy, PartialEq, Eq, Structural)]
pub struct FinalityCondition {
    /// What the condition asks for.
    pub condition_type: ConditionType,
    /// The threshold it asks for.
    pub threshold: u64,
}

/// One finality rule: a tier and the conditions that grant it.
#[derive(Debug)]
pub struct FinalityRule {
    /// The conditions, all of which must hold.
    pub conditions: Vec<FinalityCondition>,
    /// The tier the rule grants.
    pub finality_type: FinalityType,
    /// Evaluation priority, higher tiers later.
    pub priority: u8,
}

/// The three finality rules, by ascending confirmation depth:
/// probabilistic at six confirmations with no active challenge; economic
/// at twelve confirmations with the challenge period expired and enough
/// aggregate stake; absolute at sixty-four confirmations and two hours
/// elapsed.
pub fn initialize_finality_rules() -> (r: Vec<FinalityRule>)
    ensures
        r@.len() == 3,
        r@[0].finality_type == FinalityType::Probabilistic && r@[0].priority == 1,
        r@[0].conditions@ == seq![
            FinalityCondition { condition_type: ConditionType::MinConfirmations, threshold: 6u64 },
            FinalityCondition { condition_type: ConditionType::NoActiveChallenges, threshold: 0u64 },
        ],
        r@[1].finality_type == FinalityType::Economic && r@[1].priority == 2,
        r@[1].conditions@ == seq![
            FinalityCondition { condition_type: ConditionType::MinConfirmations, threshold: 12u64 },
            FinalityCondition {
                condition_type: ConditionType::ChallengePeriodExpired,
                threshold: 0u64,
            },
            FinalityCondition {
                condition_type: ConditionType::StakeThreshold,
                threshold: 1000000u64,
            },
        ],
        r@[2].finality_type == FinalityType::Absolute && r@[2].priority == 3,
        r@[2].conditions@ == seq![
            FinalityCondition { condition_type: ConditionType::MinConfirmations, threshold: 64u64 },
            FinalityCondition { condition_type: ConditionType::TimeElapsed, threshold: 7200000u64 },
        ],
{
    let mut fast: Vec<FinalityCondition> = Vec::new();
    fast.push(FinalityCondition { condition_type: ConditionType::MinConfirmations, threshold: 6 });
    fast.push(
        FinalityCondition { condition_type: ConditionType::NoActiveChallenges, threshold: 0 },
    );
    let mut econ: Vec<FinalityCondition> = Vec::new();
    econ.push(FinalityCondition { condition_type: ConditionType::MinConfirmations, threshold: 12 });
    econ.push(
        FinalityCondition { condition_type: ConditionType::ChallengePeriodExpired, threshold: 0 },
    );
    econ.push(
        FinalityCondition { condition_type: ConditionType::StakeThreshold, threshold: 1000000 },
    );
    let mut abs: Vec<FinalityCondition> = Vec::new();
    abs.push(FinalityCondition { condition_type: ConditionType::MinConfirmations, threshold: 64 });
    abs.push(FinalityCondition { condition_type: ConditionType::TimeElapsed, threshold: 7200000 });
    let mut rules: Vec<FinalityRule> = Vec::new();
    proof {
        assert(fast@ =~= seq![
            FinalityCondition { condition_type: ConditionType::MinConfirmations, threshold: 6u64 },
            FinalityCondition { condition_type: ConditionType::NoActiveChallenges, threshold: 0u64 },
        ]);
        assert(econ@ =~= seq![
            FinalityCondition { condition_type: ConditionType::MinConfirmations, threshold: 12u64 },
            FinalityCondition {
                condition_type: ConditionType::ChallengePeriodExpired,
                threshold: 0u64,
            },
            FinalityCondition {
                condition_type: ConditionType::StakeThreshold,
                threshold: 1000000u64,
            },
        ]);
        assert(abs@ =~= seq![
            FinalityCondition { condition_type: ConditionType::MinConfirmations, threshold: 64u64 },
            FinalityCondition { condition_type: ConditionType::TimeElapsed, threshold: 7200000u64 },
        ]);
    }
    rules.push(FinalityRule { conditions: fast, finality_type: FinalityType::Probabilistic, priority: 1 });
    rules.push(FinalityRule { conditions: econ, finality_type: FinalityType::Economic, priority: 2 });
    rules.push(FinalityRule { conditions: abs, finality_type: FinalityType::Absolute, priority: 3 });
    rules
}

/// Whether the probabilistic tier's conditions hold for `p`: enough
/// confirmations for fast finality and no open challenge.
pub open spec fn spec_probabilistic_ok(req: ConfirmationRequirements, p: PendingFinality) -> bool {
    p.l1_confirmations >= req.fast_finality_threshold && p.open_challenges == 0
}

/// Whether the economic tier's conditions hold for `p` at `now`: enough
/// confirmations, the challenge period over, enough aggregate stake, and
/// no open challenge.
pub open spec fn spec_economic_ok(
    req: ConfirmationRequirements,
    p: PendingFinality,
    aggregate_stake: u64,
    stake_threshold: u64,
    now: u64,
) -> bool {
    p.l1_confirmations >= req.minimum_confirmations && now > p.challenge_period_end
        && aggregate_stake >= stake_threshold && p.open_challenges == 0
}

/// Whether the absolute tier's conditions hold for `p` at `now`: deep
/// confirmations, the configured time elapsed since submission, and no
/// open challenge.
pub open spec fn spec_absolute_ok(
    req: ConfirmationRequirements,
    p: PendingFinality,
    elapsed_threshold_ms: u64,
    now: u64,
) -> bool {
    p.l1_confirmations >= req.deep_finality_threshold && now >= p.submitted_at
        + elapsed_threshold_ms && p.open_challenges == 0
}

/// The highest finality tier `p` qualifies for at `now`, or none. A batch
/// with any open challenge qualifies for no tier at all.
pub open spec fn spec_finality_tier(
    req: ConfirmationRequirements,
    p: PendingFinality,
    aggregate_stake: u64,
    stake_threshold: u64,
    elapsed_threshold_ms: u64,
    now: u64,
) -> Option<FinalityType> {
    if p.open_challenges != 0 {
        None
    } else if spec_absolute_ok(req, p, elapsed_threshold_ms, now) {
        Some(FinalityType::Absolute)
    } else if spec_economic_ok(req, p, aggregate_stake, stake_threshold, now) {
        Some(FinalityType::Economic)
    } else if spec_probabilistic_ok(req, p) {
        Some(FinalityType::Probabilistic)
    } else {
        None
    }
}

/// Law: a batch with an open challenge can never be granted any finality
/// tier; only once every challenge against it is resolved can evaluation
/// proceed.
pub proof fn lemma_open_challenge_blocks_finality(
    req: ConfirmationRequirements,
    p: PendingFinality,
    aggregate_stake: u64,
    stake_threshold: u64,
    elapsed_threshold_ms: u64,
    now: u64,
)
    requires
        p.open_challenges > 0,
    ensures
        spec_finality_tier(req, p, aggregate_stake, stake_threshold, elapsed_threshold_ms, now)
            is None,
{
}

/// The batches of `s` that qualify for no tier at `now`, in order.
pub open spec fn spec_still_pending(
    s: Seq<PendingFinality>,
    req: ConfirmationRequirements,
    aggregate_stake: u64,
    stake_threshold: u64,
    elapsed_threshold_ms: u64,
    now: u64,
) -> Seq<PendingFinality>
    decreases s.len(),
{
    if s.len() == 0 {
        Seq::empty()
    } else {
        let rest = spec_still_pending(
            s.drop_first(),
            req,
            aggregate_stake,
            stake_threshold,
            elapsed_threshold_ms,
            now,
        );
        if spec_finality_tier(
            req,
            s.first(),
            aggregate_stake,
            stake_threshold,
            elapsed_threshold_ms,
            now,
        ) is None {
            seq![s.first()] + rest
        } else {
            rest
        }
    }
}

/// The batches of `s` that qualify for some tier at `now`, in order.
pub open spec fn spec_ripe(
    s: Seq<PendingFinality>,
    req: ConfirmationRequirements,
    aggregate_stake: u64,
    stake_threshold: u64,
    elapsed_threshold_ms: u64,
    now: u64,
) -> Seq<PendingFinality>
    decreases s.len(),
{
    if s.len() == 0 {
        Seq::empty()
    } else {
        let rest = spec_ripe(
            s.drop_first(),
            req,
            aggregate_stake,
            stake_threshold,
            elapsed_threshold_ms,
            now,
        );
        if spec_finality_tier(
            req,
            s.first(),
            aggregate_stake,
            stake_threshold,
            elapsed_threshold_ms,
            now,
        ) is None {
            rest
        } else {
            seq![s.first()] + rest
        }
    }
}

/// A finalized record carries exactly what the watched batch held, the
/// granted tier, and the finalization time.
pub open spec fn finalized_matches(
    f: FinalizedBatch,
    p: PendingFinality,
    req: ConfirmationRequirements,
    aggregate_stake: u64,
    stake_threshold: u64,
    elapsed_threshold_ms: u64,
    now: u64,
) -> bool {
    f.batch_id == p.batch_id && f.l1_block_number == p.l1_block_number && f.l1_transaction_hash@
        == p.l1_transaction_hash@ && f.gas_used == p.gas_used && f.finalized_at == now && Some(
        f.finality_type,
    ) == spec_finality_tier(req, p, aggregate_stake, stake_threshold, elapsed_threshold_ms, now)
        && f.confirmation_count == p.l1_confirmations
}

/// Law: with twelve confirmations required for economic finality and six
/// for fast finality, an unchallenged batch at exactly six confirmations
/// holds probabilistic finality and not economic finality; at twelve
/// confirmations with the challenge period expired and the stake
/// threshold met, it holds economic finality.
pub proof fn lemma_finality_tiers(
    req: ConfirmationRequirements,
    p6: PendingFinality,
    p12: PendingFinality,
    aggregate_stake: u64,
    stake_threshold: u64,
    elapsed_threshold_ms: u64,
    now: u64,
)
    requires
        req.minimum_confirmations == 12,
        req.fast_finality_threshold == 6,
        req.deep_finality_threshold == 64,
        p6.l1_confirmations == 6,
        p6.open_challenges == 0,
        p12.l1_confirmations == 12,
        p12.open_challenges == 0,
        now > p12.challenge_period_end,
        now < p12.submitted_at + elapsed_threshold_ms,
        now <= p6.challenge_period_end,
        aggregate_stake >= stake_threshold,
    ensures
        spec_finality_tier(req, p6, aggregate_stake, stake_threshold, elapsed_threshold_ms, now)
            == Some(FinalityType::Probabilistic),
        !spec_economic_ok(req, p6, aggregate_stake, stake_threshold, now),
        spec_finality_tier(req, p12, aggregate_stake, stake_threshold, elapsed_threshold_ms, now)
            == Some(FinalityType::Economic),
{
}

impl FinalityEngine {
    /// The position of the watched batch with id `batch_id`, if any.
    fn find_pending(&self, batch_id: u64) -> (r: Option<usize>)
        ensures
            match r {
                Some(i) => 0 <= i < self.spec_pending().len() && self.spec_pending()[i as int].batch_id
                    == batch_id,
                None => forall|j: int|
                    0 <= j < self.spec_pending().len() ==> (#[trigger] self.spec_pending()[j]).batch_id
                        != batch_id,
            },
    {
        let n = self.pending.len();
        let mut i: usize = 0;
        while i < n
            invariant
                n == self.pending@.len(),
                0 <= i <= n,
                forall|j: int| 0 <= j < i ==> (#[trigger] self.pending@[j]).batch_id != batch_id,
            decreases n - i,
        {
            if self.pending[i].batch_id == batch_id {
                return Some(i);
            }
            i = i + 1;
        }
        None
    }

    /// The position of the unresolved challenge with id `challenge_id`,
    /// if any.
    fn find_open_challenge(&self, challenge_id: u64) -> (r: Option<usize>)
        ensures
            match r {
                Some(i) => 0 <= i < self.spec_challenges().len()
                    && self.spec_challenges()[i as int].challenge_id == challenge_id && (
                self.spec_challenges()[i as int].status == TrackedChallengeStatus::Open
                    || self.spec_challenges()[i as int].status
                    == TrackedChallengeStatus::UnderReview),
                None => true,
            },
    {
        let n = self.challenges.len();
        let mut i: usize = 0;
        while i < n
            invariant
                n == self.challenges@.len(),
                0 <= i <= n,
            decreases n - i,
        {
            let open = matches!(self.challenges[i].status, TrackedChallengeStatus::Open)
                || matches!(self.challenges[i].status, TrackedChallengeStatus::UnderReview);
            if self.challenges[i].challenge_id == challenge_id && open {
                return Some(i);
            }
            i = i + 1;
        }
        None
    }
}

/// Watches submitted batches on the anchor chain: counts confirmations,
/// tracks challenge periods and open disputes, grants finality tiers, and
/// flags deep reorganizations for rollback.
pub struct FinalityEngine {
    config: SettlementConfig,
    requirements: ConfirmationRequirements,
    rules: Vec<FinalityRule>,
    pending: Vec<PendingFinality>,
    challenges: Vec<TrackedChallenge>,
    finalized: Vec<FinalizedBatch>,
    current_l1_block: u64,
    aggregate_stake: u64,
    stake_threshold: u64,
    absolute_elapsed_ms: u64,
    reorg_threshold: u64,
    next_challenge_id: u64,
}

impl FinalityEngine {
    /// The confirmation depths in force.
    pub closed spec fn spec_requirements(self) -> ConfirmationRequirements {
        self.requirements
    }

    /// The watched batches, in submission order.
    pub closed spec fn spec_pending(self) -> Seq<PendingFinality> {
        self.pending@
    }

    /// The tracked challenges.
    pub closed spec fn spec_challenges(self) -> Seq<TrackedChallenge> {
        self.challenges@
    }

    /// The finalized batches, append-only.
    pub closed spec fn spec_finalized(self) -> Seq<FinalizedBatch> {
        self.finalized@
    }

    /// The aggregate validator stake the engine credits.
    pub closed spec fn spec_aggregate_stake(self) -> u64 {
        self.aggregate_stake
    }

    /// The stake the economic tier requires.
    pub closed spec fn spec_stake_threshold(self) -> u64 {
        self.stake_threshold
    }

    /// The elapsed time the absolute tier requires, in milliseconds.
    pub closed spec fn spec_absolute_elapsed_ms(self) -> u64 {
        self.absolute_elapsed_ms
    }

    /// The highest anchor-chain block seen.
    pub closed spec fn spec_current_l1_block(self) -> u64 {
        self.current_l1_block
    }

    /// An engine with the stock depths — twelve confirmations minimum,
    /// six for fast finality, sixty-four for deep finality — watching
    /// nothing yet.
    pub fn new(config: &SettlementConfig) -> (r: FinalityEngine)
        ensures
            r.spec_requirements() == (ConfirmationRequirements {
                minimum_confirmations: 12u32,
                fast_finality_threshold: 6u32,
                deep_finality_threshold: 64u32,
            }),
            r.spec_pending().len() == 0,
            r.spec_challenges().len() == 0,
            r.spec_finalized().len() == 0,
            r.spec_aggregate_stake() == 0,
            r.spec_stake_threshold() == 1000000,
            r.spec_absolute_elapsed_ms() == 7200000,
            r.spec_current_l1_block() == 0,
    {
        FinalityEngine {
            config: *config,
            requirements: ConfirmationRequirements {
                minimum_confirmations: 12,
                fast_finality_threshold: 6,
                deep_finality_threshold: 64,
            },
            rules: initialize_finality_rules(),
            pending: Vec::new(),
            challenges: Vec::new(),
            finalized: Vec::new(),
            current_l1_block: 0,
            aggregate_stake: 0,
            stake_threshold: 1000000,
            absolute_elapsed_ms: 7200000,
            reorg_threshold: 6,
            next_challenge_id: 1,
        }
    }

    /// Credits the engine with the validators' aggregate stake.
    pub fn set_aggregate_stake(&mut self, stake: u64)
        ensures
            final(self).spec_aggregate_stake() == stake,
            final(self).spec_pending() == old(self).spec_pending(),
            final(self).spec_challenges() == old(self).spec_challenges(),
            final(self).spec_finalized() == old(self).spec_finalized(),
            final(self).spec_requirements() == old(self).spec_requirements(),
            final(self).spec_stake_threshold() == old(self).spec_stake_threshold(),
            final(self).spec_absolute_elapsed_ms() == old(self).spec_absolute_elapsed_ms(),
    {
        self.aggregate_stake = stake;
    }

    /// Starts watching a submitted batch: zero confirmations, its
    /// challenge period running from the submission time, no open
    /// challenge.
    pub fn track_l1_submission(
        &mut self,
        batch_id: u64,
        transaction_hash: String,
        submitted_at: u64,
        gas_used: u64,
    ) -> (r: Result<(), SettlementError>)
        ensures
            r is Ok,
            final(self).spec_pending().len() == old(self).spec_pending().len() + 1,
            ({
                let p = final(self).spec_pending().last();
                &&& p.batch_id == batch_id
                &&& p.l1_transaction_hash@ == transaction_hash@
                &&& p.l1_block_number == 0
                &&& p.submitted_at == submitted_at
                &&& p.l1_confirmations == 0
                &&& p.challenge_period_end == crate::types::sat_add_nat(
                    submitted_at as nat,
                    old(self).spec_challenge_period_ms() as nat,
                ) as u64
                &&& p.open_challenges == 0
                &&& p.gas_used == gas_used
            }),
            forall|i: int|
                0 <= i < old(self).spec_pending().len() ==> final(self).spec_pending()[i] == old(self).spec_pending()[i],
            final(self).spec_challenges() == old(self).spec_challenges(),
            final(self).spec_finalized() == old(self).spec_finalized(),
            final(self).spec_requirements() == old(self).spec_requirements(),
            final(self).spec_aggregate_stake() == old(self).spec_aggregate_stake(),
            final(self).spec_stake_threshold() == old(self).spec_stake_threshold(),
            final(self).spec_absolute_elapsed_ms() == old(self).spec_absolute_elapsed_ms(),
    {
        let end: u64 = if submitted_at <= u64::MAX - self.config.challenge_period_ms {
            submitted_at + self.config.challenge_period_ms
        } else {
            u64::MAX
        };
        self.pending.push(
            PendingFinality {
                batch_id,
                l1_transaction_hash: transaction_hash,
                l1_block_number: 0,
                submitted_at,
                l1_confirmations: 0,
                challenge_period_end: end,
                open_challenges: 0,
                gas_used,
            },
        );
        Ok(())
    }

    /// The configured challenge period, in milliseconds.
    pub closed spec fn spec_challenge_period_ms(self) -> u64 {
        self.config.challenge_period_ms
    }

    /// The configured fraud-proof window, in milliseconds.
    pub closed spec fn spec_fraud_window_ms(self) -> u64 {
        self.config.fraud_proof_window_ms
    }

    /// Records an anchor-chain confirmation count for a watched batch.
    /// Refused when no batch with that id is watched.
    pub fn update_l1_confirmation(
        &mut self,
        batch_id: u64,
        block_number: u64,
        confirmations: u32,
    ) -> (r: Result<(), SettlementError>)
        ensures
            final(self).spec_challenges() == old(self).spec_challenges(),
            final(self).spec_finalized() == old(self).spec_finalized(),
            final(self).spec_requirements() == old(self).spec_requirements(),
            final(self).spec_aggregate_stake() == old(self).spec_aggregate_stake(),
            match r {
                Ok(()) => exists|i: int|
                    {
                        &&& 0 <= i < old(self).spec_pending().len()
                        &&& (#[trigger] old(self).spec_pending()[i]).batch_id == batch_id
                        &&& final(self).spec_pending().len() == old(self).spec_pending().len()
                        &&& final(self).spec_pending()[i].batch_id == batch_id
                        &&& final(self).spec_pending()[i].l1_block_number == block_number
                        &&& final(self).spec_pending()[i].l1_confirmations == confirmations
                        &&& final(self).spec_pending()[i].l1_transaction_hash == old(self).spec_pending()[i].l1_transaction_hash
                        &&& final(self).spec_pending()[i].submitted_at == old(self).spec_pending()[i].submitted_at
                        &&& final(self).spec_pending()[i].challenge_period_end == old(self).spec_pending()[i].challenge_period_end
                        &&& final(self).spec_pending()[i].open_challenges == old(self).spec_pending()[i].open_challenges
                        &&& final(self).spec_pending()[i].gas_used == old(self).spec_pending()[i].gas_used
                        &&& forall|j: int|
                            0 <= j < old(self).spec_pending().len() && j != i ==> final(self).spec_pending()[j] == old(self).spec_pending()[j]
                    },
                Err(SettlementError::BatchNotFound) => (forall|i: int|
                    0 <= i < old(self).spec_pending().len() ==> (#[trigger] old(self).spec_pending()[i]).batch_id != batch_id) && *final(self) == *old(self),
                Err(_) => false,
            },
    {
        match self.find_pending(batch_id) {
            Some(i) => {
                self.pending[i].l1_block_number = block_number;
                self.pending[i].l1_confirmations = confirmations;
                proof {
                    let wi = i as int;
                    assert(old(self).spec_pending()[wi].batch_id == batch_id);
                    assert(forall|j: int|
                        0 <= j < old(self).spec_pending().len() && j != wi
                            ==> self.pending@[j] == old(self).pending@[j]);
                }
                Ok(())
            },
            None => Err(SettlementError::BatchNotFound),
        }
    }

    /// Registers a challenge against a watched batch and marks the batch
    /// disputed: its open-challenge count rises, blocking every finality
    /// tier until resolution. Refused when the batch is not watched.
    pub fn register_challenge(
        &mut self,
        batch_id: u64,
        challenger: Address,
        challenge_type: TrackedChallengeType,
        evidence: Vec<u8>,
        now: u64,
    ) -> (r: Result<u64, SettlementError>)
        ensures
            final(self).spec_finalized() == old(self).spec_finalized(),
            final(self).spec_requirements() == old(self).spec_requirements(),
            final(self).spec_aggregate_stake() == old(self).spec_aggregate_stake(),
            match r {
                Ok(cid) => {
                    &&& final(self).spec_challenges().len() == old(self).spec_challenges().len()
                        + 1
                    &&& final(self).spec_challenges().last().challenge_id == cid
                    &&& final(self).spec_challenges().last().batch_id == batch_id
                    &&& final(self).spec_challenges().last().status
                        == TrackedChallengeStatus::Open
                    &&& final(self).spec_challenges().last().challenger == challenger
                    &&& final(self).spec_challenges().last().challenge_type == challenge_type
                    &&& final(self).spec_challenges().last().evidence@ == evidence@
                    &&& final(self).spec_challenges().last().submitted_at == now
                    &&& final(self).spec_challenges().last().deadline == crate::types::sat_add_nat(
                        now as nat,
                        old(self).spec_fraud_window_ms() as nat,
                    ) as u64
                    &&& forall|j: int|
                        0 <= j < old(self).spec_challenges().len() ==> final(self).spec_challenges()[j] == old(self).spec_challenges()[j]
                    &&& exists|i: int|
                        {
                            &&& 0 <= i < old(self).spec_pending().len()
                            &&& (#[trigger] old(self).spec_pending()[i]).batch_id == batch_id
                            &&& final(self).spec_pending().len() == old(self).spec_pending().len()
                            &&& final(self).spec_pending()[i].open_challenges
                                == crate::types::sat_add_nat(
                                old(self).spec_pending()[i].open_challenges as nat,
                                1,
                            ) as u64
                            &&& final(self).spec_pending()[i].batch_id == batch_id
                            &&& forall|j: int|
                                0 <= j < old(self).spec_pending().len() && j != i ==> final(self).spec_pending()[j] == old(self).spec_pending()[j]
                        }
                },
                Err(SettlementError::BatchNotFound) => (forall|i: int|
                    0 <= i < old(self).spec_pending().len() ==> (#[trigger] old(self).spec_pending()[i]).batch_id != batch_id) && *final(self) == *old(self),
                Err(_) => false,
            },
    {
        match self.find_pending(batch_id) {
            Some(i) => {
                let oc = self.pending[i].open_challenges;
                self.pending[i].open_challenges = if oc < u64::MAX {
                    oc + 1
                } else {
                    u64::MAX
                };
                let cid = self.next_challenge_id;
                self.next_challenge_id = if self.next_challenge_id < u64::MAX {
                    self.next_challenge_id + 1
                } else {
                    u64::MAX
                };
                let deadline: u64 = if now <= u64::MAX - self.config.fraud_proof_window_ms {
                    now + self.config.fraud_proof_window_ms
                } else {
                    u64::MAX
                };
                self.challenges.push(
                    TrackedChallenge {
                        challenge_id: cid,
                        batch_id,
                        challenger,
                        challenge_type,
                        submitted_at: now,
                        deadline,
                        evidence,
                        status: TrackedChallengeStatus::Open,
                    },
                );
                proof {
                    let wi = i as int;
                    assert(old(self).spec_pending()[wi].batch_id == batch_id);
                    assert(forall|j: int|
                        0 <= j < old(self).spec_pending().len() && j != wi
                            ==> self.pending@[j] == old(self).pending@[j]);
                }
                Ok(cid)
            },
            None => Err(SettlementError::BatchNotFound),
        }
    }

    /// Resolves a tracked challenge: it stops blocking finality, and the
    /// disputed batch's open-challenge count falls. Refused when the
    /// challenge is unknown or already resolved.
    pub fn resolve_challenge(&mut self, challenge_id: u64) -> (r: Result<(), SettlementError>)
        ensures
            final(self).spec_finalized() == old(self).spec_finalized(),
            final(self).spec_requirements() == old(self).spec_requirements(),
            final(self).spec_aggregate_stake() == old(self).spec_aggregate_stake(),
            match r {
                Ok(()) => exists|i: int|
                    {
                        &&& 0 <= i < old(self).spec_challenges().len()
                        &&& (#[trigger] old(self).spec_challenges()[i]).challenge_id
                            == challenge_id
                        &&& (old(self).spec_challenges()[i].status == TrackedChallengeStatus::Open
                            || old(self).spec_challenges()[i].status
                            == TrackedChallengeStatus::UnderReview)
                        &&& final(self).spec_challenges().len() == old(self).spec_challenges().len()
                        &&& final(self).spec_challenges()[i].status
                            == TrackedChallengeStatus::Resolved
                        &&& final(self).spec_challenges()[i].challenge_id == challenge_id
                        &&& forall|j: int|
                            0 <= j < old(self).spec_challenges().len() && j != i ==> final(self).spec_challenges()[j] == old(self).spec_challenges()[j]
                    },
                Err(SettlementError::ChallengeNotFound) => *final(self) == *old(self),
                Err(_) => false,
            },
    {
        match self.find_open_challenge(challenge_id) {
            Some(i) => {
                let target = self.challenges[i].batch_id;
                self.challenges[i].status = TrackedChallengeStatus::Resolved;
                match self.find_pending(target) {
                    Some(k) => {
                        let oc = self.pending[k].open_challenges;
                        if oc > 0 {
                            self.pending[k].open_challenges = oc - 1;
                        }
                    },
                    None => {},
                }
                proof {
                    let wi = i as int;
                    assert(old(self).spec_challenges()[wi].challenge_id == challenge_id);
                    assert(forall|j: int|
                        0 <= j < old(self).spec_challenges().len() && j != wi
                            ==> self.challenges@[j] == old(self).challenges@[j]);
                }
                Ok(())
            },
            None => Err(SettlementError::ChallengeNotFound),
        }
    }

    /// Whether a batch stands in the finalized set.
    pub fn is_batch_finalized(&self, batch_id: u64) -> (r: bool)
        ensures
            r == exists|i: int|
                0 <= i < self.spec_finalized().len() && (#[trigger] self.spec_finalized()[i]).batch_id
                    == batch_id,
    {
        let n = self.finalized.len();
        let mut i: usize = 0;
        while i < n
            invariant
                n == self.finalized@.len(),
                0 <= i <= n,
                forall|j: int| 0 <= j < i ==> (#[trigger] self.finalized@[j]).batch_id != batch_id,
            decreases n - i,
        {
            if self.finalized[i].batch_id == batch_id {
                return true;
            }
            i = i + 1;
        }
        false
    }

    /// Observes an anchor-chain block height. A height that falls more
    /// than the reorganization threshold below the highest seen is a deep
    /// reorganization: it is reported as a rollback request rather than
    /// accepted silently; otherwise the highest seen advances.
    pub fn observe_l1_block(&mut self, block_number: u64) -> (r: Option<u64>)
        ensures
            final(self).spec_pending() == old(self).spec_pending(),
            final(self).spec_challenges() == old(self).spec_challenges(),
            final(self).spec_finalized() == old(self).spec_finalized(),
            match r {
                Some(target) => block_number + old(self).spec_reorg_threshold() < old(self).spec_current_l1_block() && target == block_number && final(self).spec_current_l1_block() == block_number,
                None => !(block_number + old(self).spec_reorg_threshold() < old(self).spec_current_l1_block()) && final(self).spec_current_l1_block() == if block_number
                    > old(self).spec_current_l1_block() {
                    block_number
                } else {
                    old(self).spec_current_l1_block()
                },
            },
    {
        if block_number < self.current_l1_block && self.current_l1_block - block_number
            > self.reorg_threshold {
            self.current_l1_block = block_number;
            return Some(block_number);
        }
        if block_number > self.current_l1_block {
            self.current_l1_block = block_number;
        }
        None
    }

    /// The configured reorganization depth threshold.
    pub closed spec fn spec_reorg_threshold(self) -> u64 {
        self.reorg_threshold
    }

    /// The highest finality tier a watched batch qualifies for at `now`.
    pub fn finality_tier(&self, p: &PendingFinality, now: u64) -> (r: Option<FinalityType>)
        ensures
            r == spec_finality_tier(
                self.spec_requirements(),
                *p,
                self.spec_aggregate_stake(),
                self.spec_stake_threshold(),
                self.spec_absolute_elapsed_ms(),
                now,
            ),
    {
        if p.open_challenges != 0 {
            return None;
        }
        let abs_ok = p.l1_confirmations >= self.requirements.deep_finality_threshold
            && p.submitted_at <= u64::MAX - self.absolute_elapsed_ms && now >= p.submitted_at
            + self.absolute_elapsed_ms;
        proof {
            assert(abs_ok == spec_absolute_ok(self.requirements, *p, self.absolute_elapsed_ms, now));
        }
        if abs_ok {
            return Some(FinalityType::Absolute);
        }
        if p.l1_confirmations >= self.requirements.minimum_confirmations && now
            > p.challenge_period_end && self.aggregate_stake >= self.stake_threshold {
            return Some(FinalityType::Economic);
        }
        if p.l1_confirmations >= self.requirements.fast_finality_threshold {
            return Some(FinalityType::Probabilistic);
        }
        None
    }

    /// Sweeps the watched batches: every batch that now qualifies for a
    /// tier — all of that tier's requirements holding at once — leaves
    /// the pending set and is appended to the finalized set, which only
    /// ever grows; the rest stay pending. Returns records of the newly
    /// finalized batches.
    pub fn check_finalized_batches(&mut self, now: u64) -> (r: Vec<FinalizedBatch>)
        ensures
            final(self).spec_challenges() == old(self).spec_challenges(),
            final(self).spec_requirements() == old(self).spec_requirements(),
            final(self).spec_aggregate_stake() == old(self).spec_aggregate_stake(),
            final(self).spec_pending() == spec_still_pending(
                old(self).spec_pending(),
                old(self).spec_requirements(),
                old(self).spec_aggregate_stake(),
                old(self).spec_stake_threshold(),
                old(self).spec_absolute_elapsed_ms(),
                now,
            ),
            ({
                let ripe = spec_ripe(
                    old(self).spec_pending(),
                    old(self).spec_requirements(),
                    old(self).spec_aggregate_stake(),
                    old(self).spec_stake_threshold(),
                    old(self).spec_absolute_elapsed_ms(),
                    now,
                );
                &&& r@.len() == ripe.len()
                &&& final(self).spec_finalized().len() == old(self).spec_finalized().len()
                    + ripe.len()
                &&& forall|j: int|
                    0 <= j < old(self).spec_finalized().len() ==> final(self).spec_finalized()[j]
                        == old(self).spec_finalized()[j]
                &&& forall|j: int|
                    0 <= j < ripe.len() ==> finalized_matches(
                        #[trigger] r@[j],
                        ripe[j],
                        old(self).spec_requirements(),
                        old(self).spec_aggregate_stake(),
                        old(self).spec_stake_threshold(),
                        old(self).spec_absolute_elapsed_ms(),
                        now,
                    ) && finalized_matches(
                        final(self).spec_finalized()[old(self).spec_finalized().len() + j],
                        ripe[j],
                        old(self).spec_requirements(),
                        old(self).spec_aggregate_stake(),
                        old(self).spec_stake_threshold(),
                        old(self).spec_absolute_elapsed_ms(),
                        now,
                    )
            }),
    {
        let ghost req = self.requirements;
        let ghost agg = self.aggregate_stake;
        let ghost st = self.stake_threshold;
        let ghost el = self.absolute_elapsed_ms;
        let ghost all = self.pending@;
        let ghost fin0 = self.finalized@;
        let mut rest: Vec<PendingFinality> = Vec::new();
        core::mem::swap(&mut rest, &mut self.pending);
        proof {
            assert(self.pending@ =~= Seq::<PendingFinality>::empty());
        }
        let mut kept: Vec<PendingFinality> = Vec::new();
        let mut out: Vec<FinalizedBatch> = Vec::new();
        let ghost mut consumed: Seq<PendingFinality> = Seq::empty();
        while rest.len() > 0
            invariant
                self.requirements == req,
                self.aggregate_stake == agg,
                self.stake_threshold == st,
                self.absolute_elapsed_ms == el,
                self.challenges@ == old(self).challenges@,
                self.finalized@.len() == fin0.len() + consumed.len(),
                forall|j: int| 0 <= j < fin0.len() ==> self.finalized@[j] == fin0[j],
                fin0 == old(self).finalized@,
                req == old(self).spec_requirements(),
                agg == old(self).spec_aggregate_stake(),
                st == old(self).spec_stake_threshold(),
                el == old(self).spec_absolute_elapsed_ms(),
                all == old(self).pending@,
                kept@ + spec_still_pending(rest@, req, agg, st, el, now) == spec_still_pending(
                    all,
                    req,
                    agg,
                    st,
                    el,
                    now,
                ),
                consumed + spec_ripe(rest@, req, agg, st, el, now) == spec_ripe(
                    all,
                    req,
                    agg,
                    st,
                    el,
                    now,
                ),
                out@.len() == consumed.len(),
                forall|j: int|
                    0 <= j < consumed.len() ==> finalized_matches(
                        #[trigger] out@[j],
                        consumed[j],
                        req,
                        agg,
                        st,
                        el,
                        now,
                    ) && finalized_matches(
                        self.finalized@[fin0.len() + j],
                        consumed[j],
                        req,
                        agg,
                        st,
                        el,
                        now,
                    ),
            decreases rest@.len(),
        {
            let ghost rest_pre = rest@;
            let p = rest.remove(0);
            proof {
                assert(rest@ =~= rest_pre.drop_first());
                assert(rest_pre.first() == p);
            }
            let tier = self.finality_tier(&p, now);
            match tier {
                Some(t) => {
                    let ghost consumed_pre = consumed;
                    let record = FinalizedBatch {
                        batch_id: p.batch_id,
                        l1_block_number: p.l1_block_number,
                        l1_transaction_hash: String::from_str(p.l1_transaction_hash.as_str()),
                        gas_used: p.gas_used,
                        finalized_at: now,
                        finality_type: t,
                        confirmation_count: p.l1_confirmations,
                    };
                    let stored = FinalizedBatch {
                        batch_id: p.batch_id,
                        l1_block_number: p.l1_block_number,
                        l1_transaction_hash: p.l1_transaction_hash,
                        gas_used: p.gas_used,
                        finalized_at: now,
                        finality_type: t,
                        confirmation_count: p.l1_confirmations,
                    };
                    out.push(record);
                    self.finalized.push(stored);
                    proof {
                        consumed = consumed_pre.push(p);
                        assert(consumed + spec_ripe(rest@, req, agg, st, el, now) =~= consumed_pre
                            + (seq![p] + spec_ripe(rest@, req, agg, st, el, now)));
                    }
                },
                None => {
                    let ghost kept_pre = kept@;
                    kept.push(p);
                    proof {
                        assert(kept@ + spec_still_pending(rest@, req, agg, st, el, now)
                            =~= kept_pre + (seq![p] + spec_still_pending(
                            rest@,
                            req,
                            agg,
                            st,
                            el,
                            now,
                        )));
                    }
                },
            }
        }
        proof {
            assert(spec_still_pending(rest@, req, agg, st, el, now)
                =~= Seq::<PendingFinality>::empty());
            assert(spec_ripe(rest@, req, agg, st, el, now) =~= Seq::<PendingFinality>::empty());
            assert(kept@ + Seq::<PendingFinality>::empty() =~= kept@);
            assert(consumed + Seq::<PendingFinality>::empty() =~= consumed);
        }
        self.pending = kept;
        out
    }

    /// Whether the engine is serviceable.
    pub fn is_healthy(&self) -> (r: bool)
        ensures
            r == (self.spec_pending().len() < 1000 && self.spec_challenges().len() < 100),
    {
        self.pending.len() < 1000 && self.challenges.len() < 100
    }
}

} // verus!
