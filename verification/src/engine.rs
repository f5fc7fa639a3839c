use vstd::prelude::*;

use crate::batch::{BatchProcessor, SettlementBatch};
use crate::config::SettlementConfig;
use crate::error::SettlementError;
use crate::finality::FinalityEngine;
use crate::optimistic::{ChallengeOutcome, ChallengeType, OptimisticRollup};
use crate::state::{L2State, RollbackReason, StateManager};
use crate::types::{low64_of, Address, Transaction};
use crate::zk::ZKProofSystem;

verus! {

/// Where a transaction stands on its way to settlement.
#[derive(Debug, Clone, PartialEq, Eq)]
pub enum SettlementStatus {
    /// Waiting in the admission pool.
    Pending,
    /// Being validated or batched.
    Processing,
    /// In an assembled batch awaiting submission.
    BatchedForSettlement,
    /// Submitted to the anchor chain.
    SubmittedToL1,
    /// Submitted and inside its challenge window.
    ChallengePhase,
    /// Irreversible.
    Finalized,
    /// Dropped, with the reason.
    Failed(String),
}

/// The outcome of settling one batch.
#[derive(Debug)]
pub struct SettlementResult {
    /// The settled batch.
    pub batch_id: u64,
    /// Whether settlement went through.
    pub success: bool,
    /// The anchor-chain handle, when submission happened.
    pub l1_transaction_hash: Option<String>,
    /// The gas the batch consumed.
    pub gas_used: u64,
    /// How long settlement took, in milliseconds.
    pub settlement_time_ms: u64,
    /// How many transactions the batch settled.
    pub transactions_settled: usize,
    /// The failure reason, when settlement did not go through.
    pub error: Option<String>,
}

/// Integer counters over the pipeline's collections.
#[derive(Debug, Clone, Copy, PartialEq, Eq, Structural)]
pub struct SettlementStatistics {
    /// Transactions waiting in the pool.
    pub pending_transactions: usize,
    /// Transactions in flight.
    pub processing_transactions: usize,
    /// Batches assembled, not yet submitted.
    pub pending_batches: usize,
    /// Batches submitted, not yet final.
    pub submitted_batches: usize,
    /// Batches finalized.
    pub finalized_batches: usize,
    /// Transactions committed in total.
    pub total_processed: u64,
    /// Transactions dropped in total.
    pub total_failed: u64,
}

/// The pipeline stage an in-flight transaction sits in.
#[derive(Debug, Clone, Copy, PartialEq, Eq, Structural)]
pub enum ProcessingStage {
    /// Under validation.
    Validation,
    /// Being packed into a batch.
    Batching,
    /// Its batch awaits attestation and submission.
    ZKProofGeneration,
    /// Its batch is being submitted.
    L1Settlement,
    /// Its batch is in its challenge window.
    Finalization,
}

/// One in-flight transaction.
#[derive(Debug, Clone, Copy, PartialEq, Eq, Structural)]
pub struct ProcessingTransaction {
    /// The transaction.
    pub tx_id: u64,
    /// The batch it was drained into.
    pub batch_id: u64,
    /// When processing began, in milliseconds.
    pub started_at: u64,
    /// Where it stands.
    pub stage: ProcessingStage,
}

/// An assembled batch waiting for submission, kept with the state it
/// executed against for replay under a challenge.
#[derive(Debug)]
pub struct PendingBatch {
    /// The batch.
    pub batch: SettlementBatch,
    /// The state it executed against.
    pub pre_state: L2State,
    /// The rollup height before it executed.
    pub pre_block: u64,
}

/// A batch submitted to the anchor chain.
#[derive(Debug)]
pub struct SubmittedBatch {
    /// The batch.
    pub batch_id: u64,
    /// The ids of its transactions.
    pub tx_ids: Vec<u64>,
    /// The anchor submission handle.
    pub l1_transaction_hash: String,
    /// When it was submitted, in milliseconds.
    pub submitted_at: u64,
    /// The rollup height before it executed.
    pub pre_block: u64,
    /// When its challenge window closes, in milliseconds.
    pub challenge_period_end: u64,
}

/// A finalized batch as the orchestrator records it.
#[derive(Debug)]
pub struct FinalizedBatchRecord {
    /// The batch.
    pub batch_id: u64,
    /// The ids of its transactions.
    pub tx_ids: Vec<u64>,
    /// When it was finalized, in milliseconds.
    pub finalized_at: u64,
    /// The anchor-chain block it settled in.
    pub l1_block_number: u64,
    /// The gas it consumed.
    pub final_gas_used: u64,
}

/// One tracked sender nonce.
#[derive(Debug, Clone, Copy)]
pub struct NonceEntry {
    /// The sender.
    pub addr: Address,
    /// The last admitted nonce.
    pub nonce: u64,
}

/// The per-sender nonce tracker of the admission pool: distinct sender
/// keys, read and written through `current_nonce` and `record`.
#[derive(Debug)]
pub struct NonceTable {
    entries: Vec<NonceEntry>,
}

impl NonceTable {
    /// The senders are distinct.
    pub closed spec fn wf(self) -> bool {
        forall|i: int, j: int|
            0 <= i < j < self.entries@.len() ==> !(self.entries@[i].addr.0@
                =~= self.entries@[j].addr.0@)
    }

    /// Whether the sender is tracked.
    pub closed spec fn contains_sender(self, a: Seq<u8>) -> bool {
        exists|i: int| 0 <= i < self.entries@.len() && self.entries@[i].addr.0@ =~= a
    }

    /// The index tracking sender `a`.
    spec fn index_of(self, a: Seq<u8>) -> int {
        choose|i: int| 0 <= i < self.entries@.len() && self.entries@[i].addr.0@ =~= a
    }

    /// A witness index for a tracked sender.
    proof fn witness_of(self, a: Seq<u8>) -> (i: int)
        requires
            self.contains_sender(a),
        ensures
            0 <= i < self.entries@.len(),
            self.entries@[i].addr.0@ =~= a,
    {
        choose|i: int| 0 <= i < self.entries@.len() && self.entries@[i].addr.0@ =~= a
    }

    /// The last admitted nonce of sender `a`, zero when untracked.
    pub closed spec fn spec_tracked(self, a: Seq<u8>) -> u64 {
        if self.contains_sender(a) {
            self.entries@[self.index_of(a)].nonce
        } else {
            0
        }
    }

    /// In a well-formed table, the entry at `i` is what `spec_tracked`
    /// reports for its sender.
    proof fn lemma_at(self, i: int)
        requires
            self.wf(),
            0 <= i < self.entries@.len(),
        ensures
            self.contains_sender(self.entries@[i].addr.0@),
            self.spec_tracked(self.entries@[i].addr.0@) == self.entries@[i].nonce,
    {
        let a = self.entries@[i].addr.0@;
        assert(self.contains_sender(a));
        let j = self.index_of(a);
        assert(0 <= j < self.entries@.len() && self.entries@[j].addr.0@ =~= a);
        if i != j {
            assert(false);
        }
    }

    /// An empty tracker.
    pub fn new() -> (r: NonceTable)
        ensures
            r.wf(),
            forall|a: Seq<u8>| r.spec_tracked(a) == 0,
    {
        let r = NonceTable { entries: Vec::new() };
        proof {
            assert forall|a: Seq<u8>| !r.contains_sender(a) by {}
        }
        r
    }

    /// The last admitted nonce of `a`.
    pub fn current_nonce(&self, a: &Address) -> (r: u64)
        requires
            self.wf(),
        ensures
            r == self.spec_tracked(a.0@),
    {
        let n = self.entries.len();
        let mut i: usize = 0;
        while i < n
            invariant
                self.wf(),
                n == self.entries@.len(),
                0 <= i <= n,
                forall|j: int| 0 <= j < i ==> !(self.entries@[j].addr.0@ =~= a.0@),
            decreases n - i,
        {
            if self.entries[i].addr == *a {
                proof {
                    self.lemma_at(i as int);
                }
                return self.entries[i].nonce;
            }
            i = i + 1;
        }
        proof {
            assert(!self.contains_sender(a.0@));
        }
        0
    }

    /// Records `nonce` as the last admitted nonce of `a`.
    pub fn record(&mut self, a: Address, nonce: u64)
        requires
            old(self).wf(),
        ensures
            final(self).wf(),
            final(self).spec_tracked(a.0@) == nonce,
            forall|b: Seq<u8>|
                !(b =~= a.0@) ==> #[trigger] final(self).spec_tracked(b) == old(self).spec_tracked(
                    b,
                ),
    {
        let ghost olds = self.entries@;
        let n = self.entries.len();
        let mut i: usize = 0;
        while i < n
            invariant
                self.wf(),
                olds == old(self).entries@,
                self.entries@ == olds,
                n == olds.len(),
                0 <= i <= n,
                forall|j: int| 0 <= j < i ==> !(olds[j].addr.0@ =~= a.0@),
            decreases n - i,
        {
            if self.entries[i].addr == a {
                let e = NonceEntry { addr: a, nonce };
                self.entries[i] = e;
                proof {
                    let news = self.entries@;
                    assert(news == olds.update(i as int, e));
                    assert forall|p: int| 0 <= p < news.len() implies news[p].addr.0@
                        == olds[p].addr.0@ by {
                        if p == i {
                            assert(olds[p].addr.0@ =~= a.0@);
                        }
                    }
                    assert(self.wf());
                    self.lemma_at(i as int);
                    assert forall|b: Seq<u8>| !(b =~= a.0@) implies #[trigger] self.spec_tracked(b)
                        == old(self).spec_tracked(b) by {
                        assert forall|k: Seq<u8>| self.contains_sender(k) == old(self).contains_sender(k) by {
                            if self.contains_sender(k) {
                                let w = self.witness_of(k);
                                assert(olds[w].addr.0@ =~= k);
                                assert(old(self).contains_sender(k));
                            }
                            if old(self).contains_sender(k) {
                                let w = old(self).witness_of(k);
                                assert(self.entries@[w].addr.0@ =~= k);
                                assert(self.contains_sender(k));
                            }
                        }
                        if self.contains_sender(b) {
                            let w = self.witness_of(b);
                            self.lemma_at(w);
                            old(self).lemma_at(w);
                        }
                    }
                }
                return ;
            }
            i = i + 1;
        }
        let e = NonceEntry { addr: a, nonce };
        self.entries.push(e);
        proof {
            let news = self.entries@;
            assert(news == olds.push(e));
            assert forall|p: int, q: int| 0 <= p < q < news.len() implies !(news[p].addr.0@
                =~= news[q].addr.0@) by {
                if q == news.len() - 1 {
                    assert(news[p] == olds[p]);
                }
            }
            assert(self.wf());
            self.lemma_at(news.len() - 1);
            assert forall|b: Seq<u8>| !(b =~= a.0@) implies #[trigger] self.spec_tracked(b) == old(self).spec_tracked(b) by {
                assert forall|k: Seq<u8>| !(k =~= a.0@) implies self.contains_sender(k) == old(self).contains_sender(k) by {
                    if self.contains_sender(k) {
                        let w = self.witness_of(k);
                        if w < olds.len() {
                            assert(olds[w].addr.0@ =~= k);
                            assert(old(self).contains_sender(k));
                        } else {
                            assert(k =~= a.0@);
                        }
                    }
                    if old(self).contains_sender(k) {
                        let w = old(self).witness_of(k);
                        assert(news[w].addr.0@ =~= k);
                        assert(self.contains_sender(k));
                    }
                }
                if self.contains_sender(b) {
                    let w = self.witness_of(b);
                    assert(w < olds.len()) by {
                        if w == olds.len() {
                            assert(b =~= a.0@);
                        }
                    }
                    self.lemma_at(w);
                    old(self).lemma_at(w);
                }
            }
        }
    }
}

/// Whether a transaction with id `id` sits in `s`.
pub open spec fn pool_has(s: Seq<Transaction>, id: u64) -> bool {
    exists|i: int| 0 <= i < s.len() && (#[trigger] s[i]).id == id
}

/// Whether an in-flight record for `id` sits in `s`.
pub open spec fn processing_has(s: Seq<ProcessingTransaction>, id: u64) -> bool {
    exists|i: int| 0 <= i < s.len() && (#[trigger] s[i]).tx_id == id
}

/// The position of the first in-flight record for transaction `id`, or
/// `-1`.
pub open spec fn processing_index(s: Seq<ProcessingTransaction>, id: u64) -> int
    decreases s.len(),
{
    if s.len() == 0 {
        -1
    } else if s.first().tx_id == id {
        0
    } else {
        let r = processing_index(s.drop_first(), id);
        if r == -1 {
            -1
        } else {
            r + 1
        }
    }
}

/// If no in-flight record before `i` carries the id, a match at `i` is
/// the first.
pub proof fn lemma_processing_index_step(s: Seq<ProcessingTransaction>, id: u64, i: int)
    requires
        0 <= i < s.len(),
        forall|j: int| 0 <= j < i ==> (#[trigger] s[j]).tx_id != id,
    ensures
        s[i].tx_id == id ==> processing_index(s, id) == i,
    decreases i,
{
    if i == 0 {
    } else {
        assert(s.first().tx_id != id);
        let t = s.drop_first();
        assert forall|j: int| 0 <= j < i - 1 implies (#[trigger] t[j]).tx_id != id by {
            assert(t[j] == s[j + 1]);
        }
        assert(t[i - 1] == s[i]);
        lemma_processing_index_step(t, id, i - 1);
    }
}

/// The stage-to-status mapping of the in-flight table.
pub open spec fn stage_status(stage: ProcessingStage) -> SettlementStatus {
    match stage {
        ProcessingStage::Validation => SettlementStatus::Processing,
        ProcessingStage::Batching => SettlementStatus::Processing,
        ProcessingStage::ZKProofGeneration => SettlementStatus::BatchedForSettlement,
        ProcessingStage::L1Settlement => SettlementStatus::SubmittedToL1,
        ProcessingStage::Finalization => SettlementStatus::ChallengePhase,
    }
}

/// Whether one submitted record carries transaction `id`.
pub open spec fn carries_tx(e: SubmittedBatch, id: u64) -> bool {
    exists|k: int| 0 <= k < e.tx_ids@.len() && (#[trigger] e.tx_ids@[k]) == id
}

/// The position of the first submitted record carrying transaction `id`,
/// or `-1`.
pub open spec fn submitted_tx_index(s: Seq<SubmittedBatch>, id: u64) -> int
    decreases s.len(),
{
    if s.len() == 0 {
        -1
    } else if carries_tx(s.first(), id) {
        0
    } else {
        let r = submitted_tx_index(s.drop_first(), id);
        if r == -1 {
            -1
        } else {
            r + 1
        }
    }
}

/// If no submitted record before `i` carries the id, a match at `i` is
/// the first.
pub proof fn lemma_submitted_tx_index_step(s: Seq<SubmittedBatch>, id: u64, i: int)
    requires
        0 <= i < s.len(),
        forall|j: int| 0 <= j < i ==> !carries_tx(#[trigger] s[j], id),
    ensures
        carries_tx(s[i], id) ==> submitted_tx_index(s, id) == i,
    decreases i,
{
    if i == 0 {
    } else {
        assert(!carries_tx(s.first(), id));
        let t = s.drop_first();
        assert forall|j: int| 0 <= j < i - 1 implies !carries_tx(#[trigger] t[j], id) by {
            assert(t[j] == s[j + 1]);
        }
        assert(t[i - 1] == s[i]);
        lemma_submitted_tx_index_step(t, id, i - 1);
    }
}

/// Whether a pending batch in `s` carries transaction `id`.
pub open spec fn pending_batches_have(s: Seq<PendingBatch>, id: u64) -> bool {
    exists|i: int, j: int|
        0 <= i < s.len() && 0 <= j < s[i].batch.transactions@.len() && (#[trigger] s[i].batch.transactions@[j]).id
            == id
}

/// The position of the first submitted record for batch `id`, or `-1`.
pub open spec fn submitted_index(s: Seq<SubmittedBatch>, id: u64) -> int
    decreases s.len(),
{
    if s.len() == 0 {
        -1
    } else if s.first().batch_id == id {
        0
    } else {
        let r = submitted_index(s.drop_first(), id);
        if r == -1 {
            -1
        } else {
            r + 1
        }
    }
}

/// The chosen submitted position is in bounds and carries the id.
pub proof fn lemma_submitted_index(s: Seq<SubmittedBatch>, id: u64)
    ensures
        submitted_index(s, id) == -1 || (0 <= submitted_index(s, id) < s.len() && s[submitted_index(
            s,
            id,
        )].batch_id == id),
    decreases s.len(),
{
    if s.len() > 0 && s.first().batch_id != id {
        lemma_submitted_index(s.drop_first(), id);
    }
}

/// If no submitted record before `i` carries the id, a match at `i` is
/// the first, and no match before `i` leaves the first at or past `i`.
pub proof fn lemma_submitted_index_step(s: Seq<SubmittedBatch>, id: u64, i: int)
    requires
        0 <= i < s.len(),
        forall|j: int| 0 <= j < i ==> (#[trigger] s[j]).batch_id != id,
    ensures
        s[i].batch_id == id ==> submitted_index(s, id) == i,
        s[i].batch_id != id ==> (submitted_index(s, id) == -1 || submitted_index(s, id) > i),
    decreases i,
{
    if i == 0 {
        if s.first().batch_id != id {
            lemma_submitted_index(s.drop_first(), id);
        }
    } else {
        assert(s.first().batch_id != id);
        let t = s.drop_first();
        assert forall|j: int| 0 <= j < i - 1 implies (#[trigger] t[j]).batch_id != id by {
            assert(t[j] == s[j + 1]);
        }
        assert(t[i - 1] == s[i]);
        lemma_submitted_index_step(t, id, i - 1);
    }
}

/// `s` with the first record for batch `id` removed, when one exists.
pub open spec fn remove_first_submitted(s: Seq<SubmittedBatch>, id: u64) -> Seq<SubmittedBatch> {
    if submitted_index(s, id) == -1 {
        s
    } else {
        s.remove(submitted_index(s, id))
    }
}

/// The transaction ids of the first record for batch `id`, or none.
pub open spec fn submitted_tx_ids(s: Seq<SubmittedBatch>, id: u64) -> Seq<u64> {
    if submitted_index(s, id) == -1 {
        Seq::empty()
    } else {
        s[submitted_index(s, id)].tx_ids@
    }
}

/// The submitted records left after consuming one record per batch of the
/// first `k` newly finalized batches, in order.
pub open spec fn spec_consume_prefix(
    s: Seq<SubmittedBatch>,
    ripe: Seq<crate::finality::PendingFinality>,
    k: int,
) -> Seq<SubmittedBatch>
    decreases k,
{
    if k <= 0 {
        s
    } else {
        remove_first_submitted(spec_consume_prefix(s, ripe, k - 1), ripe[k - 1].batch_id)
    }
}

/// Whether a submitted batch in `s` carries transaction `id`.
pub open spec fn submitted_have(s: Seq<SubmittedBatch>, id: u64) -> bool {
    exists|i: int, j: int|
        0 <= i < s.len() && 0 <= j < s[i].tx_ids@.len() && (#[trigger] s[i].tx_ids@[j]) == id
}

/// Whether a finalized batch in `s` carries transaction `id`.
pub open spec fn finalized_have(s: Seq<FinalizedBatchRecord>, id: u64) -> bool {
    exists|i: int, j: int|
        0 <= i < s.len() && 0 <= j < s[i].tx_ids@.len() && (#[trigger] s[i].tx_ids@[j]) == id
}

/// The settlement orchestrator: owns the admission pool, drives batches
/// through assembly, submission and finality, and answers status queries.
pub struct L2SettlementEngine {
    config: SettlementConfig,
    state_manager: StateManager,
    batch_processor: BatchProcessor,
    optimistic_rollup: OptimisticRollup,
    zk_proof_system: ZKProofSystem,
    finality_engine: FinalityEngine,
    pool_pending: Vec<Transaction>,
    pool_priority: Vec<Transaction>,
    nonce_tracker: NonceTable,
    pool_size: usize,
    processing: Vec<ProcessingTransaction>,
    pending_batches: Vec<PendingBatch>,
    submitted_batches: Vec<SubmittedBatch>,
    finalized_batches: Vec<FinalizedBatchRecord>,
    next_tx_id: u64,
    total_processed: u64,
    total_failed: u64,
}

impl L2SettlementEngine {
    /// The default admission lane, oldest first.
    pub closed spec fn spec_pool_pending(self) -> Seq<Transaction> {
        self.pool_pending@
    }

    /// The priority admission lane.
    pub closed spec fn spec_pool_priority(self) -> Seq<Transaction> {
        self.pool_priority@
    }

    /// Transactions waiting in the pool, both lanes.
    pub closed spec fn spec_pool_size(self) -> nat {
        self.pool_size as nat
    }

    /// The in-flight records.
    pub closed spec fn spec_processing(self) -> Seq<ProcessingTransaction> {
        self.processing@
    }

    /// The assembled, unsubmitted batches.
    pub closed spec fn spec_pending_batches(self) -> Seq<PendingBatch> {
        self.pending_batches@
    }

    /// The submitted, unfinalized batches.
    pub closed spec fn spec_submitted_batches(self) -> Seq<SubmittedBatch> {
        self.submitted_batches@
    }

    /// The finalized batches.
    pub closed spec fn spec_finalized_batches(self) -> Seq<FinalizedBatchRecord> {
        self.finalized_batches@
    }

    /// The last admitted nonce of sender `a`.
    pub closed spec fn spec_tracked_nonce(self, a: Seq<u8>) -> u64 {
        self.nonce_tracker.spec_tracked(a)
    }

    /// The id the next admitted transaction will carry.
    pub closed spec fn spec_next_tx_id(self) -> u64 {
        self.next_tx_id
    }

    /// The pool capacity in force.
    pub closed spec fn spec_max_pending(self) -> nat {
        self.config.max_pending_transactions as nat
    }

    /// The configured batch size.
    pub closed spec fn spec_batch_size(self) -> nat {
        self.config.batch_size as nat
    }

    /// The configured challenge period, in milliseconds.
    pub closed spec fn spec_challenge_period_ms(self) -> u64 {
        self.config.challenge_period_ms
    }

    /// The canonical state, through the state manager.
    pub closed spec fn spec_state(self) -> L2State {
        self.state_manager.spec_state()
    }

    /// The engine's components and pool are well formed.
    pub closed spec fn wf(self) -> bool {
        &&& self.state_manager.wf()
        &&& self.optimistic_rollup.wf()
        &&& self.zk_proof_system.wf()
        &&& self.nonce_tracker.wf()
        &&& self.pool_size == self.pool_pending@.len() + self.pool_priority@.len()
        &&& forall|i: int|
            0 <= i < self.pending_batches@.len() ==> (#[trigger] self.pending_batches@[i]).pre_state.wf()
                && self.pending_batches@[i].pre_state@.state_root
                == self.pending_batches@[i].batch.previous_state_root@
    }

    /// An engine over the genesis state with empty pool, queues and
    /// histories.
    pub fn new(config: &SettlementConfig) -> (r: L2SettlementEngine)
        ensures
            r.wf(),
            r.spec_pool_pending().len() == 0,
            r.spec_pool_priority().len() == 0,
            r.spec_pool_size() == 0,
            r.spec_processing().len() == 0,
            r.spec_pending_batches().len() == 0,
            r.spec_submitted_batches().len() == 0,
            r.spec_finalized_batches().len() == 0,
            r.spec_next_tx_id() == 1,
            r.spec_max_pending() == config.max_pending_transactions,
            r.spec_batch_size() == config.batch_size,
            forall|a: Seq<u8>| r.spec_tracked_nonce(a) == 0,
            r.spec_state()@.block_number == 0,
            r.spec_state()@.state_root =~= crate::state::zero32(),
    {
        L2SettlementEngine {
            config: *config,
            state_manager: StateManager::new(config),
            batch_processor: BatchProcessor::new(config),
            optimistic_rollup: OptimisticRollup::new(config),
            zk_proof_system: ZKProofSystem::new(config),
            finality_engine: FinalityEngine::new(config),
            pool_pending: Vec::new(),
            pool_priority: Vec::new(),
            nonce_tracker: NonceTable::new(),
            pool_size: 0,
            processing: Vec::new(),
            pending_batches: Vec::new(),
            submitted_batches: Vec::new(),
            finalized_batches: Vec::new(),
            next_tx_id: 1,
            total_processed: 0,
            total_failed: 0,
        }
    }

    /// Admits a transaction into the pool, or refuses it. The checks run
    /// in order: a zero amount, a zero gas limit and a missing signature
    /// are refused; then the external policy verdict — computed outside
    /// and passed in — is honoured; a full pool is refused; and the nonce
    /// must be exactly the sender's tracked nonce plus one, or the
    /// admission fails with the nonce mismatch. An admitted transaction
    /// receives a fresh opaque id, joins the priority lane when its gas
    /// price clears fifty gigawei or the policy verdict flagged it as
    /// urgent, and the default lane otherwise, and advances the sender's
    /// tracked nonce.
    pub fn submit_transaction(
        &mut self,
        transaction: Transaction,
        policy_approved: bool,
        policy_priority: bool,
        now: u64,
    ) -> (r: Result<u64, SettlementError>)
        requires
            old(self).wf(),
        ensures
            final(self).wf(),
            final(self).spec_pending_batches() == old(self).spec_pending_batches(),
            final(self).spec_submitted_batches() == old(self).spec_submitted_batches(),
            final(self).spec_finalized_batches() == old(self).spec_finalized_batches(),
            final(self).spec_processing() == old(self).spec_processing(),
            ({
                let known = old(self).spec_tracked_nonce(transaction.from_address.0@);
                let zero_amount = forall|i: int|
                    0 <= i < 32 ==> transaction.amount.amount.0@[i] == 0;
                match r {
                    Ok(id) => {
                        &&& !zero_amount
                        &&& transaction.gas_limit != 0
                        &&& transaction.signature is Some
                        &&& policy_approved
                        &&& old(self).spec_pool_size() < old(self).spec_max_pending()
                        &&& known < u64::MAX && transaction.nonce == known + 1
                        &&& id == old(self).spec_next_tx_id()
                        &&& final(self).spec_tracked_nonce(transaction.from_address.0@)
                            == transaction.nonce
                        &&& final(self).spec_pool_size() == old(self).spec_pool_size() + 1
                        &&& (if low64_of(transaction.gas_price.0@) > 50000000000
                            || policy_priority {
                            final(self).spec_pool_priority().len() == old(self).spec_pool_priority().len() + 1 && final(self).spec_pool_priority().last().id == id && final(self).spec_pool_priority().last().nonce == transaction.nonce && final(self).spec_pool_priority().last().from_address
                                == transaction.from_address && final(self).spec_pool_pending()
                                == old(self).spec_pool_pending()
                        } else {
                            final(self).spec_pool_pending().len() == old(self).spec_pool_pending().len() + 1 && final(self).spec_pool_pending().last().id == id && final(self).spec_pool_pending().last().nonce == transaction.nonce && final(self).spec_pool_pending().last().from_address == transaction.from_address
                                && final(self).spec_pool_priority() == old(self).spec_pool_priority()
                        })
                    },
                    Err(SettlementError::ZeroAmount) => zero_amount && *final(self) == *old(self),
                    Err(SettlementError::ZeroGasLimit) => !zero_amount && transaction.gas_limit
                        == 0 && *final(self) == *old(self),
                    Err(SettlementError::MissingSignature) => !zero_amount && transaction.gas_limit
                        != 0 && transaction.signature is None && *final(self) == *old(self),
                    Err(SettlementError::PolicyRejected) => !zero_amount && transaction.gas_limit
                        != 0 && transaction.signature is Some && !policy_approved && *final(self)
                        == *old(self),
                    Err(SettlementError::PoolFull) => !zero_amount && transaction.gas_limit != 0
                        && transaction.signature is Some && policy_approved && old(self).spec_pool_size() >= old(self).spec_max_pending() && *final(self) == *old(self),
                    Err(SettlementError::NonceMismatch { expected, got }) => {
                        &&& !zero_amount
                        &&& transaction.gas_limit != 0
                        &&& transaction.signature is Some
                        &&& policy_approved
                        &&& old(self).spec_pool_size() < old(self).spec_max_pending()
                        &&& !(known < u64::MAX && transaction.nonce == known + 1)
                        &&& expected == crate::types::sat_add_nat(known as nat, 1) as u64
                        &&& got == transaction.nonce
                        &&& *final(self) == *old(self)
                    },
                    Err(_) => false,
                }
            }),
    {
        if transaction.amount.amount.is_zero() {
            return Err(SettlementError::ZeroAmount);
        }
        if transaction.gas_limit == 0 {
            return Err(SettlementError::ZeroGasLimit);
        }
        if transaction.signature.is_none() {
            return Err(SettlementError::MissingSignature);
        }
        if !policy_approved {
            return Err(SettlementError::PolicyRejected);
        }
        if self.pool_size >= self.config.max_pending_transactions {
            return Err(SettlementError::PoolFull);
        }
        let known = self.nonce_tracker.current_nonce(&transaction.from_address);
        if !(known < u64::MAX && transaction.nonce == known + 1) {
            let expected: u64 = if known < u64::MAX {
                known + 1
            } else {
                u64::MAX
            };
            return Err(SettlementError::NonceMismatch { expected, got: transaction.nonce });
        }
        let id = self.next_tx_id;
        self.next_tx_id = if self.next_tx_id < u64::MAX {
            self.next_tx_id + 1
        } else {
            u64::MAX
        };
        let sender = transaction.from_address;
        let nonce = transaction.nonce;
        let high_priority = {
            let threshold = crate::types::U256::from(50000000000);
            threshold.lt(&transaction.gas_price) || policy_priority
        };
        let mut admitted = transaction;
        admitted.id = id;
        if high_priority {
            self.pool_priority.push(admitted);
        } else {
            self.pool_pending.push(admitted);
        }
        self.nonce_tracker.record(sender, nonce);
        self.pool_size = self.pool_size + 1;
        Ok(id)
    }

    /// Where transaction `id` stands, scanning, in order: the admission
    /// pool, the in-flight table, then the pending, submitted and
    /// finalized batch collections — the first match wins. A submitted
    /// batch reports the challenge phase while its window is open and
    /// plain submission after. An id no stage knows is refused.
    pub fn get_settlement_status(&self, transaction_id: u64, now: u64) -> (r: Result<
        SettlementStatus,
        SettlementError,
    >)
        ensures
            ({
                let in_pool = pool_has(self.spec_pool_pending(), transaction_id) || pool_has(
                    self.spec_pool_priority(),
                    transaction_id,
                );
                let in_proc = processing_has(self.spec_processing(), transaction_id);
                let in_pend = pending_batches_have(self.spec_pending_batches(), transaction_id);
                let in_sub = submitted_have(self.spec_submitted_batches(), transaction_id);
                let in_fin = finalized_have(self.spec_finalized_batches(), transaction_id);
                match r {
                    Ok(st) => {
                        &&& (in_pool || in_proc || in_pend || in_sub || in_fin)
                        &&& (in_pool ==> st == SettlementStatus::Pending)
                        &&& (!in_pool && in_proc ==> st == stage_status(
                            self.spec_processing()[processing_index(
                                self.spec_processing(),
                                transaction_id,
                            )].stage,
                        ))
                        &&& (!in_pool && !in_proc && in_pend ==> st
                            == SettlementStatus::BatchedForSettlement)
                        &&& (!in_pool && !in_proc && !in_pend && in_sub ==> st == (if now
                            < self.spec_submitted_batches()[submitted_tx_index(
                            self.spec_submitted_batches(),
                            transaction_id,
                        )].challenge_period_end {
                            SettlementStatus::ChallengePhase
                        } else {
                            SettlementStatus::SubmittedToL1
                        }))
                        &&& (!in_pool && !in_proc && !in_pend && !in_sub && in_fin ==> st
                            == SettlementStatus::Finalized)
                    },
                    Err(e) => e == SettlementError::TransactionNotFound && !in_pool && !in_proc
                        && !in_pend && !in_sub && !in_fin,
                }
            }),
    {
        // the admission pool
        let n1 = self.pool_pending.len();
        let mut i: usize = 0;
        while i < n1
            invariant
                n1 == self.pool_pending@.len(),
                0 <= i <= n1,
                forall|j: int| 0 <= j < i ==> (#[trigger] self.pool_pending@[j]).id
                    != transaction_id,
            decreases n1 - i,
        {
            if self.pool_pending[i].id == transaction_id {
                proof {
                    assert((self.pool_pending@[i as int]).id == transaction_id);
                    assert(pool_has(self.spec_pool_pending(), transaction_id));
                }
                return Ok(SettlementStatus::Pending);
            }
            i = i + 1;
        }
        proof {
            assert(!pool_has(self.spec_pool_pending(), transaction_id)) by {
                if pool_has(self.spec_pool_pending(), transaction_id) {
                    let w = choose|q: int|
                        0 <= q < self.pool_pending@.len() && (#[trigger] self.pool_pending@[q]).id
                            == transaction_id;
                    assert(false);
                }
            }
        }
        let n2 = self.pool_priority.len();
        let mut i2: usize = 0;
        while i2 < n2
            invariant
                n2 == self.pool_priority@.len(),
                0 <= i2 <= n2,
                forall|j: int| 0 <= j < i2 ==> (#[trigger] self.pool_priority@[j]).id
                    != transaction_id,
            decreases n2 - i2,
        {
            if self.pool_priority[i2].id == transaction_id {
                proof {
                    assert((self.pool_priority@[i2 as int]).id == transaction_id);
                    assert(pool_has(self.spec_pool_priority(), transaction_id));
                }
                return Ok(SettlementStatus::Pending);
            }
            i2 = i2 + 1;
        }
        proof {
            assert(!pool_has(self.spec_pool_priority(), transaction_id)) by {
                if pool_has(self.spec_pool_priority(), transaction_id) {
                    let w = choose|q: int|
                        0 <= q < self.pool_priority@.len() && (#[trigger] self.pool_priority@[q]).id
                            == transaction_id;
                    assert(false);
                }
            }
        }
        // the in-flight table
        let n3 = self.processing.len();
        let mut i3: usize = 0;
        while i3 < n3
            invariant
                !pool_has(self.spec_pool_pending(), transaction_id),
                !pool_has(self.spec_pool_priority(), transaction_id),
                n3 == self.processing@.len(),
                0 <= i3 <= n3,
                forall|j: int| 0 <= j < i3 ==> (#[trigger] self.processing@[j]).tx_id
                    != transaction_id,
            decreases n3 - i3,
        {
            if self.processing[i3].tx_id == transaction_id {
                let st = match self.processing[i3].stage {
                    ProcessingStage::Validation => SettlementStatus::Processing,
                    ProcessingStage::Batching => SettlementStatus::Processing,
                    ProcessingStage::ZKProofGeneration => SettlementStatus::BatchedForSettlement,
                    ProcessingStage::L1Settlement => SettlementStatus::SubmittedToL1,
                    ProcessingStage::Finalization => SettlementStatus::ChallengePhase,
                };
                proof {
                    assert((self.processing@[i3 as int]).tx_id == transaction_id);
                    assert(processing_has(self.spec_processing(), transaction_id));
                    lemma_processing_index_step(self.processing@, transaction_id, i3 as int);
                    assert(st == stage_status(self.processing@[i3 as int].stage));
                }
                return Ok(st);
            }
            i3 = i3 + 1;
        }
        proof {
            assert(!processing_has(self.spec_processing(), transaction_id)) by {
                if processing_has(self.spec_processing(), transaction_id) {
                    let w = choose|q: int|
                        0 <= q < self.processing@.len() && (#[trigger] self.processing@[q]).tx_id
                            == transaction_id;
                    assert(false);
                }
            }
        }
        // the pending batches
        let n4 = self.pending_batches.len();
        let mut i4: usize = 0;
        while i4 < n4
            invariant
                !pool_has(self.spec_pool_pending(), transaction_id),
                !pool_has(self.spec_pool_priority(), transaction_id),
                !processing_has(self.spec_processing(), transaction_id),
                n4 == self.pending_batches@.len(),
                0 <= i4 <= n4,
                forall|j: int, k: int|
                    0 <= j < i4 && 0 <= k < self.pending_batches@[j].batch.transactions@.len()
                        ==> (#[trigger] self.pending_batches@[j].batch.transactions@[k]).id
                        != transaction_id,
            decreases n4 - i4,
        {
            let m = self.pending_batches[i4].batch.transactions.len();
            let mut k: usize = 0;
            while k < m
                invariant
                    !pool_has(self.spec_pool_pending(), transaction_id),
                    !pool_has(self.spec_pool_priority(), transaction_id),
                    !processing_has(self.spec_processing(), transaction_id),
                    i4 < self.pending_batches@.len(),
                    m == self.pending_batches@[i4 as int].batch.transactions@.len(),
                    0 <= k <= m,
                    forall|q: int|
                        0 <= q < k ==> (#[trigger] self.pending_batches@[i4 as int].batch.transactions@[q]).id
                            != transaction_id,
                decreases m - k,
            {
                if self.pending_batches[i4].batch.transactions[k].id == transaction_id {
                    proof {
                        assert((self.pending_batches@[i4 as int].batch.transactions@[k as int]).id
                            == transaction_id);
                        assert(pending_batches_have(self.spec_pending_batches(), transaction_id));
                    }
                    return Ok(SettlementStatus::BatchedForSettlement);
                }
                k = k + 1;
            }
            i4 = i4 + 1;
        }
        proof {
            assert(!pending_batches_have(self.spec_pending_batches(), transaction_id)) by {
                if pending_batches_have(self.spec_pending_batches(), transaction_id) {
                    let (w, v) = choose|q: int, v: int|
                        0 <= q < self.pending_batches@.len() && 0 <= v
                            < self.pending_batches@[q].batch.transactions@.len() && (
                        #[trigger] self.pending_batches@[q].batch.transactions@[v]).id
                            == transaction_id;
                    assert(false);
                }
            }
        }
        // the submitted batches
        let n5 = self.submitted_batches.len();
        let mut i5: usize = 0;
        while i5 < n5
            invariant
                !pool_has(self.spec_pool_pending(), transaction_id),
                !pool_has(self.spec_pool_priority(), transaction_id),
                !processing_has(self.spec_processing(), transaction_id),
                !pending_batches_have(self.spec_pending_batches(), transaction_id),
                n5 == self.submitted_batches@.len(),
                0 <= i5 <= n5,
                forall|j: int, k: int|
                    0 <= j < i5 && 0 <= k < self.submitted_batches@[j].tx_ids@.len() ==> (
                    #[trigger] self.submitted_batches@[j].tx_ids@[k]) != transaction_id,
            decreases n5 - i5,
        {
            let m = self.submitted_batches[i5].tx_ids.len();
            let mut k: usize = 0;
            while k < m
                invariant
                    !pool_has(self.spec_pool_pending(), transaction_id),
                    !pool_has(self.spec_pool_priority(), transaction_id),
                    !processing_has(self.spec_processing(), transaction_id),
                    !pending_batches_have(self.spec_pending_batches(), transaction_id),
                    forall|j: int, kk: int|
                        0 <= j < i5 && 0 <= kk < self.submitted_batches@[j].tx_ids@.len() ==> (
                        #[trigger] self.submitted_batches@[j].tx_ids@[kk]) != transaction_id,
                    i5 < self.submitted_batches@.len(),
                    m == self.submitted_batches@[i5 as int].tx_ids@.len(),
                    0 <= k <= m,
                    forall|q: int|
                        0 <= q < k ==> (#[trigger] self.submitted_batches@[i5 as int].tx_ids@[q])
                            != transaction_id,
                decreases m - k,
            {
                if self.submitted_batches[i5].tx_ids[k] == transaction_id {
                    proof {
                        assert((self.submitted_batches@[i5 as int].tx_ids@[k as int])
                            == transaction_id);
                        assert(submitted_have(self.spec_submitted_batches(), transaction_id));
                        assert(carries_tx(self.submitted_batches@[i5 as int], transaction_id));
                        assert forall|j: int| 0 <= j < i5 implies !carries_tx(
                            #[trigger] self.submitted_batches@[j],
                            transaction_id,
                        ) by {
                            if carries_tx(self.submitted_batches@[j], transaction_id) {
                                let w = choose|w: int|
                                    0 <= w < self.submitted_batches@[j].tx_ids@.len() && (
                                    #[trigger] self.submitted_batches@[j].tx_ids@[w])
                                        == transaction_id;
                                assert(false);
                            }
                        }
                        lemma_submitted_tx_index_step(
                            self.submitted_batches@,
                            transaction_id,
                            i5 as int,
                        );
                    }
                    if now < self.submitted_batches[i5].challenge_period_end {
                        return Ok(SettlementStatus::ChallengePhase);
                    } else {
                        return Ok(SettlementStatus::SubmittedToL1);
                    }
                }
                k = k + 1;
            }
            i5 = i5 + 1;
        }
        proof {
            assert(!submitted_have(self.spec_submitted_batches(), transaction_id)) by {
                if submitted_have(self.spec_submitted_batches(), transaction_id) {
                    let (w, v) = choose|q: int, v: int|
                        0 <= q < self.submitted_batches@.len() && 0 <= v
                            < self.submitted_batches@[q].tx_ids@.len() && (
                        #[trigger] self.submitted_batches@[q].tx_ids@[v]) == transaction_id;
                    assert(false);
                }
            }
        }
        // the finalized batches
        let n6 = self.finalized_batches.len();
        let mut i6: usize = 0;
        while i6 < n6
            invariant
                !pool_has(self.spec_pool_pending(), transaction_id),
                !pool_has(self.spec_pool_priority(), transaction_id),
                !processing_has(self.spec_processing(), transaction_id),
                !pending_batches_have(self.spec_pending_batches(), transaction_id),
                !submitted_have(self.spec_submitted_batches(), transaction_id),
                n6 == self.finalized_batches@.len(),
                0 <= i6 <= n6,
                forall|j: int, k: int|
                    0 <= j < i6 && 0 <= k < self.finalized_batches@[j].tx_ids@.len() ==> (
                    #[trigger] self.finalized_batches@[j].tx_ids@[k]) != transaction_id,
            decreases n6 - i6,
        {
            let m = self.finalized_batches[i6].tx_ids.len();
            let mut k: usize = 0;
            while k < m
                invariant
                    !pool_has(self.spec_pool_pending(), transaction_id),
                    !pool_has(self.spec_pool_priority(), transaction_id),
                    !processing_has(self.spec_processing(), transaction_id),
                    !pending_batches_have(self.spec_pending_batches(), transaction_id),
                    !submitted_have(self.spec_submitted_batches(), transaction_id),
                    i6 < self.finalized_batches@.len(),
                    m == self.finalized_batches@[i6 as int].tx_ids@.len(),
                    0 <= k <= m,
                    forall|q: int|
                        0 <= q < k ==> (#[trigger] self.finalized_batches@[i6 as int].tx_ids@[q])
                            != transaction_id,
                decreases m - k,
            {
                if self.finalized_batches[i6].tx_ids[k] == transaction_id {
                    proof {
                        assert((self.finalized_batches@[i6 as int].tx_ids@[k as int])
                            == transaction_id);
                        assert(finalized_have(self.spec_finalized_batches(), transaction_id));
                    }
                    return Ok(SettlementStatus::Finalized);
                }
                k = k + 1;
            }
            i6 = i6 + 1;
        }
        proof {
            assert(!finalized_have(self.spec_finalized_batches(), transaction_id)) by {
                if finalized_have(self.spec_finalized_batches(), transaction_id) {
                    let (w, v) = choose|q: int, v: int|
                        0 <= q < self.finalized_batches@.len() && 0 <= v
                            < self.finalized_batches@[q].tx_ids@.len() && (
                        #[trigger] self.finalized_batches@[q].tx_ids@[v]) == transaction_id;
                    assert(false);
                }
            }
        }
        Err(SettlementError::TransactionNotFound)
    }
}

/// What draining the priority lane takes, newest first, and what it
/// leaves.
pub open spec fn spec_drain_priority(p: Seq<Transaction>, k: nat) -> (Seq<Transaction>, Seq<
    Transaction,
>)
    decreases p.len(),
{
    if k == 0 || p.len() == 0 {
        (Seq::empty(), p)
    } else {
        let rest = spec_drain_priority(p.drop_last(), (k - 1) as nat);
        (seq![p.last()] + rest.0, rest.1)
    }
}

/// What draining the default lane takes, oldest first, and what it
/// leaves.
pub open spec fn spec_drain_fifo(q: Seq<Transaction>, k: nat) -> (Seq<Transaction>, Seq<
    Transaction,
>) {
    if q.len() <= k {
        (q, Seq::empty())
    } else {
        (q.take(k as int), q.skip(k as int))
    }
}

impl L2SettlementEngine {
    /// The validator registry the batch processor runs.
    pub closed spec fn spec_validators(self) -> Seq<crate::batch::ValidatorKind> {
        self.batch_processor.spec_validators()
    }

    /// The gas schedule the batch processor runs.
    pub closed spec fn spec_gas_schedule(self) -> crate::batch::GasSchedule {
        self.batch_processor.spec_gas_schedule()
    }

    /// One batch tick: drains up to the configured batch size from the
    /// pool — priority lane first, newest first, then the default lane,
    /// oldest first — snapshots the state, runs the batch pipeline over
    /// the drained transactions, advances the rollup height, and queues
    /// the assembled batch with the state it executed against. Returns
    /// the new batch's id, or nothing when there was nothing to drain.
    pub fn process_pending_transactions(&mut self, now: u64) -> (r: Option<u64>)
        requires
            old(self).wf(),
        ensures
            final(self).wf(),
            ({
                let k = old(self).spec_batch_size();
                let (taken_p, rest_p) = spec_drain_priority(old(self).spec_pool_priority(), k);
                let (taken_f, rest_f) = spec_drain_fifo(
                    old(self).spec_pool_pending(),
                    (k - taken_p.len()) as nat,
                );
                let drained = taken_p + taken_f;
                let pre = old(self).spec_state();
                let valid = crate::batch::spec_filter_valid(
                    old(self).spec_validators(),
                    drained,
                    pre@,
                );
                let (pv, kept, gas) = crate::batch::spec_execute_batch(
                    old(self).spec_gas_schedule(),
                    pre@,
                    valid,
                    Seq::empty(),
                    0,
                );
                match r {
                    None => drained.len() == 0 && final(self).spec_pool_pending() == old(self).spec_pool_pending() && final(self).spec_pool_priority() == old(self).spec_pool_priority() && final(self).spec_pool_size() == old(self).spec_pool_size() && final(self).spec_processing() == old(self).spec_processing() && final(self).spec_pending_batches() == old(self).spec_pending_batches() && final(self).spec_submitted_batches() == old(self).spec_submitted_batches() && final(self).spec_finalized_batches() == old(self).spec_finalized_batches() && final(self).spec_state() == old(self).spec_state(),
                    Some(bid) => {
                        &&& drained.len() > 0
                        &&& final(self).spec_pool_priority() == rest_p
                        &&& final(self).spec_pool_pending() == rest_f
                        &&& final(self).spec_pool_size() == old(self).spec_pool_size()
                            - drained.len()
                        &&& final(self).spec_pending_batches().len() == old(self).spec_pending_batches().len() + 1
                        &&& ({
                            let pb = final(self).spec_pending_batches().last();
                            &&& pb.batch.batch_id == bid
                            &&& pb.batch.transactions@ == kept
                            &&& pb.batch.gas_used == gas
                            &&& pb.batch.previous_state_root@ == pre@.state_root
                            &&& pb.batch.state_root@ == crate::batch::canonical_root(pv.accounts)
                            &&& pb.batch.merkle_proof@ == crate::batch::merkle_root_of(kept)
                            &&& pb.pre_block == pre@.block_number
                            &&& pb.pre_state@ == pre@
                        })
                        &&& forall|i: int|
                            0 <= i < old(self).spec_pending_batches().len() ==> final(self).spec_pending_batches()[i] == old(self).spec_pending_batches()[i]
                        &&& final(self).spec_state()@.accounts == pv.accounts
                        &&& final(self).spec_state()@.state_root == crate::batch::canonical_root(
                            pv.accounts,
                        )
                        &&& final(self).spec_state()@.block_number == crate::types::sat_add_nat(
                            pre@.block_number as nat,
                            1,
                        ) as u64
                        &&& final(self).spec_processing().len() == old(self).spec_processing().len() + drained.len()
                        &&& final(self).spec_submitted_batches() == old(self).spec_submitted_batches()
                        &&& final(self).spec_finalized_batches() == old(self).spec_finalized_batches()
                    },
                }
            }),
    {
        let ghost k = self.config.batch_size as nat;
        let ghost p0 = self.pool_priority@;
        let ghost f0 = self.pool_pending@;
        let mut drained: Vec<Transaction> = Vec::new();
        while drained.len() < self.config.batch_size && self.pool_priority.len() > 0
            invariant
                *old(self) == (L2SettlementEngine { pool_priority: old(self).pool_priority, ..*self }),
                k == self.config.batch_size as nat,
                p0 == old(self).pool_priority@,
                drained@.len() <= k,
                self.pool_priority@.len() + drained@.len() == p0.len(),
                drained@ + spec_drain_priority(
                    self.pool_priority@,
                    (k - drained@.len()) as nat,
                ).0 == spec_drain_priority(p0, k).0,
                spec_drain_priority(self.pool_priority@, (k - drained@.len()) as nat).1
                    == spec_drain_priority(p0, k).1,
            decreases self.pool_priority@.len(),
        {
            let ghost pp = self.pool_priority@;
            let ghost dd = drained@;
            let tx = self.pool_priority.pop().unwrap();
            drained.push(tx);
            proof {
                assert(pp.last() == tx);
                assert(self.pool_priority@ == pp.drop_last());
                assert(drained@ + spec_drain_priority(
                    self.pool_priority@,
                    (k - drained@.len()) as nat,
                ).0 =~= dd + (seq![tx] + spec_drain_priority(
                    pp.drop_last(),
                    (k - dd.len() - 1) as nat,
                ).0));
            }
        }
        proof {
            assert(spec_drain_priority(self.pool_priority@, (k - drained@.len()) as nat).0
                =~= Seq::<Transaction>::empty());
            assert(drained@ + Seq::<Transaction>::empty() =~= drained@);
            assert(spec_drain_priority(self.pool_priority@, (k - drained@.len()) as nat).1
                == self.pool_priority@);
            assert(drained@ == spec_drain_priority(p0, k).0);
        }
        let ghost taken_p_len = drained@.len();
        let ghost d_mid = drained@;
        let ghost k2 = (k - drained@.len()) as nat;
        let ghost f_mid = self.pool_pending@;
        while drained.len() < self.config.batch_size && self.pool_pending.len() > 0
            invariant
                *old(self) == (L2SettlementEngine {
                    pool_priority: old(self).pool_priority,
                    pool_pending: old(self).pool_pending,
                    ..*self
                }),
                k == self.config.batch_size as nat,
                p0 == old(self).pool_priority@,
                f_mid == old(self).pool_pending@,
                self.pool_priority@ == spec_drain_priority(p0, k).1,
                self.pool_priority@.len() + taken_p_len == p0.len(),
                d_mid == spec_drain_priority(p0, k).0,
                taken_p_len == d_mid.len(),
                taken_p_len <= drained@.len() <= k,
                k2 == k - taken_p_len,
                self.pool_pending@.len() + drained@.len() == f_mid.len() + d_mid.len(),
                drained@ + spec_drain_fifo(self.pool_pending@, (k - drained@.len()) as nat).0
                    == d_mid + spec_drain_fifo(f_mid, k2).0,
                spec_drain_fifo(self.pool_pending@, (k - drained@.len()) as nat).1
                    == spec_drain_fifo(f_mid, k2).1,
            decreases self.pool_pending@.len(),
        {
            let ghost fp = self.pool_pending@;
            let ghost dd = drained@;
            let tx = self.pool_pending.remove(0);
            drained.push(tx);
            proof {
                assert(fp.first() == tx);
                assert(self.pool_pending@ =~= fp.drop_first());
                let rem_pre = (k - dd.len()) as nat;
                let rem_post = (k - dd.len() - 1) as nat;
                assert(spec_drain_fifo(fp, rem_pre).0 =~= seq![tx] + spec_drain_fifo(
                    fp.drop_first(),
                    rem_post,
                ).0);
                assert(spec_drain_fifo(fp, rem_pre).1 =~= spec_drain_fifo(
                    fp.drop_first(),
                    rem_post,
                ).1);
                assert(dd + (seq![tx] + spec_drain_fifo(fp.drop_first(), rem_post).0) =~= (dd
                    + seq![tx]) + spec_drain_fifo(fp.drop_first(), rem_post).0);
            }
        }
        proof {
            assert(spec_drain_fifo(self.pool_pending@, (k - drained@.len()) as nat).0
                =~= Seq::<Transaction>::empty());
            assert(drained@ + Seq::<Transaction>::empty() =~= drained@);
            assert(d_mid + Seq::<Transaction>::empty() =~= d_mid);
            assert(drained@ == d_mid + spec_drain_fifo(f_mid, k2).0);
        }
        if drained.len() == 0 {
            proof {
                assert(spec_drain_priority(p0, k).0.len() == 0);
                assert(spec_drain_fifo(f_mid, k2).0 =~= Seq::<Transaction>::empty());
                if k == 0 {
                    assert(spec_drain_priority(p0, 0nat).1 == p0);
                } else {
                    assert(self.pool_priority@.len() == 0 && p0.len() == 0);
                    assert(self.pool_priority@ =~= p0);
                }
                assert(self.pool_priority@ == p0);
                if k2 == 0 {
                    assert(spec_drain_fifo(f_mid, k2).1 == f_mid);
                    assert(self.pool_pending@ == f_mid);
                } else {
                    assert(self.pool_pending@.len() == 0 && f_mid.len() == 0);
                    assert(self.pool_pending@ =~= f_mid);
                }
            }
            return None;
        }
        let drained_len = drained.len();
        let remaining = self.pool_pending.len();
        let remaining_p = self.pool_priority.len();
        proof {
            assert(old(self).pool_size == p0.len() + f_mid.len());
            assert(remaining_p + taken_p_len == p0.len());
            assert(remaining + drained@.len() == f_mid.len() + d_mid.len());
            assert(remaining + remaining_p + drained@.len() == old(self).pool_size);
        }
        self.pool_size = remaining + remaining_p;
        let mut tx_ids: Vec<u64> = Vec::new();
        let mut di: usize = 0;
        while di < drained.len()
            invariant
                0 <= di <= drained@.len(),
                tx_ids@.len() == di,
                forall|j: int| 0 <= j < di ==> tx_ids@[j] == drained@[j].id,
            decreases drained@.len() - di,
        {
            tx_ids.push(drained[di].id);
            di = di + 1;
        }
        let _ = self.state_manager.create_snapshot(now);
        let pre_state = self.state_manager.state().duplicate();
        let pre_block = pre_state.block_number;
        let state = self.state_manager.state_mut();
        let batch = self.batch_processor.process_batch(state, drained, now);
        let bn = state.block_number;
        state.block_number = if bn < u64::MAX {
            bn + 1
        } else {
            u64::MAX
        };
        state.timestamp = now;
        let kept_len = batch.transactions.len() as u64;
        let tp = self.total_processed;
        self.total_processed = if tp <= u64::MAX - kept_len {
            tp + kept_len
        } else {
            u64::MAX
        };
        let dropped: u64 = if (drained_len as u64) >= kept_len {
            (drained_len as u64) - kept_len
        } else {
            0
        };
        let tf = self.total_failed;
        self.total_failed = if tf <= u64::MAX - dropped {
            tf + dropped
        } else {
            u64::MAX
        };
        let bid = batch.batch_id;
        let mut qi: usize = 0;
        let ghost mid = *self;
        while qi < tx_ids.len()
            invariant
                (L2SettlementEngine { processing: mid.processing, ..*self }) == mid,
                0 <= qi <= tx_ids@.len(),
                self.processing@.len() == mid.processing@.len() + qi,
            decreases tx_ids@.len() - qi,
        {
            self.processing.push(
                ProcessingTransaction {
                    tx_id: tx_ids[qi],
                    batch_id: bid,
                    started_at: now,
                    stage: ProcessingStage::ZKProofGeneration,
                },
            );
            qi = qi + 1;
        }
        self.pending_batches.push(PendingBatch { batch, pre_state, pre_block });
        proof {
            let kk = old(self).spec_batch_size();
            let tp = spec_drain_priority(old(self).spec_pool_priority(), kk);
            let tf = spec_drain_fifo(old(self).spec_pool_pending(), (kk - tp.0.len()) as nat);
            let drained_spec = tp.0 + tf.0;
            let pre = old(self).spec_state();
            let valid = crate::batch::spec_filter_valid(
                old(self).spec_validators(),
                drained_spec,
                pre@,
            );
            let triple = crate::batch::spec_execute_batch(
                old(self).spec_gas_schedule(),
                pre@,
                valid,
                Seq::empty(),
                0,
            );
            crate::batch::lemma_execute_batch_frame(
                old(self).spec_gas_schedule(),
                pre@,
                valid,
                Seq::empty(),
                0,
            );
            assert(kk == k);
            assert(tp.0 == d_mid && tp.1 == spec_drain_priority(p0, k).1);
            assert(tf.0 == spec_drain_fifo(f_mid, k2).0 && tf.1 == spec_drain_fifo(f_mid, k2).1);
            assert(drained_spec.len() > 0);
            assert(self.pool_priority@ == tp.1);
            assert(self.pool_pending@ == tf.1);
            assert(self.pool_size == old(self).spec_pool_size() - drained_spec.len());
            assert(self.pending_batches@.len() == old(self).spec_pending_batches().len() + 1);
            let pb = self.pending_batches@.last();
            assert(pb.batch.batch_id == bid);
            assert(pb.batch.transactions@ == triple.1);
            assert(pb.batch.gas_used == triple.2);
            assert(pb.batch.previous_state_root@ == pre@.state_root);
            assert(pb.batch.state_root@ == crate::batch::canonical_root(triple.0.accounts));
            assert(pb.batch.merkle_proof@ == crate::batch::merkle_root_of(triple.1));
            assert(pb.pre_block == pre@.block_number);
            assert(pb.pre_state@ == pre@);
            assert(self.state_manager.spec_state()@.accounts == triple.0.accounts);
            assert(self.state_manager.spec_state()@.state_root == crate::batch::canonical_root(
                triple.0.accounts,
            ));
            assert(self.state_manager.spec_state()@.block_number == crate::types::sat_add_nat(
                pre@.block_number as nat,
                1,
            ) as u64);
            assert(self.processing@.len() == old(self).spec_processing().len()
                + drained_spec.len());
            assert(self.submitted_batches@ == old(self).spec_submitted_batches());
            assert(self.finalized_batches@ == old(self).spec_finalized_batches());
        }
        Some(bid)
    }
}

impl L2SettlementEngine {
    /// The rollup component's recorded content.
    pub closed spec fn spec_rollup(self) -> OptimisticRollup {
        self.optimistic_rollup
    }

    /// The finality component's recorded content.
    pub closed spec fn spec_finality(self) -> FinalityEngine {
        self.finality_engine
    }

    /// The canonical root the rollup has adopted.
    pub fn get_canonical_root(&self) -> (r: Vec<u8>)
        ensures
            r@ == self.spec_rollup().spec_root(),
    {
        self.optimistic_rollup.get_state_root()
    }

    /// Read access to the state manager, for balance, nonce and snapshot
    /// queries.
    pub fn state_manager(&self) -> (r: &StateManager)
        ensures
            *r == self.spec_state_manager(),
    {
        &self.state_manager
    }

    /// The state-manager component.
    pub closed spec fn spec_state_manager(self) -> StateManager {
        self.state_manager
    }

    /// The position of the submitted record for batch `batch_id`, if any.
    fn find_submitted(&self, batch_id: u64) -> (r: Option<usize>)
        ensures
            match r {
                Some(i) => i as int == submitted_index(self.spec_submitted_batches(), batch_id)
                    && i < self.spec_submitted_batches().len()
                    && self.spec_submitted_batches()[i as int].batch_id == batch_id,
                None => submitted_index(self.spec_submitted_batches(), batch_id) == -1,
            },
    {
        let n = self.submitted_batches.len();
        let mut i: usize = 0;
        while i < n
            invariant
                n == self.submitted_batches@.len(),
                0 <= i <= n,
                forall|j: int| 0 <= j < i ==> (#[trigger] self.submitted_batches@[j]).batch_id
                    != batch_id,
            decreases n - i,
        {
            proof {
                lemma_submitted_index_step(self.submitted_batches@, batch_id, i as int);
            }
            if self.submitted_batches[i].batch_id == batch_id {
                return Some(i);
            }
            i = i + 1;
        }
        proof {
            lemma_submitted_index(self.submitted_batches@, batch_id);
        }
        None
    }

    /// One submission tick: pops the oldest assembled batch, attests it
    /// with the stub proof system, submits it to the anchor chain through
    /// the rollup, and starts watching it for finality. Nothing happens
    /// when no batch waits. Success is owed whenever the popped batch
    /// meets the rollup's acceptance conditions: non-empty, a 32-byte
    /// claimed root, a merkle commitment matching its transactions, and a
    /// previous root equal to the adopted canonical root. A batch failing
    /// one of them is dropped and the matching refusal returned.
    pub fn submit_next_batch(&mut self, now: u64) -> (r: Result<Option<u64>, SettlementError>)
        requires
            old(self).wf(),
        ensures
            final(self).wf(),
            final(self).spec_pool_pending() == old(self).spec_pool_pending(),
            final(self).spec_pool_priority() == old(self).spec_pool_priority(),
            final(self).spec_finalized_batches() == old(self).spec_finalized_batches(),
            final(self).spec_state_manager() == old(self).spec_state_manager(),
            ({
                let pb = old(self).spec_pending_batches().first();
                let c_nonempty = pb.batch.transactions@.len() > 0;
                let c_root = pb.batch.state_root@.len() == 32;
                let c_merkle = pb.batch.merkle_proof@ == crate::batch::merkle_root_of(
                    pb.batch.transactions@,
                );
                let c_chain = pb.batch.previous_state_root@ == old(self).spec_rollup().spec_root();
                let handle_view = seq!['0', 'x'] + crate::hashing::hex_of(
                    pb.batch.state_root@.take(8),
                );
                let window_end = crate::types::sat_add_nat(
                    now as nat,
                    old(self).spec_challenge_period_ms() as nat,
                ) as u64;
                match r {
                    Ok(None) => old(self).spec_pending_batches().len() == 0 && final(self).spec_pending_batches() == old(self).spec_pending_batches() && final(self).spec_submitted_batches() == old(self).spec_submitted_batches() && final(self).spec_rollup() == old(self).spec_rollup() && final(self).spec_finality()
                        == old(self).spec_finality(),
                    Ok(Some(bid)) => {
                        &&& old(self).spec_pending_batches().len() > 0
                        &&& c_nonempty && c_root && c_merkle && c_chain
                        &&& bid == pb.batch.batch_id
                        &&& final(self).spec_pending_batches() == old(self).spec_pending_batches().drop_first()
                        &&& final(self).spec_rollup().spec_root() == pb.batch.state_root@
                        &&& final(self).spec_rollup().spec_batches().len() == old(self).spec_rollup().spec_batches().len() + 1
                        &&& final(self).spec_rollup().spec_batches().last().batch.batch_id == bid
                        &&& final(self).spec_rollup().spec_batches().last().finality_status
                            == crate::optimistic::FinalityStatus::Pending
                        &&& final(self).spec_rollup().spec_batches().last().pre_state@
                            == pb.pre_state@
                        &&& final(self).spec_submitted_batches().len() == old(self).spec_submitted_batches().len() + 1
                        &&& ({
                            let sb = final(self).spec_submitted_batches().last();
                            &&& sb.batch_id == bid
                            &&& sb.submitted_at == now
                            &&& sb.pre_block == pb.pre_block
                            &&& sb.challenge_period_end == window_end
                            &&& sb.l1_transaction_hash@ == handle_view
                            &&& sb.tx_ids@.len() == pb.batch.transactions@.len()
                            &&& forall|j: int|
                                0 <= j < sb.tx_ids@.len() ==> #[trigger] sb.tx_ids@[j]
                                    == pb.batch.transactions@[j].id
                        })
                        &&& forall|i: int|
                            0 <= i < old(self).spec_submitted_batches().len() ==> final(self).spec_submitted_batches()[i] == old(self).spec_submitted_batches()[i]
                        &&& final(self).spec_finality().spec_pending().len() == old(self).spec_finality().spec_pending().len() + 1
                        &&& ({
                            let pf = final(self).spec_finality().spec_pending().last();
                            &&& pf.batch_id == bid
                            &&& pf.l1_transaction_hash@ == handle_view
                            &&& pf.submitted_at == now
                            &&& pf.l1_confirmations == 0
                            &&& pf.open_challenges == 0
                            &&& pf.gas_used == pb.batch.gas_used
                        })
                        &&& forall|i: int|
                            0 <= i < old(self).spec_finality().spec_pending().len() ==> final(self).spec_finality().spec_pending()[i] == old(self).spec_finality().spec_pending()[i]
                    },
                    Err(e) => {
                        &&& old(self).spec_pending_batches().len() > 0
                        &&& !(c_nonempty && c_root && c_merkle && c_chain)
                        &&& (e == SettlementError::EmptyBatch <==> !c_nonempty)
                        &&& (e == SettlementError::InvalidStateRootLength <==> c_nonempty
                            && !c_root)
                        &&& (e == SettlementError::InvalidMerkleProof <==> c_nonempty && c_root
                            && !c_merkle)
                        &&& (e == SettlementError::PreviousRootMismatch <==> c_nonempty && c_root
                            && c_merkle && !c_chain)
                        &&& final(self).spec_pending_batches() == old(self).spec_pending_batches().drop_first()
                        &&& final(self).spec_submitted_batches() == old(self).spec_submitted_batches()
                        &&& final(self).spec_rollup() == old(self).spec_rollup()
                        &&& final(self).spec_finality() == old(self).spec_finality()
                    },
                }
            }),
    {
        if self.pending_batches.len() == 0 {
            return Ok(None);
        }
        let ghost pending_pre = self.pending_batches@;
        let PendingBatch { mut batch, pre_state, pre_block } = self.pending_batches.remove(0);
        proof {
            assert(self.pending_batches@ =~= pending_pre.drop_first());
        }
        let attestation = self.zk_proof_system.generate_batch_proof(&batch, now);
        batch.zk_proof = Some(attestation.proof_data);
        let bid = batch.batch_id;
        let gas = batch.gas_used;
        let mut tx_ids: Vec<u64> = Vec::new();
        let mut i: usize = 0;
        let ghost mid = *self;
        while i < batch.transactions.len()
            invariant
                *self == mid,
                0 <= i <= batch.transactions@.len(),
                tx_ids@.len() == i,
                forall|j: int| 0 <= j < i ==> #[trigger] tx_ids@[j]
                    == batch.transactions@[j].id,
            decreases batch.transactions@.len() - i,
        {
            tx_ids.push(batch.transactions[i].id);
            i = i + 1;
        }
        let handle = match self.optimistic_rollup.submit_batch(batch, pre_state, now) {
            Ok(h) => h,
            Err(e) => {
                return Err(e);
            },
        };
        let handle_copy = String::from_str(handle.as_str());
        let _ = self.finality_engine.track_l1_submission(bid, handle_copy, now, gas);
        let end: u64 = if now <= u64::MAX - self.config.challenge_period_ms {
            now + self.config.challenge_period_ms
        } else {
            u64::MAX
        };
        self.submitted_batches.push(
            SubmittedBatch {
                batch_id: bid,
                tx_ids,
                l1_transaction_hash: handle,
                submitted_at: now,
                pre_block,
                challenge_period_end: end,
            },
        );
        let mut si: usize = 0;
        let ghost mid2 = *self;
        while si < self.processing.len()
            invariant
                (L2SettlementEngine { processing: mid2.processing, ..*self }) == mid2,
                0 <= si <= self.processing@.len(),
                self.processing@.len() == mid2.processing@.len(),
            decreases self.processing@.len() - si,
        {
            if self.processing[si].batch_id == bid {
                self.processing[si].stage = ProcessingStage::Finalization;
            }
            si = si + 1;
        }
        Ok(Some(bid))
    }

    /// One finality tick: sweeps the finality engine for batches whose
    /// tier requirements all hold at once, marks each finalized in the
    /// rollup, and moves the matching submitted record — one per batch,
    /// first match, with its transaction ids — into the finalized set.
    /// The watched set keeps exactly the batches granted no tier. Returns
    /// how many batches finalized.
    pub fn monitor_finality(&mut self, now: u64) -> (r: usize)
        requires
            old(self).wf(),
        ensures
            final(self).wf(),
            final(self).spec_pool_pending() == old(self).spec_pool_pending(),
            final(self).spec_pool_priority() == old(self).spec_pool_priority(),
            final(self).spec_pending_batches() == old(self).spec_pending_batches(),
            final(self).spec_state_manager() == old(self).spec_state_manager(),
            ({
                let req = old(self).spec_finality().spec_requirements();
                let agg = old(self).spec_finality().spec_aggregate_stake();
                let st = old(self).spec_finality().spec_stake_threshold();
                let el = old(self).spec_finality().spec_absolute_elapsed_ms();
                let ripe = crate::finality::spec_ripe(
                    old(self).spec_finality().spec_pending(),
                    req,
                    agg,
                    st,
                    el,
                    now,
                );
                &&& r == ripe.len()
                &&& final(self).spec_finality().spec_pending() == crate::finality::spec_still_pending(
                    old(self).spec_finality().spec_pending(),
                    req,
                    agg,
                    st,
                    el,
                    now,
                )
                &&& final(self).spec_finality().spec_challenges() == old(self).spec_finality().spec_challenges()
                &&& final(self).spec_submitted_batches() == spec_consume_prefix(
                    old(self).spec_submitted_batches(),
                    ripe,
                    ripe.len() as int,
                )
                &&& final(self).spec_finalized_batches().len() == old(self).spec_finalized_batches().len() + ripe.len()
                &&& forall|i: int|
                    0 <= i < old(self).spec_finalized_batches().len() ==> final(self).spec_finalized_batches()[i] == old(self).spec_finalized_batches()[i]
                &&& forall|j: int|
                    0 <= j < ripe.len() ==> ({
                        let fb = #[trigger] final(self).spec_finalized_batches()[old(self).spec_finalized_batches().len() + j];
                        &&& fb.batch_id == ripe[j].batch_id
                        &&& fb.l1_block_number == ripe[j].l1_block_number
                        &&& fb.final_gas_used == ripe[j].gas_used
                        &&& fb.finalized_at == now
                        &&& fb.tx_ids@ == submitted_tx_ids(
                            spec_consume_prefix(old(self).spec_submitted_batches(), ripe, j),
                            ripe[j].batch_id,
                        )
                    })
            }),
    {
        let ghost req = self.finality_engine.spec_requirements();
        let ghost agg = self.finality_engine.spec_aggregate_stake();
        let ghost st = self.finality_engine.spec_stake_threshold();
        let ghost el = self.finality_engine.spec_absolute_elapsed_ms();
        let ghost pend0 = self.finality_engine.spec_pending();
        let ghost sub0 = self.submitted_batches@;
        let ghost fin0 = self.finalized_batches@;
        let ghost ripe = crate::finality::spec_ripe(pend0, req, agg, st, el, now);
        let newly = self.finality_engine.check_finalized_batches(now);
        let ghost fin_eng = self.finality_engine;
        let mut count: usize = 0;
        let mut rest = newly;
        while rest.len() > 0
            invariant
                self.state_manager == old(self).state_manager,
                self.optimistic_rollup.wf(),
                self.zk_proof_system == old(self).zk_proof_system,
                self.nonce_tracker == old(self).nonce_tracker,
                self.pool_pending == old(self).pool_pending,
                self.pool_priority == old(self).pool_priority,
                self.pool_size == old(self).pool_size,
                self.pending_batches == old(self).pending_batches,
                self.config == old(self).config,
                self.finality_engine == fin_eng,
                old(self).wf(),
                sub0 == old(self).submitted_batches@,
                fin0 == old(self).finalized_batches@,
                count + rest@.len() == ripe.len(),
                forall|j: int|
                    0 <= j < rest@.len() ==> crate::finality::finalized_matches(
                        #[trigger] rest@[j],
                        ripe[count + j],
                        req,
                        agg,
                        st,
                        el,
                        now,
                    ),
                self.submitted_batches@ == spec_consume_prefix(sub0, ripe, count as int),
                self.finalized_batches@.len() == fin0.len() + count,
                forall|i: int| 0 <= i < fin0.len() ==> self.finalized_batches@[i] == fin0[i],
                forall|j: int|
                    0 <= j < count ==> ({
                        let fb = #[trigger] self.finalized_batches@[fin0.len() + j];
                        &&& fb.batch_id == ripe[j].batch_id
                        &&& fb.l1_block_number == ripe[j].l1_block_number
                        &&& fb.final_gas_used == ripe[j].gas_used
                        &&& fb.finalized_at == now
                        &&& fb.tx_ids@ == submitted_tx_ids(
                            spec_consume_prefix(sub0, ripe, j),
                            ripe[j].batch_id,
                        )
                    }),
            decreases rest@.len(),
        {
            let ghost rest_pre = rest@;
            let record = rest.remove(0);
            proof {
                assert(rest@ =~= rest_pre.drop_first());
                assert(rest_pre.first() == record);
                assert(crate::finality::finalized_matches(
                    record,
                    ripe[count as int],
                    req,
                    agg,
                    st,
                    el,
                    now,
                ));
                assert forall|j: int|
                    0 <= j < rest@.len() implies crate::finality::finalized_matches(
                    #[trigger] rest@[j],
                    ripe[count + 1 + j],
                    req,
                    agg,
                    st,
                    el,
                    now,
                ) by {
                    assert(rest@[j] == rest_pre[j + 1]);
                }
            }
            let bid = record.batch_id;
            let _ = self.optimistic_rollup.mark_finalized(bid);
            // move the matching submitted record, if any
            let ghost sub_mid = self.submitted_batches@;
            let mut tx_ids: Vec<u64> = Vec::new();
            match self.find_submitted(bid) {
                Some(idx) => {
                    let entry = self.submitted_batches.remove(idx);
                    tx_ids = entry.tx_ids;
                    proof {
                        assert(self.submitted_batches@ == remove_first_submitted(sub_mid, bid));
                        assert(tx_ids@ == submitted_tx_ids(sub_mid, bid));
                    }
                },
                None => {
                    proof {
                        assert(self.submitted_batches@ == remove_first_submitted(sub_mid, bid));
                        assert(tx_ids@ =~= submitted_tx_ids(sub_mid, bid));
                    }
                },
            }
            proof {
                assert(self.submitted_batches@ == spec_consume_prefix(
                    sub0,
                    ripe,
                    count as int + 1,
                ));
            }
            // drop the batch's in-flight records
            let mut kept_proc: Vec<ProcessingTransaction> = Vec::new();
            let mut old_proc: Vec<ProcessingTransaction> = Vec::new();
            core::mem::swap(&mut old_proc, &mut self.processing);
            while old_proc.len() > 0
                decreases old_proc@.len(),
            {
                let e = old_proc.remove(0);
                if e.batch_id != bid {
                    kept_proc.push(e);
                }
            }
            self.processing = kept_proc;
            self.finalized_batches.push(
                FinalizedBatchRecord {
                    batch_id: bid,
                    tx_ids,
                    finalized_at: now,
                    l1_block_number: record.l1_block_number,
                    final_gas_used: record.gas_used,
                },
            );
            let flen = self.finalized_batches.len();
            proof {
                assert(flen == fin0.len() + count + 1);
                assert(count < usize::MAX);
            }
            count = count + 1;
        }
        count
    }

    /// Opens a challenge against a submitted batch, through the rollup.
    /// Refused exactly when the stake is below the configured minimum,
    /// the batch is unknown, or the batch is already finalized; otherwise
    /// the challenge is recorded open — with the given challenger, claim,
    /// stake and evidence and its fraud-proof deadline — and the batch is
    /// marked disputed. Nothing else of the engine changes.
    pub fn submit_challenge(
        &mut self,
        batch_id: u64,
        challenger: Address,
        challenge_type: ChallengeType,
        stake_amount: crate::types::U256,
        evidence: Vec<u8>,
        now: u64,
    ) -> (r: Result<u64, SettlementError>)
        requires
            old(self).wf(),
        ensures
            final(self).wf(),
            final(self).spec_pool_pending() == old(self).spec_pool_pending(),
            final(self).spec_pool_priority() == old(self).spec_pool_priority(),
            final(self).spec_pending_batches() == old(self).spec_pending_batches(),
            final(self).spec_submitted_batches() == old(self).spec_submitted_batches(),
            final(self).spec_finalized_batches() == old(self).spec_finalized_batches(),
            final(self).spec_state_manager() == old(self).spec_state_manager(),
            ({
                let before = old(self).spec_rollup();
                let after = final(self).spec_rollup();
                let bi = crate::optimistic::batch_index(before.spec_batches(), batch_id);
                match r {
                    Ok(cid) => {
                        &&& low64_of(stake_amount.0@) >= low64_of(before.spec_min_stake())
                        &&& bi >= 0
                        &&& before.spec_batches()[bi].finality_status
                            != crate::optimistic::FinalityStatus::Finalized
                        &&& cid == before.spec_next_challenge_id()
                        &&& after.spec_challenges().len() == before.spec_challenges().len() + 1
                        &&& after.spec_challenges().last().challenge_id == cid
                        &&& after.spec_challenges().last().batch_id == batch_id
                        &&& after.spec_challenges().last().challenger == challenger
                        &&& after.spec_challenges().last().challenge_type == challenge_type
                        &&& after.spec_challenges().last().stake_amount == stake_amount
                        &&& after.spec_challenges().last().evidence@ == evidence@
                        &&& after.spec_challenges().last().created_at == now
                        &&& after.spec_challenges().last().deadline == crate::types::sat_add_nat(
                            now as nat,
                            before.spec_fraud_window() as nat,
                        ) as u64
                        &&& after.spec_challenges().last().status
                            == crate::optimistic::ChallengeStatus::Pending
                        &&& forall|i: int|
                            0 <= i < before.spec_challenges().len() ==> after.spec_challenges()[i]
                                == before.spec_challenges()[i]
                        &&& after.spec_batches()[bi].finality_status
                            == crate::optimistic::FinalityStatus::Challenged
                        &&& after.spec_batches()[bi].batch == before.spec_batches()[bi].batch
                        &&& forall|i: int|
                            0 <= i < before.spec_batches().len() && i != bi
                                ==> after.spec_batches()[i] == before.spec_batches()[i]
                        &&& after.spec_root() == before.spec_root()
                    },
                    Err(SettlementError::InsufficientStake) => low64_of(stake_amount.0@)
                        < low64_of(before.spec_min_stake()) && after == before,
                    Err(SettlementError::BatchNotFound) => low64_of(stake_amount.0@) >= low64_of(
                        before.spec_min_stake(),
                    ) && bi == -1 && after == before,
                    Err(SettlementError::BatchAlreadyFinalized) => low64_of(stake_amount.0@)
                        >= low64_of(before.spec_min_stake()) && bi >= 0
                        && before.spec_batches()[bi].finality_status
                        == crate::optimistic::FinalityStatus::Finalized && after == before,
                    Err(_) => false,
                }
            }),
    {
        self.optimistic_rollup.submit_challenge(
            batch_id,
            challenger,
            challenge_type,
            stake_amount,
            evidence,
            now,
        )
    }

    /// Processes an open challenge through the rollup: the batch's
    /// transition is re-derived from its retained pre-state and compared
    /// against the claimed root. On a mismatch the challenge is upheld,
    /// the rollup reverts to the batch's previous root, and the canonical
    /// state is rolled back to the height the batch started from — as far
    /// as a retained snapshot allows; on a match the challenge fails and
    /// the challenger's stake is slashed. Refused exactly when no
    /// challenge carries the id.
    pub fn process_challenge(&mut self, challenge_id: u64, now: u64) -> (r: Result<
        ChallengeOutcome,
        SettlementError,
    >)
        requires
            old(self).wf(),
        ensures
            final(self).wf(),
            final(self).spec_pool_pending() == old(self).spec_pool_pending(),
            final(self).spec_pool_priority() == old(self).spec_pool_priority(),
            final(self).spec_pending_batches() == old(self).spec_pending_batches(),
            final(self).spec_submitted_batches() == old(self).spec_submitted_batches(),
            final(self).spec_finalized_batches() == old(self).spec_finalized_batches(),
            ({
                let ci = crate::optimistic::challenge_index(
                    old(self).spec_rollup().spec_challenges(),
                    challenge_id,
                );
                match r {
                    Ok(outcome) => {
                        let ch = old(self).spec_rollup().spec_challenges()[ci];
                        let bi = crate::optimistic::batch_index(
                            old(self).spec_rollup().spec_batches(),
                            ch.batch_id,
                        );
                        let hb = old(self).spec_rollup().spec_batches()[bi];
                        let replayed = crate::batch::canonical_root(
                            crate::batch::spec_execute_batch(
                                old(self).spec_rollup().spec_gas_schedule(),
                                hb.pre_state@,
                                hb.batch.transactions@,
                                Seq::empty(),
                                0,
                            ).0.accounts,
                        );
                        let si = submitted_index(old(self).spec_submitted_batches(), ch.batch_id);
                        &&& ci >= 0
                        &&& bi >= 0
                        &&& (outcome == ChallengeOutcome::ChallengeSuccessful <==> replayed
                            != hb.batch.state_root@)
                        &&& (outcome == ChallengeOutcome::ChallengeSuccessful || outcome
                            == ChallengeOutcome::ChallengeFailed)
                        &&& (outcome == ChallengeOutcome::ChallengeSuccessful ==> final(self).spec_rollup().spec_root() == hb.batch.previous_state_root@)
                        &&& (outcome == ChallengeOutcome::ChallengeFailed ==> final(self).spec_rollup().spec_root() == old(self).spec_rollup().spec_root()
                            && final(self).spec_state_manager() == old(self).spec_state_manager())
                        &&& (outcome == ChallengeOutcome::ChallengeSuccessful ==> (if si >= 0 {
                            crate::state::rollback_outcome(
                                old(self).spec_state_manager(),
                                final(self).spec_state_manager(),
                                old(self).spec_submitted_batches()[si].pre_block,
                            )
                        } else {
                            final(self).spec_state_manager() == old(self).spec_state_manager()
                        }))
                        &&& final(self).spec_rollup().spec_challenges().len() == old(self).spec_rollup().spec_challenges().len() - 1
                        &&& final(self).spec_rollup().spec_history().len() == old(self).spec_rollup().spec_history().len() + 1
                        &&& final(self).spec_rollup().spec_history().last().outcome == outcome
                        &&& final(self).spec_rollup().spec_history().last().batch_id == ch.batch_id
                    },
                    Err(e) => e == SettlementError::ChallengeNotFound && ci == -1 && *final(self)
                        == *old(self),
                }
            }),
    {
        let challenged = self.optimistic_rollup.get_challenge_batch(challenge_id);
        let outcome = match self.optimistic_rollup.process_challenge(challenge_id, now) {
            Ok(o) => o,
            Err(e) => {
                return Err(e);
            },
        };
        if matches!(outcome, ChallengeOutcome::ChallengeSuccessful) {
            // roll the canonical state back to the height the reverted
            // batch started from
            if let Some(bid) = challenged {
                match self.find_submitted(bid) {
                    Some(j) => {
                        let height = self.submitted_batches[j].pre_block;
                        let ghost mgr_pre = self.state_manager;
                        let _ = self.state_manager.rollback_to_block(
                            height,
                            RollbackReason::FraudProof,
                            now,
                        );
                        proof {
                            assert(mgr_pre == old(self).spec_state_manager());
                            assert(crate::state::rollback_outcome(
                                mgr_pre,
                                self.state_manager,
                                height,
                            ));
                        }
                    },
                    None => {},
                }
            }
        }
        Ok(outcome)
    }

    /// Credits a deposit from the external balance ledger: the account's
    /// balance in `token` is replaced by `amount`. The ledger is the
    /// authoritative balance source; the root is left for the next batch
    /// to recompute.
    pub fn credit_account(
        &mut self,
        account: Address,
        token: crate::types::TokenType,
        amount: crate::types::U256,
    )
        requires
            old(self).wf(),
        ensures
            final(self).wf(),
            crate::state::balance_in(final(self).spec_state()@, account.0@, token) == amount.0@,
            final(self).spec_pool_pending() == old(self).spec_pool_pending(),
            final(self).spec_pool_priority() == old(self).spec_pool_priority(),
            final(self).spec_pending_batches() == old(self).spec_pending_batches(),
            final(self).spec_submitted_batches() == old(self).spec_submitted_batches(),
            final(self).spec_finalized_batches() == old(self).spec_finalized_batches(),
            final(self).spec_state()@.state_root == old(self).spec_state()@.state_root,
            final(self).spec_state()@.block_number == old(self).spec_state()@.block_number,
    {
        let state = self.state_manager.state_mut();
        crate::state::apply_single_change(
            state,
            crate::state::StateChange {
                change_type: crate::state::StateChangeType::BalanceUpdate,
                address: account,
                key: None,
                token,
                old_value: crate::state::StateValue::Absent,
                new_value: crate::state::StateValue::U256(amount),
            },
        );
    }

    /// Records an anchor-chain confirmation count for a watched batch, as
    /// the confirmation monitor reports it: that batch's block and
    /// confirmation count are replaced and nothing else moves. Refused
    /// exactly when no batch with the id is watched.
    pub fn record_l1_confirmation(&mut self, batch_id: u64, block_number: u64, confirmations: u32)
        -> (r: Result<(), SettlementError>)
        requires
            old(self).wf(),
        ensures
            final(self).wf(),
            final(self).spec_pool_pending() == old(self).spec_pool_pending(),
            final(self).spec_pool_priority() == old(self).spec_pool_priority(),
            final(self).spec_pending_batches() == old(self).spec_pending_batches(),
            final(self).spec_submitted_batches() == old(self).spec_submitted_batches(),
            final(self).spec_finalized_batches() == old(self).spec_finalized_batches(),
            final(self).spec_state_manager() == old(self).spec_state_manager(),
            final(self).spec_rollup() == old(self).spec_rollup(),
            final(self).spec_finality().spec_challenges() == old(self).spec_finality().spec_challenges(),
            final(self).spec_finality().spec_finalized() == old(self).spec_finality().spec_finalized(),
            final(self).spec_finality().spec_requirements() == old(self).spec_finality().spec_requirements(),
            final(self).spec_finality().spec_aggregate_stake() == old(self).spec_finality().spec_aggregate_stake(),
            match r {
                Ok(()) => exists|i: int|
                    {
                        &&& 0 <= i < old(self).spec_finality().spec_pending().len()
                        &&& (#[trigger] old(self).spec_finality().spec_pending()[i]).batch_id
                            == batch_id
                        &&& final(self).spec_finality().spec_pending().len() == old(self).spec_finality().spec_pending().len()
                        &&& final(self).spec_finality().spec_pending()[i].batch_id == batch_id
                        &&& final(self).spec_finality().spec_pending()[i].l1_block_number
                            == block_number
                        &&& final(self).spec_finality().spec_pending()[i].l1_confirmations
                            == confirmations
                        &&& final(self).spec_finality().spec_pending()[i].l1_transaction_hash
                            == old(self).spec_finality().spec_pending()[i].l1_transaction_hash
                        &&& final(self).spec_finality().spec_pending()[i].submitted_at == old(self).spec_finality().spec_pending()[i].submitted_at
                        &&& final(self).spec_finality().spec_pending()[i].challenge_period_end
                            == old(self).spec_finality().spec_pending()[i].challenge_period_end
                        &&& final(self).spec_finality().spec_pending()[i].open_challenges == old(self).spec_finality().spec_pending()[i].open_challenges
                        &&& final(self).spec_finality().spec_pending()[i].gas_used == old(self).spec_finality().spec_pending()[i].gas_used
                        &&& forall|j: int|
                            0 <= j < old(self).spec_finality().spec_pending().len() && j != i
                                ==> final(self).spec_finality().spec_pending()[j] == old(self).spec_finality().spec_pending()[j]
                    },
                Err(e) => e == SettlementError::BatchNotFound && (forall|i: int|
                    0 <= i < old(self).spec_finality().spec_pending().len() ==> (#[trigger] old(self).spec_finality().spec_pending()[i]).batch_id != batch_id) && final(self).spec_finality() == old(self).spec_finality(),
            },
    {
        self.finality_engine.update_l1_confirmation(batch_id, block_number, confirmations)
    }

    /// Credits the finality engine with the validators' aggregate stake;
    /// nothing else moves.
    pub fn set_aggregate_stake(&mut self, stake: u64)
        requires
            old(self).wf(),
        ensures
            final(self).wf(),
            final(self).spec_pool_pending() == old(self).spec_pool_pending(),
            final(self).spec_pool_priority() == old(self).spec_pool_priority(),
            final(self).spec_pending_batches() == old(self).spec_pending_batches(),
            final(self).spec_submitted_batches() == old(self).spec_submitted_batches(),
            final(self).spec_finalized_batches() == old(self).spec_finalized_batches(),
            final(self).spec_state_manager() == old(self).spec_state_manager(),
            final(self).spec_rollup() == old(self).spec_rollup(),
            final(self).spec_finality().spec_aggregate_stake() == stake,
            final(self).spec_finality().spec_pending() == old(self).spec_finality().spec_pending(),
            final(self).spec_finality().spec_challenges() == old(self).spec_finality().spec_challenges(),
            final(self).spec_finality().spec_finalized() == old(self).spec_finality().spec_finalized(),
            final(self).spec_finality().spec_requirements() == old(self).spec_finality().spec_requirements(),
            final(self).spec_finality().spec_stake_threshold() == old(self).spec_finality().spec_stake_threshold(),
            final(self).spec_finality().spec_absolute_elapsed_ms() == old(self).spec_finality().spec_absolute_elapsed_ms(),
    {
        self.finality_engine.set_aggregate_stake(stake);
    }

    /// The in-flight records younger than an hour at `now`, in order.
    pub open spec fn spec_fresh_processing(
        s: Seq<ProcessingTransaction>,
        now: u64,
    ) -> Seq<ProcessingTransaction>
        decreases s.len(),
    {
        if s.len() == 0 {
            Seq::empty()
        } else {
            let rest = Self::spec_fresh_processing(s.drop_first(), now);
            let age: int = if now >= s.first().started_at {
                now - s.first().started_at
            } else {
                0
            };
            if age < 3600000 {
                seq![s.first()] + rest
            } else {
                rest
            }
        }
    }

    /// Drops the in-flight records older than an hour; exactly the
    /// younger ones stay, in order.
    pub fn cleanup_expired_data(&mut self, now: u64)
        requires
            old(self).wf(),
        ensures
            final(self).wf(),
            final(self).spec_processing() == Self::spec_fresh_processing(
                old(self).spec_processing(),
                now,
            ),
            final(self).spec_pool_pending() == old(self).spec_pool_pending(),
            final(self).spec_pool_priority() == old(self).spec_pool_priority(),
            final(self).spec_pending_batches() == old(self).spec_pending_batches(),
            final(self).spec_submitted_batches() == old(self).spec_submitted_batches(),
            final(self).spec_finalized_batches() == old(self).spec_finalized_batches(),
            final(self).spec_state_manager() == old(self).spec_state_manager(),
            final(self).spec_rollup() == old(self).spec_rollup(),
            final(self).spec_finality() == old(self).spec_finality(),
    {
        let mut kept: Vec<ProcessingTransaction> = Vec::new();
        let mut rest: Vec<ProcessingTransaction> = Vec::new();
        core::mem::swap(&mut rest, &mut self.processing);
        let ghost all = rest@;
        while rest.len() > 0
            invariant
                (L2SettlementEngine { processing: old(self).processing, ..*self }) == *old(self),
                kept@ + Self::spec_fresh_processing(rest@, now) == Self::spec_fresh_processing(
                    all,
                    now,
                ),
                all == old(self).processing@,
            decreases rest@.len(),
        {
            let ghost rest_pre = rest@;
            let e = rest.remove(0);
            proof {
                assert(rest@ =~= rest_pre.drop_first());
                assert(rest_pre.first() == e);
            }
            let age: u64 = if now >= e.started_at {
                now - e.started_at
            } else {
                0
            };
            if age < 3600000 {
                let ghost kept_pre = kept@;
                kept.push(e);
                proof {
                    assert(kept@ + Self::spec_fresh_processing(rest@, now) =~= kept_pre + (seq![
                        e,
                    ] + Self::spec_fresh_processing(rest@, now)));
                }
            }
        }
        proof {
            assert(Self::spec_fresh_processing(rest@, now)
                =~= Seq::<ProcessingTransaction>::empty());
            assert(kept@ + Seq::<ProcessingTransaction>::empty() =~= kept@);
        }
        self.processing = kept;
    }

    /// Counts over the pipeline's collections.
    pub fn get_settlement_statistics(&self) -> (r: SettlementStatistics)
        ensures
            r.pending_transactions == self.spec_pool_size(),
            r.processing_transactions == self.spec_processing().len(),
            r.pending_batches == self.spec_pending_batches().len(),
            r.submitted_batches == self.spec_submitted_batches().len(),
            r.finalized_batches == self.spec_finalized_batches().len(),
    {
        SettlementStatistics {
            pending_transactions: self.pool_size,
            processing_transactions: self.processing.len(),
            pending_batches: self.pending_batches.len(),
            submitted_batches: self.submitted_batches.len(),
            finalized_batches: self.finalized_batches.len(),
            total_processed: self.total_processed,
            total_failed: self.total_failed,
        }
    }

    /// Whether the engine is serviceable: the pool below capacity and
    /// every component healthy.
    pub fn is_healthy(&self) -> (r: bool)
        requires
            self.wf(),
        ensures
            r == (self.spec_pool_size() < self.spec_max_pending()
                && self.spec_rollup().spec_root().len() == 32
                && self.spec_rollup().spec_challenges().len() < 100
                && self.zk_healthy_condition() && self.finality_healthy_condition()
                && self.spec_validators().len() > 0 && self.manager_healthy_condition()),
    {
        self.pool_size < self.config.max_pending_transactions
            && self.optimistic_rollup.is_healthy() && self.zk_proof_system.is_healthy()
            && self.finality_engine.is_healthy() && self.batch_processor.is_healthy()
            && self.state_manager.is_healthy()
    }
}

impl L2SettlementEngine {
    /// The proof system's serviceability condition.
    pub closed spec fn zk_healthy_condition(self) -> bool {
        self.zk_proof_system.spec_requests().len() < 1000 && self.zk_proof_system.spec_cache().len()
            < 10000
    }

    /// The finality engine's serviceability condition.
    pub closed spec fn finality_healthy_condition(self) -> bool {
        self.finality_engine.spec_pending().len() < 1000
            && self.finality_engine.spec_challenges().len() < 100
    }

    /// The state manager's serviceability condition.
    pub closed spec fn manager_healthy_condition(self) -> bool {
        self.state_manager.spec_state()@.state_root.len() == 32
            && self.state_manager.spec_state()@.block_number < u64::MAX
    }
}

/// Law: for any sender, once a transaction with some nonce is admitted —
/// so the tracker records that nonce — a second submission carrying the
/// same nonce cannot pass the admission nonce check, while a submission
/// carrying the next nonce passes it.
pub proof fn lemma_nonce_ordering(
    after_first: L2SettlementEngine,
    first: Transaction,
    duplicate: Transaction,
    successor: Transaction,
)
    requires
        after_first.spec_tracked_nonce(first.from_address.0@) == first.nonce,
        duplicate.from_address == first.from_address,
        duplicate.nonce == first.nonce,
        successor.from_address == first.from_address,
        successor.nonce == first.nonce + 1,
        first.nonce < u64::MAX,
    ensures
        !(after_first.spec_tracked_nonce(duplicate.from_address.0@) < u64::MAX && duplicate.nonce
            == after_first.spec_tracked_nonce(duplicate.from_address.0@) + 1),
        after_first.spec_tracked_nonce(successor.from_address.0@) < u64::MAX && successor.nonce
            == after_first.spec_tracked_nonce(successor.from_address.0@) + 1,
{
}

} // verus!
