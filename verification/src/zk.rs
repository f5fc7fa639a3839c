use vstd::prelude::*;

use crate::batch::{append_bytes, append_u64, SettlementBatch};
use crate::config::SettlementConfig;
use crate::error::SettlementError;
use crate::state::{bytes_eq, copy_bytes};
use crate::types::u64_be8;

verus! {

/// What a proof attests.
#[derive(Debug, Clone, Copy, PartialEq, Eq, Structural)]
pub enum ProofType {
    /// One transaction is valid.
    TransactionValidity,
    /// A state transition is correct.
    StateTransition,
    /// A balance bound holds.
    BalanceProof,
    /// Membership in a set.
    MembershipProof,
    /// A value lies in a range.
    RangeProof,
    /// Several proofs folded into one.
    AggregatedProof,
    /// A proof about proofs.
    RecursiveProof,
}

/// How much a proof hides.
#[derive(Debug, Clone, Copy, PartialEq, Eq, Structural)]
pub enum PrivacyLevel {
    /// Everything visible.
    Public,
    /// Parties pseudonymous.
    Pseudonymous,
    /// Parties hidden.
    Anonymous,
    /// Everything hidden.
    FullyPrivate,
}

/// Bookkeeping attached to a proof.
#[derive(Debug)]
pub struct ProofMetadata {
    /// The circuit that produced it.
    pub circuit_name: String,
    /// The serialized proof's size in bytes.
    pub proof_size: usize,
    /// How long generation took, in milliseconds.
    pub generation_time_ms: u64,
    /// How long verification took, once measured, in milliseconds.
    pub verification_time_ms: Option<u64>,
    /// Estimated on-chain verification gas.
    pub gas_cost_estimate: u64,
    /// How much the proof hides.
    pub privacy_level: PrivacyLevel,
}

/// A settlement attestation. The attestation scheme is pluggable; this
/// producer is the stub scheme, whose proofs carry empty proof data and
/// whose strength lies only in the committed public inputs.
#[derive(Debug)]
pub struct ZKProof {
    /// Opaque identifier of the proof.
    pub proof_id: u64,
    /// What the proof attests.
    pub proof_type: ProofType,
    /// The serialized proof; empty under the stub scheme.
    pub proof_data: Vec<u8>,
    /// The public inputs the proof commits to.
    pub public_inputs: Vec<u8>,
    /// The verification key it pairs with.
    pub verification_key_id: u64,
    /// When it was produced, in milliseconds.
    pub created_at: u64,
    /// When it lapses, if it does, in milliseconds.
    pub expires_at: Option<u64>,
    /// Bookkeeping.
    pub metadata: ProofMetadata,
}

/// Where a requested proof stands.
#[derive(Debug, Clone, PartialEq, Eq)]
pub enum ProofStatus {
    /// Queued.
    Pending,
    /// Being produced.
    Generating,
    /// Done.
    Completed,
    /// Given up, with the reason.
    Failed(String),
}

/// The urgency of a proof request.
#[derive(Debug, Clone, Copy, PartialEq, Eq, Structural)]
pub enum ProofPriority {
    /// Whenever convenient.
    Low,
    /// The default.
    Normal,
    /// Ahead of normal work.
    High,
    /// Ahead of everything.
    Critical,
}

/// One queued proof request.
#[derive(Debug)]
pub struct ProofRequest {
    /// Opaque identifier of the request.
    pub request_id: u64,
    /// What to prove.
    pub proof_type: ProofType,
    /// Its urgency.
    pub priority: ProofPriority,
    /// Where it stands.
    pub status: ProofStatus,
}

/// One cached batch attestation, keyed by the batch's id together with
/// the roots, count and gas its public inputs commit to.
#[derive(Debug)]
pub struct CachedBatchProof {
    /// The batch attested.
    pub batch_id: u64,
    /// The claimed post-root.
    pub state_root: Vec<u8>,
    /// The starting root.
    pub previous_state_root: Vec<u8>,
    /// The committed transaction count.
    pub transaction_count: u64,
    /// The committed gas.
    pub gas_used: u64,
    /// The cached proof.
    pub proof: ZKProof,
}

/// The public inputs a batch attestation commits to: the starting root,
/// the claimed post-root, the transaction count and the gas, in that
/// order.
pub open spec fn spec_public_inputs(
    previous_state_root: Seq<u8>,
    state_root: Seq<u8>,
    transaction_count: u64,
    gas_used: u64,
) -> Seq<u8> {
    previous_state_root + state_root + u64_be8(transaction_count) + u64_be8(gas_used)
}

/// Produces and verifies settlement attestations. Generation is cached by
/// batch id and roots; the scheme is the pluggable stub, so proof data is
/// empty and the value lies in the committed public inputs.
pub struct ZKProofSystem {
    config: SettlementConfig,
    cache: Vec<CachedBatchProof>,
    requests: Vec<ProofRequest>,
    next_proof_id: u64,
    next_request_id: u64,
    max_concurrent_generations: u64,
}

impl ZKProofSystem {
    /// Every cached proof is a stub state-transition attestation whose
    /// public inputs commit to its cache key.
    pub closed spec fn wf(self) -> bool {
        forall|j: int|
            0 <= j < self.cache@.len() ==> (#[trigger] self.cache@[j]).proof.proof_type
                == ProofType::StateTransition && self.cache@[j].proof.proof_data@.len() == 0
                && self.cache@[j].proof.public_inputs@ == spec_public_inputs(
                self.cache@[j].previous_state_root@,
                self.cache@[j].state_root@,
                self.cache@[j].transaction_count,
                self.cache@[j].gas_used,
            )
    }

    /// The cached attestations.
    pub closed spec fn spec_cache(self) -> Seq<CachedBatchProof> {
        self.cache@
    }

    /// The queued requests.
    pub closed spec fn spec_requests(self) -> Seq<ProofRequest> {
        self.requests@
    }

    /// The id the next proof will carry.
    pub closed spec fn spec_next_proof_id(self) -> u64 {
        self.next_proof_id
    }

    /// The generation concurrency bound.
    pub closed spec fn spec_max_concurrent_generations(self) -> u64 {
        self.max_concurrent_generations
    }

    /// A proof system with an empty cache and queue, and room for ten
    /// concurrent generations.
    pub fn new(config: &SettlementConfig) -> (r: ZKProofSystem)
        ensures
            r.wf(),
            r.spec_cache().len() == 0,
            r.spec_requests().len() == 0,
            r.spec_next_proof_id() == 1,
            r.spec_max_concurrent_generations() == 10,
    {
        ZKProofSystem {
            config: *config,
            cache: Vec::new(),
            requests: Vec::new(),
            next_proof_id: 1,
            next_request_id: 1,
            max_concurrent_generations: 10,
        }
    }

    /// Produces the attestation for a batch: empty proof data under the
    /// stub scheme, and public inputs committing to the batch's roots,
    /// transaction count and gas. A batch already attested — same id,
    /// same roots, same count and gas — is answered from the cache with
    /// the proof produced then.
    pub fn generate_batch_proof(&mut self, batch: &SettlementBatch, now: u64) -> (r: ZKProof)
        requires
            old(self).wf(),
        ensures
            final(self).wf(),
            r.proof_type == ProofType::StateTransition,
            r.proof_data@.len() == 0,
            r.public_inputs@ == spec_public_inputs(
                batch.previous_state_root@,
                batch.state_root@,
                batch.transactions@.len() as u64,
                batch.gas_used,
            ),
    {
        let tx_count = batch.transactions.len() as u64;
        let n = self.cache.len();
        let mut i: usize = 0;
        while i < n
            invariant
                *self == *old(self),
                self.wf(),
                tx_count == batch.transactions@.len(),
                n == self.cache@.len(),
                0 <= i <= n,
            decreases n - i,
        {
            if self.cache[i].batch_id == batch.batch_id && bytes_eq(
                &self.cache[i].state_root,
                &batch.state_root,
            ) && bytes_eq(&self.cache[i].previous_state_root, &batch.previous_state_root)
                && self.cache[i].transaction_count == tx_count && self.cache[i].gas_used
                == batch.gas_used {
                return self.duplicate_proof_at(i);
            }
            i = i + 1;
        }
        let mut inputs: Vec<u8> = Vec::new();
        append_bytes(&mut inputs, &batch.previous_state_root);
        append_bytes(&mut inputs, &batch.state_root);
        append_u64(&mut inputs, tx_count);
        append_u64(&mut inputs, batch.gas_used);
        proof {
            assert(inputs@ =~= spec_public_inputs(
                batch.previous_state_root@,
                batch.state_root@,
                tx_count,
                batch.gas_used,
            ));
        }
        let pid = self.next_proof_id;
        self.next_proof_id = if self.next_proof_id < u64::MAX {
            self.next_proof_id + 1
        } else {
            u64::MAX
        };
        proof {
            reveal_strlit("state_transition");
        }
        let stored = ZKProof {
            proof_id: pid,
            proof_type: ProofType::StateTransition,
            proof_data: Vec::new(),
            public_inputs: copy_bytes(&inputs),
            verification_key_id: 1,
            created_at: now,
            expires_at: None,
            metadata: ProofMetadata {
                circuit_name: String::from_str("state_transition"),
                proof_size: 0,
                generation_time_ms: 0,
                verification_time_ms: None,
                gas_cost_estimate: 100000,
                privacy_level: PrivacyLevel::Pseudonymous,
            },
        };
        let returned = ZKProof {
            proof_id: pid,
            proof_type: ProofType::StateTransition,
            proof_data: Vec::new(),
            public_inputs: inputs,
            verification_key_id: 1,
            created_at: now,
            expires_at: None,
            metadata: ProofMetadata {
                circuit_name: String::from_str("state_transition"),
                proof_size: 0,
                generation_time_ms: 0,
                verification_time_ms: None,
                gas_cost_estimate: 100000,
                privacy_level: PrivacyLevel::Pseudonymous,
            },
        };
        self.cache.push(
            CachedBatchProof {
                batch_id: batch.batch_id,
                state_root: copy_bytes(&batch.state_root),
                previous_state_root: copy_bytes(&batch.previous_state_root),
                transaction_count: tx_count,
                gas_used: batch.gas_used,
                proof: stored,
            },
        );
        returned
    }

    /// A copy of the cached proof at `i`.
    fn duplicate_proof_at(&self, i: usize) -> (r: ZKProof)
        requires
            i < self.spec_cache().len(),
        ensures
            r.proof_type == self.spec_cache()[i as int].proof.proof_type,
            r.proof_data@ == self.spec_cache()[i as int].proof.proof_data@,
            r.public_inputs@ == self.spec_cache()[i as int].proof.public_inputs@,
    {
        let p = &self.cache[i].proof;
        ZKProof {
            proof_id: p.proof_id,
            proof_type: p.proof_type,
            proof_data: copy_bytes(&p.proof_data),
            public_inputs: copy_bytes(&p.public_inputs),
            verification_key_id: p.verification_key_id,
            created_at: p.created_at,
            expires_at: p.expires_at,
            metadata: ProofMetadata {
                circuit_name: String::from_str(p.metadata.circuit_name.as_str()),
                proof_size: p.metadata.proof_size,
                generation_time_ms: p.metadata.generation_time_ms,
                verification_time_ms: p.metadata.verification_time_ms,
                gas_cost_estimate: p.metadata.gas_cost_estimate,
                privacy_level: p.metadata.privacy_level,
            },
        }
    }

    /// Verifies an attestation under the stub scheme: the proof is
    /// accepted exactly when its public inputs are long enough to commit
    /// to two roots, a count and a gas figure. The real scheme is an
    /// external requirement; nothing stronger is claimed here.
    pub fn verify_proof(&self, proof: &ZKProof) -> (r: bool)
        ensures
            r == (proof.public_inputs@.len() >= 80),
    {
        proof.public_inputs.len() >= 80
    }

    /// Folds several attestations into one whose public inputs are the
    /// concatenation of theirs. Every input is verified first: an empty
    /// list is refused, and so is a list holding any proof the verifier
    /// rejects.
    pub fn aggregate_proofs(&mut self, proofs: &Vec<ZKProof>, now: u64) -> (r: Result<
        ZKProof,
        SettlementError,
    >)
        requires
            old(self).wf(),
        ensures
            final(self).wf(),
            match r {
                Ok(p) => proofs@.len() > 0 && (forall|i: int|
                    0 <= i < proofs@.len() ==> (#[trigger] proofs@[i].public_inputs@).len() >= 80)
                    && p.proof_type == ProofType::AggregatedProof && p.proof_data@.len() == 0
                    && p.public_inputs@ == spec_concat_inputs(proofs@),
                Err(SettlementError::NothingToAggregate) => proofs@.len() == 0,
                Err(SettlementError::InvalidProofInAggregation) => proofs@.len() > 0 && (exists|i: int|
                    0 <= i < proofs@.len() && (#[trigger] proofs@[i].public_inputs@).len() < 80),
                Err(_) => false,
            },
    {
        if proofs.len() == 0 {
            return Err(SettlementError::NothingToAggregate);
        }
        let vn = proofs.len();
        let mut vi: usize = 0;
        while vi < vn
            invariant
                *self == *old(self),
                old(self).wf(),
                vn == proofs@.len(),
                0 <= vi <= vn,
                forall|i: int|
                    0 <= i < vi ==> (#[trigger] proofs@[i].public_inputs@).len() >= 80,
            decreases vn - vi,
        {
            if !self.verify_proof(&proofs[vi]) {
                return Err(SettlementError::InvalidProofInAggregation);
            }
            vi = vi + 1;
        }
        let mut inputs: Vec<u8> = Vec::new();
        let n = proofs.len();
        let mut i: usize = 0;
        while i < n
            invariant
                n == proofs@.len(),
                0 <= i <= n,
                inputs@ == spec_concat_inputs(proofs@.take(i as int)),
            decreases n - i,
        {
            proof {
                assert(proofs@.take(i + 1).drop_last() =~= proofs@.take(i as int));
                assert(proofs@.take(i + 1).last() == proofs@[i as int]);
            }
            append_bytes(&mut inputs, &proofs[i].public_inputs);
            i = i + 1;
        }
        proof {
            assert(proofs@.take(n as int) =~= proofs@);
        }
        let pid = self.next_proof_id;
        self.next_proof_id = if self.next_proof_id < u64::MAX {
            self.next_proof_id + 1
        } else {
            u64::MAX
        };
        proof {
            reveal_strlit("aggregation");
        }
        Ok(
            ZKProof {
                proof_id: pid,
                proof_type: ProofType::AggregatedProof,
                proof_data: Vec::new(),
                public_inputs: inputs,
                verification_key_id: 2,
                created_at: now,
                expires_at: None,
                metadata: ProofMetadata {
                    circuit_name: String::from_str("aggregation"),
                    proof_size: 0,
                    generation_time_ms: 0,
                    verification_time_ms: None,
                    gas_cost_estimate: 200000,
                    privacy_level: PrivacyLevel::Pseudonymous,
                },
            },
        )
    }

    /// Queues a proof request and returns its id.
    pub fn submit_proof_request(&mut self, proof_type: ProofType, priority: ProofPriority) -> (r:
        u64)
        requires
            old(self).wf(),
        ensures
            final(self).wf(),
            final(self).spec_requests().len() == old(self).spec_requests().len() + 1,
            final(self).spec_requests().last().request_id == r,
            final(self).spec_requests().last().proof_type == proof_type,
            final(self).spec_requests().last().priority == priority,
            final(self).spec_requests().last().status == ProofStatus::Pending,
            forall|i: int|
                0 <= i < old(self).spec_requests().len() ==> final(self).spec_requests()[i] == old(
                    self,
                ).spec_requests()[i],
    {
        let rid = self.next_request_id;
        self.next_request_id = if self.next_request_id < u64::MAX {
            self.next_request_id + 1
        } else {
            u64::MAX
        };
        self.requests.push(
            ProofRequest { request_id: rid, proof_type, priority, status: ProofStatus::Pending },
        );
        rid
    }

    /// Where a queued request stands. Refused exactly when no request
    /// carries the id.
    pub fn get_proof_status(&self, request_id: u64) -> (r: Result<ProofStatus, SettlementError>)
        ensures
            match r {
                Ok(st) => exists|i: int|
                    0 <= i < self.spec_requests().len() && (#[trigger] self.spec_requests()[i]).request_id
                        == request_id && status_matches(st, self.spec_requests()[i].status),
                Err(e) => e == SettlementError::ProofRequestNotFound && (forall|i: int|
                    0 <= i < self.spec_requests().len() ==> (#[trigger] self.spec_requests()[i]).request_id
                        != request_id),
            },
    {
        let n = self.requests.len();
        let mut i: usize = 0;
        while i < n
            invariant
                n == self.requests@.len(),
                0 <= i <= n,
                forall|j: int| 0 <= j < i ==> (#[trigger] self.requests@[j]).request_id
                    != request_id,
            decreases n - i,
        {
            if self.requests[i].request_id == request_id {
                let st = match &self.requests[i].status {
                    ProofStatus::Pending => ProofStatus::Pending,
                    ProofStatus::Generating => ProofStatus::Generating,
                    ProofStatus::Completed => ProofStatus::Completed,
                    ProofStatus::Failed(reason) => ProofStatus::Failed(
                        String::from_str(reason.as_str()),
                    ),
                };
                proof {
                    let wi = i as int;
                    assert(0 <= wi < self.spec_requests().len());
                    assert(self.spec_requests()[wi].request_id == request_id);
                    assert(status_matches(st, self.spec_requests()[wi].status));
                }
                return Ok(st);
            }
            i = i + 1;
        }
        Err(SettlementError::ProofRequestNotFound)
    }

    /// Whether the proof system is serviceable.
    pub fn is_healthy(&self) -> (r: bool)
        ensures
            r == (self.spec_requests().len() < 1000 && self.spec_cache().len() < 10000),
    {
        self.requests.len() < 1000 && self.cache.len() < 10000
    }
}

/// Two request statuses agree, reasons compared by content.
pub open spec fn status_matches(a: ProofStatus, b: ProofStatus) -> bool {
    match (a, b) {
        (ProofStatus::Pending, ProofStatus::Pending) => true,
        (ProofStatus::Generating, ProofStatus::Generating) => true,
        (ProofStatus::Completed, ProofStatus::Completed) => true,
        (ProofStatus::Failed(x), ProofStatus::Failed(y)) => x@ == y@,
        _ => false,
    }
}

/// The concatenated public inputs of a proof list, in order.
pub open spec fn spec_concat_inputs(ps: Seq<ZKProof>) -> Seq<u8>
    decreases ps.len(),
{
    if ps.len() == 0 {
        Seq::empty()
    } else {
        spec_concat_inputs(ps.drop_last()) + ps.last().public_inputs@
    }
}

} // verus!
