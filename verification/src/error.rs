use vstd::prelude::*;

verus! {

/// Errors raised by the settlement pipeline. Admission failures name the
/// check that refused the transaction; consistency failures are fatal for
/// the offending update and never applied silently.
#[derive(Debug, Clone, Copy, PartialEq, Eq, Structural)]
pub enum SettlementError {
    /// The admission pool is at capacity.
    PoolFull,
    /// The transaction's nonce is not the tracked nonce plus one.
    NonceMismatch { expected: u64, got: u64 },
    /// The external policy check refused the transaction.
    PolicyRejected,
    /// The transferred amount is zero.
    ZeroAmount,
    /// The gas limit is zero.
    ZeroGasLimit,
    /// The transaction carries no signature.
    MissingSignature,
    /// An update's claimed pre-root differs from the current root.
    StateRootMismatch,
    /// A rollback target at or past the current block.
    RollbackTargetInFuture,
    /// No retained snapshot lies at or before the rollback target.
    NoSnapshotForTarget,
    /// A batch with no transactions.
    EmptyBatch,
    /// A state root that is not 32 bytes.
    InvalidStateRootLength,
    /// A merkle proof that does not match the batch's transactions.
    InvalidMerkleProof,
    /// A batch whose previous root is not the current canonical root.
    PreviousRootMismatch,
    /// A challenge staked below the required minimum.
    InsufficientStake,
    /// The named batch is not known.
    BatchNotFound,
    /// The named batch is already finalized.
    BatchAlreadyFinalized,
    /// The named challenge is not known.
    ChallengeNotFound,
    /// The batch still has an open challenge against it.
    ChallengeStillOpen,
    /// The batch was proven fraudulent and reverted; terminal.
    BatchReverted,
    /// The named transaction is not known to any pipeline stage.
    TransactionNotFound,
    /// An aggregation over no proofs.
    NothingToAggregate,
    /// An aggregation over a proof the verifier rejects.
    InvalidProofInAggregation,
    /// The named proof request is not known.
    ProofRequestNotFound,
}

/// Errors crossing the foreign-function boundary to the execution runtime.
#[derive(Debug, Clone, PartialEq, Eq)]
pub enum FfiError {
    /// A null pointer was handed across the boundary.
    NullPointer,
    /// A buffer of unexpected length.
    InvalidDataLength { expected: usize, actual: usize },
    /// The runtime could not allocate.
    MemoryAllocation,
    /// A string crossing the boundary was not valid UTF-8.
    InvalidUtf8,
    /// A failure reported by the execution runtime.
    GhostPlane(String),
    /// A bare result code from the runtime.
    ResultCode { code: i32 },
    /// A memory-safety violation was detected.
    MemorySafety(String),
}

/// Errors from the auxiliary chain services.
#[derive(Debug, Clone, PartialEq, Eq)]
pub enum ServiceError {
    /// The chain daemon failed.
    Ghostd(String),
    /// The wallet daemon failed.
    Walletd(String),
    /// The identity service failed.
    Gid(String),
    /// The naming service failed.
    Cns(String),
    /// The balance ledger failed.
    Gledger(String),
    /// The signature service failed.
    Gsig(String),
    /// The named service is unavailable.
    ServiceUnavailable { service: String },
    /// The named service refused authentication.
    AuthenticationFailed { service: String },
}

/// Errors in cross-chain coordination.
#[derive(Debug, Clone, PartialEq, Eq)]
pub enum CrossChainError {
    /// The chain is not supported.
    UnsupportedChain { chain_id: u64 },
    /// The chain is known but unreachable.
    ChainUnavailable { chain_id: u64 },
    /// The transaction is invalid for the chain.
    InvalidTransaction { chain_id: u64, reason: String },
    /// A bridge operation failed.
    BridgeOperationFailed { operation: String },
    /// The asset is not supported on the chain.
    UnsupportedAsset { chain_id: u64, asset: String },
    /// Not enough liquidity for the asset on the chain.
    InsufficientLiquidity { chain_id: u64, asset: String },
    /// A lock proof failed verification.
    LockProofVerificationFailed,
    /// A cross-chain message timed out.
    MessageTimeout,
}

/// Errors from the security framework.
#[derive(Debug, Clone, PartialEq, Eq)]
pub enum SecurityError {
    /// Guardian authentication failed.
    GuardianAuthFailed(String),
    /// A privacy policy was violated.
    PrivacyPolicyViolation { policy: String },
    /// Identity verification failed.
    IdentityVerificationFailed { identity: String },
    /// A signature failed verification.
    SignatureVerificationFailed,
    /// A cryptographic operation was invalid.
    CryptographicOperation(String),
    /// Key derivation failed.
    KeyDerivationFailed(String),
    /// Encryption failed.
    EncryptionFailed(String),
    /// Decryption failed.
    DecryptionFailed(String),
    /// The caller's trust level is below what the operation requires.
    InsufficientTrustLevel { required: u8, actual: u8 },
}

/// Errors of the token economy.
#[derive(Debug, Clone, PartialEq, Eq)]
pub enum TokenError {
    /// The balance does not cover the required amount.
    InsufficientBalance { token: String, required: String, available: String },
    /// The token kind is not known.
    InvalidTokenType { token: String },
    /// A transfer failed.
    TransferFailed(String),
    /// Gas could not be priced in the token.
    GasCalculationFailed { token: String, reason: String },
    /// Fee distribution failed.
    FeeDistributionFailed(String),
    /// No price is available for the token.
    PricingUnavailable { token: String },
    /// The amount is not valid for the token.
    InvalidAmount { amount: String },
}

} // verus!
