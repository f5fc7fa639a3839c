use vstd::prelude::*;

use crate::types::{Address, U256};

verus! {

/// The signature schemes the framework can prefer.
#[derive(Debug, Clone, Copy, PartialEq, Eq, Structural)]
pub enum SignatureScheme {
    /// Edwards-curve signatures.
    Ed25519,
    /// The secp256k1 curve.
    Secp256k1,
    /// Pairing-based aggregate signatures.
    BLS12381,
    /// A post-quantum lattice scheme.
    Dilithium,
}

/// Settings of the zero-trust security framework.
#[derive(Debug, Clone)]
pub struct GuardianConfig {
    /// Every request is checked, none trusted by origin.
    pub enable_zero_trust: bool,
    /// Senders must hold a verified identity.
    pub require_identity_verification: bool,
    /// Trust score a sender must reach, on a ten-point scale.
    pub trust_level_threshold: u8,
    /// Privacy policies are enforced, not advisory.
    pub privacy_policy_enforcement: bool,
    /// Only data the operation needs is read.
    pub data_minimization: bool,
    /// Consent is recorded and honoured.
    pub consent_tracking: bool,
    /// Every operation is audited.
    pub audit_all_operations: bool,
    /// How long audit records are kept, in days.
    pub audit_retention_days: u32,
    /// Events are watched as they happen.
    pub real_time_monitoring: bool,
    /// The signature scheme preferred for new keys.
    pub preferred_signature_scheme: SignatureScheme,
    /// Payloads must be encrypted.
    pub encryption_required: bool,
    /// How often keys rotate, in milliseconds.
    pub key_rotation_interval_ms: u64,
    /// The guardian endpoints consulted for decisions.
    pub guardian_endpoints: Vec<String>,
    /// Fallback guardians.
    pub backup_guardians: Vec<String>,
    /// The largest transaction admitted by policy.
    pub max_transaction_amount: U256,
    /// Suspicious events per window before lockdown.
    pub suspicious_activity_threshold: u32,
    /// Whether lockdown engages on its own.
    pub automatic_lockdown: bool,
}

impl Default for GuardianConfig {
    /// The stock posture: zero trust on, identity verification required,
    /// a trust threshold of seven.
    fn default() -> (r: GuardianConfig)
        ensures
            r.enable_zero_trust,
            r.require_identity_verification,
            r.trust_level_threshold == 7,
            r.audit_retention_days == 365,
            r.suspicious_activity_threshold == 10,
            r.automatic_lockdown,
    {
        GuardianConfig {
            enable_zero_trust: true,
            require_identity_verification: true,
            trust_level_threshold: 7,
            privacy_policy_enforcement: true,
            data_minimization: true,
            consent_tracking: true,
            audit_all_operations: true,
            audit_retention_days: 365,
            real_time_monitoring: true,
            preferred_signature_scheme: SignatureScheme::Ed25519,
            encryption_required: true,
            key_rotation_interval_ms: 2592000000,
            guardian_endpoints: Vec::new(),
            backup_guardians: Vec::new(),
            max_transaction_amount: U256::from(1000000000000000000),
            suspicious_activity_threshold: 10,
            automatic_lockdown: true,
        }
    }
}

/// How severe a detected threat is.
#[derive(Debug, Clone, Copy, PartialEq, Eq, Structural)]
pub enum ThreatLevel {
    /// Routine.
    Low,
    /// Worth watching.
    Medium,
    /// Needs action.
    High,
    /// Needs action now.
    Critical,
}

/// What kind of incident was detected.
#[derive(Debug, Clone, Copy, PartialEq, Eq, Structural)]
pub enum IncidentType {
    /// A transaction matching a threat pattern.
    SuspiciousTransaction,
    /// An identity that failed verification.
    IdentityVerificationFailure,
    /// A policy was broken.
    PolicyViolation,
    /// Access without authority.
    UnauthorizedAccess,
    /// Behaviour outside known patterns.
    AnomalousPattern,
    /// A likely attack in progress.
    PotentialAttack,
}

/// One detected security incident.
#[derive(Debug, Clone)]
pub struct SecurityIncident {
    /// Opaque identifier.
    pub id: u64,
    /// What happened.
    pub incident_type: IncidentType,
    /// How severe it is.
    pub severity: ThreatLevel,
    /// The accounts involved.
    pub affected_addresses: Vec<Address>,
    /// A human-readable account of it.
    pub description: String,
    /// When it was detected, in milliseconds.
    pub detected_at: u64,
    /// When it was resolved, if it was, in milliseconds.
    pub resolved_at: Option<u64>,
    /// What was done about it.
    pub mitigation_actions: Vec<String>,
}

/// The policy engine's verdict on one transaction.
#[derive(Debug, Clone)]
pub struct PolicyResult {
    /// Whether the transaction complies.
    pub compliant: bool,
    /// The policies it broke.
    pub violations: Vec<String>,
    /// What must happen before it may proceed.
    pub required_actions: Vec<String>,
    /// The policies that applied.
    pub applicable_policies: Vec<String>,
}

/// The security system's current posture.
#[derive(Debug, Clone)]
pub struct SecurityStatus {
    /// The prevailing threat level.
    pub threat_level: ThreatLevel,
    /// Unresolved incidents.
    pub active_incidents: usize,
    /// Accounts under lock.
    pub locked_addresses: usize,
    /// Transactions held back.
    pub quarantined_transactions: usize,
    /// When the last sweep ran, in milliseconds.
    pub last_scan: u64,
    /// The guardian subsystem answers.
    pub guardian_healthy: bool,
    /// The identity subsystem answers.
    pub identity_system_healthy: bool,
    /// The policy subsystem answers.
    pub policy_engine_healthy: bool,
    /// The audit subsystem answers.
    pub audit_system_healthy: bool,
}

/// Health of the security subsystems.
#[derive(Debug, Clone)]
pub struct SecurityHealth {
    /// Every subsystem answers.
    pub overall_healthy: bool,
    /// The guardian subsystem answers.
    pub guardian_healthy: bool,
    /// The identity subsystem answers.
    pub identity_healthy: bool,
    /// The policy subsystem answers.
    pub policy_healthy: bool,
    /// The audit subsystem answers.
    pub audit_healthy: bool,
    /// The key subsystem answers.
    pub crypto_healthy: bool,
}

/// A public key the framework holds.
#[derive(Debug, Clone)]
pub struct PublicKey {
    /// Opaque identifier.
    pub key_id: u64,
    /// The key bytes.
    pub key_data: Vec<u8>,
    /// The scheme it belongs to.
    pub algorithm: SignatureScheme,
    /// When it was created, in milliseconds.
    pub created_at: u64,
    /// When it lapses, if it does, in milliseconds.
    pub expires_at: Option<u64>,
}

/// What a key is for.
#[derive(Debug, Clone, Copy, PartialEq, Eq, Structural)]
pub enum KeyPurpose {
    /// Producing signatures.
    Signing,
    /// Encrypting payloads.
    Encryption,
    /// Agreeing on shared secrets.
    KeyExchange,
    /// Proving possession.
    Authentication,
    /// Deriving further keys.
    Derivation,
}

/// What kind of decision the guardians are asked for.
#[derive(Debug, Clone, Copy, PartialEq, Eq, Structural)]
pub enum SecurityDecisionType {
    /// Admit or refuse a transaction.
    TransactionApproval,
    /// Confirm or refuse an identity.
    IdentityVerification,
    /// Judge a policy violation.
    PolicyViolation,
    /// Choose a threat response.
    ThreatResponse,
    /// Halt the system.
    EmergencyHalt,
}

/// Where a guardian decision stands.
#[derive(Debug, Clone, Copy, PartialEq, Eq, Structural)]
pub enum DecisionStatus {
    /// Awaiting confirmations.
    Pending,
    /// Enough guardians confirmed.
    Approved,
    /// Enough guardians refused.
    Rejected,
    /// The window lapsed first.
    Timeout,
}

/// One guardian's confirmation on a decision.
#[derive(Debug, Clone)]
pub struct GuardianConfirmation {
    /// The confirming guardian.
    pub guardian_id: u64,
    /// Its signature over the decision.
    pub signature: Vec<u8>,
    /// Approve or refuse.
    pub decision: bool,
    /// Why.
    pub reasoning: String,
    /// When, in milliseconds.
    pub timestamp: u64,
}

/// One decision put to the guardians.
#[derive(Debug, Clone)]
pub struct SecurityDecision {
    /// Opaque identifier.
    pub decision_id: u64,
    /// The transaction it concerns.
    pub transaction_id: u64,
    /// What is being decided.
    pub decision_type: SecurityDecisionType,
    /// The confirmations gathered.
    pub confirmations: Vec<GuardianConfirmation>,
    /// How many are needed.
    pub required_confirmations: usize,
    /// Where the decision stands.
    pub status: DecisionStatus,
    /// When it was opened, in milliseconds.
    pub created_at: u64,
    /// When it settled, if it has, in milliseconds.
    pub finalized_at: Option<u64>,
}

/// The guardian set's current shape.
#[derive(Debug, Clone, Copy, PartialEq, Eq, Structural)]
pub struct GuardianStatus {
    /// Guardians enrolled.
    pub total_guardians: usize,
    /// Guardians answering.
    pub active_guardians: usize,
    /// The rotation epoch.
    pub current_epoch: u64,
    /// Decisions awaiting confirmations.
    pub pending_decisions: usize,
    /// Decisions settled.
    pub finalized_decisions: usize,
    /// Whether the set is serviceable.
    pub is_healthy: bool,
}

/// A decentralized identifier.
#[derive(Debug, Clone, PartialEq, Eq)]
pub struct DID {
    /// The method part.
    pub method: String,
    /// The method-specific identifier.
    pub identifier: String,
    /// The whole identifier, method and identifier joined.
    pub full_did: String,
}

/// Where an identity stands.
#[derive(Debug, Clone, Copy, PartialEq, Eq, Structural)]
pub enum IdentityStatus {
    /// Never verified.
    Unverified,
    /// Verification underway.
    PendingVerification,
    /// Verified.
    Verified,
    /// Temporarily barred.
    Suspended,
    /// Permanently barred.
    Revoked,
}

/// What audit records are grouped by.
#[derive(Debug, Clone, Copy, PartialEq, Eq, Structural)]
pub enum AuditCategory {
    /// Who signed in.
    Authentication,
    /// Who was allowed what.
    Authorization,
    /// Who read what.
    DataAccess,
    /// Who changed what.
    DataModification,
    /// Who reached the system.
    SystemAccess,
    /// A security event proper.
    SecurityEvent,
    /// A compliance event.
    ComplianceEvent,
    /// A policy violation.
    PolicyViolation,
    /// A configuration change.
    ConfigChange,
    /// An administrator's action.
    AdminAction,
}

/// How grave an audit record is.
#[derive(Debug, Clone, Copy, PartialEq, Eq, Structural)]
pub enum AuditSeverity {
    /// Informational.
    Info,
    /// Worth noting.
    Warning,
    /// Something failed.
    Error,
    /// Something failed badly.
    Critical,
}

/// A digest of one incident for audit reports.
#[derive(Debug, Clone)]
pub struct SecurityIncidentSummary {
    /// The incident.
    pub incident_id: u64,
    /// What kind it was.
    pub incident_type: String,
    /// How grave it was.
    pub severity: AuditSeverity,
    /// The accounts involved.
    pub affected_addresses: Vec<Address>,
    /// How many events it comprised.
    pub event_count: u64,
    /// First sighting, in milliseconds.
    pub first_detected: u64,
    /// Last sighting, in milliseconds.
    pub last_detected: u64,
    /// Whether it is resolved.
    pub resolved: bool,
}

/// One unmet compliance requirement.
#[derive(Debug, Clone)]
pub struct ComplianceViolation {
    /// The requirement missed.
    pub requirement: String,
    /// What went wrong.
    pub description: String,
    /// How grave it is.
    pub severity: AuditSeverity,
    /// When it was found, in milliseconds.
    pub detected_at: u64,
    /// Whether it is resolved.
    pub resolved: bool,
    /// What would fix it.
    pub remediation_actions: Vec<String>,
}

/// How urgent a recommendation is.
#[derive(Debug, Clone, Copy, PartialEq, Eq, Structural)]
pub enum RecommendationPriority {
    /// Whenever convenient.
    Low,
    /// Soon.
    Medium,
    /// Now.
    High,
    /// Immediately.
    Critical,
}

/// A filter over the audit log.
#[derive(Debug, Clone)]
pub struct AuditQuery {
    /// Records at or after this time, in milliseconds.
    pub start_time: Option<u64>,
    /// Records at or before this time, in milliseconds.
    pub end_time: Option<u64>,
    /// Only these event kinds.
    pub event_types: Option<Vec<String>>,
    /// Only these categories.
    pub categories: Option<Vec<AuditCategory>>,
    /// Only these severities.
    pub severities: Option<Vec<AuditSeverity>>,
    /// Only these accounts.
    pub addresses: Option<Vec<Address>>,
    /// Only these transactions.
    pub transaction_ids: Option<Vec<u64>>,
    /// At most this many records.
    pub limit: Option<usize>,
    /// Skipping this many first.
    pub offset: Option<usize>,
}

/// Counts over the audit log.
#[derive(Debug, Clone, Copy, PartialEq, Eq, Structural)]
pub struct AuditStatistics {
    /// Records held.
    pub total_events: usize,
    /// Records from today.
    pub events_today: usize,
    /// Critical records held.
    pub critical_events: usize,
    /// Storage consumed, in megabytes.
    pub storage_size_mb: usize,
}

/// What a privacy policy rule governs.
#[derive(Debug, Clone, Copy, PartialEq, Eq, Structural)]
pub enum PolicyRuleType {
    /// Read no more than needed.
    DataMinimization,
    /// Consent must exist.
    ConsentValidation,
    /// Data must lapse.
    RetentionLimit,
    /// Data must not move freely.
    TransferRestriction,
    /// Access is gated.
    AccessControl,
    /// Everything is audited.
    AuditRequirement,
}

/// How a policy condition compares its field.
#[derive(Debug, Clone, Copy, PartialEq, Eq, Structural)]
pub enum ConditionOperator {
    /// Equal.
    Equals,
    /// Not equal.
    NotEquals,
    /// Greater.
    GreaterThan,
    /// Less.
    LessThan,
    /// Contains.
    Contains,
    /// Does not contain.
    NotContains,
    /// Member of.
    In,
    /// Not a member of.
    NotIn,
    /// Present.
    Exists,
    /// Absent.
    NotExists,
}

/// What a matched policy does.
#[derive(Debug, Clone, Copy, PartialEq, Eq, Structural)]
pub enum ActionType {
    /// Refuse the operation.
    Block,
    /// Ask for consent first.
    RequireConsent,
    /// Strip data first.
    MinimizeData,
    /// Record it.
    AuditLog,
    /// Tell someone.
    Notify,
    /// Tell someone senior.
    Escalate,
}

/// How grave a policy breach is.
#[derive(Debug, Clone, Copy, PartialEq, Eq, Structural)]
pub enum PolicySeverity {
    /// Minor.
    Low,
    /// Notable.
    Medium,
    /// Serious.
    High,
    /// Severe.
    Critical,
}

/// How sensitive a data category is.
#[derive(Debug, Clone, Copy, PartialEq, Eq, Structural)]
pub enum SensitivityLevel {
    /// Anyone may see it.
    Public,
    /// The operator may see it.
    Internal,
    /// Few may see it.
    Confidential,
    /// Almost nobody may see it.
    Restricted,
}

/// The lawful ground for processing a category.
#[derive(Debug, Clone, Copy, PartialEq, Eq, Structural)]
pub enum LegalBasis {
    /// The subject agreed.
    Consent,
    /// A contract requires it.
    Contract,
    /// The law requires it.
    LegalObligation,
    /// Life or limb requires it.
    VitalInterests,
    /// A public task requires it.
    PublicTask,
    /// A weighed legitimate interest.
    LegitimateInterests,
}

/// One classified category of data.
#[derive(Debug, Clone)]
pub struct DataCategory {
    /// Its name.
    pub name: String,
    /// What falls under it.
    pub description: String,
    /// How sensitive it is.
    pub sensitivity_level: SensitivityLevel,
    /// On what grounds it may be processed.
    pub legal_basis: Vec<LegalBasis>,
    /// How long it is kept, in milliseconds.
    pub retention_period_ms: u64,
}

/// How lapsed data is archived.
#[derive(Debug, Clone)]
pub struct ArchivalPolicy {
    /// Age at which data moves to the archive, in milliseconds.
    pub archive_after_ms: u64,
    /// Where the archive lives.
    pub archive_location: String,
    /// Whether the archive is encrypted.
    pub archive_encryption: bool,
    /// How long the archive is kept, in milliseconds.
    pub archive_retention_ms: u64,
}

/// What consent a category demands.
#[derive(Debug, Clone)]
pub struct ConsentRequirements {
    /// The purposes consent must name.
    pub required_purposes: Vec<String>,
    /// Consent is per purpose, not blanket.
    pub granular_consent: bool,
    /// Consent can be withdrawn.
    pub withdrawal_mechanism: bool,
    /// Consent lapses after this long, if set, in milliseconds.
    pub consent_expiry_ms: Option<u64>,
    /// Consent is re-asked after this long, if set, in milliseconds.
    pub reconfirmation_period_ms: Option<u64>,
}

/// Where a policy stands in its life.
#[derive(Debug, Clone, Copy, PartialEq, Eq, Structural)]
pub enum PolicyStatus {
    /// Being written.
    Draft,
    /// In force.
    Active,
    /// Superseded, still honoured.
    Deprecated,
    /// Withdrawn.
    Revoked,
}

/// The shapes a policy condition's value can take.
#[derive(Debug, Clone, Copy, PartialEq, Eq, Structural)]
pub enum DataType {
    /// Text.
    Text,
    /// A number.
    Number,
    /// True or false.
    Boolean,
    /// An ordered list.
    Array,
    /// A keyed record.
    Object,
    /// An account address.
    Address,
    /// A token amount.
    Amount,
    /// A point in time.
    Timestamp,
}

} // verus!
