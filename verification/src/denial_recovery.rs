//! Denial, batch, recovery and freshness patch composition.
//!
//! Inputs are caller-supplied evidence. A successful projection yields an
//! inert patch that presents it; nothing here admits, dispatches, recovers,
//! or mutates UI.
use vstd::prelude::*;
use crate::binding_graph::BindingTarget;
use crate::binding_graph_observation::{lemma_insert_to_set, lemma_push_contains, lemma_take_one_more_to_set};
use crate::connectivity_projection::{
    control_diagnostic, freshness_operations, freshness_outcome, freshness_token, project_freshness_fragment, restricts_critical,
    FreshnessProjectionDiagnostic, FreshnessProjectionLimits, FreshnessProjectionRoute, FreshnessState,
};
use crate::contract_primitives::{
    compare_u64_slices, lemma_lex_order_antisymmetric, lemma_lex_order_strict_transitive, lex_order,
    CollectionKey, StaticNodeId,
};
use crate::projection_patch::{ProjectionPatch, ProjectionPatchDiagnostics, ProjectionPatchEnvelope, ProjectionPatchOperation, ProjectionPatchValue};
use crate::semantic_refs::{ReferenceToken, SemanticActionRef, SemanticEvidenceRef};
use vstd::utf8::encode_utf8;

verus! {

/// The outcome category a projection presents.
#[derive(Debug, Clone, Copy, PartialEq, Eq, PartialOrd, Ord, Hash, Structural)]
pub enum ProjectionResultCategory {
    Accepted,
    Denied,
    LocalDenied,
    AdmissionDenied,
    CapabilityRejected,
    StaleRejected,
    FreshnessRejected,
    PartialDenied,
    NotApplied,
    BatchBreak,
    PendingUnknown,
    Quarantined,
}

/// The token that names each category.
pub open spec fn category_token(c: ProjectionResultCategory) -> Seq<char> {
    match c {
        ProjectionResultCategory::Accepted => "accepted"@,
        ProjectionResultCategory::Denied => "denied"@,
        ProjectionResultCategory::LocalDenied => "local_denied"@,
        ProjectionResultCategory::AdmissionDenied => "admission_denied"@,
        ProjectionResultCategory::CapabilityRejected => "capability_rejected"@,
        ProjectionResultCategory::StaleRejected => "stale_rejected"@,
        ProjectionResultCategory::FreshnessRejected => "freshness_rejected"@,
        ProjectionResultCategory::PartialDenied => "partial_denied"@,
        ProjectionResultCategory::NotApplied => "not_applied"@,
        ProjectionResultCategory::BatchBreak => "batch_break"@,
        ProjectionResultCategory::PendingUnknown => "pending_unknown"@,
        ProjectionResultCategory::Quarantined => "quarantined"@,
    }
}

/// The categories that deny: denied, locally denied, admission denied,
/// capability, stale and freshness rejections, and quarantine.
pub open spec fn denial_like(c: ProjectionResultCategory) -> bool {
    c is Denied || c is LocalDenied || c is AdmissionDenied || c is CapabilityRejected || c is StaleRejected
        || c is FreshnessRejected || c is Quarantined
}

/// The categories that only make sense of a batch.
pub open spec fn needs_batch(c: ProjectionResultCategory) -> bool {
    c is PartialDenied || c is BatchBreak || c is NotApplied
}

/// The categories that must cite evidence.
pub open spec fn needs_evidence(c: ProjectionResultCategory) -> bool {
    c is AdmissionDenied || c is CapabilityRejected || c is Quarantined
}

impl ProjectionResultCategory {
    pub fn token(self) -> (r: &'static str)
        ensures
            r@ == category_token(self),
    {
        match self {
            Self::Accepted => "accepted",
            Self::Denied => "denied",
            Self::LocalDenied => "local_denied",
            Self::AdmissionDenied => "admission_denied",
            Self::CapabilityRejected => "capability_rejected",
            Self::StaleRejected => "stale_rejected",
            Self::FreshnessRejected => "freshness_rejected",
            Self::PartialDenied => "partial_denied",
            Self::NotApplied => "not_applied",
            Self::BatchBreak => "batch_break",
            Self::PendingUnknown => "pending_unknown",
            Self::Quarantined => "quarantined",
        }
    }

    fn is_denial_like(self) -> (r: bool)
        ensures
            r == denial_like(self),
    {
        match self {
            Self::Denied | Self::LocalDenied | Self::AdmissionDenied | Self::CapabilityRejected | Self::StaleRejected
            | Self::FreshnessRejected | Self::Quarantined => true,
            _ => false,
        }
    }

    fn requires_batch(self) -> (r: bool)
        ensures
            r == needs_batch(self),
    {
        match self {
            Self::PartialDenied | Self::BatchBreak | Self::NotApplied => true,
            _ => false,
        }
    }

    fn requires_evidence(self) -> (r: bool)
        ensures
            r == needs_evidence(self),
    {
        match self {
            Self::AdmissionDenied | Self::CapabilityRejected | Self::Quarantined => true,
            _ => false,
        }
    }
}

/// How the items of a batch stand or fall together.
#[derive(Debug, Clone, Copy, PartialEq, Eq, PartialOrd, Ord, Hash, Structural)]
pub enum BatchMode {
    Atomic,
    OrderedPartial,
}

/// One item of a batch: its position, its key and its outcome.
#[derive(Debug, Clone, Copy, PartialEq, Eq, PartialOrd, Ord, Hash, Structural)]
pub struct BatchProjectionItem {
    pub order: u32,
    pub key: CollectionKey,
    pub result: ProjectionResultCategory,
}

impl BatchProjectionItem {
    pub fn new(order: u32, key: CollectionKey, result: ProjectionResultCategory) -> (r: Self)
        ensures
            r == (BatchProjectionItem { order, key, result }),
    {
        Self { order, key, result }
    }

    pub fn order(&self) -> (r: u32)
        ensures
            r == self.order,
    {
        self.order
    }

    pub fn key(&self) -> (r: CollectionKey)
        ensures
            r == self.key,
    {
        self.key
    }

    pub fn result(&self) -> (r: ProjectionResultCategory)
        ensures
            r == self.result,
    {
        self.result
    }
}

/// The outcome of a batch of items.
#[derive(Debug, Clone, PartialEq, Eq)]
pub struct BatchProjection {
    pub mode: BatchMode,
    pub declared_break_order: Option<u32>,
    pub items: Vec<BatchProjectionItem>,
}

impl BatchProjection {
    pub fn new(mode: BatchMode, declared_break_order: Option<u32>, items: Vec<BatchProjectionItem>) -> (r: Self)
        ensures
            r.mode == mode,
            r.declared_break_order == declared_break_order,
            r.items@ == items@,
    {
        Self { mode, declared_break_order, items }
    }

    pub fn mode(&self) -> (r: BatchMode)
        ensures
            r == self.mode,
    {
        self.mode
    }

    pub fn declared_break_order(&self) -> (r: Option<u32>)
        ensures
            r == self.declared_break_order,
    {
        self.declared_break_order
    }

    pub fn items(&self) -> (r: &[BatchProjectionItem])
        ensures
            r@ == self.items@,
    {
        self.items.as_slice()
    }
}

/// A way to recover from a denial.
#[derive(Debug, Clone, Copy, PartialEq, Eq, PartialOrd, Ord, Hash, Structural)]
pub enum RecoveryKind {
    Dismiss,
    Acknowledge,
    Retry,
    Resume,
    CancelSuffix,
}

/// The token that names each recovery kind.
pub open spec fn recovery_token(k: RecoveryKind) -> Seq<char> {
    match k {
        RecoveryKind::Dismiss => "dismiss"@,
        RecoveryKind::Acknowledge => "acknowledge"@,
        RecoveryKind::Retry => "retry"@,
        RecoveryKind::Resume => "resume"@,
        RecoveryKind::CancelSuffix => "cancel_suffix"@,
    }
}

impl RecoveryKind {
    pub fn token(self) -> (r: &'static str)
        ensures
            r@ == recovery_token(self),
    {
        match self {
            Self::Dismiss => "dismiss",
            Self::Acknowledge => "acknowledge",
            Self::Retry => "retry",
            Self::Resume => "resume",
            Self::CancelSuffix => "cancel_suffix",
        }
    }

    /// Every recovery but a dismissal names the action it recovers.
    fn requires_action_ref(self) -> (r: bool)
        ensures
            r == !(self is Dismiss),
    {
        match self {
            Self::Dismiss => false,
            _ => true,
        }
    }
}

/// A recovery offered to the user.
#[derive(Debug, Clone, Copy, PartialEq, Eq, PartialOrd, Ord, Hash, Structural)]
pub struct RecoveryOffer {
    pub order: u32,
    pub key: CollectionKey,
    pub kind: RecoveryKind,
    pub action_ref: Option<SemanticActionRef>,
    pub resume_token: Option<ReferenceToken>,
}

impl RecoveryOffer {
    pub fn new(
        order: u32,
        key: CollectionKey,
        kind: RecoveryKind,
        action_ref: Option<SemanticActionRef>,
        resume_token: Option<ReferenceToken>,
    ) -> (r: Self)
        ensures
            r == (RecoveryOffer { order, key, kind, action_ref, resume_token }),
    {
        Self { order, key, kind, action_ref, resume_token }
    }

    pub fn order(self) -> (r: u32)
        ensures
            r == self.order,
    {
        self.order
    }

    pub fn key(self) -> (r: CollectionKey)
        ensures
            r == self.key,
    {
        self.key
    }

    pub fn kind(self) -> (r: RecoveryKind)
        ensures
            r == self.kind,
    {
        self.kind
    }

    pub fn action_ref(self) -> (r: Option<SemanticActionRef>)
        ensures
            r == self.action_ref,
    {
        self.action_ref
    }

    pub fn resume_token(self) -> (r: Option<ReferenceToken>)
        ensures
            r == self.resume_token,
    {
        self.resume_token
    }
}

/// Where a denial and its recovery are shown.
#[derive(Debug, Clone, PartialEq, Eq)]
pub struct DenialRecoveryRoute {
    pub result_target: BindingTarget,
    pub reason_target: BindingTarget,
    pub batch_collection: Option<StaticNodeId>,
    pub recovery_collection: Option<StaticNodeId>,
    pub freshness_route: FreshnessProjectionRoute,
}

impl DenialRecoveryRoute {
    pub fn new(
        result_target: BindingTarget,
        reason_target: BindingTarget,
        batch_collection: Option<StaticNodeId>,
        recovery_collection: Option<StaticNodeId>,
        freshness_route: FreshnessProjectionRoute,
    ) -> (r: Self)
        ensures
            r == (DenialRecoveryRoute { result_target, reason_target, batch_collection, recovery_collection, freshness_route }),
    {
        Self { result_target, reason_target, batch_collection, recovery_collection, freshness_route }
    }
}

/// What the caller knows of a denial and how to recover from it.
#[derive(Debug, Clone, PartialEq, Eq)]
pub struct DenialRecoveryEvidence {
    pub envelope: ProjectionPatchEnvelope,
    pub result: ProjectionResultCategory,
    pub reason: String,
    pub action_ref: Option<SemanticActionRef>,
    pub evidence_ref: Option<SemanticEvidenceRef>,
    pub freshness: FreshnessState,
    pub critical_attempt: bool,
    pub batch: Option<BatchProjection>,
    pub recovery_offers: Vec<RecoveryOffer>,
}

impl DenialRecoveryEvidence {
    pub fn new(
        envelope: ProjectionPatchEnvelope,
        result: ProjectionResultCategory,
        reason: String,
        action_ref: Option<SemanticActionRef>,
        evidence_ref: Option<SemanticEvidenceRef>,
        freshness: FreshnessState,
        critical_attempt: bool,
        batch: Option<BatchProjection>,
        recovery_offers: Vec<RecoveryOffer>,
    ) -> (r: Self)
        ensures
            r == (DenialRecoveryEvidence {
                envelope,
                result,
                reason,
                action_ref,
                evidence_ref,
                freshness,
                critical_attempt,
                batch,
                recovery_offers,
            }),
    {
        Self { envelope, result, reason, action_ref, evidence_ref, freshness, critical_attempt, batch, recovery_offers }
    }
}

/// The bounds on what a denial projection reads and writes.
#[derive(Debug, Clone, Copy, PartialEq, Eq, Structural)]
pub struct DenialRecoveryLimits {
    pub max_reason_bytes: usize,
    pub max_batch_items: usize,
    pub max_recovery_offers: usize,
    pub max_control_routes: usize,
    pub max_total_operations: usize,
    pub max_total_projected_text_bytes: usize,
}

impl DenialRecoveryLimits {
    pub fn new(
        max_reason_bytes: usize,
        max_batch_items: usize,
        max_recovery_offers: usize,
        max_control_routes: usize,
        max_total_operations: usize,
        max_total_projected_text_bytes: usize,
    ) -> (r: Self)
        ensures
            r == (DenialRecoveryLimits {
                max_reason_bytes,
                max_batch_items,
                max_recovery_offers,
                max_control_routes,
                max_total_operations,
                max_total_projected_text_bytes,
            }),
    {
        Self {
            max_reason_bytes,
            max_batch_items,
            max_recovery_offers,
            max_control_routes,
            max_total_operations,
            max_total_projected_text_bytes,
        }
    }
}

/// The stage of a denial projection a diagnostic comes from.
#[derive(Debug, Clone, Copy, PartialEq, Eq, PartialOrd, Ord, Hash, Structural)]
pub enum DenialRecoveryProjectionStage {
    ResourcePreflight,
    RouteValidation,
    FreshnessValidation,
    OutcomeValidation,
    BatchValidation,
    RecoveryValidation,
    OperationConstruction,
    PatchValidation,
}

/// What is wrong with a denial projection.
#[derive(Debug, Clone, Copy, PartialEq, Eq, PartialOrd, Ord, Hash, Structural)]
pub enum DenialRecoveryProjectionDiagnosticKind {
    ResourceLimitExceeded,
    MissingReason,
    MissingEvidenceRef,
    InvalidFreshnessOutcome,
    DuplicateBatchOrder,
    DuplicateBatchKey,
    InvalidAtomicBatch,
    InvalidOrderedPartialBatch,
    BatchBreakMismatch,
    MissingBatchRoute,
    DuplicateRecoveryOrder,
    DuplicateRecoveryKey,
    MissingRecoveryRoute,
    RecoveryActionRefMissing,
    ResumeTokenMissing,
    OperationLimitExceeded,
    PatchRejected,
}

/// The code of each diagnostic kind.
pub open spec fn denial_code_text(kind: DenialRecoveryProjectionDiagnosticKind) -> Seq<char> {
    match kind {
        DenialRecoveryProjectionDiagnosticKind::ResourceLimitExceeded => "DRP_RESOURCE_LIMIT_EXCEEDED"@,
        DenialRecoveryProjectionDiagnosticKind::MissingReason => "DRP_MISSING_REASON"@,
        DenialRecoveryProjectionDiagnosticKind::MissingEvidenceRef => "DRP_MISSING_EVIDENCE_REF"@,
        DenialRecoveryProjectionDiagnosticKind::InvalidFreshnessOutcome => "DRP_INVALID_FRESHNESS_OUTCOME"@,
        DenialRecoveryProjectionDiagnosticKind::DuplicateBatchOrder => "DRP_DUPLICATE_BATCH_ORDER"@,
        DenialRecoveryProjectionDiagnosticKind::DuplicateBatchKey => "DRP_DUPLICATE_BATCH_KEY"@,
        DenialRecoveryProjectionDiagnosticKind::InvalidAtomicBatch => "DRP_INVALID_ATOMIC_BATCH"@,
        DenialRecoveryProjectionDiagnosticKind::InvalidOrderedPartialBatch => "DRP_INVALID_ORDERED_PARTIAL_BATCH"@,
        DenialRecoveryProjectionDiagnosticKind::BatchBreakMismatch => "DRP_BATCH_BREAK_MISMATCH"@,
        DenialRecoveryProjectionDiagnosticKind::MissingBatchRoute => "DRP_MISSING_BATCH_ROUTE"@,
        DenialRecoveryProjectionDiagnosticKind::DuplicateRecoveryOrder => "DRP_DUPLICATE_RECOVERY_ORDER"@,
        DenialRecoveryProjectionDiagnosticKind::DuplicateRecoveryKey => "DRP_DUPLICATE_RECOVERY_KEY"@,
        DenialRecoveryProjectionDiagnosticKind::MissingRecoveryRoute => "DRP_MISSING_RECOVERY_ROUTE"@,
        DenialRecoveryProjectionDiagnosticKind::RecoveryActionRefMissing => "DRP_RECOVERY_ACTION_REF_MISSING"@,
        DenialRecoveryProjectionDiagnosticKind::ResumeTokenMissing => "DRP_RESUME_TOKEN_MISSING"@,
        DenialRecoveryProjectionDiagnosticKind::OperationLimitExceeded => "DRP_OPERATION_LIMIT_EXCEEDED"@,
        DenialRecoveryProjectionDiagnosticKind::PatchRejected => "DRP_PATCH_REJECTED"@,
    }
}

impl DenialRecoveryProjectionDiagnosticKind {
    pub fn code(self) -> (r: &'static str)
        ensures
            r@ == denial_code_text(self),
    {
        match self {
            Self::ResourceLimitExceeded => "DRP_RESOURCE_LIMIT_EXCEEDED",
            Self::MissingReason => "DRP_MISSING_REASON",
            Self::MissingEvidenceRef => "DRP_MISSING_EVIDENCE_REF",
            Self::InvalidFreshnessOutcome => "DRP_INVALID_FRESHNESS_OUTCOME",
            Self::DuplicateBatchOrder => "DRP_DUPLICATE_BATCH_ORDER",
            Self::DuplicateBatchKey => "DRP_DUPLICATE_BATCH_KEY",
            Self::InvalidAtomicBatch => "DRP_INVALID_ATOMIC_BATCH",
            Self::InvalidOrderedPartialBatch => "DRP_INVALID_ORDERED_PARTIAL_BATCH",
            Self::BatchBreakMismatch => "DRP_BATCH_BREAK_MISMATCH",
            Self::MissingBatchRoute => "DRP_MISSING_BATCH_ROUTE",
            Self::DuplicateRecoveryOrder => "DRP_DUPLICATE_RECOVERY_ORDER",
            Self::DuplicateRecoveryKey => "DRP_DUPLICATE_RECOVERY_KEY",
            Self::MissingRecoveryRoute => "DRP_MISSING_RECOVERY_ROUTE",
            Self::RecoveryActionRefMissing => "DRP_RECOVERY_ACTION_REF_MISSING",
            Self::ResumeTokenMissing => "DRP_RESUME_TOKEN_MISSING",
            Self::OperationLimitExceeded => "DRP_OPERATION_LIMIT_EXCEEDED",
            Self::PatchRejected => "DRP_PATCH_REJECTED",
        }
    }
}

/// The bound a limit diagnostic is about.
#[derive(Debug, Clone, Copy, PartialEq, Eq, PartialOrd, Ord, Hash, Structural)]
pub enum DenialRecoveryLimitKind {
    ReasonBytes,
    BatchItems,
    RecoveryOffers,
    ControlRoutes,
    TotalProjectedTextBytes,
    TotalOperations,
}

/// A diagnostic of a denial projection.
#[derive(Debug, Clone, Copy, PartialEq, Eq, PartialOrd, Ord, Hash, Structural)]
pub struct DenialRecoveryProjectionDiagnostic {
    pub stage: DenialRecoveryProjectionStage,
    pub kind: DenialRecoveryProjectionDiagnosticKind,
    pub primary: u64,
    pub secondary: u64,
    pub limit_kind: Option<DenialRecoveryLimitKind>,
    pub actual: Option<usize>,
    pub maximum: Option<usize>,
}

/// A diagnostic about content, with two numbers that locate it.
pub open spec fn content_diagnostic(
    stage: DenialRecoveryProjectionStage,
    kind: DenialRecoveryProjectionDiagnosticKind,
    primary: u64,
    secondary: u64,
) -> DenialRecoveryProjectionDiagnostic {
    DenialRecoveryProjectionDiagnostic { stage, kind, primary, secondary, limit_kind: None, actual: None, maximum: None }
}

/// A diagnostic about a bound that was passed.
pub open spec fn bound_diagnostic(
    stage: DenialRecoveryProjectionStage,
    kind: DenialRecoveryProjectionDiagnosticKind,
    limit_kind: DenialRecoveryLimitKind,
    actual: usize,
    maximum: usize,
) -> DenialRecoveryProjectionDiagnostic {
    DenialRecoveryProjectionDiagnostic {
        stage,
        kind,
        primary: 0,
        secondary: 0,
        limit_kind: Some(limit_kind),
        actual: Some(actual),
        maximum: Some(maximum),
    }
}

impl DenialRecoveryProjectionDiagnostic {
    fn content(
        stage: DenialRecoveryProjectionStage,
        kind: DenialRecoveryProjectionDiagnosticKind,
        primary: u64,
        secondary: u64,
    ) -> (r: Self)
        ensures
            r == content_diagnostic(stage, kind, primary, secondary),
    {
        Self { stage, kind, primary, secondary, limit_kind: None, actual: None, maximum: None }
    }

    fn limit(
        stage: DenialRecoveryProjectionStage,
        kind: DenialRecoveryProjectionDiagnosticKind,
        limit_kind: DenialRecoveryLimitKind,
        actual: usize,
        maximum: usize,
    ) -> (r: Self)
        ensures
            r == bound_diagnostic(stage, kind, limit_kind, actual, maximum),
    {
        Self { stage, kind, primary: 0, secondary: 0, limit_kind: Some(limit_kind), actual: Some(actual), maximum: Some(maximum) }
    }

    pub fn stage(self) -> (r: DenialRecoveryProjectionStage)
        ensures
            r == self.stage,
    {
        self.stage
    }

    pub fn kind(self) -> (r: DenialRecoveryProjectionDiagnosticKind)
        ensures
            r == self.kind,
    {
        self.kind
    }

    pub fn code(self) -> (r: &'static str)
        ensures
            r@ == denial_code_text(self.kind),
    {
        self.kind.code()
    }

    pub fn primary(self) -> (r: u64)
        ensures
            r == self.primary,
    {
        self.primary
    }

    pub fn secondary(self) -> (r: u64)
        ensures
            r == self.secondary,
    {
        self.secondary
    }

    pub fn limit_kind(self) -> (r: Option<DenialRecoveryLimitKind>)
        ensures
            r == self.limit_kind,
    {
        self.limit_kind
    }

    pub fn actual(self) -> (r: Option<usize>)
        ensures
            r == self.actual,
    {
        self.actual
    }

    pub fn maximum(self) -> (r: Option<usize>)
        ensures
            r == self.maximum,
    {
        self.maximum
    }
}

/// The position of a stage.
pub open spec fn stage_rank(s: DenialRecoveryProjectionStage) -> int {
    match s {
        DenialRecoveryProjectionStage::ResourcePreflight => 0,
        DenialRecoveryProjectionStage::RouteValidation => 1,
        DenialRecoveryProjectionStage::FreshnessValidation => 2,
        DenialRecoveryProjectionStage::OutcomeValidation => 3,
        DenialRecoveryProjectionStage::BatchValidation => 4,
        DenialRecoveryProjectionStage::RecoveryValidation => 5,
        DenialRecoveryProjectionStage::OperationConstruction => 6,
        DenialRecoveryProjectionStage::PatchValidation => 7,
    }
}

/// The position of a diagnostic kind.
pub open spec fn denial_kind_rank(k: DenialRecoveryProjectionDiagnosticKind) -> int {
    match k {
        DenialRecoveryProjectionDiagnosticKind::ResourceLimitExceeded => 0,
        DenialRecoveryProjectionDiagnosticKind::MissingReason => 1,
        DenialRecoveryProjectionDiagnosticKind::MissingEvidenceRef => 2,
        DenialRecoveryProjectionDiagnosticKind::InvalidFreshnessOutcome => 3,
        DenialRecoveryProjectionDiagnosticKind::DuplicateBatchOrder => 4,
        DenialRecoveryProjectionDiagnosticKind::DuplicateBatchKey => 5,
        DenialRecoveryProjectionDiagnosticKind::InvalidAtomicBatch => 6,
        DenialRecoveryProjectionDiagnosticKind::InvalidOrderedPartialBatch => 7,
        DenialRecoveryProjectionDiagnosticKind::BatchBreakMismatch => 8,
        DenialRecoveryProjectionDiagnosticKind::MissingBatchRoute => 9,
        DenialRecoveryProjectionDiagnosticKind::DuplicateRecoveryOrder => 10,
        DenialRecoveryProjectionDiagnosticKind::DuplicateRecoveryKey => 11,
        DenialRecoveryProjectionDiagnosticKind::MissingRecoveryRoute => 12,
        DenialRecoveryProjectionDiagnosticKind::RecoveryActionRefMissing => 13,
        DenialRecoveryProjectionDiagnosticKind::ResumeTokenMissing => 14,
        DenialRecoveryProjectionDiagnosticKind::OperationLimitExceeded => 15,
        DenialRecoveryProjectionDiagnosticKind::PatchRejected => 16,
    }
}

/// The position of a limit kind.
pub open spec fn limit_kind_rank(k: DenialRecoveryLimitKind) -> int {
    match k {
        DenialRecoveryLimitKind::ReasonBytes => 0,
        DenialRecoveryLimitKind::BatchItems => 1,
        DenialRecoveryLimitKind::RecoveryOffers => 2,
        DenialRecoveryLimitKind::ControlRoutes => 3,
        DenialRecoveryLimitKind::TotalProjectedTextBytes => 4,
        DenialRecoveryLimitKind::TotalOperations => 5,
    }
}

/// The sort key of a diagnostic: its fields in declaration order, each
/// absent value first.
pub open spec fn denial_diagnostic_key(d: DenialRecoveryProjectionDiagnostic) -> Seq<int> {
    seq![
        stage_rank(d.stage),
        denial_kind_rank(d.kind),
        d.primary as int,
        d.secondary as int,
        if d.limit_kind is Some { 1int } else { 0int },
        match d.limit_kind {
            None => 0int,
            Some(k) => limit_kind_rank(k),
        },
        if d.actual is Some { 1int } else { 0int },
        match d.actual {
            None => 0int,
            Some(a) => a as int,
        },
        if d.maximum is Some { 1int } else { 0int },
        match d.maximum {
            None => 0int,
            Some(m) => m as int,
        },
    ]
}

/// `ds` holds the diagnostics that meet `p`, each once, in key order.
pub open spec fn canonical_diagnostics(
    ds: Seq<DenialRecoveryProjectionDiagnostic>,
    p: spec_fn(DenialRecoveryProjectionDiagnostic) -> bool,
) -> bool {
    &&& forall|a: int, b: int| 0 <= a < b < ds.len() ==> lex_order(denial_diagnostic_key(ds[a]), denial_diagnostic_key(ds[b])) < 0
    &&& ds.to_set() == Set::new(p)
}

/// Diagnostics with the same key are the same.
proof fn lemma_denial_key_injective(a: DenialRecoveryProjectionDiagnostic, b: DenialRecoveryProjectionDiagnostic)
    requires
        denial_diagnostic_key(a) == denial_diagnostic_key(b),
    ensures
        a == b,
{
    let (ka, kb) = (denial_diagnostic_key(a), denial_diagnostic_key(b));
    assert(ka[0] == kb[0] && ka[1] == kb[1] && ka[2] == kb[2] && ka[3] == kb[3] && ka[4] == kb[4]);
    assert(ka[5] == kb[5] && ka[6] == kb[6] && ka[7] == kb[7] && ka[8] == kb[8] && ka[9] == kb[9]);
}

/// Compares two diagnostics in key order.
fn compare_denial_diagnostics(a: DenialRecoveryProjectionDiagnostic, b: DenialRecoveryProjectionDiagnostic) -> (r: i8)
    ensures
        r == lex_order(denial_diagnostic_key(a), denial_diagnostic_key(b)),
{
    let ka = denial_key_parts(a);
    let kb = denial_key_parts(b);
    compare_u64_slices(ka.as_slice(), kb.as_slice())
}

/// The key of a diagnostic as unsigned parts.
fn denial_key_parts(d: DenialRecoveryProjectionDiagnostic) -> (k: Vec<u64>)
    ensures
        k@.map_values(|x: u64| x as int) == denial_diagnostic_key(d),
{
    let stage: u64 = match d.stage {
        DenialRecoveryProjectionStage::ResourcePreflight => 0,
        DenialRecoveryProjectionStage::RouteValidation => 1,
        DenialRecoveryProjectionStage::FreshnessValidation => 2,
        DenialRecoveryProjectionStage::OutcomeValidation => 3,
        DenialRecoveryProjectionStage::BatchValidation => 4,
        DenialRecoveryProjectionStage::RecoveryValidation => 5,
        DenialRecoveryProjectionStage::OperationConstruction => 6,
        DenialRecoveryProjectionStage::PatchValidation => 7,
    };
    let kind: u64 = match d.kind {
        DenialRecoveryProjectionDiagnosticKind::ResourceLimitExceeded => 0,
        DenialRecoveryProjectionDiagnosticKind::MissingReason => 1,
        DenialRecoveryProjectionDiagnosticKind::MissingEvidenceRef => 2,
        DenialRecoveryProjectionDiagnosticKind::InvalidFreshnessOutcome => 3,
        DenialRecoveryProjectionDiagnosticKind::DuplicateBatchOrder => 4,
        DenialRecoveryProjectionDiagnosticKind::DuplicateBatchKey => 5,
        DenialRecoveryProjectionDiagnosticKind::InvalidAtomicBatch => 6,
        DenialRecoveryProjectionDiagnosticKind::InvalidOrderedPartialBatch => 7,
        DenialRecoveryProjectionDiagnosticKind::BatchBreakMismatch => 8,
        DenialRecoveryProjectionDiagnosticKind::MissingBatchRoute => 9,
        DenialRecoveryProjectionDiagnosticKind::DuplicateRecoveryOrder => 10,
        DenialRecoveryProjectionDiagnosticKind::DuplicateRecoveryKey => 11,
        DenialRecoveryProjectionDiagnosticKind::MissingRecoveryRoute => 12,
        DenialRecoveryProjectionDiagnosticKind::RecoveryActionRefMissing => 13,
        DenialRecoveryProjectionDiagnosticKind::ResumeTokenMissing => 14,
        DenialRecoveryProjectionDiagnosticKind::OperationLimitExceeded => 15,
        DenialRecoveryProjectionDiagnosticKind::PatchRejected => 16,
    };
    let (l0, l1): (u64, u64) = match d.limit_kind {
        None => (0, 0),
        Some(DenialRecoveryLimitKind::ReasonBytes) => (1, 0),
        Some(DenialRecoveryLimitKind::BatchItems) => (1, 1),
        Some(DenialRecoveryLimitKind::RecoveryOffers) => (1, 2),
        Some(DenialRecoveryLimitKind::ControlRoutes) => (1, 3),
        Some(DenialRecoveryLimitKind::TotalProjectedTextBytes) => (1, 4),
        Some(DenialRecoveryLimitKind::TotalOperations) => (1, 5),
    };
    let (a0, a1): (u64, u64) = match d.actual {
        None => (0, 0),
        Some(a) => (1, a as u64),
    };
    let (m0, m1): (u64, u64) = match d.maximum {
        None => (0, 0),
        Some(m) => (1, m as u64),
    };
    let k = vec![stage, kind, d.primary, d.secondary, l0, l1, a0, a1, m0, m1];
    assert(k@.map_values(|x: u64| x as int) =~= denial_diagnostic_key(d));
    k
}

/// Sorts diagnostics by key, each once.
fn canonical_denial_diagnostics(raw: Vec<DenialRecoveryProjectionDiagnostic>) -> (r: Vec<DenialRecoveryProjectionDiagnostic>)
    ensures
        forall|a: int, b: int| 0 <= a < b < r@.len() ==> lex_order(denial_diagnostic_key(r@[a]), denial_diagnostic_key(r@[b])) < 0,
        r@.to_set() == raw@.to_set(),
{
    let mut out: Vec<DenialRecoveryProjectionDiagnostic> = Vec::new();
    let mut i: usize = 0;
    proof {
        assert(out@.to_set() =~= raw@.take(0).to_set());
    }
    while i < raw.len()
        invariant
            i <= raw@.len(),
            forall|a: int, b: int| 0 <= a < b < out@.len() ==> lex_order(denial_diagnostic_key(out@[a]), denial_diagnostic_key(out@[b])) < 0,
            out@.to_set() == raw@.take(i as int).to_set(),
        decreases raw@.len() - i,
    {
        let x = raw[i];
        proof {
            lemma_take_one_more_to_set(raw@, i as int);
        }
        let mut p: usize = 0;
        while p < out.len() && compare_denial_diagnostics(out[p], x) < 0
            invariant
                p <= out@.len(),
                forall|q: int| 0 <= q < p ==> lex_order(denial_diagnostic_key(#[trigger] out@[q]), denial_diagnostic_key(x)) < 0,
            decreases out@.len() - p,
        {
            p += 1;
        }
        if p < out.len() && compare_denial_diagnostics(out[p], x) == 0 {
            proof {
                lemma_lex_order_antisymmetric(denial_diagnostic_key(out@[p as int]), denial_diagnostic_key(x));
                lemma_denial_key_injective(out@[p as int], x);
                assert(out@.contains(x));
                assert(out@.to_set().insert(x) =~= out@.to_set());
            }
        } else {
            let ghost old = out@;
            proof {
                lemma_insert_to_set(old, p as int, x);
                if p < old.len() {
                    lemma_lex_order_antisymmetric(denial_diagnostic_key(old[p as int]), denial_diagnostic_key(x));
                }
            }
            out.insert(p, x);
            proof {
                let n = out@;
                assert forall|a: int, b: int| 0 <= a < b < n.len() implies lex_order(denial_diagnostic_key(n[a]), denial_diagnostic_key(n[b])) < 0 by {
                    if a == p && b > p {
                        assert(n[b] == old[b - 1]);
                        if b - 1 > p {
                            lemma_lex_order_antisymmetric(denial_diagnostic_key(x), denial_diagnostic_key(old[p as int]));
                            lemma_lex_order_strict_transitive(denial_diagnostic_key(x), denial_diagnostic_key(old[p as int]), denial_diagnostic_key(old[b - 1]));
                        }
                    } else if a < p && b == p {
                        assert(n[a] == old[a]);
                    } else if a < p && b > p {
                        assert(n[a] == old[a]);
                        assert(n[b] == old[b - 1]);
                        lemma_lex_order_antisymmetric(denial_diagnostic_key(x), denial_diagnostic_key(old[p as int]));
                        if b - 1 > p {
                            lemma_lex_order_strict_transitive(denial_diagnostic_key(x), denial_diagnostic_key(old[p as int]), denial_diagnostic_key(old[b - 1]));
                        }
                        lemma_lex_order_strict_transitive(denial_diagnostic_key(old[a]), denial_diagnostic_key(x), denial_diagnostic_key(old[b - 1]));
                    } else if a > p {
                        assert(n[a] == old[a - 1]);
                        assert(n[b] == old[b - 1]);
                    } else {
                        assert(n[a] == old[a]);
                        assert(n[b] == old[b]);
                    }
                }
            }
        }
        i += 1;
    }
    proof {
        assert(raw@.take(raw@.len() as int) =~= raw@);
    }
    out
}

/// A failed denial projection: its own diagnostics, or those of the
/// freshness projection it is made of.
#[derive(Debug, Clone, PartialEq, Eq)]
pub enum DenialRecoveryProjectionFailure {
    Diagnostics(Vec<DenialRecoveryProjectionDiagnostic>),
    Freshness(Vec<FreshnessProjectionDiagnostic>),
    PatchRejected { diagnostic: DenialRecoveryProjectionDiagnostic, patch_diagnostics: ProjectionPatchDiagnostics },
}

/// `r` fails with the diagnostics that meet `p`, each once, in key order.
pub open spec fn fails_with<T>(
    r: Result<T, DenialRecoveryProjectionFailure>,
    p: spec_fn(DenialRecoveryProjectionDiagnostic) -> bool,
) -> bool {
    r matches Err(DenialRecoveryProjectionFailure::Diagnostics(ds)) && canonical_diagnostics(ds@, p)
}

/// The failure that carries `raw`, sorted with each diagnostic once.
fn diagnostics_failure(raw: Vec<DenialRecoveryProjectionDiagnostic>) -> (r: DenialRecoveryProjectionFailure)
    ensures
        r matches DenialRecoveryProjectionFailure::Diagnostics(ds) && {
            &&& forall|a: int, b: int| 0 <= a < b < ds@.len() ==> lex_order(denial_diagnostic_key(ds@[a]), denial_diagnostic_key(ds@[b])) < 0
            &&& ds@.to_set() == raw@.to_set()
        },
{
    DenialRecoveryProjectionFailure::Diagnostics(canonical_denial_diagnostics(raw))
}

/// A sequence that holds exactly what meets `p` has that set, and is empty
/// just when nothing meets `p`.
proof fn lemma_contents_set<T>(raw: Seq<T>, p: spec_fn(T) -> bool)
    requires
        forall|d: T| raw.contains(d) <==> p(d),
    ensures
        raw.to_set() == Set::new(p),
        raw.len() > 0 <==> exists|d: T| #[trigger] p(d),
{
    assert(raw.to_set() =~= Set::new(p));
    if raw.len() > 0 {
        assert(raw.contains(raw[0]));
        assert(p(raw[0]));
    }
    if exists|d: T| #[trigger] p(d) {
        let d = choose|d: T| #[trigger] p(d);
        assert(raw.contains(d));
    }
}

/// Adds `d` to the diagnostics when `cond` holds.
fn push_if(v: &mut Vec<DenialRecoveryProjectionDiagnostic>, cond: bool, d: DenialRecoveryProjectionDiagnostic)
    ensures
        forall|x: DenialRecoveryProjectionDiagnostic| final(v)@.contains(x) <==> old(v)@.contains(x) || (cond && x == d),
{
    let ghost before = v@;
    if cond {
        v.push(d);
        proof {
            assert forall|x: DenialRecoveryProjectionDiagnostic| v@.contains(x) <==> before.contains(x) || x == d by {
                lemma_push_contains(before, d, x);
            }
        }
    }
}

/// The failure for the diagnostics in `raw`, which hold exactly what meets
/// `p`.
fn fail_with(raw: Vec<DenialRecoveryProjectionDiagnostic>, Ghost(p): Ghost<spec_fn(DenialRecoveryProjectionDiagnostic) -> bool>) -> (r: DenialRecoveryProjectionFailure)
    requires
        forall|d: DenialRecoveryProjectionDiagnostic| raw@.contains(d) <==> p(d),
    ensures
        r matches DenialRecoveryProjectionFailure::Diagnostics(ds) && canonical_diagnostics(ds@, p),
{
    proof {
        lemma_contents_set(raw@, p);
    }
    diagnostics_failure(raw)
}

/// The UTF-8 length of a text, as the standard library reports it.
pub open spec fn text_bytes(s: Seq<char>) -> usize {
    encode_utf8(s).len() as usize
}

/// The number of items in the evidence's batch; none without a batch.
pub open spec fn batch_len(ev: DenialRecoveryEvidence) -> nat {
    match ev.batch {
        None => 0,
        Some(b) => b.items@.len(),
    }
}

/// The items of a batch, if there is one.
pub open spec fn batch_items_of(batch: Option<BatchProjection>) -> Seq<BatchProjectionItem> {
    match batch {
        None => Seq::empty(),
        Some(b) => b.items@,
    }
}

/// The bytes of the category tokens of the items.
pub open spec fn item_token_bytes(items: Seq<BatchProjectionItem>) -> int
    decreases items.len(),
{
    if items.len() == 0 {
        0
    } else {
        item_token_bytes(items.drop_last()) + text_bytes(category_token(items.last().result))
    }
}

/// The bytes of the recovery tokens of the offers.
pub open spec fn offer_token_bytes(offers: Seq<RecoveryOffer>) -> int
    decreases offers.len(),
{
    if offers.len() == 0 {
        0
    } else {
        offer_token_bytes(offers.drop_last()) + text_bytes(recovery_token(offers.last().kind))
    }
}

/// The bytes of text a projection of the evidence writes: the category and
/// freshness tokens, the reason, and the token of each batch item and
/// recovery offer.
pub open spec fn projected_text_total(ev: DenialRecoveryEvidence) -> int {
    text_bytes(category_token(ev.result)) + text_bytes(freshness_token(ev.freshness)) + text_bytes(ev.reason@) + item_token_bytes(batch_items_of(ev.batch))
        + offer_token_bytes(ev.recovery_offers@)
}

/// A bound passed before any work: reason bytes, batch items, recovery
/// offers, control routes, and the projected text, counted as the largest
/// size when it does not fit in one.
pub open spec fn preflight_diagnostic(
    route: DenialRecoveryRoute,
    ev: DenialRecoveryEvidence,
    limits: DenialRecoveryLimits,
    d: DenialRecoveryProjectionDiagnostic,
) -> bool {
    let stage = DenialRecoveryProjectionStage::ResourcePreflight;
    let kind = DenialRecoveryProjectionDiagnosticKind::ResourceLimitExceeded;
    let controls = route.freshness_route.spec_controls().len();
    let total = projected_text_total(ev);
    ||| text_bytes(ev.reason@) > limits.max_reason_bytes
        && d == bound_diagnostic(stage, kind, DenialRecoveryLimitKind::ReasonBytes, text_bytes(ev.reason@), limits.max_reason_bytes)
    ||| batch_len(ev) > limits.max_batch_items
        && d == bound_diagnostic(stage, kind, DenialRecoveryLimitKind::BatchItems, batch_len(ev) as usize, limits.max_batch_items)
    ||| ev.recovery_offers@.len() > limits.max_recovery_offers
        && d == bound_diagnostic(stage, kind, DenialRecoveryLimitKind::RecoveryOffers, ev.recovery_offers@.len() as usize, limits.max_recovery_offers)
    ||| controls > limits.max_control_routes
        && d == bound_diagnostic(stage, kind, DenialRecoveryLimitKind::ControlRoutes, controls as usize, limits.max_control_routes)
    ||| total > usize::MAX
        && d == bound_diagnostic(stage, kind, DenialRecoveryLimitKind::TotalProjectedTextBytes, usize::MAX, limits.max_total_projected_text_bytes)
    ||| total <= usize::MAX && total > limits.max_total_projected_text_bytes
        && d == bound_diagnostic(stage, kind, DenialRecoveryLimitKind::TotalProjectedTextBytes, total as usize, limits.max_total_projected_text_bytes)
}

/// A collection the evidence needs that the route does not give: one for a
/// non-empty batch, one for recovery offers.
pub open spec fn route_diagnostic(route: DenialRecoveryRoute, ev: DenialRecoveryEvidence, d: DenialRecoveryProjectionDiagnostic) -> bool {
    let stage = DenialRecoveryProjectionStage::RouteValidation;
    ||| batch_len(ev) > 0 && route.batch_collection is None
        && d == content_diagnostic(stage, DenialRecoveryProjectionDiagnosticKind::MissingBatchRoute, 0, 0)
    ||| ev.recovery_offers@.len() > 0 && route.recovery_collection is None
        && d == content_diagnostic(stage, DenialRecoveryProjectionDiagnosticKind::MissingRecoveryRoute, 0, 0)
}

/// What is missing from the outcome: a reason for anything but acceptance,
/// and evidence for the categories that cite it.
pub open spec fn outcome_diagnostic(ev: DenialRecoveryEvidence, d: DenialRecoveryProjectionDiagnostic) -> bool {
    let stage = DenialRecoveryProjectionStage::OutcomeValidation;
    ||| !(ev.result is Accepted) && ev.reason@.len() == 0
        && d == content_diagnostic(stage, DenialRecoveryProjectionDiagnosticKind::MissingReason, 0, 0)
    ||| needs_evidence(ev.result) && ev.evidence_ref is None
        && d == content_diagnostic(stage, DenialRecoveryProjectionDiagnosticKind::MissingEvidenceRef, 0, 0)
}

/// Checks the bounds of the evidence before any other work.
fn validate_resource_preflight(
    route: &DenialRecoveryRoute,
    evidence: &DenialRecoveryEvidence,
    limits: DenialRecoveryLimits,
) -> (r: Result<(), DenialRecoveryProjectionFailure>)
    ensures
        (exists|d: DenialRecoveryProjectionDiagnostic| preflight_diagnostic(*route, *evidence, limits, d)) ==> fails_with(r, |d: DenialRecoveryProjectionDiagnostic| preflight_diagnostic(*route, *evidence, limits, d)),
        !(exists|d: DenialRecoveryProjectionDiagnostic| preflight_diagnostic(*route, *evidence, limits, d)) ==> r is Ok,
{
    let stage = DenialRecoveryProjectionStage::ResourcePreflight;
    let kind = DenialRecoveryProjectionDiagnosticKind::ResourceLimitExceeded;
    let items_len: usize = match &evidence.batch {
        None => 0,
        Some(batch) => batch.items.len(),
    };
    let controls_len = route.freshness_route.controls().len();
    let reason_len = evidence.reason.as_str().len();
    let mut diagnostics: Vec<DenialRecoveryProjectionDiagnostic> = Vec::new();
    push_if(
        &mut diagnostics,
        reason_len > limits.max_reason_bytes,
        DenialRecoveryProjectionDiagnostic::limit(stage, kind, DenialRecoveryLimitKind::ReasonBytes, reason_len, limits.max_reason_bytes),
    );
    push_if(
        &mut diagnostics,
        items_len > limits.max_batch_items,
        DenialRecoveryProjectionDiagnostic::limit(stage, kind, DenialRecoveryLimitKind::BatchItems, items_len, limits.max_batch_items),
    );
    push_if(
        &mut diagnostics,
        evidence.recovery_offers.len() > limits.max_recovery_offers,
        DenialRecoveryProjectionDiagnostic::limit(stage, kind, DenialRecoveryLimitKind::RecoveryOffers, evidence.recovery_offers.len(), limits.max_recovery_offers),
    );
    push_if(
        &mut diagnostics,
        controls_len > limits.max_control_routes,
        DenialRecoveryProjectionDiagnostic::limit(stage, kind, DenialRecoveryLimitKind::ControlRoutes, controls_len, limits.max_control_routes),
    );
    let (over, actual): (bool, usize) = match projected_text_bytes(evidence) {
        Some(actual) => (actual > limits.max_total_projected_text_bytes, actual),
        None => (true, usize::MAX),
    };
    push_if(
        &mut diagnostics,
        over,
        DenialRecoveryProjectionDiagnostic::limit(stage, kind, DenialRecoveryLimitKind::TotalProjectedTextBytes, actual, limits.max_total_projected_text_bytes),
    );
    let ghost p = |d: DenialRecoveryProjectionDiagnostic| preflight_diagnostic(*route, *evidence, limits, d);
    proof {
        assert forall|d: DenialRecoveryProjectionDiagnostic| diagnostics@.contains(d) <==> p(d) by {
            assert(items_len == batch_len(*evidence));
        }
        lemma_contents_set(diagnostics@, p);
        if exists|d: DenialRecoveryProjectionDiagnostic| preflight_diagnostic(*route, *evidence, limits, d) {
            let d = choose|d: DenialRecoveryProjectionDiagnostic| preflight_diagnostic(*route, *evidence, limits, d);
            assert(diagnostics@.contains(d));
        }
    }
    if diagnostics.len() > 0 {
        Err(fail_with(diagnostics, Ghost(p)))
    } else {
        Ok(())
    }
}

/// The bytes of text a projection writes, or nothing when the count does
/// not fit.
fn projected_text_bytes(evidence: &DenialRecoveryEvidence) -> (r: Option<usize>)
    ensures
        r is None <==> projected_text_total(*evidence) > usize::MAX,
        r matches Some(v) ==> v == projected_text_total(*evidence),
{
    let ghost items = batch_items_of(evidence.batch);
    let ghost base: int = text_bytes(category_token(evidence.result)) + text_bytes(freshness_token(evidence.freshness)) + text_bytes(evidence.reason@);
    let ghost offers = evidence.recovery_offers@;
    proof {
        lemma_item_bytes_prefix(items, items.len() as int);
        lemma_offer_bytes_prefix(offers, offers.len() as int);
        assert(items.take(items.len() as int) =~= items);
        assert(offers.take(offers.len() as int) =~= offers);
        assert(projected_text_total(*evidence) == base + item_token_bytes(items) + offer_token_bytes(offers));
    }
    let mut bytes = match evidence.result.token().len().checked_add(evidence.freshness.token().len()) {
        Some(b) => b,
        None => {
            return None;
        },
    };
    bytes = match bytes.checked_add(evidence.reason.as_str().len()) {
        Some(b) => b,
        None => {
            return None;
        },
    };
    assert(bytes == base);
    if let Some(batch) = &evidence.batch {
        let mut i: usize = 0;
        while i < batch.items.len()
            invariant
                items == batch.items@,
                i <= items.len(),
                bytes == base + item_token_bytes(items.take(i as int)),
                base >= 0,
                forall|k: int| 0 <= k <= items.len() ==> item_token_bytes(#[trigger] items.take(k)) <= item_token_bytes(items),
                forall|k: int| 0 <= k <= offers.len() ==> offer_token_bytes(#[trigger] offers.take(k)) >= 0,
                projected_text_total(*evidence) == base + item_token_bytes(items) + offer_token_bytes(offers),
            decreases items.len() - i,
        {
            proof {
                assert(items.take(i + 1).drop_last() =~= items.take(i as int));
                assert(offers.take(0) =~= Seq::<RecoveryOffer>::empty());
            }
            bytes = match bytes.checked_add(batch.items[i].result.token().len()) {
                Some(b) => b,
                None => {
                    proof {
                        lemma_offer_bytes_prefix(offers, 0);
                    }
                    return None;
                },
            };
            i += 1;
        }
        proof {
            assert(items.take(items.len() as int) =~= items);
        }
    }
    assert(bytes == base + item_token_bytes(items));
    let mut j: usize = 0;
    while j < evidence.recovery_offers.len()
        invariant
            offers == evidence.recovery_offers@,
            j <= offers.len(),
            bytes == base + item_token_bytes(items) + offer_token_bytes(offers.take(j as int)),
            forall|k: int| 0 <= k <= offers.len() ==> offer_token_bytes(#[trigger] offers.take(k)) <= offer_token_bytes(offers),
            projected_text_total(*evidence) == base + item_token_bytes(items) + offer_token_bytes(offers),
        decreases offers.len() - j,
    {
        proof {
            assert(offers.take(j + 1).drop_last() =~= offers.take(j as int));
        }
        bytes = match bytes.checked_add(evidence.recovery_offers[j].kind.token().len()) {
            Some(b) => b,
            None => {
                return None;
            },
        };
        j += 1;
    }
    proof {
        assert(offers.take(offers.len() as int) =~= offers);
    }
    Some(bytes)
}

/// A prefix of the items has no more token bytes than all of them, and none
/// has fewer than zero.
proof fn lemma_item_bytes_prefix(items: Seq<BatchProjectionItem>, n: int)
    requires
        0 <= n <= items.len(),
    ensures
        forall|k: int| 0 <= k <= n ==> 0 <= item_token_bytes(#[trigger] items.take(k)) <= item_token_bytes(items.take(n)),
    decreases n,
{
    if n > 0 {
        lemma_item_bytes_prefix(items, n - 1);
        assert(items.take(n).drop_last() =~= items.take(n - 1));
    } else {
        assert(items.take(0) =~= Seq::<BatchProjectionItem>::empty());
    }
}

/// A prefix of the offers has no more token bytes than all of them, and
/// none has fewer than zero.
proof fn lemma_offer_bytes_prefix(offers: Seq<RecoveryOffer>, n: int)
    requires
        0 <= n <= offers.len(),
    ensures
        forall|k: int| 0 <= k <= n ==> 0 <= offer_token_bytes(#[trigger] offers.take(k)) <= offer_token_bytes(offers.take(n)),
    decreases n,
{
    if n > 0 {
        lemma_offer_bytes_prefix(offers, n - 1);
        assert(offers.take(n).drop_last() =~= offers.take(n - 1));
    } else {
        assert(offers.take(0) =~= Seq::<RecoveryOffer>::empty());
    }
}

/// Checks that the route has a collection for each list the evidence holds.
fn validate_routes(route: &DenialRecoveryRoute, evidence: &DenialRecoveryEvidence) -> (r: Result<(), DenialRecoveryProjectionFailure>)
    ensures
        (exists|d: DenialRecoveryProjectionDiagnostic| route_diagnostic(*route, *evidence, d)) ==> fails_with(r, |d: DenialRecoveryProjectionDiagnostic| route_diagnostic(*route, *evidence, d)),
        !(exists|d: DenialRecoveryProjectionDiagnostic| route_diagnostic(*route, *evidence, d)) ==> r is Ok,
{
    let stage = DenialRecoveryProjectionStage::RouteValidation;
    let mut diagnostics: Vec<DenialRecoveryProjectionDiagnostic> = Vec::new();
    let batch_items = match &evidence.batch {
        None => false,
        Some(batch) => batch.items.len() > 0,
    };
    push_if(
        &mut diagnostics,
        batch_items && route.batch_collection.is_none(),
        DenialRecoveryProjectionDiagnostic::content(stage, DenialRecoveryProjectionDiagnosticKind::MissingBatchRoute, 0, 0),
    );
    push_if(
        &mut diagnostics,
        evidence.recovery_offers.len() > 0 && route.recovery_collection.is_none(),
        DenialRecoveryProjectionDiagnostic::content(stage, DenialRecoveryProjectionDiagnosticKind::MissingRecoveryRoute, 0, 0),
    );
    let ghost p = |d: DenialRecoveryProjectionDiagnostic| route_diagnostic(*route, *evidence, d);
    proof {
        assert forall|d: DenialRecoveryProjectionDiagnostic| diagnostics@.contains(d) <==> p(d) by {}
        lemma_contents_set(diagnostics@, p);
        if exists|d: DenialRecoveryProjectionDiagnostic| route_diagnostic(*route, *evidence, d) {
            let d = choose|d: DenialRecoveryProjectionDiagnostic| route_diagnostic(*route, *evidence, d);
            assert(diagnostics@.contains(d));
        }
    }
    if diagnostics.len() > 0 {
        Err(fail_with(diagnostics, Ghost(p)))
    } else {
        Ok(())
    }
}

/// Checks that the outcome has a reason and the evidence it cites.
fn validate_outcome(evidence: &DenialRecoveryEvidence) -> (r: Result<(), DenialRecoveryProjectionFailure>)
    ensures
        (exists|d: DenialRecoveryProjectionDiagnostic| outcome_diagnostic(*evidence, d)) ==> fails_with(r, |d: DenialRecoveryProjectionDiagnostic| outcome_diagnostic(*evidence, d)),
        !(exists|d: DenialRecoveryProjectionDiagnostic| outcome_diagnostic(*evidence, d)) ==> r is Ok,
{
    let stage = DenialRecoveryProjectionStage::OutcomeValidation;
    let mut diagnostics: Vec<DenialRecoveryProjectionDiagnostic> = Vec::new();
    let accepted = match evidence.result {
        ProjectionResultCategory::Accepted => true,
        _ => false,
    };
    push_if(
        &mut diagnostics,
        !accepted && evidence.reason.as_str().is_empty(),
        DenialRecoveryProjectionDiagnostic::content(stage, DenialRecoveryProjectionDiagnosticKind::MissingReason, 0, 0),
    );
    push_if(
        &mut diagnostics,
        evidence.result.requires_evidence() && evidence.evidence_ref.is_none(),
        DenialRecoveryProjectionDiagnostic::content(stage, DenialRecoveryProjectionDiagnosticKind::MissingEvidenceRef, 0, 0),
    );
    let ghost p = |d: DenialRecoveryProjectionDiagnostic| outcome_diagnostic(*evidence, d);
    proof {
        assert forall|d: DenialRecoveryProjectionDiagnostic| diagnostics@.contains(d) <==> p(d) by {}
        lemma_contents_set(diagnostics@, p);
        if exists|d: DenialRecoveryProjectionDiagnostic| outcome_diagnostic(*evidence, d) {
            let d = choose|d: DenialRecoveryProjectionDiagnostic| outcome_diagnostic(*evidence, d);
            assert(diagnostics@.contains(d));
        }
    }
    if diagnostics.len() > 0 {
        Err(fail_with(diagnostics, Ghost(p)))
    } else {
        Ok(())
    }
}

/// Entry `i` shares its order with another entry whose key is no greater.
pub open spec fn order_repeated(pairs: Seq<(u32, CollectionKey)>, i: int) -> bool {
    exists|j: int| 0 <= j < pairs.len() && j != i && #[trigger] pairs[j].0 == pairs[i].0 && pairs[j].1.spec_raw() <= pairs[i].1.spec_raw()
}

/// Entry `i` shares its key with another entry whose order is no greater.
pub open spec fn key_repeated(pairs: Seq<(u32, CollectionKey)>, i: int) -> bool {
    exists|j: int| 0 <= j < pairs.len() && j != i && #[trigger] pairs[j].1 == pairs[i].1 && pairs[j].0 <= pairs[i].0
}

/// A repeated order or key among entries taken in (order, key) order: each
/// entry after the first with its order, and each after the first with its
/// key.
pub open spec fn duplicate_diagnostic(
    pairs: Seq<(u32, CollectionKey)>,
    stage: DenialRecoveryProjectionStage,
    order_kind: DenialRecoveryProjectionDiagnosticKind,
    key_kind: DenialRecoveryProjectionDiagnosticKind,
    d: DenialRecoveryProjectionDiagnostic,
) -> bool {
    exists|i: int| #![trigger pairs[i]] 0 <= i < pairs.len() && {
        ||| order_repeated(pairs, i) && d == content_diagnostic(stage, order_kind, pairs[i].0 as u64, pairs[i].1.spec_raw())
        ||| key_repeated(pairs, i) && d == content_diagnostic(stage, key_kind, pairs[i].1.spec_raw(), pairs[i].0 as u64)
    }
}

/// No two entries share an order or a key.
pub open spec fn distinct_pairs(pairs: Seq<(u32, CollectionKey)>) -> bool {
    forall|i: int, j: int| 0 <= i < j < pairs.len() ==> #[trigger] pairs[i].0 != #[trigger] pairs[j].0 && pairs[i].1 != pairs[j].1
}

/// The order and key of each batch item.
pub open spec fn item_pairs(items: Seq<BatchProjectionItem>) -> Seq<(u32, CollectionKey)> {
    items.map_values(|it: BatchProjectionItem| (it.order, it.key))
}

/// The order and key of each recovery offer.
pub open spec fn offer_pairs(offers: Seq<RecoveryOffer>) -> Seq<(u32, CollectionKey)> {
    offers.map_values(|o: RecoveryOffer| (o.order, o.key))
}

/// `out` holds the entries of `src`, in strictly increasing order.
pub open spec fn by_increasing_order<T>(src: Seq<T>, out: Seq<T>, order: spec_fn(T) -> u32) -> bool {
    &&& out.len() == src.len()
    &&& out.to_set() == src.to_set()
    &&& forall|a: int, b: int| 0 <= a < b < out.len() ==> order(#[trigger] out[a]) < order(#[trigger] out[b])
}

/// The diagnostics of repeated orders and keys, each at least once.
fn duplicate_diagnostics(
    pairs: &Vec<(u32, CollectionKey)>,
    stage: DenialRecoveryProjectionStage,
    order_kind: DenialRecoveryProjectionDiagnosticKind,
    key_kind: DenialRecoveryProjectionDiagnosticKind,
) -> (r: Vec<DenialRecoveryProjectionDiagnostic>)
    ensures
        forall|d: DenialRecoveryProjectionDiagnostic| r@.contains(d) <==> duplicate_diagnostic(pairs@, stage, order_kind, key_kind, d),
{
    let ghost ps = pairs@;
    let mut r: Vec<DenialRecoveryProjectionDiagnostic> = Vec::new();
    let mut i: usize = 0;
    while i < pairs.len()
        invariant
            ps == pairs@,
            i <= ps.len(),
            forall|d: DenialRecoveryProjectionDiagnostic| r@.contains(d) <==> exists|q: int| #![trigger ps[q]] 0 <= q < i && {
                ||| order_repeated(ps, q) && d == content_diagnostic(stage, order_kind, ps[q].0 as u64, ps[q].1.spec_raw())
                ||| key_repeated(ps, q) && d == content_diagnostic(stage, key_kind, ps[q].1.spec_raw(), ps[q].0 as u64)
            },
        decreases ps.len() - i,
    {
        let (order, key) = pairs[i];
        let mut order_hit = false;
        let mut key_hit = false;
        let mut j: usize = 0;
        while j < pairs.len()
            invariant
                ps == pairs@,
                i < ps.len(),
                j <= ps.len(),
                (order, key) == ps[i as int],
                order_hit == exists|q: int| 0 <= q < j && q != i && #[trigger] ps[q].0 == order && ps[q].1.spec_raw() <= key.spec_raw(),
                key_hit == exists|q: int| 0 <= q < j && q != i && #[trigger] ps[q].1 == key && ps[q].0 <= order,
            decreases ps.len() - j,
        {
            let (other_order, other_key) = pairs[j];
            if j != i && other_order == order && other_key.raw() <= key.raw() {
                order_hit = true;
            }
            if j != i && other_key == key && other_order <= order {
                key_hit = true;
            }
            j += 1;
        }
        let ghost before = r@;
        let order_d = DenialRecoveryProjectionDiagnostic::content(stage, order_kind, order as u64, key.raw());
        let key_d = DenialRecoveryProjectionDiagnostic::content(stage, key_kind, key.raw(), order as u64);
        push_if(&mut r, order_hit, order_d);
        push_if(&mut r, key_hit, key_d);
        proof {
            assert(order_hit == order_repeated(ps, i as int));
            assert(key_hit == key_repeated(ps, i as int));
            assert forall|d: DenialRecoveryProjectionDiagnostic| r@.contains(d) <==> exists|q: int| #![trigger ps[q]] 0 <= q < i + 1 && {
                ||| order_repeated(ps, q) && d == content_diagnostic(stage, order_kind, ps[q].0 as u64, ps[q].1.spec_raw())
                ||| key_repeated(ps, q) && d == content_diagnostic(stage, key_kind, ps[q].1.spec_raw(), ps[q].0 as u64)
            } by {
                if r@.contains(d) && !before.contains(d) {
                    assert(ps[i as int] == (order, key));
                }
                if exists|q: int| #![trigger ps[q]] 0 <= q < i + 1 && {
                    ||| order_repeated(ps, q) && d == content_diagnostic(stage, order_kind, ps[q].0 as u64, ps[q].1.spec_raw())
                    ||| key_repeated(ps, q) && d == content_diagnostic(stage, key_kind, ps[q].1.spec_raw(), ps[q].0 as u64)
                } {
                    let q = choose|q: int| #![trigger ps[q]] 0 <= q < i + 1 && {
                        ||| order_repeated(ps, q) && d == content_diagnostic(stage, order_kind, ps[q].0 as u64, ps[q].1.spec_raw())
                        ||| key_repeated(ps, q) && d == content_diagnostic(stage, key_kind, ps[q].1.spec_raw(), ps[q].0 as u64)
                    };
                    if q < i {
                        assert(before.contains(d));
                    }
                }
            }
        }
        i += 1;
    }
    r
}

/// Entries repeat an order or a key just when they give a duplicate
/// diagnostic.
proof fn lemma_distinct_iff_no_duplicate(
    pairs: Seq<(u32, CollectionKey)>,
    stage: DenialRecoveryProjectionStage,
    order_kind: DenialRecoveryProjectionDiagnosticKind,
    key_kind: DenialRecoveryProjectionDiagnosticKind,
)
    ensures
        distinct_pairs(pairs) <==> !exists|d: DenialRecoveryProjectionDiagnostic| duplicate_diagnostic(pairs, stage, order_kind, key_kind, d),
{
    if !exists|d: DenialRecoveryProjectionDiagnostic| duplicate_diagnostic(pairs, stage, order_kind, key_kind, d) {
        assert forall|i: int, j: int| 0 <= i < j < pairs.len() implies #[trigger] pairs[i].0 != #[trigger] pairs[j].0 && pairs[i].1 != pairs[j].1 by {
            if pairs[i].0 == pairs[j].0 {
                if pairs[j].1.spec_raw() <= pairs[i].1.spec_raw() {
                    assert(order_repeated(pairs, i));
                    assert(duplicate_diagnostic(pairs, stage, order_kind, key_kind, content_diagnostic(stage, order_kind, pairs[i].0 as u64, pairs[i].1.spec_raw())));
                } else {
                    assert(order_repeated(pairs, j));
                    assert(duplicate_diagnostic(pairs, stage, order_kind, key_kind, content_diagnostic(stage, order_kind, pairs[j].0 as u64, pairs[j].1.spec_raw())));
                }
            } else if pairs[i].1 == pairs[j].1 {
                if pairs[j].0 <= pairs[i].0 {
                    assert(key_repeated(pairs, i));
                    assert(duplicate_diagnostic(pairs, stage, order_kind, key_kind, content_diagnostic(stage, key_kind, pairs[i].1.spec_raw(), pairs[i].0 as u64)));
                } else {
                    assert(key_repeated(pairs, j));
                    assert(duplicate_diagnostic(pairs, stage, order_kind, key_kind, content_diagnostic(stage, key_kind, pairs[j].1.spec_raw(), pairs[j].0 as u64)));
                }
            }
        }
    }
    if distinct_pairs(pairs) {
        assert forall|d: DenialRecoveryProjectionDiagnostic| !duplicate_diagnostic(pairs, stage, order_kind, key_kind, d) by {
            assert forall|i: int| 0 <= i < pairs.len() implies !order_repeated(pairs, i) && !key_repeated(pairs, i) by {
                if order_repeated(pairs, i) {
                    let j = choose|j: int| 0 <= j < pairs.len() && j != i && #[trigger] pairs[j].0 == pairs[i].0 && pairs[j].1.spec_raw() <= pairs[i].1.spec_raw();
                    if i < j {
                        assert(pairs[i].0 != pairs[j].0);
                    } else {
                        assert(pairs[j].0 != pairs[i].0);
                    }
                }
                if key_repeated(pairs, i) {
                    let j = choose|j: int| 0 <= j < pairs.len() && j != i && #[trigger] pairs[j].1 == pairs[i].1 && pairs[j].0 <= pairs[i].0;
                    if i < j {
                        assert(pairs[i].0 != pairs[j].0);
                    } else {
                        assert(pairs[j].0 != pairs[i].0);
                    }
                }
            }
        }
    }
}

/// The diagnostics of repeated orders and keys among batch items, each at
/// least once.
fn duplicate_batch_diagnostics(items: &Vec<BatchProjectionItem>) -> (r: Vec<DenialRecoveryProjectionDiagnostic>)
    ensures
        forall|d: DenialRecoveryProjectionDiagnostic| r@.contains(d) <==> duplicate_diagnostic(
            item_pairs(items@),
            DenialRecoveryProjectionStage::BatchValidation,
            DenialRecoveryProjectionDiagnosticKind::DuplicateBatchOrder,
            DenialRecoveryProjectionDiagnosticKind::DuplicateBatchKey,
            d,
        ),
{
    let pairs = item_pairs_of(items);
    duplicate_diagnostics(
        &pairs,
        DenialRecoveryProjectionStage::BatchValidation,
        DenialRecoveryProjectionDiagnosticKind::DuplicateBatchOrder,
        DenialRecoveryProjectionDiagnosticKind::DuplicateBatchKey,
    )
}

/// The order and key of each batch item.
fn item_pairs_of(items: &Vec<BatchProjectionItem>) -> (r: Vec<(u32, CollectionKey)>)
    ensures
        r@ == item_pairs(items@),
{
    let mut r: Vec<(u32, CollectionKey)> = Vec::new();
    let mut i: usize = 0;
    while i < items.len()
        invariant
            i <= items@.len(),
            r@ == item_pairs(items@.take(i as int)),
        decreases items@.len() - i,
    {
        r.push((items[i].order, items[i].key));
        proof {
            assert(item_pairs(items@.take(i + 1)) =~= item_pairs(items@.take(i as int)).push((items@[i as int].order, items@[i as int].key)));
        }
        i += 1;
    }
    proof {
        assert(items@.take(items@.len() as int) =~= items@);
    }
    r
}

/// The order and key of each recovery offer.
fn offer_pairs_of(offers: &Vec<RecoveryOffer>) -> (r: Vec<(u32, CollectionKey)>)
    ensures
        r@ == offer_pairs(offers@),
{
    let mut r: Vec<(u32, CollectionKey)> = Vec::new();
    let mut i: usize = 0;
    while i < offers.len()
        invariant
            i <= offers@.len(),
            r@ == offer_pairs(offers@.take(i as int)),
        decreases offers@.len() - i,
    {
        r.push((offers[i].order, offers[i].key));
        proof {
            assert(offer_pairs(offers@.take(i + 1)) =~= offer_pairs(offers@.take(i as int)).push((offers@[i as int].order, offers@[i as int].key)));
        }
        i += 1;
    }
    proof {
        assert(offers@.take(offers@.len() as int) =~= offers@);
    }
    r
}

/// The items in increasing order, when no two share an order.
fn items_by_order(items: &Vec<BatchProjectionItem>) -> (r: Vec<BatchProjectionItem>)
    requires
        forall|a: int, b: int| 0 <= a < b < items@.len() ==> #[trigger] items@[a].order != #[trigger] items@[b].order,
    ensures
        by_increasing_order(items@, r@, |it: BatchProjectionItem| it.order),
{
    let ghost src = items@;
    let mut out: Vec<BatchProjectionItem> = Vec::new();
    let mut i: usize = 0;
    proof {
        assert(out@.to_set() =~= src.take(0).to_set());
    }
    while i < items.len()
        invariant
            src == items@,
            i <= src.len(),
            forall|a: int, b: int| 0 <= a < b < src.len() ==> #[trigger] src[a].order != #[trigger] src[b].order,
            out@.len() == i,
            forall|a: int, b: int| 0 <= a < b < out@.len() ==> (#[trigger] out@[a]).order < (#[trigger] out@[b]).order,
            out@.to_set() == src.take(i as int).to_set(),
        decreases src.len() - i,
    {
        let x = items[i];
        proof {
            lemma_take_one_more_to_set(src, i as int);
        }
        let mut p: usize = 0;
        while p < out.len() && out[p].order < x.order
            invariant
                p <= out@.len(),
                forall|q: int| 0 <= q < p ==> (#[trigger] out@[q]).order < x.order,
            decreases out@.len() - p,
        {
            p += 1;
        }
        let ghost old = out@;
        proof {
            if p < old.len() && old[p as int].order == x.order {
                assert(old.to_set().contains(old[p as int]));
                assert(src.take(i as int).contains(old[p as int]));
                let j = choose|j: int| 0 <= j < i && src.take(i as int)[j] == old[p as int];
                assert(src[j].order == src[i as int].order);
            }
            lemma_insert_to_set(old, p as int, x);
        }
        out.insert(p, x);
        proof {
            let n = out@;
            assert forall|a: int, b: int| 0 <= a < b < n.len() implies (#[trigger] n[a]).order < (#[trigger] n[b]).order by {
                if a == p && b > p {
                    assert(n[b] == old[b - 1]);
                    if b - 1 > p {
                        assert(old[p as int].order < old[b - 1].order);
                    }
                } else if a < p && b == p {
                    assert(n[a] == old[a]);
                } else if a < p && b > p {
                    assert(n[a] == old[a]);
                    assert(n[b] == old[b - 1]);
                } else if a > p {
                    assert(n[a] == old[a - 1]);
                    assert(n[b] == old[b - 1]);
                } else {
                    assert(n[a] == old[a]);
                    assert(n[b] == old[b]);
                }
            }
        }
        i += 1;
    }
    proof {
        assert(src.take(src.len() as int) =~= src);
    }
    out
}

/// The offers in increasing order, when no two share an order.
fn offers_by_order(offers: &Vec<RecoveryOffer>) -> (r: Vec<RecoveryOffer>)
    requires
        forall|a: int, b: int| 0 <= a < b < offers@.len() ==> #[trigger] offers@[a].order != #[trigger] offers@[b].order,
    ensures
        by_increasing_order(offers@, r@, |o: RecoveryOffer| o.order),
{
    let ghost src = offers@;
    let mut out: Vec<RecoveryOffer> = Vec::new();
    let mut i: usize = 0;
    proof {
        assert(out@.to_set() =~= src.take(0).to_set());
    }
    while i < offers.len()
        invariant
            src == offers@,
            i <= src.len(),
            forall|a: int, b: int| 0 <= a < b < src.len() ==> #[trigger] src[a].order != #[trigger] src[b].order,
            out@.len() == i,
            forall|a: int, b: int| 0 <= a < b < out@.len() ==> (#[trigger] out@[a]).order < (#[trigger] out@[b]).order,
            out@.to_set() == src.take(i as int).to_set(),
        decreases src.len() - i,
    {
        let x = offers[i];
        proof {
            lemma_take_one_more_to_set(src, i as int);
        }
        let mut p: usize = 0;
        while p < out.len() && out[p].order < x.order
            invariant
                p <= out@.len(),
                forall|q: int| 0 <= q < p ==> (#[trigger] out@[q]).order < x.order,
            decreases out@.len() - p,
        {
            p += 1;
        }
        let ghost old = out@;
        proof {
            if p < old.len() && old[p as int].order == x.order {
                assert(old.to_set().contains(old[p as int]));
                assert(src.take(i as int).contains(old[p as int]));
                let j = choose|j: int| 0 <= j < i && src.take(i as int)[j] == old[p as int];
                assert(src[j].order == src[i as int].order);
            }
            lemma_insert_to_set(old, p as int, x);
        }
        out.insert(p, x);
        proof {
            let n = out@;
            assert forall|a: int, b: int| 0 <= a < b < n.len() implies (#[trigger] n[a]).order < (#[trigger] n[b]).order by {
                if a == p && b > p {
                    assert(n[b] == old[b - 1]);
                    if b - 1 > p {
                        assert(old[p as int].order < old[b - 1].order);
                    }
                } else if a < p && b == p {
                    assert(n[a] == old[a]);
                } else if a < p && b > p {
                    assert(n[a] == old[a]);
                    assert(n[b] == old[b - 1]);
                } else if a > p {
                    assert(n[a] == old[a - 1]);
                    assert(n[b] == old[b - 1]);
                } else {
                    assert(n[a] == old[a]);
                    assert(n[b] == old[b]);
                }
            }
        }
        i += 1;
    }
    proof {
        assert(src.take(src.len() as int) =~= src);
    }
    out
}

/// Item `x` is where an ordered batch breaks: it was denied, every item
/// ordered before it was accepted, and every item ordered after it was not
/// applied.
pub open spec fn is_break(items: Seq<BatchProjectionItem>, x: BatchProjectionItem) -> bool {
    &&& denial_like(x.result)
    &&& forall|k: int| 0 <= k < items.len() && (#[trigger] items[k]).order < x.order ==> items[k].result is Accepted
    &&& forall|k: int| 0 <= k < items.len() && (#[trigger] items[k]).order > x.order ==> items[k].result is NotApplied
}

/// Some item is where the batch breaks.
pub open spec fn has_break(items: Seq<BatchProjectionItem>) -> bool {
    exists|k: int| 0 <= k < items.len() && #[trigger] is_break(items, items[k])
}

/// Every item was accepted, or every item was denied or not applied.
pub open spec fn atomic_consistent(items: Seq<BatchProjectionItem>) -> bool {
    ||| forall|k: int| 0 <= k < items.len() ==> (#[trigger] items[k]).result is Accepted
    ||| forall|k: int| 0 <= k < items.len() ==> denial_like((#[trigger] items[k]).result) || items[k].result is NotApplied
}

/// A declared break order as a number; the largest order when none was
/// declared.
pub open spec fn declared_or_max(declared: Option<u32>) -> u64 {
    match declared {
        None => u32::MAX as u64,
        Some(o) => o as u64,
    }
}

/// Whether a break item is one is a property of the items, not of their
/// arrangement.
proof fn lemma_break_same_items(src: Seq<BatchProjectionItem>, s: Seq<BatchProjectionItem>, x: BatchProjectionItem)
    requires
        src.to_set() == s.to_set(),
    ensures
        is_break(src, x) == is_break(s, x),
{
    if is_break(src, x) {
        assert forall|k: int| 0 <= k < s.len() && (#[trigger] s[k]).order < x.order implies s[k].result is Accepted by {
            assert(s.to_set().contains(s[k]));
            let m = choose|m: int| 0 <= m < src.len() && src[m] == s[k];
            assert(src[m].order < x.order);
        }
        assert forall|k: int| 0 <= k < s.len() && (#[trigger] s[k]).order > x.order implies s[k].result is NotApplied by {
            assert(s.to_set().contains(s[k]));
            let m = choose|m: int| 0 <= m < src.len() && src[m] == s[k];
            assert(src[m].order > x.order);
        }
    }
    if is_break(s, x) {
        assert forall|k: int| 0 <= k < src.len() && (#[trigger] src[k]).order < x.order implies src[k].result is Accepted by {
            assert(src.to_set().contains(src[k]));
            let m = choose|m: int| 0 <= m < s.len() && s[m] == src[k];
            assert(s[m].order < x.order);
        }
        assert forall|k: int| 0 <= k < src.len() && (#[trigger] src[k]).order > x.order implies src[k].result is NotApplied by {
            assert(src.to_set().contains(src[k]));
            let m = choose|m: int| 0 <= m < s.len() && s[m] == src[k];
            assert(s[m].order > x.order);
        }
    }
}

/// Two break items of one batch have the same order.
proof fn lemma_break_unique(items: Seq<BatchProjectionItem>, a: int, b: int)
    requires
        0 <= a < items.len(),
        0 <= b < items.len(),
        is_break(items, items[a]),
        is_break(items, items[b]),
    ensures
        items[a].order == items[b].order,
{
    if items[a].order < items[b].order {
        assert(items[a].result is Accepted);
    }
    if items[b].order < items[a].order {
        assert(items[b].result is Accepted);
    }
}

/// Walks an ordered batch in order of its items: accepted items, one denied
/// item, then items not applied. Gives the order of the denied item when the
/// walk holds, and nothing otherwise.
fn ordered_break(sorted: &Vec<BatchProjectionItem>, Ghost(src): Ghost<Seq<BatchProjectionItem>>) -> (r: Option<u32>)
    requires
        by_increasing_order(src, sorted@, |it: BatchProjectionItem| it.order),
    ensures
        r is Some <==> has_break(src),
        r matches Some(o) ==> exists|k: int| 0 <= k < src.len() && #[trigger] is_break(src, src[k]) && src[k].order == o,
{
    let ghost s = sorted@;
    let mut phase: u8 = 0;
    let mut break_order: Option<u32> = None;
    let mut valid = true;
    let ghost mut b: int = 0;
    let mut i: usize = 0;
    while i < sorted.len()
        invariant
            s == sorted@,
            i <= s.len(),
            forall|x: int, y: int| 0 <= x < y < s.len() ==> (#[trigger] s[x]).order < (#[trigger] s[y]).order,
            phase <= 2,
            valid && phase == 0 ==> break_order is None && forall|k: int| 0 <= k < i ==> (#[trigger] s[k]).result is Accepted,
            valid && phase >= 1 ==> {
                &&& 0 <= b < i
                &&& break_order == Some(s[b].order)
                &&& denial_like(s[b].result)
                &&& forall|k: int| 0 <= k < b ==> (#[trigger] s[k]).result is Accepted
                &&& forall|k: int| b < k < i ==> (#[trigger] s[k]).result is NotApplied
            },
            !valid ==> !has_break(s),
        decreases s.len() - i,
    {
        let item = sorted[i];
        let denial = item.result.is_denial_like();
        let ghost was_valid = valid;
        match item.result {
            ProjectionResultCategory::Accepted if phase == 0 => {},
            ProjectionResultCategory::NotApplied if phase >= 1 => {
                phase = 2;
            },
            _ => {
                if phase == 0 && denial {
                    phase = 1;
                    break_order = Some(item.order);
                    proof {
                        b = i as int;
                    }
                } else {
                    valid = false;
                    proof {
                        if was_valid {
                            assert forall|k: int| 0 <= k < s.len() implies !is_break(s, #[trigger] s[k]) by {
                                if is_break(s, s[k]) {
                                    if phase == 0 {
                                        if k < i {
                                            assert(s[k].result is Accepted);
                                        } else if k > i {
                                            assert(s[i as int].order < s[k].order);
                                        }
                                    } else {
                                        if k == b {
                                            assert(s[b].order < s[i as int].order);
                                        } else if k < b {
                                            assert(s[k].order < s[b].order);
                                        } else {
                                            assert(s[b].order < s[k].order);
                                        }
                                    }
                                }
                            }
                        }
                    }
                }
            },
        }
        i += 1;
    }
    proof {
        if valid && phase >= 1 {
            assert(is_break(s, s[b]));
        }
        if valid && phase == 0 {
            assert forall|k: int| 0 <= k < s.len() implies !is_break(s, #[trigger] s[k]) by {
                assert(s[k].result is Accepted);
            }
        }
        if has_break(src) {
            let k = choose|k: int| 0 <= k < src.len() && #[trigger] is_break(src, src[k]);
            lemma_break_same_items(src, s, src[k]);
            assert(src.to_set().contains(src[k]));
            let m = choose|m: int| 0 <= m < s.len() && s[m] == src[k];
            assert(is_break(s, s[m]));
        }
        if has_break(s) {
            let k = choose|k: int| 0 <= k < s.len() && #[trigger] is_break(s, s[k]);
            lemma_break_same_items(src, s, s[k]);
            assert(s.to_set().contains(s[k]));
            let m = choose|m: int| 0 <= m < src.len() && src[m] == s[k];
            assert(is_break(src, src[m]));
        }
        if valid && phase >= 1 {
            lemma_break_same_items(src, s, s[b]);
            assert(s.to_set().contains(s[b]));
            let m = choose|m: int| 0 <= m < src.len() && src[m] == s[b];
            assert(is_break(src, src[m]) && src[m].order == s[b].order);
        }
    }
    if valid && phase >= 1 {
        break_order
    } else {
        None
    }
}

/// Whether every item was accepted, and whether every item was denied or
/// not applied.
fn atomic_flags(items: &Vec<BatchProjectionItem>) -> (r: (bool, bool))
    ensures
        r.0 == forall|k: int| 0 <= k < items@.len() ==> (#[trigger] items@[k]).result is Accepted,
        r.1 == forall|k: int| 0 <= k < items@.len() ==> denial_like((#[trigger] items@[k]).result) || items@[k].result is NotApplied,
{
    let mut all_accepted = true;
    let mut all_denied_or_not_applied = true;
    let mut i: usize = 0;
    while i < items.len()
        invariant
            i <= items@.len(),
            all_accepted == forall|k: int| 0 <= k < i ==> (#[trigger] items@[k]).result is Accepted,
            all_denied_or_not_applied == forall|k: int| 0 <= k < i ==> denial_like((#[trigger] items@[k]).result) || items@[k].result is NotApplied,
        decreases items@.len() - i,
    {
        let result = items[i].result;
        let accepted = match result {
            ProjectionResultCategory::Accepted => true,
            _ => false,
        };
        let not_applied = match result {
            ProjectionResultCategory::NotApplied => true,
            _ => false,
        };
        if !accepted {
            all_accepted = false;
        }
        if !(result.is_denial_like() || not_applied) {
            all_denied_or_not_applied = false;
        }
        i += 1;
    }
    (all_accepted, all_denied_or_not_applied)
}

/// What is wrong with the batch: none where the category needs one; else
/// repeated orders and keys; else, when none repeat, an atomic batch whose
/// items neither all succeed nor all fail, or an ordered batch that does
/// not break once or breaks where it was not declared to; and, in any case,
/// an accepted outcome with an item that was not accepted.
pub open spec fn batch_diagnostic(ev: DenialRecoveryEvidence, d: DenialRecoveryProjectionDiagnostic) -> bool {
    let stage = DenialRecoveryProjectionStage::BatchValidation;
    match ev.batch {
        None => needs_batch(ev.result) && d == content_diagnostic(stage, DenialRecoveryProjectionDiagnosticKind::InvalidOrderedPartialBatch, 0, 0),
        Some(b) => {
            let items = b.items@;
            let distinct = distinct_pairs(item_pairs(items));
            ||| duplicate_diagnostic(
                item_pairs(items),
                stage,
                DenialRecoveryProjectionDiagnosticKind::DuplicateBatchOrder,
                DenialRecoveryProjectionDiagnosticKind::DuplicateBatchKey,
                d,
            )
            ||| distinct && b.mode is Atomic && !atomic_consistent(items)
                && d == content_diagnostic(stage, DenialRecoveryProjectionDiagnosticKind::InvalidAtomicBatch, 0, 0)
            ||| distinct && b.mode is OrderedPartial && !has_break(items)
                && d == content_diagnostic(stage, DenialRecoveryProjectionDiagnosticKind::InvalidOrderedPartialBatch, 0, 0)
            ||| distinct && b.mode is OrderedPartial && exists|k: int| 0 <= k < items.len() && #[trigger] is_break(items, items[k])
                && b.declared_break_order != Some(items[k].order) && d == content_diagnostic(
                stage,
                DenialRecoveryProjectionDiagnosticKind::BatchBreakMismatch,
                declared_or_max(b.declared_break_order),
                items[k].order as u64,
            )
            ||| ev.result is Accepted && (exists|k: int| 0 <= k < items.len() && !((#[trigger] items[k]).result is Accepted))
                && d == content_diagnostic(stage, DenialRecoveryProjectionDiagnosticKind::InvalidAtomicBatch, 0, 0)
        },
    }
}

/// The batch a valid projection presents: none without one, else the same
/// batch with its items in increasing order.
pub open spec fn batch_output(src: Option<BatchProjection>, out: Option<BatchProjection>) -> bool {
    match src {
        None => out is None,
        Some(b) => out matches Some(c) && c.mode == b.mode && c.declared_break_order == b.declared_break_order
            && by_increasing_order(b.items@, c.items@, |it: BatchProjectionItem| it.order),
    }
}

/// Checks the batch and puts its items in order.
fn validate_batch(evidence: &DenialRecoveryEvidence) -> (r: Result<Option<BatchProjection>, DenialRecoveryProjectionFailure>)
    ensures
        (exists|d: DenialRecoveryProjectionDiagnostic| batch_diagnostic(*evidence, d)) ==> fails_with(r, |d: DenialRecoveryProjectionDiagnostic| batch_diagnostic(*evidence, d)),
        !(exists|d: DenialRecoveryProjectionDiagnostic| batch_diagnostic(*evidence, d)) ==> (r matches Ok(out) && batch_output(evidence.batch, out)),
{
    let stage = DenialRecoveryProjectionStage::BatchValidation;
    let ghost p = |d: DenialRecoveryProjectionDiagnostic| batch_diagnostic(*evidence, d);
    match &evidence.batch {
        None => {
            if evidence.result.requires_batch() {
                let v = vec![DenialRecoveryProjectionDiagnostic::content(stage, DenialRecoveryProjectionDiagnosticKind::InvalidOrderedPartialBatch, 0, 0)];
                proof {
                    assert forall|d: DenialRecoveryProjectionDiagnostic| v@.contains(d) <==> p(d) by {
                        if v@.contains(d) {
                            assert(v@[0] == d);
                        }
                        if p(d) {
                            assert(v@[0] == d);
                        }
                    }
                    assert(p(v@[0]));
                }
                return Err(fail_with(v, Ghost(p)));
            }
            Ok(None)
        },
        Some(batch) => {
            let ghost items = batch.items@;
            let mut diagnostics = duplicate_batch_diagnostics(&batch.items);
            let ghost distinct_spec = distinct_pairs(item_pairs(items));
            proof {
                lemma_distinct_iff_no_duplicate(
                    item_pairs(items),
                    stage,
                    DenialRecoveryProjectionDiagnosticKind::DuplicateBatchOrder,
                    DenialRecoveryProjectionDiagnosticKind::DuplicateBatchKey,
                );
                if diagnostics@.len() > 0 {
                    assert(diagnostics@.contains(diagnostics@[0]));
                }
                if exists|d: DenialRecoveryProjectionDiagnostic| duplicate_diagnostic(
                    item_pairs(items),
                    stage,
                    DenialRecoveryProjectionDiagnosticKind::DuplicateBatchOrder,
                    DenialRecoveryProjectionDiagnosticKind::DuplicateBatchKey,
                    d,
                ) {
                    let d = choose|d: DenialRecoveryProjectionDiagnostic| duplicate_diagnostic(
                        item_pairs(items),
                        stage,
                        DenialRecoveryProjectionDiagnosticKind::DuplicateBatchOrder,
                        DenialRecoveryProjectionDiagnosticKind::DuplicateBatchKey,
                        d,
                    );
                    assert(diagnostics@.contains(d));
                }
            }
            let distinct = diagnostics.len() == 0;
            assert(distinct == distinct_spec);
            let mut sorted: Vec<BatchProjectionItem> = Vec::new();
            let (all_accepted, all_denied_or_not_applied) = atomic_flags(&batch.items);
            let mut atomic_bad = false;
            let mut unbroken = false;
            let mut mismatch = false;
            let mut found: u32 = 0;
            let ghost mut brk: Option<u32> = None;
            if distinct {
                proof {
                    assert forall|a: int, b: int| 0 <= a < b < items.len() implies #[trigger] items[a].order != #[trigger] items[b].order by {
                        assert(item_pairs(items)[a].0 == items[a].order);
                        assert(item_pairs(items)[b].0 == items[b].order);
                    }
                }
                sorted = items_by_order(&batch.items);
                match batch.mode {
                    BatchMode::Atomic => {
                        atomic_bad = !all_accepted && !all_denied_or_not_applied;
                    },
                    BatchMode::OrderedPartial => {
                        let walked = ordered_break(&sorted, Ghost(items));
                        proof {
                            brk = walked;
                        }
                        match walked {
                            None => {
                                unbroken = true;
                            },
                            Some(o) => {
                                found = o;
                                mismatch = match batch.declared_break_order {
                                    None => true,
                                    Some(declared) => declared != o,
                                };
                            },
                        }
                    },
                }
            }
            let declared: u64 = match batch.declared_break_order {
                None => u32::MAX as u64,
                Some(o) => o as u64,
            };
            let accepted = match evidence.result {
                ProjectionResultCategory::Accepted => true,
                _ => false,
            };
            proof {
                assert(atomic_bad == (distinct_spec && batch.mode is Atomic && !atomic_consistent(items)));
                assert(unbroken == (distinct_spec && batch.mode is OrderedPartial && !has_break(items)));
                assert(distinct_spec && batch.mode is OrderedPartial && has_break(items) ==> brk == Some(found)
                    && exists|k: int| 0 <= k < items.len() && #[trigger] is_break(items, items[k]) && items[k].order == found);
                assert(mismatch == (distinct_spec && batch.mode is OrderedPartial && has_break(items) && batch.declared_break_order != Some(found)));
                assert(declared == declared_or_max(batch.declared_break_order));
                assert((accepted && !all_accepted) == (evidence.result is Accepted && exists|k: int| 0 <= k < items.len() && !((#[trigger] items[k]).result is Accepted)));
            }
            let ghost dups = diagnostics@;
            push_if(&mut diagnostics, atomic_bad, DenialRecoveryProjectionDiagnostic::content(stage, DenialRecoveryProjectionDiagnosticKind::InvalidAtomicBatch, 0, 0));
            push_if(
                &mut diagnostics,
                unbroken,
                DenialRecoveryProjectionDiagnostic::content(stage, DenialRecoveryProjectionDiagnosticKind::InvalidOrderedPartialBatch, 0, 0),
            );
            push_if(
                &mut diagnostics,
                mismatch,
                DenialRecoveryProjectionDiagnostic::content(stage, DenialRecoveryProjectionDiagnosticKind::BatchBreakMismatch, declared, found as u64),
            );
            push_if(
                &mut diagnostics,
                accepted && !all_accepted,
                DenialRecoveryProjectionDiagnostic::content(stage, DenialRecoveryProjectionDiagnosticKind::InvalidAtomicBatch, 0, 0),
            );
            proof {
                let mm = content_diagnostic(stage, DenialRecoveryProjectionDiagnosticKind::BatchBreakMismatch, declared, found as u64);
                assert forall|d: DenialRecoveryProjectionDiagnostic| diagnostics@.contains(d) <==> p(d) by {
                    let mm_spec = distinct_spec && batch.mode is OrderedPartial && exists|k: int| 0 <= k < items.len() && #[trigger] is_break(items, items[k])
                        && batch.declared_break_order != Some(items[k].order) && d == content_diagnostic(
                        stage,
                        DenialRecoveryProjectionDiagnosticKind::BatchBreakMismatch,
                        declared_or_max(batch.declared_break_order),
                        items[k].order as u64,
                    );
                    if mm_spec {
                        let k2 = choose|k2: int| 0 <= k2 < items.len() && #[trigger] is_break(items, items[k2])
                            && batch.declared_break_order != Some(items[k2].order) && d == content_diagnostic(
                            stage,
                            DenialRecoveryProjectionDiagnosticKind::BatchBreakMismatch,
                            declared_or_max(batch.declared_break_order),
                            items[k2].order as u64,
                        );
                        let k = choose|k: int| 0 <= k < items.len() && #[trigger] is_break(items, items[k]) && items[k].order == found;
                        lemma_break_unique(items, k, k2);
                        assert(mismatch && d == mm);
                    }
                    if mismatch && d == mm {
                        let k = choose|k: int| 0 <= k < items.len() && #[trigger] is_break(items, items[k]) && items[k].order == found;
                        assert(mm_spec);
                    }
                }
                lemma_contents_set(diagnostics@, p);
                if exists|d: DenialRecoveryProjectionDiagnostic| batch_diagnostic(*evidence, d) {
                    let d = choose|d: DenialRecoveryProjectionDiagnostic| batch_diagnostic(*evidence, d);
                    assert(diagnostics@.contains(d));
                }
            }
            if diagnostics.len() > 0 {
                return Err(fail_with(diagnostics, Ghost(p)));
            }
            Ok(Some(BatchProjection { mode: batch.mode, declared_break_order: batch.declared_break_order, items: sorted }))
        },
    }
}

/// What is wrong with the recovery offers: repeated orders and keys, an
/// offer other than a dismissal that names no action, and a resumption
/// without a token.
pub open spec fn recovery_diagnostic(ev: DenialRecoveryEvidence, d: DenialRecoveryProjectionDiagnostic) -> bool {
    let offers = ev.recovery_offers@;
    let stage = DenialRecoveryProjectionStage::RecoveryValidation;
    ||| duplicate_diagnostic(
        offer_pairs(offers),
        stage,
        DenialRecoveryProjectionDiagnosticKind::DuplicateRecoveryOrder,
        DenialRecoveryProjectionDiagnosticKind::DuplicateRecoveryKey,
        d,
    )
    ||| exists|k: int| #![trigger offers[k]] 0 <= k < offers.len() && offer_diagnostic(offers[k], d)
}

/// What is missing from one offer: the action of any offer but a
/// dismissal, and the token of a resumption.
pub open spec fn offer_diagnostic(o: RecoveryOffer, d: DenialRecoveryProjectionDiagnostic) -> bool {
    let stage = DenialRecoveryProjectionStage::RecoveryValidation;
    ||| !(o.kind is Dismiss) && o.action_ref is None
        && d == content_diagnostic(stage, DenialRecoveryProjectionDiagnosticKind::RecoveryActionRefMissing, o.order as u64, o.key.spec_raw())
    ||| o.kind is Resume && o.resume_token is None
        && d == content_diagnostic(stage, DenialRecoveryProjectionDiagnosticKind::ResumeTokenMissing, o.order as u64, o.key.spec_raw())
}

/// Checks the recovery offers and puts them in order.
fn validate_recovery(evidence: &DenialRecoveryEvidence) -> (r: Result<Vec<RecoveryOffer>, DenialRecoveryProjectionFailure>)
    ensures
        (exists|d: DenialRecoveryProjectionDiagnostic| recovery_diagnostic(*evidence, d)) ==> fails_with(r, |d: DenialRecoveryProjectionDiagnostic| recovery_diagnostic(*evidence, d)),
        !(exists|d: DenialRecoveryProjectionDiagnostic| recovery_diagnostic(*evidence, d)) ==> (r matches Ok(out)
            && by_increasing_order(evidence.recovery_offers@, out@, |o: RecoveryOffer| o.order)),
{
    let stage = DenialRecoveryProjectionStage::RecoveryValidation;
    let ghost offers = evidence.recovery_offers@;
    let ghost p = |d: DenialRecoveryProjectionDiagnostic| recovery_diagnostic(*evidence, d);
    let pairs = offer_pairs_of(&evidence.recovery_offers);
    let mut diagnostics = duplicate_diagnostics(
        &pairs,
        stage,
        DenialRecoveryProjectionDiagnosticKind::DuplicateRecoveryOrder,
        DenialRecoveryProjectionDiagnosticKind::DuplicateRecoveryKey,
    );
    let ghost dups = diagnostics@;
    let ghost dup = |d: DenialRecoveryProjectionDiagnostic| duplicate_diagnostic(
        offer_pairs(offers),
        stage,
        DenialRecoveryProjectionDiagnosticKind::DuplicateRecoveryOrder,
        DenialRecoveryProjectionDiagnosticKind::DuplicateRecoveryKey,
        d,
    );
    assert(forall|d: DenialRecoveryProjectionDiagnostic| dups.contains(d) <==> dup(d));
    let mut i: usize = 0;
    while i < evidence.recovery_offers.len()
        invariant
            offers == evidence.recovery_offers@,
            stage == DenialRecoveryProjectionStage::RecoveryValidation,
            i <= offers.len(),
            forall|d: DenialRecoveryProjectionDiagnostic| diagnostics@.contains(d) <==> dups.contains(d) || exists|k: int| #![trigger offers[k]] 0 <= k < i && offer_diagnostic(offers[k], d),
        decreases offers.len() - i,
    {
        let offer = evidence.recovery_offers[i];
        let ghost before = diagnostics@;
        assert(forall|d: DenialRecoveryProjectionDiagnostic| before.contains(d) <==> dups.contains(d) || exists|k: int| #![trigger offers[k]] 0 <= k < i && offer_diagnostic(offers[k], d));
        let needs_ref = offer.kind.requires_action_ref();
        let missing_ref = needs_ref && offer.action_ref.is_none();
        assert(missing_ref == (!(offer.kind is Dismiss) && offer.action_ref is None));
        push_if(
            &mut diagnostics,
            missing_ref,
            DenialRecoveryProjectionDiagnostic::content(stage, DenialRecoveryProjectionDiagnosticKind::RecoveryActionRefMissing, offer.order as u64, offer.key.raw()),
        );
        let resume = match offer.kind {
            RecoveryKind::Resume => true,
            _ => false,
        };
        let missing_token = resume && offer.resume_token.is_none();
        assert(missing_token == (offer.kind is Resume && offer.resume_token is None));
        push_if(
            &mut diagnostics,
            missing_token,
            DenialRecoveryProjectionDiagnostic::content(stage, DenialRecoveryProjectionDiagnosticKind::ResumeTokenMissing, offer.order as u64, offer.key.raw()),
        );
        proof {
            assert forall|d: DenialRecoveryProjectionDiagnostic| diagnostics@.contains(d) <==> dups.contains(d) || exists|k: int| #![trigger offers[k]] 0 <= k < i + 1 && offer_diagnostic(offers[k], d) by {
                if diagnostics@.contains(d) && !before.contains(d) {
                    assert(offers[i as int] == offer);
                    assert(offer_diagnostic(offers[i as int], d));
                }
                if exists|k: int| #![trigger offers[k]] 0 <= k < i + 1 && offer_diagnostic(offers[k], d) {
                    let k = choose|k: int| #![trigger offers[k]] 0 <= k < i + 1 && offer_diagnostic(offers[k], d);
                    if k < i {
                        assert(before.contains(d));
                    }
                }
            }
        }
        i += 1;
    }
    proof {
        assert forall|d: DenialRecoveryProjectionDiagnostic| diagnostics@.contains(d) <==> p(d) by {
            assert(dups.contains(d) <==> dup(d));
        }
        lemma_contents_set(diagnostics@, p);
        if exists|d: DenialRecoveryProjectionDiagnostic| recovery_diagnostic(*evidence, d) {
            let d = choose|d: DenialRecoveryProjectionDiagnostic| recovery_diagnostic(*evidence, d);
            assert(diagnostics@.contains(d));
        }
    }
    if diagnostics.len() > 0 {
        return Err(fail_with(diagnostics, Ghost(p)));
    }
    proof {
        assert forall|d: DenialRecoveryProjectionDiagnostic| !#[trigger] duplicate_diagnostic(
            offer_pairs(offers),
            stage,
            DenialRecoveryProjectionDiagnosticKind::DuplicateRecoveryOrder,
            DenialRecoveryProjectionDiagnosticKind::DuplicateRecoveryKey,
            d,
        ) by {
            if dup(d) {
                assert(dups.contains(d));
                assert(diagnostics@.contains(d));
            }
        }
        lemma_distinct_iff_no_duplicate(
            offer_pairs(offers),
            stage,
            DenialRecoveryProjectionDiagnosticKind::DuplicateRecoveryOrder,
            DenialRecoveryProjectionDiagnosticKind::DuplicateRecoveryKey,
        );
        assert forall|a: int, b: int| 0 <= a < b < offers.len() implies #[trigger] offers[a].order != #[trigger] offers[b].order by {
            assert(offer_pairs(offers)[a].0 == offers[a].order);
            assert(offer_pairs(offers)[b].0 == offers[b].order);
        }
    }
    Ok(offers_by_order(&evidence.recovery_offers))
}

/// The operations that present a denial, with what they were made from.
#[derive(Debug, Clone, PartialEq, Eq)]
pub struct DenialRecoveryProjectionArtifact {
    patch: ProjectionPatch,
    action_ref: Option<SemanticActionRef>,
    evidence_ref: Option<SemanticEvidenceRef>,
    recovery_offers: Vec<RecoveryOffer>,
    batch: Option<BatchProjection>,
    operation_count: usize,
}

impl DenialRecoveryProjectionArtifact {
    pub closed spec fn spec_patch(&self) -> ProjectionPatch {
        self.patch
    }

    pub closed spec fn spec_action_ref(&self) -> Option<SemanticActionRef> {
        self.action_ref
    }

    pub closed spec fn spec_evidence_ref(&self) -> Option<SemanticEvidenceRef> {
        self.evidence_ref
    }

    pub closed spec fn spec_recovery_offers(&self) -> Seq<RecoveryOffer> {
        self.recovery_offers@
    }

    pub closed spec fn spec_batch(&self) -> Option<BatchProjection> {
        self.batch
    }

    pub closed spec fn spec_operation_count(&self) -> usize {
        self.operation_count
    }

    /// The patch that presents the denial.
    pub fn patch(&self) -> (r: &ProjectionPatch)
        ensures
            *r == self.spec_patch(),
    {
        &self.patch
    }

    pub fn action_ref(&self) -> (r: Option<SemanticActionRef>)
        ensures
            r == self.spec_action_ref(),
    {
        self.action_ref
    }

    pub fn evidence_ref(&self) -> (r: Option<SemanticEvidenceRef>)
        ensures
            r == self.spec_evidence_ref(),
    {
        self.evidence_ref
    }

    pub fn recovery_offers(&self) -> (r: &[RecoveryOffer])
        ensures
            r@ == self.spec_recovery_offers(),
    {
        self.recovery_offers.as_slice()
    }

    pub fn batch(&self) -> (r: Option<&BatchProjection>)
        ensures
            r is None <==> self.spec_batch() is None,
            r matches Some(b) ==> self.spec_batch() == Some(*b),
    {
        match &self.batch {
            None => None,
            Some(b) => Some(b),
        }
    }

    pub fn operation_count(&self) -> (r: usize)
        ensures
            r == self.spec_operation_count(),
    {
        self.operation_count
    }
}

/// The number of operations a projection of the evidence writes: the
/// category, the reason when there is one, the freshness token, one per
/// control, one per batch item and one per recovery offer.
pub open spec fn predicted_operations(route: DenialRecoveryRoute, ev: DenialRecoveryEvidence) -> int {
    2 + (if ev.reason@.len() > 0 { 1int } else { 0int }) + route.freshness_route.spec_controls().len() + batch_len(ev)
        + ev.recovery_offers@.len()
}

/// The number of operations a projection writes, or nothing when the count
/// does not fit.
fn predicted_operation_count(route: &DenialRecoveryRoute, evidence: &DenialRecoveryEvidence) -> (r: Option<usize>)
    ensures
        r is None <==> predicted_operations(*route, *evidence) > usize::MAX,
        r matches Some(v) ==> v == predicted_operations(*route, *evidence),
{
    let mut count: usize = 2;
    if !evidence.reason.as_str().is_empty() {
        count = count + 1;
    }
    count = match count.checked_add(route.freshness_route.controls().len()) {
        Some(c) => c,
        None => {
            return None;
        },
    };
    let items: usize = match &evidence.batch {
        None => 0,
        Some(batch) => batch.items.len(),
    };
    count = match count.checked_add(items) {
        Some(c) => c,
        None => {
            return None;
        },
    };
    count.checked_add(evidence.recovery_offers.len())
}

/// Freshness stops the projection: too many controls, or a control
/// diagnostic.
pub open spec fn freshness_rejects(route: DenialRecoveryRoute, ev: DenialRecoveryEvidence, limits: DenialRecoveryLimits) -> bool {
    let cs = route.freshness_route.spec_controls();
    ||| cs.len() > limits.max_control_routes
    ||| cs.len() >= usize::MAX
    ||| exists|d: FreshnessProjectionDiagnostic| control_diagnostic(ev.freshness, cs, d)
}

/// A critical attempt under freshness that restricts critical controls
/// must be a local denial.
pub open spec fn critical_blocked(ev: DenialRecoveryEvidence) -> bool {
    ev.critical_attempt && restricts_critical(ev.freshness) && !(ev.result is LocalDenied)
}

/// `op` writes `text` into the slot of `target`.
pub open spec fn text_op(op: ProjectionPatchOperation, target: BindingTarget, text: Seq<char>) -> bool {
    op matches ProjectionPatchOperation::SetBindingValue { target: t, value: ProjectionPatchValue::Text(s) } && t == target && s@ == text
}

/// `op` appends an entry with `key` and `text` to `collection`.
pub open spec fn insert_op(op: ProjectionPatchOperation, collection: StaticNodeId, key: CollectionKey, text: Seq<char>) -> bool {
    op matches ProjectionPatchOperation::CollectionInsert { collection: c, key: k, before: b, value: ProjectionPatchValue::Text(s) }
        && c == collection && k == key && b is None && s@ == text
}

/// The operations of a denial projection, in order: the category token,
/// the reason when there is one, the freshness token, an entry per batch
/// item when the route has a batch collection, the control availabilities,
/// and an entry per recovery offer when the route has a recovery
/// collection. `fo` are the freshness operations.
pub open spec fn denial_operations(
    route: DenialRecoveryRoute,
    ev: DenialRecoveryEvidence,
    fo: Seq<ProjectionPatchOperation>,
    items: Seq<BatchProjectionItem>,
    offers: Seq<RecoveryOffer>,
    ops: Seq<ProjectionPatchOperation>,
) -> bool {
    let r: int = if ev.reason@.len() > 0 { 1 } else { 0 };
    let nb: int = if route.batch_collection is Some { items.len() as int } else { 0 };
    let nc: int = fo.len() - 1;
    let no: int = if route.recovery_collection is Some { offers.len() as int } else { 0 };
    &&& ops.len() == 2 + r + nb + nc + no
    &&& text_op(ops[0], route.result_target, category_token(ev.result))
    &&& r == 1 ==> text_op(ops[1], route.reason_target, ev.reason@)
    &&& ops[1 + r] == fo[0]
    &&& forall|j: int| 2 + r <= j < 2 + r + nb ==> insert_op(
        #[trigger] ops[j],
        route.batch_collection->0,
        items[j - 2 - r].key,
        category_token(items[j - 2 - r].result),
    )
    &&& forall|j: int| 2 + r + nb <= j < 2 + r + nb + nc ==> #[trigger] ops[j] == fo[j - 1 - r - nb]
    &&& forall|j: int| 2 + r + nb + nc <= j < ops.len() ==> insert_op(
        #[trigger] ops[j],
        route.recovery_collection->0,
        offers[j - 2 - r - nb - nc].key,
        recovery_token(offers[j - 2 - r - nb - nc].kind),
    )
}

/// What a denial projection returns. Each stage runs only when those before
/// it passed: the bounds; the routes; the freshness projection; a critical
/// attempt under restricting freshness that is not a local denial; the
/// outcome; the batch; the recovery offers; the operation count. Each
/// failing stage gives its diagnostics, sorted with each once. Past them all,
/// the projection gives the patch of the operations under the evidence's
/// envelope, the batch and the offers in order,
/// the references of the evidence, and the operation count.
pub open spec fn denial_recovery_outcome(
    route: DenialRecoveryRoute,
    ev: DenialRecoveryEvidence,
    limits: DenialRecoveryLimits,
    r: Result<DenialRecoveryProjectionArtifact, DenialRecoveryProjectionFailure>,
) -> bool {
    let count = predicted_operations(route, ev);
    if exists|d: DenialRecoveryProjectionDiagnostic| preflight_diagnostic(route, ev, limits, d) {
        fails_with(r, |d: DenialRecoveryProjectionDiagnostic| preflight_diagnostic(route, ev, limits, d))
    } else if exists|d: DenialRecoveryProjectionDiagnostic| route_diagnostic(route, ev, d) {
        fails_with(r, |d: DenialRecoveryProjectionDiagnostic| route_diagnostic(route, ev, d))
    } else if freshness_rejects(route, ev, limits) {
        r matches Err(DenialRecoveryProjectionFailure::Freshness(fd)) && freshness_outcome(
            ev.freshness,
            route.freshness_route,
            FreshnessProjectionLimits::spec_new(limits.max_control_routes, usize::MAX),
            Err(fd),
        )
    } else if critical_blocked(ev) {
        r matches Err(DenialRecoveryProjectionFailure::Diagnostics(ds)) && ds@ == seq![
            content_diagnostic(
                DenialRecoveryProjectionStage::FreshnessValidation,
                DenialRecoveryProjectionDiagnosticKind::InvalidFreshnessOutcome,
                0,
                0,
            ),
        ]
    } else if exists|d: DenialRecoveryProjectionDiagnostic| outcome_diagnostic(ev, d) {
        fails_with(r, |d: DenialRecoveryProjectionDiagnostic| outcome_diagnostic(ev, d))
    } else if exists|d: DenialRecoveryProjectionDiagnostic| batch_diagnostic(ev, d) {
        fails_with(r, |d: DenialRecoveryProjectionDiagnostic| batch_diagnostic(ev, d))
    } else if exists|d: DenialRecoveryProjectionDiagnostic| recovery_diagnostic(ev, d) {
        fails_with(r, |d: DenialRecoveryProjectionDiagnostic| recovery_diagnostic(ev, d))
    } else if count > usize::MAX || count > limits.max_total_operations {
        r matches Err(DenialRecoveryProjectionFailure::Diagnostics(ds)) && ds@ == seq![
            bound_diagnostic(
                DenialRecoveryProjectionStage::OperationConstruction,
                DenialRecoveryProjectionDiagnosticKind::OperationLimitExceeded,
                DenialRecoveryLimitKind::TotalOperations,
                if count > usize::MAX { usize::MAX } else { count as usize },
                limits.max_total_operations,
            ),
        ]
    } else {
        r matches Ok(a) && {
            &&& a.spec_patch().spec_envelope() == ev.envelope
            &&& a.spec_action_ref() == ev.action_ref
            &&& a.spec_evidence_ref() == ev.evidence_ref
            &&& a.spec_operation_count() == count
            &&& batch_output(ev.batch, a.spec_batch())
            &&& by_increasing_order(ev.recovery_offers@, a.spec_recovery_offers(), |o: RecoveryOffer| o.order)
            &&& exists|fo: Seq<ProjectionPatchOperation>| freshness_operations(ev.freshness, route.freshness_route, fo) && denial_operations(
                route,
                ev,
                fo,
                batch_items_of(a.spec_batch()),
                a.spec_recovery_offers(),
                a.spec_patch().spec_operations(),
            )
        }
    }
}

/// Appends an entry per batch item to `collection`.
fn push_batch_inserts(ops: &mut Vec<ProjectionPatchOperation>, collection: StaticNodeId, items: &Vec<BatchProjectionItem>)
    ensures
        final(ops)@.len() == old(ops)@.len() + items@.len(),
        forall|j: int| 0 <= j < old(ops)@.len() ==> #[trigger] final(ops)@[j] == old(ops)@[j],
        forall|j: int| old(ops)@.len() <= j < final(ops)@.len() ==> insert_op(
            #[trigger] final(ops)@[j],
            collection,
            items@[j - old(ops)@.len()].key,
            category_token(items@[j - old(ops)@.len()].result),
        ),
{
    let ghost start = ops@;
    let mut k: usize = 0;
    while k < items.len()
        invariant
            k <= items@.len(),
            ops@.len() == start.len() + k,
            forall|j: int| 0 <= j < start.len() ==> #[trigger] ops@[j] == start[j],
            forall|j: int| start.len() <= j < ops@.len() ==> insert_op(
                #[trigger] ops@[j],
                collection,
                items@[j - start.len()].key,
                category_token(items@[j - start.len()].result),
            ),
        decreases items@.len() - k,
    {
        let item = items[k];
        ops.push(ProjectionPatchOperation::CollectionInsert {
            collection,
            key: item.key,
            before: None,
            value: ProjectionPatchValue::Text(item.result.token().to_owned()),
        });
        k += 1;
    }
}

/// Appends an entry per recovery offer to `collection`.
fn push_offer_inserts(ops: &mut Vec<ProjectionPatchOperation>, collection: StaticNodeId, offers: &Vec<RecoveryOffer>)
    ensures
        final(ops)@.len() == old(ops)@.len() + offers@.len(),
        forall|j: int| 0 <= j < old(ops)@.len() ==> #[trigger] final(ops)@[j] == old(ops)@[j],
        forall|j: int| old(ops)@.len() <= j < final(ops)@.len() ==> insert_op(
            #[trigger] final(ops)@[j],
            collection,
            offers@[j - old(ops)@.len()].key,
            recovery_token(offers@[j - old(ops)@.len()].kind),
        ),
{
    let ghost start = ops@;
    let mut k: usize = 0;
    while k < offers.len()
        invariant
            k <= offers@.len(),
            ops@.len() == start.len() + k,
            forall|j: int| 0 <= j < start.len() ==> #[trigger] ops@[j] == start[j],
            forall|j: int| start.len() <= j < ops@.len() ==> insert_op(
                #[trigger] ops@[j],
                collection,
                offers@[j - start.len()].key,
                recovery_token(offers@[j - start.len()].kind),
            ),
        decreases offers@.len() - k,
    {
        let offer = offers[k];
        ops.push(ProjectionPatchOperation::CollectionInsert {
            collection,
            key: offer.key,
            before: None,
            value: ProjectionPatchValue::Text(offer.kind.token().to_owned()),
        });
        k += 1;
    }
}

/// Projects a denial, its batch, its recovery offers and the freshness it
/// happened under onto patch operations.
#[verifier::rlimit(40)]
pub fn project_denial_recovery(
    route: &DenialRecoveryRoute,
    evidence: &DenialRecoveryEvidence,
    limits: DenialRecoveryLimits,
) -> (r: Result<DenialRecoveryProjectionArtifact, DenialRecoveryProjectionFailure>)
    ensures
        denial_recovery_outcome(*route, *evidence, limits, r),
{
    match validate_resource_preflight(route, evidence, limits) {
        Err(e) => {
            return Err(e);
        },
        Ok(()) => {},
    }
    match validate_routes(route, evidence) {
        Err(e) => {
            return Err(e);
        },
        Ok(()) => {},
    }
    let freshness_limits = FreshnessProjectionLimits::new(limits.max_control_routes, usize::MAX);
    let fragment = match project_freshness_fragment(evidence.freshness, &route.freshness_route, freshness_limits) {
        Ok(f) => f,
        Err(fd) => {
            return Err(DenialRecoveryProjectionFailure::Freshness(fd));
        },
    };
    proof {
        assert(!freshness_rejects(*route, *evidence, limits));
    }
    let local_denied = match evidence.result {
        ProjectionResultCategory::LocalDenied => true,
        _ => false,
    };
    if evidence.critical_attempt && evidence.freshness.restricts_critical_controls() && !local_denied {
        let d = DenialRecoveryProjectionDiagnostic::content(
            DenialRecoveryProjectionStage::FreshnessValidation,
            DenialRecoveryProjectionDiagnosticKind::InvalidFreshnessOutcome,
            0,
            0,
        );
        let v = vec![d];
        proof {
            assert(v@ =~= seq![d]);
        }
        return Err(DenialRecoveryProjectionFailure::Diagnostics(v));
    }
    match validate_outcome(evidence) {
        Err(e) => {
            return Err(e);
        },
        Ok(()) => {},
    }
    let batch = match validate_batch(evidence) {
        Err(e) => {
            return Err(e);
        },
        Ok(b) => b,
    };
    let recovery_offers = match validate_recovery(evidence) {
        Err(e) => {
            return Err(e);
        },
        Ok(o) => o,
    };
    let operation_count = match predicted_operation_count(route, evidence) {
        None => {
            let v = vec![
                DenialRecoveryProjectionDiagnostic::limit(
                    DenialRecoveryProjectionStage::OperationConstruction,
                    DenialRecoveryProjectionDiagnosticKind::OperationLimitExceeded,
                    DenialRecoveryLimitKind::TotalOperations,
                    usize::MAX,
                    limits.max_total_operations,
                ),
            ];
            proof {
                assert(v@ =~= seq![v@[0]]);
            }
            return Err(DenialRecoveryProjectionFailure::Diagnostics(v));
        },
        Some(c) => c,
    };
    if operation_count > limits.max_total_operations {
        let v = vec![
            DenialRecoveryProjectionDiagnostic::limit(
                DenialRecoveryProjectionStage::OperationConstruction,
                DenialRecoveryProjectionDiagnosticKind::OperationLimitExceeded,
                DenialRecoveryLimitKind::TotalOperations,
                operation_count,
                limits.max_total_operations,
            ),
        ];
        proof {
            assert(v@ =~= seq![v@[0]]);
        }
        return Err(DenialRecoveryProjectionFailure::Diagnostics(v));
    }
    let ghost fo = fragment.spec_operations();
    let mut operations: Vec<ProjectionPatchOperation> = Vec::new();
    operations.push(ProjectionPatchOperation::SetBindingValue {
        target: route.result_target,
        value: ProjectionPatchValue::Text(evidence.result.token().to_owned()),
    });
    let has_reason = !evidence.reason.as_str().is_empty();
    if has_reason {
        operations.push(ProjectionPatchOperation::SetBindingValue {
            target: route.reason_target,
            value: ProjectionPatchValue::Text(evidence.reason.clone()),
        });
    }
    let mut freshness_rest = fragment.into_operations();
    let freshness_first = freshness_rest.remove(0);
    operations.push(freshness_first);
    let ghost prefix = operations@;
    match route.batch_collection {
        Some(collection) => match &batch {
            Some(b) => {
                push_batch_inserts(&mut operations, collection, &b.items);
            },
            None => {},
        },
        None => {},
    }
    let ghost with_batch = operations@;
    operations.append(&mut freshness_rest);
    let ghost with_controls = operations@;
    match route.recovery_collection {
        Some(collection) => {
            push_offer_inserts(&mut operations, collection, &recovery_offers);
        },
        None => {},
    }
    let ghost ops_built = operations@;
    let patch = match ProjectionPatch::new(evidence.envelope, operations) {
        Ok(p) => p,
        Err(patch_diagnostics) => {
            let diagnostic = DenialRecoveryProjectionDiagnostic::content(
                DenialRecoveryProjectionStage::PatchValidation,
                DenialRecoveryProjectionDiagnosticKind::PatchRejected,
                evidence.envelope.patch_id().raw(),
                0,
            );
            return Err(DenialRecoveryProjectionFailure::PatchRejected { diagnostic, patch_diagnostics });
        },
    };
    let artifact = DenialRecoveryProjectionArtifact {
        patch,
        action_ref: evidence.action_ref,
        evidence_ref: evidence.evidence_ref,
        recovery_offers,
        batch,
        operation_count,
    };
    proof {
        let items = batch_items_of(artifact.spec_batch());
        let offers = artifact.spec_recovery_offers();
        let ops = artifact.spec_patch().spec_operations();
        assert(ops == ops_built);
        let rr: int = if evidence.reason@.len() > 0 { 1 } else { 0 };
        let nb: int = if route.batch_collection is Some { items.len() as int } else { 0 };
        let nc: int = fo.len() - 1;
        assert(prefix.len() == 2 + rr);
        assert(with_batch.len() == 2 + rr + nb);
        assert(with_controls == with_batch + fo.subrange(1, fo.len() as int));
        assert(with_controls.len() == 2 + rr + nb + nc);
        assert(ops[0] == prefix[0]);
        assert(rr == 1 ==> ops[1] == prefix[1]);
        assert(ops[1 + rr] == prefix[1 + rr]);
        assert forall|j: int| 2 + rr <= j < 2 + rr + nb implies insert_op(
            #[trigger] ops[j],
            route.batch_collection->0,
            items[j - 2 - rr].key,
            category_token(items[j - 2 - rr].result),
        ) by {
            assert(ops[j] == with_controls[j]);
            assert(with_controls[j] == with_batch[j]);
        }
        assert forall|j: int| 2 + rr + nb <= j < 2 + rr + nb + nc implies #[trigger] ops[j] == fo[j - 1 - rr - nb] by {
            assert(ops[j] == with_controls[j]);
        }
        assert(denial_operations(*route, *evidence, fo, items, offers, ops));
    }
    Ok(artifact)
}

/// A successful projection writes exactly the operations it counted.
pub proof fn lemma_projection_writes_counted_operations(
    route: DenialRecoveryRoute,
    ev: DenialRecoveryEvidence,
    limits: DenialRecoveryLimits,
    a: DenialRecoveryProjectionArtifact,
)
    requires
        denial_recovery_outcome(route, ev, limits, Ok(a)),
    ensures
        a.spec_patch().spec_operations().len() == a.spec_operation_count(),
{
    let fo = choose|fo: Seq<ProjectionPatchOperation>| freshness_operations(ev.freshness, route.freshness_route, fo) && denial_operations(
        route,
        ev,
        fo,
        batch_items_of(a.spec_batch()),
        a.spec_recovery_offers(),
        a.spec_patch().spec_operations(),
    );
    assert(!route_diagnostic(route, ev, content_diagnostic(DenialRecoveryProjectionStage::RouteValidation, DenialRecoveryProjectionDiagnosticKind::MissingBatchRoute, 0, 0)));
    assert(!route_diagnostic(route, ev, content_diagnostic(DenialRecoveryProjectionStage::RouteValidation, DenialRecoveryProjectionDiagnosticKind::MissingRecoveryRoute, 0, 0)));
    assert(batch_items_of(a.spec_batch()).len() == batch_len(ev));
}

/// A successful projection of a critical attempt while freshness restricts
/// critical controls presents a local denial.
pub proof fn lemma_restricted_critical_attempt_is_local_denial(
    route: DenialRecoveryRoute,
    ev: DenialRecoveryEvidence,
    limits: DenialRecoveryLimits,
    a: DenialRecoveryProjectionArtifact,
)
    requires
        denial_recovery_outcome(route, ev, limits, Ok(a)),
        ev.critical_attempt,
        restricts_critical(ev.freshness),
    ensures
        ev.result is LocalDenied,
{
}

/// A successful projection of an accepted outcome has only accepted batch
/// items.
pub proof fn lemma_accepted_outcome_has_accepted_items(
    route: DenialRecoveryRoute,
    ev: DenialRecoveryEvidence,
    limits: DenialRecoveryLimits,
    a: DenialRecoveryProjectionArtifact,
)
    requires
        denial_recovery_outcome(route, ev, limits, Ok(a)),
        ev.result is Accepted,
    ensures
        forall|k: int| 0 <= k < batch_items_of(ev.batch).len() ==> (#[trigger] batch_items_of(ev.batch)[k]).result is Accepted,
{
    let items = batch_items_of(ev.batch);
    assert forall|k: int| 0 <= k < items.len() implies (#[trigger] items[k]).result is Accepted by {
        if !(items[k].result is Accepted) {
            assert(batch_diagnostic(ev, content_diagnostic(DenialRecoveryProjectionStage::BatchValidation, DenialRecoveryProjectionDiagnosticKind::InvalidAtomicBatch, 0, 0)));
        }
    }
}

/// A successful projection of an ordered batch breaks it at one denied item,
/// at the order the batch declared.
pub proof fn lemma_ordered_batch_breaks_where_declared(
    route: DenialRecoveryRoute,
    ev: DenialRecoveryEvidence,
    limits: DenialRecoveryLimits,
    a: DenialRecoveryProjectionArtifact,
)
    requires
        denial_recovery_outcome(route, ev, limits, Ok(a)),
        ev.batch matches Some(b) && b.mode is OrderedPartial,
    ensures
        exists|k: int| 0 <= k < batch_items_of(ev.batch).len() && #[trigger] is_break(batch_items_of(ev.batch), batch_items_of(ev.batch)[k])
            && ev.batch->0.declared_break_order == Some(batch_items_of(ev.batch)[k].order),
{
    let b = ev.batch->0;
    let items = b.items@;
    let stage = DenialRecoveryProjectionStage::BatchValidation;
    lemma_distinct_iff_no_duplicate(
        item_pairs(items),
        stage,
        DenialRecoveryProjectionDiagnosticKind::DuplicateBatchOrder,
        DenialRecoveryProjectionDiagnosticKind::DuplicateBatchKey,
    );
    if !distinct_pairs(item_pairs(items)) {
        let d = choose|d: DenialRecoveryProjectionDiagnostic| duplicate_diagnostic(
            item_pairs(items),
            stage,
            DenialRecoveryProjectionDiagnosticKind::DuplicateBatchOrder,
            DenialRecoveryProjectionDiagnosticKind::DuplicateBatchKey,
            d,
        );
        assert(batch_diagnostic(ev, d));
    }
    if !has_break(items) {
        assert(batch_diagnostic(ev, content_diagnostic(stage, DenialRecoveryProjectionDiagnosticKind::InvalidOrderedPartialBatch, 0, 0)));
    }
    let k = choose|k: int| 0 <= k < items.len() && #[trigger] is_break(items, items[k]);
    if b.declared_break_order != Some(items[k].order) {
        assert(batch_diagnostic(
            ev,
            content_diagnostic(stage, DenialRecoveryProjectionDiagnosticKind::BatchBreakMismatch, declared_or_max(b.declared_break_order), items[k].order as u64),
        ));
    }
    assert(batch_items_of(ev.batch) == items);
    assert(is_break(batch_items_of(ev.batch), batch_items_of(ev.batch)[k]));
}

/// A projection of an admission denial, a capability rejection or a
/// quarantine succeeds only when it cites its evidence, and the artifact
/// carries that reference.
pub proof fn lemma_denials_cite_their_evidence(
    route: DenialRecoveryRoute,
    ev: DenialRecoveryEvidence,
    limits: DenialRecoveryLimits,
    a: DenialRecoveryProjectionArtifact,
)
    requires
        denial_recovery_outcome(route, ev, limits, Ok(a)),
        ev.result is AdmissionDenied || ev.result is CapabilityRejected || ev.result is Quarantined,
    ensures
        ev.evidence_ref is Some,
        a.spec_evidence_ref() == ev.evidence_ref,
{
    if ev.evidence_ref is None {
        assert(outcome_diagnostic(ev, content_diagnostic(
            DenialRecoveryProjectionStage::OutcomeValidation,
            DenialRecoveryProjectionDiagnosticKind::MissingEvidenceRef,
            0,
            0,
        )));
    }
}

/// A projection refused for a missing evidence reference is one of an
/// admission denial, a capability rejection or a quarantine that cites no
/// evidence: no other result needs a reference.
pub proof fn lemma_missing_evidence_only_for_denials(
    route: DenialRecoveryRoute,
    ev: DenialRecoveryEvidence,
    limits: DenialRecoveryLimits,
    r: Result<DenialRecoveryProjectionArtifact, DenialRecoveryProjectionFailure>,
    d: DenialRecoveryProjectionDiagnostic,
)
    requires
        denial_recovery_outcome(route, ev, limits, r),
        r matches Err(DenialRecoveryProjectionFailure::Diagnostics(ds)) && ds@.contains(d),
        d.kind == DenialRecoveryProjectionDiagnosticKind::MissingEvidenceRef,
    ensures
        ev.result is AdmissionDenied || ev.result is CapabilityRejected || ev.result is Quarantined,
        ev.evidence_ref is None,
{
    if let Err(DenialRecoveryProjectionFailure::Diagnostics(ds)) = r {
        assert(ds@.to_set().contains(d));
    }
}

/// A projection of anything but an acceptance succeeds only with a reason.
pub proof fn lemma_refusals_give_a_reason(
    route: DenialRecoveryRoute,
    ev: DenialRecoveryEvidence,
    limits: DenialRecoveryLimits,
    a: DenialRecoveryProjectionArtifact,
)
    requires
        denial_recovery_outcome(route, ev, limits, Ok(a)),
        !(ev.result is Accepted),
    ensures
        ev.reason@.len() > 0,
{
    if ev.reason@.len() == 0 {
        assert(outcome_diagnostic(ev, content_diagnostic(
            DenialRecoveryProjectionStage::OutcomeValidation,
            DenialRecoveryProjectionDiagnosticKind::MissingReason,
            0,
            0,
        )));
    }
}

} // verus!
