use prom_ui::binding_graph::{BindingSlot, BindingTarget};
use prom_ui::connectivity_projection::{
    ControlCriticality, FreshnessControlRoute, FreshnessProjectionDiagnosticKind, FreshnessProjectionRoute, FreshnessState,
    ProjectedControlAvailability,
};
use prom_ui::contract_primitives::{CollectionKey, StaticNodeId};
use prom_ui::denial_recovery::{
    project_denial_recovery, BatchMode, BatchProjection, BatchProjectionItem, DenialRecoveryEvidence, DenialRecoveryLimitKind,
    DenialRecoveryLimits, DenialRecoveryProjectionDiagnostic, DenialRecoveryProjectionDiagnosticKind,
    DenialRecoveryProjectionFailure, DenialRecoveryProjectionStage, DenialRecoveryRoute, ProjectionResultCategory, RecoveryKind,
    RecoveryOffer,
};
use prom_ui::projection_patch::{
    ProjectionNodeAvailability, ProjectionPatchEnvelope, ProjectionPatchId, ProjectionPatchOperation, ProjectionPatchValue,
};
use prom_ui::semantic_refs::{ReferenceToken, SemanticActionRef, SemanticEvidenceRef};

fn node(raw: u64) -> StaticNodeId {
    StaticNodeId::new(raw).unwrap()
}

fn key(raw: u64) -> CollectionKey {
    CollectionKey::new(raw).unwrap()
}

fn target(n: u64, slot: u32) -> BindingTarget {
    BindingTarget { node: node(n), slot: BindingSlot(slot) }
}

fn route(batch: Option<u64>, recovery: Option<u64>, controls: Vec<FreshnessControlRoute>) -> DenialRecoveryRoute {
    DenialRecoveryRoute::new(
        target(1, 1),
        target(1, 2),
        batch.map(node),
        recovery.map(node),
        FreshnessProjectionRoute::new(target(1, 3), controls),
    )
}

fn limits() -> DenialRecoveryLimits {
    DenialRecoveryLimits::new(64, 8, 8, 8, 32, 512)
}

fn evidence(result: ProjectionResultCategory, reason: &str) -> DenialRecoveryEvidence {
    DenialRecoveryEvidence::new(envelope(), result, String::from(reason), None, None, FreshnessState::Fresh, false, None, Vec::new())
}

fn envelope() -> ProjectionPatchEnvelope {
    ProjectionPatchEnvelope::new(ProjectionPatchId::new(77))
}

fn text(s: &str) -> ProjectionPatchValue {
    ProjectionPatchValue::Text(String::from(s))
}

fn diagnostics(f: DenialRecoveryProjectionFailure) -> Vec<DenialRecoveryProjectionDiagnostic> {
    match f {
        DenialRecoveryProjectionFailure::Diagnostics(ds) => ds,
        DenialRecoveryProjectionFailure::Freshness(_) => panic!("expected denial diagnostics"),
        DenialRecoveryProjectionFailure::PatchRejected { .. } => panic!("expected denial diagnostics"),
    }
}

fn insert(collection: u64, k: u64, s: &str) -> ProjectionPatchOperation {
    ProjectionPatchOperation::CollectionInsert { collection: node(collection), key: key(k), before: None, value: text(s) }
}

#[test]
fn accepted_outcome_projects_category_and_freshness() {
    let a = project_denial_recovery(&route(None, None, vec![]), &evidence(ProjectionResultCategory::Accepted, ""), limits()).unwrap();
    assert_eq!(
        a.patch().operations().to_vec(),
        vec![
            ProjectionPatchOperation::SetBindingValue { target: target(1, 1), value: text("accepted") },
            ProjectionPatchOperation::SetBindingValue { target: target(1, 3), value: text("fresh") },
        ]
    );
    assert_eq!(a.operation_count(), 2);
    assert_eq!(a.patch().envelope(), envelope());
    assert_eq!(a.patch().envelope().patch_id().raw(), 77);
    assert!(a.batch().is_none());
    assert!(a.recovery_offers().is_empty());
}

#[test]
fn denial_with_partial_batch_and_offers_projects_in_order() {
    let mut ev = evidence(ProjectionResultCategory::PartialDenied, "quota");
    ev.action_ref = Some(SemanticActionRef::new(7));
    ev.batch = Some(BatchProjection::new(
        BatchMode::OrderedPartial,
        Some(2),
        vec![
            BatchProjectionItem::new(3, key(30), ProjectionResultCategory::NotApplied),
            BatchProjectionItem::new(1, key(10), ProjectionResultCategory::Accepted),
            BatchProjectionItem::new(2, key(20), ProjectionResultCategory::Denied),
        ],
    ));
    ev.recovery_offers = vec![
        RecoveryOffer::new(2, key(5), RecoveryKind::Retry, Some(SemanticActionRef::new(7)), None),
        RecoveryOffer::new(1, key(4), RecoveryKind::Dismiss, None, None),
    ];
    let controls = vec![
        FreshnessControlRoute::new(node(9), ControlCriticality::Danger, ProjectedControlAvailability::Available),
        FreshnessControlRoute::new(node(8), ControlCriticality::Normal, ProjectedControlAvailability::Hidden),
    ];
    let a = project_denial_recovery(&route(Some(40), Some(50), controls), &ev, limits()).unwrap();
    assert_eq!(
        a.patch().operations().to_vec(),
        vec![
            ProjectionPatchOperation::SetBindingValue { target: target(1, 1), value: text("partial_denied") },
            ProjectionPatchOperation::SetBindingValue { target: target(1, 2), value: text("quota") },
            ProjectionPatchOperation::SetBindingValue { target: target(1, 3), value: text("fresh") },
            insert(40, 10, "accepted"),
            insert(40, 20, "denied"),
            insert(40, 30, "not_applied"),
            ProjectionPatchOperation::SetNodeAvailability { node: node(8), availability: ProjectionNodeAvailability::Hidden },
            ProjectionPatchOperation::SetNodeAvailability { node: node(9), availability: ProjectionNodeAvailability::Available },
            insert(50, 4, "dismiss"),
            insert(50, 5, "retry"),
        ]
    );
    assert_eq!(a.operation_count(), 10);
    assert_eq!(a.patch().operations().len(), a.operation_count());
    assert_eq!(a.action_ref(), Some(SemanticActionRef::new(7)));
    assert_eq!(a.evidence_ref(), None);
    let orders: Vec<u32> = a.batch().unwrap().items().iter().map(|i| i.order()).collect();
    assert_eq!(orders, vec![1, 2, 3]);
    let offer_orders: Vec<u32> = a.recovery_offers().iter().map(|o| o.order()).collect();
    assert_eq!(offer_orders, vec![1, 2]);
}

#[test]
fn preflight_reports_every_bound_passed() {
    let mut ev = evidence(ProjectionResultCategory::Denied, "a reason that is too long");
    ev.recovery_offers = vec![RecoveryOffer::new(1, key(1), RecoveryKind::Dismiss, None, None)];
    let tight = DenialRecoveryLimits::new(4, 8, 0, 8, 32, 10);
    let ds = diagnostics(project_denial_recovery(&route(None, Some(5), vec![]), &ev, tight).unwrap_err());
    let kinds: Vec<Option<DenialRecoveryLimitKind>> = ds.iter().map(|d| d.limit_kind()).collect();
    assert_eq!(
        kinds,
        vec![
            Some(DenialRecoveryLimitKind::ReasonBytes),
            Some(DenialRecoveryLimitKind::RecoveryOffers),
            Some(DenialRecoveryLimitKind::TotalProjectedTextBytes),
        ]
    );
    assert_eq!(ds[0].actual(), Some(25));
    assert_eq!(ds[0].maximum(), Some(4));
    // "denied" + "fresh" + the reason + "dismiss"
    assert_eq!(ds[2].actual(), Some(6 + 5 + 25 + 7));
    assert!(ds.iter().all(|d| d.stage() == DenialRecoveryProjectionStage::ResourcePreflight));
    assert_eq!(ds[0].code(), "DRP_RESOURCE_LIMIT_EXCEEDED");
}

#[test]
fn lists_without_a_collection_are_rejected() {
    let mut ev = evidence(ProjectionResultCategory::Denied, "no");
    ev.batch = Some(BatchProjection::new(
        BatchMode::Atomic,
        None,
        vec![BatchProjectionItem::new(1, key(1), ProjectionResultCategory::Denied)],
    ));
    ev.recovery_offers = vec![RecoveryOffer::new(1, key(1), RecoveryKind::Dismiss, None, None)];
    let ds = diagnostics(project_denial_recovery(&route(None, None, vec![]), &ev, limits()).unwrap_err());
    let kinds: Vec<DenialRecoveryProjectionDiagnosticKind> = ds.iter().map(|d| d.kind()).collect();
    assert_eq!(
        kinds,
        vec![DenialRecoveryProjectionDiagnosticKind::MissingBatchRoute, DenialRecoveryProjectionDiagnosticKind::MissingRecoveryRoute]
    );
}

#[test]
fn freshness_diagnostics_are_passed_on() {
    let controls = vec![
        FreshnessControlRoute::new(node(9), ControlCriticality::Normal, ProjectedControlAvailability::Available),
        FreshnessControlRoute::new(node(9), ControlCriticality::Normal, ProjectedControlAvailability::Hidden),
    ];
    let e = project_denial_recovery(&route(None, None, controls), &evidence(ProjectionResultCategory::Denied, "no"), limits())
        .unwrap_err();
    match e {
        DenialRecoveryProjectionFailure::Freshness(fd) => {
            assert_eq!(fd.len(), 1);
            assert_eq!(fd[0].kind(), FreshnessProjectionDiagnosticKind::DuplicateControlNode);
        },
        _ => panic!("expected freshness diagnostics"),
    }
}

#[test]
fn critical_attempt_under_stale_freshness_must_be_local_denial() {
    let mut ev = evidence(ProjectionResultCategory::Denied, "stale");
    ev.freshness = FreshnessState::Stale;
    ev.critical_attempt = true;
    let ds = diagnostics(project_denial_recovery(&route(None, None, vec![]), &ev, limits()).unwrap_err());
    assert_eq!(ds.len(), 1);
    assert_eq!(ds[0].stage(), DenialRecoveryProjectionStage::FreshnessValidation);
    assert_eq!(ds[0].kind(), DenialRecoveryProjectionDiagnosticKind::InvalidFreshnessOutcome);
    assert_eq!(ds[0].code(), "DRP_INVALID_FRESHNESS_OUTCOME");

    ev.result = ProjectionResultCategory::LocalDenied;
    let a = project_denial_recovery(&route(None, None, vec![]), &ev, limits()).unwrap();
    assert_eq!(a.patch().operations()[2], ProjectionPatchOperation::SetBindingValue { target: target(1, 3), value: text("stale") });
}

#[test]
fn outcome_needs_reason_and_evidence() {
    let ds = diagnostics(
        project_denial_recovery(&route(None, None, vec![]), &evidence(ProjectionResultCategory::AdmissionDenied, ""), limits())
            .unwrap_err(),
    );
    let kinds: Vec<DenialRecoveryProjectionDiagnosticKind> = ds.iter().map(|d| d.kind()).collect();
    assert_eq!(
        kinds,
        vec![DenialRecoveryProjectionDiagnosticKind::MissingReason, DenialRecoveryProjectionDiagnosticKind::MissingEvidenceRef]
    );
    let mut ev = evidence(ProjectionResultCategory::AdmissionDenied, "policy");
    ev.evidence_ref = Some(SemanticEvidenceRef::new(3));
    let a = project_denial_recovery(&route(None, None, vec![]), &ev, limits()).unwrap();
    assert_eq!(a.evidence_ref(), Some(SemanticEvidenceRef::new(3)));
}

#[test]
fn batch_category_without_batch_is_rejected() {
    let ds = diagnostics(
        project_denial_recovery(&route(None, None, vec![]), &evidence(ProjectionResultCategory::BatchBreak, "x"), limits())
            .unwrap_err(),
    );
    assert_eq!(ds.len(), 1);
    assert_eq!(ds[0].kind(), DenialRecoveryProjectionDiagnosticKind::InvalidOrderedPartialBatch);
}

#[test]
fn repeated_batch_orders_and_keys_are_reported() {
    let mut ev = evidence(ProjectionResultCategory::Denied, "dup");
    ev.batch = Some(BatchProjection::new(
        BatchMode::Atomic,
        None,
        vec![
            BatchProjectionItem::new(1, key(7), ProjectionResultCategory::Denied),
            BatchProjectionItem::new(1, key(5), ProjectionResultCategory::Denied),
            BatchProjectionItem::new(2, key(5), ProjectionResultCategory::Denied),
        ],
    ));
    let ds = diagnostics(project_denial_recovery(&route(Some(4), None, vec![]), &ev, limits()).unwrap_err());
    let got: Vec<(DenialRecoveryProjectionDiagnosticKind, u64, u64)> = ds.iter().map(|d| (d.kind(), d.primary(), d.secondary())).collect();
    assert_eq!(
        got,
        vec![
            (DenialRecoveryProjectionDiagnosticKind::DuplicateBatchOrder, 1, 7),
            (DenialRecoveryProjectionDiagnosticKind::DuplicateBatchKey, 5, 2),
        ]
    );
}

#[test]
fn ordered_batch_break_must_match_declaration() {
    let mut ev = evidence(ProjectionResultCategory::PartialDenied, "x");
    ev.batch = Some(BatchProjection::new(
        BatchMode::OrderedPartial,
        Some(1),
        vec![
            BatchProjectionItem::new(1, key(1), ProjectionResultCategory::Accepted),
            BatchProjectionItem::new(2, key(2), ProjectionResultCategory::StaleRejected),
        ],
    ));
    let ds = diagnostics(project_denial_recovery(&route(Some(4), None, vec![]), &ev, limits()).unwrap_err());
    assert_eq!(ds.len(), 1);
    assert_eq!(ds[0].kind(), DenialRecoveryProjectionDiagnosticKind::BatchBreakMismatch);
    assert_eq!((ds[0].primary(), ds[0].secondary()), (1, 2));

    ev.batch = Some(BatchProjection::new(
        BatchMode::OrderedPartial,
        None,
        vec![
            BatchProjectionItem::new(1, key(1), ProjectionResultCategory::Accepted),
            BatchProjectionItem::new(2, key(2), ProjectionResultCategory::Denied),
        ],
    ));
    let ds = diagnostics(project_denial_recovery(&route(Some(4), None, vec![]), &ev, limits()).unwrap_err());
    assert_eq!((ds[0].primary(), ds[0].secondary()), (u32::MAX as u64, 2));

    ev.batch = Some(BatchProjection::new(
        BatchMode::OrderedPartial,
        Some(1),
        vec![
            BatchProjectionItem::new(1, key(1), ProjectionResultCategory::Denied),
            BatchProjectionItem::new(2, key(2), ProjectionResultCategory::Accepted),
        ],
    ));
    let ds = diagnostics(project_denial_recovery(&route(Some(4), None, vec![]), &ev, limits()).unwrap_err());
    assert_eq!(ds.len(), 1);
    assert_eq!(ds[0].kind(), DenialRecoveryProjectionDiagnosticKind::InvalidOrderedPartialBatch);
}

#[test]
fn atomic_batch_must_stand_or_fall_together() {
    let mut ev = evidence(ProjectionResultCategory::Denied, "x");
    ev.batch = Some(BatchProjection::new(
        BatchMode::Atomic,
        None,
        vec![
            BatchProjectionItem::new(1, key(1), ProjectionResultCategory::Accepted),
            BatchProjectionItem::new(2, key(2), ProjectionResultCategory::Denied),
        ],
    ));
    let ds = diagnostics(project_denial_recovery(&route(Some(4), None, vec![]), &ev, limits()).unwrap_err());
    assert_eq!(ds.len(), 1);
    assert_eq!(ds[0].kind(), DenialRecoveryProjectionDiagnosticKind::InvalidAtomicBatch);

    let mut accepted = evidence(ProjectionResultCategory::Accepted, "");
    accepted.batch = Some(BatchProjection::new(
        BatchMode::Atomic,
        None,
        vec![
            BatchProjectionItem::new(1, key(1), ProjectionResultCategory::Denied),
            BatchProjectionItem::new(2, key(2), ProjectionResultCategory::NotApplied),
        ],
    ));
    let ds = diagnostics(project_denial_recovery(&route(Some(4), None, vec![]), &accepted, limits()).unwrap_err());
    assert_eq!(ds.len(), 1);
    assert_eq!(ds[0].kind(), DenialRecoveryProjectionDiagnosticKind::InvalidAtomicBatch);
}

#[test]
fn recovery_offers_need_their_references() {
    let mut ev = evidence(ProjectionResultCategory::Denied, "x");
    ev.recovery_offers = vec![
        RecoveryOffer::new(2, key(6), RecoveryKind::Resume, None, None),
        RecoveryOffer::new(1, key(5), RecoveryKind::Retry, None, None),
        RecoveryOffer::new(3, key(7), RecoveryKind::Resume, Some(SemanticActionRef::new(1)), Some(ReferenceToken::new(9))),
    ];
    let ds = diagnostics(project_denial_recovery(&route(None, Some(8), vec![]), &ev, limits()).unwrap_err());
    let got: Vec<(DenialRecoveryProjectionDiagnosticKind, u64, u64)> = ds.iter().map(|d| (d.kind(), d.primary(), d.secondary())).collect();
    assert_eq!(
        got,
        vec![
            (DenialRecoveryProjectionDiagnosticKind::RecoveryActionRefMissing, 1, 5),
            (DenialRecoveryProjectionDiagnosticKind::RecoveryActionRefMissing, 2, 6),
            (DenialRecoveryProjectionDiagnosticKind::ResumeTokenMissing, 2, 6),
        ]
    );
    assert_eq!(ds[2].code(), "DRP_RESUME_TOKEN_MISSING");
}

#[test]
fn operation_count_is_bounded() {
    let mut ev = evidence(ProjectionResultCategory::Denied, "x");
    ev.recovery_offers = vec![
        RecoveryOffer::new(1, key(1), RecoveryKind::Dismiss, None, None),
        RecoveryOffer::new(2, key(2), RecoveryKind::Dismiss, None, None),
    ];
    let tight = DenialRecoveryLimits::new(64, 8, 8, 8, 4, 512);
    let ds = diagnostics(project_denial_recovery(&route(None, Some(3), vec![]), &ev, tight).unwrap_err());
    assert_eq!(ds.len(), 1);
    assert_eq!(ds[0].stage(), DenialRecoveryProjectionStage::OperationConstruction);
    assert_eq!(ds[0].limit_kind(), Some(DenialRecoveryLimitKind::TotalOperations));
    assert_eq!(ds[0].actual(), Some(5));
    assert_eq!(ds[0].maximum(), Some(4));
}

#[test]
fn tokens_and_codes_are_stable() {
    assert_eq!(ProjectionResultCategory::CapabilityRejected.token(), "capability_rejected");
    assert_eq!(ProjectionResultCategory::PendingUnknown.token(), "pending_unknown");
    assert_eq!(RecoveryKind::CancelSuffix.token(), "cancel_suffix");
    assert_eq!(DenialRecoveryProjectionDiagnosticKind::PatchRejected.code(), "DRP_PATCH_REJECTED");
    assert_eq!(DenialRecoveryProjectionDiagnosticKind::InvalidOrderedPartialBatch.code(), "DRP_INVALID_ORDERED_PARTIAL_BATCH");
}
