#![allow(unused_imports)]
use prom_ui::effect_request_summary::{InteractionEffectRequestKindCount, InteractionEffectRequestUiCapabilityCount, InteractionEffectRequestRuntimeCapabilityCount, InteractionEffectRequestSummary, EffectRequestSummaryModel, effect_kind_counts_after, effect_kind_counts_distinct, ui_capability_counts_after, ui_capability_counts_distinct, runtime_capability_counts_after, runtime_capability_counts_distinct, effect_summary_step, effect_summary_of, effect_summary_model, effect_summary_bounded, summarize_interaction_effect_requests};
use prom_ui::effect_request::{
    InteractionEffectRequestDenialBehavior, InteractionEffectRequestDescriptorId,
    InteractionEffectRequestKind,
    InteractionEffectRequestLifecyclePrecondition,
    InteractionEffectRequestPrepareCommitRelationship,
    InteractionEffectRequestRuntimeCapability, InteractionEffectRequestScope,
    InteractionEffectRequestTargetPolicy, InteractionEffectRequestUiCapability,
};
use prom_ui::effect_request_trace::{
    InteractionEffectRequestTraceReason, InteractionEffectRequestTraceReport,
    InteractionEffectRequestTraceStatus,
};
use prom_ui::action_admission::InteractionActionAdmissionPolicyGateNamespace;
use prom_ui::action_binding::InteractionActionName;
use prom_ui::action_dispatch_record::InteractionSemanticActionDispatchRecordId;
use prom_ui::action_dispatch_route::InteractionSemanticActionDispatchRouteId;
use prom_ui::admitted_action::InteractionAdmittedSemanticActionId;
use prom_ui::interaction::InteractionIntentKind;

fn effect_trace(
    id: u64,
    kind: InteractionEffectRequestKind,
    ui_capability: InteractionEffectRequestUiCapability,
    runtime_capability: InteractionEffectRequestRuntimeCapability,
) -> InteractionEffectRequestTraceReport {
    InteractionEffectRequestTraceReport {
        descriptor_id: InteractionEffectRequestDescriptorId(id),
        source_admitted_action_id: InteractionAdmittedSemanticActionId(id),
        dispatch_record_id: InteractionSemanticActionDispatchRecordId(id),
        dispatch_route_id: InteractionSemanticActionDispatchRouteId(id),
        action: match kind {
            InteractionEffectRequestKind::PrepareEffect => InteractionActionName::PrepareEffect,
            InteractionEffectRequestKind::CommitEffect => InteractionActionName::CommitEffect,
            InteractionEffectRequestKind::RollbackEffect => {
                InteractionActionName::RollbackEffect
            }
            InteractionEffectRequestKind::CloseWindow => InteractionActionName::CloseWindow,
            InteractionEffectRequestKind::QuarantineTarget => {
                InteractionActionName::QuarantineTarget
            }
            InteractionEffectRequestKind::Unknown => InteractionActionName::Unknown,
        },
        source_intent: match kind {
            InteractionEffectRequestKind::CloseWindow => InteractionIntentKind::Close,
            InteractionEffectRequestKind::PrepareEffect => InteractionIntentKind::Submit,
            InteractionEffectRequestKind::CommitEffect => InteractionIntentKind::Submit,
            InteractionEffectRequestKind::RollbackEffect => InteractionIntentKind::Cancel,
            InteractionEffectRequestKind::QuarantineTarget => InteractionIntentKind::Cancel,
            InteractionEffectRequestKind::Unknown => InteractionIntentKind::Unknown,
        },
        requested_effect: kind,
        target_policy: match kind {
            InteractionEffectRequestKind::CloseWindow => InteractionEffectRequestTargetPolicy::Optional,
            InteractionEffectRequestKind::PrepareEffect
            | InteractionEffectRequestKind::CommitEffect
            | InteractionEffectRequestKind::RollbackEffect
            | InteractionEffectRequestKind::QuarantineTarget => {
                InteractionEffectRequestTargetPolicy::Required
            }
            InteractionEffectRequestKind::Unknown => InteractionEffectRequestTargetPolicy::Ignored,
        },
        required_ui_capability: ui_capability,
        required_runtime_capability: runtime_capability,
        lifecycle_precondition: match kind {
            InteractionEffectRequestKind::CloseWindow => {
                InteractionEffectRequestLifecyclePrecondition::WindowAlive
            }
            InteractionEffectRequestKind::PrepareEffect
            | InteractionEffectRequestKind::CommitEffect
            | InteractionEffectRequestKind::RollbackEffect => {
                InteractionEffectRequestLifecyclePrecondition::SessionActive
            }
            InteractionEffectRequestKind::QuarantineTarget => {
                InteractionEffectRequestLifecyclePrecondition::TargetPresent
            }
            InteractionEffectRequestKind::Unknown => {
                InteractionEffectRequestLifecyclePrecondition::Unknown
            }
        },
        trace_requirement: prom_ui::action_admission::InteractionActionAdmissionTraceRequirement::Required,
        denial_behavior: match kind {
            InteractionEffectRequestKind::CloseWindow
            | InteractionEffectRequestKind::PrepareEffect
            | InteractionEffectRequestKind::CommitEffect
            | InteractionEffectRequestKind::RollbackEffect
            | InteractionEffectRequestKind::QuarantineTarget => {
                InteractionEffectRequestDenialBehavior::VisibleRequired
            }
            InteractionEffectRequestKind::Unknown => InteractionEffectRequestDenialBehavior::Unknown,
        },
        prepare_commit_relationship: match kind {
            InteractionEffectRequestKind::CommitEffect => {
                InteractionEffectRequestPrepareCommitRelationship::CommitAfterPrepare
            }
            InteractionEffectRequestKind::RollbackEffect => {
                InteractionEffectRequestPrepareCommitRelationship::RollbackAfterPrepare
            }
            InteractionEffectRequestKind::CloseWindow
            | InteractionEffectRequestKind::PrepareEffect
            | InteractionEffectRequestKind::QuarantineTarget => {
                InteractionEffectRequestPrepareCommitRelationship::PrepareThenCommit
            }
            InteractionEffectRequestKind::Unknown => {
                InteractionEffectRequestPrepareCommitRelationship::Unknown
            }
        },
        policy_gate_namespace: if id % 2 == 0 {
            InteractionActionAdmissionPolicyGateNamespace::WorkbenchLocal
        } else {
            InteractionActionAdmissionPolicyGateNamespace::CoreUi
        },
        scope: if id % 2 == 0 {
            InteractionEffectRequestScope::WorkbenchLocal
        } else {
            InteractionEffectRequestScope::CoreUi
        },
        trace_status: InteractionEffectRequestTraceStatus::Described,
        trace_reason: InteractionEffectRequestTraceReason::DescriptorRecorded,
    }
}

#[test]
fn empty_summary_is_zeroed() {
    let summary = summarize_interaction_effect_requests(&[]);

    assert!(summary.is_empty());
    assert_eq!(summary.total, 0);
    assert_eq!(summary.described, 0);
    assert!(summary.kinds.is_empty());
    assert!(summary.ui_capabilities.is_empty());
    assert!(summary.runtime_capabilities.is_empty());
}

#[test]
fn summary_counts_total_and_described() {
    let traces = vec![
        effect_trace(
            1,
            InteractionEffectRequestKind::PrepareEffect,
            InteractionEffectRequestUiCapability::EffectControl,
            InteractionEffectRequestRuntimeCapability::EffectControl,
        ),
        effect_trace(
            2,
            InteractionEffectRequestKind::CloseWindow,
            InteractionEffectRequestUiCapability::WindowLifecycle,
            InteractionEffectRequestRuntimeCapability::WindowLifecycle,
        ),
    ];

    let summary = summarize_interaction_effect_requests(&traces);

    assert_eq!(summary.total, 2);
    assert_eq!(summary.described, 2);
}

#[test]
fn summary_counts_effect_request_kinds() {
    let traces = vec![
        effect_trace(
            1,
            InteractionEffectRequestKind::PrepareEffect,
            InteractionEffectRequestUiCapability::EffectControl,
            InteractionEffectRequestRuntimeCapability::EffectControl,
        ),
        effect_trace(
            2,
            InteractionEffectRequestKind::PrepareEffect,
            InteractionEffectRequestUiCapability::EffectControl,
            InteractionEffectRequestRuntimeCapability::EffectControl,
        ),
        effect_trace(
            3,
            InteractionEffectRequestKind::CloseWindow,
            InteractionEffectRequestUiCapability::WindowLifecycle,
            InteractionEffectRequestRuntimeCapability::WindowLifecycle,
        ),
    ];

    let summary = summarize_interaction_effect_requests(&traces);

    assert!(summary.kinds.contains(&InteractionEffectRequestKindCount {
        kind: InteractionEffectRequestKind::PrepareEffect,
        count: 2,
    }));
    assert!(summary.kinds.contains(&InteractionEffectRequestKindCount {
        kind: InteractionEffectRequestKind::CloseWindow,
        count: 1,
    }));
}

#[test]
fn summary_counts_ui_capabilities() {
    let traces = vec![
        effect_trace(
            1,
            InteractionEffectRequestKind::PrepareEffect,
            InteractionEffectRequestUiCapability::EffectControl,
            InteractionEffectRequestRuntimeCapability::EffectControl,
        ),
        effect_trace(
            2,
            InteractionEffectRequestKind::RollbackEffect,
            InteractionEffectRequestUiCapability::EffectControl,
            InteractionEffectRequestRuntimeCapability::EffectControl,
        ),
        effect_trace(
            3,
            InteractionEffectRequestKind::CloseWindow,
            InteractionEffectRequestUiCapability::WindowLifecycle,
            InteractionEffectRequestRuntimeCapability::WindowLifecycle,
        ),
    ];

    let summary = summarize_interaction_effect_requests(&traces);

    assert!(summary.ui_capabilities.contains(&InteractionEffectRequestUiCapabilityCount {
        capability: InteractionEffectRequestUiCapability::EffectControl,
        count: 2,
    }));
    assert!(summary.ui_capabilities.contains(&InteractionEffectRequestUiCapabilityCount {
        capability: InteractionEffectRequestUiCapability::WindowLifecycle,
        count: 1,
    }));
}

#[test]
fn summary_counts_runtime_capabilities() {
    let traces = vec![
        effect_trace(
            1,
            InteractionEffectRequestKind::PrepareEffect,
            InteractionEffectRequestUiCapability::EffectControl,
            InteractionEffectRequestRuntimeCapability::EffectControl,
        ),
        effect_trace(
            2,
            InteractionEffectRequestKind::RollbackEffect,
            InteractionEffectRequestUiCapability::EffectControl,
            InteractionEffectRequestRuntimeCapability::EffectControl,
        ),
        effect_trace(
            3,
            InteractionEffectRequestKind::CloseWindow,
            InteractionEffectRequestUiCapability::WindowLifecycle,
            InteractionEffectRequestRuntimeCapability::WindowLifecycle,
        ),
    ];

    let summary = summarize_interaction_effect_requests(&traces);

    assert!(summary
        .runtime_capabilities
        .contains(&InteractionEffectRequestRuntimeCapabilityCount {
            capability: InteractionEffectRequestRuntimeCapability::EffectControl,
            count: 2,
        }));
    assert!(summary
        .runtime_capabilities
        .contains(&InteractionEffectRequestRuntimeCapabilityCount {
            capability: InteractionEffectRequestRuntimeCapability::WindowLifecycle,
            count: 1,
        }));
}

#[test]
fn effect_request_summary_summary_preserves_first_appearance_order() {
    let traces = vec![
        effect_trace(
            1,
            InteractionEffectRequestKind::RollbackEffect,
            InteractionEffectRequestUiCapability::TargetQuarantine,
            InteractionEffectRequestRuntimeCapability::TargetQuarantine,
        ),
        effect_trace(
            2,
            InteractionEffectRequestKind::PrepareEffect,
            InteractionEffectRequestUiCapability::EffectControl,
            InteractionEffectRequestRuntimeCapability::EffectControl,
        ),
        effect_trace(
            3,
            InteractionEffectRequestKind::CloseWindow,
            InteractionEffectRequestUiCapability::WindowLifecycle,
            InteractionEffectRequestRuntimeCapability::WindowLifecycle,
        ),
    ];

    let summary = summarize_interaction_effect_requests(&traces);

    assert_eq!(summary.kinds[0].kind, InteractionEffectRequestKind::RollbackEffect);
    assert_eq!(summary.kinds[1].kind, InteractionEffectRequestKind::PrepareEffect);
    assert_eq!(summary.kinds[2].kind, InteractionEffectRequestKind::CloseWindow);
    assert_eq!(
        summary.ui_capabilities[0].capability,
        InteractionEffectRequestUiCapability::TargetQuarantine
    );
    assert_eq!(
        summary.ui_capabilities[1].capability,
        InteractionEffectRequestUiCapability::EffectControl
    );
    assert_eq!(
        summary.ui_capabilities[2].capability,
        InteractionEffectRequestUiCapability::WindowLifecycle
    );
    assert_eq!(
        summary.runtime_capabilities[0].capability,
        InteractionEffectRequestRuntimeCapability::TargetQuarantine
    );
    assert_eq!(
        summary.runtime_capabilities[1].capability,
        InteractionEffectRequestRuntimeCapability::EffectControl
    );
    assert_eq!(
        summary.runtime_capabilities[2].capability,
        InteractionEffectRequestRuntimeCapability::WindowLifecycle
    );
}

#[test]
fn summary_is_not_authority() {
    let traces = vec![effect_trace(
        1,
        InteractionEffectRequestKind::PrepareEffect,
        InteractionEffectRequestUiCapability::EffectControl,
        InteractionEffectRequestRuntimeCapability::EffectControl,
    )];

    let summary = summarize_interaction_effect_requests(&traces);

    assert!(!summary.is_capability_admission());
    assert!(!summary.is_prepared_effect());
    assert!(!summary.is_committed_effect());
    assert!(!summary.is_execution_authority());
    assert!(!summary.is_runtime_mutation());
    assert!(!summary.is_audit_authority());
    assert!(!summary.calls_vm_or_host_abi());
}

#[test]
fn summary_generation_is_deterministic() {
    let traces = vec![
        effect_trace(
            1,
            InteractionEffectRequestKind::PrepareEffect,
            InteractionEffectRequestUiCapability::EffectControl,
            InteractionEffectRequestRuntimeCapability::EffectControl,
        ),
        effect_trace(
            2,
            InteractionEffectRequestKind::CloseWindow,
            InteractionEffectRequestUiCapability::WindowLifecycle,
            InteractionEffectRequestRuntimeCapability::WindowLifecycle,
        ),
    ];

    let first = summarize_interaction_effect_requests(&traces);
    let second = summarize_interaction_effect_requests(&traces);

    assert_eq!(first, second);
}
