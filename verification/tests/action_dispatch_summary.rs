#![allow(unused_imports)]
use prom_ui::action_dispatch_summary::{InteractionSemanticActionDispatchRouteCount, InteractionSemanticActionDispatchTraceReasonCount, InteractionSemanticActionDispatchSummary, DispatchSummaryModel, dispatch_route_counts_after, dispatch_route_counts_distinct, dispatch_reason_counts_after, dispatch_reason_counts_distinct, effect_candidate, dispatch_summary_step, dispatch_summary_of, dispatch_summary_model, dispatch_summary_bounded, summarize_interaction_semantic_action_dispatches};
use prom_ui::action_admission::{
    InteractionActionAdmissionEffectRelationship,
    InteractionActionAdmissionPolicyGateNamespace, InteractionActionAdmissionTraceRequirement,
};
use prom_ui::action_binding::{InteractionActionBindingId, InteractionActionName};
use prom_ui::action_dispatch_record::{
    InteractionSemanticActionDispatchBlockReason, InteractionSemanticActionDispatchRecordId,
    InteractionSemanticActionDispatchRecordStatus,
};
use prom_ui::action_dispatch_route::{
    InteractionSemanticActionDispatchEffectEligibility,
    InteractionSemanticActionDispatchRouteId, InteractionSemanticActionDispatchRouteKind,
};
use prom_ui::action_dispatch_trace::{
    InteractionSemanticActionDispatchTraceReason, InteractionSemanticActionDispatchTraceReport,
    InteractionSemanticActionDispatchTraceStatus,
};
use prom_ui::admitted_action::InteractionAdmittedSemanticActionId;
use prom_ui::interaction::InteractionIntentKind;

fn recorded_trace(id: u64) -> InteractionSemanticActionDispatchTraceReport {
    InteractionSemanticActionDispatchTraceReport {
        record_id: InteractionSemanticActionDispatchRecordId(id),
        route_id: InteractionSemanticActionDispatchRouteId(id),
        admitted_action_id: InteractionAdmittedSemanticActionId(id),
        action: InteractionActionName::CloseWindow,
        source_intent: InteractionIntentKind::Close,
        binding_id: InteractionActionBindingId(id),
        route: InteractionSemanticActionDispatchRouteKind::LocalUiStateCandidate,
        record_status: InteractionSemanticActionDispatchRecordStatus::Recorded,
        trace_status: InteractionSemanticActionDispatchTraceStatus::Recorded,
        block_reason: InteractionSemanticActionDispatchBlockReason::Nothing,
        trace_reason: InteractionSemanticActionDispatchTraceReason::RouteRecorded,
        trace_requirement: InteractionActionAdmissionTraceRequirement::Required,
        effect_relationship: InteractionActionAdmissionEffectRelationship::NoEffect,
        policy_gate_namespace: InteractionActionAdmissionPolicyGateNamespace::CoreUi,
        effect_eligibility: InteractionSemanticActionDispatchEffectEligibility::NoEffect,
    }
}

fn blocked_missing_route_trace(id: u64) -> InteractionSemanticActionDispatchTraceReport {
    InteractionSemanticActionDispatchTraceReport {
        record_id: InteractionSemanticActionDispatchRecordId(id),
        route_id: InteractionSemanticActionDispatchRouteId(id),
        admitted_action_id: InteractionAdmittedSemanticActionId(id),
        action: InteractionActionName::Unknown,
        source_intent: InteractionIntentKind::Unknown,
        binding_id: InteractionActionBindingId(id),
        route: InteractionSemanticActionDispatchRouteKind::Unknown,
        record_status: InteractionSemanticActionDispatchRecordStatus::BlockedMissingRoute,
        trace_status: InteractionSemanticActionDispatchTraceStatus::Blocked,
        block_reason: InteractionSemanticActionDispatchBlockReason::MissingRoute,
        trace_reason: InteractionSemanticActionDispatchTraceReason::MissingRoute,
        trace_requirement: InteractionActionAdmissionTraceRequirement::Required,
        effect_relationship: InteractionActionAdmissionEffectRelationship::NoEffect,
        policy_gate_namespace: InteractionActionAdmissionPolicyGateNamespace::CoreUi,
        effect_eligibility: InteractionSemanticActionDispatchEffectEligibility::NoEffect,
    }
}

fn effect_candidate_trace(id: u64) -> InteractionSemanticActionDispatchTraceReport {
    InteractionSemanticActionDispatchTraceReport {
        record_id: InteractionSemanticActionDispatchRecordId(id),
        route_id: InteractionSemanticActionDispatchRouteId(id),
        admitted_action_id: InteractionAdmittedSemanticActionId(id),
        action: InteractionActionName::PrepareEffect,
        source_intent: InteractionIntentKind::Submit,
        binding_id: InteractionActionBindingId(id),
        route: InteractionSemanticActionDispatchRouteKind::EffectRequestCandidate,
        record_status: InteractionSemanticActionDispatchRecordStatus::Recorded,
        trace_status: InteractionSemanticActionDispatchTraceStatus::Recorded,
        block_reason: InteractionSemanticActionDispatchBlockReason::Nothing,
        trace_reason: InteractionSemanticActionDispatchTraceReason::RouteRecorded,
        trace_requirement: InteractionActionAdmissionTraceRequirement::Required,
        effect_relationship:
            InteractionActionAdmissionEffectRelationship::RequiresSeparateEffectAdmission,
        policy_gate_namespace: InteractionActionAdmissionPolicyGateNamespace::CoreUi,
        effect_eligibility:
            InteractionSemanticActionDispatchEffectEligibility::RequiresFutureEffectBoundary,
    }
}

#[test]
fn empty_dispatch_summary_is_zeroed() {
    let summary = summarize_interaction_semantic_action_dispatches(&[]);

    assert!(summary.is_empty());
    assert_eq!(summary.total, 0);
    assert_eq!(summary.recorded, 0);
    assert_eq!(summary.blocked, 0);
    assert_eq!(summary.effect_candidate_count, 0);
    assert!(summary.routes.is_empty());
    assert!(summary.reasons.is_empty());
}

#[test]
fn summary_counts_recorded_and_blocked() {
    let traces = vec![
        recorded_trace(1),
        blocked_missing_route_trace(2),
        effect_candidate_trace(3),
    ];

    let summary = summarize_interaction_semantic_action_dispatches(&traces);

    assert_eq!(summary.total, 3);
    assert_eq!(summary.recorded, 2);
    assert_eq!(summary.blocked, 1);
}

#[test]
fn summary_counts_effect_candidates() {
    let traces = vec![recorded_trace(1), effect_candidate_trace(2)];

    let summary = summarize_interaction_semantic_action_dispatches(&traces);

    assert_eq!(summary.effect_candidate_count, 1);
}

#[test]
fn summary_counts_routes() {
    let traces = vec![
        recorded_trace(1),
        recorded_trace(2),
        blocked_missing_route_trace(3),
    ];

    let summary = summarize_interaction_semantic_action_dispatches(&traces);

    assert!(summary
        .routes
        .contains(&InteractionSemanticActionDispatchRouteCount {
            route: InteractionSemanticActionDispatchRouteKind::LocalUiStateCandidate,
            count: 2,
        }));

    assert!(summary
        .routes
        .contains(&InteractionSemanticActionDispatchRouteCount {
            route: InteractionSemanticActionDispatchRouteKind::Unknown,
            count: 1,
        }));
}

#[test]
fn summary_counts_trace_reasons() {
    let traces = vec![recorded_trace(1), blocked_missing_route_trace(2)];

    let summary = summarize_interaction_semantic_action_dispatches(&traces);

    assert!(summary
        .reasons
        .contains(&InteractionSemanticActionDispatchTraceReasonCount {
            reason: InteractionSemanticActionDispatchTraceReason::RouteRecorded,
            count: 1,
        }));

    assert!(summary
        .reasons
        .contains(&InteractionSemanticActionDispatchTraceReasonCount {
            reason: InteractionSemanticActionDispatchTraceReason::MissingRoute,
            count: 1,
        }));
}

#[test]
fn action_dispatch_summary_summary_preserves_first_appearance_order() {
    let traces = vec![
        effect_candidate_trace(1),
        recorded_trace(2),
        blocked_missing_route_trace(3),
    ];

    let summary = summarize_interaction_semantic_action_dispatches(&traces);

    assert_eq!(
        summary.routes[0].route,
        InteractionSemanticActionDispatchRouteKind::EffectRequestCandidate
    );
    assert_eq!(
        summary.routes[1].route,
        InteractionSemanticActionDispatchRouteKind::LocalUiStateCandidate
    );
    assert_eq!(
        summary.routes[2].route,
        InteractionSemanticActionDispatchRouteKind::Unknown
    );
}

#[test]
fn dispatch_summary_is_not_authority() {
    let traces = vec![recorded_trace(1)];

    let summary = summarize_interaction_semantic_action_dispatches(&traces);

    assert!(!summary.is_dispatcher());
    assert!(!summary.is_execution_authority());
    assert!(!summary.is_effect_request());
    assert!(!summary.is_runtime_mutation());
    assert!(!summary.is_audit_authority());
}

#[test]
fn dispatch_summary_generation_is_deterministic() {
    let traces = vec![
        recorded_trace(1),
        blocked_missing_route_trace(2),
        effect_candidate_trace(3),
    ];

    let first = summarize_interaction_semantic_action_dispatches(&traces);
    let second = summarize_interaction_semantic_action_dispatches(&traces);

    assert_eq!(first, second);
}
