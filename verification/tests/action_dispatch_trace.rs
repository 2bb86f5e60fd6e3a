#![allow(unused_imports)]
use prom_ui::action_dispatch_trace::{InteractionSemanticActionDispatchTraceStatus, InteractionSemanticActionDispatchTraceReason, InteractionSemanticActionDispatchTraceReport, dispatch_trace_status_for, dispatch_trace_reason_for, dispatch_trace_of, trace_interaction_semantic_action_dispatch};
use prom_ui::action_admission::{
    InteractionActionAdmissionEffectRelationship,
    InteractionActionAdmissionPolicyGateNamespace, InteractionActionAdmissionTraceRequirement,
};
use prom_ui::action_binding::{InteractionActionBindingId, InteractionActionName};
use prom_ui::action_dispatch_record::{
    InteractionSemanticActionDispatchBlockReason, InteractionSemanticActionDispatchRecord,
    InteractionSemanticActionDispatchRecordId, InteractionSemanticActionDispatchRecordStatus,
};
use prom_ui::action_dispatch_route::{
    InteractionSemanticActionDispatchEffectEligibility,
    InteractionSemanticActionDispatchRouteId, InteractionSemanticActionDispatchRouteKind,
};
use prom_ui::admitted_action::InteractionAdmittedSemanticActionId;
use prom_ui::interaction::InteractionIntentKind;

fn recorded_record() -> InteractionSemanticActionDispatchRecord {
    InteractionSemanticActionDispatchRecord {
        id: InteractionSemanticActionDispatchRecordId(1),
        route_id: InteractionSemanticActionDispatchRouteId(1),
        admitted_action_id: InteractionAdmittedSemanticActionId(1),
        action: InteractionActionName::CloseWindow,
        source_intent: InteractionIntentKind::Close,
        binding_id: InteractionActionBindingId(1),
        route: InteractionSemanticActionDispatchRouteKind::LocalUiStateCandidate,
        status: InteractionSemanticActionDispatchRecordStatus::Recorded,
        block_reason: InteractionSemanticActionDispatchBlockReason::Nothing,
        trace_requirement: InteractionActionAdmissionTraceRequirement::Required,
        effect_relationship: InteractionActionAdmissionEffectRelationship::NoEffect,
        policy_gate_namespace: InteractionActionAdmissionPolicyGateNamespace::CoreUi,
        effect_eligibility: InteractionSemanticActionDispatchEffectEligibility::NoEffect,
    }
}

#[test]
fn recorded_dispatch_record_traces_as_recorded() {
    let record = recorded_record();

    let trace = trace_interaction_semantic_action_dispatch(&record);

    assert_eq!(trace.record_id, record.id);
    assert_eq!(
        trace.trace_status,
        InteractionSemanticActionDispatchTraceStatus::Recorded
    );
    assert_eq!(
        trace.trace_reason,
        InteractionSemanticActionDispatchTraceReason::RouteRecorded
    );
    assert!(trace.is_recorded());
    assert!(!trace.is_blocked());
}

#[test]
fn missing_route_traces_as_blocked() {
    let mut record = recorded_record();
    record.status = InteractionSemanticActionDispatchRecordStatus::BlockedMissingRoute;
    record.block_reason = InteractionSemanticActionDispatchBlockReason::MissingRoute;

    let trace = trace_interaction_semantic_action_dispatch(&record);

    assert_eq!(
        trace.trace_status,
        InteractionSemanticActionDispatchTraceStatus::Blocked
    );
    assert_eq!(
        trace.trace_reason,
        InteractionSemanticActionDispatchTraceReason::MissingRoute
    );
    assert!(trace.is_blocked());
}

#[test]
fn effect_boundary_block_traces_correctly() {
    let mut record = recorded_record();
    record.status = InteractionSemanticActionDispatchRecordStatus::BlockedEffectBoundary;
    record.block_reason = InteractionSemanticActionDispatchBlockReason::EffectBoundary;

    let trace = trace_interaction_semantic_action_dispatch(&record);

    assert_eq!(
        trace.trace_reason,
        InteractionSemanticActionDispatchTraceReason::EffectBoundaryBlocked
    );
}

#[test]
fn trace_preserves_dispatch_metadata() {
    let record = recorded_record();

    let trace = trace_interaction_semantic_action_dispatch(&record);

    assert_eq!(trace.route_id, record.route_id);
    assert_eq!(trace.admitted_action_id, record.admitted_action_id);
    assert_eq!(trace.action, record.action);
    assert_eq!(trace.source_intent, record.source_intent);
    assert_eq!(trace.binding_id, record.binding_id);
    assert_eq!(trace.route, record.route);
}

#[test]
fn trace_preserves_trace_effect_policy_metadata() {
    let record = recorded_record();

    let trace = trace_interaction_semantic_action_dispatch(&record);

    assert_eq!(trace.trace_requirement, record.trace_requirement);
    assert_eq!(trace.effect_relationship, record.effect_relationship);
    assert_eq!(trace.policy_gate_namespace, record.policy_gate_namespace);
    assert_eq!(trace.effect_eligibility, record.effect_eligibility);
}

#[test]
fn dispatch_trace_is_not_authority() {
    let record = recorded_record();

    let trace = trace_interaction_semantic_action_dispatch(&record);

    assert!(!trace.is_dispatcher());
    assert!(!trace.is_execution_authority());
    assert!(!trace.is_effect_request());
    assert!(!trace.is_runtime_mutation());
    assert!(!trace.is_audit_authority());
}

#[test]
fn dispatch_trace_generation_is_deterministic() {
    let record = recorded_record();

    let first = trace_interaction_semantic_action_dispatch(&record);
    let second = trace_interaction_semantic_action_dispatch(&record);

    assert_eq!(first, second);
}
