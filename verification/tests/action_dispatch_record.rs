#![allow(unused_imports)]
use prom_ui::action_dispatch_record::{InteractionSemanticActionDispatchRecordId, InteractionSemanticActionDispatchRecordStatus, InteractionSemanticActionDispatchBlockReason, InteractionSemanticActionDispatchRecord, record_status_for, block_reason_for, dispatch_record_of, record_interaction_semantic_action_dispatch};
use prom_ui::action_admission::{
    InteractionActionAdmissionEffectRelationship,
    InteractionActionAdmissionPolicyGateNamespace, InteractionActionAdmissionTraceRequirement,
};
use prom_ui::action_binding::{InteractionActionBindingId, InteractionActionName};
use prom_ui::action_dispatch_route::{
    InteractionSemanticActionDispatchEffectEligibility,
    InteractionSemanticActionDispatchRouteDescriptor, InteractionSemanticActionDispatchRouteId,
    InteractionSemanticActionDispatchRouteKind,
};
use prom_ui::admitted_action::InteractionAdmittedSemanticActionId;
use prom_ui::interaction::InteractionIntentKind;

fn local_route() -> InteractionSemanticActionDispatchRouteDescriptor {
    InteractionSemanticActionDispatchRouteDescriptor {
        id: InteractionSemanticActionDispatchRouteId(1),
        admitted_action_id: InteractionAdmittedSemanticActionId(1),
        action: InteractionActionName::CloseWindow,
        source_intent: InteractionIntentKind::Close,
        binding_id: InteractionActionBindingId(1),
        route: InteractionSemanticActionDispatchRouteKind::LocalUiStateCandidate,
        trace_requirement: InteractionActionAdmissionTraceRequirement::Required,
        effect_relationship: InteractionActionAdmissionEffectRelationship::NoEffect,
        policy_gate_namespace: InteractionActionAdmissionPolicyGateNamespace::CoreUi,
        effect_eligibility: InteractionSemanticActionDispatchEffectEligibility::NoEffect,
    }
}

#[test]
fn local_route_records_dispatch_metadata() {
    let route = local_route();

    let record = record_interaction_semantic_action_dispatch(&route);

    assert_eq!(record.route_id, route.id);
    assert_eq!(record.admitted_action_id, route.admitted_action_id);
    assert_eq!(record.action, route.action);
    assert_eq!(record.source_intent, route.source_intent);
    assert_eq!(record.binding_id, route.binding_id);
    assert_eq!(
        record.status,
        InteractionSemanticActionDispatchRecordStatus::Recorded
    );
    assert_eq!(
        record.block_reason,
        InteractionSemanticActionDispatchBlockReason::Nothing
    );
}

#[test]
fn unknown_route_records_blocked_missing_route() {
    let mut route = local_route();
    route.route = InteractionSemanticActionDispatchRouteKind::Unknown;

    let record = record_interaction_semantic_action_dispatch(&route);

    assert_eq!(
        record.status,
        InteractionSemanticActionDispatchRecordStatus::BlockedMissingRoute
    );
    assert_eq!(
        record.block_reason,
        InteractionSemanticActionDispatchBlockReason::MissingRoute
    );
    assert!(record.is_blocked());
}

#[test]
fn effect_candidate_remains_recorded_not_effect_request() {
    let mut route = local_route();
    route.route = InteractionSemanticActionDispatchRouteKind::EffectRequestCandidate;
    route.effect_eligibility =
        InteractionSemanticActionDispatchEffectEligibility::RequiresFutureEffectBoundary;

    let record = record_interaction_semantic_action_dispatch(&route);

    assert_eq!(
        record.status,
        InteractionSemanticActionDispatchRecordStatus::Recorded
    );
    assert_eq!(
        record.block_reason,
        InteractionSemanticActionDispatchBlockReason::Nothing
    );
    assert_eq!(
        record.effect_eligibility,
        InteractionSemanticActionDispatchEffectEligibility::RequiresFutureEffectBoundary
    );
    assert!(!record.is_effect_request());
}

#[test]
fn record_preserves_trace_effect_policy_metadata() {
    let route = local_route();

    let record = record_interaction_semantic_action_dispatch(&route);

    assert_eq!(record.trace_requirement, route.trace_requirement);
    assert_eq!(record.effect_relationship, route.effect_relationship);
    assert_eq!(record.policy_gate_namespace, route.policy_gate_namespace);
    assert_eq!(record.effect_eligibility, route.effect_eligibility);
}

#[test]
fn dispatch_record_is_not_authority() {
    let route = local_route();

    let record = record_interaction_semantic_action_dispatch(&route);

    assert!(!record.is_execution_authority());
    assert!(!record.is_effect_request());
    assert!(!record.is_runtime_mutation());
    assert!(!record.calls_vm_or_host_abi());
}

#[test]
fn dispatch_record_generation_is_deterministic() {
    let route = local_route();

    let first = record_interaction_semantic_action_dispatch(&route);
    let second = record_interaction_semantic_action_dispatch(&route);

    assert_eq!(first, second);
}
