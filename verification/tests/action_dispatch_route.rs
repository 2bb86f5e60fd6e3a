#![allow(unused_imports)]
use prom_ui::action_dispatch_route::{InteractionSemanticActionDispatchRouteId, InteractionSemanticActionDispatchRouteKind, InteractionSemanticActionDispatchEffectEligibility, InteractionSemanticActionDispatchRouteDescriptor, effect_eligibility_for, core_ui_no_effect_route_for, dispatch_route_for, dispatch_route_of, describe_interaction_semantic_action_dispatch_route};
use prom_ui::action_admission::{
    InteractionActionAdmissionDescriptorId, InteractionActionAdmissionPolicyGateNamespace,
    InteractionActionAdmissionTraceRequirement,
};
use prom_ui::action_admission_result::InteractionActionAdmissionResultId;
use prom_ui::admitted_action::{
    InteractionAdmittedSemanticAction,
    InteractionAdmittedSemanticActionDispatchReadiness,
    InteractionAdmittedSemanticActionEffectReadiness,
    InteractionAdmittedSemanticActionId,
};
use prom_ui::action_admission::InteractionActionAdmissionEffectRelationship;
use prom_ui::action_binding::InteractionActionBindingId;
use prom_ui::action_binding::InteractionActionName;
use prom_ui::interaction::InteractionIntentKind;

fn close_admitted_action() -> InteractionAdmittedSemanticAction {
    InteractionAdmittedSemanticAction {
        id: InteractionAdmittedSemanticActionId(1),
        admission_result_id: InteractionActionAdmissionResultId(1),
        descriptor_id: InteractionActionAdmissionDescriptorId(1),
        action: InteractionActionName::CloseWindow,
        source_intent: InteractionIntentKind::Close,
        binding_id: InteractionActionBindingId(1),
        trace_requirement: InteractionActionAdmissionTraceRequirement::Required,
        effect_relationship: InteractionActionAdmissionEffectRelationship::NoEffect,
        policy_gate_namespace: InteractionActionAdmissionPolicyGateNamespace::CoreUi,
        dispatch_readiness: InteractionAdmittedSemanticActionDispatchReadiness::Deferred,
        effect_readiness: InteractionAdmittedSemanticActionEffectReadiness::NoEffect,
    }
}

fn select_admitted_action() -> InteractionAdmittedSemanticAction {
    InteractionAdmittedSemanticAction {
        id: InteractionAdmittedSemanticActionId(2),
        admission_result_id: InteractionActionAdmissionResultId(2),
        descriptor_id: InteractionActionAdmissionDescriptorId(2),
        action: InteractionActionName::SelectTraceEvent,
        source_intent: InteractionIntentKind::Select,
        binding_id: InteractionActionBindingId(2),
        trace_requirement: InteractionActionAdmissionTraceRequirement::Required,
        effect_relationship: InteractionActionAdmissionEffectRelationship::NoEffect,
        policy_gate_namespace: InteractionActionAdmissionPolicyGateNamespace::CoreUi,
        dispatch_readiness: InteractionAdmittedSemanticActionDispatchReadiness::Deferred,
        effect_readiness: InteractionAdmittedSemanticActionEffectReadiness::NoEffect,
    }
}

#[test]
fn close_window_maps_to_local_ui_state_candidate() {
    let action = close_admitted_action();

    let route = describe_interaction_semantic_action_dispatch_route(&action);

    assert_eq!(
        route.route,
        InteractionSemanticActionDispatchRouteKind::LocalUiStateCandidate
    );
    assert_eq!(
        route.effect_eligibility,
        InteractionSemanticActionDispatchEffectEligibility::NoEffect
    );
}

#[test]
fn workbench_local_maps_to_workbench_candidate() {
    let mut action = select_admitted_action();
    action.policy_gate_namespace = InteractionActionAdmissionPolicyGateNamespace::WorkbenchLocal;

    let route = describe_interaction_semantic_action_dispatch_route(&action);

    assert_eq!(
        route.route,
        InteractionSemanticActionDispatchRouteKind::WorkbenchLocalCandidate
    );
}

#[test]
fn deferred_effect_maps_to_effect_request_candidate() {
    let mut action = select_admitted_action();
    action.effect_readiness =
        InteractionAdmittedSemanticActionEffectReadiness::DeferredEffectBoundary;

    let route = describe_interaction_semantic_action_dispatch_route(&action);

    assert_eq!(
        route.route,
        InteractionSemanticActionDispatchRouteKind::EffectRequestCandidate
    );
    assert_eq!(
        route.effect_eligibility,
        InteractionSemanticActionDispatchEffectEligibility::RequiresFutureEffectBoundary
    );
}

#[test]
fn route_descriptor_preserves_identity() {
    let action = close_admitted_action();

    let route = describe_interaction_semantic_action_dispatch_route(&action);

    assert_eq!(route.admitted_action_id, action.id);
    assert_eq!(route.action, action.action);
    assert_eq!(route.source_intent, action.source_intent);
    assert_eq!(route.binding_id, action.binding_id);
}

#[test]
fn route_descriptor_is_not_authority() {
    let action = close_admitted_action();

    let route = describe_interaction_semantic_action_dispatch_route(&action);

    assert!(!route.is_dispatch_record());
    assert!(!route.is_execution_authority());
    assert!(!route.is_effect_request());
    assert!(!route.is_runtime_mutation());
}

#[test]
fn route_generation_is_deterministic() {
    let action = select_admitted_action();

    let first = describe_interaction_semantic_action_dispatch_route(&action);
    let second = describe_interaction_semantic_action_dispatch_route(&action);

    assert_eq!(first, second);
}
