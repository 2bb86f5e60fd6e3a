#![allow(unused_imports)]
use prom_ui::admitted_action::{InteractionAdmittedSemanticActionId, InteractionAdmittedSemanticActionDispatchReadiness, InteractionAdmittedSemanticActionEffectReadiness, InteractionAdmittedSemanticAction, effect_readiness_for, admitted_action_of, build_interaction_admitted_semantic_action};
use prom_ui::action_admission::{
    InteractionActionAdmissionCapabilityRequirement,
    InteractionActionAdmissionDenialVisibility, InteractionActionAdmissionDescriptor,
    InteractionActionAdmissionDescriptorId, InteractionActionAdmissionEffectRelationship,
    InteractionActionAdmissionFutureResultShape,
    InteractionActionAdmissionLifecycleRequirement,
    InteractionActionAdmissionPolicyGateNamespace,
    InteractionActionAdmissionTargetOwnershipRequirement,
    InteractionActionAdmissionTargetRequirement, InteractionActionAdmissionTraceRequirement,
};
use prom_ui::action_admission_result::{
    record_interaction_action_admitted_result, record_interaction_action_denied_result,
    InteractionActionAdmissionDenialReason, InteractionActionAdmissionMissingRequirement,
};
use prom_ui::action_binding::{InteractionActionBindingId, InteractionActionName};
use prom_ui::interaction::InteractionIntentKind;

fn close_descriptor() -> InteractionActionAdmissionDescriptor {
    InteractionActionAdmissionDescriptor {
        id: InteractionActionAdmissionDescriptorId(1),
        action: InteractionActionName::CloseWindow,
        source_intent: InteractionIntentKind::Close,
        binding_id: InteractionActionBindingId(1),
        target_requirement: InteractionActionAdmissionTargetRequirement::Ignored,
        target_ownership_requirement:
            InteractionActionAdmissionTargetOwnershipRequirement::NotRequired,
        lifecycle_requirement: InteractionActionAdmissionLifecycleRequirement::SessionActive,
        capability_requirement: InteractionActionAdmissionCapabilityRequirement::DesktopSession,
        trace_requirement: InteractionActionAdmissionTraceRequirement::Required,
        effect_relationship: InteractionActionAdmissionEffectRelationship::NoEffect,
        denial_visibility: InteractionActionAdmissionDenialVisibility::Required,
        policy_gate_namespace: InteractionActionAdmissionPolicyGateNamespace::CoreUi,
        future_result_shape: InteractionActionAdmissionFutureResultShape::AdmitOrDenyWithReason,
    }
}

fn select_descriptor() -> InteractionActionAdmissionDescriptor {
    InteractionActionAdmissionDescriptor {
        id: InteractionActionAdmissionDescriptorId(2),
        action: InteractionActionName::SelectTraceEvent,
        source_intent: InteractionIntentKind::Select,
        binding_id: InteractionActionBindingId(2),
        target_requirement: InteractionActionAdmissionTargetRequirement::Required,
        target_ownership_requirement:
            InteractionActionAdmissionTargetOwnershipRequirement::RequiredWhenTargetPresent,
        lifecycle_requirement: InteractionActionAdmissionLifecycleRequirement::SessionActive,
        capability_requirement: InteractionActionAdmissionCapabilityRequirement::InputPoll,
        trace_requirement: InteractionActionAdmissionTraceRequirement::Required,
        effect_relationship: InteractionActionAdmissionEffectRelationship::NoEffect,
        denial_visibility: InteractionActionAdmissionDenialVisibility::Required,
        policy_gate_namespace: InteractionActionAdmissionPolicyGateNamespace::CoreUi,
        future_result_shape: InteractionActionAdmissionFutureResultShape::AdmitOrDenyWithReason,
    }
}

#[test]
fn admitted_result_builds_admitted_action_object() {
    let descriptor = close_descriptor();
    let result = record_interaction_action_admitted_result(&descriptor);

    let action = build_interaction_admitted_semantic_action(&result)
        .expect("admitted result should build action object");

    assert_eq!(action.admission_result_id, result.id);
    assert_eq!(action.descriptor_id, result.descriptor_id);
    assert_eq!(action.action, result.action);
    assert_eq!(action.source_intent, result.source_intent);
    assert_eq!(action.binding_id, result.binding_id);
}

#[test]
fn denied_result_does_not_build_admitted_action_object() {
    let descriptor = select_descriptor();

    let result = record_interaction_action_denied_result(
        &descriptor,
        InteractionActionAdmissionDenialReason::MissingTarget,
        InteractionActionAdmissionMissingRequirement::Target,
    );

    let action = build_interaction_admitted_semantic_action(&result);

    assert!(action.is_none());
}

#[test]
fn admitted_action_object_is_not_authority() {
    let descriptor = close_descriptor();
    let result = record_interaction_action_admitted_result(&descriptor);

    let action = build_interaction_admitted_semantic_action(&result)
        .expect("admitted result should build action object");

    assert!(!action.is_dispatch_authority());
    assert!(!action.is_execution_authority());
    assert!(!action.is_effect_request());
    assert!(!action.is_runtime_mutation());
}

#[test]
fn admitted_action_dispatch_readiness_is_deferred() {
    let descriptor = close_descriptor();
    let result = record_interaction_action_admitted_result(&descriptor);

    let action = build_interaction_admitted_semantic_action(&result)
        .expect("admitted result should build action object");

    assert_eq!(
        action.dispatch_readiness,
        InteractionAdmittedSemanticActionDispatchReadiness::Deferred
    );
}

#[test]
fn no_effect_relationship_maps_to_no_effect_readiness() {
    let descriptor = close_descriptor();
    let result = record_interaction_action_admitted_result(&descriptor);

    let action = build_interaction_admitted_semantic_action(&result)
        .expect("admitted result should build action object");

    assert_eq!(
        action.effect_readiness,
        InteractionAdmittedSemanticActionEffectReadiness::NoEffect
    );
}

#[test]
fn effect_capable_relationship_maps_to_deferred_effect_boundary() {
    let mut descriptor = select_descriptor();
    descriptor.effect_relationship =
        InteractionActionAdmissionEffectRelationship::MayRequestEffectAfterAdmission;

    let result = record_interaction_action_admitted_result(&descriptor);

    let action = build_interaction_admitted_semantic_action(&result)
        .expect("admitted result should build action object");

    assert_eq!(
        action.effect_readiness,
        InteractionAdmittedSemanticActionEffectReadiness::DeferredEffectBoundary
    );
    assert!(!action.is_effect_request());
}

#[test]
fn admitted_action_object_generation_is_deterministic() {
    let descriptor = select_descriptor();
    let result = record_interaction_action_admitted_result(&descriptor);

    let first = build_interaction_admitted_semantic_action(&result);
    let second = build_interaction_admitted_semantic_action(&result);

    assert_eq!(first, second);
}
