#![allow(unused_imports)]
use prom_ui::action_denial_trace::{InteractionActionDenialTraceId, InteractionActionDenialRetryHint, InteractionActionDenialTrace, retry_hint_for, denial_trace_of, trace_interaction_action_denial};
use prom_ui::action_admission::{
    InteractionActionAdmissionCapabilityRequirement,
    InteractionActionAdmissionDenialVisibility,
    InteractionActionAdmissionDescriptor,
    InteractionActionAdmissionDescriptorId,
    InteractionActionAdmissionEffectRelationship,
    InteractionActionAdmissionFutureResultShape,
    InteractionActionAdmissionLifecycleRequirement,
    InteractionActionAdmissionPolicyGateNamespace,
    InteractionActionAdmissionTargetOwnershipRequirement,
    InteractionActionAdmissionTargetRequirement,
    InteractionActionAdmissionTraceRequirement,
};
use prom_ui::action_admission_result::{
    record_interaction_action_admitted_result, record_interaction_action_denied_result,
    InteractionActionAdmissionDenialReason, InteractionActionAdmissionMissingRequirement,
};
use prom_ui::action_binding::{InteractionActionBindingId, InteractionActionName};
use prom_ui::interaction::InteractionIntentKind;

fn close_descriptor() -> InteractionActionAdmissionDescriptor {
    InteractionActionAdmissionDescriptor {
        id: InteractionActionAdmissionDescriptorId(1),
        action: InteractionActionName::CloseWindow,
        source_intent: InteractionIntentKind::Close,
        binding_id: InteractionActionBindingId(1),
        target_requirement: InteractionActionAdmissionTargetRequirement::Ignored,
        target_ownership_requirement:
            InteractionActionAdmissionTargetOwnershipRequirement::NotRequired,
        lifecycle_requirement: InteractionActionAdmissionLifecycleRequirement::SessionActive,
        capability_requirement:
            InteractionActionAdmissionCapabilityRequirement::DesktopSession,
        trace_requirement: InteractionActionAdmissionTraceRequirement::Required,
        effect_relationship: InteractionActionAdmissionEffectRelationship::NoEffect,
        denial_visibility: InteractionActionAdmissionDenialVisibility::Required,
        policy_gate_namespace: InteractionActionAdmissionPolicyGateNamespace::CoreUi,
        future_result_shape:
            InteractionActionAdmissionFutureResultShape::AdmitOrDenyWithReason,
    }
}

fn select_descriptor() -> InteractionActionAdmissionDescriptor {
    InteractionActionAdmissionDescriptor {
        id: InteractionActionAdmissionDescriptorId(2),
        action: InteractionActionName::SelectTraceEvent,
        source_intent: InteractionIntentKind::Select,
        binding_id: InteractionActionBindingId(2),
        target_requirement: InteractionActionAdmissionTargetRequirement::Required,
        target_ownership_requirement:
            InteractionActionAdmissionTargetOwnershipRequirement::RequiredWhenTargetPresent,
        lifecycle_requirement: InteractionActionAdmissionLifecycleRequirement::SessionActive,
        capability_requirement:
            InteractionActionAdmissionCapabilityRequirement::InputPoll,
        trace_requirement: InteractionActionAdmissionTraceRequirement::Required,
        effect_relationship: InteractionActionAdmissionEffectRelationship::NoEffect,
        denial_visibility: InteractionActionAdmissionDenialVisibility::Required,
        policy_gate_namespace: InteractionActionAdmissionPolicyGateNamespace::CoreUi,
        future_result_shape:
            InteractionActionAdmissionFutureResultShape::AdmitOrDenyWithReason,
    }
}

#[test]
fn action_denial_trace_denied_result_produces_denial_trace() {
    let descriptor = select_descriptor();

    let result = record_interaction_action_denied_result(
        &descriptor,
        InteractionActionAdmissionDenialReason::MissingTarget,
        InteractionActionAdmissionMissingRequirement::Target,
    );

    let trace = trace_interaction_action_denial(&result)
        .expect("denied result should produce denial trace");

    assert_eq!(trace.result_id, result.id);
    assert_eq!(trace.descriptor_id, result.descriptor_id);
    assert_eq!(trace.action, result.action);
    assert_eq!(trace.denial_reason, InteractionActionAdmissionDenialReason::MissingTarget);
}

#[test]
fn admitted_result_does_not_produce_denial_trace() {
    let descriptor = close_descriptor();

    let result = record_interaction_action_admitted_result(&descriptor);

    let trace = trace_interaction_action_denial(&result);

    assert!(trace.is_none());
}

#[test]
fn missing_target_maps_to_target_retry_hint() {
    let descriptor = select_descriptor();

    let result = record_interaction_action_denied_result(
        &descriptor,
        InteractionActionAdmissionDenialReason::MissingTarget,
        InteractionActionAdmissionMissingRequirement::Target,
    );

    let trace = trace_interaction_action_denial(&result)
        .expect("denied result should produce denial trace");

    assert_eq!(
        trace.retry_hint,
        InteractionActionDenialRetryHint::UsefulAfterTargetChange
    );
}

#[test]
fn capability_missing_maps_to_capability_retry_hint() {
    let descriptor = select_descriptor();

    let result = record_interaction_action_denied_result(
        &descriptor,
        InteractionActionAdmissionDenialReason::CapabilityMissing,
        InteractionActionAdmissionMissingRequirement::Capability,
    );

    let trace = trace_interaction_action_denial(&result)
        .expect("denied result should produce denial trace");

    assert_eq!(
        trace.retry_hint,
        InteractionActionDenialRetryHint::UsefulAfterCapabilityChange
    );
}

#[test]
fn denial_trace_is_not_authority() {
    let descriptor = select_descriptor();

    let result = record_interaction_action_denied_result(
        &descriptor,
        InteractionActionAdmissionDenialReason::PolicyDenied,
        InteractionActionAdmissionMissingRequirement::Policy,
    );

    let trace = trace_interaction_action_denial(&result)
        .expect("denied result should produce denial trace");

    assert!(!trace.is_audit_authority());
    assert!(!trace.is_execution_authority());
    assert!(!trace.is_runtime_mutation());
}

#[test]
fn denial_trace_preserves_effect_relationship_without_requesting_effect() {
    let descriptor = select_descriptor();

    let result = record_interaction_action_denied_result(
        &descriptor,
        InteractionActionAdmissionDenialReason::EffectBoundaryRequired,
        InteractionActionAdmissionMissingRequirement::EffectBoundary,
    );

    let trace = trace_interaction_action_denial(&result)
        .expect("denied result should produce denial trace");

    assert_eq!(trace.effect_relationship, result.effect_relationship);
    assert!(!trace.is_execution_authority());
}

#[test]
fn denial_trace_generation_is_deterministic() {
    let descriptor = select_descriptor();

    let result = record_interaction_action_denied_result(
        &descriptor,
        InteractionActionAdmissionDenialReason::MissingTarget,
        InteractionActionAdmissionMissingRequirement::Target,
    );

    let first = trace_interaction_action_denial(&result);
    let second = trace_interaction_action_denial(&result);

    assert_eq!(first, second);
}
