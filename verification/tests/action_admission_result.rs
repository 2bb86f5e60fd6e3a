#![allow(unused_imports)]
use prom_ui::action_admission_result::{InteractionActionAdmissionResultId, InteractionActionAdmissionDecisionStatus, InteractionActionAdmissionDenialReason, InteractionActionAdmissionMissingRequirement, InteractionActionAdmissionResult, admission_result_for, record_interaction_action_admitted_result, record_interaction_action_denied_result};
use prom_ui::action_admission::{
    InteractionActionAdmissionCapabilityRequirement,
    InteractionActionAdmissionDenialVisibility,
    InteractionActionAdmissionDescriptor,
    InteractionActionAdmissionDescriptorId,
    InteractionActionAdmissionEffectRelationship,
    InteractionActionAdmissionFutureResultShape,
    InteractionActionAdmissionLifecycleRequirement,
    InteractionActionAdmissionPolicyGateNamespace,
    InteractionActionAdmissionTargetOwnershipRequirement,
    InteractionActionAdmissionTargetRequirement,
    InteractionActionAdmissionTraceRequirement,
};
use prom_ui::action_binding::{InteractionActionBindingId, InteractionActionName};
use prom_ui::interaction::InteractionIntentKind;

fn close_descriptor() -> InteractionActionAdmissionDescriptor {
    InteractionActionAdmissionDescriptor {
        id: InteractionActionAdmissionDescriptorId(1),
        action: InteractionActionName::CloseWindow,
        source_intent: InteractionIntentKind::Close,
        binding_id: InteractionActionBindingId(1),
        target_requirement: InteractionActionAdmissionTargetRequirement::Ignored,
        target_ownership_requirement:
            InteractionActionAdmissionTargetOwnershipRequirement::NotRequired,
        lifecycle_requirement: InteractionActionAdmissionLifecycleRequirement::SessionActive,
        capability_requirement:
            InteractionActionAdmissionCapabilityRequirement::DesktopSession,
        trace_requirement: InteractionActionAdmissionTraceRequirement::Required,
        effect_relationship: InteractionActionAdmissionEffectRelationship::NoEffect,
        denial_visibility: InteractionActionAdmissionDenialVisibility::Required,
        policy_gate_namespace: InteractionActionAdmissionPolicyGateNamespace::CoreUi,
        future_result_shape:
            InteractionActionAdmissionFutureResultShape::AdmitOrDenyWithReason,
    }
}

fn select_descriptor() -> InteractionActionAdmissionDescriptor {
    InteractionActionAdmissionDescriptor {
        id: InteractionActionAdmissionDescriptorId(2),
        action: InteractionActionName::SelectTraceEvent,
        source_intent: InteractionIntentKind::Select,
        binding_id: InteractionActionBindingId(2),
        target_requirement: InteractionActionAdmissionTargetRequirement::Required,
        target_ownership_requirement:
            InteractionActionAdmissionTargetOwnershipRequirement::RequiredWhenTargetPresent,
        lifecycle_requirement: InteractionActionAdmissionLifecycleRequirement::SessionActive,
        capability_requirement:
            InteractionActionAdmissionCapabilityRequirement::InputPoll,
        trace_requirement: InteractionActionAdmissionTraceRequirement::Required,
        effect_relationship: InteractionActionAdmissionEffectRelationship::NoEffect,
        denial_visibility: InteractionActionAdmissionDenialVisibility::Required,
        policy_gate_namespace: InteractionActionAdmissionPolicyGateNamespace::CoreUi,
        future_result_shape:
            InteractionActionAdmissionFutureResultShape::AdmitOrDenyWithReason,
    }
}

#[test]
fn admitted_result_preserves_descriptor_identity() {
    let descriptor = close_descriptor();

    let result = record_interaction_action_admitted_result(&descriptor);

    assert_eq!(result.status, InteractionActionAdmissionDecisionStatus::Admitted);
    assert_eq!(result.descriptor_id, descriptor.id);
    assert_eq!(result.action, descriptor.action);
    assert_eq!(result.source_intent, descriptor.source_intent);
    assert_eq!(result.binding_id, descriptor.binding_id);
}

#[test]
fn admitted_result_has_no_denial_reason() {
    let descriptor = close_descriptor();

    let result = record_interaction_action_admitted_result(&descriptor);

    assert_eq!(result.denial_reason, None);
    assert_eq!(
        result.missing_requirement,
        InteractionActionAdmissionMissingRequirement::Nothing
    );
    assert!(result.is_admitted());
    assert!(!result.is_denied());
}

#[test]
fn denied_result_records_reason_and_missing_requirement() {
    let descriptor = select_descriptor();

    let result = record_interaction_action_denied_result(
        &descriptor,
        InteractionActionAdmissionDenialReason::MissingTarget,
        InteractionActionAdmissionMissingRequirement::Target,
    );

    assert_eq!(result.status, InteractionActionAdmissionDecisionStatus::Denied);
    assert_eq!(
        result.denial_reason,
        Some(InteractionActionAdmissionDenialReason::MissingTarget)
    );
    assert_eq!(
        result.missing_requirement,
        InteractionActionAdmissionMissingRequirement::Target
    );
    assert!(result.is_denied());
}

#[test]
fn denied_result_requires_future_denial_trace() {
    let descriptor = select_descriptor();

    let result = record_interaction_action_denied_result(
        &descriptor,
        InteractionActionAdmissionDenialReason::CapabilityMissing,
        InteractionActionAdmissionMissingRequirement::Capability,
    );

    assert!(result.requires_denial_trace());
}

#[test]
fn admission_result_is_not_execution_authority() {
    let descriptor = close_descriptor();

    let result = record_interaction_action_admitted_result(&descriptor);

    assert!(!result.is_execution_authority());
}

#[test]
fn result_preserves_effect_relationship_without_requesting_effect() {
    let descriptor = close_descriptor();

    let result = record_interaction_action_admitted_result(&descriptor);

    assert_eq!(result.effect_relationship, descriptor.effect_relationship);
    assert!(!result.is_execution_authority());
}

#[test]
fn admission_result_generation_is_deterministic() {
    let descriptor = select_descriptor();

    let first = record_interaction_action_admitted_result(&descriptor);
    let second = record_interaction_action_admitted_result(&descriptor);

    assert_eq!(first, second);
}
