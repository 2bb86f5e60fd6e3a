#![allow(unused_imports)]
use prom_ui::action_admission::{InteractionActionAdmissionDescriptorId, InteractionActionAdmissionTargetRequirement, InteractionActionAdmissionTargetOwnershipRequirement, InteractionActionAdmissionLifecycleRequirement, InteractionActionAdmissionCapabilityRequirement, InteractionActionAdmissionTraceRequirement, InteractionActionAdmissionEffectRelationship, InteractionActionAdmissionDenialVisibility, InteractionActionAdmissionPolicyGateNamespace, InteractionActionAdmissionFutureResultShape, InteractionActionAdmissionDescriptor, target_requirement_for, target_ownership_requirement_for, trace_requirement_for, effect_relationship_for, capability_requirement_for, policy_gate_namespace_for, admission_descriptor_of, describe_interaction_action_admission};
use prom_ui::action_binding::{
    InteractionActionAdmissionPolicy, InteractionActionBindingId,
    InteractionActionEffectPolicy, InteractionActionName, InteractionActionTargetPolicy,
    InteractionActionTracePolicy,
};
use prom_ui::action_binding_trace::{
    InteractionActionBindingTraceReason, InteractionActionBindingTraceReport,
    InteractionActionBindingTraceStatus,
};
use prom_ui::interaction::InteractionIntentKind;
use prom_ui::trace::InteractionIntentTraceStatus;

fn close_binding_trace() -> InteractionActionBindingTraceReport {
    InteractionActionBindingTraceReport {
        intent_id: prom_ui::interaction::InteractionIntentId(1),
        intent_kind: InteractionIntentKind::Close,
        intent_status: InteractionIntentTraceStatus::Classified,
        binding_status: InteractionActionBindingTraceStatus::Bound,
        reason: InteractionActionBindingTraceReason::BindingIgnoresTarget,
        binding_id: Some(InteractionActionBindingId(1)),
        action: Some(InteractionActionName::CloseWindow),
        target_policy: Some(InteractionActionTargetPolicy::IgnoresTarget),
        admission_policy: Some(InteractionActionAdmissionPolicy::Required),
        effect_policy: Some(InteractionActionEffectPolicy::NoEffect),
        trace_policy: Some(InteractionActionTracePolicy::Required),
    }
}

fn select_binding_trace() -> InteractionActionBindingTraceReport {
    InteractionActionBindingTraceReport {
        intent_id: prom_ui::interaction::InteractionIntentId(2),
        intent_kind: InteractionIntentKind::Select,
        intent_status: InteractionIntentTraceStatus::Classified,
        binding_status: InteractionActionBindingTraceStatus::Bound,
        reason: InteractionActionBindingTraceReason::BindingRequiresTarget,
        binding_id: Some(InteractionActionBindingId(2)),
        action: Some(InteractionActionName::SelectTraceEvent),
        target_policy: Some(InteractionActionTargetPolicy::RequiresTarget),
        admission_policy: Some(InteractionActionAdmissionPolicy::Required),
        effect_policy: Some(InteractionActionEffectPolicy::NoEffect),
        trace_policy: Some(InteractionActionTracePolicy::Required),
    }
}

fn unbound_trace() -> InteractionActionBindingTraceReport {
    InteractionActionBindingTraceReport {
        intent_id: prom_ui::interaction::InteractionIntentId(3),
        intent_kind: InteractionIntentKind::Activate,
        intent_status: InteractionIntentTraceStatus::Classified,
        binding_status: InteractionActionBindingTraceStatus::Unbound,
        reason: InteractionActionBindingTraceReason::NoBindingForIntent,
        binding_id: None,
        action: None,
        target_policy: None,
        admission_policy: None,
        effect_policy: None,
        trace_policy: None,
    }
}

#[test]
fn bound_close_trace_produces_admission_descriptor() {
    let trace = close_binding_trace();

    let descriptor = describe_interaction_action_admission(&trace)
        .expect("bound close trace should produce descriptor");

    assert_eq!(descriptor.action, InteractionActionName::CloseWindow);
    assert_eq!(
        descriptor.capability_requirement,
        InteractionActionAdmissionCapabilityRequirement::DesktopSession
    );
    assert_eq!(
        descriptor.target_requirement,
        InteractionActionAdmissionTargetRequirement::Ignored
    );
}

#[test]
fn bound_select_trace_requires_target_and_ownership() {
    let trace = select_binding_trace();

    let descriptor = describe_interaction_action_admission(&trace)
        .expect("bound select trace should produce descriptor");

    assert_eq!(descriptor.action, InteractionActionName::SelectTraceEvent);
    assert_eq!(
        descriptor.target_requirement,
        InteractionActionAdmissionTargetRequirement::Required
    );
    assert_eq!(
        descriptor.target_ownership_requirement,
        InteractionActionAdmissionTargetOwnershipRequirement::RequiredWhenTargetPresent
    );
}

#[test]
fn unbound_trace_does_not_produce_admission_descriptor() {
    let trace = unbound_trace();

    let descriptor = describe_interaction_action_admission(&trace);

    assert!(descriptor.is_none());
}

#[test]
fn descriptor_records_future_result_shape_only() {
    let trace = close_binding_trace();

    let descriptor = describe_interaction_action_admission(&trace)
        .expect("bound close trace should produce descriptor");

    assert_eq!(
        descriptor.future_result_shape,
        InteractionActionAdmissionFutureResultShape::AdmitOrDenyWithReason
    );
}

#[test]
fn descriptor_preserves_no_effect_relationship() {
    let trace = close_binding_trace();

    let descriptor = describe_interaction_action_admission(&trace)
        .expect("bound close trace should produce descriptor");

    assert_eq!(
        descriptor.effect_relationship,
        InteractionActionAdmissionEffectRelationship::NoEffect
    );
}

#[test]
fn descriptor_requires_denial_visibility() {
    let trace = select_binding_trace();

    let descriptor = describe_interaction_action_admission(&trace)
        .expect("bound select trace should produce descriptor");

    assert_eq!(
        descriptor.denial_visibility,
        InteractionActionAdmissionDenialVisibility::Required
    );
}

#[test]
fn action_admission_descriptor_generation_is_deterministic() {
    let trace = select_binding_trace();

    let first = describe_interaction_action_admission(&trace);
    let second = describe_interaction_action_admission(&trace);

    assert_eq!(first, second);
}
