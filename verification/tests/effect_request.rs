#![allow(unused_imports)]
use prom_ui::effect_request::{InteractionEffectRequestDescriptorId, InteractionEffectRequestKind, InteractionEffectRequestTargetPolicy, InteractionEffectRequestUiCapability, InteractionEffectRequestRuntimeCapability, InteractionEffectRequestLifecyclePrecondition, InteractionEffectRequestDenialBehavior, InteractionEffectRequestPrepareCommitRelationship, InteractionEffectRequestScope, InteractionEffectRequestDescriptor, effect_request_of, describe_interaction_effect_request, requested_effect_for, effect_target_policy_for, ui_capability_for, runtime_capability_for, lifecycle_precondition_for, denial_behavior_for, prepare_commit_relationship_for, effect_scope_for};
use prom_ui::action_admission::{
    InteractionActionAdmissionPolicyGateNamespace, InteractionActionAdmissionTraceRequirement,
};
use prom_ui::action_binding::InteractionActionName;
use prom_ui::action_dispatch_record::{
    InteractionSemanticActionDispatchBlockReason, InteractionSemanticActionDispatchRecordId,
    InteractionSemanticActionDispatchRecordStatus,
};
use prom_ui::action_dispatch_route::{
    InteractionSemanticActionDispatchEffectEligibility,
    InteractionSemanticActionDispatchRouteId, InteractionSemanticActionDispatchRouteKind,
};
use prom_ui::action_dispatch_trace::{
    InteractionSemanticActionDispatchTraceReason, InteractionSemanticActionDispatchTraceReport,
    InteractionSemanticActionDispatchTraceStatus,
};
use prom_ui::admitted_action::InteractionAdmittedSemanticActionId;
use prom_ui::interaction::InteractionIntentKind;

fn prepare_effect_trace() -> InteractionSemanticActionDispatchTraceReport {
    InteractionSemanticActionDispatchTraceReport {
        record_id: InteractionSemanticActionDispatchRecordId(11),
        route_id: InteractionSemanticActionDispatchRouteId(11),
        admitted_action_id: InteractionAdmittedSemanticActionId(11),
        action: InteractionActionName::PrepareEffect,
        source_intent: InteractionIntentKind::Submit,
        binding_id: prom_ui::action_binding::InteractionActionBindingId(11),
        route: InteractionSemanticActionDispatchRouteKind::EffectRequestCandidate,
        record_status: InteractionSemanticActionDispatchRecordStatus::Recorded,
        trace_status: InteractionSemanticActionDispatchTraceStatus::Recorded,
        block_reason: InteractionSemanticActionDispatchBlockReason::Nothing,
        trace_reason: InteractionSemanticActionDispatchTraceReason::RouteRecorded,
        trace_requirement: InteractionActionAdmissionTraceRequirement::Required,
        effect_relationship:
            prom_ui::action_admission::InteractionActionAdmissionEffectRelationship::MayRequestEffectAfterAdmission,
        policy_gate_namespace: InteractionActionAdmissionPolicyGateNamespace::CoreUi,
        effect_eligibility:
            InteractionSemanticActionDispatchEffectEligibility::RequiresFutureEffectBoundary,
    }
}

fn close_window_no_effect_trace() -> InteractionSemanticActionDispatchTraceReport {
    InteractionSemanticActionDispatchTraceReport {
        record_id: InteractionSemanticActionDispatchRecordId(12),
        route_id: InteractionSemanticActionDispatchRouteId(12),
        admitted_action_id: InteractionAdmittedSemanticActionId(12),
        action: InteractionActionName::CloseWindow,
        source_intent: InteractionIntentKind::Close,
        binding_id: prom_ui::action_binding::InteractionActionBindingId(12),
        route: InteractionSemanticActionDispatchRouteKind::LocalUiStateCandidate,
        record_status: InteractionSemanticActionDispatchRecordStatus::Recorded,
        trace_status: InteractionSemanticActionDispatchTraceStatus::Recorded,
        block_reason: InteractionSemanticActionDispatchBlockReason::Nothing,
        trace_reason: InteractionSemanticActionDispatchTraceReason::RouteRecorded,
        trace_requirement: InteractionActionAdmissionTraceRequirement::Required,
        effect_relationship: prom_ui::action_admission::InteractionActionAdmissionEffectRelationship::NoEffect,
        policy_gate_namespace: InteractionActionAdmissionPolicyGateNamespace::WorkbenchLocal,
        effect_eligibility: InteractionSemanticActionDispatchEffectEligibility::NoEffect,
    }
}

#[test]
fn effect_trace_produces_descriptor() {
    let trace = prepare_effect_trace();

    let descriptor = describe_interaction_effect_request(&trace)
        .expect("effect candidate trace should produce descriptor");

    assert_eq!(descriptor.id, InteractionEffectRequestDescriptorId(11));
    assert_eq!(descriptor.source_admitted_action_id, trace.admitted_action_id);
    assert_eq!(descriptor.dispatch_record_id, trace.record_id);
    assert_eq!(descriptor.dispatch_route_id, trace.route_id);
    assert_eq!(descriptor.action, trace.action);
    assert_eq!(descriptor.source_intent, trace.source_intent);
    assert_eq!(
        descriptor.requested_effect,
        InteractionEffectRequestKind::PrepareEffect
    );
}

#[test]
fn effect_request_close_window_trace_does_not_produce_descriptor() {
    let trace = close_window_no_effect_trace();

    let descriptor = describe_interaction_effect_request(&trace);

    assert!(descriptor.is_none());
}

#[test]
fn descriptor_preserves_capability_and_policy_metadata() {
    let trace = prepare_effect_trace();

    let descriptor = describe_interaction_effect_request(&trace)
        .expect("effect candidate trace should produce descriptor");

    assert_eq!(
        descriptor.target_policy,
        InteractionEffectRequestTargetPolicy::Required
    );
    assert_eq!(
        descriptor.required_ui_capability,
        InteractionEffectRequestUiCapability::EffectControl
    );
    assert_eq!(
        descriptor.required_runtime_capability,
        InteractionEffectRequestRuntimeCapability::EffectControl
    );
    assert_eq!(
        descriptor.lifecycle_precondition,
        InteractionEffectRequestLifecyclePrecondition::SessionActive
    );
    assert_eq!(descriptor.trace_requirement, trace.trace_requirement);
    assert_eq!(
        descriptor.denial_behavior,
        InteractionEffectRequestDenialBehavior::VisibleRequired
    );
    assert_eq!(
        descriptor.prepare_commit_relationship,
        InteractionEffectRequestPrepareCommitRelationship::PrepareThenCommit
    );
    assert_eq!(descriptor.policy_gate_namespace, trace.policy_gate_namespace);
    assert_eq!(descriptor.scope, InteractionEffectRequestScope::CoreUi);
}

#[test]
fn close_window_maps_to_window_lifecycle_metadata() {
    let mut trace = close_window_no_effect_trace();
    trace.route = InteractionSemanticActionDispatchRouteKind::EffectRequestCandidate;
    trace.effect_eligibility =
        InteractionSemanticActionDispatchEffectEligibility::RequiresFutureEffectBoundary;
    trace.policy_gate_namespace = InteractionActionAdmissionPolicyGateNamespace::WorkbenchLocal;

    let descriptor = describe_interaction_effect_request(&trace)
        .expect("effect candidate trace should produce descriptor");

    assert_eq!(
        descriptor.requested_effect,
        InteractionEffectRequestKind::CloseWindow
    );
    assert_eq!(
        descriptor.target_policy,
        InteractionEffectRequestTargetPolicy::Optional
    );
    assert_eq!(
        descriptor.required_ui_capability,
        InteractionEffectRequestUiCapability::WindowLifecycle
    );
    assert_eq!(
        descriptor.required_runtime_capability,
        InteractionEffectRequestRuntimeCapability::WindowLifecycle
    );
    assert_eq!(
        descriptor.lifecycle_precondition,
        InteractionEffectRequestLifecyclePrecondition::WindowAlive
    );
    assert_eq!(descriptor.scope, InteractionEffectRequestScope::WorkbenchLocal);
}

#[test]
fn effect_request_descriptor_is_not_authority() {
    let trace = prepare_effect_trace();

    let descriptor = describe_interaction_effect_request(&trace)
        .expect("effect candidate trace should produce descriptor");

    assert!(!descriptor.is_capability_admission());
    assert!(!descriptor.is_prepared_effect());
    assert!(!descriptor.is_committed_effect());
    assert!(!descriptor.is_execution_authority());
    assert!(!descriptor.is_runtime_mutation());
    assert!(!descriptor.is_audit_authority());
    assert!(!descriptor.calls_vm_or_host_abi());
}

#[test]
fn effect_request_descriptor_generation_is_deterministic() {
    let trace = prepare_effect_trace();

    let first = describe_interaction_effect_request(&trace);
    let second = describe_interaction_effect_request(&trace);

    assert_eq!(first, second);
}
