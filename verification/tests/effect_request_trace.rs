#![allow(unused_imports)]
use prom_ui::effect_request_trace::{InteractionEffectRequestTraceStatus, InteractionEffectRequestTraceReason, InteractionEffectRequestTraceReport, effect_request_trace_of, trace_interaction_effect_request};
use prom_ui::action_admission::{
    InteractionActionAdmissionEffectRelationship,
    InteractionActionAdmissionPolicyGateNamespace, InteractionActionAdmissionTraceRequirement,
};
use prom_ui::action_binding::{InteractionActionBindingId, InteractionActionName};
use prom_ui::action_dispatch_record::{
    InteractionSemanticActionDispatchBlockReason, InteractionSemanticActionDispatchRecordId,
    InteractionSemanticActionDispatchRecordStatus,
};
use prom_ui::action_dispatch_route::{
    InteractionSemanticActionDispatchEffectEligibility,
    InteractionSemanticActionDispatchRouteId, InteractionSemanticActionDispatchRouteKind,
};
use prom_ui::action_dispatch_trace::{
    InteractionSemanticActionDispatchTraceReason, InteractionSemanticActionDispatchTraceReport,
    InteractionSemanticActionDispatchTraceStatus,
};
use prom_ui::admitted_action::InteractionAdmittedSemanticActionId;
use prom_ui::effect_request::{
    describe_interaction_effect_request, InteractionEffectRequestDescriptor,
};
use prom_ui::interaction::InteractionIntentKind;

fn prepare_effect_trace() -> InteractionSemanticActionDispatchTraceReport {
    InteractionSemanticActionDispatchTraceReport {
        record_id: InteractionSemanticActionDispatchRecordId(11),
        route_id: InteractionSemanticActionDispatchRouteId(11),
        admitted_action_id: InteractionAdmittedSemanticActionId(11),
        action: InteractionActionName::PrepareEffect,
        source_intent: InteractionIntentKind::Submit,
        binding_id: InteractionActionBindingId(11),
        route: InteractionSemanticActionDispatchRouteKind::EffectRequestCandidate,
        record_status: InteractionSemanticActionDispatchRecordStatus::Recorded,
        trace_status: InteractionSemanticActionDispatchTraceStatus::Recorded,
        block_reason: InteractionSemanticActionDispatchBlockReason::Nothing,
        trace_reason: InteractionSemanticActionDispatchTraceReason::RouteRecorded,
        trace_requirement: InteractionActionAdmissionTraceRequirement::Required,
        effect_relationship:
            InteractionActionAdmissionEffectRelationship::MayRequestEffectAfterAdmission,
        policy_gate_namespace: InteractionActionAdmissionPolicyGateNamespace::CoreUi,
        effect_eligibility:
            InteractionSemanticActionDispatchEffectEligibility::RequiresFutureEffectBoundary,
    }
}

fn close_window_no_effect_trace() -> InteractionSemanticActionDispatchTraceReport {
    InteractionSemanticActionDispatchTraceReport {
        record_id: InteractionSemanticActionDispatchRecordId(12),
        route_id: InteractionSemanticActionDispatchRouteId(12),
        admitted_action_id: InteractionAdmittedSemanticActionId(12),
        action: InteractionActionName::CloseWindow,
        source_intent: InteractionIntentKind::Close,
        binding_id: InteractionActionBindingId(12),
        route: InteractionSemanticActionDispatchRouteKind::LocalUiStateCandidate,
        record_status: InteractionSemanticActionDispatchRecordStatus::Recorded,
        trace_status: InteractionSemanticActionDispatchTraceStatus::Recorded,
        block_reason: InteractionSemanticActionDispatchBlockReason::Nothing,
        trace_reason: InteractionSemanticActionDispatchTraceReason::RouteRecorded,
        trace_requirement: InteractionActionAdmissionTraceRequirement::Required,
        effect_relationship: InteractionActionAdmissionEffectRelationship::NoEffect,
        policy_gate_namespace: InteractionActionAdmissionPolicyGateNamespace::WorkbenchLocal,
        effect_eligibility: InteractionSemanticActionDispatchEffectEligibility::NoEffect,
    }
}

fn effect_request_descriptor() -> InteractionEffectRequestDescriptor {
    let trace = prepare_effect_trace();
    describe_interaction_effect_request(&trace)
        .expect("effect candidate trace should produce descriptor")
}

#[test]
fn descriptor_produces_trace_report() {
    let descriptor = effect_request_descriptor();

    let trace = trace_interaction_effect_request(&descriptor);

    assert_eq!(trace.descriptor_id, descriptor.id);
    assert_eq!(
        trace.trace_status,
        InteractionEffectRequestTraceStatus::Described
    );
    assert_eq!(
        trace.trace_reason,
        InteractionEffectRequestTraceReason::DescriptorRecorded
    );
}

#[test]
fn trace_preserves_descriptor_identity() {
    let descriptor = effect_request_descriptor();

    let trace = trace_interaction_effect_request(&descriptor);

    assert_eq!(trace.descriptor_id, descriptor.id);
    assert_eq!(
        trace.source_admitted_action_id,
        descriptor.source_admitted_action_id
    );
    assert_eq!(trace.dispatch_record_id, descriptor.dispatch_record_id);
    assert_eq!(trace.dispatch_route_id, descriptor.dispatch_route_id);
}

#[test]
fn trace_preserves_source_action_effect_metadata() {
    let descriptor = effect_request_descriptor();

    let trace = trace_interaction_effect_request(&descriptor);

    assert_eq!(trace.action, descriptor.action);
    assert_eq!(trace.source_intent, descriptor.source_intent);
    assert_eq!(trace.requested_effect, descriptor.requested_effect);
}

#[test]
fn trace_preserves_capability_lifecycle_policy_metadata() {
    let descriptor = effect_request_descriptor();

    let trace = trace_interaction_effect_request(&descriptor);

    assert_eq!(trace.target_policy, descriptor.target_policy);
    assert_eq!(
        trace.required_ui_capability,
        descriptor.required_ui_capability
    );
    assert_eq!(
        trace.required_runtime_capability,
        descriptor.required_runtime_capability
    );
    assert_eq!(
        trace.lifecycle_precondition,
        descriptor.lifecycle_precondition
    );
    assert_eq!(trace.trace_requirement, descriptor.trace_requirement);
    assert_eq!(trace.denial_behavior, descriptor.denial_behavior);
    assert_eq!(
        trace.prepare_commit_relationship,
        descriptor.prepare_commit_relationship
    );
    assert_eq!(
        trace.policy_gate_namespace,
        descriptor.policy_gate_namespace
    );
    assert_eq!(trace.scope, descriptor.scope);
}

#[test]
fn effect_request_trace_trace_is_not_authority() {
    let descriptor = effect_request_descriptor();

    let trace = trace_interaction_effect_request(&descriptor);

    assert!(!trace.is_capability_admission());
    assert!(!trace.is_prepared_effect());
    assert!(!trace.is_committed_effect());
    assert!(!trace.is_execution_authority());
    assert!(!trace.is_runtime_mutation());
    assert!(!trace.is_audit_authority());
    assert!(!trace.calls_vm_or_host_abi());
}

#[test]
fn effect_request_trace_close_window_trace_does_not_produce_descriptor() {
    let trace = close_window_no_effect_trace();

    let descriptor = describe_interaction_effect_request(&trace);

    assert!(descriptor.is_none());
}

#[test]
fn effect_request_trace_descriptor_generation_is_deterministic() {
    let descriptor = effect_request_descriptor();

    let first = trace_interaction_effect_request(&descriptor);
    let second = trace_interaction_effect_request(&descriptor);

    assert_eq!(first, second);
}
