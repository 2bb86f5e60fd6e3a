#![allow(unused_imports)]
use prom_ui::commit_boundary::{InteractionCommitBoundaryDescriptorId, InteractionCommitAuditRequirement, InteractionCommitBoundaryFutureCommittedEffectShape, InteractionCommitBoundaryDescriptor, commit_boundary_of, describe_interaction_commit_boundary};
use prom_ui::action_admission::InteractionActionAdmissionEffectRelationship;
use prom_ui::action_binding::{InteractionActionBindingId, InteractionActionName};
use prom_ui::action_dispatch_record::{
    InteractionSemanticActionDispatchBlockReason, InteractionSemanticActionDispatchRecordId,
    InteractionSemanticActionDispatchRecordStatus,
};
use prom_ui::action_dispatch_route::{
    InteractionSemanticActionDispatchEffectEligibility,
    InteractionSemanticActionDispatchRouteId, InteractionSemanticActionDispatchRouteKind,
};
use prom_ui::action_dispatch_trace::{
    InteractionSemanticActionDispatchTraceReason, InteractionSemanticActionDispatchTraceReport,
    InteractionSemanticActionDispatchTraceStatus,
};
use prom_ui::admitted_action::InteractionAdmittedSemanticActionId;
use prom_ui::effect_request::describe_interaction_effect_request;
use prom_ui::interaction::InteractionIntentKind;
use prom_ui::prepared_effect_result::{InteractionPreparedEffectDenialReason, InteractionPreparedEffectMissingRequirement};
use prom_ui::action_admission::InteractionActionAdmissionPolicyGateNamespace;
use prom_ui::action_admission::InteractionActionAdmissionTraceRequirement;

fn effect_request_descriptor() -> prom_ui::effect_request::InteractionEffectRequestDescriptor {
    let dispatch_trace = InteractionSemanticActionDispatchTraceReport {
        record_id: InteractionSemanticActionDispatchRecordId(121),
        route_id: InteractionSemanticActionDispatchRouteId(121),
        admitted_action_id: InteractionAdmittedSemanticActionId(121),
        action: InteractionActionName::PrepareEffect,
        source_intent: InteractionIntentKind::Submit,
        binding_id: InteractionActionBindingId(121),
        route: InteractionSemanticActionDispatchRouteKind::EffectRequestCandidate,
        record_status: InteractionSemanticActionDispatchRecordStatus::Recorded,
        trace_status: InteractionSemanticActionDispatchTraceStatus::Recorded,
        block_reason: InteractionSemanticActionDispatchBlockReason::Nothing,
        trace_reason: InteractionSemanticActionDispatchTraceReason::RouteRecorded,
        trace_requirement: InteractionActionAdmissionTraceRequirement::Required,
        effect_relationship:
            InteractionActionAdmissionEffectRelationship::MayRequestEffectAfterAdmission,
        policy_gate_namespace: InteractionActionAdmissionPolicyGateNamespace::CoreUi,
        effect_eligibility:
            InteractionSemanticActionDispatchEffectEligibility::RequiresFutureEffectBoundary,
    };

    describe_interaction_effect_request(&dispatch_trace)
        .expect("effect candidate trace should produce descriptor")
}

fn prepared_result() -> prom_ui::prepared_effect_result::InteractionPreparedEffectResult {
    let effect_request = effect_request_descriptor();
    prepared_effect_result_for(&effect_request, true)
}

fn denied_prepared_result() -> prom_ui::prepared_effect_result::InteractionPreparedEffectResult {
    let effect_request = effect_request_descriptor();
    prepared_effect_result_for(&effect_request, false)
}

#[test]
fn prepared_effect_result_creates_commit_boundary_descriptor() {
    let result = prepared_result();

    let descriptor = describe_interaction_commit_boundary(&result)
        .expect("prepared result should produce commit boundary descriptor");

    assert_eq!(descriptor.id, InteractionCommitBoundaryDescriptorId(121));
    assert_eq!(descriptor.prepared_effect_result_id, result.id);
}

#[test]
fn denied_prepared_effect_result_returns_none() {
    let result = denied_prepared_result();

    let descriptor = describe_interaction_commit_boundary(&result);

    assert!(descriptor.is_none());
}

#[test]
fn descriptor_preserves_source_and_capability_metadata() {
    let result = prepared_result();

    let descriptor = describe_interaction_commit_boundary(&result)
        .expect("prepared result should produce commit boundary descriptor");

    assert_eq!(descriptor.prepared_effect_result_id, result.id);
    assert_eq!(
        descriptor.prepared_effect_descriptor_id,
        result.descriptor_id
    );
    assert_eq!(
        descriptor.runtime_capability_mapping_result_id,
        result.runtime_capability_mapping_result_id
    );
    assert_eq!(
        descriptor.runtime_capability_mapping_descriptor_id,
        result.runtime_capability_mapping_descriptor_id
    );
    assert_eq!(
        descriptor.ui_capability_admission_result_id,
        result.ui_capability_admission_result_id
    );
    assert_eq!(
        descriptor.ui_capability_admission_descriptor_id,
        result.ui_capability_admission_descriptor_id
    );
    assert_eq!(
        descriptor.effect_request_descriptor_id,
        result.effect_request_descriptor_id
    );
    assert_eq!(
        descriptor.source_admitted_action_id,
        result.source_admitted_action_id
    );
    assert_eq!(descriptor.dispatch_record_id, result.dispatch_record_id);
    assert_eq!(descriptor.dispatch_route_id, result.dispatch_route_id);
    assert_eq!(descriptor.requested_effect, result.requested_effect);
    assert_eq!(
        descriptor.declared_ui_capability,
        result.declared_ui_capability
    );
    assert_eq!(
        descriptor.declared_runtime_capability_requirement,
        result.declared_runtime_capability_requirement
    );
    assert_eq!(
        descriptor.runtime_capability_namespace,
        result.runtime_capability_namespace
    );
    assert_eq!(
        descriptor.lifecycle_precondition,
        result.lifecycle_precondition
    );
    assert_eq!(descriptor.target_policy, result.target_policy);
    assert_eq!(descriptor.trace_requirement, result.trace_requirement);
    assert_eq!(
        descriptor.policy_gate_namespace,
        result.policy_gate_namespace
    );
    assert_eq!(descriptor.scope, result.scope);
}

#[test]
fn descriptor_records_future_committed_effect_shape() {
    let result = prepared_result();

    let descriptor = describe_interaction_commit_boundary(&result)
        .expect("prepared result should produce commit boundary descriptor");

    assert_eq!(
        descriptor.audit_requirement,
        InteractionCommitAuditRequirement::Required
    );
    assert_eq!(
        descriptor.future_committed_effect_shape,
        InteractionCommitBoundaryFutureCommittedEffectShape::CommitOrDenyWithReason
    );
}

#[test]
fn commit_boundary_descriptor_is_not_authority() {
    let result = prepared_result();

    let descriptor = describe_interaction_commit_boundary(&result)
        .expect("prepared result should produce commit boundary descriptor");

    assert!(!descriptor.is_commit_decision());
    assert!(!descriptor.is_committed_effect());
    assert!(!descriptor.is_host_abi_authority());
    assert!(!descriptor.is_vm_authority());
    assert!(!descriptor.is_execution_authority());
    assert!(!descriptor.is_runtime_mutation());
    assert!(!descriptor.is_audit_backend());
}

#[test]
fn deterministic_descriptor_generation() {
    let result = prepared_result();

    let first = describe_interaction_commit_boundary(&result);
    let second = describe_interaction_commit_boundary(&result);

    assert_eq!(first, second);
}

/// A prepared effect result for `effect_request`, carrying its identities
/// and capability metadata; `prepared` selects the decision.
fn prepared_effect_result_for(
    effect_request: &prom_ui::effect_request::InteractionEffectRequestDescriptor,
    prepared: bool,
) -> prom_ui::prepared_effect_result::InteractionPreparedEffectResult {
    let raw = effect_request.id.0;
    prom_ui::prepared_effect_result::InteractionPreparedEffectResult {
        id: prom_ui::prepared_effect_result::InteractionPreparedEffectResultId(raw),
        descriptor_id: prom_ui::prepared_effect::InteractionPreparedEffectDescriptorId(raw),
        runtime_capability_mapping_result_id:
            prom_ui::runtime_capability_mapping_result::InteractionRuntimeCapabilityMappingResultId(raw),
        runtime_capability_mapping_descriptor_id:
            prom_ui::runtime_capability_mapping::InteractionRuntimeCapabilityMappingDescriptorId(raw),
        ui_capability_admission_result_id:
            prom_ui::ui_capability_admission_result::InteractionUiCapabilityAdmissionResultId(raw),
        ui_capability_admission_descriptor_id:
            prom_ui::ui_capability_admission::InteractionUiCapabilityAdmissionDescriptorId(raw),
        effect_request_descriptor_id: effect_request.id,
        source_admitted_action_id: effect_request.source_admitted_action_id,
        dispatch_record_id: effect_request.dispatch_record_id,
        dispatch_route_id: effect_request.dispatch_route_id,
        status: if prepared { prom_ui::prepared_effect_result::InteractionPreparedEffectDecisionStatus::Prepared } else { prom_ui::prepared_effect_result::InteractionPreparedEffectDecisionStatus::Denied },
        denial_reason: if prepared { None } else { Some(prom_ui::prepared_effect_result::InteractionPreparedEffectDenialReason::PolicyDenied) },
        missing_requirement: if prepared { prom_ui::prepared_effect_result::InteractionPreparedEffectMissingRequirement::Nothing } else { prom_ui::prepared_effect_result::InteractionPreparedEffectMissingRequirement::Policy },
        requested_effect: effect_request.requested_effect,
        declared_ui_capability: effect_request.required_ui_capability,
        declared_runtime_capability_requirement: effect_request.required_runtime_capability,
        runtime_capability_namespace: match effect_request.required_runtime_capability {
            prom_ui::effect_request::InteractionEffectRequestRuntimeCapability::WindowLifecycle => prom_ui::runtime_capability_mapping::InteractionRuntimeCapabilityNamespace::WindowLifecycle,
            prom_ui::effect_request::InteractionEffectRequestRuntimeCapability::EffectControl => prom_ui::runtime_capability_mapping::InteractionRuntimeCapabilityNamespace::EffectControl,
            prom_ui::effect_request::InteractionEffectRequestRuntimeCapability::TargetQuarantine => prom_ui::runtime_capability_mapping::InteractionRuntimeCapabilityNamespace::TargetQuarantine,
            prom_ui::effect_request::InteractionEffectRequestRuntimeCapability::Unknown => prom_ui::runtime_capability_mapping::InteractionRuntimeCapabilityNamespace::Unknown,
        },
        lifecycle_precondition: effect_request.lifecycle_precondition,
        target_policy: effect_request.target_policy,
        trace_requirement: effect_request.trace_requirement,
        policy_gate_namespace: effect_request.policy_gate_namespace,
        scope: effect_request.scope,
    }
}
