#![allow(unused_imports)]
use prom_ui::host_runtime_effect_denial_trace::{InteractionHostRuntimeEffectDenialTraceId, InteractionHostRuntimeEffectDenialTraceStatus, InteractionHostRuntimeEffectDenialRetryHint, InteractionHostRuntimeEffectDenialTrace, host_runtime_effect_denial_trace_of, trace_interaction_host_runtime_effect_denial, host_retry_hint_for};
use prom_ui::action_admission::InteractionActionAdmissionEffectRelationship;
use prom_ui::action_binding::{InteractionActionBindingId, InteractionActionName};
use prom_ui::action_dispatch_record::{
    InteractionSemanticActionDispatchBlockReason, InteractionSemanticActionDispatchRecordId,
    InteractionSemanticActionDispatchRecordStatus,
};
use prom_ui::action_dispatch_route::{
    InteractionSemanticActionDispatchEffectEligibility,
    InteractionSemanticActionDispatchRouteId, InteractionSemanticActionDispatchRouteKind,
};
use prom_ui::action_dispatch_trace::{
    InteractionSemanticActionDispatchTraceReason, InteractionSemanticActionDispatchTraceReport,
    InteractionSemanticActionDispatchTraceStatus,
};
use prom_ui::admitted_action::InteractionAdmittedSemanticActionId;
use prom_ui::commit_boundary::describe_interaction_commit_boundary;
use prom_ui::commit_boundary_result::record_interaction_commit_boundary_committed_result;
use prom_ui::committed_effect::describe_interaction_committed_effect;
use prom_ui::committed_effect_record::record_interaction_committed_effect;
use prom_ui::effect_request::describe_interaction_effect_request;
use prom_ui::host_runtime_effect::describe_interaction_host_runtime_effect_boundary;
use prom_ui::host_runtime_effect_result::{
    record_interaction_host_runtime_effect_boundary_admitted_result,
    record_interaction_host_runtime_effect_boundary_denied_result,
    InteractionHostRuntimeEffectBoundaryDecisionStatus,
};
use prom_ui::interaction::InteractionIntentKind;
use prom_ui::action_admission::InteractionActionAdmissionPolicyGateNamespace;
use prom_ui::action_admission::InteractionActionAdmissionTraceRequirement;
use prom_ui::host_runtime_effect_result::InteractionHostRuntimeEffectBoundaryDenialReason;
use prom_ui::host_runtime_effect_result::InteractionHostRuntimeEffectBoundaryMissingRequirement;

fn effect_request_descriptor() -> prom_ui::effect_request::InteractionEffectRequestDescriptor {
    let dispatch_trace = InteractionSemanticActionDispatchTraceReport {
        record_id: InteractionSemanticActionDispatchRecordId(181),
        route_id: InteractionSemanticActionDispatchRouteId(181),
        admitted_action_id: InteractionAdmittedSemanticActionId(181),
        action: InteractionActionName::PrepareEffect,
        source_intent: InteractionIntentKind::Submit,
        binding_id: InteractionActionBindingId(181),
        route: InteractionSemanticActionDispatchRouteKind::EffectRequestCandidate,
        record_status: InteractionSemanticActionDispatchRecordStatus::Recorded,
        trace_status: InteractionSemanticActionDispatchTraceStatus::Recorded,
        block_reason: InteractionSemanticActionDispatchBlockReason::Nothing,
        trace_reason: InteractionSemanticActionDispatchTraceReason::RouteRecorded,
        trace_requirement: InteractionActionAdmissionTraceRequirement::Required,
        effect_relationship:
            InteractionActionAdmissionEffectRelationship::MayRequestEffectAfterAdmission,
        policy_gate_namespace: InteractionActionAdmissionPolicyGateNamespace::CoreUi,
        effect_eligibility:
            InteractionSemanticActionDispatchEffectEligibility::RequiresFutureEffectBoundary,
    };

    describe_interaction_effect_request(&dispatch_trace)
        .expect("effect candidate trace should produce descriptor")
}

fn host_runtime_result(
    status: InteractionHostRuntimeEffectBoundaryDecisionStatus,
    denial_reason: InteractionHostRuntimeEffectBoundaryDenialReason,
    missing_requirement: InteractionHostRuntimeEffectBoundaryMissingRequirement,
) -> prom_ui::host_runtime_effect_result::InteractionHostRuntimeEffectBoundaryResult {
    let effect_request = effect_request_descriptor();
    let prepared_result = prepared_effect_result_for(&effect_request, true);
    let commit_descriptor = describe_interaction_commit_boundary(&prepared_result)
        .expect("prepared result should produce commit boundary descriptor");
    let commit_result = record_interaction_commit_boundary_committed_result(&commit_descriptor);
    let committed_descriptor = describe_interaction_committed_effect(&commit_result)
        .expect("committed result should produce committed effect descriptor");
    let committed_record = record_interaction_committed_effect(&committed_descriptor);
    let descriptor = describe_interaction_host_runtime_effect_boundary(&committed_record)
        .expect("committed record should produce host runtime effect boundary descriptor");

    match status {
        InteractionHostRuntimeEffectBoundaryDecisionStatus::Denied => {
            record_interaction_host_runtime_effect_boundary_denied_result(
                &descriptor,
                denial_reason,
                missing_requirement,
            )
        }
        InteractionHostRuntimeEffectBoundaryDecisionStatus::AdmittedToHostPath => {
            record_interaction_host_runtime_effect_boundary_admitted_result(&descriptor)
        }
    }
}

fn denied_result() -> prom_ui::host_runtime_effect_result::InteractionHostRuntimeEffectBoundaryResult
{
    host_runtime_result(
        InteractionHostRuntimeEffectBoundaryDecisionStatus::Denied,
        InteractionHostRuntimeEffectBoundaryDenialReason::PolicyDenied,
        InteractionHostRuntimeEffectBoundaryMissingRequirement::Policy,
    )
}

fn admitted_result() -> prom_ui::host_runtime_effect_result::InteractionHostRuntimeEffectBoundaryResult
{
    host_runtime_result(
        InteractionHostRuntimeEffectBoundaryDecisionStatus::AdmittedToHostPath,
        InteractionHostRuntimeEffectBoundaryDenialReason::Nothing,
        InteractionHostRuntimeEffectBoundaryMissingRequirement::Nothing,
    )
}

#[test]
fn host_runtime_effect_denial_trace_denied_result_produces_denial_trace() {
    let result = denied_result();

    let trace = trace_interaction_host_runtime_effect_denial(&result)
        .expect("denied result should produce trace");

    assert_eq!(trace.status, InteractionHostRuntimeEffectDenialTraceStatus::Traced);
    assert_eq!(trace.result_id, result.id);
    assert_eq!(trace.id, InteractionHostRuntimeEffectDenialTraceId(result.id.0));
}

#[test]
fn admitted_result_produces_no_denial_trace() {
    let result = admitted_result();

    assert!(trace_interaction_host_runtime_effect_denial(&result).is_none());
}

#[test]
fn trace_preserves_source_capability_audit_status_metadata() {
    let result = denied_result();
    let trace = trace_interaction_host_runtime_effect_denial(&result)
        .expect("denied result should produce trace");

    assert_eq!(trace.descriptor_id, result.descriptor_id);
    assert_eq!(trace.committed_effect_record_id, result.committed_effect_record_id);
    assert_eq!(trace.committed_effect_descriptor_id, result.committed_effect_descriptor_id);
    assert_eq!(trace.commit_boundary_result_id, result.commit_boundary_result_id);
    assert_eq!(trace.commit_boundary_descriptor_id, result.commit_boundary_descriptor_id);
    assert_eq!(trace.prepared_effect_result_id, result.prepared_effect_result_id);
    assert_eq!(trace.prepared_effect_descriptor_id, result.prepared_effect_descriptor_id);
    assert_eq!(
        trace.runtime_capability_mapping_result_id,
        result.runtime_capability_mapping_result_id
    );
    assert_eq!(
        trace.runtime_capability_mapping_descriptor_id,
        result.runtime_capability_mapping_descriptor_id
    );
    assert_eq!(trace.ui_capability_admission_result_id, result.ui_capability_admission_result_id);
    assert_eq!(
        trace.ui_capability_admission_descriptor_id,
        result.ui_capability_admission_descriptor_id
    );
    assert_eq!(trace.effect_request_descriptor_id, result.effect_request_descriptor_id);
    assert_eq!(trace.source_admitted_action_id, result.source_admitted_action_id);
    assert_eq!(trace.dispatch_record_id, result.dispatch_record_id);
    assert_eq!(trace.dispatch_route_id, result.dispatch_route_id);
    assert_eq!(trace.denial_reason, result.denial_reason);
    assert_eq!(trace.missing_requirement, result.missing_requirement);
    assert_eq!(trace.requested_effect, result.requested_effect);
    assert_eq!(trace.declared_ui_capability, result.declared_ui_capability);
    assert_eq!(
        trace.declared_runtime_capability_requirement,
        result.declared_runtime_capability_requirement
    );
    assert_eq!(trace.runtime_capability_namespace, result.runtime_capability_namespace);
    assert_eq!(trace.lifecycle_precondition, result.lifecycle_precondition);
    assert_eq!(trace.target_policy, result.target_policy);
    assert_eq!(trace.trace_requirement, result.trace_requirement);
    assert_eq!(trace.policy_gate_namespace, result.policy_gate_namespace);
    assert_eq!(trace.scope, result.scope);
    assert_eq!(trace.audit_requirement, result.audit_requirement);
    assert_eq!(trace.audit_visibility, result.audit_visibility);
    assert_eq!(trace.runtime_mutation_requirement, result.runtime_mutation_requirement);
    assert_eq!(trace.host_path_requirement, result.host_path_requirement);
    assert_eq!(trace.record_status, result.record_status);
    assert_eq!(trace.runtime_mutation_status, result.runtime_mutation_status);
    assert_eq!(trace.host_path_status, result.host_path_status);
    assert_eq!(
        trace.future_host_path_requirement,
        result.future_host_path_requirement
    );
    assert_eq!(
        trace.future_runtime_mutation_requirement,
        result.future_runtime_mutation_requirement
    );
    assert_eq!(
        trace.future_audit_write_requirement,
        result.future_audit_write_requirement
    );
}

#[test]
fn retry_hints_map_from_denial_reason() {
    let result = denied_result();
    let trace = trace_interaction_host_runtime_effect_denial(&result)
        .expect("denied result should produce trace");

    assert_eq!(
        trace.retry_hint,
        InteractionHostRuntimeEffectDenialRetryHint::AdjustPolicy
    );
}

#[test]
fn host_runtime_effect_denial_trace_trace_is_not_authority() {
    let result = denied_result();
    let trace = trace_interaction_host_runtime_effect_denial(&result)
        .expect("denied result should produce trace");

    assert!(!trace.is_retry_execution());
    assert!(!trace.is_host_abi_authority());
    assert!(!trace.is_vm_authority());
    assert!(!trace.is_execution_authority());
    assert!(!trace.is_runtime_mutation());
    assert!(!trace.is_audit_backend());
    assert!(!trace.is_host_runtime_path());
    assert!(!trace.grants_capability());
}

#[test]
fn host_runtime_effect_denial_trace_generation_is_deterministic() {
    let left = trace_interaction_host_runtime_effect_denial(&denied_result())
        .expect("denied result should produce trace");
    let right = trace_interaction_host_runtime_effect_denial(&denied_result())
        .expect("denied result should produce trace");

    assert_eq!(left, right);
}

/// A prepared effect result for `effect_request`, carrying its identities
/// and capability metadata; `prepared` selects the decision.
fn prepared_effect_result_for(
    effect_request: &prom_ui::effect_request::InteractionEffectRequestDescriptor,
    prepared: bool,
) -> prom_ui::prepared_effect_result::InteractionPreparedEffectResult {
    let raw = effect_request.id.0;
    prom_ui::prepared_effect_result::InteractionPreparedEffectResult {
        id: prom_ui::prepared_effect_result::InteractionPreparedEffectResultId(raw),
        descriptor_id: prom_ui::prepared_effect::InteractionPreparedEffectDescriptorId(raw),
        runtime_capability_mapping_result_id:
            prom_ui::runtime_capability_mapping_result::InteractionRuntimeCapabilityMappingResultId(raw),
        runtime_capability_mapping_descriptor_id:
            prom_ui::runtime_capability_mapping::InteractionRuntimeCapabilityMappingDescriptorId(raw),
        ui_capability_admission_result_id:
            prom_ui::ui_capability_admission_result::InteractionUiCapabilityAdmissionResultId(raw),
        ui_capability_admission_descriptor_id:
            prom_ui::ui_capability_admission::InteractionUiCapabilityAdmissionDescriptorId(raw),
        effect_request_descriptor_id: effect_request.id,
        source_admitted_action_id: effect_request.source_admitted_action_id,
        dispatch_record_id: effect_request.dispatch_record_id,
        dispatch_route_id: effect_request.dispatch_route_id,
        status: if prepared { prom_ui::prepared_effect_result::InteractionPreparedEffectDecisionStatus::Prepared } else { prom_ui::prepared_effect_result::InteractionPreparedEffectDecisionStatus::Denied },
        denial_reason: if prepared { None } else { Some(prom_ui::prepared_effect_result::InteractionPreparedEffectDenialReason::PolicyDenied) },
        missing_requirement: if prepared { prom_ui::prepared_effect_result::InteractionPreparedEffectMissingRequirement::Nothing } else { prom_ui::prepared_effect_result::InteractionPreparedEffectMissingRequirement::Policy },
        requested_effect: effect_request.requested_effect,
        declared_ui_capability: effect_request.required_ui_capability,
        declared_runtime_capability_requirement: effect_request.required_runtime_capability,
        runtime_capability_namespace: match effect_request.required_runtime_capability {
            prom_ui::effect_request::InteractionEffectRequestRuntimeCapability::WindowLifecycle => prom_ui::runtime_capability_mapping::InteractionRuntimeCapabilityNamespace::WindowLifecycle,
            prom_ui::effect_request::InteractionEffectRequestRuntimeCapability::EffectControl => prom_ui::runtime_capability_mapping::InteractionRuntimeCapabilityNamespace::EffectControl,
            prom_ui::effect_request::InteractionEffectRequestRuntimeCapability::TargetQuarantine => prom_ui::runtime_capability_mapping::InteractionRuntimeCapabilityNamespace::TargetQuarantine,
            prom_ui::effect_request::InteractionEffectRequestRuntimeCapability::Unknown => prom_ui::runtime_capability_mapping::InteractionRuntimeCapabilityNamespace::Unknown,
        },
        lifecycle_precondition: effect_request.lifecycle_precondition,
        target_policy: effect_request.target_policy,
        trace_requirement: effect_request.trace_requirement,
        policy_gate_namespace: effect_request.policy_gate_namespace,
        scope: effect_request.scope,
    }
}
