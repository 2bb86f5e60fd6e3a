#![allow(unused_imports)]
use prom_ui::host_runtime_effect_result::{InteractionHostRuntimeEffectBoundaryResultId, InteractionHostRuntimeEffectBoundaryDecisionStatus, InteractionHostRuntimeEffectBoundaryDenialReason, InteractionHostRuntimeEffectBoundaryMissingRequirement, InteractionHostRuntimeEffectBoundaryResult, record_interaction_host_runtime_effect_boundary_admitted_result, record_interaction_host_runtime_effect_boundary_denied_result, host_runtime_effect_result_for};
use prom_ui::action_admission::InteractionActionAdmissionEffectRelationship;
use prom_ui::action_binding::{InteractionActionBindingId, InteractionActionName};
use prom_ui::action_dispatch_record::{
    InteractionSemanticActionDispatchBlockReason, InteractionSemanticActionDispatchRecordId,
    InteractionSemanticActionDispatchRecordStatus,
};
use prom_ui::action_dispatch_route::{
    InteractionSemanticActionDispatchEffectEligibility,
    InteractionSemanticActionDispatchRouteId, InteractionSemanticActionDispatchRouteKind,
};
use prom_ui::action_dispatch_trace::{
    InteractionSemanticActionDispatchTraceReason, InteractionSemanticActionDispatchTraceReport,
    InteractionSemanticActionDispatchTraceStatus,
};
use prom_ui::admitted_action::InteractionAdmittedSemanticActionId;
use prom_ui::commit_boundary::describe_interaction_commit_boundary;
use prom_ui::commit_boundary_result::record_interaction_commit_boundary_committed_result;
use prom_ui::committed_effect::describe_interaction_committed_effect;
use prom_ui::committed_effect_record::record_interaction_committed_effect;
use prom_ui::effect_request::describe_interaction_effect_request;
use prom_ui::host_runtime_effect::describe_interaction_host_runtime_effect_boundary;
use prom_ui::interaction::InteractionIntentKind;
use prom_ui::action_admission::InteractionActionAdmissionPolicyGateNamespace;
use prom_ui::action_admission::InteractionActionAdmissionTraceRequirement;
use prom_ui::host_runtime_effect::InteractionHostRuntimeEffectBoundaryDescriptor;

fn effect_request_descriptor() -> prom_ui::effect_request::InteractionEffectRequestDescriptor {
    let dispatch_trace = InteractionSemanticActionDispatchTraceReport {
        record_id: InteractionSemanticActionDispatchRecordId(171),
        route_id: InteractionSemanticActionDispatchRouteId(171),
        admitted_action_id: InteractionAdmittedSemanticActionId(171),
        action: InteractionActionName::PrepareEffect,
        source_intent: InteractionIntentKind::Submit,
        binding_id: InteractionActionBindingId(171),
        route: InteractionSemanticActionDispatchRouteKind::EffectRequestCandidate,
        record_status: InteractionSemanticActionDispatchRecordStatus::Recorded,
        trace_status: InteractionSemanticActionDispatchTraceStatus::Recorded,
        block_reason: InteractionSemanticActionDispatchBlockReason::Nothing,
        trace_reason: InteractionSemanticActionDispatchTraceReason::RouteRecorded,
        trace_requirement: InteractionActionAdmissionTraceRequirement::Required,
        effect_relationship:
            InteractionActionAdmissionEffectRelationship::MayRequestEffectAfterAdmission,
        policy_gate_namespace: InteractionActionAdmissionPolicyGateNamespace::CoreUi,
        effect_eligibility:
            InteractionSemanticActionDispatchEffectEligibility::RequiresFutureEffectBoundary,
    };

    describe_interaction_effect_request(&dispatch_trace)
        .expect("effect candidate trace should produce descriptor")
}

fn host_runtime_descriptor() -> InteractionHostRuntimeEffectBoundaryDescriptor {
    let effect_request = effect_request_descriptor();
    let prepared_result = prepared_effect_result_for(&effect_request, true);
    let commit_descriptor = describe_interaction_commit_boundary(&prepared_result)
        .expect("prepared result should produce commit boundary descriptor");
    let commit_result = record_interaction_commit_boundary_committed_result(&commit_descriptor);
    let committed_descriptor = describe_interaction_committed_effect(&commit_result)
        .expect("committed result should produce committed effect descriptor");
    let committed_record = record_interaction_committed_effect(&committed_descriptor);

    describe_interaction_host_runtime_effect_boundary(&committed_record)
        .expect("committed record should produce host runtime effect boundary descriptor")
}

#[test]
fn admitted_result_is_built_from_descriptor() {
    let descriptor = host_runtime_descriptor();
    let result = record_interaction_host_runtime_effect_boundary_admitted_result(&descriptor);

    assert_eq!(
        result.status,
        InteractionHostRuntimeEffectBoundaryDecisionStatus::AdmittedToHostPath
    );
    assert_eq!(result.id, InteractionHostRuntimeEffectBoundaryResultId(descriptor.id.0));
}

#[test]
fn host_runtime_effect_result_denied_result_is_built_from_descriptor() {
    let descriptor = host_runtime_descriptor();
    let result = record_interaction_host_runtime_effect_boundary_denied_result(
        &descriptor,
        InteractionHostRuntimeEffectBoundaryDenialReason::PolicyDenied,
        InteractionHostRuntimeEffectBoundaryMissingRequirement::Policy,
    );

    assert_eq!(
        result.status,
        InteractionHostRuntimeEffectBoundaryDecisionStatus::Denied
    );
    assert_eq!(result.id, InteractionHostRuntimeEffectBoundaryResultId(descriptor.id.0));
}

#[test]
fn result_preserves_source_capability_audit_status_metadata() {
    let descriptor = host_runtime_descriptor();
    let result = record_interaction_host_runtime_effect_boundary_admitted_result(&descriptor);

    assert_eq!(result.descriptor_id, descriptor.id);
    assert_eq!(result.committed_effect_record_id, descriptor.committed_effect_record_id);
    assert_eq!(result.committed_effect_descriptor_id, descriptor.committed_effect_descriptor_id);
    assert_eq!(result.commit_boundary_result_id, descriptor.commit_boundary_result_id);
    assert_eq!(result.commit_boundary_descriptor_id, descriptor.commit_boundary_descriptor_id);
    assert_eq!(result.prepared_effect_result_id, descriptor.prepared_effect_result_id);
    assert_eq!(result.prepared_effect_descriptor_id, descriptor.prepared_effect_descriptor_id);
    assert_eq!(
        result.runtime_capability_mapping_result_id,
        descriptor.runtime_capability_mapping_result_id
    );
    assert_eq!(
        result.runtime_capability_mapping_descriptor_id,
        descriptor.runtime_capability_mapping_descriptor_id
    );
    assert_eq!(result.ui_capability_admission_result_id, descriptor.ui_capability_admission_result_id);
    assert_eq!(
        result.ui_capability_admission_descriptor_id,
        descriptor.ui_capability_admission_descriptor_id
    );
    assert_eq!(result.effect_request_descriptor_id, descriptor.effect_request_descriptor_id);
    assert_eq!(result.source_admitted_action_id, descriptor.source_admitted_action_id);
    assert_eq!(result.dispatch_record_id, descriptor.dispatch_record_id);
    assert_eq!(result.dispatch_route_id, descriptor.dispatch_route_id);
    assert_eq!(result.requested_effect, descriptor.requested_effect);
    assert_eq!(result.declared_ui_capability, descriptor.declared_ui_capability);
    assert_eq!(
        result.declared_runtime_capability_requirement,
        descriptor.declared_runtime_capability_requirement
    );
    assert_eq!(result.runtime_capability_namespace, descriptor.runtime_capability_namespace);
    assert_eq!(result.lifecycle_precondition, descriptor.lifecycle_precondition);
    assert_eq!(result.target_policy, descriptor.target_policy);
    assert_eq!(result.trace_requirement, descriptor.trace_requirement);
    assert_eq!(result.policy_gate_namespace, descriptor.policy_gate_namespace);
    assert_eq!(result.scope, descriptor.scope);
    assert_eq!(result.audit_requirement, descriptor.audit_requirement);
    assert_eq!(result.audit_visibility, descriptor.audit_visibility);
    assert_eq!(result.runtime_mutation_requirement, descriptor.runtime_mutation_requirement);
    assert_eq!(result.host_path_requirement, descriptor.host_path_requirement);
    assert_eq!(result.record_status, descriptor.record_status);
    assert_eq!(result.runtime_mutation_status, descriptor.runtime_mutation_status);
    assert_eq!(result.host_path_status, descriptor.host_path_status);
    assert_eq!(
        result.future_host_path_requirement,
        descriptor.future_host_path_requirement
    );
    assert_eq!(
        result.future_runtime_mutation_requirement,
        descriptor.future_runtime_mutation_requirement
    );
    assert_eq!(
        result.future_audit_write_requirement,
        descriptor.future_audit_write_requirement
    );
}

#[test]
fn admitted_result_has_none_denial_metadata() {
    let descriptor = host_runtime_descriptor();
    let result = record_interaction_host_runtime_effect_boundary_admitted_result(&descriptor);

    assert_eq!(
        result.denial_reason,
        InteractionHostRuntimeEffectBoundaryDenialReason::Nothing
    );
    assert_eq!(
        result.missing_requirement,
        InteractionHostRuntimeEffectBoundaryMissingRequirement::Nothing
    );
}

#[test]
fn host_runtime_effect_result_denied_result_preserves_denial_metadata() {
    let descriptor = host_runtime_descriptor();
    let result = record_interaction_host_runtime_effect_boundary_denied_result(
        &descriptor,
        InteractionHostRuntimeEffectBoundaryDenialReason::AuditRequired,
        InteractionHostRuntimeEffectBoundaryMissingRequirement::Audit,
    );

    assert_eq!(
        result.denial_reason,
        InteractionHostRuntimeEffectBoundaryDenialReason::AuditRequired
    );
    assert_eq!(
        result.missing_requirement,
        InteractionHostRuntimeEffectBoundaryMissingRequirement::Audit
    );
}

#[test]
fn host_runtime_effect_result_result_is_not_authority() {
    let descriptor = host_runtime_descriptor();
    let result = record_interaction_host_runtime_effect_boundary_admitted_result(&descriptor);

    assert!(!result.is_host_abi_authority());
    assert!(!result.is_vm_authority());
    assert!(!result.is_execution_authority());
    assert!(!result.is_runtime_mutation());
    assert!(!result.is_audit_backend());
    assert!(!result.is_host_runtime_path());
}

#[test]
fn host_runtime_effect_result_generation_is_deterministic() {
    let left =
        record_interaction_host_runtime_effect_boundary_admitted_result(&host_runtime_descriptor());
    let right =
        record_interaction_host_runtime_effect_boundary_admitted_result(&host_runtime_descriptor());

    assert_eq!(left, right);
}

/// A prepared effect result for `effect_request`, carrying its identities
/// and capability metadata; `prepared` selects the decision.
fn prepared_effect_result_for(
    effect_request: &prom_ui::effect_request::InteractionEffectRequestDescriptor,
    prepared: bool,
) -> prom_ui::prepared_effect_result::InteractionPreparedEffectResult {
    let raw = effect_request.id.0;
    prom_ui::prepared_effect_result::InteractionPreparedEffectResult {
        id: prom_ui::prepared_effect_result::InteractionPreparedEffectResultId(raw),
        descriptor_id: prom_ui::prepared_effect::InteractionPreparedEffectDescriptorId(raw),
        runtime_capability_mapping_result_id:
            prom_ui::runtime_capability_mapping_result::InteractionRuntimeCapabilityMappingResultId(raw),
        runtime_capability_mapping_descriptor_id:
            prom_ui::runtime_capability_mapping::InteractionRuntimeCapabilityMappingDescriptorId(raw),
        ui_capability_admission_result_id:
            prom_ui::ui_capability_admission_result::InteractionUiCapabilityAdmissionResultId(raw),
        ui_capability_admission_descriptor_id:
            prom_ui::ui_capability_admission::InteractionUiCapabilityAdmissionDescriptorId(raw),
        effect_request_descriptor_id: effect_request.id,
        source_admitted_action_id: effect_request.source_admitted_action_id,
        dispatch_record_id: effect_request.dispatch_record_id,
        dispatch_route_id: effect_request.dispatch_route_id,
        status: if prepared { prom_ui::prepared_effect_result::InteractionPreparedEffectDecisionStatus::Prepared } else { prom_ui::prepared_effect_result::InteractionPreparedEffectDecisionStatus::Denied },
        denial_reason: if prepared { None } else { Some(prom_ui::prepared_effect_result::InteractionPreparedEffectDenialReason::PolicyDenied) },
        missing_requirement: if prepared { prom_ui::prepared_effect_result::InteractionPreparedEffectMissingRequirement::Nothing } else { prom_ui::prepared_effect_result::InteractionPreparedEffectMissingRequirement::Policy },
        requested_effect: effect_request.requested_effect,
        declared_ui_capability: effect_request.required_ui_capability,
        declared_runtime_capability_requirement: effect_request.required_runtime_capability,
        runtime_capability_namespace: match effect_request.required_runtime_capability {
            prom_ui::effect_request::InteractionEffectRequestRuntimeCapability::WindowLifecycle => prom_ui::runtime_capability_mapping::InteractionRuntimeCapabilityNamespace::WindowLifecycle,
            prom_ui::effect_request::InteractionEffectRequestRuntimeCapability::EffectControl => prom_ui::runtime_capability_mapping::InteractionRuntimeCapabilityNamespace::EffectControl,
            prom_ui::effect_request::InteractionEffectRequestRuntimeCapability::TargetQuarantine => prom_ui::runtime_capability_mapping::InteractionRuntimeCapabilityNamespace::TargetQuarantine,
            prom_ui::effect_request::InteractionEffectRequestRuntimeCapability::Unknown => prom_ui::runtime_capability_mapping::InteractionRuntimeCapabilityNamespace::Unknown,
        },
        lifecycle_precondition: effect_request.lifecycle_precondition,
        target_policy: effect_request.target_policy,
        trace_requirement: effect_request.trace_requirement,
        policy_gate_namespace: effect_request.policy_gate_namespace,
        scope: effect_request.scope,
    }
}
