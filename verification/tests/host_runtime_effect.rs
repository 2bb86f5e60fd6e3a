#![allow(unused_imports)]
use prom_ui::host_runtime_effect::{InteractionHostRuntimeEffectBoundaryDescriptorId, InteractionHostRuntimeEffectBoundaryDecisionShape, InteractionHostRuntimeEffectPathRequirement, InteractionHostRuntimeMutationRequirement, InteractionHostRuntimeAuditWriteRequirement, InteractionHostRuntimeEffectBoundaryDescriptor, host_runtime_effect_boundary_of, describe_interaction_host_runtime_effect_boundary};
use prom_ui::action_admission::InteractionActionAdmissionEffectRelationship;
use prom_ui::action_binding::{InteractionActionBindingId, InteractionActionName};
use prom_ui::action_dispatch_record::{
    InteractionSemanticActionDispatchBlockReason, InteractionSemanticActionDispatchRecordId,
    InteractionSemanticActionDispatchRecordStatus,
};
use prom_ui::action_dispatch_route::{
    InteractionSemanticActionDispatchEffectEligibility,
    InteractionSemanticActionDispatchRouteId, InteractionSemanticActionDispatchRouteKind,
};
use prom_ui::action_dispatch_trace::{
    InteractionSemanticActionDispatchTraceReason, InteractionSemanticActionDispatchTraceReport,
    InteractionSemanticActionDispatchTraceStatus,
};
use prom_ui::admitted_action::InteractionAdmittedSemanticActionId;
use prom_ui::commit_boundary::describe_interaction_commit_boundary;
use prom_ui::commit_boundary_result::record_interaction_commit_boundary_committed_result;
use prom_ui::committed_effect::describe_interaction_committed_effect;
use prom_ui::committed_effect_record::record_interaction_committed_effect;
use prom_ui::effect_request::describe_interaction_effect_request;
use prom_ui::interaction::InteractionIntentKind;
use prom_ui::action_admission::InteractionActionAdmissionPolicyGateNamespace;
use prom_ui::action_admission::InteractionActionAdmissionTraceRequirement;
use prom_ui::committed_effect_record::InteractionCommittedEffectRecord;

fn effect_request_descriptor() -> prom_ui::effect_request::InteractionEffectRequestDescriptor {
    let dispatch_trace = InteractionSemanticActionDispatchTraceReport {
        record_id: InteractionSemanticActionDispatchRecordId(161),
        route_id: InteractionSemanticActionDispatchRouteId(161),
        admitted_action_id: InteractionAdmittedSemanticActionId(161),
        action: InteractionActionName::PrepareEffect,
        source_intent: InteractionIntentKind::Submit,
        binding_id: InteractionActionBindingId(161),
        route: InteractionSemanticActionDispatchRouteKind::EffectRequestCandidate,
        record_status: InteractionSemanticActionDispatchRecordStatus::Recorded,
        trace_status: InteractionSemanticActionDispatchTraceStatus::Recorded,
        block_reason: InteractionSemanticActionDispatchBlockReason::Nothing,
        trace_reason: InteractionSemanticActionDispatchTraceReason::RouteRecorded,
        trace_requirement: InteractionActionAdmissionTraceRequirement::Required,
        effect_relationship:
            InteractionActionAdmissionEffectRelationship::MayRequestEffectAfterAdmission,
        policy_gate_namespace: InteractionActionAdmissionPolicyGateNamespace::CoreUi,
        effect_eligibility:
            InteractionSemanticActionDispatchEffectEligibility::RequiresFutureEffectBoundary,
    };

    describe_interaction_effect_request(&dispatch_trace)
        .expect("effect candidate trace should produce descriptor")
}

fn committed_effect_record() -> InteractionCommittedEffectRecord {
    let effect_request = effect_request_descriptor();
    let prepared_result = prepared_effect_result_for(&effect_request, true);
    let commit_descriptor = describe_interaction_commit_boundary(&prepared_result)
        .expect("prepared result should produce commit boundary descriptor");
    let commit_result = record_interaction_commit_boundary_committed_result(&commit_descriptor);
    let committed_descriptor = describe_interaction_committed_effect(&commit_result)
        .expect("committed result should produce committed effect descriptor");

    record_interaction_committed_effect(&committed_descriptor)
}

#[test]
fn committed_effect_record_creates_host_runtime_effect_boundary_descriptor() {
    let record = committed_effect_record();

    let descriptor = describe_interaction_host_runtime_effect_boundary(&record)
        .expect("committed record should produce host runtime effect boundary descriptor");

    assert_eq!(
        descriptor.id,
        InteractionHostRuntimeEffectBoundaryDescriptorId(record.id.0)
    );
    assert_eq!(descriptor.committed_effect_record_id, record.id);
}

#[test]
fn descriptor_preserves_source_capability_audit_status_metadata() {
    let record = committed_effect_record();
    let descriptor = describe_interaction_host_runtime_effect_boundary(&record)
        .expect("committed record should produce host runtime effect boundary descriptor");

    assert_eq!(
        descriptor.committed_effect_descriptor_id,
        record.descriptor_id
    );
    assert_eq!(
        descriptor.commit_boundary_result_id,
        record.commit_boundary_result_id
    );
    assert_eq!(
        descriptor.commit_boundary_descriptor_id,
        record.commit_boundary_descriptor_id
    );
    assert_eq!(
        descriptor.prepared_effect_result_id,
        record.prepared_effect_result_id
    );
    assert_eq!(
        descriptor.prepared_effect_descriptor_id,
        record.prepared_effect_descriptor_id
    );
    assert_eq!(
        descriptor.runtime_capability_mapping_result_id,
        record.runtime_capability_mapping_result_id
    );
    assert_eq!(
        descriptor.runtime_capability_mapping_descriptor_id,
        record.runtime_capability_mapping_descriptor_id
    );
    assert_eq!(
        descriptor.ui_capability_admission_result_id,
        record.ui_capability_admission_result_id
    );
    assert_eq!(
        descriptor.ui_capability_admission_descriptor_id,
        record.ui_capability_admission_descriptor_id
    );
    assert_eq!(
        descriptor.effect_request_descriptor_id,
        record.effect_request_descriptor_id
    );
    assert_eq!(
        descriptor.source_admitted_action_id,
        record.source_admitted_action_id
    );
    assert_eq!(descriptor.dispatch_record_id, record.dispatch_record_id);
    assert_eq!(descriptor.dispatch_route_id, record.dispatch_route_id);
    assert_eq!(descriptor.requested_effect, record.requested_effect);
    assert_eq!(
        descriptor.declared_ui_capability,
        record.declared_ui_capability
    );
    assert_eq!(
        descriptor.declared_runtime_capability_requirement,
        record.declared_runtime_capability_requirement
    );
    assert_eq!(
        descriptor.runtime_capability_namespace,
        record.runtime_capability_namespace
    );
    assert_eq!(
        descriptor.lifecycle_precondition,
        record.lifecycle_precondition
    );
    assert_eq!(descriptor.target_policy, record.target_policy);
    assert_eq!(descriptor.trace_requirement, record.trace_requirement);
    assert_eq!(
        descriptor.policy_gate_namespace,
        record.policy_gate_namespace
    );
    assert_eq!(descriptor.scope, record.scope);
    assert_eq!(descriptor.audit_requirement, record.audit_requirement);
    assert_eq!(descriptor.audit_visibility, record.audit_visibility);
    assert_eq!(
        descriptor.runtime_mutation_requirement,
        record.runtime_mutation_requirement
    );
    assert_eq!(
        descriptor.host_path_requirement,
        record.host_path_requirement
    );
    assert_eq!(descriptor.record_status, record.record_status);
    assert_eq!(
        descriptor.runtime_mutation_status,
        record.runtime_mutation_status
    );
    assert_eq!(descriptor.host_path_status, record.host_path_status);
}

#[test]
fn descriptor_records_separate_requirements() {
    let record = committed_effect_record();
    let descriptor = describe_interaction_host_runtime_effect_boundary(&record)
        .expect("committed record should produce host runtime effect boundary descriptor");

    assert_eq!(
        descriptor.host_boundary_decision_shape,
        InteractionHostRuntimeEffectBoundaryDecisionShape::AdmitOrDenyWithReason
    );
    assert_eq!(
        descriptor.future_host_path_requirement,
        InteractionHostRuntimeEffectPathRequirement::SeparateBoundaryRequired
    );
    assert_eq!(
        descriptor.future_runtime_mutation_requirement,
        InteractionHostRuntimeMutationRequirement::SeparateBoundaryRequired
    );
    assert_eq!(
        descriptor.future_audit_write_requirement,
        InteractionHostRuntimeAuditWriteRequirement::SeparateBoundaryRequired
    );
}

#[test]
fn host_runtime_effect_descriptor_is_not_authority() {
    let record = committed_effect_record();
    let descriptor = describe_interaction_host_runtime_effect_boundary(&record)
        .expect("committed record should produce host runtime effect boundary descriptor");

    assert!(!descriptor.is_host_abi_authority());
    assert!(!descriptor.is_vm_authority());
    assert!(!descriptor.is_execution_authority());
    assert!(!descriptor.is_runtime_mutation());
    assert!(!descriptor.is_audit_backend());
    assert!(!descriptor.is_host_runtime_path());
}

#[test]
fn host_runtime_effect_generation_is_deterministic() {
    let left = describe_interaction_host_runtime_effect_boundary(&committed_effect_record())
        .expect("committed record should produce host runtime effect boundary descriptor");
    let right = describe_interaction_host_runtime_effect_boundary(&committed_effect_record())
        .expect("committed record should produce host runtime effect boundary descriptor");

    assert_eq!(left, right);
}

/// A prepared effect result for `effect_request`, carrying its identities
/// and capability metadata; `prepared` selects the decision.
fn prepared_effect_result_for(
    effect_request: &prom_ui::effect_request::InteractionEffectRequestDescriptor,
    prepared: bool,
) -> prom_ui::prepared_effect_result::InteractionPreparedEffectResult {
    let raw = effect_request.id.0;
    prom_ui::prepared_effect_result::InteractionPreparedEffectResult {
        id: prom_ui::prepared_effect_result::InteractionPreparedEffectResultId(raw),
        descriptor_id: prom_ui::prepared_effect::InteractionPreparedEffectDescriptorId(raw),
        runtime_capability_mapping_result_id:
            prom_ui::runtime_capability_mapping_result::InteractionRuntimeCapabilityMappingResultId(raw),
        runtime_capability_mapping_descriptor_id:
            prom_ui::runtime_capability_mapping::InteractionRuntimeCapabilityMappingDescriptorId(raw),
        ui_capability_admission_result_id:
            prom_ui::ui_capability_admission_result::InteractionUiCapabilityAdmissionResultId(raw),
        ui_capability_admission_descriptor_id:
            prom_ui::ui_capability_admission::InteractionUiCapabilityAdmissionDescriptorId(raw),
        effect_request_descriptor_id: effect_request.id,
        source_admitted_action_id: effect_request.source_admitted_action_id,
        dispatch_record_id: effect_request.dispatch_record_id,
        dispatch_route_id: effect_request.dispatch_route_id,
        status: if prepared { prom_ui::prepared_effect_result::InteractionPreparedEffectDecisionStatus::Prepared } else { prom_ui::prepared_effect_result::InteractionPreparedEffectDecisionStatus::Denied },
        denial_reason: if prepared { None } else { Some(prom_ui::prepared_effect_result::InteractionPreparedEffectDenialReason::PolicyDenied) },
        missing_requirement: if prepared { prom_ui::prepared_effect_result::InteractionPreparedEffectMissingRequirement::Nothing } else { prom_ui::prepared_effect_result::InteractionPreparedEffectMissingRequirement::Policy },
        requested_effect: effect_request.requested_effect,
        declared_ui_capability: effect_request.required_ui_capability,
        declared_runtime_capability_requirement: effect_request.required_runtime_capability,
        runtime_capability_namespace: match effect_request.required_runtime_capability {
            prom_ui::effect_request::InteractionEffectRequestRuntimeCapability::WindowLifecycle => prom_ui::runtime_capability_mapping::InteractionRuntimeCapabilityNamespace::WindowLifecycle,
            prom_ui::effect_request::InteractionEffectRequestRuntimeCapability::EffectControl => prom_ui::runtime_capability_mapping::InteractionRuntimeCapabilityNamespace::EffectControl,
            prom_ui::effect_request::InteractionEffectRequestRuntimeCapability::TargetQuarantine => prom_ui::runtime_capability_mapping::InteractionRuntimeCapabilityNamespace::TargetQuarantine,
            prom_ui::effect_request::InteractionEffectRequestRuntimeCapability::Unknown => prom_ui::runtime_capability_mapping::InteractionRuntimeCapabilityNamespace::Unknown,
        },
        lifecycle_precondition: effect_request.lifecycle_precondition,
        target_policy: effect_request.target_policy,
        trace_requirement: effect_request.trace_requirement,
        policy_gate_namespace: effect_request.policy_gate_namespace,
        scope: effect_request.scope,
    }
}
