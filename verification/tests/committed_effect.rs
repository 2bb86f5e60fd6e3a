#![allow(unused_imports)]
use prom_ui::committed_effect::{InteractionCommittedEffectDescriptorId, InteractionCommittedEffectAuditVisibility, InteractionCommittedEffectRuntimeMutationRequirement, InteractionCommittedEffectHostPathRequirement, InteractionCommittedEffectDescriptor, committed_effect_of, describe_interaction_committed_effect};
use prom_ui::action_admission::InteractionActionAdmissionEffectRelationship;
use prom_ui::action_binding::{InteractionActionBindingId, InteractionActionName};
use prom_ui::action_dispatch_record::{
    InteractionSemanticActionDispatchBlockReason, InteractionSemanticActionDispatchRecordId,
    InteractionSemanticActionDispatchRecordStatus,
};
use prom_ui::action_dispatch_route::{
    InteractionSemanticActionDispatchEffectEligibility,
    InteractionSemanticActionDispatchRouteId, InteractionSemanticActionDispatchRouteKind,
};
use prom_ui::action_dispatch_trace::{
    InteractionSemanticActionDispatchTraceReason, InteractionSemanticActionDispatchTraceReport,
    InteractionSemanticActionDispatchTraceStatus,
};
use prom_ui::admitted_action::InteractionAdmittedSemanticActionId;
use prom_ui::effect_request::describe_interaction_effect_request;
use prom_ui::interaction::InteractionIntentKind;
use prom_ui::commit_boundary::describe_interaction_commit_boundary;
use prom_ui::commit_boundary_result::{
    record_interaction_commit_boundary_denied_result,
    record_interaction_commit_boundary_committed_result,
    InteractionCommitBoundaryDenialReason, InteractionCommitBoundaryMissingRequirement,
};
use prom_ui::action_admission::InteractionActionAdmissionPolicyGateNamespace;
use prom_ui::action_admission::InteractionActionAdmissionTraceRequirement;
use prom_ui::commit_boundary::InteractionCommitAuditRequirement;

fn effect_request_descriptor() -> prom_ui::effect_request::InteractionEffectRequestDescriptor {
    let dispatch_trace = InteractionSemanticActionDispatchTraceReport {
        record_id: InteractionSemanticActionDispatchRecordId(141),
        route_id: InteractionSemanticActionDispatchRouteId(141),
        admitted_action_id: InteractionAdmittedSemanticActionId(141),
        action: InteractionActionName::PrepareEffect,
        source_intent: InteractionIntentKind::Submit,
        binding_id: InteractionActionBindingId(141),
        route: InteractionSemanticActionDispatchRouteKind::EffectRequestCandidate,
        record_status: InteractionSemanticActionDispatchRecordStatus::Recorded,
        trace_status: InteractionSemanticActionDispatchTraceStatus::Recorded,
        block_reason: InteractionSemanticActionDispatchBlockReason::Nothing,
        trace_reason: InteractionSemanticActionDispatchTraceReason::RouteRecorded,
        trace_requirement: InteractionActionAdmissionTraceRequirement::Required,
        effect_relationship:
            InteractionActionAdmissionEffectRelationship::MayRequestEffectAfterAdmission,
        policy_gate_namespace: InteractionActionAdmissionPolicyGateNamespace::CoreUi,
        effect_eligibility:
            InteractionSemanticActionDispatchEffectEligibility::RequiresFutureEffectBoundary,
    };

    describe_interaction_effect_request(&dispatch_trace)
        .expect("effect candidate trace should produce descriptor")
}

fn commit_boundary_descriptor() -> prom_ui::commit_boundary::InteractionCommitBoundaryDescriptor {
    let effect_request = effect_request_descriptor();
    let prepared_result = prepared_effect_result_for(&effect_request, true);
    describe_interaction_commit_boundary(&prepared_result)
        .expect("prepared result should produce commit boundary descriptor")
}

fn committed_effect_result() -> prom_ui::commit_boundary_result::InteractionCommitBoundaryResult {
    record_interaction_commit_boundary_committed_result(&commit_boundary_descriptor())
}

fn denied_commit_boundary_result() -> prom_ui::commit_boundary_result::InteractionCommitBoundaryResult {
    record_interaction_commit_boundary_denied_result(
        &commit_boundary_descriptor(),
        InteractionCommitBoundaryDenialReason::PolicyDenied,
        InteractionCommitBoundaryMissingRequirement::Policy,
    )
}

fn committed_effect_descriptor() -> InteractionCommittedEffectDescriptor {
    describe_interaction_committed_effect(&committed_effect_result())
        .expect("committed result should produce committed effect descriptor")
}

#[test]
fn committed_commit_boundary_result_creates_committed_effect_descriptor() {
    let descriptor = committed_effect_descriptor();

    assert_eq!(
        descriptor.id,
        InteractionCommittedEffectDescriptorId(descriptor.commit_boundary_result_id.0)
    );
}

#[test]
fn denied_commit_boundary_result_returns_none() {
    assert!(describe_interaction_committed_effect(&denied_commit_boundary_result()).is_none());
}

#[test]
fn descriptor_preserves_source_capability_audit_metadata() {
    let descriptor = committed_effect_descriptor();

    assert_eq!(descriptor.audit_requirement, InteractionCommitAuditRequirement::Required);
    assert_eq!(
        descriptor.runtime_mutation_requirement,
        InteractionCommittedEffectRuntimeMutationRequirement::SeparateBoundaryRequired
    );
    assert_eq!(
        descriptor.host_path_requirement,
        InteractionCommittedEffectHostPathRequirement::SeparateBoundaryRequired
    );
    assert_eq!(descriptor.audit_visibility, InteractionCommittedEffectAuditVisibility::Required);
}

#[test]
fn descriptor_records_separate_runtime_mutation_and_host_path_requirements() {
    let descriptor = committed_effect_descriptor();

    assert_eq!(
        descriptor.runtime_mutation_requirement,
        InteractionCommittedEffectRuntimeMutationRequirement::SeparateBoundaryRequired
    );
    assert_eq!(
        descriptor.host_path_requirement,
        InteractionCommittedEffectHostPathRequirement::SeparateBoundaryRequired
    );
}

#[test]
fn committed_effect_descriptor_is_not_authority() {
    let descriptor = committed_effect_descriptor();

    assert!(!descriptor.is_host_abi_authority());
    assert!(!descriptor.is_vm_authority());
    assert!(!descriptor.is_execution_authority());
    assert!(!descriptor.is_runtime_mutation());
    assert!(!descriptor.is_audit_backend());
    assert!(!descriptor.is_host_runtime_path());
}

#[test]
fn committed_effect_generation_is_deterministic() {
    let left = committed_effect_descriptor();
    let right = committed_effect_descriptor();

    assert_eq!(left, right);
}

/// A prepared effect result for `effect_request`, carrying its identities
/// and capability metadata; `prepared` selects the decision.
fn prepared_effect_result_for(
    effect_request: &prom_ui::effect_request::InteractionEffectRequestDescriptor,
    prepared: bool,
) -> prom_ui::prepared_effect_result::InteractionPreparedEffectResult {
    let raw = effect_request.id.0;
    prom_ui::prepared_effect_result::InteractionPreparedEffectResult {
        id: prom_ui::prepared_effect_result::InteractionPreparedEffectResultId(raw),
        descriptor_id: prom_ui::prepared_effect::InteractionPreparedEffectDescriptorId(raw),
        runtime_capability_mapping_result_id:
            prom_ui::runtime_capability_mapping_result::InteractionRuntimeCapabilityMappingResultId(raw),
        runtime_capability_mapping_descriptor_id:
            prom_ui::runtime_capability_mapping::InteractionRuntimeCapabilityMappingDescriptorId(raw),
        ui_capability_admission_result_id:
            prom_ui::ui_capability_admission_result::InteractionUiCapabilityAdmissionResultId(raw),
        ui_capability_admission_descriptor_id:
            prom_ui::ui_capability_admission::InteractionUiCapabilityAdmissionDescriptorId(raw),
        effect_request_descriptor_id: effect_request.id,
        source_admitted_action_id: effect_request.source_admitted_action_id,
        dispatch_record_id: effect_request.dispatch_record_id,
        dispatch_route_id: effect_request.dispatch_route_id,
        status: if prepared { prom_ui::prepared_effect_result::InteractionPreparedEffectDecisionStatus::Prepared } else { prom_ui::prepared_effect_result::InteractionPreparedEffectDecisionStatus::Denied },
        denial_reason: if prepared { None } else { Some(prom_ui::prepared_effect_result::InteractionPreparedEffectDenialReason::PolicyDenied) },
        missing_requirement: if prepared { prom_ui::prepared_effect_result::InteractionPreparedEffectMissingRequirement::Nothing } else { prom_ui::prepared_effect_result::InteractionPreparedEffectMissingRequirement::Policy },
        requested_effect: effect_request.requested_effect,
        declared_ui_capability: effect_request.required_ui_capability,
        declared_runtime_capability_requirement: effect_request.required_runtime_capability,
        runtime_capability_namespace: match effect_request.required_runtime_capability {
            prom_ui::effect_request::InteractionEffectRequestRuntimeCapability::WindowLifecycle => prom_ui::runtime_capability_mapping::InteractionRuntimeCapabilityNamespace::WindowLifecycle,
            prom_ui::effect_request::InteractionEffectRequestRuntimeCapability::EffectControl => prom_ui::runtime_capability_mapping::InteractionRuntimeCapabilityNamespace::EffectControl,
            prom_ui::effect_request::InteractionEffectRequestRuntimeCapability::TargetQuarantine => prom_ui::runtime_capability_mapping::InteractionRuntimeCapabilityNamespace::TargetQuarantine,
            prom_ui::effect_request::InteractionEffectRequestRuntimeCapability::Unknown => prom_ui::runtime_capability_mapping::InteractionRuntimeCapabilityNamespace::Unknown,
        },
        lifecycle_precondition: effect_request.lifecycle_precondition,
        target_policy: effect_request.target_policy,
        trace_requirement: effect_request.trace_requirement,
        policy_gate_namespace: effect_request.policy_gate_namespace,
        scope: effect_request.scope,
    }
}
