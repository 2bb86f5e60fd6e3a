//! Traces of denied host runtime effect boundary results.
use vstd::prelude::*;
use crate::host_runtime_effect_result::InteractionHostRuntimeEffectBoundaryDecisionStatus;
use crate::action_admission::{
    InteractionActionAdmissionPolicyGateNamespace, InteractionActionAdmissionTraceRequirement,
};
use crate::action_dispatch_record::InteractionSemanticActionDispatchRecordId;
use crate::action_dispatch_route::InteractionSemanticActionDispatchRouteId;
use crate::admitted_action::InteractionAdmittedSemanticActionId;
use crate::commit_boundary::{
    InteractionCommitAuditRequirement, InteractionCommitBoundaryDescriptorId,
};
use crate::commit_boundary_result::InteractionCommitBoundaryResultId;
use crate::committed_effect::{
    InteractionCommittedEffectAuditVisibility, InteractionCommittedEffectDescriptorId,
    InteractionCommittedEffectHostPathRequirement,
    InteractionCommittedEffectRuntimeMutationRequirement,
};
use crate::committed_effect_record::{
    InteractionCommittedEffectHostPathStatus, InteractionCommittedEffectRecordId,
    InteractionCommittedEffectRecordStatus, InteractionCommittedEffectRuntimeMutationStatus,
};
use crate::effect_request::{
    InteractionEffectRequestDescriptorId, InteractionEffectRequestKind,
    InteractionEffectRequestLifecyclePrecondition, InteractionEffectRequestRuntimeCapability,
    InteractionEffectRequestScope, InteractionEffectRequestTargetPolicy,
    InteractionEffectRequestUiCapability,
};
use crate::host_runtime_effect::{
    InteractionHostRuntimeAuditWriteRequirement, InteractionHostRuntimeEffectBoundaryDescriptorId,
    InteractionHostRuntimeEffectPathRequirement, InteractionHostRuntimeMutationRequirement,
};
use crate::host_runtime_effect_result::{
    InteractionHostRuntimeEffectBoundaryDenialReason,
    InteractionHostRuntimeEffectBoundaryMissingRequirement,
    InteractionHostRuntimeEffectBoundaryResult,
    InteractionHostRuntimeEffectBoundaryResultId,
};
use crate::prepared_effect::InteractionPreparedEffectDescriptorId;
use crate::prepared_effect_result::InteractionPreparedEffectResultId;
use crate::runtime_capability_mapping::{
    InteractionRuntimeCapabilityMappingDescriptorId, InteractionRuntimeCapabilityNamespace,
};
use crate::runtime_capability_mapping_result::InteractionRuntimeCapabilityMappingResultId;
use crate::ui_capability_admission::InteractionUiCapabilityAdmissionDescriptorId;
use crate::ui_capability_admission_result::InteractionUiCapabilityAdmissionResultId;
use crate::commit_boundary::InteractionCommitBoundaryDescriptor;
use crate::commit_boundary_result::{commit_boundary_result_for, InteractionCommitBoundaryDecisionStatus, InteractionCommitBoundaryDenialReason, InteractionCommitBoundaryMissingRequirement};
use crate::committed_effect::committed_effect_of;
use crate::committed_effect_record::committed_effect_record_of;
use crate::host_runtime_effect::{host_runtime_effect_boundary_of, InteractionHostRuntimeEffectBoundaryDescriptor};
use crate::host_runtime_effect_result::host_runtime_effect_result_for;

verus! {

#[derive(Debug, Clone, Copy, PartialEq, Eq, PartialOrd, Ord, Hash, Structural)]
pub struct InteractionHostRuntimeEffectDenialTraceId(pub u64);

#[derive(Debug, Clone, Copy, PartialEq, Eq, Hash, Structural)]
pub enum InteractionHostRuntimeEffectDenialTraceStatus {
    Traced,
    NotDenied,
}

#[derive(Debug, Clone, Copy, PartialEq, Eq, Hash, Structural)]
pub enum InteractionHostRuntimeEffectDenialRetryHint {
    Nothing,
    ProvideCommittedRecord,
    ProvideRuntimeCapability,
    SatisfyLifecycle,
    ResolveTarget,
    AdjustPolicy,
    SatisfyAuditRequirement,
    InspectHostBoundary,
    InspectUnknown,
}

#[derive(Debug, Clone, Copy, PartialEq, Eq, Hash, Structural)]
pub struct InteractionHostRuntimeEffectDenialTrace {
    pub id: InteractionHostRuntimeEffectDenialTraceId,
    pub result_id: InteractionHostRuntimeEffectBoundaryResultId,
    pub descriptor_id: InteractionHostRuntimeEffectBoundaryDescriptorId,
    pub committed_effect_record_id: InteractionCommittedEffectRecordId,
    pub committed_effect_descriptor_id: InteractionCommittedEffectDescriptorId,
    pub commit_boundary_result_id: InteractionCommitBoundaryResultId,
    pub commit_boundary_descriptor_id: InteractionCommitBoundaryDescriptorId,
    pub prepared_effect_result_id: InteractionPreparedEffectResultId,
    pub prepared_effect_descriptor_id: InteractionPreparedEffectDescriptorId,
    pub runtime_capability_mapping_result_id: InteractionRuntimeCapabilityMappingResultId,
    pub runtime_capability_mapping_descriptor_id: InteractionRuntimeCapabilityMappingDescriptorId,
    pub ui_capability_admission_result_id: InteractionUiCapabilityAdmissionResultId,
    pub ui_capability_admission_descriptor_id: InteractionUiCapabilityAdmissionDescriptorId,
    pub effect_request_descriptor_id: InteractionEffectRequestDescriptorId,
    pub source_admitted_action_id: InteractionAdmittedSemanticActionId,
    pub dispatch_record_id: InteractionSemanticActionDispatchRecordId,
    pub dispatch_route_id: InteractionSemanticActionDispatchRouteId,
    pub status: InteractionHostRuntimeEffectDenialTraceStatus,
    pub denial_reason: InteractionHostRuntimeEffectBoundaryDenialReason,
    pub missing_requirement: InteractionHostRuntimeEffectBoundaryMissingRequirement,
    pub retry_hint: InteractionHostRuntimeEffectDenialRetryHint,
    pub requested_effect: InteractionEffectRequestKind,
    pub declared_ui_capability: InteractionEffectRequestUiCapability,
    pub declared_runtime_capability_requirement: InteractionEffectRequestRuntimeCapability,
    pub runtime_capability_namespace: InteractionRuntimeCapabilityNamespace,
    pub lifecycle_precondition: InteractionEffectRequestLifecyclePrecondition,
    pub target_policy: InteractionEffectRequestTargetPolicy,
    pub trace_requirement: InteractionActionAdmissionTraceRequirement,
    pub policy_gate_namespace: InteractionActionAdmissionPolicyGateNamespace,
    pub scope: InteractionEffectRequestScope,
    pub audit_requirement: InteractionCommitAuditRequirement,
    pub audit_visibility: InteractionCommittedEffectAuditVisibility,
    pub runtime_mutation_requirement: InteractionCommittedEffectRuntimeMutationRequirement,
    pub host_path_requirement: InteractionCommittedEffectHostPathRequirement,
    pub record_status: InteractionCommittedEffectRecordStatus,
    pub runtime_mutation_status: InteractionCommittedEffectRuntimeMutationStatus,
    pub host_path_status: InteractionCommittedEffectHostPathStatus,
    pub future_host_path_requirement: InteractionHostRuntimeEffectPathRequirement,
    pub future_runtime_mutation_requirement: InteractionHostRuntimeMutationRequirement,
    pub future_audit_write_requirement: InteractionHostRuntimeAuditWriteRequirement,
}

/// Only denied boundary results are traced; the retry hint follows the denial reason.
pub open spec fn host_runtime_effect_denial_trace_of(r0: InteractionHostRuntimeEffectBoundaryResult) -> Option<InteractionHostRuntimeEffectDenialTrace> {
    if r0.status != InteractionHostRuntimeEffectBoundaryDecisionStatus::Denied {
        None
    } else {
        Some(InteractionHostRuntimeEffectDenialTrace {
            id: InteractionHostRuntimeEffectDenialTraceId(r0.id.0),
            result_id: r0.id,
            descriptor_id: r0.descriptor_id,
            committed_effect_record_id: r0.committed_effect_record_id,
            committed_effect_descriptor_id: r0.committed_effect_descriptor_id,
            commit_boundary_result_id: r0.commit_boundary_result_id,
            commit_boundary_descriptor_id: r0.commit_boundary_descriptor_id,
            prepared_effect_result_id: r0.prepared_effect_result_id,
            prepared_effect_descriptor_id: r0.prepared_effect_descriptor_id,
            runtime_capability_mapping_result_id: r0.runtime_capability_mapping_result_id,
            runtime_capability_mapping_descriptor_id: r0.runtime_capability_mapping_descriptor_id,
            ui_capability_admission_result_id: r0.ui_capability_admission_result_id,
            ui_capability_admission_descriptor_id: r0.ui_capability_admission_descriptor_id,
            effect_request_descriptor_id: r0.effect_request_descriptor_id,
            source_admitted_action_id: r0.source_admitted_action_id,
            dispatch_record_id: r0.dispatch_record_id,
            dispatch_route_id: r0.dispatch_route_id,
            status: InteractionHostRuntimeEffectDenialTraceStatus::Traced,
            denial_reason: r0.denial_reason,
            missing_requirement: r0.missing_requirement,
            retry_hint: host_retry_hint_for(r0.denial_reason),
            requested_effect: r0.requested_effect,
            declared_ui_capability: r0.declared_ui_capability,
            declared_runtime_capability_requirement: r0.declared_runtime_capability_requirement,
            runtime_capability_namespace: r0.runtime_capability_namespace,
            lifecycle_precondition: r0.lifecycle_precondition,
            target_policy: r0.target_policy,
            trace_requirement: r0.trace_requirement,
            policy_gate_namespace: r0.policy_gate_namespace,
            scope: r0.scope,
            audit_requirement: r0.audit_requirement,
            audit_visibility: r0.audit_visibility,
            runtime_mutation_requirement: r0.runtime_mutation_requirement,
            host_path_requirement: r0.host_path_requirement,
            record_status: r0.record_status,
            runtime_mutation_status: r0.runtime_mutation_status,
            host_path_status: r0.host_path_status,
            future_host_path_requirement: r0.future_host_path_requirement,
            future_runtime_mutation_requirement: r0.future_runtime_mutation_requirement,
            future_audit_write_requirement: r0.future_audit_write_requirement,
        })
    }
}

pub fn trace_interaction_host_runtime_effect_denial(result: &InteractionHostRuntimeEffectBoundaryResult) -> (r: Option<InteractionHostRuntimeEffectDenialTrace>)
    ensures
        r == host_runtime_effect_denial_trace_of(*result),
{
    if !matches!(result.status, InteractionHostRuntimeEffectBoundaryDecisionStatus::Denied) {
        return None;
    }
    Some(InteractionHostRuntimeEffectDenialTrace {
        id: InteractionHostRuntimeEffectDenialTraceId(result.id.0),
        result_id: result.id,
        descriptor_id: result.descriptor_id,
        committed_effect_record_id: result.committed_effect_record_id,
        committed_effect_descriptor_id: result.committed_effect_descriptor_id,
        commit_boundary_result_id: result.commit_boundary_result_id,
        commit_boundary_descriptor_id: result.commit_boundary_descriptor_id,
        prepared_effect_result_id: result.prepared_effect_result_id,
        prepared_effect_descriptor_id: result.prepared_effect_descriptor_id,
        runtime_capability_mapping_result_id: result.runtime_capability_mapping_result_id,
        runtime_capability_mapping_descriptor_id: result.runtime_capability_mapping_descriptor_id,
        ui_capability_admission_result_id: result.ui_capability_admission_result_id,
        ui_capability_admission_descriptor_id: result.ui_capability_admission_descriptor_id,
        effect_request_descriptor_id: result.effect_request_descriptor_id,
        source_admitted_action_id: result.source_admitted_action_id,
        dispatch_record_id: result.dispatch_record_id,
        dispatch_route_id: result.dispatch_route_id,
        status: InteractionHostRuntimeEffectDenialTraceStatus::Traced,
        denial_reason: result.denial_reason,
        missing_requirement: result.missing_requirement,
        retry_hint: map_retry_hint(result.denial_reason),
        requested_effect: result.requested_effect,
        declared_ui_capability: result.declared_ui_capability,
        declared_runtime_capability_requirement: result.declared_runtime_capability_requirement,
        runtime_capability_namespace: result.runtime_capability_namespace,
        lifecycle_precondition: result.lifecycle_precondition,
        target_policy: result.target_policy,
        trace_requirement: result.trace_requirement,
        policy_gate_namespace: result.policy_gate_namespace,
        scope: result.scope,
        audit_requirement: result.audit_requirement,
        audit_visibility: result.audit_visibility,
        runtime_mutation_requirement: result.runtime_mutation_requirement,
        host_path_requirement: result.host_path_requirement,
        record_status: result.record_status,
        runtime_mutation_status: result.runtime_mutation_status,
        host_path_status: result.host_path_status,
        future_host_path_requirement: result.future_host_path_requirement,
        future_runtime_mutation_requirement: result.future_runtime_mutation_requirement,
        future_audit_write_requirement: result.future_audit_write_requirement,
    })
}

pub open spec fn host_retry_hint_for(denial_reason: InteractionHostRuntimeEffectBoundaryDenialReason) -> InteractionHostRuntimeEffectDenialRetryHint {
    match denial_reason {
        InteractionHostRuntimeEffectBoundaryDenialReason::Nothing => InteractionHostRuntimeEffectDenialRetryHint::Nothing,
        InteractionHostRuntimeEffectBoundaryDenialReason::MissingCommittedRecord => InteractionHostRuntimeEffectDenialRetryHint::ProvideCommittedRecord,
        InteractionHostRuntimeEffectBoundaryDenialReason::MissingRuntimeCapability => InteractionHostRuntimeEffectDenialRetryHint::ProvideRuntimeCapability,
        InteractionHostRuntimeEffectBoundaryDenialReason::LifecycleBlocked => InteractionHostRuntimeEffectDenialRetryHint::SatisfyLifecycle,
        InteractionHostRuntimeEffectBoundaryDenialReason::TargetUnavailable | InteractionHostRuntimeEffectBoundaryDenialReason::TargetInvalid => InteractionHostRuntimeEffectDenialRetryHint::ResolveTarget,
        InteractionHostRuntimeEffectBoundaryDenialReason::PolicyDenied => InteractionHostRuntimeEffectDenialRetryHint::AdjustPolicy,
        InteractionHostRuntimeEffectBoundaryDenialReason::AuditRequired => InteractionHostRuntimeEffectDenialRetryHint::SatisfyAuditRequirement,
        InteractionHostRuntimeEffectBoundaryDenialReason::HostBoundaryDenied => InteractionHostRuntimeEffectDenialRetryHint::InspectHostBoundary,
        InteractionHostRuntimeEffectBoundaryDenialReason::Unknown => InteractionHostRuntimeEffectDenialRetryHint::InspectUnknown,
    }
}

fn map_retry_hint(denial_reason: InteractionHostRuntimeEffectBoundaryDenialReason) -> (r: InteractionHostRuntimeEffectDenialRetryHint)
    ensures
        r == host_retry_hint_for(denial_reason),
{
    match denial_reason {
        InteractionHostRuntimeEffectBoundaryDenialReason::Nothing => InteractionHostRuntimeEffectDenialRetryHint::Nothing,
        InteractionHostRuntimeEffectBoundaryDenialReason::MissingCommittedRecord => InteractionHostRuntimeEffectDenialRetryHint::ProvideCommittedRecord,
        InteractionHostRuntimeEffectBoundaryDenialReason::MissingRuntimeCapability => InteractionHostRuntimeEffectDenialRetryHint::ProvideRuntimeCapability,
        InteractionHostRuntimeEffectBoundaryDenialReason::LifecycleBlocked => InteractionHostRuntimeEffectDenialRetryHint::SatisfyLifecycle,
        InteractionHostRuntimeEffectBoundaryDenialReason::TargetUnavailable | InteractionHostRuntimeEffectBoundaryDenialReason::TargetInvalid => InteractionHostRuntimeEffectDenialRetryHint::ResolveTarget,
        InteractionHostRuntimeEffectBoundaryDenialReason::PolicyDenied => InteractionHostRuntimeEffectDenialRetryHint::AdjustPolicy,
        InteractionHostRuntimeEffectBoundaryDenialReason::AuditRequired => InteractionHostRuntimeEffectDenialRetryHint::SatisfyAuditRequirement,
        InteractionHostRuntimeEffectBoundaryDenialReason::HostBoundaryDenied => InteractionHostRuntimeEffectDenialRetryHint::InspectHostBoundary,
        InteractionHostRuntimeEffectBoundaryDenialReason::Unknown => InteractionHostRuntimeEffectDenialRetryHint::InspectUnknown,
    }
}

impl InteractionHostRuntimeEffectDenialTrace {
    pub fn is_retry_execution(&self) -> (r: bool)
        ensures
            !r,
    {
        false
    }

    pub fn is_host_abi_authority(&self) -> (r: bool)
        ensures
            !r,
    {
        false
    }

    pub fn is_vm_authority(&self) -> (r: bool)
        ensures
            !r,
    {
        false
    }

    pub fn is_execution_authority(&self) -> (r: bool)
        ensures
            !r,
    {
        false
    }

    pub fn is_runtime_mutation(&self) -> (r: bool)
        ensures
            !r,
    {
        false
    }

    pub fn is_audit_backend(&self) -> (r: bool)
        ensures
            !r,
    {
        false
    }

    pub fn is_host_runtime_path(&self) -> (r: bool)
        ensures
            !r,
    {
        false
    }

    pub fn grants_capability(&self) -> (r: bool)
        ensures
            !r,
    {
        false
    }
}

/// A commit that is committed goes all the way to a host runtime boundary:
/// its committed effect is described, recorded inert, and admitted to the
/// boundary; a denied commit produces no committed effect.
pub proof fn lemma_committed_commit_reaches_host_boundary(
    d: InteractionCommitBoundaryDescriptor,
    reason: InteractionCommitBoundaryDenialReason,
    missing: InteractionCommitBoundaryMissingRequirement,
)
    ensures
        committed_effect_of(commit_boundary_result_for(d, InteractionCommitBoundaryDecisionStatus::Committed, reason, missing)) matches Some(c)
            && host_runtime_effect_boundary_of(committed_effect_record_of(c)) is Some,
        committed_effect_of(commit_boundary_result_for(d, InteractionCommitBoundaryDecisionStatus::Denied, reason, missing)) is None,
{
}

/// A host runtime boundary decision has a denial trace exactly when it
/// denies.
pub proof fn lemma_host_denial_trace_iff_denied(
    d: InteractionHostRuntimeEffectBoundaryDescriptor,
    status: InteractionHostRuntimeEffectBoundaryDecisionStatus,
    reason: InteractionHostRuntimeEffectBoundaryDenialReason,
    missing: InteractionHostRuntimeEffectBoundaryMissingRequirement,
)
    ensures
        (host_runtime_effect_denial_trace_of(host_runtime_effect_result_for(d, status, reason, missing)) is Some)
            == (status == InteractionHostRuntimeEffectBoundaryDecisionStatus::Denied),
{
}

} // verus!
