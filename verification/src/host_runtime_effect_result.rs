//! Results recorded at the host runtime effect boundary.
use vstd::prelude::*;
use crate::action_admission::{
    InteractionActionAdmissionPolicyGateNamespace, InteractionActionAdmissionTraceRequirement,
};
use crate::action_dispatch_record::InteractionSemanticActionDispatchRecordId;
use crate::action_dispatch_route::InteractionSemanticActionDispatchRouteId;
use crate::admitted_action::InteractionAdmittedSemanticActionId;
use crate::commit_boundary::{
    InteractionCommitAuditRequirement, InteractionCommitBoundaryDescriptorId,
};
use crate::commit_boundary_result::InteractionCommitBoundaryResultId;
use crate::committed_effect::{
    InteractionCommittedEffectAuditVisibility, InteractionCommittedEffectDescriptorId,
    InteractionCommittedEffectHostPathRequirement,
    InteractionCommittedEffectRuntimeMutationRequirement,
};
use crate::committed_effect_record::{
    InteractionCommittedEffectHostPathStatus, InteractionCommittedEffectRecordId,
    InteractionCommittedEffectRecordStatus, InteractionCommittedEffectRuntimeMutationStatus,
};
use crate::effect_request::{
    InteractionEffectRequestDescriptorId, InteractionEffectRequestKind,
    InteractionEffectRequestLifecyclePrecondition, InteractionEffectRequestRuntimeCapability,
    InteractionEffectRequestScope, InteractionEffectRequestTargetPolicy,
    InteractionEffectRequestUiCapability,
};
use crate::host_runtime_effect::{
    InteractionHostRuntimeAuditWriteRequirement,
    InteractionHostRuntimeEffectBoundaryDescriptor,
    InteractionHostRuntimeEffectBoundaryDescriptorId,
    InteractionHostRuntimeEffectPathRequirement,
    InteractionHostRuntimeMutationRequirement,
};
use crate::prepared_effect::InteractionPreparedEffectDescriptorId;
use crate::prepared_effect_result::InteractionPreparedEffectResultId;
use crate::runtime_capability_mapping::{
    InteractionRuntimeCapabilityMappingDescriptorId, InteractionRuntimeCapabilityNamespace,
};
use crate::runtime_capability_mapping_result::InteractionRuntimeCapabilityMappingResultId;
use crate::ui_capability_admission::InteractionUiCapabilityAdmissionDescriptorId;
use crate::ui_capability_admission_result::InteractionUiCapabilityAdmissionResultId;

verus! {

#[derive(Debug, Clone, Copy, PartialEq, Eq, PartialOrd, Ord, Hash, Structural)]
pub struct InteractionHostRuntimeEffectBoundaryResultId(pub u64);

#[derive(Debug, Clone, Copy, PartialEq, Eq, Hash, Structural)]
pub enum InteractionHostRuntimeEffectBoundaryDecisionStatus {
    AdmittedToHostPath,
    Denied,
}

#[derive(Debug, Clone, Copy, PartialEq, Eq, Hash, Structural)]
pub enum InteractionHostRuntimeEffectBoundaryDenialReason {
    Nothing,
    MissingCommittedRecord,
    MissingRuntimeCapability,
    LifecycleBlocked,
    TargetUnavailable,
    TargetInvalid,
    PolicyDenied,
    AuditRequired,
    HostBoundaryDenied,
    Unknown,
}

#[derive(Debug, Clone, Copy, PartialEq, Eq, Hash, Structural)]
pub enum InteractionHostRuntimeEffectBoundaryMissingRequirement {
    Nothing,
    CommittedRecord,
    RuntimeCapability,
    Lifecycle,
    Target,
    Policy,
    Audit,
    HostBoundary,
    Unknown,
}

#[derive(Debug, Clone, Copy, PartialEq, Eq, Hash, Structural)]
pub struct InteractionHostRuntimeEffectBoundaryResult {
    pub id: InteractionHostRuntimeEffectBoundaryResultId,
    pub descriptor_id: InteractionHostRuntimeEffectBoundaryDescriptorId,
    pub committed_effect_record_id: InteractionCommittedEffectRecordId,
    pub committed_effect_descriptor_id: InteractionCommittedEffectDescriptorId,
    pub commit_boundary_result_id: InteractionCommitBoundaryResultId,
    pub commit_boundary_descriptor_id: InteractionCommitBoundaryDescriptorId,
    pub prepared_effect_result_id: InteractionPreparedEffectResultId,
    pub prepared_effect_descriptor_id: InteractionPreparedEffectDescriptorId,
    pub runtime_capability_mapping_result_id: InteractionRuntimeCapabilityMappingResultId,
    pub runtime_capability_mapping_descriptor_id: InteractionRuntimeCapabilityMappingDescriptorId,
    pub ui_capability_admission_result_id: InteractionUiCapabilityAdmissionResultId,
    pub ui_capability_admission_descriptor_id: InteractionUiCapabilityAdmissionDescriptorId,
    pub effect_request_descriptor_id: InteractionEffectRequestDescriptorId,
    pub source_admitted_action_id: InteractionAdmittedSemanticActionId,
    pub dispatch_record_id: InteractionSemanticActionDispatchRecordId,
    pub dispatch_route_id: InteractionSemanticActionDispatchRouteId,
    pub status: InteractionHostRuntimeEffectBoundaryDecisionStatus,
    pub denial_reason: InteractionHostRuntimeEffectBoundaryDenialReason,
    pub missing_requirement: InteractionHostRuntimeEffectBoundaryMissingRequirement,
    pub requested_effect: InteractionEffectRequestKind,
    pub declared_ui_capability: InteractionEffectRequestUiCapability,
    pub declared_runtime_capability_requirement: InteractionEffectRequestRuntimeCapability,
    pub runtime_capability_namespace: InteractionRuntimeCapabilityNamespace,
    pub lifecycle_precondition: InteractionEffectRequestLifecyclePrecondition,
    pub target_policy: InteractionEffectRequestTargetPolicy,
    pub trace_requirement: InteractionActionAdmissionTraceRequirement,
    pub policy_gate_namespace: InteractionActionAdmissionPolicyGateNamespace,
    pub scope: InteractionEffectRequestScope,
    pub audit_requirement: InteractionCommitAuditRequirement,
    pub audit_visibility: InteractionCommittedEffectAuditVisibility,
    pub runtime_mutation_requirement: InteractionCommittedEffectRuntimeMutationRequirement,
    pub host_path_requirement: InteractionCommittedEffectHostPathRequirement,
    pub record_status: InteractionCommittedEffectRecordStatus,
    pub runtime_mutation_status: InteractionCommittedEffectRuntimeMutationStatus,
    pub host_path_status: InteractionCommittedEffectHostPathStatus,
    pub future_host_path_requirement: InteractionHostRuntimeEffectPathRequirement,
    pub future_runtime_mutation_requirement: InteractionHostRuntimeMutationRequirement,
    pub future_audit_write_requirement: InteractionHostRuntimeAuditWriteRequirement,
}

pub fn record_interaction_host_runtime_effect_boundary_admitted_result(descriptor: &InteractionHostRuntimeEffectBoundaryDescriptor) -> (r: InteractionHostRuntimeEffectBoundaryResult)
    ensures
        r == host_runtime_effect_result_for(
            *descriptor,
            InteractionHostRuntimeEffectBoundaryDecisionStatus::AdmittedToHostPath,
            InteractionHostRuntimeEffectBoundaryDenialReason::Nothing,
            InteractionHostRuntimeEffectBoundaryMissingRequirement::Nothing,
        ),
{
    build_result(
        descriptor,
        InteractionHostRuntimeEffectBoundaryDecisionStatus::AdmittedToHostPath,
        InteractionHostRuntimeEffectBoundaryDenialReason::Nothing,
        InteractionHostRuntimeEffectBoundaryMissingRequirement::Nothing,
    )
}

pub fn record_interaction_host_runtime_effect_boundary_denied_result(
    descriptor: &InteractionHostRuntimeEffectBoundaryDescriptor,
    denial_reason: InteractionHostRuntimeEffectBoundaryDenialReason,
    missing_requirement: InteractionHostRuntimeEffectBoundaryMissingRequirement,
) -> (r: InteractionHostRuntimeEffectBoundaryResult)
    ensures
        r == host_runtime_effect_result_for(
            *descriptor,
            InteractionHostRuntimeEffectBoundaryDecisionStatus::Denied,
            denial_reason,
            missing_requirement,
        ),
{
    build_result(descriptor, InteractionHostRuntimeEffectBoundaryDecisionStatus::Denied, denial_reason, missing_requirement)
}

/// The result recorded for boundary descriptor `d` with the given decision; everything else is carried over.
pub open spec fn host_runtime_effect_result_for(d: InteractionHostRuntimeEffectBoundaryDescriptor, status: InteractionHostRuntimeEffectBoundaryDecisionStatus, denial_reason: InteractionHostRuntimeEffectBoundaryDenialReason, missing_requirement: InteractionHostRuntimeEffectBoundaryMissingRequirement) -> InteractionHostRuntimeEffectBoundaryResult {
    InteractionHostRuntimeEffectBoundaryResult {
        id: InteractionHostRuntimeEffectBoundaryResultId(d.id.0),
        descriptor_id: d.id,
        committed_effect_record_id: d.committed_effect_record_id,
        committed_effect_descriptor_id: d.committed_effect_descriptor_id,
        commit_boundary_result_id: d.commit_boundary_result_id,
        commit_boundary_descriptor_id: d.commit_boundary_descriptor_id,
        prepared_effect_result_id: d.prepared_effect_result_id,
        prepared_effect_descriptor_id: d.prepared_effect_descriptor_id,
        runtime_capability_mapping_result_id: d.runtime_capability_mapping_result_id,
        runtime_capability_mapping_descriptor_id: d.runtime_capability_mapping_descriptor_id,
        ui_capability_admission_result_id: d.ui_capability_admission_result_id,
        ui_capability_admission_descriptor_id: d.ui_capability_admission_descriptor_id,
        effect_request_descriptor_id: d.effect_request_descriptor_id,
        source_admitted_action_id: d.source_admitted_action_id,
        dispatch_record_id: d.dispatch_record_id,
        dispatch_route_id: d.dispatch_route_id,
        status: status,
        denial_reason: denial_reason,
        missing_requirement: missing_requirement,
        requested_effect: d.requested_effect,
        declared_ui_capability: d.declared_ui_capability,
        declared_runtime_capability_requirement: d.declared_runtime_capability_requirement,
        runtime_capability_namespace: d.runtime_capability_namespace,
        lifecycle_precondition: d.lifecycle_precondition,
        target_policy: d.target_policy,
        trace_requirement: d.trace_requirement,
        policy_gate_namespace: d.policy_gate_namespace,
        scope: d.scope,
        audit_requirement: d.audit_requirement,
        audit_visibility: d.audit_visibility,
        runtime_mutation_requirement: d.runtime_mutation_requirement,
        host_path_requirement: d.host_path_requirement,
        record_status: d.record_status,
        runtime_mutation_status: d.runtime_mutation_status,
        host_path_status: d.host_path_status,
        future_host_path_requirement: d.future_host_path_requirement,
        future_runtime_mutation_requirement: d.future_runtime_mutation_requirement,
        future_audit_write_requirement: d.future_audit_write_requirement,
    }
}

fn build_result(descriptor: &InteractionHostRuntimeEffectBoundaryDescriptor, status: InteractionHostRuntimeEffectBoundaryDecisionStatus, denial_reason: InteractionHostRuntimeEffectBoundaryDenialReason, missing_requirement: InteractionHostRuntimeEffectBoundaryMissingRequirement) -> (r: InteractionHostRuntimeEffectBoundaryResult)
    ensures
        r == host_runtime_effect_result_for(*descriptor, status, denial_reason, missing_requirement),
{
    InteractionHostRuntimeEffectBoundaryResult {
        id: InteractionHostRuntimeEffectBoundaryResultId(descriptor.id.0),
        descriptor_id: descriptor.id,
        committed_effect_record_id: descriptor.committed_effect_record_id,
        committed_effect_descriptor_id: descriptor.committed_effect_descriptor_id,
        commit_boundary_result_id: descriptor.commit_boundary_result_id,
        commit_boundary_descriptor_id: descriptor.commit_boundary_descriptor_id,
        prepared_effect_result_id: descriptor.prepared_effect_result_id,
        prepared_effect_descriptor_id: descriptor.prepared_effect_descriptor_id,
        runtime_capability_mapping_result_id: descriptor.runtime_capability_mapping_result_id,
        runtime_capability_mapping_descriptor_id: descriptor.runtime_capability_mapping_descriptor_id,
        ui_capability_admission_result_id: descriptor.ui_capability_admission_result_id,
        ui_capability_admission_descriptor_id: descriptor.ui_capability_admission_descriptor_id,
        effect_request_descriptor_id: descriptor.effect_request_descriptor_id,
        source_admitted_action_id: descriptor.source_admitted_action_id,
        dispatch_record_id: descriptor.dispatch_record_id,
        dispatch_route_id: descriptor.dispatch_route_id,
        status: status,
        denial_reason: denial_reason,
        missing_requirement: missing_requirement,
        requested_effect: descriptor.requested_effect,
        declared_ui_capability: descriptor.declared_ui_capability,
        declared_runtime_capability_requirement: descriptor.declared_runtime_capability_requirement,
        runtime_capability_namespace: descriptor.runtime_capability_namespace,
        lifecycle_precondition: descriptor.lifecycle_precondition,
        target_policy: descriptor.target_policy,
        trace_requirement: descriptor.trace_requirement,
        policy_gate_namespace: descriptor.policy_gate_namespace,
        scope: descriptor.scope,
        audit_requirement: descriptor.audit_requirement,
        audit_visibility: descriptor.audit_visibility,
        runtime_mutation_requirement: descriptor.runtime_mutation_requirement,
        host_path_requirement: descriptor.host_path_requirement,
        record_status: descriptor.record_status,
        runtime_mutation_status: descriptor.runtime_mutation_status,
        host_path_status: descriptor.host_path_status,
        future_host_path_requirement: descriptor.future_host_path_requirement,
        future_runtime_mutation_requirement: descriptor.future_runtime_mutation_requirement,
        future_audit_write_requirement: descriptor.future_audit_write_requirement,
    }
}

impl InteractionHostRuntimeEffectBoundaryResult {
    pub fn is_admitted_to_host_path(&self) -> (r: bool)
        ensures
            r == (self.status == InteractionHostRuntimeEffectBoundaryDecisionStatus::AdmittedToHostPath),
    {
        matches!(self.status, InteractionHostRuntimeEffectBoundaryDecisionStatus::AdmittedToHostPath)
    }

    pub fn is_denied(&self) -> (r: bool)
        ensures
            r == (self.status == InteractionHostRuntimeEffectBoundaryDecisionStatus::Denied),
    {
        matches!(self.status, InteractionHostRuntimeEffectBoundaryDecisionStatus::Denied)
    }

    pub fn is_host_abi_authority(&self) -> (r: bool)
        ensures
            !r,
    {
        false
    }

    pub fn is_vm_authority(&self) -> (r: bool)
        ensures
            !r,
    {
        false
    }

    pub fn is_execution_authority(&self) -> (r: bool)
        ensures
            !r,
    {
        false
    }

    pub fn is_runtime_mutation(&self) -> (r: bool)
        ensures
            !r,
    {
        false
    }

    pub fn is_audit_backend(&self) -> (r: bool)
        ensures
            !r,
    {
        false
    }

    pub fn is_host_runtime_path(&self) -> (r: bool)
        ensures
            !r,
    {
        false
    }
}

} // verus!
