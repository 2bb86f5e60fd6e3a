//! UI-side records of committed effect descriptors.
use vstd::prelude::*;
use crate::action_admission::{
    InteractionActionAdmissionPolicyGateNamespace, InteractionActionAdmissionTraceRequirement,
};
use crate::action_dispatch_record::InteractionSemanticActionDispatchRecordId;
use crate::action_dispatch_route::InteractionSemanticActionDispatchRouteId;
use crate::admitted_action::InteractionAdmittedSemanticActionId;
use crate::commit_boundary::InteractionCommitAuditRequirement;
use crate::commit_boundary_result::InteractionCommitBoundaryResultId;
use crate::committed_effect::{
    InteractionCommittedEffectAuditVisibility, InteractionCommittedEffectDescriptor,
    InteractionCommittedEffectDescriptorId,
    InteractionCommittedEffectHostPathRequirement,
    InteractionCommittedEffectRuntimeMutationRequirement,
};
use crate::effect_request::{
    InteractionEffectRequestDescriptorId, InteractionEffectRequestKind,
    InteractionEffectRequestLifecyclePrecondition, InteractionEffectRequestRuntimeCapability,
    InteractionEffectRequestScope, InteractionEffectRequestTargetPolicy,
    InteractionEffectRequestUiCapability,
};
use crate::prepared_effect::InteractionPreparedEffectDescriptorId;
use crate::prepared_effect_result::InteractionPreparedEffectResultId;
use crate::runtime_capability_mapping::{
    InteractionRuntimeCapabilityMappingDescriptorId, InteractionRuntimeCapabilityNamespace,
};
use crate::runtime_capability_mapping_result::InteractionRuntimeCapabilityMappingResultId;
use crate::ui_capability_admission::InteractionUiCapabilityAdmissionDescriptorId;
use crate::ui_capability_admission_result::InteractionUiCapabilityAdmissionResultId;

verus! {

#[derive(Debug, Clone, Copy, PartialEq, Eq, PartialOrd, Ord, Hash, Structural)]
pub struct InteractionCommittedEffectRecordId(pub u64);

#[derive(Debug, Clone, Copy, PartialEq, Eq, Hash, Structural)]
pub enum InteractionCommittedEffectRecordStatus {
    Recorded,
}

#[derive(Debug, Clone, Copy, PartialEq, Eq, Hash, Structural)]
pub enum InteractionCommittedEffectRuntimeMutationStatus {
    NotPerformed,
}

#[derive(Debug, Clone, Copy, PartialEq, Eq, Hash, Structural)]
pub enum InteractionCommittedEffectHostPathStatus {
    NotEntered,
}

#[derive(Debug, Clone, Copy, PartialEq, Eq, Hash, Structural)]
pub struct InteractionCommittedEffectRecord {
    pub id: InteractionCommittedEffectRecordId,
    pub descriptor_id: InteractionCommittedEffectDescriptorId,
    pub commit_boundary_result_id: InteractionCommitBoundaryResultId,
    pub commit_boundary_descriptor_id: crate::commit_boundary::InteractionCommitBoundaryDescriptorId,
    pub prepared_effect_result_id: InteractionPreparedEffectResultId,
    pub prepared_effect_descriptor_id: InteractionPreparedEffectDescriptorId,
    pub runtime_capability_mapping_result_id: InteractionRuntimeCapabilityMappingResultId,
    pub runtime_capability_mapping_descriptor_id: InteractionRuntimeCapabilityMappingDescriptorId,
    pub ui_capability_admission_result_id: InteractionUiCapabilityAdmissionResultId,
    pub ui_capability_admission_descriptor_id: InteractionUiCapabilityAdmissionDescriptorId,
    pub effect_request_descriptor_id: InteractionEffectRequestDescriptorId,
    pub source_admitted_action_id: InteractionAdmittedSemanticActionId,
    pub dispatch_record_id: InteractionSemanticActionDispatchRecordId,
    pub dispatch_route_id: InteractionSemanticActionDispatchRouteId,
    pub requested_effect: InteractionEffectRequestKind,
    pub declared_ui_capability: InteractionEffectRequestUiCapability,
    pub declared_runtime_capability_requirement: InteractionEffectRequestRuntimeCapability,
    pub runtime_capability_namespace: InteractionRuntimeCapabilityNamespace,
    pub lifecycle_precondition: InteractionEffectRequestLifecyclePrecondition,
    pub target_policy: InteractionEffectRequestTargetPolicy,
    pub trace_requirement: InteractionActionAdmissionTraceRequirement,
    pub policy_gate_namespace: InteractionActionAdmissionPolicyGateNamespace,
    pub scope: InteractionEffectRequestScope,
    pub audit_requirement: InteractionCommitAuditRequirement,
    pub audit_visibility: InteractionCommittedEffectAuditVisibility,
    pub runtime_mutation_requirement: InteractionCommittedEffectRuntimeMutationRequirement,
    pub host_path_requirement: InteractionCommittedEffectHostPathRequirement,
    pub record_status: InteractionCommittedEffectRecordStatus,
    pub runtime_mutation_status: InteractionCommittedEffectRuntimeMutationStatus,
    pub host_path_status: InteractionCommittedEffectHostPathStatus,
}

/// A committed effect descriptor is recorded as is, with no runtime mutation performed and the host path not entered.
pub open spec fn committed_effect_record_of(d: InteractionCommittedEffectDescriptor) -> InteractionCommittedEffectRecord {
    InteractionCommittedEffectRecord {
        id: InteractionCommittedEffectRecordId(d.id.0),
        descriptor_id: d.id,
        commit_boundary_result_id: d.commit_boundary_result_id,
        commit_boundary_descriptor_id: d.commit_boundary_descriptor_id,
        prepared_effect_result_id: d.prepared_effect_result_id,
        prepared_effect_descriptor_id: d.prepared_effect_descriptor_id,
        runtime_capability_mapping_result_id: d.runtime_capability_mapping_result_id,
        runtime_capability_mapping_descriptor_id: d.runtime_capability_mapping_descriptor_id,
        ui_capability_admission_result_id: d.ui_capability_admission_result_id,
        ui_capability_admission_descriptor_id: d.ui_capability_admission_descriptor_id,
        effect_request_descriptor_id: d.effect_request_descriptor_id,
        source_admitted_action_id: d.source_admitted_action_id,
        dispatch_record_id: d.dispatch_record_id,
        dispatch_route_id: d.dispatch_route_id,
        requested_effect: d.requested_effect,
        declared_ui_capability: d.declared_ui_capability,
        declared_runtime_capability_requirement: d.declared_runtime_capability_requirement,
        runtime_capability_namespace: d.runtime_capability_namespace,
        lifecycle_precondition: d.lifecycle_precondition,
        target_policy: d.target_policy,
        trace_requirement: d.trace_requirement,
        policy_gate_namespace: d.policy_gate_namespace,
        scope: d.scope,
        audit_requirement: d.audit_requirement,
        audit_visibility: d.audit_visibility,
        runtime_mutation_requirement: d.runtime_mutation_requirement,
        host_path_requirement: d.host_path_requirement,
        record_status: InteractionCommittedEffectRecordStatus::Recorded,
        runtime_mutation_status: InteractionCommittedEffectRuntimeMutationStatus::NotPerformed,
        host_path_status: InteractionCommittedEffectHostPathStatus::NotEntered,
    }
}

pub fn record_interaction_committed_effect(descriptor: &InteractionCommittedEffectDescriptor) -> (r: InteractionCommittedEffectRecord)
    ensures
        r == committed_effect_record_of(*descriptor),
{
    InteractionCommittedEffectRecord {
        id: InteractionCommittedEffectRecordId(descriptor.id.0),
        descriptor_id: descriptor.id,
        commit_boundary_result_id: descriptor.commit_boundary_result_id,
        commit_boundary_descriptor_id: descriptor.commit_boundary_descriptor_id,
        prepared_effect_result_id: descriptor.prepared_effect_result_id,
        prepared_effect_descriptor_id: descriptor.prepared_effect_descriptor_id,
        runtime_capability_mapping_result_id: descriptor.runtime_capability_mapping_result_id,
        runtime_capability_mapping_descriptor_id: descriptor.runtime_capability_mapping_descriptor_id,
        ui_capability_admission_result_id: descriptor.ui_capability_admission_result_id,
        ui_capability_admission_descriptor_id: descriptor.ui_capability_admission_descriptor_id,
        effect_request_descriptor_id: descriptor.effect_request_descriptor_id,
        source_admitted_action_id: descriptor.source_admitted_action_id,
        dispatch_record_id: descriptor.dispatch_record_id,
        dispatch_route_id: descriptor.dispatch_route_id,
        requested_effect: descriptor.requested_effect,
        declared_ui_capability: descriptor.declared_ui_capability,
        declared_runtime_capability_requirement: descriptor.declared_runtime_capability_requirement,
        runtime_capability_namespace: descriptor.runtime_capability_namespace,
        lifecycle_precondition: descriptor.lifecycle_precondition,
        target_policy: descriptor.target_policy,
        trace_requirement: descriptor.trace_requirement,
        policy_gate_namespace: descriptor.policy_gate_namespace,
        scope: descriptor.scope,
        audit_requirement: descriptor.audit_requirement,
        audit_visibility: descriptor.audit_visibility,
        runtime_mutation_requirement: descriptor.runtime_mutation_requirement,
        host_path_requirement: descriptor.host_path_requirement,
        record_status: InteractionCommittedEffectRecordStatus::Recorded,
        runtime_mutation_status: InteractionCommittedEffectRuntimeMutationStatus::NotPerformed,
        host_path_status: InteractionCommittedEffectHostPathStatus::NotEntered,
    }
}

impl InteractionCommittedEffectRecord {
    pub fn is_host_abi_authority(&self) -> (r: bool)
        ensures
            !r,
    {
        false
    }

    pub fn is_vm_authority(&self) -> (r: bool)
        ensures
            !r,
    {
        false
    }

    pub fn is_execution_authority(&self) -> (r: bool)
        ensures
            !r,
    {
        false
    }

    pub fn is_runtime_mutation(&self) -> (r: bool)
        ensures
            !r,
    {
        false
    }

    pub fn is_audit_backend(&self) -> (r: bool)
        ensures
            !r,
    {
        false
    }

    pub fn is_host_runtime_path(&self) -> (r: bool)
        ensures
            !r,
    {
        false
    }
}

} // verus!
