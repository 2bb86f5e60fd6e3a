//! Descriptors of the future host runtime effect boundary.
use vstd::prelude::*;
use crate::action_admission::{
    InteractionActionAdmissionPolicyGateNamespace, InteractionActionAdmissionTraceRequirement,
};
use crate::action_dispatch_record::InteractionSemanticActionDispatchRecordId;
use crate::action_dispatch_route::InteractionSemanticActionDispatchRouteId;
use crate::admitted_action::InteractionAdmittedSemanticActionId;
use crate::commit_boundary::{
    InteractionCommitAuditRequirement, InteractionCommitBoundaryDescriptorId,
};
use crate::commit_boundary_result::InteractionCommitBoundaryResultId;
use crate::committed_effect::{
    InteractionCommittedEffectAuditVisibility, InteractionCommittedEffectDescriptorId,
    InteractionCommittedEffectHostPathRequirement,
    InteractionCommittedEffectRuntimeMutationRequirement,
};
use crate::committed_effect_record::{
    InteractionCommittedEffectHostPathStatus, InteractionCommittedEffectRecord,
    InteractionCommittedEffectRecordId, InteractionCommittedEffectRecordStatus,
    InteractionCommittedEffectRuntimeMutationStatus,
};
use crate::effect_request::{
    InteractionEffectRequestDescriptorId, InteractionEffectRequestKind,
    InteractionEffectRequestLifecyclePrecondition, InteractionEffectRequestRuntimeCapability,
    InteractionEffectRequestScope, InteractionEffectRequestTargetPolicy,
    InteractionEffectRequestUiCapability,
};
use crate::prepared_effect::InteractionPreparedEffectDescriptorId;
use crate::prepared_effect_result::InteractionPreparedEffectResultId;
use crate::runtime_capability_mapping::{
    InteractionRuntimeCapabilityMappingDescriptorId, InteractionRuntimeCapabilityNamespace,
};
use crate::runtime_capability_mapping_result::InteractionRuntimeCapabilityMappingResultId;
use crate::ui_capability_admission::InteractionUiCapabilityAdmissionDescriptorId;
use crate::ui_capability_admission_result::InteractionUiCapabilityAdmissionResultId;

verus! {

#[derive(Debug, Clone, Copy, PartialEq, Eq, PartialOrd, Ord, Hash, Structural)]
pub struct InteractionHostRuntimeEffectBoundaryDescriptorId(pub u64);

#[derive(Debug, Clone, Copy, PartialEq, Eq, Hash, Structural)]
pub enum InteractionHostRuntimeEffectBoundaryDecisionShape {
    AdmitOrDenyWithReason,
}

#[derive(Debug, Clone, Copy, PartialEq, Eq, Hash, Structural)]
pub enum InteractionHostRuntimeEffectPathRequirement {
    SeparateBoundaryRequired,
}

#[derive(Debug, Clone, Copy, PartialEq, Eq, Hash, Structural)]
pub enum InteractionHostRuntimeMutationRequirement {
    SeparateBoundaryRequired,
}

#[derive(Debug, Clone, Copy, PartialEq, Eq, Hash, Structural)]
pub enum InteractionHostRuntimeAuditWriteRequirement {
    SeparateBoundaryRequired,
}

#[derive(Debug, Clone, Copy, PartialEq, Eq, Hash, Structural)]
pub struct InteractionHostRuntimeEffectBoundaryDescriptor {
    pub id: InteractionHostRuntimeEffectBoundaryDescriptorId,
    pub committed_effect_record_id: InteractionCommittedEffectRecordId,
    pub committed_effect_descriptor_id: InteractionCommittedEffectDescriptorId,
    pub commit_boundary_result_id: InteractionCommitBoundaryResultId,
    pub commit_boundary_descriptor_id: InteractionCommitBoundaryDescriptorId,
    pub prepared_effect_result_id: InteractionPreparedEffectResultId,
    pub prepared_effect_descriptor_id: InteractionPreparedEffectDescriptorId,
    pub runtime_capability_mapping_result_id: InteractionRuntimeCapabilityMappingResultId,
    pub runtime_capability_mapping_descriptor_id: InteractionRuntimeCapabilityMappingDescriptorId,
    pub ui_capability_admission_result_id: InteractionUiCapabilityAdmissionResultId,
    pub ui_capability_admission_descriptor_id: InteractionUiCapabilityAdmissionDescriptorId,
    pub effect_request_descriptor_id: InteractionEffectRequestDescriptorId,
    pub source_admitted_action_id: InteractionAdmittedSemanticActionId,
    pub dispatch_record_id: InteractionSemanticActionDispatchRecordId,
    pub dispatch_route_id: InteractionSemanticActionDispatchRouteId,
    pub requested_effect: InteractionEffectRequestKind,
    pub declared_ui_capability: InteractionEffectRequestUiCapability,
    pub declared_runtime_capability_requirement: InteractionEffectRequestRuntimeCapability,
    pub runtime_capability_namespace: InteractionRuntimeCapabilityNamespace,
    pub lifecycle_precondition: InteractionEffectRequestLifecyclePrecondition,
    pub target_policy: InteractionEffectRequestTargetPolicy,
    pub trace_requirement: InteractionActionAdmissionTraceRequirement,
    pub policy_gate_namespace: InteractionActionAdmissionPolicyGateNamespace,
    pub scope: InteractionEffectRequestScope,
    pub audit_requirement: InteractionCommitAuditRequirement,
    pub audit_visibility: InteractionCommittedEffectAuditVisibility,
    pub runtime_mutation_requirement: InteractionCommittedEffectRuntimeMutationRequirement,
    pub host_path_requirement: InteractionCommittedEffectHostPathRequirement,
    pub record_status: InteractionCommittedEffectRecordStatus,
    pub runtime_mutation_status: InteractionCommittedEffectRuntimeMutationStatus,
    pub host_path_status: InteractionCommittedEffectHostPathStatus,
    pub host_boundary_decision_shape: InteractionHostRuntimeEffectBoundaryDecisionShape,
    pub future_host_path_requirement: InteractionHostRuntimeEffectPathRequirement,
    pub future_runtime_mutation_requirement: InteractionHostRuntimeMutationRequirement,
    pub future_audit_write_requirement: InteractionHostRuntimeAuditWriteRequirement,
}

/// A recorded committed effect that has neither mutated the runtime nor entered the host path is described at the host runtime effect boundary.
pub open spec fn host_runtime_effect_boundary_of(c: InteractionCommittedEffectRecord) -> Option<InteractionHostRuntimeEffectBoundaryDescriptor> {
    if c.record_status != InteractionCommittedEffectRecordStatus::Recorded || c.runtime_mutation_status != InteractionCommittedEffectRuntimeMutationStatus::NotPerformed || c.host_path_status != InteractionCommittedEffectHostPathStatus::NotEntered {
        None
    } else {
        Some(InteractionHostRuntimeEffectBoundaryDescriptor {
            id: InteractionHostRuntimeEffectBoundaryDescriptorId(c.id.0),
            committed_effect_record_id: c.id,
            committed_effect_descriptor_id: c.descriptor_id,
            commit_boundary_result_id: c.commit_boundary_result_id,
            commit_boundary_descriptor_id: c.commit_boundary_descriptor_id,
            prepared_effect_result_id: c.prepared_effect_result_id,
            prepared_effect_descriptor_id: c.prepared_effect_descriptor_id,
            runtime_capability_mapping_result_id: c.runtime_capability_mapping_result_id,
            runtime_capability_mapping_descriptor_id: c.runtime_capability_mapping_descriptor_id,
            ui_capability_admission_result_id: c.ui_capability_admission_result_id,
            ui_capability_admission_descriptor_id: c.ui_capability_admission_descriptor_id,
            effect_request_descriptor_id: c.effect_request_descriptor_id,
            source_admitted_action_id: c.source_admitted_action_id,
            dispatch_record_id: c.dispatch_record_id,
            dispatch_route_id: c.dispatch_route_id,
            requested_effect: c.requested_effect,
            declared_ui_capability: c.declared_ui_capability,
            declared_runtime_capability_requirement: c.declared_runtime_capability_requirement,
            runtime_capability_namespace: c.runtime_capability_namespace,
            lifecycle_precondition: c.lifecycle_precondition,
            target_policy: c.target_policy,
            trace_requirement: c.trace_requirement,
            policy_gate_namespace: c.policy_gate_namespace,
            scope: c.scope,
            audit_requirement: c.audit_requirement,
            audit_visibility: c.audit_visibility,
            runtime_mutation_requirement: c.runtime_mutation_requirement,
            host_path_requirement: c.host_path_requirement,
            record_status: c.record_status,
            runtime_mutation_status: c.runtime_mutation_status,
            host_path_status: c.host_path_status,
            host_boundary_decision_shape: InteractionHostRuntimeEffectBoundaryDecisionShape::AdmitOrDenyWithReason,
            future_host_path_requirement: InteractionHostRuntimeEffectPathRequirement::SeparateBoundaryRequired,
            future_runtime_mutation_requirement: InteractionHostRuntimeMutationRequirement::SeparateBoundaryRequired,
            future_audit_write_requirement: InteractionHostRuntimeAuditWriteRequirement::SeparateBoundaryRequired,
        })
    }
}

pub fn describe_interaction_host_runtime_effect_boundary(committed_record: &InteractionCommittedEffectRecord) -> (r: Option<InteractionHostRuntimeEffectBoundaryDescriptor>)
    ensures
        r == host_runtime_effect_boundary_of(*committed_record),
{
    if !matches!(committed_record.record_status, InteractionCommittedEffectRecordStatus::Recorded) {
        return None;
    }
    if !matches!(committed_record.runtime_mutation_status, InteractionCommittedEffectRuntimeMutationStatus::NotPerformed) {
        return None;
    }
    if !matches!(committed_record.host_path_status, InteractionCommittedEffectHostPathStatus::NotEntered) {
        return None;
    }
    Some(InteractionHostRuntimeEffectBoundaryDescriptor {
        id: InteractionHostRuntimeEffectBoundaryDescriptorId(committed_record.id.0),
        committed_effect_record_id: committed_record.id,
        committed_effect_descriptor_id: committed_record.descriptor_id,
        commit_boundary_result_id: committed_record.commit_boundary_result_id,
        commit_boundary_descriptor_id: committed_record.commit_boundary_descriptor_id,
        prepared_effect_result_id: committed_record.prepared_effect_result_id,
        prepared_effect_descriptor_id: committed_record.prepared_effect_descriptor_id,
        runtime_capability_mapping_result_id: committed_record.runtime_capability_mapping_result_id,
        runtime_capability_mapping_descriptor_id: committed_record.runtime_capability_mapping_descriptor_id,
        ui_capability_admission_result_id: committed_record.ui_capability_admission_result_id,
        ui_capability_admission_descriptor_id: committed_record.ui_capability_admission_descriptor_id,
        effect_request_descriptor_id: committed_record.effect_request_descriptor_id,
        source_admitted_action_id: committed_record.source_admitted_action_id,
        dispatch_record_id: committed_record.dispatch_record_id,
        dispatch_route_id: committed_record.dispatch_route_id,
        requested_effect: committed_record.requested_effect,
        declared_ui_capability: committed_record.declared_ui_capability,
        declared_runtime_capability_requirement: committed_record.declared_runtime_capability_requirement,
        runtime_capability_namespace: committed_record.runtime_capability_namespace,
        lifecycle_precondition: committed_record.lifecycle_precondition,
        target_policy: committed_record.target_policy,
        trace_requirement: committed_record.trace_requirement,
        policy_gate_namespace: committed_record.policy_gate_namespace,
        scope: committed_record.scope,
        audit_requirement: committed_record.audit_requirement,
        audit_visibility: committed_record.audit_visibility,
        runtime_mutation_requirement: committed_record.runtime_mutation_requirement,
        host_path_requirement: committed_record.host_path_requirement,
        record_status: committed_record.record_status,
        runtime_mutation_status: committed_record.runtime_mutation_status,
        host_path_status: committed_record.host_path_status,
        host_boundary_decision_shape: InteractionHostRuntimeEffectBoundaryDecisionShape::AdmitOrDenyWithReason,
        future_host_path_requirement: InteractionHostRuntimeEffectPathRequirement::SeparateBoundaryRequired,
        future_runtime_mutation_requirement: InteractionHostRuntimeMutationRequirement::SeparateBoundaryRequired,
        future_audit_write_requirement: InteractionHostRuntimeAuditWriteRequirement::SeparateBoundaryRequired,
    })
}

impl InteractionHostRuntimeEffectBoundaryDescriptor {
    pub fn is_host_abi_authority(&self) -> (r: bool)
        ensures
            !r,
    {
        false
    }

    pub fn is_vm_authority(&self) -> (r: bool)
        ensures
            !r,
    {
        false
    }

    pub fn is_execution_authority(&self) -> (r: bool)
        ensures
            !r,
    {
        false
    }

    pub fn is_runtime_mutation(&self) -> (r: bool)
        ensures
            !r,
    {
        false
    }

    pub fn is_audit_backend(&self) -> (r: bool)
        ensures
            !r,
    {
        false
    }

    pub fn is_host_runtime_path(&self) -> (r: bool)
        ensures
            !r,
    {
        false
    }
}

} // verus!
