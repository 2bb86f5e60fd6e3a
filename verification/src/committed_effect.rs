//! Committed-effect descriptors derived from committed commit boundary results.
use vstd::prelude::*;
use crate::action_admission::{
    InteractionActionAdmissionPolicyGateNamespace, InteractionActionAdmissionTraceRequirement,
};
use crate::action_dispatch_record::InteractionSemanticActionDispatchRecordId;
use crate::action_dispatch_route::InteractionSemanticActionDispatchRouteId;
use crate::admitted_action::InteractionAdmittedSemanticActionId;
use crate::commit_boundary::{
    InteractionCommitAuditRequirement, InteractionCommitBoundaryDescriptorId,
};
use crate::commit_boundary_result::{
    InteractionCommitBoundaryDecisionStatus, InteractionCommitBoundaryResult,
    InteractionCommitBoundaryResultId,
};
use crate::effect_request::{
    InteractionEffectRequestDescriptorId, InteractionEffectRequestKind,
    InteractionEffectRequestLifecyclePrecondition, InteractionEffectRequestRuntimeCapability,
    InteractionEffectRequestScope, InteractionEffectRequestTargetPolicy,
    InteractionEffectRequestUiCapability,
};
use crate::prepared_effect::InteractionPreparedEffectDescriptorId;
use crate::prepared_effect_result::InteractionPreparedEffectResultId;
use crate::runtime_capability_mapping::{
    InteractionRuntimeCapabilityMappingDescriptorId, InteractionRuntimeCapabilityNamespace,
};
use crate::runtime_capability_mapping_result::InteractionRuntimeCapabilityMappingResultId;
use crate::ui_capability_admission::InteractionUiCapabilityAdmissionDescriptorId;
use crate::ui_capability_admission_result::InteractionUiCapabilityAdmissionResultId;

verus! {

#[derive(Debug, Clone, Copy, PartialEq, Eq, PartialOrd, Ord, Hash, Structural)]
pub struct InteractionCommittedEffectDescriptorId(pub u64);

#[derive(Debug, Clone, Copy, PartialEq, Eq, Hash, Structural)]
pub enum InteractionCommittedEffectAuditVisibility {
    Required,
}

#[derive(Debug, Clone, Copy, PartialEq, Eq, Hash, Structural)]
pub enum InteractionCommittedEffectRuntimeMutationRequirement {
    SeparateBoundaryRequired,
}

#[derive(Debug, Clone, Copy, PartialEq, Eq, Hash, Structural)]
pub enum InteractionCommittedEffectHostPathRequirement {
    SeparateBoundaryRequired,
}

#[derive(Debug, Clone, Copy, PartialEq, Eq, Hash, Structural)]
pub struct InteractionCommittedEffectDescriptor {
    pub id: InteractionCommittedEffectDescriptorId,
    pub commit_boundary_result_id: InteractionCommitBoundaryResultId,
    pub commit_boundary_descriptor_id: InteractionCommitBoundaryDescriptorId,
    pub prepared_effect_result_id: InteractionPreparedEffectResultId,
    pub prepared_effect_descriptor_id: InteractionPreparedEffectDescriptorId,
    pub runtime_capability_mapping_result_id: InteractionRuntimeCapabilityMappingResultId,
    pub runtime_capability_mapping_descriptor_id: InteractionRuntimeCapabilityMappingDescriptorId,
    pub ui_capability_admission_result_id: InteractionUiCapabilityAdmissionResultId,
    pub ui_capability_admission_descriptor_id: InteractionUiCapabilityAdmissionDescriptorId,
    pub effect_request_descriptor_id: InteractionEffectRequestDescriptorId,
    pub source_admitted_action_id: InteractionAdmittedSemanticActionId,
    pub dispatch_record_id: InteractionSemanticActionDispatchRecordId,
    pub dispatch_route_id: InteractionSemanticActionDispatchRouteId,
    pub requested_effect: InteractionEffectRequestKind,
    pub declared_ui_capability: InteractionEffectRequestUiCapability,
    pub declared_runtime_capability_requirement: InteractionEffectRequestRuntimeCapability,
    pub runtime_capability_namespace: InteractionRuntimeCapabilityNamespace,
    pub lifecycle_precondition: InteractionEffectRequestLifecyclePrecondition,
    pub target_policy: InteractionEffectRequestTargetPolicy,
    pub trace_requirement: InteractionActionAdmissionTraceRequirement,
    pub policy_gate_namespace: InteractionActionAdmissionPolicyGateNamespace,
    pub scope: InteractionEffectRequestScope,
    pub audit_requirement: InteractionCommitAuditRequirement,
    pub audit_visibility: InteractionCommittedEffectAuditVisibility,
    pub runtime_mutation_requirement: InteractionCommittedEffectRuntimeMutationRequirement,
    pub host_path_requirement: InteractionCommittedEffectHostPathRequirement,
}

/// Only committed commit boundary results describe a committed effect; runtime mutation and the host path stay behind separate boundaries.
pub open spec fn committed_effect_of(c: InteractionCommitBoundaryResult) -> Option<InteractionCommittedEffectDescriptor> {
    if c.status != InteractionCommitBoundaryDecisionStatus::Committed {
        None
    } else {
        Some(InteractionCommittedEffectDescriptor {
            id: InteractionCommittedEffectDescriptorId(c.id.0),
            commit_boundary_result_id: c.id,
            commit_boundary_descriptor_id: c.descriptor_id,
            prepared_effect_result_id: c.prepared_effect_result_id,
            prepared_effect_descriptor_id: c.prepared_effect_descriptor_id,
            runtime_capability_mapping_result_id: c.runtime_capability_mapping_result_id,
            runtime_capability_mapping_descriptor_id: c.runtime_capability_mapping_descriptor_id,
            ui_capability_admission_result_id: c.ui_capability_admission_result_id,
            ui_capability_admission_descriptor_id: c.ui_capability_admission_descriptor_id,
            effect_request_descriptor_id: c.effect_request_descriptor_id,
            source_admitted_action_id: c.source_admitted_action_id,
            dispatch_record_id: c.dispatch_record_id,
            dispatch_route_id: c.dispatch_route_id,
            requested_effect: c.requested_effect,
            declared_ui_capability: c.declared_ui_capability,
            declared_runtime_capability_requirement: c.declared_runtime_capability_requirement,
            runtime_capability_namespace: c.runtime_capability_namespace,
            lifecycle_precondition: c.lifecycle_precondition,
            target_policy: c.target_policy,
            trace_requirement: c.trace_requirement,
            policy_gate_namespace: c.policy_gate_namespace,
            scope: c.scope,
            audit_requirement: c.audit_requirement,
            audit_visibility: InteractionCommittedEffectAuditVisibility::Required,
            runtime_mutation_requirement: InteractionCommittedEffectRuntimeMutationRequirement::SeparateBoundaryRequired,
            host_path_requirement: InteractionCommittedEffectHostPathRequirement::SeparateBoundaryRequired,
        })
    }
}

pub fn describe_interaction_committed_effect(commit_result: &InteractionCommitBoundaryResult) -> (r: Option<InteractionCommittedEffectDescriptor>)
    ensures
        r == committed_effect_of(*commit_result),
{
    if !matches!(commit_result.status, InteractionCommitBoundaryDecisionStatus::Committed) {
        return None;
    }
    Some(InteractionCommittedEffectDescriptor {
        id: InteractionCommittedEffectDescriptorId(commit_result.id.0),
        commit_boundary_result_id: commit_result.id,
        commit_boundary_descriptor_id: commit_result.descriptor_id,
        prepared_effect_result_id: commit_result.prepared_effect_result_id,
        prepared_effect_descriptor_id: commit_result.prepared_effect_descriptor_id,
        runtime_capability_mapping_result_id: commit_result.runtime_capability_mapping_result_id,
        runtime_capability_mapping_descriptor_id: commit_result.runtime_capability_mapping_descriptor_id,
        ui_capability_admission_result_id: commit_result.ui_capability_admission_result_id,
        ui_capability_admission_descriptor_id: commit_result.ui_capability_admission_descriptor_id,
        effect_request_descriptor_id: commit_result.effect_request_descriptor_id,
        source_admitted_action_id: commit_result.source_admitted_action_id,
        dispatch_record_id: commit_result.dispatch_record_id,
        dispatch_route_id: commit_result.dispatch_route_id,
        requested_effect: commit_result.requested_effect,
        declared_ui_capability: commit_result.declared_ui_capability,
        declared_runtime_capability_requirement: commit_result.declared_runtime_capability_requirement,
        runtime_capability_namespace: commit_result.runtime_capability_namespace,
        lifecycle_precondition: commit_result.lifecycle_precondition,
        target_policy: commit_result.target_policy,
        trace_requirement: commit_result.trace_requirement,
        policy_gate_namespace: commit_result.policy_gate_namespace,
        scope: commit_result.scope,
        audit_requirement: commit_result.audit_requirement,
        audit_visibility: InteractionCommittedEffectAuditVisibility::Required,
        runtime_mutation_requirement: InteractionCommittedEffectRuntimeMutationRequirement::SeparateBoundaryRequired,
        host_path_requirement: InteractionCommittedEffectHostPathRequirement::SeparateBoundaryRequired,
    })
}

impl InteractionCommittedEffectDescriptor {
    pub fn is_host_abi_authority(&self) -> (r: bool)
        ensures
            !r,
    {
        false
    }

    pub fn is_vm_authority(&self) -> (r: bool)
        ensures
            !r,
    {
        false
    }

    pub fn is_execution_authority(&self) -> (r: bool)
        ensures
            !r,
    {
        false
    }

    pub fn is_runtime_mutation(&self) -> (r: bool)
        ensures
            !r,
    {
        false
    }

    pub fn is_audit_backend(&self) -> (r: bool)
        ensures
            !r,
    {
        false
    }

    pub fn is_host_runtime_path(&self) -> (r: bool)
        ensures
            !r,
    {
        false
    }
}

} // verus!
