//! Descriptors of the commit boundary that a prepared effect passes through.
//! They decide nothing and commit nothing.
use vstd::prelude::*;
use crate::action_admission::{
    InteractionActionAdmissionPolicyGateNamespace, InteractionActionAdmissionTraceRequirement,
};
use crate::action_dispatch_record::InteractionSemanticActionDispatchRecordId;
use crate::action_dispatch_route::InteractionSemanticActionDispatchRouteId;
use crate::admitted_action::InteractionAdmittedSemanticActionId;
use crate::effect_request::{
    InteractionEffectRequestDescriptorId, InteractionEffectRequestKind,
    InteractionEffectRequestLifecyclePrecondition, InteractionEffectRequestRuntimeCapability,
    InteractionEffectRequestScope, InteractionEffectRequestTargetPolicy,
    InteractionEffectRequestUiCapability,
};
use crate::prepared_effect::InteractionPreparedEffectDescriptorId;
use crate::prepared_effect_result::{
    InteractionPreparedEffectDecisionStatus, InteractionPreparedEffectResult,
    InteractionPreparedEffectResultId,
};
use crate::runtime_capability_mapping::{
    InteractionRuntimeCapabilityMappingDescriptorId, InteractionRuntimeCapabilityNamespace,
};
use crate::runtime_capability_mapping_result::InteractionRuntimeCapabilityMappingResultId;
use crate::ui_capability_admission::InteractionUiCapabilityAdmissionDescriptorId;
use crate::ui_capability_admission_result::InteractionUiCapabilityAdmissionResultId;

verus! {

#[derive(Debug, Clone, Copy, PartialEq, Eq, PartialOrd, Ord, Hash, Structural)]
pub struct InteractionCommitBoundaryDescriptorId(pub u64);

#[derive(Debug, Clone, Copy, PartialEq, Eq, Hash, Structural)]
pub enum InteractionCommitAuditRequirement {
    Required,
}

#[derive(Debug, Clone, Copy, PartialEq, Eq, Hash, Structural)]
pub enum InteractionCommitBoundaryFutureCommittedEffectShape {
    CommitOrDenyWithReason,
}

#[derive(Debug, Clone, Copy, PartialEq, Eq, Hash, Structural)]
pub struct InteractionCommitBoundaryDescriptor {
    pub id: InteractionCommitBoundaryDescriptorId,
    pub prepared_effect_result_id: InteractionPreparedEffectResultId,
    pub prepared_effect_descriptor_id: InteractionPreparedEffectDescriptorId,
    pub runtime_capability_mapping_result_id: InteractionRuntimeCapabilityMappingResultId,
    pub runtime_capability_mapping_descriptor_id: InteractionRuntimeCapabilityMappingDescriptorId,
    pub ui_capability_admission_result_id: InteractionUiCapabilityAdmissionResultId,
    pub ui_capability_admission_descriptor_id: InteractionUiCapabilityAdmissionDescriptorId,
    pub effect_request_descriptor_id: InteractionEffectRequestDescriptorId,
    pub source_admitted_action_id: InteractionAdmittedSemanticActionId,
    pub dispatch_record_id: InteractionSemanticActionDispatchRecordId,
    pub dispatch_route_id: InteractionSemanticActionDispatchRouteId,
    pub requested_effect: InteractionEffectRequestKind,
    pub declared_ui_capability: InteractionEffectRequestUiCapability,
    pub declared_runtime_capability_requirement: InteractionEffectRequestRuntimeCapability,
    pub runtime_capability_namespace: InteractionRuntimeCapabilityNamespace,
    pub lifecycle_precondition: InteractionEffectRequestLifecyclePrecondition,
    pub target_policy: InteractionEffectRequestTargetPolicy,
    pub trace_requirement: InteractionActionAdmissionTraceRequirement,
    pub policy_gate_namespace: InteractionActionAdmissionPolicyGateNamespace,
    pub scope: InteractionEffectRequestScope,
    pub audit_requirement: InteractionCommitAuditRequirement,
    pub future_committed_effect_shape: InteractionCommitBoundaryFutureCommittedEffectShape,
}

/// Only a prepared effect result opens a commit boundary; the boundary carries the prepared result's identities and capability metadata and requires an audit.
pub open spec fn commit_boundary_of(p: InteractionPreparedEffectResult) -> Option<InteractionCommitBoundaryDescriptor> {
    if p.status != InteractionPreparedEffectDecisionStatus::Prepared {
        None
    } else {
        Some(InteractionCommitBoundaryDescriptor {
            id: InteractionCommitBoundaryDescriptorId(p.id.0),
            prepared_effect_result_id: p.id,
            prepared_effect_descriptor_id: p.descriptor_id,
            runtime_capability_mapping_result_id: p.runtime_capability_mapping_result_id,
            runtime_capability_mapping_descriptor_id: p.runtime_capability_mapping_descriptor_id,
            ui_capability_admission_result_id: p.ui_capability_admission_result_id,
            ui_capability_admission_descriptor_id: p.ui_capability_admission_descriptor_id,
            effect_request_descriptor_id: p.effect_request_descriptor_id,
            source_admitted_action_id: p.source_admitted_action_id,
            dispatch_record_id: p.dispatch_record_id,
            dispatch_route_id: p.dispatch_route_id,
            requested_effect: p.requested_effect,
            declared_ui_capability: p.declared_ui_capability,
            declared_runtime_capability_requirement: p.declared_runtime_capability_requirement,
            runtime_capability_namespace: p.runtime_capability_namespace,
            lifecycle_precondition: p.lifecycle_precondition,
            target_policy: p.target_policy,
            trace_requirement: p.trace_requirement,
            policy_gate_namespace: p.policy_gate_namespace,
            scope: p.scope,
            audit_requirement: InteractionCommitAuditRequirement::Required,
            future_committed_effect_shape: InteractionCommitBoundaryFutureCommittedEffectShape::CommitOrDenyWithReason,
        })
    }
}

pub fn describe_interaction_commit_boundary(prepared_result: &InteractionPreparedEffectResult) -> (r: Option<InteractionCommitBoundaryDescriptor>)
    ensures
        r == commit_boundary_of(*prepared_result),
{
    if !matches!(prepared_result.status, InteractionPreparedEffectDecisionStatus::Prepared) {
        return None;
    }
    Some(InteractionCommitBoundaryDescriptor {
        id: InteractionCommitBoundaryDescriptorId(prepared_result.id.0),
        prepared_effect_result_id: prepared_result.id,
        prepared_effect_descriptor_id: prepared_result.descriptor_id,
        runtime_capability_mapping_result_id: prepared_result.runtime_capability_mapping_result_id,
        runtime_capability_mapping_descriptor_id: prepared_result.runtime_capability_mapping_descriptor_id,
        ui_capability_admission_result_id: prepared_result.ui_capability_admission_result_id,
        ui_capability_admission_descriptor_id: prepared_result.ui_capability_admission_descriptor_id,
        effect_request_descriptor_id: prepared_result.effect_request_descriptor_id,
        source_admitted_action_id: prepared_result.source_admitted_action_id,
        dispatch_record_id: prepared_result.dispatch_record_id,
        dispatch_route_id: prepared_result.dispatch_route_id,
        requested_effect: prepared_result.requested_effect,
        declared_ui_capability: prepared_result.declared_ui_capability,
        declared_runtime_capability_requirement: prepared_result.declared_runtime_capability_requirement,
        runtime_capability_namespace: prepared_result.runtime_capability_namespace,
        lifecycle_precondition: prepared_result.lifecycle_precondition,
        target_policy: prepared_result.target_policy,
        trace_requirement: prepared_result.trace_requirement,
        policy_gate_namespace: prepared_result.policy_gate_namespace,
        scope: prepared_result.scope,
        audit_requirement: InteractionCommitAuditRequirement::Required,
        future_committed_effect_shape: InteractionCommitBoundaryFutureCommittedEffectShape::CommitOrDenyWithReason,
    })
}

impl InteractionCommitBoundaryDescriptor {
    pub fn is_commit_decision(&self) -> (r: bool)
        ensures
            !r,
    {
        false
    }

    pub fn is_committed_effect(&self) -> (r: bool)
        ensures
            !r,
    {
        false
    }

    pub fn is_host_abi_authority(&self) -> (r: bool)
        ensures
            !r,
    {
        false
    }

    pub fn is_vm_authority(&self) -> (r: bool)
        ensures
            !r,
    {
        false
    }

    pub fn is_execution_authority(&self) -> (r: bool)
        ensures
            !r,
    {
        false
    }

    pub fn is_runtime_mutation(&self) -> (r: bool)
        ensures
            !r,
    {
        false
    }

    pub fn is_audit_backend(&self) -> (r: bool)
        ensures
            !r,
    {
        false
    }
}

} // verus!
