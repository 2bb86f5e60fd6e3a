//! Decision outcomes recorded for commit boundary descriptors.
use vstd::prelude::*;
use crate::action_admission::{
    InteractionActionAdmissionPolicyGateNamespace, InteractionActionAdmissionTraceRequirement,
};
use crate::action_dispatch_record::InteractionSemanticActionDispatchRecordId;
use crate::action_dispatch_route::InteractionSemanticActionDispatchRouteId;
use crate::admitted_action::InteractionAdmittedSemanticActionId;
use crate::commit_boundary::{
    InteractionCommitAuditRequirement, InteractionCommitBoundaryDescriptor,
    InteractionCommitBoundaryDescriptorId, InteractionCommitBoundaryFutureCommittedEffectShape,
};
use crate::effect_request::{
    InteractionEffectRequestDescriptorId, InteractionEffectRequestKind,
    InteractionEffectRequestLifecyclePrecondition, InteractionEffectRequestRuntimeCapability,
    InteractionEffectRequestScope, InteractionEffectRequestTargetPolicy,
    InteractionEffectRequestUiCapability,
};
use crate::prepared_effect::InteractionPreparedEffectDescriptorId;
use crate::prepared_effect_result::InteractionPreparedEffectResultId;
use crate::runtime_capability_mapping::{
    InteractionRuntimeCapabilityMappingDescriptorId, InteractionRuntimeCapabilityNamespace,
};
use crate::runtime_capability_mapping_result::InteractionRuntimeCapabilityMappingResultId;
use crate::ui_capability_admission::InteractionUiCapabilityAdmissionDescriptorId;
use crate::ui_capability_admission_result::InteractionUiCapabilityAdmissionResultId;

verus! {

#[derive(Debug, Clone, Copy, PartialEq, Eq, PartialOrd, Ord, Hash, Structural)]
pub struct InteractionCommitBoundaryResultId(pub u64);

#[derive(Debug, Clone, Copy, PartialEq, Eq, Hash, Structural)]
pub enum InteractionCommitBoundaryDecisionStatus {
    Committed,
    Denied,
}

#[derive(Debug, Clone, Copy, PartialEq, Eq, Hash, Structural)]
pub enum InteractionCommitBoundaryDenialReason {
    Nothing,
    MissingPreparedEffect,
    LifecycleBlocked,
    TargetUnavailable,
    TargetInvalid,
    PolicyDenied,
    AuditRequired,
    HostBoundaryDenied,
    Unknown,
}

#[derive(Debug, Clone, Copy, PartialEq, Eq, Hash, Structural)]
pub enum InteractionCommitBoundaryMissingRequirement {
    Nothing,
    PreparedEffect,
    Lifecycle,
    Target,
    Policy,
    Audit,
    HostBoundary,
    Unknown,
}

#[derive(Debug, Clone, Copy, PartialEq, Eq, Hash, Structural)]
pub struct InteractionCommitBoundaryResult {
    pub id: InteractionCommitBoundaryResultId,
    pub descriptor_id: InteractionCommitBoundaryDescriptorId,
    pub prepared_effect_result_id: InteractionPreparedEffectResultId,
    pub prepared_effect_descriptor_id: InteractionPreparedEffectDescriptorId,
    pub runtime_capability_mapping_result_id: InteractionRuntimeCapabilityMappingResultId,
    pub runtime_capability_mapping_descriptor_id: InteractionRuntimeCapabilityMappingDescriptorId,
    pub ui_capability_admission_result_id: InteractionUiCapabilityAdmissionResultId,
    pub ui_capability_admission_descriptor_id: InteractionUiCapabilityAdmissionDescriptorId,
    pub effect_request_descriptor_id: InteractionEffectRequestDescriptorId,
    pub source_admitted_action_id: InteractionAdmittedSemanticActionId,
    pub dispatch_record_id: InteractionSemanticActionDispatchRecordId,
    pub dispatch_route_id: InteractionSemanticActionDispatchRouteId,
    pub status: InteractionCommitBoundaryDecisionStatus,
    pub denial_reason: InteractionCommitBoundaryDenialReason,
    pub missing_requirement: InteractionCommitBoundaryMissingRequirement,
    pub requested_effect: InteractionEffectRequestKind,
    pub declared_ui_capability: InteractionEffectRequestUiCapability,
    pub declared_runtime_capability_requirement: InteractionEffectRequestRuntimeCapability,
    pub runtime_capability_namespace: InteractionRuntimeCapabilityNamespace,
    pub lifecycle_precondition: InteractionEffectRequestLifecyclePrecondition,
    pub target_policy: InteractionEffectRequestTargetPolicy,
    pub trace_requirement: InteractionActionAdmissionTraceRequirement,
    pub policy_gate_namespace: InteractionActionAdmissionPolicyGateNamespace,
    pub scope: InteractionEffectRequestScope,
    pub audit_requirement: InteractionCommitAuditRequirement,
    pub future_committed_effect_shape: InteractionCommitBoundaryFutureCommittedEffectShape,
}

pub fn record_interaction_commit_boundary_committed_result(descriptor: &InteractionCommitBoundaryDescriptor) -> (r: InteractionCommitBoundaryResult)
    ensures
        r == commit_boundary_result_for(
            *descriptor,
            InteractionCommitBoundaryDecisionStatus::Committed,
            InteractionCommitBoundaryDenialReason::Nothing,
            InteractionCommitBoundaryMissingRequirement::Nothing,
        ),
{
    build_result(
        descriptor,
        InteractionCommitBoundaryDecisionStatus::Committed,
        InteractionCommitBoundaryDenialReason::Nothing,
        InteractionCommitBoundaryMissingRequirement::Nothing,
    )
}

pub fn record_interaction_commit_boundary_denied_result(
    descriptor: &InteractionCommitBoundaryDescriptor,
    denial_reason: InteractionCommitBoundaryDenialReason,
    missing_requirement: InteractionCommitBoundaryMissingRequirement,
) -> (r: InteractionCommitBoundaryResult)
    ensures
        r == commit_boundary_result_for(
            *descriptor,
            InteractionCommitBoundaryDecisionStatus::Denied,
            denial_reason,
            missing_requirement,
        ),
{
    build_result(descriptor, InteractionCommitBoundaryDecisionStatus::Denied, denial_reason, missing_requirement)
}

/// The result recorded for commit boundary `d` with the given decision; everything else is carried over from the descriptor.
pub open spec fn commit_boundary_result_for(d: InteractionCommitBoundaryDescriptor, status: InteractionCommitBoundaryDecisionStatus, denial_reason: InteractionCommitBoundaryDenialReason, missing_requirement: InteractionCommitBoundaryMissingRequirement) -> InteractionCommitBoundaryResult {
    InteractionCommitBoundaryResult {
        id: InteractionCommitBoundaryResultId(d.id.0),
        descriptor_id: d.id,
        prepared_effect_result_id: d.prepared_effect_result_id,
        prepared_effect_descriptor_id: d.prepared_effect_descriptor_id,
        runtime_capability_mapping_result_id: d.runtime_capability_mapping_result_id,
        runtime_capability_mapping_descriptor_id: d.runtime_capability_mapping_descriptor_id,
        ui_capability_admission_result_id: d.ui_capability_admission_result_id,
        ui_capability_admission_descriptor_id: d.ui_capability_admission_descriptor_id,
        effect_request_descriptor_id: d.effect_request_descriptor_id,
        source_admitted_action_id: d.source_admitted_action_id,
        dispatch_record_id: d.dispatch_record_id,
        dispatch_route_id: d.dispatch_route_id,
        status: status,
        denial_reason: denial_reason,
        missing_requirement: missing_requirement,
        requested_effect: d.requested_effect,
        declared_ui_capability: d.declared_ui_capability,
        declared_runtime_capability_requirement: d.declared_runtime_capability_requirement,
        runtime_capability_namespace: d.runtime_capability_namespace,
        lifecycle_precondition: d.lifecycle_precondition,
        target_policy: d.target_policy,
        trace_requirement: d.trace_requirement,
        policy_gate_namespace: d.policy_gate_namespace,
        scope: d.scope,
        audit_requirement: d.audit_requirement,
        future_committed_effect_shape: d.future_committed_effect_shape,
    }
}

fn build_result(descriptor: &InteractionCommitBoundaryDescriptor, status: InteractionCommitBoundaryDecisionStatus, denial_reason: InteractionCommitBoundaryDenialReason, missing_requirement: InteractionCommitBoundaryMissingRequirement) -> (r: InteractionCommitBoundaryResult)
    ensures
        r == commit_boundary_result_for(*descriptor, status, denial_reason, missing_requirement),
{
    InteractionCommitBoundaryResult {
        id: InteractionCommitBoundaryResultId(descriptor.id.0),
        descriptor_id: descriptor.id,
        prepared_effect_result_id: descriptor.prepared_effect_result_id,
        prepared_effect_descriptor_id: descriptor.prepared_effect_descriptor_id,
        runtime_capability_mapping_result_id: descriptor.runtime_capability_mapping_result_id,
        runtime_capability_mapping_descriptor_id: descriptor.runtime_capability_mapping_descriptor_id,
        ui_capability_admission_result_id: descriptor.ui_capability_admission_result_id,
        ui_capability_admission_descriptor_id: descriptor.ui_capability_admission_descriptor_id,
        effect_request_descriptor_id: descriptor.effect_request_descriptor_id,
        source_admitted_action_id: descriptor.source_admitted_action_id,
        dispatch_record_id: descriptor.dispatch_record_id,
        dispatch_route_id: descriptor.dispatch_route_id,
        status: status,
        denial_reason: denial_reason,
        missing_requirement: missing_requirement,
        requested_effect: descriptor.requested_effect,
        declared_ui_capability: descriptor.declared_ui_capability,
        declared_runtime_capability_requirement: descriptor.declared_runtime_capability_requirement,
        runtime_capability_namespace: descriptor.runtime_capability_namespace,
        lifecycle_precondition: descriptor.lifecycle_precondition,
        target_policy: descriptor.target_policy,
        trace_requirement: descriptor.trace_requirement,
        policy_gate_namespace: descriptor.policy_gate_namespace,
        scope: descriptor.scope,
        audit_requirement: descriptor.audit_requirement,
        future_committed_effect_shape: descriptor.future_committed_effect_shape,
    }
}

impl InteractionCommitBoundaryResult {
    pub fn is_committed(&self) -> (r: bool)
        ensures
            r == (self.status == InteractionCommitBoundaryDecisionStatus::Committed),
    {
        matches!(self.status, InteractionCommitBoundaryDecisionStatus::Committed)
    }

    pub fn is_denied(&self) -> (r: bool)
        ensures
            r == (self.status == InteractionCommitBoundaryDecisionStatus::Denied),
    {
        matches!(self.status, InteractionCommitBoundaryDecisionStatus::Denied)
    }

    pub fn is_committed_effect(&self) -> (r: bool)
        ensures
            !r,
    {
        false
    }

    pub fn is_host_abi_authority(&self) -> (r: bool)
        ensures
            !r,
    {
        false
    }

    pub fn is_vm_authority(&self) -> (r: bool)
        ensures
            !r,
    {
        false
    }

    pub fn is_execution_authority(&self) -> (r: bool)
        ensures
            !r,
    {
        false
    }

    pub fn is_runtime_mutation(&self) -> (r: bool)
        ensures
            !r,
    {
        false
    }

    pub fn is_audit_backend(&self) -> (r: bool)
        ensures
            !r,
    {
        false
    }
}

} // verus!
