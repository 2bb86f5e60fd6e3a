//! Visible trace reports for effect request descriptors.
use vstd::prelude::*;
use crate::action_admission::{
    InteractionActionAdmissionPolicyGateNamespace, InteractionActionAdmissionTraceRequirement,
};
use crate::action_binding::InteractionActionName;
use crate::action_dispatch_record::InteractionSemanticActionDispatchRecordId;
use crate::action_dispatch_route::InteractionSemanticActionDispatchRouteId;
use crate::admitted_action::InteractionAdmittedSemanticActionId;
use crate::effect_request::{
    InteractionEffectRequestDenialBehavior, InteractionEffectRequestDescriptor,
    InteractionEffectRequestDescriptorId, InteractionEffectRequestKind,
    InteractionEffectRequestLifecyclePrecondition,
    InteractionEffectRequestPrepareCommitRelationship, InteractionEffectRequestRuntimeCapability,
    InteractionEffectRequestScope, InteractionEffectRequestTargetPolicy,
    InteractionEffectRequestUiCapability,
};
use crate::interaction::InteractionIntentKind;

verus! {

#[derive(Debug, Clone, Copy, PartialEq, Eq, Hash, Structural)]
pub enum InteractionEffectRequestTraceStatus {
    Described,
}

#[derive(Debug, Clone, Copy, PartialEq, Eq, Hash, Structural)]
pub enum InteractionEffectRequestTraceReason {
    DescriptorRecorded,
}

#[derive(Debug, Clone, Copy, PartialEq, Eq, Hash, Structural)]
pub struct InteractionEffectRequestTraceReport {
    pub descriptor_id: InteractionEffectRequestDescriptorId,
    pub source_admitted_action_id: InteractionAdmittedSemanticActionId,
    pub dispatch_record_id: InteractionSemanticActionDispatchRecordId,
    pub dispatch_route_id: InteractionSemanticActionDispatchRouteId,
    pub action: InteractionActionName,
    pub source_intent: InteractionIntentKind,
    pub requested_effect: InteractionEffectRequestKind,
    pub target_policy: InteractionEffectRequestTargetPolicy,
    pub required_ui_capability: InteractionEffectRequestUiCapability,
    pub required_runtime_capability: InteractionEffectRequestRuntimeCapability,
    pub lifecycle_precondition: InteractionEffectRequestLifecyclePrecondition,
    pub trace_requirement: InteractionActionAdmissionTraceRequirement,
    pub denial_behavior: InteractionEffectRequestDenialBehavior,
    pub prepare_commit_relationship: InteractionEffectRequestPrepareCommitRelationship,
    pub policy_gate_namespace: InteractionActionAdmissionPolicyGateNamespace,
    pub scope: InteractionEffectRequestScope,
    pub trace_status: InteractionEffectRequestTraceStatus,
    pub trace_reason: InteractionEffectRequestTraceReason,
}

/// Every effect request descriptor is traced as described, field for field.
pub open spec fn effect_request_trace_of(d: InteractionEffectRequestDescriptor) -> InteractionEffectRequestTraceReport {
    InteractionEffectRequestTraceReport {
        descriptor_id: d.id,
        source_admitted_action_id: d.source_admitted_action_id,
        dispatch_record_id: d.dispatch_record_id,
        dispatch_route_id: d.dispatch_route_id,
        action: d.action,
        source_intent: d.source_intent,
        requested_effect: d.requested_effect,
        target_policy: d.target_policy,
        required_ui_capability: d.required_ui_capability,
        required_runtime_capability: d.required_runtime_capability,
        lifecycle_precondition: d.lifecycle_precondition,
        trace_requirement: d.trace_requirement,
        denial_behavior: d.denial_behavior,
        prepare_commit_relationship: d.prepare_commit_relationship,
        policy_gate_namespace: d.policy_gate_namespace,
        scope: d.scope,
        trace_status: InteractionEffectRequestTraceStatus::Described,
        trace_reason: InteractionEffectRequestTraceReason::DescriptorRecorded,
    }
}

pub fn trace_interaction_effect_request(descriptor: &InteractionEffectRequestDescriptor) -> (r: InteractionEffectRequestTraceReport)
    ensures
        r == effect_request_trace_of(*descriptor),
{
    InteractionEffectRequestTraceReport {
        descriptor_id: descriptor.id,
        source_admitted_action_id: descriptor.source_admitted_action_id,
        dispatch_record_id: descriptor.dispatch_record_id,
        dispatch_route_id: descriptor.dispatch_route_id,
        action: descriptor.action,
        source_intent: descriptor.source_intent,
        requested_effect: descriptor.requested_effect,
        target_policy: descriptor.target_policy,
        required_ui_capability: descriptor.required_ui_capability,
        required_runtime_capability: descriptor.required_runtime_capability,
        lifecycle_precondition: descriptor.lifecycle_precondition,
        trace_requirement: descriptor.trace_requirement,
        denial_behavior: descriptor.denial_behavior,
        prepare_commit_relationship: descriptor.prepare_commit_relationship,
        policy_gate_namespace: descriptor.policy_gate_namespace,
        scope: descriptor.scope,
        trace_status: InteractionEffectRequestTraceStatus::Described,
        trace_reason: InteractionEffectRequestTraceReason::DescriptorRecorded,
    }
}

impl InteractionEffectRequestTraceReport {
    pub fn is_capability_admission(&self) -> (r: bool)
        ensures
            !r,
    {
        false
    }

    pub fn is_prepared_effect(&self) -> (r: bool)
        ensures
            !r,
    {
        false
    }

    pub fn is_committed_effect(&self) -> (r: bool)
        ensures
            !r,
    {
        false
    }

    pub fn is_execution_authority(&self) -> (r: bool)
        ensures
            !r,
    {
        false
    }

    pub fn is_runtime_mutation(&self) -> (r: bool)
        ensures
            !r,
    {
        false
    }

    pub fn is_audit_authority(&self) -> (r: bool)
        ensures
            !r,
    {
        false
    }

    pub fn calls_vm_or_host_abi(&self) -> (r: bool)
        ensures
            !r,
    {
        false
    }
}

} // verus!
