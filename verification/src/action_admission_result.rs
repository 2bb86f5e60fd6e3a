//! Decision outcomes recorded for action admission descriptors.
use vstd::prelude::*;
use crate::action_admission::{
    InteractionActionAdmissionDescriptor, InteractionActionAdmissionDescriptorId,
    InteractionActionAdmissionEffectRelationship, InteractionActionAdmissionPolicyGateNamespace,
    InteractionActionAdmissionTraceRequirement,
};
use crate::action_binding::{InteractionActionBindingId, InteractionActionName};
use crate::interaction::InteractionIntentKind;

verus! {

#[derive(Debug, Clone, Copy, PartialEq, Eq, PartialOrd, Ord, Hash, Structural)]
pub struct InteractionActionAdmissionResultId(pub u64);

#[derive(Debug, Clone, Copy, PartialEq, Eq, Hash, Structural)]
pub enum InteractionActionAdmissionDecisionStatus {
    Admitted,
    Denied,
}

#[derive(Debug, Clone, Copy, PartialEq, Eq, Hash, Structural)]
pub enum InteractionActionAdmissionDenialReason {
    MissingTarget,
    InvalidTargetOwnership,
    LifecycleBlocked,
    CapabilityMissing,
    PolicyDenied,
    EffectBoundaryRequired,
    Unknown,
}

#[derive(Debug, Clone, Copy, PartialEq, Eq, Hash, Structural)]
pub enum InteractionActionAdmissionMissingRequirement {
    Nothing,
    Target,
    TargetOwnership,
    Lifecycle,
    Capability,
    Policy,
    EffectBoundary,
    Unknown,
}

#[derive(Debug, Clone, Copy, PartialEq, Eq, Hash, Structural)]
pub struct InteractionActionAdmissionResult {
    pub id: InteractionActionAdmissionResultId,
    pub descriptor_id: InteractionActionAdmissionDescriptorId,
    pub action: InteractionActionName,
    pub source_intent: InteractionIntentKind,
    pub binding_id: InteractionActionBindingId,
    pub status: InteractionActionAdmissionDecisionStatus,
    pub denial_reason: Option<InteractionActionAdmissionDenialReason>,
    pub missing_requirement: InteractionActionAdmissionMissingRequirement,
    pub trace_requirement: InteractionActionAdmissionTraceRequirement,
    pub effect_relationship: InteractionActionAdmissionEffectRelationship,
    pub policy_gate_namespace: InteractionActionAdmissionPolicyGateNamespace,
}

/// The result recorded for descriptor `d` with the given decision.
pub open spec fn admission_result_for(
    d: InteractionActionAdmissionDescriptor,
    status: InteractionActionAdmissionDecisionStatus,
    denial_reason: Option<InteractionActionAdmissionDenialReason>,
    missing_requirement: InteractionActionAdmissionMissingRequirement,
) -> InteractionActionAdmissionResult {
    InteractionActionAdmissionResult {
        id: InteractionActionAdmissionResultId(d.id.0),
        descriptor_id: d.id,
        action: d.action,
        source_intent: d.source_intent,
        binding_id: d.binding_id,
        status,
        denial_reason,
        missing_requirement,
        trace_requirement: d.trace_requirement,
        effect_relationship: d.effect_relationship,
        policy_gate_namespace: d.policy_gate_namespace,
    }
}

pub fn record_interaction_action_admitted_result(descriptor: &InteractionActionAdmissionDescriptor) -> (r:
    InteractionActionAdmissionResult)
    ensures
        r == admission_result_for(
            *descriptor,
            InteractionActionAdmissionDecisionStatus::Admitted,
            None,
            InteractionActionAdmissionMissingRequirement::Nothing,
        ),
{
    InteractionActionAdmissionResult {
        id: InteractionActionAdmissionResultId(descriptor.id.0),
        descriptor_id: descriptor.id,
        action: descriptor.action,
        source_intent: descriptor.source_intent,
        binding_id: descriptor.binding_id,
        status: InteractionActionAdmissionDecisionStatus::Admitted,
        denial_reason: None,
        missing_requirement: InteractionActionAdmissionMissingRequirement::Nothing,
        trace_requirement: descriptor.trace_requirement,
        effect_relationship: descriptor.effect_relationship,
        policy_gate_namespace: descriptor.policy_gate_namespace,
    }
}

pub fn record_interaction_action_denied_result(
    descriptor: &InteractionActionAdmissionDescriptor,
    reason: InteractionActionAdmissionDenialReason,
    missing_requirement: InteractionActionAdmissionMissingRequirement,
) -> (r: InteractionActionAdmissionResult)
    ensures
        r == admission_result_for(
            *descriptor,
            InteractionActionAdmissionDecisionStatus::Denied,
            Some(reason),
            missing_requirement,
        ),
{
    InteractionActionAdmissionResult {
        id: InteractionActionAdmissionResultId(descriptor.id.0),
        descriptor_id: descriptor.id,
        action: descriptor.action,
        source_intent: descriptor.source_intent,
        binding_id: descriptor.binding_id,
        status: InteractionActionAdmissionDecisionStatus::Denied,
        denial_reason: Some(reason),
        missing_requirement,
        trace_requirement: descriptor.trace_requirement,
        effect_relationship: descriptor.effect_relationship,
        policy_gate_namespace: descriptor.policy_gate_namespace,
    }
}

impl InteractionActionAdmissionResult {
    pub fn is_admitted(&self) -> (r: bool)
        ensures
            r == (self.status == InteractionActionAdmissionDecisionStatus::Admitted),
    {
        matches!(self.status, InteractionActionAdmissionDecisionStatus::Admitted)
    }

    pub fn is_denied(&self) -> (r: bool)
        ensures
            r == (self.status == InteractionActionAdmissionDecisionStatus::Denied),
    {
        matches!(self.status, InteractionActionAdmissionDecisionStatus::Denied)
    }

    /// Every denied result must be made visible through a denial trace.
    pub fn requires_denial_trace(&self) -> (r: bool)
        ensures
            r == (self.status == InteractionActionAdmissionDecisionStatus::Denied),
    {
        self.is_denied()
    }

    pub fn is_execution_authority(&self) -> (r: bool)
        ensures
            !r,
    {
        false
    }
}

} // verus!
