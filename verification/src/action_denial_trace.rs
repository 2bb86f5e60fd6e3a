//! Visible denial traces for denied admission results.
use vstd::prelude::*;
use crate::action_admission::{
    InteractionActionAdmissionDescriptorId, InteractionActionAdmissionEffectRelationship,
    InteractionActionAdmissionPolicyGateNamespace, InteractionActionAdmissionTraceRequirement,
};
use crate::action_admission_result::{
    InteractionActionAdmissionDecisionStatus, InteractionActionAdmissionDenialReason,
    InteractionActionAdmissionMissingRequirement, InteractionActionAdmissionResult,
    InteractionActionAdmissionResultId,
};
use crate::action_binding::{InteractionActionBindingId, InteractionActionName};
use crate::interaction::InteractionIntentKind;

verus! {

#[derive(Debug, Clone, Copy, PartialEq, Eq, PartialOrd, Ord, Hash, Structural)]
pub struct InteractionActionDenialTraceId(pub u64);

#[derive(Debug, Clone, Copy, PartialEq, Eq, Hash, Structural)]
pub enum InteractionActionDenialRetryHint {
    NotUseful,
    UsefulAfterTargetChange,
    UsefulAfterLifecycleChange,
    UsefulAfterCapabilityChange,
    UsefulAfterPolicyChange,
    Unknown,
}

#[derive(Debug, Clone, Copy, PartialEq, Eq, Hash, Structural)]
pub struct InteractionActionDenialTrace {
    pub id: InteractionActionDenialTraceId,
    pub result_id: InteractionActionAdmissionResultId,
    pub descriptor_id: InteractionActionAdmissionDescriptorId,
    pub action: InteractionActionName,
    pub source_intent: InteractionIntentKind,
    pub binding_id: InteractionActionBindingId,
    pub denial_reason: InteractionActionAdmissionDenialReason,
    pub missing_requirement: InteractionActionAdmissionMissingRequirement,
    pub trace_requirement: InteractionActionAdmissionTraceRequirement,
    pub effect_relationship: InteractionActionAdmissionEffectRelationship,
    pub policy_gate_namespace: InteractionActionAdmissionPolicyGateNamespace,
    pub retry_hint: InteractionActionDenialRetryHint,
}

/// Whether retrying can help depends on which requirement was missing.
pub open spec fn retry_hint_for(m: InteractionActionAdmissionMissingRequirement) -> InteractionActionDenialRetryHint {
    match m {
        InteractionActionAdmissionMissingRequirement::Target
        | InteractionActionAdmissionMissingRequirement::TargetOwnership => InteractionActionDenialRetryHint::UsefulAfterTargetChange,
        InteractionActionAdmissionMissingRequirement::Lifecycle => InteractionActionDenialRetryHint::UsefulAfterLifecycleChange,
        InteractionActionAdmissionMissingRequirement::Capability => InteractionActionDenialRetryHint::UsefulAfterCapabilityChange,
        InteractionActionAdmissionMissingRequirement::Policy => InteractionActionDenialRetryHint::UsefulAfterPolicyChange,
        InteractionActionAdmissionMissingRequirement::EffectBoundary
        | InteractionActionAdmissionMissingRequirement::Nothing => InteractionActionDenialRetryHint::NotUseful,
        InteractionActionAdmissionMissingRequirement::Unknown => InteractionActionDenialRetryHint::Unknown,
    }
}

/// A trace exists exactly for denied results that carry a denial reason.
pub open spec fn denial_trace_of(r: InteractionActionAdmissionResult) -> Option<InteractionActionDenialTrace> {
    if r.status != InteractionActionAdmissionDecisionStatus::Denied || r.denial_reason is None {
        None
    } else {
        Some(InteractionActionDenialTrace {
            id: InteractionActionDenialTraceId(r.id.0),
            result_id: r.id,
            descriptor_id: r.descriptor_id,
            action: r.action,
            source_intent: r.source_intent,
            binding_id: r.binding_id,
            denial_reason: r.denial_reason->0,
            missing_requirement: r.missing_requirement,
            trace_requirement: r.trace_requirement,
            effect_relationship: r.effect_relationship,
            policy_gate_namespace: r.policy_gate_namespace,
            retry_hint: retry_hint_for(r.missing_requirement),
        })
    }
}

pub fn trace_interaction_action_denial(result: &InteractionActionAdmissionResult) -> (r: Option<
    InteractionActionDenialTrace,
>)
    ensures
        r == denial_trace_of(*result),
{
    if !result.is_denied() {
        return None;
    }
    let denial_reason = match result.denial_reason {
        Some(d) => d,
        None => {
            return None;
        },
    };
    Some(InteractionActionDenialTrace {
        id: InteractionActionDenialTraceId(result.id.0),
        result_id: result.id,
        descriptor_id: result.descriptor_id,
        action: result.action,
        source_intent: result.source_intent,
        binding_id: result.binding_id,
        denial_reason,
        missing_requirement: result.missing_requirement,
        trace_requirement: result.trace_requirement,
        effect_relationship: result.effect_relationship,
        policy_gate_namespace: result.policy_gate_namespace,
        retry_hint: retry_hint_for_missing_requirement(result.missing_requirement),
    })
}

fn retry_hint_for_missing_requirement(missing: InteractionActionAdmissionMissingRequirement) -> (r:
    InteractionActionDenialRetryHint)
    ensures
        r == retry_hint_for(missing),
{
    match missing {
        InteractionActionAdmissionMissingRequirement::Target
        | InteractionActionAdmissionMissingRequirement::TargetOwnership => InteractionActionDenialRetryHint::UsefulAfterTargetChange,
        InteractionActionAdmissionMissingRequirement::Lifecycle => InteractionActionDenialRetryHint::UsefulAfterLifecycleChange,
        InteractionActionAdmissionMissingRequirement::Capability => InteractionActionDenialRetryHint::UsefulAfterCapabilityChange,
        InteractionActionAdmissionMissingRequirement::Policy => InteractionActionDenialRetryHint::UsefulAfterPolicyChange,
        InteractionActionAdmissionMissingRequirement::EffectBoundary
        | InteractionActionAdmissionMissingRequirement::Nothing => InteractionActionDenialRetryHint::NotUseful,
        InteractionActionAdmissionMissingRequirement::Unknown => InteractionActionDenialRetryHint::Unknown,
    }
}

impl InteractionActionDenialTrace {
    pub fn is_audit_authority(&self) -> (r: bool)
        ensures
            !r,
    {
        false
    }

    pub fn is_execution_authority(&self) -> (r: bool)
        ensures
            !r,
    {
        false
    }

    pub fn is_runtime_mutation(&self) -> (r: bool)
        ensures
            !r,
    {
        false
    }
}

} // verus!
