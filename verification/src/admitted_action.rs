//! Typed inert representation of an admitted UI-level operation.
use vstd::prelude::*;
use crate::action_admission::{
    InteractionActionAdmissionDescriptorId, InteractionActionAdmissionEffectRelationship,
    InteractionActionAdmissionPolicyGateNamespace, InteractionActionAdmissionTraceRequirement,
};
use crate::action_admission_result::{
    InteractionActionAdmissionDecisionStatus, InteractionActionAdmissionResult,
    InteractionActionAdmissionResultId,
};
use crate::action_binding::{InteractionActionBindingId, InteractionActionName};
use crate::interaction::InteractionIntentKind;
use crate::action_admission::InteractionActionAdmissionDescriptor;
use crate::action_admission_result::{admission_result_for, InteractionActionAdmissionDenialReason, InteractionActionAdmissionMissingRequirement};
use crate::action_denial_trace::denial_trace_of;

verus! {

#[derive(Debug, Clone, Copy, PartialEq, Eq, PartialOrd, Ord, Hash, Structural)]
pub struct InteractionAdmittedSemanticActionId(pub u64);

#[derive(Debug, Clone, Copy, PartialEq, Eq, Hash, Structural)]
pub enum InteractionAdmittedSemanticActionDispatchReadiness {
    Deferred,
}

#[derive(Debug, Clone, Copy, PartialEq, Eq, Hash, Structural)]
pub enum InteractionAdmittedSemanticActionEffectReadiness {
    NoEffect,
    DeferredEffectBoundary,
}

#[derive(Debug, Clone, Copy, PartialEq, Eq, Hash, Structural)]
pub struct InteractionAdmittedSemanticAction {
    pub id: InteractionAdmittedSemanticActionId,
    pub admission_result_id: InteractionActionAdmissionResultId,
    pub descriptor_id: InteractionActionAdmissionDescriptorId,
    pub action: InteractionActionName,
    pub source_intent: InteractionIntentKind,
    pub binding_id: InteractionActionBindingId,
    pub trace_requirement: InteractionActionAdmissionTraceRequirement,
    pub effect_relationship: InteractionActionAdmissionEffectRelationship,
    pub policy_gate_namespace: InteractionActionAdmissionPolicyGateNamespace,
    pub dispatch_readiness: InteractionAdmittedSemanticActionDispatchReadiness,
    pub effect_readiness: InteractionAdmittedSemanticActionEffectReadiness,
}

/// Any effect relationship other than "no effect" defers to the effect boundary.
pub open spec fn effect_readiness_for(
    rel: InteractionActionAdmissionEffectRelationship,
) -> InteractionAdmittedSemanticActionEffectReadiness {
    if rel == InteractionActionAdmissionEffectRelationship::NoEffect {
        InteractionAdmittedSemanticActionEffectReadiness::NoEffect
    } else {
        InteractionAdmittedSemanticActionEffectReadiness::DeferredEffectBoundary
    }
}

/// Only admitted results become admitted actions.
pub open spec fn admitted_action_of(r: InteractionActionAdmissionResult) -> Option<InteractionAdmittedSemanticAction> {
    if r.status != InteractionActionAdmissionDecisionStatus::Admitted {
        None
    } else {
        Some(InteractionAdmittedSemanticAction {
            id: InteractionAdmittedSemanticActionId(r.id.0),
            admission_result_id: r.id,
            descriptor_id: r.descriptor_id,
            action: r.action,
            source_intent: r.source_intent,
            binding_id: r.binding_id,
            trace_requirement: r.trace_requirement,
            effect_relationship: r.effect_relationship,
            policy_gate_namespace: r.policy_gate_namespace,
            dispatch_readiness: InteractionAdmittedSemanticActionDispatchReadiness::Deferred,
            effect_readiness: effect_readiness_for(r.effect_relationship),
        })
    }
}

pub fn build_interaction_admitted_semantic_action(result: &InteractionActionAdmissionResult) -> (r: Option<
    InteractionAdmittedSemanticAction,
>)
    ensures
        r == admitted_action_of(*result),
{
    if !result.is_admitted() {
        return None;
    }
    Some(InteractionAdmittedSemanticAction {
        id: InteractionAdmittedSemanticActionId(result.id.0),
        admission_result_id: result.id,
        descriptor_id: result.descriptor_id,
        action: result.action,
        source_intent: result.source_intent,
        binding_id: result.binding_id,
        trace_requirement: result.trace_requirement,
        effect_relationship: result.effect_relationship,
        policy_gate_namespace: result.policy_gate_namespace,
        dispatch_readiness: InteractionAdmittedSemanticActionDispatchReadiness::Deferred,
        effect_readiness: map_effect_readiness(result.effect_relationship),
    })
}

fn map_effect_readiness(relationship: InteractionActionAdmissionEffectRelationship) -> (r:
    InteractionAdmittedSemanticActionEffectReadiness)
    ensures
        r == effect_readiness_for(relationship),
{
    match relationship {
        InteractionActionAdmissionEffectRelationship::NoEffect => InteractionAdmittedSemanticActionEffectReadiness::NoEffect,
        InteractionActionAdmissionEffectRelationship::MayRequestEffectAfterAdmission
        | InteractionActionAdmissionEffectRelationship::RequiresSeparateEffectAdmission => InteractionAdmittedSemanticActionEffectReadiness::DeferredEffectBoundary,
    }
}

impl InteractionAdmittedSemanticAction {
    pub fn is_dispatch_authority(&self) -> (r: bool)
        ensures
            !r,
    {
        false
    }

    pub fn is_execution_authority(&self) -> (r: bool)
        ensures
            !r,
    {
        false
    }

    pub fn is_effect_request(&self) -> (r: bool)
        ensures
            !r,
    {
        false
    }

    pub fn is_runtime_mutation(&self) -> (r: bool)
        ensures
            !r,
    {
        false
    }
}

/// No admission result yields both an admitted action and a denial trace.
/// A recorded decision yields exactly one of them: an admitted action when
/// admitted, a denial trace when denied.
pub proof fn lemma_admission_decision_yields_action_or_denial_trace(
    r: InteractionActionAdmissionResult,
    d: InteractionActionAdmissionDescriptor,
    reason: InteractionActionAdmissionDenialReason,
    missing: InteractionActionAdmissionMissingRequirement,
)
    ensures
        !(admitted_action_of(r) is Some && denial_trace_of(r) is Some),
        admitted_action_of(
            admission_result_for(d, InteractionActionAdmissionDecisionStatus::Admitted, None, InteractionActionAdmissionMissingRequirement::Nothing),
        ) is Some,
        denial_trace_of(
            admission_result_for(d, InteractionActionAdmissionDecisionStatus::Admitted, None, InteractionActionAdmissionMissingRequirement::Nothing),
        ) is None,
        admitted_action_of(admission_result_for(d, InteractionActionAdmissionDecisionStatus::Denied, Some(reason), missing)) is None,
        denial_trace_of(admission_result_for(d, InteractionActionAdmissionDecisionStatus::Denied, Some(reason), missing)) is Some,
{
}

} // verus!
