//! Route metadata for a future dispatcher of admitted semantic actions.
use vstd::prelude::*;
use crate::action_admission::{
    InteractionActionAdmissionEffectRelationship, InteractionActionAdmissionPolicyGateNamespace,
    InteractionActionAdmissionTraceRequirement,
};
use crate::action_binding::{InteractionActionBindingId, InteractionActionName};
use crate::admitted_action::{
    InteractionAdmittedSemanticAction, InteractionAdmittedSemanticActionEffectReadiness,
    InteractionAdmittedSemanticActionId,
};
use crate::interaction::InteractionIntentKind;

verus! {

#[derive(Debug, Clone, Copy, PartialEq, Eq, PartialOrd, Ord, Hash, Structural)]
pub struct InteractionSemanticActionDispatchRouteId(pub u64);

#[derive(Debug, Clone, Copy, PartialEq, Eq, Hash, Structural)]
pub enum InteractionSemanticActionDispatchRouteKind {
    NoopSemanticRecord,
    LocalUiStateCandidate,
    EffectRequestCandidate,
    WorkbenchLocalCandidate,
    DiagnosticOnlyCandidate,
    Unknown,
}

#[derive(Debug, Clone, Copy, PartialEq, Eq, Hash, Structural)]
pub enum InteractionSemanticActionDispatchEffectEligibility {
    NoEffect,
    RequiresFutureEffectBoundary,
}

#[derive(Debug, Clone, Copy, PartialEq, Eq, Hash, Structural)]
pub struct InteractionSemanticActionDispatchRouteDescriptor {
    pub id: InteractionSemanticActionDispatchRouteId,
    pub admitted_action_id: InteractionAdmittedSemanticActionId,
    pub action: InteractionActionName,
    pub source_intent: InteractionIntentKind,
    pub binding_id: InteractionActionBindingId,
    pub route: InteractionSemanticActionDispatchRouteKind,
    pub trace_requirement: InteractionActionAdmissionTraceRequirement,
    pub effect_relationship: InteractionActionAdmissionEffectRelationship,
    pub policy_gate_namespace: InteractionActionAdmissionPolicyGateNamespace,
    pub effect_eligibility: InteractionSemanticActionDispatchEffectEligibility,
}

pub open spec fn effect_eligibility_for(
    r: InteractionAdmittedSemanticActionEffectReadiness,
) -> InteractionSemanticActionDispatchEffectEligibility {
    match r {
        InteractionAdmittedSemanticActionEffectReadiness::NoEffect => InteractionSemanticActionDispatchEffectEligibility::NoEffect,
        InteractionAdmittedSemanticActionEffectReadiness::DeferredEffectBoundary => InteractionSemanticActionDispatchEffectEligibility::RequiresFutureEffectBoundary,
    }
}

/// Core-UI actions without effects: local state changes, the inspector, or
/// effect candidates for the effect-bearing action names.
pub open spec fn core_ui_no_effect_route_for(a: InteractionActionName) -> InteractionSemanticActionDispatchRouteKind {
    match a {
        InteractionActionName::CloseWindow
        | InteractionActionName::SelectTraceEvent
        | InteractionActionName::FocusModule
        | InteractionActionName::AcknowledgeError
        | InteractionActionName::PinTrace
        | InteractionActionName::OpenDenialReason => InteractionSemanticActionDispatchRouteKind::LocalUiStateCandidate,
        InteractionActionName::OpenInspector => InteractionSemanticActionDispatchRouteKind::WorkbenchLocalCandidate,
        InteractionActionName::Unknown => InteractionSemanticActionDispatchRouteKind::Unknown,
        _ => InteractionSemanticActionDispatchRouteKind::EffectRequestCandidate,
    }
}

/// Deferred effects always route to the effect boundary; otherwise the
/// policy gate decides, and core-UI actions are routed by name.
pub open spec fn dispatch_route_for(
    a: InteractionActionName,
    ns: InteractionActionAdmissionPolicyGateNamespace,
    r: InteractionAdmittedSemanticActionEffectReadiness,
) -> InteractionSemanticActionDispatchRouteKind {
    if r == InteractionAdmittedSemanticActionEffectReadiness::DeferredEffectBoundary {
        InteractionSemanticActionDispatchRouteKind::EffectRequestCandidate
    } else {
        match ns {
            InteractionActionAdmissionPolicyGateNamespace::WorkbenchLocal => InteractionSemanticActionDispatchRouteKind::WorkbenchLocalCandidate,
            InteractionActionAdmissionPolicyGateNamespace::DiagnosticOnly => InteractionSemanticActionDispatchRouteKind::DiagnosticOnlyCandidate,
            InteractionActionAdmissionPolicyGateNamespace::CoreUi => core_ui_no_effect_route_for(a),
        }
    }
}

pub open spec fn dispatch_route_of(a: InteractionAdmittedSemanticAction) -> InteractionSemanticActionDispatchRouteDescriptor {
    InteractionSemanticActionDispatchRouteDescriptor {
        id: InteractionSemanticActionDispatchRouteId(a.id.0),
        admitted_action_id: a.id,
        action: a.action,
        source_intent: a.source_intent,
        binding_id: a.binding_id,
        route: dispatch_route_for(a.action, a.policy_gate_namespace, a.effect_readiness),
        trace_requirement: a.trace_requirement,
        effect_relationship: a.effect_relationship,
        policy_gate_namespace: a.policy_gate_namespace,
        effect_eligibility: effect_eligibility_for(a.effect_readiness),
    }
}

pub fn describe_interaction_semantic_action_dispatch_route(action: &InteractionAdmittedSemanticAction) -> (r:
    InteractionSemanticActionDispatchRouteDescriptor)
    ensures
        r == dispatch_route_of(*action),
{
    InteractionSemanticActionDispatchRouteDescriptor {
        id: InteractionSemanticActionDispatchRouteId(action.id.0),
        admitted_action_id: action.id,
        action: action.action,
        source_intent: action.source_intent,
        binding_id: action.binding_id,
        route: map_dispatch_route(action.action, action.policy_gate_namespace, action.effect_readiness),
        trace_requirement: action.trace_requirement,
        effect_relationship: action.effect_relationship,
        policy_gate_namespace: action.policy_gate_namespace,
        effect_eligibility: map_effect_eligibility(action.effect_readiness),
    }
}

fn map_effect_eligibility(readiness: InteractionAdmittedSemanticActionEffectReadiness) -> (r:
    InteractionSemanticActionDispatchEffectEligibility)
    ensures
        r == effect_eligibility_for(readiness),
{
    match readiness {
        InteractionAdmittedSemanticActionEffectReadiness::NoEffect => InteractionSemanticActionDispatchEffectEligibility::NoEffect,
        InteractionAdmittedSemanticActionEffectReadiness::DeferredEffectBoundary => InteractionSemanticActionDispatchEffectEligibility::RequiresFutureEffectBoundary,
    }
}

fn map_dispatch_route(
    action: InteractionActionName,
    policy_gate_namespace: InteractionActionAdmissionPolicyGateNamespace,
    effect_readiness: InteractionAdmittedSemanticActionEffectReadiness,
) -> (r: InteractionSemanticActionDispatchRouteKind)
    ensures
        r == dispatch_route_for(action, policy_gate_namespace, effect_readiness),
{
    match effect_readiness {
        InteractionAdmittedSemanticActionEffectReadiness::DeferredEffectBoundary => InteractionSemanticActionDispatchRouteKind::EffectRequestCandidate,
        InteractionAdmittedSemanticActionEffectReadiness::NoEffect => match policy_gate_namespace {
            InteractionActionAdmissionPolicyGateNamespace::WorkbenchLocal => InteractionSemanticActionDispatchRouteKind::WorkbenchLocalCandidate,
            InteractionActionAdmissionPolicyGateNamespace::DiagnosticOnly => InteractionSemanticActionDispatchRouteKind::DiagnosticOnlyCandidate,
            InteractionActionAdmissionPolicyGateNamespace::CoreUi => map_core_ui_no_effect_route(action),
        },
    }
}

fn map_core_ui_no_effect_route(action: InteractionActionName) -> (r: InteractionSemanticActionDispatchRouteKind)
    ensures
        r == core_ui_no_effect_route_for(action),
{
    match action {
        InteractionActionName::CloseWindow
        | InteractionActionName::SelectTraceEvent
        | InteractionActionName::FocusModule
        | InteractionActionName::AcknowledgeError
        | InteractionActionName::PinTrace
        | InteractionActionName::OpenDenialReason => InteractionSemanticActionDispatchRouteKind::LocalUiStateCandidate,
        InteractionActionName::OpenInspector => InteractionSemanticActionDispatchRouteKind::WorkbenchLocalCandidate,
        InteractionActionName::ExpandCapabilityGate
        | InteractionActionName::PrepareEffect
        | InteractionActionName::CommitEffect
        | InteractionActionName::RollbackEffect
        | InteractionActionName::QuarantineTarget => InteractionSemanticActionDispatchRouteKind::EffectRequestCandidate,
        InteractionActionName::Unknown => InteractionSemanticActionDispatchRouteKind::Unknown,
    }
}

impl InteractionSemanticActionDispatchRouteDescriptor {
    pub fn is_dispatch_record(&self) -> (r: bool)
        ensures
            !r,
    {
        false
    }

    pub fn is_execution_authority(&self) -> (r: bool)
        ensures
            !r,
    {
        false
    }

    pub fn is_effect_request(&self) -> (r: bool)
        ensures
            !r,
    {
        false
    }

    pub fn is_runtime_mutation(&self) -> (r: bool)
        ensures
            !r,
    {
        false
    }
}

/// An action without an effect goes to the effect boundary only when it is
/// one of the effect-bearing actions: expanding a capability gate, or
/// preparing, committing or rolling back an effect, or quarantining a
/// target, admitted under the core-UI gate. The core-UI actions that only
/// change local state (closing a window, selecting a trace event, focusing a
/// module, acknowledging an error, pinning a trace, opening a denial reason)
/// route to local UI state, and an action deferred to the effect boundary
/// always routes there. Without an effect, the workbench-local and
/// diagnostic-only gates route to their own candidates. The route's effect
/// eligibility follows the readiness.
pub proof fn lemma_no_effect_actions_stay_local(a: InteractionAdmittedSemanticAction)
    ensures
        dispatch_route_of(a).effect_eligibility == InteractionSemanticActionDispatchEffectEligibility::NoEffect
            <==> a.effect_readiness == InteractionAdmittedSemanticActionEffectReadiness::NoEffect,
        a.effect_readiness == InteractionAdmittedSemanticActionEffectReadiness::DeferredEffectBoundary
            ==> dispatch_route_of(a).route == InteractionSemanticActionDispatchRouteKind::EffectRequestCandidate,
        a.effect_readiness == InteractionAdmittedSemanticActionEffectReadiness::NoEffect
            && dispatch_route_of(a).route == InteractionSemanticActionDispatchRouteKind::EffectRequestCandidate ==> {
            &&& a.policy_gate_namespace == InteractionActionAdmissionPolicyGateNamespace::CoreUi
            &&& (a.action is ExpandCapabilityGate || a.action is PrepareEffect || a.action is CommitEffect || a.action is RollbackEffect
                || a.action is QuarantineTarget)
        },
        a.effect_readiness == InteractionAdmittedSemanticActionEffectReadiness::NoEffect
            && a.policy_gate_namespace == InteractionActionAdmissionPolicyGateNamespace::CoreUi
            && (a.action is CloseWindow || a.action is SelectTraceEvent || a.action is FocusModule || a.action is AcknowledgeError
            || a.action is PinTrace || a.action is OpenDenialReason)
            ==> dispatch_route_of(a).route == InteractionSemanticActionDispatchRouteKind::LocalUiStateCandidate,
        a.effect_readiness == InteractionAdmittedSemanticActionEffectReadiness::NoEffect
            && a.policy_gate_namespace == InteractionActionAdmissionPolicyGateNamespace::WorkbenchLocal
            ==> dispatch_route_of(a).route == InteractionSemanticActionDispatchRouteKind::WorkbenchLocalCandidate,
        a.effect_readiness == InteractionAdmittedSemanticActionEffectReadiness::NoEffect
            && a.policy_gate_namespace == InteractionActionAdmissionPolicyGateNamespace::DiagnosticOnly
            ==> dispatch_route_of(a).route == InteractionSemanticActionDispatchRouteKind::DiagnosticOnlyCandidate,
{
}

} // verus!
