//! Admission descriptors: the checks that an action candidate would have to
//! pass before it may become an admitted Semantic UI action.
use vstd::prelude::*;
use crate::action_binding::{
    binding_for_action, find_interaction_action_binding_by_action, InteractionActionBindingId,
    InteractionActionBindingScope, InteractionActionEffectPolicy, InteractionActionName,
    InteractionActionTargetPolicy, InteractionActionTracePolicy,
};
use crate::action_binding_trace::{InteractionActionBindingTraceReport, InteractionActionBindingTraceStatus};
use crate::interaction::InteractionIntentKind;

verus! {

#[derive(Debug, Clone, Copy, PartialEq, Eq, PartialOrd, Ord, Hash, Structural)]
pub struct InteractionActionAdmissionDescriptorId(pub u64);

#[derive(Debug, Clone, Copy, PartialEq, Eq, Hash, Structural)]
pub enum InteractionActionAdmissionTargetRequirement {
    Required,
    OptionalMayResolveLater,
    Ignored,
}

#[derive(Debug, Clone, Copy, PartialEq, Eq, Hash, Structural)]
pub enum InteractionActionAdmissionTargetOwnershipRequirement {
    RequiredWhenTargetPresent,
    NotRequired,
}

#[derive(Debug, Clone, Copy, PartialEq, Eq, Hash, Structural)]
pub enum InteractionActionAdmissionLifecycleRequirement {
    Nothing,
    SessionActive,
    WindowAlive,
    SurfaceReady,
    FrameOpen,
    RuntimeNotQuarantined,
}

#[derive(Debug, Clone, Copy, PartialEq, Eq, Hash, Structural)]
pub enum InteractionActionAdmissionCapabilityRequirement {
    Nothing,
    DesktopSession,
    InputPoll,
    FrameEmit,
    FutureActionSpecific,
    FutureEffectSpecific,
}

#[derive(Debug, Clone, Copy, PartialEq, Eq, Hash, Structural)]
pub enum InteractionActionAdmissionTraceRequirement {
    Required,
    OptionalForDecorativeOnly,
}

#[derive(Debug, Clone, Copy, PartialEq, Eq, Hash, Structural)]
pub enum InteractionActionAdmissionEffectRelationship {
    NoEffect,
    MayRequestEffectAfterAdmission,
    RequiresSeparateEffectAdmission,
}

#[derive(Debug, Clone, Copy, PartialEq, Eq, Hash, Structural)]
pub enum InteractionActionAdmissionDenialVisibility {
    Required,
}

#[derive(Debug, Clone, Copy, PartialEq, Eq, Hash, Structural)]
pub enum InteractionActionAdmissionPolicyGateNamespace {
    CoreUi,
    WorkbenchLocal,
    DiagnosticOnly,
}

#[derive(Debug, Clone, Copy, PartialEq, Eq, Hash, Structural)]
pub enum InteractionActionAdmissionFutureResultShape {
    AdmitOrDenyWithReason,
}

#[derive(Debug, Clone, Copy, PartialEq, Eq, Hash, Structural)]
pub struct InteractionActionAdmissionDescriptor {
    pub id: InteractionActionAdmissionDescriptorId,
    pub action: InteractionActionName,
    pub source_intent: InteractionIntentKind,
    pub binding_id: InteractionActionBindingId,
    pub target_requirement: InteractionActionAdmissionTargetRequirement,
    pub target_ownership_requirement: InteractionActionAdmissionTargetOwnershipRequirement,
    pub lifecycle_requirement: InteractionActionAdmissionLifecycleRequirement,
    pub capability_requirement: InteractionActionAdmissionCapabilityRequirement,
    pub trace_requirement: InteractionActionAdmissionTraceRequirement,
    pub effect_relationship: InteractionActionAdmissionEffectRelationship,
    pub denial_visibility: InteractionActionAdmissionDenialVisibility,
    pub policy_gate_namespace: InteractionActionAdmissionPolicyGateNamespace,
    pub future_result_shape: InteractionActionAdmissionFutureResultShape,
}

pub open spec fn target_requirement_for(p: InteractionActionTargetPolicy) -> InteractionActionAdmissionTargetRequirement {
    match p {
        InteractionActionTargetPolicy::RequiresTarget => InteractionActionAdmissionTargetRequirement::Required,
        InteractionActionTargetPolicy::AllowsMissingTarget => InteractionActionAdmissionTargetRequirement::OptionalMayResolveLater,
        InteractionActionTargetPolicy::IgnoresTarget => InteractionActionAdmissionTargetRequirement::Ignored,
    }
}

/// Ownership must be checked whenever a target may be present.
pub open spec fn target_ownership_requirement_for(
    p: InteractionActionTargetPolicy,
) -> InteractionActionAdmissionTargetOwnershipRequirement {
    if p == InteractionActionTargetPolicy::IgnoresTarget {
        InteractionActionAdmissionTargetOwnershipRequirement::NotRequired
    } else {
        InteractionActionAdmissionTargetOwnershipRequirement::RequiredWhenTargetPresent
    }
}

pub open spec fn trace_requirement_for(p: InteractionActionTracePolicy) -> InteractionActionAdmissionTraceRequirement {
    match p {
        InteractionActionTracePolicy::Required => InteractionActionAdmissionTraceRequirement::Required,
        InteractionActionTracePolicy::OptionalForDecorativeOnly => InteractionActionAdmissionTraceRequirement::OptionalForDecorativeOnly,
    }
}

pub open spec fn effect_relationship_for(p: InteractionActionEffectPolicy) -> InteractionActionAdmissionEffectRelationship {
    match p {
        InteractionActionEffectPolicy::NoEffect => InteractionActionAdmissionEffectRelationship::NoEffect,
        InteractionActionEffectPolicy::MayRequestEffect => InteractionActionAdmissionEffectRelationship::MayRequestEffectAfterAdmission,
        InteractionActionEffectPolicy::RequiresSeparateEffectAdmission => InteractionActionAdmissionEffectRelationship::RequiresSeparateEffectAdmission,
    }
}

/// Closing needs the desktop session; the inspection and navigation actions
/// need input polling; everything else waits for an action-specific
/// capability.
pub open spec fn capability_requirement_for(a: InteractionActionName) -> InteractionActionAdmissionCapabilityRequirement {
    match a {
        InteractionActionName::CloseWindow => InteractionActionAdmissionCapabilityRequirement::DesktopSession,
        InteractionActionName::SelectTraceEvent
        | InteractionActionName::FocusModule
        | InteractionActionName::OpenInspector
        | InteractionActionName::AcknowledgeError
        | InteractionActionName::OpenDenialReason
        | InteractionActionName::PinTrace => InteractionActionAdmissionCapabilityRequirement::InputPoll,
        _ => InteractionActionAdmissionCapabilityRequirement::FutureActionSpecific,
    }
}

pub open spec fn policy_gate_namespace_for(s: InteractionActionBindingScope) -> InteractionActionAdmissionPolicyGateNamespace {
    match s {
        InteractionActionBindingScope::CoreUi => InteractionActionAdmissionPolicyGateNamespace::CoreUi,
        InteractionActionBindingScope::WorkbenchLocal => InteractionActionAdmissionPolicyGateNamespace::WorkbenchLocal,
        InteractionActionBindingScope::DiagnosticOnly => InteractionActionAdmissionPolicyGateNamespace::DiagnosticOnly,
    }
}

/// A binding trace yields a descriptor exactly when it is bound, carries all
/// binding fields, its action is registered, and the registered binding is
/// not diagnostic-only.
pub open spec fn admission_descriptor_of(t: InteractionActionBindingTraceReport) -> Option<
    InteractionActionAdmissionDescriptor,
> {
    if t.binding_status != InteractionActionBindingTraceStatus::Bound || t.binding_id is None
        || t.action is None || t.target_policy is None || t.effect_policy is None
        || t.trace_policy is None {
        None
    } else {
        match binding_for_action(t.action->0) {
            None => None,
            Some(b) => if b.scope == InteractionActionBindingScope::DiagnosticOnly {
                None
            } else {
                Some(InteractionActionAdmissionDescriptor {
                    id: InteractionActionAdmissionDescriptorId((t.binding_id->0).0),
                    action: t.action->0,
                    source_intent: t.intent_kind,
                    binding_id: t.binding_id->0,
                    target_requirement: target_requirement_for(t.target_policy->0),
                    target_ownership_requirement: target_ownership_requirement_for(t.target_policy->0),
                    lifecycle_requirement: InteractionActionAdmissionLifecycleRequirement::SessionActive,
                    capability_requirement: capability_requirement_for(t.action->0),
                    trace_requirement: trace_requirement_for(t.trace_policy->0),
                    effect_relationship: effect_relationship_for(t.effect_policy->0),
                    denial_visibility: InteractionActionAdmissionDenialVisibility::Required,
                    policy_gate_namespace: policy_gate_namespace_for(b.scope),
                    future_result_shape: InteractionActionAdmissionFutureResultShape::AdmitOrDenyWithReason,
                })
            },
        }
    }
}

pub fn describe_interaction_action_admission(binding_trace: &InteractionActionBindingTraceReport) -> (r:
    Option<InteractionActionAdmissionDescriptor>)
    ensures
        r == admission_descriptor_of(*binding_trace),
{
    if !matches!(binding_trace.binding_status, InteractionActionBindingTraceStatus::Bound) {
        return None;
    }
    let (binding_id, action, target_policy, effect_policy, trace_policy) = match (
        binding_trace.binding_id,
        binding_trace.action,
        binding_trace.target_policy,
        binding_trace.effect_policy,
        binding_trace.trace_policy,
    ) {
        (Some(b), Some(a), Some(t), Some(e), Some(tr)) => (b, a, t, e, tr),
        _ => {
            return None;
        },
    };
    let binding = match find_interaction_action_binding_by_action(action) {
        Some(b) => b,
        None => {
            return None;
        },
    };
    if matches!(binding.scope, InteractionActionBindingScope::DiagnosticOnly) {
        return None;
    }
    Some(InteractionActionAdmissionDescriptor {
        id: InteractionActionAdmissionDescriptorId(binding_id.0),
        action,
        source_intent: binding_trace.intent_kind,
        binding_id,
        target_requirement: map_target_requirement(target_policy),
        target_ownership_requirement: map_target_ownership_requirement(target_policy),
        lifecycle_requirement: InteractionActionAdmissionLifecycleRequirement::SessionActive,
        capability_requirement: map_capability_requirement(action),
        trace_requirement: map_trace_requirement(trace_policy),
        effect_relationship: map_effect_relationship(effect_policy),
        denial_visibility: InteractionActionAdmissionDenialVisibility::Required,
        policy_gate_namespace: map_policy_gate_namespace(binding.scope),
        future_result_shape: InteractionActionAdmissionFutureResultShape::AdmitOrDenyWithReason,
    })
}

fn map_target_requirement(policy: InteractionActionTargetPolicy) -> (r: InteractionActionAdmissionTargetRequirement)
    ensures
        r == target_requirement_for(policy),
{
    match policy {
        InteractionActionTargetPolicy::RequiresTarget => InteractionActionAdmissionTargetRequirement::Required,
        InteractionActionTargetPolicy::AllowsMissingTarget => InteractionActionAdmissionTargetRequirement::OptionalMayResolveLater,
        InteractionActionTargetPolicy::IgnoresTarget => InteractionActionAdmissionTargetRequirement::Ignored,
    }
}

fn map_target_ownership_requirement(policy: InteractionActionTargetPolicy) -> (r:
    InteractionActionAdmissionTargetOwnershipRequirement)
    ensures
        r == target_ownership_requirement_for(policy),
{
    match policy {
        InteractionActionTargetPolicy::RequiresTarget
        | InteractionActionTargetPolicy::AllowsMissingTarget => InteractionActionAdmissionTargetOwnershipRequirement::RequiredWhenTargetPresent,
        InteractionActionTargetPolicy::IgnoresTarget => InteractionActionAdmissionTargetOwnershipRequirement::NotRequired,
    }
}

fn map_trace_requirement(policy: InteractionActionTracePolicy) -> (r: InteractionActionAdmissionTraceRequirement)
    ensures
        r == trace_requirement_for(policy),
{
    match policy {
        InteractionActionTracePolicy::Required => InteractionActionAdmissionTraceRequirement::Required,
        InteractionActionTracePolicy::OptionalForDecorativeOnly => InteractionActionAdmissionTraceRequirement::OptionalForDecorativeOnly,
    }
}

fn map_effect_relationship(policy: InteractionActionEffectPolicy) -> (r: InteractionActionAdmissionEffectRelationship)
    ensures
        r == effect_relationship_for(policy),
{
    match policy {
        InteractionActionEffectPolicy::NoEffect => InteractionActionAdmissionEffectRelationship::NoEffect,
        InteractionActionEffectPolicy::MayRequestEffect => InteractionActionAdmissionEffectRelationship::MayRequestEffectAfterAdmission,
        InteractionActionEffectPolicy::RequiresSeparateEffectAdmission => InteractionActionAdmissionEffectRelationship::RequiresSeparateEffectAdmission,
    }
}

fn map_capability_requirement(action: InteractionActionName) -> (r: InteractionActionAdmissionCapabilityRequirement)
    ensures
        r == capability_requirement_for(action),
{
    match action {
        InteractionActionName::CloseWindow => InteractionActionAdmissionCapabilityRequirement::DesktopSession,
        InteractionActionName::SelectTraceEvent
        | InteractionActionName::FocusModule
        | InteractionActionName::OpenInspector
        | InteractionActionName::AcknowledgeError
        | InteractionActionName::OpenDenialReason
        | InteractionActionName::PinTrace => InteractionActionAdmissionCapabilityRequirement::InputPoll,
        InteractionActionName::ExpandCapabilityGate
        | InteractionActionName::PrepareEffect
        | InteractionActionName::CommitEffect
        | InteractionActionName::RollbackEffect
        | InteractionActionName::QuarantineTarget => InteractionActionAdmissionCapabilityRequirement::FutureActionSpecific,
        InteractionActionName::Unknown => InteractionActionAdmissionCapabilityRequirement::FutureActionSpecific,
    }
}

fn map_policy_gate_namespace(scope: InteractionActionBindingScope) -> (r: InteractionActionAdmissionPolicyGateNamespace)
    ensures
        r == policy_gate_namespace_for(scope),
{
    match scope {
        InteractionActionBindingScope::CoreUi => InteractionActionAdmissionPolicyGateNamespace::CoreUi,
        InteractionActionBindingScope::WorkbenchLocal => InteractionActionAdmissionPolicyGateNamespace::WorkbenchLocal,
        InteractionActionBindingScope::DiagnosticOnly => InteractionActionAdmissionPolicyGateNamespace::DiagnosticOnly,
    }
}

} // verus!
