//! Explains whether an interaction intent trace has a matching action binding
//! candidate in the registry.
use vstd::prelude::*;
use crate::action_binding::{
    binding_for_intent, find_interaction_action_binding_by_intent,
    InteractionActionAdmissionPolicy, InteractionActionBindingDescriptor,
    InteractionActionBindingId, InteractionActionEffectPolicy, InteractionActionName,
    InteractionActionTargetPolicy, InteractionActionTracePolicy,
};
use crate::interaction::{InteractionIntentId, InteractionIntentKind};
use crate::trace::{InteractionIntentTraceReport, InteractionIntentTraceStatus};

verus! {

#[derive(Debug, Clone, Copy, PartialEq, Eq, Hash, Structural)]
pub enum InteractionActionBindingTraceStatus {
    Bound,
    Unbound,
}

#[derive(Debug, Clone, Copy, PartialEq, Eq, Hash, Structural)]
pub enum InteractionActionBindingTraceReason {
    BindingFound,
    IntentUnclassified,
    NoBindingForIntent,
    BindingRequiresTarget,
    BindingAllowsMissingTarget,
    BindingIgnoresTarget,
}

#[derive(Debug, Clone, Copy, PartialEq, Eq, Hash, Structural)]
pub struct InteractionActionBindingTraceReport {
    pub intent_id: InteractionIntentId,
    pub intent_kind: InteractionIntentKind,
    pub intent_status: InteractionIntentTraceStatus,
    pub binding_status: InteractionActionBindingTraceStatus,
    pub reason: InteractionActionBindingTraceReason,
    pub binding_id: Option<InteractionActionBindingId>,
    pub action: Option<InteractionActionName>,
    pub target_policy: Option<InteractionActionTargetPolicy>,
    pub admission_policy: Option<InteractionActionAdmissionPolicy>,
    pub effect_policy: Option<InteractionActionEffectPolicy>,
    pub trace_policy: Option<InteractionActionTracePolicy>,
}

/// The reason recorded for a found binding follows its target policy.
pub open spec fn binding_reason(policy: InteractionActionTargetPolicy) -> InteractionActionBindingTraceReason {
    match policy {
        InteractionActionTargetPolicy::RequiresTarget => InteractionActionBindingTraceReason::BindingRequiresTarget,
        InteractionActionTargetPolicy::AllowsMissingTarget => InteractionActionBindingTraceReason::BindingAllowsMissingTarget,
        InteractionActionTargetPolicy::IgnoresTarget => InteractionActionBindingTraceReason::BindingIgnoresTarget,
    }
}

pub open spec fn bound_binding_report(
    t: InteractionIntentTraceReport,
    b: InteractionActionBindingDescriptor,
) -> InteractionActionBindingTraceReport {
    InteractionActionBindingTraceReport {
        intent_id: t.intent_id,
        intent_kind: t.intent_kind,
        intent_status: t.status,
        binding_status: InteractionActionBindingTraceStatus::Bound,
        reason: binding_reason(b.target_policy),
        binding_id: Some(b.id),
        action: Some(b.action),
        target_policy: Some(b.target_policy),
        admission_policy: Some(b.admission_policy),
        effect_policy: Some(b.effect_policy),
        trace_policy: Some(b.trace_policy),
    }
}

pub open spec fn unbound_binding_report(
    t: InteractionIntentTraceReport,
    reason: InteractionActionBindingTraceReason,
) -> InteractionActionBindingTraceReport {
    InteractionActionBindingTraceReport {
        intent_id: t.intent_id,
        intent_kind: t.intent_kind,
        intent_status: t.status,
        binding_status: InteractionActionBindingTraceStatus::Unbound,
        reason,
        binding_id: None,
        action: None,
        target_policy: None,
        admission_policy: None,
        effect_policy: None,
        trace_policy: None,
    }
}

/// An unclassified intent never binds; a classified one binds to the first
/// registered binding for its kind, or is reported unbound.
pub open spec fn binding_trace_of(t: InteractionIntentTraceReport) -> InteractionActionBindingTraceReport {
    if t.status == InteractionIntentTraceStatus::Unclassified {
        unbound_binding_report(t, InteractionActionBindingTraceReason::IntentUnclassified)
    } else {
        match binding_for_intent(t.intent_kind) {
            Some(b) => bound_binding_report(t, b),
            None => unbound_binding_report(t, InteractionActionBindingTraceReason::NoBindingForIntent),
        }
    }
}

pub fn trace_interaction_action_binding(intent_trace: &InteractionIntentTraceReport) -> (r:
    InteractionActionBindingTraceReport)
    ensures
        r == binding_trace_of(*intent_trace),
{
    if matches!(intent_trace.status, InteractionIntentTraceStatus::Unclassified) {
        return unbound_report(intent_trace, InteractionActionBindingTraceReason::IntentUnclassified);
    }
    match find_interaction_action_binding_by_intent(intent_trace.intent_kind) {
        Some(binding) => bound_report(intent_trace, &binding),
        None => unbound_report(intent_trace, InteractionActionBindingTraceReason::NoBindingForIntent),
    }
}

fn bound_report(
    intent_trace: &InteractionIntentTraceReport,
    binding: &InteractionActionBindingDescriptor,
) -> (r: InteractionActionBindingTraceReport)
    ensures
        r == bound_binding_report(*intent_trace, *binding),
{
    InteractionActionBindingTraceReport {
        intent_id: intent_trace.intent_id,
        intent_kind: intent_trace.intent_kind,
        intent_status: intent_trace.status,
        binding_status: InteractionActionBindingTraceStatus::Bound,
        reason: reason_for_binding(binding),
        binding_id: Some(binding.id),
        action: Some(binding.action),
        target_policy: Some(binding.target_policy),
        admission_policy: Some(binding.admission_policy),
        effect_policy: Some(binding.effect_policy),
        trace_policy: Some(binding.trace_policy),
    }
}

fn unbound_report(
    intent_trace: &InteractionIntentTraceReport,
    reason: InteractionActionBindingTraceReason,
) -> (r: InteractionActionBindingTraceReport)
    ensures
        r == unbound_binding_report(*intent_trace, reason),
{
    InteractionActionBindingTraceReport {
        intent_id: intent_trace.intent_id,
        intent_kind: intent_trace.intent_kind,
        intent_status: intent_trace.status,
        binding_status: InteractionActionBindingTraceStatus::Unbound,
        reason,
        binding_id: None,
        action: None,
        target_policy: None,
        admission_policy: None,
        effect_policy: None,
        trace_policy: None,
    }
}

fn reason_for_binding(binding: &InteractionActionBindingDescriptor) -> (r: InteractionActionBindingTraceReason)
    ensures
        r == binding_reason(binding.target_policy),
{
    match binding.target_policy {
        InteractionActionTargetPolicy::RequiresTarget => InteractionActionBindingTraceReason::BindingRequiresTarget,
        InteractionActionTargetPolicy::AllowsMissingTarget => InteractionActionBindingTraceReason::BindingAllowsMissingTarget,
        InteractionActionTargetPolicy::IgnoresTarget => InteractionActionBindingTraceReason::BindingIgnoresTarget,
    }
}

} // verus!
