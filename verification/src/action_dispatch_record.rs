//! Dispatch metadata recorded for a dispatch route.
use vstd::prelude::*;
use crate::action_admission::{
    InteractionActionAdmissionEffectRelationship, InteractionActionAdmissionPolicyGateNamespace,
    InteractionActionAdmissionTraceRequirement,
};
use crate::action_binding::{InteractionActionBindingId, InteractionActionName};
use crate::action_dispatch_route::{
    InteractionSemanticActionDispatchEffectEligibility,
    InteractionSemanticActionDispatchRouteDescriptor, InteractionSemanticActionDispatchRouteId,
    InteractionSemanticActionDispatchRouteKind,
};
use crate::admitted_action::InteractionAdmittedSemanticActionId;
use crate::interaction::InteractionIntentKind;

verus! {

#[derive(Debug, Clone, Copy, PartialEq, Eq, PartialOrd, Ord, Hash, Structural)]
pub struct InteractionSemanticActionDispatchRecordId(pub u64);

#[derive(Debug, Clone, Copy, PartialEq, Eq, Hash, Structural)]
pub enum InteractionSemanticActionDispatchRecordStatus {
    Recorded,
    BlockedMissingRoute,
    BlockedPolicy,
    BlockedEffectBoundary,
    BlockedUnknown,
}

#[derive(Debug, Clone, Copy, PartialEq, Eq, Hash, Structural)]
pub enum InteractionSemanticActionDispatchBlockReason {
    Nothing,
    MissingRoute,
    Policy,
    EffectBoundary,
    Unknown,
}

#[derive(Debug, Clone, Copy, PartialEq, Eq, Hash, Structural)]
pub struct InteractionSemanticActionDispatchRecord {
    pub id: InteractionSemanticActionDispatchRecordId,
    pub route_id: InteractionSemanticActionDispatchRouteId,
    pub admitted_action_id: InteractionAdmittedSemanticActionId,
    pub action: InteractionActionName,
    pub source_intent: InteractionIntentKind,
    pub binding_id: InteractionActionBindingId,
    pub route: InteractionSemanticActionDispatchRouteKind,
    pub status: InteractionSemanticActionDispatchRecordStatus,
    pub block_reason: InteractionSemanticActionDispatchBlockReason,
    pub trace_requirement: InteractionActionAdmissionTraceRequirement,
    pub effect_relationship: InteractionActionAdmissionEffectRelationship,
    pub policy_gate_namespace: InteractionActionAdmissionPolicyGateNamespace,
    pub effect_eligibility: InteractionSemanticActionDispatchEffectEligibility,
}

/// Only an unknown route blocks a dispatch record.
pub open spec fn record_status_for(route: InteractionSemanticActionDispatchRouteKind) -> InteractionSemanticActionDispatchRecordStatus {
    if route == InteractionSemanticActionDispatchRouteKind::Unknown {
        InteractionSemanticActionDispatchRecordStatus::BlockedMissingRoute
    } else {
        InteractionSemanticActionDispatchRecordStatus::Recorded
    }
}

pub open spec fn block_reason_for(route: InteractionSemanticActionDispatchRouteKind) -> InteractionSemanticActionDispatchBlockReason {
    if route == InteractionSemanticActionDispatchRouteKind::Unknown {
        InteractionSemanticActionDispatchBlockReason::MissingRoute
    } else {
        InteractionSemanticActionDispatchBlockReason::Nothing
    }
}

pub open spec fn dispatch_record_of(r: InteractionSemanticActionDispatchRouteDescriptor) -> InteractionSemanticActionDispatchRecord {
    InteractionSemanticActionDispatchRecord {
        id: InteractionSemanticActionDispatchRecordId(r.id.0),
        route_id: r.id,
        admitted_action_id: r.admitted_action_id,
        action: r.action,
        source_intent: r.source_intent,
        binding_id: r.binding_id,
        route: r.route,
        status: record_status_for(r.route),
        block_reason: block_reason_for(r.route),
        trace_requirement: r.trace_requirement,
        effect_relationship: r.effect_relationship,
        policy_gate_namespace: r.policy_gate_namespace,
        effect_eligibility: r.effect_eligibility,
    }
}

pub fn record_interaction_semantic_action_dispatch(route: &InteractionSemanticActionDispatchRouteDescriptor) -> (r:
    InteractionSemanticActionDispatchRecord)
    ensures
        r == dispatch_record_of(*route),
{
    InteractionSemanticActionDispatchRecord {
        id: InteractionSemanticActionDispatchRecordId(route.id.0),
        route_id: route.id,
        admitted_action_id: route.admitted_action_id,
        action: route.action,
        source_intent: route.source_intent,
        binding_id: route.binding_id,
        route: route.route,
        status: record_status_for_route(route.route),
        block_reason: block_reason_for_route(route.route),
        trace_requirement: route.trace_requirement,
        effect_relationship: route.effect_relationship,
        policy_gate_namespace: route.policy_gate_namespace,
        effect_eligibility: route.effect_eligibility,
    }
}

fn record_status_for_route(route: InteractionSemanticActionDispatchRouteKind) -> (r:
    InteractionSemanticActionDispatchRecordStatus)
    ensures
        r == record_status_for(route),
{
    match route {
        InteractionSemanticActionDispatchRouteKind::Unknown => InteractionSemanticActionDispatchRecordStatus::BlockedMissingRoute,
        _ => InteractionSemanticActionDispatchRecordStatus::Recorded,
    }
}

fn block_reason_for_route(route: InteractionSemanticActionDispatchRouteKind) -> (r:
    InteractionSemanticActionDispatchBlockReason)
    ensures
        r == block_reason_for(route),
{
    match route {
        InteractionSemanticActionDispatchRouteKind::Unknown => InteractionSemanticActionDispatchBlockReason::MissingRoute,
        _ => InteractionSemanticActionDispatchBlockReason::Nothing,
    }
}

impl InteractionSemanticActionDispatchRecord {
    pub fn is_recorded(&self) -> (r: bool)
        ensures
            r == (self.status == InteractionSemanticActionDispatchRecordStatus::Recorded),
    {
        matches!(self.status, InteractionSemanticActionDispatchRecordStatus::Recorded)
    }

    pub fn is_blocked(&self) -> (r: bool)
        ensures
            r == (self.status != InteractionSemanticActionDispatchRecordStatus::Recorded),
    {
        !self.is_recorded()
    }

    pub fn is_execution_authority(&self) -> (r: bool)
        ensures
            !r,
    {
        false
    }

    pub fn is_effect_request(&self) -> (r: bool)
        ensures
            !r,
    {
        false
    }

    pub fn is_runtime_mutation(&self) -> (r: bool)
        ensures
            !r,
    {
        false
    }

    pub fn calls_vm_or_host_abi(&self) -> (r: bool)
        ensures
            !r,
    {
        false
    }
}

} // verus!
