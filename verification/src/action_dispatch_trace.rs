//! Visible trace reports for dispatch records.
use vstd::prelude::*;
use crate::action_admission::{
    InteractionActionAdmissionEffectRelationship, InteractionActionAdmissionPolicyGateNamespace,
    InteractionActionAdmissionTraceRequirement,
};
use crate::action_binding::{InteractionActionBindingId, InteractionActionName};
use crate::action_dispatch_record::{
    InteractionSemanticActionDispatchBlockReason, InteractionSemanticActionDispatchRecord,
    InteractionSemanticActionDispatchRecordId, InteractionSemanticActionDispatchRecordStatus,
};
use crate::action_dispatch_route::{
    InteractionSemanticActionDispatchEffectEligibility, InteractionSemanticActionDispatchRouteId,
    InteractionSemanticActionDispatchRouteKind,
};
use crate::admitted_action::InteractionAdmittedSemanticActionId;
use crate::interaction::InteractionIntentKind;
use crate::action_dispatch_record::dispatch_record_of;
use crate::action_dispatch_route::InteractionSemanticActionDispatchRouteDescriptor;

verus! {

#[derive(Debug, Clone, Copy, PartialEq, Eq, Hash, Structural)]
pub enum InteractionSemanticActionDispatchTraceStatus {
    Recorded,
    Blocked,
}

#[derive(Debug, Clone, Copy, PartialEq, Eq, Hash, Structural)]
pub enum InteractionSemanticActionDispatchTraceReason {
    RouteRecorded,
    MissingRoute,
    PolicyBlocked,
    EffectBoundaryBlocked,
    UnknownBlocked,
}

#[derive(Debug, Clone, Copy, PartialEq, Eq, Hash, Structural)]
pub struct InteractionSemanticActionDispatchTraceReport {
    pub record_id: InteractionSemanticActionDispatchRecordId,
    pub route_id: InteractionSemanticActionDispatchRouteId,
    pub admitted_action_id: InteractionAdmittedSemanticActionId,
    pub action: InteractionActionName,
    pub source_intent: InteractionIntentKind,
    pub binding_id: InteractionActionBindingId,
    pub route: InteractionSemanticActionDispatchRouteKind,
    pub record_status: InteractionSemanticActionDispatchRecordStatus,
    pub trace_status: InteractionSemanticActionDispatchTraceStatus,
    pub block_reason: InteractionSemanticActionDispatchBlockReason,
    pub trace_reason: InteractionSemanticActionDispatchTraceReason,
    pub trace_requirement: InteractionActionAdmissionTraceRequirement,
    pub effect_relationship: InteractionActionAdmissionEffectRelationship,
    pub policy_gate_namespace: InteractionActionAdmissionPolicyGateNamespace,
    pub effect_eligibility: InteractionSemanticActionDispatchEffectEligibility,
}

pub open spec fn dispatch_trace_status_for(
    s: InteractionSemanticActionDispatchRecordStatus,
) -> InteractionSemanticActionDispatchTraceStatus {
    if s == InteractionSemanticActionDispatchRecordStatus::Recorded {
        InteractionSemanticActionDispatchTraceStatus::Recorded
    } else {
        InteractionSemanticActionDispatchTraceStatus::Blocked
    }
}

/// The reason follows the record status; a block of unknown kind falls back
/// to the block reason.
pub open spec fn dispatch_trace_reason_for(
    s: InteractionSemanticActionDispatchRecordStatus,
    b: InteractionSemanticActionDispatchBlockReason,
) -> InteractionSemanticActionDispatchTraceReason {
    match s {
        InteractionSemanticActionDispatchRecordStatus::Recorded => InteractionSemanticActionDispatchTraceReason::RouteRecorded,
        InteractionSemanticActionDispatchRecordStatus::BlockedMissingRoute => InteractionSemanticActionDispatchTraceReason::MissingRoute,
        InteractionSemanticActionDispatchRecordStatus::BlockedPolicy => InteractionSemanticActionDispatchTraceReason::PolicyBlocked,
        InteractionSemanticActionDispatchRecordStatus::BlockedEffectBoundary => InteractionSemanticActionDispatchTraceReason::EffectBoundaryBlocked,
        InteractionSemanticActionDispatchRecordStatus::BlockedUnknown => match b {
            InteractionSemanticActionDispatchBlockReason::MissingRoute => InteractionSemanticActionDispatchTraceReason::MissingRoute,
            InteractionSemanticActionDispatchBlockReason::Policy => InteractionSemanticActionDispatchTraceReason::PolicyBlocked,
            InteractionSemanticActionDispatchBlockReason::EffectBoundary => InteractionSemanticActionDispatchTraceReason::EffectBoundaryBlocked,
            InteractionSemanticActionDispatchBlockReason::Nothing
            | InteractionSemanticActionDispatchBlockReason::Unknown => InteractionSemanticActionDispatchTraceReason::UnknownBlocked,
        },
    }
}

pub open spec fn dispatch_trace_of(r: InteractionSemanticActionDispatchRecord) -> InteractionSemanticActionDispatchTraceReport {
    InteractionSemanticActionDispatchTraceReport {
        record_id: r.id,
        route_id: r.route_id,
        admitted_action_id: r.admitted_action_id,
        action: r.action,
        source_intent: r.source_intent,
        binding_id: r.binding_id,
        route: r.route,
        record_status: r.status,
        trace_status: dispatch_trace_status_for(r.status),
        block_reason: r.block_reason,
        trace_reason: dispatch_trace_reason_for(r.status, r.block_reason),
        trace_requirement: r.trace_requirement,
        effect_relationship: r.effect_relationship,
        policy_gate_namespace: r.policy_gate_namespace,
        effect_eligibility: r.effect_eligibility,
    }
}

pub fn trace_interaction_semantic_action_dispatch(record: &InteractionSemanticActionDispatchRecord) -> (r:
    InteractionSemanticActionDispatchTraceReport)
    ensures
        r == dispatch_trace_of(*record),
{
    InteractionSemanticActionDispatchTraceReport {
        record_id: record.id,
        route_id: record.route_id,
        admitted_action_id: record.admitted_action_id,
        action: record.action,
        source_intent: record.source_intent,
        binding_id: record.binding_id,
        route: record.route,
        record_status: record.status,
        trace_status: trace_status_for_record(record.status),
        block_reason: record.block_reason,
        trace_reason: trace_reason_for_record(record.status, record.block_reason),
        trace_requirement: record.trace_requirement,
        effect_relationship: record.effect_relationship,
        policy_gate_namespace: record.policy_gate_namespace,
        effect_eligibility: record.effect_eligibility,
    }
}

fn trace_status_for_record(status: InteractionSemanticActionDispatchRecordStatus) -> (r:
    InteractionSemanticActionDispatchTraceStatus)
    ensures
        r == dispatch_trace_status_for(status),
{
    match status {
        InteractionSemanticActionDispatchRecordStatus::Recorded => InteractionSemanticActionDispatchTraceStatus::Recorded,
        InteractionSemanticActionDispatchRecordStatus::BlockedMissingRoute
        | InteractionSemanticActionDispatchRecordStatus::BlockedPolicy
        | InteractionSemanticActionDispatchRecordStatus::BlockedEffectBoundary
        | InteractionSemanticActionDispatchRecordStatus::BlockedUnknown => InteractionSemanticActionDispatchTraceStatus::Blocked,
    }
}

fn trace_reason_for_record(
    status: InteractionSemanticActionDispatchRecordStatus,
    block_reason: InteractionSemanticActionDispatchBlockReason,
) -> (r: InteractionSemanticActionDispatchTraceReason)
    ensures
        r == dispatch_trace_reason_for(status, block_reason),
{
    match status {
        InteractionSemanticActionDispatchRecordStatus::Recorded => InteractionSemanticActionDispatchTraceReason::RouteRecorded,
        InteractionSemanticActionDispatchRecordStatus::BlockedMissingRoute => InteractionSemanticActionDispatchTraceReason::MissingRoute,
        InteractionSemanticActionDispatchRecordStatus::BlockedPolicy => InteractionSemanticActionDispatchTraceReason::PolicyBlocked,
        InteractionSemanticActionDispatchRecordStatus::BlockedEffectBoundary => InteractionSemanticActionDispatchTraceReason::EffectBoundaryBlocked,
        InteractionSemanticActionDispatchRecordStatus::BlockedUnknown => match block_reason {
            InteractionSemanticActionDispatchBlockReason::MissingRoute => InteractionSemanticActionDispatchTraceReason::MissingRoute,
            InteractionSemanticActionDispatchBlockReason::Policy => InteractionSemanticActionDispatchTraceReason::PolicyBlocked,
            InteractionSemanticActionDispatchBlockReason::EffectBoundary => InteractionSemanticActionDispatchTraceReason::EffectBoundaryBlocked,
            InteractionSemanticActionDispatchBlockReason::Nothing
            | InteractionSemanticActionDispatchBlockReason::Unknown => InteractionSemanticActionDispatchTraceReason::UnknownBlocked,
        },
    }
}

impl InteractionSemanticActionDispatchTraceReport {
    pub fn is_recorded(&self) -> (r: bool)
        ensures
            r == (self.trace_status == InteractionSemanticActionDispatchTraceStatus::Recorded),
    {
        matches!(self.trace_status, InteractionSemanticActionDispatchTraceStatus::Recorded)
    }

    pub fn is_blocked(&self) -> (r: bool)
        ensures
            r == (self.trace_status == InteractionSemanticActionDispatchTraceStatus::Blocked),
    {
        matches!(self.trace_status, InteractionSemanticActionDispatchTraceStatus::Blocked)
    }

    pub fn is_dispatcher(&self) -> (r: bool)
        ensures
            !r,
    {
        false
    }

    pub fn is_execution_authority(&self) -> (r: bool)
        ensures
            !r,
    {
        false
    }

    pub fn is_effect_request(&self) -> (r: bool)
        ensures
            !r,
    {
        false
    }

    pub fn is_runtime_mutation(&self) -> (r: bool)
        ensures
            !r,
    {
        false
    }

    pub fn is_audit_authority(&self) -> (r: bool)
        ensures
            !r,
    {
        false
    }
}

/// A dispatch is blocked, in its record and in its trace, exactly when its
/// route is unknown.
pub proof fn lemma_dispatch_blocked_iff_route_unknown(route: InteractionSemanticActionDispatchRouteDescriptor)
    ensures
        (dispatch_record_of(route).status == InteractionSemanticActionDispatchRecordStatus::BlockedMissingRoute)
            == (route.route == InteractionSemanticActionDispatchRouteKind::Unknown),
        (dispatch_trace_of(dispatch_record_of(route)).trace_status == InteractionSemanticActionDispatchTraceStatus::Blocked)
            == (route.route == InteractionSemanticActionDispatchRouteKind::Unknown),
{
}

} // verus!
