//! Inert descriptions of effect request paths derived from dispatch traces.
use vstd::prelude::*;
use crate::action_admission::{
    InteractionActionAdmissionPolicyGateNamespace, InteractionActionAdmissionTraceRequirement,
};
use crate::action_binding::InteractionActionName;
use crate::action_dispatch_record::InteractionSemanticActionDispatchRecordId;
use crate::action_dispatch_route::{
    InteractionSemanticActionDispatchEffectEligibility, InteractionSemanticActionDispatchRouteId,
};
use crate::action_dispatch_trace::{
    InteractionSemanticActionDispatchTraceReport, InteractionSemanticActionDispatchTraceStatus,
};
use crate::admitted_action::InteractionAdmittedSemanticActionId;
use crate::interaction::InteractionIntentKind;

verus! {

#[derive(Debug, Clone, Copy, PartialEq, Eq, PartialOrd, Ord, Hash, Structural)]
pub struct InteractionEffectRequestDescriptorId(pub u64);

#[derive(Debug, Clone, Copy, PartialEq, Eq, Hash, Structural)]
pub enum InteractionEffectRequestKind {
    PrepareEffect,
    CommitEffect,
    RollbackEffect,
    CloseWindow,
    QuarantineTarget,
    Unknown,
}

#[derive(Debug, Clone, Copy, PartialEq, Eq, Hash, Structural)]
pub enum InteractionEffectRequestTargetPolicy {
    Required,
    Optional,
    Ignored,
    Unknown,
}

#[derive(Debug, Clone, Copy, PartialEq, Eq, Hash, Structural)]
pub enum InteractionEffectRequestUiCapability {
    WindowLifecycle,
    EffectControl,
    TargetQuarantine,
    Unknown,
}

#[derive(Debug, Clone, Copy, PartialEq, Eq, Hash, Structural)]
pub enum InteractionEffectRequestRuntimeCapability {
    WindowLifecycle,
    EffectControl,
    TargetQuarantine,
    Unknown,
}

#[derive(Debug, Clone, Copy, PartialEq, Eq, Hash, Structural)]
pub enum InteractionEffectRequestLifecyclePrecondition {
    SessionActive,
    WindowAlive,
    TargetPresent,
    Unknown,
}

#[derive(Debug, Clone, Copy, PartialEq, Eq, Hash, Structural)]
pub enum InteractionEffectRequestDenialBehavior {
    VisibleRequired,
    VisibleOptional,
    Unknown,
}

#[derive(Debug, Clone, Copy, PartialEq, Eq, Hash, Structural)]
pub enum InteractionEffectRequestPrepareCommitRelationship {
    PrepareThenCommit,
    CommitAfterPrepare,
    RollbackAfterPrepare,
    Direct,
    Unknown,
}

#[derive(Debug, Clone, Copy, PartialEq, Eq, Hash, Structural)]
pub enum InteractionEffectRequestScope {
    CoreUi,
    WorkbenchLocal,
    DiagnosticOnly,
    Unknown,
}

#[derive(Debug, Clone, Copy, PartialEq, Eq, Hash, Structural)]
pub struct InteractionEffectRequestDescriptor {
    pub id: InteractionEffectRequestDescriptorId,
    pub source_admitted_action_id: InteractionAdmittedSemanticActionId,
    pub dispatch_record_id: InteractionSemanticActionDispatchRecordId,
    pub dispatch_route_id: InteractionSemanticActionDispatchRouteId,
    pub action: InteractionActionName,
    pub source_intent: InteractionIntentKind,
    pub requested_effect: InteractionEffectRequestKind,
    pub target_policy: InteractionEffectRequestTargetPolicy,
    pub required_ui_capability: InteractionEffectRequestUiCapability,
    pub required_runtime_capability: InteractionEffectRequestRuntimeCapability,
    pub lifecycle_precondition: InteractionEffectRequestLifecyclePrecondition,
    pub trace_requirement: InteractionActionAdmissionTraceRequirement,
    pub denial_behavior: InteractionEffectRequestDenialBehavior,
    pub prepare_commit_relationship: InteractionEffectRequestPrepareCommitRelationship,
    pub policy_gate_namespace: InteractionActionAdmissionPolicyGateNamespace,
    pub scope: InteractionEffectRequestScope,
}

/// Only recorded traces that require the future effect boundary describe an
/// effect request.
pub open spec fn effect_request_of(t: InteractionSemanticActionDispatchTraceReport) -> Option<
    InteractionEffectRequestDescriptor,
> {
    if t.trace_status != InteractionSemanticActionDispatchTraceStatus::Recorded
        || t.effect_eligibility != InteractionSemanticActionDispatchEffectEligibility::RequiresFutureEffectBoundary {
        None
    } else {
        Some(InteractionEffectRequestDescriptor {
            id: InteractionEffectRequestDescriptorId(t.record_id.0),
            source_admitted_action_id: t.admitted_action_id,
            dispatch_record_id: t.record_id,
            dispatch_route_id: t.route_id,
            action: t.action,
            source_intent: t.source_intent,
            requested_effect: requested_effect_for(t.action),
            target_policy: effect_target_policy_for(t.action),
            required_ui_capability: ui_capability_for(t.action),
            required_runtime_capability: runtime_capability_for(t.action),
            lifecycle_precondition: lifecycle_precondition_for(t.action),
            trace_requirement: t.trace_requirement,
            denial_behavior: denial_behavior_for(t.action),
            prepare_commit_relationship: prepare_commit_relationship_for(t.action),
            policy_gate_namespace: t.policy_gate_namespace,
            scope: effect_scope_for(t.policy_gate_namespace),
        })
    }
}

pub fn describe_interaction_effect_request(trace: &InteractionSemanticActionDispatchTraceReport) -> (r: Option<
    InteractionEffectRequestDescriptor,
>)
    ensures
        r == effect_request_of(*trace),
{
    if !matches!(trace.trace_status, InteractionSemanticActionDispatchTraceStatus::Recorded) {
        return None;
    }
    if !matches!(trace.effect_eligibility, InteractionSemanticActionDispatchEffectEligibility::RequiresFutureEffectBoundary) {
        return None;
    }
    Some(InteractionEffectRequestDescriptor {
        id: InteractionEffectRequestDescriptorId(trace.record_id.0),
        source_admitted_action_id: trace.admitted_action_id,
        dispatch_record_id: trace.record_id,
        dispatch_route_id: trace.route_id,
        action: trace.action,
        source_intent: trace.source_intent,
        requested_effect: map_requested_effect(trace.action),
        target_policy: map_target_policy(trace.action),
        required_ui_capability: map_ui_capability(trace.action),
        required_runtime_capability: map_runtime_capability(trace.action),
        lifecycle_precondition: map_lifecycle_precondition(trace.action),
        trace_requirement: trace.trace_requirement,
        denial_behavior: map_denial_behavior(trace.action),
        prepare_commit_relationship: map_prepare_commit_relationship(trace.action),
        policy_gate_namespace: trace.policy_gate_namespace,
        scope: map_scope(trace.policy_gate_namespace),
    })
}

pub open spec fn requested_effect_for(action: InteractionActionName) -> InteractionEffectRequestKind {
    match action {
        InteractionActionName::PrepareEffect => InteractionEffectRequestKind::PrepareEffect,
        InteractionActionName::CommitEffect => InteractionEffectRequestKind::CommitEffect,
        InteractionActionName::RollbackEffect => InteractionEffectRequestKind::RollbackEffect,
        InteractionActionName::CloseWindow => InteractionEffectRequestKind::CloseWindow,
        InteractionActionName::QuarantineTarget => InteractionEffectRequestKind::QuarantineTarget,
        InteractionActionName::OpenInspector | InteractionActionName::SelectTraceEvent | InteractionActionName::FocusModule | InteractionActionName::ExpandCapabilityGate | InteractionActionName::AcknowledgeError | InteractionActionName::OpenDenialReason | InteractionActionName::PinTrace | InteractionActionName::Unknown => InteractionEffectRequestKind::Unknown,
    }
}

fn map_requested_effect(action: InteractionActionName) -> (r: InteractionEffectRequestKind)
    ensures
        r == requested_effect_for(action),
{
    match action {
        InteractionActionName::PrepareEffect => InteractionEffectRequestKind::PrepareEffect,
        InteractionActionName::CommitEffect => InteractionEffectRequestKind::CommitEffect,
        InteractionActionName::RollbackEffect => InteractionEffectRequestKind::RollbackEffect,
        InteractionActionName::CloseWindow => InteractionEffectRequestKind::CloseWindow,
        InteractionActionName::QuarantineTarget => InteractionEffectRequestKind::QuarantineTarget,
        InteractionActionName::OpenInspector | InteractionActionName::SelectTraceEvent | InteractionActionName::FocusModule | InteractionActionName::ExpandCapabilityGate | InteractionActionName::AcknowledgeError | InteractionActionName::OpenDenialReason | InteractionActionName::PinTrace | InteractionActionName::Unknown => InteractionEffectRequestKind::Unknown,
    }
}

pub open spec fn effect_target_policy_for(action: InteractionActionName) -> InteractionEffectRequestTargetPolicy {
    match action {
        InteractionActionName::CloseWindow => InteractionEffectRequestTargetPolicy::Optional,
        InteractionActionName::PrepareEffect | InteractionActionName::CommitEffect | InteractionActionName::RollbackEffect | InteractionActionName::QuarantineTarget => InteractionEffectRequestTargetPolicy::Required,
        InteractionActionName::OpenInspector | InteractionActionName::SelectTraceEvent | InteractionActionName::FocusModule | InteractionActionName::ExpandCapabilityGate | InteractionActionName::AcknowledgeError | InteractionActionName::OpenDenialReason | InteractionActionName::PinTrace | InteractionActionName::Unknown => InteractionEffectRequestTargetPolicy::Ignored,
    }
}

fn map_target_policy(action: InteractionActionName) -> (r: InteractionEffectRequestTargetPolicy)
    ensures
        r == effect_target_policy_for(action),
{
    match action {
        InteractionActionName::CloseWindow => InteractionEffectRequestTargetPolicy::Optional,
        InteractionActionName::PrepareEffect | InteractionActionName::CommitEffect | InteractionActionName::RollbackEffect | InteractionActionName::QuarantineTarget => InteractionEffectRequestTargetPolicy::Required,
        InteractionActionName::OpenInspector | InteractionActionName::SelectTraceEvent | InteractionActionName::FocusModule | InteractionActionName::ExpandCapabilityGate | InteractionActionName::AcknowledgeError | InteractionActionName::OpenDenialReason | InteractionActionName::PinTrace | InteractionActionName::Unknown => InteractionEffectRequestTargetPolicy::Ignored,
    }
}

pub open spec fn ui_capability_for(action: InteractionActionName) -> InteractionEffectRequestUiCapability {
    match action {
        InteractionActionName::CloseWindow => InteractionEffectRequestUiCapability::WindowLifecycle,
        InteractionActionName::PrepareEffect | InteractionActionName::CommitEffect | InteractionActionName::RollbackEffect => InteractionEffectRequestUiCapability::EffectControl,
        InteractionActionName::QuarantineTarget => InteractionEffectRequestUiCapability::TargetQuarantine,
        InteractionActionName::OpenInspector | InteractionActionName::SelectTraceEvent | InteractionActionName::FocusModule | InteractionActionName::ExpandCapabilityGate | InteractionActionName::AcknowledgeError | InteractionActionName::OpenDenialReason | InteractionActionName::PinTrace | InteractionActionName::Unknown => InteractionEffectRequestUiCapability::Unknown,
    }
}

fn map_ui_capability(action: InteractionActionName) -> (r: InteractionEffectRequestUiCapability)
    ensures
        r == ui_capability_for(action),
{
    match action {
        InteractionActionName::CloseWindow => InteractionEffectRequestUiCapability::WindowLifecycle,
        InteractionActionName::PrepareEffect | InteractionActionName::CommitEffect | InteractionActionName::RollbackEffect => InteractionEffectRequestUiCapability::EffectControl,
        InteractionActionName::QuarantineTarget => InteractionEffectRequestUiCapability::TargetQuarantine,
        InteractionActionName::OpenInspector | InteractionActionName::SelectTraceEvent | InteractionActionName::FocusModule | InteractionActionName::ExpandCapabilityGate | InteractionActionName::AcknowledgeError | InteractionActionName::OpenDenialReason | InteractionActionName::PinTrace | InteractionActionName::Unknown => InteractionEffectRequestUiCapability::Unknown,
    }
}

pub open spec fn runtime_capability_for(action: InteractionActionName) -> InteractionEffectRequestRuntimeCapability {
    match action {
        InteractionActionName::CloseWindow => InteractionEffectRequestRuntimeCapability::WindowLifecycle,
        InteractionActionName::PrepareEffect | InteractionActionName::CommitEffect | InteractionActionName::RollbackEffect => InteractionEffectRequestRuntimeCapability::EffectControl,
        InteractionActionName::QuarantineTarget => InteractionEffectRequestRuntimeCapability::TargetQuarantine,
        InteractionActionName::OpenInspector | InteractionActionName::SelectTraceEvent | InteractionActionName::FocusModule | InteractionActionName::ExpandCapabilityGate | InteractionActionName::AcknowledgeError | InteractionActionName::OpenDenialReason | InteractionActionName::PinTrace | InteractionActionName::Unknown => InteractionEffectRequestRuntimeCapability::Unknown,
    }
}

fn map_runtime_capability(action: InteractionActionName) -> (r: InteractionEffectRequestRuntimeCapability)
    ensures
        r == runtime_capability_for(action),
{
    match action {
        InteractionActionName::CloseWindow => InteractionEffectRequestRuntimeCapability::WindowLifecycle,
        InteractionActionName::PrepareEffect | InteractionActionName::CommitEffect | InteractionActionName::RollbackEffect => InteractionEffectRequestRuntimeCapability::EffectControl,
        InteractionActionName::QuarantineTarget => InteractionEffectRequestRuntimeCapability::TargetQuarantine,
        InteractionActionName::OpenInspector | InteractionActionName::SelectTraceEvent | InteractionActionName::FocusModule | InteractionActionName::ExpandCapabilityGate | InteractionActionName::AcknowledgeError | InteractionActionName::OpenDenialReason | InteractionActionName::PinTrace | InteractionActionName::Unknown => InteractionEffectRequestRuntimeCapability::Unknown,
    }
}

pub open spec fn lifecycle_precondition_for(action: InteractionActionName) -> InteractionEffectRequestLifecyclePrecondition {
    match action {
        InteractionActionName::CloseWindow => InteractionEffectRequestLifecyclePrecondition::WindowAlive,
        InteractionActionName::PrepareEffect | InteractionActionName::CommitEffect | InteractionActionName::RollbackEffect => InteractionEffectRequestLifecyclePrecondition::SessionActive,
        InteractionActionName::QuarantineTarget => InteractionEffectRequestLifecyclePrecondition::TargetPresent,
        InteractionActionName::OpenInspector | InteractionActionName::SelectTraceEvent | InteractionActionName::FocusModule | InteractionActionName::ExpandCapabilityGate | InteractionActionName::AcknowledgeError | InteractionActionName::OpenDenialReason | InteractionActionName::PinTrace | InteractionActionName::Unknown => InteractionEffectRequestLifecyclePrecondition::Unknown,
    }
}

fn map_lifecycle_precondition(action: InteractionActionName) -> (r: InteractionEffectRequestLifecyclePrecondition)
    ensures
        r == lifecycle_precondition_for(action),
{
    match action {
        InteractionActionName::CloseWindow => InteractionEffectRequestLifecyclePrecondition::WindowAlive,
        InteractionActionName::PrepareEffect | InteractionActionName::CommitEffect | InteractionActionName::RollbackEffect => InteractionEffectRequestLifecyclePrecondition::SessionActive,
        InteractionActionName::QuarantineTarget => InteractionEffectRequestLifecyclePrecondition::TargetPresent,
        InteractionActionName::OpenInspector | InteractionActionName::SelectTraceEvent | InteractionActionName::FocusModule | InteractionActionName::ExpandCapabilityGate | InteractionActionName::AcknowledgeError | InteractionActionName::OpenDenialReason | InteractionActionName::PinTrace | InteractionActionName::Unknown => InteractionEffectRequestLifecyclePrecondition::Unknown,
    }
}

pub open spec fn denial_behavior_for(action: InteractionActionName) -> InteractionEffectRequestDenialBehavior {
    match action {
        InteractionActionName::CloseWindow | InteractionActionName::PrepareEffect | InteractionActionName::CommitEffect | InteractionActionName::RollbackEffect | InteractionActionName::QuarantineTarget => InteractionEffectRequestDenialBehavior::VisibleRequired,
        InteractionActionName::OpenInspector | InteractionActionName::SelectTraceEvent | InteractionActionName::FocusModule | InteractionActionName::ExpandCapabilityGate | InteractionActionName::AcknowledgeError | InteractionActionName::OpenDenialReason | InteractionActionName::PinTrace | InteractionActionName::Unknown => InteractionEffectRequestDenialBehavior::Unknown,
    }
}

fn map_denial_behavior(action: InteractionActionName) -> (r: InteractionEffectRequestDenialBehavior)
    ensures
        r == denial_behavior_for(action),
{
    match action {
        InteractionActionName::CloseWindow | InteractionActionName::PrepareEffect | InteractionActionName::CommitEffect | InteractionActionName::RollbackEffect | InteractionActionName::QuarantineTarget => InteractionEffectRequestDenialBehavior::VisibleRequired,
        InteractionActionName::OpenInspector | InteractionActionName::SelectTraceEvent | InteractionActionName::FocusModule | InteractionActionName::ExpandCapabilityGate | InteractionActionName::AcknowledgeError | InteractionActionName::OpenDenialReason | InteractionActionName::PinTrace | InteractionActionName::Unknown => InteractionEffectRequestDenialBehavior::Unknown,
    }
}

pub open spec fn prepare_commit_relationship_for(action: InteractionActionName) -> InteractionEffectRequestPrepareCommitRelationship {
    match action {
        InteractionActionName::CommitEffect => InteractionEffectRequestPrepareCommitRelationship::CommitAfterPrepare,
        InteractionActionName::RollbackEffect => InteractionEffectRequestPrepareCommitRelationship::RollbackAfterPrepare,
        InteractionActionName::CloseWindow | InteractionActionName::PrepareEffect | InteractionActionName::QuarantineTarget => InteractionEffectRequestPrepareCommitRelationship::PrepareThenCommit,
        InteractionActionName::OpenInspector | InteractionActionName::SelectTraceEvent | InteractionActionName::FocusModule | InteractionActionName::ExpandCapabilityGate | InteractionActionName::AcknowledgeError | InteractionActionName::OpenDenialReason | InteractionActionName::PinTrace | InteractionActionName::Unknown => InteractionEffectRequestPrepareCommitRelationship::Unknown,
    }
}

fn map_prepare_commit_relationship(action: InteractionActionName) -> (r: InteractionEffectRequestPrepareCommitRelationship)
    ensures
        r == prepare_commit_relationship_for(action),
{
    match action {
        InteractionActionName::CommitEffect => InteractionEffectRequestPrepareCommitRelationship::CommitAfterPrepare,
        InteractionActionName::RollbackEffect => InteractionEffectRequestPrepareCommitRelationship::RollbackAfterPrepare,
        InteractionActionName::CloseWindow | InteractionActionName::PrepareEffect | InteractionActionName::QuarantineTarget => InteractionEffectRequestPrepareCommitRelationship::PrepareThenCommit,
        InteractionActionName::OpenInspector | InteractionActionName::SelectTraceEvent | InteractionActionName::FocusModule | InteractionActionName::ExpandCapabilityGate | InteractionActionName::AcknowledgeError | InteractionActionName::OpenDenialReason | InteractionActionName::PinTrace | InteractionActionName::Unknown => InteractionEffectRequestPrepareCommitRelationship::Unknown,
    }
}

pub open spec fn effect_scope_for(namespace: InteractionActionAdmissionPolicyGateNamespace) -> InteractionEffectRequestScope {
    match namespace {
        InteractionActionAdmissionPolicyGateNamespace::CoreUi => InteractionEffectRequestScope::CoreUi,
        InteractionActionAdmissionPolicyGateNamespace::WorkbenchLocal => InteractionEffectRequestScope::WorkbenchLocal,
        InteractionActionAdmissionPolicyGateNamespace::DiagnosticOnly => InteractionEffectRequestScope::DiagnosticOnly,
    }
}

fn map_scope(namespace: InteractionActionAdmissionPolicyGateNamespace) -> (r: InteractionEffectRequestScope)
    ensures
        r == effect_scope_for(namespace),
{
    match namespace {
        InteractionActionAdmissionPolicyGateNamespace::CoreUi => InteractionEffectRequestScope::CoreUi,
        InteractionActionAdmissionPolicyGateNamespace::WorkbenchLocal => InteractionEffectRequestScope::WorkbenchLocal,
        InteractionActionAdmissionPolicyGateNamespace::DiagnosticOnly => InteractionEffectRequestScope::DiagnosticOnly,
    }
}

impl InteractionEffectRequestDescriptor {
    pub fn is_capability_admission(&self) -> (r: bool)
        ensures
            !r,
    {
        false
    }

    pub fn is_prepared_effect(&self) -> (r: bool)
        ensures
            !r,
    {
        false
    }

    pub fn is_committed_effect(&self) -> (r: bool)
        ensures
            !r,
    {
        false
    }

    pub fn is_execution_authority(&self) -> (r: bool)
        ensures
            !r,
    {
        false
    }

    pub fn is_runtime_mutation(&self) -> (r: bool)
        ensures
            !r,
    {
        false
    }

    pub fn is_audit_authority(&self) -> (r: bool)
        ensures
            !r,
    {
        false
    }

    pub fn calls_vm_or_host_abi(&self) -> (r: bool)
        ensures
            !r,
    {
        false
    }
}

} // verus!
