//! UI boundary types and capability surface for Semantic desktop applications.
use vstd::prelude::*;

pub mod contract_primitives;
pub mod interaction;
pub mod action_binding;
pub mod raw_event;
pub mod trace;
pub mod intent_stream;
pub mod action_binding_trace;
pub mod action_binding_stream;
pub mod action_candidate_summary;
pub mod action_admission;
pub mod action_admission_result;
pub mod action_denial_trace;
pub mod admitted_action;
pub mod action_dispatch_route;
pub mod action_dispatch_record;
pub mod action_dispatch_trace;
pub mod action_dispatch_summary;
pub mod effect_request;
pub mod effect_request_trace;
pub mod effect_request_summary;
pub mod ui_capability_admission;
pub mod ui_capability_admission_result;
pub mod runtime_capability_mapping;
pub mod runtime_capability_mapping_result;
pub mod prepared_effect;
pub mod prepared_effect_result;
pub mod commit_boundary;
pub mod commit_boundary_result;
pub mod committed_effect;
pub mod committed_effect_record;
pub mod host_runtime_effect;
pub mod host_runtime_effect_result;
pub mod host_runtime_effect_denial_trace;
pub mod model;
pub mod semantic_refs;
pub mod static_ir;
pub mod projection_source;
pub mod projection_compile;
pub mod action_ir;
pub mod admission_contract;
pub mod action_intent_map;
pub mod binding_graph;
pub mod binding_graph_observation;
pub mod binding_graph_semantic_adapter;
pub mod projection_patch;
pub mod connectivity_projection;
pub mod denial_recovery;
pub mod collection_anchor_declarations;
pub mod projection;
pub mod renderer;
pub mod tree_slot_intent;
pub mod tree_slot_ast_intent;
pub mod ast_slot_ir_intent;
pub mod ir_slot_projection_intent;
pub mod layout;
pub mod layout_rect;
pub mod hit_test;
pub mod action_request;
pub mod action_mapping;
pub mod intent_dispatch;

verus! {

/// The UI application boundary capability family.
#[derive(Debug, Clone, Copy, PartialEq, Eq, PartialOrd, Ord, Hash, Structural)]
pub enum UiCapabilityKind {
    /// Own and run a single desktop window session.
    DesktopSession,
    /// Poll input events within an admitted desktop session.
    InputPoll,
    /// Emit a frame of draw commands through the admitted surface.
    FrameEmit,
}

/// Admitted UI operation identities.
#[derive(Debug, Clone, Copy, PartialEq, Eq, PartialOrd, Ord, Hash, Structural)]
pub enum UiOperationId {
    WindowCreate,
    WindowRun,
    WindowClose,
    EventPoll,
    FrameSubmit,
}

/// Surface class of UI capability kinds.
#[derive(Debug, Clone, Copy, PartialEq, Eq, Structural)]
pub enum UiCapabilitySurfaceClass {
    PostStableFirstWave,
}

/// Every UI capability belongs to the post-stable first wave.
pub fn ui_capability_surface_class(_kind: UiCapabilityKind) -> (r: UiCapabilitySurfaceClass)
    ensures
        r == UiCapabilitySurfaceClass::PostStableFirstWave,
{
    UiCapabilitySurfaceClass::PostStableFirstWave
}

/// The capability an operation needs: window operations need the desktop
/// session, polling needs input polling, frame submission needs frame emission.
pub open spec fn required_capability_for(op: UiOperationId) -> UiCapabilityKind {
    match op {
        UiOperationId::WindowCreate | UiOperationId::WindowRun | UiOperationId::WindowClose => UiCapabilityKind::DesktopSession,
        UiOperationId::EventPoll => UiCapabilityKind::InputPoll,
        UiOperationId::FrameSubmit => UiCapabilityKind::FrameEmit,
    }
}

pub fn required_ui_capability(op: UiOperationId) -> (r: UiCapabilityKind)
    ensures
        r == required_capability_for(op),
{
    match op {
        UiOperationId::WindowCreate => UiCapabilityKind::DesktopSession,
        UiOperationId::WindowRun => UiCapabilityKind::DesktopSession,
        UiOperationId::WindowClose => UiCapabilityKind::DesktopSession,
        UiOperationId::EventPoll => UiCapabilityKind::InputPoll,
        UiOperationId::FrameSubmit => UiCapabilityKind::FrameEmit,
    }
}

} // verus!
