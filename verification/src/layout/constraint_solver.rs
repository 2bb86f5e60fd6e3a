//! The constraint solver stage of layout: solver intents, not solutions.
use vstd::prelude::*;
use crate::model::UiIrNodeId;
use crate::projection::{UiProjectedNodeId, UiProjectionArtifactId};
use crate::renderer::{UiRenderModelId, UiRenderNodeId};
use crate::layout::base::{UiLayoutModelId, UiLayoutNodeId, UiLayoutSlotId};
use crate::layout::geometry::{UiLayoutGeometryModelId, UiLayoutGeometryNodeId};
use crate::layout::constraints::{UiLayoutConstraintId, UiLayoutConstraintsModelId};
use crate::layout::sizing::{UiLayoutSizingEntryId, UiLayoutSizingModelId};
use crate::layout::sizing_algorithm::{UiLayoutSizingAlgorithmEntryId, UiLayoutSizingAlgorithmModelId};
use crate::layout::measuring::{UiLayoutMeasuringEntryId, UiLayoutMeasuringModelId};
use crate::layout::size_to_fit::{UiLayoutSizeToFitEntry, UiLayoutSizeToFitEntryId, UiLayoutSizeToFitModel, UiLayoutSizeToFitModelId};

verus! {

/// Identity of a constraint solver model.
#[derive(Debug, Clone, Copy, PartialEq, Eq, Hash, Structural)]
pub struct UiLayoutConstraintSolverModelId(u64);

impl UiLayoutConstraintSolverModelId {
    pub closed spec fn spec_raw(self) -> u64 {
        self.0
    }

    pub fn new(raw: u64) -> (r: Self)
        ensures
            r.spec_raw() == raw,
    {
        Self(raw)
    }

    pub fn raw(&self) -> (r: u64)
        ensures
            r == self.spec_raw(),
    {
        self.0
    }
}

/// Identity of a constraint solver entry.
#[derive(Debug, Clone, Copy, PartialEq, Eq, Hash, Structural)]
pub struct UiLayoutConstraintSolverEntryId(u64);

impl UiLayoutConstraintSolverEntryId {
    pub closed spec fn spec_raw(self) -> u64 {
        self.0
    }

    pub fn new(raw: u64) -> (r: Self)
        ensures
            r.spec_raw() == raw,
    {
        Self(raw)
    }

    pub fn raw(&self) -> (r: u64)
        ensures
            r == self.spec_raw(),
    {
        self.0
    }
}

/// The kind of a constraint solver entry.
#[derive(Debug, Clone, Copy, PartialEq, Eq, Structural)]
pub enum UiLayoutConstraintSolverKind {
    DeferredSolverIntent,
    UnavailableSolverResult,
    AuditOnly,
}

/// The state of a constraint solver entry.
#[derive(Debug, Clone, Copy, PartialEq, Eq, Structural)]
pub enum UiLayoutConstraintSolverState {
    Deferred,
}

/// A constraint solver entry for one size-to-fit entry.
#[derive(Debug, Clone, Copy, PartialEq, Eq, Structural)]
pub struct UiLayoutConstraintSolverEntry {
    id: UiLayoutConstraintSolverEntryId,
    source_layout_node: UiLayoutNodeId,
    source_layout_slot: UiLayoutSlotId,
    source_geometry_node: UiLayoutGeometryNodeId,
    source_constraint_declaration: UiLayoutConstraintId,
    source_sizing_entry: UiLayoutSizingEntryId,
    source_sizing_algorithm_entry: UiLayoutSizingAlgorithmEntryId,
    source_measuring_entry: UiLayoutMeasuringEntryId,
    source_size_to_fit_entry: UiLayoutSizeToFitEntryId,
    source_render_node: UiRenderNodeId,
    source_projection_node: Option<UiProjectedNodeId>,
    source_ir_node: Option<UiIrNodeId>,
    kind: UiLayoutConstraintSolverKind,
    state: UiLayoutConstraintSolverState,
    order: usize,
}

impl UiLayoutConstraintSolverEntry {
    pub closed spec fn spec_id(self) -> UiLayoutConstraintSolverEntryId {
        self.id
    }

    pub closed spec fn spec_source_layout_node(self) -> UiLayoutNodeId {
        self.source_layout_node
    }

    pub closed spec fn spec_source_layout_slot(self) -> UiLayoutSlotId {
        self.source_layout_slot
    }

    pub closed spec fn spec_source_geometry_node(self) -> UiLayoutGeometryNodeId {
        self.source_geometry_node
    }

    pub closed spec fn spec_source_constraint_declaration(self) -> UiLayoutConstraintId {
        self.source_constraint_declaration
    }

    pub closed spec fn spec_source_sizing_entry(self) -> UiLayoutSizingEntryId {
        self.source_sizing_entry
    }

    pub closed spec fn spec_source_sizing_algorithm_entry(self) -> UiLayoutSizingAlgorithmEntryId {
        self.source_sizing_algorithm_entry
    }

    pub closed spec fn spec_source_measuring_entry(self) -> UiLayoutMeasuringEntryId {
        self.source_measuring_entry
    }

    pub closed spec fn spec_source_size_to_fit_entry(self) -> UiLayoutSizeToFitEntryId {
        self.source_size_to_fit_entry
    }

    pub closed spec fn spec_source_render_node(self) -> UiRenderNodeId {
        self.source_render_node
    }

    pub closed spec fn spec_source_projection_node(self) -> Option<UiProjectedNodeId> {
        self.source_projection_node
    }

    pub closed spec fn spec_source_ir_node(self) -> Option<UiIrNodeId> {
        self.source_ir_node
    }

    pub closed spec fn spec_kind(self) -> UiLayoutConstraintSolverKind {
        self.kind
    }

    pub closed spec fn spec_state(self) -> UiLayoutConstraintSolverState {
        self.state
    }

    pub closed spec fn spec_order(self) -> usize {
        self.order
    }

    pub fn id(&self) -> (r: UiLayoutConstraintSolverEntryId)
        ensures
            r == self.spec_id(),
    {
        self.id
    }

    pub fn source_layout_node(&self) -> (r: UiLayoutNodeId)
        ensures
            r == self.spec_source_layout_node(),
    {
        self.source_layout_node
    }

    pub fn source_layout_slot(&self) -> (r: UiLayoutSlotId)
        ensures
            r == self.spec_source_layout_slot(),
    {
        self.source_layout_slot
    }

    pub fn source_geometry_node(&self) -> (r: UiLayoutGeometryNodeId)
        ensures
            r == self.spec_source_geometry_node(),
    {
        self.source_geometry_node
    }

    pub fn source_constraint_declaration(&self) -> (r: UiLayoutConstraintId)
        ensures
            r == self.spec_source_constraint_declaration(),
    {
        self.source_constraint_declaration
    }

    pub fn source_sizing_entry(&self) -> (r: UiLayoutSizingEntryId)
        ensures
            r == self.spec_source_sizing_entry(),
    {
        self.source_sizing_entry
    }

    pub fn source_sizing_algorithm_entry(&self) -> (r: UiLayoutSizingAlgorithmEntryId)
        ensures
            r == self.spec_source_sizing_algorithm_entry(),
    {
        self.source_sizing_algorithm_entry
    }

    pub fn source_measuring_entry(&self) -> (r: UiLayoutMeasuringEntryId)
        ensures
            r == self.spec_source_measuring_entry(),
    {
        self.source_measuring_entry
    }

    pub fn source_size_to_fit_entry(&self) -> (r: UiLayoutSizeToFitEntryId)
        ensures
            r == self.spec_source_size_to_fit_entry(),
    {
        self.source_size_to_fit_entry
    }

    pub fn source_render_node(&self) -> (r: UiRenderNodeId)
        ensures
            r == self.spec_source_render_node(),
    {
        self.source_render_node
    }

    pub fn source_projection_node(&self) -> (r: Option<UiProjectedNodeId>)
        ensures
            r == self.spec_source_projection_node(),
    {
        self.source_projection_node
    }

    pub fn source_ir_node(&self) -> (r: Option<UiIrNodeId>)
        ensures
            r == self.spec_source_ir_node(),
    {
        self.source_ir_node
    }

    pub fn kind(&self) -> (r: UiLayoutConstraintSolverKind)
        ensures
            r == self.spec_kind(),
    {
        self.kind
    }

    pub fn state(&self) -> (r: UiLayoutConstraintSolverState)
        ensures
            r == self.spec_state(),
    {
        self.state
    }

    pub fn order(&self) -> (r: usize)
        ensures
            r == self.spec_order(),
    {
        self.order
    }
}

/// The constraint solver model: one deferred entry per size-to-fit entry.
#[derive(Debug, Clone, PartialEq, Eq)]
pub struct UiLayoutConstraintSolverModel {
    id: UiLayoutConstraintSolverModelId,
    source_layout_model: UiLayoutModelId,
    source_geometry_model: UiLayoutGeometryModelId,
    source_constraints_model: UiLayoutConstraintsModelId,
    source_sizing_model: UiLayoutSizingModelId,
    source_sizing_algorithm_model: UiLayoutSizingAlgorithmModelId,
    source_measuring_model: UiLayoutMeasuringModelId,
    source_size_to_fit_model: UiLayoutSizeToFitModelId,
    source_render_model: UiRenderModelId,
    source_projection: UiProjectionArtifactId,
    source_ir_root: Option<UiIrNodeId>,
    entries: Vec<UiLayoutConstraintSolverEntry>,
}

impl UiLayoutConstraintSolverModel {
    pub closed spec fn spec_id(self) -> UiLayoutConstraintSolverModelId {
        self.id
    }

    pub closed spec fn spec_source_layout_model(self) -> UiLayoutModelId {
        self.source_layout_model
    }

    pub closed spec fn spec_source_geometry_model(self) -> UiLayoutGeometryModelId {
        self.source_geometry_model
    }

    pub closed spec fn spec_source_constraints_model(self) -> UiLayoutConstraintsModelId {
        self.source_constraints_model
    }

    pub closed spec fn spec_source_sizing_model(self) -> UiLayoutSizingModelId {
        self.source_sizing_model
    }

    pub closed spec fn spec_source_sizing_algorithm_model(self) -> UiLayoutSizingAlgorithmModelId {
        self.source_sizing_algorithm_model
    }

    pub closed spec fn spec_source_measuring_model(self) -> UiLayoutMeasuringModelId {
        self.source_measuring_model
    }

    pub closed spec fn spec_source_size_to_fit_model(self) -> UiLayoutSizeToFitModelId {
        self.source_size_to_fit_model
    }

    pub closed spec fn spec_source_render_model(self) -> UiRenderModelId {
        self.source_render_model
    }

    pub closed spec fn spec_source_projection(self) -> UiProjectionArtifactId {
        self.source_projection
    }

    pub closed spec fn spec_source_ir_root(self) -> Option<UiIrNodeId> {
        self.source_ir_root
    }

    pub closed spec fn spec_entries(self) -> Seq<UiLayoutConstraintSolverEntry> {
        self.entries@
    }

    pub fn id(&self) -> (r: UiLayoutConstraintSolverModelId)
        ensures
            r == self.spec_id(),
    {
        self.id
    }

    pub fn source_layout_model(&self) -> (r: UiLayoutModelId)
        ensures
            r == self.spec_source_layout_model(),
    {
        self.source_layout_model
    }

    pub fn source_geometry_model(&self) -> (r: UiLayoutGeometryModelId)
        ensures
            r == self.spec_source_geometry_model(),
    {
        self.source_geometry_model
    }

    pub fn source_constraints_model(&self) -> (r: UiLayoutConstraintsModelId)
        ensures
            r == self.spec_source_constraints_model(),
    {
        self.source_constraints_model
    }

    pub fn source_sizing_model(&self) -> (r: UiLayoutSizingModelId)
        ensures
            r == self.spec_source_sizing_model(),
    {
        self.source_sizing_model
    }

    pub fn source_sizing_algorithm_model(&self) -> (r: UiLayoutSizingAlgorithmModelId)
        ensures
            r == self.spec_source_sizing_algorithm_model(),
    {
        self.source_sizing_algorithm_model
    }

    pub fn source_measuring_model(&self) -> (r: UiLayoutMeasuringModelId)
        ensures
            r == self.spec_source_measuring_model(),
    {
        self.source_measuring_model
    }

    pub fn source_size_to_fit_model(&self) -> (r: UiLayoutSizeToFitModelId)
        ensures
            r == self.spec_source_size_to_fit_model(),
    {
        self.source_size_to_fit_model
    }

    pub fn source_render_model(&self) -> (r: UiRenderModelId)
        ensures
            r == self.spec_source_render_model(),
    {
        self.source_render_model
    }

    pub fn source_projection(&self) -> (r: UiProjectionArtifactId)
        ensures
            r == self.spec_source_projection(),
    {
        self.source_projection
    }

    pub fn source_ir_root(&self) -> (r: Option<UiIrNodeId>)
        ensures
            r == self.spec_source_ir_root(),
    {
        self.source_ir_root
    }

    pub fn entries(&self) -> (r: &[UiLayoutConstraintSolverEntry])
        ensures
            r@ == self.spec_entries(),
    {
        self.entries.as_slice()
    }

    pub fn is_empty(&self) -> (r: bool)
        ensures
            r == (self.spec_entries().len() == 0),
    {
        self.entries.len() == 0
    }

    pub fn len(&self) -> (r: usize)
        ensures
            r == self.spec_entries().len(),
    {
        self.entries.len()
    }
}

/// The kind of the constraint solver entry at a position.
pub open spec fn constraint_solver_kind_at(order: int) -> UiLayoutConstraintSolverKind {
    if order % 3 == 0 {
        UiLayoutConstraintSolverKind::DeferredSolverIntent
    } else if order % 3 == 1 {
        UiLayoutConstraintSolverKind::UnavailableSolverResult
    } else {
        UiLayoutConstraintSolverKind::AuditOnly
    }
}

/// The state of the constraint solver entry at a position.
pub open spec fn constraint_solver_state_at(order: int) -> UiLayoutConstraintSolverState {
    UiLayoutConstraintSolverState::Deferred
}

/// The constraint solver entry at position `order` continues entry `p` of the previous stage: same raw identity and lineage, `p` as its source.
pub open spec fn constraint_solver_entry_from(e: UiLayoutConstraintSolverEntry, p: UiLayoutSizeToFitEntry, order: int) -> bool {
    &&& e.spec_id().spec_raw() == p.spec_id().spec_raw()
    &&& e.spec_source_layout_node() == p.spec_source_layout_node()
    &&& e.spec_source_layout_slot() == p.spec_source_layout_slot()
    &&& e.spec_source_geometry_node() == p.spec_source_geometry_node()
    &&& e.spec_source_constraint_declaration() == p.spec_source_constraint_declaration()
    &&& e.spec_source_sizing_entry() == p.spec_source_sizing_entry()
    &&& e.spec_source_sizing_algorithm_entry() == p.spec_source_sizing_algorithm_entry()
    &&& e.spec_source_measuring_entry() == p.spec_source_measuring_entry()
    &&& e.spec_source_render_node() == p.spec_source_render_node()
    &&& e.spec_source_projection_node() == p.spec_source_projection_node()
    &&& e.spec_source_ir_node() == p.spec_source_ir_node()
    &&& e.spec_source_size_to_fit_entry() == p.spec_id()
    &&& e.spec_kind() == constraint_solver_kind_at(order)
    &&& e.spec_state() == constraint_solver_state_at(order)
    &&& e.spec_order() == order
}

/// The constraint solver model continues model `m` of the previous stage: one entry per entry of `m`, in order.
pub open spec fn constraint_solver_model_from(r: UiLayoutConstraintSolverModel, m: UiLayoutSizeToFitModel) -> bool {
    &&& r.spec_id().spec_raw() == m.spec_id().spec_raw()
    &&& r.spec_source_layout_model() == m.spec_source_layout_model()
    &&& r.spec_source_geometry_model() == m.spec_source_geometry_model()
    &&& r.spec_source_constraints_model() == m.spec_source_constraints_model()
    &&& r.spec_source_sizing_model() == m.spec_source_sizing_model()
    &&& r.spec_source_sizing_algorithm_model() == m.spec_source_sizing_algorithm_model()
    &&& r.spec_source_measuring_model() == m.spec_source_measuring_model()
    &&& r.spec_source_render_model() == m.spec_source_render_model()
    &&& r.spec_source_projection() == m.spec_source_projection()
    &&& r.spec_source_ir_root() == m.spec_source_ir_root()
    &&& r.spec_source_size_to_fit_model() == m.spec_id()
    &&& r.spec_entries().len() == m.spec_entries().len()
    &&& forall|i: int|
        #![trigger r.spec_entries()[i]]
        0 <= i < r.spec_entries().len() ==> constraint_solver_entry_from(r.spec_entries()[i], m.spec_entries()[i], i)
}

/// Derives the constraint solver stage from the previous stage of layout.
pub fn build_layout_constraint_solver(model: &UiLayoutSizeToFitModel) -> (r: UiLayoutConstraintSolverModel)
    ensures
        constraint_solver_model_from(r, *model),
{
    let source = model.entries();
    let mut entries: Vec<UiLayoutConstraintSolverEntry> = Vec::with_capacity(source.len());
    let mut order: usize = 0;
    while order < source.len()
        invariant
            source@ == model.spec_entries(),
            order <= source@.len(),
            entries@.len() == order,
            forall|i: int|
                #![trigger entries@[i]]
                0 <= i < order ==> constraint_solver_entry_from(entries@[i], source@[i], i),
        decreases source@.len() - order,
    {
        let prev = &source[order];
        let kind = if order % 3 == 0 {
            UiLayoutConstraintSolverKind::DeferredSolverIntent
        } else if order % 3 == 1 {
            UiLayoutConstraintSolverKind::UnavailableSolverResult
        } else {
            UiLayoutConstraintSolverKind::AuditOnly
        };
        let state = UiLayoutConstraintSolverState::Deferred;
        entries.push(UiLayoutConstraintSolverEntry {
            id: UiLayoutConstraintSolverEntryId::new(prev.id().raw()),
            source_layout_node: prev.source_layout_node(),
            source_layout_slot: prev.source_layout_slot(),
            source_geometry_node: prev.source_geometry_node(),
            source_constraint_declaration: prev.source_constraint_declaration(),
            source_sizing_entry: prev.source_sizing_entry(),
            source_sizing_algorithm_entry: prev.source_sizing_algorithm_entry(),
            source_measuring_entry: prev.source_measuring_entry(),
            source_size_to_fit_entry: prev.id(),
            source_render_node: prev.source_render_node(),
            source_projection_node: prev.source_projection_node(),
            source_ir_node: prev.source_ir_node(),
            kind,
            state,
            order,
        });
        order += 1;
    }
    UiLayoutConstraintSolverModel {
        id: UiLayoutConstraintSolverModelId::new(model.id().raw()),
        source_layout_model: model.source_layout_model(),
        source_geometry_model: model.source_geometry_model(),
        source_constraints_model: model.source_constraints_model(),
        source_sizing_model: model.source_sizing_model(),
        source_sizing_algorithm_model: model.source_sizing_algorithm_model(),
        source_measuring_model: model.source_measuring_model(),
        source_size_to_fit_model: model.id(),
        source_render_model: model.source_render_model(),
        source_projection: model.source_projection(),
        source_ir_root: model.source_ir_root(),
        entries,
    }
}

} // verus!
