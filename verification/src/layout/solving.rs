//! The solving and solving result stages of layout.
use vstd::prelude::*;
use crate::model::UiIrNodeId;
use crate::projection::{UiProjectedNodeId, UiProjectionArtifactId};
use crate::renderer::{UiRenderModelId, UiRenderNodeId};
use crate::layout::base::{UiLayoutModelId, UiLayoutNodeId, UiLayoutSlotId};
use crate::layout::geometry::{UiLayoutGeometryModelId, UiLayoutGeometryNodeId};
use crate::layout::constraints::{UiLayoutConstraintId, UiLayoutConstraintsModelId};
use crate::layout::sizing::{UiLayoutSizingEntryId, UiLayoutSizingModelId};
use crate::layout::sizing_algorithm::{UiLayoutSizingAlgorithmEntryId, UiLayoutSizingAlgorithmModelId};
use crate::layout::measuring::{UiLayoutMeasuringEntryId, UiLayoutMeasuringModelId};
use crate::layout::size_to_fit::{UiLayoutSizeToFitEntryId, UiLayoutSizeToFitModelId};
use crate::layout::constraint_solver::{UiLayoutConstraintSolverEntry, UiLayoutConstraintSolverEntryId, UiLayoutConstraintSolverModel, UiLayoutConstraintSolverModelId};

verus! {

/// Identity of a solving model.
#[derive(Debug, Clone, Copy, PartialEq, Eq, Hash, Structural)]
pub struct UiLayoutSolvingModelId(u64);

impl UiLayoutSolvingModelId {
    pub closed spec fn spec_raw(self) -> u64 {
        self.0
    }

    pub fn new(raw: u64) -> (r: Self)
        ensures
            r.spec_raw() == raw,
    {
        Self(raw)
    }

    pub fn raw(&self) -> (r: u64)
        ensures
            r == self.spec_raw(),
    {
        self.0
    }
}

/// Identity of a solving entry.
#[derive(Debug, Clone, Copy, PartialEq, Eq, Hash, Structural)]
pub struct UiLayoutSolvingEntryId(u64);

impl UiLayoutSolvingEntryId {
    pub closed spec fn spec_raw(self) -> u64 {
        self.0
    }

    pub fn new(raw: u64) -> (r: Self)
        ensures
            r.spec_raw() == raw,
    {
        Self(raw)
    }

    pub fn raw(&self) -> (r: u64)
        ensures
            r == self.spec_raw(),
    {
        self.0
    }
}

/// The kind of a solving entry.
#[derive(Debug, Clone, Copy, PartialEq, Eq, Structural)]
pub enum UiLayoutSolvingKind {
    DeferredIntent,
    UnavailableResult,
    AuditOnly,
}

/// The state of a solving entry.
#[derive(Debug, Clone, Copy, PartialEq, Eq, Structural)]
pub enum UiLayoutSolvingState {
    Deferred,
}

/// A solving entry for one constraint solver entry.
#[derive(Debug, Clone, Copy, PartialEq, Eq, Structural)]
pub struct UiLayoutSolvingEntry {
    id: UiLayoutSolvingEntryId,
    source_layout_node: UiLayoutNodeId,
    source_layout_slot: UiLayoutSlotId,
    source_geometry_node: UiLayoutGeometryNodeId,
    source_constraint_declaration: UiLayoutConstraintId,
    source_sizing_entry: UiLayoutSizingEntryId,
    source_sizing_algorithm_entry: UiLayoutSizingAlgorithmEntryId,
    source_measuring_entry: UiLayoutMeasuringEntryId,
    source_size_to_fit_entry: UiLayoutSizeToFitEntryId,
    source_constraint_solver_entry: UiLayoutConstraintSolverEntryId,
    source_render_node: UiRenderNodeId,
    source_projection_node: Option<UiProjectedNodeId>,
    source_ir_node: Option<UiIrNodeId>,
    kind: UiLayoutSolvingKind,
    state: UiLayoutSolvingState,
    order: usize,
}

impl UiLayoutSolvingEntry {
    pub closed spec fn spec_id(self) -> UiLayoutSolvingEntryId {
        self.id
    }

    pub closed spec fn spec_source_layout_node(self) -> UiLayoutNodeId {
        self.source_layout_node
    }

    pub closed spec fn spec_source_layout_slot(self) -> UiLayoutSlotId {
        self.source_layout_slot
    }

    pub closed spec fn spec_source_geometry_node(self) -> UiLayoutGeometryNodeId {
        self.source_geometry_node
    }

    pub closed spec fn spec_source_constraint_declaration(self) -> UiLayoutConstraintId {
        self.source_constraint_declaration
    }

    pub closed spec fn spec_source_sizing_entry(self) -> UiLayoutSizingEntryId {
        self.source_sizing_entry
    }

    pub closed spec fn spec_source_sizing_algorithm_entry(self) -> UiLayoutSizingAlgorithmEntryId {
        self.source_sizing_algorithm_entry
    }

    pub closed spec fn spec_source_measuring_entry(self) -> UiLayoutMeasuringEntryId {
        self.source_measuring_entry
    }

    pub closed spec fn spec_source_size_to_fit_entry(self) -> UiLayoutSizeToFitEntryId {
        self.source_size_to_fit_entry
    }

    pub closed spec fn spec_source_constraint_solver_entry(self) -> UiLayoutConstraintSolverEntryId {
        self.source_constraint_solver_entry
    }

    pub closed spec fn spec_source_render_node(self) -> UiRenderNodeId {
        self.source_render_node
    }

    pub closed spec fn spec_source_projection_node(self) -> Option<UiProjectedNodeId> {
        self.source_projection_node
    }

    pub closed spec fn spec_source_ir_node(self) -> Option<UiIrNodeId> {
        self.source_ir_node
    }

    pub closed spec fn spec_kind(self) -> UiLayoutSolvingKind {
        self.kind
    }

    pub closed spec fn spec_state(self) -> UiLayoutSolvingState {
        self.state
    }

    pub closed spec fn spec_order(self) -> usize {
        self.order
    }

    pub fn id(&self) -> (r: UiLayoutSolvingEntryId)
        ensures
            r == self.spec_id(),
    {
        self.id
    }

    pub fn source_layout_node(&self) -> (r: UiLayoutNodeId)
        ensures
            r == self.spec_source_layout_node(),
    {
        self.source_layout_node
    }

    pub fn source_layout_slot(&self) -> (r: UiLayoutSlotId)
        ensures
            r == self.spec_source_layout_slot(),
    {
        self.source_layout_slot
    }

    pub fn source_geometry_node(&self) -> (r: UiLayoutGeometryNodeId)
        ensures
            r == self.spec_source_geometry_node(),
    {
        self.source_geometry_node
    }

    pub fn source_constraint_declaration(&self) -> (r: UiLayoutConstraintId)
        ensures
            r == self.spec_source_constraint_declaration(),
    {
        self.source_constraint_declaration
    }

    pub fn source_sizing_entry(&self) -> (r: UiLayoutSizingEntryId)
        ensures
            r == self.spec_source_sizing_entry(),
    {
        self.source_sizing_entry
    }

    pub fn source_sizing_algorithm_entry(&self) -> (r: UiLayoutSizingAlgorithmEntryId)
        ensures
            r == self.spec_source_sizing_algorithm_entry(),
    {
        self.source_sizing_algorithm_entry
    }

    pub fn source_measuring_entry(&self) -> (r: UiLayoutMeasuringEntryId)
        ensures
            r == self.spec_source_measuring_entry(),
    {
        self.source_measuring_entry
    }

    pub fn source_size_to_fit_entry(&self) -> (r: UiLayoutSizeToFitEntryId)
        ensures
            r == self.spec_source_size_to_fit_entry(),
    {
        self.source_size_to_fit_entry
    }

    pub fn source_constraint_solver_entry(&self) -> (r: UiLayoutConstraintSolverEntryId)
        ensures
            r == self.spec_source_constraint_solver_entry(),
    {
        self.source_constraint_solver_entry
    }

    pub fn source_render_node(&self) -> (r: UiRenderNodeId)
        ensures
            r == self.spec_source_render_node(),
    {
        self.source_render_node
    }

    pub fn source_projection_node(&self) -> (r: Option<UiProjectedNodeId>)
        ensures
            r == self.spec_source_projection_node(),
    {
        self.source_projection_node
    }

    pub fn source_ir_node(&self) -> (r: Option<UiIrNodeId>)
        ensures
            r == self.spec_source_ir_node(),
    {
        self.source_ir_node
    }

    pub fn kind(&self) -> (r: UiLayoutSolvingKind)
        ensures
            r == self.spec_kind(),
    {
        self.kind
    }

    pub fn state(&self) -> (r: UiLayoutSolvingState)
        ensures
            r == self.spec_state(),
    {
        self.state
    }

    pub fn order(&self) -> (r: usize)
        ensures
            r == self.spec_order(),
    {
        self.order
    }
}

/// The solving model: one deferred entry per constraint solver entry.
#[derive(Debug, Clone, PartialEq, Eq)]
pub struct UiLayoutSolvingModel {
    id: UiLayoutSolvingModelId,
    source_layout_model: UiLayoutModelId,
    source_geometry_model: UiLayoutGeometryModelId,
    source_constraints_model: UiLayoutConstraintsModelId,
    source_sizing_model: UiLayoutSizingModelId,
    source_sizing_algorithm_model: UiLayoutSizingAlgorithmModelId,
    source_measuring_model: UiLayoutMeasuringModelId,
    source_size_to_fit_model: UiLayoutSizeToFitModelId,
    source_constraint_solver_model: UiLayoutConstraintSolverModelId,
    source_render_model: UiRenderModelId,
    source_projection: UiProjectionArtifactId,
    source_ir_root: Option<UiIrNodeId>,
    entries: Vec<UiLayoutSolvingEntry>,
}

impl UiLayoutSolvingModel {
    pub closed spec fn spec_id(self) -> UiLayoutSolvingModelId {
        self.id
    }

    pub closed spec fn spec_source_layout_model(self) -> UiLayoutModelId {
        self.source_layout_model
    }

    pub closed spec fn spec_source_geometry_model(self) -> UiLayoutGeometryModelId {
        self.source_geometry_model
    }

    pub closed spec fn spec_source_constraints_model(self) -> UiLayoutConstraintsModelId {
        self.source_constraints_model
    }

    pub closed spec fn spec_source_sizing_model(self) -> UiLayoutSizingModelId {
        self.source_sizing_model
    }

    pub closed spec fn spec_source_sizing_algorithm_model(self) -> UiLayoutSizingAlgorithmModelId {
        self.source_sizing_algorithm_model
    }

    pub closed spec fn spec_source_measuring_model(self) -> UiLayoutMeasuringModelId {
        self.source_measuring_model
    }

    pub closed spec fn spec_source_size_to_fit_model(self) -> UiLayoutSizeToFitModelId {
        self.source_size_to_fit_model
    }

    pub closed spec fn spec_source_constraint_solver_model(self) -> UiLayoutConstraintSolverModelId {
        self.source_constraint_solver_model
    }

    pub closed spec fn spec_source_render_model(self) -> UiRenderModelId {
        self.source_render_model
    }

    pub closed spec fn spec_source_projection(self) -> UiProjectionArtifactId {
        self.source_projection
    }

    pub closed spec fn spec_source_ir_root(self) -> Option<UiIrNodeId> {
        self.source_ir_root
    }

    pub closed spec fn spec_entries(self) -> Seq<UiLayoutSolvingEntry> {
        self.entries@
    }

    pub fn id(&self) -> (r: UiLayoutSolvingModelId)
        ensures
            r == self.spec_id(),
    {
        self.id
    }

    pub fn source_layout_model(&self) -> (r: UiLayoutModelId)
        ensures
            r == self.spec_source_layout_model(),
    {
        self.source_layout_model
    }

    pub fn source_geometry_model(&self) -> (r: UiLayoutGeometryModelId)
        ensures
            r == self.spec_source_geometry_model(),
    {
        self.source_geometry_model
    }

    pub fn source_constraints_model(&self) -> (r: UiLayoutConstraintsModelId)
        ensures
            r == self.spec_source_constraints_model(),
    {
        self.source_constraints_model
    }

    pub fn source_sizing_model(&self) -> (r: UiLayoutSizingModelId)
        ensures
            r == self.spec_source_sizing_model(),
    {
        self.source_sizing_model
    }

    pub fn source_sizing_algorithm_model(&self) -> (r: UiLayoutSizingAlgorithmModelId)
        ensures
            r == self.spec_source_sizing_algorithm_model(),
    {
        self.source_sizing_algorithm_model
    }

    pub fn source_measuring_model(&self) -> (r: UiLayoutMeasuringModelId)
        ensures
            r == self.spec_source_measuring_model(),
    {
        self.source_measuring_model
    }

    pub fn source_size_to_fit_model(&self) -> (r: UiLayoutSizeToFitModelId)
        ensures
            r == self.spec_source_size_to_fit_model(),
    {
        self.source_size_to_fit_model
    }

    pub fn source_constraint_solver_model(&self) -> (r: UiLayoutConstraintSolverModelId)
        ensures
            r == self.spec_source_constraint_solver_model(),
    {
        self.source_constraint_solver_model
    }

    pub fn source_render_model(&self) -> (r: UiRenderModelId)
        ensures
            r == self.spec_source_render_model(),
    {
        self.source_render_model
    }

    pub fn source_projection(&self) -> (r: UiProjectionArtifactId)
        ensures
            r == self.spec_source_projection(),
    {
        self.source_projection
    }

    pub fn source_ir_root(&self) -> (r: Option<UiIrNodeId>)
        ensures
            r == self.spec_source_ir_root(),
    {
        self.source_ir_root
    }

    pub fn entries(&self) -> (r: &[UiLayoutSolvingEntry])
        ensures
            r@ == self.spec_entries(),
    {
        self.entries.as_slice()
    }

    pub fn is_empty(&self) -> (r: bool)
        ensures
            r == (self.spec_entries().len() == 0),
    {
        self.entries.len() == 0
    }

    pub fn len(&self) -> (r: usize)
        ensures
            r == self.spec_entries().len(),
    {
        self.entries.len()
    }
}

/// The kind of the solving entry at a position.
pub open spec fn solving_kind_at(order: int) -> UiLayoutSolvingKind {
    if order % 3 == 0 {
        UiLayoutSolvingKind::DeferredIntent
    } else if order % 3 == 1 {
        UiLayoutSolvingKind::UnavailableResult
    } else {
        UiLayoutSolvingKind::AuditOnly
    }
}

/// The state of the solving entry at a position.
pub open spec fn solving_state_at(order: int) -> UiLayoutSolvingState {
    UiLayoutSolvingState::Deferred
}

/// The solving entry at position `order` continues entry `p` of the previous stage: same raw identity and lineage, `p` as its source.
pub open spec fn solving_entry_from(e: UiLayoutSolvingEntry, p: UiLayoutConstraintSolverEntry, order: int) -> bool {
    &&& e.spec_id().spec_raw() == p.spec_id().spec_raw()
    &&& e.spec_source_layout_node() == p.spec_source_layout_node()
    &&& e.spec_source_layout_slot() == p.spec_source_layout_slot()
    &&& e.spec_source_geometry_node() == p.spec_source_geometry_node()
    &&& e.spec_source_constraint_declaration() == p.spec_source_constraint_declaration()
    &&& e.spec_source_sizing_entry() == p.spec_source_sizing_entry()
    &&& e.spec_source_sizing_algorithm_entry() == p.spec_source_sizing_algorithm_entry()
    &&& e.spec_source_measuring_entry() == p.spec_source_measuring_entry()
    &&& e.spec_source_size_to_fit_entry() == p.spec_source_size_to_fit_entry()
    &&& e.spec_source_render_node() == p.spec_source_render_node()
    &&& e.spec_source_projection_node() == p.spec_source_projection_node()
    &&& e.spec_source_ir_node() == p.spec_source_ir_node()
    &&& e.spec_source_constraint_solver_entry() == p.spec_id()
    &&& e.spec_kind() == solving_kind_at(order)
    &&& e.spec_state() == solving_state_at(order)
    &&& e.spec_order() == order
}

/// The solving model continues model `m` of the previous stage: one entry per entry of `m`, in order.
pub open spec fn solving_model_from(r: UiLayoutSolvingModel, m: UiLayoutConstraintSolverModel) -> bool {
    &&& r.spec_id().spec_raw() == m.spec_id().spec_raw()
    &&& r.spec_source_layout_model() == m.spec_source_layout_model()
    &&& r.spec_source_geometry_model() == m.spec_source_geometry_model()
    &&& r.spec_source_constraints_model() == m.spec_source_constraints_model()
    &&& r.spec_source_sizing_model() == m.spec_source_sizing_model()
    &&& r.spec_source_sizing_algorithm_model() == m.spec_source_sizing_algorithm_model()
    &&& r.spec_source_measuring_model() == m.spec_source_measuring_model()
    &&& r.spec_source_size_to_fit_model() == m.spec_source_size_to_fit_model()
    &&& r.spec_source_render_model() == m.spec_source_render_model()
    &&& r.spec_source_projection() == m.spec_source_projection()
    &&& r.spec_source_ir_root() == m.spec_source_ir_root()
    &&& r.spec_source_constraint_solver_model() == m.spec_id()
    &&& r.spec_entries().len() == m.spec_entries().len()
    &&& forall|i: int|
        #![trigger r.spec_entries()[i]]
        0 <= i < r.spec_entries().len() ==> solving_entry_from(r.spec_entries()[i], m.spec_entries()[i], i)
}

/// Derives the solving stage from the previous stage of layout.
pub fn build_layout_solving(model: &UiLayoutConstraintSolverModel) -> (r: UiLayoutSolvingModel)
    ensures
        solving_model_from(r, *model),
{
    let source = model.entries();
    let mut entries: Vec<UiLayoutSolvingEntry> = Vec::with_capacity(source.len());
    let mut order: usize = 0;
    while order < source.len()
        invariant
            source@ == model.spec_entries(),
            order <= source@.len(),
            entries@.len() == order,
            forall|i: int|
                #![trigger entries@[i]]
                0 <= i < order ==> solving_entry_from(entries@[i], source@[i], i),
        decreases source@.len() - order,
    {
        let prev = &source[order];
        let kind = if order % 3 == 0 {
            UiLayoutSolvingKind::DeferredIntent
        } else if order % 3 == 1 {
            UiLayoutSolvingKind::UnavailableResult
        } else {
            UiLayoutSolvingKind::AuditOnly
        };
        let state = UiLayoutSolvingState::Deferred;
        entries.push(UiLayoutSolvingEntry {
            id: UiLayoutSolvingEntryId::new(prev.id().raw()),
            source_layout_node: prev.source_layout_node(),
            source_layout_slot: prev.source_layout_slot(),
            source_geometry_node: prev.source_geometry_node(),
            source_constraint_declaration: prev.source_constraint_declaration(),
            source_sizing_entry: prev.source_sizing_entry(),
            source_sizing_algorithm_entry: prev.source_sizing_algorithm_entry(),
            source_measuring_entry: prev.source_measuring_entry(),
            source_size_to_fit_entry: prev.source_size_to_fit_entry(),
            source_constraint_solver_entry: prev.id(),
            source_render_node: prev.source_render_node(),
            source_projection_node: prev.source_projection_node(),
            source_ir_node: prev.source_ir_node(),
            kind,
            state,
            order,
        });
        order += 1;
    }
    UiLayoutSolvingModel {
        id: UiLayoutSolvingModelId::new(model.id().raw()),
        source_layout_model: model.source_layout_model(),
        source_geometry_model: model.source_geometry_model(),
        source_constraints_model: model.source_constraints_model(),
        source_sizing_model: model.source_sizing_model(),
        source_sizing_algorithm_model: model.source_sizing_algorithm_model(),
        source_measuring_model: model.source_measuring_model(),
        source_size_to_fit_model: model.source_size_to_fit_model(),
        source_constraint_solver_model: model.id(),
        source_render_model: model.source_render_model(),
        source_projection: model.source_projection(),
        source_ir_root: model.source_ir_root(),
        entries,
    }
}

/// Identity of a solving result model.
#[derive(Debug, Clone, Copy, PartialEq, Eq, Hash, Structural)]
pub struct UiLayoutSolvingResultModelId(u64);

impl UiLayoutSolvingResultModelId {
    pub closed spec fn spec_raw(self) -> u64 {
        self.0
    }

    pub fn new(raw: u64) -> (r: Self)
        ensures
            r.spec_raw() == raw,
    {
        Self(raw)
    }

    pub fn raw(&self) -> (r: u64)
        ensures
            r == self.spec_raw(),
    {
        self.0
    }
}

/// Identity of a solving result entry.
#[derive(Debug, Clone, Copy, PartialEq, Eq, Hash, Structural)]
pub struct UiLayoutSolvingResultEntryId(u64);

impl UiLayoutSolvingResultEntryId {
    pub closed spec fn spec_raw(self) -> u64 {
        self.0
    }

    pub fn new(raw: u64) -> (r: Self)
        ensures
            r.spec_raw() == raw,
    {
        Self(raw)
    }

    pub fn raw(&self) -> (r: u64)
        ensures
            r == self.spec_raw(),
    {
        self.0
    }
}

/// The kind of a solving result entry.
#[derive(Debug, Clone, Copy, PartialEq, Eq, Structural)]
pub enum UiLayoutSolvingResultKind {
    Derived,
}

/// The state of a solving result entry.
#[derive(Debug, Clone, Copy, PartialEq, Eq, Structural)]
pub enum UiLayoutSolvingResultState {
    Deferred,
    MetadataOnly,
}

/// A solving result entry for one solving entry.
#[derive(Debug, Clone, Copy, PartialEq, Eq, Structural)]
pub struct UiLayoutSolvingResultEntry {
    id: UiLayoutSolvingResultEntryId,
    source_layout_node: UiLayoutNodeId,
    source_layout_slot: UiLayoutSlotId,
    source_geometry_node: UiLayoutGeometryNodeId,
    source_constraint_declaration: UiLayoutConstraintId,
    source_sizing_entry: UiLayoutSizingEntryId,
    source_sizing_algorithm_entry: UiLayoutSizingAlgorithmEntryId,
    source_measuring_entry: UiLayoutMeasuringEntryId,
    source_size_to_fit_entry: UiLayoutSizeToFitEntryId,
    source_constraint_solver_entry: UiLayoutConstraintSolverEntryId,
    source_solving_entry: UiLayoutSolvingEntryId,
    source_render_node: UiRenderNodeId,
    source_projection_node: Option<UiProjectedNodeId>,
    source_ir_node: Option<UiIrNodeId>,
    kind: UiLayoutSolvingResultKind,
    state: UiLayoutSolvingResultState,
    order: usize,
}

impl UiLayoutSolvingResultEntry {
    pub closed spec fn spec_id(self) -> UiLayoutSolvingResultEntryId {
        self.id
    }

    pub closed spec fn spec_source_layout_node(self) -> UiLayoutNodeId {
        self.source_layout_node
    }

    pub closed spec fn spec_source_layout_slot(self) -> UiLayoutSlotId {
        self.source_layout_slot
    }

    pub closed spec fn spec_source_geometry_node(self) -> UiLayoutGeometryNodeId {
        self.source_geometry_node
    }

    pub closed spec fn spec_source_constraint_declaration(self) -> UiLayoutConstraintId {
        self.source_constraint_declaration
    }

    pub closed spec fn spec_source_sizing_entry(self) -> UiLayoutSizingEntryId {
        self.source_sizing_entry
    }

    pub closed spec fn spec_source_sizing_algorithm_entry(self) -> UiLayoutSizingAlgorithmEntryId {
        self.source_sizing_algorithm_entry
    }

    pub closed spec fn spec_source_measuring_entry(self) -> UiLayoutMeasuringEntryId {
        self.source_measuring_entry
    }

    pub closed spec fn spec_source_size_to_fit_entry(self) -> UiLayoutSizeToFitEntryId {
        self.source_size_to_fit_entry
    }

    pub closed spec fn spec_source_constraint_solver_entry(self) -> UiLayoutConstraintSolverEntryId {
        self.source_constraint_solver_entry
    }

    pub closed spec fn spec_source_solving_entry(self) -> UiLayoutSolvingEntryId {
        self.source_solving_entry
    }

    pub closed spec fn spec_source_render_node(self) -> UiRenderNodeId {
        self.source_render_node
    }

    pub closed spec fn spec_source_projection_node(self) -> Option<UiProjectedNodeId> {
        self.source_projection_node
    }

    pub closed spec fn spec_source_ir_node(self) -> Option<UiIrNodeId> {
        self.source_ir_node
    }

    pub closed spec fn spec_kind(self) -> UiLayoutSolvingResultKind {
        self.kind
    }

    pub closed spec fn spec_state(self) -> UiLayoutSolvingResultState {
        self.state
    }

    pub closed spec fn spec_order(self) -> usize {
        self.order
    }

    pub fn id(&self) -> (r: UiLayoutSolvingResultEntryId)
        ensures
            r == self.spec_id(),
    {
        self.id
    }

    pub fn source_layout_node(&self) -> (r: UiLayoutNodeId)
        ensures
            r == self.spec_source_layout_node(),
    {
        self.source_layout_node
    }

    pub fn source_layout_slot(&self) -> (r: UiLayoutSlotId)
        ensures
            r == self.spec_source_layout_slot(),
    {
        self.source_layout_slot
    }

    pub fn source_geometry_node(&self) -> (r: UiLayoutGeometryNodeId)
        ensures
            r == self.spec_source_geometry_node(),
    {
        self.source_geometry_node
    }

    pub fn source_constraint_declaration(&self) -> (r: UiLayoutConstraintId)
        ensures
            r == self.spec_source_constraint_declaration(),
    {
        self.source_constraint_declaration
    }

    pub fn source_sizing_entry(&self) -> (r: UiLayoutSizingEntryId)
        ensures
            r == self.spec_source_sizing_entry(),
    {
        self.source_sizing_entry
    }

    pub fn source_sizing_algorithm_entry(&self) -> (r: UiLayoutSizingAlgorithmEntryId)
        ensures
            r == self.spec_source_sizing_algorithm_entry(),
    {
        self.source_sizing_algorithm_entry
    }

    pub fn source_measuring_entry(&self) -> (r: UiLayoutMeasuringEntryId)
        ensures
            r == self.spec_source_measuring_entry(),
    {
        self.source_measuring_entry
    }

    pub fn source_size_to_fit_entry(&self) -> (r: UiLayoutSizeToFitEntryId)
        ensures
            r == self.spec_source_size_to_fit_entry(),
    {
        self.source_size_to_fit_entry
    }

    pub fn source_constraint_solver_entry(&self) -> (r: UiLayoutConstraintSolverEntryId)
        ensures
            r == self.spec_source_constraint_solver_entry(),
    {
        self.source_constraint_solver_entry
    }

    pub fn source_solving_entry(&self) -> (r: UiLayoutSolvingEntryId)
        ensures
            r == self.spec_source_solving_entry(),
    {
        self.source_solving_entry
    }

    pub fn source_render_node(&self) -> (r: UiRenderNodeId)
        ensures
            r == self.spec_source_render_node(),
    {
        self.source_render_node
    }

    pub fn source_projection_node(&self) -> (r: Option<UiProjectedNodeId>)
        ensures
            r == self.spec_source_projection_node(),
    {
        self.source_projection_node
    }

    pub fn source_ir_node(&self) -> (r: Option<UiIrNodeId>)
        ensures
            r == self.spec_source_ir_node(),
    {
        self.source_ir_node
    }

    pub fn kind(&self) -> (r: UiLayoutSolvingResultKind)
        ensures
            r == self.spec_kind(),
    {
        self.kind
    }

    pub fn state(&self) -> (r: UiLayoutSolvingResultState)
        ensures
            r == self.spec_state(),
    {
        self.state
    }

    pub fn order(&self) -> (r: usize)
        ensures
            r == self.spec_order(),
    {
        self.order
    }
}

/// The solving result model: one derived entry per solving entry.
#[derive(Debug, Clone, PartialEq, Eq)]
pub struct UiLayoutSolvingResultModel {
    id: UiLayoutSolvingResultModelId,
    source_layout_model: UiLayoutModelId,
    source_geometry_model: UiLayoutGeometryModelId,
    source_constraints_model: UiLayoutConstraintsModelId,
    source_sizing_model: UiLayoutSizingModelId,
    source_sizing_algorithm_model: UiLayoutSizingAlgorithmModelId,
    source_measuring_model: UiLayoutMeasuringModelId,
    source_size_to_fit_model: UiLayoutSizeToFitModelId,
    source_constraint_solver_model: UiLayoutConstraintSolverModelId,
    source_solving_model: UiLayoutSolvingModelId,
    source_render_model: UiRenderModelId,
    source_projection: UiProjectionArtifactId,
    source_ir_root: Option<UiIrNodeId>,
    entries: Vec<UiLayoutSolvingResultEntry>,
}

impl UiLayoutSolvingResultModel {
    pub closed spec fn spec_id(self) -> UiLayoutSolvingResultModelId {
        self.id
    }

    pub closed spec fn spec_source_layout_model(self) -> UiLayoutModelId {
        self.source_layout_model
    }

    pub closed spec fn spec_source_geometry_model(self) -> UiLayoutGeometryModelId {
        self.source_geometry_model
    }

    pub closed spec fn spec_source_constraints_model(self) -> UiLayoutConstraintsModelId {
        self.source_constraints_model
    }

    pub closed spec fn spec_source_sizing_model(self) -> UiLayoutSizingModelId {
        self.source_sizing_model
    }

    pub closed spec fn spec_source_sizing_algorithm_model(self) -> UiLayoutSizingAlgorithmModelId {
        self.source_sizing_algorithm_model
    }

    pub closed spec fn spec_source_measuring_model(self) -> UiLayoutMeasuringModelId {
        self.source_measuring_model
    }

    pub closed spec fn spec_source_size_to_fit_model(self) -> UiLayoutSizeToFitModelId {
        self.source_size_to_fit_model
    }

    pub closed spec fn spec_source_constraint_solver_model(self) -> UiLayoutConstraintSolverModelId {
        self.source_constraint_solver_model
    }

    pub closed spec fn spec_source_solving_model(self) -> UiLayoutSolvingModelId {
        self.source_solving_model
    }

    pub closed spec fn spec_source_render_model(self) -> UiRenderModelId {
        self.source_render_model
    }

    pub closed spec fn spec_source_projection(self) -> UiProjectionArtifactId {
        self.source_projection
    }

    pub closed spec fn spec_source_ir_root(self) -> Option<UiIrNodeId> {
        self.source_ir_root
    }

    pub closed spec fn spec_entries(self) -> Seq<UiLayoutSolvingResultEntry> {
        self.entries@
    }

    pub fn id(&self) -> (r: UiLayoutSolvingResultModelId)
        ensures
            r == self.spec_id(),
    {
        self.id
    }

    pub fn source_layout_model(&self) -> (r: UiLayoutModelId)
        ensures
            r == self.spec_source_layout_model(),
    {
        self.source_layout_model
    }

    pub fn source_geometry_model(&self) -> (r: UiLayoutGeometryModelId)
        ensures
            r == self.spec_source_geometry_model(),
    {
        self.source_geometry_model
    }

    pub fn source_constraints_model(&self) -> (r: UiLayoutConstraintsModelId)
        ensures
            r == self.spec_source_constraints_model(),
    {
        self.source_constraints_model
    }

    pub fn source_sizing_model(&self) -> (r: UiLayoutSizingModelId)
        ensures
            r == self.spec_source_sizing_model(),
    {
        self.source_sizing_model
    }

    pub fn source_sizing_algorithm_model(&self) -> (r: UiLayoutSizingAlgorithmModelId)
        ensures
            r == self.spec_source_sizing_algorithm_model(),
    {
        self.source_sizing_algorithm_model
    }

    pub fn source_measuring_model(&self) -> (r: UiLayoutMeasuringModelId)
        ensures
            r == self.spec_source_measuring_model(),
    {
        self.source_measuring_model
    }

    pub fn source_size_to_fit_model(&self) -> (r: UiLayoutSizeToFitModelId)
        ensures
            r == self.spec_source_size_to_fit_model(),
    {
        self.source_size_to_fit_model
    }

    pub fn source_constraint_solver_model(&self) -> (r: UiLayoutConstraintSolverModelId)
        ensures
            r == self.spec_source_constraint_solver_model(),
    {
        self.source_constraint_solver_model
    }

    pub fn source_solving_model(&self) -> (r: UiLayoutSolvingModelId)
        ensures
            r == self.spec_source_solving_model(),
    {
        self.source_solving_model
    }

    pub fn source_render_model(&self) -> (r: UiRenderModelId)
        ensures
            r == self.spec_source_render_model(),
    {
        self.source_render_model
    }

    pub fn source_projection(&self) -> (r: UiProjectionArtifactId)
        ensures
            r == self.spec_source_projection(),
    {
        self.source_projection
    }

    pub fn source_ir_root(&self) -> (r: Option<UiIrNodeId>)
        ensures
            r == self.spec_source_ir_root(),
    {
        self.source_ir_root
    }

    pub fn entries(&self) -> (r: &[UiLayoutSolvingResultEntry])
        ensures
            r@ == self.spec_entries(),
    {
        self.entries.as_slice()
    }

    pub fn is_empty(&self) -> (r: bool)
        ensures
            r == (self.spec_entries().len() == 0),
    {
        self.entries.len() == 0
    }

    pub fn len(&self) -> (r: usize)
        ensures
            r == self.spec_entries().len(),
    {
        self.entries.len()
    }
}

/// The kind of the solving result entry at a position.
pub open spec fn solving_result_kind_at(order: int) -> UiLayoutSolvingResultKind {
    UiLayoutSolvingResultKind::Derived
}

/// The state of the solving result entry at a position.
pub open spec fn solving_result_state_at(order: int) -> UiLayoutSolvingResultState {
    UiLayoutSolvingResultState::Deferred
}

/// The solving result entry at position `order` continues entry `p` of the previous stage: same raw identity and lineage, `p` as its source.
pub open spec fn solving_result_entry_from(e: UiLayoutSolvingResultEntry, p: UiLayoutSolvingEntry, order: int) -> bool {
    &&& e.spec_id().spec_raw() == p.spec_id().spec_raw()
    &&& e.spec_source_layout_node() == p.spec_source_layout_node()
    &&& e.spec_source_layout_slot() == p.spec_source_layout_slot()
    &&& e.spec_source_geometry_node() == p.spec_source_geometry_node()
    &&& e.spec_source_constraint_declaration() == p.spec_source_constraint_declaration()
    &&& e.spec_source_sizing_entry() == p.spec_source_sizing_entry()
    &&& e.spec_source_sizing_algorithm_entry() == p.spec_source_sizing_algorithm_entry()
    &&& e.spec_source_measuring_entry() == p.spec_source_measuring_entry()
    &&& e.spec_source_size_to_fit_entry() == p.spec_source_size_to_fit_entry()
    &&& e.spec_source_constraint_solver_entry() == p.spec_source_constraint_solver_entry()
    &&& e.spec_source_render_node() == p.spec_source_render_node()
    &&& e.spec_source_projection_node() == p.spec_source_projection_node()
    &&& e.spec_source_ir_node() == p.spec_source_ir_node()
    &&& e.spec_source_solving_entry() == p.spec_id()
    &&& e.spec_kind() == solving_result_kind_at(order)
    &&& e.spec_state() == solving_result_state_at(order)
    &&& e.spec_order() == order
}

/// The solving result model continues model `m` of the previous stage: one entry per entry of `m`, in order.
pub open spec fn solving_result_model_from(r: UiLayoutSolvingResultModel, m: UiLayoutSolvingModel) -> bool {
    &&& r.spec_id().spec_raw() == m.spec_id().spec_raw()
    &&& r.spec_source_layout_model() == m.spec_source_layout_model()
    &&& r.spec_source_geometry_model() == m.spec_source_geometry_model()
    &&& r.spec_source_constraints_model() == m.spec_source_constraints_model()
    &&& r.spec_source_sizing_model() == m.spec_source_sizing_model()
    &&& r.spec_source_sizing_algorithm_model() == m.spec_source_sizing_algorithm_model()
    &&& r.spec_source_measuring_model() == m.spec_source_measuring_model()
    &&& r.spec_source_size_to_fit_model() == m.spec_source_size_to_fit_model()
    &&& r.spec_source_constraint_solver_model() == m.spec_source_constraint_solver_model()
    &&& r.spec_source_render_model() == m.spec_source_render_model()
    &&& r.spec_source_projection() == m.spec_source_projection()
    &&& r.spec_source_ir_root() == m.spec_source_ir_root()
    &&& r.spec_source_solving_model() == m.spec_id()
    &&& r.spec_entries().len() == m.spec_entries().len()
    &&& forall|i: int|
        #![trigger r.spec_entries()[i]]
        0 <= i < r.spec_entries().len() ==> solving_result_entry_from(r.spec_entries()[i], m.spec_entries()[i], i)
}

/// Derives the solving result stage from the previous stage of layout.
pub fn build_layout_solving_result(model: &UiLayoutSolvingModel) -> (r: UiLayoutSolvingResultModel)
    ensures
        solving_result_model_from(r, *model),
{
    let source = model.entries();
    let mut entries: Vec<UiLayoutSolvingResultEntry> = Vec::with_capacity(source.len());
    let mut order: usize = 0;
    while order < source.len()
        invariant
            source@ == model.spec_entries(),
            order <= source@.len(),
            entries@.len() == order,
            forall|i: int|
                #![trigger entries@[i]]
                0 <= i < order ==> solving_result_entry_from(entries@[i], source@[i], i),
        decreases source@.len() - order,
    {
        let prev = &source[order];
        let kind = UiLayoutSolvingResultKind::Derived;
        let state = UiLayoutSolvingResultState::Deferred;
        entries.push(UiLayoutSolvingResultEntry {
            id: UiLayoutSolvingResultEntryId::new(prev.id().raw()),
            source_layout_node: prev.source_layout_node(),
            source_layout_slot: prev.source_layout_slot(),
            source_geometry_node: prev.source_geometry_node(),
            source_constraint_declaration: prev.source_constraint_declaration(),
            source_sizing_entry: prev.source_sizing_entry(),
            source_sizing_algorithm_entry: prev.source_sizing_algorithm_entry(),
            source_measuring_entry: prev.source_measuring_entry(),
            source_size_to_fit_entry: prev.source_size_to_fit_entry(),
            source_constraint_solver_entry: prev.source_constraint_solver_entry(),
            source_solving_entry: prev.id(),
            source_render_node: prev.source_render_node(),
            source_projection_node: prev.source_projection_node(),
            source_ir_node: prev.source_ir_node(),
            kind,
            state,
            order,
        });
        order += 1;
    }
    UiLayoutSolvingResultModel {
        id: UiLayoutSolvingResultModelId::new(model.id().raw()),
        source_layout_model: model.source_layout_model(),
        source_geometry_model: model.source_geometry_model(),
        source_constraints_model: model.source_constraints_model(),
        source_sizing_model: model.source_sizing_model(),
        source_sizing_algorithm_model: model.source_sizing_algorithm_model(),
        source_measuring_model: model.source_measuring_model(),
        source_size_to_fit_model: model.source_size_to_fit_model(),
        source_constraint_solver_model: model.source_constraint_solver_model(),
        source_solving_model: model.id(),
        source_render_model: model.source_render_model(),
        source_projection: model.source_projection(),
        source_ir_root: model.source_ir_root(),
        entries,
    }
}

} // verus!
