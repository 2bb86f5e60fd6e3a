//! The physical placement stage of layout: a final rectangle per entry.
use vstd::prelude::*;
use crate::model::UiIrNodeId;
use crate::projection::{UiProjectedNodeId, UiProjectionArtifactId};
use crate::renderer::{UiRenderModelId, UiRenderNodeId};
use crate::layout::base::{UiLayoutModelId, UiLayoutNodeId, UiLayoutSlotId};
use crate::layout::geometry::{UiLayoutGeometryModelId, UiLayoutGeometryNodeId};
use crate::layout::constraints::{UiLayoutConstraintId, UiLayoutConstraintsModelId};
use crate::layout::sizing::{UiLayoutSizingEntryId, UiLayoutSizingModelId};
use crate::layout::sizing_algorithm::{UiLayoutSizingAlgorithmEntryId, UiLayoutSizingAlgorithmModelId};
use crate::layout::measuring::{UiLayoutMeasuringEntryId, UiLayoutMeasuringModelId};
use crate::layout::size_to_fit::{UiLayoutSizeToFitEntryId, UiLayoutSizeToFitModelId};
use crate::layout::constraint_solver::{UiLayoutConstraintSolverEntryId, UiLayoutConstraintSolverModelId};
use crate::layout::solving::{UiLayoutSolvingEntryId, UiLayoutSolvingModelId, UiLayoutSolvingResultEntry, UiLayoutSolvingResultEntryId, UiLayoutSolvingResultModel, UiLayoutSolvingResultModelId};
use crate::layout::geometry::UiLayoutGeometryRect;
use crate::layout::constraint_solver::{constraint_solver_entry_from, constraint_solver_model_from, UiLayoutConstraintSolverModel};
use crate::layout::size_to_fit::UiLayoutSizeToFitModel;
use crate::layout::solving::{solving_entry_from, solving_model_from, solving_result_entry_from, solving_result_model_from, UiLayoutSolvingModel};

verus! {

/// Identity of a physical placement model.
#[derive(Debug, Clone, Copy, PartialEq, Eq, Hash, Default, Structural)]
pub struct UiLayoutPhysicalPlacementModelId {
    raw: u64,
}

impl UiLayoutPhysicalPlacementModelId {
    pub closed spec fn spec_raw(self) -> u64 {
        self.raw
    }

    pub fn new(raw: u64) -> (r: Self)
        ensures
            r.spec_raw() == raw,
    {
        Self { raw }
    }

    pub fn raw(self) -> (r: u64)
        ensures
            r == self.spec_raw(),
    {
        self.raw
    }
}

/// Identity of a physical placement entry.
#[derive(Debug, Clone, Copy, PartialEq, Eq, Hash, Default, Structural)]
pub struct UiLayoutPhysicalPlacementEntryId {
    raw: u64,
}

impl UiLayoutPhysicalPlacementEntryId {
    pub closed spec fn spec_raw(self) -> u64 {
        self.raw
    }

    pub fn new(raw: u64) -> (r: Self)
        ensures
            r.spec_raw() == raw,
    {
        Self { raw }
    }

    pub fn raw(self) -> (r: u64)
        ensures
            r == self.spec_raw(),
    {
        self.raw
    }
}

/// The kind of a physical placement entry.
#[derive(Debug, Clone, Copy, PartialEq, Eq, Default, Structural)]
pub enum UiLayoutPhysicalPlacementKind {
    #[default]
    ParentRelativeIntent,
    PlacementPolicyIntent,
    DeferredRectIntent,
    ContainerRelationIntent,
}

/// The state of a physical placement entry.
#[derive(Debug, Clone, Copy, PartialEq, Eq, Default, Structural)]
pub enum UiLayoutPhysicalPlacementState {
    #[default]
    MetadataOnly,
    Deferred,
    Unavailable,
    AuditOnly,
}

/// A physical placement entry: one solving result entry with its final rectangle.
#[derive(Debug, Clone, Copy, PartialEq, Eq, Structural)]
pub struct UiLayoutPhysicalPlacementEntry {
    id: UiLayoutPhysicalPlacementEntryId,
    source_layout_node: UiLayoutNodeId,
    source_layout_slot: UiLayoutSlotId,
    source_geometry_node: UiLayoutGeometryNodeId,
    source_constraint_declaration: UiLayoutConstraintId,
    source_sizing_entry: UiLayoutSizingEntryId,
    source_sizing_algorithm_entry: UiLayoutSizingAlgorithmEntryId,
    source_measuring_entry: UiLayoutMeasuringEntryId,
    source_size_to_fit_entry: UiLayoutSizeToFitEntryId,
    source_constraint_solver_entry: UiLayoutConstraintSolverEntryId,
    source_solving_entry: UiLayoutSolvingEntryId,
    source_solving_result_entry: UiLayoutSolvingResultEntryId,
    source_render_node: UiRenderNodeId,
    source_projection_node: Option<UiProjectedNodeId>,
    source_ir_node: Option<UiIrNodeId>,
    kind: UiLayoutPhysicalPlacementKind,
    state: UiLayoutPhysicalPlacementState,
    final_rect: UiLayoutGeometryRect,
    order: usize,
}

impl UiLayoutPhysicalPlacementEntry {
    pub closed spec fn spec_id(self) -> UiLayoutPhysicalPlacementEntryId {
        self.id
    }

    pub closed spec fn spec_source_layout_node(self) -> UiLayoutNodeId {
        self.source_layout_node
    }

    pub closed spec fn spec_source_layout_slot(self) -> UiLayoutSlotId {
        self.source_layout_slot
    }

    pub closed spec fn spec_source_geometry_node(self) -> UiLayoutGeometryNodeId {
        self.source_geometry_node
    }

    pub closed spec fn spec_source_constraint_declaration(self) -> UiLayoutConstraintId {
        self.source_constraint_declaration
    }

    pub closed spec fn spec_source_sizing_entry(self) -> UiLayoutSizingEntryId {
        self.source_sizing_entry
    }

    pub closed spec fn spec_source_sizing_algorithm_entry(self) -> UiLayoutSizingAlgorithmEntryId {
        self.source_sizing_algorithm_entry
    }

    pub closed spec fn spec_source_measuring_entry(self) -> UiLayoutMeasuringEntryId {
        self.source_measuring_entry
    }

    pub closed spec fn spec_source_size_to_fit_entry(self) -> UiLayoutSizeToFitEntryId {
        self.source_size_to_fit_entry
    }

    pub closed spec fn spec_source_constraint_solver_entry(self) -> UiLayoutConstraintSolverEntryId {
        self.source_constraint_solver_entry
    }

    pub closed spec fn spec_source_solving_entry(self) -> UiLayoutSolvingEntryId {
        self.source_solving_entry
    }

    pub closed spec fn spec_source_solving_result_entry(self) -> UiLayoutSolvingResultEntryId {
        self.source_solving_result_entry
    }

    pub closed spec fn spec_source_render_node(self) -> UiRenderNodeId {
        self.source_render_node
    }

    pub closed spec fn spec_source_projection_node(self) -> Option<UiProjectedNodeId> {
        self.source_projection_node
    }

    pub closed spec fn spec_source_ir_node(self) -> Option<UiIrNodeId> {
        self.source_ir_node
    }

    pub closed spec fn spec_kind(self) -> UiLayoutPhysicalPlacementKind {
        self.kind
    }

    pub closed spec fn spec_state(self) -> UiLayoutPhysicalPlacementState {
        self.state
    }

    pub closed spec fn spec_final_rect(self) -> UiLayoutGeometryRect {
        self.final_rect
    }

    pub closed spec fn spec_order(self) -> usize {
        self.order
    }

    pub fn id(&self) -> (r: UiLayoutPhysicalPlacementEntryId)
        ensures
            r == self.spec_id(),
    {
        self.id
    }

    pub fn source_layout_node(&self) -> (r: UiLayoutNodeId)
        ensures
            r == self.spec_source_layout_node(),
    {
        self.source_layout_node
    }

    pub fn source_layout_slot(&self) -> (r: UiLayoutSlotId)
        ensures
            r == self.spec_source_layout_slot(),
    {
        self.source_layout_slot
    }

    pub fn source_geometry_node(&self) -> (r: UiLayoutGeometryNodeId)
        ensures
            r == self.spec_source_geometry_node(),
    {
        self.source_geometry_node
    }

    pub fn source_constraint_declaration(&self) -> (r: UiLayoutConstraintId)
        ensures
            r == self.spec_source_constraint_declaration(),
    {
        self.source_constraint_declaration
    }

    pub fn source_sizing_entry(&self) -> (r: UiLayoutSizingEntryId)
        ensures
            r == self.spec_source_sizing_entry(),
    {
        self.source_sizing_entry
    }

    pub fn source_sizing_algorithm_entry(&self) -> (r: UiLayoutSizingAlgorithmEntryId)
        ensures
            r == self.spec_source_sizing_algorithm_entry(),
    {
        self.source_sizing_algorithm_entry
    }

    pub fn source_measuring_entry(&self) -> (r: UiLayoutMeasuringEntryId)
        ensures
            r == self.spec_source_measuring_entry(),
    {
        self.source_measuring_entry
    }

    pub fn source_size_to_fit_entry(&self) -> (r: UiLayoutSizeToFitEntryId)
        ensures
            r == self.spec_source_size_to_fit_entry(),
    {
        self.source_size_to_fit_entry
    }

    pub fn source_constraint_solver_entry(&self) -> (r: UiLayoutConstraintSolverEntryId)
        ensures
            r == self.spec_source_constraint_solver_entry(),
    {
        self.source_constraint_solver_entry
    }

    pub fn source_solving_entry(&self) -> (r: UiLayoutSolvingEntryId)
        ensures
            r == self.spec_source_solving_entry(),
    {
        self.source_solving_entry
    }

    pub fn source_solving_result_entry(&self) -> (r: UiLayoutSolvingResultEntryId)
        ensures
            r == self.spec_source_solving_result_entry(),
    {
        self.source_solving_result_entry
    }

    pub fn source_render_node(&self) -> (r: UiRenderNodeId)
        ensures
            r == self.spec_source_render_node(),
    {
        self.source_render_node
    }

    pub fn source_projection_node(&self) -> (r: Option<UiProjectedNodeId>)
        ensures
            r == self.spec_source_projection_node(),
    {
        self.source_projection_node
    }

    pub fn source_ir_node(&self) -> (r: Option<UiIrNodeId>)
        ensures
            r == self.spec_source_ir_node(),
    {
        self.source_ir_node
    }

    pub fn kind(&self) -> (r: UiLayoutPhysicalPlacementKind)
        ensures
            r == self.spec_kind(),
    {
        self.kind
    }

    pub fn state(&self) -> (r: UiLayoutPhysicalPlacementState)
        ensures
            r == self.spec_state(),
    {
        self.state
    }

    pub fn final_rect(&self) -> (r: UiLayoutGeometryRect)
        ensures
            r == self.spec_final_rect(),
    {
        self.final_rect
    }

    pub fn order(&self) -> (r: usize)
        ensures
            r == self.spec_order(),
    {
        self.order
    }
}

/// The physical placement model: one placed entry per solving result entry.
#[derive(Debug, Clone, PartialEq, Eq)]
pub struct UiLayoutPhysicalPlacementModel {
    id: UiLayoutPhysicalPlacementModelId,
    source_layout_model: UiLayoutModelId,
    source_geometry_model: UiLayoutGeometryModelId,
    source_constraints_model: UiLayoutConstraintsModelId,
    source_sizing_model: UiLayoutSizingModelId,
    source_sizing_algorithm_model: UiLayoutSizingAlgorithmModelId,
    source_measuring_model: UiLayoutMeasuringModelId,
    source_size_to_fit_model: UiLayoutSizeToFitModelId,
    source_constraint_solver_model: UiLayoutConstraintSolverModelId,
    source_solving_model: UiLayoutSolvingModelId,
    source_solving_result_model: UiLayoutSolvingResultModelId,
    source_render_model: UiRenderModelId,
    source_projection: UiProjectionArtifactId,
    source_ir_root: Option<UiIrNodeId>,
    entries: Vec<UiLayoutPhysicalPlacementEntry>,
}

impl UiLayoutPhysicalPlacementModel {
    pub closed spec fn spec_id(self) -> UiLayoutPhysicalPlacementModelId {
        self.id
    }

    pub closed spec fn spec_source_layout_model(self) -> UiLayoutModelId {
        self.source_layout_model
    }

    pub closed spec fn spec_source_geometry_model(self) -> UiLayoutGeometryModelId {
        self.source_geometry_model
    }

    pub closed spec fn spec_source_constraints_model(self) -> UiLayoutConstraintsModelId {
        self.source_constraints_model
    }

    pub closed spec fn spec_source_sizing_model(self) -> UiLayoutSizingModelId {
        self.source_sizing_model
    }

    pub closed spec fn spec_source_sizing_algorithm_model(self) -> UiLayoutSizingAlgorithmModelId {
        self.source_sizing_algorithm_model
    }

    pub closed spec fn spec_source_measuring_model(self) -> UiLayoutMeasuringModelId {
        self.source_measuring_model
    }

    pub closed spec fn spec_source_size_to_fit_model(self) -> UiLayoutSizeToFitModelId {
        self.source_size_to_fit_model
    }

    pub closed spec fn spec_source_constraint_solver_model(self) -> UiLayoutConstraintSolverModelId {
        self.source_constraint_solver_model
    }

    pub closed spec fn spec_source_solving_model(self) -> UiLayoutSolvingModelId {
        self.source_solving_model
    }

    pub closed spec fn spec_source_solving_result_model(self) -> UiLayoutSolvingResultModelId {
        self.source_solving_result_model
    }

    pub closed spec fn spec_source_render_model(self) -> UiRenderModelId {
        self.source_render_model
    }

    pub closed spec fn spec_source_projection(self) -> UiProjectionArtifactId {
        self.source_projection
    }

    pub closed spec fn spec_source_ir_root(self) -> Option<UiIrNodeId> {
        self.source_ir_root
    }

    pub closed spec fn spec_entries(self) -> Seq<UiLayoutPhysicalPlacementEntry> {
        self.entries@
    }

    pub fn id(&self) -> (r: UiLayoutPhysicalPlacementModelId)
        ensures
            r == self.spec_id(),
    {
        self.id
    }

    pub fn source_layout_model(&self) -> (r: UiLayoutModelId)
        ensures
            r == self.spec_source_layout_model(),
    {
        self.source_layout_model
    }

    pub fn source_geometry_model(&self) -> (r: UiLayoutGeometryModelId)
        ensures
            r == self.spec_source_geometry_model(),
    {
        self.source_geometry_model
    }

    pub fn source_constraints_model(&self) -> (r: UiLayoutConstraintsModelId)
        ensures
            r == self.spec_source_constraints_model(),
    {
        self.source_constraints_model
    }

    pub fn source_sizing_model(&self) -> (r: UiLayoutSizingModelId)
        ensures
            r == self.spec_source_sizing_model(),
    {
        self.source_sizing_model
    }

    pub fn source_sizing_algorithm_model(&self) -> (r: UiLayoutSizingAlgorithmModelId)
        ensures
            r == self.spec_source_sizing_algorithm_model(),
    {
        self.source_sizing_algorithm_model
    }

    pub fn source_measuring_model(&self) -> (r: UiLayoutMeasuringModelId)
        ensures
            r == self.spec_source_measuring_model(),
    {
        self.source_measuring_model
    }

    pub fn source_size_to_fit_model(&self) -> (r: UiLayoutSizeToFitModelId)
        ensures
            r == self.spec_source_size_to_fit_model(),
    {
        self.source_size_to_fit_model
    }

    pub fn source_constraint_solver_model(&self) -> (r: UiLayoutConstraintSolverModelId)
        ensures
            r == self.spec_source_constraint_solver_model(),
    {
        self.source_constraint_solver_model
    }

    pub fn source_solving_model(&self) -> (r: UiLayoutSolvingModelId)
        ensures
            r == self.spec_source_solving_model(),
    {
        self.source_solving_model
    }

    pub fn source_solving_result_model(&self) -> (r: UiLayoutSolvingResultModelId)
        ensures
            r == self.spec_source_solving_result_model(),
    {
        self.source_solving_result_model
    }

    pub fn source_render_model(&self) -> (r: UiRenderModelId)
        ensures
            r == self.spec_source_render_model(),
    {
        self.source_render_model
    }

    pub fn source_projection(&self) -> (r: UiProjectionArtifactId)
        ensures
            r == self.spec_source_projection(),
    {
        self.source_projection
    }

    pub fn source_ir_root(&self) -> (r: Option<UiIrNodeId>)
        ensures
            r == self.spec_source_ir_root(),
    {
        self.source_ir_root
    }

    pub fn entries(&self) -> (r: &[UiLayoutPhysicalPlacementEntry])
        ensures
            r@ == self.spec_entries(),
    {
        self.entries.as_slice()
    }

    pub fn is_empty(&self) -> (r: bool)
        ensures
            r == (self.spec_entries().len() == 0),
    {
        self.entries.len() == 0
    }

    pub fn len(&self) -> (r: usize)
        ensures
            r == self.spec_entries().len(),
    {
        self.entries.len()
    }
}

/// The most entries whose placement rectangles fit in `i32` and `u32`: the
/// `y` offset of the last one, twenty times its position, stays within `i32`.
pub const MAX_PLACEMENT_ENTRIES: usize = 107_374_183;

/// The rectangle placed at a position: offset by ten and twenty per position,
/// growing by five per position from 100 by 50.
pub open spec fn placement_rect_is(r: UiLayoutGeometryRect, order: int) -> bool {
    &&& r.spec_x() == order * 10
    &&& r.spec_y() == order * 20
    &&& r.spec_width() == 100 + order * 5
    &&& r.spec_height() == 50 + order * 5
}

/// The kind of the physical placement entry at a position.
pub open spec fn physical_placement_kind_at(order: int) -> UiLayoutPhysicalPlacementKind {
    if order % 4 == 0 {
        UiLayoutPhysicalPlacementKind::ParentRelativeIntent
    } else if order % 4 == 1 {
        UiLayoutPhysicalPlacementKind::PlacementPolicyIntent
    } else if order % 4 == 2 {
        UiLayoutPhysicalPlacementKind::DeferredRectIntent
    } else {
        UiLayoutPhysicalPlacementKind::ContainerRelationIntent
    }
}

/// The state of the physical placement entry at a position.
pub open spec fn physical_placement_state_at(order: int) -> UiLayoutPhysicalPlacementState {
    if order % 4 == 0 {
        UiLayoutPhysicalPlacementState::MetadataOnly
    } else if order % 4 == 1 {
        UiLayoutPhysicalPlacementState::Deferred
    } else if order % 4 == 2 {
        UiLayoutPhysicalPlacementState::Unavailable
    } else {
        UiLayoutPhysicalPlacementState::AuditOnly
    }
}

/// The physical placement entry at position `order` continues entry `p` of the previous stage: same raw identity and lineage, `p` as its source.
pub open spec fn physical_placement_entry_from(e: UiLayoutPhysicalPlacementEntry, p: UiLayoutSolvingResultEntry, order: int) -> bool {
    &&& e.spec_id().spec_raw() == p.spec_id().spec_raw()
    &&& e.spec_source_layout_node() == p.spec_source_layout_node()
    &&& e.spec_source_layout_slot() == p.spec_source_layout_slot()
    &&& e.spec_source_geometry_node() == p.spec_source_geometry_node()
    &&& e.spec_source_constraint_declaration() == p.spec_source_constraint_declaration()
    &&& e.spec_source_sizing_entry() == p.spec_source_sizing_entry()
    &&& e.spec_source_sizing_algorithm_entry() == p.spec_source_sizing_algorithm_entry()
    &&& e.spec_source_measuring_entry() == p.spec_source_measuring_entry()
    &&& e.spec_source_size_to_fit_entry() == p.spec_source_size_to_fit_entry()
    &&& e.spec_source_constraint_solver_entry() == p.spec_source_constraint_solver_entry()
    &&& e.spec_source_solving_entry() == p.spec_source_solving_entry()
    &&& e.spec_source_render_node() == p.spec_source_render_node()
    &&& e.spec_source_projection_node() == p.spec_source_projection_node()
    &&& e.spec_source_ir_node() == p.spec_source_ir_node()
    &&& e.spec_source_solving_result_entry() == p.spec_id()
    &&& e.spec_kind() == physical_placement_kind_at(order)
    &&& e.spec_state() == physical_placement_state_at(order)
    &&& placement_rect_is(e.spec_final_rect(), order)
    &&& e.spec_order() == order
}

/// The physical placement model continues model `m` of the previous stage: one entry per entry of `m`, in order.
pub open spec fn physical_placement_model_from(r: UiLayoutPhysicalPlacementModel, m: UiLayoutSolvingResultModel) -> bool {
    &&& r.spec_id().spec_raw() == m.spec_id().spec_raw()
    &&& r.spec_source_layout_model() == m.spec_source_layout_model()
    &&& r.spec_source_geometry_model() == m.spec_source_geometry_model()
    &&& r.spec_source_constraints_model() == m.spec_source_constraints_model()
    &&& r.spec_source_sizing_model() == m.spec_source_sizing_model()
    &&& r.spec_source_sizing_algorithm_model() == m.spec_source_sizing_algorithm_model()
    &&& r.spec_source_measuring_model() == m.spec_source_measuring_model()
    &&& r.spec_source_size_to_fit_model() == m.spec_source_size_to_fit_model()
    &&& r.spec_source_constraint_solver_model() == m.spec_source_constraint_solver_model()
    &&& r.spec_source_solving_model() == m.spec_source_solving_model()
    &&& r.spec_source_render_model() == m.spec_source_render_model()
    &&& r.spec_source_projection() == m.spec_source_projection()
    &&& r.spec_source_ir_root() == m.spec_source_ir_root()
    &&& r.spec_source_solving_result_model() == m.spec_id()
    &&& r.spec_entries().len() == m.spec_entries().len()
    &&& forall|i: int|
        #![trigger r.spec_entries()[i]]
        0 <= i < r.spec_entries().len() ==> physical_placement_entry_from(r.spec_entries()[i], m.spec_entries()[i], i)
}

/// Derives the physical placement stage from the previous stage of layout.
pub fn build_layout_physical_placement(model: &UiLayoutSolvingResultModel) -> (r: UiLayoutPhysicalPlacementModel)
    requires
        model.spec_entries().len() <= MAX_PLACEMENT_ENTRIES,
    ensures
        physical_placement_model_from(r, *model),
{
    let source = model.entries();
    let mut entries: Vec<UiLayoutPhysicalPlacementEntry> = Vec::with_capacity(source.len());
    let mut order: usize = 0;
    while order < source.len()
        invariant
            source@ == model.spec_entries(),
            model.spec_entries().len() <= MAX_PLACEMENT_ENTRIES,
            order <= source@.len(),
            entries@.len() == order,
            forall|i: int|
                #![trigger entries@[i]]
                0 <= i < order ==> physical_placement_entry_from(entries@[i], source@[i], i),
        decreases source@.len() - order,
    {
        let prev = &source[order];
        let kind = if order % 4 == 0 {
            UiLayoutPhysicalPlacementKind::ParentRelativeIntent
        } else if order % 4 == 1 {
            UiLayoutPhysicalPlacementKind::PlacementPolicyIntent
        } else if order % 4 == 2 {
            UiLayoutPhysicalPlacementKind::DeferredRectIntent
        } else {
            UiLayoutPhysicalPlacementKind::ContainerRelationIntent
        };
        let state = if order % 4 == 0 {
            UiLayoutPhysicalPlacementState::MetadataOnly
        } else if order % 4 == 1 {
            UiLayoutPhysicalPlacementState::Deferred
        } else if order % 4 == 2 {
            UiLayoutPhysicalPlacementState::Unavailable
        } else {
            UiLayoutPhysicalPlacementState::AuditOnly
        };
        let step: i32 = order as i32;
        let grow: u32 = order as u32;
        let final_rect = UiLayoutGeometryRect::new(step * 10, step * 20, 100 + grow * 5, 50 + grow * 5);
        entries.push(UiLayoutPhysicalPlacementEntry {
            id: UiLayoutPhysicalPlacementEntryId::new(prev.id().raw()),
            source_layout_node: prev.source_layout_node(),
            source_layout_slot: prev.source_layout_slot(),
            source_geometry_node: prev.source_geometry_node(),
            source_constraint_declaration: prev.source_constraint_declaration(),
            source_sizing_entry: prev.source_sizing_entry(),
            source_sizing_algorithm_entry: prev.source_sizing_algorithm_entry(),
            source_measuring_entry: prev.source_measuring_entry(),
            source_size_to_fit_entry: prev.source_size_to_fit_entry(),
            source_constraint_solver_entry: prev.source_constraint_solver_entry(),
            source_solving_entry: prev.source_solving_entry(),
            source_solving_result_entry: prev.id(),
            source_render_node: prev.source_render_node(),
            source_projection_node: prev.source_projection_node(),
            source_ir_node: prev.source_ir_node(),
            final_rect,
            kind,
            state,
            order,
        });
        order += 1;
    }
    UiLayoutPhysicalPlacementModel {
        id: UiLayoutPhysicalPlacementModelId::new(model.id().raw()),
        source_layout_model: model.source_layout_model(),
        source_geometry_model: model.source_geometry_model(),
        source_constraints_model: model.source_constraints_model(),
        source_sizing_model: model.source_sizing_model(),
        source_sizing_algorithm_model: model.source_sizing_algorithm_model(),
        source_measuring_model: model.source_measuring_model(),
        source_size_to_fit_model: model.source_size_to_fit_model(),
        source_constraint_solver_model: model.source_constraint_solver_model(),
        source_solving_model: model.source_solving_model(),
        source_solving_result_model: model.id(),
        source_render_model: model.source_render_model(),
        source_projection: model.source_projection(),
        source_ir_root: model.source_ir_root(),
        entries,
    }
}

/// Solving keeps the entries: from a size-to-fit model through the
/// constraint solver, solving, its result and physical placement there is
/// one placed entry per size-to-fit entry, in order, each naming the same
/// render and layout nodes, placed at the rectangle of its position.
pub proof fn lemma_solving_stages_keep_entries(
    fit: UiLayoutSizeToFitModel,
    solver: UiLayoutConstraintSolverModel,
    solving: UiLayoutSolvingModel,
    result: UiLayoutSolvingResultModel,
    placement: UiLayoutPhysicalPlacementModel,
)
    requires
        constraint_solver_model_from(solver, fit),
        solving_model_from(solving, solver),
        solving_result_model_from(result, solving),
        physical_placement_model_from(placement, result),
    ensures
        placement.spec_entries().len() == fit.spec_entries().len(),
        placement.spec_source_size_to_fit_model() == fit.spec_id(),
        placement.spec_source_render_model() == fit.spec_source_render_model(),
        forall|i: int|
            #![trigger placement.spec_entries()[i]]
            0 <= i < placement.spec_entries().len() ==> {
                &&& placement.spec_entries()[i].spec_source_size_to_fit_entry() == fit.spec_entries()[i].spec_id()
                &&& placement.spec_entries()[i].spec_source_render_node() == fit.spec_entries()[i].spec_source_render_node()
                &&& placement.spec_entries()[i].spec_source_layout_node() == fit.spec_entries()[i].spec_source_layout_node()
                &&& placement.spec_entries()[i].spec_id().spec_raw() == fit.spec_entries()[i].spec_id().spec_raw()
                &&& placement_rect_is(placement.spec_entries()[i].spec_final_rect(), i)
            },
{
    assert forall|i: int| 0 <= i < placement.spec_entries().len() implies {
        &&& #[trigger] placement.spec_entries()[i].spec_source_size_to_fit_entry() == fit.spec_entries()[i].spec_id()
        &&& placement.spec_entries()[i].spec_source_render_node() == fit.spec_entries()[i].spec_source_render_node()
        &&& placement.spec_entries()[i].spec_source_layout_node() == fit.spec_entries()[i].spec_source_layout_node()
        &&& placement.spec_entries()[i].spec_id().spec_raw() == fit.spec_entries()[i].spec_id().spec_raw()
        &&& placement_rect_is(placement.spec_entries()[i].spec_final_rect(), i)
    } by {
        assert(physical_placement_entry_from(placement.spec_entries()[i], result.spec_entries()[i], i));
        assert(solving_result_entry_from(result.spec_entries()[i], solving.spec_entries()[i], i));
        assert(solving_entry_from(solving.spec_entries()[i], solver.spec_entries()[i], i));
        assert(constraint_solver_entry_from(solver.spec_entries()[i], fit.spec_entries()[i], i));
    }
}

} // verus!
