//! Size-to-fit models: the stage of layout that the constraint solver reads.
use vstd::prelude::*;
use crate::model::UiIrNodeId;
use crate::projection::{UiProjectedNodeId, UiProjectionArtifactId};
use crate::renderer::{UiRenderModelId, UiRenderNodeId};
use crate::layout::base::{UiLayoutModelId, UiLayoutNodeId, UiLayoutSlotId};
use crate::layout::geometry::{UiLayoutGeometryModelId, UiLayoutGeometryNodeId};
use crate::layout::constraints::{UiLayoutConstraintId, UiLayoutConstraintsModelId};
use crate::layout::sizing::UiLayoutSizingModelId;
use crate::layout::sizing::UiLayoutSizingEntryId;
use crate::layout::sizing_algorithm::{UiLayoutSizingAlgorithmEntryId, UiLayoutSizingAlgorithmModelId};
use crate::layout::measuring::{UiLayoutMeasuringEntryId, UiLayoutMeasuringModelId};

verus! {

/// Identity of a size-to-fit model.
#[derive(Debug, Clone, Copy, PartialEq, Eq, Hash, Default, Structural)]
pub struct UiLayoutSizeToFitModelId {
    raw: u64,
}

impl UiLayoutSizeToFitModelId {
    pub closed spec fn spec_raw(self) -> u64 {
        self.raw
    }

    pub fn new(raw: u64) -> (r: Self)
        ensures
            r.spec_raw() == raw,
    {
        Self { raw }
    }

    pub fn raw(self) -> (r: u64)
        ensures
            r == self.spec_raw(),
    {
        self.raw
    }
}

/// Identity of a size-to-fit entry.
#[derive(Debug, Clone, Copy, PartialEq, Eq, Hash, Default, Structural)]
pub struct UiLayoutSizeToFitEntryId {
    raw: u64,
}

impl UiLayoutSizeToFitEntryId {
    pub closed spec fn spec_raw(self) -> u64 {
        self.raw
    }

    pub fn new(raw: u64) -> (r: Self)
        ensures
            r.spec_raw() == raw,
    {
        Self { raw }
    }

    pub fn raw(self) -> (r: u64)
        ensures
            r == self.spec_raw(),
    {
        self.raw
    }
}

/// A size-to-fit entry: one layout node with the entries of every earlier stage.
#[derive(Debug, Clone, Copy, PartialEq, Eq, Structural)]
pub struct UiLayoutSizeToFitEntry {
    id: UiLayoutSizeToFitEntryId,
    source_layout_node: UiLayoutNodeId,
    source_layout_slot: UiLayoutSlotId,
    source_geometry_node: UiLayoutGeometryNodeId,
    source_constraint_declaration: UiLayoutConstraintId,
    source_sizing_entry: UiLayoutSizingEntryId,
    source_sizing_algorithm_entry: UiLayoutSizingAlgorithmEntryId,
    source_measuring_entry: UiLayoutMeasuringEntryId,
    source_render_node: UiRenderNodeId,
    source_projection_node: Option<UiProjectedNodeId>,
    source_ir_node: Option<UiIrNodeId>,
    order: usize,
}

impl UiLayoutSizeToFitEntry {
    pub closed spec fn spec_id(self) -> UiLayoutSizeToFitEntryId {
        self.id
    }

    pub closed spec fn spec_source_layout_node(self) -> UiLayoutNodeId {
        self.source_layout_node
    }

    pub closed spec fn spec_source_layout_slot(self) -> UiLayoutSlotId {
        self.source_layout_slot
    }

    pub closed spec fn spec_source_geometry_node(self) -> UiLayoutGeometryNodeId {
        self.source_geometry_node
    }

    pub closed spec fn spec_source_constraint_declaration(self) -> UiLayoutConstraintId {
        self.source_constraint_declaration
    }

    pub closed spec fn spec_source_sizing_entry(self) -> UiLayoutSizingEntryId {
        self.source_sizing_entry
    }

    pub closed spec fn spec_source_sizing_algorithm_entry(self) -> UiLayoutSizingAlgorithmEntryId {
        self.source_sizing_algorithm_entry
    }

    pub closed spec fn spec_source_measuring_entry(self) -> UiLayoutMeasuringEntryId {
        self.source_measuring_entry
    }

    pub closed spec fn spec_source_render_node(self) -> UiRenderNodeId {
        self.source_render_node
    }

    pub closed spec fn spec_source_projection_node(self) -> Option<UiProjectedNodeId> {
        self.source_projection_node
    }

    pub closed spec fn spec_source_ir_node(self) -> Option<UiIrNodeId> {
        self.source_ir_node
    }

    pub closed spec fn spec_order(self) -> usize {
        self.order
    }

    pub fn id(&self) -> (r: UiLayoutSizeToFitEntryId)
        ensures
            r == self.spec_id(),
    {
        self.id
    }

    pub fn source_layout_node(&self) -> (r: UiLayoutNodeId)
        ensures
            r == self.spec_source_layout_node(),
    {
        self.source_layout_node
    }

    pub fn source_layout_slot(&self) -> (r: UiLayoutSlotId)
        ensures
            r == self.spec_source_layout_slot(),
    {
        self.source_layout_slot
    }

    pub fn source_geometry_node(&self) -> (r: UiLayoutGeometryNodeId)
        ensures
            r == self.spec_source_geometry_node(),
    {
        self.source_geometry_node
    }

    pub fn source_constraint_declaration(&self) -> (r: UiLayoutConstraintId)
        ensures
            r == self.spec_source_constraint_declaration(),
    {
        self.source_constraint_declaration
    }

    pub fn source_sizing_entry(&self) -> (r: UiLayoutSizingEntryId)
        ensures
            r == self.spec_source_sizing_entry(),
    {
        self.source_sizing_entry
    }

    pub fn source_sizing_algorithm_entry(&self) -> (r: UiLayoutSizingAlgorithmEntryId)
        ensures
            r == self.spec_source_sizing_algorithm_entry(),
    {
        self.source_sizing_algorithm_entry
    }

    pub fn source_measuring_entry(&self) -> (r: UiLayoutMeasuringEntryId)
        ensures
            r == self.spec_source_measuring_entry(),
    {
        self.source_measuring_entry
    }

    pub fn source_render_node(&self) -> (r: UiRenderNodeId)
        ensures
            r == self.spec_source_render_node(),
    {
        self.source_render_node
    }

    pub fn source_projection_node(&self) -> (r: Option<UiProjectedNodeId>)
        ensures
            r == self.spec_source_projection_node(),
    {
        self.source_projection_node
    }

    pub fn source_ir_node(&self) -> (r: Option<UiIrNodeId>)
        ensures
            r == self.spec_source_ir_node(),
    {
        self.source_ir_node
    }

    pub fn order(&self) -> (r: usize)
        ensures
            r == self.spec_order(),
    {
        self.order
    }

    pub fn new(id: UiLayoutSizeToFitEntryId, source_layout_node: UiLayoutNodeId, source_layout_slot: UiLayoutSlotId, source_geometry_node: UiLayoutGeometryNodeId, source_constraint_declaration: UiLayoutConstraintId, source_sizing_entry: UiLayoutSizingEntryId, source_sizing_algorithm_entry: UiLayoutSizingAlgorithmEntryId, source_measuring_entry: UiLayoutMeasuringEntryId, source_render_node: UiRenderNodeId, source_projection_node: Option<UiProjectedNodeId>, source_ir_node: Option<UiIrNodeId>, order: usize) -> (r: Self)
        ensures
            r.spec_id() == id,
            r.spec_source_layout_node() == source_layout_node,
            r.spec_source_layout_slot() == source_layout_slot,
            r.spec_source_geometry_node() == source_geometry_node,
            r.spec_source_constraint_declaration() == source_constraint_declaration,
            r.spec_source_sizing_entry() == source_sizing_entry,
            r.spec_source_sizing_algorithm_entry() == source_sizing_algorithm_entry,
            r.spec_source_measuring_entry() == source_measuring_entry,
            r.spec_source_render_node() == source_render_node,
            r.spec_source_projection_node() == source_projection_node,
            r.spec_source_ir_node() == source_ir_node,
            r.spec_order() == order,
    {
        Self { id, source_layout_node, source_layout_slot, source_geometry_node, source_constraint_declaration, source_sizing_entry, source_sizing_algorithm_entry, source_measuring_entry, source_render_node, source_projection_node, source_ir_node, order }
    }
}

/// A size-to-fit model: its entries in order and the models it came from.
#[derive(Debug, Clone, PartialEq, Eq)]
pub struct UiLayoutSizeToFitModel {
    id: UiLayoutSizeToFitModelId,
    source_layout_model: UiLayoutModelId,
    source_geometry_model: UiLayoutGeometryModelId,
    source_constraints_model: UiLayoutConstraintsModelId,
    source_sizing_model: UiLayoutSizingModelId,
    source_sizing_algorithm_model: UiLayoutSizingAlgorithmModelId,
    source_measuring_model: UiLayoutMeasuringModelId,
    source_render_model: UiRenderModelId,
    source_projection: UiProjectionArtifactId,
    source_ir_root: Option<UiIrNodeId>,
    entries: Vec<UiLayoutSizeToFitEntry>,
}

impl UiLayoutSizeToFitModel {
    pub closed spec fn spec_id(self) -> UiLayoutSizeToFitModelId {
        self.id
    }

    pub closed spec fn spec_source_layout_model(self) -> UiLayoutModelId {
        self.source_layout_model
    }

    pub closed spec fn spec_source_geometry_model(self) -> UiLayoutGeometryModelId {
        self.source_geometry_model
    }

    pub closed spec fn spec_source_constraints_model(self) -> UiLayoutConstraintsModelId {
        self.source_constraints_model
    }

    pub closed spec fn spec_source_sizing_model(self) -> UiLayoutSizingModelId {
        self.source_sizing_model
    }

    pub closed spec fn spec_source_sizing_algorithm_model(self) -> UiLayoutSizingAlgorithmModelId {
        self.source_sizing_algorithm_model
    }

    pub closed spec fn spec_source_measuring_model(self) -> UiLayoutMeasuringModelId {
        self.source_measuring_model
    }

    pub closed spec fn spec_source_render_model(self) -> UiRenderModelId {
        self.source_render_model
    }

    pub closed spec fn spec_source_projection(self) -> UiProjectionArtifactId {
        self.source_projection
    }

    pub closed spec fn spec_source_ir_root(self) -> Option<UiIrNodeId> {
        self.source_ir_root
    }

    pub closed spec fn spec_entries(self) -> Seq<UiLayoutSizeToFitEntry> {
        self.entries@
    }

    pub fn id(&self) -> (r: UiLayoutSizeToFitModelId)
        ensures
            r == self.spec_id(),
    {
        self.id
    }

    pub fn source_layout_model(&self) -> (r: UiLayoutModelId)
        ensures
            r == self.spec_source_layout_model(),
    {
        self.source_layout_model
    }

    pub fn source_geometry_model(&self) -> (r: UiLayoutGeometryModelId)
        ensures
            r == self.spec_source_geometry_model(),
    {
        self.source_geometry_model
    }

    pub fn source_constraints_model(&self) -> (r: UiLayoutConstraintsModelId)
        ensures
            r == self.spec_source_constraints_model(),
    {
        self.source_constraints_model
    }

    pub fn source_sizing_model(&self) -> (r: UiLayoutSizingModelId)
        ensures
            r == self.spec_source_sizing_model(),
    {
        self.source_sizing_model
    }

    pub fn source_sizing_algorithm_model(&self) -> (r: UiLayoutSizingAlgorithmModelId)
        ensures
            r == self.spec_source_sizing_algorithm_model(),
    {
        self.source_sizing_algorithm_model
    }

    pub fn source_measuring_model(&self) -> (r: UiLayoutMeasuringModelId)
        ensures
            r == self.spec_source_measuring_model(),
    {
        self.source_measuring_model
    }

    pub fn source_render_model(&self) -> (r: UiRenderModelId)
        ensures
            r == self.spec_source_render_model(),
    {
        self.source_render_model
    }

    pub fn source_projection(&self) -> (r: UiProjectionArtifactId)
        ensures
            r == self.spec_source_projection(),
    {
        self.source_projection
    }

    pub fn source_ir_root(&self) -> (r: Option<UiIrNodeId>)
        ensures
            r == self.spec_source_ir_root(),
    {
        self.source_ir_root
    }

    pub fn entries(&self) -> (r: &[UiLayoutSizeToFitEntry])
        ensures
            r@ == self.spec_entries(),
    {
        self.entries.as_slice()
    }

    pub fn is_empty(&self) -> (r: bool)
        ensures
            r == (self.spec_entries().len() == 0),
    {
        self.entries.len() == 0
    }

    pub fn len(&self) -> (r: usize)
        ensures
            r == self.spec_entries().len(),
    {
        self.entries.len()
    }

    pub fn new(id: UiLayoutSizeToFitModelId, source_layout_model: UiLayoutModelId, source_geometry_model: UiLayoutGeometryModelId, source_constraints_model: UiLayoutConstraintsModelId, source_sizing_model: UiLayoutSizingModelId, source_sizing_algorithm_model: UiLayoutSizingAlgorithmModelId, source_measuring_model: UiLayoutMeasuringModelId, source_render_model: UiRenderModelId, source_projection: UiProjectionArtifactId, source_ir_root: Option<UiIrNodeId>, entries: Vec<UiLayoutSizeToFitEntry>) -> (r: Self)
        ensures
            r.spec_id() == id,
            r.spec_source_layout_model() == source_layout_model,
            r.spec_source_geometry_model() == source_geometry_model,
            r.spec_source_constraints_model() == source_constraints_model,
            r.spec_source_sizing_model() == source_sizing_model,
            r.spec_source_sizing_algorithm_model() == source_sizing_algorithm_model,
            r.spec_source_measuring_model() == source_measuring_model,
            r.spec_source_render_model() == source_render_model,
            r.spec_source_projection() == source_projection,
            r.spec_source_ir_root() == source_ir_root,
            r.spec_entries() == entries@,
    {
        Self { id, source_layout_model, source_geometry_model, source_constraints_model, source_sizing_model, source_sizing_algorithm_model, source_measuring_model, source_render_model, source_projection, source_ir_root, entries }
    }
}

} // verus!
