//! The sizing algorithm stage of layout.
use vstd::prelude::*;
use crate::model::UiIrNodeId;
use crate::projection::{UiProjectedNodeId, UiProjectionArtifactId};
use crate::renderer::{UiRenderModelId, UiRenderNodeId};
use crate::layout::base::{UiLayoutModelId, UiLayoutNodeId, UiLayoutSlotId};
use crate::layout::geometry::{UiLayoutGeometryModelId, UiLayoutGeometryNodeId};
use crate::layout::constraints::{UiLayoutConstraintId, UiLayoutConstraintsModelId};
use crate::layout::sizing::{UiLayoutSizingEntry, UiLayoutSizingEntryId, UiLayoutSizingModel, UiLayoutSizingModelId};
use crate::layout::base::{layout_model_from_render_model, layout_node_from_render_node, UiLayoutModel};
use crate::layout::sizing::{sizing_entry_from_layout_node, sizing_model_from_layout};
use crate::renderer::UiRenderModel;

verus! {

/// Identity of a sizing algorithm model.
#[derive(Debug, Clone, Copy, PartialEq, Eq, Hash, Default, Structural)]
pub struct UiLayoutSizingAlgorithmModelId {
    raw: u64,
}

impl UiLayoutSizingAlgorithmModelId {
    pub closed spec fn spec_raw(self) -> u64 {
        self.raw
    }

    pub fn new(raw: u64) -> (r: Self)
        ensures
            r.spec_raw() == raw,
    {
        Self { raw }
    }

    pub fn raw(self) -> (r: u64)
        ensures
            r == self.spec_raw(),
    {
        self.raw
    }
}

/// Identity of a sizing algorithm entry.
#[derive(Debug, Clone, Copy, PartialEq, Eq, Hash, Default, Structural)]
pub struct UiLayoutSizingAlgorithmEntryId {
    raw: u64,
}

impl UiLayoutSizingAlgorithmEntryId {
    pub closed spec fn spec_raw(self) -> u64 {
        self.raw
    }

    pub fn new(raw: u64) -> (r: Self)
        ensures
            r.spec_raw() == raw,
    {
        Self { raw }
    }

    pub fn raw(self) -> (r: u64)
        ensures
            r == self.spec_raw(),
    {
        self.raw
    }
}

/// The kind of a sizing algorithm entry.
#[derive(Debug, Clone, Copy, PartialEq, Eq, Default, Structural)]
pub enum UiLayoutSizingAlgorithmKind {
    #[default]
    PassThrough,
    Unresolved,
    AuditOnly,
}

/// The state of a sizing algorithm entry.
#[derive(Debug, Clone, Copy, PartialEq, Eq, Default, Structural)]
pub enum UiLayoutSizingAlgorithmState {
    #[default]
    Deferred,
}

/// A sizing algorithm entry for one sizing entry.
#[derive(Debug, Clone, Copy, PartialEq, Eq, Structural)]
pub struct UiLayoutSizingAlgorithmEntry {
    id: UiLayoutSizingAlgorithmEntryId,
    source_layout_node: UiLayoutNodeId,
    source_layout_slot: UiLayoutSlotId,
    source_geometry_node: UiLayoutGeometryNodeId,
    source_constraint_declaration: UiLayoutConstraintId,
    source_sizing_entry: UiLayoutSizingEntryId,
    source_render_node: UiRenderNodeId,
    source_projection_node: Option<UiProjectedNodeId>,
    source_ir_node: Option<UiIrNodeId>,
    kind: UiLayoutSizingAlgorithmKind,
    state: UiLayoutSizingAlgorithmState,
    order: usize,
}

impl UiLayoutSizingAlgorithmEntry {
    pub closed spec fn spec_id(self) -> UiLayoutSizingAlgorithmEntryId {
        self.id
    }

    pub closed spec fn spec_source_layout_node(self) -> UiLayoutNodeId {
        self.source_layout_node
    }

    pub closed spec fn spec_source_layout_slot(self) -> UiLayoutSlotId {
        self.source_layout_slot
    }

    pub closed spec fn spec_source_geometry_node(self) -> UiLayoutGeometryNodeId {
        self.source_geometry_node
    }

    pub closed spec fn spec_source_constraint_declaration(self) -> UiLayoutConstraintId {
        self.source_constraint_declaration
    }

    pub closed spec fn spec_source_sizing_entry(self) -> UiLayoutSizingEntryId {
        self.source_sizing_entry
    }

    pub closed spec fn spec_source_render_node(self) -> UiRenderNodeId {
        self.source_render_node
    }

    pub closed spec fn spec_source_projection_node(self) -> Option<UiProjectedNodeId> {
        self.source_projection_node
    }

    pub closed spec fn spec_source_ir_node(self) -> Option<UiIrNodeId> {
        self.source_ir_node
    }

    pub closed spec fn spec_kind(self) -> UiLayoutSizingAlgorithmKind {
        self.kind
    }

    pub closed spec fn spec_state(self) -> UiLayoutSizingAlgorithmState {
        self.state
    }

    pub closed spec fn spec_order(self) -> usize {
        self.order
    }

    pub fn id(&self) -> (r: UiLayoutSizingAlgorithmEntryId)
        ensures
            r == self.spec_id(),
    {
        self.id
    }

    pub fn source_layout_node(&self) -> (r: UiLayoutNodeId)
        ensures
            r == self.spec_source_layout_node(),
    {
        self.source_layout_node
    }

    pub fn source_layout_slot(&self) -> (r: UiLayoutSlotId)
        ensures
            r == self.spec_source_layout_slot(),
    {
        self.source_layout_slot
    }

    pub fn source_geometry_node(&self) -> (r: UiLayoutGeometryNodeId)
        ensures
            r == self.spec_source_geometry_node(),
    {
        self.source_geometry_node
    }

    pub fn source_constraint_declaration(&self) -> (r: UiLayoutConstraintId)
        ensures
            r == self.spec_source_constraint_declaration(),
    {
        self.source_constraint_declaration
    }

    pub fn source_sizing_entry(&self) -> (r: UiLayoutSizingEntryId)
        ensures
            r == self.spec_source_sizing_entry(),
    {
        self.source_sizing_entry
    }

    pub fn source_render_node(&self) -> (r: UiRenderNodeId)
        ensures
            r == self.spec_source_render_node(),
    {
        self.source_render_node
    }

    pub fn source_projection_node(&self) -> (r: Option<UiProjectedNodeId>)
        ensures
            r == self.spec_source_projection_node(),
    {
        self.source_projection_node
    }

    pub fn source_ir_node(&self) -> (r: Option<UiIrNodeId>)
        ensures
            r == self.spec_source_ir_node(),
    {
        self.source_ir_node
    }

    pub fn kind(&self) -> (r: UiLayoutSizingAlgorithmKind)
        ensures
            r == self.spec_kind(),
    {
        self.kind
    }

    pub fn state(&self) -> (r: UiLayoutSizingAlgorithmState)
        ensures
            r == self.spec_state(),
    {
        self.state
    }

    pub fn order(&self) -> (r: usize)
        ensures
            r == self.spec_order(),
    {
        self.order
    }
}

/// The sizing algorithm model: one deferred entry per sizing entry.
#[derive(Debug, Clone, PartialEq, Eq)]
pub struct UiLayoutSizingAlgorithmModel {
    id: UiLayoutSizingAlgorithmModelId,
    source_layout_model: UiLayoutModelId,
    source_geometry_model: UiLayoutGeometryModelId,
    source_constraints_model: UiLayoutConstraintsModelId,
    source_sizing_model: UiLayoutSizingModelId,
    source_render_model: UiRenderModelId,
    source_projection: UiProjectionArtifactId,
    source_ir_root: Option<UiIrNodeId>,
    entries: Vec<UiLayoutSizingAlgorithmEntry>,
}

impl UiLayoutSizingAlgorithmModel {
    pub closed spec fn spec_id(self) -> UiLayoutSizingAlgorithmModelId {
        self.id
    }

    pub closed spec fn spec_source_layout_model(self) -> UiLayoutModelId {
        self.source_layout_model
    }

    pub closed spec fn spec_source_geometry_model(self) -> UiLayoutGeometryModelId {
        self.source_geometry_model
    }

    pub closed spec fn spec_source_constraints_model(self) -> UiLayoutConstraintsModelId {
        self.source_constraints_model
    }

    pub closed spec fn spec_source_sizing_model(self) -> UiLayoutSizingModelId {
        self.source_sizing_model
    }

    pub closed spec fn spec_source_render_model(self) -> UiRenderModelId {
        self.source_render_model
    }

    pub closed spec fn spec_source_projection(self) -> UiProjectionArtifactId {
        self.source_projection
    }

    pub closed spec fn spec_source_ir_root(self) -> Option<UiIrNodeId> {
        self.source_ir_root
    }

    pub closed spec fn spec_entries(self) -> Seq<UiLayoutSizingAlgorithmEntry> {
        self.entries@
    }

    pub fn id(&self) -> (r: UiLayoutSizingAlgorithmModelId)
        ensures
            r == self.spec_id(),
    {
        self.id
    }

    pub fn source_layout_model(&self) -> (r: UiLayoutModelId)
        ensures
            r == self.spec_source_layout_model(),
    {
        self.source_layout_model
    }

    pub fn source_geometry_model(&self) -> (r: UiLayoutGeometryModelId)
        ensures
            r == self.spec_source_geometry_model(),
    {
        self.source_geometry_model
    }

    pub fn source_constraints_model(&self) -> (r: UiLayoutConstraintsModelId)
        ensures
            r == self.spec_source_constraints_model(),
    {
        self.source_constraints_model
    }

    pub fn source_sizing_model(&self) -> (r: UiLayoutSizingModelId)
        ensures
            r == self.spec_source_sizing_model(),
    {
        self.source_sizing_model
    }

    pub fn source_render_model(&self) -> (r: UiRenderModelId)
        ensures
            r == self.spec_source_render_model(),
    {
        self.source_render_model
    }

    pub fn source_projection(&self) -> (r: UiProjectionArtifactId)
        ensures
            r == self.spec_source_projection(),
    {
        self.source_projection
    }

    pub fn source_ir_root(&self) -> (r: Option<UiIrNodeId>)
        ensures
            r == self.spec_source_ir_root(),
    {
        self.source_ir_root
    }

    pub fn entries(&self) -> (r: &[UiLayoutSizingAlgorithmEntry])
        ensures
            r@ == self.spec_entries(),
    {
        self.entries.as_slice()
    }

    pub fn is_empty(&self) -> (r: bool)
        ensures
            r == (self.spec_entries().len() == 0),
    {
        self.entries.len() == 0
    }

    pub fn len(&self) -> (r: usize)
        ensures
            r == self.spec_entries().len(),
    {
        self.entries.len()
    }
}

/// The kind of the sizing algorithm entry at a position.
pub open spec fn sizing_algorithm_kind_at(order: int) -> UiLayoutSizingAlgorithmKind {
    UiLayoutSizingAlgorithmKind::PassThrough
}

/// The state of the sizing algorithm entry at a position.
pub open spec fn sizing_algorithm_state_at(order: int) -> UiLayoutSizingAlgorithmState {
    UiLayoutSizingAlgorithmState::Deferred
}

/// The sizing algorithm entry at position `order` continues entry `p` of the previous stage: same raw identity and lineage, `p` as its source.
pub open spec fn sizing_algorithm_entry_from(e: UiLayoutSizingAlgorithmEntry, p: UiLayoutSizingEntry, order: int) -> bool {
    &&& e.spec_id().spec_raw() == p.spec_id().spec_raw()
    &&& e.spec_source_layout_node() == p.spec_source_layout_node()
    &&& e.spec_source_layout_slot() == p.spec_source_layout_slot()
    &&& e.spec_source_geometry_node() == p.spec_source_geometry_node()
    &&& e.spec_source_constraint_declaration() == p.spec_source_constraint_declaration()
    &&& e.spec_source_render_node() == p.spec_source_render_node()
    &&& e.spec_source_projection_node() == p.spec_source_projection_node()
    &&& e.spec_source_ir_node() == p.spec_source_ir_node()
    &&& e.spec_source_sizing_entry() == p.spec_id()
    &&& e.spec_kind() == sizing_algorithm_kind_at(order)
    &&& e.spec_state() == sizing_algorithm_state_at(order)
    &&& e.spec_order() == order
}

/// The sizing algorithm model continues model `m` of the previous stage: one entry per entry of `m`, in order.
pub open spec fn sizing_algorithm_model_from(r: UiLayoutSizingAlgorithmModel, m: UiLayoutSizingModel) -> bool {
    &&& r.spec_id().spec_raw() == m.spec_id().spec_raw()
    &&& r.spec_source_layout_model() == m.spec_source_layout_model()
    &&& r.spec_source_geometry_model() == m.spec_source_geometry_model()
    &&& r.spec_source_constraints_model() == m.spec_source_constraints_model()
    &&& r.spec_source_render_model() == m.spec_source_render_model()
    &&& r.spec_source_projection() == m.spec_source_projection()
    &&& r.spec_source_ir_root() == m.spec_source_ir_root()
    &&& r.spec_source_sizing_model() == m.spec_id()
    &&& r.spec_entries().len() == m.spec_entries().len()
    &&& forall|i: int|
        #![trigger r.spec_entries()[i]]
        0 <= i < r.spec_entries().len() ==> sizing_algorithm_entry_from(r.spec_entries()[i], m.spec_entries()[i], i)
}

/// Derives the sizing algorithm stage from the previous stage of layout.
pub fn build_layout_sizing_algorithm(model: &UiLayoutSizingModel) -> (r: UiLayoutSizingAlgorithmModel)
    ensures
        sizing_algorithm_model_from(r, *model),
{
    let source = model.entries();
    let mut entries: Vec<UiLayoutSizingAlgorithmEntry> = Vec::with_capacity(source.len());
    let mut order: usize = 0;
    while order < source.len()
        invariant
            source@ == model.spec_entries(),
            order <= source@.len(),
            entries@.len() == order,
            forall|i: int|
                #![trigger entries@[i]]
                0 <= i < order ==> sizing_algorithm_entry_from(entries@[i], source@[i], i),
        decreases source@.len() - order,
    {
        let prev = &source[order];
        let kind = UiLayoutSizingAlgorithmKind::PassThrough;
        let state = UiLayoutSizingAlgorithmState::Deferred;
        entries.push(UiLayoutSizingAlgorithmEntry {
            id: UiLayoutSizingAlgorithmEntryId::new(prev.id().raw()),
            source_layout_node: prev.source_layout_node(),
            source_layout_slot: prev.source_layout_slot(),
            source_geometry_node: prev.source_geometry_node(),
            source_constraint_declaration: prev.source_constraint_declaration(),
            source_sizing_entry: prev.id(),
            source_render_node: prev.source_render_node(),
            source_projection_node: prev.source_projection_node(),
            source_ir_node: prev.source_ir_node(),
            kind,
            state,
            order,
        });
        order += 1;
    }
    UiLayoutSizingAlgorithmModel {
        id: UiLayoutSizingAlgorithmModelId::new(model.id().raw()),
        source_layout_model: model.source_layout_model(),
        source_geometry_model: model.source_geometry_model(),
        source_constraints_model: model.source_constraints_model(),
        source_sizing_model: model.id(),
        source_render_model: model.source_render_model(),
        source_projection: model.source_projection(),
        source_ir_root: model.source_ir_root(),
        entries,
    }
}

/// Layout keeps the render nodes: from a render model through the layout
/// model, its sizing and its sizing algorithm there is one entry per render
/// node, in render order, each naming its render node and its position.
pub proof fn lemma_layout_stages_keep_render_nodes(
    render: UiRenderModel,
    layout: UiLayoutModel,
    sizing: UiLayoutSizingModel,
    algorithm: UiLayoutSizingAlgorithmModel,
)
    requires
        layout_model_from_render_model(layout, render),
        sizing_model_from_layout(sizing, layout),
        sizing_algorithm_model_from(algorithm, sizing),
    ensures
        algorithm.spec_entries().len() == render.spec_nodes().len(),
        algorithm.spec_source_render_model() == render.spec_id(),
        forall|i: int|
            #![trigger algorithm.spec_entries()[i]]
            0 <= i < algorithm.spec_entries().len() ==> {
                &&& algorithm.spec_entries()[i].spec_source_render_node() == render.spec_nodes()[i].spec_id()
                &&& algorithm.spec_entries()[i].spec_source_layout_node().spec_raw() == render.spec_nodes()[i].spec_id().spec_raw()
                &&& algorithm.spec_entries()[i].spec_order() == i
            },
{
    assert forall|i: int| 0 <= i < algorithm.spec_entries().len() implies {
        &&& #[trigger] algorithm.spec_entries()[i].spec_source_render_node() == render.spec_nodes()[i].spec_id()
        &&& algorithm.spec_entries()[i].spec_source_layout_node().spec_raw() == render.spec_nodes()[i].spec_id().spec_raw()
        &&& algorithm.spec_entries()[i].spec_order() == i
    } by {
        assert(sizing_algorithm_entry_from(algorithm.spec_entries()[i], sizing.spec_entries()[i], i));
        assert(sizing_entry_from_layout_node(sizing.spec_entries()[i], layout.spec_nodes()[i], i));
        assert(layout_node_from_render_node(layout.spec_nodes()[i], render.spec_nodes()[i], i));
    }
}

} // verus!
