//! Sizing of layout models: one unresolved entry per layout node.
use vstd::prelude::*;
use crate::model::UiIrNodeId;
use crate::projection::{UiProjectedNodeId, UiProjectionArtifactId};
use crate::renderer::{UiRenderModelId, UiRenderNodeId};
use crate::layout::base::{UiLayoutModel, UiLayoutModelId, UiLayoutNode, UiLayoutNodeId, UiLayoutSlotId};
use crate::layout::geometry::{build_layout_geometry, geometry_model_from_layout, geometry_node_from_layout_node, UiLayoutGeometryModelId, UiLayoutGeometryNodeId};
use crate::layout::constraints::{build_layout_constraints, constraints_model_from_layout, declaration_from_layout_node, UiLayoutConstraintId, UiLayoutConstraintsModelId};

verus! {

/// Identity of a layout sizing model.
#[derive(Debug, Clone, Copy, PartialEq, Eq, Hash, Default, Structural)]
pub struct UiLayoutSizingModelId {
    raw: u64,
}

impl UiLayoutSizingModelId {
    pub closed spec fn spec_raw(self) -> u64 {
        self.raw
    }

    pub fn new(raw: u64) -> (r: Self)
        ensures
            r.spec_raw() == raw,
    {
        Self { raw }
    }

    pub fn raw(self) -> (r: u64)
        ensures
            r == self.spec_raw(),
    {
        self.raw
    }
}

/// Identity of a layout sizing entry.
#[derive(Debug, Clone, Copy, PartialEq, Eq, Hash, Default, Structural)]
pub struct UiLayoutSizingEntryId {
    raw: u64,
}

impl UiLayoutSizingEntryId {
    pub closed spec fn spec_raw(self) -> u64 {
        self.raw
    }

    pub fn new(raw: u64) -> (r: Self)
        ensures
            r.spec_raw() == raw,
    {
        Self { raw }
    }

    pub fn raw(self) -> (r: u64)
        ensures
            r == self.spec_raw(),
    {
        self.raw
    }
}

/// The kind of a sizing entry.
#[derive(Debug, Clone, Copy, PartialEq, Eq, Default, Structural)]
pub enum UiLayoutSizingKind {
    #[default]
    Unresolved,
}

/// The state of a sizing entry.
#[derive(Debug, Clone, Copy, PartialEq, Eq, Default, Structural)]
pub enum UiLayoutSizingState {
    #[default]
    Unresolved,
}

/// An unresolved sizing entry for one layout node.
#[derive(Debug, Clone, Copy, PartialEq, Eq, Structural)]
pub struct UiLayoutSizingEntry {
    id: UiLayoutSizingEntryId,
    source_layout_node: UiLayoutNodeId,
    source_layout_slot: UiLayoutSlotId,
    source_geometry_node: UiLayoutGeometryNodeId,
    source_constraint_declaration: UiLayoutConstraintId,
    source_render_node: UiRenderNodeId,
    source_projection_node: Option<UiProjectedNodeId>,
    source_ir_node: Option<UiIrNodeId>,
    kind: UiLayoutSizingKind,
    state: UiLayoutSizingState,
    order: usize,
}

impl UiLayoutSizingEntry {
    pub closed spec fn spec_id(self) -> UiLayoutSizingEntryId {
        self.id
    }

    pub closed spec fn spec_source_layout_node(self) -> UiLayoutNodeId {
        self.source_layout_node
    }

    pub closed spec fn spec_source_layout_slot(self) -> UiLayoutSlotId {
        self.source_layout_slot
    }

    pub closed spec fn spec_source_geometry_node(self) -> UiLayoutGeometryNodeId {
        self.source_geometry_node
    }

    pub closed spec fn spec_source_constraint_declaration(self) -> UiLayoutConstraintId {
        self.source_constraint_declaration
    }

    pub closed spec fn spec_source_render_node(self) -> UiRenderNodeId {
        self.source_render_node
    }

    pub closed spec fn spec_source_projection_node(self) -> Option<UiProjectedNodeId> {
        self.source_projection_node
    }

    pub closed spec fn spec_source_ir_node(self) -> Option<UiIrNodeId> {
        self.source_ir_node
    }

    pub closed spec fn spec_kind(self) -> UiLayoutSizingKind {
        self.kind
    }

    pub closed spec fn spec_state(self) -> UiLayoutSizingState {
        self.state
    }

    pub closed spec fn spec_order(self) -> usize {
        self.order
    }

    pub fn id(&self) -> (r: UiLayoutSizingEntryId)
        ensures
            r == self.spec_id(),
    {
        self.id
    }

    pub fn source_layout_node(&self) -> (r: UiLayoutNodeId)
        ensures
            r == self.spec_source_layout_node(),
    {
        self.source_layout_node
    }

    pub fn source_layout_slot(&self) -> (r: UiLayoutSlotId)
        ensures
            r == self.spec_source_layout_slot(),
    {
        self.source_layout_slot
    }

    pub fn source_geometry_node(&self) -> (r: UiLayoutGeometryNodeId)
        ensures
            r == self.spec_source_geometry_node(),
    {
        self.source_geometry_node
    }

    pub fn source_constraint_declaration(&self) -> (r: UiLayoutConstraintId)
        ensures
            r == self.spec_source_constraint_declaration(),
    {
        self.source_constraint_declaration
    }

    pub fn source_render_node(&self) -> (r: UiRenderNodeId)
        ensures
            r == self.spec_source_render_node(),
    {
        self.source_render_node
    }

    pub fn source_projection_node(&self) -> (r: Option<UiProjectedNodeId>)
        ensures
            r == self.spec_source_projection_node(),
    {
        self.source_projection_node
    }

    pub fn source_ir_node(&self) -> (r: Option<UiIrNodeId>)
        ensures
            r == self.spec_source_ir_node(),
    {
        self.source_ir_node
    }

    pub fn kind(&self) -> (r: UiLayoutSizingKind)
        ensures
            r == self.spec_kind(),
    {
        self.kind
    }

    pub fn state(&self) -> (r: UiLayoutSizingState)
        ensures
            r == self.spec_state(),
    {
        self.state
    }

    pub fn order(&self) -> (r: usize)
        ensures
            r == self.spec_order(),
    {
        self.order
    }
}

/// The sizing of a layout model: one entry per layout node.
#[derive(Debug, Clone, PartialEq, Eq)]
pub struct UiLayoutSizingModel {
    id: UiLayoutSizingModelId,
    source_layout_model: UiLayoutModelId,
    source_geometry_model: UiLayoutGeometryModelId,
    source_constraints_model: UiLayoutConstraintsModelId,
    source_render_model: UiRenderModelId,
    source_projection: UiProjectionArtifactId,
    source_ir_root: Option<UiIrNodeId>,
    entries: Vec<UiLayoutSizingEntry>,
}

impl UiLayoutSizingModel {
    pub closed spec fn spec_id(self) -> UiLayoutSizingModelId {
        self.id
    }

    pub closed spec fn spec_source_layout_model(self) -> UiLayoutModelId {
        self.source_layout_model
    }

    pub closed spec fn spec_source_geometry_model(self) -> UiLayoutGeometryModelId {
        self.source_geometry_model
    }

    pub closed spec fn spec_source_constraints_model(self) -> UiLayoutConstraintsModelId {
        self.source_constraints_model
    }

    pub closed spec fn spec_source_render_model(self) -> UiRenderModelId {
        self.source_render_model
    }

    pub closed spec fn spec_source_projection(self) -> UiProjectionArtifactId {
        self.source_projection
    }

    pub closed spec fn spec_source_ir_root(self) -> Option<UiIrNodeId> {
        self.source_ir_root
    }

    pub closed spec fn spec_entries(self) -> Seq<UiLayoutSizingEntry> {
        self.entries@
    }

    pub fn id(&self) -> (r: UiLayoutSizingModelId)
        ensures
            r == self.spec_id(),
    {
        self.id
    }

    pub fn source_layout_model(&self) -> (r: UiLayoutModelId)
        ensures
            r == self.spec_source_layout_model(),
    {
        self.source_layout_model
    }

    pub fn source_geometry_model(&self) -> (r: UiLayoutGeometryModelId)
        ensures
            r == self.spec_source_geometry_model(),
    {
        self.source_geometry_model
    }

    pub fn source_constraints_model(&self) -> (r: UiLayoutConstraintsModelId)
        ensures
            r == self.spec_source_constraints_model(),
    {
        self.source_constraints_model
    }

    pub fn source_render_model(&self) -> (r: UiRenderModelId)
        ensures
            r == self.spec_source_render_model(),
    {
        self.source_render_model
    }

    pub fn source_projection(&self) -> (r: UiProjectionArtifactId)
        ensures
            r == self.spec_source_projection(),
    {
        self.source_projection
    }

    pub fn source_ir_root(&self) -> (r: Option<UiIrNodeId>)
        ensures
            r == self.spec_source_ir_root(),
    {
        self.source_ir_root
    }

    pub fn entries(&self) -> (r: &[UiLayoutSizingEntry])
        ensures
            r@ == self.spec_entries(),
    {
        self.entries.as_slice()
    }

    pub fn is_empty(&self) -> (r: bool)
        ensures
            r == (self.spec_entries().len() == 0),
    {
        self.entries.len() == 0
    }

    pub fn len(&self) -> (r: usize)
        ensures
            r == self.spec_entries().len(),
    {
        self.entries.len()
    }
}

/// The sizing entry at position `order` for layout node `n`: same raw identity,
/// the node's geometry node and constraint declaration, unresolved.
pub open spec fn sizing_entry_from_layout_node(e: UiLayoutSizingEntry, n: UiLayoutNode, order: int) -> bool {
    &&& e.spec_id().spec_raw() == n.spec_id().spec_raw()
    &&& e.spec_source_layout_node() == n.spec_id()
    &&& e.spec_source_layout_slot() == n.spec_slot()
    &&& e.spec_source_geometry_node().spec_raw() == n.spec_id().spec_raw()
    &&& e.spec_source_constraint_declaration().spec_raw() == n.spec_id().spec_raw()
    &&& e.spec_source_render_node() == n.spec_source_render_node()
    &&& e.spec_source_projection_node() == n.spec_source_projection_node()
    &&& e.spec_source_ir_node() == n.spec_source_ir_node()
    &&& e.spec_kind() == UiLayoutSizingKind::Unresolved
    &&& e.spec_state() == UiLayoutSizingState::Unresolved
    &&& e.spec_order() == order
}

/// The sizing of a layout model: one entry per layout node, in order.
pub open spec fn sizing_model_from_layout(s: UiLayoutSizingModel, m: UiLayoutModel) -> bool {
    &&& s.spec_id().spec_raw() == m.spec_id().spec_raw()
    &&& s.spec_source_layout_model() == m.spec_id()
    &&& s.spec_source_geometry_model().spec_raw() == m.spec_id().spec_raw()
    &&& s.spec_source_constraints_model().spec_raw() == m.spec_id().spec_raw()
    &&& s.spec_source_render_model() == m.spec_source_render_model()
    &&& s.spec_source_projection() == m.spec_source_projection()
    &&& s.spec_source_ir_root() == m.spec_source_ir_root()
    &&& s.spec_entries().len() == m.spec_nodes().len()
    &&& forall|i: int|
        #![trigger s.spec_entries()[i]]
        0 <= i < s.spec_entries().len() ==> sizing_entry_from_layout_node(s.spec_entries()[i], m.spec_nodes()[i], i)
}

/// Pairs each constraint declaration with its layout node and geometry node
/// into an unresolved sizing entry.
pub fn build_layout_sizing(model: &UiLayoutModel) -> (r: UiLayoutSizingModel)
    ensures
        sizing_model_from_layout(r, *model),
{
    let geometry_model = build_layout_geometry(model);
    let constraints_model = build_layout_constraints(model);
    let declarations = constraints_model.declarations();
    let layout_nodes = model.nodes();
    let geometry_nodes = geometry_model.nodes();
    let mut entries: Vec<UiLayoutSizingEntry> = Vec::with_capacity(declarations.len());
    let mut index: usize = 0;
    while index < declarations.len()
        invariant
            declarations@ == constraints_model.spec_declarations(),
            layout_nodes@ == model.spec_nodes(),
            geometry_nodes@ == geometry_model.spec_nodes(),
            geometry_model_from_layout(geometry_model, *model),
            constraints_model_from_layout(constraints_model, *model),
            index <= declarations@.len(),
            entries@.len() == index,
            forall|j: int|
                #![trigger entries@[j]]
                0 <= j < index ==> sizing_entry_from_layout_node(entries@[j], layout_nodes@[j], j),
        decreases declarations@.len() - index,
    {
        let declaration = &declarations[index];
        let layout_node = &layout_nodes[index];
        let geometry_node = &geometry_nodes[index];
        assert(declaration_from_layout_node(declarations@[index as int], layout_nodes@[index as int]));
        assert(geometry_node_from_layout_node(geometry_nodes@[index as int], layout_nodes@[index as int]));
        entries.push(UiLayoutSizingEntry {
            id: UiLayoutSizingEntryId::new(declaration.id().raw()),
            source_layout_node: layout_node.id(),
            source_layout_slot: layout_node.slot(),
            source_geometry_node: geometry_node.id(),
            source_constraint_declaration: declaration.id(),
            source_render_node: layout_node.source_render_node(),
            source_projection_node: layout_node.source_projection_node(),
            source_ir_node: layout_node.source_ir_node(),
            kind: UiLayoutSizingKind::Unresolved,
            state: UiLayoutSizingState::Unresolved,
            order: index,
        });
        index += 1;
    }
    UiLayoutSizingModel {
        id: UiLayoutSizingModelId::new(model.id().raw()),
        source_layout_model: model.id(),
        source_geometry_model: geometry_model.id(),
        source_constraints_model: constraints_model.id(),
        source_render_model: model.source_render_model(),
        source_projection: model.source_projection(),
        source_ir_root: model.source_ir_root(),
        entries,
    }
}

} // verus!
