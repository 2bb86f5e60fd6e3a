//! Constraint declarations of layout models.
use vstd::prelude::*;
use crate::model::UiIrNodeId;
use crate::projection::{UiProjectedNodeId, UiProjectionArtifactId};
use crate::renderer::{UiRenderModelId, UiRenderNodeId};
use crate::layout::base::{UiLayoutModel, UiLayoutModelId, UiLayoutNode, UiLayoutNodeId, UiLayoutSlotId};
use crate::layout::geometry::{build_layout_geometry, geometry_model_from_layout, geometry_node_from_layout_node, UiLayoutGeometryModelId, UiLayoutGeometryNodeId};

verus! {

/// Identity of a layout constraints model.
#[derive(Debug, Clone, Copy, PartialEq, Eq, Hash, Default, Structural)]
pub struct UiLayoutConstraintsModelId {
    raw: u64,
}

impl UiLayoutConstraintsModelId {
    pub closed spec fn spec_raw(self) -> u64 {
        self.raw
    }

    pub fn new(raw: u64) -> (r: Self)
        ensures
            r.spec_raw() == raw,
    {
        Self { raw }
    }

    pub fn raw(self) -> (r: u64)
        ensures
            r == self.spec_raw(),
    {
        self.raw
    }
}

/// Identity of a layout constraint declaration.
#[derive(Debug, Clone, Copy, PartialEq, Eq, Hash, Default, Structural)]
pub struct UiLayoutConstraintId {
    raw: u64,
}

impl UiLayoutConstraintId {
    pub closed spec fn spec_raw(self) -> u64 {
        self.raw
    }

    pub fn new(raw: u64) -> (r: Self)
        ensures
            r.spec_raw() == raw,
    {
        Self { raw }
    }

    pub fn raw(self) -> (r: u64)
        ensures
            r == self.spec_raw(),
    {
        self.raw
    }
}

/// The kind of a constraint declaration.
#[derive(Debug, Clone, Copy, PartialEq, Eq, Default, Structural)]
pub enum UiLayoutConstraintKind {
    #[default]
    Unresolved,
}

/// The state of a constraint declaration.
#[derive(Debug, Clone, Copy, PartialEq, Eq, Default, Structural)]
pub enum UiLayoutConstraintState {
    #[default]
    Unresolved,
}

/// An unresolved constraint declared for one geometry node.
#[derive(Debug, Clone, Copy, PartialEq, Eq, Structural)]
pub struct UiLayoutConstraintDeclaration {
    id: UiLayoutConstraintId,
    source_layout_node: UiLayoutNodeId,
    source_layout_slot: UiLayoutSlotId,
    source_geometry_node: UiLayoutGeometryNodeId,
    source_render_node: UiRenderNodeId,
    source_projection_node: Option<UiProjectedNodeId>,
    source_ir_node: Option<UiIrNodeId>,
    kind: UiLayoutConstraintKind,
    state: UiLayoutConstraintState,
    order: usize,
}

impl UiLayoutConstraintDeclaration {
    pub closed spec fn spec_id(self) -> UiLayoutConstraintId {
        self.id
    }

    pub closed spec fn spec_source_layout_node(self) -> UiLayoutNodeId {
        self.source_layout_node
    }

    pub closed spec fn spec_source_layout_slot(self) -> UiLayoutSlotId {
        self.source_layout_slot
    }

    pub closed spec fn spec_source_geometry_node(self) -> UiLayoutGeometryNodeId {
        self.source_geometry_node
    }

    pub closed spec fn spec_source_render_node(self) -> UiRenderNodeId {
        self.source_render_node
    }

    pub closed spec fn spec_source_projection_node(self) -> Option<UiProjectedNodeId> {
        self.source_projection_node
    }

    pub closed spec fn spec_source_ir_node(self) -> Option<UiIrNodeId> {
        self.source_ir_node
    }

    pub closed spec fn spec_kind(self) -> UiLayoutConstraintKind {
        self.kind
    }

    pub closed spec fn spec_state(self) -> UiLayoutConstraintState {
        self.state
    }

    pub closed spec fn spec_order(self) -> usize {
        self.order
    }

    pub fn id(&self) -> (r: UiLayoutConstraintId)
        ensures
            r == self.spec_id(),
    {
        self.id
    }

    pub fn source_layout_node(&self) -> (r: UiLayoutNodeId)
        ensures
            r == self.spec_source_layout_node(),
    {
        self.source_layout_node
    }

    pub fn source_layout_slot(&self) -> (r: UiLayoutSlotId)
        ensures
            r == self.spec_source_layout_slot(),
    {
        self.source_layout_slot
    }

    pub fn source_geometry_node(&self) -> (r: UiLayoutGeometryNodeId)
        ensures
            r == self.spec_source_geometry_node(),
    {
        self.source_geometry_node
    }

    pub fn source_render_node(&self) -> (r: UiRenderNodeId)
        ensures
            r == self.spec_source_render_node(),
    {
        self.source_render_node
    }

    pub fn source_projection_node(&self) -> (r: Option<UiProjectedNodeId>)
        ensures
            r == self.spec_source_projection_node(),
    {
        self.source_projection_node
    }

    pub fn source_ir_node(&self) -> (r: Option<UiIrNodeId>)
        ensures
            r == self.spec_source_ir_node(),
    {
        self.source_ir_node
    }

    pub fn kind(&self) -> (r: UiLayoutConstraintKind)
        ensures
            r == self.spec_kind(),
    {
        self.kind
    }

    pub fn state(&self) -> (r: UiLayoutConstraintState)
        ensures
            r == self.spec_state(),
    {
        self.state
    }

    pub fn order(&self) -> (r: usize)
        ensures
            r == self.spec_order(),
    {
        self.order
    }
}

/// The constraints of a layout model: one declaration per geometry node.
#[derive(Debug, Clone, PartialEq, Eq)]
pub struct UiLayoutConstraintsModel {
    id: UiLayoutConstraintsModelId,
    source_layout_model: UiLayoutModelId,
    source_geometry_model: UiLayoutGeometryModelId,
    source_render_model: UiRenderModelId,
    source_projection: UiProjectionArtifactId,
    source_ir_root: Option<UiIrNodeId>,
    declarations: Vec<UiLayoutConstraintDeclaration>,
}

impl UiLayoutConstraintsModel {
    pub closed spec fn spec_id(self) -> UiLayoutConstraintsModelId {
        self.id
    }

    pub closed spec fn spec_source_layout_model(self) -> UiLayoutModelId {
        self.source_layout_model
    }

    pub closed spec fn spec_source_geometry_model(self) -> UiLayoutGeometryModelId {
        self.source_geometry_model
    }

    pub closed spec fn spec_source_render_model(self) -> UiRenderModelId {
        self.source_render_model
    }

    pub closed spec fn spec_source_projection(self) -> UiProjectionArtifactId {
        self.source_projection
    }

    pub closed spec fn spec_source_ir_root(self) -> Option<UiIrNodeId> {
        self.source_ir_root
    }

    pub closed spec fn spec_declarations(self) -> Seq<UiLayoutConstraintDeclaration> {
        self.declarations@
    }

    pub fn id(&self) -> (r: UiLayoutConstraintsModelId)
        ensures
            r == self.spec_id(),
    {
        self.id
    }

    pub fn source_layout_model(&self) -> (r: UiLayoutModelId)
        ensures
            r == self.spec_source_layout_model(),
    {
        self.source_layout_model
    }

    pub fn source_geometry_model(&self) -> (r: UiLayoutGeometryModelId)
        ensures
            r == self.spec_source_geometry_model(),
    {
        self.source_geometry_model
    }

    pub fn source_render_model(&self) -> (r: UiRenderModelId)
        ensures
            r == self.spec_source_render_model(),
    {
        self.source_render_model
    }

    pub fn source_projection(&self) -> (r: UiProjectionArtifactId)
        ensures
            r == self.spec_source_projection(),
    {
        self.source_projection
    }

    pub fn source_ir_root(&self) -> (r: Option<UiIrNodeId>)
        ensures
            r == self.spec_source_ir_root(),
    {
        self.source_ir_root
    }

    pub fn declarations(&self) -> (r: &[UiLayoutConstraintDeclaration])
        ensures
            r@ == self.spec_declarations(),
    {
        self.declarations.as_slice()
    }

    pub fn is_empty(&self) -> (r: bool)
        ensures
            r == (self.spec_declarations().len() == 0),
    {
        self.declarations.len() == 0
    }

    pub fn len(&self) -> (r: usize)
        ensures
            r == self.spec_declarations().len(),
    {
        self.declarations.len()
    }
}

/// The declaration for layout node `n`, made through its geometry node: same
/// raw identity and lineage, unresolved, the node's order.
pub open spec fn declaration_from_layout_node(d: UiLayoutConstraintDeclaration, n: UiLayoutNode) -> bool {
    &&& d.spec_id().spec_raw() == n.spec_id().spec_raw()
    &&& d.spec_source_layout_node() == n.spec_id()
    &&& d.spec_source_layout_slot() == n.spec_slot()
    &&& d.spec_source_geometry_node().spec_raw() == n.spec_id().spec_raw()
    &&& d.spec_source_render_node() == n.spec_source_render_node()
    &&& d.spec_source_projection_node() == n.spec_source_projection_node()
    &&& d.spec_source_ir_node() == n.spec_source_ir_node()
    &&& d.spec_kind() == UiLayoutConstraintKind::Unresolved
    &&& d.spec_state() == UiLayoutConstraintState::Unresolved
    &&& d.spec_order() == n.spec_order()
}

/// The constraints of a layout model: one declaration per layout node, in order.
pub open spec fn constraints_model_from_layout(c: UiLayoutConstraintsModel, m: UiLayoutModel) -> bool {
    &&& c.spec_id().spec_raw() == m.spec_id().spec_raw()
    &&& c.spec_source_layout_model() == m.spec_id()
    &&& c.spec_source_geometry_model().spec_raw() == m.spec_id().spec_raw()
    &&& c.spec_source_render_model() == m.spec_source_render_model()
    &&& c.spec_source_projection() == m.spec_source_projection()
    &&& c.spec_source_ir_root() == m.spec_source_ir_root()
    &&& c.spec_declarations().len() == m.spec_nodes().len()
    &&& forall|i: int|
        #![trigger c.spec_declarations()[i]]
        0 <= i < c.spec_declarations().len() ==> declaration_from_layout_node(c.spec_declarations()[i], m.spec_nodes()[i])
}

/// Declares one unresolved constraint per node of the layout's geometry.
pub fn build_layout_constraints(model: &UiLayoutModel) -> (r: UiLayoutConstraintsModel)
    ensures
        constraints_model_from_layout(r, *model),
{
    let geometry_model = build_layout_geometry(model);
    let geometry_nodes = geometry_model.nodes();
    let mut declarations: Vec<UiLayoutConstraintDeclaration> = Vec::with_capacity(geometry_nodes.len());
    let mut i: usize = 0;
    while i < geometry_nodes.len()
        invariant
            geometry_nodes@ == geometry_model.spec_nodes(),
            geometry_model_from_layout(geometry_model, *model),
            i <= geometry_nodes@.len(),
            declarations@.len() == i,
            forall|j: int|
                #![trigger declarations@[j]]
                0 <= j < i ==> declaration_from_layout_node(declarations@[j], model.spec_nodes()[j]),
        decreases geometry_nodes@.len() - i,
    {
        let geometry_node = &geometry_nodes[i];
        assert(geometry_node_from_layout_node(geometry_nodes@[i as int], model.spec_nodes()[i as int]));
        declarations.push(UiLayoutConstraintDeclaration {
            id: UiLayoutConstraintId::new(geometry_node.id().raw()),
            source_layout_node: geometry_node.source_layout_node(),
            source_layout_slot: geometry_node.source_layout_slot(),
            source_geometry_node: geometry_node.id(),
            source_render_node: geometry_node.source_render_node(),
            source_projection_node: geometry_node.source_projection_node(),
            source_ir_node: geometry_node.source_ir_node(),
            kind: UiLayoutConstraintKind::Unresolved,
            state: UiLayoutConstraintState::Unresolved,
            order: geometry_node.order(),
        });
        i += 1;
    }
    UiLayoutConstraintsModel {
        id: UiLayoutConstraintsModelId::new(model.id().raw()),
        source_layout_model: model.id(),
        source_geometry_model: geometry_model.id(),
        source_render_model: model.source_render_model(),
        source_projection: model.source_projection(),
        source_ir_root: model.source_ir_root(),
        declarations,
    }
}

} // verus!
