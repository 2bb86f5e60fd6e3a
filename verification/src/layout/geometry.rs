//! Geometry of layout models: one rectangle per layout node.
use vstd::prelude::*;
use crate::model::UiIrNodeId;
use crate::projection::{UiProjectedNodeId, UiProjectionArtifactId};
use crate::renderer::{UiRenderModelId, UiRenderNodeId};
use crate::layout::base::{UiLayoutModel, UiLayoutModelId, UiLayoutNode, UiLayoutNodeId, UiLayoutSlotId};

verus! {

/// Identity of a layout geometry model.
#[derive(Debug, Clone, Copy, PartialEq, Eq, Hash, Default, Structural)]
pub struct UiLayoutGeometryModelId {
    raw: u64,
}

impl UiLayoutGeometryModelId {
    pub closed spec fn spec_raw(self) -> u64 {
        self.raw
    }

    pub fn new(raw: u64) -> (r: Self)
        ensures
            r.spec_raw() == raw,
    {
        Self { raw }
    }

    pub fn raw(self) -> (r: u64)
        ensures
            r == self.spec_raw(),
    {
        self.raw
    }
}

/// Identity of a layout geometry node.
#[derive(Debug, Clone, Copy, PartialEq, Eq, Hash, Default, Structural)]
pub struct UiLayoutGeometryNodeId {
    raw: u64,
}

impl UiLayoutGeometryNodeId {
    pub closed spec fn spec_raw(self) -> u64 {
        self.raw
    }

    pub fn new(raw: u64) -> (r: Self)
        ensures
            r.spec_raw() == raw,
    {
        Self { raw }
    }

    pub fn raw(self) -> (r: u64)
        ensures
            r == self.spec_raw(),
    {
        self.raw
    }
}

/// A point in layout coordinates.
#[derive(Debug, Clone, Copy, PartialEq, Eq, Default, Structural)]
pub struct UiPoint {
    pub x: i32,
    pub y: i32,
}

impl UiPoint {
    pub fn new(x: i32, y: i32) -> (r: Self)
        ensures
            r == (UiPoint { x, y }),
    {
        Self { x, y }
    }
}

/// A size in layout units.
#[derive(Debug, Clone, Copy, PartialEq, Eq, Default, Structural)]
pub struct UiSize {
    pub width: u32,
    pub height: u32,
}

impl UiSize {
    pub fn new(width: u32, height: u32) -> (r: Self)
        ensures
            r == (UiSize { width, height }),
    {
        Self { width, height }
    }
}

/// A rectangle: an origin and a size.
#[derive(Debug, Clone, Copy, PartialEq, Eq, Default, Structural)]
pub struct UiRect {
    pub origin: UiPoint,
    pub size: UiSize,
}

/// The rectangle with the given origin and size.
pub open spec fn rect_xywh(x: i32, y: i32, width: u32, height: u32) -> UiRect {
    UiRect { origin: UiPoint { x, y }, size: UiSize { width, height } }
}

impl UiRect {
    pub fn new(origin: UiPoint, size: UiSize) -> (r: Self)
        ensures
            r == (UiRect { origin, size }),
    {
        Self { origin, size }
    }

    pub fn from_xywh(x: i32, y: i32, width: u32, height: u32) -> (r: Self)
        ensures
            r == rect_xywh(x, y, width, height),
    {
        Self { origin: UiPoint::new(x, y), size: UiSize::new(width, height) }
    }

    pub fn x(&self) -> (r: i32)
        ensures
            r == self.origin.x,
    {
        self.origin.x
    }

    pub fn y(&self) -> (r: i32)
        ensures
            r == self.origin.y,
    {
        self.origin.y
    }

    pub fn width(&self) -> (r: u32)
        ensures
            r == self.size.width,
    {
        self.size.width
    }

    pub fn height(&self) -> (r: u32)
        ensures
            r == self.size.height,
    {
        self.size.height
    }
}

/// A placed rectangle of a layout entry.
#[derive(Debug, Clone, Copy, Default, PartialEq, Eq, Structural)]
pub struct UiLayoutGeometryRect {
    x: i32,
    y: i32,
    width: u32,
    height: u32,
}

impl UiLayoutGeometryRect {
    pub closed spec fn spec_x(self) -> i32 {
        self.x
    }

    pub closed spec fn spec_y(self) -> i32 {
        self.y
    }

    pub closed spec fn spec_width(self) -> u32 {
        self.width
    }

    pub closed spec fn spec_height(self) -> u32 {
        self.height
    }

    pub fn x(&self) -> (r: i32)
        ensures
            r == self.spec_x(),
    {
        self.x
    }

    pub fn y(&self) -> (r: i32)
        ensures
            r == self.spec_y(),
    {
        self.y
    }

    pub fn width(&self) -> (r: u32)
        ensures
            r == self.spec_width(),
    {
        self.width
    }

    pub fn height(&self) -> (r: u32)
        ensures
            r == self.spec_height(),
    {
        self.height
    }

    pub fn new(x: i32, y: i32, width: u32, height: u32) -> (r: Self)
        ensures
            r.spec_x() == x,
            r.spec_y() == y,
            r.spec_width() == width,
            r.spec_height() == height,
    {
        Self { x, y, width, height }
    }
}

/// A layout node with its rectangle.
#[derive(Debug, Clone, Copy, PartialEq, Eq, Structural)]
pub struct UiLayoutGeometryNode {
    id: UiLayoutGeometryNodeId,
    source_layout_node: UiLayoutNodeId,
    source_layout_slot: UiLayoutSlotId,
    source_render_node: UiRenderNodeId,
    source_projection_node: Option<UiProjectedNodeId>,
    source_ir_node: Option<UiIrNodeId>,
    rect: UiRect,
    order: usize,
}

impl UiLayoutGeometryNode {
    pub closed spec fn spec_id(self) -> UiLayoutGeometryNodeId {
        self.id
    }

    pub closed spec fn spec_source_layout_node(self) -> UiLayoutNodeId {
        self.source_layout_node
    }

    pub closed spec fn spec_source_layout_slot(self) -> UiLayoutSlotId {
        self.source_layout_slot
    }

    pub closed spec fn spec_source_render_node(self) -> UiRenderNodeId {
        self.source_render_node
    }

    pub closed spec fn spec_source_projection_node(self) -> Option<UiProjectedNodeId> {
        self.source_projection_node
    }

    pub closed spec fn spec_source_ir_node(self) -> Option<UiIrNodeId> {
        self.source_ir_node
    }

    pub closed spec fn spec_rect(self) -> UiRect {
        self.rect
    }

    pub closed spec fn spec_order(self) -> usize {
        self.order
    }

    pub fn id(&self) -> (r: UiLayoutGeometryNodeId)
        ensures
            r == self.spec_id(),
    {
        self.id
    }

    pub fn source_layout_node(&self) -> (r: UiLayoutNodeId)
        ensures
            r == self.spec_source_layout_node(),
    {
        self.source_layout_node
    }

    pub fn source_layout_slot(&self) -> (r: UiLayoutSlotId)
        ensures
            r == self.spec_source_layout_slot(),
    {
        self.source_layout_slot
    }

    pub fn source_render_node(&self) -> (r: UiRenderNodeId)
        ensures
            r == self.spec_source_render_node(),
    {
        self.source_render_node
    }

    pub fn source_projection_node(&self) -> (r: Option<UiProjectedNodeId>)
        ensures
            r == self.spec_source_projection_node(),
    {
        self.source_projection_node
    }

    pub fn source_ir_node(&self) -> (r: Option<UiIrNodeId>)
        ensures
            r == self.spec_source_ir_node(),
    {
        self.source_ir_node
    }

    pub fn rect(&self) -> (r: UiRect)
        ensures
            r == self.spec_rect(),
    {
        self.rect
    }

    pub fn order(&self) -> (r: usize)
        ensures
            r == self.spec_order(),
    {
        self.order
    }

    pub fn with_rect(self, rect: UiRect) -> (r: Self)
        ensures
            r.spec_rect() == rect,
            r.spec_id() == self.spec_id(),
            r.spec_source_layout_node() == self.spec_source_layout_node(),
            r.spec_source_layout_slot() == self.spec_source_layout_slot(),
            r.spec_source_render_node() == self.spec_source_render_node(),
            r.spec_source_projection_node() == self.spec_source_projection_node(),
            r.spec_source_ir_node() == self.spec_source_ir_node(),
            r.spec_order() == self.spec_order(),
    {
        let mut node = self;
        node.rect = rect;
        node
    }
}

/// The geometry of a layout model: one node with a rectangle per layout node.
#[derive(Debug, Clone, PartialEq, Eq)]
pub struct UiLayoutGeometryModel {
    pub(crate) id: UiLayoutGeometryModelId,
    pub(crate) source_layout_model: UiLayoutModelId,
    pub(crate) source_render_model: UiRenderModelId,
    pub(crate) source_projection: UiProjectionArtifactId,
    pub(crate) source_ir_root: Option<UiIrNodeId>,
    pub(crate) nodes: Vec<UiLayoutGeometryNode>,
}

impl UiLayoutGeometryModel {
    pub closed spec fn spec_id(self) -> UiLayoutGeometryModelId {
        self.id
    }

    pub closed spec fn spec_source_layout_model(self) -> UiLayoutModelId {
        self.source_layout_model
    }

    pub closed spec fn spec_source_render_model(self) -> UiRenderModelId {
        self.source_render_model
    }

    pub closed spec fn spec_source_projection(self) -> UiProjectionArtifactId {
        self.source_projection
    }

    pub closed spec fn spec_source_ir_root(self) -> Option<UiIrNodeId> {
        self.source_ir_root
    }

    pub closed spec fn spec_nodes(self) -> Seq<UiLayoutGeometryNode> {
        self.nodes@
    }

    pub fn id(&self) -> (r: UiLayoutGeometryModelId)
        ensures
            r == self.spec_id(),
    {
        self.id
    }

    pub fn source_layout_model(&self) -> (r: UiLayoutModelId)
        ensures
            r == self.spec_source_layout_model(),
    {
        self.source_layout_model
    }

    pub fn source_render_model(&self) -> (r: UiRenderModelId)
        ensures
            r == self.spec_source_render_model(),
    {
        self.source_render_model
    }

    pub fn source_projection(&self) -> (r: UiProjectionArtifactId)
        ensures
            r == self.spec_source_projection(),
    {
        self.source_projection
    }

    pub fn source_ir_root(&self) -> (r: Option<UiIrNodeId>)
        ensures
            r == self.spec_source_ir_root(),
    {
        self.source_ir_root
    }

    pub fn nodes(&self) -> (r: &[UiLayoutGeometryNode])
        ensures
            r@ == self.spec_nodes(),
    {
        self.nodes.as_slice()
    }

    pub fn is_empty(&self) -> (r: bool)
        ensures
            r == (self.spec_nodes().len() == 0),
    {
        self.nodes.len() == 0
    }

    pub fn len(&self) -> (r: usize)
        ensures
            r == self.spec_nodes().len(),
    {
        self.nodes.len()
    }

    pub fn with_nodes(self, nodes: Vec<UiLayoutGeometryNode>) -> (r: Self)
        ensures
            r.spec_nodes() == nodes@,
            r.spec_id() == self.spec_id(),
            r.spec_source_layout_model() == self.spec_source_layout_model(),
            r.spec_source_render_model() == self.spec_source_render_model(),
            r.spec_source_projection() == self.spec_source_projection(),
            r.spec_source_ir_root() == self.spec_source_ir_root(),
    {
        let mut model = self;
        model.nodes = nodes;
        model
    }
}

/// The accessors of a geometry model read its fields, for the layout
/// solvers of this crate that assemble geometry models.
pub(crate) proof fn lemma_geometry_model_fields(m: UiLayoutGeometryModel)
    ensures
        m.spec_id() == m.id,
        m.spec_source_layout_model() == m.source_layout_model,
        m.spec_source_render_model() == m.source_render_model,
        m.spec_source_projection() == m.source_projection,
        m.spec_source_ir_root() == m.source_ir_root,
        m.spec_nodes() == m.nodes@,
{
}

/// The geometry node for layout node `n`: same raw identity and lineage, an
/// empty rectangle at the origin, the node's order.
pub open spec fn geometry_node_from_layout_node(g: UiLayoutGeometryNode, n: UiLayoutNode) -> bool {
    &&& g.spec_id().spec_raw() == n.spec_id().spec_raw()
    &&& g.spec_source_layout_node() == n.spec_id()
    &&& g.spec_source_layout_slot() == n.spec_slot()
    &&& g.spec_source_render_node() == n.spec_source_render_node()
    &&& g.spec_source_projection_node() == n.spec_source_projection_node()
    &&& g.spec_source_ir_node() == n.spec_source_ir_node()
    &&& g.spec_rect() == rect_xywh(0, 0, 0, 0)
    &&& g.spec_order() == n.spec_order()
}

/// The geometry of a layout model: one geometry node per layout node, in order.
pub open spec fn geometry_model_from_layout(g: UiLayoutGeometryModel, m: UiLayoutModel) -> bool {
    &&& g.spec_id().spec_raw() == m.spec_id().spec_raw()
    &&& g.spec_source_layout_model() == m.spec_id()
    &&& g.spec_source_render_model() == m.spec_source_render_model()
    &&& g.spec_source_projection() == m.spec_source_projection()
    &&& g.spec_source_ir_root() == m.spec_source_ir_root()
    &&& g.spec_nodes().len() == m.spec_nodes().len()
    &&& forall|i: int|
        #![trigger g.spec_nodes()[i]]
        0 <= i < g.spec_nodes().len() ==> geometry_node_from_layout_node(g.spec_nodes()[i], m.spec_nodes()[i])
}

/// Builds the geometry of a layout model, every rectangle still empty.
pub fn build_layout_geometry(model: &UiLayoutModel) -> (r: UiLayoutGeometryModel)
    ensures
        geometry_model_from_layout(r, *model),
{
    let layout_nodes = model.nodes();
    let mut nodes: Vec<UiLayoutGeometryNode> = Vec::with_capacity(layout_nodes.len());
    let mut i: usize = 0;
    while i < layout_nodes.len()
        invariant
            layout_nodes@ == model.spec_nodes(),
            i <= layout_nodes@.len(),
            nodes@.len() == i,
            forall|j: int|
                #![trigger nodes@[j]]
                0 <= j < i ==> geometry_node_from_layout_node(nodes@[j], layout_nodes@[j]),
        decreases layout_nodes@.len() - i,
    {
        let layout_node = &layout_nodes[i];
        nodes.push(UiLayoutGeometryNode {
            id: UiLayoutGeometryNodeId::new(layout_node.id().raw()),
            source_layout_node: layout_node.id(),
            source_layout_slot: layout_node.slot(),
            source_render_node: layout_node.source_render_node(),
            source_projection_node: layout_node.source_projection_node(),
            source_ir_node: layout_node.source_ir_node(),
            rect: UiRect::from_xywh(0, 0, 0, 0),
            order: layout_node.order(),
        });
        i += 1;
    }
    UiLayoutGeometryModel {
        id: UiLayoutGeometryModelId::new(model.id().raw()),
        source_layout_model: model.id(),
        source_render_model: model.source_render_model(),
        source_projection: model.source_projection(),
        source_ir_root: model.source_ir_root(),
        nodes,
    }
}

} // verus!
