//! Layout models built from render models, and their inspection.
use vstd::prelude::*;
use crate::model::UiIrNodeId;
use crate::projection::{UiProjectedNodeId, UiProjectionArtifactId};
use crate::renderer::{UiRenderModel, UiRenderModelId, UiRenderNode, UiRenderNodeId};

verus! {

/// Identity of a layout model.
#[derive(Debug, Clone, Copy, PartialEq, Eq, Hash, Default, Structural)]
pub struct UiLayoutModelId {
    raw: u64,
}

impl UiLayoutModelId {
    pub closed spec fn spec_raw(self) -> u64 {
        self.raw
    }

    pub fn new(raw: u64) -> (r: Self)
        ensures
            r.spec_raw() == raw,
    {
        Self { raw }
    }

    pub fn raw(self) -> (r: u64)
        ensures
            r == self.spec_raw(),
    {
        self.raw
    }
}

/// Identity of a layout node.
#[derive(Debug, Clone, Copy, PartialEq, Eq, Hash, Default, Structural)]
pub struct UiLayoutNodeId {
    raw: u64,
}

impl UiLayoutNodeId {
    pub closed spec fn spec_raw(self) -> u64 {
        self.raw
    }

    pub fn new(raw: u64) -> (r: Self)
        ensures
            r.spec_raw() == raw,
    {
        Self { raw }
    }

    pub fn raw(self) -> (r: u64)
        ensures
            r == self.spec_raw(),
    {
        self.raw
    }
}

/// Identity of a layout slot.
#[derive(Debug, Clone, Copy, PartialEq, Eq, Hash, Default, Structural)]
pub struct UiLayoutSlotId {
    raw: u64,
}

impl UiLayoutSlotId {
    pub closed spec fn spec_raw(self) -> u64 {
        self.raw
    }

    pub fn new(raw: u64) -> (r: Self)
        ensures
            r.spec_raw() == raw,
    {
        Self { raw }
    }

    pub fn raw(self) -> (r: u64)
        ensures
            r == self.spec_raw(),
    {
        self.raw
    }
}

/// What a layout slot holds.
#[derive(Debug, Clone, Copy, PartialEq, Eq, Structural)]
pub enum UiLayoutSlotKind {
    Root,
    Node,
    Metadata,
}

/// A slot of a layout model.
#[derive(Debug, Clone, Copy, PartialEq, Eq, Structural)]
pub struct UiLayoutSlot {
    id: UiLayoutSlotId,
    kind: UiLayoutSlotKind,
    order: usize,
}

impl UiLayoutSlot {
    pub closed spec fn spec_id(self) -> UiLayoutSlotId {
        self.id
    }

    pub closed spec fn spec_kind(self) -> UiLayoutSlotKind {
        self.kind
    }

    pub closed spec fn spec_order(self) -> usize {
        self.order
    }

    pub fn id(&self) -> (r: UiLayoutSlotId)
        ensures
            r == self.spec_id(),
    {
        self.id
    }

    pub fn kind(&self) -> (r: UiLayoutSlotKind)
        ensures
            r == self.spec_kind(),
    {
        self.kind
    }

    pub fn order(&self) -> (r: usize)
        ensures
            r == self.spec_order(),
    {
        self.order
    }
}

/// A layout node: one render node placed in a slot.
#[derive(Debug, Clone, Copy, PartialEq, Eq, Structural)]
pub struct UiLayoutNode {
    id: UiLayoutNodeId,
    source_render_node: UiRenderNodeId,
    source_projection_node: Option<UiProjectedNodeId>,
    source_ir_node: Option<UiIrNodeId>,
    slot: UiLayoutSlotId,
    order: usize,
}

impl UiLayoutNode {
    pub closed spec fn spec_id(self) -> UiLayoutNodeId {
        self.id
    }

    pub closed spec fn spec_source_render_node(self) -> UiRenderNodeId {
        self.source_render_node
    }

    pub closed spec fn spec_source_projection_node(self) -> Option<UiProjectedNodeId> {
        self.source_projection_node
    }

    pub closed spec fn spec_source_ir_node(self) -> Option<UiIrNodeId> {
        self.source_ir_node
    }

    pub closed spec fn spec_slot(self) -> UiLayoutSlotId {
        self.slot
    }

    pub closed spec fn spec_order(self) -> usize {
        self.order
    }

    pub fn id(&self) -> (r: UiLayoutNodeId)
        ensures
            r == self.spec_id(),
    {
        self.id
    }

    pub fn source_render_node(&self) -> (r: UiRenderNodeId)
        ensures
            r == self.spec_source_render_node(),
    {
        self.source_render_node
    }

    pub fn source_projection_node(&self) -> (r: Option<UiProjectedNodeId>)
        ensures
            r == self.spec_source_projection_node(),
    {
        self.source_projection_node
    }

    pub fn source_ir_node(&self) -> (r: Option<UiIrNodeId>)
        ensures
            r == self.spec_source_ir_node(),
    {
        self.source_ir_node
    }

    pub fn slot(&self) -> (r: UiLayoutSlotId)
        ensures
            r == self.spec_slot(),
    {
        self.slot
    }

    pub fn order(&self) -> (r: usize)
        ensures
            r == self.spec_order(),
    {
        self.order
    }
}

/// A layout model: its slots and one node per render node, in render order.
#[derive(Debug, Clone, PartialEq, Eq)]
pub struct UiLayoutModel {
    id: UiLayoutModelId,
    source_render_model: UiRenderModelId,
    source_projection: UiProjectionArtifactId,
    source_ir_root: Option<UiIrNodeId>,
    slots: Vec<UiLayoutSlot>,
    nodes: Vec<UiLayoutNode>,
}

impl UiLayoutModel {
    pub closed spec fn spec_id(self) -> UiLayoutModelId {
        self.id
    }

    pub closed spec fn spec_source_render_model(self) -> UiRenderModelId {
        self.source_render_model
    }

    pub closed spec fn spec_source_projection(self) -> UiProjectionArtifactId {
        self.source_projection
    }

    pub closed spec fn spec_source_ir_root(self) -> Option<UiIrNodeId> {
        self.source_ir_root
    }

    pub closed spec fn spec_slots(self) -> Seq<UiLayoutSlot> {
        self.slots@
    }

    pub closed spec fn spec_nodes(self) -> Seq<UiLayoutNode> {
        self.nodes@
    }

    pub fn id(&self) -> (r: UiLayoutModelId)
        ensures
            r == self.spec_id(),
    {
        self.id
    }

    pub fn source_render_model(&self) -> (r: UiRenderModelId)
        ensures
            r == self.spec_source_render_model(),
    {
        self.source_render_model
    }

    pub fn source_projection(&self) -> (r: UiProjectionArtifactId)
        ensures
            r == self.spec_source_projection(),
    {
        self.source_projection
    }

    pub fn source_ir_root(&self) -> (r: Option<UiIrNodeId>)
        ensures
            r == self.spec_source_ir_root(),
    {
        self.source_ir_root
    }

    pub fn slots(&self) -> (r: &[UiLayoutSlot])
        ensures
            r@ == self.spec_slots(),
    {
        self.slots.as_slice()
    }

    pub fn nodes(&self) -> (r: &[UiLayoutNode])
        ensures
            r@ == self.spec_nodes(),
    {
        self.nodes.as_slice()
    }

    pub fn is_empty(&self) -> (r: bool)
        ensures
            r == (self.spec_nodes().len() == 0),
    {
        self.nodes.len() == 0
    }

    pub fn len(&self) -> (r: usize)
        ensures
            r == self.spec_nodes().len(),
    {
        self.nodes.len()
    }
}


/// A layout slot with the given identity, kind and position.
pub open spec fn layout_slot_is(s: UiLayoutSlot, raw: u64, kind: UiLayoutSlotKind, order: int) -> bool {
    &&& s.spec_id().spec_raw() == raw
    &&& s.spec_kind() == kind
    &&& s.spec_order() == order
}

/// The layout node at position `order` mirrors render node `n`: same raw
/// identity, lineage kept, placed in the node slot.
pub open spec fn layout_node_from_render_node(l: UiLayoutNode, n: UiRenderNode, order: int) -> bool {
    &&& l.spec_id().spec_raw() == n.spec_id().spec_raw()
    &&& l.spec_source_render_node() == n.spec_id()
    &&& l.spec_source_projection_node() == Some(n.spec_source_projection_node())
    &&& l.spec_source_ir_node() == n.spec_source_ir_node()
    &&& l.spec_slot().spec_raw() == 2
    &&& l.spec_order() == order
}

/// The layout of a render model: the root slot, a node slot when there are
/// nodes, and one layout node per render node in the same order.
pub open spec fn layout_model_from_render_model(l: UiLayoutModel, m: UiRenderModel) -> bool {
    &&& l.spec_id().spec_raw() == m.spec_id().spec_raw()
    &&& l.spec_source_render_model() == m.spec_id()
    &&& l.spec_source_projection() == m.spec_source_projection()
    &&& l.spec_source_ir_root() == m.spec_source_ir_root()
    &&& l.spec_slots().len() == (if m.spec_nodes().len() == 0 { 1int } else { 2int })
    &&& layout_slot_is(l.spec_slots()[0], 1, UiLayoutSlotKind::Root, 0)
    &&& m.spec_nodes().len() > 0 ==> layout_slot_is(l.spec_slots()[1], 2, UiLayoutSlotKind::Node, 1)
    &&& l.spec_nodes().len() == m.spec_nodes().len()
    &&& forall|i: int|
        #![trigger l.spec_nodes()[i]]
        0 <= i < l.spec_nodes().len() ==> layout_node_from_render_node(l.spec_nodes()[i], m.spec_nodes()[i], i)
}

/// Lays out a render model: one layout node per render node, in render order.
pub fn layout_render_model(model: &UiRenderModel) -> (r: UiLayoutModel)
    ensures
        layout_model_from_render_model(r, *model),
{
    let layout_model_id = UiLayoutModelId::new(model.id().raw());
    let render_nodes = model.nodes();
    let mut slots: Vec<UiLayoutSlot> = Vec::new();
    slots.push(UiLayoutSlot { id: UiLayoutSlotId::new(1), kind: UiLayoutSlotKind::Root, order: 0 });
    if render_nodes.len() > 0 {
        slots.push(UiLayoutSlot { id: UiLayoutSlotId::new(2), kind: UiLayoutSlotKind::Node, order: 1 });
    }
    let mut nodes: Vec<UiLayoutNode> = Vec::with_capacity(render_nodes.len());
    let mut order: usize = 0;
    while order < render_nodes.len()
        invariant
            render_nodes@ == model.spec_nodes(),
            order <= render_nodes@.len(),
            nodes@.len() == order,
            forall|i: int|
                #![trigger nodes@[i]]
                0 <= i < order ==> layout_node_from_render_node(nodes@[i], render_nodes@[i], i),
        decreases render_nodes@.len() - order,
    {
        let render_node = &render_nodes[order];
        nodes.push(UiLayoutNode {
            id: UiLayoutNodeId::new(render_node.id().raw()),
            source_render_node: render_node.id(),
            source_projection_node: Some(render_node.source_projection_node()),
            source_ir_node: render_node.source_ir_node(),
            slot: UiLayoutSlotId::new(2),
            order,
        });
        order += 1;
    }
    UiLayoutModel {
        id: layout_model_id,
        source_render_model: model.id(),
        source_projection: model.source_projection(),
        source_ir_root: model.source_ir_root(),
        slots,
        nodes,
    }
}

/// Identity of a layout inspection presentation.
#[derive(Debug, Clone, Copy, PartialEq, Eq, Hash, Default, Structural)]
pub struct UiLayoutInspectionPresentationId {
    raw: u64,
}

impl UiLayoutInspectionPresentationId {
    pub closed spec fn spec_raw(self) -> u64 {
        self.raw
    }

    pub fn new(raw: u64) -> (r: Self)
        ensures
            r.spec_raw() == raw,
    {
        Self { raw }
    }

    pub fn raw(self) -> (r: u64)
        ensures
            r == self.spec_raw(),
    {
        self.raw
    }
}

/// Identity of a section of a layout inspection.
#[derive(Debug, Clone, Copy, PartialEq, Eq, Hash, Default, Structural)]
pub struct UiLayoutInspectionSectionId {
    raw: u64,
}

impl UiLayoutInspectionSectionId {
    pub closed spec fn spec_raw(self) -> u64 {
        self.raw
    }

    pub fn new(raw: u64) -> (r: Self)
        ensures
            r.spec_raw() == raw,
    {
        Self { raw }
    }

    pub fn raw(self) -> (r: u64)
        ensures
            r == self.spec_raw(),
    {
        self.raw
    }
}

/// Identity of an item of a layout inspection.
#[derive(Debug, Clone, Copy, PartialEq, Eq, Hash, Default, Structural)]
pub struct UiLayoutInspectionItemId {
    raw: u64,
}

impl UiLayoutInspectionItemId {
    pub closed spec fn spec_raw(self) -> u64 {
        self.raw
    }

    pub fn new(raw: u64) -> (r: Self)
        ensures
            r.spec_raw() == raw,
    {
        Self { raw }
    }

    pub fn raw(self) -> (r: u64)
        ensures
            r == self.spec_raw(),
    {
        self.raw
    }
}

/// The sections of a layout inspection.
#[derive(Debug, Clone, Copy, PartialEq, Eq, Structural)]
pub enum UiLayoutInspectionSectionKind {
    Model,
    Slots,
    Nodes,
}

/// What an inspection item describes.
#[derive(Debug, Clone, Copy, PartialEq, Eq, Structural)]
pub enum UiLayoutInspectionItemKind {
    ModelIdentity,
    SourceReference,
    Slot,
    Node,
}

/// A section of a layout inspection.
#[derive(Debug, Clone, Copy, PartialEq, Eq, Structural)]
pub struct UiLayoutInspectionSection {
    id: UiLayoutInspectionSectionId,
    kind: UiLayoutInspectionSectionKind,
    order: usize,
}

impl UiLayoutInspectionSection {
    pub closed spec fn spec_id(self) -> UiLayoutInspectionSectionId {
        self.id
    }

    pub closed spec fn spec_kind(self) -> UiLayoutInspectionSectionKind {
        self.kind
    }

    pub closed spec fn spec_order(self) -> usize {
        self.order
    }

    pub fn id(&self) -> (r: UiLayoutInspectionSectionId)
        ensures
            r == self.spec_id(),
    {
        self.id
    }

    pub fn kind(&self) -> (r: UiLayoutInspectionSectionKind)
        ensures
            r == self.spec_kind(),
    {
        self.kind
    }

    pub fn order(&self) -> (r: usize)
        ensures
            r == self.spec_order(),
    {
        self.order
    }
}

/// An item of a layout inspection, with the layout element it describes.
#[derive(Debug, Clone, Copy, PartialEq, Eq, Structural)]
pub struct UiLayoutInspectionItem {
    id: UiLayoutInspectionItemId,
    section: UiLayoutInspectionSectionId,
    kind: UiLayoutInspectionItemKind,
    source_layout_slot: Option<UiLayoutSlotId>,
    source_layout_node: Option<UiLayoutNodeId>,
    source_render_node: Option<UiRenderNodeId>,
    source_projection_node: Option<UiProjectedNodeId>,
    source_ir_node: Option<UiIrNodeId>,
    order: usize,
}

impl UiLayoutInspectionItem {
    pub closed spec fn spec_id(self) -> UiLayoutInspectionItemId {
        self.id
    }

    pub closed spec fn spec_section(self) -> UiLayoutInspectionSectionId {
        self.section
    }

    pub closed spec fn spec_kind(self) -> UiLayoutInspectionItemKind {
        self.kind
    }

    pub closed spec fn spec_source_layout_slot(self) -> Option<UiLayoutSlotId> {
        self.source_layout_slot
    }

    pub closed spec fn spec_source_layout_node(self) -> Option<UiLayoutNodeId> {
        self.source_layout_node
    }

    pub closed spec fn spec_source_render_node(self) -> Option<UiRenderNodeId> {
        self.source_render_node
    }

    pub closed spec fn spec_source_projection_node(self) -> Option<UiProjectedNodeId> {
        self.source_projection_node
    }

    pub closed spec fn spec_source_ir_node(self) -> Option<UiIrNodeId> {
        self.source_ir_node
    }

    pub closed spec fn spec_order(self) -> usize {
        self.order
    }

    pub fn id(&self) -> (r: UiLayoutInspectionItemId)
        ensures
            r == self.spec_id(),
    {
        self.id
    }

    pub fn section(&self) -> (r: UiLayoutInspectionSectionId)
        ensures
            r == self.spec_section(),
    {
        self.section
    }

    pub fn kind(&self) -> (r: UiLayoutInspectionItemKind)
        ensures
            r == self.spec_kind(),
    {
        self.kind
    }

    pub fn source_layout_slot(&self) -> (r: Option<UiLayoutSlotId>)
        ensures
            r == self.spec_source_layout_slot(),
    {
        self.source_layout_slot
    }

    pub fn source_layout_node(&self) -> (r: Option<UiLayoutNodeId>)
        ensures
            r == self.spec_source_layout_node(),
    {
        self.source_layout_node
    }

    pub fn source_render_node(&self) -> (r: Option<UiRenderNodeId>)
        ensures
            r == self.spec_source_render_node(),
    {
        self.source_render_node
    }

    pub fn source_projection_node(&self) -> (r: Option<UiProjectedNodeId>)
        ensures
            r == self.spec_source_projection_node(),
    {
        self.source_projection_node
    }

    pub fn source_ir_node(&self) -> (r: Option<UiIrNodeId>)
        ensures
            r == self.spec_source_ir_node(),
    {
        self.source_ir_node
    }

    pub fn order(&self) -> (r: usize)
        ensures
            r == self.spec_order(),
    {
        self.order
    }
}

/// A read-only presentation of a layout model, in sections and items.
#[derive(Debug, Clone, PartialEq, Eq)]
pub struct UiLayoutInspectionPresentation {
    id: UiLayoutInspectionPresentationId,
    source_layout_model: UiLayoutModelId,
    source_render_model: UiRenderModelId,
    source_projection: UiProjectionArtifactId,
    source_ir_root: Option<UiIrNodeId>,
    sections: Vec<UiLayoutInspectionSection>,
    items: Vec<UiLayoutInspectionItem>,
}

impl UiLayoutInspectionPresentation {
    pub closed spec fn spec_id(self) -> UiLayoutInspectionPresentationId {
        self.id
    }

    pub closed spec fn spec_source_layout_model(self) -> UiLayoutModelId {
        self.source_layout_model
    }

    pub closed spec fn spec_source_render_model(self) -> UiRenderModelId {
        self.source_render_model
    }

    pub closed spec fn spec_source_projection(self) -> UiProjectionArtifactId {
        self.source_projection
    }

    pub closed spec fn spec_source_ir_root(self) -> Option<UiIrNodeId> {
        self.source_ir_root
    }

    pub closed spec fn spec_sections(self) -> Seq<UiLayoutInspectionSection> {
        self.sections@
    }

    pub closed spec fn spec_items(self) -> Seq<UiLayoutInspectionItem> {
        self.items@
    }

    pub fn id(&self) -> (r: UiLayoutInspectionPresentationId)
        ensures
            r == self.spec_id(),
    {
        self.id
    }

    pub fn source_layout_model(&self) -> (r: UiLayoutModelId)
        ensures
            r == self.spec_source_layout_model(),
    {
        self.source_layout_model
    }

    pub fn source_render_model(&self) -> (r: UiRenderModelId)
        ensures
            r == self.spec_source_render_model(),
    {
        self.source_render_model
    }

    pub fn source_projection(&self) -> (r: UiProjectionArtifactId)
        ensures
            r == self.spec_source_projection(),
    {
        self.source_projection
    }

    pub fn source_ir_root(&self) -> (r: Option<UiIrNodeId>)
        ensures
            r == self.spec_source_ir_root(),
    {
        self.source_ir_root
    }

    pub fn sections(&self) -> (r: &[UiLayoutInspectionSection])
        ensures
            r@ == self.spec_sections(),
    {
        self.sections.as_slice()
    }

    pub fn items(&self) -> (r: &[UiLayoutInspectionItem])
        ensures
            r@ == self.spec_items(),
    {
        self.items.as_slice()
    }

    pub fn is_empty(&self) -> (r: bool)
        ensures
            r == (self.spec_items().len() == 0),
    {
        self.items.len() == 0
    }

    pub fn len(&self) -> (r: usize)
        ensures
            r == self.spec_items().len(),
    {
        self.items.len()
    }
}


/// A section with the given identity, kind and position.
pub open spec fn inspection_section_is(s: UiLayoutInspectionSection, raw: u64, kind: UiLayoutInspectionSectionKind, order: int) -> bool {
    &&& s.spec_id().spec_raw() == raw
    &&& s.spec_kind() == kind
    &&& s.spec_order() == order
}

/// An item of the model section, which refers to no layout element.
pub open spec fn inspection_model_item_is(it: UiLayoutInspectionItem, raw: u64, kind: UiLayoutInspectionItemKind, order: int) -> bool {
    &&& it.spec_id().spec_raw() == raw
    &&& it.spec_section().spec_raw() == 1
    &&& it.spec_kind() == kind
    &&& it.spec_source_layout_slot() is None
    &&& it.spec_source_layout_node() is None
    &&& it.spec_source_render_node() is None
    &&& it.spec_source_projection_node() is None
    &&& it.spec_source_ir_node() is None
    &&& it.spec_order() == order
}

/// The item that describes slot `s`: identity 10000 past the slot's, wrapping.
pub open spec fn inspection_slot_item_is(it: UiLayoutInspectionItem, s: UiLayoutSlot, order: int) -> bool {
    &&& it.spec_id().spec_raw() == (10_000u64).wrapping_add(s.spec_id().spec_raw())
    &&& it.spec_section().spec_raw() == 2
    &&& it.spec_kind() == UiLayoutInspectionItemKind::Slot
    &&& it.spec_source_layout_slot() == Some(s.spec_id())
    &&& it.spec_source_layout_node() is None
    &&& it.spec_source_render_node() is None
    &&& it.spec_source_projection_node() is None
    &&& it.spec_source_ir_node() is None
    &&& it.spec_order() == order
}

/// The item that describes node `n`: identity 20000 past the node's, wrapping,
/// with the node's lineage.
pub open spec fn inspection_node_item_is(it: UiLayoutInspectionItem, n: UiLayoutNode, order: int) -> bool {
    &&& it.spec_id().spec_raw() == (20_000u64).wrapping_add(n.spec_id().spec_raw())
    &&& it.spec_section().spec_raw() == 3
    &&& it.spec_kind() == UiLayoutInspectionItemKind::Node
    &&& it.spec_source_layout_slot() is None
    &&& it.spec_source_layout_node() == Some(n.spec_id())
    &&& it.spec_source_render_node() == Some(n.spec_source_render_node())
    &&& it.spec_source_projection_node() == n.spec_source_projection_node()
    &&& it.spec_source_ir_node() == n.spec_source_ir_node()
    &&& it.spec_order() == order
}

/// The inspection of a layout model: three sections (model, slots, nodes);
/// two model items, then one item per slot, then one per node, in order.
pub open spec fn inspection_of_layout(p: UiLayoutInspectionPresentation, m: UiLayoutModel) -> bool {
    let ns = m.spec_slots().len();
    &&& p.spec_id().spec_raw() == m.spec_id().spec_raw()
    &&& p.spec_source_layout_model() == m.spec_id()
    &&& p.spec_source_render_model() == m.spec_source_render_model()
    &&& p.spec_source_projection() == m.spec_source_projection()
    &&& p.spec_source_ir_root() == m.spec_source_ir_root()
    &&& p.spec_sections().len() == 3
    &&& inspection_section_is(p.spec_sections()[0], 1, UiLayoutInspectionSectionKind::Model, 0)
    &&& inspection_section_is(p.spec_sections()[1], 2, UiLayoutInspectionSectionKind::Slots, 1)
    &&& inspection_section_is(p.spec_sections()[2], 3, UiLayoutInspectionSectionKind::Nodes, 2)
    &&& p.spec_items().len() == 2 + ns + m.spec_nodes().len()
    &&& inspection_model_item_is(p.spec_items()[0], 1, UiLayoutInspectionItemKind::ModelIdentity, 0)
    &&& inspection_model_item_is(p.spec_items()[1], 2, UiLayoutInspectionItemKind::SourceReference, 1)
    &&& forall|j: int|
        #![trigger m.spec_slots()[j]]
        0 <= j < ns ==> inspection_slot_item_is(p.spec_items()[2 + j], m.spec_slots()[j], 2 + j)
    &&& forall|k: int|
        #![trigger m.spec_nodes()[k]]
        0 <= k < m.spec_nodes().len() ==> inspection_node_item_is(p.spec_items()[2 + ns + k], m.spec_nodes()[k], 2 + ns + k)
}

/// Presents a layout model for inspection.
pub fn present_layout_inspection(model: &UiLayoutModel) -> (r: UiLayoutInspectionPresentation)
    requires
        model.spec_slots().len() + model.spec_nodes().len() + 2 <= usize::MAX,
    ensures
        inspection_of_layout(r, *model),
{
    let model_section_id = UiLayoutInspectionSectionId::new(1);
    let slots_section_id = UiLayoutInspectionSectionId::new(2);
    let nodes_section_id = UiLayoutInspectionSectionId::new(3);
    let mut sections: Vec<UiLayoutInspectionSection> = Vec::new();
    sections.push(UiLayoutInspectionSection { id: model_section_id, kind: UiLayoutInspectionSectionKind::Model, order: 0 });
    sections.push(UiLayoutInspectionSection { id: slots_section_id, kind: UiLayoutInspectionSectionKind::Slots, order: 1 });
    sections.push(UiLayoutInspectionSection { id: nodes_section_id, kind: UiLayoutInspectionSectionKind::Nodes, order: 2 });

    let mut items: Vec<UiLayoutInspectionItem> = Vec::new();
    items.push(UiLayoutInspectionItem {
        id: UiLayoutInspectionItemId::new(1),
        section: model_section_id,
        kind: UiLayoutInspectionItemKind::ModelIdentity,
        source_layout_slot: None,
        source_layout_node: None,
        source_render_node: None,
        source_projection_node: None,
        source_ir_node: None,
        order: 0,
    });
    items.push(UiLayoutInspectionItem {
        id: UiLayoutInspectionItemId::new(2),
        section: model_section_id,
        kind: UiLayoutInspectionItemKind::SourceReference,
        source_layout_slot: None,
        source_layout_node: None,
        source_render_node: None,
        source_projection_node: None,
        source_ir_node: None,
        order: 1,
    });
    let mut item_order: usize = 2;

    let slots = model.slots();
    let mut j: usize = 0;
    while j < slots.len()
        invariant
            slots@ == model.spec_slots(),
            model.spec_slots().len() + model.spec_nodes().len() + 2 <= usize::MAX,
            j <= slots@.len(),
            item_order == 2 + j,
            items@.len() == item_order,
            slots_section_id.spec_raw() == 2,
            inspection_model_item_is(items@[0], 1, UiLayoutInspectionItemKind::ModelIdentity, 0),
            inspection_model_item_is(items@[1], 2, UiLayoutInspectionItemKind::SourceReference, 1),
            forall|i: int|
                #![trigger slots@[i]]
                0 <= i < j ==> inspection_slot_item_is(items@[2 + i], slots@[i], 2 + i),
        decreases slots@.len() - j,
    {
        let slot = &slots[j];
        items.push(UiLayoutInspectionItem {
            id: UiLayoutInspectionItemId::new(10_000u64.wrapping_add(slot.id().raw())),
            section: slots_section_id,
            kind: UiLayoutInspectionItemKind::Slot,
            source_layout_slot: Some(slot.id()),
            source_layout_node: None,
            source_render_node: None,
            source_projection_node: None,
            source_ir_node: None,
            order: item_order,
        });
        item_order += 1;
        j += 1;
    }

    let nodes = model.nodes();
    let mut k: usize = 0;
    while k < nodes.len()
        invariant
            slots@ == model.spec_slots(),
            nodes@ == model.spec_nodes(),
            model.spec_slots().len() + model.spec_nodes().len() + 2 <= usize::MAX,
            k <= nodes@.len(),
            item_order == 2 + slots@.len() + k,
            items@.len() == item_order,
            nodes_section_id.spec_raw() == 3,
            inspection_model_item_is(items@[0], 1, UiLayoutInspectionItemKind::ModelIdentity, 0),
            inspection_model_item_is(items@[1], 2, UiLayoutInspectionItemKind::SourceReference, 1),
            forall|i: int|
                #![trigger slots@[i]]
                0 <= i < slots@.len() ==> inspection_slot_item_is(items@[2 + i], slots@[i], 2 + i),
            forall|i: int|
                #![trigger nodes@[i]]
                0 <= i < k ==> inspection_node_item_is(items@[2 + slots@.len() + i], nodes@[i], 2 + slots@.len() + i),
        decreases nodes@.len() - k,
    {
        let node = &nodes[k];
        items.push(UiLayoutInspectionItem {
            id: UiLayoutInspectionItemId::new(20_000u64.wrapping_add(node.id().raw())),
            section: nodes_section_id,
            kind: UiLayoutInspectionItemKind::Node,
            source_layout_slot: None,
            source_layout_node: Some(node.id()),
            source_render_node: Some(node.source_render_node()),
            source_projection_node: node.source_projection_node(),
            source_ir_node: node.source_ir_node(),
            order: item_order,
        });
        item_order += 1;
        k += 1;
    }

    UiLayoutInspectionPresentation {
        id: UiLayoutInspectionPresentationId::new(model.id().raw()),
        source_layout_model: model.id(),
        source_render_model: model.source_render_model(),
        source_projection: model.source_projection(),
        source_ir_root: model.source_ir_root(),
        sections,
        items,
    }
}

} // verus!
