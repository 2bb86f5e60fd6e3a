//! Laid-out rectangles of render nodes, in drawing order.
use vstd::prelude::*;
use crate::model::UiIrNodeId;
use crate::projection::UiProjectedNodeId;
use crate::renderer::UiRenderNodeId;

verus! {

/// A laid-out rectangle.
#[derive(Debug, Clone, Copy, Default, PartialEq, Eq, Structural)]
pub struct UiLayoutRect {
    x: i32,
    y: i32,
    width: u32,
    height: u32,
}

impl UiLayoutRect {
    pub closed spec fn spec_x(self) -> i32 {
        self.x
    }

    pub closed spec fn spec_y(self) -> i32 {
        self.y
    }

    pub closed spec fn spec_width(self) -> u32 {
        self.width
    }

    pub closed spec fn spec_height(self) -> u32 {
        self.height
    }

    pub fn x(&self) -> (r: i32)
        ensures
            r == self.spec_x(),
    {
        self.x
    }

    pub fn y(&self) -> (r: i32)
        ensures
            r == self.spec_y(),
    {
        self.y
    }

    pub fn width(&self) -> (r: u32)
        ensures
            r == self.spec_width(),
    {
        self.width
    }

    pub fn height(&self) -> (r: u32)
        ensures
            r == self.spec_height(),
    {
        self.height
    }

    pub fn new(x: i32, y: i32, width: u32, height: u32) -> (r: Self)
        ensures
            r.spec_x() == x,
            r.spec_y() == y,
            r.spec_width() == width,
            r.spec_height() == height,
    {
        Self { x, y, width, height }
    }
}

/// The rectangle of one render node, with the projected and IR nodes it came from.
#[derive(Debug, Clone, Copy, PartialEq, Eq, Structural)]
pub struct UiLayoutRectEntry {
    render_node_id: UiRenderNodeId,
    source_projection_node_id: UiProjectedNodeId,
    source_ir_node_id: Option<UiIrNodeId>,
    rect: UiLayoutRect,
}

impl UiLayoutRectEntry {
    pub closed spec fn spec_render_node_id(self) -> UiRenderNodeId {
        self.render_node_id
    }

    pub closed spec fn spec_source_projection_node_id(self) -> UiProjectedNodeId {
        self.source_projection_node_id
    }

    pub closed spec fn spec_source_ir_node_id(self) -> Option<UiIrNodeId> {
        self.source_ir_node_id
    }

    pub closed spec fn spec_rect(self) -> UiLayoutRect {
        self.rect
    }

    pub fn render_node_id(&self) -> (r: UiRenderNodeId)
        ensures
            r == self.spec_render_node_id(),
    {
        self.render_node_id
    }

    pub fn source_projection_node_id(&self) -> (r: UiProjectedNodeId)
        ensures
            r == self.spec_source_projection_node_id(),
    {
        self.source_projection_node_id
    }

    pub fn source_ir_node_id(&self) -> (r: Option<UiIrNodeId>)
        ensures
            r == self.spec_source_ir_node_id(),
    {
        self.source_ir_node_id
    }

    pub fn rect(&self) -> (r: UiLayoutRect)
        ensures
            r == self.spec_rect(),
    {
        self.rect
    }

    pub fn new(render_node_id: UiRenderNodeId, source_projection_node_id: UiProjectedNodeId, source_ir_node_id: Option<UiIrNodeId>, rect: UiLayoutRect) -> (r: Self)
        ensures
            r.spec_render_node_id() == render_node_id,
            r.spec_source_projection_node_id() == source_projection_node_id,
            r.spec_source_ir_node_id() == source_ir_node_id,
            r.spec_rect() == rect,
    {
        Self { render_node_id, source_projection_node_id, source_ir_node_id, rect }
    }
}

/// Laid-out rectangles in drawing order: later entries are drawn on top.
#[derive(Debug, Clone, Default, PartialEq, Eq)]
pub struct UiLayoutRectModel {
    entries: Vec<UiLayoutRectEntry>,
}

impl UiLayoutRectModel {
    pub closed spec fn spec_entries(self) -> Seq<UiLayoutRectEntry> {
        self.entries@
    }

    pub fn new() -> (r: Self)
        ensures
            r.spec_entries() == Seq::<UiLayoutRectEntry>::empty(),
    {
        Self { entries: Vec::new() }
    }

    pub fn push_entry(&mut self, entry: UiLayoutRectEntry)
        ensures
            final(self).spec_entries() == old(self).spec_entries().push(entry),
    {
        self.entries.push(entry);
    }

    pub fn entries(&self) -> (r: &[UiLayoutRectEntry])
        ensures
            r@ == self.spec_entries(),
    {
        self.entries.as_slice()
    }

    pub fn len(&self) -> (r: usize)
        ensures
            r == self.spec_entries().len(),
    {
        self.entries.len()
    }

    pub fn is_empty(&self) -> (r: bool)
        ensures
            r == (self.spec_entries().len() == 0),
    {
        self.entries.len() == 0
    }
}

} // verus!
