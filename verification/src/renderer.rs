//! Render models: the ordered nodes that layout consumes.
use vstd::prelude::*;
use crate::model::UiIrNodeId;
use crate::projection::{UiProjectedNodeId, UiProjectionArtifactId};

verus! {

/// Identity of a render model.
#[derive(Debug, Clone, Copy, PartialEq, Eq, Hash, Default, Structural)]
pub struct UiRenderModelId {
    raw: u64,
}

impl UiRenderModelId {
    pub closed spec fn spec_raw(self) -> u64 {
        self.raw
    }

    pub fn new(raw: u64) -> (r: Self)
        ensures
            r.spec_raw() == raw,
    {
        Self { raw }
    }

    pub fn raw(self) -> (r: u64)
        ensures
            r == self.spec_raw(),
    {
        self.raw
    }
}

/// Identity of a render node.
#[derive(Debug, Clone, Copy, PartialEq, Eq, Hash, Default, Structural)]
pub struct UiRenderNodeId {
    raw: u64,
}

impl UiRenderNodeId {
    pub closed spec fn spec_raw(self) -> u64 {
        self.raw
    }

    pub fn new(raw: u64) -> (r: Self)
        ensures
            r.spec_raw() == raw,
    {
        Self { raw }
    }

    pub fn raw(self) -> (r: u64)
        ensures
            r == self.spec_raw(),
    {
        self.raw
    }
}

/// What a render node draws.
#[derive(Debug, Clone, Copy, PartialEq, Eq, Structural)]
pub enum UiRenderNodeKind {
    Root,
    Element,
    Text,
    Fragment,
}

/// A node of a render model, with the projected and IR nodes it came from.
#[derive(Debug, Clone, Copy, PartialEq, Eq, Structural)]
pub struct UiRenderNode {
    id: UiRenderNodeId,
    kind: UiRenderNodeKind,
    source_projection_node: UiProjectedNodeId,
    source_ir_node: Option<UiIrNodeId>,
}

impl UiRenderNode {
    pub closed spec fn spec_id(self) -> UiRenderNodeId {
        self.id
    }

    pub closed spec fn spec_kind(self) -> UiRenderNodeKind {
        self.kind
    }

    pub closed spec fn spec_source_projection_node(self) -> UiProjectedNodeId {
        self.source_projection_node
    }

    pub closed spec fn spec_source_ir_node(self) -> Option<UiIrNodeId> {
        self.source_ir_node
    }

    pub fn id(&self) -> (r: UiRenderNodeId)
        ensures
            r == self.spec_id(),
    {
        self.id
    }

    pub fn kind(&self) -> (r: UiRenderNodeKind)
        ensures
            r == self.spec_kind(),
    {
        self.kind
    }

    pub fn source_projection_node(&self) -> (r: UiProjectedNodeId)
        ensures
            r == self.spec_source_projection_node(),
    {
        self.source_projection_node
    }

    pub fn source_ir_node(&self) -> (r: Option<UiIrNodeId>)
        ensures
            r == self.spec_source_ir_node(),
    {
        self.source_ir_node
    }

    pub fn new(id: UiRenderNodeId, kind: UiRenderNodeKind, source_projection_node: UiProjectedNodeId, source_ir_node: Option<UiIrNodeId>) -> (r: Self)
        ensures
            r.spec_id() == id,
            r.spec_kind() == kind,
            r.spec_source_projection_node() == source_projection_node,
            r.spec_source_ir_node() == source_ir_node,
    {
        Self { id, kind, source_projection_node, source_ir_node }
    }
}

/// A render model: its nodes in render order and the projection it came from.
#[derive(Debug, Clone, PartialEq, Eq)]
pub struct UiRenderModel {
    id: UiRenderModelId,
    source_projection: UiProjectionArtifactId,
    source_ir_root: Option<UiIrNodeId>,
    nodes: Vec<UiRenderNode>,
}

impl UiRenderModel {
    pub closed spec fn spec_id(self) -> UiRenderModelId {
        self.id
    }

    pub closed spec fn spec_source_projection(self) -> UiProjectionArtifactId {
        self.source_projection
    }

    pub closed spec fn spec_source_ir_root(self) -> Option<UiIrNodeId> {
        self.source_ir_root
    }

    pub closed spec fn spec_nodes(self) -> Seq<UiRenderNode> {
        self.nodes@
    }

    pub fn id(&self) -> (r: UiRenderModelId)
        ensures
            r == self.spec_id(),
    {
        self.id
    }

    pub fn source_projection(&self) -> (r: UiProjectionArtifactId)
        ensures
            r == self.spec_source_projection(),
    {
        self.source_projection
    }

    pub fn source_ir_root(&self) -> (r: Option<UiIrNodeId>)
        ensures
            r == self.spec_source_ir_root(),
    {
        self.source_ir_root
    }

    pub fn nodes(&self) -> (r: &[UiRenderNode])
        ensures
            r@ == self.spec_nodes(),
    {
        self.nodes.as_slice()
    }

    pub fn is_empty(&self) -> (r: bool)
        ensures
            r == (self.spec_nodes().len() == 0),
    {
        self.nodes.len() == 0
    }

    pub fn len(&self) -> (r: usize)
        ensures
            r == self.spec_nodes().len(),
    {
        self.nodes.len()
    }

    pub fn new(id: UiRenderModelId, source_projection: UiProjectionArtifactId, source_ir_root: Option<UiIrNodeId>, nodes: Vec<UiRenderNode>) -> (r: Self)
        ensures
            r.spec_id() == id,
            r.spec_source_projection() == source_projection,
            r.spec_source_ir_root() == source_ir_root,
            r.spec_nodes() == nodes@,
    {
        Self { id, source_projection, source_ir_root, nodes }
    }
}

} // verus!
