//! Projections of the UI intermediate representation.
use vstd::prelude::*;
use crate::model::UiIrNodeId;

verus! {

/// Identity of a node of a UI projection.
#[derive(Debug, Clone, Copy, PartialEq, Eq, Hash, Default, Structural)]
pub struct UiProjectedNodeId {
    raw: u64,
}

impl UiProjectedNodeId {
    pub closed spec fn spec_raw(self) -> u64 {
        self.raw
    }

    pub fn new(raw: u64) -> (r: Self)
        ensures
            r.spec_raw() == raw,
    {
        Self { raw }
    }

    pub fn raw(self) -> (r: u64)
        ensures
            r == self.spec_raw(),
    {
        self.raw
    }
}

/// Identity of a projection artifact.
#[derive(Debug, Clone, Copy, PartialEq, Eq, Hash, Default, Structural)]
pub struct UiProjectionArtifactId {
    raw: u64,
}

impl UiProjectionArtifactId {
    pub closed spec fn spec_raw(self) -> u64 {
        self.raw
    }

    pub fn new(raw: u64) -> (r: Self)
        ensures
            r.spec_raw() == raw,
    {
        Self { raw }
    }

    pub fn raw(self) -> (r: u64)
        ensures
            r == self.spec_raw(),
    {
        self.raw
    }
}

/// What a projected node is.
#[derive(Debug, Clone, Copy, PartialEq, Eq, Structural)]
pub enum UiProjectedNodeKind {
    Root,
    Element,
    Text,
    Fragment,
}

/// A projected node: the IR node it projects, its parent and children.
#[derive(Debug, Clone, PartialEq, Eq)]
pub struct UiProjectedNode {
    id: UiProjectedNodeId,
    kind: UiProjectedNodeKind,
    source_ir_node_id: Option<UiIrNodeId>,
    parent: Option<UiProjectedNodeId>,
    children: Vec<UiProjectedNodeId>,
}

impl UiProjectedNode {
    pub closed spec fn spec_id(self) -> UiProjectedNodeId {
        self.id
    }

    pub closed spec fn spec_kind(self) -> UiProjectedNodeKind {
        self.kind
    }

    pub closed spec fn spec_source_ir_node_id(self) -> Option<UiIrNodeId> {
        self.source_ir_node_id
    }

    pub closed spec fn spec_parent(self) -> Option<UiProjectedNodeId> {
        self.parent
    }

    pub closed spec fn spec_children(self) -> Seq<UiProjectedNodeId> {
        self.children@
    }

    pub fn id(&self) -> (r: UiProjectedNodeId)
        ensures
            r == self.spec_id(),
    {
        self.id
    }

    pub fn kind(&self) -> (r: UiProjectedNodeKind)
        ensures
            r == self.spec_kind(),
    {
        self.kind
    }

    pub fn source_ir_node_id(&self) -> (r: Option<UiIrNodeId>)
        ensures
            r == self.spec_source_ir_node_id(),
    {
        self.source_ir_node_id
    }

    pub fn parent(&self) -> (r: Option<UiProjectedNodeId>)
        ensures
            r == self.spec_parent(),
    {
        self.parent
    }

    pub fn children(&self) -> (r: &[UiProjectedNodeId])
        ensures
            r@ == self.spec_children(),
    {
        self.children.as_slice()
    }

    pub fn new(id: UiProjectedNodeId, kind: UiProjectedNodeKind, source_ir_node_id: Option<UiIrNodeId>, parent: Option<UiProjectedNodeId>, children: Vec<UiProjectedNodeId>) -> (r: Self)
        ensures
            r.spec_id() == id,
            r.spec_kind() == kind,
            r.spec_source_ir_node_id() == source_ir_node_id,
            r.spec_parent() == parent,
            r.spec_children() == children@,
    {
        Self { id, kind, source_ir_node_id, parent, children }
    }
}

/// A projection artifact: its projected nodes in order.
#[derive(Debug, Clone, PartialEq, Eq)]
pub struct UiProjectionArtifact {
    id: UiProjectionArtifactId,
    nodes: Vec<UiProjectedNode>,
}

impl UiProjectionArtifact {
    pub closed spec fn spec_id(self) -> UiProjectionArtifactId {
        self.id
    }

    pub closed spec fn spec_nodes(self) -> Seq<UiProjectedNode> {
        self.nodes@
    }

    pub fn id(&self) -> (r: UiProjectionArtifactId)
        ensures
            r == self.spec_id(),
    {
        self.id
    }

    pub fn nodes(&self) -> (r: &[UiProjectedNode])
        ensures
            r@ == self.spec_nodes(),
    {
        self.nodes.as_slice()
    }

    pub fn new(id: UiProjectionArtifactId, nodes: Vec<UiProjectedNode>) -> (r: Self)
        ensures
            r.spec_id() == id,
            r.spec_nodes() == nodes@,
    {
        Self { id, nodes }
    }
}

} // verus!
