//! The UI trees, syntax trees and intermediate representation that layout and slot intents refer to.
use vstd::prelude::*;

verus! {

/// Identity of a node of the UI intermediate representation.
#[derive(Debug, Clone, Copy, PartialEq, Eq, Hash, Default, Structural)]
pub struct UiIrNodeId {
    raw: u64,
}

impl UiIrNodeId {
    pub closed spec fn spec_raw(self) -> u64 {
        self.raw
    }

    pub fn new(raw: u64) -> (r: Self)
        ensures
            r.spec_raw() == raw,
    {
        Self { raw }
    }

    pub fn raw(self) -> (r: u64)
        ensures
            r == self.spec_raw(),
    {
        self.raw
    }
}

impl UiIrNodeId {
    /// Two identities are equal exactly when their raw values are.
    pub proof fn lemma_eq_iff_raw(a: Self, b: Self)
        ensures
            (a == b) == (a.spec_raw() == b.spec_raw()),
    {
    }
}

/// Identity of a UI tree.
#[derive(Debug, Clone, Copy, PartialEq, Eq, Hash, Default, Structural)]
pub struct UiTreeId {
    raw: u64,
}

impl UiTreeId {
    pub closed spec fn spec_raw(self) -> u64 {
        self.raw
    }

    pub fn new(raw: u64) -> (r: Self)
        ensures
            r.spec_raw() == raw,
    {
        Self { raw }
    }

    pub fn raw(self) -> (r: u64)
        ensures
            r == self.spec_raw(),
    {
        self.raw
    }
}

/// Identity of a node of a UI tree.
#[derive(Debug, Clone, Copy, PartialEq, Eq, Hash, Default, Structural)]
pub struct UiNodeId {
    raw: u64,
}

impl UiNodeId {
    pub closed spec fn spec_raw(self) -> u64 {
        self.raw
    }

    pub fn new(raw: u64) -> (r: Self)
        ensures
            r.spec_raw() == raw,
    {
        Self { raw }
    }

    pub fn raw(self) -> (r: u64)
        ensures
            r == self.spec_raw(),
    {
        self.raw
    }
}

/// Identity of a node of a UI syntax tree.
#[derive(Debug, Clone, Copy, PartialEq, Eq, Hash, Default, Structural)]
pub struct UiAstNodeId {
    raw: u64,
}

impl UiAstNodeId {
    pub closed spec fn spec_raw(self) -> u64 {
        self.raw
    }

    pub fn new(raw: u64) -> (r: Self)
        ensures
            r.spec_raw() == raw,
    {
        Self { raw }
    }

    pub fn raw(self) -> (r: u64)
        ensures
            r == self.spec_raw(),
    {
        self.raw
    }
}

/// What a UI tree node is.
#[derive(Debug, Clone, Copy, PartialEq, Eq, Structural)]
pub enum UiNodeKind {
    Root,
    Element,
    Text,
    Slot,
}

/// Whether a UI tree node was resolved.
#[derive(Debug, Clone, Copy, PartialEq, Eq, Structural)]
pub enum UiNodeResolution {
    Resolved,
    Unresolved,
}

/// What a UI syntax tree node is.
#[derive(Debug, Clone, Copy, PartialEq, Eq, Structural)]
pub enum UiAstNodeKind {
    Root,
    Element,
    Text,
    Slot,
}

/// What a node of the UI intermediate representation is.
#[derive(Debug, Clone, Copy, PartialEq, Eq, Structural)]
pub enum UiIrNodeKind {
    Root,
    Element,
    Text,
    Fragment,
}

/// A node of the UI intermediate representation.
#[derive(Debug, Clone, Copy, PartialEq, Eq, Structural)]
pub struct UiIrNode {
    id: UiIrNodeId,
    kind: UiIrNodeKind,
}

impl UiIrNode {
    pub closed spec fn spec_id(self) -> UiIrNodeId {
        self.id
    }

    pub closed spec fn spec_kind(self) -> UiIrNodeKind {
        self.kind
    }

    pub fn id(&self) -> (r: UiIrNodeId)
        ensures
            r == self.spec_id(),
    {
        self.id
    }

    pub fn kind(&self) -> (r: UiIrNodeKind)
        ensures
            r == self.spec_kind(),
    {
        self.kind
    }

    pub fn new(id: UiIrNodeId, kind: UiIrNodeKind) -> (r: Self)
        ensures
            r.spec_id() == id,
            r.spec_kind() == kind,
    {
        Self { id, kind }
    }
}

/// The UI intermediate representation: its nodes in order.
#[derive(Debug, Clone, PartialEq, Eq)]
pub struct UiIr {
    nodes: Vec<UiIrNode>,
}

impl UiIr {
    pub closed spec fn spec_nodes(self) -> Seq<UiIrNode> {
        self.nodes@
    }

    pub fn nodes(&self) -> (r: &[UiIrNode])
        ensures
            r@ == self.spec_nodes(),
    {
        self.nodes.as_slice()
    }

    pub fn new(nodes: Vec<UiIrNode>) -> (r: Self)
        ensures
            r.spec_nodes() == nodes@,
    {
        Self { nodes }
    }
}

} // verus!
