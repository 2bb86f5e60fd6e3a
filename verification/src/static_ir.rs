//! Static UI documents: the nodes that action routes and bindings target.
use vstd::prelude::*;
use crate::contract_primitives::{Epoch, Revision, StaticDocumentId, StaticNodeId};

verus! {

/// A node of a static UI document.
#[derive(Debug, Clone, Copy, PartialEq, Eq, Structural)]
pub struct StaticUiNode {
    id: StaticNodeId,
}

impl StaticUiNode {
    pub closed spec fn spec_id(self) -> StaticNodeId {
        self.id
    }

    pub fn new(id: StaticNodeId) -> (r: Self)
        ensures
            r.spec_id() == id,
    {
        Self { id }
    }

    pub fn id(&self) -> (r: StaticNodeId)
        ensures
            r == self.spec_id(),
    {
        self.id
    }
}

/// A static UI document: its identity, the revision and epoch it was built
/// at, and its nodes.
#[derive(Debug, Clone, PartialEq, Eq)]
pub struct StaticUiDocument {
    id: StaticDocumentId,
    revision: Revision,
    epoch: Epoch,
    nodes: Vec<StaticUiNode>,
}

impl StaticUiDocument {
    pub closed spec fn spec_id(self) -> StaticDocumentId {
        self.id
    }

    pub closed spec fn spec_revision(self) -> Revision {
        self.revision
    }

    pub closed spec fn spec_epoch(self) -> Epoch {
        self.epoch
    }

    pub closed spec fn spec_nodes(self) -> Seq<StaticUiNode> {
        self.nodes@
    }

    pub fn new(id: StaticDocumentId, revision: Revision, epoch: Epoch, nodes: Vec<StaticUiNode>) -> (r: Self)
        ensures
            r.spec_id() == id,
            r.spec_revision() == revision,
            r.spec_epoch() == epoch,
            r.spec_nodes() == nodes@,
    {
        Self { id, revision, epoch, nodes }
    }

    pub fn id(&self) -> (r: StaticDocumentId)
        ensures
            r == self.spec_id(),
    {
        self.id
    }

    pub fn revision(&self) -> (r: Revision)
        ensures
            r == self.spec_revision(),
    {
        self.revision
    }

    pub fn epoch(&self) -> (r: Epoch)
        ensures
            r == self.spec_epoch(),
    {
        self.epoch
    }

    pub fn nodes(&self) -> (r: &[StaticUiNode])
        ensures
            r@ == self.spec_nodes(),
    {
        self.nodes.as_slice()
    }
}

} // verus!
