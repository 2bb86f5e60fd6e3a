//! Authored projection source documents: their nodes and the collection
//! anchors they declare.
use vstd::prelude::*;
use crate::contract_primitives::{Epoch, ProjectionSourceNodeId, Revision, SourceRef};

verus! {

/// A node of a projection source document.
#[derive(Debug, Clone, Copy, PartialEq, Eq, Structural)]
pub struct ProjectionSourceNode {
    pub id: ProjectionSourceNodeId,
}

impl ProjectionSourceNode {
    pub fn new(id: ProjectionSourceNodeId) -> (r: Self)
        ensures
            r.id == id,
    {
        Self { id }
    }

    pub fn id(&self) -> (r: ProjectionSourceNodeId)
        ensures
            r == self.id,
    {
        self.id
    }
}

/// An authored declaration that a source node anchors a collection.
#[derive(Debug, Clone, Copy, PartialEq, Eq, Structural)]
pub struct CollectionAnchorDeclaration {
    pub target: ProjectionSourceNodeId,
    pub source: SourceRef,
}

impl CollectionAnchorDeclaration {
    pub fn new(target: ProjectionSourceNodeId, source: SourceRef) -> (r: Self)
        ensures
            r.target == target,
            r.source == source,
    {
        Self { target, source }
    }

    pub fn target(&self) -> (r: ProjectionSourceNodeId)
        ensures
            r == self.target,
    {
        self.target
    }

    pub fn source(&self) -> (r: SourceRef)
        ensures
            r == self.source,
    {
        self.source
    }
}

/// A projection source document at one revision and epoch.
#[derive(Debug, Clone, PartialEq, Eq)]
pub struct ProjectionSourceDocument {
    pub revision: Revision,
    pub epoch: Epoch,
    pub nodes: Vec<ProjectionSourceNode>,
    pub collection_anchor_declarations: Vec<CollectionAnchorDeclaration>,
}

impl ProjectionSourceDocument {
    pub fn new(
        revision: Revision,
        epoch: Epoch,
        nodes: Vec<ProjectionSourceNode>,
        collection_anchor_declarations: Vec<CollectionAnchorDeclaration>,
    ) -> (r: Self)
        ensures
            r.revision == revision,
            r.epoch == epoch,
            r.nodes@ == nodes@,
            r.collection_anchor_declarations@ == collection_anchor_declarations@,
    {
        Self { revision, epoch, nodes, collection_anchor_declarations }
    }

    pub fn revision(&self) -> (r: Revision)
        ensures
            r == self.revision,
    {
        self.revision
    }

    pub fn epoch(&self) -> (r: Epoch)
        ensures
            r == self.epoch,
    {
        self.epoch
    }

    pub fn nodes(&self) -> (r: &[ProjectionSourceNode])
        ensures
            r@ == self.nodes@,
    {
        self.nodes.as_slice()
    }

    pub fn collection_anchor_declarations(&self) -> (r: &[CollectionAnchorDeclaration])
        ensures
            r@ == self.collection_anchor_declarations@,
    {
        self.collection_anchor_declarations.as_slice()
    }
}

} // verus!
