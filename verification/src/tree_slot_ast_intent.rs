//! Tree slots linked to syntax tree nodes.
use vstd::prelude::*;
use crate::model::{UiAstNodeId, UiAstNodeKind, UiNodeId, UiNodeKind, UiNodeResolution, UiTreeId};
use crate::tree_slot_intent::UiTreeSlotCarrierIntentEntryId;

verus! {

/// Identity of an entry of a tree slot syntax intent model.
#[derive(Debug, Clone, Copy, PartialEq, Eq, Hash, Default, Structural)]
pub struct UiTreeSlotAstIntentEntryId {
    raw: u64,
}

impl UiTreeSlotAstIntentEntryId {
    pub closed spec fn spec_raw(self) -> u64 {
        self.raw
    }

    pub fn new(raw: u64) -> (r: Self)
        ensures
            r.spec_raw() == raw,
    {
        Self { raw }
    }

    pub fn raw(self) -> (r: u64)
        ensures
            r == self.spec_raw(),
    {
        self.raw
    }
}

/// A tree slot linked to a syntax tree node, with both neighbourhoods.
#[derive(Debug, Clone, PartialEq, Eq)]
pub struct UiTreeSlotAstIntentEntry {
    id: UiTreeSlotAstIntentEntryId,
    source_tree_intent_entry_id: UiTreeSlotCarrierIntentEntryId,
    source_tree_id: UiTreeId,
    source_tree_node_id: UiNodeId,
    source_tree_node_kind: UiNodeKind,
    source_tree_resolution: UiNodeResolution,
    ast_node_id: UiAstNodeId,
    ast_node_kind: UiAstNodeKind,
    parent_tree_node_id: Option<UiNodeId>,
    child_tree_node_ids: Vec<UiNodeId>,
    parent_ast_node_id: Option<UiAstNodeId>,
    child_ast_node_ids: Vec<UiAstNodeId>,
}

impl UiTreeSlotAstIntentEntry {
    pub closed spec fn spec_id(self) -> UiTreeSlotAstIntentEntryId {
        self.id
    }

    pub closed spec fn spec_source_tree_intent_entry_id(self) -> UiTreeSlotCarrierIntentEntryId {
        self.source_tree_intent_entry_id
    }

    pub closed spec fn spec_source_tree_id(self) -> UiTreeId {
        self.source_tree_id
    }

    pub closed spec fn spec_source_tree_node_id(self) -> UiNodeId {
        self.source_tree_node_id
    }

    pub closed spec fn spec_source_tree_node_kind(self) -> UiNodeKind {
        self.source_tree_node_kind
    }

    pub closed spec fn spec_source_tree_resolution(self) -> UiNodeResolution {
        self.source_tree_resolution
    }

    pub closed spec fn spec_ast_node_id(self) -> UiAstNodeId {
        self.ast_node_id
    }

    pub closed spec fn spec_ast_node_kind(self) -> UiAstNodeKind {
        self.ast_node_kind
    }

    pub closed spec fn spec_parent_tree_node_id(self) -> Option<UiNodeId> {
        self.parent_tree_node_id
    }

    pub closed spec fn spec_child_tree_node_ids(self) -> Seq<UiNodeId> {
        self.child_tree_node_ids@
    }

    pub closed spec fn spec_parent_ast_node_id(self) -> Option<UiAstNodeId> {
        self.parent_ast_node_id
    }

    pub closed spec fn spec_child_ast_node_ids(self) -> Seq<UiAstNodeId> {
        self.child_ast_node_ids@
    }

    pub fn id(&self) -> (r: UiTreeSlotAstIntentEntryId)
        ensures
            r == self.spec_id(),
    {
        self.id
    }

    pub fn source_tree_intent_entry_id(&self) -> (r: UiTreeSlotCarrierIntentEntryId)
        ensures
            r == self.spec_source_tree_intent_entry_id(),
    {
        self.source_tree_intent_entry_id
    }

    pub fn source_tree_id(&self) -> (r: UiTreeId)
        ensures
            r == self.spec_source_tree_id(),
    {
        self.source_tree_id
    }

    pub fn source_tree_node_id(&self) -> (r: UiNodeId)
        ensures
            r == self.spec_source_tree_node_id(),
    {
        self.source_tree_node_id
    }

    pub fn source_tree_node_kind(&self) -> (r: UiNodeKind)
        ensures
            r == self.spec_source_tree_node_kind(),
    {
        self.source_tree_node_kind
    }

    pub fn source_tree_resolution(&self) -> (r: UiNodeResolution)
        ensures
            r == self.spec_source_tree_resolution(),
    {
        self.source_tree_resolution
    }

    pub fn ast_node_id(&self) -> (r: UiAstNodeId)
        ensures
            r == self.spec_ast_node_id(),
    {
        self.ast_node_id
    }

    pub fn ast_node_kind(&self) -> (r: UiAstNodeKind)
        ensures
            r == self.spec_ast_node_kind(),
    {
        self.ast_node_kind
    }

    pub fn parent_tree_node_id(&self) -> (r: Option<UiNodeId>)
        ensures
            r == self.spec_parent_tree_node_id(),
    {
        self.parent_tree_node_id
    }

    pub fn child_tree_node_ids(&self) -> (r: &[UiNodeId])
        ensures
            r@ == self.spec_child_tree_node_ids(),
    {
        self.child_tree_node_ids.as_slice()
    }

    pub fn parent_ast_node_id(&self) -> (r: Option<UiAstNodeId>)
        ensures
            r == self.spec_parent_ast_node_id(),
    {
        self.parent_ast_node_id
    }

    pub fn child_ast_node_ids(&self) -> (r: &[UiAstNodeId])
        ensures
            r@ == self.spec_child_ast_node_ids(),
    {
        self.child_ast_node_ids.as_slice()
    }

    pub fn new(id: UiTreeSlotAstIntentEntryId, source_tree_intent_entry_id: UiTreeSlotCarrierIntentEntryId, source_tree_id: UiTreeId, source_tree_node_id: UiNodeId, source_tree_node_kind: UiNodeKind, source_tree_resolution: UiNodeResolution, ast_node_id: UiAstNodeId, ast_node_kind: UiAstNodeKind, parent_tree_node_id: Option<UiNodeId>, child_tree_node_ids: Vec<UiNodeId>, parent_ast_node_id: Option<UiAstNodeId>, child_ast_node_ids: Vec<UiAstNodeId>) -> (r: Self)
        ensures
            r.spec_id() == id,
            r.spec_source_tree_intent_entry_id() == source_tree_intent_entry_id,
            r.spec_source_tree_id() == source_tree_id,
            r.spec_source_tree_node_id() == source_tree_node_id,
            r.spec_source_tree_node_kind() == source_tree_node_kind,
            r.spec_source_tree_resolution() == source_tree_resolution,
            r.spec_ast_node_id() == ast_node_id,
            r.spec_ast_node_kind() == ast_node_kind,
            r.spec_parent_tree_node_id() == parent_tree_node_id,
            r.spec_child_tree_node_ids() == child_tree_node_ids@,
            r.spec_parent_ast_node_id() == parent_ast_node_id,
            r.spec_child_ast_node_ids() == child_ast_node_ids@,
    {
        Self { id, source_tree_intent_entry_id, source_tree_id, source_tree_node_id, source_tree_node_kind, source_tree_resolution, ast_node_id, ast_node_kind, parent_tree_node_id, child_tree_node_ids, parent_ast_node_id, child_ast_node_ids }
    }
}

/// Tree slots linked to syntax tree nodes, in order.
#[derive(Debug, Clone, PartialEq, Eq)]
pub struct UiTreeSlotAstIntentModel {
    entries: Vec<UiTreeSlotAstIntentEntry>,
}

impl UiTreeSlotAstIntentModel {
    pub closed spec fn spec_entries(self) -> Seq<UiTreeSlotAstIntentEntry> {
        self.entries@
    }

    pub fn entries(&self) -> (r: &[UiTreeSlotAstIntentEntry])
        ensures
            r@ == self.spec_entries(),
    {
        self.entries.as_slice()
    }

    pub fn new(entries: Vec<UiTreeSlotAstIntentEntry>) -> (r: Self)
        ensures
            r.spec_entries() == entries@,
    {
        Self { entries }
    }
}

} // verus!
