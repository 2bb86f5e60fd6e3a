//! Links from IR slots to fragments of a UI projection.
use vstd::prelude::*;
use crate::ast_slot_ir_intent::{UiAstSlotIrIntentEntry, UiAstSlotIrIntentEntryId, UiAstSlotIrIntentModel};
use crate::model::{UiAstNodeId, UiAstNodeKind, UiIrNodeId, UiIrNodeKind, UiNodeId, UiNodeKind, UiNodeResolution, UiTreeId};
use crate::projection::{UiProjectedNode, UiProjectedNodeId, UiProjectedNodeKind, UiProjectionArtifact};
use crate::tree_slot_ast_intent::UiTreeSlotAstIntentEntryId;
use crate::tree_slot_intent::UiTreeSlotCarrierIntentEntryId;
use vstd::std_specs::iter::IteratorSpec;

verus! {

/// Identity of a model of IR slots linked to projected fragments.
#[derive(Debug, Clone, Copy, PartialEq, Eq, Hash, Structural)]
pub struct UiIrSlotProjectionIntentModelId(u64);

impl UiIrSlotProjectionIntentModelId {
    pub closed spec fn spec_raw(self) -> u64 {
        self.0
    }

    pub fn new(raw: u64) -> (r: Self)
        ensures
            r.spec_raw() == raw,
    {
        Self(raw)
    }
}

/// Identity of an entry linking an IR slot to a projected fragment.
#[derive(Debug, Clone, Copy, PartialEq, Eq, Hash, Structural)]
pub struct UiIrSlotProjectionIntentEntryId(u64);

impl UiIrSlotProjectionIntentEntryId {
    pub closed spec fn spec_raw(self) -> u64 {
        self.0
    }

    pub fn new(raw: u64) -> (r: Self)
        ensures
            r.spec_raw() == raw,
    {
        Self(raw)
    }

    pub fn raw(&self) -> (r: u64)
        ensures
            r == self.spec_raw(),
    {
        self.0
    }
}

/// The kind of an IR slot to projection link.
#[derive(Debug, Clone, Copy, PartialEq, Eq, Structural)]
pub enum UiIrSlotProjectionIntentKind {
    ProjectedFragmentLinkedToIrSlotIntent,
}

/// The state of an IR slot to projection link.
#[derive(Debug, Clone, Copy, PartialEq, Eq, Structural)]
pub enum UiIrSlotProjectionIntentState {
    Deferred,
}

/// An IR slot linked to the projected fragment of its IR node, with every neighbourhood.
#[derive(Debug, Clone)]
pub struct UiIrSlotProjectionIntentEntry {
    id: UiIrSlotProjectionIntentEntryId,
    source_ir_intent_entry_id: UiAstSlotIrIntentEntryId,
    source_ast_intent_entry_id: UiTreeSlotAstIntentEntryId,
    source_tree_intent_entry_id: UiTreeSlotCarrierIntentEntryId,
    source_tree_id: UiTreeId,
    source_tree_node_id: UiNodeId,
    source_tree_node_kind: UiNodeKind,
    source_tree_resolution: UiNodeResolution,
    source_ast_node_id: UiAstNodeId,
    source_ast_node_kind: UiAstNodeKind,
    source_ir_node_id: UiIrNodeId,
    source_ir_node_kind: UiIrNodeKind,
    projected_node_id: UiProjectedNodeId,
    projected_node_kind: UiProjectedNodeKind,
    parent_tree_node_id: Option<UiNodeId>,
    child_tree_node_ids: Vec<UiNodeId>,
    parent_ast_node_id: Option<UiAstNodeId>,
    child_ast_node_ids: Vec<UiAstNodeId>,
    parent_ir_node_id: Option<UiIrNodeId>,
    child_ir_node_ids: Vec<UiIrNodeId>,
    parent_projected_node_id: Option<UiProjectedNodeId>,
    child_projected_node_ids: Vec<UiProjectedNodeId>,
    kind: UiIrSlotProjectionIntentKind,
    state: UiIrSlotProjectionIntentState,
}

impl UiIrSlotProjectionIntentEntry {
    pub closed spec fn spec_id(self) -> UiIrSlotProjectionIntentEntryId {
        self.id
    }

    pub closed spec fn spec_source_ir_intent_entry_id(self) -> UiAstSlotIrIntentEntryId {
        self.source_ir_intent_entry_id
    }

    pub closed spec fn spec_source_ast_intent_entry_id(self) -> UiTreeSlotAstIntentEntryId {
        self.source_ast_intent_entry_id
    }

    pub closed spec fn spec_source_tree_intent_entry_id(self) -> UiTreeSlotCarrierIntentEntryId {
        self.source_tree_intent_entry_id
    }

    pub closed spec fn spec_source_tree_id(self) -> UiTreeId {
        self.source_tree_id
    }

    pub closed spec fn spec_source_tree_node_id(self) -> UiNodeId {
        self.source_tree_node_id
    }

    pub closed spec fn spec_source_tree_node_kind(self) -> UiNodeKind {
        self.source_tree_node_kind
    }

    pub closed spec fn spec_source_tree_resolution(self) -> UiNodeResolution {
        self.source_tree_resolution
    }

    pub closed spec fn spec_source_ast_node_id(self) -> UiAstNodeId {
        self.source_ast_node_id
    }

    pub closed spec fn spec_source_ast_node_kind(self) -> UiAstNodeKind {
        self.source_ast_node_kind
    }

    pub closed spec fn spec_source_ir_node_id(self) -> UiIrNodeId {
        self.source_ir_node_id
    }

    pub closed spec fn spec_source_ir_node_kind(self) -> UiIrNodeKind {
        self.source_ir_node_kind
    }

    pub closed spec fn spec_projected_node_id(self) -> UiProjectedNodeId {
        self.projected_node_id
    }

    pub closed spec fn spec_projected_node_kind(self) -> UiProjectedNodeKind {
        self.projected_node_kind
    }

    pub closed spec fn spec_parent_tree_node_id(self) -> Option<UiNodeId> {
        self.parent_tree_node_id
    }

    pub closed spec fn spec_child_tree_node_ids(self) -> Seq<UiNodeId> {
        self.child_tree_node_ids@
    }

    pub closed spec fn spec_parent_ast_node_id(self) -> Option<UiAstNodeId> {
        self.parent_ast_node_id
    }

    pub closed spec fn spec_child_ast_node_ids(self) -> Seq<UiAstNodeId> {
        self.child_ast_node_ids@
    }

    pub closed spec fn spec_parent_ir_node_id(self) -> Option<UiIrNodeId> {
        self.parent_ir_node_id
    }

    pub closed spec fn spec_child_ir_node_ids(self) -> Seq<UiIrNodeId> {
        self.child_ir_node_ids@
    }

    pub closed spec fn spec_parent_projected_node_id(self) -> Option<UiProjectedNodeId> {
        self.parent_projected_node_id
    }

    pub closed spec fn spec_child_projected_node_ids(self) -> Seq<UiProjectedNodeId> {
        self.child_projected_node_ids@
    }

    pub closed spec fn spec_kind(self) -> UiIrSlotProjectionIntentKind {
        self.kind
    }

    pub closed spec fn spec_state(self) -> UiIrSlotProjectionIntentState {
        self.state
    }

    pub fn id(&self) -> (r: UiIrSlotProjectionIntentEntryId)
        ensures
            r == self.spec_id(),
    {
        self.id
    }

    pub fn source_ir_intent_entry_id(&self) -> (r: UiAstSlotIrIntentEntryId)
        ensures
            r == self.spec_source_ir_intent_entry_id(),
    {
        self.source_ir_intent_entry_id
    }

    pub fn source_ast_intent_entry_id(&self) -> (r: UiTreeSlotAstIntentEntryId)
        ensures
            r == self.spec_source_ast_intent_entry_id(),
    {
        self.source_ast_intent_entry_id
    }

    pub fn source_tree_intent_entry_id(&self) -> (r: UiTreeSlotCarrierIntentEntryId)
        ensures
            r == self.spec_source_tree_intent_entry_id(),
    {
        self.source_tree_intent_entry_id
    }

    pub fn source_tree_id(&self) -> (r: UiTreeId)
        ensures
            r == self.spec_source_tree_id(),
    {
        self.source_tree_id
    }

    pub fn source_tree_node_id(&self) -> (r: UiNodeId)
        ensures
            r == self.spec_source_tree_node_id(),
    {
        self.source_tree_node_id
    }

    pub fn source_tree_node_kind(&self) -> (r: UiNodeKind)
        ensures
            r == self.spec_source_tree_node_kind(),
    {
        self.source_tree_node_kind
    }

    pub fn source_tree_resolution(&self) -> (r: UiNodeResolution)
        ensures
            r == self.spec_source_tree_resolution(),
    {
        self.source_tree_resolution
    }

    pub fn source_ast_node_id(&self) -> (r: UiAstNodeId)
        ensures
            r == self.spec_source_ast_node_id(),
    {
        self.source_ast_node_id
    }

    pub fn source_ast_node_kind(&self) -> (r: UiAstNodeKind)
        ensures
            r == self.spec_source_ast_node_kind(),
    {
        self.source_ast_node_kind
    }

    pub fn source_ir_node_id(&self) -> (r: UiIrNodeId)
        ensures
            r == self.spec_source_ir_node_id(),
    {
        self.source_ir_node_id
    }

    pub fn source_ir_node_kind(&self) -> (r: UiIrNodeKind)
        ensures
            r == self.spec_source_ir_node_kind(),
    {
        self.source_ir_node_kind
    }

    pub fn projected_node_id(&self) -> (r: UiProjectedNodeId)
        ensures
            r == self.spec_projected_node_id(),
    {
        self.projected_node_id
    }

    pub fn projected_node_kind(&self) -> (r: UiProjectedNodeKind)
        ensures
            r == self.spec_projected_node_kind(),
    {
        self.projected_node_kind
    }

    pub fn parent_tree_node_id(&self) -> (r: Option<UiNodeId>)
        ensures
            r == self.spec_parent_tree_node_id(),
    {
        self.parent_tree_node_id
    }

    pub fn child_tree_node_ids(&self) -> (r: &[UiNodeId])
        ensures
            r@ == self.spec_child_tree_node_ids(),
    {
        self.child_tree_node_ids.as_slice()
    }

    pub fn parent_ast_node_id(&self) -> (r: Option<UiAstNodeId>)
        ensures
            r == self.spec_parent_ast_node_id(),
    {
        self.parent_ast_node_id
    }

    pub fn child_ast_node_ids(&self) -> (r: &[UiAstNodeId])
        ensures
            r@ == self.spec_child_ast_node_ids(),
    {
        self.child_ast_node_ids.as_slice()
    }

    pub fn parent_ir_node_id(&self) -> (r: Option<UiIrNodeId>)
        ensures
            r == self.spec_parent_ir_node_id(),
    {
        self.parent_ir_node_id
    }

    pub fn child_ir_node_ids(&self) -> (r: &[UiIrNodeId])
        ensures
            r@ == self.spec_child_ir_node_ids(),
    {
        self.child_ir_node_ids.as_slice()
    }

    pub fn parent_projected_node_id(&self) -> (r: Option<UiProjectedNodeId>)
        ensures
            r == self.spec_parent_projected_node_id(),
    {
        self.parent_projected_node_id
    }

    pub fn child_projected_node_ids(&self) -> (r: &[UiProjectedNodeId])
        ensures
            r@ == self.spec_child_projected_node_ids(),
    {
        self.child_projected_node_ids.as_slice()
    }

    pub fn kind(&self) -> (r: UiIrSlotProjectionIntentKind)
        ensures
            r == self.spec_kind(),
    {
        self.kind
    }

    pub fn state(&self) -> (r: UiIrSlotProjectionIntentState)
        ensures
            r == self.spec_state(),
    {
        self.state
    }
}

/// IR slots linked to projected fragments, in order.
#[derive(Debug, Clone)]
pub struct UiIrSlotProjectionIntentModel {
    id: UiIrSlotProjectionIntentModelId,
    entries: Vec<UiIrSlotProjectionIntentEntry>,
}

impl UiIrSlotProjectionIntentModel {
    pub closed spec fn spec_id(self) -> UiIrSlotProjectionIntentModelId {
        self.id
    }

    pub closed spec fn spec_entries(self) -> Seq<UiIrSlotProjectionIntentEntry> {
        self.entries@
    }

    pub fn id(&self) -> (r: UiIrSlotProjectionIntentModelId)
        ensures
            r == self.spec_id(),
    {
        self.id
    }

    pub fn entries(&self) -> (r: &[UiIrSlotProjectionIntentEntry])
        ensures
            r@ == self.spec_entries(),
    {
        self.entries.as_slice()
    }
}

/// Why an IR slot could not be linked to a projected fragment.
#[derive(Debug, Clone, Copy, PartialEq, Eq, Structural)]
pub enum UiIrSlotProjectionIntentDiagnosticKind {
    /// No projected node projects the slot's IR node.
    MissingProjectedNode { source_ir_node_id: UiIrNodeId },
    /// The projected node of the slot's IR node is not a fragment.
    UnexpectedProjectedNodeKind {
        source_ir_node_id: UiIrNodeId,
        projected_node_id: UiProjectedNodeId,
        actual_kind: UiProjectedNodeKind,
    },
}

/// A diagnostic of a slot that was not linked.
#[derive(Debug, Clone)]
pub struct UiIrSlotProjectionIntentDiagnostic {
    kind: UiIrSlotProjectionIntentDiagnosticKind,
}

impl UiIrSlotProjectionIntentDiagnostic {
    pub closed spec fn spec_kind(self) -> UiIrSlotProjectionIntentDiagnosticKind {
        self.kind
    }

    pub fn kind(&self) -> (r: &UiIrSlotProjectionIntentDiagnosticKind)
        ensures
            *r == self.spec_kind(),
    {
        &self.kind
    }
}

/// The diagnostics of a failed linking, in the order of the slots.
#[derive(Debug, Default)]
pub struct UiIrSlotProjectionIntentDiagnostics {
    diagnostics: Vec<UiIrSlotProjectionIntentDiagnostic>,
}

impl UiIrSlotProjectionIntentDiagnostics {
    pub closed spec fn spec_diagnostics(self) -> Seq<UiIrSlotProjectionIntentDiagnostic> {
        self.diagnostics@
    }

    pub fn new() -> (r: Self)
        ensures
            r.spec_diagnostics() == Seq::<UiIrSlotProjectionIntentDiagnostic>::empty(),
    {
        Self { diagnostics: Vec::new() }
    }

    pub fn push(&mut self, diagnostic: UiIrSlotProjectionIntentDiagnostic)
        ensures
            final(self).spec_diagnostics() == old(self).spec_diagnostics().push(diagnostic),
    {
        self.diagnostics.push(diagnostic);
    }

    pub fn is_empty(&self) -> (r: bool)
        ensures
            r == (self.spec_diagnostics().len() == 0),
    {
        self.diagnostics.len() == 0
    }

    pub fn iter(&self) -> (r: core::slice::Iter<'_, UiIrSlotProjectionIntentDiagnostic>)
        ensures
            r.remaining() == self.spec_diagnostics().as_ref(),
    {
        broadcast use vstd::std_specs::slice::axiom_spec_slice_iter;

        self.diagnostics.as_slice().iter()
    }
}

/// Linked slots, or the diagnostics of every slot that could not be linked.
pub type UiIrSlotProjectionIntentResult = Result<UiIrSlotProjectionIntentModel, UiIrSlotProjectionIntentDiagnostics>;

/// `k` is the first position of a projected node that projects IR node `id`.
pub open spec fn is_first_projection_match(nodes: Seq<UiProjectedNode>, id: UiIrNodeId, k: int) -> bool {
    &&& 0 <= k < nodes.len()
    &&& nodes[k].spec_source_ir_node_id() == Some(id)
    &&& forall|j: int| 0 <= j < k ==> #[trigger] nodes[j].spec_source_ir_node_id() != Some(id)
}

/// Some projected node projects IR node `id`.
pub open spec fn projection_has_node(nodes: Seq<UiProjectedNode>, id: UiIrNodeId) -> bool {
    exists|k: int| 0 <= k < nodes.len() && #[trigger] nodes[k].spec_source_ir_node_id() == Some(id)
}

/// The first projected node that projects IR node `id`.
pub open spec fn first_projected_node(nodes: Seq<UiProjectedNode>, id: UiIrNodeId) -> UiProjectedNode {
    nodes[choose|k: int| is_first_projection_match(nodes, id, k)]
}

/// Why slot `s` cannot be linked, if it cannot: nothing projects its IR
/// node, or the first projection of it is not a fragment.
pub open spec fn ir_slot_diagnostic(s: UiAstSlotIrIntentEntry, nodes: Seq<UiProjectedNode>) -> Option<UiIrSlotProjectionIntentDiagnosticKind> {
    let id = s.spec_ir_node_id();
    if !projection_has_node(nodes, id) {
        Some(UiIrSlotProjectionIntentDiagnosticKind::MissingProjectedNode { source_ir_node_id: id })
    } else if first_projected_node(nodes, id).spec_kind() != UiProjectedNodeKind::Fragment {
        Some(
            UiIrSlotProjectionIntentDiagnosticKind::UnexpectedProjectedNodeKind {
                source_ir_node_id: id,
                projected_node_id: first_projected_node(nodes, id).spec_id(),
                actual_kind: first_projected_node(nodes, id).spec_kind(),
            },
        )
    } else {
        None
    }
}

/// The diagnostics of a sequence of slots: one per slot that cannot be
/// linked, in order.
pub open spec fn ir_slot_diagnostics(slots: Seq<UiAstSlotIrIntentEntry>, nodes: Seq<UiProjectedNode>) -> Seq<UiIrSlotProjectionIntentDiagnosticKind>
    decreases slots.len(),
{
    if slots.len() == 0 {
        Seq::empty()
    } else {
        let before = ir_slot_diagnostics(slots.drop_last(), nodes);
        match ir_slot_diagnostic(slots.last(), nodes) {
            Some(d) => before.push(d),
            None => before,
        }
    }
}

/// The link of IR slot `s` to projected node `p`: the slot's lineage and
/// neighbourhoods, and the projected node with its parent and children.
pub open spec fn ir_slot_projection_entry_from(e: UiIrSlotProjectionIntentEntry, s: UiAstSlotIrIntentEntry, p: UiProjectedNode) -> bool {
    &&& e.spec_id().spec_raw() == s.spec_ir_node_id().spec_raw()
    &&& e.spec_source_ir_intent_entry_id() == s.spec_id()
    &&& e.spec_source_ast_intent_entry_id() == s.spec_source_ast_intent_entry_id()
    &&& e.spec_source_tree_intent_entry_id() == s.spec_source_tree_intent_entry_id()
    &&& e.spec_source_tree_id() == s.spec_source_tree_id()
    &&& e.spec_source_tree_node_id() == s.spec_source_tree_node_id()
    &&& e.spec_source_tree_node_kind() == s.spec_source_tree_node_kind()
    &&& e.spec_source_tree_resolution() == s.spec_source_tree_resolution()
    &&& e.spec_source_ast_node_id() == s.spec_source_ast_node_id()
    &&& e.spec_source_ast_node_kind() == s.spec_source_ast_node_kind()
    &&& e.spec_source_ir_node_id() == s.spec_ir_node_id()
    &&& e.spec_source_ir_node_kind() == s.spec_ir_node_kind()
    &&& e.spec_projected_node_id() == p.spec_id()
    &&& e.spec_projected_node_kind() == p.spec_kind()
    &&& e.spec_parent_tree_node_id() == s.spec_parent_tree_node_id()
    &&& e.spec_child_tree_node_ids() == s.spec_child_tree_node_ids()
    &&& e.spec_parent_ast_node_id() == s.spec_parent_ast_node_id()
    &&& e.spec_child_ast_node_ids() == s.spec_child_ast_node_ids()
    &&& e.spec_parent_ir_node_id() == s.spec_parent_ir_node_id()
    &&& e.spec_child_ir_node_ids() == s.spec_child_ir_node_ids()
    &&& e.spec_parent_projected_node_id() == p.spec_parent()
    &&& e.spec_child_projected_node_ids() == p.spec_children()
    &&& e.spec_kind() == UiIrSlotProjectionIntentKind::ProjectedFragmentLinkedToIrSlotIntent
    &&& e.spec_state() == UiIrSlotProjectionIntentState::Deferred
}

/// The first match is the one that `first_projected_node` reads.
proof fn lemma_first_projection_match_chosen(nodes: Seq<UiProjectedNode>, id: UiIrNodeId, k: int)
    requires
        is_first_projection_match(nodes, id, k),
    ensures
        first_projected_node(nodes, id) == nodes[k],
{
    let c = choose|c: int| is_first_projection_match(nodes, id, c);
    assert(is_first_projection_match(nodes, id, c));
    if c < k {
        assert(nodes[c].spec_source_ir_node_id() != Some(id));
    }
    if k < c {
        assert(nodes[k].spec_source_ir_node_id() != Some(id));
    }
}

/// A prefix of the slots has no diagnostics exactly when every slot in it
/// can be linked.
proof fn lemma_no_projection_diagnostics_iff_all_link(slots: Seq<UiAstSlotIrIntentEntry>, nodes: Seq<UiProjectedNode>)
    ensures
        (ir_slot_diagnostics(slots, nodes).len() == 0) == (forall|j: int|
            0 <= j < slots.len() ==> #[trigger] ir_slot_diagnostic(slots[j], nodes) is None),
    decreases slots.len(),
{
    if slots.len() > 0 {
        lemma_no_projection_diagnostics_iff_all_link(slots.drop_last(), nodes);
        if ir_slot_diagnostics(slots, nodes).len() == 0 {
            assert forall|j: int| 0 <= j < slots.len() implies #[trigger] ir_slot_diagnostic(slots[j], nodes) is None by {
                if j < slots.len() - 1 {
                    assert(slots.drop_last()[j] == slots[j]);
                }
            }
        } else {
            if ir_slot_diagnostic(slots.last(), nodes) is None {
                let j = choose|j: int| 0 <= j < slots.drop_last().len() && !(#[trigger] ir_slot_diagnostic(slots.drop_last()[j], nodes) is None);
                assert(slots.drop_last()[j] == slots[j]);
            }
        }
    }
}

/// Links every IR slot to the first projected node of its IR node, which
/// must be a fragment. Succeeds when every slot links, with one entry per
/// slot in order; fails otherwise with one diagnostic per slot that does not.
pub fn build_ir_slot_projection_intents(ir_intents: &UiAstSlotIrIntentModel, projection: &UiProjectionArtifact) -> (r: UiIrSlotProjectionIntentResult)
    ensures
        r is Ok <==> (forall|j: int|
            0 <= j < ir_intents.spec_entries().len() ==> #[trigger] ir_slot_diagnostic(ir_intents.spec_entries()[j], projection.spec_nodes()) is None),
        r matches Ok(model) ==> {
            &&& model.spec_id().spec_raw() == 1
            &&& model.spec_entries().len() == ir_intents.spec_entries().len()
            &&& forall|j: int|
                #![trigger model.spec_entries()[j]]
                0 <= j < model.spec_entries().len() ==> ir_slot_projection_entry_from(
                    model.spec_entries()[j],
                    ir_intents.spec_entries()[j],
                    first_projected_node(projection.spec_nodes(), ir_intents.spec_entries()[j].spec_ir_node_id()),
                )
        },
        r matches Err(diagnostics) ==> {
            let expected = ir_slot_diagnostics(ir_intents.spec_entries(), projection.spec_nodes());
            &&& diagnostics.spec_diagnostics().len() == expected.len()
            &&& forall|j: int|
                #![trigger diagnostics.spec_diagnostics()[j]]
                0 <= j < expected.len() ==> diagnostics.spec_diagnostics()[j].spec_kind() == expected[j]
        },
{
    let mut diagnostics = UiIrSlotProjectionIntentDiagnostics::new();
    let mut entries: Vec<UiIrSlotProjectionIntentEntry> = Vec::new();
    let slots = ir_intents.entries();
    let projected_nodes = projection.nodes();
    let mut i: usize = 0;
    while i < slots.len()
        invariant
            slots@ == ir_intents.spec_entries(),
            projected_nodes@ == projection.spec_nodes(),
            i <= slots@.len(),
            diagnostics.spec_diagnostics().len() == ir_slot_diagnostics(slots@.take(i as int), projected_nodes@).len(),
            forall|j: int|
                #![trigger diagnostics.spec_diagnostics()[j]]
                0 <= j < diagnostics.spec_diagnostics().len() ==> diagnostics.spec_diagnostics()[j].spec_kind()
                    == ir_slot_diagnostics(slots@.take(i as int), projected_nodes@)[j],
            diagnostics.spec_diagnostics().len() == 0 ==> entries@.len() == i,
            diagnostics.spec_diagnostics().len() == 0 ==> forall|j: int|
                #![trigger entries@[j]]
                0 <= j < i ==> ir_slot_projection_entry_from(
                    entries@[j],
                    slots@[j],
                    first_projected_node(projected_nodes@, slots@[j].spec_ir_node_id()),
                ),
        decreases slots@.len() - i,
    {
        let ir_intent = &slots[i];
        let ir_node_id = ir_intent.ir_node_id();
        let ghost before = slots@.take(i as int);
        let ghost after = slots@.take(i + 1);
        assert(after.drop_last() =~= before);
        assert(after.last() == slots@[i as int]);

        let mut k: usize = 0;
        let mut found = false;
        while k < projected_nodes.len()
            invariant
                projected_nodes@ == projection.spec_nodes(),
                k <= projected_nodes@.len(),
                !found ==> forall|j: int| 0 <= j < k ==> #[trigger] projected_nodes@[j].spec_source_ir_node_id() != Some(ir_node_id),
                found ==> is_first_projection_match(projected_nodes@, ir_node_id, k as int),
            ensures
                !found ==> forall|j: int| 0 <= j < projected_nodes@.len() ==> #[trigger] projected_nodes@[j].spec_source_ir_node_id() != Some(ir_node_id),
                found ==> is_first_projection_match(projected_nodes@, ir_node_id, k as int),
            decreases projected_nodes@.len() - k,
        {
            if projected_nodes[k].source_ir_node_id() == Some(ir_node_id) {
                found = true;
                break;
            }
            k += 1;
        }

        if found {
            proof {
                lemma_first_projection_match_chosen(projected_nodes@, ir_node_id, k as int);
            }
            let projected_node = &projected_nodes[k];
            if projected_node.kind() != UiProjectedNodeKind::Fragment {
                diagnostics.push(UiIrSlotProjectionIntentDiagnostic {
                    kind: UiIrSlotProjectionIntentDiagnosticKind::UnexpectedProjectedNodeKind {
                        source_ir_node_id: ir_node_id,
                        projected_node_id: projected_node.id(),
                        actual_kind: projected_node.kind(),
                    },
                });
            } else {
                let entry = UiIrSlotProjectionIntentEntry {
                    id: UiIrSlotProjectionIntentEntryId::new(ir_node_id.raw()),
                    source_ir_intent_entry_id: ir_intent.id(),
                    source_ast_intent_entry_id: ir_intent.source_ast_intent_entry_id(),
                    source_tree_intent_entry_id: ir_intent.source_tree_intent_entry_id(),
                    source_tree_id: ir_intent.source_tree_id(),
                    source_tree_node_id: ir_intent.source_tree_node_id(),
                    source_tree_node_kind: ir_intent.source_tree_node_kind(),
                    source_tree_resolution: ir_intent.source_tree_resolution(),
                    source_ast_node_id: ir_intent.source_ast_node_id(),
                    source_ast_node_kind: ir_intent.source_ast_node_kind(),
                    source_ir_node_id: ir_intent.ir_node_id(),
                    source_ir_node_kind: ir_intent.ir_node_kind(),
                    projected_node_id: projected_node.id(),
                    projected_node_kind: projected_node.kind(),
                    parent_tree_node_id: ir_intent.parent_tree_node_id(),
                    child_tree_node_ids: vstd::slice::slice_to_vec(ir_intent.child_tree_node_ids()),
                    parent_ast_node_id: ir_intent.parent_ast_node_id(),
                    child_ast_node_ids: vstd::slice::slice_to_vec(ir_intent.child_ast_node_ids()),
                    parent_ir_node_id: ir_intent.parent_ir_node_id(),
                    child_ir_node_ids: vstd::slice::slice_to_vec(ir_intent.child_ir_node_ids()),
                    parent_projected_node_id: projected_node.parent(),
                    child_projected_node_ids: vstd::slice::slice_to_vec(projected_node.children()),
                    kind: UiIrSlotProjectionIntentKind::ProjectedFragmentLinkedToIrSlotIntent,
                    state: UiIrSlotProjectionIntentState::Deferred,
                };
                entries.push(entry);
            }
        } else {
            diagnostics.push(UiIrSlotProjectionIntentDiagnostic {
                kind: UiIrSlotProjectionIntentDiagnosticKind::MissingProjectedNode { source_ir_node_id: ir_node_id },
            });
        }
        i += 1;
    }
    proof {
        assert(slots@.take(slots@.len() as int) =~= slots@);
        lemma_no_projection_diagnostics_iff_all_link(slots@, projected_nodes@);
    }
    if !diagnostics.is_empty() {
        return Err(diagnostics);
    }
    Ok(UiIrSlotProjectionIntentModel { id: UiIrSlotProjectionIntentModelId::new(1), entries })
}

/// Where some projected node projects an IR node, a first one does.
proof fn lemma_first_projection_match_exists(nodes: Seq<UiProjectedNode>, id: UiIrNodeId, k: int)
    requires
        0 <= k < nodes.len(),
        nodes[k].spec_source_ir_node_id() == Some(id),
    ensures
        exists|m: int| is_first_projection_match(nodes, id, m),
    decreases k,
{
    if exists|j: int| 0 <= j < k && #[trigger] nodes[j].spec_source_ir_node_id() == Some(id) {
        let j = choose|j: int| 0 <= j < k && #[trigger] nodes[j].spec_source_ir_node_id() == Some(id);
        lemma_first_projection_match_exists(nodes, id, j);
    } else {
        assert(is_first_projection_match(nodes, id, k));
    }
}

/// A slot that links is linked to a projected fragment of the projection
/// that projects the slot's IR node.
pub proof fn lemma_linked_slot_targets_projected_fragment(s: UiAstSlotIrIntentEntry, nodes: Seq<UiProjectedNode>)
    requires
        ir_slot_diagnostic(s, nodes) is None,
    ensures
        first_projected_node(nodes, s.spec_ir_node_id()).spec_kind() == UiProjectedNodeKind::Fragment,
        first_projected_node(nodes, s.spec_ir_node_id()).spec_source_ir_node_id() == Some(s.spec_ir_node_id()),
        nodes.contains(first_projected_node(nodes, s.spec_ir_node_id())),
{
    let id = s.spec_ir_node_id();
    let k = choose|k: int| 0 <= k < nodes.len() && #[trigger] nodes[k].spec_source_ir_node_id() == Some(id);
    lemma_first_projection_match_exists(nodes, id, k);
    let c = choose|c: int| is_first_projection_match(nodes, id, c);
    assert(is_first_projection_match(nodes, id, c));
    assert(nodes[c] == first_projected_node(nodes, id));
}

} // verus!
