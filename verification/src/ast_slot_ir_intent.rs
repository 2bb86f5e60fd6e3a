//! Links from syntax tree slots to fragments of the UI intermediate representation.
use vstd::prelude::*;
use crate::model::{UiAstNodeId, UiAstNodeKind, UiIr, UiIrNode, UiIrNodeId, UiIrNodeKind, UiNodeId, UiNodeKind, UiNodeResolution, UiTreeId};
use crate::tree_slot_ast_intent::{UiTreeSlotAstIntentEntry, UiTreeSlotAstIntentEntryId, UiTreeSlotAstIntentModel};
use crate::tree_slot_intent::UiTreeSlotCarrierIntentEntryId;

verus! {

/// Identity of a model of syntax slots linked to IR fragments.
#[derive(Debug, Clone, Copy, PartialEq, Eq, Hash, Structural)]
pub struct UiAstSlotIrIntentModelId(u64);

impl UiAstSlotIrIntentModelId {
    pub closed spec fn spec_raw(self) -> u64 {
        self.0
    }

    pub fn new(raw: u64) -> (r: Self)
        ensures
            r.spec_raw() == raw,
    {
        Self(raw)
    }
}

/// Identity of an entry linking a syntax slot to an IR fragment.
#[derive(Debug, Clone, Copy, PartialEq, Eq, Hash, Structural)]
pub struct UiAstSlotIrIntentEntryId(u64);

impl UiAstSlotIrIntentEntryId {
    pub closed spec fn spec_raw(self) -> u64 {
        self.0
    }

    pub fn new(raw: u64) -> (r: Self)
        ensures
            r.spec_raw() == raw,
    {
        Self(raw)
    }

    pub fn raw(&self) -> (r: u64)
        ensures
            r == self.spec_raw(),
    {
        self.0
    }
}

/// The kind of a syntax slot to IR link.
#[derive(Debug, Clone, Copy, PartialEq, Eq, Structural)]
pub enum UiAstSlotIrIntentKind {
    IrFragmentLinkedToAstSlotIntent,
}

/// The state of a syntax slot to IR link.
#[derive(Debug, Clone, Copy, PartialEq, Eq, Structural)]
pub enum UiAstSlotIrIntentState {
    Deferred,
}

/// A syntax slot linked to the IR fragment with the same raw identity, with the neighbourhoods of both.
#[derive(Debug, Clone, PartialEq, Eq)]
pub struct UiAstSlotIrIntentEntry {
    id: UiAstSlotIrIntentEntryId,
    source_ast_intent_entry_id: UiTreeSlotAstIntentEntryId,
    source_tree_intent_entry_id: UiTreeSlotCarrierIntentEntryId,
    source_tree_id: UiTreeId,
    source_tree_node_id: UiNodeId,
    source_tree_node_kind: UiNodeKind,
    source_tree_resolution: UiNodeResolution,
    source_ast_node_id: UiAstNodeId,
    source_ast_node_kind: UiAstNodeKind,
    ir_node_id: UiIrNodeId,
    ir_node_kind: UiIrNodeKind,
    parent_tree_node_id: Option<UiNodeId>,
    child_tree_node_ids: Vec<UiNodeId>,
    parent_ast_node_id: Option<UiAstNodeId>,
    child_ast_node_ids: Vec<UiAstNodeId>,
    parent_ir_node_id: Option<UiIrNodeId>,
    child_ir_node_ids: Vec<UiIrNodeId>,
    kind: UiAstSlotIrIntentKind,
    state: UiAstSlotIrIntentState,
}

impl UiAstSlotIrIntentEntry {
    pub closed spec fn spec_id(self) -> UiAstSlotIrIntentEntryId {
        self.id
    }

    pub closed spec fn spec_source_ast_intent_entry_id(self) -> UiTreeSlotAstIntentEntryId {
        self.source_ast_intent_entry_id
    }

    pub closed spec fn spec_source_tree_intent_entry_id(self) -> UiTreeSlotCarrierIntentEntryId {
        self.source_tree_intent_entry_id
    }

    pub closed spec fn spec_source_tree_id(self) -> UiTreeId {
        self.source_tree_id
    }

    pub closed spec fn spec_source_tree_node_id(self) -> UiNodeId {
        self.source_tree_node_id
    }

    pub closed spec fn spec_source_tree_node_kind(self) -> UiNodeKind {
        self.source_tree_node_kind
    }

    pub closed spec fn spec_source_tree_resolution(self) -> UiNodeResolution {
        self.source_tree_resolution
    }

    pub closed spec fn spec_source_ast_node_id(self) -> UiAstNodeId {
        self.source_ast_node_id
    }

    pub closed spec fn spec_source_ast_node_kind(self) -> UiAstNodeKind {
        self.source_ast_node_kind
    }

    pub closed spec fn spec_ir_node_id(self) -> UiIrNodeId {
        self.ir_node_id
    }

    pub closed spec fn spec_ir_node_kind(self) -> UiIrNodeKind {
        self.ir_node_kind
    }

    pub closed spec fn spec_parent_tree_node_id(self) -> Option<UiNodeId> {
        self.parent_tree_node_id
    }

    pub closed spec fn spec_child_tree_node_ids(self) -> Seq<UiNodeId> {
        self.child_tree_node_ids@
    }

    pub closed spec fn spec_parent_ast_node_id(self) -> Option<UiAstNodeId> {
        self.parent_ast_node_id
    }

    pub closed spec fn spec_child_ast_node_ids(self) -> Seq<UiAstNodeId> {
        self.child_ast_node_ids@
    }

    pub closed spec fn spec_parent_ir_node_id(self) -> Option<UiIrNodeId> {
        self.parent_ir_node_id
    }

    pub closed spec fn spec_child_ir_node_ids(self) -> Seq<UiIrNodeId> {
        self.child_ir_node_ids@
    }

    pub closed spec fn spec_kind(self) -> UiAstSlotIrIntentKind {
        self.kind
    }

    pub closed spec fn spec_state(self) -> UiAstSlotIrIntentState {
        self.state
    }

    pub fn id(&self) -> (r: UiAstSlotIrIntentEntryId)
        ensures
            r == self.spec_id(),
    {
        self.id
    }

    pub fn source_ast_intent_entry_id(&self) -> (r: UiTreeSlotAstIntentEntryId)
        ensures
            r == self.spec_source_ast_intent_entry_id(),
    {
        self.source_ast_intent_entry_id
    }

    pub fn source_tree_intent_entry_id(&self) -> (r: UiTreeSlotCarrierIntentEntryId)
        ensures
            r == self.spec_source_tree_intent_entry_id(),
    {
        self.source_tree_intent_entry_id
    }

    pub fn source_tree_id(&self) -> (r: UiTreeId)
        ensures
            r == self.spec_source_tree_id(),
    {
        self.source_tree_id
    }

    pub fn source_tree_node_id(&self) -> (r: UiNodeId)
        ensures
            r == self.spec_source_tree_node_id(),
    {
        self.source_tree_node_id
    }

    pub fn source_tree_node_kind(&self) -> (r: UiNodeKind)
        ensures
            r == self.spec_source_tree_node_kind(),
    {
        self.source_tree_node_kind
    }

    pub fn source_tree_resolution(&self) -> (r: UiNodeResolution)
        ensures
            r == self.spec_source_tree_resolution(),
    {
        self.source_tree_resolution
    }

    pub fn source_ast_node_id(&self) -> (r: UiAstNodeId)
        ensures
            r == self.spec_source_ast_node_id(),
    {
        self.source_ast_node_id
    }

    pub fn source_ast_node_kind(&self) -> (r: UiAstNodeKind)
        ensures
            r == self.spec_source_ast_node_kind(),
    {
        self.source_ast_node_kind
    }

    pub fn ir_node_id(&self) -> (r: UiIrNodeId)
        ensures
            r == self.spec_ir_node_id(),
    {
        self.ir_node_id
    }

    pub fn ir_node_kind(&self) -> (r: UiIrNodeKind)
        ensures
            r == self.spec_ir_node_kind(),
    {
        self.ir_node_kind
    }

    pub fn parent_tree_node_id(&self) -> (r: Option<UiNodeId>)
        ensures
            r == self.spec_parent_tree_node_id(),
    {
        self.parent_tree_node_id
    }

    pub fn child_tree_node_ids(&self) -> (r: &[UiNodeId])
        ensures
            r@ == self.spec_child_tree_node_ids(),
    {
        self.child_tree_node_ids.as_slice()
    }

    pub fn parent_ast_node_id(&self) -> (r: Option<UiAstNodeId>)
        ensures
            r == self.spec_parent_ast_node_id(),
    {
        self.parent_ast_node_id
    }

    pub fn child_ast_node_ids(&self) -> (r: &[UiAstNodeId])
        ensures
            r@ == self.spec_child_ast_node_ids(),
    {
        self.child_ast_node_ids.as_slice()
    }

    pub fn parent_ir_node_id(&self) -> (r: Option<UiIrNodeId>)
        ensures
            r == self.spec_parent_ir_node_id(),
    {
        self.parent_ir_node_id
    }

    pub fn child_ir_node_ids(&self) -> (r: &[UiIrNodeId])
        ensures
            r@ == self.spec_child_ir_node_ids(),
    {
        self.child_ir_node_ids.as_slice()
    }

    pub fn kind(&self) -> (r: UiAstSlotIrIntentKind)
        ensures
            r == self.spec_kind(),
    {
        self.kind
    }

    pub fn state(&self) -> (r: UiAstSlotIrIntentState)
        ensures
            r == self.spec_state(),
    {
        self.state
    }
}

/// Syntax slots linked to IR fragments, in order.
#[derive(Debug, Clone, PartialEq, Eq)]
pub struct UiAstSlotIrIntentModel {
    id: UiAstSlotIrIntentModelId,
    entries: Vec<UiAstSlotIrIntentEntry>,
}

impl UiAstSlotIrIntentModel {
    pub closed spec fn spec_id(self) -> UiAstSlotIrIntentModelId {
        self.id
    }

    pub closed spec fn spec_entries(self) -> Seq<UiAstSlotIrIntentEntry> {
        self.entries@
    }

    pub fn new(id: UiAstSlotIrIntentModelId) -> (r: Self)
        ensures
            r.spec_id() == id,
            r.spec_entries() == Seq::<UiAstSlotIrIntentEntry>::empty(),
    {
        Self { id, entries: Vec::new() }
    }

    pub fn id(&self) -> (r: UiAstSlotIrIntentModelId)
        ensures
            r == self.spec_id(),
    {
        self.id
    }

    pub fn entries(&self) -> (r: &[UiAstSlotIrIntentEntry])
        ensures
            r@ == self.spec_entries(),
    {
        self.entries.as_slice()
    }

    pub fn push_entry(&mut self, entry: UiAstSlotIrIntentEntry)
        ensures
            final(self).spec_id() == old(self).spec_id(),
            final(self).spec_entries() == old(self).spec_entries().push(entry),
    {
        self.entries.push(entry);
    }
}

/// Why a syntax slot could not be linked to an IR fragment.
#[derive(Debug, Clone, Copy, PartialEq, Eq, Structural)]
pub enum UiAstSlotIrIntentDiagnosticKind {
    /// No IR node has the slot's raw identity.
    MissingIrNode { source_ast_node_id: UiAstNodeId },
    /// The IR node with the slot's raw identity is not a fragment.
    UnexpectedIrNodeKind { source_ast_node_id: UiAstNodeId, ir_node_id: UiIrNodeId, actual_kind: UiIrNodeKind },
}

/// A diagnostic: why a slot was not linked, and a message for people.
#[derive(Debug, Clone, PartialEq, Eq)]
pub struct UiAstSlotIrIntentDiagnostic {
    kind: UiAstSlotIrIntentDiagnosticKind,
    message: String,
}

impl UiAstSlotIrIntentDiagnostic {
    pub closed spec fn spec_kind(self) -> UiAstSlotIrIntentDiagnosticKind {
        self.kind
    }

    pub closed spec fn spec_message(self) -> Seq<char> {
        self.message@
    }

    pub fn new(kind: UiAstSlotIrIntentDiagnosticKind, message: String) -> (r: Self)
        ensures
            r.spec_kind() == kind,
            r.spec_message() == message@,
    {
        Self { kind, message }
    }

    pub fn kind(&self) -> (r: &UiAstSlotIrIntentDiagnosticKind)
        ensures
            *r == self.spec_kind(),
    {
        &self.kind
    }

    pub fn message(&self) -> (r: &str)
        ensures
            r@ == self.spec_message(),
    {
        self.message.as_str()
    }
}

/// The diagnostics of a failed linking, in the order of the slots.
#[derive(Debug, Clone, PartialEq, Eq)]
pub struct UiAstSlotIrIntentDiagnostics {
    diagnostics: Vec<UiAstSlotIrIntentDiagnostic>,
}

impl UiAstSlotIrIntentDiagnostics {
    pub closed spec fn spec_diagnostics(self) -> Seq<UiAstSlotIrIntentDiagnostic> {
        self.diagnostics@
    }

    pub fn new() -> (r: Self)
        ensures
            r.spec_diagnostics() == Seq::<UiAstSlotIrIntentDiagnostic>::empty(),
    {
        Self { diagnostics: Vec::new() }
    }

    pub fn push(&mut self, diagnostic: UiAstSlotIrIntentDiagnostic)
        ensures
            final(self).spec_diagnostics() == old(self).spec_diagnostics().push(diagnostic),
    {
        self.diagnostics.push(diagnostic);
    }

    pub fn len(&self) -> (r: usize)
        ensures
            r == self.spec_diagnostics().len(),
    {
        self.diagnostics.len()
    }

    pub fn is_empty(&self) -> (r: bool)
        ensures
            r == (self.spec_diagnostics().len() == 0),
    {
        self.diagnostics.len() == 0
    }

    pub fn diagnostics(&self) -> (r: &[UiAstSlotIrIntentDiagnostic])
        ensures
            r@ == self.spec_diagnostics(),
    {
        self.diagnostics.as_slice()
    }
}

impl Default for UiAstSlotIrIntentDiagnostics {
    fn default() -> (r: Self)
        ensures
            r.spec_diagnostics() == Seq::<UiAstSlotIrIntentDiagnostic>::empty(),
    {
        Self::new()
    }
}

/// Linked slots, or the diagnostics of every slot that could not be linked.
pub type UiAstSlotIrIntentResult = Result<UiAstSlotIrIntentModel, UiAstSlotIrIntentDiagnostics>;

/// `k` is the first position of an IR node with raw identity `raw`.
pub open spec fn is_first_ir_match(nodes: Seq<UiIrNode>, raw: u64, k: int) -> bool {
    &&& 0 <= k < nodes.len()
    &&& nodes[k].spec_id().spec_raw() == raw
    &&& forall|j: int| 0 <= j < k ==> #[trigger] nodes[j].spec_id().spec_raw() != raw
}

/// Some IR node has raw identity `raw`.
pub open spec fn ir_has_node(nodes: Seq<UiIrNode>, raw: u64) -> bool {
    exists|k: int| 0 <= k < nodes.len() && #[trigger] nodes[k].spec_id().spec_raw() == raw
}

/// The first IR node with raw identity `raw`.
pub open spec fn first_ir_node(nodes: Seq<UiIrNode>, raw: u64) -> UiIrNode {
    nodes[choose|k: int| is_first_ir_match(nodes, raw, k)]
}

/// Why slot `a` cannot be linked, if it cannot: no IR node with its raw
/// identity, or the first such node is not a fragment.
pub open spec fn ast_slot_diagnostic(a: UiTreeSlotAstIntentEntry, nodes: Seq<UiIrNode>) -> Option<UiAstSlotIrIntentDiagnosticKind> {
    let raw = a.spec_ast_node_id().spec_raw();
    if !ir_has_node(nodes, raw) {
        Some(UiAstSlotIrIntentDiagnosticKind::MissingIrNode { source_ast_node_id: a.spec_ast_node_id() })
    } else if first_ir_node(nodes, raw).spec_kind() != UiIrNodeKind::Fragment {
        Some(
            UiAstSlotIrIntentDiagnosticKind::UnexpectedIrNodeKind {
                source_ast_node_id: a.spec_ast_node_id(),
                ir_node_id: first_ir_node(nodes, raw).spec_id(),
                actual_kind: first_ir_node(nodes, raw).spec_kind(),
            },
        )
    } else {
        None
    }
}

/// The message that goes with a diagnostic.
pub open spec fn ast_slot_diagnostic_message(k: UiAstSlotIrIntentDiagnosticKind) -> Seq<char> {
    match k {
        UiAstSlotIrIntentDiagnosticKind::MissingIrNode { .. } => "IR node matching AST node not found"@,
        UiAstSlotIrIntentDiagnosticKind::UnexpectedIrNodeKind { .. } => "IR node kind is not Fragment"@,
    }
}

/// The diagnostics of a sequence of slots: one per slot that cannot be
/// linked, in order.
pub open spec fn ast_slot_diagnostics(asts: Seq<UiTreeSlotAstIntentEntry>, nodes: Seq<UiIrNode>) -> Seq<UiAstSlotIrIntentDiagnosticKind>
    decreases asts.len(),
{
    if asts.len() == 0 {
        Seq::empty()
    } else {
        let before = ast_slot_diagnostics(asts.drop_last(), nodes);
        match ast_slot_diagnostic(asts.last(), nodes) {
            Some(d) => before.push(d),
            None => before,
        }
    }
}

/// The IR identity with the same raw value as a syntax identity.
pub open spec fn ir_id_mirrors(i: UiIrNodeId, a: UiAstNodeId) -> bool {
    i.spec_raw() == a.spec_raw()
}

/// The link of slot `a` to IR node `n`: the slot's lineage and neighbourhood,
/// the IR node, and the slot's neighbours carried over to IR identities.
pub open spec fn ast_slot_ir_entry_from(e: UiAstSlotIrIntentEntry, a: UiTreeSlotAstIntentEntry, n: UiIrNode) -> bool {
    &&& e.spec_id().spec_raw() == a.spec_ast_node_id().spec_raw()
    &&& e.spec_source_ast_intent_entry_id() == a.spec_id()
    &&& e.spec_source_tree_intent_entry_id() == a.spec_source_tree_intent_entry_id()
    &&& e.spec_source_tree_id() == a.spec_source_tree_id()
    &&& e.spec_source_tree_node_id() == a.spec_source_tree_node_id()
    &&& e.spec_source_tree_node_kind() == a.spec_source_tree_node_kind()
    &&& e.spec_source_tree_resolution() == a.spec_source_tree_resolution()
    &&& e.spec_source_ast_node_id() == a.spec_ast_node_id()
    &&& e.spec_source_ast_node_kind() == a.spec_ast_node_kind()
    &&& e.spec_ir_node_id() == n.spec_id()
    &&& e.spec_ir_node_kind() == n.spec_kind()
    &&& e.spec_parent_tree_node_id() == a.spec_parent_tree_node_id()
    &&& e.spec_child_tree_node_ids() == a.spec_child_tree_node_ids()
    &&& e.spec_parent_ast_node_id() == a.spec_parent_ast_node_id()
    &&& e.spec_child_ast_node_ids() == a.spec_child_ast_node_ids()
    &&& (match a.spec_parent_ast_node_id() {
        Some(p) => e.spec_parent_ir_node_id() is Some && ir_id_mirrors(e.spec_parent_ir_node_id()->0, p),
        None => e.spec_parent_ir_node_id() is None,
    })
    &&& e.spec_child_ir_node_ids().len() == a.spec_child_ast_node_ids().len()
    &&& forall|i: int|
        #![trigger e.spec_child_ir_node_ids()[i]]
        0 <= i < e.spec_child_ir_node_ids().len() ==> ir_id_mirrors(e.spec_child_ir_node_ids()[i], a.spec_child_ast_node_ids()[i])
    &&& e.spec_kind() == UiAstSlotIrIntentKind::IrFragmentLinkedToAstSlotIntent
    &&& e.spec_state() == UiAstSlotIrIntentState::Deferred
}

/// The first match is the one that `first_ir_node` reads.
proof fn lemma_first_ir_match_chosen(nodes: Seq<UiIrNode>, raw: u64, k: int)
    requires
        is_first_ir_match(nodes, raw, k),
    ensures
        first_ir_node(nodes, raw) == nodes[k],
{
    let c = choose|c: int| is_first_ir_match(nodes, raw, c);
    assert(is_first_ir_match(nodes, raw, c));
    if c < k {
        assert(nodes[c].spec_id().spec_raw() != raw);
    }
    if k < c {
        assert(nodes[k].spec_id().spec_raw() != raw);
    }
}

/// A prefix of the slots has no diagnostics exactly when every slot in it
/// can be linked.
proof fn lemma_no_diagnostics_iff_all_link(asts: Seq<UiTreeSlotAstIntentEntry>, nodes: Seq<UiIrNode>)
    ensures
        (ast_slot_diagnostics(asts, nodes).len() == 0) == (forall|j: int|
            0 <= j < asts.len() ==> #[trigger] ast_slot_diagnostic(asts[j], nodes) is None),
    decreases asts.len(),
{
    if asts.len() > 0 {
        lemma_no_diagnostics_iff_all_link(asts.drop_last(), nodes);
        if ast_slot_diagnostics(asts, nodes).len() == 0 {
            assert forall|j: int| 0 <= j < asts.len() implies #[trigger] ast_slot_diagnostic(asts[j], nodes) is None by {
                if j < asts.len() - 1 {
                    assert(asts.drop_last()[j] == asts[j]);
                }
            }
        } else {
            if ast_slot_diagnostic(asts.last(), nodes) is None {
                let j = choose|j: int| 0 <= j < asts.drop_last().len() && !(#[trigger] ast_slot_diagnostic(asts.drop_last()[j], nodes) is None);
                assert(asts.drop_last()[j] == asts[j]);
            }
        }
    }
}

/// Copies syntax identities to IR identities with the same raw values.
fn ir_ids_from_ast_ids(ids: &[UiAstNodeId]) -> (r: Vec<UiIrNodeId>)
    ensures
        r@.len() == ids@.len(),
        forall|i: int| #![trigger r@[i]] 0 <= i < r@.len() ==> ir_id_mirrors(r@[i], ids@[i]),
{
    let mut out: Vec<UiIrNodeId> = Vec::with_capacity(ids.len());
    let mut i: usize = 0;
    while i < ids.len()
        invariant
            i <= ids@.len(),
            out@.len() == i,
            forall|j: int| #![trigger out@[j]] 0 <= j < i ==> ir_id_mirrors(out@[j], ids@[j]),
        decreases ids@.len() - i,
    {
        out.push(UiIrNodeId::new(ids[i].raw()));
        i += 1;
    }
    out
}

/// Links every syntax slot to the IR node with the same raw identity, which
/// must be a fragment. Succeeds when every slot links, with one entry per
/// slot in order; fails otherwise with one diagnostic per slot that does not.
pub fn build_ast_slot_ir_intents(ast_intents: &UiTreeSlotAstIntentModel, ir: &UiIr) -> (r: UiAstSlotIrIntentResult)
    ensures
        r is Ok <==> (forall|j: int|
            0 <= j < ast_intents.spec_entries().len() ==> #[trigger] ast_slot_diagnostic(ast_intents.spec_entries()[j], ir.spec_nodes()) is None),
        r matches Ok(model) ==> {
            &&& model.spec_id().spec_raw() == 1
            &&& model.spec_entries().len() == ast_intents.spec_entries().len()
            &&& forall|j: int|
                #![trigger model.spec_entries()[j]]
                0 <= j < model.spec_entries().len() ==> ast_slot_ir_entry_from(
                    model.spec_entries()[j],
                    ast_intents.spec_entries()[j],
                    first_ir_node(ir.spec_nodes(), ast_intents.spec_entries()[j].spec_ast_node_id().spec_raw()),
                )
        },
        r matches Err(diagnostics) ==> {
            let expected = ast_slot_diagnostics(ast_intents.spec_entries(), ir.spec_nodes());
            &&& diagnostics.spec_diagnostics().len() == expected.len()
            &&& forall|j: int|
                #![trigger diagnostics.spec_diagnostics()[j]]
                0 <= j < expected.len() ==> diagnostics.spec_diagnostics()[j].spec_kind() == expected[j]
                    && diagnostics.spec_diagnostics()[j].spec_message() == ast_slot_diagnostic_message(expected[j])
        },
{
    broadcast use vstd::string::to_string_from_display_ensures_for_str;

    let mut model = UiAstSlotIrIntentModel::new(UiAstSlotIrIntentModelId::new(1));
    let mut diagnostics = UiAstSlotIrIntentDiagnostics::new();
    let asts = ast_intents.entries();
    let ir_nodes = ir.nodes();
    let mut i: usize = 0;
    while i < asts.len()
        invariant
            asts@ == ast_intents.spec_entries(),
            ir_nodes@ == ir.spec_nodes(),
            i <= asts@.len(),
            model.spec_id().spec_raw() == 1,
            diagnostics.spec_diagnostics().len() == ast_slot_diagnostics(asts@.take(i as int), ir_nodes@).len(),
            forall|j: int|
                #![trigger diagnostics.spec_diagnostics()[j]]
                0 <= j < diagnostics.spec_diagnostics().len() ==> diagnostics.spec_diagnostics()[j].spec_kind()
                    == ast_slot_diagnostics(asts@.take(i as int), ir_nodes@)[j]
                    && diagnostics.spec_diagnostics()[j].spec_message() == ast_slot_diagnostic_message(
                    ast_slot_diagnostics(asts@.take(i as int), ir_nodes@)[j],
                ),
            diagnostics.spec_diagnostics().len() == 0 ==> model.spec_entries().len() == i,
            diagnostics.spec_diagnostics().len() == 0 ==> forall|j: int|
                #![trigger model.spec_entries()[j]]
                0 <= j < i ==> ast_slot_ir_entry_from(
                    model.spec_entries()[j],
                    asts@[j],
                    first_ir_node(ir_nodes@, asts@[j].spec_ast_node_id().spec_raw()),
                ),
        decreases asts@.len() - i,
    {
        let ast_entry = &asts[i];
        let raw_id = ast_entry.ast_node_id().raw();
        let target_ir_node_id = UiIrNodeId::new(raw_id);
        let ghost before = asts@.take(i as int);
        let ghost after = asts@.take(i + 1);
        assert(after.drop_last() =~= before);
        assert(after.last() == asts@[i as int]);

        let mut k: usize = 0;
        let mut found = false;
        while k < ir_nodes.len()
            invariant
                ir_nodes@ == ir.spec_nodes(),
                k <= ir_nodes@.len(),
                target_ir_node_id.spec_raw() == raw_id,
                !found ==> forall|j: int| 0 <= j < k ==> #[trigger] ir_nodes@[j].spec_id().spec_raw() != raw_id,
                found ==> is_first_ir_match(ir_nodes@, raw_id, k as int),
            ensures
                !found ==> forall|j: int| 0 <= j < ir_nodes@.len() ==> #[trigger] ir_nodes@[j].spec_id().spec_raw() != raw_id,
                found ==> is_first_ir_match(ir_nodes@, raw_id, k as int),
            decreases ir_nodes@.len() - k,
        {
            let matches = ir_nodes[k].id() == target_ir_node_id;
            proof {
                UiIrNodeId::lemma_eq_iff_raw(ir_nodes@[k as int].spec_id(), target_ir_node_id);
            }
            if matches {
                found = true;
                break;
            }
            k += 1;
        }

        if found {
            proof {
                lemma_first_ir_match_chosen(ir_nodes@, raw_id, k as int);
            }
            let ir_node = &ir_nodes[k];
            if ir_node.kind() == UiIrNodeKind::Fragment {
                let parent_ir_node_id = match ast_entry.parent_ast_node_id() {
                    Some(id) => Some(UiIrNodeId::new(id.raw())),
                    None => None,
                };
                let child_ir_node_ids = ir_ids_from_ast_ids(ast_entry.child_ast_node_ids());
                let entry = UiAstSlotIrIntentEntry {
                    id: UiAstSlotIrIntentEntryId::new(raw_id),
                    source_ast_intent_entry_id: ast_entry.id(),
                    source_tree_intent_entry_id: ast_entry.source_tree_intent_entry_id(),
                    source_tree_id: ast_entry.source_tree_id(),
                    source_tree_node_id: ast_entry.source_tree_node_id(),
                    source_tree_node_kind: ast_entry.source_tree_node_kind(),
                    source_tree_resolution: ast_entry.source_tree_resolution(),
                    source_ast_node_id: ast_entry.ast_node_id(),
                    source_ast_node_kind: ast_entry.ast_node_kind(),
                    ir_node_id: ir_node.id(),
                    ir_node_kind: ir_node.kind(),
                    parent_tree_node_id: ast_entry.parent_tree_node_id(),
                    child_tree_node_ids: vstd::slice::slice_to_vec(ast_entry.child_tree_node_ids()),
                    parent_ast_node_id: ast_entry.parent_ast_node_id(),
                    child_ast_node_ids: vstd::slice::slice_to_vec(ast_entry.child_ast_node_ids()),
                    parent_ir_node_id,
                    child_ir_node_ids,
                    kind: UiAstSlotIrIntentKind::IrFragmentLinkedToAstSlotIntent,
                    state: UiAstSlotIrIntentState::Deferred,
                };
                model.push_entry(entry);
            } else {
                diagnostics.push(
                    UiAstSlotIrIntentDiagnostic::new(
                        UiAstSlotIrIntentDiagnosticKind::UnexpectedIrNodeKind {
                            source_ast_node_id: ast_entry.ast_node_id(),
                            ir_node_id: ir_node.id(),
                            actual_kind: ir_node.kind(),
                        },
                        "IR node kind is not Fragment".to_string(),
                    ),
                );
            }
        } else {
            diagnostics.push(
                UiAstSlotIrIntentDiagnostic::new(
                    UiAstSlotIrIntentDiagnosticKind::MissingIrNode { source_ast_node_id: ast_entry.ast_node_id() },
                    "IR node matching AST node not found".to_string(),
                ),
            );
        }
        i += 1;
    }
    proof {
        assert(asts@.take(asts@.len() as int) =~= asts@);
        lemma_no_diagnostics_iff_all_link(asts@, ir_nodes@);
    }
    if diagnostics.len() > 0 {
        Err(diagnostics)
    } else {
        Ok(model)
    }
}

/// Where some IR node has a raw identity, a first one has.
proof fn lemma_first_ir_match_exists(nodes: Seq<UiIrNode>, raw: u64, k: int)
    requires
        0 <= k < nodes.len(),
        nodes[k].spec_id().spec_raw() == raw,
    ensures
        exists|m: int| is_first_ir_match(nodes, raw, m),
    decreases k,
{
    if exists|j: int| 0 <= j < k && #[trigger] nodes[j].spec_id().spec_raw() == raw {
        let j = choose|j: int| 0 <= j < k && #[trigger] nodes[j].spec_id().spec_raw() == raw;
        lemma_first_ir_match_exists(nodes, raw, j);
    } else {
        assert(is_first_ir_match(nodes, raw, k));
    }
}

/// A slot that links is linked to an IR fragment of the representation that
/// has the slot's raw identity.
pub proof fn lemma_linked_slot_targets_fragment(a: UiTreeSlotAstIntentEntry, nodes: Seq<UiIrNode>)
    requires
        ast_slot_diagnostic(a, nodes) is None,
    ensures
        first_ir_node(nodes, a.spec_ast_node_id().spec_raw()).spec_kind() == UiIrNodeKind::Fragment,
        first_ir_node(nodes, a.spec_ast_node_id().spec_raw()).spec_id().spec_raw() == a.spec_ast_node_id().spec_raw(),
        nodes.contains(first_ir_node(nodes, a.spec_ast_node_id().spec_raw())),
{
    let raw = a.spec_ast_node_id().spec_raw();
    let k = choose|k: int| 0 <= k < nodes.len() && #[trigger] nodes[k].spec_id().spec_raw() == raw;
    lemma_first_ir_match_exists(nodes, raw, k);
    let c = choose|c: int| is_first_ir_match(nodes, raw, c);
    assert(is_first_ir_match(nodes, raw, c));
    assert(nodes[c] == first_ir_node(nodes, raw));
}

} // verus!
