//! Qualification of explicit collection-anchor declarations.
//!
//! A pure, in-memory path: each authored declaration of a projection source
//! document is lowered to a static node and checked against a static
//! document of the same version. Nothing here activates, applies, or renders.
use vstd::prelude::*;
use crate::action_ir::document_has_node;
use crate::contract_primitives::{
    compare_coordinates, compare_source_refs, coordinate_order, int_order, lemma_code_bytes_encode_text, lemma_code_key_injective,
    lemma_coordinate_order, lemma_lex_order_antisymmetric, lemma_lex_order_transitive, lemma_source_ref_key_injective,
    lemma_projection_source_node_id_raw_injective, lemma_static_node_id_for_raw, lemma_static_node_id_raw_injective, lex_order, source_ref_key, DiagnosticCode, DiagnosticCoordinate, Epoch, ProjectionSourceNodeId,
    Revision, SourceRef, StaticDocumentId, StaticNodeId,
};
use crate::projection_compile::{lower_projection_source_node_id, lowers_to};
use crate::projection_source::{CollectionAnchorDeclaration, ProjectionSourceDocument, ProjectionSourceNode};
use crate::static_ir::StaticUiDocument;
use crate::binding_graph_observation::{lemma_insert_to_set, lemma_push_contains, lemma_take_one_more_to_set};

verus! {

/// The anchors strictly increase by raw identity.
pub open spec fn anchors_increasing(anchors: Seq<StaticNodeId>) -> bool {
    forall|a: int, b: int| 0 <= a < b < anchors.len() ==> (#[trigger] anchors[a]).spec_raw() < (#[trigger] anchors[b]).spec_raw()
}

/// The qualified collection anchors of one static document version, in
/// increasing order.
#[derive(Debug, Clone, PartialEq, Eq)]
pub struct QualifiedCollectionAnchorDeclarations {
    document_id: StaticDocumentId,
    revision: Revision,
    epoch: Epoch,
    anchors: Vec<StaticNodeId>,
}

impl QualifiedCollectionAnchorDeclarations {
    pub closed spec fn spec_document_id(&self) -> StaticDocumentId {
        self.document_id
    }

    pub closed spec fn spec_revision(&self) -> Revision {
        self.revision
    }

    pub closed spec fn spec_epoch(&self) -> Epoch {
        self.epoch
    }

    pub closed spec fn spec_anchors(&self) -> Seq<StaticNodeId> {
        self.anchors@
    }

    /// Rebuilds qualified anchors that were already checked elsewhere: they
    /// must strictly increase.
    pub fn from_verified_bundle_evidence(
        document_id: StaticDocumentId,
        revision: Revision,
        epoch: Epoch,
        anchors: Vec<StaticNodeId>,
    ) -> (r: Self)
        requires
            anchors_increasing(anchors@),
        ensures
            r.spec_document_id() == document_id,
            r.spec_revision() == revision,
            r.spec_epoch() == epoch,
            r.spec_anchors() == anchors@,
    {
        Self { document_id, revision, epoch, anchors }
    }

    pub fn document_id(&self) -> (r: StaticDocumentId)
        ensures
            r == self.spec_document_id(),
    {
        self.document_id
    }

    pub fn revision(&self) -> (r: Revision)
        ensures
            r == self.spec_revision(),
    {
        self.revision
    }

    pub fn epoch(&self) -> (r: Epoch)
        ensures
            r == self.spec_epoch(),
    {
        self.epoch
    }

    pub fn anchors(&self) -> (r: &[StaticNodeId])
        ensures
            r@ == self.spec_anchors(),
    {
        self.anchors.as_slice()
    }

    pub fn len(&self) -> (r: usize)
        ensures
            r == self.spec_anchors().len(),
    {
        self.anchors.len()
    }

    pub fn is_empty(&self) -> (r: bool)
        ensures
            r == (self.spec_anchors().len() == 0),
    {
        self.anchors.len() == 0
    }
}

/// What is wrong with a collection-anchor declaration.
#[derive(Debug, Clone, Copy, PartialEq, Eq, PartialOrd, Ord, Hash, Structural)]
pub enum CollectionAnchorDeclarationDiagnosticKind {
    MissingTargetNode,
    DuplicateDeclaration,
    MissingStaticNode,
    DocumentVersionMismatch,
}

/// The code of each diagnostic kind.
pub open spec fn anchor_code_text(kind: CollectionAnchorDeclarationDiagnosticKind) -> Seq<char> {
    match kind {
        CollectionAnchorDeclarationDiagnosticKind::MissingTargetNode => "CAD_MISSING_TARGET_NODE"@,
        CollectionAnchorDeclarationDiagnosticKind::DuplicateDeclaration => "CAD_DUPLICATE_DECLARATION"@,
        CollectionAnchorDeclarationDiagnosticKind::MissingStaticNode => "CAD_MISSING_STATIC_NODE"@,
        CollectionAnchorDeclarationDiagnosticKind::DocumentVersionMismatch => "CAD_DOCUMENT_VERSION_MISMATCH"@,
    }
}

/// The position of a diagnostic kind.
pub open spec fn anchor_kind_rank(kind: CollectionAnchorDeclarationDiagnosticKind) -> int {
    match kind {
        CollectionAnchorDeclarationDiagnosticKind::MissingTargetNode => 0,
        CollectionAnchorDeclarationDiagnosticKind::DuplicateDeclaration => 1,
        CollectionAnchorDeclarationDiagnosticKind::MissingStaticNode => 2,
        CollectionAnchorDeclarationDiagnosticKind::DocumentVersionMismatch => 3,
    }
}

impl CollectionAnchorDeclarationDiagnosticKind {
    pub fn code(self) -> (r: DiagnosticCode)
        ensures
            r.spec_text() == anchor_code_text(self),
    {
        match self {
            Self::MissingTargetNode => DiagnosticCode::new("CAD_MISSING_TARGET_NODE"),
            Self::DuplicateDeclaration => DiagnosticCode::new("CAD_DUPLICATE_DECLARATION"),
            Self::MissingStaticNode => DiagnosticCode::new("CAD_MISSING_STATIC_NODE"),
            Self::DocumentVersionMismatch => DiagnosticCode::new("CAD_DOCUMENT_VERSION_MISMATCH"),
        }
    }

    fn rank(self) -> (r: u8)
        ensures
            r == anchor_kind_rank(self),
    {
        match self {
            Self::MissingTargetNode => 0,
            Self::DuplicateDeclaration => 1,
            Self::MissingStaticNode => 2,
            Self::DocumentVersionMismatch => 3,
        }
    }
}

/// A diagnostic of a collection-anchor declaration: where it is and what it
/// is.
#[derive(Debug, Clone, Copy, PartialEq, Eq)]
pub struct CollectionAnchorDeclarationDiagnostic {
    pub coordinate: DiagnosticCoordinate,
    pub kind: CollectionAnchorDeclarationDiagnosticKind,
}

/// What a diagnostic says: its source, kind, and two ids.
pub type AnchorDiagnosticContent = (Option<SourceRef>, CollectionAnchorDeclarationDiagnosticKind, u64, u64);

/// What `d` says: its source, its kind, and its two ids.
pub open spec fn anchor_content(d: CollectionAnchorDeclarationDiagnostic) -> AnchorDiagnosticContent {
    (d.coordinate.spec_source(), d.kind, d.coordinate.spec_domain(), d.coordinate.spec_secondary())
}

/// The code of `d` is that of its kind.
pub open spec fn anchor_code_ok(d: CollectionAnchorDeclarationDiagnostic) -> bool {
    d.coordinate.spec_code().spec_bytes() == vstd::utf8::encode_utf8(anchor_code_text(d.kind))
}

/// `d` says `e`, with the code of its kind.
pub open spec fn anchor_says(d: CollectionAnchorDeclarationDiagnostic, e: AnchorDiagnosticContent) -> bool {
    anchor_code_ok(d) && anchor_content(d) == e
}

impl CollectionAnchorDeclarationDiagnostic {
    fn new(source: Option<SourceRef>, kind: CollectionAnchorDeclarationDiagnosticKind, domain: u64, secondary: u64) -> (r: Self)
        ensures
            anchor_says(r, (source, kind, domain, secondary)),
    {
        let code = kind.code();
        proof {
            lemma_code_bytes_encode_text(code);
        }
        Self { coordinate: DiagnosticCoordinate::new(source, code, domain, secondary), kind }
    }

    pub fn kind(self) -> (r: CollectionAnchorDeclarationDiagnosticKind)
        ensures
            r == self.kind,
    {
        self.kind
    }

    pub fn coordinate(self) -> (r: DiagnosticCoordinate)
        ensures
            r == self.coordinate,
    {
        self.coordinate
    }
}

/// The order of diagnostics: by coordinate, then kind.
pub open spec fn anchor_order(a: CollectionAnchorDeclarationDiagnostic, b: CollectionAnchorDeclarationDiagnostic) -> int {
    let c = coordinate_order(a.coordinate, b.coordinate);
    if c != 0 {
        c
    } else {
        int_order(anchor_kind_rank(a.kind), anchor_kind_rank(b.kind))
    }
}

/// The order of diagnostics is antisymmetric and transitive.
proof fn lemma_anchor_order(
    a: CollectionAnchorDeclarationDiagnostic,
    b: CollectionAnchorDeclarationDiagnostic,
    c: CollectionAnchorDeclarationDiagnostic,
)
    ensures
        anchor_order(a, b) == -anchor_order(b, a),
        anchor_order(a, b) <= 0 && anchor_order(b, c) <= 0 ==> anchor_order(a, c) <= 0,
        anchor_order(a, b) < 0 && anchor_order(b, c) <= 0 ==> anchor_order(a, c) < 0,
{
    lemma_coordinate_order(a.coordinate, b.coordinate, c.coordinate);
    lemma_coordinate_order(b.coordinate, a.coordinate, c.coordinate);
    lemma_coordinate_order(a.coordinate, c.coordinate, b.coordinate);
    lemma_coordinate_order(b.coordinate, c.coordinate, a.coordinate);
    lemma_coordinate_order(c.coordinate, a.coordinate, b.coordinate);
}

/// Diagnostics in the same place say the same thing.
proof fn lemma_anchor_same_place(a: CollectionAnchorDeclarationDiagnostic, b: CollectionAnchorDeclarationDiagnostic, e: AnchorDiagnosticContent)
    requires
        anchor_order(a, b) == 0,
        anchor_says(b, e),
    ensures
        anchor_says(a, e),
{
    lemma_coordinate_order(a.coordinate, b.coordinate, b.coordinate);
    lemma_source_ref_key_injective(a.coordinate.spec_source(), b.coordinate.spec_source());
    lemma_code_key_injective(a.coordinate.spec_code(), b.coordinate.spec_code());
    assert(anchor_kind_rank(a.kind) == anchor_kind_rank(b.kind));
}

/// The diagnostics strictly increase.
pub open spec fn anchors_sorted(s: Seq<CollectionAnchorDeclarationDiagnostic>) -> bool {
    forall|a: int, b: int| 0 <= a < b < s.len() ==> anchor_order(s[a], s[b]) < 0
}

/// Inserting a diagnostic after those below it and before those above it
/// keeps diagnostics sorted.
proof fn lemma_insert_keeps_anchors_sorted(old: Seq<CollectionAnchorDeclarationDiagnostic>, q: int, d: CollectionAnchorDeclarationDiagnostic)
    requires
        anchors_sorted(old),
        0 <= q <= old.len(),
        forall|k: int| 0 <= k < q ==> anchor_order(#[trigger] old[k], d) < 0,
        q < old.len() ==> anchor_order(d, old[q]) < 0,
    ensures
        anchors_sorted(old.insert(q, d)),
{
    let n = old.insert(q, d);
    assert forall|a: int, b: int| 0 <= a < b < n.len() implies anchor_order(n[a], n[b]) < 0 by {
        if a == q && b > q {
            assert(n[b] == old[b - 1]);
            if b - 1 > q {
                assert(anchor_order(old[q], old[b - 1]) < 0);
                lemma_anchor_order(d, old[q], old[b - 1]);
            }
        } else if a < q && b == q {
            assert(n[a] == old[a]);
        } else if a < q && b > q {
            assert(n[a] == old[a]);
            assert(n[b] == old[b - 1]);
            lemma_anchor_order(old[a], d, old[b - 1]);
            if b - 1 > q {
                assert(anchor_order(old[q], old[b - 1]) < 0);
                lemma_anchor_order(d, old[q], old[b - 1]);
            }
        } else if a > q {
            assert(n[a] == old[a - 1]);
            assert(n[b] == old[b - 1]);
        } else {
            assert(n[a] == old[a]);
            assert(n[b] == old[b]);
        }
    }
}

/// Compares two diagnostics: by coordinate, then kind.
fn compare_anchor_diagnostics(a: CollectionAnchorDeclarationDiagnostic, b: CollectionAnchorDeclarationDiagnostic) -> (r: i8)
    ensures
        r == anchor_order(a, b),
{
    let c = compare_coordinates(a.coordinate, b.coordinate);
    if c != 0 {
        return c;
    }
    let (ka, kb) = (a.kind.rank(), b.kind.rank());
    if ka < kb {
        -1
    } else if ka == kb {
        0
    } else {
        1
    }
}

/// The diagnostics of a failed qualification, sorted with each once.
#[derive(Debug, Clone, PartialEq, Eq)]
pub struct CollectionAnchorDeclarationDiagnostics {
    diagnostics: Vec<CollectionAnchorDeclarationDiagnostic>,
}

impl CollectionAnchorDeclarationDiagnostics {
    pub closed spec fn spec_diagnostics(&self) -> Seq<CollectionAnchorDeclarationDiagnostic> {
        self.diagnostics@
    }

    pub fn diagnostics(&self) -> (r: &[CollectionAnchorDeclarationDiagnostic])
        ensures
            r@ == self.spec_diagnostics(),
    {
        self.diagnostics.as_slice()
    }

    pub fn is_empty(&self) -> (r: bool)
        ensures
            r == (self.spec_diagnostics().len() == 0),
    {
        self.diagnostics.len() == 0
    }
}

/// `ds` say exactly what meets `p`, in strictly increasing order.
pub open spec fn canonical_anchor_diagnostics(
    ds: Seq<CollectionAnchorDeclarationDiagnostic>,
    p: spec_fn(AnchorDiagnosticContent) -> bool,
) -> bool {
    &&& forall|a: int, b: int| 0 <= a < b < ds.len() ==> anchor_order(ds[a], ds[b]) < 0
    &&& forall|a: int| 0 <= a < ds.len() ==> anchor_code_ok(#[trigger] ds[a]) && p(anchor_content(ds[a]))
    &&& forall|e: AnchorDiagnosticContent| #[trigger] p(e) ==> exists|a: int| 0 <= a < ds.len() && anchor_content(#[trigger] ds[a]) == e
}

/// Every diagnostic of `out` is one of `raw`.
pub open spec fn drawn_from(out: Seq<CollectionAnchorDeclarationDiagnostic>, raw: Seq<CollectionAnchorDeclarationDiagnostic>) -> bool {
    forall|a: int| #![trigger out[a]] 0 <= a < out.len() ==> exists|j: int| 0 <= j < raw.len() && out[a] == #[trigger] raw[j]
}

/// Each of the first `n` diagnostics of `raw` has one in the same place in
/// `out`.
pub open spec fn covers(out: Seq<CollectionAnchorDeclarationDiagnostic>, raw: Seq<CollectionAnchorDeclarationDiagnostic>, n: int) -> bool {
    forall|j: int| #![trigger raw[j]] 0 <= j < n ==> exists|a: int| 0 <= a < out.len() && anchor_order(#[trigger] out[a], raw[j]) == 0
}

/// A diagnostic of `out` is one of `raw`.
proof fn lemma_drawn_from(out: Seq<CollectionAnchorDeclarationDiagnostic>, raw: Seq<CollectionAnchorDeclarationDiagnostic>, a: int)
    requires
        drawn_from(out, raw),
        0 <= a < out.len(),
    ensures
        exists|j: int| 0 <= j < raw.len() && out[a] == #[trigger] raw[j],
{
    let _ = out[a];
}

/// Sorts diagnostics and keeps one of each.
fn canonical_anchor_order(
    raw: &Vec<CollectionAnchorDeclarationDiagnostic>,
    Ghost(all): Ghost<Seq<AnchorDiagnosticContent>>,
    Ghost(p): Ghost<spec_fn(AnchorDiagnosticContent) -> bool>,
) -> (r: Vec<CollectionAnchorDeclarationDiagnostic>)
    requires
        raw@.len() == all.len(),
        forall|k: int| 0 <= k < raw@.len() ==> anchor_says(#[trigger] raw@[k], all[k]),
        forall|e: AnchorDiagnosticContent| all.contains(e) <==> #[trigger] p(e),
    ensures
        canonical_anchor_diagnostics(r@, p),
{
    let mut out: Vec<CollectionAnchorDeclarationDiagnostic> = Vec::new();
    let mut i: usize = 0;
    while i < raw.len()
        invariant
            i <= raw@.len(),
            anchors_sorted(out@),
            drawn_from(out@, raw@),
            covers(out@, raw@, i as int),
        decreases raw@.len() - i,
    {
        let d = raw[i];
        let mut q: usize = 0;
        while q < out.len() && compare_anchor_diagnostics(out[q], d) < 0
            invariant
                q <= out@.len(),
                forall|k: int| 0 <= k < q ==> anchor_order(#[trigger] out@[k], d) < 0,
            decreases out@.len() - q,
        {
            q += 1;
        }
        if q < out.len() && compare_anchor_diagnostics(out[q], d) == 0 {
            proof {
                assert forall|j: int| #![trigger raw@[j]] 0 <= j < i + 1 implies exists|a: int| 0 <= a < out@.len() && anchor_order(#[trigger] out@[a], raw@[j]) == 0 by {
                    if j == i {
                        assert(anchor_order(out@[q as int], raw@[j]) == 0);
                    }
                }
            }
        } else {
            let ghost old = out@;
            proof {
                if q < old.len() {
                    lemma_anchor_order(old[q as int], d, d);
                }
                lemma_insert_keeps_anchors_sorted(old, q as int, d);
            }
            out.insert(q, d);
            proof {
                let n = out@;
                assert forall|a: int| #![trigger n[a]] 0 <= a < n.len() implies exists|j: int| 0 <= j < raw@.len() && n[a] == #[trigger] raw@[j] by {
                    if a == q {
                        assert(n[a] == raw@[i as int]);
                    } else if a < q {
                        assert(n[a] == old[a]);
                    } else {
                        assert(n[a] == old[a - 1]);
                    }
                }
                assert forall|j: int| #![trigger raw@[j]] 0 <= j < i + 1 implies exists|a: int| 0 <= a < n.len() && anchor_order(#[trigger] n[a], raw@[j]) == 0 by {
                    if j == i {
                        lemma_anchor_order(d, d, d);
                        assert(anchor_order(n[q as int], raw@[j]) == 0);
                    } else {
                        let a = choose|a: int| 0 <= a < old.len() && anchor_order(#[trigger] old[a], raw@[j]) == 0;
                        if a < q {
                            assert(n[a] == old[a]);
                        } else {
                            assert(n[a + 1] == old[a]);
                        }
                    }
                }
            }
        }
        i += 1;
    }
    proof {
        assert forall|a: int| 0 <= a < out@.len() implies anchor_code_ok(#[trigger] out@[a]) && p(anchor_content(out@[a])) by {
            lemma_drawn_from(out@, raw@, a);
            let j = choose|j: int| 0 <= j < raw@.len() && out@[a] == #[trigger] raw@[j];
            assert(anchor_says(raw@[j], all[j]));
            assert(all.contains(all[j]));
        }
        assert forall|e: AnchorDiagnosticContent| #[trigger] p(e) implies exists|a: int| 0 <= a < out@.len() && anchor_content(#[trigger] out@[a]) == e by {
            assert(all.contains(e));
            let k = choose|k: int| 0 <= k < all.len() && all[k] == e;
            assert(anchor_says(raw@[k], e));
            let a = choose|a: int| 0 <= a < out@.len() && anchor_order(#[trigger] out@[a], raw@[k]) == 0;
            lemma_anchor_same_place(out@[a], raw@[k], e);
        }
    }
    out
}

/// Some source node has identity `t`.
pub open spec fn source_has_node(nodes: Seq<ProjectionSourceNode>, t: ProjectionSourceNodeId) -> bool {
    exists|i: int| 0 <= i < nodes.len() && #[trigger] nodes[i].id == t
}

/// The static node a source node lowers to.
pub open spec fn lowered_node(t: ProjectionSourceNodeId) -> StaticNodeId {
    choose|s: StaticNodeId| lowers_to(t, s)
}

/// The declarations whose target is a source node, in declaration order:
/// the static node each lowers to and where it was declared.
pub open spec fn lowered_entries(decls: Seq<CollectionAnchorDeclaration>, nodes: Seq<ProjectionSourceNode>) -> Seq<(StaticNodeId, SourceRef)>
    decreases decls.len(),
{
    if decls.len() == 0 {
        Seq::empty()
    } else {
        let rest = lowered_entries(decls.drop_last(), nodes);
        let d = decls.last();
        if source_has_node(nodes, d.target) {
            rest.push((lowered_node(d.target), d.source))
        } else {
            rest
        }
    }
}

/// The order of two declaration sources.
pub open spec fn source_order(a: SourceRef, b: SourceRef) -> int {
    lex_order(source_ref_key(Some(a)), source_ref_key(Some(b)))
}

/// Entry `j` shares its static node with another entry, and no entry with
/// that node was declared at a lesser source.
pub open spec fn least_duplicate(entries: Seq<(StaticNodeId, SourceRef)>, j: int) -> bool {
    &&& exists|m: int| 0 <= m < entries.len() && m != j && #[trigger] entries[m].0 == entries[j].0
    &&& forall|m: int| 0 <= m < entries.len() && #[trigger] entries[m].0 == entries[j].0 ==> source_order(entries[j].1, entries[m].1) <= 0
}

/// The static document is not the expected one, or not at the source's
/// revision and epoch.
pub open spec fn version_mismatch(expected: StaticDocumentId, src: ProjectionSourceDocument, st: StaticUiDocument) -> bool {
    st.spec_id() != expected || st.spec_revision() != src.revision || st.spec_epoch() != src.epoch
}

/// A diagnostic of the declarations: a declaration whose target is no
/// source node; for each static node declared twice or more, one at the
/// least source; a lowered declaration whose node is not in the static
/// document; and a static document of another version.
pub open spec fn anchor_diagnostic(
    expected: StaticDocumentId,
    src: ProjectionSourceDocument,
    st: StaticUiDocument,
    e: AnchorDiagnosticContent,
) -> bool {
    let decls = src.collection_anchor_declarations@;
    let entries = lowered_entries(decls, src.nodes@);
    ||| exists|k: int| 0 <= k < decls.len() && !source_has_node(src.nodes@, #[trigger] decls[k].target) && e == (
        Some(decls[k].source),
        CollectionAnchorDeclarationDiagnosticKind::MissingTargetNode,
        decls[k].target.spec_raw(),
        0u64,
    )
    ||| exists|j: int| 0 <= j < entries.len() && #[trigger] least_duplicate(entries, j) && e == (
        Some(entries[j].1),
        CollectionAnchorDeclarationDiagnosticKind::DuplicateDeclaration,
        entries[j].0.spec_raw(),
        0u64,
    )
    ||| exists|j: int| 0 <= j < entries.len() && !document_has_node(st.spec_nodes(), #[trigger] entries[j].0) && e == (
        Some(entries[j].1),
        CollectionAnchorDeclarationDiagnosticKind::MissingStaticNode,
        entries[j].0.spec_raw(),
        0u64,
    )
    ||| version_mismatch(expected, src, st) && e == (
        None::<SourceRef>,
        CollectionAnchorDeclarationDiagnosticKind::DocumentVersionMismatch,
        expected.spec_raw(),
        st.spec_id().spec_raw(),
    )
}

/// What qualification returns: the diagnostics, sorted with each once, when
/// there are any; else the lowered static nodes in increasing order, for
/// the expected document at the source's revision and epoch.
pub open spec fn anchor_outcome(
    expected: StaticDocumentId,
    src: ProjectionSourceDocument,
    st: StaticUiDocument,
    r: Result<QualifiedCollectionAnchorDeclarations, CollectionAnchorDeclarationDiagnostics>,
) -> bool {
    let entries = lowered_entries(src.collection_anchor_declarations@, src.nodes@);
    if exists|e: AnchorDiagnosticContent| anchor_diagnostic(expected, src, st, e) {
        r matches Err(ds) && canonical_anchor_diagnostics(
            ds.spec_diagnostics(),
            |e: AnchorDiagnosticContent| anchor_diagnostic(expected, src, st, e),
        )
    } else {
        r matches Ok(q) && {
            &&& q.spec_document_id() == expected
            &&& q.spec_revision() == src.revision
            &&& q.spec_epoch() == src.epoch
            &&& anchors_increasing(q.spec_anchors())
            &&& q.spec_anchors().len() == entries.len()
            &&& q.spec_anchors().to_set() == entries.map_values(|x: (StaticNodeId, SourceRef)| x.0).to_set()
        }
    }
}

/// Among the first `n` entries with node `id`, one has the least source.
proof fn lemma_least_source(entries: Seq<(StaticNodeId, SourceRef)>, id: StaticNodeId, n: int) -> (m: int)
    requires
        0 <= n <= entries.len(),
        exists|i: int| 0 <= i < n && #[trigger] entries[i].0 == id,
    ensures
        0 <= m < n,
        entries[m].0 == id,
        forall|i: int| 0 <= i < n && #[trigger] entries[i].0 == id ==> source_order(entries[m].1, entries[i].1) <= 0,
    decreases n,
{
    let last = entries[n - 1];
    if exists|i: int| 0 <= i < n - 1 && #[trigger] entries[i].0 == id {
        let m0 = lemma_least_source(entries, id, n - 1);
        lemma_lex_order_antisymmetric(source_ref_key(Some(last.1)), source_ref_key(Some(entries[m0].1)));
        if last.0 == id && source_order(last.1, entries[m0].1) < 0 {
            assert forall|i: int| 0 <= i < n && #[trigger] entries[i].0 == id implies source_order(last.1, entries[i].1) <= 0 by {
                if i < n - 1 {
                    lemma_lex_order_transitive(source_ref_key(Some(last.1)), source_ref_key(Some(entries[m0].1)), source_ref_key(Some(entries[i].1)));
                } else {
                    lemma_lex_order_antisymmetric(source_ref_key(Some(last.1)), source_ref_key(Some(last.1)));
                }
            }
            n - 1
        } else {
            m0
        }
    } else {
        assert forall|i: int| 0 <= i < n && #[trigger] entries[i].0 == id implies source_order(last.1, entries[i].1) <= 0 by {
            assert(i == n - 1);
            lemma_lex_order_antisymmetric(source_ref_key(Some(last.1)), source_ref_key(Some(last.1)));
        }
        n - 1
    }
}

/// Without a duplicate diagnostic, no two entries share a static node.
proof fn lemma_no_duplicate_means_distinct(entries: Seq<(StaticNodeId, SourceRef)>, a: int, b: int)
    requires
        0 <= a < entries.len(),
        0 <= b < entries.len(),
        a != b,
        entries[a].0 == entries[b].0,
    ensures
        exists|j: int| 0 <= j < entries.len() && #[trigger] least_duplicate(entries, j),
{
    let id = entries[a].0;
    let m = lemma_least_source(entries, id, entries.len() as int);
    let other = if m == a { b } else { a };
    assert(entries[other].0 == entries[m].0);
    assert(least_duplicate(entries, m));
}

/// The static node ids in increasing order, when no two are the same.
fn anchors_by_raw(ids: &Vec<StaticNodeId>) -> (r: Vec<StaticNodeId>)
    requires
        forall|a: int, b: int| 0 <= a < b < ids@.len() ==> #[trigger] ids@[a] != #[trigger] ids@[b],
    ensures
        anchors_increasing(r@),
        r@.len() == ids@.len(),
        r@.to_set() == ids@.to_set(),
{
    let ghost src = ids@;
    let mut out: Vec<StaticNodeId> = Vec::new();
    let mut i: usize = 0;
    proof {
        assert(out@.to_set() =~= src.take(0).to_set());
    }
    while i < ids.len()
        invariant
            src == ids@,
            i <= src.len(),
            forall|a: int, b: int| 0 <= a < b < src.len() ==> #[trigger] src[a] != #[trigger] src[b],
            out@.len() == i,
            anchors_increasing(out@),
            out@.to_set() == src.take(i as int).to_set(),
        decreases src.len() - i,
    {
        let x = ids[i];
        proof {
            lemma_take_one_more_to_set(src, i as int);
        }
        let mut p: usize = 0;
        while p < out.len() && out[p].raw() < x.raw()
            invariant
                p <= out@.len(),
                forall|q: int| 0 <= q < p ==> (#[trigger] out@[q]).spec_raw() < x.spec_raw(),
            decreases out@.len() - p,
        {
            p += 1;
        }
        let ghost old = out@;
        proof {
            if p < old.len() && old[p as int].spec_raw() == x.spec_raw() {
                lemma_static_node_id_raw_injective(old[p as int], x);
                assert(old.to_set().contains(old[p as int]));
                assert(src.take(i as int).contains(old[p as int]));
                let j = choose|j: int| 0 <= j < i && src.take(i as int)[j] == old[p as int];
                assert(src[j] == src[i as int]);
            }
            lemma_insert_to_set(old, p as int, x);
        }
        out.insert(p, x);
        proof {
            let n = out@;
            assert forall|a: int, b: int| 0 <= a < b < n.len() implies (#[trigger] n[a]).spec_raw() < (#[trigger] n[b]).spec_raw() by {
                if a == p && b > p {
                    assert(n[b] == old[b - 1]);
                    if b - 1 > p {
                        assert(old[p as int].spec_raw() < old[b - 1].spec_raw());
                    }
                } else if a < p && b == p {
                    assert(n[a] == old[a]);
                } else if a < p && b > p {
                    assert(n[a] == old[a]);
                    assert(n[b] == old[b - 1]);
                } else if a > p {
                    assert(n[a] == old[a - 1]);
                    assert(n[b] == old[b - 1]);
                } else {
                    assert(n[a] == old[a]);
                    assert(n[b] == old[b]);
                }
            }
        }
        i += 1;
    }
    proof {
        assert(src.take(src.len() as int) =~= src);
    }
    out
}

/// The diagnostics of a declaration whose target is no source node.
pub open spec fn missing_target(decls: Seq<CollectionAnchorDeclaration>, nodes: Seq<ProjectionSourceNode>, n: int, e: AnchorDiagnosticContent) -> bool {
    exists|k: int| 0 <= k < n && !source_has_node(nodes, #[trigger] decls[k].target) && e == (
        Some(decls[k].source),
        CollectionAnchorDeclarationDiagnosticKind::MissingTargetNode,
        decls[k].target.spec_raw(),
        0u64,
    )
}

/// The diagnostics of duplicated static nodes among the first `n` entries.
pub open spec fn duplicate_of(entries: Seq<(StaticNodeId, SourceRef)>, n: int, e: AnchorDiagnosticContent) -> bool {
    exists|j: int| 0 <= j < n && #[trigger] least_duplicate(entries, j) && e == (
        Some(entries[j].1),
        CollectionAnchorDeclarationDiagnosticKind::DuplicateDeclaration,
        entries[j].0.spec_raw(),
        0u64,
    )
}

/// The diagnostics of static nodes missing from the document among the
/// first `n` entries.
pub open spec fn missing_static(entries: Seq<(StaticNodeId, SourceRef)>, st: StaticUiDocument, n: int, e: AnchorDiagnosticContent) -> bool {
    exists|j: int| 0 <= j < n && !document_has_node(st.spec_nodes(), #[trigger] entries[j].0) && e == (
        Some(entries[j].1),
        CollectionAnchorDeclarationDiagnosticKind::MissingStaticNode,
        entries[j].0.spec_raw(),
        0u64,
    )
}

/// Qualifies every authored collection-anchor declaration of `source`
/// against `static_document`: all of them, in increasing order of static
/// node, or every diagnostic and none of them.
#[verifier::rlimit(60)]
pub fn qualify_collection_anchor_declarations(
    expected_document_id: StaticDocumentId,
    source: &ProjectionSourceDocument,
    static_document: &StaticUiDocument,
) -> (r: Result<QualifiedCollectionAnchorDeclarations, CollectionAnchorDeclarationDiagnostics>)
    ensures
        anchor_outcome(expected_document_id, *source, *static_document, r),
{
    let decls = source.collection_anchor_declarations();
    let nodes = source.nodes();
    let ghost ds = decls@;
    let ghost ns = nodes@;
    let mut diagnostics: Vec<CollectionAnchorDeclarationDiagnostic> = Vec::new();
    let ghost mut all: Seq<AnchorDiagnosticContent> = Seq::empty();
    let mut lowered: Vec<(StaticNodeId, SourceRef)> = Vec::new();
    let mut k: usize = 0;
    while k < decls.len()
        invariant
            ds == decls@,
            ns == nodes@,
            k <= ds.len(),
            lowered@ == lowered_entries(ds.take(k as int), ns),
            diagnostics@.len() == all.len(),
            forall|i: int| 0 <= i < diagnostics@.len() ==> anchor_says(#[trigger] diagnostics@[i], all[i]),
            forall|e: AnchorDiagnosticContent| all.contains(e) <==> missing_target(ds, ns, k as int, e),
        decreases ds.len() - k,
    {
        let declaration = decls[k];
        let target = declaration.target;
        let mut found = false;
        let mut i: usize = 0;
        while i < nodes.len()
            invariant
                ns == nodes@,
                i <= ns.len(),
                found == exists|m: int| 0 <= m < i && #[trigger] ns[m].id == target,
            decreases ns.len() - i,
        {
            if nodes[i].id == target {
                found = true;
            }
            i += 1;
        }
        proof {
            assert(ds.take(k + 1).drop_last() =~= ds.take(k as int));
            assert(ds.take(k + 1).last() == declaration);
            assert(found == source_has_node(ns, target));
        }
        let ghost before = all;
        assert(forall|e: AnchorDiagnosticContent| before.contains(e) <==> missing_target(ds, ns, k as int, e));
        if !found {
            diagnostics.push(
                CollectionAnchorDeclarationDiagnostic::new(
                    Some(declaration.source),
                    CollectionAnchorDeclarationDiagnosticKind::MissingTargetNode,
                    target.raw(),
                    0,
                ),
            );
            proof {
                all = all.push((Some(declaration.source), CollectionAnchorDeclarationDiagnosticKind::MissingTargetNode, target.spec_raw(), 0u64));
            }
        } else {
            match lower_projection_source_node_id(target) {
                Some(id) => {
                    proof {
                        lemma_static_node_id_raw_injective(id, lowered_node(target));
                    }
                    lowered.push((id, declaration.source));
                },
                None => {
                    diagnostics.push(
                        CollectionAnchorDeclarationDiagnostic::new(
                            Some(declaration.source),
                            CollectionAnchorDeclarationDiagnosticKind::MissingTargetNode,
                            target.raw(),
                            0,
                        ),
                    );
                    proof {
                        all = all.push((Some(declaration.source), CollectionAnchorDeclarationDiagnosticKind::MissingTargetNode, target.spec_raw(), 0u64));
                    }
                },
            }
        }
        proof {
            assert forall|e: AnchorDiagnosticContent| all.contains(e) <==> missing_target(ds, ns, k + 1, e) by {
                if all.len() > before.len() {
                    lemma_push_contains(before, all.last(), e);
                    assert(all == before.push(all.last()));
                    assert(!source_has_node(ns, ds[k as int].target));
                } else {
                    assert(all == before);
                }
                if missing_target(ds, ns, k + 1, e) {
                    let k2 = choose|k2: int| 0 <= k2 < k + 1 && !source_has_node(ns, #[trigger] ds[k2].target) && e == (
                        Some(ds[k2].source),
                        CollectionAnchorDeclarationDiagnosticKind::MissingTargetNode,
                        ds[k2].target.spec_raw(),
                        0u64,
                    );
                    if k2 < k {
                        assert(missing_target(ds, ns, k as int, e));
                        assert(before.contains(e));
                    } else {
                        assert(all.last() == e);
                    }
                }
            }
        }
        k += 1;
    }
    proof {
        assert(ds.take(ds.len() as int) =~= ds);
    }
    let ghost entries = lowered@;
    let ghost after_targets = all;
    let mut j: usize = 0;
    while j < lowered.len()
        invariant
            entries == lowered@,
            j <= entries.len(),
            diagnostics@.len() == all.len(),
            forall|i: int| 0 <= i < diagnostics@.len() ==> anchor_says(#[trigger] diagnostics@[i], all[i]),
            forall|e: AnchorDiagnosticContent| all.contains(e) <==> after_targets.contains(e) || duplicate_of(entries, j as int, e),
        decreases entries.len() - j,
    {
        let (id, at) = lowered[j];
        let mut other = false;
        let mut least = true;
        let mut m: usize = 0;
        while m < lowered.len()
            invariant
                entries == lowered@,
                j < entries.len(),
                (id, at) == entries[j as int],
                m <= entries.len(),
                other == exists|q: int| 0 <= q < m && q != j && #[trigger] entries[q].0 == id,
                least == forall|q: int| 0 <= q < m && #[trigger] entries[q].0 == id ==> source_order(at, entries[q].1) <= 0,
            decreases entries.len() - m,
        {
            let (other_id, other_at) = lowered[m];
            if other_id == id {
                if m != j {
                    other = true;
                }
                if compare_source_refs(Some(at), Some(other_at)) > 0 {
                    least = false;
                }
            }
            m += 1;
        }
        let ghost before = all;
        assert(forall|e: AnchorDiagnosticContent| before.contains(e) <==> after_targets.contains(e) || duplicate_of(entries, j as int, e));
        if other && least {
            diagnostics.push(
                CollectionAnchorDeclarationDiagnostic::new(Some(at), CollectionAnchorDeclarationDiagnosticKind::DuplicateDeclaration, id.raw(), 0),
            );
            proof {
                all = all.push((Some(at), CollectionAnchorDeclarationDiagnosticKind::DuplicateDeclaration, id.spec_raw(), 0u64));
            }
        }
        proof {
            assert(other && least <==> least_duplicate(entries, j as int));
            assert forall|e: AnchorDiagnosticContent| all.contains(e) <==> after_targets.contains(e) || duplicate_of(entries, j + 1, e) by {
                if all.len() > before.len() {
                    lemma_push_contains(before, all.last(), e);
                    assert(all == before.push(all.last()));
                } else {
                    assert(all == before);
                }
                if duplicate_of(entries, j + 1, e) {
                    let j2 = choose|j2: int| 0 <= j2 < j + 1 && #[trigger] least_duplicate(entries, j2) && e == (
                        Some(entries[j2].1),
                        CollectionAnchorDeclarationDiagnosticKind::DuplicateDeclaration,
                        entries[j2].0.spec_raw(),
                        0u64,
                    );
                    if j2 < j {
                        assert(duplicate_of(entries, j as int, e));
                    } else {
                        assert(all.last() == e);
                    }
                }
            }
        }
        j += 1;
    }
    let ghost after_duplicates = all;
    let static_nodes = static_document.nodes();
    let mut qualified: Vec<StaticNodeId> = Vec::new();
    let mut all_present = true;
    let mut j: usize = 0;
    while j < lowered.len()
        invariant
            entries == lowered@,
            static_nodes@ == static_document.spec_nodes(),
            j <= entries.len(),
            diagnostics@.len() == all.len(),
            forall|i: int| 0 <= i < diagnostics@.len() ==> anchor_says(#[trigger] diagnostics@[i], all[i]),
            forall|e: AnchorDiagnosticContent| all.contains(e) <==> after_duplicates.contains(e) || missing_static(entries, *static_document, j as int, e),
            all_present ==> qualified@ == entries.take(j as int).map_values(|x: (StaticNodeId, SourceRef)| x.0),
            all_present <==> forall|q: int| 0 <= q < j ==> document_has_node(static_document.spec_nodes(), #[trigger] entries[q].0),
        decreases entries.len() - j,
    {
        let (id, at) = lowered[j];
        let mut present = false;
        let mut i: usize = 0;
        while i < static_nodes.len()
            invariant
                i <= static_nodes@.len(),
                present == exists|q: int| 0 <= q < i && #[trigger] static_nodes@[q].spec_id() == id,
            decreases static_nodes@.len() - i,
        {
            if static_nodes[i].id() == id {
                present = true;
            }
            i += 1;
        }
        let ghost before = all;
        assert(forall|e: AnchorDiagnosticContent| before.contains(e) <==> after_duplicates.contains(e) || missing_static(entries, *static_document, j as int, e));
        let ghost old_q = qualified@;
        if !present {
            diagnostics.push(
                CollectionAnchorDeclarationDiagnostic::new(Some(at), CollectionAnchorDeclarationDiagnosticKind::MissingStaticNode, id.raw(), 0),
            );
            proof {
                all = all.push((Some(at), CollectionAnchorDeclarationDiagnosticKind::MissingStaticNode, id.spec_raw(), 0u64));
            }
            all_present = false;
        } else {
            qualified.push(id);
        }
        proof {
            assert(present == document_has_node(static_document.spec_nodes(), entries[j as int].0));
            assert(entries.take(j + 1).map_values(|x: (StaticNodeId, SourceRef)| x.0) =~= entries.take(j as int).map_values(
                |x: (StaticNodeId, SourceRef)| x.0,
            ).push(id));
            assert forall|e: AnchorDiagnosticContent| all.contains(e) <==> after_duplicates.contains(e) || missing_static(entries, *static_document, j + 1, e) by {
                if all.len() > before.len() {
                    lemma_push_contains(before, all.last(), e);
                    assert(all == before.push(all.last()));
                } else {
                    assert(all == before);
                }
                if missing_static(entries, *static_document, j + 1, e) {
                    let j2 = choose|j2: int| 0 <= j2 < j + 1 && !document_has_node(static_document.spec_nodes(), #[trigger] entries[j2].0) && e == (
                        Some(entries[j2].1),
                        CollectionAnchorDeclarationDiagnosticKind::MissingStaticNode,
                        entries[j2].0.spec_raw(),
                        0u64,
                    );
                    if j2 < j {
                        assert(missing_static(entries, *static_document, j as int, e));
                    } else {
                        assert(all.last() == e);
                    }
                }
            }
        }
        j += 1;
    }
    let ghost before_version = all;
    let mismatch = static_document.id() != expected_document_id || static_document.revision() != source.revision
        || static_document.epoch() != source.epoch;
    if mismatch {
        diagnostics.push(
            CollectionAnchorDeclarationDiagnostic::new(
                None,
                CollectionAnchorDeclarationDiagnosticKind::DocumentVersionMismatch,
                expected_document_id.raw(),
                static_document.id().raw(),
            ),
        );
        proof {
            all = all.push((
                None::<SourceRef>,
                CollectionAnchorDeclarationDiagnosticKind::DocumentVersionMismatch,
                expected_document_id.spec_raw(),
                static_document.spec_id().spec_raw(),
            ));
        }
    }
    let ghost p = |e: AnchorDiagnosticContent| anchor_diagnostic(expected_document_id, *source, *static_document, e);
    proof {
        assert(entries == lowered_entries(source.collection_anchor_declarations@, source.nodes@));
        assert(forall|e: AnchorDiagnosticContent| after_duplicates.contains(e) <==> after_targets.contains(e) || duplicate_of(entries, entries.len() as int, e));
        assert(forall|e: AnchorDiagnosticContent| after_targets.contains(e) <==> missing_target(ds, ns, ds.len() as int, e));
        assert(forall|e: AnchorDiagnosticContent| before_version.contains(e) <==> after_duplicates.contains(e) || missing_static(entries, *static_document, entries.len() as int, e));
        assert forall|e: AnchorDiagnosticContent| all.contains(e) <==> #[trigger] p(e) by {
            if all.len() > before_version.len() {
                lemma_push_contains(before_version, all.last(), e);
                assert(all == before_version.push(all.last()));
            } else {
                assert(all == before_version);
            }
        }
        if exists|e: AnchorDiagnosticContent| anchor_diagnostic(expected_document_id, *source, *static_document, e) {
            let e = choose|e: AnchorDiagnosticContent| anchor_diagnostic(expected_document_id, *source, *static_document, e);
            assert(p(e));
            assert(all.contains(e));
        }
        if all.len() > 0 {
            assert(all.contains(all[0]));
            assert(p(all[0]));
        }
    }
    if diagnostics.len() > 0 {
        let sorted = canonical_anchor_order(&diagnostics, Ghost(all), Ghost(p));
        return Err(CollectionAnchorDeclarationDiagnostics { diagnostics: sorted });
    }
    proof {
        assert(entries.take(entries.len() as int) =~= entries);
        assert forall|q: int| 0 <= q < entries.len() implies document_has_node(static_document.spec_nodes(), #[trigger] entries[q].0) by {
            if !document_has_node(static_document.spec_nodes(), entries[q].0) {
                assert(missing_static(entries, *static_document, entries.len() as int, (
                    Some(entries[q].1),
                    CollectionAnchorDeclarationDiagnosticKind::MissingStaticNode,
                    entries[q].0.spec_raw(),
                    0u64,
                )));
                assert(p((Some(entries[q].1), CollectionAnchorDeclarationDiagnosticKind::MissingStaticNode, entries[q].0.spec_raw(), 0u64)));
            }
        }
        assert forall|a: int, b: int| 0 <= a < b < qualified@.len() implies #[trigger] qualified@[a] != #[trigger] qualified@[b] by {
            if qualified@[a] == qualified@[b] {
                assert(qualified@[a] == entries[a].0);
                assert(qualified@[b] == entries[b].0);
                lemma_no_duplicate_means_distinct(entries, a, b);
                let jd = choose|jd: int| 0 <= jd < entries.len() && #[trigger] least_duplicate(entries, jd);
                assert(duplicate_of(entries, entries.len() as int, (
                    Some(entries[jd].1),
                    CollectionAnchorDeclarationDiagnosticKind::DuplicateDeclaration,
                    entries[jd].0.spec_raw(),
                    0u64,
                )));
                assert(p((Some(entries[jd].1), CollectionAnchorDeclarationDiagnosticKind::DuplicateDeclaration, entries[jd].0.spec_raw(), 0u64)));
            }
        }
    }
    let anchors = anchors_by_raw(&qualified);
    Ok(QualifiedCollectionAnchorDeclarations {
        document_id: expected_document_id,
        revision: source.revision,
        epoch: source.epoch,
        anchors,
    })
}

/// Qualified anchors are nodes of the static document, and that document is
/// the expected one at the source's revision and epoch.
pub proof fn lemma_qualified_anchors_are_static_nodes(
    expected: StaticDocumentId,
    src: ProjectionSourceDocument,
    st: StaticUiDocument,
    q: QualifiedCollectionAnchorDeclarations,
)
    requires
        anchor_outcome(expected, src, st, Ok(q)),
    ensures
        forall|a: int| 0 <= a < q.spec_anchors().len() ==> document_has_node(st.spec_nodes(), #[trigger] q.spec_anchors()[a]),
        st.spec_id() == expected,
        st.spec_revision() == src.revision,
        st.spec_epoch() == src.epoch,
{
    let entries = lowered_entries(src.collection_anchor_declarations@, src.nodes@);
    let ids = entries.map_values(|x: (StaticNodeId, SourceRef)| x.0);
    if version_mismatch(expected, src, st) {
        assert(anchor_diagnostic(
            expected,
            src,
            st,
            (None::<SourceRef>, CollectionAnchorDeclarationDiagnosticKind::DocumentVersionMismatch, expected.spec_raw(), st.spec_id().spec_raw()),
        ));
    }
    assert forall|a: int| 0 <= a < q.spec_anchors().len() implies document_has_node(st.spec_nodes(), #[trigger] q.spec_anchors()[a]) by {
        let x = q.spec_anchors()[a];
        assert(q.spec_anchors().to_set().contains(x));
        assert(ids.to_set().contains(x));
        let j = choose|j: int| 0 <= j < ids.len() && ids[j] == x;
        if !document_has_node(st.spec_nodes(), entries[j].0) {
            assert(anchor_diagnostic(
                expected,
                src,
                st,
                (Some(entries[j].1), CollectionAnchorDeclarationDiagnosticKind::MissingStaticNode, entries[j].0.spec_raw(), 0u64),
            ));
        }
    }
}

/// An entry comes from a declaration whose target is a source node, and
/// every such declaration gives one.
proof fn lemma_lowered_entries_contains(decls: Seq<CollectionAnchorDeclaration>, nodes: Seq<ProjectionSourceNode>, x: (StaticNodeId, SourceRef))
    ensures
        lowered_entries(decls, nodes).contains(x) <==> exists|k: int| 0 <= k < decls.len() && source_has_node(nodes, #[trigger] decls[k].target)
            && x == (lowered_node(decls[k].target), decls[k].source),
    decreases decls.len(),
{
    if decls.len() > 0 {
        let rest = decls.drop_last();
        lemma_lowered_entries_contains(rest, nodes, x);
        let d = decls.last();
        if source_has_node(nodes, d.target) {
            lemma_push_contains(lowered_entries(rest, nodes), (lowered_node(d.target), d.source), x);
        }
        if exists|k: int| 0 <= k < decls.len() && source_has_node(nodes, #[trigger] decls[k].target) && x == (lowered_node(decls[k].target), decls[k].source) {
            let k = choose|k: int| 0 <= k < decls.len() && source_has_node(nodes, #[trigger] decls[k].target) && x == (lowered_node(decls[k].target), decls[k].source);
            if k < decls.len() - 1 {
                assert(rest[k] == decls[k]);
            }
        }
        if exists|k: int| 0 <= k < rest.len() && source_has_node(nodes, #[trigger] rest[k].target) && x == (lowered_node(rest[k].target), rest[k].source) {
            let k = choose|k: int| 0 <= k < rest.len() && source_has_node(nodes, #[trigger] rest[k].target) && x == (lowered_node(rest[k].target), rest[k].source);
            assert(decls[k] == rest[k]);
        }
    }
}

/// Two strictly increasing sequences of nodes with the same nodes are the
/// same sequence.
proof fn lemma_increasing_same_set(a: Seq<StaticNodeId>, b: Seq<StaticNodeId>)
    requires
        anchors_increasing(a),
        anchors_increasing(b),
        a.to_set() == b.to_set(),
    ensures
        a == b,
    decreases a.len() + b.len(),
{
    if a.len() == 0 || b.len() == 0 {
        if a.len() > 0 {
            assert(a.to_set().contains(a[0]));
        }
        if b.len() > 0 {
            assert(b.to_set().contains(b[0]));
        }
        assert(a =~= b);
    } else {
        assert(a.to_set().contains(a[0]));
        assert(b.to_set().contains(b[0]));
        let i = choose|i: int| 0 <= i < b.len() && b[i] == a[0];
        let j = choose|j: int| 0 <= j < a.len() && a[j] == b[0];
        if i > 0 {
            assert(b[0].spec_raw() < b[i].spec_raw());
            if j > 0 {
                assert(a[0].spec_raw() < a[j].spec_raw());
            }
        }
        assert(a[0] == b[0]);
        let (ra, rb) = (a.drop_first(), b.drop_first());
        assert forall|x: StaticNodeId| ra.to_set().contains(x) <==> rb.to_set().contains(x) by {
            if ra.to_set().contains(x) {
                let k = choose|k: int| 0 <= k < ra.len() && ra[k] == x;
                assert(a[k + 1] == x);
                assert(a[0].spec_raw() < x.spec_raw());
                assert(b.to_set().contains(x));
                let m = choose|m: int| 0 <= m < b.len() && b[m] == x;
                assert(m != 0);
                assert(rb[m - 1] == x);
            }
            if rb.to_set().contains(x) {
                let k = choose|k: int| 0 <= k < rb.len() && rb[k] == x;
                assert(b[k + 1] == x);
                assert(b[0].spec_raw() < x.spec_raw());
                assert(a.to_set().contains(x));
                let m = choose|m: int| 0 <= m < a.len() && a[m] == x;
                assert(m != 0);
                assert(ra[m - 1] == x);
            }
        }
        assert(ra.to_set() =~= rb.to_set());
        lemma_increasing_same_set(ra, rb);
        assert(a =~= seq![a[0]] + ra);
        assert(b =~= seq![b[0]] + rb);
    }
}

/// Qualification does not depend on the order in which declarations were
/// authored: two sources with the same nodes, version and declarations, in
/// any order, that both qualify, qualify the same anchors.
pub proof fn lemma_qualified_anchors_ignore_declaration_order(
    expected: StaticDocumentId,
    src1: ProjectionSourceDocument,
    src2: ProjectionSourceDocument,
    st: StaticUiDocument,
    q1: QualifiedCollectionAnchorDeclarations,
    q2: QualifiedCollectionAnchorDeclarations,
)
    requires
        src1.nodes@ == src2.nodes@,
        src1.revision == src2.revision,
        src1.epoch == src2.epoch,
        src1.collection_anchor_declarations@.to_multiset() == src2.collection_anchor_declarations@.to_multiset(),
        anchor_outcome(expected, src1, st, Ok(q1)),
        anchor_outcome(expected, src2, st, Ok(q2)),
    ensures
        q1.spec_anchors() == q2.spec_anchors(),
        q1.spec_document_id() == q2.spec_document_id(),
        q1.spec_revision() == q2.spec_revision(),
        q1.spec_epoch() == q2.spec_epoch(),
{
    broadcast use vstd::seq_lib::group_to_multiset_ensures;

    let (d1, d2) = (src1.collection_anchor_declarations@, src2.collection_anchor_declarations@);
    let nodes = src1.nodes@;
    let (e1, e2) = (lowered_entries(d1, nodes), lowered_entries(d2, nodes));
    let (i1, i2) = (e1.map_values(|x: (StaticNodeId, SourceRef)| x.0), e2.map_values(|x: (StaticNodeId, SourceRef)| x.0));
    assert forall|x: (StaticNodeId, SourceRef)| e1.contains(x) ==> e2.contains(x) by {
        lemma_lowered_entries_contains(d1, nodes, x);
        lemma_lowered_entries_contains(d2, nodes, x);
        if e1.contains(x) {
            let k = choose|k: int| 0 <= k < d1.len() && source_has_node(nodes, #[trigger] d1[k].target) && x == (lowered_node(d1[k].target), d1[k].source);
            assert(d1.contains(d1[k]));
            assert(d2.to_multiset().count(d1[k]) > 0);
            let m = choose|m: int| 0 <= m < d2.len() && d2[m] == d1[k];
            assert(source_has_node(nodes, d2[m].target));
        }
    }
    assert forall|x: (StaticNodeId, SourceRef)| e2.contains(x) ==> e1.contains(x) by {
        lemma_lowered_entries_contains(d1, nodes, x);
        lemma_lowered_entries_contains(d2, nodes, x);
        if e2.contains(x) {
            let k = choose|k: int| 0 <= k < d2.len() && source_has_node(nodes, #[trigger] d2[k].target) && x == (lowered_node(d2[k].target), d2[k].source);
            assert(d2.contains(d2[k]));
            assert(d1.to_multiset().count(d2[k]) > 0);
            let m = choose|m: int| 0 <= m < d1.len() && d1[m] == d2[k];
            assert(source_has_node(nodes, d1[m].target));
        }
    }
    assert forall|id: StaticNodeId| i1.to_set().contains(id) <==> i2.to_set().contains(id) by {
        if i1.to_set().contains(id) {
            let k = choose|k: int| 0 <= k < i1.len() && i1[k] == id;
            assert(e1.contains(e1[k]));
            assert(e2.contains(e1[k]));
            let m = choose|m: int| 0 <= m < e2.len() && e2[m] == e1[k];
            assert(i2[m] == id);
        }
        if i2.to_set().contains(id) {
            let k = choose|k: int| 0 <= k < i2.len() && i2[k] == id;
            assert(e2.contains(e2[k]));
            assert(e1.contains(e2[k]));
            let m = choose|m: int| 0 <= m < e1.len() && e1[m] == e2[k];
            assert(i1[m] == id);
        }
    }
    assert(q1.spec_anchors().to_set() =~= q2.spec_anchors().to_set());
    lemma_increasing_same_set(q1.spec_anchors(), q2.spec_anchors());
}

/// The entry a declaration gives when its target is a source node.
pub open spec fn entry_of(c: CollectionAnchorDeclaration) -> (StaticNodeId, SourceRef) {
    (lowered_node(c.target), c.source)
}

/// Declarations that give the same entry are the same declaration.
proof fn lemma_entry_of_injective(a: CollectionAnchorDeclaration, b: CollectionAnchorDeclaration)
    requires
        entry_of(a) == entry_of(b),
    ensures
        a == b,
{
    lemma_static_node_id_for_raw(a.target.spec_raw());
    lemma_static_node_id_for_raw(b.target.spec_raw());
    let na = choose|n: StaticNodeId| n.spec_raw() == a.target.spec_raw();
    let nb = choose|n: StaticNodeId| n.spec_raw() == b.target.spec_raw();
    assert(lowers_to(a.target, na));
    assert(lowers_to(b.target, nb));
    assert(lowers_to(a.target, lowered_node(a.target)));
    assert(lowers_to(b.target, lowered_node(b.target)));
    lemma_projection_source_node_id_raw_injective(a.target, b.target);
}

/// An entry given twice comes from two declarations; two declarations give
/// their entry twice.
proof fn lemma_entry_twice(decls: Seq<CollectionAnchorDeclaration>, nodes: Seq<ProjectionSourceNode>, x: (StaticNodeId, SourceRef))
    ensures
        (exists|i: int, j: int| 0 <= i < j < lowered_entries(decls, nodes).len() && #[trigger] lowered_entries(decls, nodes)[i] == x
            && #[trigger] lowered_entries(decls, nodes)[j] == x) <==> (exists|k1: int, k2: int| 0 <= k1 < k2 < decls.len()
            && source_has_node(nodes, #[trigger] decls[k1].target) && source_has_node(nodes, #[trigger] decls[k2].target)
            && entry_of(decls[k1]) == x && entry_of(decls[k2]) == x),
    decreases decls.len(),
{
    let es = lowered_entries(decls, nodes);
    if decls.len() > 0 {
        let rest = decls.drop_last();
        let rs = lowered_entries(rest, nodes);
        let last = decls.last();
        lemma_entry_twice(rest, nodes, x);
        lemma_lowered_entries_contains(rest, nodes, x);
        let n = decls.len() - 1;
        if exists|i: int, j: int| 0 <= i < j < es.len() && #[trigger] es[i] == x && #[trigger] es[j] == x {
            let (i, j) = choose|i: int, j: int| 0 <= i < j < es.len() && #[trigger] es[i] == x && #[trigger] es[j] == x;
            if source_has_node(nodes, last.target) && j == es.len() - 1 {
                assert(rs[i] == x);
                assert(rs.contains(x));
                let k = choose|k: int| 0 <= k < rest.len() && source_has_node(nodes, #[trigger] rest[k].target) && x == (lowered_node(rest[k].target), rest[k].source);
                assert(decls[k] == rest[k]);
                assert(decls[n] == last);
                assert(source_has_node(nodes, decls[k].target) && source_has_node(nodes, decls[n].target));
            } else {
                assert(rs[i] == x && rs[j] == x);
                let (k1, k2) = choose|k1: int, k2: int| 0 <= k1 < k2 < rest.len() && source_has_node(nodes, #[trigger] rest[k1].target)
                    && source_has_node(nodes, #[trigger] rest[k2].target) && entry_of(rest[k1]) == x && entry_of(rest[k2]) == x;
                assert(decls[k1] == rest[k1] && decls[k2] == rest[k2]);
            }
        }
        if exists|k1: int, k2: int| 0 <= k1 < k2 < decls.len() && source_has_node(nodes, #[trigger] decls[k1].target)
            && source_has_node(nodes, #[trigger] decls[k2].target) && entry_of(decls[k1]) == x && entry_of(decls[k2]) == x {
            let (k1, k2) = choose|k1: int, k2: int| 0 <= k1 < k2 < decls.len() && source_has_node(nodes, #[trigger] decls[k1].target)
                && source_has_node(nodes, #[trigger] decls[k2].target) && entry_of(decls[k1]) == x && entry_of(decls[k2]) == x;
            if k2 == n {
                assert(rest[k1] == decls[k1]);
                assert(rs.contains(x));
                let i = choose|i: int| 0 <= i < rs.len() && rs[i] == x;
                assert(es == rs.push(x));
                assert(es[i] == x && es[es.len() - 1] == x);
            } else {
                assert(rest[k1] == decls[k1] && rest[k2] == decls[k2]);
                let (i, j) = choose|i: int, j: int| 0 <= i < j < rs.len() && #[trigger] rs[i] == x && #[trigger] rs[j] == x;
                if source_has_node(nodes, last.target) {
                    assert(es == rs.push((lowered_node(last.target), last.source)));
                }
                assert(es[i] == x && es[j] == x);
            }
        }
    }
}

/// A value found at two places of a sequence occurs twice in its multiset,
/// and a value that occurs twice is found at two places.
proof fn lemma_twice_iff_count<T>(s: Seq<T>, c: T)
    ensures
        (exists|i: int, j: int| 0 <= i < j < s.len() && #[trigger] s[i] == c && #[trigger] s[j] == c) <==> s.to_multiset().count(c) >= 2,
{
    broadcast use vstd::seq_lib::group_to_multiset_ensures, vstd::multiset::group_multiset_axioms;

    if exists|i: int, j: int| 0 <= i < j < s.len() && #[trigger] s[i] == c && #[trigger] s[j] == c {
        let (i, j) = choose|i: int, j: int| 0 <= i < j < s.len() && #[trigger] s[i] == c && #[trigger] s[j] == c;
        let r = s.remove(i);
        assert(r[j - 1] == c);
        assert(r.contains(c));
        assert(r.to_multiset().count(c) > 0);
        assert(s.contains(c));
        assert(s.to_multiset().count(c) > 0);
        assert(r.to_multiset() =~= s.to_multiset().remove(c));
        assert(s.to_multiset().remove(c).count(c) == s.to_multiset().count(c) - 1);
    }
    if s.to_multiset().count(c) >= 2 {
        assert(s.contains(c));
        let i = choose|i: int| 0 <= i < s.len() && s[i] == c;
        let r = s.remove(i);
        assert(r.len() == s.len() - 1);
        assert(r.to_multiset() =~= s.to_multiset().remove(c));
        assert(r.to_multiset().count(c) > 0);
        assert(r.contains(c));
        let m = choose|m: int| 0 <= m < r.len() && r[m] == c;
        if m < i {
            assert(s[m] == c && s[i] == c);
        } else {
            assert(s[m + 1] == c && s[i] == c);
        }
    }
}

/// What one declaration order diagnoses, any other order of the same
/// declarations diagnoses too.
proof fn lemma_diagnostic_transfers(
    expected: StaticDocumentId,
    src1: ProjectionSourceDocument,
    src2: ProjectionSourceDocument,
    st: StaticUiDocument,
    e: AnchorDiagnosticContent,
)
    requires
        src1.nodes@ == src2.nodes@,
        src1.revision == src2.revision,
        src1.epoch == src2.epoch,
        src1.collection_anchor_declarations@.to_multiset() == src2.collection_anchor_declarations@.to_multiset(),
        anchor_diagnostic(expected, src1, st, e),
    ensures
        anchor_diagnostic(expected, src2, st, e),
{
    broadcast use vstd::seq_lib::group_to_multiset_ensures;

    let (d1, d2) = (src1.collection_anchor_declarations@, src2.collection_anchor_declarations@);
    let nodes = src1.nodes@;
    let (e1, e2) = (lowered_entries(d1, nodes), lowered_entries(d2, nodes));
    assert forall|x: (StaticNodeId, SourceRef)| e1.contains(x) <==> e2.contains(x) by {
        lemma_lowered_entries_contains(d1, nodes, x);
        lemma_lowered_entries_contains(d2, nodes, x);
        if e1.contains(x) {
            let k = choose|k: int| 0 <= k < d1.len() && source_has_node(nodes, #[trigger] d1[k].target) && x == (lowered_node(d1[k].target), d1[k].source);
            assert(d1.contains(d1[k]));
            assert(d2.to_multiset().count(d1[k]) > 0);
            assert(d2.contains(d1[k]));
            let m = choose|m: int| 0 <= m < d2.len() && d2[m] == d1[k];
            assert(source_has_node(nodes, d2[m].target));
        }
        if e2.contains(x) {
            let k = choose|k: int| 0 <= k < d2.len() && source_has_node(nodes, #[trigger] d2[k].target) && x == (lowered_node(d2[k].target), d2[k].source);
            assert(d2.contains(d2[k]));
            assert(d1.to_multiset().count(d2[k]) > 0);
            assert(d1.contains(d2[k]));
            let m = choose|m: int| 0 <= m < d1.len() && d1[m] == d2[k];
            assert(source_has_node(nodes, d1[m].target));
        }
    }
    if exists|k: int| 0 <= k < d1.len() && !source_has_node(nodes, #[trigger] d1[k].target) && e == (
        Some(d1[k].source),
        CollectionAnchorDeclarationDiagnosticKind::MissingTargetNode,
        d1[k].target.spec_raw(),
        0u64,
    ) {
        let k = choose|k: int| 0 <= k < d1.len() && !source_has_node(nodes, #[trigger] d1[k].target) && e == (
            Some(d1[k].source),
            CollectionAnchorDeclarationDiagnosticKind::MissingTargetNode,
            d1[k].target.spec_raw(),
            0u64,
        );
        assert(d1.contains(d1[k]));
        assert(d2.to_multiset().count(d1[k]) > 0);
        assert(d2.contains(d1[k]));
        let m = choose|m: int| 0 <= m < d2.len() && d2[m] == d1[k];
        assert(!source_has_node(src2.nodes@, d2[m].target));
    }
    if exists|j: int| 0 <= j < e1.len() && !document_has_node(st.spec_nodes(), #[trigger] e1[j].0) && e == (
        Some(e1[j].1),
        CollectionAnchorDeclarationDiagnosticKind::MissingStaticNode,
        e1[j].0.spec_raw(),
        0u64,
    ) {
        let j = choose|j: int| 0 <= j < e1.len() && !document_has_node(st.spec_nodes(), #[trigger] e1[j].0) && e == (
            Some(e1[j].1),
            CollectionAnchorDeclarationDiagnosticKind::MissingStaticNode,
            e1[j].0.spec_raw(),
            0u64,
        );
        assert(e1.contains(e1[j]));
        let i = choose|i: int| 0 <= i < e2.len() && e2[i] == e1[j];
        assert(!document_has_node(st.spec_nodes(), e2[i].0));
    }
    if exists|j: int| 0 <= j < e1.len() && #[trigger] least_duplicate(e1, j) && e == (
        Some(e1[j].1),
        CollectionAnchorDeclarationDiagnosticKind::DuplicateDeclaration,
        e1[j].0.spec_raw(),
        0u64,
    ) {
        let j = choose|j: int| 0 <= j < e1.len() && #[trigger] least_duplicate(e1, j) && e == (
            Some(e1[j].1),
            CollectionAnchorDeclarationDiagnosticKind::DuplicateDeclaration,
            e1[j].0.spec_raw(),
            0u64,
        );
        let x = e1[j];
        assert(e1.contains(x));
        let i = choose|i: int| 0 <= i < e2.len() && e2[i] == x;
        assert forall|m: int| 0 <= m < e2.len() && #[trigger] e2[m].0 == e2[i].0 implies source_order(e2[i].1, e2[m].1) <= 0 by {
            assert(e2.contains(e2[m]));
            let m1 = choose|m1: int| 0 <= m1 < e1.len() && e1[m1] == e2[m];
            assert(e1[m1].0 == e1[j].0);
        }
        let m1 = choose|m1: int| 0 <= m1 < e1.len() && m1 != j && #[trigger] e1[m1].0 == e1[j].0;
        let y = e1[m1];
        if y != x {
            assert(e1.contains(y));
            let m2 = choose|m2: int| 0 <= m2 < e2.len() && e2[m2] == y;
            assert(m2 != i && e2[m2].0 == e2[i].0);
        } else {
            let (lo, hi) = if m1 < j { (m1, j) } else { (j, m1) };
            assert(e1[lo] == x && e1[hi] == x);
            lemma_entry_twice(d1, nodes, x);
            let (k1, k2) = choose|k1: int, k2: int| 0 <= k1 < k2 < d1.len() && source_has_node(nodes, #[trigger] d1[k1].target)
                && source_has_node(nodes, #[trigger] d1[k2].target) && entry_of(d1[k1]) == x && entry_of(d1[k2]) == x;
            lemma_entry_of_injective(d1[k1], d1[k2]);
            let c = d1[k1];
            assert(d1[k2] == c);
            lemma_twice_iff_count(d1, c);
            lemma_twice_iff_count(d2, c);
            let (p1, p2) = choose|p1: int, p2: int| 0 <= p1 < p2 < d2.len() && #[trigger] d2[p1] == c && #[trigger] d2[p2] == c;
            assert(source_has_node(nodes, d2[p1].target) && source_has_node(nodes, d2[p2].target));
            lemma_entry_twice(d2, nodes, x);
            let (q1, q2) = choose|q1: int, q2: int| 0 <= q1 < q2 < e2.len() && #[trigger] e2[q1] == x && #[trigger] e2[q2] == x;
            if q1 != i {
                assert(e2[q1].0 == e2[i].0);
            } else {
                assert(e2[q2].0 == e2[i].0);
            }
        }
        assert(least_duplicate(e2, i));
    }
}

/// Qualification does not depend on the order in which declarations were
/// authored: two sources with the same nodes, version and declarations, in
/// any order, either both qualify or both fail, with the same diagnostics.
pub proof fn lemma_qualification_ignores_declaration_order(
    expected: StaticDocumentId,
    src1: ProjectionSourceDocument,
    src2: ProjectionSourceDocument,
    st: StaticUiDocument,
    r1: Result<QualifiedCollectionAnchorDeclarations, CollectionAnchorDeclarationDiagnostics>,
    r2: Result<QualifiedCollectionAnchorDeclarations, CollectionAnchorDeclarationDiagnostics>,
)
    requires
        src1.nodes@ == src2.nodes@,
        src1.revision == src2.revision,
        src1.epoch == src2.epoch,
        src1.collection_anchor_declarations@.to_multiset() == src2.collection_anchor_declarations@.to_multiset(),
        anchor_outcome(expected, src1, st, r1),
        anchor_outcome(expected, src2, st, r2),
    ensures
        forall|e: AnchorDiagnosticContent| anchor_diagnostic(expected, src1, st, e) <==> anchor_diagnostic(expected, src2, st, e),
        r1 is Ok <==> r2 is Ok,
{
    assert forall|e: AnchorDiagnosticContent| anchor_diagnostic(expected, src1, st, e) <==> anchor_diagnostic(expected, src2, st, e) by {
        if anchor_diagnostic(expected, src1, st, e) {
            lemma_diagnostic_transfers(expected, src1, src2, st, e);
        }
        if anchor_diagnostic(expected, src2, st, e) {
            lemma_diagnostic_transfers(expected, src2, src1, st, e);
        }
    }
}

} // verus!
