//! The binding graph: which UI slots are bound to which semantic values, and
//! how bindings depend on each other.
use vstd::prelude::*;
use crate::contract_primitives::{
    compare_coordinates, compare_u64_slices, coordinate_order, lemma_code_bytes_encode_text, lemma_code_key_injective,
    lemma_coordinate_order, lemma_lex_order_antisymmetric, lemma_lex_order_transitive,
    lemma_source_ref_key_injective, lex_order, source_ref_key, source_ref_parts, DiagnosticCode, DiagnosticCoordinate,
    SourceRef, StaticNodeId,
};
use crate::semantic_refs::SemanticValueRef;
use crate::static_ir::{StaticUiDocument, StaticUiNode};

verus! {

/// Identity of a binding.
#[derive(Debug, Clone, Copy, PartialEq, Eq, PartialOrd, Ord, Hash, Structural)]
pub struct BindingId(pub u64);

/// The kind of value a binding carries.
#[derive(Debug, Clone, Copy, PartialEq, Eq, PartialOrd, Ord, Hash, Structural)]
pub enum BindingValueDomain {
    Quad,
    Scalar,
    Text,
    Evidence,
    Collection,
    Task,
    Connectivity,
    ActionAvailability,
}

/// A slot of a target node.
#[derive(Debug, Clone, Copy, PartialEq, Eq, PartialOrd, Ord, Hash, Structural)]
pub struct BindingSlot(pub u32);

/// The node and slot a binding fills.
#[derive(Debug, Clone, Copy, PartialEq, Eq, PartialOrd, Ord, Hash, Structural)]
pub struct BindingTarget {
    pub node: StaticNodeId,
    pub slot: BindingSlot,
}

/// A dependency of a binding on another binding.
#[derive(Debug, Clone, Copy, PartialEq, Eq, PartialOrd, Ord, Hash, Structural)]
pub struct BindingDependency {
    pub target_binding: BindingId,
}

/// A declared binding.
#[derive(Debug, Clone, PartialEq, Eq, PartialOrd, Ord, Hash)]
pub struct BindingDeclaration {
    pub id: BindingId,
    pub target: BindingTarget,
    pub domain: BindingValueDomain,
    pub dependencies: Vec<BindingDependency>,
    pub collection_key: Option<u64>,
    pub semantic_value: Option<SemanticValueRef>,
    pub source_ref: Option<SourceRef>,
}

/// The position of a domain in declaration order.
pub open spec fn domain_rank(d: BindingValueDomain) -> int {
    match d {
        BindingValueDomain::Quad => 0,
        BindingValueDomain::Scalar => 1,
        BindingValueDomain::Text => 2,
        BindingValueDomain::Evidence => 3,
        BindingValueDomain::Collection => 4,
        BindingValueDomain::Task => 5,
        BindingValueDomain::Connectivity => 6,
        BindingValueDomain::ActionAvailability => 7,
    }
}

/// The ids of the bindings a declaration depends on, in declared order.
pub open spec fn dependency_ids(d: BindingDeclaration) -> Seq<int> {
    d.dependencies@.map_values(|x: BindingDependency| x.target_binding.0 as int)
}

/// The sort key of the fields before the dependencies: id, target node,
/// slot and domain.
pub open spec fn declaration_head(d: BindingDeclaration) -> Seq<int> {
    seq![d.id.0 as int, d.target.node.spec_raw() as int, d.target.slot.0 as int, domain_rank(d.domain)]
}

/// The sort key of the fields after the dependencies: collection key,
/// semantic value and source, each absent first.
pub open spec fn declaration_tail(d: BindingDeclaration) -> Seq<int> {
    (match d.collection_key {
        None => seq![0int, 0int],
        Some(k) => seq![1int, k as int],
    }) + (match d.semantic_value {
        None => seq![0int, 0int],
        Some(v) => seq![1int, v.spec_raw() as int],
    }) + source_ref_key(d.source_ref)
}

/// The canonical order of declarations: by head, then dependencies, then tail.
pub open spec fn declaration_order(a: BindingDeclaration, b: BindingDeclaration) -> int {
    let h = lex_order(declaration_head(a), declaration_head(b));
    let m = lex_order(dependency_ids(a), dependency_ids(b));
    if h != 0 {
        h
    } else if m != 0 {
        m
    } else {
        lex_order(declaration_tail(a), declaration_tail(b))
    }
}

/// The declarations are in canonical order.
pub open spec fn declarations_sorted(s: Seq<BindingDeclaration>) -> bool {
    forall|i: int, j: int| 0 <= i < j < s.len() ==> declaration_order(s[i], s[j]) <= 0
}

/// What a declaration says, with its dependencies as a set.
pub open spec fn declaration_content(d: BindingDeclaration) -> (Seq<int>, Set<BindingDependency>, Seq<int>) {
    (declaration_head(d), d.dependencies@.to_set(), declaration_tail(d))
}

/// The order of declarations is antisymmetric and transitive.
pub proof fn lemma_declaration_order(a: BindingDeclaration, b: BindingDeclaration, c: BindingDeclaration)
    ensures
        declaration_order(a, b) == -declaration_order(b, a),
        declaration_order(a, a) == 0,
        declaration_order(a, b) <= 0 && declaration_order(b, c) <= 0 ==> declaration_order(a, c) <= 0,
        declaration_order(a, b) < 0 && declaration_order(b, c) <= 0 ==> declaration_order(a, c) < 0,
{
    let (ha, hb, hc) = (declaration_head(a), declaration_head(b), declaration_head(c));
    let (ma, mb, mc) = (dependency_ids(a), dependency_ids(b), dependency_ids(c));
    let (ta, tb, tc) = (declaration_tail(a), declaration_tail(b), declaration_tail(c));
    lemma_lex_order_antisymmetric(ha, hb);
    lemma_lex_order_antisymmetric(hb, hc);
    lemma_lex_order_antisymmetric(ha, hc);
    lemma_lex_order_antisymmetric(ha, ha);
    lemma_lex_order_antisymmetric(ma, mb);
    lemma_lex_order_antisymmetric(mb, mc);
    lemma_lex_order_antisymmetric(ma, mc);
    lemma_lex_order_antisymmetric(ma, ma);
    lemma_lex_order_antisymmetric(ta, tb);
    lemma_lex_order_antisymmetric(tb, tc);
    lemma_lex_order_antisymmetric(ta, tc);
    lemma_lex_order_antisymmetric(ta, ta);
    if lex_order(ha, hb) <= 0 && lex_order(hb, hc) <= 0 {
        lemma_lex_order_transitive(ha, hb, hc);
    }
    if lex_order(ma, mb) <= 0 && lex_order(mb, mc) <= 0 {
        lemma_lex_order_transitive(ma, mb, mc);
    }
    if lex_order(ta, tb) <= 0 && lex_order(tb, tc) <= 0 {
        lemma_lex_order_transitive(ta, tb, tc);
    }
}

/// The head key as unsigned parts.
fn head_parts(d: &BindingDeclaration) -> (k: Vec<u64>)
    ensures
        k@.map_values(|x: u64| x as int) == declaration_head(*d),
{
    let rank: u64 = match d.domain {
        BindingValueDomain::Quad => 0,
        BindingValueDomain::Scalar => 1,
        BindingValueDomain::Text => 2,
        BindingValueDomain::Evidence => 3,
        BindingValueDomain::Collection => 4,
        BindingValueDomain::Task => 5,
        BindingValueDomain::Connectivity => 6,
        BindingValueDomain::ActionAvailability => 7,
    };
    let k = vec![d.id.0, d.target.node.raw(), d.target.slot.0 as u64, rank];
    assert(k@.map_values(|x: u64| x as int) =~= declaration_head(*d));
    k
}

/// The dependency ids as unsigned parts.
fn dependency_parts(d: &BindingDeclaration) -> (k: Vec<u64>)
    ensures
        k@.map_values(|x: u64| x as int) == dependency_ids(*d),
{
    let mut k: Vec<u64> = Vec::with_capacity(d.dependencies.len());
    let mut i: usize = 0;
    while i < d.dependencies.len()
        invariant
            i <= d.dependencies@.len(),
            k@.len() == i,
            forall|j: int| 0 <= j < i ==> k@[j] == d.dependencies@[j].target_binding.0,
        decreases d.dependencies@.len() - i,
    {
        k.push(d.dependencies[i].target_binding.0);
        i += 1;
    }
    assert(k@.map_values(|x: u64| x as int) =~= dependency_ids(*d));
    k
}

/// The tail key as unsigned parts.
fn tail_parts(d: &BindingDeclaration) -> (k: Vec<u64>)
    ensures
        k@.map_values(|x: u64| x as int) == declaration_tail(*d),
{
    let (k0, k1): (u64, u64) = match d.collection_key {
        None => (0, 0),
        Some(v) => (1, v),
    };
    let (v0, v1): (u64, u64) = match d.semantic_value {
        None => (0, 0),
        Some(v) => (1, v.raw()),
    };
    let (s0, s1, s2, s3) = source_ref_parts(d.source_ref);
    let k = vec![k0, k1, v0, v1, s0, s1, s2, s3];
    assert(k@.map_values(|x: u64| x as int) =~= declaration_tail(*d));
    k
}

/// Compares two declarations in canonical order.
fn compare_declarations(a: &BindingDeclaration, b: &BindingDeclaration) -> (r: i8)
    ensures
        r == declaration_order(*a, *b),
{
    let h = compare_u64_slices(head_parts(a).as_slice(), head_parts(b).as_slice());
    if h != 0 {
        return h;
    }
    let m = compare_u64_slices(dependency_parts(a).as_slice(), dependency_parts(b).as_slice());
    if m != 0 {
        return m;
    }
    compare_u64_slices(tail_parts(a).as_slice(), tail_parts(b).as_slice())
}

/// Inserting a declaration after every one not above it and before the
/// first one above it keeps the declarations sorted.
proof fn lemma_insert_keeps_declarations_sorted(s: Seq<BindingDeclaration>, p: int, x: BindingDeclaration)
    requires
        declarations_sorted(s),
        0 <= p <= s.len(),
        forall|k: int| 0 <= k < p ==> declaration_order(s[k], x) <= 0,
        p < s.len() ==> declaration_order(x, s[p]) < 0,
    ensures
        declarations_sorted(s.insert(p, x)),
{
    let n = s.insert(p, x);
    assert forall|i: int, j: int| 0 <= i < j < n.len() implies declaration_order(n[i], n[j]) <= 0 by {
        if i == p && j > p {
            if p < j - 1 {
                assert(declaration_order(s[p], s[j - 1]) <= 0);
            } else {
                lemma_declaration_order(s[p], s[p], s[p]);
            }
            lemma_declaration_order(x, s[p], s[j - 1]);
        }
    }
}

/// Sorts declarations into canonical order, keeping every declaration.
fn sort_declarations(input: Vec<BindingDeclaration>) -> (r: Vec<BindingDeclaration>)
    ensures
        declarations_sorted(r@),
        r@.to_multiset() == input@.to_multiset(),
        r@.map_values(|d: BindingDeclaration| declaration_content(d)).to_multiset()
            == input@.map_values(|d: BindingDeclaration| declaration_content(d)).to_multiset(),
{
    broadcast use vstd::seq_lib::group_to_multiset_ensures;

    let ghost whole = input@;
    let mut rest = input;
    let mut out: Vec<BindingDeclaration> = Vec::new();
    while rest.len() > 0
        invariant
            declarations_sorted(out@),
            out@.to_multiset().add(rest@.to_multiset()) == whole.to_multiset(),
            out@.map_values(|d: BindingDeclaration| declaration_content(d)).to_multiset().add(
                rest@.map_values(|d: BindingDeclaration| declaration_content(d)).to_multiset(),
            ) == whole.map_values(|d: BindingDeclaration| declaration_content(d)).to_multiset(),
        decreases rest@.len(),
    {
        let ghost before = rest@;
        let x = rest.pop().unwrap();
        let mut p: usize = 0;
        while p < out.len() && compare_declarations(&x, &out[p]) >= 0
            invariant
                p <= out@.len(),
                forall|k: int| 0 <= k < p ==> declaration_order(x, #[trigger] out@[k]) >= 0,
            decreases out@.len() - p,
        {
            p += 1;
        }
        proof {
            assert forall|k: int| 0 <= k < p implies declaration_order(out@[k], x) <= 0 by {
                lemma_declaration_order(out@[k], x, x);
            }
            lemma_insert_keeps_declarations_sorted(out@, p as int, x);
            let f = |d: BindingDeclaration| declaration_content(d);
            assert(before =~= rest@.push(x));
            vstd::seq_lib::to_multiset_build(rest@, x);
            vstd::seq_lib::to_multiset_insert(out@, p as int, x);
            assert(before.map_values(f) =~= rest@.map_values(f).push(f(x)));
            assert(out@.insert(p as int, x).map_values(f) =~= out@.map_values(f).insert(p as int, f(x)));
            vstd::seq_lib::to_multiset_build(rest@.map_values(f), f(x));
            vstd::seq_lib::to_multiset_insert(out@.map_values(f), p as int, f(x));
        }
        out.insert(p, x);
    }
    proof {
        assert(rest@.to_multiset() =~= vstd::multiset::Multiset::empty());
        assert(rest@.map_values(|d: BindingDeclaration| declaration_content(d)).to_multiset() =~= vstd::multiset::Multiset::empty());
    }
    out
}

/// Why a binding graph was refused.
#[derive(Debug, Clone, Copy, PartialEq, Eq, PartialOrd, Ord, Hash, Structural)]
pub enum BindingDiagnosticKind {
    DuplicateBindingId,
    MissingTargetNode,
    DuplicateTargetSlot,
    DanglingDependency,
    DuplicateDependency,
    SelfDependency,
    Cycle,
    MissingCollectionKey,
    InvalidCollectionKey,
    ZeroSemanticRef,
    InvalidDomainSlot,
}

/// The diagnostic code of each kind.
pub open spec fn binding_code_text(kind: BindingDiagnosticKind) -> Seq<char> {
    match kind {
        BindingDiagnosticKind::DuplicateBindingId => "BG_DUP_BINDING_ID"@,
        BindingDiagnosticKind::MissingTargetNode => "BG_MISSING_TARGET"@,
        BindingDiagnosticKind::DuplicateTargetSlot => "BG_DUP_TARGET_SLOT"@,
        BindingDiagnosticKind::DanglingDependency => "BG_DANGLING_DEP"@,
        BindingDiagnosticKind::DuplicateDependency => "BG_DUP_DEP"@,
        BindingDiagnosticKind::SelfDependency => "BG_SELF_DEP"@,
        BindingDiagnosticKind::Cycle => "BG_CYCLE"@,
        BindingDiagnosticKind::MissingCollectionKey => "BG_MISSING_COLL_KEY"@,
        BindingDiagnosticKind::InvalidCollectionKey => "BG_INVALID_COLL_KEY"@,
        BindingDiagnosticKind::ZeroSemanticRef => "BG_ZERO_SEM_REF"@,
        BindingDiagnosticKind::InvalidDomainSlot => "BG_INVALID_DOMAIN_SLOT"@,
    }
}

impl BindingDiagnosticKind {
    fn code(self) -> (r: DiagnosticCode)
        ensures
            r.spec_text() == binding_code_text(self),
    {
        match self {
            Self::DuplicateBindingId => DiagnosticCode::new("BG_DUP_BINDING_ID"),
            Self::MissingTargetNode => DiagnosticCode::new("BG_MISSING_TARGET"),
            Self::DuplicateTargetSlot => DiagnosticCode::new("BG_DUP_TARGET_SLOT"),
            Self::DanglingDependency => DiagnosticCode::new("BG_DANGLING_DEP"),
            Self::DuplicateDependency => DiagnosticCode::new("BG_DUP_DEP"),
            Self::SelfDependency => DiagnosticCode::new("BG_SELF_DEP"),
            Self::Cycle => DiagnosticCode::new("BG_CYCLE"),
            Self::MissingCollectionKey => DiagnosticCode::new("BG_MISSING_COLL_KEY"),
            Self::InvalidCollectionKey => DiagnosticCode::new("BG_INVALID_COLL_KEY"),
            Self::ZeroSemanticRef => DiagnosticCode::new("BG_ZERO_SEM_REF"),
            Self::InvalidDomainSlot => DiagnosticCode::new("BG_INVALID_DOMAIN_SLOT"),
        }
    }
}

/// A diagnostic of a refused binding graph, ordered by its coordinate.
#[derive(Debug, Clone, Copy, PartialEq, Eq, PartialOrd, Ord, Hash)]
pub struct BindingDiagnostic {
    pub coordinate: DiagnosticCoordinate,
}

/// What a binding diagnostic says: the source, the kind, and the two ids.
pub type BindingDiagnosticContent = (Option<SourceRef>, BindingDiagnosticKind, u64, u64);

/// Diagnostic `d` says `e`.
pub open spec fn binding_diagnostic_says(d: BindingDiagnostic, e: BindingDiagnosticContent) -> bool {
    &&& d.coordinate.spec_source() == e.0
    &&& d.coordinate.spec_code().spec_bytes() == vstd::utf8::encode_utf8(binding_code_text(e.1))
    &&& d.coordinate.spec_domain() == e.2
    &&& d.coordinate.spec_secondary() == e.3
}

impl BindingDiagnostic {
    pub fn new(source: Option<SourceRef>, kind: BindingDiagnosticKind, primary_id: u64, secondary_id: u64) -> (r: Self)
        ensures
            binding_diagnostic_says(r, (source, kind, primary_id, secondary_id)),
    {
        let code = kind.code();
        proof {
            lemma_code_bytes_encode_text(code);
        }
        Self { coordinate: DiagnosticCoordinate::new(source, code, primary_id, secondary_id) }
    }
}

/// `ds` say `es`, one by one.
pub open spec fn says_each(ds: Seq<BindingDiagnostic>, es: Seq<BindingDiagnosticContent>) -> bool {
    &&& ds.len() == es.len()
    &&& forall|k: int| 0 <= k < ds.len() ==> binding_diagnostic_says(#[trigger] ds[k], es[k])
}

/// `e` if `c` holds, else nothing.
pub open spec fn when_holds(c: bool, e: BindingDiagnosticContent) -> Seq<BindingDiagnosticContent> {
    if c {
        seq![e]
    } else {
        Seq::empty()
    }
}

/// Pushing a diagnostic exactly when its condition holds keeps saying one by one.
proof fn lemma_says_step(
    ds0: Seq<BindingDiagnostic>,
    es0: Seq<BindingDiagnosticContent>,
    ds1: Seq<BindingDiagnostic>,
    d: BindingDiagnostic,
    c: bool,
    e: BindingDiagnosticContent,
)
    requires
        says_each(ds0, es0),
        c ==> binding_diagnostic_says(d, e) && ds1 == ds0.push(d),
        !c ==> ds1 == ds0,
    ensures
        says_each(ds1, es0 + when_holds(c, e)),
{
    let es1 = es0 + when_holds(c, e);
    assert forall|k: int| 0 <= k < ds1.len() implies binding_diagnostic_says(#[trigger] ds1[k], es1[k]) by {
        if k < ds0.len() {
            assert(ds1[k] == ds0[k]);
            assert(es1[k] == es0[k]);
        }
    }
}

/// Concatenation keeps saying one by one.
proof fn lemma_says_concat(
    ds0: Seq<BindingDiagnostic>,
    es0: Seq<BindingDiagnosticContent>,
    ds1: Seq<BindingDiagnostic>,
    es1: Seq<BindingDiagnosticContent>,
)
    requires
        says_each(ds0, es0),
        says_each(ds1, es1),
    ensures
        says_each(ds0 + ds1, es0 + es1),
{
    let ds = ds0 + ds1;
    let es = es0 + es1;
    assert forall|k: int| 0 <= k < ds.len() implies binding_diagnostic_says(#[trigger] ds[k], es[k]) by {
        if k < ds0.len() {
            assert(ds[k] == ds0[k]);
            assert(es[k] == es0[k]);
        } else {
            assert(ds[k] == ds1[k - ds0.len()]);
            assert(es[k] == es1[k - ds0.len()]);
        }
    }
}

/// Some node of the document has identity `node`.
pub open spec fn target_document_has_node(nodes: Seq<StaticUiNode>, node: StaticNodeId) -> bool {
    exists|k: int| 0 <= k < nodes.len() && #[trigger] nodes[k].spec_id() == node
}

/// Some declaration has id `id`.
pub open spec fn binding_declared(s: Seq<BindingDeclaration>, id: BindingId) -> bool {
    exists|k: int| 0 <= k < s.len() && #[trigger] s[k].id == id
}

/// A diagnostic of binding `b` with no second id.
pub open spec fn binding_diagnostic(b: BindingDeclaration, kind: BindingDiagnosticKind) -> BindingDiagnosticContent {
    (b.source_ref, kind, b.id.0, 0u64)
}

/// A diagnostic of binding `b` about dependency `dep`.
pub open spec fn dependency_diagnostic(b: BindingDeclaration, kind: BindingDiagnosticKind, dep: BindingId) -> BindingDiagnosticContent {
    (b.source_ref, kind, b.id.0, dep.0)
}

/// The diagnostics of dependency `j` of the binding at position `i`: it
/// repeats an earlier dependency, names the binding itself, or names no
/// declared binding.
pub open spec fn dependency_diagnostics_at(s: Seq<BindingDeclaration>, i: int, j: int) -> Seq<BindingDiagnosticContent> {
    let b = s[i];
    let dep = b.dependencies@[j].target_binding;
    when_holds(
        exists|m: int| 0 <= m < j && #[trigger] b.dependencies@[m] == b.dependencies@[j],
        dependency_diagnostic(b, BindingDiagnosticKind::DuplicateDependency, dep),
    ) + when_holds(dep == b.id, dependency_diagnostic(b, BindingDiagnosticKind::SelfDependency, dep)) + when_holds(
        !binding_declared(s, dep),
        dependency_diagnostic(b, BindingDiagnosticKind::DanglingDependency, dep),
    )
}

/// The diagnostics of the first `n` dependencies of the binding at position `i`.
pub open spec fn dependencies_diagnostics(s: Seq<BindingDeclaration>, i: int, n: int) -> Seq<BindingDiagnosticContent>
    decreases n,
{
    if n <= 0 {
        Seq::empty()
    } else {
        dependencies_diagnostics(s, i, n - 1) + dependency_diagnostics_at(s, i, n - 1)
    }
}

/// The structural diagnostics of the binding at position `i` of the sorted
/// declarations, in order: its target node is missing, an earlier binding
/// has its id, an earlier binding has its target, its semantic value is
/// zero, a collection lacks its key or another domain has one, then those
/// of each dependency.
pub open spec fn binding_diagnostics(s: Seq<BindingDeclaration>, nodes: Seq<StaticUiNode>, i: int) -> Seq<BindingDiagnosticContent> {
    let b = s[i];
    when_holds(
        !target_document_has_node(nodes, b.target.node),
        (b.source_ref, BindingDiagnosticKind::MissingTargetNode, b.id.0, b.target.node.spec_raw()),
    ) + when_holds(
        exists|k: int| 0 <= k < i && #[trigger] s[k].id == b.id,
        binding_diagnostic(b, BindingDiagnosticKind::DuplicateBindingId),
    ) + when_holds(
        exists|k: int| 0 <= k < i && #[trigger] s[k].target == b.target,
        binding_diagnostic(b, BindingDiagnosticKind::DuplicateTargetSlot),
    ) + when_holds(
        b.semantic_value matches Some(v) && v.spec_raw() == 0,
        binding_diagnostic(b, BindingDiagnosticKind::ZeroSemanticRef),
    ) + when_holds(
        b.domain == BindingValueDomain::Collection && b.collection_key is None,
        binding_diagnostic(b, BindingDiagnosticKind::MissingCollectionKey),
    ) + when_holds(
        b.domain != BindingValueDomain::Collection && b.collection_key is Some,
        binding_diagnostic(b, BindingDiagnosticKind::InvalidCollectionKey),
    ) + dependencies_diagnostics(s, i, b.dependencies@.len() as int)
}

/// The structural diagnostics of the first `n` sorted declarations.
pub open spec fn bindings_diagnostics(s: Seq<BindingDeclaration>, nodes: Seq<StaticUiNode>, n: int) -> Seq<BindingDiagnosticContent>
    decreases n,
{
    if n <= 0 {
        Seq::empty()
    } else {
        bindings_diagnostics(s, nodes, n - 1) + binding_diagnostics(s, nodes, n - 1)
    }
}

/// The structural diagnostics of the binding at position `i`, one saying each.
fn diagnose_binding(sorted: &Vec<BindingDeclaration>, nodes: &[StaticUiNode], i: usize) -> (ds: Vec<BindingDiagnostic>)
    requires
        i < sorted@.len(),
    ensures
        says_each(ds@, binding_diagnostics(sorted@, nodes@, i as int)),
{
    let ghost s = sorted@;
    let ghost ii = i as int;
    let b = &sorted[i];
    let mut found = false;
    let mut k: usize = 0;
    while k < nodes.len()
        invariant
            k <= nodes@.len(),
            found ==> target_document_has_node(nodes@, b.target.node),
            !found ==> forall|m: int| 0 <= m < k ==> #[trigger] nodes@[m].spec_id() != b.target.node,
        decreases nodes@.len() - k,
    {
        if nodes[k].id() == b.target.node {
            found = true;
        }
        k += 1;
    }
    let mut duplicate_id = false;
    let mut duplicate_target = false;
    let mut k: usize = 0;
    while k < i
        invariant
            k <= i,
            i < s.len(),
            s == sorted@,
            *b == s[ii],
            ii == i as int,
            duplicate_id == (exists|m: int| 0 <= m < k && #[trigger] s[m].id == b.id),
            duplicate_target == (exists|m: int| 0 <= m < k && #[trigger] s[m].target == b.target),
        decreases i - k,
    {
        if sorted[k].id == b.id {
            duplicate_id = true;
        }
        if sorted[k].target == b.target {
            duplicate_target = true;
        }
        k += 1;
    }
    let mut ds: Vec<BindingDiagnostic> = Vec::new();
    let ghost mut said: Seq<BindingDiagnosticContent> = Seq::empty();

    let ghost d0 = ds@;
    let c = !found;
    let ghost e = (b.source_ref, BindingDiagnosticKind::MissingTargetNode, b.id.0, b.target.node.spec_raw());
    let d = BindingDiagnostic::new(b.source_ref, BindingDiagnosticKind::MissingTargetNode, b.id.0, b.target.node.raw());
    if c {
        ds.push(d);
    }
    proof {
        lemma_says_step(d0, said, ds@, d, c, e);
        said = said + when_holds(c, e);
    }

    let ghost d0 = ds@;
    let c = duplicate_id;
    let ghost e = binding_diagnostic(*b, BindingDiagnosticKind::DuplicateBindingId);
    let d = BindingDiagnostic::new(b.source_ref, BindingDiagnosticKind::DuplicateBindingId, b.id.0, 0);
    if c {
        ds.push(d);
    }
    proof {
        lemma_says_step(d0, said, ds@, d, c, e);
        said = said + when_holds(c, e);
    }

    let ghost d0 = ds@;
    let c = duplicate_target;
    let ghost e = binding_diagnostic(*b, BindingDiagnosticKind::DuplicateTargetSlot);
    let d = BindingDiagnostic::new(b.source_ref, BindingDiagnosticKind::DuplicateTargetSlot, b.id.0, 0);
    if c {
        ds.push(d);
    }
    proof {
        lemma_says_step(d0, said, ds@, d, c, e);
        said = said + when_holds(c, e);
    }

    let ghost d0 = ds@;
    let c = match b.semantic_value {
        Some(v) => v.raw() == 0,
        None => false,
    };
    let ghost e = binding_diagnostic(*b, BindingDiagnosticKind::ZeroSemanticRef);
    let d = BindingDiagnostic::new(b.source_ref, BindingDiagnosticKind::ZeroSemanticRef, b.id.0, 0);
    if c {
        ds.push(d);
    }
    proof {
        lemma_says_step(d0, said, ds@, d, c, e);
        said = said + when_holds(c, e);
    }

    let is_collection = b.domain == BindingValueDomain::Collection;
    let ghost d0 = ds@;
    let c = is_collection && b.collection_key.is_none();
    let ghost e = binding_diagnostic(*b, BindingDiagnosticKind::MissingCollectionKey);
    let d = BindingDiagnostic::new(b.source_ref, BindingDiagnosticKind::MissingCollectionKey, b.id.0, 0);
    if c {
        ds.push(d);
    }
    proof {
        lemma_says_step(d0, said, ds@, d, c, e);
        said = said + when_holds(c, e);
    }

    let ghost d0 = ds@;
    let c = !is_collection && b.collection_key.is_some();
    let ghost e = binding_diagnostic(*b, BindingDiagnosticKind::InvalidCollectionKey);
    let d = BindingDiagnostic::new(b.source_ref, BindingDiagnosticKind::InvalidCollectionKey, b.id.0, 0);
    if c {
        ds.push(d);
    }
    proof {
        lemma_says_step(d0, said, ds@, d, c, e);
        said = said + when_holds(c, e);
    }
    let ghost head = said;

    let mut j: usize = 0;
    while j < b.dependencies.len()
        invariant
            s == sorted@,
            ii == i as int,
            0 <= ii < s.len(),
            *b == s[ii],
            j <= b.dependencies@.len(),
            says_each(ds@, head + dependencies_diagnostics(s, ii, j as int)),
        decreases b.dependencies@.len() - j,
    {
        let dep = b.dependencies[j];
        let mut repeated = false;
        let mut m: usize = 0;
        while m < j
            invariant
                m <= j,
                j < b.dependencies@.len(),
                dep == b.dependencies@[j as int],
                repeated == (exists|q: int| 0 <= q < m && #[trigger] b.dependencies@[q] == b.dependencies@[j as int]),
            decreases j - m,
        {
            if b.dependencies[m] == dep {
                repeated = true;
            }
            m += 1;
        }
        let mut declared = false;
        let mut m: usize = 0;
        while m < sorted.len()
            invariant
                m <= s.len(),
                s == sorted@,
                declared == (exists|q: int| 0 <= q < m && #[trigger] s[q].id == dep.target_binding),
            decreases s.len() - m,
        {
            if sorted[m].id == dep.target_binding {
                declared = true;
            }
            m += 1;
        }
        let ghost before_all = head + dependencies_diagnostics(s, ii, j as int);
        let ghost mut said2 = before_all;

        let ghost d0 = ds@;
        let c = repeated;
        let ghost e = dependency_diagnostic(*b, BindingDiagnosticKind::DuplicateDependency, dep.target_binding);
        let d = BindingDiagnostic::new(b.source_ref, BindingDiagnosticKind::DuplicateDependency, b.id.0, dep.target_binding.0);
        if c {
            ds.push(d);
        }
        proof {
            lemma_says_step(d0, said2, ds@, d, c, e);
            said2 = said2 + when_holds(c, e);
        }

        let ghost d0 = ds@;
        let c = dep.target_binding == b.id;
        let ghost e = dependency_diagnostic(*b, BindingDiagnosticKind::SelfDependency, dep.target_binding);
        let d = BindingDiagnostic::new(b.source_ref, BindingDiagnosticKind::SelfDependency, b.id.0, dep.target_binding.0);
        if c {
            ds.push(d);
        }
        proof {
            lemma_says_step(d0, said2, ds@, d, c, e);
            said2 = said2 + when_holds(c, e);
        }

        let ghost d0 = ds@;
        let c = !declared;
        let ghost e = dependency_diagnostic(*b, BindingDiagnosticKind::DanglingDependency, dep.target_binding);
        let d = BindingDiagnostic::new(b.source_ref, BindingDiagnosticKind::DanglingDependency, b.id.0, dep.target_binding.0);
        if c {
            ds.push(d);
        }
        proof {
            lemma_says_step(d0, said2, ds@, d, c, e);
            said2 = said2 + when_holds(c, e);
            assert(said2 =~= head + dependencies_diagnostics(s, ii, j + 1));
        }
        j += 1;
    }
    proof {
        assert(head + dependencies_diagnostics(s, ii, b.dependencies@.len() as int) =~= binding_diagnostics(s, nodes@, ii));
    }
    ds
}

/// `k` is the position of the first declaration with id `id`.
pub open spec fn is_first_with_id(s: Seq<BindingDeclaration>, id: BindingId, k: int) -> bool {
    &&& 0 <= k < s.len()
    &&& s[k].id == id
    &&& forall|m: int| 0 <= m < k ==> #[trigger] s[m].id != id
}

/// Declaration `d` lists a dependency on `y`.
pub open spec fn lists_dependency(d: BindingDeclaration, y: BindingId) -> bool {
    exists|j: int| 0 <= j < d.dependencies@.len() && #[trigger] d.dependencies@[j].target_binding == y
}

/// The first declaration with id `x` lists a dependency on `y`.
pub open spec fn depends_directly(s: Seq<BindingDeclaration>, x: BindingId, y: BindingId) -> bool {
    exists|k: int| #[trigger] is_first_with_id(s, x, k) && lists_dependency(s[k], y)
}

/// The id at position `k` of `p` depends directly on the next one.
pub open spec fn path_step(s: Seq<BindingDeclaration>, p: Seq<BindingId>, k: int) -> bool {
    depends_directly(s, p[k], p[k + 1])
}

/// Each id of `p` depends directly on the next.
pub open spec fn is_dependency_path(s: Seq<BindingDeclaration>, p: Seq<BindingId>) -> bool {
    forall|k: int| 0 <= k < p.len() - 1 ==> #[trigger] path_step(s, p, k)
}

/// Binding id `x` depends on itself through one or more dependencies.
pub open spec fn depends_on_itself(s: Seq<BindingDeclaration>, x: BindingId) -> bool {
    exists|p: Seq<BindingId>| #[trigger] is_dependency_path(s, p) && p.len() >= 2 && p[0] == x && p.last() == x
}

/// There is one first position of an id.
pub(crate) proof fn lemma_first_with_id_unique(s: Seq<BindingDeclaration>, id: BindingId, a: int, b: int)
    requires
        is_first_with_id(s, id, a),
        is_first_with_id(s, id, b),
    ensures
        a == b,
{
    if a < b {
        assert(s[a].id == id);
    } else if b < a {
        assert(s[b].id == id);
    }
}

/// A dependency path extends by a dependency of its last id.
proof fn lemma_path_extends(s: Seq<BindingDeclaration>, p: Seq<BindingId>, k: int, t: BindingId)
    requires
        is_dependency_path(s, p),
        p.len() >= 1,
        is_first_with_id(s, p.last(), k),
        lists_dependency(s[k], t),
    ensures
        is_dependency_path(s, p.push(t)),
{
    let q2 = p.push(t);
    assert forall|q: int| 0 <= q < q2.len() - 1 implies #[trigger] path_step(s, q2, q) by {
        if q < p.len() - 1 {
            assert(path_step(s, p, q));
            assert(q2[q] == p[q]);
            assert(q2[q + 1] == p[q + 1]);
        } else {
            assert(q2[q] == p.last());
            assert(q2[q + 1] == t);
            assert(is_first_with_id(s, q2[q], k));
        }
    }
}

/// The position of the first declaration with id `id`, if any.
pub(crate) fn first_index_of(s: &Vec<BindingDeclaration>, id: BindingId) -> (r: Option<usize>)
    ensures
        match r {
            Some(k) => is_first_with_id(s@, id, k as int),
            None => !binding_declared(s@, id),
        },
{
    let mut k: usize = 0;
    while k < s.len()
        invariant
            k <= s@.len(),
            forall|m: int| 0 <= m < k ==> #[trigger] s@[m].id != id,
        decreases s@.len() - k,
    {
        if s[k].id == id {
            return Some(k);
        }
        k += 1;
    }
    None
}

/// Every dependency of the declaration at `k` is not `root`, and the first
/// declaration of each is marked.
spec fn closed_at(s: Seq<BindingDeclaration>, marked: Seq<bool>, root: BindingId, k: int) -> bool {
    forall|j: int| #![trigger s[k].dependencies@[j]] 0 <= j < s[k].dependencies@.len() ==> dependency_closed(s, marked, root, s[k].dependencies@[j].target_binding)
}

/// `t` is not `root`, and the first declaration with id `t` is marked.
spec fn dependency_closed(s: Seq<BindingDeclaration>, marked: Seq<bool>, root: BindingId, t: BindingId) -> bool {
    t != root && forall|u: int| #[trigger] is_first_with_id(s, t, u) ==> marked[u]
}

/// Each marked declaration is the first with its id, and reached from
/// `root` along the dependency path recorded for it.
spec fn marks_reached(s: Seq<BindingDeclaration>, marked: Seq<bool>, paths: Map<int, Seq<BindingId>>, root: BindingId) -> bool {
    forall|k: int| 0 <= k < s.len() && #[trigger] marked[k] ==> {
        &&& is_first_with_id(s, s[k].id, k)
        &&& paths.contains_key(k)
        &&& paths[k].len() >= 1
        &&& paths[k][0] == root
        &&& paths[k].last() == s[k].id
        &&& is_dependency_path(s, paths[k])
    }
}

/// `mset` is the finite set of marked positions.
spec fn marks_counted(marked: Seq<bool>, mset: Set<int>) -> bool {
    &&& mset.finite()
    &&& forall|k: int| #![trigger mset.contains(k)] #![trigger marked[k]] mset.contains(k) <==> 0 <= k < marked.len() && marked[k]
}

/// Position `k` is on the stack.
spec fn on_stack(stack: Seq<usize>, k: int) -> bool {
    exists|q: int| 0 <= q < stack.len() && stack[q] as int == k
}

/// Along a path from `root`, when every marked declaration is closed, each
/// id before the last has a marked first declaration, and the next id is
/// not `root`.
proof fn lemma_walk_reaches(s: Seq<BindingDeclaration>, marked: Seq<bool>, root: BindingId, r0: int, p: Seq<BindingId>, q: int)
    requires
        marked.len() == s.len(),
        is_first_with_id(s, root, r0),
        marked[r0],
        forall|k: int| 0 <= k < s.len() && #[trigger] marked[k] ==> closed_at(s, marked, root, k),
        is_dependency_path(s, p),
        p.len() >= 2,
        p[0] == root,
        0 <= q < p.len() - 1,
    ensures
        exists|u: int| #[trigger] is_first_with_id(s, p[q], u) && marked[u],
        p[q + 1] != root,
    decreases q,
{
    assert(path_step(s, p, q));
    let k = choose|k: int| #[trigger] is_first_with_id(s, p[q], k) && lists_dependency(s[k], p[q + 1]);
    if q == 0 {
        lemma_first_with_id_unique(s, root, k, r0);
    } else {
        lemma_walk_reaches(s, marked, root, r0, p, q - 1);
        assert(path_step(s, p, q - 1));
        let k1 = choose|k1: int| #[trigger] is_first_with_id(s, p[q - 1], k1) && lists_dependency(s[k1], p[q - 1 + 1]);
        let u1 = choose|u: int| #[trigger] is_first_with_id(s, p[q - 1], u) && marked[u];
        lemma_first_with_id_unique(s, p[q - 1], k1, u1);
        assert(closed_at(s, marked, root, k1));
        let j = choose|j: int| 0 <= j < s[k1].dependencies@.len() && #[trigger] s[k1].dependencies@[j].target_binding == p[q];
        assert(dependency_closed(s, marked, root, s[k1].dependencies@[j].target_binding));
        assert(marked[k]);
    }
    assert(marked[k]);
    assert(closed_at(s, marked, root, k));
    let j2 = choose|j: int| 0 <= j < s[k].dependencies@.len() && #[trigger] s[k].dependencies@[j].target_binding == p[q + 1];
    assert(dependency_closed(s, marked, root, s[k].dependencies@[j2].target_binding));
}

/// With every marked declaration closed, `root` does not depend on itself.
proof fn lemma_closed_walk_excludes_cycle(s: Seq<BindingDeclaration>, marked: Seq<bool>, root: BindingId, r0: int)
    requires
        marked.len() == s.len(),
        is_first_with_id(s, root, r0),
        marked[r0],
        forall|k: int| 0 <= k < s.len() && #[trigger] marked[k] ==> closed_at(s, marked, root, k),
    ensures
        !depends_on_itself(s, root),
{
    if depends_on_itself(s, root) {
        let p = choose|p: Seq<BindingId>| #[trigger] is_dependency_path(s, p) && p.len() >= 2 && p[0] == root && p.last() == root;
        lemma_walk_reaches(s, marked, root, r0, p, p.len() - 2);
    }
}

/// Whether the id of the declaration at `i` depends on itself, found by a
/// depth-first walk from the first declaration with that id.
fn depends_on_itself_at(s: &Vec<BindingDeclaration>, i: usize) -> (r: bool)
    requires
        i < s@.len(),
    ensures
        r == depends_on_itself(s@, s@[i as int].id),
{
    let root = s[i].id;
    let n = s.len();
    let r0 = match first_index_of(s, root) {
        Some(k) => k,
        None => {
            proof {
                assert(s@[i as int].id == root);
            }
            return false;
        },
    };
    let mut marked: Vec<bool> = Vec::new();
    let mut m: usize = 0;
    while m < n
        invariant
            n == s@.len(),
            m <= n,
            marked@.len() == m,
            forall|q: int| 0 <= q < m ==> !#[trigger] marked@[q],
        decreases n - m,
    {
        marked.push(false);
        m += 1;
    }
    marked.set(r0, true);
    let mut stack: Vec<usize> = Vec::new();
    stack.push(r0);
    let ghost mut paths: Map<int, Seq<BindingId>> = Map::empty().insert(r0 as int, seq![root]);
    let ghost mut mset: Set<int> = Set::empty().insert(r0 as int);
    proof {
        assert(is_dependency_path(s@, seq![root]));
        assert forall|k: int| 0 <= k < s@.len() && #[trigger] marked@[k] implies closed_at(s@, marked@, root, k) || on_stack(stack@, k) by {
            assert(k == r0);
            assert(stack@[0] as int == k);
        }
    }
    while stack.len() > 0
        invariant
            n == s@.len(),
            i < n,
            marked@.len() == n,
            root == s@[i as int].id,
            is_first_with_id(s@, root, r0 as int),
            marked@[r0 as int],
            marks_reached(s@, marked@, paths, root),
            marks_counted(marked@, mset),
            forall|q: int| 0 <= q < stack@.len() ==> (#[trigger] stack@[q] as int) < n && marked@[stack@[q] as int],
            forall|k: int| 0 <= k < n && #[trigger] marked@[k] ==> closed_at(s@, marked@, root, k) || on_stack(stack@, k),
        decreases 2 * (n - mset.len()) + stack@.len(),
    {
        proof {
            vstd::set_lib::lemma_int_range(0, n as int);
            vstd::set_lib::lemma_len_subset(mset, vstd::set_lib::set_int_range(0, n as int));
        }
        let ghost measure0 = 2 * (n - mset.len()) + stack@.len();
        let ghost old_stack = stack@;
        let k = stack.pop().unwrap();
        let ghost m0 = mset.len();
        let ghost st0 = stack@.len();
        let ghost kk = k as int;
        proof {
            assert(old_stack == stack@.push(k));
            assert forall|k2: int| 0 <= k2 < n && k2 != kk && #[trigger] marked@[k2] implies closed_at(s@, marked@, root, k2) || on_stack(stack@, k2) by {
                if on_stack(old_stack, k2) {
                    let q = choose|q: int| 0 <= q < old_stack.len() && old_stack[q] as int == k2;
                    assert(q < stack@.len());
                    assert(stack@[q] == old_stack[q]);
                }
            }
        }
        let deps = &s[k].dependencies;
        let mut j: usize = 0;
        while j < deps.len()
            invariant
                n == s@.len(),
                i < n,
                marked@.len() == n,
                root == s@[i as int].id,
                is_first_with_id(s@, root, r0 as int),
                marked@[r0 as int],
                marks_reached(s@, marked@, paths, root),
                marks_counted(marked@, mset),
                kk == k as int,
                0 <= kk < n,
                marked@[kk],
                *deps == s@[kk].dependencies,
                j <= deps@.len(),
                forall|q: int| 0 <= q < j ==> dependency_closed(s@, marked@, root, #[trigger] deps@[q].target_binding),
                forall|q: int| 0 <= q < stack@.len() ==> (#[trigger] stack@[q] as int) < n && marked@[stack@[q] as int],
                forall|k2: int| 0 <= k2 < n && k2 != kk && #[trigger] marked@[k2] ==> closed_at(s@, marked@, root, k2) || on_stack(stack@, k2),
                stack@.len() >= st0,
                mset.len() - m0 == stack@.len() - st0,
            decreases deps@.len() - j,
        {
            let t = deps[j].target_binding;
            if t == root {
                proof {
                    assert(s@[kk].dependencies@[j as int].target_binding == root);
                    assert(lists_dependency(s@[kk], root));
                    lemma_path_extends(s@, paths[kk], kk, root);
                    let p = paths[kk].push(root);
                    assert(is_dependency_path(s@, p) && p.len() >= 2 && p[0] == root && p.last() == root);
                }
                return true;
            }
            match first_index_of(s, t) {
                Some(u) => {
                    if !marked[u] {
                        let ghost old_marked = marked@;
                        let ghost old_stack2 = stack@;
                        proof {
                            assert(s@[kk].dependencies@[j as int].target_binding == t);
                            assert(lists_dependency(s@[kk], t));
                            lemma_path_extends(s@, paths[kk], kk, t);
                            assert(!mset.contains(u as int));
                        }
                        marked.set(u, true);
                        stack.push(u);
                        proof {
                            paths = paths.insert(u as int, paths[kk].push(t));
                            mset = mset.insert(u as int);
                            assert forall|q: int| 0 <= q < j + 1 implies dependency_closed(s@, marked@, root, #[trigger] deps@[q].target_binding) by {
                                let tq = deps@[q].target_binding;
                                if q < j {
                                    assert(dependency_closed(s@, old_marked, root, tq));
                                }
                                assert forall|w: int| #[trigger] is_first_with_id(s@, tq, w) implies marked@[w] by {
                                    if q < j {
                                        assert(old_marked[w]);
                                    } else {
                                        lemma_first_with_id_unique(s@, tq, w, u as int);
                                    }
                                }
                            }
                            assert forall|k2: int| 0 <= k2 < n && k2 != kk && #[trigger] marked@[k2] implies closed_at(s@, marked@, root, k2) || on_stack(stack@, k2) by {
                                if k2 == u as int {
                                    assert(stack@[stack@.len() - 1] as int == k2);
                                } else if on_stack(old_stack2, k2) {
                                    let q = choose|q: int| 0 <= q < old_stack2.len() && old_stack2[q] as int == k2;
                                    assert(stack@[q] == old_stack2[q]);
                                } else {
                                    assert(old_marked[k2]);
                                    assert(closed_at(s@, old_marked, root, k2));
                                    assert forall|jj: int| #![trigger s@[k2].dependencies@[jj]] 0 <= jj < s@[k2].dependencies@.len() implies dependency_closed(s@, marked@, root, s@[k2].dependencies@[jj].target_binding) by {
                                        let tt = s@[k2].dependencies@[jj].target_binding;
                                        assert(dependency_closed(s@, old_marked, root, tt));
                                        assert forall|w: int| #[trigger] is_first_with_id(s@, tt, w) implies marked@[w] by {
                                            assert(old_marked[w]);
                                        }
                                    }
                                }
                            }
                            assert forall|k2: int| 0 <= k2 < s@.len() && #[trigger] marked@[k2] implies {
                                &&& is_first_with_id(s@, s@[k2].id, k2)
                                &&& paths.contains_key(k2)
                                &&& paths[k2].len() >= 1
                                &&& paths[k2][0] == root
                                &&& paths[k2].last() == s@[k2].id
                                &&& is_dependency_path(s@, paths[k2])
                            } by {
                                if k2 != u as int {
                                    assert(old_marked[k2]);
                                }
                            }
                        }
                    } else {
                        proof {
                            assert forall|q: int| 0 <= q < j + 1 implies dependency_closed(s@, marked@, root, #[trigger] deps@[q].target_binding) by {
                                let tq = deps@[q].target_binding;
                                if q == j {
                                    assert forall|w: int| #[trigger] is_first_with_id(s@, tq, w) implies marked@[w] by {
                                        lemma_first_with_id_unique(s@, tq, w, u as int);
                                    }
                                }
                            }
                        }
                    }
                },
                None => {
                    proof {
                        assert forall|q: int| 0 <= q < j + 1 implies dependency_closed(s@, marked@, root, #[trigger] deps@[q].target_binding) by {
                            let tq = deps@[q].target_binding;
                            if q == j {
                                assert forall|w: int| #[trigger] is_first_with_id(s@, tq, w) implies marked@[w] by {
                                    assert(s@[w].id == tq);
                                }
                            }
                        }
                    }
                },
            }
            j += 1;
        }
        proof {
            assert(closed_at(s@, marked@, root, kk));
            vstd::set_lib::lemma_int_range(0, n as int);
            vstd::set_lib::lemma_len_subset(mset, vstd::set_lib::set_int_range(0, n as int));
        }
    }
    proof {
        assert forall|k2: int| 0 <= k2 < s@.len() && #[trigger] marked@[k2] implies closed_at(s@, marked@, root, k2) by {
            if on_stack(stack@, k2) {
                let q = choose|q: int| 0 <= q < stack@.len() && stack@[q] as int == k2;
            }
        }
        lemma_closed_walk_excludes_cycle(s@, marked@, root, r0 as int);
    }
    false
}

/// The cycle diagnostics of the first `n` sorted declarations: one for each
/// declaration whose id depends on itself.
pub open spec fn cycle_diagnostics(s: Seq<BindingDeclaration>, n: int) -> Seq<BindingDiagnosticContent>
    decreases n,
{
    if n <= 0 {
        Seq::empty()
    } else {
        cycle_diagnostics(s, n - 1) + when_holds(
            depends_on_itself(s, s[n - 1].id),
            dependency_diagnostic(s[n - 1], BindingDiagnosticKind::Cycle, s[n - 1].id),
        )
    }
}

/// Every diagnostic of the sorted declarations `s`: the structural ones of
/// each declaration in order, then the cycle ones.
pub open spec fn graph_diagnostics(s: Seq<BindingDeclaration>, nodes: Seq<StaticUiNode>) -> Seq<BindingDiagnosticContent> {
    bindings_diagnostics(s, nodes, s.len() as int) + cycle_diagnostics(s, s.len() as int)
}

/// `d` says one of `all`.
pub open spec fn binding_says_one_of(d: BindingDiagnostic, all: Seq<BindingDiagnosticContent>) -> bool {
    exists|k: int| 0 <= k < all.len() && binding_diagnostic_says(d, #[trigger] all[k])
}

/// One of `ds` says `e`.
pub open spec fn binding_said_by_one_of(ds: Seq<BindingDiagnostic>, e: BindingDiagnosticContent) -> bool {
    exists|a: int| 0 <= a < ds.len() && binding_diagnostic_says(#[trigger] ds[a], e)
}

/// `ds` are the diagnostics `all` in canonical form: strictly increasing by
/// coordinate, each saying one of `all`, and each of `all` said by one.
pub open spec fn canonical_binding_diagnostics_of(ds: Seq<BindingDiagnostic>, all: Seq<BindingDiagnosticContent>) -> bool {
    &&& forall|a: int, b: int| 0 <= a < b < ds.len() ==> coordinate_order(ds[a].coordinate, ds[b].coordinate) < 0
    &&& forall|a: int| #![trigger ds[a]] 0 <= a < ds.len() ==> binding_says_one_of(ds[a], all)
    &&& forall|k: int| #![trigger all[k]] 0 <= k < all.len() ==> binding_said_by_one_of(ds, all[k])
}

/// Two diagnostics in the same place say the same thing.
proof fn lemma_same_place_says_same(x: BindingDiagnostic, d: BindingDiagnostic, e: BindingDiagnosticContent)
    requires
        coordinate_order(x.coordinate, d.coordinate) == 0,
        binding_diagnostic_says(d, e),
    ensures
        binding_diagnostic_says(x, e),
{
    lemma_coordinate_order(x.coordinate, d.coordinate, d.coordinate);
    lemma_source_ref_key_injective(x.coordinate.spec_source(), d.coordinate.spec_source());
    lemma_code_key_injective(x.coordinate.spec_code(), d.coordinate.spec_code());
}

/// Every diagnostic of `out` is one of `raw`.
spec fn drawn_from(out: Seq<BindingDiagnostic>, raw: Seq<BindingDiagnostic>) -> bool {
    forall|a: int| #![trigger out[a]] 0 <= a < out.len() ==> exists|j: int| #![trigger raw[j]] 0 <= j < raw.len() && out[a] == raw[j]
}

/// Every diagnostic of `raw` before position `n` has one in the same place in `out`.
spec fn covers(out: Seq<BindingDiagnostic>, raw: Seq<BindingDiagnostic>, n: int) -> bool {
    forall|j: int| #![trigger raw[j]] 0 <= j < n ==> exists|a: int| #![trigger out[a]] 0 <= a < out.len() && coordinate_order(out[a].coordinate, raw[j].coordinate) == 0
}

/// Sorts diagnostics by coordinate and keeps one of each coordinate.
fn canonical_binding_diagnostics(raw: &Vec<BindingDiagnostic>) -> (r: Vec<BindingDiagnostic>)
    ensures
        forall|a: int, b: int| 0 <= a < b < r@.len() ==> coordinate_order(r@[a].coordinate, r@[b].coordinate) < 0,
        drawn_from(r@, raw@),
        covers(r@, raw@, raw@.len() as int),
{
    let mut out: Vec<BindingDiagnostic> = Vec::new();
    let mut i: usize = 0;
    while i < raw.len()
        invariant
            i <= raw@.len(),
            forall|a: int, b: int| 0 <= a < b < out@.len() ==> coordinate_order(out@[a].coordinate, out@[b].coordinate) < 0,
            drawn_from(out@, raw@),
            covers(out@, raw@, i as int),
        decreases raw@.len() - i,
    {
        let d = raw[i];
        let mut p: usize = 0;
        while p < out.len() && compare_coordinates(d.coordinate, out[p].coordinate) > 0
            invariant
                p <= out@.len(),
                forall|k: int| 0 <= k < p ==> coordinate_order(d.coordinate, #[trigger] out@[k].coordinate) > 0,
            decreases out@.len() - p,
        {
            p += 1;
        }
        if p < out.len() && compare_coordinates(d.coordinate, out[p].coordinate) == 0 {
            proof {
                lemma_coordinate_order(out@[p as int].coordinate, d.coordinate, d.coordinate);
                assert(coordinate_order(out@[p as int].coordinate, raw@[i as int].coordinate) == 0);
                assert forall|j: int| #![trigger raw@[j]] 0 <= j < i + 1 implies exists|a: int| #![trigger out@[a]] 0 <= a < out@.len() && coordinate_order(out@[a].coordinate, raw@[j].coordinate) == 0 by {
                    if j < i {
                        let _ = raw@[j];
                    } else {
                        let _ = out@[p as int];
                    }
                }
            }
        } else {
            let ghost old_out = out@;
            proof {
                assert forall|k: int| 0 <= k < p implies coordinate_order(old_out[k].coordinate, d.coordinate) < 0 by {
                    lemma_coordinate_order(old_out[k].coordinate, d.coordinate, d.coordinate);
                }
            }
            out.insert(p, d);
            proof {
                let n = out@;
                assert(n == old_out.insert(p as int, d));
                assert forall|a: int, b: int| 0 <= a < b < n.len() implies coordinate_order(n[a].coordinate, n[b].coordinate) < 0 by {
                    if a == p && b > p {
                        lemma_coordinate_order(d.coordinate, old_out[p as int].coordinate, old_out[b - 1].coordinate);
                        lemma_coordinate_order(old_out[p as int].coordinate, d.coordinate, d.coordinate);
                    }
                }
                assert forall|a: int| #![trigger n[a]] 0 <= a < n.len() implies exists|j: int| #![trigger raw@[j]] 0 <= j < raw@.len() && n[a] == raw@[j] by {
                    let _ = n[a];
                    if a == p {
                        assert(n[a] == raw@[i as int]);
                    } else if a < p {
                        assert(n[a] == old_out[a]);
                    } else {
                        assert(n[a] == old_out[a - 1]);
                    }
                }
                assert forall|j: int| #![trigger raw@[j]] 0 <= j < i + 1 implies exists|a: int| #![trigger n[a]] 0 <= a < n.len() && coordinate_order(n[a].coordinate, raw@[j].coordinate) == 0 by {
                    let _ = raw@[j];
                    if j == i {
                        lemma_coordinate_order(d.coordinate, d.coordinate, d.coordinate);
                        assert(n[p as int] == d);
                    } else {
                        let a = choose|a: int| #![trigger old_out[a]] 0 <= a < old_out.len() && coordinate_order(old_out[a].coordinate, raw@[j].coordinate) == 0;
                        if a < p {
                            assert(n[a] == old_out[a]);
                        } else {
                            assert(n[a + 1] == old_out[a]);
                        }
                    }
                }
            }
        }
        i += 1;
    }
    out
}

/// The canonical form of diagnostics that say `all`, one by one.
proof fn lemma_canonical_says_all(raw: Seq<BindingDiagnostic>, canonical: Seq<BindingDiagnostic>, all: Seq<BindingDiagnosticContent>)
    requires
        says_each(raw, all),
        forall|a: int, b: int| 0 <= a < b < canonical.len() ==> coordinate_order(canonical[a].coordinate, canonical[b].coordinate) < 0,
        drawn_from(canonical, raw),
        covers(canonical, raw, raw.len() as int),
    ensures
        canonical_binding_diagnostics_of(canonical, all),
{
    assert forall|a: int| #![trigger canonical[a]] 0 <= a < canonical.len() implies binding_says_one_of(canonical[a], all) by {
        let _ = canonical[a];
        let j = choose|j: int| #![trigger raw[j]] 0 <= j < raw.len() && canonical[a] == raw[j];
        assert(binding_diagnostic_says(raw[j], all[j]));
    }
    assert forall|k: int| #![trigger all[k]] 0 <= k < all.len() implies binding_said_by_one_of(canonical, all[k]) by {
        let _ = raw[k];
        let a = choose|a: int| #![trigger canonical[a]] 0 <= a < canonical.len() && coordinate_order(canonical[a].coordinate, raw[k].coordinate) == 0;
        lemma_same_place_says_same(canonical[a], raw[k], all[k]);
    }
}

/// The dependencies are in strictly increasing order of the id they name.
pub open spec fn dependencies_increasing(deps: Seq<BindingDependency>) -> bool {
    forall|a: int, b: int| 0 <= a < b < deps.len() ==> deps[a].target_binding.0 < deps[b].target_binding.0
}

/// Inserting a dependency after every smaller one and before every larger
/// one keeps the dependencies increasing.
proof fn lemma_insert_keeps_increasing(old: Seq<BindingDependency>, p: int, x: BindingDependency)
    requires
        dependencies_increasing(old),
        0 <= p <= old.len(),
        forall|q: int| 0 <= q < p ==> (#[trigger] old[q]).target_binding.0 < x.target_binding.0,
        p < old.len() ==> x.target_binding.0 < old[p].target_binding.0,
    ensures
        dependencies_increasing(old.insert(p, x)),
{
    let n = old.insert(p, x);
    assert forall|a: int, b: int| 0 <= a < b < n.len() implies n[a].target_binding.0 < n[b].target_binding.0 by {
        if a == p && b > p {
            assert(n[b] == old[b - 1]);
            if b - 1 > p {
                assert(old[p].target_binding.0 < old[b - 1].target_binding.0);
            }
        } else if a < p && b == p {
            assert(n[a] == old[a]);
        } else if a < p && b > p {
            assert(n[a] == old[a]);
            assert(n[b] == old[b - 1]);
        } else if a > p {
            assert(n[a] == old[a - 1]);
            assert(n[b] == old[b - 1]);
        } else {
            assert(n[a] == old[a]);
            assert(n[b] == old[b]);
        }
    }
}

/// The elements of a sequence after an insertion are those before and the new one.
proof fn lemma_insert_to_set(old: Seq<BindingDependency>, p: int, x: BindingDependency)
    requires
        0 <= p <= old.len(),
    ensures
        old.insert(p, x).to_set() == old.to_set().insert(x),
{
    let n = old.insert(p, x);
    assert forall|v: BindingDependency| n.contains(v) <==> old.contains(v) || v == x by {
        if n.contains(v) {
            let a = choose|a: int| 0 <= a < n.len() && n[a] == v;
            if a < p {
                assert(old[a] == v);
            } else if a > p {
                assert(old[a - 1] == v);
            }
        }
        if old.contains(v) {
            let a = choose|a: int| 0 <= a < old.len() && old[a] == v;
            if a < p {
                assert(n[a] == v);
            } else {
                assert(n[a + 1] == v);
            }
        }
        if v == x {
            assert(n[p] == v);
        }
    }
    assert(n.to_set() =~= old.to_set().insert(x));
}

/// The elements of one more of a sequence's first elements.
proof fn lemma_take_one_more_to_set(s: Seq<BindingDependency>, i: int)
    requires
        0 <= i < s.len(),
    ensures
        s.take(i + 1).to_set() == s.take(i).to_set().insert(s[i]),
{
    assert(s.take(i + 1) =~= s.take(i).push(s[i]));
    lemma_insert_to_set(s.take(i), i, s[i]);
    assert(s.take(i).push(s[i]) =~= s.take(i).insert(i, s[i]));
}

/// The dependencies in increasing order of the id they name, each once.
fn normalized_dependencies(deps: &Vec<BindingDependency>) -> (r: Vec<BindingDependency>)
    ensures
        dependencies_increasing(r@),
        r@.to_set() == deps@.to_set(),
{
    let mut out: Vec<BindingDependency> = Vec::new();
    let mut i: usize = 0;
    proof {
        assert(out@.to_set() =~= deps@.take(0).to_set());
    }
    while i < deps.len()
        invariant
            i <= deps@.len(),
            dependencies_increasing(out@),
            out@.to_set() == deps@.take(i as int).to_set(),
        decreases deps@.len() - i,
    {
        let x = deps[i];
        proof {
            lemma_take_one_more_to_set(deps@, i as int);
        }
        let mut p: usize = 0;
        while p < out.len() && out[p].target_binding.0 < x.target_binding.0
            invariant
                p <= out@.len(),
                forall|q: int| 0 <= q < p ==> (#[trigger] out@[q]).target_binding.0 < x.target_binding.0,
            decreases out@.len() - p,
        {
            p += 1;
        }
        if p < out.len() && out[p].target_binding.0 == x.target_binding.0 {
            proof {
                assert(out@[p as int] == x);
                assert(out@.contains(x));
                assert(out@.to_set().insert(x) =~= out@.to_set());
            }
        } else {
            proof {
                lemma_insert_keeps_increasing(out@, p as int, x);
                lemma_insert_to_set(out@, p as int, x);
            }
            out.insert(p, x);
        }
        i += 1;
    }
    proof {
        assert(deps@.take(deps@.len() as int) =~= deps@);
    }
    out
}
/// `out` holds what the sorted declarations `s` say, each declaration with
/// its dependencies in increasing order and each once, in canonical order.
pub open spec fn normalized_bindings(out: Seq<BindingDeclaration>, s: Seq<BindingDeclaration>) -> bool {
    &&& declarations_sorted(out)
    &&& forall|k: int| 0 <= k < out.len() ==> dependencies_increasing(#[trigger] out[k].dependencies@)
    &&& out.map_values(|d: BindingDeclaration| declaration_content(d)).to_multiset()
        == s.map_values(|d: BindingDeclaration| declaration_content(d)).to_multiset()
}

/// What building a binding graph from `bindings` gives: the declarations in
/// canonical order, each with its dependencies in increasing order, when
/// none has a diagnostic; else the canonical diagnostics of the declarations
/// in that order.
pub open spec fn graph_build_outcome(
    bindings: Seq<BindingDeclaration>,
    nodes: Seq<StaticUiNode>,
    r: Result<BindingGraphDocument, Vec<BindingDiagnostic>>,
) -> bool {
    exists|s: Seq<BindingDeclaration>|
        {
            &&& declarations_sorted(s)
            &&& s.to_multiset() == bindings.to_multiset()
            &&& match r {
                Ok(doc) => graph_diagnostics(s, nodes).len() == 0 && normalized_bindings(doc.bindings@, s),
                Err(ds) => graph_diagnostics(s, nodes).len() > 0 && canonical_binding_diagnostics_of(ds@, graph_diagnostics(s, nodes)),
            }
        }
}

/// A validated binding graph: its bindings in canonical order.
#[derive(Debug, Clone, PartialEq, Eq, Hash)]
pub struct BindingGraphDocument {
    pub bindings: Vec<BindingDeclaration>,
}

impl BindingGraphDocument {
    /// Checks binding declarations against a target document. The
    /// declarations are first put in canonical order; a declaration is
    /// diagnosed when its target node is missing, an earlier one has its id or
    /// its target, its semantic value is zero, its collection key is missing
    /// or not allowed, a dependency repeats, names the binding itself or names
    /// no binding, or its id depends on itself. With no diagnostic the
    /// declarations are accepted, each with its dependencies in increasing
    /// order and each once, in canonical order; otherwise the diagnostics are
    /// returned sorted by coordinate, each once.
    #[verifier::rlimit(40)]
    pub fn build(bindings: Vec<BindingDeclaration>, target_document: &StaticUiDocument) -> (r: Result<Self, Vec<BindingDiagnostic>>)
        ensures
            graph_build_outcome(bindings@, target_document.spec_nodes(), r),
    {
        broadcast use vstd::seq_lib::group_to_multiset_ensures;

        let ghost input = bindings@;
        let mut sorted = sort_declarations(bindings);
        let nodes = target_document.nodes();
        let ghost s = sorted@;
        let ghost ns = nodes@;
        let mut raw: Vec<BindingDiagnostic> = Vec::new();
        let mut i: usize = 0;
        while i < sorted.len()
            invariant
                s == sorted@,
                ns == nodes@,
                i <= s.len(),
                says_each(raw@, bindings_diagnostics(s, ns, i as int)),
            decreases s.len() - i,
        {
            let ghost before = raw@;
            let mut found = diagnose_binding(&sorted, nodes, i);
            let ghost new_ds = found@;
            raw.append(&mut found);
            proof {
                lemma_says_concat(before, bindings_diagnostics(s, ns, i as int), new_ds, binding_diagnostics(s, ns, i as int));
                assert(raw@ == before + new_ds);
            }
            i += 1;
        }
        let ghost structural = bindings_diagnostics(s, ns, s.len() as int);
        let mut i: usize = 0;
        proof {
            assert(structural + cycle_diagnostics(s, 0) =~= structural);
        }
        while i < sorted.len()
            invariant
                s == sorted@,
                ns == nodes@,
                i <= s.len(),
                structural == bindings_diagnostics(s, ns, s.len() as int),
                says_each(raw@, structural + cycle_diagnostics(s, i as int)),
            decreases s.len() - i,
        {
            let id = sorted[i].id;
            let source = sorted[i].source_ref;
            let c = depends_on_itself_at(&sorted, i);
            let d = BindingDiagnostic::new(source, BindingDiagnosticKind::Cycle, id.0, id.0);
            let ghost d0 = raw@;
            let ghost e = dependency_diagnostic(s[i as int], BindingDiagnosticKind::Cycle, s[i as int].id);
            if c {
                raw.push(d);
            }
            proof {
                lemma_says_step(d0, structural + cycle_diagnostics(s, i as int), raw@, d, c, e);
                assert(structural + cycle_diagnostics(s, i as int) + when_holds(c, e) =~= structural + cycle_diagnostics(s, i + 1));
            }
            i += 1;
        }
        let canonical = canonical_binding_diagnostics(&raw);
        proof {
            lemma_canonical_says_all(raw@, canonical@, graph_diagnostics(s, ns));
        }
        if raw.len() > 0 {
            proof {
                assert(declarations_sorted(s) && s.to_multiset() == input.to_multiset());
            }
            return Err(canonical);
        }
        let mut normalized: Vec<BindingDeclaration> = Vec::new();
        while sorted.len() > 0
            invariant
                forall|k: int| 0 <= k < normalized@.len() ==> dependencies_increasing(#[trigger] normalized@[k].dependencies@),
                normalized@.map_values(|d: BindingDeclaration| declaration_content(d)).to_multiset().add(
                    sorted@.map_values(|d: BindingDeclaration| declaration_content(d)).to_multiset(),
                ) == s.map_values(|d: BindingDeclaration| declaration_content(d)).to_multiset(),
            decreases sorted@.len(),
        {
            let ghost before = sorted@;
            let ghost before_out = normalized@;
            let b = sorted.pop().unwrap();
            let dependencies = normalized_dependencies(&b.dependencies);
            let nb = BindingDeclaration {
                id: b.id,
                target: b.target,
                domain: b.domain,
                dependencies,
                collection_key: b.collection_key,
                semantic_value: b.semantic_value,
                source_ref: b.source_ref,
            };
            proof {
                let f = |d: BindingDeclaration| declaration_content(d);
                assert(f(nb) == f(b));
                assert(before =~= sorted@.push(b));
                assert(before.map_values(f) =~= sorted@.map_values(f).push(f(b)));
                vstd::seq_lib::to_multiset_build(sorted@.map_values(f), f(b));
                assert(before_out.push(nb).map_values(f) =~= before_out.map_values(f).push(f(nb)));
                vstd::seq_lib::to_multiset_build(before_out.map_values(f), f(nb));
            }
            normalized.push(nb);
            proof {
                assert forall|k: int| 0 <= k < normalized@.len() implies dependencies_increasing(#[trigger] normalized@[k].dependencies@) by {
                    if k < before_out.len() {
                        assert(normalized@[k] == before_out[k]);
                    }
                }
            }
        }
        proof {
            let f = |d: BindingDeclaration| declaration_content(d);
            assert(sorted@.map_values(f).to_multiset() =~= vstd::multiset::Multiset::empty());
            assert(normalized@.map_values(f).to_multiset() =~= s.map_values(f).to_multiset());
        }
        let ghost pre = normalized@;
        let out = sort_declarations(normalized);
        proof {
            assert forall|k: int| 0 <= k < out@.len() implies dependencies_increasing(#[trigger] out@[k].dependencies@) by {
                assert(out@.to_multiset().count(out@[k]) > 0);
                assert(pre.contains(out@[k]));
                let m = choose|m: int| 0 <= m < pre.len() && pre[m] == out@[k];
                assert(dependencies_increasing(pre[m].dependencies@));
            }
            assert(declarations_sorted(s) && s.to_multiset() == input.to_multiset());
            assert(normalized_bindings(out@, s));
        }
        Ok(BindingGraphDocument { bindings: out })
    }
}

/// With no cycle diagnostic among the first `n` declarations, none of their
/// ids depends on itself.
proof fn lemma_no_cycle_diagnostics(s: Seq<BindingDeclaration>, n: int)
    requires
        0 <= n <= s.len(),
        cycle_diagnostics(s, n).len() == 0,
    ensures
        forall|i: int| 0 <= i < n ==> !depends_on_itself(s, #[trigger] s[i].id),
    decreases n,
{
    if n > 0 {
        lemma_no_cycle_diagnostics(s, n - 1);
    }
}

/// With no structural diagnostic among the first `n` declarations, each of
/// them has an id no earlier one has, and each of its dependencies names a
/// declared binding other than itself.
proof fn lemma_no_structural_diagnostics(s: Seq<BindingDeclaration>, nodes: Seq<StaticUiNode>, n: int)
    requires
        0 <= n <= s.len(),
        bindings_diagnostics(s, nodes, n).len() == 0,
    ensures
        forall|i: int, k: int| 0 <= k < i < n ==> #[trigger] s[k].id != #[trigger] s[i].id,
        forall|i: int, j: int| 0 <= i < n && 0 <= j < s[i].dependencies@.len() ==> {
            let t = #[trigger] s[i].dependencies@[j].target_binding;
            t != s[i].id && binding_declared(s, t)
        },
    decreases n,
{
    if n > 0 {
        lemma_no_structural_diagnostics(s, nodes, n - 1);
        let i = n - 1;
        assert(binding_diagnostics(s, nodes, i).len() == 0);
        assert forall|k: int| 0 <= k < i implies s[k].id != s[i].id by {
            if s[k].id == s[i].id {
                assert(exists|m: int| 0 <= m < i && #[trigger] s[m].id == s[i].id);
            }
        }
        lemma_no_dependency_diagnostics(s, i, s[i].dependencies@.len() as int);
    }
}

/// With no diagnostic among the first `n` dependencies of the declaration at
/// `i`, each names a declared binding other than itself.
proof fn lemma_no_dependency_diagnostics(s: Seq<BindingDeclaration>, i: int, n: int)
    requires
        0 <= i < s.len(),
        0 <= n <= s[i].dependencies@.len(),
        dependencies_diagnostics(s, i, n).len() == 0,
    ensures
        forall|j: int| 0 <= j < n ==> {
            let t = #[trigger] s[i].dependencies@[j].target_binding;
            t != s[i].id && binding_declared(s, t)
        },
    decreases n,
{
    if n > 0 {
        lemma_no_dependency_diagnostics(s, i, n - 1);
        assert(dependency_diagnostics_at(s, i, n - 1).len() == 0);
    }
}

/// A binding graph that raises no diagnostic has unique ids, every
/// dependency names another declared binding, and no binding depends on
/// itself through its dependencies.
pub proof fn lemma_accepted_graph_is_acyclic(s: Seq<BindingDeclaration>, nodes: Seq<StaticUiNode>)
    requires
        graph_diagnostics(s, nodes).len() == 0,
    ensures
        forall|i: int, k: int| 0 <= k < i < s.len() ==> #[trigger] s[k].id != #[trigger] s[i].id,
        forall|i: int, j: int| 0 <= i < s.len() && 0 <= j < s[i].dependencies@.len() ==> {
            let t = #[trigger] s[i].dependencies@[j].target_binding;
            t != s[i].id && binding_declared(s, t)
        },
        forall|i: int| 0 <= i < s.len() ==> !depends_on_itself(s, #[trigger] s[i].id),
{
    lemma_no_structural_diagnostics(s, nodes, s.len() as int);
    lemma_no_cycle_diagnostics(s, s.len() as int);
}

/// Two increasing dependency lists with the same dependencies are one.
proof fn lemma_increasing_dependencies_unique(s: Seq<BindingDependency>, t: Seq<BindingDependency>)
    requires
        dependencies_increasing(s),
        dependencies_increasing(t),
        s.to_set() == t.to_set(),
    ensures
        s == t,
{
    let f = |d: BindingDependency| d.target_binding;
    let a = s.map_values(f);
    let b = t.map_values(f);
    s.lemma_to_set_map_commutes(f);
    t.lemma_to_set_map_commutes(f);
    assert(crate::binding_graph_observation::ids_increasing(a));
    assert(crate::binding_graph_observation::ids_increasing(b));
    crate::binding_graph_observation::lemma_increasing_ids_unique(a, b);
    assert(s.len() == a.len() && t.len() == b.len());
    assert forall|i: int| 0 <= i < s.len() implies s[i] == t[i] by {
        assert(a[i] == s[i].target_binding && b[i] == t[i].target_binding);
    }
    assert(s =~= t);
}

/// Normalized declarations with the same content stand in the same place.
proof fn lemma_same_content_same_place(x: BindingDeclaration, y: BindingDeclaration)
    requires
        dependencies_increasing(x.dependencies@),
        dependencies_increasing(y.dependencies@),
        declaration_content(x) == declaration_content(y),
    ensures
        declaration_order(x, y) == 0,
{
    lemma_increasing_dependencies_unique(x.dependencies@, y.dependencies@);
    lemma_lex_order_antisymmetric(declaration_head(x), declaration_head(y));
    lemma_lex_order_antisymmetric(dependency_ids(x), dependency_ids(y));
    lemma_lex_order_antisymmetric(declaration_tail(x), declaration_tail(y));
}

/// Declarations in the same place have the same content.
proof fn lemma_same_place_same_content(x: BindingDeclaration, y: BindingDeclaration)
    requires
        declaration_order(x, y) == 0,
    ensures
        declaration_content(x) == declaration_content(y),
{
    lemma_lex_order_antisymmetric(declaration_head(x), declaration_head(y));
    lemma_lex_order_antisymmetric(dependency_ids(x), dependency_ids(y));
    lemma_lex_order_antisymmetric(declaration_tail(x), declaration_tail(y));
    let (dx, dy) = (x.dependencies@, y.dependencies@);
    assert(dependency_ids(x).len() == dx.len() && dependency_ids(y).len() == dy.len());
    assert forall|i: int| 0 <= i < dx.len() implies dx[i] == dy[i] by {
        assert(dependency_ids(x)[i] == dependency_ids(y)[i]);
    }
    assert(dx =~= dy);
}

/// Reordering keeps the multiset of what a function gives on the items.
proof fn lemma_map_multiset<A, B>(a: Seq<A>, b: Seq<A>, f: spec_fn(A) -> B)
    requires
        a.to_multiset() == b.to_multiset(),
    ensures
        a.map_values(f).to_multiset() == b.map_values(f).to_multiset(),
    decreases a.len(),
{
    vstd::seq_lib::to_multiset_len(a);
    vstd::seq_lib::to_multiset_len(b);
    if a.len() == 0 {
        assert(a.map_values(f) =~= b.map_values(f));
    } else {
        let x = a.last();
        let a1 = a.drop_last();
        assert(a =~= a1.push(x));
        vstd::seq_lib::to_multiset_build(a1, x);
        assert(a[a.len() - 1] == x);
        vstd::seq_lib::to_multiset_contains(a, x);
        vstd::seq_lib::to_multiset_contains(b, x);
        let j = choose|j: int| 0 <= j < b.len() && b[j] == x;
        vstd::seq_lib::to_multiset_remove(b, j);
        let b1 = b.remove(j);
        assert(b1.to_multiset() =~= a1.to_multiset());
        lemma_map_multiset(a1, b1, f);
        assert(a.map_values(f) =~= a1.map_values(f).push(f(x)));
        vstd::seq_lib::to_multiset_build(a1.map_values(f), f(x));
        assert(b1.map_values(f).insert(j, f(x)) =~= b.map_values(f));
        vstd::seq_lib::to_multiset_insert(b1.map_values(f), j, f(x));
    }
}

/// Two arrangements in canonical order of normalized declarations with the
/// same contents hold the same contents in the same order.
proof fn lemma_normalized_unique(s: Seq<BindingDeclaration>, t: Seq<BindingDeclaration>)
    requires
        declarations_sorted(s),
        declarations_sorted(t),
        forall|k: int| 0 <= k < s.len() ==> dependencies_increasing(#[trigger] s[k].dependencies@),
        forall|k: int| 0 <= k < t.len() ==> dependencies_increasing(#[trigger] t[k].dependencies@),
        s.map_values(|d: BindingDeclaration| declaration_content(d)).to_multiset() == t.map_values(
            |d: BindingDeclaration| declaration_content(d),
        ).to_multiset(),
    ensures
        s.map_values(|d: BindingDeclaration| declaration_content(d)) == t.map_values(|d: BindingDeclaration| declaration_content(d)),
    decreases s.len(),
{
    let c = |d: BindingDeclaration| declaration_content(d);
    let ms = s.map_values(c);
    let mt = t.map_values(c);
    vstd::seq_lib::to_multiset_len(ms);
    vstd::seq_lib::to_multiset_len(mt);
    if s.len() == 0 {
        assert(ms =~= mt);
    } else {
        assert(ms.contains(ms[0]));
        assert(mt.contains(mt[0]));
        vstd::seq_lib::to_multiset_contains(ms, ms[0]);
        vstd::seq_lib::to_multiset_contains(mt, ms[0]);
        vstd::seq_lib::to_multiset_contains(ms, mt[0]);
        vstd::seq_lib::to_multiset_contains(mt, mt[0]);
        let j = choose|j: int| 0 <= j < mt.len() && mt[j] == ms[0];
        let i = choose|i: int| 0 <= i < ms.len() && ms[i] == mt[0];
        lemma_same_content_same_place(t[j], s[0]);
        lemma_same_content_same_place(s[i], t[0]);
        if j > 0 {
            assert(declaration_order(t[0], t[j]) <= 0);
        }
        if i > 0 {
            assert(declaration_order(s[0], s[i]) <= 0);
        }
        lemma_declaration_order(t[0], t[j], s[0]);
        lemma_declaration_order(s[0], s[i], t[0]);
        lemma_declaration_order(s[0], t[0], s[0]);
        lemma_same_place_same_content(s[0], t[0]);
        let s1 = s.drop_first();
        let t1 = t.drop_first();
        assert(s1.map_values(c) =~= ms.remove(0));
        assert(t1.map_values(c) =~= mt.remove(0));
        vstd::seq_lib::to_multiset_remove(ms, 0);
        vstd::seq_lib::to_multiset_remove(mt, 0);
        assert forall|a: int, b: int| 0 <= a < b < s1.len() implies declaration_order(s1[a], s1[b]) <= 0 by {
            assert(declaration_order(s[a + 1], s[b + 1]) <= 0);
        }
        assert forall|a: int, b: int| 0 <= a < b < t1.len() implies declaration_order(t1[a], t1[b]) <= 0 by {
            assert(declaration_order(t[a + 1], t[b + 1]) <= 0);
        }
        assert forall|k: int| 0 <= k < s1.len() implies dependencies_increasing(#[trigger] s1[k].dependencies@) by {
            assert(s1[k] == s[k + 1]);
        }
        assert forall|k: int| 0 <= k < t1.len() implies dependencies_increasing(#[trigger] t1[k].dependencies@) by {
            assert(t1[k] == t[k + 1]);
        }
        lemma_normalized_unique(s1, t1);
        assert forall|k: int| 0 <= k < ms.len() implies ms[k] == mt[k] by {
            if k > 0 {
                assert(ms[k] == s1.map_values(c)[k - 1]);
                assert(mt[k] == t1.map_values(c)[k - 1]);
            }
        }
        assert(ms =~= mt);
    }
}

/// The sort key of a declaration: head, dependency ids and tail.
pub open spec fn declaration_key(d: BindingDeclaration) -> (Seq<int>, Seq<int>, Seq<int>) {
    (declaration_head(d), dependency_ids(d), declaration_tail(d))
}

/// Two declarations say the same: every field, dependencies included, is equal.
pub open spec fn same_declaration(a: BindingDeclaration, b: BindingDeclaration) -> bool {
    &&& a.id == b.id
    &&& a.target == b.target
    &&& a.domain == b.domain
    &&& a.dependencies@ == b.dependencies@
    &&& a.collection_key == b.collection_key
    &&& a.semantic_value == b.semantic_value
    &&& a.source_ref == b.source_ref
}

/// Two declaration sequences say the same, position by position.
pub open spec fn same_declarations(s: Seq<BindingDeclaration>, t: Seq<BindingDeclaration>) -> bool {
    s.len() == t.len() && forall|k: int| 0 <= k < s.len() ==> same_declaration(#[trigger] s[k], t[k])
}

/// Declarations with one sort key say the same.
proof fn lemma_key_same_declaration(a: BindingDeclaration, b: BindingDeclaration)
    requires
        declaration_key(a) == declaration_key(b),
    ensures
        same_declaration(a, b),
{
    lemma_head_tail_fields(a, b);
    let (dx, dy) = (a.dependencies@, b.dependencies@);
    assert(dependency_ids(a).len() == dx.len() && dependency_ids(b).len() == dy.len());
    assert forall|i: int| 0 <= i < dx.len() implies dx[i] == dy[i] by {
        assert(dependency_ids(a)[i] == dependency_ids(b)[i]);
    }
    assert(dx =~= dy);
}

/// Two arrangements in canonical order of the same declarations say the
/// same, position by position.
proof fn lemma_sorted_declarations_unique(s: Seq<BindingDeclaration>, t: Seq<BindingDeclaration>)
    requires
        declarations_sorted(s),
        declarations_sorted(t),
        s.map_values(|d: BindingDeclaration| declaration_key(d)).to_multiset() == t.map_values(
            |d: BindingDeclaration| declaration_key(d),
        ).to_multiset(),
    ensures
        same_declarations(s, t),
    decreases s.len(),
{
    let c = |d: BindingDeclaration| declaration_key(d);
    let ms = s.map_values(c);
    let mt = t.map_values(c);
    vstd::seq_lib::to_multiset_len(ms);
    vstd::seq_lib::to_multiset_len(mt);
    if s.len() > 0 {
        assert(ms.contains(ms[0]));
        assert(mt.contains(mt[0]));
        vstd::seq_lib::to_multiset_contains(ms, ms[0]);
        vstd::seq_lib::to_multiset_contains(mt, ms[0]);
        vstd::seq_lib::to_multiset_contains(ms, mt[0]);
        vstd::seq_lib::to_multiset_contains(mt, mt[0]);
        let j = choose|j: int| 0 <= j < mt.len() && mt[j] == ms[0];
        let i = choose|i: int| 0 <= i < ms.len() && ms[i] == mt[0];
        lemma_lex_order_antisymmetric(declaration_head(t[j]), declaration_head(s[0]));
        lemma_lex_order_antisymmetric(dependency_ids(t[j]), dependency_ids(s[0]));
        lemma_lex_order_antisymmetric(declaration_tail(t[j]), declaration_tail(s[0]));
        lemma_lex_order_antisymmetric(declaration_head(s[i]), declaration_head(t[0]));
        lemma_lex_order_antisymmetric(dependency_ids(s[i]), dependency_ids(t[0]));
        lemma_lex_order_antisymmetric(declaration_tail(s[i]), declaration_tail(t[0]));
        if j > 0 {
            assert(declaration_order(t[0], t[j]) <= 0);
        }
        if i > 0 {
            assert(declaration_order(s[0], s[i]) <= 0);
        }
        lemma_declaration_order(t[0], t[j], s[0]);
        lemma_declaration_order(s[0], s[i], t[0]);
        lemma_declaration_order(s[0], t[0], s[0]);
        lemma_lex_order_antisymmetric(declaration_head(s[0]), declaration_head(t[0]));
        lemma_lex_order_antisymmetric(dependency_ids(s[0]), dependency_ids(t[0]));
        lemma_lex_order_antisymmetric(declaration_tail(s[0]), declaration_tail(t[0]));
        assert(ms[0] == mt[0]);
        let s1 = s.drop_first();
        let t1 = t.drop_first();
        assert(s1.map_values(c) =~= ms.remove(0));
        assert(t1.map_values(c) =~= mt.remove(0));
        vstd::seq_lib::to_multiset_remove(ms, 0);
        vstd::seq_lib::to_multiset_remove(mt, 0);
        assert forall|a: int, b: int| 0 <= a < b < s1.len() implies declaration_order(s1[a], s1[b]) <= 0 by {
            assert(declaration_order(s[a + 1], s[b + 1]) <= 0);
        }
        assert forall|a: int, b: int| 0 <= a < b < t1.len() implies declaration_order(t1[a], t1[b]) <= 0 by {
            assert(declaration_order(t[a + 1], t[b + 1]) <= 0);
        }
        lemma_sorted_declarations_unique(s1, t1);
        lemma_key_same_declaration(s[0], t[0]);
        assert forall|k: int| 0 <= k < s.len() implies same_declaration(#[trigger] s[k], t[k]) by {
            if k > 0 {
                assert(s[k] == s1[k - 1] && t[k] == t1[k - 1]);
            }
        }
    }
}

/// Declarations that say the same declare the same bindings, with the same
/// first declarations and direct dependencies.
proof fn lemma_same_declarations_depend_alike(s: Seq<BindingDeclaration>, t: Seq<BindingDeclaration>)
    requires
        same_declarations(s, t),
    ensures
        forall|id: BindingId| #[trigger] binding_declared(s, id) == binding_declared(t, id),
        forall|id: BindingId, k: int| #[trigger] is_first_with_id(s, id, k) == is_first_with_id(t, id, k),
        forall|x: BindingId, y: BindingId| #[trigger] depends_directly(s, x, y) == depends_directly(t, x, y),
        forall|x: BindingId| #[trigger] depends_on_itself(s, x) == depends_on_itself(t, x),
{
    assert forall|id: BindingId| #[trigger] binding_declared(s, id) == binding_declared(t, id) by {
        if binding_declared(s, id) {
            let k = choose|k: int| 0 <= k < s.len() && #[trigger] s[k].id == id;
            assert(same_declaration(s[k], t[k]));
        }
        if binding_declared(t, id) {
            let k = choose|k: int| 0 <= k < t.len() && #[trigger] t[k].id == id;
            assert(same_declaration(s[k], t[k]));
        }
    }
    assert forall|id: BindingId, k: int| #[trigger] is_first_with_id(s, id, k) == is_first_with_id(t, id, k) by {
        if 0 <= k < s.len() {
            assert(same_declaration(s[k], t[k]));
            if is_first_with_id(s, id, k) {
                assert forall|m: int| 0 <= m < k implies #[trigger] t[m].id != id by {
                    assert(same_declaration(s[m], t[m]));
                    assert(s[m].id != id);
                }
            }
            if is_first_with_id(t, id, k) {
                assert forall|m: int| 0 <= m < k implies #[trigger] s[m].id != id by {
                    assert(same_declaration(s[m], t[m]));
                    assert(t[m].id != id);
                }
            }
        }
    }
    assert forall|x: BindingId, y: BindingId| #[trigger] depends_directly(s, x, y) == depends_directly(t, x, y) by {
        if depends_directly(s, x, y) {
            let k = choose|k: int| #[trigger] is_first_with_id(s, x, k) && lists_dependency(s[k], y);
            assert(same_declaration(s[k], t[k]));
            assert(is_first_with_id(t, x, k));
        }
        if depends_directly(t, x, y) {
            let k = choose|k: int| #[trigger] is_first_with_id(t, x, k) && lists_dependency(t[k], y);
            assert(same_declaration(s[k], t[k]));
            assert(is_first_with_id(s, x, k));
        }
    }
    assert forall|p: Seq<BindingId>| #[trigger] is_dependency_path(s, p) == is_dependency_path(t, p) by {
        if is_dependency_path(s, p) {
            assert forall|k: int| 0 <= k < p.len() - 1 implies #[trigger] path_step(t, p, k) by {
                assert(path_step(s, p, k));
                assert(depends_directly(s, p[k], p[k + 1]) == depends_directly(t, p[k], p[k + 1]));
            }
        }
        if is_dependency_path(t, p) {
            assert forall|k: int| 0 <= k < p.len() - 1 implies #[trigger] path_step(s, p, k) by {
                assert(path_step(t, p, k));
                assert(depends_directly(s, p[k], p[k + 1]) == depends_directly(t, p[k], p[k + 1]));
            }
        }
    }
    assert forall|x: BindingId| #[trigger] depends_on_itself(s, x) == depends_on_itself(t, x) by {
        if depends_on_itself(s, x) {
            let p = choose|p: Seq<BindingId>| #[trigger] is_dependency_path(s, p) && p.len() >= 2 && p[0] == x && p.last() == x;
            assert(is_dependency_path(t, p));
        }
        if depends_on_itself(t, x) {
            let p = choose|p: Seq<BindingId>| #[trigger] is_dependency_path(t, p) && p.len() >= 2 && p[0] == x && p.last() == x;
            assert(is_dependency_path(s, p));
        }
    }
}

/// Declarations that say the same have the same diagnostics.
proof fn lemma_same_declarations_diagnosed_alike(s: Seq<BindingDeclaration>, t: Seq<BindingDeclaration>, nodes: Seq<StaticUiNode>)
    requires
        same_declarations(s, t),
    ensures
        graph_diagnostics(s, nodes) == graph_diagnostics(t, nodes),
{
    lemma_same_declarations_depend_alike(s, t);
    lemma_same_bindings_diagnostics(s, t, nodes, s.len() as int);
    lemma_same_cycle_diagnostics(s, t, s.len() as int);
}

/// The structural diagnostics of declarations that say the same agree.
proof fn lemma_same_bindings_diagnostics(s: Seq<BindingDeclaration>, t: Seq<BindingDeclaration>, nodes: Seq<StaticUiNode>, n: int)
    requires
        same_declarations(s, t),
        n <= s.len(),
    ensures
        bindings_diagnostics(s, nodes, n) == bindings_diagnostics(t, nodes, n),
    decreases n,
{
    if n > 0 {
        lemma_same_bindings_diagnostics(s, t, nodes, n - 1);
        let i = n - 1;
        lemma_same_declarations_depend_alike(s, t);
        assert(same_declaration(s[i], t[i]));
        assert((exists|k: int| 0 <= k < i && #[trigger] s[k].id == s[i].id) == (exists|k: int| 0 <= k < i && #[trigger] t[k].id == t[i].id)) by {
            if exists|k: int| 0 <= k < i && #[trigger] s[k].id == s[i].id {
                let k = choose|k: int| 0 <= k < i && #[trigger] s[k].id == s[i].id;
                assert(same_declaration(s[k], t[k]));
            }
            if exists|k: int| 0 <= k < i && #[trigger] t[k].id == t[i].id {
                let k = choose|k: int| 0 <= k < i && #[trigger] t[k].id == t[i].id;
                assert(same_declaration(s[k], t[k]));
            }
        }
        assert((exists|k: int| 0 <= k < i && #[trigger] s[k].target == s[i].target) == (exists|k: int| 0 <= k < i && #[trigger] t[k].target == t[i].target)) by {
            if exists|k: int| 0 <= k < i && #[trigger] s[k].target == s[i].target {
                let k = choose|k: int| 0 <= k < i && #[trigger] s[k].target == s[i].target;
                assert(same_declaration(s[k], t[k]));
            }
            if exists|k: int| 0 <= k < i && #[trigger] t[k].target == t[i].target {
                let k = choose|k: int| 0 <= k < i && #[trigger] t[k].target == t[i].target;
                assert(same_declaration(s[k], t[k]));
            }
        }
        lemma_same_dependencies_diagnostics(s, t, i, s[i].dependencies@.len() as int);
        assert(binding_diagnostics(s, nodes, i) == binding_diagnostics(t, nodes, i));
    }
}

/// The dependency diagnostics of declarations that say the same agree.
proof fn lemma_same_dependencies_diagnostics(s: Seq<BindingDeclaration>, t: Seq<BindingDeclaration>, i: int, n: int)
    requires
        same_declarations(s, t),
        0 <= i < s.len(),
    ensures
        dependencies_diagnostics(s, i, n) == dependencies_diagnostics(t, i, n),
    decreases n,
{
    if n > 0 {
        lemma_same_dependencies_diagnostics(s, t, i, n - 1);
        lemma_same_declarations_depend_alike(s, t);
        assert(same_declaration(s[i], t[i]));
        let dep = s[i].dependencies@[n - 1].target_binding;
        assert(binding_declared(s, dep) == binding_declared(t, dep));
        assert(dependency_diagnostics_at(s, i, n - 1) == dependency_diagnostics_at(t, i, n - 1));
    }
}

/// The cycle diagnostics of declarations that say the same agree.
proof fn lemma_same_cycle_diagnostics(s: Seq<BindingDeclaration>, t: Seq<BindingDeclaration>, n: int)
    requires
        same_declarations(s, t),
        n <= s.len(),
    ensures
        cycle_diagnostics(s, n) == cycle_diagnostics(t, n),
    decreases n,
{
    if n > 0 {
        lemma_same_cycle_diagnostics(s, t, n - 1);
        lemma_same_declarations_depend_alike(s, t);
        assert(same_declaration(s[n - 1], t[n - 1]));
        assert(depends_on_itself(s, s[n - 1].id) == depends_on_itself(t, t[n - 1].id));
    }
}

/// Binding diagnostics that say the same thing stand in the same place.
proof fn lemma_binding_saying_same_same_place(x: BindingDiagnostic, y: BindingDiagnostic, e: BindingDiagnosticContent)
    requires
        binding_diagnostic_says(x, e),
        binding_diagnostic_says(y, e),
    ensures
        coordinate_order(x.coordinate, y.coordinate) == 0,
{
    assert(crate::contract_primitives::code_key(x.coordinate.spec_code()) =~= crate::contract_primitives::code_key(y.coordinate.spec_code()));
    lemma_coordinate_order(x.coordinate, y.coordinate, y.coordinate);
}

/// The coordinates of binding diagnostics.
pub open spec fn binding_diagnostic_coordinates(ds: Seq<BindingDiagnostic>) -> Seq<DiagnosticCoordinate> {
    ds.map_values(|d: BindingDiagnostic| d.coordinate)
}

/// Each diagnostic of `x` that says one of `all` stands in the place of one
/// of `y`, when `y` says each of `all`.
proof fn lemma_binding_canonical_tied(x: Seq<BindingDiagnostic>, y: Seq<BindingDiagnostic>, all: Seq<BindingDiagnosticContent>)
    requires
        forall|a: int| #![trigger x[a]] 0 <= a < x.len() ==> binding_says_one_of(x[a], all),
        forall|k: int| #![trigger all[k]] 0 <= k < all.len() ==> binding_said_by_one_of(y, all[k]),
    ensures
        forall|a: int| 0 <= a < x.len() ==> #[trigger] crate::contract_primitives::tied_in(
            crate::contract_primitives::coordinate_ord(),
            binding_diagnostic_coordinates(x)[a],
            binding_diagnostic_coordinates(y),
        ),
{
    let ord = crate::contract_primitives::coordinate_ord();
    let (cx, cy) = (binding_diagnostic_coordinates(x), binding_diagnostic_coordinates(y));
    assert forall|a: int| 0 <= a < x.len() implies #[trigger] crate::contract_primitives::tied_in(ord, cx[a], cy) by {
        assert(binding_says_one_of(x[a], all));
        let k = choose|k: int| 0 <= k < all.len() && binding_diagnostic_says(x[a], #[trigger] all[k]);
        assert(binding_said_by_one_of(y, all[k]));
        let b = choose|b: int| 0 <= b < y.len() && binding_diagnostic_says(#[trigger] y[b], all[k]);
        lemma_binding_saying_same_same_place(x[a], y[b], all[k]);
        assert(ord(cx[a], cy[b]) == 0);
    }
}

/// Strictly increasing binding diagnostics have strictly increasing coordinates.
proof fn lemma_binding_coordinates_increasing(x: Seq<BindingDiagnostic>)
    requires
        forall|a: int, b: int| 0 <= a < b < x.len() ==> coordinate_order(x[a].coordinate, x[b].coordinate) < 0,
    ensures
        forall|a: int, b: int| 0 <= a < b < x.len() ==> (crate::contract_primitives::coordinate_ord())(
            binding_diagnostic_coordinates(x)[a],
            binding_diagnostic_coordinates(x)[b],
        ) < 0,
{
}

/// Two canonical lists of the same binding diagnostics say the same, place
/// by place.
proof fn lemma_binding_canonical_agree(x: Seq<BindingDiagnostic>, y: Seq<BindingDiagnostic>, all: Seq<BindingDiagnosticContent>)
    requires
        canonical_binding_diagnostics_of(x, all),
        canonical_binding_diagnostics_of(y, all),
    ensures
        x.len() == y.len(),
        forall|k: int| 0 <= k < x.len() ==> coordinate_order((#[trigger] x[k]).coordinate, y[k].coordinate) == 0,
{
    let ord = crate::contract_primitives::coordinate_ord();
    let (cx, cy) = (binding_diagnostic_coordinates(x), binding_diagnostic_coordinates(y));
    crate::contract_primitives::lemma_coordinate_ties();
    lemma_binding_canonical_tied(x, y, all);
    lemma_binding_canonical_tied(y, x, all);
    lemma_binding_coordinates_increasing(x);
    lemma_binding_coordinates_increasing(y);
    crate::contract_primitives::lemma_sorted_ties_agree(cx, cy, ord);
    assert forall|k: int| 0 <= k < x.len() implies coordinate_order((#[trigger] x[k]).coordinate, y[k].coordinate) == 0 by {
        assert(ord(cx[k], cy[k]) == 0);
    }
}

/// Normalized declarations with the same contents, place by place, say the
/// same, place by place.
proof fn lemma_normalized_same(s: Seq<BindingDeclaration>, t: Seq<BindingDeclaration>)
    requires
        forall|k: int| 0 <= k < s.len() ==> dependencies_increasing(#[trigger] s[k].dependencies@),
        forall|k: int| 0 <= k < t.len() ==> dependencies_increasing(#[trigger] t[k].dependencies@),
        s.map_values(|d: BindingDeclaration| declaration_content(d)) == t.map_values(|d: BindingDeclaration| declaration_content(d)),
    ensures
        same_declarations(s, t),
{
    let c = |d: BindingDeclaration| declaration_content(d);
    assert(s.map_values(c).len() == t.map_values(c).len());
    assert forall|k: int| 0 <= k < s.len() implies same_declaration(#[trigger] s[k], t[k]) by {
        assert(s.map_values(c)[k] == t.map_values(c)[k]);
        assert(declaration_content(s[k]) == declaration_content(t[k]));
        lemma_head_tail_fields(s[k], t[k]);
        lemma_increasing_dependencies_unique(s[k].dependencies@, t[k].dependencies@);
    }
}

/// Building does not depend on the order in which the declarations are
/// given: from any reordering of the same declarations, both builds succeed
/// with the same declarations in the same order, or both fail with the same
/// diagnostics in the same order, the canonical diagnostics of the
/// declarations in canonical order.
pub proof fn lemma_graph_build_ignores_declaration_order(
    a: Seq<BindingDeclaration>,
    b: Seq<BindingDeclaration>,
    nodes: Seq<StaticUiNode>,
    ra: Result<BindingGraphDocument, Vec<BindingDiagnostic>>,
    rb: Result<BindingGraphDocument, Vec<BindingDiagnostic>>,
)
    requires
        a.to_multiset() == b.to_multiset(),
        graph_build_outcome(a, nodes, ra),
        graph_build_outcome(b, nodes, rb),
    ensures
        ra is Ok <==> rb is Ok,
        match (ra, rb) {
            (Ok(da), Ok(db)) => same_declarations(da.bindings@, db.bindings@),
            (Err(xa), Err(xb)) => {
                &&& xa@.len() == xb@.len()
                &&& forall|k: int| 0 <= k < xa@.len() ==> coordinate_order((#[trigger] xa@[k]).coordinate, xb@[k].coordinate) == 0
                &&& forall|s: Seq<BindingDeclaration>|
                    declarations_sorted(s) && #[trigger] s.to_multiset() == a.to_multiset() ==> canonical_binding_diagnostics_of(
                        xa@,
                        graph_diagnostics(s, nodes),
                    ) && canonical_binding_diagnostics_of(xb@, graph_diagnostics(s, nodes))
            },
            _ => true,
        },
{
    let c = |d: BindingDeclaration| declaration_content(d);
    let k = |d: BindingDeclaration| declaration_key(d);
    let sa = choose|s: Seq<BindingDeclaration>|
        {
            &&& declarations_sorted(s)
            &&& s.to_multiset() == a.to_multiset()
            &&& match ra {
                Ok(doc) => graph_diagnostics(s, nodes).len() == 0 && normalized_bindings(doc.bindings@, s),
                Err(ds) => graph_diagnostics(s, nodes).len() > 0 && canonical_binding_diagnostics_of(ds@, graph_diagnostics(s, nodes)),
            }
        };
    let sb = choose|s: Seq<BindingDeclaration>|
        {
            &&& declarations_sorted(s)
            &&& s.to_multiset() == b.to_multiset()
            &&& match rb {
                Ok(doc) => graph_diagnostics(s, nodes).len() == 0 && normalized_bindings(doc.bindings@, s),
                Err(ds) => graph_diagnostics(s, nodes).len() > 0 && canonical_binding_diagnostics_of(ds@, graph_diagnostics(s, nodes)),
            }
        };
    lemma_map_multiset(sa, sb, k);
    assert(sa.map_values(k) =~= sa.map_values(|d: BindingDeclaration| declaration_key(d)));
    assert(sb.map_values(k) =~= sb.map_values(|d: BindingDeclaration| declaration_key(d)));
    lemma_sorted_declarations_unique(sa, sb);
    lemma_same_declarations_diagnosed_alike(sa, sb, nodes);
    if let (Ok(da), Ok(db)) = (ra, rb) {
        lemma_map_multiset(sa, sb, c);
        assert(sa.map_values(c) =~= sa.map_values(|d: BindingDeclaration| declaration_content(d)));
        assert(sb.map_values(c) =~= sb.map_values(|d: BindingDeclaration| declaration_content(d)));
        lemma_normalized_unique(da.bindings@, db.bindings@);
        lemma_normalized_same(da.bindings@, db.bindings@);
    }
    if let (Err(xa), Err(xb)) = (ra, rb) {
        lemma_binding_canonical_agree(xa@, xb@, graph_diagnostics(sa, nodes));
    }
    assert forall|s: Seq<BindingDeclaration>| declarations_sorted(s) && #[trigger] s.to_multiset() == a.to_multiset() implies graph_diagnostics(s, nodes)
        == graph_diagnostics(sa, nodes) by {
        lemma_map_multiset(s, sa, k);
        assert(s.map_values(k) =~= s.map_values(|d: BindingDeclaration| declaration_key(d)));
        lemma_sorted_declarations_unique(s, sa);
        lemma_same_declarations_diagnosed_alike(s, sa, nodes);
    }
}

/// Declarations with the same head and tail have the same fields, the
/// dependencies aside.
proof fn lemma_head_tail_fields(a: BindingDeclaration, b: BindingDeclaration)
    requires
        declaration_head(a) == declaration_head(b),
        declaration_tail(a) == declaration_tail(b),
    ensures
        a.id == b.id,
        a.target == b.target,
        a.domain == b.domain,
        a.collection_key == b.collection_key,
        a.semantic_value == b.semantic_value,
        a.source_ref == b.source_ref,
{
    let (ha, hb) = (declaration_head(a), declaration_head(b));
    assert(ha[0] == hb[0] && ha[1] == hb[1] && ha[2] == hb[2] && ha[3] == hb[3]);
    crate::contract_primitives::lemma_static_node_id_raw_injective(a.target.node, b.target.node);
    let ka = match a.collection_key {
        None => seq![0int, 0int],
        Some(k) => seq![1int, k as int],
    };
    let kb = match b.collection_key {
        None => seq![0int, 0int],
        Some(k) => seq![1int, k as int],
    };
    let va = match a.semantic_value {
        None => seq![0int, 0int],
        Some(v) => seq![1int, v.spec_raw() as int],
    };
    let vb = match b.semantic_value {
        None => seq![0int, 0int],
        Some(v) => seq![1int, v.spec_raw() as int],
    };
    assert(declaration_tail(a) == ka + va + source_ref_key(a.source_ref));
    assert(declaration_tail(b) == kb + vb + source_ref_key(b.source_ref));
    crate::action_ir::lemma_concat_split(ka + va, source_ref_key(a.source_ref), kb + vb, source_ref_key(b.source_ref));
    crate::action_ir::lemma_concat_split(ka, va, kb, vb);
    lemma_source_ref_key_injective(a.source_ref, b.source_ref);
    assert(ka[0] == kb[0] && ka[1] == kb[1]);
    assert(va[0] == vb[0] && va[1] == vb[1]);
    match (a.semantic_value, b.semantic_value) {
        (Some(x), Some(y)) => crate::semantic_refs::lemma_semantic_value_ref_raw_injective(x, y),
        _ => {},
    }
}

/// A position of `o` has a position of `s` with its content.
proof fn lemma_content_position(o: Seq<BindingDeclaration>, s: Seq<BindingDeclaration>, k: int)
    requires
        o.map_values(|d: BindingDeclaration| declaration_content(d)).to_multiset() == s.map_values(
            |d: BindingDeclaration| declaration_content(d),
        ).to_multiset(),
        0 <= k < o.len(),
    ensures
        exists|k2: int| 0 <= k2 < s.len() && declaration_content(o[k]) == declaration_content(#[trigger] s[k2]),
{
    let mo = o.map_values(|d: BindingDeclaration| declaration_content(d));
    let ms = s.map_values(|d: BindingDeclaration| declaration_content(d));
    assert(mo[k] == declaration_content(o[k]));
    assert(mo.contains(mo[k]));
    vstd::seq_lib::to_multiset_contains(mo, mo[k]);
    vstd::seq_lib::to_multiset_contains(ms, mo[k]);
    let k2 = choose|k2: int| 0 <= k2 < ms.len() && ms[k2] == mo[k];
    assert(declaration_content(s[k2]) == ms[k2]);
}

/// Two positions of `o` have two different positions of `s` with their
/// contents.
proof fn lemma_content_positions(o: Seq<BindingDeclaration>, s: Seq<BindingDeclaration>, m: int, k: int)
    requires
        o.map_values(|d: BindingDeclaration| declaration_content(d)).to_multiset() == s.map_values(
            |d: BindingDeclaration| declaration_content(d),
        ).to_multiset(),
        0 <= m < k < o.len(),
    ensures
        exists|m2: int, k2: int|
            0 <= m2 < s.len() && 0 <= k2 < s.len() && m2 != k2 && declaration_content(o[m]) == declaration_content(#[trigger] s[m2])
                && declaration_content(o[k]) == declaration_content(#[trigger] s[k2]),
{
    let mo = o.map_values(|d: BindingDeclaration| declaration_content(d));
    let ms = s.map_values(|d: BindingDeclaration| declaration_content(d));
    assert(mo[m] == declaration_content(o[m]) && mo[k] == declaration_content(o[k]));
    if mo[m] == mo[k] {
        let x = mo[m];
        let p = |y: (Seq<int>, Set<BindingDependency>, Seq<int>)| y == x;
        crate::binding_graph_observation::lemma_count_some(mo, p);
        crate::binding_graph_observation::lemma_count_some(ms, p);
        crate::binding_graph_observation::lemma_count_permutation(mo, ms, p);
        assert(p(mo[m]) && p(mo[k]));
        let (a, b) = choose|a: int, b: int| 0 <= a < b < ms.len() && #[trigger] p(ms[a]) && #[trigger] p(ms[b]);
        assert(declaration_content(s[a]) == ms[a] && declaration_content(s[b]) == ms[b]);
    } else {
        lemma_content_position(o, s, m);
        lemma_content_position(o, s, k);
    }
}

/// Clean facts of one declaration: it targets a node of the document, a
/// slot no earlier one targets, has no zero semantic value, and has a
/// collection key just when it is a collection.
pub open spec fn clean_declaration(s: Seq<BindingDeclaration>, nodes: Seq<StaticUiNode>, i: int) -> bool {
    &&& target_document_has_node(nodes, s[i].target.node)
    &&& !(s[i].semantic_value matches Some(v) && v.spec_raw() == 0)
    &&& !(s[i].domain == BindingValueDomain::Collection && s[i].collection_key is None)
    &&& !(s[i].domain != BindingValueDomain::Collection && s[i].collection_key is Some)
    &&& forall|k: int| 0 <= k < i ==> (#[trigger] s[k]).target != s[i].target
}

/// A declaration with no structural diagnostic is clean.
proof fn lemma_binding_clean(s: Seq<BindingDeclaration>, nodes: Seq<StaticUiNode>, i: int)
    requires
        0 <= i < s.len(),
        binding_diagnostics(s, nodes, i).len() == 0,
    ensures
        clean_declaration(s, nodes, i),
{
    assert forall|k: int| 0 <= k < i implies (#[trigger] s[k]).target != s[i].target by {
        if s[k].target == s[i].target {
            assert(exists|m: int| 0 <= m < i && #[trigger] s[m].target == s[i].target);
        }
    }
}

/// With no structural diagnostic among the first `n` declarations, each of
/// them is clean.
proof fn lemma_no_structural_facts(s: Seq<BindingDeclaration>, nodes: Seq<StaticUiNode>, n: int)
    requires
        0 <= n <= s.len(),
        bindings_diagnostics(s, nodes, n).len() == 0,
    ensures
        forall|i: int| 0 <= i < n ==> #[trigger] clean_declaration(s, nodes, i),
    decreases n,
{
    if n > 0 {
        lemma_no_structural_facts(s, nodes, n - 1);
        lemma_binding_clean(s, nodes, n - 1);
    }
}

/// Each id a normalized graph depends on directly, the accepted graph it
/// was normalized from depends on too.
proof fn lemma_normalized_paths(s: Seq<BindingDeclaration>, out: Seq<BindingDeclaration>, nodes: Seq<StaticUiNode>)
    requires
        graph_diagnostics(s, nodes).len() == 0,
        normalized_bindings(out, s),
    ensures
        forall|p: Seq<BindingId>| #[trigger] is_dependency_path(out, p) ==> is_dependency_path(s, p),
{
    lemma_accepted_graph_is_acyclic(s, nodes);
    assert forall|x: BindingId, y: BindingId| #[trigger] depends_directly(out, x, y) implies depends_directly(s, x, y) by {
        let k = choose|k: int| #[trigger] is_first_with_id(out, x, k) && lists_dependency(out[k], y);
        lemma_content_position(out, s, k);
        let k2 = choose|k2: int| 0 <= k2 < s.len() && declaration_content(out[k]) == declaration_content(#[trigger] s[k2]);
        lemma_head_tail_fields(out[k], s[k2]);
        assert forall|m: int| 0 <= m < k2 implies #[trigger] s[m].id != x by {
            assert(s[m].id != s[k2].id);
        }
        assert(is_first_with_id(s, x, k2));
        let j = choose|j: int| 0 <= j < out[k].dependencies@.len() && #[trigger] out[k].dependencies@[j].target_binding == y;
        assert(out[k].dependencies@.to_set().contains(out[k].dependencies@[j]));
        assert(s[k2].dependencies@.to_set().contains(out[k].dependencies@[j]));
        let j2 = choose|j2: int| 0 <= j2 < s[k2].dependencies@.len() && s[k2].dependencies@[j2] == out[k].dependencies@[j];
        assert(s[k2].dependencies@[j2].target_binding == y);
        assert(lists_dependency(s[k2], y));
    }
    assert forall|p: Seq<BindingId>| #[trigger] is_dependency_path(out, p) implies is_dependency_path(s, p) by {
        assert forall|k: int| 0 <= k < p.len() - 1 implies #[trigger] path_step(s, p, k) by {
            assert(path_step(out, p, k));
            assert(depends_directly(out, p[k], p[k + 1]));
        }
    }
}

/// The dependencies of a normalized declaration raise no diagnostic.
proof fn lemma_normalized_dependencies_clean(s: Seq<BindingDeclaration>, out: Seq<BindingDeclaration>, nodes: Seq<StaticUiNode>, i: int, k2: int, n: int)
    requires
        graph_diagnostics(s, nodes).len() == 0,
        normalized_bindings(out, s),
        0 <= i < out.len(),
        0 <= k2 < s.len(),
        declaration_content(out[i]) == declaration_content(s[k2]),
        0 <= n <= out[i].dependencies@.len(),
    ensures
        dependencies_diagnostics(out, i, n).len() == 0,
    decreases n,
{
    if n > 0 {
        lemma_normalized_dependencies_clean(s, out, nodes, i, k2, n - 1);
        lemma_accepted_graph_is_acyclic(s, nodes);
        lemma_head_tail_fields(out[i], s[k2]);
        let b = out[i];
        let j = n - 1;
        let dep = b.dependencies@[j].target_binding;
        assert(dependencies_increasing(b.dependencies@));
        if exists|m: int| 0 <= m < j && #[trigger] b.dependencies@[m] == b.dependencies@[j] {
            let m = choose|m: int| 0 <= m < j && #[trigger] b.dependencies@[m] == b.dependencies@[j];
            assert(b.dependencies@[m].target_binding.0 < b.dependencies@[j].target_binding.0);
        }
        assert(b.dependencies@.to_set().contains(b.dependencies@[j]));
        assert(s[k2].dependencies@.to_set().contains(b.dependencies@[j]));
        let j2 = choose|j2: int| 0 <= j2 < s[k2].dependencies@.len() && s[k2].dependencies@[j2] == b.dependencies@[j];
        assert(s[k2].dependencies@[j2].target_binding == dep);
        assert(dep != s[k2].id && binding_declared(s, dep));
        let q = choose|q: int| 0 <= q < s.len() && #[trigger] s[q].id == dep;
        let ms = s.map_values(|d: BindingDeclaration| declaration_content(d));
        let mo = out.map_values(|d: BindingDeclaration| declaration_content(d));
        lemma_content_position(s, out, q);
        let q2 = choose|q2: int| 0 <= q2 < out.len() && declaration_content(s[q]) == declaration_content(#[trigger] out[q2]);
        lemma_head_tail_fields(s[q], out[q2]);
        assert(binding_declared(out, dep));
        assert(dependency_diagnostics_at(out, i, j).len() == 0);
    }
}

/// The first `n` declarations of a normalized accepted graph raise no
/// structural diagnostic.
proof fn lemma_normalized_structure_clean(s: Seq<BindingDeclaration>, out: Seq<BindingDeclaration>, nodes: Seq<StaticUiNode>, n: int)
    requires
        graph_diagnostics(s, nodes).len() == 0,
        normalized_bindings(out, s),
        0 <= n <= out.len(),
    ensures
        bindings_diagnostics(out, nodes, n).len() == 0,
    decreases n,
{
    if n > 0 {
        lemma_normalized_structure_clean(s, out, nodes, n - 1);
        let i = n - 1;
        lemma_accepted_graph_is_acyclic(s, nodes);
        lemma_no_structural_facts(s, nodes, s.len() as int);
        lemma_content_position(out, s, i);
        let k2 = choose|k2: int| 0 <= k2 < s.len() && declaration_content(out[i]) == declaration_content(#[trigger] s[k2]);
        lemma_head_tail_fields(out[i], s[k2]);
        assert(clean_declaration(s, nodes, k2));
        assert(target_document_has_node(nodes, s[k2].target.node));
        if exists|k: int| 0 <= k < i && #[trigger] out[k].id == out[i].id {
            let k = choose|k: int| 0 <= k < i && #[trigger] out[k].id == out[i].id;
            lemma_content_positions(out, s, k, i);
            let (a, b) = choose|a: int, b: int|
                0 <= a < s.len() && 0 <= b < s.len() && a != b && declaration_content(out[k]) == declaration_content(#[trigger] s[a])
                    && declaration_content(out[i]) == declaration_content(#[trigger] s[b]);
            lemma_head_tail_fields(out[k], s[a]);
            lemma_head_tail_fields(out[i], s[b]);
            if a < b {
                assert(s[a].id != s[b].id);
            } else {
                assert(s[b].id != s[a].id);
            }
        }
        if exists|k: int| 0 <= k < i && #[trigger] out[k].target == out[i].target {
            let k = choose|k: int| 0 <= k < i && #[trigger] out[k].target == out[i].target;
            lemma_content_positions(out, s, k, i);
            let (a, b) = choose|a: int, b: int|
                0 <= a < s.len() && 0 <= b < s.len() && a != b && declaration_content(out[k]) == declaration_content(#[trigger] s[a])
                    && declaration_content(out[i]) == declaration_content(#[trigger] s[b]);
            lemma_head_tail_fields(out[k], s[a]);
            lemma_head_tail_fields(out[i], s[b]);
            if a < b {
                assert(clean_declaration(s, nodes, b));
                assert(s[a].target != s[b].target);
            } else {
                assert(clean_declaration(s, nodes, a));
                assert(s[b].target != s[a].target);
            }
        }
        lemma_normalized_dependencies_clean(s, out, nodes, i, k2, out[i].dependencies@.len() as int);
        assert(binding_diagnostics(out, nodes, i).len() == 0);
    }
}

/// No declaration of a normalized accepted graph depends on itself.
proof fn lemma_normalized_cycles_clean(s: Seq<BindingDeclaration>, out: Seq<BindingDeclaration>, nodes: Seq<StaticUiNode>, n: int)
    requires
        graph_diagnostics(s, nodes).len() == 0,
        normalized_bindings(out, s),
        0 <= n <= out.len(),
    ensures
        cycle_diagnostics(out, n).len() == 0,
    decreases n,
{
    if n > 0 {
        lemma_normalized_cycles_clean(s, out, nodes, n - 1);
        let i = n - 1;
        lemma_accepted_graph_is_acyclic(s, nodes);
        lemma_normalized_paths(s, out, nodes);
        lemma_content_position(out, s, i);
        let k2 = choose|k2: int| 0 <= k2 < s.len() && declaration_content(out[i]) == declaration_content(#[trigger] s[k2]);
        lemma_head_tail_fields(out[i], s[k2]);
        let x = out[i].id;
        if depends_on_itself(out, x) {
            let p = choose|p: Seq<BindingId>| #[trigger] is_dependency_path(out, p) && p.len() >= 2 && p[0] == x && p.last() == x;
            assert(is_dependency_path(s, p));
            assert(depends_on_itself(s, s[k2].id));
        }
    }
}

/// Building is idempotent: building again from the declarations of a built
/// graph succeeds with the same declarations in the same order.
pub proof fn lemma_graph_build_is_idempotent(
    bindings: Seq<BindingDeclaration>,
    nodes: Seq<StaticUiNode>,
    doc: BindingGraphDocument,
    again: Result<BindingGraphDocument, Vec<BindingDiagnostic>>,
)
    requires
        graph_build_outcome(bindings, nodes, Ok(doc)),
        graph_build_outcome(doc.bindings@, nodes, again),
    ensures
        again matches Ok(d) && same_declarations(d.bindings@, doc.bindings@),
{
    let out = doc.bindings@;
    let c = |d: BindingDeclaration| declaration_content(d);
    let k = |d: BindingDeclaration| declaration_key(d);
    let s = choose|s: Seq<BindingDeclaration>|
        {
            &&& declarations_sorted(s)
            &&& s.to_multiset() == bindings.to_multiset()
            &&& graph_diagnostics(s, nodes).len() == 0 && normalized_bindings(out, s)
        };
    lemma_normalized_structure_clean(s, out, nodes, out.len() as int);
    lemma_normalized_cycles_clean(s, out, nodes, out.len() as int);
    let s2 = choose|s2: Seq<BindingDeclaration>|
        {
            &&& declarations_sorted(s2)
            &&& s2.to_multiset() == out.to_multiset()
            &&& match again {
                Ok(d) => graph_diagnostics(s2, nodes).len() == 0 && normalized_bindings(d.bindings@, s2),
                Err(ds) => graph_diagnostics(s2, nodes).len() > 0 && canonical_binding_diagnostics_of(ds@, graph_diagnostics(s2, nodes)),
            }
        };
    lemma_map_multiset(s2, out, k);
    assert(s2.map_values(k) =~= s2.map_values(|d: BindingDeclaration| declaration_key(d)));
    assert(out.map_values(k) =~= out.map_values(|d: BindingDeclaration| declaration_key(d)));
    lemma_sorted_declarations_unique(s2, out);
    lemma_same_declarations_diagnosed_alike(s2, out, nodes);
    if let Ok(d) = again {
        assert(s2.map_values(c) =~= out.map_values(c)) by {
            assert forall|i: int| 0 <= i < s2.len() implies s2.map_values(c)[i] == out.map_values(c)[i] by {
                assert(same_declaration(s2[i], out[i]));
            }
        }
        assert(s2.map_values(c) =~= s2.map_values(|d: BindingDeclaration| declaration_content(d)));
        assert(out.map_values(c) =~= out.map_values(|d: BindingDeclaration| declaration_content(d)));
        lemma_normalized_unique(d.bindings@, out);
        lemma_normalized_same(d.bindings@, out);
    }
}

} // verus!
