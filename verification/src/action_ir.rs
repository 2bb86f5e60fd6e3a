//! Action routes: which semantic action a target slot invokes, and what an invocation needs.
use vstd::prelude::*;
use crate::contract_primitives::{
    compare_coordinates, compare_u64_slices, coordinate_order, lemma_code_bytes_encode_text, lemma_code_key_injective,
    lemma_coordinate_order, lemma_lex_order_antisymmetric, lemma_lex_order_strict_transitive, lemma_lex_order_transitive,
    lemma_source_ref_key_injective, lex_order, source_ref_key, source_ref_parts, DiagnosticCode, DiagnosticCoordinate,
    SourceRef, StaticNodeId,
};
use crate::static_ir::{StaticUiDocument, StaticUiNode};
use crate::semantic_refs::{CapabilityRef, EpochRef, RevisionRef, SemanticActionRef};

verus! {

/// Identity of an action route.
#[derive(Debug, Clone, Copy, PartialEq, Eq, PartialOrd, Ord, Hash, Structural)]
pub struct ActionRouteId(pub u64);

/// The position of a route among the routes of one target slot.
#[derive(Debug, Clone, Copy, PartialEq, Eq, PartialOrd, Ord, Hash, Structural)]
pub struct ActionRouteOrder(pub u32);

/// A slot of a target node.
#[derive(Debug, Clone, Copy, PartialEq, Eq, PartialOrd, Ord, Hash, Structural)]
pub struct ActionTargetSlot(pub u32);

/// The node and slot that a route acts on.
#[derive(Debug, Clone, Copy, PartialEq, Eq, PartialOrd, Ord, Hash, Structural)]
pub struct ActionTarget {
    pub node: StaticNodeId,
    pub slot: ActionTargetSlot,
}

/// What an invocation of a route must carry.
#[derive(Debug, Clone, Copy, PartialEq, Eq, PartialOrd, Ord, Hash, Structural)]
pub struct ActionContextRequirements {
    pub requires_actor: bool,
    pub requires_session: bool,
    pub requires_client: bool,
    pub required_revision: Option<RevisionRef>,
    pub required_epoch: Option<EpochRef>,
}

/// A route from a target slot to a semantic action.
#[derive(Debug, Clone, Copy, PartialEq, Eq, PartialOrd, Ord, Hash, Structural)]
pub struct ActionRoute {
    pub target: ActionTarget,
    pub order: ActionRouteOrder,
    pub id: ActionRouteId,
    pub semantic_action: SemanticActionRef,
    pub source_ref: Option<SourceRef>,
    pub context_reqs: ActionContextRequirements,
    pub capability: Option<CapabilityRef>,
}

/// Why a set of routes was refused.
#[derive(Debug, Clone, Copy, PartialEq, Eq, PartialOrd, Ord, Hash, Structural)]
pub enum ActionIrDiagnosticKind {
    DuplicateActionRouteId,
    MissingTargetNode,
    DuplicateRouteSlot,
    DuplicateRouteOrder,
    ZeroSemanticActionRef,
    InvalidContextRequirements,
}

/// The diagnostic code of each kind.
pub open spec fn action_ir_code_text(kind: ActionIrDiagnosticKind) -> Seq<char> {
    match kind {
        ActionIrDiagnosticKind::DuplicateActionRouteId => "AIR_DUP_ROUTE_ID"@,
        ActionIrDiagnosticKind::MissingTargetNode => "AIR_MISSING_TARGET"@,
        ActionIrDiagnosticKind::DuplicateRouteSlot => "AIR_DUP_ROUTE_SLOT"@,
        ActionIrDiagnosticKind::DuplicateRouteOrder => "AIR_DUP_ROUTE_ORDER"@,
        ActionIrDiagnosticKind::ZeroSemanticActionRef => "AIR_ZERO_ACTION_REF"@,
        ActionIrDiagnosticKind::InvalidContextRequirements => "AIR_INVALID_CTX_REQ"@,
    }
}

impl ActionIrDiagnosticKind {
    fn code(self) -> (r: DiagnosticCode)
        ensures
            r.spec_text() == action_ir_code_text(self),
    {
        match self {
            Self::DuplicateActionRouteId => DiagnosticCode::new("AIR_DUP_ROUTE_ID"),
            Self::MissingTargetNode => DiagnosticCode::new("AIR_MISSING_TARGET"),
            Self::DuplicateRouteSlot => DiagnosticCode::new("AIR_DUP_ROUTE_SLOT"),
            Self::DuplicateRouteOrder => DiagnosticCode::new("AIR_DUP_ROUTE_ORDER"),
            Self::ZeroSemanticActionRef => DiagnosticCode::new("AIR_ZERO_ACTION_REF"),
            Self::InvalidContextRequirements => DiagnosticCode::new("AIR_INVALID_CTX_REQ"),
        }
    }
}

/// A diagnostic of a refused set of routes, ordered by its coordinate.
#[derive(Debug, Clone, Copy, PartialEq, Eq, PartialOrd, Ord, Hash)]
pub struct ActionIrDiagnostic {
    pub coordinate: DiagnosticCoordinate,
}

/// What a diagnostic says: the source, the kind, and the two ids.
pub type ActionIrDiagnosticContent = (Option<SourceRef>, ActionIrDiagnosticKind, u64, u64);

/// Diagnostic `d` says `e`.
pub open spec fn action_ir_diagnostic_says(d: ActionIrDiagnostic, e: ActionIrDiagnosticContent) -> bool {
    &&& d.coordinate.spec_source() == e.0
    &&& d.coordinate.spec_code().spec_bytes() == vstd::utf8::encode_utf8(action_ir_code_text(e.1))
    &&& d.coordinate.spec_domain() == e.2
    &&& d.coordinate.spec_secondary() == e.3
}

impl ActionIrDiagnostic {
    pub fn new(source: Option<SourceRef>, kind: ActionIrDiagnosticKind, primary_id: u64, secondary_id: u64) -> (r: Self)
        ensures
            action_ir_diagnostic_says(r, (source, kind, primary_id, secondary_id)),
    {
        let code = kind.code();
        proof {
            lemma_code_bytes_encode_text(code);
        }
        Self { coordinate: DiagnosticCoordinate::new(source, code, primary_id, secondary_id) }
    }
}

/// Routes checked against a target document and put in their canonical order.
#[derive(Debug, Clone)]
pub struct ActionIrDocument {
    pub routes: Vec<ActionRoute>,
}

/// The sort key of an optional revision: absent first, then by raw value.
pub open spec fn revision_key(o: Option<RevisionRef>) -> Seq<int> {
    match o {
        None => seq![0int, 0int],
        Some(v) => seq![1int, v.spec_raw() as int],
    }
}

/// The sort key of an optional epoch: absent first, then by raw value.
pub open spec fn epoch_key(o: Option<EpochRef>) -> Seq<int> {
    match o {
        None => seq![0int, 0int],
        Some(v) => seq![1int, v.spec_raw() as int],
    }
}

/// The sort key of an optional capability: absent first, then by raw value.
pub open spec fn capability_key(o: Option<CapabilityRef>) -> Seq<int> {
    match o {
        None => seq![0int, 0int],
        Some(v) => seq![1int, v.spec_raw() as int],
    }
}

/// A flag as a sort key: false first.
pub open spec fn flag_key(b: bool) -> int {
    if b {
        1
    } else {
        0
    }
}

/// The sort key of a route: target node and slot, order, id, semantic
/// action, source, context requirements and capability, in that order.
pub open spec fn route_key(r: ActionRoute) -> Seq<int> {
    seq![
        r.target.node.spec_raw() as int,
        r.target.slot.0 as int,
        r.order.0 as int,
        r.id.0 as int,
        r.semantic_action.spec_raw() as int,
    ] + source_ref_key(r.source_ref) + seq![
        flag_key(r.context_reqs.requires_actor),
        flag_key(r.context_reqs.requires_session),
        flag_key(r.context_reqs.requires_client),
    ] + revision_key(r.context_reqs.required_revision) + epoch_key(r.context_reqs.required_epoch) + capability_key(
        r.capability,
    )
}

/// The canonical order of routes: by sort key.
pub open spec fn route_order(a: ActionRoute, b: ActionRoute) -> int {
    lex_order(route_key(a), route_key(b))
}

/// The routes are in canonical order.
pub open spec fn routes_sorted(s: Seq<ActionRoute>) -> bool {
    forall|i: int, j: int| 0 <= i < j < s.len() ==> route_order(s[i], s[j]) <= 0
}

/// What building a route document from `routes` gives: the routes in
/// canonical order when none of them has a diagnostic, else the canonical
/// diagnostics of the routes in that order.
pub open spec fn route_build_outcome(
    routes: Seq<ActionRoute>,
    nodes: Seq<StaticUiNode>,
    r: Result<ActionIrDocument, Vec<ActionIrDiagnostic>>,
) -> bool {
    exists|s: Seq<ActionRoute>|
        {
            &&& routes_sorted(s)
            &&& s.to_multiset() == routes.to_multiset()
            &&& match r {
                Ok(doc) => doc.routes@ == s && !route_diagnostics_exist(s, nodes),
                Err(ds) => route_diagnostics_exist(s, nodes) && canonical_route_diagnostics(ds@, s, nodes),
            }
        }
}

/// Some node of the document has identity `node`.
pub open spec fn document_has_node(nodes: Seq<StaticUiNode>, node: StaticNodeId) -> bool {
    exists|k: int| 0 <= k < nodes.len() && #[trigger] nodes[k].spec_id() == node
}

/// The diagnostic of a route whose target node is missing.
pub open spec fn missing_target_diagnostic(r: ActionRoute) -> ActionIrDiagnosticContent {
    (r.source_ref, ActionIrDiagnosticKind::MissingTargetNode, r.id.0, r.target.node.spec_raw())
}

/// The diagnostic of a route with the given kind and no second id.
pub open spec fn route_diagnostic(r: ActionRoute, kind: ActionIrDiagnosticKind) -> ActionIrDiagnosticContent {
    (r.source_ref, kind, r.id.0, 0u64)
}

/// An earlier route than position `i` has the id of the route there.
pub open spec fn earlier_route_id(s: Seq<ActionRoute>, i: int) -> bool {
    exists|k: int| 0 <= k < i && #[trigger] s[k].id == s[i].id
}

/// An earlier route than position `i` has the target and order of the route there.
pub open spec fn earlier_route_order(s: Seq<ActionRoute>, i: int) -> bool {
    exists|k: int| 0 <= k < i && #[trigger] s[k].target == s[i].target && s[k].order == s[i].order
}

/// `d` if `c` holds, else nothing.
pub open spec fn when(c: bool, d: ActionIrDiagnosticContent) -> Seq<ActionIrDiagnosticContent> {
    if c {
        seq![d]
    } else {
        Seq::empty()
    }
}

/// The diagnostics of the route at position `i` of the sorted routes `s`,
/// in order: its target node is missing, an earlier route has its id, an
/// earlier route has its target and order, its semantic action is zero.
pub open spec fn route_diagnostics(s: Seq<ActionRoute>, nodes: Seq<StaticUiNode>, i: int) -> Seq<ActionIrDiagnosticContent> {
    when(!document_has_node(nodes, s[i].target.node), missing_target_diagnostic(s[i]))
        + when(earlier_route_id(s, i), route_diagnostic(s[i], ActionIrDiagnosticKind::DuplicateActionRouteId))
        + when(earlier_route_order(s, i), route_diagnostic(s[i], ActionIrDiagnosticKind::DuplicateRouteOrder))
        + when(s[i].semantic_action.spec_raw() == 0, route_diagnostic(s[i], ActionIrDiagnosticKind::ZeroSemanticActionRef))
}

/// The diagnostics of the first `n` sorted routes, route by route.
pub open spec fn routes_diagnostics(s: Seq<ActionRoute>, nodes: Seq<StaticUiNode>, n: int) -> Seq<ActionIrDiagnosticContent>
    decreases n,
{
    if n <= 0 {
        Seq::empty()
    } else {
        routes_diagnostics(s, nodes, n - 1) + route_diagnostics(s, nodes, n - 1)
    }
}

/// Some route of `s` has a diagnostic.
pub open spec fn route_diagnostics_exist(s: Seq<ActionRoute>, nodes: Seq<StaticUiNode>) -> bool {
    routes_diagnostics(s, nodes, s.len() as int).len() > 0
}

/// `ds` are the diagnostics `all` in canonical form: strictly increasing by
/// coordinate, each saying one of `all`, and each of `all` said by one.
pub open spec fn canonical_diagnostics_of(ds: Seq<ActionIrDiagnostic>, all: Seq<ActionIrDiagnosticContent>) -> bool {
    &&& forall|a: int, b: int| 0 <= a < b < ds.len() ==> coordinate_order(ds[a].coordinate, ds[b].coordinate) < 0
    &&& forall|a: int| #![trigger ds[a]] 0 <= a < ds.len() ==> says_one_of(ds[a], all)
    &&& forall|k: int| #![trigger all[k]] 0 <= k < all.len() ==> said_by_one_of(ds, all[k])
}

/// `d` says one of `all`.
pub open spec fn says_one_of(d: ActionIrDiagnostic, all: Seq<ActionIrDiagnosticContent>) -> bool {
    exists|k: int| 0 <= k < all.len() && action_ir_diagnostic_says(d, #[trigger] all[k])
}

/// One of `ds` says `e`.
pub open spec fn said_by_one_of(ds: Seq<ActionIrDiagnostic>, e: ActionIrDiagnosticContent) -> bool {
    exists|a: int| 0 <= a < ds.len() && action_ir_diagnostic_says(#[trigger] ds[a], e)
}

/// `ds` are the diagnostics of the sorted routes `s` in canonical form.
pub open spec fn canonical_route_diagnostics(ds: Seq<ActionIrDiagnostic>, s: Seq<ActionRoute>, nodes: Seq<StaticUiNode>) -> bool {
    canonical_diagnostics_of(ds, routes_diagnostics(s, nodes, s.len() as int))
}

/// The key of a route as unsigned parts.
fn route_key_parts(r: ActionRoute) -> (k: Vec<u64>)
    ensures
        k@.map_values(|x: u64| x as int) == route_key(r),
{
    let (s0, s1, s2, s3) = source_ref_parts(r.source_ref);
    let (v0, v1): (u64, u64) = match r.context_reqs.required_revision {
        None => (0, 0),
        Some(v) => (1, v.raw()),
    };
    let (e0, e1): (u64, u64) = match r.context_reqs.required_epoch {
        None => (0, 0),
        Some(v) => (1, v.raw()),
    };
    let (c0, c1): (u64, u64) = match r.capability {
        None => (0, 0),
        Some(v) => (1, v.raw()),
    };
    let k = vec![
        r.target.node.raw(),
        r.target.slot.0 as u64,
        r.order.0 as u64,
        r.id.0,
        r.semantic_action.raw(),
        s0,
        s1,
        s2,
        s3,
        if r.context_reqs.requires_actor { 1 } else { 0 },
        if r.context_reqs.requires_session { 1 } else { 0 },
        if r.context_reqs.requires_client { 1 } else { 0 },
        v0,
        v1,
        e0,
        e1,
        c0,
        c1,
    ];
    assert(k@.map_values(|x: u64| x as int) =~= route_key(r));
    k
}

/// Compares two routes in canonical order.
fn compare_routes(a: ActionRoute, b: ActionRoute) -> (r: i8)
    ensures
        r == route_order(a, b),
{
    let ka = route_key_parts(a);
    let kb = route_key_parts(b);
    compare_u64_slices(ka.as_slice(), kb.as_slice())
}

/// Inserting a route after every route not above it and before the first
/// one above it keeps the routes sorted.
proof fn lemma_insert_keeps_routes_sorted(s: Seq<ActionRoute>, p: int, x: ActionRoute)
    requires
        routes_sorted(s),
        0 <= p <= s.len(),
        forall|k: int| 0 <= k < p ==> route_order(s[k], x) <= 0,
        p < s.len() ==> route_order(x, s[p]) < 0,
    ensures
        routes_sorted(s.insert(p, x)),
{
    let n = s.insert(p, x);
    assert forall|i: int, j: int| 0 <= i < j < n.len() implies route_order(n[i], n[j]) <= 0 by {
        if i == p && j > p {
            if p < j - 1 {
                assert(route_order(s[p], s[j - 1]) <= 0);
            } else {
                lemma_lex_order_antisymmetric(route_key(s[p]), route_key(s[p]));
            }
            lemma_lex_order_strict_transitive(route_key(x), route_key(s[p]), route_key(s[j - 1]));
        }
    }
}

/// Sorts routes into canonical order.
fn sort_routes(routes: &Vec<ActionRoute>) -> (r: Vec<ActionRoute>)
    ensures
        routes_sorted(r@),
        r@.to_multiset() == routes@.to_multiset(),
{
    broadcast use vstd::seq_lib::group_to_multiset_ensures;

    let mut out: Vec<ActionRoute> = Vec::new();
    let mut i: usize = 0;
    while i < routes.len()
        invariant
            i <= routes@.len(),
            routes_sorted(out@),
            out@.to_multiset() == routes@.take(i as int).to_multiset(),
        decreases routes@.len() - i,
    {
        let x = routes[i];
        let mut p: usize = 0;
        while p < out.len() && compare_routes(x, out[p]) >= 0
            invariant
                p <= out@.len(),
                forall|k: int| 0 <= k < p ==> route_order(x, #[trigger] out@[k]) >= 0,
            decreases out@.len() - p,
        {
            p += 1;
        }
        proof {
            assert forall|k: int| 0 <= k < p implies route_order(out@[k], x) <= 0 by {
                lemma_lex_order_antisymmetric(route_key(out@[k]), route_key(x));
            }
            lemma_insert_keeps_routes_sorted(out@, p as int, x);
            assert(routes@.take(i + 1) =~= routes@.take(i as int).push(x));
            vstd::seq_lib::to_multiset_insert(out@, p as int, x);
            vstd::seq_lib::to_multiset_build(routes@.take(i as int), x);
        }
        out.insert(p, x);
        i += 1;
    }
    proof {
        assert(routes@.take(routes@.len() as int) =~= routes@);
    }
    out
}

/// Two coordinates in the same place say the same thing.
proof fn lemma_same_place_says_same(x: ActionIrDiagnostic, d: ActionIrDiagnostic, e: ActionIrDiagnosticContent)
    requires
        coordinate_order(x.coordinate, d.coordinate) == 0,
        action_ir_diagnostic_says(d, e),
    ensures
        action_ir_diagnostic_says(x, e),
{
    lemma_coordinate_order(x.coordinate, d.coordinate, d.coordinate);
    lemma_source_ref_key_injective(x.coordinate.spec_source(), d.coordinate.spec_source());
    lemma_code_key_injective(x.coordinate.spec_code(), d.coordinate.spec_code());
}

/// Every diagnostic of `out` is one of `raw`.
spec fn drawn_from(out: Seq<ActionIrDiagnostic>, raw: Seq<ActionIrDiagnostic>) -> bool {
    forall|a: int| #![trigger out[a]] 0 <= a < out.len() ==> exists|j: int| #![trigger raw[j]] 0 <= j < raw.len() && out[a] == raw[j]
}

/// Every diagnostic of `raw` before position `n` has one in the same place in `out`.
spec fn covers(out: Seq<ActionIrDiagnostic>, raw: Seq<ActionIrDiagnostic>, n: int) -> bool {
    forall|j: int| #![trigger raw[j]] 0 <= j < n ==> exists|a: int| #![trigger out[a]] 0 <= a < out.len() && coordinate_order(out[a].coordinate, raw[j].coordinate) == 0
}

/// Sorts diagnostics by coordinate and keeps one of each coordinate.
fn canonical_action_ir_diagnostics(raw: &Vec<ActionIrDiagnostic>) -> (r: Vec<ActionIrDiagnostic>)
    ensures
        forall|a: int, b: int| 0 <= a < b < r@.len() ==> coordinate_order(r@[a].coordinate, r@[b].coordinate) < 0,
        drawn_from(r@, raw@),
        covers(r@, raw@, raw@.len() as int),
{
    let mut out: Vec<ActionIrDiagnostic> = Vec::new();
    let mut i: usize = 0;
    while i < raw.len()
        invariant
            i <= raw@.len(),
            forall|a: int, b: int| 0 <= a < b < out@.len() ==> coordinate_order(out@[a].coordinate, out@[b].coordinate) < 0,
            drawn_from(out@, raw@),
            covers(out@, raw@, i as int),
        decreases raw@.len() - i,
    {
        let d = raw[i];
        let mut p: usize = 0;
        while p < out.len() && compare_coordinates(d.coordinate, out[p].coordinate) > 0
            invariant
                p <= out@.len(),
                forall|k: int| 0 <= k < p ==> coordinate_order(d.coordinate, #[trigger] out@[k].coordinate) > 0,
            decreases out@.len() - p,
        {
            p += 1;
        }
        if p < out.len() && compare_coordinates(d.coordinate, out[p].coordinate) == 0 {
            proof {
                lemma_coordinate_order(out@[p as int].coordinate, d.coordinate, d.coordinate);
                assert(coordinate_order(out@[p as int].coordinate, raw@[i as int].coordinate) == 0);
                assert forall|j: int| #![trigger raw@[j]] 0 <= j < i + 1 implies exists|a: int| #![trigger out@[a]] 0 <= a < out@.len() && coordinate_order(out@[a].coordinate, raw@[j].coordinate) == 0 by {
                    if j < i {
                        let _ = raw@[j];
                    } else {
                        let _ = out@[p as int];
                    }
                }
            }
        } else {
            let ghost old_out = out@;
            proof {
                assert forall|k: int| 0 <= k < p implies coordinate_order(old_out[k].coordinate, d.coordinate) < 0 by {
                    lemma_coordinate_order(old_out[k].coordinate, d.coordinate, d.coordinate);
                }
            }
            out.insert(p, d);
            proof {
                let n = out@;
                assert(n == old_out.insert(p as int, d));
                assert forall|a: int, b: int| 0 <= a < b < n.len() implies coordinate_order(n[a].coordinate, n[b].coordinate) < 0 by {
                    if a == p && b > p {
                        lemma_coordinate_order(d.coordinate, old_out[p as int].coordinate, old_out[b - 1].coordinate);
                        lemma_coordinate_order(old_out[p as int].coordinate, d.coordinate, d.coordinate);
                    } else if a < p && b == p {
                    } else if a < p && b > p {
                    }
                }
                assert forall|a: int| #![trigger n[a]] 0 <= a < n.len() implies exists|j: int| #![trigger raw@[j]] 0 <= j < raw@.len() && n[a] == raw@[j] by {
                    let _ = n[a];
                    if a == p {
                        assert(n[a] == raw@[i as int]);
                    } else if a < p {
                        assert(n[a] == old_out[a]);
                    } else {
                        assert(n[a] == old_out[a - 1]);
                    }
                }
                assert forall|j: int| #![trigger raw@[j]] 0 <= j < i + 1 implies exists|a: int| #![trigger n[a]] 0 <= a < n.len() && coordinate_order(n[a].coordinate, raw@[j].coordinate) == 0 by {
                    let _ = raw@[j];
                    if j == i {
                        lemma_coordinate_order(d.coordinate, d.coordinate, d.coordinate);
                        assert(n[p as int] == d);
                    } else {
                        let a = choose|a: int| #![trigger old_out[a]] 0 <= a < old_out.len() && coordinate_order(old_out[a].coordinate, raw@[j].coordinate) == 0;
                        if a < p {
                            assert(n[a] == old_out[a]);
                        } else {
                            assert(n[a + 1] == old_out[a]);
                        }
                    }
                }
            }
        }
        i += 1;
    }
    out
}

/// The canonical form of diagnostics that say `all`, one by one.
proof fn lemma_canonical_says_all(raw: Seq<ActionIrDiagnostic>, canonical: Seq<ActionIrDiagnostic>, all: Seq<ActionIrDiagnosticContent>)
    requires
        raw.len() == all.len(),
        forall|k: int| 0 <= k < raw.len() ==> action_ir_diagnostic_says(#[trigger] raw[k], all[k]),
        forall|a: int, b: int| 0 <= a < b < canonical.len() ==> coordinate_order(canonical[a].coordinate, canonical[b].coordinate) < 0,
        drawn_from(canonical, raw),
        covers(canonical, raw, raw.len() as int),
    ensures
        canonical_diagnostics_of(canonical, all),
{
    assert forall|a: int| #![trigger canonical[a]] 0 <= a < canonical.len() implies says_one_of(canonical[a], all) by {
        let _ = canonical[a];
        let j = choose|j: int| #![trigger raw[j]] 0 <= j < raw.len() && canonical[a] == raw[j];
        assert(action_ir_diagnostic_says(raw[j], all[j]));
    }
    assert forall|k: int| #![trigger all[k]] 0 <= k < all.len() implies said_by_one_of(canonical, all[k]) by {
        let _ = raw[k];
        let a = choose|a: int| #![trigger canonical[a]] 0 <= a < canonical.len() && coordinate_order(canonical[a].coordinate, raw[k].coordinate) == 0;
        lemma_same_place_says_same(canonical[a], raw[k], all[k]);
    }
}

/// The diagnostics of the route at position `i` of the sorted routes, one
/// saying each of its diagnostics in order.
fn diagnose_route(sorted: &Vec<ActionRoute>, nodes: &[StaticUiNode], i: usize) -> (ds: Vec<ActionIrDiagnostic>)
    requires
        i < sorted@.len(),
    ensures
        ds@.len() == route_diagnostics(sorted@, nodes@, i as int).len(),
        forall|k: int| 0 <= k < ds@.len() ==> action_ir_diagnostic_says(#[trigger] ds@[k], route_diagnostics(sorted@, nodes@, i as int)[k]),
{
    let route = sorted[i];
    let ghost s = sorted@;
    let ghost ii = i as int;
    let mut found = false;
    let mut k: usize = 0;
    while k < nodes.len()
        invariant
            k <= nodes@.len(),
            found ==> document_has_node(nodes@, route.target.node),
            !found ==> forall|m: int| 0 <= m < k ==> #[trigger] nodes@[m].spec_id() != route.target.node,
        decreases nodes@.len() - k,
    {
        if nodes[k].id() == route.target.node {
            found = true;
        }
        k += 1;
    }
    let mut duplicate_id = false;
    let mut duplicate_order = false;
    let mut k: usize = 0;
    while k < i
        invariant
            k <= i,
            i < s.len(),
            s == sorted@,
            route == s[ii],
            ii == i as int,
            duplicate_id == (exists|m: int| 0 <= m < k && #[trigger] s[m].id == route.id),
            duplicate_order == (exists|m: int| 0 <= m < k && #[trigger] s[m].target == route.target && s[m].order == route.order),
        decreases i - k,
    {
        if sorted[k].id == route.id {
            duplicate_id = true;
        }
        if sorted[k].target == route.target && sorted[k].order == route.order {
            duplicate_order = true;
        }
        k += 1;
    }
    let mut ds: Vec<ActionIrDiagnostic> = Vec::new();
    if !found {
        ds.push(ActionIrDiagnostic::new(route.source_ref, ActionIrDiagnosticKind::MissingTargetNode, route.id.0, route.target.node.raw()));
    }
    let ghost mut said = when(!found, missing_target_diagnostic(route));
    assert(ds@.len() == said.len() && forall|m: int| 0 <= m < ds@.len() ==> action_ir_diagnostic_says(#[trigger] ds@[m], said[m]));
    let ghost stage = ds@;
    let ghost old_said = said;
    if duplicate_id {
        ds.push(ActionIrDiagnostic::new(route.source_ref, ActionIrDiagnosticKind::DuplicateActionRouteId, route.id.0, 0));
    }
    proof {
        said = said + when(duplicate_id, route_diagnostic(route, ActionIrDiagnosticKind::DuplicateActionRouteId));
        assert forall|m: int| 0 <= m < ds@.len() implies action_ir_diagnostic_says(#[trigger] ds@[m], said[m]) by {
            if m < stage.len() {
                assert(ds@[m] == stage[m]);
                assert(said[m] == old_said[m]);
            }
        }
    }
    let ghost stage = ds@;
    let ghost old_said = said;
    if duplicate_order {
        ds.push(ActionIrDiagnostic::new(route.source_ref, ActionIrDiagnosticKind::DuplicateRouteOrder, route.id.0, 0));
    }
    proof {
        said = said + when(duplicate_order, route_diagnostic(route, ActionIrDiagnosticKind::DuplicateRouteOrder));
        assert forall|m: int| 0 <= m < ds@.len() implies action_ir_diagnostic_says(#[trigger] ds@[m], said[m]) by {
            if m < stage.len() {
                assert(ds@[m] == stage[m]);
                assert(said[m] == old_said[m]);
            }
        }
    }
    let ghost stage = ds@;
    let ghost old_said = said;
    if route.semantic_action.raw() == 0 {
        ds.push(ActionIrDiagnostic::new(route.source_ref, ActionIrDiagnosticKind::ZeroSemanticActionRef, route.id.0, 0));
    }
    proof {
        said = said + when(route.semantic_action.spec_raw() == 0, route_diagnostic(route, ActionIrDiagnosticKind::ZeroSemanticActionRef));
        assert forall|m: int| 0 <= m < ds@.len() implies action_ir_diagnostic_says(#[trigger] ds@[m], said[m]) by {
            if m < stage.len() {
                assert(ds@[m] == stage[m]);
                assert(said[m] == old_said[m]);
            }
        }
        assert(found == document_has_node(nodes@, route.target.node));
        assert(duplicate_id == earlier_route_id(s, ii));
        assert(duplicate_order == earlier_route_order(s, ii));
        assert(said =~= route_diagnostics(s, nodes@, ii));
    }
    ds
}

impl ActionIrDocument {
    /// Checks routes against a target document. The routes are first put in
    /// canonical order; a route is diagnosed when its target node is missing,
    /// an earlier route has its id, an earlier route has its target and
    /// order, or its semantic action is zero. With no diagnostic the routes
    /// are accepted in canonical order; otherwise the diagnostics are returned
    /// sorted by coordinate, each once.
    pub fn build(routes: Vec<ActionRoute>, target_document: &StaticUiDocument) -> (r: Result<Self, Vec<ActionIrDiagnostic>>)
        ensures
            route_build_outcome(routes@, target_document.spec_nodes(), r),
    {
        let sorted = sort_routes(&routes);
        let nodes = target_document.nodes();
        let ghost s = sorted@;
        let ghost ns = nodes@;
        let mut raw: Vec<ActionIrDiagnostic> = Vec::new();
        let mut i: usize = 0;
        while i < sorted.len()
            invariant
                s == sorted@,
                ns == nodes@,
                ns == target_document.spec_nodes(),
                i <= s.len(),
                raw@.len() == routes_diagnostics(s, ns, i as int).len(),
                forall|k: int| 0 <= k < raw@.len() ==> action_ir_diagnostic_says(#[trigger] raw@[k], routes_diagnostics(s, ns, i as int)[k]),
            decreases s.len() - i,
        {
            let ghost before = raw@;
            let mut found = diagnose_route(&sorted, nodes, i);
            let ghost new_ds = found@;
            raw.append(&mut found);
            proof {
                let prev = routes_diagnostics(s, ns, i as int);
                let here = route_diagnostics(s, ns, i as int);
                assert(routes_diagnostics(s, ns, i + 1) == prev + here);
                assert forall|k: int| 0 <= k < raw@.len() implies action_ir_diagnostic_says(#[trigger] raw@[k], routes_diagnostics(s, ns, i + 1)[k]) by {
                    if k < before.len() {
                        assert(raw@[k] == before[k]);
                    } else {
                        assert(raw@[k] == new_ds[k - before.len()]);
                    }
                }
            }
            i += 1;
        }
        let canonical = canonical_action_ir_diagnostics(&raw);
        proof {
            lemma_canonical_says_all(raw@, canonical@, routes_diagnostics(s, ns, s.len() as int));
        }
        if raw.len() > 0 {
            Err(canonical)
        } else {
            // Already in the order of target, route order and id, which the
            // canonical order begins with.
            Ok(ActionIrDocument { routes: sorted })
        }
    }
}

/// Equal concatenations with first parts of one length have equal parts.
pub(crate) proof fn lemma_concat_split(p1: Seq<int>, q1: Seq<int>, p2: Seq<int>, q2: Seq<int>)
    requires
        p1 + q1 == p2 + q2,
        p1.len() == p2.len(),
    ensures
        p1 == p2,
        q1 == q2,
{
    let l = p1 + q1;
    let r = p2 + q2;
    vstd::seq::axiom_seq_add_len(p1, q1);
    vstd::seq::axiom_seq_add_len(p2, q2);
    assert(l.len() == r.len());
    assert(q1.len() == q2.len());
    assert forall|i: int| 0 <= i < p1.len() implies p1[i] == p2[i] by {
        assert(l[i] == p1[i]);
        assert(r[i] == p2[i]);
    }
    assert forall|i: int| 0 <= i < q1.len() implies q1[i] == q2[i] by {
        assert(l[i + p1.len()] == q1[i]);
        assert(r[i + p2.len()] == q2[i]);
    }
    assert(p1 =~= p2);
    assert(q1 =~= q2);
}

/// Only equal routes have the same sort key.
proof fn lemma_route_key_injective(a: ActionRoute, b: ActionRoute)
    requires
        route_key(a) == route_key(b),
    ensures
        a == b,
{
    let ha = seq![
        a.target.node.spec_raw() as int,
        a.target.slot.0 as int,
        a.order.0 as int,
        a.id.0 as int,
        a.semantic_action.spec_raw() as int,
    ];
    let hb = seq![
        b.target.node.spec_raw() as int,
        b.target.slot.0 as int,
        b.order.0 as int,
        b.id.0 as int,
        b.semantic_action.spec_raw() as int,
    ];
    let fa = seq![flag_key(a.context_reqs.requires_actor), flag_key(a.context_reqs.requires_session), flag_key(a.context_reqs.requires_client)];
    let fb = seq![flag_key(b.context_reqs.requires_actor), flag_key(b.context_reqs.requires_session), flag_key(b.context_reqs.requires_client)];
    let sa = source_ref_key(a.source_ref);
    let sb = source_ref_key(b.source_ref);
    let ra = revision_key(a.context_reqs.required_revision);
    let rb = revision_key(b.context_reqs.required_revision);
    let ea = epoch_key(a.context_reqs.required_epoch);
    let eb = epoch_key(b.context_reqs.required_epoch);
    let ca = capability_key(a.capability);
    let cb = capability_key(b.capability);
    assert(route_key(a) == ha + sa + fa + ra + ea + ca);
    assert(route_key(b) == hb + sb + fb + rb + eb + cb);
    assert(sa.len() == 4 && sb.len() == 4);
    assert(ra.len() == 2 && rb.len() == 2 && ea.len() == 2 && eb.len() == 2);
    lemma_concat_split(ha + sa + fa + ra + ea, ca, hb + sb + fb + rb + eb, cb);
    lemma_concat_split(ha + sa + fa + ra, ea, hb + sb + fb + rb, eb);
    lemma_concat_split(ha + sa + fa, ra, hb + sb + fb, rb);
    lemma_concat_split(ha + sa, fa, hb + sb, fb);
    lemma_concat_split(ha, sa, hb, sb);
    assert(ha[0] == hb[0] && ha[1] == hb[1] && ha[2] == hb[2] && ha[3] == hb[3] && ha[4] == hb[4]);
    assert(fa[0] == fb[0] && fa[1] == fb[1] && fa[2] == fb[2]);
    crate::contract_primitives::lemma_static_node_id_raw_injective(a.target.node, b.target.node);
    crate::semantic_refs::lemma_semantic_action_ref_raw_injective(a.semantic_action, b.semantic_action);
    lemma_source_ref_key_injective(a.source_ref, b.source_ref);
    assert(ra[0] == rb[0] && ra[1] == rb[1]);
    assert(ea[0] == eb[0] && ea[1] == eb[1]);
    assert(ca[0] == cb[0] && ca[1] == cb[1]);
    match (a.context_reqs.required_revision, b.context_reqs.required_revision) {
        (Some(x), Some(y)) => crate::semantic_refs::lemma_revision_ref_raw_injective(x, y),
        _ => {},
    }
    match (a.context_reqs.required_epoch, b.context_reqs.required_epoch) {
        (Some(x), Some(y)) => crate::semantic_refs::lemma_epoch_ref_raw_injective(x, y),
        _ => {},
    }
    match (a.capability, b.capability) {
        (Some(x), Some(y)) => crate::semantic_refs::lemma_capability_ref_raw_injective(x, y),
        _ => {},
    }
}

/// Two arrangements of the same routes in canonical order are one.
proof fn lemma_sorted_routes_unique(s: Seq<ActionRoute>, t: Seq<ActionRoute>)
    requires
        routes_sorted(s),
        routes_sorted(t),
        s.to_multiset() == t.to_multiset(),
    ensures
        s == t,
    decreases s.len(),
{
    vstd::seq_lib::to_multiset_len(s);
    vstd::seq_lib::to_multiset_len(t);
    assert(s.len() == t.len());
    if s.len() == 0 {
        assert(s =~= t);
    } else {
        assert(s.contains(s[0]));
        assert(t.contains(t[0]));
        vstd::seq_lib::to_multiset_contains(s, s[0]);
        vstd::seq_lib::to_multiset_contains(t, s[0]);
        vstd::seq_lib::to_multiset_contains(s, t[0]);
        vstd::seq_lib::to_multiset_contains(t, t[0]);
        assert(t.contains(s[0]));
        assert(s.contains(t[0]));
        let j = choose|j: int| 0 <= j < t.len() && t[j] == s[0];
        let i = choose|i: int| 0 <= i < s.len() && s[i] == t[0];
        if j > 0 {
            assert(route_order(t[0], t[j]) <= 0);
        }
        if i > 0 {
            assert(route_order(s[0], s[i]) <= 0);
        }
        lemma_lex_order_antisymmetric(route_key(s[0]), route_key(t[0]));
        if s[0] != t[0] {
            assert(lex_order(route_key(t[0]), route_key(s[0])) <= 0);
            assert(lex_order(route_key(s[0]), route_key(t[0])) <= 0);
            lemma_route_key_injective(s[0], t[0]);
        }
        let s1 = s.drop_first();
        let t1 = t.drop_first();
        assert(s.remove(0) =~= s1);
        assert(t.remove(0) =~= t1);
        vstd::seq_lib::to_multiset_remove(s, 0);
        vstd::seq_lib::to_multiset_remove(t, 0);
        assert(s1.to_multiset() =~= t1.to_multiset());
        assert forall|a: int, b: int| 0 <= a < b < s1.len() implies route_order(s1[a], s1[b]) <= 0 by {
            assert(route_order(s[a + 1], s[b + 1]) <= 0);
        }
        assert forall|a: int, b: int| 0 <= a < b < t1.len() implies route_order(t1[a], t1[b]) <= 0 by {
            assert(route_order(t[a + 1], t[b + 1]) <= 0);
        }
        lemma_sorted_routes_unique(s1, t1);
        assert(s =~= t) by {
            assert forall|k: int| 0 <= k < s.len() implies s[k] == t[k] by {
                if k > 0 {
                    assert(s[k] == s1[k - 1]);
                    assert(t[k] == t1[k - 1]);
                }
            }
        }
    }
}

/// Diagnostics that say the same thing stand in the same place.
proof fn lemma_saying_same_same_place(x: ActionIrDiagnostic, y: ActionIrDiagnostic, e: ActionIrDiagnosticContent)
    requires
        action_ir_diagnostic_says(x, e),
        action_ir_diagnostic_says(y, e),
    ensures
        coordinate_order(x.coordinate, y.coordinate) == 0,
{
    assert(crate::contract_primitives::code_key(x.coordinate.spec_code()) =~= crate::contract_primitives::code_key(y.coordinate.spec_code()));
    lemma_coordinate_order(x.coordinate, y.coordinate, y.coordinate);
}

/// The coordinates of diagnostics.
pub open spec fn diagnostic_coordinates(ds: Seq<ActionIrDiagnostic>) -> Seq<DiagnosticCoordinate> {
    ds.map_values(|d: ActionIrDiagnostic| d.coordinate)
}

/// Each diagnostic of `x` that says one of `all` stands in the place of one
/// of `y`, when `y` says each of `all`.
proof fn lemma_canonical_tied(x: Seq<ActionIrDiagnostic>, y: Seq<ActionIrDiagnostic>, all: Seq<ActionIrDiagnosticContent>)
    requires
        forall|a: int| #![trigger x[a]] 0 <= a < x.len() ==> says_one_of(x[a], all),
        forall|k: int| #![trigger all[k]] 0 <= k < all.len() ==> said_by_one_of(y, all[k]),
    ensures
        forall|a: int| 0 <= a < x.len() ==> #[trigger] crate::contract_primitives::tied_in(
            crate::contract_primitives::coordinate_ord(),
            diagnostic_coordinates(x)[a],
            diagnostic_coordinates(y),
        ),
{
    let ord = crate::contract_primitives::coordinate_ord();
    let (cx, cy) = (diagnostic_coordinates(x), diagnostic_coordinates(y));
    assert forall|a: int| 0 <= a < x.len() implies #[trigger] crate::contract_primitives::tied_in(ord, cx[a], cy) by {
        assert(says_one_of(x[a], all));
        let k = choose|k: int| 0 <= k < all.len() && action_ir_diagnostic_says(x[a], #[trigger] all[k]);
        assert(said_by_one_of(y, all[k]));
        let b = choose|b: int| 0 <= b < y.len() && action_ir_diagnostic_says(#[trigger] y[b], all[k]);
        lemma_saying_same_same_place(x[a], y[b], all[k]);
        assert(ord(cx[a], cy[b]) == 0);
    }
}

/// Strictly increasing diagnostics have strictly increasing coordinates.
proof fn lemma_coordinates_increasing(x: Seq<ActionIrDiagnostic>)
    requires
        forall|a: int, b: int| 0 <= a < b < x.len() ==> coordinate_order(x[a].coordinate, x[b].coordinate) < 0,
    ensures
        forall|a: int, b: int| 0 <= a < b < x.len() ==> (crate::contract_primitives::coordinate_ord())(
            diagnostic_coordinates(x)[a],
            diagnostic_coordinates(x)[b],
        ) < 0,
{
}

/// Two canonical lists of the same diagnostics say the same, place by place.
proof fn lemma_canonical_diagnostics_agree(x: Seq<ActionIrDiagnostic>, y: Seq<ActionIrDiagnostic>, all: Seq<ActionIrDiagnosticContent>)
    requires
        canonical_diagnostics_of(x, all),
        canonical_diagnostics_of(y, all),
    ensures
        x.len() == y.len(),
        forall|k: int| 0 <= k < x.len() ==> coordinate_order((#[trigger] x[k]).coordinate, y[k].coordinate) == 0,
{
    let ord = crate::contract_primitives::coordinate_ord();
    let (cx, cy) = (diagnostic_coordinates(x), diagnostic_coordinates(y));
    crate::contract_primitives::lemma_coordinate_ties();
    lemma_canonical_tied(x, y, all);
    lemma_canonical_tied(y, x, all);
    lemma_coordinates_increasing(x);
    lemma_coordinates_increasing(y);
    crate::contract_primitives::lemma_sorted_ties_agree(cx, cy, ord);
    assert forall|k: int| 0 <= k < x.len() implies coordinate_order((#[trigger] x[k]).coordinate, y[k].coordinate) == 0 by {
        assert(ord(cx[k], cy[k]) == 0);
    }
}

/// Building does not depend on the order in which the routes are given:
/// from any reordering of the same routes, both builds succeed with the same
/// routes, or both fail with the canonical diagnostics of the same routes in
/// canonical order.
pub proof fn lemma_build_ignores_route_order(
    a: Seq<ActionRoute>,
    b: Seq<ActionRoute>,
    nodes: Seq<StaticUiNode>,
    ra: Result<ActionIrDocument, Vec<ActionIrDiagnostic>>,
    rb: Result<ActionIrDocument, Vec<ActionIrDiagnostic>>,
)
    requires
        a.to_multiset() == b.to_multiset(),
        route_build_outcome(a, nodes, ra),
        route_build_outcome(b, nodes, rb),
    ensures
        ra is Ok <==> rb is Ok,
        match (ra, rb) {
            (Ok(da), Ok(db)) => da.routes@ == db.routes@,
            (Err(xa), Err(xb)) => {
                &&& xa@.len() == xb@.len()
                &&& forall|k: int| 0 <= k < xa@.len() ==> coordinate_order((#[trigger] xa@[k]).coordinate, xb@[k].coordinate) == 0
                &&& forall|s: Seq<ActionRoute>|
                    routes_sorted(s) && #[trigger] s.to_multiset() == a.to_multiset() ==> canonical_route_diagnostics(xa@, s, nodes)
                        && canonical_route_diagnostics(xb@, s, nodes)
            },
            _ => true,
        },
{
    let sa = choose|s: Seq<ActionRoute>|
        {
            &&& routes_sorted(s)
            &&& s.to_multiset() == a.to_multiset()
            &&& match ra {
                Ok(doc) => doc.routes@ == s && !route_diagnostics_exist(s, nodes),
                Err(ds) => route_diagnostics_exist(s, nodes) && canonical_route_diagnostics(ds@, s, nodes),
            }
        };
    let sb = choose|s: Seq<ActionRoute>|
        {
            &&& routes_sorted(s)
            &&& s.to_multiset() == b.to_multiset()
            &&& match rb {
                Ok(doc) => doc.routes@ == s && !route_diagnostics_exist(s, nodes),
                Err(ds) => route_diagnostics_exist(s, nodes) && canonical_route_diagnostics(ds@, s, nodes),
            }
        };
    lemma_sorted_routes_unique(sa, sb);
    assert forall|s: Seq<ActionRoute>| routes_sorted(s) && #[trigger] s.to_multiset() == a.to_multiset() implies s == sa by {
        lemma_sorted_routes_unique(s, sa);
    }
    if let (Err(xa), Err(xb)) = (ra, rb) {
        lemma_canonical_diagnostics_agree(xa@, xb@, routes_diagnostics(sa, nodes, sa.len() as int));
    }
}

/// Building is idempotent: building again from the routes of a built
/// document succeeds with the same routes.
pub proof fn lemma_build_is_idempotent(
    routes: Seq<ActionRoute>,
    nodes: Seq<StaticUiNode>,
    doc: ActionIrDocument,
    again: Result<ActionIrDocument, Vec<ActionIrDiagnostic>>,
)
    requires
        route_build_outcome(routes, nodes, Ok(doc)),
        route_build_outcome(doc.routes@, nodes, again),
    ensures
        again matches Ok(d) && d.routes@ == doc.routes@,
{
    let s = choose|s: Seq<ActionRoute>|
        {
            &&& routes_sorted(s)
            &&& s.to_multiset() == routes.to_multiset()
            &&& doc.routes@ == s && !route_diagnostics_exist(s, nodes)
        };
    let s2 = choose|s2: Seq<ActionRoute>|
        {
            &&& routes_sorted(s2)
            &&& s2.to_multiset() == doc.routes@.to_multiset()
            &&& match again {
                Ok(d) => d.routes@ == s2 && !route_diagnostics_exist(s2, nodes),
                Err(ds) => route_diagnostics_exist(s2, nodes) && canonical_route_diagnostics(ds@, s2, nodes),
            }
        };
    lemma_sorted_routes_unique(s2, s);
}

/// With no diagnostic among the first `n` sorted routes, each targets a node
/// of the document, has a non-zero semantic action, and shares neither its
/// id nor its target and order with an earlier one.
proof fn lemma_no_route_diagnostics(s: Seq<ActionRoute>, nodes: Seq<StaticUiNode>, n: int)
    requires
        0 <= n <= s.len(),
        routes_diagnostics(s, nodes, n).len() == 0,
    ensures
        forall|i: int| 0 <= i < n ==> document_has_node(nodes, (#[trigger] s[i]).target.node) && s[i].semantic_action.spec_raw() != 0,
        forall|i: int, k: int| 0 <= k < i < n ==> (#[trigger] s[k]).id != (#[trigger] s[i]).id && !(s[k].target == s[i].target && s[k].order == s[i].order),
    decreases n,
{
    if n > 0 {
        lemma_no_route_diagnostics(s, nodes, n - 1);
        let i = n - 1;
        assert(route_diagnostics(s, nodes, i).len() == 0);
        assert(!earlier_route_id(s, i) && !earlier_route_order(s, i));
        assert forall|k: int| 0 <= k < i implies s[k].id != s[i].id && !(s[k].target == s[i].target && s[k].order == s[i].order) by {
            if s[k].id == s[i].id {
                assert(earlier_route_id(s, i));
            }
            if s[k].target == s[i].target && s[k].order == s[i].order {
                assert(earlier_route_order(s, i));
            }
        }
    }
}

/// An accepted route document holds the given routes in canonical order
/// (by target node and slot, then order, then id, then the other fields);
/// each targets a node of the document and has a non-zero semantic action,
/// and no two share an id, or a target and an order.
pub proof fn lemma_accepted_routes_are_valid(routes: Seq<ActionRoute>, nodes: Seq<StaticUiNode>, doc: ActionIrDocument)
    requires
        route_build_outcome(routes, nodes, Ok(doc)),
    ensures
        doc.routes@.to_multiset() == routes.to_multiset(),
        routes_sorted(doc.routes@),
        forall|i: int| 0 <= i < doc.routes@.len() ==> document_has_node(nodes, (#[trigger] doc.routes@[i]).target.node)
            && doc.routes@[i].semantic_action.spec_raw() != 0,
        forall|i: int, k: int| 0 <= k < doc.routes@.len() && 0 <= i < doc.routes@.len() && k != i ==> (#[trigger] doc.routes@[k]).id
            != (#[trigger] doc.routes@[i]).id && !(doc.routes@[k].target == doc.routes@[i].target && doc.routes@[k].order == doc.routes@[i].order),
{
    let s = doc.routes@;
    lemma_no_route_diagnostics(s, nodes, s.len() as int);
    assert forall|i: int, k: int| 0 <= k < s.len() && 0 <= i < s.len() && k != i implies (#[trigger] s[k]).id != (#[trigger] s[i]).id
        && !(s[k].target == s[i].target && s[k].order == s[i].order) by {
        if k > i {
            assert(s[i].id != s[k].id);
        }
    }
}

} // verus!
