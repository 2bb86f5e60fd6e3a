//! Freshness and critical-control projection.
//!
//! Caller-supplied freshness is presentation evidence. This module does not
//! read connection state, evaluate capability, admit actions, or mutate UI.
use vstd::prelude::*;
use crate::binding_graph::BindingTarget;
use crate::binding_graph_observation::{lemma_insert_to_set, lemma_push_contains, lemma_take_one_more_to_set};
use crate::contract_primitives::{
    compare_u64_slices, lemma_lex_order_antisymmetric, lemma_lex_order_strict_transitive, lemma_static_node_id_raw_injective, lex_order, StaticNodeId,
};
use crate::projection_patch::{ProjectionNodeAvailability, ProjectionPatchOperation, ProjectionPatchValue};

verus! {

/// How fresh the data behind a surface is.
#[derive(Debug, Clone, Copy, PartialEq, Eq, PartialOrd, Ord, Hash, Structural)]
pub enum FreshnessState {
    Fresh,
    Degraded,
    Stale,
    Offline,
    Resyncing,
}

/// The token that names a freshness state.
pub open spec fn freshness_token(s: FreshnessState) -> Seq<char> {
    match s {
        FreshnessState::Fresh => "fresh"@,
        FreshnessState::Degraded => "degraded"@,
        FreshnessState::Stale => "stale"@,
        FreshnessState::Offline => "offline"@,
        FreshnessState::Resyncing => "resyncing"@,
    }
}

/// Stale, offline and resyncing data restrict critical controls.
pub open spec fn restricts_critical(s: FreshnessState) -> bool {
    s is Stale || s is Offline || s is Resyncing
}

impl FreshnessState {
    pub fn token(self) -> (r: &'static str)
        ensures
            r@ == freshness_token(self),
    {
        match self {
            Self::Fresh => "fresh",
            Self::Degraded => "degraded",
            Self::Stale => "stale",
            Self::Offline => "offline",
            Self::Resyncing => "resyncing",
        }
    }

    pub fn restricts_critical_controls(self) -> (r: bool)
        ensures
            r == restricts_critical(self),
    {
        match self {
            Self::Stale | Self::Offline | Self::Resyncing => true,
            _ => false,
        }
    }
}

/// How critical a control is.
#[derive(Debug, Clone, Copy, PartialEq, Eq, PartialOrd, Ord, Hash, Structural)]
pub enum ControlCriticality {
    Normal,
    Guarded,
    Danger,
    TaskControl,
}

impl ControlCriticality {
    /// Every control but a normal one is critical.
    fn is_critical(self) -> (r: bool)
        ensures
            r == !(self is Normal),
    {
        match self {
            Self::Normal => false,
            _ => true,
        }
    }
}

/// The availability a projection gives a control.
#[derive(Debug, Clone, Copy, PartialEq, Eq, PartialOrd, Ord, Hash, Structural)]
pub enum ProjectedControlAvailability {
    Available,
    Unavailable,
    Hidden,
    Pending,
    Stale,
}

/// The node availability of each control availability: the same name.
pub open spec fn node_availability(a: ProjectedControlAvailability) -> ProjectionNodeAvailability {
    match a {
        ProjectedControlAvailability::Available => ProjectionNodeAvailability::Available,
        ProjectedControlAvailability::Unavailable => ProjectionNodeAvailability::Unavailable,
        ProjectedControlAvailability::Hidden => ProjectionNodeAvailability::Hidden,
        ProjectedControlAvailability::Pending => ProjectionNodeAvailability::Pending,
        ProjectedControlAvailability::Stale => ProjectionNodeAvailability::Stale,
    }
}

impl From<ProjectedControlAvailability> for ProjectionNodeAvailability {
    fn from(value: ProjectedControlAvailability) -> (r: Self) {
        match value {
            ProjectedControlAvailability::Available => Self::Available,
            ProjectedControlAvailability::Unavailable => Self::Unavailable,
            ProjectedControlAvailability::Hidden => Self::Hidden,
            ProjectedControlAvailability::Pending => Self::Pending,
            ProjectedControlAvailability::Stale => Self::Stale,
        }
    }
}

impl vstd::std_specs::convert::FromSpecImpl<ProjectedControlAvailability> for ProjectionNodeAvailability {
    open spec fn obeys_from_spec() -> bool {
        true
    }

    open spec fn from_spec(value: ProjectedControlAvailability) -> Self {
        node_availability(value)
    }
}

/// A control whose availability follows freshness.
#[derive(Debug, Clone, Copy, PartialEq, Eq, PartialOrd, Ord, Hash, Structural)]
pub struct FreshnessControlRoute {
    node: StaticNodeId,
    criticality: ControlCriticality,
    availability: ProjectedControlAvailability,
}

impl FreshnessControlRoute {
    pub closed spec fn spec_node(self) -> StaticNodeId {
        self.node
    }

    pub closed spec fn spec_criticality(self) -> ControlCriticality {
        self.criticality
    }

    pub closed spec fn spec_availability(self) -> ProjectedControlAvailability {
        self.availability
    }

    pub fn new(node: StaticNodeId, criticality: ControlCriticality, availability: ProjectedControlAvailability) -> (r: Self)
        ensures
            r.spec_node() == node,
            r.spec_criticality() == criticality,
            r.spec_availability() == availability,
    {
        Self { node, criticality, availability }
    }

    pub fn node(self) -> (r: StaticNodeId)
        ensures
            r == self.spec_node(),
    {
        self.node
    }

    pub fn criticality(self) -> (r: ControlCriticality)
        ensures
            r == self.spec_criticality(),
    {
        self.criticality
    }

    pub fn availability(self) -> (r: ProjectedControlAvailability)
        ensures
            r == self.spec_availability(),
    {
        self.availability
    }
}

/// Where freshness is shown, and the controls it governs.
#[derive(Debug, Clone, PartialEq, Eq)]
pub struct FreshnessProjectionRoute {
    freshness_target: BindingTarget,
    controls: Vec<FreshnessControlRoute>,
}

impl FreshnessProjectionRoute {
    pub closed spec fn spec_freshness_target(&self) -> BindingTarget {
        self.freshness_target
    }

    pub closed spec fn spec_controls(&self) -> Seq<FreshnessControlRoute> {
        self.controls@
    }

    pub fn new(freshness_target: BindingTarget, controls: Vec<FreshnessControlRoute>) -> (r: Self)
        ensures
            r.spec_freshness_target() == freshness_target,
            r.spec_controls() == controls@,
    {
        Self { freshness_target, controls }
    }

    pub fn freshness_target(&self) -> (r: &BindingTarget)
        ensures
            *r == self.spec_freshness_target(),
    {
        &self.freshness_target
    }

    pub fn controls(&self) -> (r: &[FreshnessControlRoute])
        ensures
            r@ == self.spec_controls(),
    {
        self.controls.as_slice()
    }
}

/// The bounds on the controls and operations of a freshness projection.
#[derive(Debug, Clone, Copy, PartialEq, Eq, Structural)]
pub struct FreshnessProjectionLimits {
    max_control_routes: usize,
    max_operations: usize,
}

impl FreshnessProjectionLimits {
    pub closed spec fn spec_max_control_routes(self) -> usize {
        self.max_control_routes
    }

    pub closed spec fn spec_max_operations(self) -> usize {
        self.max_operations
    }

    /// The limits with these two bounds.
    pub closed spec fn spec_new(max_control_routes: usize, max_operations: usize) -> Self {
        Self { max_control_routes, max_operations }
    }

    pub fn new(max_control_routes: usize, max_operations: usize) -> (r: Self)
        ensures
            r.spec_max_control_routes() == max_control_routes,
            r.spec_max_operations() == max_operations,
            r == Self::spec_new(max_control_routes, max_operations),
    {
        Self { max_control_routes, max_operations }
    }
}

/// The patch operations that project a freshness state.
#[derive(Debug, Clone, PartialEq, Eq)]
pub struct FreshnessProjectionFragment {
    state: FreshnessState,
    operations: Vec<ProjectionPatchOperation>,
}

impl FreshnessProjectionFragment {
    pub closed spec fn spec_state(&self) -> FreshnessState {
        self.state
    }

    pub closed spec fn spec_operations(&self) -> Seq<ProjectionPatchOperation> {
        self.operations@
    }

    pub fn state(&self) -> (r: FreshnessState)
        ensures
            r == self.spec_state(),
    {
        self.state
    }

    pub fn operations(&self) -> (r: &[ProjectionPatchOperation])
        ensures
            r@ == self.spec_operations(),
    {
        self.operations.as_slice()
    }

    pub fn into_operations(self) -> (r: Vec<ProjectionPatchOperation>)
        ensures
            r@ == self.spec_operations(),
    {
        self.operations
    }
}

/// What is wrong with a freshness projection.
#[derive(Debug, Clone, Copy, PartialEq, Eq, PartialOrd, Ord, Hash, Structural)]
pub enum FreshnessProjectionDiagnosticKind {
    ResourceLimitExceeded,
    DuplicateControlNode,
    InvalidCriticalControlAvailability,
    OperationLimitExceeded,
}

/// The code of each diagnostic kind.
pub open spec fn freshness_code_text(kind: FreshnessProjectionDiagnosticKind) -> Seq<char> {
    match kind {
        FreshnessProjectionDiagnosticKind::ResourceLimitExceeded => "CFP_RESOURCE_LIMIT_EXCEEDED"@,
        FreshnessProjectionDiagnosticKind::DuplicateControlNode => "CFP_DUPLICATE_CONTROL_NODE"@,
        FreshnessProjectionDiagnosticKind::InvalidCriticalControlAvailability => "CFP_INVALID_CRITICAL_CONTROL_AVAILABILITY"@,
        FreshnessProjectionDiagnosticKind::OperationLimitExceeded => "CFP_OPERATION_LIMIT_EXCEEDED"@,
    }
}

impl FreshnessProjectionDiagnosticKind {
    pub fn code(self) -> (r: &'static str)
        ensures
            r@ == freshness_code_text(self),
    {
        match self {
            Self::ResourceLimitExceeded => "CFP_RESOURCE_LIMIT_EXCEEDED",
            Self::DuplicateControlNode => "CFP_DUPLICATE_CONTROL_NODE",
            Self::InvalidCriticalControlAvailability => "CFP_INVALID_CRITICAL_CONTROL_AVAILABILITY",
            Self::OperationLimitExceeded => "CFP_OPERATION_LIMIT_EXCEEDED",
        }
    }
}

/// A diagnostic of a freshness projection.
#[derive(Debug, Clone, Copy, PartialEq, Eq, PartialOrd, Ord, Hash, Structural)]
pub struct FreshnessProjectionDiagnostic {
    pub kind: FreshnessProjectionDiagnosticKind,
    pub node: Option<StaticNodeId>,
    pub actual: Option<usize>,
    pub maximum: Option<usize>,
}

/// A diagnostic about one control node.
pub open spec fn node_diagnostic(kind: FreshnessProjectionDiagnosticKind, node: StaticNodeId) -> FreshnessProjectionDiagnostic {
    FreshnessProjectionDiagnostic { kind, node: Some(node), actual: None, maximum: None }
}

/// A diagnostic about a bound that was passed.
pub open spec fn limit_diagnostic(kind: FreshnessProjectionDiagnosticKind, actual: usize, maximum: usize) -> FreshnessProjectionDiagnostic {
    FreshnessProjectionDiagnostic { kind, node: None, actual: Some(actual), maximum: Some(maximum) }
}

impl FreshnessProjectionDiagnostic {
    fn content(kind: FreshnessProjectionDiagnosticKind, node: StaticNodeId) -> (r: Self)
        ensures
            r == node_diagnostic(kind, node),
    {
        Self { kind, node: Some(node), actual: None, maximum: None }
    }

    fn limit(kind: FreshnessProjectionDiagnosticKind, actual: usize, maximum: usize) -> (r: Self)
        ensures
            r == limit_diagnostic(kind, actual, maximum),
    {
        Self { kind, node: None, actual: Some(actual), maximum: Some(maximum) }
    }

    pub fn kind(self) -> (r: FreshnessProjectionDiagnosticKind)
        ensures
            r == self.kind,
    {
        self.kind
    }

    pub fn code(self) -> (r: &'static str)
        ensures
            r@ == freshness_code_text(self.kind),
    {
        self.kind.code()
    }

    pub fn node(self) -> (r: Option<StaticNodeId>)
        ensures
            r == self.node,
    {
        self.node
    }

    pub fn actual(self) -> (r: Option<usize>)
        ensures
            r == self.actual,
    {
        self.actual
    }

    pub fn maximum(self) -> (r: Option<usize>)
        ensures
            r == self.maximum,
    {
        self.maximum
    }
}

/// The position of a diagnostic kind.
pub open spec fn freshness_kind_rank(k: FreshnessProjectionDiagnosticKind) -> int {
    match k {
        FreshnessProjectionDiagnosticKind::ResourceLimitExceeded => 0,
        FreshnessProjectionDiagnosticKind::DuplicateControlNode => 1,
        FreshnessProjectionDiagnosticKind::InvalidCriticalControlAvailability => 2,
        FreshnessProjectionDiagnosticKind::OperationLimitExceeded => 3,
    }
}

/// The sort key of a diagnostic: kind, node, actual and maximum, each absent
/// value first.
pub open spec fn freshness_diagnostic_key(d: FreshnessProjectionDiagnostic) -> Seq<int> {
    seq![
        freshness_kind_rank(d.kind),
        if d.node is Some { 1int } else { 0int },
        match d.node {
            None => 0int,
            Some(n) => n.spec_raw() as int,
        },
        if d.actual is Some { 1int } else { 0int },
        match d.actual {
            None => 0int,
            Some(a) => a as int,
        },
        if d.maximum is Some { 1int } else { 0int },
        match d.maximum {
            None => 0int,
            Some(m) => m as int,
        },
    ]
}

/// The diagnostics are strictly increasing in key order.
pub open spec fn freshness_diagnostics_increasing(s: Seq<FreshnessProjectionDiagnostic>) -> bool {
    forall|a: int, b: int| 0 <= a < b < s.len() ==> lex_order(freshness_diagnostic_key(s[a]), freshness_diagnostic_key(s[b])) < 0
}

/// Diagnostics with the same key are the same.
proof fn lemma_freshness_key_injective(a: FreshnessProjectionDiagnostic, b: FreshnessProjectionDiagnostic)
    requires
        freshness_diagnostic_key(a) == freshness_diagnostic_key(b),
    ensures
        a == b,
{
    let (ka, kb) = (freshness_diagnostic_key(a), freshness_diagnostic_key(b));
    assert(ka[0] == kb[0] && ka[1] == kb[1] && ka[2] == kb[2] && ka[3] == kb[3] && ka[4] == kb[4] && ka[5] == kb[5] && ka[6] == kb[6]);
    if a.node is Some {
        lemma_static_node_id_raw_injective(a.node->0, b.node->0);
    }
}

/// Compares two diagnostics in key order.
fn compare_freshness_diagnostics(a: FreshnessProjectionDiagnostic, b: FreshnessProjectionDiagnostic) -> (r: i8)
    ensures
        r == lex_order(freshness_diagnostic_key(a), freshness_diagnostic_key(b)),
{
    let ka = freshness_key_parts(a);
    let kb = freshness_key_parts(b);
    compare_u64_slices(ka.as_slice(), kb.as_slice())
}

/// The key of a diagnostic as unsigned parts.
fn freshness_key_parts(d: FreshnessProjectionDiagnostic) -> (k: Vec<u64>)
    ensures
        k@.map_values(|x: u64| x as int) == freshness_diagnostic_key(d),
{
    let kind: u64 = match d.kind {
        FreshnessProjectionDiagnosticKind::ResourceLimitExceeded => 0,
        FreshnessProjectionDiagnosticKind::DuplicateControlNode => 1,
        FreshnessProjectionDiagnosticKind::InvalidCriticalControlAvailability => 2,
        FreshnessProjectionDiagnosticKind::OperationLimitExceeded => 3,
    };
    let (n0, n1): (u64, u64) = match d.node {
        None => (0, 0),
        Some(n) => (1, n.raw()),
    };
    let (a0, a1): (u64, u64) = match d.actual {
        None => (0, 0),
        Some(a) => (1, a as u64),
    };
    let (m0, m1): (u64, u64) = match d.maximum {
        None => (0, 0),
        Some(m) => (1, m as u64),
    };
    let k = vec![kind, n0, n1, a0, a1, m0, m1];
    assert(k@.map_values(|x: u64| x as int) =~= freshness_diagnostic_key(d));
    k
}

/// Sorts diagnostics by key, each once.
fn canonical_freshness_diagnostics(raw: Vec<FreshnessProjectionDiagnostic>) -> (r: Vec<FreshnessProjectionDiagnostic>)
    ensures
        freshness_diagnostics_increasing(r@),
        r@.to_set() == raw@.to_set(),
{
    let mut out: Vec<FreshnessProjectionDiagnostic> = Vec::new();
    let mut i: usize = 0;
    proof {
        assert(out@.to_set() =~= raw@.take(0).to_set());
    }
    while i < raw.len()
        invariant
            i <= raw@.len(),
            freshness_diagnostics_increasing(out@),
            out@.to_set() == raw@.take(i as int).to_set(),
        decreases raw@.len() - i,
    {
        let x = raw[i];
        proof {
            lemma_take_one_more_to_set(raw@, i as int);
        }
        let mut p: usize = 0;
        while p < out.len() && compare_freshness_diagnostics(out[p], x) < 0
            invariant
                p <= out@.len(),
                forall|q: int| 0 <= q < p ==> lex_order(freshness_diagnostic_key(#[trigger] out@[q]), freshness_diagnostic_key(x)) < 0,
            decreases out@.len() - p,
        {
            p += 1;
        }
        if p < out.len() && compare_freshness_diagnostics(out[p], x) == 0 {
            proof {
                lemma_lex_order_antisymmetric(freshness_diagnostic_key(out@[p as int]), freshness_diagnostic_key(x));
                lemma_freshness_key_injective(out@[p as int], x);
                assert(out@.contains(x));
                assert(out@.to_set().insert(x) =~= out@.to_set());
            }
        } else {
            let ghost old = out@;
            proof {
                lemma_insert_to_set(old, p as int, x);
                if p < old.len() {
                    lemma_lex_order_antisymmetric(freshness_diagnostic_key(old[p as int]), freshness_diagnostic_key(x));
                }
            }
            out.insert(p, x);
            proof {
                let n = out@;
                assert forall|a: int, b: int| 0 <= a < b < n.len() implies lex_order(freshness_diagnostic_key(n[a]), freshness_diagnostic_key(n[b])) < 0 by {
                    if a == p && b > p {
                        assert(n[b] == old[b - 1]);
                        if b - 1 > p {
                            lemma_lex_order_antisymmetric(freshness_diagnostic_key(x), freshness_diagnostic_key(old[p as int]));
                            lemma_lex_order_strict_transitive(freshness_diagnostic_key(x), freshness_diagnostic_key(old[p as int]), freshness_diagnostic_key(old[b - 1]));
                        }
                    } else if a < p && b == p {
                        assert(n[a] == old[a]);
                    } else if a < p && b > p {
                        assert(n[a] == old[a]);
                        assert(n[b] == old[b - 1]);
                        lemma_lex_order_antisymmetric(freshness_diagnostic_key(x), freshness_diagnostic_key(old[p as int]));
                        if b - 1 > p {
                            lemma_lex_order_strict_transitive(freshness_diagnostic_key(x), freshness_diagnostic_key(old[p as int]), freshness_diagnostic_key(old[b - 1]));
                        }
                        lemma_lex_order_strict_transitive(freshness_diagnostic_key(old[a]), freshness_diagnostic_key(x), freshness_diagnostic_key(old[b - 1]));
                    } else if a > p {
                        assert(n[a] == old[a - 1]);
                        assert(n[b] == old[b - 1]);
                    } else {
                        assert(n[a] == old[a]);
                        assert(n[b] == old[b]);
                    }
                }
            }
        }
        i += 1;
    }
    proof {
        assert(raw@.take(raw@.len() as int) =~= raw@);
    }
    out
}

/// Two controls have node `n`.
pub open spec fn node_twice(cs: Seq<FreshnessControlRoute>, n: StaticNodeId) -> bool {
    exists|a: int, b: int| 0 <= a < b < cs.len() && #[trigger] cs[a].spec_node() == n && #[trigger] cs[b].spec_node() == n
}

/// Control `c` is critical and projected available.
pub open spec fn critical_and_available(c: FreshnessControlRoute) -> bool {
    !(c.spec_criticality() is Normal) && c.spec_availability() == ProjectedControlAvailability::Available
}

/// `d` is a diagnostic of the controls under `state`: a node given twice, or
/// a critical control projected available while freshness restricts it.
pub open spec fn control_diagnostic(state: FreshnessState, cs: Seq<FreshnessControlRoute>, d: FreshnessProjectionDiagnostic) -> bool {
    match d.node {
        None => false,
        Some(n) => {
            ||| d == node_diagnostic(FreshnessProjectionDiagnosticKind::DuplicateControlNode, n) && node_twice(cs, n)
            ||| d == node_diagnostic(FreshnessProjectionDiagnosticKind::InvalidCriticalControlAvailability, n) && restricts_critical(state)
                && exists|k: int| 0 <= k < cs.len() && #[trigger] cs[k].spec_node() == n && critical_and_available(cs[k])
        },
    }
}

/// The operation that sets a control's node availability.
pub open spec fn control_operation(c: FreshnessControlRoute) -> ProjectionPatchOperation {
    ProjectionPatchOperation::SetNodeAvailability { node: c.spec_node(), availability: node_availability(c.spec_availability()) }
}

/// The node an operation sets the availability of, as a number; minus one
/// for other operations.
pub open spec fn operation_node(op: ProjectionPatchOperation) -> int {
    match op {
        ProjectionPatchOperation::SetNodeAvailability { node, .. } => node.spec_raw() as int,
        _ => -1,
    }
}

/// What a freshness projection returns: the limit error of too many
/// controls; else that of too many operations; else the control diagnostics,
/// sorted with each once; else the operations that show the state's token in
/// the freshness slot, then set each control's node availability, in
/// increasing order of node.
pub open spec fn freshness_outcome(
    state: FreshnessState,
    route: FreshnessProjectionRoute,
    limits: FreshnessProjectionLimits,
    r: Result<FreshnessProjectionFragment, Vec<FreshnessProjectionDiagnostic>>,
) -> bool {
    let cs = route.spec_controls();
    let n = cs.len();
    let max_ops = limits.spec_max_operations();
    if n > limits.spec_max_control_routes() {
        r matches Err(ds) && ds@ == seq![limit_diagnostic(FreshnessProjectionDiagnosticKind::ResourceLimitExceeded, n as usize, limits.spec_max_control_routes())]
    } else if n == usize::MAX {
        r matches Err(ds) && ds@ == seq![limit_diagnostic(FreshnessProjectionDiagnosticKind::OperationLimitExceeded, usize::MAX, max_ops)]
    } else if n + 1 > max_ops {
        r matches Err(ds) && ds@ == seq![limit_diagnostic(FreshnessProjectionDiagnosticKind::OperationLimitExceeded, (n + 1) as usize, max_ops)]
    } else if exists|d: FreshnessProjectionDiagnostic| control_diagnostic(state, cs, d) {
        r matches Err(ds) && freshness_diagnostics_increasing(ds@) && ds@.to_set() == Set::new(
            |d: FreshnessProjectionDiagnostic| control_diagnostic(state, cs, d),
        )
    } else {
        r matches Ok(f) && f.spec_state() == state && freshness_operations(state, route, f.spec_operations())
    }
}

/// The operations that project `state`: its token in the freshness slot,
/// then the node availability of each control, in increasing order of node.
pub open spec fn freshness_operations(state: FreshnessState, route: FreshnessProjectionRoute, ops: Seq<ProjectionPatchOperation>) -> bool {
    let cs = route.spec_controls();
    &&& ops.len() == cs.len() + 1
    &&& ops[0] matches ProjectionPatchOperation::SetBindingValue { target, value: ProjectionPatchValue::Text(s) }
        && target == route.spec_freshness_target() && s@ == freshness_token(state)
    &&& forall|a: int, b: int| 1 <= a < b < ops.len() ==> operation_node(ops[a]) < operation_node(ops[b])
    &&& forall|k: int| 1 <= k < ops.len() ==> exists|j: int| 0 <= j < cs.len() && #[trigger] ops[k] == control_operation(cs[j])
}

/// The control diagnostics, each at least once.
fn control_diagnostics(state: FreshnessState, cs: &Vec<FreshnessControlRoute>) -> (r: Vec<FreshnessProjectionDiagnostic>)
    ensures
        forall|d: FreshnessProjectionDiagnostic| r@.contains(d) <==> control_diagnostic(state, cs@, d),
{
    let restricted = state.restricts_critical_controls();
    let mut r: Vec<FreshnessProjectionDiagnostic> = Vec::new();
    let mut a: usize = 0;
    while a < cs.len()
        invariant
            a <= cs@.len(),
            restricted == restricts_critical(state),
            forall|d: FreshnessProjectionDiagnostic| r@.contains(d) <==> match d.node {
                None => false,
                Some(n) => {
                    ||| d == node_diagnostic(FreshnessProjectionDiagnosticKind::DuplicateControlNode, n)
                        && exists|p: int, q: int| 0 <= p < a && p < q < cs@.len() && #[trigger] cs@[p].spec_node() == n && #[trigger] cs@[q].spec_node() == n
                    ||| d == node_diagnostic(FreshnessProjectionDiagnosticKind::InvalidCriticalControlAvailability, n) && restricts_critical(state)
                        && exists|k: int| 0 <= k < a && #[trigger] cs@[k].spec_node() == n && critical_and_available(cs@[k])
                },
            },
        decreases cs@.len() - a,
    {
        let c = cs[a];
        let mut twice = false;
        let mut b: usize = a + 1;
        while b < cs.len()
            invariant
                a < b <= cs@.len(),
                c == cs@[a as int],
                twice == exists|q: int| a < q < b && #[trigger] cs@[q].spec_node() == c.spec_node(),
            decreases cs@.len() - b,
        {
            if cs[b].node == c.node {
                twice = true;
            }
            proof {
                assert(cs@[b as int].spec_node() == cs@[b as int].node);
            }
            b += 1;
        }
        let dup = FreshnessProjectionDiagnostic::content(FreshnessProjectionDiagnosticKind::DuplicateControlNode, c.node);
        let invalid = FreshnessProjectionDiagnostic::content(FreshnessProjectionDiagnosticKind::InvalidCriticalControlAvailability, c.node);
        let ghost r0 = r@;
        if twice {
            r.push(dup);
        }
        let ghost r1 = r@;
        let bad = restricted && c.criticality.is_critical() && c.availability == ProjectedControlAvailability::Available;
        if bad {
            r.push(invalid);
        }
        proof {
            assert forall|d: FreshnessProjectionDiagnostic| r@.contains(d) <==> match d.node {
                None => false,
                Some(n) => {
                    ||| d == node_diagnostic(FreshnessProjectionDiagnosticKind::DuplicateControlNode, n)
                        && exists|p: int, q: int| 0 <= p < a + 1 && p < q < cs@.len() && #[trigger] cs@[p].spec_node() == n && #[trigger] cs@[q].spec_node() == n
                    ||| d == node_diagnostic(FreshnessProjectionDiagnosticKind::InvalidCriticalControlAvailability, n) && restricts_critical(state)
                        && exists|k: int| 0 <= k < a + 1 && #[trigger] cs@[k].spec_node() == n && critical_and_available(cs@[k])
                },
            } by {
                if twice {
                    lemma_push_contains(r0, dup, d);
                } else {
                    assert(r1 == r0);
                }
                if bad {
                    lemma_push_contains(r1, invalid, d);
                } else {
                    assert(r@ == r1);
                }
                match d.node {
                    None => {},
                    Some(n) => {
                        if d == dup && twice {
                            let q = choose|q: int| a < q < b && #[trigger] cs@[q].spec_node() == c.spec_node();
                            assert(cs@[a as int].spec_node() == n && cs@[q].spec_node() == n);
                        }
                        if exists|p: int, q: int| 0 <= p < a + 1 && p < q < cs@.len() && #[trigger] cs@[p].spec_node() == n && #[trigger] cs@[q].spec_node() == n {
                            let (p, q) = choose|p: int, q: int| 0 <= p < a + 1 && p < q < cs@.len() && #[trigger] cs@[p].spec_node() == n && #[trigger] cs@[q].spec_node() == n;
                            if p == a {
                                assert(cs@[q].spec_node() == c.spec_node());
                            }
                        }
                        if d == invalid && bad {
                            assert(cs@[a as int].spec_node() == n && critical_and_available(cs@[a as int]));
                        }
                        if exists|k: int| 0 <= k < a + 1 && #[trigger] cs@[k].spec_node() == n && critical_and_available(cs@[k]) {
                            let k = choose|k: int| 0 <= k < a + 1 && #[trigger] cs@[k].spec_node() == n && critical_and_available(cs@[k]);
                            if k == a && restricts_critical(state) {
                                assert(bad);
                            }
                        }
                    },
                }
            }
        }
        a += 1;
    }
    proof {
        assert forall|d: FreshnessProjectionDiagnostic| r@.contains(d) <==> control_diagnostic(state, cs@, d) by {
            match d.node {
                None => {},
                Some(n) => {
                    if node_twice(cs@, n) {
                        let (p, q) = choose|p: int, q: int| 0 <= p < q < cs@.len() && #[trigger] cs@[p].spec_node() == n && #[trigger] cs@[q].spec_node() == n;
                        assert(cs@[p].spec_node() == n && cs@[q].spec_node() == n);
                    }
                },
            }
        }
    }
    r
}

/// The controls in increasing order of node, when no node is given twice.
fn controls_by_node(cs: &Vec<FreshnessControlRoute>) -> (r: Vec<FreshnessControlRoute>)
    requires
        forall|n: StaticNodeId| !node_twice(cs@, n),
    ensures
        r@.len() == cs@.len(),
        forall|a: int, b: int| 0 <= a < b < r@.len() ==> r@[a].spec_node().spec_raw() < r@[b].spec_node().spec_raw(),
        forall|k: int| 0 <= k < r@.len() ==> cs@.contains(#[trigger] r@[k]),
{
    let mut out: Vec<FreshnessControlRoute> = Vec::new();
    let mut i: usize = 0;
    proof {
        assert(out@.to_set() =~= cs@.take(0).to_set());
    }
    while i < cs.len()
        invariant
            i <= cs@.len(),
            forall|n: StaticNodeId| !node_twice(cs@, n),
            out@.len() == i,
            forall|a: int, b: int| 0 <= a < b < out@.len() ==> out@[a].spec_node().spec_raw() < out@[b].spec_node().spec_raw(),
            out@.to_set() == cs@.take(i as int).to_set(),
        decreases cs@.len() - i,
    {
        let x = cs[i];
        proof {
            lemma_take_one_more_to_set(cs@, i as int);
        }
        let mut p: usize = 0;
        while p < out.len() && out[p].node.raw() < x.node.raw()
            invariant
                p <= out@.len(),
                forall|q: int| 0 <= q < p ==> (#[trigger] out@[q]).spec_node().spec_raw() < x.spec_node().spec_raw(),
            decreases out@.len() - p,
        {
            p += 1;
        }
        let ghost old = out@;
        proof {
            if p < old.len() && old[p as int].spec_node().spec_raw() == x.spec_node().spec_raw() {
                assert(old.to_set().contains(old[p as int]));
                assert(cs@.take(i as int).contains(old[p as int]));
                let j = choose|j: int| 0 <= j < i && cs@.take(i as int)[j] == old[p as int];
                lemma_static_node_id_raw_injective(cs@[j].spec_node(), x.spec_node());
                assert(cs@[j].spec_node() == x.spec_node() && cs@[i as int].spec_node() == x.spec_node());
                assert(node_twice(cs@, x.spec_node()));
            }
            lemma_insert_to_set(old, p as int, x);
        }
        out.insert(p, x);
        proof {
            let n = out@;
            assert forall|a: int, b: int| 0 <= a < b < n.len() implies n[a].spec_node().spec_raw() < n[b].spec_node().spec_raw() by {
                if a == p && b > p {
                    assert(n[b] == old[b - 1]);
                    if b - 1 > p {
                        assert(old[p as int].spec_node().spec_raw() < old[b - 1].spec_node().spec_raw());
                    }
                } else if a < p && b == p {
                    assert(n[a] == old[a]);
                } else if a < p && b > p {
                    assert(n[a] == old[a]);
                    assert(n[b] == old[b - 1]);
                } else if a > p {
                    assert(n[a] == old[a - 1]);
                    assert(n[b] == old[b - 1]);
                } else {
                    assert(n[a] == old[a]);
                    assert(n[b] == old[b]);
                }
            }
        }
        i += 1;
    }
    proof {
        assert(cs@.take(cs@.len() as int) =~= cs@);
        assert forall|k: int| 0 <= k < out@.len() implies cs@.contains(#[trigger] out@[k]) by {
            assert(out@.to_set().contains(out@[k]));
        }
    }
    out
}

/// Projects a freshness state onto its slot and the availability of the
/// controls it governs.
pub fn project_freshness_fragment(
    state: FreshnessState,
    route: &FreshnessProjectionRoute,
    limits: FreshnessProjectionLimits,
) -> (r: Result<FreshnessProjectionFragment, Vec<FreshnessProjectionDiagnostic>>)
    ensures
        freshness_outcome(state, *route, limits, r),
{
    let n = route.controls.len();
    if n > limits.max_control_routes {
        let v = vec![FreshnessProjectionDiagnostic::limit(FreshnessProjectionDiagnosticKind::ResourceLimitExceeded, n, limits.max_control_routes)];
        proof {
            assert(v@ =~= seq![limit_diagnostic(FreshnessProjectionDiagnosticKind::ResourceLimitExceeded, n, limits.spec_max_control_routes())]);
        }
        return Err(v);
    }
    let operation_count = match n.checked_add(1) {
        Some(count) => count,
        None => {
            let v = vec![FreshnessProjectionDiagnostic::limit(FreshnessProjectionDiagnosticKind::OperationLimitExceeded, usize::MAX, limits.max_operations)];
            proof {
                assert(v@ =~= seq![limit_diagnostic(FreshnessProjectionDiagnosticKind::OperationLimitExceeded, usize::MAX, limits.spec_max_operations())]);
            }
            return Err(v);
        },
    };
    if operation_count > limits.max_operations {
        let v = vec![FreshnessProjectionDiagnostic::limit(FreshnessProjectionDiagnosticKind::OperationLimitExceeded, operation_count, limits.max_operations)];
        proof {
            assert(v@ =~= seq![limit_diagnostic(FreshnessProjectionDiagnosticKind::OperationLimitExceeded, operation_count, limits.spec_max_operations())]);
        }
        return Err(v);
    }
    let diagnostics = control_diagnostics(state, &route.controls);
    if diagnostics.len() > 0 {
        proof {
            assert(diagnostics@.contains(diagnostics@[0]));
            assert(diagnostics@.to_set() =~= Set::new(|d: FreshnessProjectionDiagnostic| control_diagnostic(state, route.controls@, d)));
        }
        return Err(canonical_freshness_diagnostics(diagnostics));
    }
    proof {
        assert forall|d: FreshnessProjectionDiagnostic| !control_diagnostic(state, route.controls@, d) by {
            assert(!diagnostics@.contains(d));
        }
        assert forall|m: StaticNodeId| !node_twice(route.controls@, m) by {
            assert(!control_diagnostic(state, route.controls@, node_diagnostic(FreshnessProjectionDiagnosticKind::DuplicateControlNode, m)));
        }
    }
    let controls = controls_by_node(&route.controls);
    let mut operations: Vec<ProjectionPatchOperation> = Vec::new();
    operations.push(ProjectionPatchOperation::SetBindingValue {
        target: route.freshness_target,
        value: ProjectionPatchValue::Text(state.token().to_owned()),
    });
    let mut k: usize = 0;
    while k < controls.len()
        invariant
            k <= controls@.len(),
            controls@.len() == route.controls@.len(),
            operations@.len() == k + 1,
            operations@[0] matches ProjectionPatchOperation::SetBindingValue { target, value: ProjectionPatchValue::Text(s) }
                && target == route.freshness_target && s@ == freshness_token(state),
            forall|q: int| 0 <= q < k ==> operations@[q + 1] == control_operation(#[trigger] controls@[q]),
        decreases controls@.len() - k,
    {
        let c = controls[k];
        operations.push(ProjectionPatchOperation::SetNodeAvailability { node: c.node, availability: c.availability.into() });
        k += 1;
    }
    let fragment = FreshnessProjectionFragment { state, operations };
    proof {
        let ops = fragment.spec_operations();
        assert forall|a: int, b: int| 1 <= a < b < ops.len() implies operation_node(ops[a]) < operation_node(ops[b]) by {
            assert(ops[a] == control_operation(controls@[a - 1]));
            assert(ops[b] == control_operation(controls@[b - 1]));
        }
        assert forall|q: int| 1 <= q < ops.len() implies exists|j: int| 0 <= j < n && #[trigger] ops[q] == control_operation(route.controls@[j]) by {
            assert(ops[q] == control_operation(controls@[q - 1]));
            assert(route.controls@.contains(controls@[q - 1]));
            let j = choose|j: int| 0 <= j < route.controls@.len() && route.controls@[j] == controls@[q - 1];
            assert(ops[q] == control_operation(route.controls@[j]));
        }
    }
    Ok(fragment)
}

/// When freshness is stale, offline or resyncing, an accepted projection
/// leaves no critical control available.
pub proof fn lemma_restricted_freshness_blocks_critical_controls(
    state: FreshnessState,
    route: FreshnessProjectionRoute,
    limits: FreshnessProjectionLimits,
    r: Result<FreshnessProjectionFragment, Vec<FreshnessProjectionDiagnostic>>,
)
    requires
        freshness_outcome(state, route, limits, r),
        r is Ok,
        state is Stale || state is Offline || state is Resyncing,
    ensures
        forall|k: int| 0 <= k < route.spec_controls().len() ==> (#[trigger] route.spec_controls()[k]).spec_criticality() is Normal
            || route.spec_controls()[k].spec_availability() != ProjectedControlAvailability::Available,
{
    let cs = route.spec_controls();
    assert forall|k: int| 0 <= k < cs.len() implies (#[trigger] cs[k]).spec_criticality() is Normal
        || cs[k].spec_availability() != ProjectedControlAvailability::Available by {
        if critical_and_available(cs[k]) {
            assert(control_diagnostic(state, cs, node_diagnostic(FreshnessProjectionDiagnosticKind::InvalidCriticalControlAvailability, cs[k].spec_node())));
        }
    }
}

/// Fresh or degraded data restrict no control: within the limits, with each
/// control on its own node, the projection succeeds whatever the controls'
/// criticality and availability.
pub proof fn lemma_fresh_data_restricts_no_control(
    state: FreshnessState,
    route: FreshnessProjectionRoute,
    limits: FreshnessProjectionLimits,
    r: Result<FreshnessProjectionFragment, Vec<FreshnessProjectionDiagnostic>>,
)
    requires
        freshness_outcome(state, route, limits, r),
        state is Fresh || state is Degraded,
        route.spec_controls().len() <= limits.spec_max_control_routes(),
        route.spec_controls().len() + 1 <= limits.spec_max_operations(),
        forall|a: int, b: int| 0 <= a < b < route.spec_controls().len() ==> route.spec_controls()[a].spec_node() != route.spec_controls()[b].spec_node(),
    ensures
        r is Ok,
{
    let cs = route.spec_controls();
    assert forall|d: FreshnessProjectionDiagnostic| !control_diagnostic(state, cs, d) by {
        if let Some(n) = d.node {
            if node_twice(cs, n) {
                let (a, b) = choose|a: int, b: int| 0 <= a < b < cs.len() && #[trigger] cs[a].spec_node() == n && #[trigger] cs[b].spec_node() == n;
            }
        }
    }
}

} // verus!
