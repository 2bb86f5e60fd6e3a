//! Aggregates dispatch trace reports into a compact summary.
use vstd::prelude::*;
use crate::action_dispatch_route::{
    InteractionSemanticActionDispatchEffectEligibility, InteractionSemanticActionDispatchRouteKind,
};
use crate::action_dispatch_trace::{
    InteractionSemanticActionDispatchTraceReason, InteractionSemanticActionDispatchTraceReport,
    InteractionSemanticActionDispatchTraceStatus,
};

verus! {

#[derive(Debug, Clone, Copy, PartialEq, Eq, Hash, Structural)]
pub struct InteractionSemanticActionDispatchRouteCount {
    pub route: InteractionSemanticActionDispatchRouteKind,
    pub count: usize,
}

#[derive(Debug, Clone, Copy, PartialEq, Eq, Hash, Structural)]
pub struct InteractionSemanticActionDispatchTraceReasonCount {
    pub reason: InteractionSemanticActionDispatchTraceReason,
    pub count: usize,
}

#[derive(Debug, Clone, PartialEq, Eq)]
pub struct InteractionSemanticActionDispatchSummary {
    pub total: usize,
    pub recorded: usize,
    pub blocked: usize,
    pub effect_candidate_count: usize,
    pub routes: Vec<InteractionSemanticActionDispatchRouteCount>,
    pub reasons: Vec<InteractionSemanticActionDispatchTraceReasonCount>,
}

/// The abstract content of a dispatch summary.
pub struct DispatchSummaryModel {
    pub recorded: nat,
    pub blocked: nat,
    pub effect_candidate_count: nat,
    pub routes: Seq<InteractionSemanticActionDispatchRouteCount>,
    pub reasons: Seq<InteractionSemanticActionDispatchTraceReasonCount>,
}

/// `counts` with the entry for `route` incremented, or a new entry with
/// count one appended when there is none.
#[verifier::opaque]
pub open spec fn dispatch_route_counts_after(counts: Seq<InteractionSemanticActionDispatchRouteCount>, route: InteractionSemanticActionDispatchRouteKind) -> Seq<InteractionSemanticActionDispatchRouteCount> {
    if exists|k: int| 0 <= k < counts.len() && counts[k].route == route {
        let k = choose|k: int| 0 <= k < counts.len() && counts[k].route == route
            && forall|j: int| 0 <= j < k ==> counts[j].route != route;
        counts.update(k, InteractionSemanticActionDispatchRouteCount { route, count: (counts[k].count + 1) as usize })
    } else {
        counts.push(InteractionSemanticActionDispatchRouteCount { route, count: 1 })
    }
}

/// No two entries of `counts` share a route.
pub open spec fn dispatch_route_counts_distinct(counts: Seq<InteractionSemanticActionDispatchRouteCount>) -> bool {
    forall|a: int, b: int| 0 <= a < b < counts.len() ==> counts[a].route != counts[b].route
}

proof fn lemma_dispatch_route_counts_after_found(c: Seq<InteractionSemanticActionDispatchRouteCount>, i: int, route: InteractionSemanticActionDispatchRouteKind)
    requires
        0 <= i < c.len(),
        c[i].route == route,
        forall|j: int| 0 <= j < i ==> c[j].route != route,
    ensures
        dispatch_route_counts_after(c, route) == c.update(i, InteractionSemanticActionDispatchRouteCount { route, count: (c[i].count + 1) as usize }),
{
    reveal(dispatch_route_counts_after);
    let k = choose|k: int| 0 <= k < c.len() && c[k].route == route
        && forall|j: int| 0 <= j < k ==> c[j].route != route;
    assert(k == i) by {
        if k > i {
            assert(c[i].route == route);
        }
    }
}

proof fn lemma_dispatch_route_counts_after_missing(c: Seq<InteractionSemanticActionDispatchRouteCount>, route: InteractionSemanticActionDispatchRouteKind)
    requires
        forall|j: int| 0 <= j < c.len() ==> c[j].route != route,
    ensures
        dispatch_route_counts_after(c, route) == c.push(InteractionSemanticActionDispatchRouteCount { route, count: 1 }),
{
    reveal(dispatch_route_counts_after);
}

fn increment_dispatch_route_count(counts: &mut Vec<InteractionSemanticActionDispatchRouteCount>, route: InteractionSemanticActionDispatchRouteKind, bound: usize)
    requires
        bound < usize::MAX,
        forall|k: int| 0 <= k < old(counts)@.len() ==> old(counts)@[k].count <= bound,
        dispatch_route_counts_distinct(old(counts)@),
    ensures
        final(counts)@ == dispatch_route_counts_after(old(counts)@, route),
        forall|k: int| 0 <= k < final(counts)@.len() ==> final(counts)@[k].count <= bound + 1,
        dispatch_route_counts_distinct(final(counts)@),
{
    let ghost c = counts@;
    let mut i: usize = 0;
    while i < counts.len()
        invariant
            counts@ == c,
            c == old(counts)@,
            dispatch_route_counts_distinct(c),
            bound < usize::MAX,
            forall|k: int| 0 <= k < c.len() ==> c[k].count <= bound,
            0 <= i <= c.len(),
            forall|j: int| 0 <= j < i ==> c[j].route != route,
        decreases c.len() - i,
    {
        if counts[i].route == route {
            let updated = InteractionSemanticActionDispatchRouteCount { route, count: counts[i].count + 1 };
            counts.set(i, updated);
            proof {
                lemma_dispatch_route_counts_after_found(c, i as int, route);
                assert(counts@ =~= c.update(i as int, updated));
                assert forall|j: int| 0 <= j < counts@.len() implies counts@[j].route == c[j].route by {}
            }
            return;
        }
        i = i + 1;
    }
    counts.push(InteractionSemanticActionDispatchRouteCount { route, count: 1 });
    proof {
        lemma_dispatch_route_counts_after_missing(c, route);
    }
}

/// `counts` with the entry for `reason` incremented, or a new entry with
/// count one appended when there is none.
#[verifier::opaque]
pub open spec fn dispatch_reason_counts_after(counts: Seq<InteractionSemanticActionDispatchTraceReasonCount>, reason: InteractionSemanticActionDispatchTraceReason) -> Seq<InteractionSemanticActionDispatchTraceReasonCount> {
    if exists|k: int| 0 <= k < counts.len() && counts[k].reason == reason {
        let k = choose|k: int| 0 <= k < counts.len() && counts[k].reason == reason
            && forall|j: int| 0 <= j < k ==> counts[j].reason != reason;
        counts.update(k, InteractionSemanticActionDispatchTraceReasonCount { reason, count: (counts[k].count + 1) as usize })
    } else {
        counts.push(InteractionSemanticActionDispatchTraceReasonCount { reason, count: 1 })
    }
}

/// No two entries of `counts` share a reason.
pub open spec fn dispatch_reason_counts_distinct(counts: Seq<InteractionSemanticActionDispatchTraceReasonCount>) -> bool {
    forall|a: int, b: int| 0 <= a < b < counts.len() ==> counts[a].reason != counts[b].reason
}

proof fn lemma_dispatch_reason_counts_after_found(c: Seq<InteractionSemanticActionDispatchTraceReasonCount>, i: int, reason: InteractionSemanticActionDispatchTraceReason)
    requires
        0 <= i < c.len(),
        c[i].reason == reason,
        forall|j: int| 0 <= j < i ==> c[j].reason != reason,
    ensures
        dispatch_reason_counts_after(c, reason) == c.update(i, InteractionSemanticActionDispatchTraceReasonCount { reason, count: (c[i].count + 1) as usize }),
{
    reveal(dispatch_reason_counts_after);
    let k = choose|k: int| 0 <= k < c.len() && c[k].reason == reason
        && forall|j: int| 0 <= j < k ==> c[j].reason != reason;
    assert(k == i) by {
        if k > i {
            assert(c[i].reason == reason);
        }
    }
}

proof fn lemma_dispatch_reason_counts_after_missing(c: Seq<InteractionSemanticActionDispatchTraceReasonCount>, reason: InteractionSemanticActionDispatchTraceReason)
    requires
        forall|j: int| 0 <= j < c.len() ==> c[j].reason != reason,
    ensures
        dispatch_reason_counts_after(c, reason) == c.push(InteractionSemanticActionDispatchTraceReasonCount { reason, count: 1 }),
{
    reveal(dispatch_reason_counts_after);
}

fn increment_dispatch_reason_count(counts: &mut Vec<InteractionSemanticActionDispatchTraceReasonCount>, reason: InteractionSemanticActionDispatchTraceReason, bound: usize)
    requires
        bound < usize::MAX,
        forall|k: int| 0 <= k < old(counts)@.len() ==> old(counts)@[k].count <= bound,
        dispatch_reason_counts_distinct(old(counts)@),
    ensures
        final(counts)@ == dispatch_reason_counts_after(old(counts)@, reason),
        forall|k: int| 0 <= k < final(counts)@.len() ==> final(counts)@[k].count <= bound + 1,
        dispatch_reason_counts_distinct(final(counts)@),
{
    let ghost c = counts@;
    let mut i: usize = 0;
    while i < counts.len()
        invariant
            counts@ == c,
            c == old(counts)@,
            dispatch_reason_counts_distinct(c),
            bound < usize::MAX,
            forall|k: int| 0 <= k < c.len() ==> c[k].count <= bound,
            0 <= i <= c.len(),
            forall|j: int| 0 <= j < i ==> c[j].reason != reason,
        decreases c.len() - i,
    {
        if counts[i].reason == reason {
            let updated = InteractionSemanticActionDispatchTraceReasonCount { reason, count: counts[i].count + 1 };
            counts.set(i, updated);
            proof {
                lemma_dispatch_reason_counts_after_found(c, i as int, reason);
                assert(counts@ =~= c.update(i as int, updated));
                assert forall|j: int| 0 <= j < counts@.len() implies counts@[j].reason == c[j].reason by {}
            }
            return;
        }
        i = i + 1;
    }
    counts.push(InteractionSemanticActionDispatchTraceReasonCount { reason, count: 1 });
    proof {
        lemma_dispatch_reason_counts_after_missing(c, reason);
    }
}

pub open spec fn effect_candidate(e: InteractionSemanticActionDispatchEffectEligibility) -> bool {
    e == InteractionSemanticActionDispatchEffectEligibility::RequiresFutureEffectBoundary
}

/// The summary after one more trace.
pub open spec fn dispatch_summary_step(
    prev: DispatchSummaryModel,
    t: InteractionSemanticActionDispatchTraceReport,
) -> DispatchSummaryModel {
    DispatchSummaryModel {
        recorded: prev.recorded + if t.trace_status == InteractionSemanticActionDispatchTraceStatus::Recorded {
            1nat
        } else {
            0nat
        },
        blocked: prev.blocked + if t.trace_status == InteractionSemanticActionDispatchTraceStatus::Blocked {
            1nat
        } else {
            0nat
        },
        effect_candidate_count: prev.effect_candidate_count + if effect_candidate(t.effect_eligibility) {
            1nat
        } else {
            0nat
        },
        routes: dispatch_route_counts_after(prev.routes, t.route),
        reasons: dispatch_reason_counts_after(prev.reasons, t.trace_reason),
    }
}

/// The summary of `s`, folding the traces in order.
pub open spec fn dispatch_summary_of(s: Seq<InteractionSemanticActionDispatchTraceReport>) -> DispatchSummaryModel
    decreases s.len(),
{
    if s.len() == 0 {
        DispatchSummaryModel {
            recorded: 0,
            blocked: 0,
            effect_candidate_count: 0,
            routes: Seq::empty(),
            reasons: Seq::empty(),
        }
    } else {
        dispatch_summary_step(dispatch_summary_of(s.drop_last()), s.last())
    }
}

pub open spec fn dispatch_summary_model(s: InteractionSemanticActionDispatchSummary) -> DispatchSummaryModel {
    DispatchSummaryModel {
        recorded: s.recorded as nat,
        blocked: s.blocked as nat,
        effect_candidate_count: s.effect_candidate_count as nat,
        routes: s.routes@,
        reasons: s.reasons@,
    }
}

pub open spec fn dispatch_summary_bounded(s: InteractionSemanticActionDispatchSummary, i: nat) -> bool {
    &&& s.recorded + s.blocked == i
    &&& s.effect_candidate_count <= i
    &&& forall|k: int| 0 <= k < s.routes@.len() ==> s.routes@[k].count <= i
    &&& forall|k: int| 0 <= k < s.reasons@.len() ==> s.reasons@[k].count <= i
    &&& dispatch_route_counts_distinct(s.routes@)
    &&& dispatch_reason_counts_distinct(s.reasons@)
}

pub fn summarize_interaction_semantic_action_dispatches(traces: &[InteractionSemanticActionDispatchTraceReport]) -> (r:
    InteractionSemanticActionDispatchSummary)
    ensures
        r.total == traces@.len(),
        dispatch_summary_model(r) == dispatch_summary_of(traces@),
        r.recorded + r.blocked == r.total,
        dispatch_route_counts_distinct(r.routes@),
        dispatch_reason_counts_distinct(r.reasons@),
{
    let n = traces.len();
    let mut summary = InteractionSemanticActionDispatchSummary {
        total: n,
        recorded: 0,
        blocked: 0,
        effect_candidate_count: 0,
        routes: Vec::new(),
        reasons: Vec::new(),
    };
    let mut i: usize = 0;
    while i < n
        invariant
            n == traces@.len(),
            0 <= i <= n,
            summary.total == n,
            dispatch_summary_bounded(summary, i as nat),
            dispatch_summary_model(summary) == dispatch_summary_of(traces@.take(i as int)),
        decreases n - i,
    {
        proof {
            assert(traces@.take(i + 1).drop_last() =~= traces@.take(i as int));
        }
        summarize_dispatch_step(&mut summary, &traces[i], i);
        i = i + 1;
    }
    proof {
        assert(traces@.take(n as int) =~= traces@);
    }
    summary
}

fn summarize_dispatch_step(
    summary: &mut InteractionSemanticActionDispatchSummary,
    trace: &InteractionSemanticActionDispatchTraceReport,
    i: usize,
)
    requires
        i < usize::MAX,
        dispatch_summary_bounded(*old(summary), i as nat),
    ensures
        final(summary).total == old(summary).total,
        dispatch_summary_bounded(*final(summary), (i + 1) as nat),
        dispatch_summary_model(*final(summary)) == dispatch_summary_step(dispatch_summary_model(*old(summary)), *trace),
{
    match trace.trace_status {
        InteractionSemanticActionDispatchTraceStatus::Recorded => {
            summary.recorded = summary.recorded + 1;
        },
        InteractionSemanticActionDispatchTraceStatus::Blocked => {
            summary.blocked = summary.blocked + 1;
        },
    }
    if is_effect_candidate(trace.effect_eligibility) {
        summary.effect_candidate_count = summary.effect_candidate_count + 1;
    }
    increment_dispatch_route_count(&mut summary.routes, trace.route, i);
    increment_dispatch_reason_count(&mut summary.reasons, trace.trace_reason, i);
}

fn is_effect_candidate(eligibility: InteractionSemanticActionDispatchEffectEligibility) -> (r: bool)
    ensures
        r == effect_candidate(eligibility),
{
    matches!(eligibility, InteractionSemanticActionDispatchEffectEligibility::RequiresFutureEffectBoundary)
}

impl InteractionSemanticActionDispatchSummary {
    pub fn is_empty(&self) -> (r: bool)
        ensures
            r == (self.total == 0),
    {
        self.total == 0
    }

    pub fn is_dispatcher(&self) -> (r: bool)
        ensures
            !r,
    {
        false
    }

    pub fn is_execution_authority(&self) -> (r: bool)
        ensures
            !r,
    {
        false
    }

    pub fn is_effect_request(&self) -> (r: bool)
        ensures
            !r,
    {
        false
    }

    pub fn is_runtime_mutation(&self) -> (r: bool)
        ensures
            !r,
    {
        false
    }

    pub fn is_audit_authority(&self) -> (r: bool)
        ensures
            !r,
    {
        false
    }
}

} // verus!
