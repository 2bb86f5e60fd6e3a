//! Summaries of action binding trace streams for diagnostics.
use vstd::prelude::*;
use crate::action_binding::{
    InteractionActionAdmissionPolicy, InteractionActionEffectPolicy, InteractionActionName,
};
use crate::action_binding::{lemma_binding_for_intent_is_registered, lemma_registry_bindings_require_admission_without_effects};
use crate::action_binding_stream::{binding_traces_of, InteractionActionBindingTraceStreamReport};
use crate::action_binding_trace::binding_trace_of;
use crate::trace::InteractionIntentTraceReport;
use crate::action_binding_trace::{
    InteractionActionBindingTraceReason, InteractionActionBindingTraceReport,
    InteractionActionBindingTraceStatus,
};

verus! {

#[derive(Debug, Clone, Copy, PartialEq, Eq, Hash, Structural)]
pub struct InteractionActionCandidateCount {
    pub action: InteractionActionName,
    pub count: usize,
}

#[derive(Debug, Clone, Copy, PartialEq, Eq, Hash, Structural)]
pub struct InteractionActionBindingReasonCount {
    pub reason: InteractionActionBindingTraceReason,
    pub count: usize,
}

#[derive(Debug, Clone, PartialEq, Eq)]
pub struct InteractionActionCandidateSummary {
    pub total: usize,
    pub bound: usize,
    pub unbound: usize,
    pub actions: Vec<InteractionActionCandidateCount>,
    pub reasons: Vec<InteractionActionBindingReasonCount>,
    pub all_bound_require_admission: bool,
    pub effect_capable_candidates: usize,
}

/// The abstract content of a candidate summary.
pub struct CandidateSummaryModel {
    pub bound: nat,
    pub unbound: nat,
    pub actions: Seq<InteractionActionCandidateCount>,
    pub reasons: Seq<InteractionActionBindingReasonCount>,
    pub all_bound_require_admission: bool,
    pub effect_capable_candidates: nat,
}

/// `counts` with the entry for `action` incremented, or a new entry with
/// count one appended when there is none.
#[verifier::opaque]
pub open spec fn action_counts_after(
    counts: Seq<InteractionActionCandidateCount>,
    action: InteractionActionName,
) -> Seq<InteractionActionCandidateCount> {
    if exists|k: int| 0 <= k < counts.len() && counts[k].action == action {
        let k = choose|k: int| 0 <= k < counts.len() && counts[k].action == action
            && forall|j: int| 0 <= j < k ==> counts[j].action != action;
        counts.update(k, InteractionActionCandidateCount { action, count: (counts[k].count + 1) as usize })
    } else {
        counts.push(InteractionActionCandidateCount { action, count: 1 })
    }
}

/// `counts` with the entry for `reason` incremented, or a new entry with
/// count one appended when there is none.
#[verifier::opaque]
pub open spec fn reason_counts_after(
    counts: Seq<InteractionActionBindingReasonCount>,
    reason: InteractionActionBindingTraceReason,
) -> Seq<InteractionActionBindingReasonCount> {
    if exists|k: int| 0 <= k < counts.len() && counts[k].reason == reason {
        let k = choose|k: int| 0 <= k < counts.len() && counts[k].reason == reason
            && forall|j: int| 0 <= j < k ==> counts[j].reason != reason;
        counts.update(k, InteractionActionBindingReasonCount { reason, count: (counts[k].count + 1) as usize })
    } else {
        counts.push(InteractionActionBindingReasonCount { reason, count: 1 })
    }
}

pub open spec fn effect_capable(policy: Option<InteractionActionEffectPolicy>) -> bool {
    policy == Some(InteractionActionEffectPolicy::MayRequestEffect) || policy == Some(
        InteractionActionEffectPolicy::RequiresSeparateEffectAdmission,
    )
}

/// The summary after one more report.
pub open spec fn candidate_summary_step(
    prev: CandidateSummaryModel,
    r: InteractionActionBindingTraceReport,
) -> CandidateSummaryModel {
    let reasons = reason_counts_after(prev.reasons, r.reason);
    if r.binding_status == InteractionActionBindingTraceStatus::Bound {
        CandidateSummaryModel {
            bound: prev.bound + 1,
            unbound: prev.unbound,
            actions: match r.action {
                Some(a) => action_counts_after(prev.actions, a),
                None => prev.actions,
            },
            reasons,
            all_bound_require_admission: prev.all_bound_require_admission
                && r.admission_policy == Some(InteractionActionAdmissionPolicy::Required),
            effect_capable_candidates: prev.effect_capable_candidates + if effect_capable(
                r.effect_policy,
            ) {
                1nat
            } else {
                0nat
            },
        }
    } else {
        CandidateSummaryModel { unbound: prev.unbound + 1, reasons, ..prev }
    }
}

/// The summary of `s`, folding the reports in order.
pub open spec fn candidate_summary_of(s: Seq<InteractionActionBindingTraceReport>) -> CandidateSummaryModel
    decreases s.len(),
{
    if s.len() == 0 {
        CandidateSummaryModel {
            bound: 0,
            unbound: 0,
            actions: Seq::empty(),
            reasons: Seq::empty(),
            all_bound_require_admission: true,
            effect_capable_candidates: 0,
        }
    } else {
        candidate_summary_step(candidate_summary_of(s.drop_last()), s.last())
    }
}

/// The abstract content of a summary under construction.
pub open spec fn summary_model(s: InteractionActionCandidateSummary) -> CandidateSummaryModel {
    CandidateSummaryModel {
        bound: s.bound as nat,
        unbound: s.unbound as nat,
        actions: s.actions@,
        reasons: s.reasons@,
        all_bound_require_admission: s.all_bound_require_admission,
        effect_capable_candidates: s.effect_capable_candidates as nat,
    }
}

pub open spec fn summary_counts_bounded(s: InteractionActionCandidateSummary, i: nat) -> bool {
    &&& s.bound + s.unbound == i
    &&& s.effect_capable_candidates <= s.bound
    &&& forall|k: int| 0 <= k < s.actions@.len() ==> s.actions@[k].count <= i
    &&& forall|k: int| 0 <= k < s.reasons@.len() ==> s.reasons@[k].count <= i
    &&& actions_distinct(s.actions@)
    &&& reasons_distinct(s.reasons@)
}

pub open spec fn actions_distinct(counts: Seq<InteractionActionCandidateCount>) -> bool {
    forall|a: int, b: int| 0 <= a < b < counts.len() ==> counts[a].action != counts[b].action
}

pub open spec fn reasons_distinct(counts: Seq<InteractionActionBindingReasonCount>) -> bool {
    forall|a: int, b: int| 0 <= a < b < counts.len() ==> counts[a].reason != counts[b].reason
}

pub fn summarize_interaction_action_candidates(stream: &InteractionActionBindingTraceStreamReport) -> (r:
    InteractionActionCandidateSummary)
    ensures
        ({
            let m = candidate_summary_of(stream.reports@);
            &&& r.total == stream.reports@.len()
            &&& r.bound == m.bound
            &&& r.unbound == m.unbound
            &&& r.actions@ == m.actions
            &&& r.reasons@ == m.reasons
            &&& r.all_bound_require_admission == m.all_bound_require_admission
            &&& r.effect_capable_candidates == m.effect_capable_candidates
        }),
        r.bound + r.unbound == r.total,
        actions_distinct(r.actions@),
        reasons_distinct(r.reasons@),
{
    let n = stream.reports.len();
    let mut summary = InteractionActionCandidateSummary {
        total: n,
        bound: 0,
        unbound: 0,
        actions: Vec::new(),
        reasons: Vec::new(),
        all_bound_require_admission: true,
        effect_capable_candidates: 0,
    };
    let mut i: usize = 0;
    while i < n
        invariant
            n == stream.reports@.len(),
            0 <= i <= n,
            summary.total == n,
            summary_counts_bounded(summary, i as nat),
            summary_model(summary) == candidate_summary_of(stream.reports@.take(i as int)),
        decreases n - i,
    {
        proof {
            assert(stream.reports@.take(i + 1).drop_last() =~= stream.reports@.take(i as int));
        }
        summarize_step(&mut summary, &stream.reports[i], i);
        i = i + 1;
    }
    proof {
        assert(stream.reports@.take(n as int) =~= stream.reports@);
    }
    summary
}

fn summarize_step(summary: &mut InteractionActionCandidateSummary, report: &InteractionActionBindingTraceReport, i: usize)
    requires
        i < usize::MAX,
        summary_counts_bounded(*old(summary), i as nat),
    ensures
        final(summary).total == old(summary).total,
        summary_counts_bounded(*final(summary), (i + 1) as nat),
        summary_model(*final(summary)) == candidate_summary_step(summary_model(*old(summary)), *report),
{
    match report.binding_status {
        InteractionActionBindingTraceStatus::Bound => {
            summary.bound = summary.bound + 1;
            let required = match report.admission_policy {
                Some(InteractionActionAdmissionPolicy::Required) => true,
                None => false,
            };
            proof {
                match report.admission_policy {
                    Some(p) => {
                        assert(p == InteractionActionAdmissionPolicy::Required);
                    },
                    None => {},
                }
            }
            summary.all_bound_require_admission = summary.all_bound_require_admission && required;
            if is_effect_capable(report.effect_policy) {
                summary.effect_capable_candidates = summary.effect_capable_candidates + 1;
            }
            if let Some(action) = report.action {
                increment_action_count(&mut summary.actions, action, i);
            }
        },
        InteractionActionBindingTraceStatus::Unbound => {
            summary.unbound = summary.unbound + 1;
        },
    }
    increment_reason_count(&mut summary.reasons, report.reason, i);
    proof {
        let m0 = summary_model(*old(summary));
        let m1 = summary_model(*summary);
        let st = candidate_summary_step(m0, *report);
        assert(m1.reasons == st.reasons);
        assert(m1.actions == st.actions);
        assert(m1.bound == st.bound);
        assert(m1.unbound == st.unbound);
        assert(m1.all_bound_require_admission == st.all_bound_require_admission);
        assert(m1.effect_capable_candidates == st.effect_capable_candidates);
    }
}

proof fn lemma_action_counts_after_found(c: Seq<InteractionActionCandidateCount>, i: int, action: InteractionActionName)
    requires
        0 <= i < c.len(),
        c[i].action == action,
        forall|j: int| 0 <= j < i ==> c[j].action != action,
    ensures
        action_counts_after(c, action) == c.update(i, InteractionActionCandidateCount { action, count: (c[i].count + 1) as usize }),
{
    reveal(action_counts_after);
    let k = choose|k: int| 0 <= k < c.len() && c[k].action == action
        && forall|j: int| 0 <= j < k ==> c[j].action != action;
    assert(k == i) by {
        if k > i {
            assert(c[i].action == action);
        }
    }
}

proof fn lemma_action_counts_after_missing(c: Seq<InteractionActionCandidateCount>, action: InteractionActionName)
    requires
        forall|j: int| 0 <= j < c.len() ==> c[j].action != action,
    ensures
        action_counts_after(c, action) == c.push(InteractionActionCandidateCount { action, count: 1 }),
{
    reveal(action_counts_after);
}

fn increment_action_count(
    counts: &mut Vec<InteractionActionCandidateCount>,
    action: InteractionActionName,
    bound: usize,
)
    requires
        bound < usize::MAX,
        forall|k: int| 0 <= k < old(counts)@.len() ==> old(counts)@[k].count <= bound,
        actions_distinct(old(counts)@),
    ensures
        final(counts)@ == action_counts_after(old(counts)@, action),
        forall|k: int| 0 <= k < final(counts)@.len() ==> final(counts)@[k].count <= bound + 1,
        actions_distinct(final(counts)@),
{
    let ghost c = counts@;
    let mut i: usize = 0;
    while i < counts.len()
        invariant
            counts@ == c,
            c == old(counts)@,
            actions_distinct(c),
            bound < usize::MAX,
            forall|k: int| 0 <= k < c.len() ==> c[k].count <= bound,
            0 <= i <= c.len(),
            forall|j: int| 0 <= j < i ==> c[j].action != action,
        decreases c.len() - i,
    {
        if counts[i].action == action {
            let updated = InteractionActionCandidateCount { action, count: counts[i].count + 1 };
            counts.set(i, updated);
            proof {
                lemma_action_counts_after_found(c, i as int, action);
                assert(counts@ =~= c.update(i as int, updated));
                assert forall|j: int| 0 <= j < counts@.len() implies counts@[j].action == c[j].action by {}
            }
            return;
        }
        i = i + 1;
    }
    counts.push(InteractionActionCandidateCount { action, count: 1 });
    proof {
        lemma_action_counts_after_missing(c, action);
    }
}

proof fn lemma_reason_counts_after_found(c: Seq<InteractionActionBindingReasonCount>, i: int, reason: InteractionActionBindingTraceReason)
    requires
        0 <= i < c.len(),
        c[i].reason == reason,
        forall|j: int| 0 <= j < i ==> c[j].reason != reason,
    ensures
        reason_counts_after(c, reason) == c.update(i, InteractionActionBindingReasonCount { reason, count: (c[i].count + 1) as usize }),
{
    reveal(reason_counts_after);
    let k = choose|k: int| 0 <= k < c.len() && c[k].reason == reason
        && forall|j: int| 0 <= j < k ==> c[j].reason != reason;
    assert(k == i) by {
        if k > i {
            assert(c[i].reason == reason);
        }
    }
}

proof fn lemma_reason_counts_after_missing(c: Seq<InteractionActionBindingReasonCount>, reason: InteractionActionBindingTraceReason)
    requires
        forall|j: int| 0 <= j < c.len() ==> c[j].reason != reason,
    ensures
        reason_counts_after(c, reason) == c.push(InteractionActionBindingReasonCount { reason, count: 1 }),
{
    reveal(reason_counts_after);
}

fn increment_reason_count(
    counts: &mut Vec<InteractionActionBindingReasonCount>,
    reason: InteractionActionBindingTraceReason,
    bound: usize,
)
    requires
        bound < usize::MAX,
        forall|k: int| 0 <= k < old(counts)@.len() ==> old(counts)@[k].count <= bound,
        reasons_distinct(old(counts)@),
    ensures
        final(counts)@ == reason_counts_after(old(counts)@, reason),
        forall|k: int| 0 <= k < final(counts)@.len() ==> final(counts)@[k].count <= bound + 1,
        reasons_distinct(final(counts)@),
{
    let ghost c = counts@;
    let mut i: usize = 0;
    while i < counts.len()
        invariant
            counts@ == c,
            c == old(counts)@,
            reasons_distinct(c),
            bound < usize::MAX,
            forall|k: int| 0 <= k < c.len() ==> c[k].count <= bound,
            0 <= i <= c.len(),
            forall|j: int| 0 <= j < i ==> c[j].reason != reason,
        decreases c.len() - i,
    {
        if counts[i].reason == reason {
            let updated = InteractionActionBindingReasonCount { reason, count: counts[i].count + 1 };
            counts.set(i, updated);
            proof {
                lemma_reason_counts_after_found(c, i as int, reason);
                assert(counts@ =~= c.update(i as int, updated));
                assert forall|j: int| 0 <= j < counts@.len() implies counts@[j].reason == c[j].reason by {}
            }
            return;
        }
        i = i + 1;
    }
    counts.push(InteractionActionBindingReasonCount { reason, count: 1 });
    proof {
        lemma_reason_counts_after_missing(c, reason);
    }
}

fn is_effect_capable(policy: Option<InteractionActionEffectPolicy>) -> (r: bool)
    ensures
        r == effect_capable(policy),
{
    matches!(
        policy,
        Some(InteractionActionEffectPolicy::MayRequestEffect)
            | Some(InteractionActionEffectPolicy::RequiresSeparateEffectAdmission)
    )
}

/// Candidates traced from intents against the registry all require
/// admission, and none may request an effect, whatever the intents.
pub proof fn lemma_traced_candidates_require_admission_without_effects(intents: Seq<InteractionIntentTraceReport>)
    ensures
        candidate_summary_of(binding_traces_of(intents)).all_bound_require_admission,
        candidate_summary_of(binding_traces_of(intents)).effect_capable_candidates == 0,
    decreases intents.len(),
{
    if intents.len() > 0 {
        let s = binding_traces_of(intents);
        assert(s.drop_last() =~= binding_traces_of(intents.drop_last()));
        lemma_traced_candidates_require_admission_without_effects(intents.drop_last());
        lemma_binding_for_intent_is_registered(intents.last().intent_kind);
        lemma_registry_bindings_require_admission_without_effects();
        assert(s.last() == binding_trace_of(intents.last()));
    }
}

} // verus!
