//! Batches action binding trace reports in stable input order.
use vstd::prelude::*;
use crate::action_binding_trace::{
    binding_trace_of, trace_interaction_action_binding, InteractionActionBindingTraceReport,
    InteractionActionBindingTraceStatus,
};
use crate::trace::InteractionIntentTraceReport;

verus! {

#[derive(Debug, Clone, PartialEq, Eq)]
pub struct InteractionActionBindingTraceStreamModel {
    pub intent_traces: Vec<InteractionIntentTraceReport>,
}

impl InteractionActionBindingTraceStreamModel {
    pub fn new(intent_traces: Vec<InteractionIntentTraceReport>) -> (r: Self)
        ensures
            r.intent_traces@ == intent_traces@,
    {
        Self { intent_traces }
    }

    pub fn is_empty(&self) -> (r: bool)
        ensures
            r == (self.intent_traces@.len() == 0),
    {
        self.intent_traces.len() == 0
    }

    pub fn len(&self) -> (r: usize)
        ensures
            r == self.intent_traces@.len(),
    {
        self.intent_traces.len()
    }
}

#[derive(Debug, Clone, Copy, Default, PartialEq, Eq, Hash, Structural)]
pub struct InteractionActionBindingTraceStreamStats {
    pub total: usize,
    pub bound: usize,
    pub unbound: usize,
}

#[derive(Debug, Clone, PartialEq, Eq)]
pub struct InteractionActionBindingTraceStreamReport {
    pub reports: Vec<InteractionActionBindingTraceReport>,
    pub stats: InteractionActionBindingTraceStreamStats,
}

impl InteractionActionBindingTraceStreamReport {
    pub fn is_empty(&self) -> (r: bool)
        ensures
            r == (self.reports@.len() == 0),
    {
        self.reports.len() == 0
    }

    pub fn len(&self) -> (r: usize)
        ensures
            r == self.reports@.len(),
    {
        self.reports.len()
    }
}

/// Number of reports in `s` whose binding status is `status`.
pub open spec fn binding_status_count(
    s: Seq<InteractionActionBindingTraceReport>,
    status: InteractionActionBindingTraceStatus,
) -> nat
    decreases s.len(),
{
    if s.len() == 0 {
        0
    } else {
        binding_status_count(s.drop_last(), status) + if s.last().binding_status == status {
            1nat
        } else {
            0nat
        }
    }
}

/// Every status is either bound or unbound, so the two counts add up to the
/// number of reports.
pub proof fn lemma_binding_status_counts_partition(s: Seq<InteractionActionBindingTraceReport>)
    ensures
        binding_status_count(s, InteractionActionBindingTraceStatus::Bound)
            + binding_status_count(s, InteractionActionBindingTraceStatus::Unbound) == s.len(),
    decreases s.len(),
{
    if s.len() > 0 {
        lemma_binding_status_counts_partition(s.drop_last());
    }
}

/// The stream traces each intent trace independently and in order.
pub open spec fn binding_traces_of(s: Seq<InteractionIntentTraceReport>) -> Seq<InteractionActionBindingTraceReport> {
    s.map_values(|t: InteractionIntentTraceReport| binding_trace_of(t))
}

pub fn trace_interaction_action_binding_stream(model: &InteractionActionBindingTraceStreamModel) -> (r:
    InteractionActionBindingTraceStreamReport)
    ensures
        r.reports@ == binding_traces_of(model.intent_traces@),
        r.stats.total == model.intent_traces@.len(),
        r.stats.bound == binding_status_count(r.reports@, InteractionActionBindingTraceStatus::Bound),
        r.stats.unbound == binding_status_count(r.reports@, InteractionActionBindingTraceStatus::Unbound),
        r.stats.bound + r.stats.unbound == r.stats.total,
{
    let n = model.intent_traces.len();
    let mut reports: Vec<InteractionActionBindingTraceReport> = Vec::with_capacity(n);
    let mut stats = InteractionActionBindingTraceStreamStats { total: n, bound: 0, unbound: 0 };
    let mut i: usize = 0;
    while i < n
        invariant
            n == model.intent_traces@.len(),
            0 <= i <= n,
            reports@ == binding_traces_of(model.intent_traces@.take(i as int)),
            stats.total == n,
            stats.bound == binding_status_count(reports@, InteractionActionBindingTraceStatus::Bound),
            stats.unbound == binding_status_count(reports@, InteractionActionBindingTraceStatus::Unbound),
            stats.bound + stats.unbound == i,
        decreases n - i,
    {
        let report = trace_interaction_action_binding(&model.intent_traces[i]);
        let ghost old_reports = reports@;
        match report.binding_status {
            InteractionActionBindingTraceStatus::Bound => {
                stats.bound = stats.bound + 1;
            },
            InteractionActionBindingTraceStatus::Unbound => {
                stats.unbound = stats.unbound + 1;
            },
        }
        reports.push(report);
        proof {
            assert(reports@.drop_last() =~= old_reports);
            assert(model.intent_traces@.take(i + 1) =~= model.intent_traces@.take(i as int).push(
                model.intent_traces@[i as int],
            ));
            assert(binding_traces_of(model.intent_traces@.take(i + 1)) =~= old_reports.push(report));
        }
        i = i + 1;
    }
    proof {
        assert(model.intent_traces@.take(n as int) =~= model.intent_traces@);
    }
    InteractionActionBindingTraceStreamReport { reports, stats }
}

} // verus!
