//! Batches of interaction intent trace reports, kept in input order with
//! classification counts. Nothing here runs an event loop or dispatches.
use vstd::prelude::*;
use crate::trace::{InteractionIntentTraceReport, InteractionIntentTraceStatus};

verus! {

/// How many reports a stream holds, and how many were classified or not.
#[derive(Debug, Clone, Copy, Default, PartialEq, Eq, Hash, Structural)]
pub struct InteractionIntentStreamStats {
    pub total: usize,
    pub classified: usize,
    pub unclassified: usize,
}

/// The trace reports of a stream, in input order, with their counts.
#[derive(Debug, Clone, PartialEq, Eq)]
pub struct InteractionIntentStreamReport {
    pub reports: Vec<InteractionIntentTraceReport>,
    pub stats: InteractionIntentStreamStats,
}

impl InteractionIntentStreamReport {
    pub fn is_empty(&self) -> (r: bool)
        ensures
            r == (self.reports@.len() == 0),
    {
        self.reports.len() == 0
    }

    pub fn len(&self) -> (r: usize)
        ensures
            r == self.reports@.len(),
    {
        self.reports.len()
    }
}

/// How many of the reports have the given status.
pub open spec fn intent_status_count(reports: Seq<InteractionIntentTraceReport>, status: InteractionIntentTraceStatus) -> nat
    decreases reports.len(),
{
    if reports.len() == 0 {
        0
    } else {
        intent_status_count(reports.drop_last(), status) + (if reports.last().status == status { 1nat } else { 0nat })
    }
}

/// Every report is either classified or unclassified: the two counts add
/// up to the number of reports.
pub proof fn lemma_intent_status_counts_partition(reports: Seq<InteractionIntentTraceReport>)
    ensures
        intent_status_count(reports, InteractionIntentTraceStatus::Classified)
            + intent_status_count(reports, InteractionIntentTraceStatus::Unclassified) == reports.len(),
    decreases reports.len(),
{
    if reports.len() > 0 {
        lemma_intent_status_counts_partition(reports.drop_last());
    }
}

/// Collects the trace reports of a stream of raw events, in order, and
/// counts the classified and the unclassified ones; none is filtered out.
pub fn collect_interaction_intent_stream(reports: Vec<InteractionIntentTraceReport>) -> (r: InteractionIntentStreamReport)
    ensures
        r.reports@ == reports@,
        r.stats.total == reports@.len(),
        r.stats.classified == intent_status_count(reports@, InteractionIntentTraceStatus::Classified),
        r.stats.unclassified == intent_status_count(reports@, InteractionIntentTraceStatus::Unclassified),
        r.stats.classified + r.stats.unclassified == r.stats.total,
{
    let mut stats = InteractionIntentStreamStats { total: reports.len(), classified: 0, unclassified: 0 };
    let mut i: usize = 0;
    while i < reports.len()
        invariant
            i <= reports@.len(),
            stats.total == reports@.len(),
            stats.classified == intent_status_count(reports@.take(i as int), InteractionIntentTraceStatus::Classified),
            stats.unclassified == intent_status_count(reports@.take(i as int), InteractionIntentTraceStatus::Unclassified),
        decreases reports@.len() - i,
    {
        proof {
            assert(reports@.take(i + 1).drop_last() =~= reports@.take(i as int));
            lemma_intent_status_counts_partition(reports@.take(i as int));
        }
        match reports[i].status {
            InteractionIntentTraceStatus::Classified => {
                stats.classified += 1;
            },
            InteractionIntentTraceStatus::Unclassified => {
                stats.unclassified += 1;
            },
        }
        i += 1;
    }
    proof {
        assert(reports@.take(reports@.len() as int) =~= reports@);
        lemma_intent_status_counts_partition(reports@);
    }
    InteractionIntentStreamReport { reports, stats }
}

} // verus!
