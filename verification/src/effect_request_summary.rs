//! Summaries of effect request trace reports.
use vstd::prelude::*;
use crate::effect_request::{
    InteractionEffectRequestKind, InteractionEffectRequestRuntimeCapability,
    InteractionEffectRequestUiCapability,
};
use crate::effect_request_trace::{InteractionEffectRequestTraceReport, InteractionEffectRequestTraceStatus};

verus! {

#[derive(Debug, Clone, Copy, PartialEq, Eq, Hash, Structural)]
pub struct InteractionEffectRequestKindCount {
    pub kind: InteractionEffectRequestKind,
    pub count: usize,
}

#[derive(Debug, Clone, Copy, PartialEq, Eq, Hash, Structural)]
pub struct InteractionEffectRequestUiCapabilityCount {
    pub capability: InteractionEffectRequestUiCapability,
    pub count: usize,
}

#[derive(Debug, Clone, Copy, PartialEq, Eq, Hash, Structural)]
pub struct InteractionEffectRequestRuntimeCapabilityCount {
    pub capability: InteractionEffectRequestRuntimeCapability,
    pub count: usize,
}

#[derive(Debug, Clone, PartialEq, Eq)]
pub struct InteractionEffectRequestSummary {
    pub total: usize,
    pub described: usize,
    pub kinds: Vec<InteractionEffectRequestKindCount>,
    pub ui_capabilities: Vec<InteractionEffectRequestUiCapabilityCount>,
    pub runtime_capabilities: Vec<InteractionEffectRequestRuntimeCapabilityCount>,
}

/// The abstract content of an effect request summary.
pub struct EffectRequestSummaryModel {
    pub described: nat,
    pub kinds: Seq<InteractionEffectRequestKindCount>,
    pub ui_capabilities: Seq<InteractionEffectRequestUiCapabilityCount>,
    pub runtime_capabilities: Seq<InteractionEffectRequestRuntimeCapabilityCount>,
}

/// `counts` with the entry for `kind` incremented, or a new entry with
/// count one appended when there is none.
#[verifier::opaque]
pub open spec fn effect_kind_counts_after(counts: Seq<InteractionEffectRequestKindCount>, kind: InteractionEffectRequestKind) -> Seq<InteractionEffectRequestKindCount> {
    if exists|k: int| 0 <= k < counts.len() && counts[k].kind == kind {
        let k = choose|k: int| 0 <= k < counts.len() && counts[k].kind == kind
            && forall|j: int| 0 <= j < k ==> counts[j].kind != kind;
        counts.update(k, InteractionEffectRequestKindCount { kind, count: (counts[k].count + 1) as usize })
    } else {
        counts.push(InteractionEffectRequestKindCount { kind, count: 1 })
    }
}

/// No two entries of `counts` share a kind.
pub open spec fn effect_kind_counts_distinct(counts: Seq<InteractionEffectRequestKindCount>) -> bool {
    forall|a: int, b: int| 0 <= a < b < counts.len() ==> counts[a].kind != counts[b].kind
}

proof fn lemma_effect_kind_counts_after_found(c: Seq<InteractionEffectRequestKindCount>, i: int, kind: InteractionEffectRequestKind)
    requires
        0 <= i < c.len(),
        c[i].kind == kind,
        forall|j: int| 0 <= j < i ==> c[j].kind != kind,
    ensures
        effect_kind_counts_after(c, kind) == c.update(i, InteractionEffectRequestKindCount { kind, count: (c[i].count + 1) as usize }),
{
    reveal(effect_kind_counts_after);
    let k = choose|k: int| 0 <= k < c.len() && c[k].kind == kind
        && forall|j: int| 0 <= j < k ==> c[j].kind != kind;
    assert(k == i) by {
        if k > i {
            assert(c[i].kind == kind);
        }
    }
}

proof fn lemma_effect_kind_counts_after_missing(c: Seq<InteractionEffectRequestKindCount>, kind: InteractionEffectRequestKind)
    requires
        forall|j: int| 0 <= j < c.len() ==> c[j].kind != kind,
    ensures
        effect_kind_counts_after(c, kind) == c.push(InteractionEffectRequestKindCount { kind, count: 1 }),
{
    reveal(effect_kind_counts_after);
}

fn increment_effect_kind_count(counts: &mut Vec<InteractionEffectRequestKindCount>, kind: InteractionEffectRequestKind, bound: usize)
    requires
        bound < usize::MAX,
        forall|k: int| 0 <= k < old(counts)@.len() ==> old(counts)@[k].count <= bound,
        effect_kind_counts_distinct(old(counts)@),
    ensures
        final(counts)@ == effect_kind_counts_after(old(counts)@, kind),
        forall|k: int| 0 <= k < final(counts)@.len() ==> final(counts)@[k].count <= bound + 1,
        effect_kind_counts_distinct(final(counts)@),
{
    let ghost c = counts@;
    let mut i: usize = 0;
    while i < counts.len()
        invariant
            counts@ == c,
            c == old(counts)@,
            effect_kind_counts_distinct(c),
            bound < usize::MAX,
            forall|k: int| 0 <= k < c.len() ==> c[k].count <= bound,
            0 <= i <= c.len(),
            forall|j: int| 0 <= j < i ==> c[j].kind != kind,
        decreases c.len() - i,
    {
        if counts[i].kind == kind {
            let updated = InteractionEffectRequestKindCount { kind, count: counts[i].count + 1 };
            counts.set(i, updated);
            proof {
                lemma_effect_kind_counts_after_found(c, i as int, kind);
                assert(counts@ =~= c.update(i as int, updated));
                assert forall|j: int| 0 <= j < counts@.len() implies counts@[j].kind == c[j].kind by {}
            }
            return;
        }
        i = i + 1;
    }
    counts.push(InteractionEffectRequestKindCount { kind, count: 1 });
    proof {
        lemma_effect_kind_counts_after_missing(c, kind);
    }
}

/// `counts` with the entry for `capability` incremented, or a new entry with
/// count one appended when there is none.
#[verifier::opaque]
pub open spec fn ui_capability_counts_after(counts: Seq<InteractionEffectRequestUiCapabilityCount>, capability: InteractionEffectRequestUiCapability) -> Seq<InteractionEffectRequestUiCapabilityCount> {
    if exists|k: int| 0 <= k < counts.len() && counts[k].capability == capability {
        let k = choose|k: int| 0 <= k < counts.len() && counts[k].capability == capability
            && forall|j: int| 0 <= j < k ==> counts[j].capability != capability;
        counts.update(k, InteractionEffectRequestUiCapabilityCount { capability, count: (counts[k].count + 1) as usize })
    } else {
        counts.push(InteractionEffectRequestUiCapabilityCount { capability, count: 1 })
    }
}

/// No two entries of `counts` share a capability.
pub open spec fn ui_capability_counts_distinct(counts: Seq<InteractionEffectRequestUiCapabilityCount>) -> bool {
    forall|a: int, b: int| 0 <= a < b < counts.len() ==> counts[a].capability != counts[b].capability
}

proof fn lemma_ui_capability_counts_after_found(c: Seq<InteractionEffectRequestUiCapabilityCount>, i: int, capability: InteractionEffectRequestUiCapability)
    requires
        0 <= i < c.len(),
        c[i].capability == capability,
        forall|j: int| 0 <= j < i ==> c[j].capability != capability,
    ensures
        ui_capability_counts_after(c, capability) == c.update(i, InteractionEffectRequestUiCapabilityCount { capability, count: (c[i].count + 1) as usize }),
{
    reveal(ui_capability_counts_after);
    let k = choose|k: int| 0 <= k < c.len() && c[k].capability == capability
        && forall|j: int| 0 <= j < k ==> c[j].capability != capability;
    assert(k == i) by {
        if k > i {
            assert(c[i].capability == capability);
        }
    }
}

proof fn lemma_ui_capability_counts_after_missing(c: Seq<InteractionEffectRequestUiCapabilityCount>, capability: InteractionEffectRequestUiCapability)
    requires
        forall|j: int| 0 <= j < c.len() ==> c[j].capability != capability,
    ensures
        ui_capability_counts_after(c, capability) == c.push(InteractionEffectRequestUiCapabilityCount { capability, count: 1 }),
{
    reveal(ui_capability_counts_after);
}

fn increment_ui_capability_count(counts: &mut Vec<InteractionEffectRequestUiCapabilityCount>, capability: InteractionEffectRequestUiCapability, bound: usize)
    requires
        bound < usize::MAX,
        forall|k: int| 0 <= k < old(counts)@.len() ==> old(counts)@[k].count <= bound,
        ui_capability_counts_distinct(old(counts)@),
    ensures
        final(counts)@ == ui_capability_counts_after(old(counts)@, capability),
        forall|k: int| 0 <= k < final(counts)@.len() ==> final(counts)@[k].count <= bound + 1,
        ui_capability_counts_distinct(final(counts)@),
{
    let ghost c = counts@;
    let mut i: usize = 0;
    while i < counts.len()
        invariant
            counts@ == c,
            c == old(counts)@,
            ui_capability_counts_distinct(c),
            bound < usize::MAX,
            forall|k: int| 0 <= k < c.len() ==> c[k].count <= bound,
            0 <= i <= c.len(),
            forall|j: int| 0 <= j < i ==> c[j].capability != capability,
        decreases c.len() - i,
    {
        if counts[i].capability == capability {
            let updated = InteractionEffectRequestUiCapabilityCount { capability, count: counts[i].count + 1 };
            counts.set(i, updated);
            proof {
                lemma_ui_capability_counts_after_found(c, i as int, capability);
                assert(counts@ =~= c.update(i as int, updated));
                assert forall|j: int| 0 <= j < counts@.len() implies counts@[j].capability == c[j].capability by {}
            }
            return;
        }
        i = i + 1;
    }
    counts.push(InteractionEffectRequestUiCapabilityCount { capability, count: 1 });
    proof {
        lemma_ui_capability_counts_after_missing(c, capability);
    }
}

/// `counts` with the entry for `capability` incremented, or a new entry with
/// count one appended when there is none.
#[verifier::opaque]
pub open spec fn runtime_capability_counts_after(counts: Seq<InteractionEffectRequestRuntimeCapabilityCount>, capability: InteractionEffectRequestRuntimeCapability) -> Seq<InteractionEffectRequestRuntimeCapabilityCount> {
    if exists|k: int| 0 <= k < counts.len() && counts[k].capability == capability {
        let k = choose|k: int| 0 <= k < counts.len() && counts[k].capability == capability
            && forall|j: int| 0 <= j < k ==> counts[j].capability != capability;
        counts.update(k, InteractionEffectRequestRuntimeCapabilityCount { capability, count: (counts[k].count + 1) as usize })
    } else {
        counts.push(InteractionEffectRequestRuntimeCapabilityCount { capability, count: 1 })
    }
}

/// No two entries of `counts` share a capability.
pub open spec fn runtime_capability_counts_distinct(counts: Seq<InteractionEffectRequestRuntimeCapabilityCount>) -> bool {
    forall|a: int, b: int| 0 <= a < b < counts.len() ==> counts[a].capability != counts[b].capability
}

proof fn lemma_runtime_capability_counts_after_found(c: Seq<InteractionEffectRequestRuntimeCapabilityCount>, i: int, capability: InteractionEffectRequestRuntimeCapability)
    requires
        0 <= i < c.len(),
        c[i].capability == capability,
        forall|j: int| 0 <= j < i ==> c[j].capability != capability,
    ensures
        runtime_capability_counts_after(c, capability) == c.update(i, InteractionEffectRequestRuntimeCapabilityCount { capability, count: (c[i].count + 1) as usize }),
{
    reveal(runtime_capability_counts_after);
    let k = choose|k: int| 0 <= k < c.len() && c[k].capability == capability
        && forall|j: int| 0 <= j < k ==> c[j].capability != capability;
    assert(k == i) by {
        if k > i {
            assert(c[i].capability == capability);
        }
    }
}

proof fn lemma_runtime_capability_counts_after_missing(c: Seq<InteractionEffectRequestRuntimeCapabilityCount>, capability: InteractionEffectRequestRuntimeCapability)
    requires
        forall|j: int| 0 <= j < c.len() ==> c[j].capability != capability,
    ensures
        runtime_capability_counts_after(c, capability) == c.push(InteractionEffectRequestRuntimeCapabilityCount { capability, count: 1 }),
{
    reveal(runtime_capability_counts_after);
}

fn increment_runtime_capability_count(counts: &mut Vec<InteractionEffectRequestRuntimeCapabilityCount>, capability: InteractionEffectRequestRuntimeCapability, bound: usize)
    requires
        bound < usize::MAX,
        forall|k: int| 0 <= k < old(counts)@.len() ==> old(counts)@[k].count <= bound,
        runtime_capability_counts_distinct(old(counts)@),
    ensures
        final(counts)@ == runtime_capability_counts_after(old(counts)@, capability),
        forall|k: int| 0 <= k < final(counts)@.len() ==> final(counts)@[k].count <= bound + 1,
        runtime_capability_counts_distinct(final(counts)@),
{
    let ghost c = counts@;
    let mut i: usize = 0;
    while i < counts.len()
        invariant
            counts@ == c,
            c == old(counts)@,
            runtime_capability_counts_distinct(c),
            bound < usize::MAX,
            forall|k: int| 0 <= k < c.len() ==> c[k].count <= bound,
            0 <= i <= c.len(),
            forall|j: int| 0 <= j < i ==> c[j].capability != capability,
        decreases c.len() - i,
    {
        if counts[i].capability == capability {
            let updated = InteractionEffectRequestRuntimeCapabilityCount { capability, count: counts[i].count + 1 };
            counts.set(i, updated);
            proof {
                lemma_runtime_capability_counts_after_found(c, i as int, capability);
                assert(counts@ =~= c.update(i as int, updated));
                assert forall|j: int| 0 <= j < counts@.len() implies counts@[j].capability == c[j].capability by {}
            }
            return;
        }
        i = i + 1;
    }
    counts.push(InteractionEffectRequestRuntimeCapabilityCount { capability, count: 1 });
    proof {
        lemma_runtime_capability_counts_after_missing(c, capability);
    }
}

/// The summary after one more trace.
pub open spec fn effect_summary_step(
    prev: EffectRequestSummaryModel,
    t: InteractionEffectRequestTraceReport,
) -> EffectRequestSummaryModel {
    EffectRequestSummaryModel {
        described: prev.described + if t.trace_status == InteractionEffectRequestTraceStatus::Described {
            1nat
        } else {
            0nat
        },
        kinds: effect_kind_counts_after(prev.kinds, t.requested_effect),
        ui_capabilities: ui_capability_counts_after(prev.ui_capabilities, t.required_ui_capability),
        runtime_capabilities: runtime_capability_counts_after(prev.runtime_capabilities, t.required_runtime_capability),
    }
}

/// The summary of `s`, folding the traces in order.
pub open spec fn effect_summary_of(s: Seq<InteractionEffectRequestTraceReport>) -> EffectRequestSummaryModel
    decreases s.len(),
{
    if s.len() == 0 {
        EffectRequestSummaryModel {
            described: 0,
            kinds: Seq::empty(),
            ui_capabilities: Seq::empty(),
            runtime_capabilities: Seq::empty(),
        }
    } else {
        effect_summary_step(effect_summary_of(s.drop_last()), s.last())
    }
}

pub open spec fn effect_summary_model(s: InteractionEffectRequestSummary) -> EffectRequestSummaryModel {
    EffectRequestSummaryModel {
        described: s.described as nat,
        kinds: s.kinds@,
        ui_capabilities: s.ui_capabilities@,
        runtime_capabilities: s.runtime_capabilities@,
    }
}

pub open spec fn effect_summary_bounded(s: InteractionEffectRequestSummary, i: nat) -> bool {
    &&& s.described <= i
    &&& forall|k: int| 0 <= k < s.kinds@.len() ==> s.kinds@[k].count <= i
    &&& forall|k: int| 0 <= k < s.ui_capabilities@.len() ==> s.ui_capabilities@[k].count <= i
    &&& forall|k: int| 0 <= k < s.runtime_capabilities@.len() ==> s.runtime_capabilities@[k].count <= i
    &&& effect_kind_counts_distinct(s.kinds@)
    &&& ui_capability_counts_distinct(s.ui_capabilities@)
    &&& runtime_capability_counts_distinct(s.runtime_capabilities@)
}

pub fn summarize_interaction_effect_requests(traces: &[InteractionEffectRequestTraceReport]) -> (r:
    InteractionEffectRequestSummary)
    ensures
        r.total == traces@.len(),
        effect_summary_model(r) == effect_summary_of(traces@),
        effect_kind_counts_distinct(r.kinds@),
        ui_capability_counts_distinct(r.ui_capabilities@),
        runtime_capability_counts_distinct(r.runtime_capabilities@),
{
    let n = traces.len();
    let mut summary = InteractionEffectRequestSummary {
        total: n,
        described: 0,
        kinds: Vec::new(),
        ui_capabilities: Vec::new(),
        runtime_capabilities: Vec::new(),
    };
    let mut i: usize = 0;
    while i < n
        invariant
            n == traces@.len(),
            0 <= i <= n,
            summary.total == n,
            effect_summary_bounded(summary, i as nat),
            effect_summary_model(summary) == effect_summary_of(traces@.take(i as int)),
        decreases n - i,
    {
        proof {
            assert(traces@.take(i + 1).drop_last() =~= traces@.take(i as int));
        }
        summarize_effect_step(&mut summary, &traces[i], i);
        i = i + 1;
    }
    proof {
        assert(traces@.take(n as int) =~= traces@);
    }
    summary
}

fn summarize_effect_step(summary: &mut InteractionEffectRequestSummary, trace: &InteractionEffectRequestTraceReport, i: usize)
    requires
        i < usize::MAX,
        effect_summary_bounded(*old(summary), i as nat),
    ensures
        final(summary).total == old(summary).total,
        effect_summary_bounded(*final(summary), (i + 1) as nat),
        effect_summary_model(*final(summary)) == effect_summary_step(effect_summary_model(*old(summary)), *trace),
{
    if matches!(trace.trace_status, InteractionEffectRequestTraceStatus::Described) {
        summary.described = summary.described + 1;
    }
    increment_effect_kind_count(&mut summary.kinds, trace.requested_effect, i);
    increment_ui_capability_count(&mut summary.ui_capabilities, trace.required_ui_capability, i);
    increment_runtime_capability_count(&mut summary.runtime_capabilities, trace.required_runtime_capability, i);
}

impl InteractionEffectRequestSummary {
    pub fn is_empty(&self) -> (r: bool)
        ensures
            r == (self.total == 0),
    {
        self.total == 0
    }

    pub fn is_capability_admission(&self) -> (r: bool)
        ensures
            !r,
    {
        false
    }

    pub fn is_prepared_effect(&self) -> (r: bool)
        ensures
            !r,
    {
        false
    }

    pub fn is_committed_effect(&self) -> (r: bool)
        ensures
            !r,
    {
        false
    }

    pub fn is_execution_authority(&self) -> (r: bool)
        ensures
            !r,
    {
        false
    }

    pub fn is_runtime_mutation(&self) -> (r: bool)
        ensures
            !r,
    {
        false
    }

    pub fn is_audit_authority(&self) -> (r: bool)
        ensures
            !r,
    {
        false
    }

    pub fn calls_vm_or_host_abi(&self) -> (r: bool)
        ensures
            !r,
    {
        false
    }
}

} // verus!
