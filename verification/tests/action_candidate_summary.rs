#![allow(unused_imports)]
use prom_ui::action_candidate_summary::{InteractionActionCandidateCount, InteractionActionBindingReasonCount, InteractionActionCandidateSummary, CandidateSummaryModel, action_counts_after, reason_counts_after, effect_capable, candidate_summary_step, candidate_summary_of, summary_model, summary_counts_bounded, actions_distinct, reasons_distinct, summarize_interaction_action_candidates};
use prom_ui::action_binding::InteractionActionName;
use prom_ui::action_binding_stream::{
    trace_interaction_action_binding_stream, InteractionActionBindingTraceStreamModel,
    InteractionActionBindingTraceStreamReport, InteractionActionBindingTraceStreamStats,
};
use prom_ui::action_binding_trace::InteractionActionBindingTraceReason;
use prom_ui::interaction::{
    ElementId, InteractionIntentId, InteractionIntentKind, InteractionSource, InteractionTarget,
};
use prom_ui::raw_event::{RawUiEventId, RawUiEventKind};
use prom_ui::trace::{
    InteractionIntentMappingRule, InteractionIntentTraceReason, InteractionIntentTraceReport,
    InteractionIntentTraceStatus,
};

fn sample_stream() -> InteractionActionBindingTraceStreamReport {
    let model = InteractionActionBindingTraceStreamModel::new(vec![
        close_trace(1),
        select_trace(2),
        activate_trace(3),
        unknown_trace(4),
    ]);

    trace_interaction_action_binding_stream(&model)
}

fn close_trace(id: u64) -> InteractionIntentTraceReport {
    InteractionIntentTraceReport {
        raw_event_id: RawUiEventId(id),
        intent_id: InteractionIntentId(id),
        raw_kind: RawUiEventKind::WindowCloseRequested,
        intent_kind: InteractionIntentKind::Close,
        source: InteractionSource::Window,
        target: None,
        status: InteractionIntentTraceStatus::Classified,
        reason: InteractionIntentTraceReason::WindowMapping,
        rule: InteractionIntentMappingRule::WindowClose,
    }
}

fn select_trace(id: u64) -> InteractionIntentTraceReport {
    InteractionIntentTraceReport {
        raw_event_id: RawUiEventId(id),
        intent_id: InteractionIntentId(id),
        raw_kind: RawUiEventKind::PointerDown,
        intent_kind: InteractionIntentKind::Select,
        source: InteractionSource::Pointer,
        target: Some(InteractionTarget::Element(ElementId(7))),
        status: InteractionIntentTraceStatus::Classified,
        reason: InteractionIntentTraceReason::DirectMapping,
        rule: InteractionIntentMappingRule::PointerDownActivate,
    }
}

fn activate_trace(id: u64) -> InteractionIntentTraceReport {
    InteractionIntentTraceReport {
        raw_event_id: RawUiEventId(id),
        intent_id: InteractionIntentId(id),
        raw_kind: RawUiEventKind::PointerDown,
        intent_kind: InteractionIntentKind::Activate,
        source: InteractionSource::Pointer,
        target: Some(InteractionTarget::Element(ElementId(1))),
        status: InteractionIntentTraceStatus::Classified,
        reason: InteractionIntentTraceReason::DirectMapping,
        rule: InteractionIntentMappingRule::PointerDownActivate,
    }
}

fn unknown_trace(id: u64) -> InteractionIntentTraceReport {
    InteractionIntentTraceReport {
        raw_event_id: RawUiEventId(id),
        intent_id: InteractionIntentId(id),
        raw_kind: RawUiEventKind::Unknown,
        intent_kind: InteractionIntentKind::Unknown,
        source: InteractionSource::Unknown,
        target: None,
        status: InteractionIntentTraceStatus::Unclassified,
        reason: InteractionIntentTraceReason::UnknownRawEvent,
        rule: InteractionIntentMappingRule::Unknown,
    }
}

#[test]
fn empty_stream_summary_is_zeroed() {
    let stream = InteractionActionBindingTraceStreamReport {
        reports: Vec::new(),
        stats: InteractionActionBindingTraceStreamStats::default(),
    };

    let summary = summarize_interaction_action_candidates(&stream);

    assert_eq!(summary.total, 0);
    assert_eq!(summary.bound, 0);
    assert_eq!(summary.unbound, 0);
    assert!(summary.actions.is_empty());
    assert!(summary.reasons.is_empty());
    assert!(summary.all_bound_require_admission);
    assert_eq!(summary.effect_capable_candidates, 0);
}

#[test]
fn summary_counts_bound_and_unbound() {
    let stream = sample_stream();

    let summary = summarize_interaction_action_candidates(&stream);

    assert_eq!(summary.total, 4);
    assert_eq!(summary.bound, 2);
    assert_eq!(summary.unbound, 2);
}

#[test]
fn summary_counts_action_candidates() {
    let stream = sample_stream();

    let summary = summarize_interaction_action_candidates(&stream);

    assert!(summary.actions.contains(&InteractionActionCandidateCount {
        action: InteractionActionName::CloseWindow,
        count: 1,
    }));

    assert!(summary.actions.contains(&InteractionActionCandidateCount {
        action: InteractionActionName::SelectTraceEvent,
        count: 1,
    }));
}

#[test]
fn summary_counts_binding_reasons() {
    let stream = sample_stream();

    let summary = summarize_interaction_action_candidates(&stream);

    assert!(summary
        .reasons
        .contains(&InteractionActionBindingReasonCount {
            reason: InteractionActionBindingTraceReason::BindingIgnoresTarget,
            count: 1,
        }));

    assert!(summary
        .reasons
        .contains(&InteractionActionBindingReasonCount {
            reason: InteractionActionBindingTraceReason::BindingRequiresTarget,
            count: 1,
        }));

    assert!(summary
        .reasons
        .contains(&InteractionActionBindingReasonCount {
            reason: InteractionActionBindingTraceReason::NoBindingForIntent,
            count: 1,
        }));

    assert!(summary
        .reasons
        .contains(&InteractionActionBindingReasonCount {
            reason: InteractionActionBindingTraceReason::IntentUnclassified,
            count: 1,
        }));
}

#[test]
fn summary_preserves_admission_invariant() {
    let stream = sample_stream();

    let summary = summarize_interaction_action_candidates(&stream);

    assert!(summary.all_bound_require_admission);
}

#[test]
fn summary_effect_capable_count_is_zero_for_initial_bindings() {
    let stream = sample_stream();

    let summary = summarize_interaction_action_candidates(&stream);

    assert_eq!(summary.effect_capable_candidates, 0);
}

#[test]
fn summary_is_deterministic_for_same_stream() {
    let stream = sample_stream();

    let first = summarize_interaction_action_candidates(&stream);
    let second = summarize_interaction_action_candidates(&stream);

    assert_eq!(first, second);
}

#[test]
fn summary_preserves_first_appearance_order_for_counts() {
    let model = InteractionActionBindingTraceStreamModel::new(vec![
        select_trace(1),
        close_trace(2),
        select_trace(3),
        unknown_trace(4),
    ]);

    let stream = trace_interaction_action_binding_stream(&model);
    let summary = summarize_interaction_action_candidates(&stream);

    assert_eq!(
        summary.actions[0].action,
        InteractionActionName::SelectTraceEvent
    );
    assert_eq!(
        summary.actions[1].action,
        InteractionActionName::CloseWindow
    );
    assert_eq!(
        summary.reasons[0].reason,
        InteractionActionBindingTraceReason::BindingRequiresTarget
    );
}
