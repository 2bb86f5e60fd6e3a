use prom_ui::intent_stream::collect_interaction_intent_stream;
use prom_ui::interaction::{ElementId, InteractionIntentId, InteractionIntentKind, InteractionSource, InteractionTarget};
use prom_ui::raw_event::{RawUiEventId, RawUiEventKind};
use prom_ui::trace::{
    InteractionIntentMappingRule, InteractionIntentTraceReason, InteractionIntentTraceReport, InteractionIntentTraceStatus,
};

/// The report of a pointer press classified as an activation.
fn pointer_down(id: u64) -> InteractionIntentTraceReport {
    InteractionIntentTraceReport {
        raw_event_id: RawUiEventId(id),
        intent_id: InteractionIntentId(id),
        raw_kind: RawUiEventKind::PointerDown,
        intent_kind: InteractionIntentKind::Activate,
        source: InteractionSource::Pointer,
        target: Some(InteractionTarget::Element(ElementId(1))),
        status: InteractionIntentTraceStatus::Classified,
        reason: InteractionIntentTraceReason::DirectMapping,
        rule: InteractionIntentMappingRule::PointerDownActivate,
    }
}

/// The report of a window close request classified as a close.
fn close_requested(id: u64) -> InteractionIntentTraceReport {
    InteractionIntentTraceReport {
        raw_event_id: RawUiEventId(id),
        intent_id: InteractionIntentId(id),
        raw_kind: RawUiEventKind::WindowCloseRequested,
        intent_kind: InteractionIntentKind::Close,
        source: InteractionSource::Window,
        target: None,
        status: InteractionIntentTraceStatus::Classified,
        reason: InteractionIntentTraceReason::WindowMapping,
        rule: InteractionIntentMappingRule::WindowClose,
    }
}

/// The report of a raw event that no rule classifies.
fn unclassified(id: u64, raw_kind: RawUiEventKind, source: InteractionSource) -> InteractionIntentTraceReport {
    InteractionIntentTraceReport {
        raw_event_id: RawUiEventId(id),
        intent_id: InteractionIntentId(id),
        raw_kind,
        intent_kind: InteractionIntentKind::Unknown,
        source,
        target: None,
        status: InteractionIntentTraceStatus::Unclassified,
        reason: InteractionIntentTraceReason::UnknownRawEvent,
        rule: InteractionIntentMappingRule::Unknown,
    }
}

fn unsupported_key(id: u64) -> InteractionIntentTraceReport {
    unclassified(id, RawUiEventKind::KeyDown, InteractionSource::Keyboard)
}

fn unknown_event(id: u64) -> InteractionIntentTraceReport {
    unclassified(id, RawUiEventKind::Unknown, InteractionSource::Unknown)
}

#[test]
fn empty_stream_produces_empty_report() {
    let report = collect_interaction_intent_stream(Vec::new());
    assert!(report.is_empty());
    assert_eq!(report.stats.total, 0);
    assert_eq!(report.stats.classified, 0);
    assert_eq!(report.stats.unclassified, 0);
}

#[test]
fn stream_preserves_input_order() {
    let report = collect_interaction_intent_stream(vec![pointer_down(1), close_requested(2), unknown_event(3)]);
    let ids: Vec<u64> = report.reports.iter().map(|r| r.raw_event_id.0).collect();
    assert_eq!(ids, vec![1, 2, 3]);
}

#[test]
fn stream_trace_is_deterministic_for_same_input() {
    let input = vec![pointer_down(1), close_requested(2), unsupported_key(3), unknown_event(4)];
    let first = collect_interaction_intent_stream(input.clone());
    let second = collect_interaction_intent_stream(input);
    assert_eq!(first, second);
}

#[test]
fn stream_stats_count_classified_and_unclassified_reports() {
    let report = collect_interaction_intent_stream(vec![pointer_down(1), close_requested(2), unsupported_key(3), unknown_event(4)]);
    assert_eq!(report.stats.total, 4);
    assert_eq!(report.stats.classified, 2);
    assert_eq!(report.stats.unclassified, 2);
}

#[test]
fn stream_does_not_filter_unclassified_reports() {
    let report = collect_interaction_intent_stream(vec![unknown_event(1), unsupported_key(2)]);
    assert_eq!(report.len(), 2);
    assert_eq!(report.reports[0].raw_event_id.0, 1);
    assert_eq!(report.reports[1].raw_event_id.0, 2);
}
