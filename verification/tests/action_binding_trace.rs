#![allow(unused_imports)]
use prom_ui::action_binding_trace::{InteractionActionBindingTraceStatus, InteractionActionBindingTraceReason, InteractionActionBindingTraceReport, binding_reason, bound_binding_report, unbound_binding_report, binding_trace_of, trace_interaction_action_binding};
use prom_ui::interaction::{ElementId, InteractionSource, InteractionTarget};
use prom_ui::raw_event::{RawUiEventId, RawUiEventKind};
use prom_ui::trace::{
    InteractionIntentMappingRule, InteractionIntentTraceReason, InteractionIntentTraceReport,
    InteractionIntentTraceStatus,
};
use prom_ui::action_binding::InteractionActionAdmissionPolicy;
use prom_ui::action_binding::InteractionActionEffectPolicy;
use prom_ui::action_binding::InteractionActionName;
use prom_ui::action_binding::InteractionActionTargetPolicy;
use prom_ui::action_binding::InteractionActionTracePolicy;
use prom_ui::interaction::InteractionIntentId;
use prom_ui::interaction::InteractionIntentKind;

#[test]
fn classified_close_intent_binds_to_close_window() {
    let intent_trace = InteractionIntentTraceReport {
        raw_event_id: RawUiEventId(1),
        intent_id: InteractionIntentId(1),
        raw_kind: RawUiEventKind::WindowCloseRequested,
        intent_kind: InteractionIntentKind::Close,
        source: InteractionSource::Window,
        target: None,
        status: InteractionIntentTraceStatus::Classified,
        reason: InteractionIntentTraceReason::WindowMapping,
        rule: InteractionIntentMappingRule::WindowClose,
    };

    let report = trace_interaction_action_binding(&intent_trace);

    assert_eq!(report.binding_status, InteractionActionBindingTraceStatus::Bound);
    assert_eq!(report.action, Some(InteractionActionName::CloseWindow));
    assert_eq!(
        report.reason,
        InteractionActionBindingTraceReason::BindingIgnoresTarget
    );
}

#[test]
fn classified_select_intent_binds_and_requires_target() {
    let intent_trace = InteractionIntentTraceReport {
        raw_event_id: RawUiEventId(2),
        intent_id: InteractionIntentId(2),
        raw_kind: RawUiEventKind::PointerDown,
        intent_kind: InteractionIntentKind::Select,
        source: InteractionSource::Pointer,
        target: Some(InteractionTarget::Element(ElementId(7))),
        status: InteractionIntentTraceStatus::Classified,
        reason: InteractionIntentTraceReason::DirectMapping,
        rule: InteractionIntentMappingRule::PointerDownActivate,
    };

    let report = trace_interaction_action_binding(&intent_trace);

    assert_eq!(report.binding_status, InteractionActionBindingTraceStatus::Bound);
    assert_eq!(report.action, Some(InteractionActionName::SelectTraceEvent));
    assert_eq!(
        report.target_policy,
        Some(InteractionActionTargetPolicy::RequiresTarget)
    );
    assert_eq!(
        report.reason,
        InteractionActionBindingTraceReason::BindingRequiresTarget
    );
}

#[test]
fn unclassified_intent_does_not_bind() {
    let intent_trace = InteractionIntentTraceReport {
        raw_event_id: RawUiEventId(3),
        intent_id: InteractionIntentId(3),
        raw_kind: RawUiEventKind::Unknown,
        intent_kind: InteractionIntentKind::Unknown,
        source: InteractionSource::Unknown,
        target: None,
        status: InteractionIntentTraceStatus::Unclassified,
        reason: InteractionIntentTraceReason::UnknownRawEvent,
        rule: InteractionIntentMappingRule::Unknown,
    };

    let report = trace_interaction_action_binding(&intent_trace);

    assert_eq!(report.binding_status, InteractionActionBindingTraceStatus::Unbound);
    assert_eq!(
        report.reason,
        InteractionActionBindingTraceReason::IntentUnclassified
    );
    assert_eq!(report.action, None);
    assert_eq!(report.binding_id, None);
}

#[test]
fn classified_intent_without_binding_is_unbound() {
    let intent_trace = InteractionIntentTraceReport {
        raw_event_id: RawUiEventId(4),
        intent_id: InteractionIntentId(4),
        raw_kind: RawUiEventKind::PointerDown,
        intent_kind: InteractionIntentKind::Activate,
        source: InteractionSource::Pointer,
        target: Some(InteractionTarget::Element(ElementId(1))),
        status: InteractionIntentTraceStatus::Classified,
        reason: InteractionIntentTraceReason::DirectMapping,
        rule: InteractionIntentMappingRule::PointerDownActivate,
    };

    let report = trace_interaction_action_binding(&intent_trace);

    assert_eq!(report.binding_status, InteractionActionBindingTraceStatus::Unbound);
    assert_eq!(
        report.reason,
        InteractionActionBindingTraceReason::NoBindingForIntent
    );
    assert_eq!(report.action, None);
}

#[test]
fn bound_report_preserves_binding_policies() {
    let intent_trace = InteractionIntentTraceReport {
        raw_event_id: RawUiEventId(5),
        intent_id: InteractionIntentId(5),
        raw_kind: RawUiEventKind::WindowCloseRequested,
        intent_kind: InteractionIntentKind::Close,
        source: InteractionSource::Window,
        target: None,
        status: InteractionIntentTraceStatus::Classified,
        reason: InteractionIntentTraceReason::WindowMapping,
        rule: InteractionIntentMappingRule::WindowClose,
    };

    let report = trace_interaction_action_binding(&intent_trace);

    assert_eq!(
        report.admission_policy,
        Some(InteractionActionAdmissionPolicy::Required)
    );
    assert_eq!(
        report.effect_policy,
        Some(InteractionActionEffectPolicy::NoEffect)
    );
    assert_eq!(
        report.trace_policy,
        Some(InteractionActionTracePolicy::Required)
    );
}
