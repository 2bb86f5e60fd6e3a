use prom_ui::action_binding::InteractionActionBindingId;
use prom_ui::action_mapping::{DefaultActionMapper, SemanticIntent, UiActionMapper};
use prom_ui::action_request::{ActionKind, ActionRequestDescriptor, ActionRequestId};
use prom_ui::hit_test::DefaultHitTester;
use prom_ui::intent_dispatch::IntentDispatchError;
use prom_ui::intent_stream::collect_interaction_intent_stream;
use prom_ui::interaction::{ElementId, InteractionIntentId, InteractionIntentKind, InteractionSource, InteractionTarget};
use prom_ui::layout::geometry::{UiPoint, UiRect, UiSize};
use prom_ui::layout_rect::{UiLayoutRect, UiLayoutRectEntry, UiLayoutRectModel};
use prom_ui::model::UiIrNodeId;
use prom_ui::projection::UiProjectedNodeId;
use prom_ui::raw_event::{RawUiEventId, RawUiEventKind};
use prom_ui::renderer::UiRenderNodeId;
use prom_ui::trace::{InteractionIntentMappingRule, InteractionIntentTraceReason, InteractionIntentTraceReport, InteractionIntentTraceStatus};

#[test]
fn rect_model_keeps_entries_in_push_order() {
    let mut model = UiLayoutRectModel::new();
    assert!(model.is_empty());
    let first = UiLayoutRectEntry::new(UiRenderNodeId::new(1), UiProjectedNodeId::new(11), None, UiLayoutRect::new(0, 0, 10, 10));
    let second = UiLayoutRectEntry::new(UiRenderNodeId::new(2), UiProjectedNodeId::new(12), Some(UiIrNodeId::new(9)), UiLayoutRect::new(-5, 3, 7, 8));
    model.push_entry(first.clone());
    model.push_entry(second.clone());
    assert_eq!(model.len(), 2);
    assert_eq!(model.entries(), &[first, second]);
    let rect = model.entries()[1].rect();
    assert_eq!((rect.x(), rect.y(), rect.width(), rect.height()), (-5, 3, 7, 8));
    assert_eq!(model.entries()[1].source_ir_node_id(), Some(UiIrNodeId::new(9)));
    assert_eq!(model.entries()[1].render_node_id(), UiRenderNodeId::new(2));
    assert_eq!(model.entries()[1].source_projection_node_id(), UiProjectedNodeId::new(12));
}

#[test]
fn rect_accessors_read_origin_and_size() {
    let rect = UiRect::from_xywh(4, -2, 30, 40);
    assert_eq!(rect, UiRect::new(UiPoint::new(4, -2), UiSize::new(30, 40)));
    assert_eq!((rect.x(), rect.y(), rect.width(), rect.height()), (4, -2, 30, 40));
    assert_eq!(UiRect::default(), UiRect::from_xywh(0, 0, 0, 0));
}

#[test]
fn action_request_descriptor_keeps_its_fields() {
    let d = ActionRequestDescriptor::new(ActionRequestId(3), ActionKind::GenericSemanticAction, Some(ElementId(4)), InteractionIntentId(5));
    assert_eq!(d.id, ActionRequestId(3));
    assert_eq!(d.kind, ActionKind::GenericSemanticAction);
    assert_eq!(d.source_element, Some(ElementId(4)));
    assert_eq!(d.cause_intent, InteractionIntentId(5));
}

#[test]
fn default_action_mapper_maps_nothing() {
    let mapper = DefaultActionMapper::new();
    assert_eq!(mapper.map_intent(UiProjectedNodeId::new(1), InteractionIntentKind::Activate), None);
    let intent = SemanticIntent::new(UiProjectedNodeId::new(1), InteractionActionBindingId(2));
    assert_eq!(intent.target, UiProjectedNodeId::new(1));
    assert_eq!(intent.action_id, InteractionActionBindingId(2));
    let _tester = DefaultHitTester::new();
    assert_ne!(IntentDispatchError::UnknownAction, IntentDispatchError::TargetNotFound);
}

fn report(id: u64, status: InteractionIntentTraceStatus) -> InteractionIntentTraceReport {
    InteractionIntentTraceReport {
        raw_event_id: RawUiEventId(id),
        intent_id: InteractionIntentId(id),
        raw_kind: RawUiEventKind::PointerDown,
        intent_kind: InteractionIntentKind::Activate,
        source: InteractionSource::Pointer,
        target: Some(InteractionTarget::Element(ElementId(10))),
        status,
        reason: InteractionIntentTraceReason::DirectMapping,
        rule: InteractionIntentMappingRule::PointerDownActivate,
    }
}

#[test]
fn intent_stream_counts_and_keeps_every_report_in_order() {
    let reports = vec![
        report(1, InteractionIntentTraceStatus::Classified),
        report(2, InteractionIntentTraceStatus::Unclassified),
        report(3, InteractionIntentTraceStatus::Classified),
        report(4, InteractionIntentTraceStatus::Unclassified),
    ];
    let stream = collect_interaction_intent_stream(reports.clone());
    assert_eq!(stream.reports, reports);
    assert_eq!(stream.len(), 4);
    assert_eq!((stream.stats.total, stream.stats.classified, stream.stats.unclassified), (4, 2, 2));
    let empty = collect_interaction_intent_stream(Vec::new());
    assert!(empty.is_empty());
    assert_eq!((empty.stats.total, empty.stats.classified, empty.stats.unclassified), (0, 0, 0));
}
