use prom_ui::layout::base::{
    layout_render_model, present_layout_inspection, UiLayoutInspectionItemKind,
    UiLayoutInspectionSectionKind, UiLayoutSlotKind,
};
use prom_ui::layout::constraint_solver::{build_layout_constraint_solver, UiLayoutConstraintSolverKind};
use prom_ui::layout::constraints::{build_layout_constraints, UiLayoutConstraintKind, UiLayoutConstraintState};
use prom_ui::layout::geometry::{build_layout_geometry, UiLayoutGeometryRect, UiRect};
use prom_ui::layout::measuring::{UiLayoutMeasuringEntryId, UiLayoutMeasuringModelId};
use prom_ui::layout::minimal_block::solve_minimal_blocks;
use prom_ui::layout::physical_placement::{
    build_layout_physical_placement, UiLayoutPhysicalPlacementKind, UiLayoutPhysicalPlacementState,
};
use prom_ui::layout::size_to_fit::{
    UiLayoutSizeToFitEntry, UiLayoutSizeToFitEntryId, UiLayoutSizeToFitModel, UiLayoutSizeToFitModelId,
};
use prom_ui::layout::sizing::{build_layout_sizing, UiLayoutSizingKind};
use prom_ui::layout::sizing_algorithm::{
    build_layout_sizing_algorithm, UiLayoutSizingAlgorithmEntryId, UiLayoutSizingAlgorithmKind,
    UiLayoutSizingAlgorithmModelId, UiLayoutSizingAlgorithmState,
};
use prom_ui::layout::solving::{
    build_layout_solving, build_layout_solving_result, UiLayoutSolvingKind, UiLayoutSolvingResultKind,
    UiLayoutSolvingResultState,
};
use prom_ui::layout::base::{UiLayoutModelId, UiLayoutNodeId, UiLayoutSlotId};
use prom_ui::layout::constraints::{UiLayoutConstraintId, UiLayoutConstraintsModelId};
use prom_ui::layout::geometry::{UiLayoutGeometryModelId, UiLayoutGeometryNodeId};
use prom_ui::layout::sizing::{UiLayoutSizingEntryId, UiLayoutSizingModelId};
use prom_ui::model::UiIrNodeId;
use prom_ui::projection::{UiProjectedNodeId, UiProjectionArtifactId};
use prom_ui::renderer::{UiRenderModel, UiRenderModelId, UiRenderNode, UiRenderNodeId, UiRenderNodeKind};

fn render_model() -> UiRenderModel {
    UiRenderModel::new(
        UiRenderModelId::new(7),
        UiProjectionArtifactId::new(3),
        Some(UiIrNodeId::new(100)),
        vec![
            UiRenderNode::new(UiRenderNodeId::new(11), UiRenderNodeKind::Root, UiProjectedNodeId::new(21), Some(UiIrNodeId::new(100))),
            UiRenderNode::new(UiRenderNodeId::new(12), UiRenderNodeKind::Element, UiProjectedNodeId::new(22), None),
            UiRenderNode::new(UiRenderNodeId::new(13), UiRenderNodeKind::Text, UiProjectedNodeId::new(23), Some(UiIrNodeId::new(102))),
        ],
    )
}

fn size_to_fit_model(n: u64) -> UiLayoutSizeToFitModel {
    let mut entries = Vec::new();
    for i in 0..n {
        entries.push(UiLayoutSizeToFitEntry::new(
            UiLayoutSizeToFitEntryId::new(50 + i),
            UiLayoutNodeId::new(i),
            UiLayoutSlotId::new(2),
            UiLayoutGeometryNodeId::new(i),
            UiLayoutConstraintId::new(i),
            UiLayoutSizingEntryId::new(i),
            UiLayoutSizingAlgorithmEntryId::new(i),
            UiLayoutMeasuringEntryId::new(i),
            UiRenderNodeId::new(300 + i),
            Some(UiProjectedNodeId::new(400 + i)),
            None,
            i as usize,
        ));
    }
    UiLayoutSizeToFitModel::new(
        UiLayoutSizeToFitModelId::new(9),
        UiLayoutModelId::new(1),
        UiLayoutGeometryModelId::new(2),
        UiLayoutConstraintsModelId::new(3),
        UiLayoutSizingModelId::new(4),
        UiLayoutSizingAlgorithmModelId::new(5),
        UiLayoutMeasuringModelId::new(6),
        UiRenderModelId::new(7),
        UiProjectionArtifactId::new(8),
        None,
        entries,
    )
}

#[test]
fn layout_keeps_one_node_per_render_node_in_order() {
    let layout = layout_render_model(&render_model());
    assert_eq!(layout.id().raw(), 7);
    assert_eq!(layout.source_render_model(), UiRenderModelId::new(7));
    assert_eq!(layout.source_projection(), UiProjectionArtifactId::new(3));
    assert_eq!(layout.source_ir_root(), Some(UiIrNodeId::new(100)));
    assert_eq!(layout.len(), 3);
    assert!(!layout.is_empty());
    let slots = layout.slots();
    assert_eq!(slots.len(), 2);
    assert_eq!((slots[0].id().raw(), slots[0].kind(), slots[0].order()), (1, UiLayoutSlotKind::Root, 0));
    assert_eq!((slots[1].id().raw(), slots[1].kind(), slots[1].order()), (2, UiLayoutSlotKind::Node, 1));
    for (i, node) in layout.nodes().iter().enumerate() {
        assert_eq!(node.id().raw(), 11 + i as u64);
        assert_eq!(node.source_render_node(), UiRenderNodeId::new(11 + i as u64));
        assert_eq!(node.source_projection_node(), Some(UiProjectedNodeId::new(21 + i as u64)));
        assert_eq!(node.slot(), UiLayoutSlotId::new(2));
        assert_eq!(node.order(), i);
    }
    assert_eq!(layout.nodes()[1].source_ir_node(), None);
}

#[test]
fn empty_render_model_has_only_the_root_slot() {
    let empty = UiRenderModel::new(UiRenderModelId::new(1), UiProjectionArtifactId::new(1), None, Vec::new());
    let layout = layout_render_model(&empty);
    assert!(layout.is_empty());
    assert_eq!(layout.slots().len(), 1);
    assert_eq!(layout.slots()[0].kind(), UiLayoutSlotKind::Root);
}

#[test]
fn inspection_lists_model_slot_and_node_items() {
    let layout = layout_render_model(&render_model());
    let inspection = present_layout_inspection(&layout);
    assert_eq!(inspection.id().raw(), 7);
    assert_eq!(inspection.source_layout_model(), layout.id());
    let kinds: Vec<_> = inspection.sections().iter().map(|s| s.kind()).collect();
    assert_eq!(kinds, vec![UiLayoutInspectionSectionKind::Model, UiLayoutInspectionSectionKind::Slots, UiLayoutInspectionSectionKind::Nodes]);
    assert_eq!(inspection.len(), 2 + 2 + 3);
    let ids: Vec<u64> = inspection.items().iter().map(|i| i.id().raw()).collect();
    assert_eq!(ids, vec![1, 2, 10_001, 10_002, 20_011, 20_012, 20_013]);
    let items = inspection.items();
    assert_eq!(items[0].kind(), UiLayoutInspectionItemKind::ModelIdentity);
    assert_eq!(items[1].kind(), UiLayoutInspectionItemKind::SourceReference);
    assert_eq!(items[2].kind(), UiLayoutInspectionItemKind::Slot);
    assert_eq!(items[2].source_layout_slot(), Some(UiLayoutSlotId::new(1)));
    assert_eq!(items[6].kind(), UiLayoutInspectionItemKind::Node);
    assert_eq!(items[6].section().raw(), 3);
    assert_eq!(items[6].source_render_node(), Some(UiRenderNodeId::new(13)));
    assert_eq!(items[6].source_ir_node(), Some(UiIrNodeId::new(102)));
    for (order, item) in items.iter().enumerate() {
        assert_eq!(item.order(), order);
    }
}

#[test]
fn inspection_item_identity_wraps() {
    let nodes = vec![UiRenderNode::new(UiRenderNodeId::new(u64::MAX), UiRenderNodeKind::Element, UiProjectedNodeId::new(1), None)];
    let model = UiRenderModel::new(UiRenderModelId::new(1), UiProjectionArtifactId::new(1), None, nodes);
    let inspection = present_layout_inspection(&layout_render_model(&model));
    assert_eq!(inspection.items()[4].id().raw(), 19_999);
}

#[test]
fn geometry_constraints_and_sizing_follow_layout_nodes() {
    let layout = layout_render_model(&render_model());
    let geometry = build_layout_geometry(&layout);
    assert_eq!(geometry.id().raw(), 7);
    assert_eq!(geometry.len(), 3);
    assert_eq!(geometry.nodes()[2].rect(), UiRect::from_xywh(0, 0, 0, 0));
    assert_eq!(geometry.nodes()[2].source_layout_node(), UiLayoutNodeId::new(13));
    let constraints = build_layout_constraints(&layout);
    assert_eq!(constraints.len(), 3);
    assert_eq!(constraints.source_geometry_model(), UiLayoutGeometryModelId::new(7));
    assert_eq!(constraints.declarations()[1].source_geometry_node(), UiLayoutGeometryNodeId::new(12));
    assert_eq!(constraints.declarations()[1].kind(), UiLayoutConstraintKind::Unresolved);
    assert_eq!(constraints.declarations()[1].state(), UiLayoutConstraintState::Unresolved);
    let sizing = build_layout_sizing(&layout);
    assert_eq!(sizing.len(), 3);
    assert_eq!(sizing.source_constraints_model(), UiLayoutConstraintsModelId::new(7));
    assert_eq!(sizing.entries()[2].source_constraint_declaration(), UiLayoutConstraintId::new(13));
    assert_eq!(sizing.entries()[2].order(), 2);
    assert_eq!(sizing.entries()[2].kind(), UiLayoutSizingKind::Unresolved);
    let algorithm = build_layout_sizing_algorithm(&sizing);
    assert_eq!(algorithm.source_sizing_model(), sizing.id());
    assert_eq!(algorithm.entries()[0].source_sizing_entry(), sizing.entries()[0].id());
    assert_eq!(algorithm.entries()[0].kind(), UiLayoutSizingAlgorithmKind::PassThrough);
    assert_eq!(algorithm.entries()[0].state(), UiLayoutSizingAlgorithmState::Deferred);
}

#[test]
fn solver_and_solving_kinds_cycle_by_position() {
    let fit = size_to_fit_model(4);
    let solver = build_layout_constraint_solver(&fit);
    let kinds: Vec<_> = solver.entries().iter().map(|e| e.kind()).collect();
    assert_eq!(kinds, vec![
        UiLayoutConstraintSolverKind::DeferredSolverIntent,
        UiLayoutConstraintSolverKind::UnavailableSolverResult,
        UiLayoutConstraintSolverKind::AuditOnly,
        UiLayoutConstraintSolverKind::DeferredSolverIntent,
    ]);
    assert_eq!(solver.source_size_to_fit_model(), UiLayoutSizeToFitModelId::new(9));
    assert_eq!(solver.entries()[3].source_size_to_fit_entry(), UiLayoutSizeToFitEntryId::new(53));
    let solving = build_layout_solving(&solver);
    assert_eq!(solving.entries()[1].kind(), UiLayoutSolvingKind::UnavailableResult);
    assert_eq!(solving.entries()[2].source_constraint_solver_entry(), solver.entries()[2].id());
    let result = build_layout_solving_result(&solving);
    assert_eq!(result.entries()[3].kind(), UiLayoutSolvingResultKind::Derived);
    assert_eq!(result.entries()[3].state(), UiLayoutSolvingResultState::Deferred);
    assert_eq!(result.source_solving_model(), solving.id());
}

#[test]
fn physical_placement_places_by_position() {
    let fit = size_to_fit_model(5);
    let result = build_layout_solving_result(&build_layout_solving(&build_layout_constraint_solver(&fit)));
    let placement = build_layout_physical_placement(&result);
    assert_eq!(placement.len(), 5);
    assert_eq!(placement.entries()[0].final_rect(), UiLayoutGeometryRect::new(0, 0, 100, 50));
    assert_eq!(placement.entries()[3].final_rect(), UiLayoutGeometryRect::new(30, 60, 115, 65));
    assert_eq!(placement.entries()[3].kind(), UiLayoutPhysicalPlacementKind::ContainerRelationIntent);
    assert_eq!(placement.entries()[2].state(), UiLayoutPhysicalPlacementState::Unavailable);
    assert_eq!(placement.entries()[4].kind(), UiLayoutPhysicalPlacementKind::ParentRelativeIntent);
    assert_eq!(placement.entries()[4].source_render_node(), UiRenderNodeId::new(304));
    assert_eq!(placement.entries()[4].source_solving_result_entry(), result.entries()[4].id());
}

#[test]
fn minimal_blocks_stack_by_kind() {
    let render = render_model();
    let geometry = build_layout_geometry(&layout_render_model(&render));
    let solved = solve_minimal_blocks(&geometry, &render);
    let rects: Vec<UiRect> = solved.nodes().iter().map(|n| n.rect()).collect();
    assert_eq!(rects, vec![
        UiRect::from_xywh(0, 0, 0, 0),
        UiRect::from_xywh(0, 0, 100, 50),
        UiRect::from_xywh(0, 50, 80, 20),
    ]);
    assert_eq!(solved.id(), geometry.id());
    assert_eq!(solved.nodes()[2].source_render_node(), UiRenderNodeId::new(13));
}
