use prom_ui::ast_slot_ir_intent::{build_ast_slot_ir_intents, UiAstSlotIrIntentDiagnosticKind, UiAstSlotIrIntentKind, UiAstSlotIrIntentState};
use prom_ui::ir_slot_projection_intent::{build_ir_slot_projection_intents, UiIrSlotProjectionIntentDiagnosticKind};
use prom_ui::model::{UiAstNodeId, UiAstNodeKind, UiIr, UiIrNode, UiIrNodeId, UiIrNodeKind, UiNodeId, UiNodeKind, UiNodeResolution, UiTreeId};
use prom_ui::projection::{UiProjectedNode, UiProjectedNodeId, UiProjectedNodeKind, UiProjectionArtifact, UiProjectionArtifactId};
use prom_ui::tree_slot_ast_intent::{UiTreeSlotAstIntentEntry, UiTreeSlotAstIntentEntryId, UiTreeSlotAstIntentModel};
use prom_ui::tree_slot_intent::UiTreeSlotCarrierIntentEntryId;

fn ast_entry(raw: u64, parent: Option<u64>, children: Vec<u64>) -> UiTreeSlotAstIntentEntry {
    UiTreeSlotAstIntentEntry::new(
        UiTreeSlotAstIntentEntryId::new(raw + 1000),
        UiTreeSlotCarrierIntentEntryId::new(raw + 2000),
        UiTreeId::new(1),
        UiNodeId::new(raw + 3000),
        UiNodeKind::Slot,
        UiNodeResolution::Resolved,
        UiAstNodeId::new(raw),
        UiAstNodeKind::Slot,
        None,
        vec![UiNodeId::new(raw + 3001)],
        parent.map(UiAstNodeId::new),
        children.into_iter().map(UiAstNodeId::new).collect(),
    )
}

fn ir() -> UiIr {
    UiIr::new(vec![
        UiIrNode::new(UiIrNodeId::new(1), UiIrNodeKind::Root),
        UiIrNode::new(UiIrNodeId::new(5), UiIrNodeKind::Fragment),
        UiIrNode::new(UiIrNodeId::new(6), UiIrNodeKind::Element),
        UiIrNode::new(UiIrNodeId::new(7), UiIrNodeKind::Fragment),
    ])
}

#[test]
fn slots_with_fragments_link_in_order() {
    let asts = UiTreeSlotAstIntentModel::new(vec![ast_entry(5, Some(1), vec![8, 9]), ast_entry(7, None, vec![])]);
    let model = build_ast_slot_ir_intents(&asts, &ir()).expect("every slot links");
    assert_eq!(model.id(), prom_ui::ast_slot_ir_intent::UiAstSlotIrIntentModelId::new(1));
    let entries = model.entries();
    assert_eq!(entries.len(), 2);
    assert_eq!(entries[0].id().raw(), 5);
    assert_eq!(entries[0].ir_node_id(), UiIrNodeId::new(5));
    assert_eq!(entries[0].ir_node_kind(), UiIrNodeKind::Fragment);
    assert_eq!(entries[0].parent_ir_node_id(), Some(UiIrNodeId::new(1)));
    assert_eq!(entries[0].child_ir_node_ids(), &[UiIrNodeId::new(8), UiIrNodeId::new(9)]);
    assert_eq!(entries[0].child_tree_node_ids(), &[UiNodeId::new(3006)]);
    assert_eq!(entries[0].source_ast_intent_entry_id(), UiTreeSlotAstIntentEntryId::new(1005));
    assert_eq!(entries[0].kind(), UiAstSlotIrIntentKind::IrFragmentLinkedToAstSlotIntent);
    assert_eq!(entries[0].state(), UiAstSlotIrIntentState::Deferred);
    assert_eq!(entries[1].parent_ir_node_id(), None);
}

#[test]
fn missing_and_non_fragment_nodes_are_diagnosed_in_order() {
    let asts = UiTreeSlotAstIntentModel::new(vec![ast_entry(6, None, vec![]), ast_entry(5, None, vec![]), ast_entry(42, None, vec![])]);
    let diagnostics = build_ast_slot_ir_intents(&asts, &ir()).expect_err("two slots fail");
    assert_eq!(diagnostics.len(), 2);
    let d = diagnostics.diagnostics();
    assert_eq!(*d[0].kind(), UiAstSlotIrIntentDiagnosticKind::UnexpectedIrNodeKind {
        source_ast_node_id: UiAstNodeId::new(6),
        ir_node_id: UiIrNodeId::new(6),
        actual_kind: UiIrNodeKind::Element,
    });
    assert_eq!(d[0].message(), "IR node kind is not Fragment");
    assert_eq!(*d[1].kind(), UiAstSlotIrIntentDiagnosticKind::MissingIrNode { source_ast_node_id: UiAstNodeId::new(42) });
    assert_eq!(d[1].message(), "IR node matching AST node not found");
}

fn projection() -> UiProjectionArtifact {
    UiProjectionArtifact::new(UiProjectionArtifactId::new(1), vec![
        UiProjectedNode::new(UiProjectedNodeId::new(70), UiProjectedNodeKind::Root, None, None, vec![UiProjectedNodeId::new(71)]),
        UiProjectedNode::new(UiProjectedNodeId::new(71), UiProjectedNodeKind::Fragment, Some(UiIrNodeId::new(5)), Some(UiProjectedNodeId::new(70)), vec![UiProjectedNodeId::new(72)]),
        UiProjectedNode::new(UiProjectedNodeId::new(73), UiProjectedNodeKind::Element, Some(UiIrNodeId::new(7)), None, vec![]),
        UiProjectedNode::new(UiProjectedNodeId::new(74), UiProjectedNodeKind::Fragment, Some(UiIrNodeId::new(7)), None, vec![]),
    ])
}

#[test]
fn ir_slots_link_to_projected_fragments() {
    let asts = UiTreeSlotAstIntentModel::new(vec![ast_entry(5, Some(1), vec![8])]);
    let ir_model = build_ast_slot_ir_intents(&asts, &ir()).unwrap();
    let linked = build_ir_slot_projection_intents(&ir_model, &projection()).ok().expect("slot links");
    let e = &linked.entries()[0];
    assert_eq!(e.id().raw(), 5);
    assert_eq!(e.projected_node_id(), UiProjectedNodeId::new(71));
    assert_eq!(e.parent_projected_node_id(), Some(UiProjectedNodeId::new(70)));
    assert_eq!(e.child_projected_node_ids(), &[UiProjectedNodeId::new(72)]);
    assert_eq!(e.child_ir_node_ids(), &[UiIrNodeId::new(8)]);
}

#[test]
fn first_projection_decides_and_mismatch_is_diagnosed() {
    let asts = UiTreeSlotAstIntentModel::new(vec![ast_entry(7, None, vec![])]);
    let ir_model = build_ast_slot_ir_intents(&asts, &ir()).unwrap();
    let diagnostics = match build_ir_slot_projection_intents(&ir_model, &projection()) {
        Ok(_) => panic!("the first projection of IR node 7 is an element"),
        Err(d) => d,
    };
    let kinds: Vec<_> = diagnostics.iter().map(|d| *d.kind()).collect();
    assert_eq!(kinds, vec![UiIrSlotProjectionIntentDiagnosticKind::UnexpectedProjectedNodeKind {
        source_ir_node_id: UiIrNodeId::new(7),
        projected_node_id: UiProjectedNodeId::new(73),
        actual_kind: UiProjectedNodeKind::Element,
    }]);
    assert!(!diagnostics.is_empty());
}

#[test]
fn unprojected_ir_slot_is_diagnosed() {
    let empty = UiProjectionArtifact::new(UiProjectionArtifactId::new(2), vec![]);
    let asts = UiTreeSlotAstIntentModel::new(vec![ast_entry(5, None, vec![])]);
    let ir_model = build_ast_slot_ir_intents(&asts, &ir()).unwrap();
    let diagnostics = build_ir_slot_projection_intents(&ir_model, &empty).err().unwrap();
    let kinds: Vec<_> = diagnostics.iter().map(|d| *d.kind()).collect();
    assert_eq!(kinds, vec![UiIrSlotProjectionIntentDiagnosticKind::MissingProjectedNode { source_ir_node_id: UiIrNodeId::new(5) }]);
}
