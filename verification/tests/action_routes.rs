use prom_ui::action_intent_map::map_action_intent;
use prom_ui::action_ir::{
    ActionContextRequirements, ActionIrDocument, ActionRoute, ActionRouteId, ActionRouteOrder, ActionTarget,
    ActionTargetSlot,
};
use prom_ui::admission_contract::ActionInvocationContext;
use prom_ui::contract_primitives::{Epoch, Revision, SourceId, SourceRef, SourceSpan, StaticDocumentId, StaticNodeId};
use prom_ui::semantic_refs::{ActorRef, CapabilityRef, EpochRef, RevisionRef, SemanticActionRef, SessionRef};
use prom_ui::static_ir::{StaticUiDocument, StaticUiNode};

fn node(raw: u64) -> StaticNodeId {
    StaticNodeId::new(raw).unwrap()
}

fn route(id: u64, target: u64, slot: u32, order: u32, action: u64) -> ActionRoute {
    ActionRoute {
        target: ActionTarget { node: node(target), slot: ActionTargetSlot(slot) },
        order: ActionRouteOrder(order),
        id: ActionRouteId(id),
        semantic_action: SemanticActionRef::new(action),
        source_ref: None,
        context_reqs: ActionContextRequirements {
            requires_actor: false,
            requires_session: false,
            requires_client: false,
            required_revision: None,
            required_epoch: None,
        },
        capability: None,
    }
}

fn document(nodes: &[u64]) -> StaticUiDocument {
    StaticUiDocument::new(
        StaticDocumentId::new(1).unwrap(),
        Revision::new(1),
        Epoch::new(1),
        nodes.iter().map(|n| StaticUiNode::new(node(*n))).collect(),
    )
}

#[test]
fn valid_routes_are_accepted_in_canonical_order() {
    let routes = vec![route(3, 2, 0, 1, 30), route(1, 1, 0, 0, 10), route(2, 2, 0, 0, 20)];
    let doc = ActionIrDocument::build(routes, &document(&[1, 2])).expect("routes are valid");
    let ids: Vec<u64> = doc.routes.iter().map(|r| r.id.0).collect();
    assert_eq!(ids, vec![1, 2, 3]);
}

#[test]
fn invalid_routes_are_diagnosed_once_each_in_coordinate_order() {
    let mut zero = route(9, 1, 0, 5, 0);
    zero.source_ref = Some(SourceRef::new(SourceId::new(4).unwrap(), SourceSpan::new(1, 2).unwrap()));
    let routes = vec![route(7, 5, 0, 0, 70), route(7, 1, 1, 0, 71), route(8, 1, 1, 0, 72), zero];
    let diagnostics = ActionIrDocument::build(routes, &document(&[1])).err().expect("routes are refused");
    let described: Vec<(&str, u64, u64, bool)> = diagnostics
        .iter()
        .map(|d| (d.coordinate.code().as_str(), d.coordinate.domain(), d.coordinate.secondary(), d.coordinate.source().is_some()))
        .collect();
    assert_eq!(described, vec![
        ("AIR_DUP_ROUTE_ID", 7, 0, false),
        ("AIR_DUP_ROUTE_ORDER", 8, 0, false),
        ("AIR_MISSING_TARGET", 7, 5, false),
        ("AIR_ZERO_ACTION_REF", 9, 0, true),
    ]);
}

#[test]
fn context_requirements_are_checked_in_order() {
    let mut r = route(1, 1, 0, 0, 10);
    r.context_reqs.requires_actor = true;
    r.context_reqs.requires_session = true;
    r.context_reqs.required_epoch = Some(EpochRef::new(3));
    r.capability = Some(CapabilityRef::new(6));
    let mut context = ActionInvocationContext {
        source_node: node(1),
        target_node: node(2),
        actor: None,
        session: None,
        client: None,
        observed_revision: None,
        observed_epoch: None,
    };
    let refused = map_action_intent(&r, &context).unwrap_err();
    assert_eq!(refused.coordinate.code().as_str(), "MISSING_ACTOR");
    context.actor = Some(ActorRef::new(1));
    assert_eq!(map_action_intent(&r, &context).unwrap_err().coordinate.code().as_str(), "MISSING_SESSION");
    context.session = Some(SessionRef::new(2));
    assert_eq!(map_action_intent(&r, &context).unwrap_err().coordinate.code().as_str(), "MISSING_EPOCH");
    context.observed_epoch = Some(EpochRef::new(3));
    context.observed_revision = Some(RevisionRef::new(4));
    let intent = map_action_intent(&r, &context).unwrap();
    assert_eq!(intent.route_id, ActionRouteId(1));
    assert_eq!(intent.semantic_action, SemanticActionRef::new(10));
    assert_eq!(intent.actor, Some(ActorRef::new(1)));
    assert_eq!(intent.route_required_epoch, Some(EpochRef::new(3)));
    assert_eq!(intent.capability, Some(CapabilityRef::new(6)));
    assert_eq!(intent.observed_revision, Some(RevisionRef::new(4)));
}

#[test]
fn building_ignores_the_order_of_the_routes() {
    let a = vec![route(3, 2, 0, 1, 30), route(1, 1, 0, 0, 10), route(2, 2, 0, 0, 20)];
    let b = vec![route(2, 2, 0, 0, 20), route(3, 2, 0, 1, 30), route(1, 1, 0, 0, 10)];
    let da = ActionIrDocument::build(a, &document(&[1, 2])).unwrap();
    let db = ActionIrDocument::build(b, &document(&[1, 2])).unwrap();
    assert_eq!(da.routes, db.routes);
}

#[test]
fn building_again_keeps_the_routes() {
    let doc = ActionIrDocument::build(vec![route(3, 2, 0, 1, 30), route(1, 1, 0, 0, 10)], &document(&[1, 2])).unwrap();
    let again = ActionIrDocument::build(doc.routes.clone(), &document(&[1, 2])).unwrap();
    assert_eq!(again.routes, doc.routes);
}

#[test]
fn refused_routes_give_the_same_diagnostics_in_any_order() {
    let a = vec![route(7, 5, 0, 0, 70), route(7, 1, 1, 0, 71), route(8, 1, 1, 0, 72)];
    let b = vec![route(8, 1, 1, 0, 72), route(7, 5, 0, 0, 70), route(7, 1, 1, 0, 71)];
    let da = ActionIrDocument::build(a, &document(&[1])).err().unwrap();
    let db = ActionIrDocument::build(b, &document(&[1])).err().unwrap();
    let codes = |ds: &Vec<prom_ui::action_ir::ActionIrDiagnostic>| -> Vec<(String, u64, u64)> {
        ds.iter().map(|d| (d.coordinate.code().as_str().to_string(), d.coordinate.domain(), d.coordinate.secondary())).collect()
    };
    assert_eq!(codes(&da), codes(&db));
    assert_eq!(da.len(), 3);
}
