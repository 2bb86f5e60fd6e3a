use prom_ui::binding_graph::{
    BindingDeclaration, BindingDependency, BindingDiagnostic, BindingGraphDocument, BindingId, BindingSlot,
    BindingTarget, BindingValueDomain,
};
use prom_ui::contract_primitives::{Epoch, Revision, StaticDocumentId, StaticNodeId};
use prom_ui::semantic_refs::SemanticValueRef;
use prom_ui::static_ir::{StaticUiDocument, StaticUiNode};

fn node(raw: u64) -> StaticNodeId {
    StaticNodeId::new(raw).unwrap()
}

fn document(nodes: &[u64]) -> StaticUiDocument {
    StaticUiDocument::new(
        StaticDocumentId::new(1).unwrap(),
        Revision::new(1),
        Epoch::new(1),
        nodes.iter().map(|n| StaticUiNode::new(node(*n))).collect(),
    )
}

fn binding(id: u64, target: u64, slot: u32, deps: &[u64]) -> BindingDeclaration {
    BindingDeclaration {
        id: BindingId(id),
        target: BindingTarget { node: node(target), slot: BindingSlot(slot) },
        domain: BindingValueDomain::Scalar,
        dependencies: deps.iter().map(|d| BindingDependency { target_binding: BindingId(*d) }).collect(),
        collection_key: None,
        semantic_value: Some(SemanticValueRef::new(id + 100)),
        source_ref: None,
    }
}

fn said(d: &BindingDiagnostic) -> (&'static str, u64, u64) {
    (d.coordinate.code().as_str(), d.coordinate.domain(), d.coordinate.secondary())
}

fn errors(r: Result<BindingGraphDocument, Vec<BindingDiagnostic>>) -> Vec<(&'static str, u64, u64)> {
    match r {
        Ok(_) => panic!("expected diagnostics"),
        Err(ds) => ds.iter().map(said).collect(),
    }
}

#[test]
fn accepted_graph_is_sorted_with_normalized_dependencies() {
    let doc = document(&[10, 11, 12]);
    let r = BindingGraphDocument::build(
        vec![binding(3, 12, 0, &[]), binding(1, 10, 0, &[3, 2]), binding(2, 11, 0, &[3])],
        &doc,
    )
    .unwrap();
    let ids: Vec<u64> = r.bindings.iter().map(|b| b.id.0).collect();
    assert_eq!(ids, vec![1, 2, 3]);
    let deps: Vec<u64> = r.bindings[0].dependencies.iter().map(|d| d.target_binding.0).collect();
    assert_eq!(deps, vec![2, 3]);
    assert_eq!(r.bindings[1].dependencies.len(), 1);
    assert!(r.bindings[2].dependencies.is_empty());
}

#[test]
fn empty_graph_is_accepted() {
    let r = BindingGraphDocument::build(Vec::new(), &document(&[])).unwrap();
    assert!(r.bindings.is_empty());
}

#[test]
fn missing_target_node_is_diagnosed() {
    let r = BindingGraphDocument::build(vec![binding(1, 99, 0, &[])], &document(&[10]));
    assert_eq!(errors(r), vec![("BG_MISSING_TARGET", 1, 99)]);
}

#[test]
fn two_way_cycle_is_diagnosed_for_each_binding() {
    let doc = document(&[10, 11]);
    let r = BindingGraphDocument::build(vec![binding(1, 10, 0, &[2]), binding(2, 11, 0, &[1])], &doc);
    assert_eq!(errors(r), vec![("BG_CYCLE", 1, 1), ("BG_CYCLE", 2, 2)]);
}

#[test]
fn longer_cycle_reaches_only_its_members() {
    let doc = document(&[10, 11, 12, 13]);
    let r = BindingGraphDocument::build(
        vec![binding(1, 10, 0, &[2]), binding(2, 11, 0, &[3]), binding(3, 12, 0, &[2]), binding(4, 13, 0, &[1])],
        &doc,
    );
    assert_eq!(errors(r), vec![("BG_CYCLE", 2, 2), ("BG_CYCLE", 3, 3)]);
}

#[test]
fn self_dependency_is_also_a_cycle() {
    let r = BindingGraphDocument::build(vec![binding(1, 10, 0, &[1])], &document(&[10]));
    assert_eq!(errors(r), vec![("BG_CYCLE", 1, 1), ("BG_SELF_DEP", 1, 1)]);
}

#[test]
fn dangling_and_repeated_dependencies_are_diagnosed() {
    let doc = document(&[10, 11]);
    let r = BindingGraphDocument::build(vec![binding(1, 10, 0, &[2, 2, 7]), binding(2, 11, 0, &[])], &doc);
    assert_eq!(errors(r), vec![("BG_DANGLING_DEP", 1, 7), ("BG_DUP_DEP", 1, 2)]);
}

#[test]
fn duplicate_id_and_target_are_diagnosed_once() {
    let doc = document(&[10]);
    let r = BindingGraphDocument::build(vec![binding(1, 10, 0, &[]), binding(1, 10, 0, &[])], &doc);
    assert_eq!(errors(r), vec![("BG_DUP_BINDING_ID", 1, 0), ("BG_DUP_TARGET_SLOT", 1, 0)]);
}

#[test]
fn collection_keys_and_zero_semantic_values_are_diagnosed() {
    let doc = document(&[10, 11, 12]);
    let mut missing_key = binding(1, 10, 0, &[]);
    missing_key.domain = BindingValueDomain::Collection;
    let mut stray_key = binding(2, 11, 0, &[]);
    stray_key.collection_key = Some(5);
    let mut zero = binding(3, 12, 0, &[]);
    zero.semantic_value = Some(SemanticValueRef::new(0));
    let r = BindingGraphDocument::build(vec![missing_key, stray_key, zero], &doc);
    assert_eq!(
        errors(r),
        vec![("BG_INVALID_COLL_KEY", 2, 0), ("BG_MISSING_COLL_KEY", 1, 0), ("BG_ZERO_SEM_REF", 3, 0)]
    );
}

#[test]
fn keyed_collection_is_accepted() {
    let mut b = binding(1, 10, 0, &[]);
    b.domain = BindingValueDomain::Collection;
    b.collection_key = Some(4);
    let r = BindingGraphDocument::build(vec![b], &document(&[10])).unwrap();
    assert_eq!(r.bindings[0].collection_key, Some(4));
}

#[test]
fn building_ignores_the_order_of_the_declarations() {
    let doc = document(&[10, 11, 12]);
    let a = BindingGraphDocument::build(
        vec![binding(3, 12, 0, &[]), binding(1, 10, 0, &[3, 2]), binding(2, 11, 0, &[3])],
        &doc,
    )
    .unwrap();
    let b = BindingGraphDocument::build(
        vec![binding(2, 11, 0, &[3]), binding(1, 10, 0, &[2, 3]), binding(3, 12, 0, &[])],
        &doc,
    )
    .unwrap();
    assert_eq!(a, b);
}

#[test]
fn refused_declarations_give_the_same_diagnostics_in_any_order() {
    let doc = document(&[10, 11, 12, 13]);
    let a = BindingGraphDocument::build(
        vec![binding(1, 10, 0, &[2]), binding(2, 11, 0, &[3]), binding(3, 12, 0, &[2]), binding(4, 13, 0, &[1])],
        &doc,
    );
    let b = BindingGraphDocument::build(
        vec![binding(4, 13, 0, &[1]), binding(3, 12, 0, &[2]), binding(1, 10, 0, &[2]), binding(2, 11, 0, &[3])],
        &doc,
    );
    assert_eq!(errors(a), errors(b));
}

#[test]
fn building_again_keeps_the_declarations() {
    let doc = document(&[10, 11, 12]);
    let first = BindingGraphDocument::build(
        vec![binding(3, 12, 0, &[]), binding(1, 10, 0, &[3, 2]), binding(2, 11, 0, &[3])],
        &doc,
    )
    .unwrap();
    let again = BindingGraphDocument::build(first.bindings.clone(), &doc).unwrap();
    assert_eq!(again, first);
}
