use prom_ui::binding_graph::{
    BindingDeclaration, BindingGraphDocument, BindingId, BindingSlot, BindingTarget, BindingValueDomain,
};
use prom_ui::binding_graph_observation::{BindingObservationScope, BindingQuadState};
use prom_ui::binding_graph_semantic_adapter::{
    adapt_semantic_observations, AdaptedBindingObservationInputs, SemanticBindingAdapterError,
    SemanticBindingAdapterErrorKind, SemanticBindingAdapterLimitKind, SemanticBindingAdapterLimits,
    SemanticBindingAdapterStage, SemanticBindingObservation, SemanticBindingObservationSet, SemanticBindingSnapshotSide,
};
use prom_ui::contract_primitives::{Epoch, Revision, StaticNodeId};
use prom_ui::semantic_refs::SemanticValueRef;

fn binding(id: u64, domain: BindingValueDomain, value: Option<u64>) -> BindingDeclaration {
    BindingDeclaration {
        id: BindingId(id),
        target: BindingTarget { node: StaticNodeId::new(10 + id).unwrap(), slot: BindingSlot(0) },
        domain,
        dependencies: Vec::new(),
        collection_key: None,
        semantic_value: value.map(SemanticValueRef::new),
        source_ref: None,
    }
}

/// Value 100 is carried by quad binding 1, value 200 by bindings 2 and 3,
/// value 300 by binding 5; binding 4 carries no value.
fn graph() -> BindingGraphDocument {
    BindingGraphDocument {
        bindings: vec![
            binding(1, BindingValueDomain::Quad, Some(100)),
            binding(2, BindingValueDomain::Scalar, Some(200)),
            binding(3, BindingValueDomain::Text, Some(200)),
            binding(4, BindingValueDomain::Scalar, None),
            binding(5, BindingValueDomain::Scalar, Some(300)),
        ],
    }
}

fn obs(value: u64, epoch: u64, revision: u64, quad: Option<BindingQuadState>) -> SemanticBindingObservation {
    SemanticBindingObservation::new(SemanticValueRef::new(value), Epoch::new(epoch), Revision::new(revision), quad)
}

fn limits() -> SemanticBindingAdapterLimits {
    SemanticBindingAdapterLimits::new(16, 16, 16, 16, 16)
}

fn adapt(
    graph: &BindingGraphDocument,
    scoped: &[u64],
    previous: Vec<SemanticBindingObservation>,
    current: Vec<SemanticBindingObservation>,
    limits: SemanticBindingAdapterLimits,
) -> Result<AdaptedBindingObservationInputs, Vec<SemanticBindingAdapterError>> {
    adapt_semantic_observations(
        graph,
        BindingObservationScope::new(scoped.iter().map(|i| BindingId(*i)).collect()),
        SemanticBindingObservationSet::new(previous),
        SemanticBindingObservationSet::new(current),
        limits,
    )
}

#[test]
fn observations_fan_out_to_scoped_bindings() {
    let a = adapt(
        &graph(),
        &[3, 1, 2],
        vec![obs(100, 1, 1, Some(BindingQuadState::T))],
        vec![obs(200, 1, 2, None), obs(100, 1, 2, Some(BindingQuadState::F))],
        limits(),
    )
    .unwrap();
    let scope: Vec<u64> = a.scope().binding_ids().iter().map(|b| b.0).collect();
    assert_eq!(scope, vec![1, 2, 3]);
    assert_eq!(a.fanout_work(), 3);
    let prev = a.previous().observations();
    assert_eq!(prev.len(), 1);
    assert_eq!(prev[0].binding_id(), BindingId(1));
    assert_eq!(prev[0].quad_state(), Some(BindingQuadState::T));
    let cur: Vec<(u64, u64, Option<BindingQuadState>)> =
        a.current().observations().iter().map(|o| (o.binding_id().0, o.revision().raw(), o.quad_state())).collect();
    assert_eq!(cur, vec![(1, 2, Some(BindingQuadState::F)), (2, 2, None), (3, 2, None)]);
    let (scope, previous, current) = a.into_parts();
    assert_eq!(scope.binding_ids().len(), 3);
    assert_eq!(previous.observations().len(), 1);
    assert_eq!(current.observations().len(), 3);
}

#[test]
fn scope_errors_are_sorted_and_each_once() {
    let e = adapt(&graph(), &[9, 1, 4, 1], vec![], vec![], limits()).unwrap_err();
    let got: Vec<(SemanticBindingAdapterErrorKind, u64)> = e.iter().map(|x| (x.kind(), x.binding_id().unwrap().0)).collect();
    assert_eq!(
        got,
        vec![
            (SemanticBindingAdapterErrorKind::DuplicateScopeBinding, 1),
            (SemanticBindingAdapterErrorKind::UnknownScopeBinding, 9),
            (SemanticBindingAdapterErrorKind::BindingMissingSemanticRef, 4),
        ]
    );
    assert!(e.iter().all(|x| x.stage() == SemanticBindingAdapterStage::ScopeValidation));
    assert_eq!(e[0].code(), "BGSA_DUPLICATE_SCOPE_BINDING");
}

#[test]
fn too_many_observations_fail_preflight() {
    let e = adapt(&graph(), &[1], vec![obs(100, 1, 1, None)], vec![], SemanticBindingAdapterLimits::new(16, 0, 16, 16, 16))
        .unwrap_err();
    assert_eq!(e.len(), 1);
    assert_eq!(e[0].kind(), SemanticBindingAdapterErrorKind::ResourceLimitExceeded);
    assert_eq!(e[0].limit_kind(), Some(SemanticBindingAdapterLimitKind::PreviousObservations));
    assert_eq!(e[0].snapshot_side(), Some(SemanticBindingSnapshotSide::Previous));
    assert_eq!(e[0].actual(), Some(1));
    assert_eq!(e[0].maximum(), Some(0));
}

#[test]
fn reference_index_limit_names_the_first_value_past_it() {
    let e = adapt(&graph(), &[1], vec![], vec![], SemanticBindingAdapterLimits::new(16, 16, 1, 16, 16)).unwrap_err();
    assert_eq!(e.len(), 1);
    assert_eq!(e[0].stage(), SemanticBindingAdapterStage::ReferenceIndexValidation);
    assert_eq!(e[0].limit_kind(), Some(SemanticBindingAdapterLimitKind::IndexedSemanticReferences));
    assert_eq!(e[0].semantic_value_ref(), Some(SemanticValueRef::new(200)));
    assert_eq!(e[0].binding_id(), Some(BindingId(2)));
    assert_eq!(e[0].actual(), Some(2));
}

#[test]
fn fanout_limit_names_the_first_binding_past_it() {
    let e = adapt(&graph(), &[3, 2, 1], vec![], vec![], SemanticBindingAdapterLimits::new(16, 16, 16, 2, 16)).unwrap_err();
    assert_eq!(e[0].kind(), SemanticBindingAdapterErrorKind::FanoutLimitExceeded);
    assert_eq!(e[0].binding_id(), Some(BindingId(3)));
    assert_eq!(e[0].semantic_value_ref(), Some(SemanticValueRef::new(200)));
    assert_eq!(e[0].actual(), Some(3));
}

#[test]
fn quad_and_other_bindings_cannot_share_a_value() {
    let mut g = graph();
    g.bindings.push(binding(6, BindingValueDomain::Quad, Some(200)));
    let e = adapt(&g, &[2, 6], vec![], vec![], limits()).unwrap_err();
    assert_eq!(e.len(), 1);
    assert_eq!(e[0].kind(), SemanticBindingAdapterErrorKind::IncompatibleFanoutDomain);
    assert_eq!(e[0].semantic_value_ref(), Some(SemanticValueRef::new(200)));
    assert_eq!(e[0].binding_id(), None);
}

#[test]
fn snapshot_structure_errors_are_reported_per_side() {
    let e = adapt(
        &graph(),
        &[1, 2],
        vec![obs(100, 1, 1, Some(BindingQuadState::T)), obs(100, 1, 2, Some(BindingQuadState::T))],
        vec![obs(999, 1, 1, None), obs(300, 1, 1, None)],
        limits(),
    )
    .unwrap_err();
    let got: Vec<(SemanticBindingAdapterErrorKind, Option<SemanticBindingSnapshotSide>, u64)> =
        e.iter().map(|x| (x.kind(), x.snapshot_side(), x.semantic_value_ref().unwrap().raw())).collect();
    assert_eq!(
        got,
        vec![
            (SemanticBindingAdapterErrorKind::DuplicateSemanticObservation, Some(SemanticBindingSnapshotSide::Previous), 100),
            (SemanticBindingAdapterErrorKind::UnknownSemanticRef, Some(SemanticBindingSnapshotSide::Current), 999),
            (SemanticBindingAdapterErrorKind::ObservationOutOfScope, Some(SemanticBindingSnapshotSide::Current), 300),
        ]
    );
}

#[test]
fn carriers_need_matching_quad_states() {
    let e = adapt(&graph(), &[1, 2], vec![obs(100, 1, 1, None)], vec![obs(200, 1, 1, Some(BindingQuadState::N))], limits())
        .unwrap_err();
    let got: Vec<(SemanticBindingAdapterErrorKind, Option<SemanticBindingSnapshotSide>)> =
        e.iter().map(|x| (x.kind(), x.snapshot_side())).collect();
    assert_eq!(
        got,
        vec![
            (SemanticBindingAdapterErrorKind::MissingQuadState, Some(SemanticBindingSnapshotSide::Previous)),
            (SemanticBindingAdapterErrorKind::UnexpectedQuadState, Some(SemanticBindingSnapshotSide::Current)),
        ]
    );
}

#[test]
fn mapping_limit_names_the_first_mapping_past_it() {
    let e = adapt(&graph(), &[2, 3], vec![], vec![obs(200, 1, 1, None)], SemanticBindingAdapterLimits::new(16, 16, 16, 16, 1))
        .unwrap_err();
    assert_eq!(e.len(), 1);
    assert_eq!(e[0].kind(), SemanticBindingAdapterErrorKind::MappedObservationLimitExceeded);
    assert_eq!(e[0].snapshot_side(), Some(SemanticBindingSnapshotSide::Current));
    assert_eq!(e[0].limit_kind(), Some(SemanticBindingAdapterLimitKind::MappedCurrentObservations));
    assert_eq!(e[0].binding_id(), Some(BindingId(3)));
    assert_eq!(e[0].actual(), Some(2));
}
