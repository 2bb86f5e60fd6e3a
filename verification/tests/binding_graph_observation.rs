use prom_ui::binding_graph::{
    BindingDeclaration, BindingDependency, BindingGraphDocument, BindingId, BindingSlot, BindingTarget,
    BindingValueDomain,
};
use prom_ui::binding_graph_observation::{
    derive_dirty_bindings, BindingObservation, BindingObservationError, BindingObservationErrorKind,
    BindingObservationLimitKind, BindingObservationLimits, BindingObservationScope, BindingObservationSet,
    BindingObservationStage, BindingQuadState, DirtyDerivationResult, DirtyReasonKind,
};
use prom_ui::contract_primitives::{Epoch, Revision, StaticNodeId};

fn binding(id: u64, domain: BindingValueDomain, deps: &[u64]) -> BindingDeclaration {
    BindingDeclaration {
        id: BindingId(id),
        target: BindingTarget { node: StaticNodeId::new(10 + id).unwrap(), slot: BindingSlot(0) },
        domain,
        dependencies: deps.iter().map(|d| BindingDependency { target_binding: BindingId(*d) }).collect(),
        collection_key: None,
        semantic_value: None,
        source_ref: None,
    }
}

/// Binding 1 is a quad; 2 depends on 1 and 3 on 2.
fn chain() -> BindingGraphDocument {
    BindingGraphDocument {
        bindings: vec![
            binding(1, BindingValueDomain::Quad, &[]),
            binding(2, BindingValueDomain::Scalar, &[1]),
            binding(3, BindingValueDomain::Text, &[2]),
        ],
    }
}

fn obs(id: u64, epoch: u64, revision: u64, quad: Option<BindingQuadState>) -> BindingObservation {
    BindingObservation::new(BindingId(id), Epoch::new(epoch), Revision::new(revision), quad)
}

fn scope(ids: &[u64]) -> BindingObservationScope {
    BindingObservationScope::new(ids.iter().map(|i| BindingId(*i)).collect())
}

fn limits() -> BindingObservationLimits {
    BindingObservationLimits::new(16, 16, 16, 64, 64)
}

fn run(
    scoped: &[u64],
    previous: Vec<BindingObservation>,
    current: Vec<BindingObservation>,
    limits: BindingObservationLimits,
) -> Result<DirtyDerivationResult, Vec<BindingObservationError>> {
    derive_dirty_bindings(
        &chain(),
        scope(scoped),
        BindingObservationSet::new(previous),
        BindingObservationSet::new(current),
        limits,
    )
}

fn dirty_ids(r: &DirtyDerivationResult) -> Vec<u64> {
    r.dirty_bindings().iter().map(|d| d.binding_id().0).collect()
}

#[test]
fn quad_change_propagates_to_dependents() {
    let r = run(
        &[3, 1, 2],
        vec![obs(1, 1, 1, Some(BindingQuadState::T))],
        vec![obs(1, 1, 2, Some(BindingQuadState::F))],
        limits(),
    )
    .unwrap();
    assert_eq!(dirty_ids(&r), vec![1, 2, 3]);
    assert_eq!(r.propagation_work(), 2);
    for d in r.dirty_bindings() {
        let kinds: Vec<DirtyReasonKind> = d.reasons().iter().map(|x| x.kind()).collect();
        assert_eq!(kinds, vec![DirtyReasonKind::RevisionChanged, DirtyReasonKind::QuadValueChanged]);
        assert!(d.reasons().iter().all(|x| x.originating_binding_id() == BindingId(1)));
        assert_eq!(d.reasons()[0].previous_quad_state(), Some(BindingQuadState::T));
        assert_eq!(d.reasons()[0].current_quad_state(), Some(BindingQuadState::F));
    }
}

#[test]
fn added_observation_dirties_itself_and_dependents() {
    let r = run(&[2, 3], vec![], vec![obs(2, 1, 1, None)], limits()).unwrap();
    assert_eq!(dirty_ids(&r), vec![2, 3]);
    assert_eq!(r.propagation_work(), 1);
    let reasons = r.dirty_bindings()[1].reasons();
    assert_eq!(reasons.len(), 1);
    assert_eq!(reasons[0].kind(), DirtyReasonKind::Added);
    assert_eq!(reasons[0].originating_binding_id(), BindingId(2));
}

#[test]
fn unchanged_replay_is_clean() {
    let o = obs(2, 3, 4, None);
    let r = run(&[2], vec![o], vec![o], limits()).unwrap();
    assert!(r.dirty_bindings().is_empty());
    assert_eq!(r.propagation_work(), 0);
}

#[test]
fn older_current_observation_is_stale() {
    let e = run(&[2], vec![obs(2, 2, 1, None)], vec![obs(2, 1, 9, None)], limits()).unwrap_err();
    assert_eq!(e.len(), 1);
    assert_eq!(e[0].kind(), BindingObservationErrorKind::StaleObservation);
    assert_eq!(e[0].stage(), BindingObservationStage::TemporalValidation);
    assert_eq!(e[0].code(), "BGOD_STALE_OBSERVATION");
    assert_eq!(e[0].binding_id(), Some(BindingId(2)));
}

#[test]
fn replay_with_other_quad_conflicts() {
    let e = run(
        &[1],
        vec![obs(1, 1, 1, Some(BindingQuadState::N))],
        vec![obs(1, 1, 1, Some(BindingQuadState::S))],
        limits(),
    )
    .unwrap_err();
    assert_eq!(e[0].kind(), BindingObservationErrorKind::ConflictingReplay);
}

#[test]
fn structural_errors_are_sorted_and_each_once() {
    let e = run(&[9, 2, 2, 2], vec![obs(7, 1, 1, None), obs(3, 1, 1, None)], vec![], limits()).unwrap_err();
    let got: Vec<(BindingObservationErrorKind, u64)> =
        e.iter().map(|x| (x.kind(), x.binding_id().unwrap().0)).collect();
    assert_eq!(
        got,
        vec![
            (BindingObservationErrorKind::DuplicateScopeBinding, 2),
            (BindingObservationErrorKind::ObservationOutOfScope, 3),
            (BindingObservationErrorKind::UnknownBinding, 7),
            (BindingObservationErrorKind::UnknownScopeBinding, 9),
        ]
    );
    assert!(e.iter().all(|x| x.stage() == BindingObservationStage::StructuralValidation));
}

#[test]
fn quad_binding_needs_quad_state() {
    let e = run(&[1, 2], vec![obs(1, 1, 1, None)], vec![obs(2, 1, 1, Some(BindingQuadState::T))], limits())
        .unwrap_err();
    let got: Vec<BindingObservationErrorKind> = e.iter().map(|x| x.kind()).collect();
    assert_eq!(got, vec![BindingObservationErrorKind::MissingQuadState, BindingObservationErrorKind::UnexpectedQuadState]);
}

#[test]
fn too_many_scoped_bindings_fail_preflight() {
    let e = run(&[1, 2], vec![], vec![], BindingObservationLimits::new(1, 16, 16, 64, 64)).unwrap_err();
    assert_eq!(e.len(), 1);
    assert_eq!(e[0].kind(), BindingObservationErrorKind::ResourceLimitExceeded);
    assert_eq!(e[0].limit_kind(), Some(BindingObservationLimitKind::ScopedBindings));
    assert_eq!(e[0].actual(), Some(2));
    assert_eq!(e[0].maximum(), Some(1));
    assert_eq!(e[0].binding_id(), None);
}

#[test]
fn propagation_past_the_dirty_limit_fails() {
    let e = run(&[2], vec![], vec![obs(2, 1, 1, None)], BindingObservationLimits::new(16, 16, 1, 64, 64)).unwrap_err();
    assert_eq!(e.len(), 1);
    assert_eq!(e[0].kind(), BindingObservationErrorKind::DirtyResultLimitExceeded);
    assert_eq!(e[0].stage(), BindingObservationStage::DependencyPropagation);
    assert_eq!(e[0].binding_id(), Some(BindingId(3)));
    assert_eq!(e[0].actual(), Some(2));
    assert_eq!(e[0].maximum(), Some(1));
}

#[test]
fn too_many_seeds_fail_before_propagation() {
    let e = run(&[2, 3], vec![], vec![obs(2, 1, 1, None), obs(3, 1, 1, None)], BindingObservationLimits::new(16, 16, 1, 64, 64))
        .unwrap_err();
    assert_eq!(e[0].stage(), BindingObservationStage::DirtySeedDerivation);
    assert_eq!(e[0].binding_id(), Some(BindingId(3)));
    assert_eq!(e[0].actual(), Some(2));
}

#[test]
fn propagation_work_limit_is_reported_with_the_work() {
    let e = run(
        &[1],
        vec![obs(1, 1, 1, Some(BindingQuadState::T))],
        vec![obs(1, 2, 1, Some(BindingQuadState::T))],
        BindingObservationLimits::new(16, 16, 16, 1, 64),
    )
    .unwrap_err();
    assert_eq!(e[0].kind(), BindingObservationErrorKind::PropagationWorkLimitExceeded);
    assert_eq!(e[0].actual(), Some(2));
    assert_eq!(e[0].maximum(), Some(1));
}

#[test]
fn retained_reason_limit_counts_every_reached_binding() {
    let e = run(
        &[1],
        vec![obs(1, 1, 1, Some(BindingQuadState::T))],
        vec![obs(1, 2, 2, Some(BindingQuadState::F))],
        BindingObservationLimits::new(16, 16, 16, 64, 5),
    )
    .unwrap_err();
    assert_eq!(e[0].kind(), BindingObservationErrorKind::RetainedReasonLimitExceeded);
    assert_eq!(e[0].stage(), BindingObservationStage::CanonicalResult);
    assert_eq!(e[0].actual(), Some(9));
}

/// Binding 5 has the dependents 9 and 7, declared in that order, and 4
/// depends on 9; binding 1 has the dependent 2.
fn fan() -> BindingGraphDocument {
    BindingGraphDocument {
        bindings: vec![
            binding(5, BindingValueDomain::Scalar, &[]),
            binding(9, BindingValueDomain::Scalar, &[5]),
            binding(7, BindingValueDomain::Scalar, &[5]),
            binding(4, BindingValueDomain::Scalar, &[9]),
            binding(1, BindingValueDomain::Scalar, &[]),
            binding(2, BindingValueDomain::Scalar, &[1]),
        ],
    }
}

fn run_fan(scoped: &[u64], current: Vec<BindingObservation>, max_dirty: usize) -> Result<DirtyDerivationResult, Vec<BindingObservationError>> {
    derive_dirty_bindings(
        &fan(),
        scope(scoped),
        BindingObservationSet::new(vec![]),
        BindingObservationSet::new(current),
        BindingObservationLimits::new(16, 16, max_dirty, 64, 64),
    )
}

#[test]
fn dirty_limit_names_the_lower_dependent_first() {
    let e = run_fan(&[5], vec![obs(5, 1, 1, None)], 2).unwrap_err();
    assert_eq!(e.len(), 1);
    assert_eq!(e[0].stage(), BindingObservationStage::DependencyPropagation);
    assert_eq!(e[0].binding_id(), Some(BindingId(9)));
    assert_eq!(e[0].actual(), Some(3));
}

#[test]
fn dirty_limit_names_bindings_breadth_first() {
    let e = run_fan(&[5], vec![obs(5, 1, 1, None)], 3).unwrap_err();
    assert_eq!(e[0].binding_id(), Some(BindingId(4)));
    assert_eq!(e[0].actual(), Some(4));
    assert_eq!(e[0].maximum(), Some(3));
}

#[test]
fn dirty_limit_error_ignores_input_order() {
    let a = run_fan(&[1, 5], vec![obs(1, 1, 1, None), obs(5, 1, 1, None)], 4).unwrap_err();
    let b = run_fan(&[5, 1], vec![obs(5, 1, 1, None), obs(1, 1, 1, None)], 4).unwrap_err();
    assert_eq!(a, b);
    assert_eq!(a[0].binding_id(), Some(BindingId(9)));
    assert_eq!(a[0].actual(), Some(5));
}

#[test]
fn dirty_bindings_within_the_limit_are_all_reached() {
    let r = run_fan(&[5], vec![obs(5, 1, 1, None)], 4).unwrap();
    assert_eq!(dirty_ids(&r), vec![4, 5, 7, 9]);
}

#[test]
fn derivation_ignores_input_order() {
    let a = run_fan(&[1, 5], vec![obs(1, 1, 1, None), obs(5, 1, 1, None)], 16).unwrap();
    let b = run_fan(&[5, 1], vec![obs(5, 1, 1, None), obs(1, 1, 1, None)], 16).unwrap();
    assert_eq!(dirty_ids(&a), dirty_ids(&b));
    assert_eq!(dirty_ids(&a), vec![1, 2, 4, 5, 7, 9]);
    assert_eq!(a.propagation_work(), b.propagation_work());
}
