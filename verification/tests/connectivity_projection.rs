use prom_ui::binding_graph::{BindingSlot, BindingTarget};
use prom_ui::connectivity_projection::{
    project_freshness_fragment, ControlCriticality, FreshnessControlRoute, FreshnessProjectionDiagnosticKind,
    FreshnessProjectionLimits, FreshnessProjectionRoute, FreshnessState, ProjectedControlAvailability,
};
use prom_ui::contract_primitives::StaticNodeId;
use prom_ui::projection_patch::{ProjectionNodeAvailability, ProjectionPatchOperation, ProjectionPatchValue};

fn node(raw: u64) -> StaticNodeId {
    StaticNodeId::new(raw).unwrap()
}

fn route(controls: Vec<FreshnessControlRoute>) -> FreshnessProjectionRoute {
    FreshnessProjectionRoute::new(BindingTarget { node: node(1), slot: BindingSlot(2) }, controls)
}

fn control(n: u64, criticality: ControlCriticality, availability: ProjectedControlAvailability) -> FreshnessControlRoute {
    FreshnessControlRoute::new(node(n), criticality, availability)
}

#[test]
fn fresh_state_projects_token_and_controls_in_node_order() {
    let r = route(vec![
        control(12, ControlCriticality::Danger, ProjectedControlAvailability::Available),
        control(11, ControlCriticality::Normal, ProjectedControlAvailability::Hidden),
    ]);
    let f = project_freshness_fragment(FreshnessState::Fresh, &r, FreshnessProjectionLimits::new(8, 8)).unwrap();
    assert_eq!(f.state(), FreshnessState::Fresh);
    let ops = f.operations();
    assert_eq!(ops.len(), 3);
    assert_eq!(
        ops[0],
        ProjectionPatchOperation::SetBindingValue {
            target: BindingTarget { node: node(1), slot: BindingSlot(2) },
            value: ProjectionPatchValue::Text(String::from("fresh")),
        }
    );
    assert_eq!(
        ops[1],
        ProjectionPatchOperation::SetNodeAvailability { node: node(11), availability: ProjectionNodeAvailability::Hidden }
    );
    assert_eq!(
        ops[2],
        ProjectionPatchOperation::SetNodeAvailability { node: node(12), availability: ProjectionNodeAvailability::Available }
    );
    assert_eq!(f.into_operations().len(), 3);
}

#[test]
fn stale_state_rejects_available_critical_controls() {
    let r = route(vec![
        control(12, ControlCriticality::TaskControl, ProjectedControlAvailability::Available),
        control(13, ControlCriticality::Normal, ProjectedControlAvailability::Available),
        control(14, ControlCriticality::Guarded, ProjectedControlAvailability::Unavailable),
    ]);
    let e = project_freshness_fragment(FreshnessState::Stale, &r, FreshnessProjectionLimits::new(8, 8)).unwrap_err();
    assert_eq!(e.len(), 1);
    assert_eq!(e[0].kind(), FreshnessProjectionDiagnosticKind::InvalidCriticalControlAvailability);
    assert_eq!(e[0].node(), Some(node(12)));
    assert_eq!(e[0].code(), "CFP_INVALID_CRITICAL_CONTROL_AVAILABILITY");
}

#[test]
fn degraded_state_allows_available_critical_controls() {
    let r = route(vec![control(12, ControlCriticality::Danger, ProjectedControlAvailability::Available)]);
    let f = project_freshness_fragment(FreshnessState::Degraded, &r, FreshnessProjectionLimits::new(8, 8)).unwrap();
    assert_eq!(f.operations().len(), 2);
    assert!(FreshnessState::Offline.restricts_critical_controls());
    assert!(!FreshnessState::Degraded.restricts_critical_controls());
    assert_eq!(FreshnessState::Resyncing.token(), "resyncing");
}

#[test]
fn duplicate_control_nodes_are_diagnosed_once() {
    let r = route(vec![
        control(12, ControlCriticality::Normal, ProjectedControlAvailability::Hidden),
        control(12, ControlCriticality::Normal, ProjectedControlAvailability::Pending),
        control(12, ControlCriticality::Normal, ProjectedControlAvailability::Stale),
    ]);
    let e = project_freshness_fragment(FreshnessState::Fresh, &r, FreshnessProjectionLimits::new(8, 8)).unwrap_err();
    assert_eq!(e.len(), 1);
    assert_eq!(e[0].kind(), FreshnessProjectionDiagnosticKind::DuplicateControlNode);
}

#[test]
fn control_and_operation_limits_are_checked_first() {
    let r = route(vec![
        control(12, ControlCriticality::Danger, ProjectedControlAvailability::Available),
        control(13, ControlCriticality::Danger, ProjectedControlAvailability::Available),
    ]);
    let e = project_freshness_fragment(FreshnessState::Stale, &r, FreshnessProjectionLimits::new(1, 8)).unwrap_err();
    assert_eq!(e[0].kind(), FreshnessProjectionDiagnosticKind::ResourceLimitExceeded);
    assert_eq!((e[0].actual(), e[0].maximum()), (Some(2), Some(1)));
    let e = project_freshness_fragment(FreshnessState::Stale, &r, FreshnessProjectionLimits::new(8, 2)).unwrap_err();
    assert_eq!(e[0].kind(), FreshnessProjectionDiagnosticKind::OperationLimitExceeded);
    assert_eq!((e[0].actual(), e[0].maximum()), (Some(3), Some(2)));
}

#[test]
fn control_availability_converts_by_name() {
    let a: ProjectionNodeAvailability = ProjectedControlAvailability::Pending.into();
    assert_eq!(a, ProjectionNodeAvailability::Pending);
}
