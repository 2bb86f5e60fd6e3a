#![allow(unused_imports)]
use prom_ui::contract_primitives::{ContractPrimitiveError, SchemaVersion, ContractVersion, SourceId, ProjectionSourceSurfaceId, ProjectionSourceNodeId, StaticDocumentId, StaticSurfaceId, StaticNodeId, CollectionKey, Revision, Epoch, ChildOrder, SourceSpan, SourceRef, DiagnosticCode, DiagnosticCoordinate};

#[test]
fn contract_primitives_source_span_accepts_ordered_bounds() {
    let span = SourceSpan::new(2, 5).expect("valid span");
    assert_eq!(span.start(), 2);
    assert_eq!(span.end(), 5);
}

#[test]
fn contract_primitives_source_span_rejects_inverted_bounds() {
    assert_eq!(
        SourceSpan::new(5, 2),
        Err(ContractPrimitiveError::InvalidSourceSpan)
    );
}

#[test]
fn contract_primitives_versions_are_non_zero() {
    assert_eq!(
        SchemaVersion::new(0),
        Err(ContractPrimitiveError::ZeroVersion)
    );
    assert_eq!(
        ContractVersion::new(0),
        Err(ContractPrimitiveError::ZeroVersion)
    );
    assert_eq!(SchemaVersion::current().raw(), 1);
    assert_eq!(ContractVersion::current().raw(), 1);
}

#[test]
fn contract_primitives_domain_ids_do_not_cross_compare() {
    let source = ProjectionSourceNodeId::new(7).expect("source node id");
    let static_node = StaticNodeId::new(7).expect("static node id");

    assert_eq!(source.raw(), static_node.raw());
}

#[test]
fn contract_primitives_order_diagnostic_coordinates_deterministically() {
    let source = SourceId::new(1).expect("source id");
    let first = DiagnosticCoordinate::new(
        Some(SourceRef::new(source, SourceSpan::new(0, 1).expect("span"))),
        DiagnosticCode::new("B"),
        1,
        0,
    );
    let second = DiagnosticCoordinate::new(
        Some(SourceRef::new(source, SourceSpan::new(0, 1).expect("span"))),
        DiagnosticCode::new("C"),
        1,
        0,
    );

    assert!(first < second);
    assert_eq!(first.code().as_str(), "B");
}
