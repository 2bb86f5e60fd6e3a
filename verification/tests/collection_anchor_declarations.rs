use prom_ui::collection_anchor_declarations::{
    qualify_collection_anchor_declarations, CollectionAnchorDeclarationDiagnosticKind, QualifiedCollectionAnchorDeclarations,
};
use prom_ui::contract_primitives::{
    Epoch, ProjectionSourceNodeId, Revision, SourceId, SourceRef, SourceSpan, StaticDocumentId, StaticNodeId,
};
use prom_ui::projection_source::{CollectionAnchorDeclaration, ProjectionSourceDocument, ProjectionSourceNode};
use prom_ui::static_ir::{StaticUiDocument, StaticUiNode};

fn doc_id(raw: u64) -> StaticDocumentId {
    StaticDocumentId::new(raw).unwrap()
}

fn at(start: u32, end: u32) -> SourceRef {
    SourceRef::new(SourceId::new(1).unwrap(), SourceSpan::new(start, end).unwrap())
}

fn declaration(target: u64, start: u32) -> CollectionAnchorDeclaration {
    CollectionAnchorDeclaration::new(ProjectionSourceNodeId::new(target).unwrap(), at(start, start + 1))
}

fn source(nodes: &[u64], declarations: Vec<CollectionAnchorDeclaration>) -> ProjectionSourceDocument {
    ProjectionSourceDocument::new(
        Revision::new(3),
        Epoch::new(4),
        nodes.iter().map(|n| ProjectionSourceNode::new(ProjectionSourceNodeId::new(*n).unwrap())).collect(),
        declarations,
    )
}

fn static_document(id: u64, revision: u64, nodes: &[u64]) -> StaticUiDocument {
    StaticUiDocument::new(
        doc_id(id),
        Revision::new(revision),
        Epoch::new(4),
        nodes.iter().map(|n| StaticUiNode::new(StaticNodeId::new(*n).unwrap())).collect(),
    )
}

fn raws(anchors: &[StaticNodeId]) -> Vec<u64> {
    anchors.iter().map(|a| a.raw()).collect()
}

#[test]
fn valid_declarations_qualify_in_node_order() {
    let src = source(&[1, 3, 5], vec![declaration(5, 10), declaration(1, 20), declaration(3, 30)]);
    let q = qualify_collection_anchor_declarations(doc_id(7), &src, &static_document(7, 3, &[1, 3, 5, 9])).unwrap();
    assert_eq!(raws(q.anchors()), vec![1, 3, 5]);
    assert_eq!(q.document_id(), doc_id(7));
    assert_eq!(q.revision(), Revision::new(3));
    assert_eq!(q.epoch(), Epoch::new(4));
    assert_eq!(q.len(), 3);
    assert!(!q.is_empty());
}

#[test]
fn no_declarations_qualify_to_an_empty_set() {
    let q = qualify_collection_anchor_declarations(doc_id(7), &source(&[1], vec![]), &static_document(7, 3, &[1])).unwrap();
    assert!(q.is_empty());
}

#[test]
fn undeclared_target_is_reported() {
    let src = source(&[1], vec![declaration(9, 12)]);
    let ds = qualify_collection_anchor_declarations(doc_id(7), &src, &static_document(7, 3, &[1])).unwrap_err();
    assert_eq!(ds.diagnostics().len(), 1);
    let d = ds.diagnostics()[0];
    assert_eq!(d.kind(), CollectionAnchorDeclarationDiagnosticKind::MissingTargetNode);
    assert_eq!(d.coordinate().domain(), 9);
    assert_eq!(d.coordinate().source(), Some(at(12, 13)));
    assert_eq!(d.coordinate().code().as_str(), "CAD_MISSING_TARGET_NODE");
}

#[test]
fn duplicate_is_reported_once_at_its_least_source() {
    let src = source(&[2], vec![declaration(2, 40), declaration(2, 5), declaration(2, 20)]);
    let ds = qualify_collection_anchor_declarations(doc_id(7), &src, &static_document(7, 3, &[2])).unwrap_err();
    assert_eq!(ds.diagnostics().len(), 1);
    let d = ds.diagnostics()[0];
    assert_eq!(d.kind(), CollectionAnchorDeclarationDiagnosticKind::DuplicateDeclaration);
    assert_eq!(d.coordinate().source(), Some(at(5, 6)));
    assert_eq!(d.coordinate().domain(), 2);
    assert_eq!(d.coordinate().code().as_str(), "CAD_DUPLICATE_DECLARATION");
}

#[test]
fn static_node_must_exist() {
    let src = source(&[4, 6], vec![declaration(6, 3), declaration(4, 1)]);
    let ds = qualify_collection_anchor_declarations(doc_id(7), &src, &static_document(7, 3, &[6])).unwrap_err();
    assert_eq!(ds.diagnostics().len(), 1);
    assert_eq!(ds.diagnostics()[0].kind(), CollectionAnchorDeclarationDiagnosticKind::MissingStaticNode);
    assert_eq!(ds.diagnostics()[0].coordinate().domain(), 4);
}

#[test]
fn document_version_must_match() {
    let src = source(&[1], vec![declaration(1, 1)]);
    let ds = qualify_collection_anchor_declarations(doc_id(7), &src, &static_document(8, 3, &[1])).unwrap_err();
    assert_eq!(ds.diagnostics().len(), 1);
    let d = ds.diagnostics()[0];
    assert_eq!(d.kind(), CollectionAnchorDeclarationDiagnosticKind::DocumentVersionMismatch);
    assert_eq!(d.coordinate().source(), None);
    assert_eq!((d.coordinate().domain(), d.coordinate().secondary()), (7, 8));

    let ds = qualify_collection_anchor_declarations(doc_id(7), &src, &static_document(7, 2, &[1])).unwrap_err();
    assert_eq!(ds.diagnostics()[0].kind(), CollectionAnchorDeclarationDiagnosticKind::DocumentVersionMismatch);
}

#[test]
fn every_diagnostic_is_reported_in_order() {
    let src = source(&[2, 3], vec![declaration(3, 9), declaration(8, 2), declaration(2, 30), declaration(2, 4)]);
    let ds = qualify_collection_anchor_declarations(doc_id(7), &src, &static_document(6, 3, &[2])).unwrap_err();
    let kinds: Vec<CollectionAnchorDeclarationDiagnosticKind> = ds.diagnostics().iter().map(|d| d.kind()).collect();
    assert_eq!(
        kinds,
        vec![
            CollectionAnchorDeclarationDiagnosticKind::DocumentVersionMismatch,
            CollectionAnchorDeclarationDiagnosticKind::MissingTargetNode,
            CollectionAnchorDeclarationDiagnosticKind::DuplicateDeclaration,
            CollectionAnchorDeclarationDiagnosticKind::MissingStaticNode,
        ]
    );
    assert!(!ds.is_empty());
}

#[test]
fn verified_bundle_evidence_is_kept_as_given() {
    let anchors = vec![StaticNodeId::new(2).unwrap(), StaticNodeId::new(5).unwrap()];
    let q = QualifiedCollectionAnchorDeclarations::from_verified_bundle_evidence(doc_id(1), Revision::new(2), Epoch::new(3), anchors);
    assert_eq!(raws(q.anchors()), vec![2, 5]);
    assert_eq!(q.len(), 2);
}

#[test]
fn declaration_order_does_not_matter() {
    let st = static_document(7, 3, &[1, 3, 5]);
    let a = source(&[1, 3, 5], vec![declaration(5, 10), declaration(1, 20), declaration(3, 30)]);
    let b = source(&[1, 3, 5], vec![declaration(3, 30), declaration(5, 10), declaration(1, 20)]);
    let qa = qualify_collection_anchor_declarations(doc_id(7), &a, &st).unwrap();
    let qb = qualify_collection_anchor_declarations(doc_id(7), &b, &st).unwrap();
    assert_eq!(qa, qb);
}

#[test]
fn declaration_order_does_not_change_diagnostics() {
    let st = static_document(6, 3, &[2]);
    let a = source(&[2, 3], vec![declaration(3, 9), declaration(8, 2), declaration(2, 30), declaration(2, 4)]);
    let b = source(&[2, 3], vec![declaration(2, 4), declaration(2, 30), declaration(3, 9), declaration(8, 2)]);
    let da = qualify_collection_anchor_declarations(doc_id(7), &a, &st).unwrap_err();
    let db = qualify_collection_anchor_declarations(doc_id(7), &b, &st).unwrap_err();
    assert_eq!(da, db);
}
