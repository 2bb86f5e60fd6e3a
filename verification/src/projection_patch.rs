//! The operations a projection patch is made of.
use vstd::prelude::*;
use crate::binding_graph::BindingTarget;
use crate::contract_primitives::{CollectionKey, DiagnosticCoordinate, StaticNodeId};

verus! {

/// How a projected node may be used.
#[derive(Debug, Clone, Copy, PartialEq, Eq, PartialOrd, Ord, Hash, Structural)]
pub enum ProjectionNodeAvailability {
    Available,
    Unavailable,
    Hidden,
    Pending,
    Stale,
}

/// A value a patch writes into a bound slot.
#[derive(Debug, Clone, PartialEq, Eq)]
pub enum ProjectionPatchValue {
    Text(String),
}

/// One change a patch makes to a projection.
#[derive(Debug, Clone, PartialEq, Eq)]
pub enum ProjectionPatchOperation {
    SetBindingValue { target: BindingTarget, value: ProjectionPatchValue },
    SetNodeAvailability { node: StaticNodeId, availability: ProjectionNodeAvailability },
    CollectionInsert { collection: StaticNodeId, key: CollectionKey, before: Option<CollectionKey>, value: ProjectionPatchValue },
}

/// The identity of a projection patch.
#[derive(Debug, Clone, Copy, PartialEq, Eq, PartialOrd, Ord, Hash, Structural)]
pub struct ProjectionPatchId(u64);

impl ProjectionPatchId {
    pub closed spec fn spec_raw(self) -> u64 {
        self.0
    }

    pub fn new(raw: u64) -> (r: Self)
        ensures
            r.spec_raw() == raw,
    {
        Self(raw)
    }

    pub fn raw(self) -> (r: u64)
        ensures
            r == self.spec_raw(),
    {
        self.0
    }
}

/// What a patch is addressed as: its identity.
#[derive(Debug, Clone, Copy, PartialEq, Eq, Hash, Structural)]
pub struct ProjectionPatchEnvelope {
    pub patch_id: ProjectionPatchId,
}

impl ProjectionPatchEnvelope {
    pub fn new(patch_id: ProjectionPatchId) -> (r: Self)
        ensures
            r.patch_id == patch_id,
    {
        Self { patch_id }
    }

    pub fn patch_id(&self) -> (r: ProjectionPatchId)
        ensures
            r == self.patch_id,
    {
        self.patch_id
    }
}

/// Why a patch was refused.
#[derive(Debug, Clone, PartialEq, Eq)]
pub struct ProjectionPatchDiagnostics {
    pub diagnostics: Vec<DiagnosticCoordinate>,
}

impl ProjectionPatchDiagnostics {
    pub fn is_empty(&self) -> (r: bool)
        ensures
            r == (self.diagnostics@.len() == 0),
    {
        self.diagnostics.len() == 0
    }
}

/// An inert patch: its envelope and the operations it applies, in order.
#[derive(Debug, Clone, PartialEq, Eq)]
pub struct ProjectionPatch {
    envelope: ProjectionPatchEnvelope,
    operations: Vec<ProjectionPatchOperation>,
}

impl ProjectionPatch {
    pub closed spec fn spec_envelope(&self) -> ProjectionPatchEnvelope {
        self.envelope
    }

    pub closed spec fn spec_operations(&self) -> Seq<ProjectionPatchOperation> {
        self.operations@
    }

    /// The patch of these operations under this envelope. Every operation
    /// list is accepted.
    pub fn new(envelope: ProjectionPatchEnvelope, operations: Vec<ProjectionPatchOperation>) -> (r: Result<Self, ProjectionPatchDiagnostics>)
        ensures
            r matches Ok(p) && p.spec_envelope() == envelope && p.spec_operations() == operations@,
    {
        Ok(Self { envelope, operations })
    }

    pub fn envelope(&self) -> (r: ProjectionPatchEnvelope)
        ensures
            r == self.spec_envelope(),
    {
        self.envelope
    }

    pub fn operations(&self) -> (r: &[ProjectionPatchOperation])
        ensures
            r@ == self.spec_operations(),
    {
        self.operations.as_slice()
    }
}

} // verus!
