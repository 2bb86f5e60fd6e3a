//! Adapts observations of semantic values into observations of the bindings
//! that carry them.
use vstd::prelude::*;
use crate::binding_graph::{binding_declared, first_index_of, is_first_with_id, BindingDeclaration, BindingGraphDocument, BindingId, BindingValueDomain};
use crate::binding_graph_observation::{
    appears_twice, first_position, lemma_concat_contains, lemma_insert_to_set, lemma_push_contains,
    lemma_take_one_more_contains, lemma_take_one_more_to_set, saturated, saturating_add, sorted_ids, sorted_scope, BindingObservation,
    BindingObservationScope, BindingObservationSet, BindingQuadState,
};
use crate::contract_primitives::{compare_u64_slices, lemma_lex_order_antisymmetric, lemma_lex_order_strict_transitive, lex_order, Epoch, Revision};
use crate::semantic_refs::SemanticValueRef;

verus! {

/// What was observed of one semantic value: when, and its quad state if any.
#[derive(Debug, Clone, Copy, PartialEq, Eq, Structural)]
pub struct SemanticBindingObservation {
    semantic_value_ref: SemanticValueRef,
    epoch: Epoch,
    revision: Revision,
    quad_state: Option<BindingQuadState>,
}

impl SemanticBindingObservation {
    pub closed spec fn spec_semantic_value_ref(self) -> SemanticValueRef {
        self.semantic_value_ref
    }

    pub closed spec fn spec_epoch(self) -> Epoch {
        self.epoch
    }

    pub closed spec fn spec_revision(self) -> Revision {
        self.revision
    }

    pub closed spec fn spec_quad_state(self) -> Option<BindingQuadState> {
        self.quad_state
    }

    pub fn new(semantic_value_ref: SemanticValueRef, epoch: Epoch, revision: Revision, quad_state: Option<BindingQuadState>) -> (r: Self)
        ensures
            r.spec_semantic_value_ref() == semantic_value_ref,
            r.spec_epoch() == epoch,
            r.spec_revision() == revision,
            r.spec_quad_state() == quad_state,
    {
        Self { semantic_value_ref, epoch, revision, quad_state }
    }

    pub fn semantic_value_ref(self) -> (r: SemanticValueRef)
        ensures
            r == self.spec_semantic_value_ref(),
    {
        self.semantic_value_ref
    }

    pub fn epoch(self) -> (r: Epoch)
        ensures
            r == self.spec_epoch(),
    {
        self.epoch
    }

    pub fn revision(self) -> (r: Revision)
        ensures
            r == self.spec_revision(),
    {
        self.revision
    }

    pub fn quad_state(self) -> (r: Option<BindingQuadState>)
        ensures
            r == self.spec_quad_state(),
    {
        self.quad_state
    }
}

/// A snapshot of semantic observations.
#[derive(Debug, Clone, PartialEq, Eq)]
pub struct SemanticBindingObservationSet {
    observations: Vec<SemanticBindingObservation>,
}

impl SemanticBindingObservationSet {
    /// The observations, in the order given.
    pub closed spec fn spec_observations(&self) -> Seq<SemanticBindingObservation> {
        self.observations@
    }

    pub fn new(observations: Vec<SemanticBindingObservation>) -> (r: Self)
        ensures
            r.spec_observations() == observations@,
    {
        Self { observations }
    }

    pub fn observations(&self) -> (r: &[SemanticBindingObservation])
        ensures
            r@ == self.spec_observations(),
    {
        self.observations.as_slice()
    }
}

/// The bounds on the inputs and on the work of an adaptation.
#[derive(Debug, Clone, Copy, PartialEq, Eq, Structural)]
pub struct SemanticBindingAdapterLimits {
    max_scoped_bindings: usize,
    max_observations_per_snapshot: usize,
    max_indexed_semantic_references: usize,
    max_fanout_mappings: usize,
    max_mapped_observations_per_snapshot: usize,
}

impl SemanticBindingAdapterLimits {
    pub closed spec fn spec_max_scoped_bindings(self) -> usize {
        self.max_scoped_bindings
    }

    pub closed spec fn spec_max_observations_per_snapshot(self) -> usize {
        self.max_observations_per_snapshot
    }

    pub closed spec fn spec_max_indexed_semantic_references(self) -> usize {
        self.max_indexed_semantic_references
    }

    pub closed spec fn spec_max_fanout_mappings(self) -> usize {
        self.max_fanout_mappings
    }

    pub closed spec fn spec_max_mapped_observations_per_snapshot(self) -> usize {
        self.max_mapped_observations_per_snapshot
    }

    pub fn new(
        max_scoped_bindings: usize,
        max_observations_per_snapshot: usize,
        max_indexed_semantic_references: usize,
        max_fanout_mappings: usize,
        max_mapped_observations_per_snapshot: usize,
    ) -> (r: Self)
        ensures
            r.spec_max_scoped_bindings() == max_scoped_bindings,
            r.spec_max_observations_per_snapshot() == max_observations_per_snapshot,
            r.spec_max_indexed_semantic_references() == max_indexed_semantic_references,
            r.spec_max_fanout_mappings() == max_fanout_mappings,
            r.spec_max_mapped_observations_per_snapshot() == max_mapped_observations_per_snapshot,
    {
        Self {
            max_scoped_bindings,
            max_observations_per_snapshot,
            max_indexed_semantic_references,
            max_fanout_mappings,
            max_mapped_observations_per_snapshot,
        }
    }
}

/// The stage of an adaptation at which an error arose.
#[derive(Debug, Clone, Copy, PartialEq, Eq, PartialOrd, Ord, Hash, Structural)]
pub enum SemanticBindingAdapterStage {
    ResourcePreflight,
    ScopeValidation,
    ReferenceIndexValidation,
    SnapshotStructuralValidation,
    DomainCarrierValidation,
    CanonicalObservationMapping,
}

/// What went wrong in an adaptation.
#[derive(Debug, Clone, Copy, PartialEq, Eq, PartialOrd, Ord, Hash, Structural)]
pub enum SemanticBindingAdapterErrorKind {
    ResourceLimitExceeded,
    DuplicateScopeBinding,
    UnknownScopeBinding,
    BindingMissingSemanticRef,
    IncompatibleFanoutDomain,
    DuplicateSemanticObservation,
    UnknownSemanticRef,
    ObservationOutOfScope,
    MissingQuadState,
    UnexpectedQuadState,
    FanoutLimitExceeded,
    MappedObservationLimitExceeded,
}

/// The code of each error kind.
pub open spec fn adapter_code_text(kind: SemanticBindingAdapterErrorKind) -> Seq<char> {
    match kind {
        SemanticBindingAdapterErrorKind::ResourceLimitExceeded => "BGSA_RESOURCE_LIMIT_EXCEEDED"@,
        SemanticBindingAdapterErrorKind::DuplicateScopeBinding => "BGSA_DUPLICATE_SCOPE_BINDING"@,
        SemanticBindingAdapterErrorKind::UnknownScopeBinding => "BGSA_UNKNOWN_SCOPE_BINDING"@,
        SemanticBindingAdapterErrorKind::BindingMissingSemanticRef => "BGSA_BINDING_MISSING_SEMANTIC_REF"@,
        SemanticBindingAdapterErrorKind::IncompatibleFanoutDomain => "BGSA_INCOMPATIBLE_FANOUT_DOMAIN"@,
        SemanticBindingAdapterErrorKind::DuplicateSemanticObservation => "BGSA_DUPLICATE_SEMANTIC_OBSERVATION"@,
        SemanticBindingAdapterErrorKind::UnknownSemanticRef => "BGSA_UNKNOWN_SEMANTIC_REF"@,
        SemanticBindingAdapterErrorKind::ObservationOutOfScope => "BGSA_OBSERVATION_OUT_OF_SCOPE"@,
        SemanticBindingAdapterErrorKind::MissingQuadState => "BGSA_MISSING_QUAD_STATE"@,
        SemanticBindingAdapterErrorKind::UnexpectedQuadState => "BGSA_UNEXPECTED_QUAD_STATE"@,
        SemanticBindingAdapterErrorKind::FanoutLimitExceeded => "BGSA_FANOUT_LIMIT_EXCEEDED"@,
        SemanticBindingAdapterErrorKind::MappedObservationLimitExceeded => "BGSA_MAPPED_OBSERVATION_LIMIT_EXCEEDED"@,
    }
}

impl SemanticBindingAdapterErrorKind {
    pub fn code(self) -> (r: &'static str)
        ensures
            r@ == adapter_code_text(self),
    {
        match self {
            Self::ResourceLimitExceeded => "BGSA_RESOURCE_LIMIT_EXCEEDED",
            Self::DuplicateScopeBinding => "BGSA_DUPLICATE_SCOPE_BINDING",
            Self::UnknownScopeBinding => "BGSA_UNKNOWN_SCOPE_BINDING",
            Self::BindingMissingSemanticRef => "BGSA_BINDING_MISSING_SEMANTIC_REF",
            Self::IncompatibleFanoutDomain => "BGSA_INCOMPATIBLE_FANOUT_DOMAIN",
            Self::DuplicateSemanticObservation => "BGSA_DUPLICATE_SEMANTIC_OBSERVATION",
            Self::UnknownSemanticRef => "BGSA_UNKNOWN_SEMANTIC_REF",
            Self::ObservationOutOfScope => "BGSA_OBSERVATION_OUT_OF_SCOPE",
            Self::MissingQuadState => "BGSA_MISSING_QUAD_STATE",
            Self::UnexpectedQuadState => "BGSA_UNEXPECTED_QUAD_STATE",
            Self::FanoutLimitExceeded => "BGSA_FANOUT_LIMIT_EXCEEDED",
            Self::MappedObservationLimitExceeded => "BGSA_MAPPED_OBSERVATION_LIMIT_EXCEEDED",
        }
    }
}

/// Which bound a limit error is about.
#[derive(Debug, Clone, Copy, PartialEq, Eq, PartialOrd, Ord, Hash, Structural)]
pub enum SemanticBindingAdapterLimitKind {
    ScopedBindings,
    PreviousObservations,
    CurrentObservations,
    CombinedInputs,
    IndexedSemanticReferences,
    FanoutMappings,
    MappedPreviousObservations,
    MappedCurrentObservations,
}

/// Which snapshot an error is about.
#[derive(Debug, Clone, Copy, PartialEq, Eq, PartialOrd, Ord, Hash, Structural)]
pub enum SemanticBindingSnapshotSide {
    Previous,
    Current,
}

/// An error of an adaptation.
#[derive(Debug, Clone, Copy, PartialEq, Eq, PartialOrd, Ord, Hash, Structural)]
pub struct SemanticBindingAdapterError {
    pub stage: SemanticBindingAdapterStage,
    pub kind: SemanticBindingAdapterErrorKind,
    pub snapshot_side: Option<SemanticBindingSnapshotSide>,
    pub semantic_value_ref: Option<SemanticValueRef>,
    pub binding_id: Option<BindingId>,
    pub limit_kind: Option<SemanticBindingAdapterLimitKind>,
    pub actual: Option<usize>,
    pub maximum: Option<usize>,
}

/// An error about a snapshot, a semantic value or a binding.
pub open spec fn adapter_content_error(
    stage: SemanticBindingAdapterStage,
    kind: SemanticBindingAdapterErrorKind,
    side: Option<SemanticBindingSnapshotSide>,
    semantic_value_ref: Option<SemanticValueRef>,
    binding_id: Option<BindingId>,
) -> SemanticBindingAdapterError {
    SemanticBindingAdapterError {
        stage,
        kind,
        snapshot_side: side,
        semantic_value_ref,
        binding_id,
        limit_kind: None,
        actual: None,
        maximum: None,
    }
}

/// An error about a bound that was passed.
pub open spec fn adapter_limit_error(
    stage: SemanticBindingAdapterStage,
    kind: SemanticBindingAdapterErrorKind,
    side: Option<SemanticBindingSnapshotSide>,
    semantic_value_ref: Option<SemanticValueRef>,
    binding_id: Option<BindingId>,
    limit_kind: SemanticBindingAdapterLimitKind,
    actual: usize,
    maximum: usize,
) -> SemanticBindingAdapterError {
    SemanticBindingAdapterError {
        stage,
        kind,
        snapshot_side: side,
        semantic_value_ref,
        binding_id,
        limit_kind: Some(limit_kind),
        actual: Some(actual),
        maximum: Some(maximum),
    }
}

impl SemanticBindingAdapterError {
    fn content(
        stage: SemanticBindingAdapterStage,
        kind: SemanticBindingAdapterErrorKind,
        side: Option<SemanticBindingSnapshotSide>,
        semantic_value_ref: Option<SemanticValueRef>,
        binding_id: Option<BindingId>,
    ) -> (r: Self)
        ensures
            r == adapter_content_error(stage, kind, side, semantic_value_ref, binding_id),
    {
        Self { stage, kind, snapshot_side: side, semantic_value_ref, binding_id, limit_kind: None, actual: None, maximum: None }
    }

    fn limit(
        stage: SemanticBindingAdapterStage,
        kind: SemanticBindingAdapterErrorKind,
        side: Option<SemanticBindingSnapshotSide>,
        semantic_value_ref: Option<SemanticValueRef>,
        binding_id: Option<BindingId>,
        limit: (SemanticBindingAdapterLimitKind, usize, usize),
    ) -> (r: Self)
        ensures
            r == adapter_limit_error(stage, kind, side, semantic_value_ref, binding_id, limit.0, limit.1, limit.2),
    {
        Self {
            stage,
            kind,
            snapshot_side: side,
            semantic_value_ref,
            binding_id,
            limit_kind: Some(limit.0),
            actual: Some(limit.1),
            maximum: Some(limit.2),
        }
    }

    pub fn stage(self) -> (r: SemanticBindingAdapterStage)
        ensures
            r == self.stage,
    {
        self.stage
    }

    pub fn kind(self) -> (r: SemanticBindingAdapterErrorKind)
        ensures
            r == self.kind,
    {
        self.kind
    }

    pub fn code(self) -> (r: &'static str)
        ensures
            r@ == adapter_code_text(self.kind),
    {
        self.kind.code()
    }

    pub fn snapshot_side(self) -> (r: Option<SemanticBindingSnapshotSide>)
        ensures
            r == self.snapshot_side,
    {
        self.snapshot_side
    }

    pub fn semantic_value_ref(self) -> (r: Option<SemanticValueRef>)
        ensures
            r == self.semantic_value_ref,
    {
        self.semantic_value_ref
    }

    pub fn binding_id(self) -> (r: Option<BindingId>)
        ensures
            r == self.binding_id,
    {
        self.binding_id
    }

    pub fn limit_kind(self) -> (r: Option<SemanticBindingAdapterLimitKind>)
        ensures
            r == self.limit_kind,
    {
        self.limit_kind
    }

    pub fn actual(self) -> (r: Option<usize>)
        ensures
            r == self.actual,
    {
        self.actual
    }

    pub fn maximum(self) -> (r: Option<usize>)
        ensures
            r == self.maximum,
    {
        self.maximum
    }
}

/// The adapted inputs of a dirty derivation.
#[derive(Debug, Clone, PartialEq, Eq)]
pub struct AdaptedBindingObservationInputs {
    scope: BindingObservationScope,
    previous: BindingObservationSet,
    current: BindingObservationSet,
    fanout_work: usize,
}

impl AdaptedBindingObservationInputs {
    pub closed spec fn spec_scope(&self) -> BindingObservationScope {
        self.scope
    }

    pub closed spec fn spec_previous(&self) -> BindingObservationSet {
        self.previous
    }

    pub closed spec fn spec_current(&self) -> BindingObservationSet {
        self.current
    }

    pub closed spec fn spec_fanout_work(&self) -> usize {
        self.fanout_work
    }

    pub fn scope(&self) -> (r: &BindingObservationScope)
        ensures
            *r == self.spec_scope(),
    {
        &self.scope
    }

    pub fn previous(&self) -> (r: &BindingObservationSet)
        ensures
            *r == self.spec_previous(),
    {
        &self.previous
    }

    pub fn current(&self) -> (r: &BindingObservationSet)
        ensures
            *r == self.spec_current(),
    {
        &self.current
    }

    pub fn fanout_work(&self) -> (r: usize)
        ensures
            r == self.spec_fanout_work(),
    {
        self.fanout_work
    }

    pub fn into_parts(self) -> (r: (BindingObservationScope, BindingObservationSet, BindingObservationSet))
        ensures
            r.0 == self.spec_scope(),
            r.1 == self.spec_previous(),
            r.2 == self.spec_current(),
    {
        (self.scope, self.previous, self.current)
    }
}

/// The position of a stage.
pub open spec fn adapter_stage_rank(s: SemanticBindingAdapterStage) -> int {
    match s {
        SemanticBindingAdapterStage::ResourcePreflight => 0,
        SemanticBindingAdapterStage::ScopeValidation => 1,
        SemanticBindingAdapterStage::ReferenceIndexValidation => 2,
        SemanticBindingAdapterStage::SnapshotStructuralValidation => 3,
        SemanticBindingAdapterStage::DomainCarrierValidation => 4,
        SemanticBindingAdapterStage::CanonicalObservationMapping => 5,
    }
}

/// The position of an error kind.
pub open spec fn adapter_kind_rank(k: SemanticBindingAdapterErrorKind) -> int {
    match k {
        SemanticBindingAdapterErrorKind::ResourceLimitExceeded => 0,
        SemanticBindingAdapterErrorKind::DuplicateScopeBinding => 1,
        SemanticBindingAdapterErrorKind::UnknownScopeBinding => 2,
        SemanticBindingAdapterErrorKind::BindingMissingSemanticRef => 3,
        SemanticBindingAdapterErrorKind::IncompatibleFanoutDomain => 4,
        SemanticBindingAdapterErrorKind::DuplicateSemanticObservation => 5,
        SemanticBindingAdapterErrorKind::UnknownSemanticRef => 6,
        SemanticBindingAdapterErrorKind::ObservationOutOfScope => 7,
        SemanticBindingAdapterErrorKind::MissingQuadState => 8,
        SemanticBindingAdapterErrorKind::UnexpectedQuadState => 9,
        SemanticBindingAdapterErrorKind::FanoutLimitExceeded => 10,
        SemanticBindingAdapterErrorKind::MappedObservationLimitExceeded => 11,
    }
}

/// The position of an optional snapshot side, absent first.
pub open spec fn side_value(s: Option<SemanticBindingSnapshotSide>) -> int {
    match s {
        None => 0,
        Some(SemanticBindingSnapshotSide::Previous) => 1,
        Some(SemanticBindingSnapshotSide::Current) => 2,
    }
}

/// The position of an optional limit kind, absent first.
pub open spec fn adapter_limit_value(l: Option<SemanticBindingAdapterLimitKind>) -> int {
    match l {
        None => 0,
        Some(SemanticBindingAdapterLimitKind::ScopedBindings) => 1,
        Some(SemanticBindingAdapterLimitKind::PreviousObservations) => 2,
        Some(SemanticBindingAdapterLimitKind::CurrentObservations) => 3,
        Some(SemanticBindingAdapterLimitKind::CombinedInputs) => 4,
        Some(SemanticBindingAdapterLimitKind::IndexedSemanticReferences) => 5,
        Some(SemanticBindingAdapterLimitKind::FanoutMappings) => 6,
        Some(SemanticBindingAdapterLimitKind::MappedPreviousObservations) => 7,
        Some(SemanticBindingAdapterLimitKind::MappedCurrentObservations) => 8,
    }
}

/// Whether an optional value is present.
pub open spec fn present<T>(o: Option<T>) -> int {
    if o is Some { 1 } else { 0 }
}

/// An optional semantic value's raw value, zero when absent.
pub open spec fn ref_value(o: Option<SemanticValueRef>) -> int {
    match o {
        None => 0,
        Some(r) => r.spec_raw() as int,
    }
}

/// An optional id's value, zero when absent.
pub open spec fn binding_value(o: Option<BindingId>) -> int {
    match o {
        None => 0,
        Some(id) => id.0 as int,
    }
}

/// An optional count, zero when absent.
pub open spec fn count_of(o: Option<usize>) -> int {
    match o {
        None => 0,
        Some(n) => n as int,
    }
}

/// The sort key of an error: its fields in declaration order, each absent
/// value first.
pub open spec fn adapter_error_key(e: SemanticBindingAdapterError) -> Seq<int> {
    seq![
        adapter_stage_rank(e.stage),
        adapter_kind_rank(e.kind),
        side_value(e.snapshot_side),
        present(e.semantic_value_ref),
        ref_value(e.semantic_value_ref),
        present(e.binding_id),
        binding_value(e.binding_id),
        adapter_limit_value(e.limit_kind),
        present(e.actual),
        count_of(e.actual),
        present(e.maximum),
        count_of(e.maximum),
    ]
}

/// The errors are strictly increasing in key order.
pub open spec fn adapter_errors_increasing(s: Seq<SemanticBindingAdapterError>) -> bool {
    forall|a: int, b: int| 0 <= a < b < s.len() ==> lex_order(adapter_error_key(s[a]), adapter_error_key(s[b])) < 0
}

/// `ds` are the errors of `es` in canonical form: sorted, each once.
pub open spec fn adapter_canonical_errors_of(ds: Seq<SemanticBindingAdapterError>, es: Set<SemanticBindingAdapterError>) -> bool {
    adapter_errors_increasing(ds) && ds.to_set() == es
}

/// Two semantic values with the same raw value are the same.
proof fn lemma_ref_raw_injective(a: SemanticValueRef, b: SemanticValueRef)
    requires
        a.spec_raw() == b.spec_raw(),
    ensures
        a == b,
{
    crate::semantic_refs::lemma_semantic_value_ref_raw_injective(a, b);
}

/// Errors with the same key are the same error.
proof fn lemma_adapter_error_key_injective(a: SemanticBindingAdapterError, b: SemanticBindingAdapterError)
    requires
        adapter_error_key(a) == adapter_error_key(b),
    ensures
        a == b,
{
    let (ka, kb) = (adapter_error_key(a), adapter_error_key(b));
    assert(ka[0] == kb[0] && ka[1] == kb[1] && ka[2] == kb[2] && ka[3] == kb[3]);
    assert(ka[4] == kb[4] && ka[5] == kb[5] && ka[6] == kb[6] && ka[7] == kb[7]);
    assert(ka[8] == kb[8] && ka[9] == kb[9] && ka[10] == kb[10] && ka[11] == kb[11]);
    if a.semantic_value_ref is Some {
        lemma_ref_raw_injective(a.semantic_value_ref->0, b.semantic_value_ref->0);
    }
    assert(a.semantic_value_ref == b.semantic_value_ref);
    assert(a.binding_id == b.binding_id);
    assert(a.actual == b.actual);
    assert(a.maximum == b.maximum);
}

fn stage_part(s: SemanticBindingAdapterStage) -> (r: u64)
    ensures
        r as int == adapter_stage_rank(s),
{
    match s {
        SemanticBindingAdapterStage::ResourcePreflight => 0,
        SemanticBindingAdapterStage::ScopeValidation => 1,
        SemanticBindingAdapterStage::ReferenceIndexValidation => 2,
        SemanticBindingAdapterStage::SnapshotStructuralValidation => 3,
        SemanticBindingAdapterStage::DomainCarrierValidation => 4,
        SemanticBindingAdapterStage::CanonicalObservationMapping => 5,
    }
}

fn kind_part(k: SemanticBindingAdapterErrorKind) -> (r: u64)
    ensures
        r as int == adapter_kind_rank(k),
{
    match k {
        SemanticBindingAdapterErrorKind::ResourceLimitExceeded => 0,
        SemanticBindingAdapterErrorKind::DuplicateScopeBinding => 1,
        SemanticBindingAdapterErrorKind::UnknownScopeBinding => 2,
        SemanticBindingAdapterErrorKind::BindingMissingSemanticRef => 3,
        SemanticBindingAdapterErrorKind::IncompatibleFanoutDomain => 4,
        SemanticBindingAdapterErrorKind::DuplicateSemanticObservation => 5,
        SemanticBindingAdapterErrorKind::UnknownSemanticRef => 6,
        SemanticBindingAdapterErrorKind::ObservationOutOfScope => 7,
        SemanticBindingAdapterErrorKind::MissingQuadState => 8,
        SemanticBindingAdapterErrorKind::UnexpectedQuadState => 9,
        SemanticBindingAdapterErrorKind::FanoutLimitExceeded => 10,
        SemanticBindingAdapterErrorKind::MappedObservationLimitExceeded => 11,
    }
}

fn side_part(s: Option<SemanticBindingSnapshotSide>) -> (r: u64)
    ensures
        r as int == side_value(s),
{
    match s {
        None => 0,
        Some(SemanticBindingSnapshotSide::Previous) => 1,
        Some(SemanticBindingSnapshotSide::Current) => 2,
    }
}

fn limit_part(l: Option<SemanticBindingAdapterLimitKind>) -> (r: u64)
    ensures
        r as int == adapter_limit_value(l),
{
    match l {
        None => 0,
        Some(SemanticBindingAdapterLimitKind::ScopedBindings) => 1,
        Some(SemanticBindingAdapterLimitKind::PreviousObservations) => 2,
        Some(SemanticBindingAdapterLimitKind::CurrentObservations) => 3,
        Some(SemanticBindingAdapterLimitKind::CombinedInputs) => 4,
        Some(SemanticBindingAdapterLimitKind::IndexedSemanticReferences) => 5,
        Some(SemanticBindingAdapterLimitKind::FanoutMappings) => 6,
        Some(SemanticBindingAdapterLimitKind::MappedPreviousObservations) => 7,
        Some(SemanticBindingAdapterLimitKind::MappedCurrentObservations) => 8,
    }
}

fn count_parts(o: Option<usize>) -> (r: (u64, u64))
    ensures
        r.0 as int == present(o),
        r.1 as int == count_of(o),
{
    match o {
        None => (0, 0),
        Some(n) => (1, n as u64),
    }
}

/// The key of an error as unsigned parts.
fn adapter_error_key_parts(e: SemanticBindingAdapterError) -> (k: Vec<u64>)
    ensures
        k@.map_values(|x: u64| x as int) == adapter_error_key(e),
{
    let (r0, r1): (u64, u64) = match e.semantic_value_ref {
        None => (0, 0),
        Some(r) => (1, r.raw()),
    };
    let (b0, b1): (u64, u64) = match e.binding_id {
        None => (0, 0),
        Some(id) => (1, id.0),
    };
    let (a0, a1) = count_parts(e.actual);
    let (m0, m1) = count_parts(e.maximum);
    let k = vec![stage_part(e.stage), kind_part(e.kind), side_part(e.snapshot_side), r0, r1, b0, b1, limit_part(e.limit_kind), a0, a1, m0, m1];
    assert(k@.map_values(|x: u64| x as int) =~= adapter_error_key(e));
    k
}

/// Compares two errors in key order.
fn compare_adapter_errors(a: SemanticBindingAdapterError, b: SemanticBindingAdapterError) -> (r: i8)
    ensures
        r == lex_order(adapter_error_key(a), adapter_error_key(b)),
{
    compare_u64_slices(adapter_error_key_parts(a).as_slice(), adapter_error_key_parts(b).as_slice())
}

/// Sorts errors by key, each once.
fn canonical_adapter_errors(raw: Vec<SemanticBindingAdapterError>) -> (r: Vec<SemanticBindingAdapterError>)
    ensures
        adapter_canonical_errors_of(r@, raw@.to_set()),
{
    let mut out: Vec<SemanticBindingAdapterError> = Vec::new();
    let mut i: usize = 0;
    proof {
        assert(out@.to_set() =~= raw@.take(0).to_set());
    }
    while i < raw.len()
        invariant
            i <= raw@.len(),
            adapter_errors_increasing(out@),
            out@.to_set() == raw@.take(i as int).to_set(),
        decreases raw@.len() - i,
    {
        let x = raw[i];
        proof {
            lemma_take_one_more_to_set(raw@, i as int);
        }
        let mut p: usize = 0;
        while p < out.len() && compare_adapter_errors(out[p], x) < 0
            invariant
                p <= out@.len(),
                forall|q: int| 0 <= q < p ==> lex_order(adapter_error_key(#[trigger] out@[q]), adapter_error_key(x)) < 0,
            decreases out@.len() - p,
        {
            p += 1;
        }
        if p < out.len() && compare_adapter_errors(out[p], x) == 0 {
            proof {
                lemma_lex_order_antisymmetric(adapter_error_key(out@[p as int]), adapter_error_key(x));
                lemma_adapter_error_key_injective(out@[p as int], x);
                assert(out@.contains(x));
                assert(out@.to_set().insert(x) =~= out@.to_set());
            }
        } else {
            let ghost old = out@;
            proof {
                lemma_insert_to_set(old, p as int, x);
                if p < old.len() {
                    lemma_lex_order_antisymmetric(adapter_error_key(old[p as int]), adapter_error_key(x));
                }
            }
            out.insert(p, x);
            proof {
                let n = out@;
                assert forall|a: int, b: int| 0 <= a < b < n.len() implies lex_order(adapter_error_key(n[a]), adapter_error_key(n[b])) < 0 by {
                    if a == p && b > p {
                        assert(n[b] == old[b - 1]);
                        if b - 1 > p {
                            lemma_lex_order_antisymmetric(adapter_error_key(x), adapter_error_key(old[p as int]));
                            lemma_lex_order_strict_transitive(adapter_error_key(x), adapter_error_key(old[p as int]), adapter_error_key(old[b - 1]));
                        }
                    } else if a < p && b == p {
                        assert(n[a] == old[a]);
                    } else if a < p && b > p {
                        assert(n[a] == old[a]);
                        assert(n[b] == old[b - 1]);
                        lemma_lex_order_antisymmetric(adapter_error_key(x), adapter_error_key(old[p as int]));
                        if b - 1 > p {
                            lemma_lex_order_strict_transitive(adapter_error_key(x), adapter_error_key(old[p as int]), adapter_error_key(old[b - 1]));
                        }
                        lemma_lex_order_strict_transitive(adapter_error_key(old[a]), adapter_error_key(x), adapter_error_key(old[b - 1]));
                    } else if a > p {
                        assert(n[a] == old[a - 1]);
                        assert(n[b] == old[b - 1]);
                    } else {
                        assert(n[a] == old[a]);
                        assert(n[b] == old[b]);
                    }
                }
            }
        }
        i += 1;
    }
    proof {
        assert(raw@.take(raw@.len() as int) =~= raw@);
    }
    out
}

/// The resource error when `actual` passes `maximum`.
pub open spec fn preflight_limit_errors(
    actual: usize,
    maximum: usize,
    kind: SemanticBindingAdapterLimitKind,
    side: Option<SemanticBindingSnapshotSide>,
) -> Seq<SemanticBindingAdapterError> {
    if actual > maximum {
        seq![adapter_limit_error(SemanticBindingAdapterStage::ResourcePreflight, SemanticBindingAdapterErrorKind::ResourceLimitExceeded, side, None, None, kind, actual, maximum)]
    } else {
        Seq::empty()
    }
}

/// The resource errors of the inputs: too many scoped bindings, previous or
/// current observations, or more inputs in all than can be counted.
pub open spec fn adapter_preflight_errors(scoped: usize, previous: usize, current: usize, limits: SemanticBindingAdapterLimits) -> Seq<SemanticBindingAdapterError> {
    preflight_limit_errors(scoped, limits.spec_max_scoped_bindings(), SemanticBindingAdapterLimitKind::ScopedBindings, None) + preflight_limit_errors(
        previous,
        limits.spec_max_observations_per_snapshot(),
        SemanticBindingAdapterLimitKind::PreviousObservations,
        Some(SemanticBindingSnapshotSide::Previous),
    ) + preflight_limit_errors(
        current,
        limits.spec_max_observations_per_snapshot(),
        SemanticBindingAdapterLimitKind::CurrentObservations,
        Some(SemanticBindingSnapshotSide::Current),
    ) + if scoped + previous + current > usize::MAX {
        seq![adapter_limit_error(SemanticBindingAdapterStage::ResourcePreflight, SemanticBindingAdapterErrorKind::ResourceLimitExceeded, None, None, None, SemanticBindingAdapterLimitKind::CombinedInputs, usize::MAX, usize::MAX)]
    } else {
        Seq::empty()
    }
}

fn push_preflight_limit(
    actual: usize,
    maximum: usize,
    limit_kind: SemanticBindingAdapterLimitKind,
    side: Option<SemanticBindingSnapshotSide>,
    errors: &mut Vec<SemanticBindingAdapterError>,
)
    ensures
        final(errors)@ == old(errors)@ + preflight_limit_errors(actual, maximum, limit_kind, side),
{
    if actual > maximum {
        errors.push(SemanticBindingAdapterError::limit(
            SemanticBindingAdapterStage::ResourcePreflight,
            SemanticBindingAdapterErrorKind::ResourceLimitExceeded,
            side,
            None,
            None,
            (limit_kind, actual, maximum),
        ));
    } else {
        assert(old(errors)@ + preflight_limit_errors(actual, maximum, limit_kind, side) =~= old(errors)@);
    }
}

fn resource_preflight(scoped: usize, previous: usize, current: usize, limits: SemanticBindingAdapterLimits) -> (r: Vec<SemanticBindingAdapterError>)
    ensures
        r@ == adapter_preflight_errors(scoped, previous, current, limits),
{
    let mut errors: Vec<SemanticBindingAdapterError> = Vec::new();
    push_preflight_limit(scoped, limits.max_scoped_bindings, SemanticBindingAdapterLimitKind::ScopedBindings, None, &mut errors);
    push_preflight_limit(
        previous,
        limits.max_observations_per_snapshot,
        SemanticBindingAdapterLimitKind::PreviousObservations,
        Some(SemanticBindingSnapshotSide::Previous),
        &mut errors,
    );
    push_preflight_limit(
        current,
        limits.max_observations_per_snapshot,
        SemanticBindingAdapterLimitKind::CurrentObservations,
        Some(SemanticBindingSnapshotSide::Current),
        &mut errors,
    );
    let combined = match scoped.checked_add(previous) {
        Some(count) => count.checked_add(current),
        None => None,
    };
    if combined.is_none() {
        errors.push(SemanticBindingAdapterError::limit(
            SemanticBindingAdapterStage::ResourcePreflight,
            SemanticBindingAdapterErrorKind::ResourceLimitExceeded,
            None,
            None,
            None,
            (SemanticBindingAdapterLimitKind::CombinedInputs, usize::MAX, usize::MAX),
        ));
    }
    proof {
        assert(errors@ =~= adapter_preflight_errors(scoped, previous, current, limits));
    }
    errors
}

/// The position of the first declaration with id `x`.
pub open spec fn first_pos(g: Seq<BindingDeclaration>, x: BindingId) -> int {
    choose|k: int| is_first_with_id(g, x, k)
}

/// The semantic value of the first declaration with id `x`.
pub open spec fn first_semantic_value(g: Seq<BindingDeclaration>, x: BindingId) -> Option<SemanticValueRef> {
    g[first_pos(g, x)].semantic_value
}

/// The domain of the first declaration with id `x`.
pub open spec fn first_domain(g: Seq<BindingDeclaration>, x: BindingId) -> BindingValueDomain {
    g[first_pos(g, x)].domain
}

/// `e` is an error of the scope: a binding given twice, unknown to the
/// graph, or whose first declaration carries no semantic value.
pub open spec fn scope_error(g: Seq<BindingDeclaration>, sc: Seq<BindingId>, e: SemanticBindingAdapterError) -> bool {
    match e.binding_id {
        None => false,
        Some(x) => {
            ||| e == adapter_content_error(SemanticBindingAdapterStage::ScopeValidation, SemanticBindingAdapterErrorKind::DuplicateScopeBinding, None, None, Some(x))
                && appears_twice(sc, x)
            ||| e == adapter_content_error(SemanticBindingAdapterStage::ScopeValidation, SemanticBindingAdapterErrorKind::UnknownScopeBinding, None, None, Some(x))
                && sc.contains(x) && !binding_declared(g, x)
            ||| e == adapter_content_error(SemanticBindingAdapterStage::ScopeValidation, SemanticBindingAdapterErrorKind::BindingMissingSemanticRef, None, None, Some(x))
                && sc.contains(x) && binding_declared(g, x) && first_semantic_value(g, x) is None
        },
    }
}

/// The first position of an id found by a search is the one the spec names.
proof fn lemma_first_pos_is(g: Seq<BindingDeclaration>, x: BindingId, k: int)
    requires
        is_first_with_id(g, x, k),
    ensures
        first_pos(g, x) == k,
{
    crate::binding_graph::lemma_first_with_id_unique(g, x, first_pos(g, x), k);
}

/// The errors of the scope, each at least once.
fn validate_scope(g: &Vec<BindingDeclaration>, sc: &[BindingId]) -> (r: Vec<SemanticBindingAdapterError>)
    ensures
        forall|e: SemanticBindingAdapterError| r@.contains(e) <==> scope_error(g@, sc@, e),
{
    let mut r: Vec<SemanticBindingAdapterError> = Vec::new();
    let mut a: usize = 0;
    while a < sc.len()
        invariant
            a <= sc@.len(),
            forall|e: SemanticBindingAdapterError| r@.contains(e) <==> match e.binding_id {
                None => false,
                Some(x) => {
                    ||| e == adapter_content_error(SemanticBindingAdapterStage::ScopeValidation, SemanticBindingAdapterErrorKind::DuplicateScopeBinding, None, None, Some(x))
                        && exists|p: int, q: int| 0 <= p < a && p < q < sc@.len() && #[trigger] sc@[p] == x && #[trigger] sc@[q] == x
                    ||| e == adapter_content_error(SemanticBindingAdapterStage::ScopeValidation, SemanticBindingAdapterErrorKind::UnknownScopeBinding, None, None, Some(x))
                        && sc@.take(a as int).contains(x) && !binding_declared(g@, x)
                    ||| e == adapter_content_error(SemanticBindingAdapterStage::ScopeValidation, SemanticBindingAdapterErrorKind::BindingMissingSemanticRef, None, None, Some(x))
                        && sc@.take(a as int).contains(x) && binding_declared(g@, x) && first_semantic_value(g@, x) is None
                },
            },
        decreases sc@.len() - a,
    {
        let x = sc[a];
        let mut twice = false;
        let mut b: usize = a + 1;
        while b < sc.len()
            invariant
                a < b <= sc@.len(),
                x == sc@[a as int],
                twice == exists|q: int| a < q < b && #[trigger] sc@[q] == x,
            decreases sc@.len() - b,
        {
            if sc[b] == x {
                twice = true;
            }
            b += 1;
        }
        let dup = SemanticBindingAdapterError::content(SemanticBindingAdapterStage::ScopeValidation, SemanticBindingAdapterErrorKind::DuplicateScopeBinding, None, None, Some(x));
        let unknown = SemanticBindingAdapterError::content(SemanticBindingAdapterStage::ScopeValidation, SemanticBindingAdapterErrorKind::UnknownScopeBinding, None, None, Some(x));
        let missing = SemanticBindingAdapterError::content(SemanticBindingAdapterStage::ScopeValidation, SemanticBindingAdapterErrorKind::BindingMissingSemanticRef, None, None, Some(x));
        let ghost r0 = r@;
        if twice {
            r.push(dup);
        }
        let ghost r1 = r@;
        let ghost mut found_first: Option<int> = None;
        match first_index_of(g, x) {
            None => {
                r.push(unknown);
            },
            Some(k) => {
                proof {
                    lemma_first_pos_is(g@, x, k as int);
                    found_first = Some(k as int);
                }
                if g[k].semantic_value.is_none() {
                    r.push(missing);
                }
            },
        }
        proof {
            lemma_take_one_more_contains(sc@, a as int, x);
            assert forall|e: SemanticBindingAdapterError| r@.contains(e) <==> match e.binding_id {
                None => false,
                Some(y) => {
                    ||| e == adapter_content_error(SemanticBindingAdapterStage::ScopeValidation, SemanticBindingAdapterErrorKind::DuplicateScopeBinding, None, None, Some(y))
                        && exists|p: int, q: int| 0 <= p < a + 1 && p < q < sc@.len() && #[trigger] sc@[p] == y && #[trigger] sc@[q] == y
                    ||| e == adapter_content_error(SemanticBindingAdapterStage::ScopeValidation, SemanticBindingAdapterErrorKind::UnknownScopeBinding, None, None, Some(y))
                        && sc@.take(a + 1).contains(y) && !binding_declared(g@, y)
                    ||| e == adapter_content_error(SemanticBindingAdapterStage::ScopeValidation, SemanticBindingAdapterErrorKind::BindingMissingSemanticRef, None, None, Some(y))
                        && sc@.take(a + 1).contains(y) && binding_declared(g@, y) && first_semantic_value(g@, y) is None
                },
            } by {
                if twice {
                    lemma_push_contains(r0, dup, e);
                } else {
                    assert(r1 == r0);
                }
                if r@.len() > r1.len() {
                    lemma_push_contains(r1, r@.last(), e);
                    assert(r@ == r1.push(r@.last()));
                } else {
                    assert(r@ == r1);
                }
                match e.binding_id {
                    None => {},
                    Some(y) => {
                        lemma_take_one_more_contains(sc@, a as int, y);
                        if e == dup && twice {
                            let q = choose|q: int| a < q < b && #[trigger] sc@[q] == x;
                            assert(sc@[a as int] == x && sc@[q] == x);
                        }
                        if exists|p: int, q: int| 0 <= p < a + 1 && p < q < sc@.len() && #[trigger] sc@[p] == y && #[trigger] sc@[q] == y {
                            let (p, q) = choose|p: int, q: int| 0 <= p < a + 1 && p < q < sc@.len() && #[trigger] sc@[p] == y && #[trigger] sc@[q] == y;
                            if p == a {
                                assert(sc@[q] == x);
                            }
                        }
                        if y == x {
                            match found_first {
                                None => {},
                                Some(k) => {
                                    assert(binding_declared(g@, x)) by {
                                        assert(g@[k].id == x);
                                    }
                                },
                            }
                        }
                    },
                }
            }
        }
        a += 1;
    }
    proof {
        assert(sc@.take(sc@.len() as int) =~= sc@);
        assert forall|e: SemanticBindingAdapterError| r@.contains(e) <==> scope_error(g@, sc@, e) by {
            match e.binding_id {
                None => {},
                Some(x) => {
                    if appears_twice(sc@, x) {
                        let (p, q) = choose|p: int, q: int| 0 <= p < q < sc@.len() && #[trigger] sc@[p] == x && #[trigger] sc@[q] == x;
                        assert(sc@[p] == x && sc@[q] == x);
                    }
                },
            }
        }
    }
    r
}

/// Some pair of `s` has semantic value `r`.
pub open spec fn ref_listed(s: Seq<(SemanticValueRef, BindingId)>, r: SemanticValueRef) -> bool {
    exists|k: int| 0 <= k < s.len() && #[trigger] s[k].0 == r
}

/// The distinct semantic values of the first `n` declarations, each with the
/// declaration that carries it first, in order of first appearance.
pub open spec fn indexed_refs(g: Seq<BindingDeclaration>, n: int) -> Seq<(SemanticValueRef, BindingId)>
    decreases n,
{
    if n <= 0 {
        Seq::empty()
    } else {
        let prev = indexed_refs(g, n - 1);
        match g[n - 1].semantic_value {
            Some(r) => if ref_listed(prev, r) {
                prev
            } else {
                prev.push((r, g[n - 1].id))
            },
            None => prev,
        }
    }
}

/// The values indexed from fewer declarations come first.
proof fn lemma_indexed_refs_prefix(g: Seq<BindingDeclaration>, i: int, j: int)
    requires
        0 <= i <= j,
    ensures
        indexed_refs(g, i).len() <= indexed_refs(g, j).len(),
        forall|k: int| 0 <= k < indexed_refs(g, i).len() ==> #[trigger] indexed_refs(g, j)[k] == indexed_refs(g, i)[k],
    decreases j - i,
{
    if i < j {
        lemma_indexed_refs_prefix(g, i, j - 1);
    }
}

/// Some declaration carries `r`.
pub open spec fn graph_has_ref(g: Seq<BindingDeclaration>, r: SemanticValueRef) -> bool {
    exists|k: int| 0 <= k < g.len() && #[trigger] g[k].semantic_value == Some(r)
}

/// A value is indexed exactly when some declaration carries it.
proof fn lemma_indexed_refs_cover(g: Seq<BindingDeclaration>, n: int, r: SemanticValueRef)
    requires
        0 <= n <= g.len(),
    ensures
        ref_listed(indexed_refs(g, n), r) <==> exists|k: int| 0 <= k < n && #[trigger] g[k].semantic_value == Some(r),
    decreases n,
{
    if n > 0 {
        lemma_indexed_refs_cover(g, n - 1, r);
        let prev = indexed_refs(g, n - 1);
        let cur = indexed_refs(g, n);
        if ref_listed(cur, r) {
            let k = choose|k: int| 0 <= k < cur.len() && #[trigger] cur[k].0 == r;
            if k < prev.len() {
                assert(cur[k] == prev[k]);
                assert(ref_listed(prev, r));
            } else {
                assert(g[n - 1].semantic_value == Some(r));
            }
        }
        if exists|k: int| 0 <= k < n && #[trigger] g[k].semantic_value == Some(r) {
            let k = choose|k: int| 0 <= k < n && #[trigger] g[k].semantic_value == Some(r);
            if k < n - 1 {
                let m = choose|m: int| 0 <= m < prev.len() && #[trigger] prev[m].0 == r;
                lemma_indexed_refs_prefix(g, n - 1, n);
                assert(cur[m] == prev[m]);
            } else if !ref_listed(prev, r) {
                assert(cur[prev.len() as int].0 == r);
            } else {
                let m = choose|m: int| 0 <= m < prev.len() && #[trigger] prev[m].0 == r;
                lemma_indexed_refs_prefix(g, n - 1, n);
                assert(cur[m] == prev[m]);
            }
        }
    }
}

/// The limit error when the graph carries more distinct semantic values than
/// the index may hold: it names the first value past the limit.
pub open spec fn reference_index_error(g: Seq<BindingDeclaration>, maximum: usize) -> Option<SemanticBindingAdapterError> {
    let all = indexed_refs(g, g.len() as int);
    if all.len() > maximum {
        Some(adapter_limit_error(
            SemanticBindingAdapterStage::ReferenceIndexValidation,
            SemanticBindingAdapterErrorKind::ResourceLimitExceeded,
            None,
            Some(all[maximum as int].0),
            Some(all[maximum as int].1),
            SemanticBindingAdapterLimitKind::IndexedSemanticReferences,
            (maximum + 1) as usize,
            maximum,
        ))
    } else {
        None
    }
}

/// Indexes the semantic values the graph carries, failing past the limit.
fn index_graph_references(g: &Vec<BindingDeclaration>, maximum: usize) -> (r: Result<Vec<(SemanticValueRef, BindingId)>, SemanticBindingAdapterError>)
    ensures
        match r {
            Ok(refs) => reference_index_error(g@, maximum) is None && refs@ == indexed_refs(g@, g@.len() as int),
            Err(e) => reference_index_error(g@, maximum) == Some(e),
        },
{
    let mut refs: Vec<(SemanticValueRef, BindingId)> = Vec::new();
    let mut i: usize = 0;
    while i < g.len()
        invariant
            i <= g@.len(),
            refs@ == indexed_refs(g@, i as int),
            refs@.len() <= maximum,
            refs@.len() <= i,
        decreases g@.len() - i,
    {
        match g[i].semantic_value {
            None => {},
            Some(r) => {
                let mut known = false;
                let mut k: usize = 0;
                while k < refs.len()
                    invariant
                        k <= refs@.len(),
                        known == exists|m: int| 0 <= m < k && #[trigger] refs@[m].0 == r,
                    decreases refs@.len() - k,
                {
                    if refs[k].0 == r {
                        known = true;
                    }
                    k += 1;
                }
                if !known {
                    let actual = saturating_add(refs.len(), 1);
                    if actual > maximum {
                        proof {
                            lemma_indexed_refs_prefix(g@, i + 1, g@.len() as int);
                            assert(indexed_refs(g@, i + 1) == refs@.push((r, g@[i as int].id)));
                        }
                        return Err(SemanticBindingAdapterError::limit(
                            SemanticBindingAdapterStage::ReferenceIndexValidation,
                            SemanticBindingAdapterErrorKind::ResourceLimitExceeded,
                            None,
                            Some(r),
                            Some(g[i].id),
                            (SemanticBindingAdapterLimitKind::IndexedSemanticReferences, actual, maximum),
                        ));
                    }
                    refs.push((r, g[i].id));
                }
            },
        }
        i += 1;
    }
    Ok(refs)
}

/// Every scoped binding is declared, and its first declaration carries a
/// semantic value.
pub open spec fn scope_carries_values(g: Seq<BindingDeclaration>, s: Seq<BindingId>) -> bool {
    forall|q: int| 0 <= q < s.len() ==> binding_declared(g, #[trigger] s[q]) && first_semantic_value(g, s[q]) is Some
}

/// The limit error when more bindings are scoped than the fanout may map:
/// it names the first scoped binding past the limit, in increasing order.
pub open spec fn fanout_limit_error(g: Seq<BindingDeclaration>, ss: Seq<BindingId>, maximum: usize) -> Option<SemanticBindingAdapterError> {
    if ss.len() > maximum {
        Some(adapter_limit_error(
            SemanticBindingAdapterStage::ReferenceIndexValidation,
            SemanticBindingAdapterErrorKind::FanoutLimitExceeded,
            None,
            first_semantic_value(g, ss[maximum as int]),
            Some(ss[maximum as int]),
            SemanticBindingAdapterLimitKind::FanoutMappings,
            (maximum + 1) as usize,
            maximum,
        ))
    } else {
        None
    }
}

/// What the fanout holds of a scoped binding: its id, domain and value.
pub open spec fn fanout_entry(g: Seq<BindingDeclaration>, x: BindingId) -> (BindingId, BindingValueDomain, SemanticValueRef) {
    (x, first_domain(g, x), first_semantic_value(g, x)->0)
}

/// Maps each scoped binding, in increasing order, to its domain and
/// semantic value, failing past the limit.
fn build_scoped_fanout(g: &Vec<BindingDeclaration>, ss: &Vec<BindingId>, maximum: usize) -> (r: Result<
    Vec<(BindingId, BindingValueDomain, SemanticValueRef)>,
    SemanticBindingAdapterError,
>)
    requires
        scope_carries_values(g@, ss@),
    ensures
        match r {
            Ok(entries) => fanout_limit_error(g@, ss@, maximum) is None && entries@ == ss@.map_values(|x: BindingId| fanout_entry(g@, x)),
            Err(e) => fanout_limit_error(g@, ss@, maximum) == Some(e),
        },
{
    let mut entries: Vec<(BindingId, BindingValueDomain, SemanticValueRef)> = Vec::new();
    let mut q: usize = 0;
    while q < ss.len()
        invariant
            q <= ss@.len(),
            q <= maximum,
            scope_carries_values(g@, ss@),
            entries@ == ss@.take(q as int).map_values(|x: BindingId| fanout_entry(g@, x)),
        decreases ss@.len() - q,
    {
        let x = ss[q];
        proof {
            assert(binding_declared(g@, ss@[q as int]));
        }
        let k = first_position(g, x);
        proof {
            lemma_first_pos_is(g@, x, k as int);
        }
        proof {
            assert(first_semantic_value(g@, ss@[q as int]) is Some);
        }
        let r = g[k].semantic_value.unwrap();
        if q + 1 > maximum {
            return Err(SemanticBindingAdapterError::limit(
                SemanticBindingAdapterStage::ReferenceIndexValidation,
                SemanticBindingAdapterErrorKind::FanoutLimitExceeded,
                None,
                Some(r),
                Some(x),
                (SemanticBindingAdapterLimitKind::FanoutMappings, q + 1, maximum),
            ));
        }
        entries.push((x, g[k].domain, r));
        proof {
            assert(ss@.take(q + 1).map_values(|x: BindingId| fanout_entry(g@, x)) =~= ss@.take(q as int).map_values(|x: BindingId| fanout_entry(g@, x)).push(fanout_entry(g@, x)));
        }
        q += 1;
    }
    proof {
        assert(ss@.take(ss@.len() as int) =~= ss@);
    }
    Ok(entries)
}

/// Scoped bindings of both the quad domain and another domain carry `r`.
pub open spec fn mixed_fanout(g: Seq<BindingDeclaration>, sc: Seq<BindingId>, r: SemanticValueRef) -> bool {
    exists|x: BindingId, y: BindingId|
        #![trigger sc.contains(x), sc.contains(y)]
        sc.contains(x) && sc.contains(y) && first_semantic_value(g, x) == Some(r) && first_semantic_value(g, y) == Some(r)
            && first_domain(g, x) == BindingValueDomain::Quad && first_domain(g, y) != BindingValueDomain::Quad
}

/// `e` is a fanout error: a semantic value carried by scoped bindings of the
/// quad domain and of another.
pub open spec fn fanout_domain_error(g: Seq<BindingDeclaration>, sc: Seq<BindingId>, e: SemanticBindingAdapterError) -> bool {
    match e.semantic_value_ref {
        None => false,
        Some(r) => e == adapter_content_error(
            SemanticBindingAdapterStage::ReferenceIndexValidation,
            SemanticBindingAdapterErrorKind::IncompatibleFanoutDomain,
            None,
            Some(r),
            None,
        ) && mixed_fanout(g, sc, r),
    }
}

/// The fanout errors, each at least once.
fn fanout_domain_errors(g: &Vec<BindingDeclaration>, ss: &Vec<BindingId>, entries: &Vec<(BindingId, BindingValueDomain, SemanticValueRef)>) -> (r: Vec<SemanticBindingAdapterError>)
    requires
        scope_carries_values(g@, ss@),
        entries@ == ss@.map_values(|x: BindingId| fanout_entry(g@, x)),
    ensures
        forall|e: SemanticBindingAdapterError| r@.contains(e) <==> fanout_domain_error(g@, ss@, e),
{
    let mut r: Vec<SemanticBindingAdapterError> = Vec::new();
    let mut i: usize = 0;
    while i < entries.len()
        invariant
            i <= entries@.len(),
            entries@.len() == ss@.len(),
            scope_carries_values(g@, ss@),
            entries@ == ss@.map_values(|x: BindingId| fanout_entry(g@, x)),
            forall|e: SemanticBindingAdapterError| r@.contains(e) <==> match e.semantic_value_ref {
                None => false,
                Some(v) => e == adapter_content_error(
                    SemanticBindingAdapterStage::ReferenceIndexValidation,
                    SemanticBindingAdapterErrorKind::IncompatibleFanoutDomain,
                    None,
                    Some(v),
                    None,
                ) && exists|a: int, b: int| #![trigger ss@[a], ss@[b]] 0 <= a < i && 0 <= b < ss@.len()
                    && first_semantic_value(g@, ss@[a]) == Some(v) && first_semantic_value(g@, ss@[b]) == Some(v)
                    && first_domain(g@, ss@[a]) == BindingValueDomain::Quad && first_domain(g@, ss@[b]) != BindingValueDomain::Quad,
            },
        decreases entries@.len() - i,
    {
        let (xi, di, ri) = entries[i];
        let mut mixed = false;
        if di == BindingValueDomain::Quad {
            let mut j: usize = 0;
            while j < entries.len()
                invariant
                    j <= entries@.len(),
                    entries@.len() == ss@.len(),
                    entries@ == ss@.map_values(|x: BindingId| fanout_entry(g@, x)),
                    mixed == exists|b: int| 0 <= b < j && #[trigger] entries@[b].2 == ri && entries@[b].1 != BindingValueDomain::Quad,
                decreases entries@.len() - j,
            {
                if entries[j].2 == ri && entries[j].1 != BindingValueDomain::Quad {
                    mixed = true;
                }
                j += 1;
            }
        }
        let err = SemanticBindingAdapterError::content(
            SemanticBindingAdapterStage::ReferenceIndexValidation,
            SemanticBindingAdapterErrorKind::IncompatibleFanoutDomain,
            None,
            Some(ri),
            None,
        );
        let ghost old = r@;
        if mixed {
            r.push(err);
        }
        proof {
            let ii = i as int;
            assert(entries@[ii] == fanout_entry(g@, ss@[ii]));
            assert(binding_declared(g@, ss@[ii]) && first_semantic_value(g@, ss@[ii]) is Some);
            assert forall|e: SemanticBindingAdapterError| r@.contains(e) <==> match e.semantic_value_ref {
                None => false,
                Some(v) => e == adapter_content_error(
                    SemanticBindingAdapterStage::ReferenceIndexValidation,
                    SemanticBindingAdapterErrorKind::IncompatibleFanoutDomain,
                    None,
                    Some(v),
                    None,
                ) && exists|a: int, b: int| #![trigger ss@[a], ss@[b]] 0 <= a < i + 1 && 0 <= b < ss@.len()
                    && first_semantic_value(g@, ss@[a]) == Some(v) && first_semantic_value(g@, ss@[b]) == Some(v)
                    && first_domain(g@, ss@[a]) == BindingValueDomain::Quad && first_domain(g@, ss@[b]) != BindingValueDomain::Quad,
            } by {
                if mixed {
                    lemma_push_contains(old, err, e);
                    let b = choose|b: int| 0 <= b < entries@.len() && #[trigger] entries@[b].2 == ri && entries@[b].1 != BindingValueDomain::Quad;
                    assert(entries@[b] == fanout_entry(g@, ss@[b]));
                    assert(binding_declared(g@, ss@[b]) && first_semantic_value(g@, ss@[b]) is Some);
                } else {
                    assert(r@ == old);
                }
                match e.semantic_value_ref {
                    None => {},
                    Some(v) => {
                        if exists|a: int, b: int| #![trigger ss@[a], ss@[b]] 0 <= a < i + 1 && 0 <= b < ss@.len()
                            && first_semantic_value(g@, ss@[a]) == Some(v) && first_semantic_value(g@, ss@[b]) == Some(v)
                            && first_domain(g@, ss@[a]) == BindingValueDomain::Quad && first_domain(g@, ss@[b]) != BindingValueDomain::Quad {
                            let (a, b) = choose|a: int, b: int| #![trigger ss@[a], ss@[b]] 0 <= a < i + 1 && 0 <= b < ss@.len()
                                && first_semantic_value(g@, ss@[a]) == Some(v) && first_semantic_value(g@, ss@[b]) == Some(v)
                                && first_domain(g@, ss@[a]) == BindingValueDomain::Quad && first_domain(g@, ss@[b]) != BindingValueDomain::Quad;
                            if a == i {
                                assert(entries@[b] == fanout_entry(g@, ss@[b]));
                                assert(entries@[b].2 == ri && entries@[b].1 != BindingValueDomain::Quad);
                            }
                        }
                    },
                }
            }
        }
        i += 1;
    }
    proof {
        assert forall|e: SemanticBindingAdapterError| r@.contains(e) <==> fanout_domain_error(g@, ss@, e) by {
            match e.semantic_value_ref {
                None => {},
                Some(v) => {
                    if exists|a: int, b: int| #![trigger ss@[a], ss@[b]] 0 <= a < entries@.len() && 0 <= b < ss@.len()
                        && first_semantic_value(g@, ss@[a]) == Some(v) && first_semantic_value(g@, ss@[b]) == Some(v)
                        && first_domain(g@, ss@[a]) == BindingValueDomain::Quad && first_domain(g@, ss@[b]) != BindingValueDomain::Quad {
                        let (a, b) = choose|a: int, b: int| #![trigger ss@[a], ss@[b]] 0 <= a < entries@.len() && 0 <= b < ss@.len()
                            && first_semantic_value(g@, ss@[a]) == Some(v) && first_semantic_value(g@, ss@[b]) == Some(v)
                            && first_domain(g@, ss@[a]) == BindingValueDomain::Quad && first_domain(g@, ss@[b]) != BindingValueDomain::Quad;
                        assert(ss@.contains(ss@[a]));
                        assert(ss@.contains(ss@[b]));
                    }
                    if mixed_fanout(g@, ss@, v) {
                        let (x, y) = choose|x: BindingId, y: BindingId|
                            #![trigger ss@.contains(x), ss@.contains(y)]
                            ss@.contains(x) && ss@.contains(y) && first_semantic_value(g@, x) == Some(v) && first_semantic_value(g@, y) == Some(v)
                                && first_domain(g@, x) == BindingValueDomain::Quad && first_domain(g@, y) != BindingValueDomain::Quad;
                        let a = choose|a: int| 0 <= a < ss@.len() && ss@[a] == x;
                        let b = choose|b: int| 0 <= b < ss@.len() && ss@[b] == y;
                        assert(first_semantic_value(g@, ss@[a]) == Some(v) && first_semantic_value(g@, ss@[b]) == Some(v));
                    }
                },
            }
        }
    }
    r
}

/// The semantic values observed, in order.
pub open spec fn observed_refs(obs: Seq<SemanticBindingObservation>) -> Seq<SemanticValueRef> {
    obs.map_values(|o: SemanticBindingObservation| o.spec_semantic_value_ref())
}

/// Value `r` is observed at least twice.
pub open spec fn ref_twice(refs: Seq<SemanticValueRef>, r: SemanticValueRef) -> bool {
    exists|a: int, b: int| 0 <= a < b < refs.len() && #[trigger] refs[a] == r && #[trigger] refs[b] == r
}

/// Some scoped binding's first declaration carries `r`.
pub open spec fn scoped_ref(g: Seq<BindingDeclaration>, sc: Seq<BindingId>, r: SemanticValueRef) -> bool {
    exists|x: BindingId| #[trigger] sc.contains(x) && binding_declared(g, x) && first_semantic_value(g, x) == Some(r)
}

/// `e` is a structural error of one snapshot: a value observed twice, unknown
/// to the graph, or carried by no scoped binding.
pub open spec fn snapshot_error(
    g: Seq<BindingDeclaration>,
    sc: Seq<BindingId>,
    obs: Seq<SemanticBindingObservation>,
    side: SemanticBindingSnapshotSide,
    e: SemanticBindingAdapterError,
) -> bool {
    match e.semantic_value_ref {
        None => false,
        Some(r) => {
            ||| e == adapter_content_error(SemanticBindingAdapterStage::SnapshotStructuralValidation, SemanticBindingAdapterErrorKind::DuplicateSemanticObservation, Some(side), Some(r), None)
                && ref_twice(observed_refs(obs), r)
            ||| e == adapter_content_error(SemanticBindingAdapterStage::SnapshotStructuralValidation, SemanticBindingAdapterErrorKind::UnknownSemanticRef, Some(side), Some(r), None)
                && observed_refs(obs).contains(r) && !graph_has_ref(g, r)
            ||| e == adapter_content_error(SemanticBindingAdapterStage::SnapshotStructuralValidation, SemanticBindingAdapterErrorKind::ObservationOutOfScope, Some(side), Some(r), None)
                && observed_refs(obs).contains(r) && graph_has_ref(g, r) && !scoped_ref(g, sc, r)
        },
    }
}

/// Whether some entry of the fanout carries `r`, and the first that does.
fn fanout_lookup(entries: &Vec<(BindingId, BindingValueDomain, SemanticValueRef)>, r: SemanticValueRef) -> (k: Option<usize>)
    ensures
        match k {
            Some(k) => k < entries@.len() && entries@[k as int].2 == r && forall|m: int| 0 <= m < k ==> #[trigger] entries@[m].2 != r,
            None => forall|m: int| 0 <= m < entries@.len() ==> #[trigger] entries@[m].2 != r,
        },
{
    let mut k: usize = 0;
    while k < entries.len()
        invariant
            k <= entries@.len(),
            forall|m: int| 0 <= m < k ==> #[trigger] entries@[m].2 != r,
        decreases entries@.len() - k,
    {
        if entries[k].2 == r {
            return Some(k);
        }
        k += 1;
    }
    None
}

/// A value is scoped exactly when some fanout entry carries it.
proof fn lemma_fanout_scoped(g: Seq<BindingDeclaration>, ss: Seq<BindingId>, entries: Seq<(BindingId, BindingValueDomain, SemanticValueRef)>, r: SemanticValueRef)
    requires
        scope_carries_values(g, ss),
        entries == ss.map_values(|x: BindingId| fanout_entry(g, x)),
    ensures
        scoped_ref(g, ss, r) <==> exists|m: int| 0 <= m < entries.len() && #[trigger] entries[m].2 == r,
{
    if scoped_ref(g, ss, r) {
        let x = choose|x: BindingId| #[trigger] ss.contains(x) && binding_declared(g, x) && first_semantic_value(g, x) == Some(r);
        let m = choose|m: int| 0 <= m < ss.len() && ss[m] == x;
        assert(entries[m] == fanout_entry(g, ss[m]));
        assert(entries[m].2 == r);
    }
    if exists|m: int| 0 <= m < entries.len() && #[trigger] entries[m].2 == r {
        let m = choose|m: int| 0 <= m < entries.len() && #[trigger] entries[m].2 == r;
        assert(entries[m] == fanout_entry(g, ss[m]));
        assert(binding_declared(g, ss[m]) && first_semantic_value(g, ss[m]) is Some);
        assert(first_semantic_value(g, ss[m]) == Some(r));
        assert(ss.contains(ss[m]));
        assert(ss.contains(ss[m]) && binding_declared(g, ss[m]) && first_semantic_value(g, ss[m]) == Some(r));
    }
}

/// The structural errors of one snapshot, each at least once.
fn validate_snapshot_structure(
    g: &Vec<BindingDeclaration>,
    ss: &Vec<BindingId>,
    refs: &Vec<(SemanticValueRef, BindingId)>,
    entries: &Vec<(BindingId, BindingValueDomain, SemanticValueRef)>,
    obs: &[SemanticBindingObservation],
    side: SemanticBindingSnapshotSide,
) -> (r: Vec<SemanticBindingAdapterError>)
    requires
        scope_carries_values(g@, ss@),
        refs@ == indexed_refs(g@, g@.len() as int),
        entries@ == ss@.map_values(|x: BindingId| fanout_entry(g@, x)),
    ensures
        forall|e: SemanticBindingAdapterError| r@.contains(e) <==> snapshot_error(g@, ss@, obs@, side, e),
{
    let ghost rs = observed_refs(obs@);
    let mut r: Vec<SemanticBindingAdapterError> = Vec::new();
    let mut a: usize = 0;
    while a < obs.len()
        invariant
            a <= obs@.len(),
            rs == observed_refs(obs@),
            scope_carries_values(g@, ss@),
            refs@ == indexed_refs(g@, g@.len() as int),
            entries@ == ss@.map_values(|x: BindingId| fanout_entry(g@, x)),
            forall|e: SemanticBindingAdapterError| r@.contains(e) <==> match e.semantic_value_ref {
                None => false,
                Some(v) => {
                    ||| e == adapter_content_error(SemanticBindingAdapterStage::SnapshotStructuralValidation, SemanticBindingAdapterErrorKind::DuplicateSemanticObservation, Some(side), Some(v), None)
                        && exists|p: int, q: int| 0 <= p < a && p < q < rs.len() && #[trigger] rs[p] == v && #[trigger] rs[q] == v
                    ||| e == adapter_content_error(SemanticBindingAdapterStage::SnapshotStructuralValidation, SemanticBindingAdapterErrorKind::UnknownSemanticRef, Some(side), Some(v), None)
                        && rs.take(a as int).contains(v) && !graph_has_ref(g@, v)
                    ||| e == adapter_content_error(SemanticBindingAdapterStage::SnapshotStructuralValidation, SemanticBindingAdapterErrorKind::ObservationOutOfScope, Some(side), Some(v), None)
                        && rs.take(a as int).contains(v) && graph_has_ref(g@, v) && !scoped_ref(g@, ss@, v)
                },
            },
        decreases obs@.len() - a,
    {
        let v = obs[a].semantic_value_ref;
        proof {
            assert(rs[a as int] == v);
        }
        let mut twice = false;
        let mut b: usize = a + 1;
        while b < obs.len()
            invariant
                a < b <= obs@.len(),
                rs == observed_refs(obs@),
                v == rs[a as int],
                twice == exists|q: int| a < q < b && #[trigger] rs[q] == v,
            decreases obs@.len() - b,
        {
            if obs[b].semantic_value_ref == v {
                twice = true;
            }
            proof {
                assert(rs[b as int] == obs@[b as int].spec_semantic_value_ref());
            }
            b += 1;
        }
        let mut known = false;
        let mut k: usize = 0;
        while k < refs.len()
            invariant
                k <= refs@.len(),
                known == exists|m: int| 0 <= m < k && #[trigger] refs@[m].0 == v,
            decreases refs@.len() - k,
        {
            if refs[k].0 == v {
                known = true;
            }
            k += 1;
        }
        let scoped = fanout_lookup(entries, v).is_some();
        proof {
            lemma_indexed_refs_cover(g@, g@.len() as int, v);
            lemma_fanout_scoped(g@, ss@, entries@, v);
        }
        let dup = SemanticBindingAdapterError::content(SemanticBindingAdapterStage::SnapshotStructuralValidation, SemanticBindingAdapterErrorKind::DuplicateSemanticObservation, Some(side), Some(v), None);
        let unknown = SemanticBindingAdapterError::content(SemanticBindingAdapterStage::SnapshotStructuralValidation, SemanticBindingAdapterErrorKind::UnknownSemanticRef, Some(side), Some(v), None);
        let outside = SemanticBindingAdapterError::content(SemanticBindingAdapterStage::SnapshotStructuralValidation, SemanticBindingAdapterErrorKind::ObservationOutOfScope, Some(side), Some(v), None);
        let ghost r0 = r@;
        if twice {
            r.push(dup);
        }
        let ghost r1 = r@;
        if !known {
            r.push(unknown);
        } else if !scoped {
            r.push(outside);
        }
        proof {
            assert forall|e: SemanticBindingAdapterError| r@.contains(e) <==> match e.semantic_value_ref {
                None => false,
                Some(w) => {
                    ||| e == adapter_content_error(SemanticBindingAdapterStage::SnapshotStructuralValidation, SemanticBindingAdapterErrorKind::DuplicateSemanticObservation, Some(side), Some(w), None)
                        && exists|p: int, q: int| 0 <= p < a + 1 && p < q < rs.len() && #[trigger] rs[p] == w && #[trigger] rs[q] == w
                    ||| e == adapter_content_error(SemanticBindingAdapterStage::SnapshotStructuralValidation, SemanticBindingAdapterErrorKind::UnknownSemanticRef, Some(side), Some(w), None)
                        && rs.take(a + 1).contains(w) && !graph_has_ref(g@, w)
                    ||| e == adapter_content_error(SemanticBindingAdapterStage::SnapshotStructuralValidation, SemanticBindingAdapterErrorKind::ObservationOutOfScope, Some(side), Some(w), None)
                        && rs.take(a + 1).contains(w) && graph_has_ref(g@, w) && !scoped_ref(g@, ss@, w)
                },
            } by {
                if twice {
                    lemma_push_contains(r0, dup, e);
                } else {
                    assert(r1 == r0);
                }
                if r@.len() > r1.len() {
                    assert(r@ == r1.push(r@.last()));
                    lemma_push_contains(r1, r@.last(), e);
                } else {
                    assert(r@ == r1);
                }
                match e.semantic_value_ref {
                    None => {},
                    Some(w) => {
                        lemma_take_one_more_contains(rs, a as int, w);
                        if e == dup && twice {
                            let q = choose|q: int| a < q < b && #[trigger] rs[q] == v;
                            assert(rs[a as int] == v && rs[q] == v);
                        }
                        if exists|p: int, q: int| 0 <= p < a + 1 && p < q < rs.len() && #[trigger] rs[p] == w && #[trigger] rs[q] == w {
                            let (p, q) = choose|p: int, q: int| 0 <= p < a + 1 && p < q < rs.len() && #[trigger] rs[p] == w && #[trigger] rs[q] == w;
                            if p == a {
                                assert(rs[q] == v);
                            }
                        }
                        if w == v {
                            if known {
                                let m = choose|m: int| 0 <= m < refs@.len() && #[trigger] refs@[m].0 == v;
                                assert(ref_listed(refs@, v));
                            } else {
                                if ref_listed(refs@, v) {
                                    let m = choose|m: int| 0 <= m < refs@.len() && #[trigger] refs@[m].0 == v;
                                }
                            }
                        }
                    },
                }
            }
        }
        a += 1;
    }
    proof {
        assert(rs.take(rs.len() as int) =~= rs);
        assert forall|e: SemanticBindingAdapterError| r@.contains(e) <==> snapshot_error(g@, ss@, obs@, side, e) by {
            match e.semantic_value_ref {
                None => {},
                Some(v) => {
                    if ref_twice(rs, v) {
                        let (p, q) = choose|p: int, q: int| 0 <= p < q < rs.len() && #[trigger] rs[p] == v && #[trigger] rs[q] == v;
                        assert(rs[p] == v && rs[q] == v);
                    }
                },
            }
        }
    }
    r
}

/// Some scoped binding of the quad domain carries `r`.
pub open spec fn carrier_is_quad(g: Seq<BindingDeclaration>, sc: Seq<BindingId>, r: SemanticValueRef) -> bool {
    exists|x: BindingId| #[trigger] sc.contains(x) && binding_declared(g, x) && first_semantic_value(g, x) == Some(r)
        && first_domain(g, x) == BindingValueDomain::Quad
}

/// Some observation of `r` carries a quad state, or none, as `with_quad` says.
pub open spec fn observed_ref_with(obs: Seq<SemanticBindingObservation>, r: SemanticValueRef, with_quad: bool) -> bool {
    exists|k: int| 0 <= k < obs.len() && #[trigger] obs[k].spec_semantic_value_ref() == r && (obs[k].spec_quad_state() is Some) == with_quad
}

/// `e` is a domain error of one snapshot: a value carried by quad bindings
/// observed without a quad state, or one carried by other bindings observed
/// with one.
pub open spec fn carrier_error(
    g: Seq<BindingDeclaration>,
    sc: Seq<BindingId>,
    obs: Seq<SemanticBindingObservation>,
    side: SemanticBindingSnapshotSide,
    e: SemanticBindingAdapterError,
) -> bool {
    match e.semantic_value_ref {
        None => false,
        Some(r) => {
            ||| e == adapter_content_error(SemanticBindingAdapterStage::DomainCarrierValidation, SemanticBindingAdapterErrorKind::MissingQuadState, Some(side), Some(r), None)
                && observed_ref_with(obs, r, false) && carrier_is_quad(g, sc, r)
            ||| e == adapter_content_error(SemanticBindingAdapterStage::DomainCarrierValidation, SemanticBindingAdapterErrorKind::UnexpectedQuadState, Some(side), Some(r), None)
                && observed_ref_with(obs, r, true) && scoped_ref(g, sc, r) && !carrier_is_quad(g, sc, r)
        },
    }
}

/// The domain errors of one snapshot, each at least once.
fn validate_domain_carriers(
    g: &Vec<BindingDeclaration>,
    ss: &Vec<BindingId>,
    entries: &Vec<(BindingId, BindingValueDomain, SemanticValueRef)>,
    obs: &[SemanticBindingObservation],
    side: SemanticBindingSnapshotSide,
) -> (r: Vec<SemanticBindingAdapterError>)
    requires
        scope_carries_values(g@, ss@),
        entries@ == ss@.map_values(|x: BindingId| fanout_entry(g@, x)),
        forall|v: SemanticValueRef| !mixed_fanout(g@, ss@, v),
    ensures
        forall|e: SemanticBindingAdapterError| r@.contains(e) <==> carrier_error(g@, ss@, obs@, side, e),
{
    let mut r: Vec<SemanticBindingAdapterError> = Vec::new();
    let mut i: usize = 0;
    while i < obs.len()
        invariant
            i <= obs@.len(),
            scope_carries_values(g@, ss@),
            entries@ == ss@.map_values(|x: BindingId| fanout_entry(g@, x)),
            forall|v: SemanticValueRef| !mixed_fanout(g@, ss@, v),
            forall|e: SemanticBindingAdapterError| r@.contains(e) <==> carrier_error(g@, ss@, obs@.take(i as int), side, e),
        decreases obs@.len() - i,
    {
        let o = obs[i];
        let v = o.semantic_value_ref;
        let missing = SemanticBindingAdapterError::content(SemanticBindingAdapterStage::DomainCarrierValidation, SemanticBindingAdapterErrorKind::MissingQuadState, Some(side), Some(v), None);
        let unexpected = SemanticBindingAdapterError::content(SemanticBindingAdapterStage::DomainCarrierValidation, SemanticBindingAdapterErrorKind::UnexpectedQuadState, Some(side), Some(v), None);
        let ghost old = r@;
        let ghost mut pushed: Option<SemanticBindingAdapterError> = None;
        let looked = fanout_lookup(entries, v);
        proof {
            lemma_fanout_scoped(g@, ss@, entries@, v);
        }
        match looked {
            None => {
                proof {
                    if carrier_is_quad(g@, ss@, v) {
                        let x = choose|x: BindingId| #[trigger] ss@.contains(x) && binding_declared(g@, x) && first_semantic_value(g@, x) == Some(v)
                            && first_domain(g@, x) == BindingValueDomain::Quad;
                        assert(scoped_ref(g@, ss@, v));
                    }
                }
            },
            Some(k) => {
                let is_quad = entries[k].1 == BindingValueDomain::Quad;
                proof {
                    let kk = k as int;
                    assert(entries@[kk] == fanout_entry(g@, ss@[kk]));
                    assert(binding_declared(g@, ss@[kk]) && first_semantic_value(g@, ss@[kk]) is Some);
                    assert(first_semantic_value(g@, ss@[kk]) == Some(v));
                    assert(ss@.contains(ss@[kk]));
                    if is_quad {
                        assert(carrier_is_quad(g@, ss@, v));
                    } else if carrier_is_quad(g@, ss@, v) {
                        let x = choose|x: BindingId| #[trigger] ss@.contains(x) && binding_declared(g@, x) && first_semantic_value(g@, x) == Some(v)
                            && first_domain(g@, x) == BindingValueDomain::Quad;
                        assert(mixed_fanout(g@, ss@, v));
                    }
                }
                if is_quad && o.quad_state.is_none() {
                    r.push(missing);
                    proof {
                        pushed = Some(missing);
                    }
                } else if !is_quad && o.quad_state.is_some() {
                    r.push(unexpected);
                    proof {
                        pushed = Some(unexpected);
                    }
                }
            },
        }
        proof {
            let s0 = obs@.take(i as int);
            let s1 = obs@.take(i + 1);
            assert forall|w: SemanticValueRef, q: bool| observed_ref_with(s1, w, q) <==> observed_ref_with(s0, w, q) || (v == w && (o.quad_state is Some) == q) by {
                if observed_ref_with(s1, w, q) {
                    let k = choose|k: int| 0 <= k < s1.len() && #[trigger] s1[k].spec_semantic_value_ref() == w && (s1[k].spec_quad_state() is Some) == q;
                    if k < i {
                        assert(s0[k] == s1[k]);
                    } else {
                        assert(s1[k] == o);
                    }
                }
                if observed_ref_with(s0, w, q) {
                    let k = choose|k: int| 0 <= k < s0.len() && #[trigger] s0[k].spec_semantic_value_ref() == w && (s0[k].spec_quad_state() is Some) == q;
                    assert(s0[k] == s1[k]);
                }
                if v == w && (o.quad_state is Some) == q {
                    assert(s1[i as int] == o);
                    assert(s1[i as int].spec_semantic_value_ref() == w);
                }
            }
            assert forall|e: SemanticBindingAdapterError| r@.contains(e) <==> carrier_error(g@, ss@, s1, side, e) by {
                match pushed {
                    Some(p) => {
                        lemma_push_contains(old, p, e);
                    },
                    None => {
                        assert(r@ == old);
                    },
                }
            }
        }
        i += 1;
    }
    proof {
        assert(obs@.take(obs@.len() as int) =~= obs@);
    }
    r
}

/// The values are strictly increasing.
pub open spec fn refs_increasing(s: Seq<SemanticValueRef>) -> bool {
    forall|a: int, b: int| 0 <= a < b < s.len() ==> s[a].spec_raw() < s[b].spec_raw()
}

/// Two strictly increasing value sequences with the same elements are equal.
proof fn lemma_increasing_refs_unique(s: Seq<SemanticValueRef>, t: Seq<SemanticValueRef>)
    requires
        refs_increasing(s),
        refs_increasing(t),
        s.to_set() == t.to_set(),
    ensures
        s == t,
    decreases s.len(),
{
    if s.len() == 0 {
        if t.len() > 0 {
            assert(t.to_set().contains(t[0]));
        }
        assert(s =~= t);
    } else if t.len() == 0 {
        assert(s.to_set().contains(s[0]));
    } else {
        assert(s.to_set().contains(s[0]));
        assert(t.to_set().contains(t[0]));
        let j = choose|j: int| 0 <= j < t.len() && t[j] == s[0];
        let i = choose|i: int| 0 <= i < s.len() && s[i] == t[0];
        assert(s[0] == t[0]);
        let (s1, t1) = (s.drop_first(), t.drop_first());
        assert forall|x: SemanticValueRef| s1.contains(x) <==> t1.contains(x) by {
            if s1.contains(x) {
                let a = choose|a: int| 0 <= a < s1.len() && s1[a] == x;
                assert(s[a + 1] == x);
                assert(s.to_set().contains(x));
                let b = choose|b: int| 0 <= b < t.len() && t[b] == x;
                if b == 0 {
                    assert(s[0].spec_raw() < s[a + 1].spec_raw());
                }
                assert(t1[b - 1] == x);
            }
            if t1.contains(x) {
                let a = choose|a: int| 0 <= a < t1.len() && t1[a] == x;
                assert(t[a + 1] == x);
                assert(t.to_set().contains(x));
                let b = choose|b: int| 0 <= b < s.len() && s[b] == x;
                if b == 0 {
                    assert(t[0].spec_raw() < t[a + 1].spec_raw());
                }
                assert(s1[b - 1] == x);
            }
        }
        assert(s1.to_set() =~= t1.to_set());
        lemma_increasing_refs_unique(s1, t1);
        assert(s =~= seq![s[0]] + s1);
        assert(t =~= seq![t[0]] + t1);
    }
}

/// The observed values in increasing order, each once.
pub open spec fn sorted_observed(obs: Seq<SemanticBindingObservation>) -> Seq<SemanticValueRef> {
    choose|s: Seq<SemanticValueRef>| refs_increasing(s) && s.to_set() == observed_refs(obs).to_set()
}

/// The observed values in increasing order, each once.
fn sorted_observed_refs(obs: &[SemanticBindingObservation]) -> (r: Vec<SemanticValueRef>)
    ensures
        r@ == sorted_observed(obs@),
{
    let ghost rs = observed_refs(obs@);
    let mut out: Vec<SemanticValueRef> = Vec::new();
    let mut i: usize = 0;
    proof {
        assert(out@.to_set() =~= rs.take(0).to_set());
    }
    while i < obs.len()
        invariant
            i <= obs@.len(),
            rs == observed_refs(obs@),
            refs_increasing(out@),
            out@.to_set() == rs.take(i as int).to_set(),
        decreases obs@.len() - i,
    {
        let x = obs[i].semantic_value_ref;
        proof {
            assert(rs[i as int] == x);
            lemma_take_one_more_to_set(rs, i as int);
        }
        let mut p: usize = 0;
        while p < out.len() && out[p].raw() < x.raw()
            invariant
                p <= out@.len(),
                forall|q: int| 0 <= q < p ==> (#[trigger] out@[q]).spec_raw() < x.spec_raw(),
            decreases out@.len() - p,
        {
            p += 1;
        }
        if p < out.len() && out[p].raw() == x.raw() {
            proof {
                lemma_ref_raw_injective(out@[p as int], x);
                assert(out@.contains(x));
                assert(out@.to_set().insert(x) =~= out@.to_set());
            }
        } else {
            let ghost old = out@;
            proof {
                lemma_insert_to_set(old, p as int, x);
            }
            out.insert(p, x);
            proof {
                let n = out@;
                assert forall|a: int, b: int| 0 <= a < b < n.len() implies n[a].spec_raw() < n[b].spec_raw() by {
                    if a == p && b > p {
                        assert(n[b] == old[b - 1]);
                        if b - 1 > p {
                            assert(old[p as int].spec_raw() < old[b - 1].spec_raw());
                        }
                    } else if a < p && b == p {
                        assert(n[a] == old[a]);
                    } else if a < p && b > p {
                        assert(n[a] == old[a]);
                        assert(n[b] == old[b - 1]);
                    } else if a > p {
                        assert(n[a] == old[a - 1]);
                        assert(n[b] == old[b - 1]);
                    } else {
                        assert(n[a] == old[a]);
                        assert(n[b] == old[b]);
                    }
                }
            }
        }
        i += 1;
    }
    proof {
        assert(rs.take(rs.len() as int) =~= rs);
        lemma_increasing_refs_unique(sorted_observed(obs@), out@);
    }
    out
}

/// The scoped bindings of `s`, in order, whose first declaration carries `r`.
pub open spec fn members_of(g: Seq<BindingDeclaration>, s: Seq<BindingId>, r: SemanticValueRef) -> Seq<BindingId>
    decreases s.len(),
{
    if s.len() == 0 {
        Seq::empty()
    } else {
        members_of(g, s.drop_last(), r) + if first_semantic_value(g, s.last()) == Some(r) {
            seq![s.last()]
        } else {
            Seq::empty()
        }
    }
}

/// The mappings of the first `n` values of `rs`: each value with each scoped
/// binding that carries it, in order.
pub open spec fn mapped_pairs(g: Seq<BindingDeclaration>, ss: Seq<BindingId>, rs: Seq<SemanticValueRef>, n: int) -> Seq<(SemanticValueRef, BindingId)>
    decreases n,
{
    if n <= 0 {
        Seq::empty()
    } else {
        mapped_pairs(g, ss, rs, n - 1) + members_of(g, ss, rs[n - 1]).map_values(|x: BindingId| (rs[n - 1], x))
    }
}

/// The limit error of one snapshot when it maps to more binding
/// observations than allowed: it names the first mapping past the limit, in
/// order of value and then of binding.
pub open spec fn mapping_limit_error(
    g: Seq<BindingDeclaration>,
    ss: Seq<BindingId>,
    obs: Seq<SemanticBindingObservation>,
    maximum: usize,
    side: SemanticBindingSnapshotSide,
) -> Option<SemanticBindingAdapterError> {
    let rs = sorted_observed(obs);
    let all = mapped_pairs(g, ss, rs, rs.len() as int);
    if all.len() > maximum && maximum < usize::MAX {
        Some(adapter_limit_error(
            SemanticBindingAdapterStage::CanonicalObservationMapping,
            SemanticBindingAdapterErrorKind::MappedObservationLimitExceeded,
            Some(side),
            Some(all[maximum as int].0),
            Some(all[maximum as int].1),
            match side {
                SemanticBindingSnapshotSide::Previous => SemanticBindingAdapterLimitKind::MappedPreviousObservations,
                SemanticBindingSnapshotSide::Current => SemanticBindingAdapterLimitKind::MappedCurrentObservations,
            },
            (maximum + 1) as usize,
            maximum,
        ))
    } else {
        None
    }
}

/// Members of a longer prefix extend those of a shorter one.
proof fn lemma_members_prefix(g: Seq<BindingDeclaration>, s: Seq<BindingId>, r: SemanticValueRef, i: int, j: int)
    requires
        0 <= i <= j <= s.len(),
    ensures
        members_of(g, s.take(i), r).len() <= members_of(g, s.take(j), r).len(),
        forall|k: int| 0 <= k < members_of(g, s.take(i), r).len() ==> #[trigger] members_of(g, s.take(j), r)[k] == members_of(g, s.take(i), r)[k],
    decreases j - i,
{
    if i < j {
        lemma_members_prefix(g, s, r, i, j - 1);
        assert(s.take(j).drop_last() =~= s.take(j - 1));
    }
}

/// Mappings of more values extend those of fewer.
proof fn lemma_mapped_pairs_prefix(g: Seq<BindingDeclaration>, ss: Seq<BindingId>, rs: Seq<SemanticValueRef>, i: int, j: int)
    requires
        0 <= i <= j,
    ensures
        mapped_pairs(g, ss, rs, i).len() <= mapped_pairs(g, ss, rs, j).len(),
        forall|k: int| 0 <= k < mapped_pairs(g, ss, rs, i).len() ==> #[trigger] mapped_pairs(g, ss, rs, j)[k] == mapped_pairs(g, ss, rs, i)[k],
    decreases j - i,
{
    if i < j {
        lemma_mapped_pairs_prefix(g, ss, rs, i, j - 1);
    }
}

/// Counts the mappings of one snapshot, failing past the limit.
fn check_mapping_limit(
    g: &Vec<BindingDeclaration>,
    ss: &Vec<BindingId>,
    entries: &Vec<(BindingId, BindingValueDomain, SemanticValueRef)>,
    obs: &[SemanticBindingObservation],
    maximum: usize,
    side: SemanticBindingSnapshotSide,
) -> (r: Result<(), SemanticBindingAdapterError>)
    requires
        scope_carries_values(g@, ss@),
        entries@ == ss@.map_values(|x: BindingId| fanout_entry(g@, x)),
    ensures
        match r {
            Ok(()) => mapping_limit_error(g@, ss@, obs@, maximum, side) is None,
            Err(e) => mapping_limit_error(g@, ss@, obs@, maximum, side) == Some(e),
        },
{
    let rs = sorted_observed_refs(obs);
    let ghost rsv = rs@;
    let mut count: usize = 0;
    let mut i: usize = 0;
    while i < rs.len()
        invariant
            rsv == rs@,
            rsv == sorted_observed(obs@),
            i <= rs@.len(),
            scope_carries_values(g@, ss@),
            entries@ == ss@.map_values(|x: BindingId| fanout_entry(g@, x)),
            count == saturated(mapped_pairs(g@, ss@, rsv, i as int).len() as int),
            maximum < usize::MAX ==> mapped_pairs(g@, ss@, rsv, i as int).len() <= maximum,
        decreases rs@.len() - i,
    {
        let v = rs[i];
        let mut j: usize = 0;
        while j < entries.len()
            invariant
                rsv == rs@,
                rsv == sorted_observed(obs@),
                i < rs@.len(),
                v == rsv[i as int],
                j <= entries@.len(),
                entries@.len() == ss@.len(),
                scope_carries_values(g@, ss@),
                entries@ == ss@.map_values(|x: BindingId| fanout_entry(g@, x)),
                count == saturated((mapped_pairs(g@, ss@, rsv, i as int).len() + members_of(g@, ss@.take(j as int), v).len()) as int),
                maximum < usize::MAX ==> mapped_pairs(g@, ss@, rsv, i as int).len() + members_of(g@, ss@.take(j as int), v).len() <= maximum,
            decreases entries@.len() - j,
        {
            let ghost jj = j as int;
            proof {
                assert(entries@[jj] == fanout_entry(g@, ss@[jj]));
                assert(binding_declared(g@, ss@[jj]) && first_semantic_value(g@, ss@[jj]) is Some);
                assert(ss@.take(jj + 1).drop_last() =~= ss@.take(jj));
                assert(ss@.take(jj + 1).last() == ss@[jj]);
            }
            if entries[j].2 == v {
                proof {
                    assert(first_semantic_value(g@, ss@[jj]) == Some(v));
                }
                let actual = saturating_add(count, 1);
                if actual > maximum {
                    proof {
                        let prev = mapped_pairs(g@, ss@, rsv, i as int);
                        let here = members_of(g@, ss@, v).map_values(|x: BindingId| (v, x));
                        lemma_members_prefix(g@, ss@, v, jj + 1, ss@.len() as int);
                        assert(ss@.take(ss@.len() as int) =~= ss@);
                        let mj = members_of(g@, ss@.take(jj), v);
                        assert(members_of(g@, ss@.take(jj + 1), v) == mj.push(ss@[jj]));
                        assert(members_of(g@, ss@, v)[mj.len() as int] == ss@[jj]);
                        assert(mapped_pairs(g@, ss@, rsv, i + 1) == prev + here);
                        assert(mapped_pairs(g@, ss@, rsv, i + 1)[count as int] == (v, ss@[jj]));
                        lemma_mapped_pairs_prefix(g@, ss@, rsv, i + 1, rsv.len() as int);
                    }
                    let limit_kind = match side {
                        SemanticBindingSnapshotSide::Previous => SemanticBindingAdapterLimitKind::MappedPreviousObservations,
                        SemanticBindingSnapshotSide::Current => SemanticBindingAdapterLimitKind::MappedCurrentObservations,
                    };
                    return Err(SemanticBindingAdapterError::limit(
                        SemanticBindingAdapterStage::CanonicalObservationMapping,
                        SemanticBindingAdapterErrorKind::MappedObservationLimitExceeded,
                        Some(side),
                        Some(v),
                        Some(entries[j].0),
                        (limit_kind, actual, maximum),
                    ));
                }
                count = actual;
            }
            j += 1;
        }
        proof {
            assert(ss@.take(ss@.len() as int) =~= ss@);
            assert(mapped_pairs(g@, ss@, rsv, i + 1).len() == mapped_pairs(g@, ss@, rsv, i as int).len() + members_of(g@, ss@, v).len());
        }
        i += 1;
    }
    Ok(())
}

/// Each value is observed at most once.
pub open spec fn refs_observed_once(obs: Seq<SemanticBindingObservation>) -> bool {
    forall|r: SemanticValueRef| !ref_twice(observed_refs(obs), r)
}

/// The observation of value `r`.
pub open spec fn observation_of_ref(obs: Seq<SemanticBindingObservation>, r: SemanticValueRef) -> SemanticBindingObservation {
    obs[choose|k: int| 0 <= k < obs.len() && #[trigger] obs[k].spec_semantic_value_ref() == r]
}

/// The scoped bindings of `s`, in order, whose value is observed, each with
/// that observation.
pub open spec fn mapped_for(g: Seq<BindingDeclaration>, s: Seq<BindingId>, obs: Seq<SemanticBindingObservation>) -> Seq<(BindingId, SemanticBindingObservation)>
    decreases s.len(),
{
    if s.len() == 0 {
        Seq::empty()
    } else {
        mapped_for(g, s.drop_last(), obs) + match first_semantic_value(g, s.last()) {
            Some(r) => if observed_refs(obs).contains(r) {
                seq![(s.last(), observation_of_ref(obs, r))]
            } else {
                Seq::empty()
            },
            None => Seq::empty(),
        }
    }
}

/// `mapped` observe each binding of `pairs` as its semantic observation does.
pub open spec fn observations_match(mapped: Seq<BindingObservation>, pairs: Seq<(BindingId, SemanticBindingObservation)>) -> bool {
    &&& mapped.len() == pairs.len()
    &&& forall|k: int| 0 <= k < mapped.len() ==> {
        &&& (#[trigger] mapped[k]).spec_binding_id() == pairs[k].0
        &&& mapped[k].spec_epoch() == pairs[k].1.spec_epoch()
        &&& mapped[k].spec_revision() == pairs[k].1.spec_revision()
        &&& mapped[k].spec_quad_state() == pairs[k].1.spec_quad_state()
    }
}

/// The binding observations of one snapshot, in increasing order of binding.
fn map_snapshot(
    g: &Vec<BindingDeclaration>,
    ss: &Vec<BindingId>,
    entries: &Vec<(BindingId, BindingValueDomain, SemanticValueRef)>,
    obs: &[SemanticBindingObservation],
) -> (r: Vec<BindingObservation>)
    requires
        scope_carries_values(g@, ss@),
        entries@ == ss@.map_values(|x: BindingId| fanout_entry(g@, x)),
        refs_observed_once(obs@),
    ensures
        observations_match(r@, mapped_for(g@, ss@, obs@)),
{
    let ghost rs = observed_refs(obs@);
    let mut r: Vec<BindingObservation> = Vec::new();
    let mut q: usize = 0;
    while q < entries.len()
        invariant
            q <= entries@.len(),
            entries@.len() == ss@.len(),
            rs == observed_refs(obs@),
            scope_carries_values(g@, ss@),
            entries@ == ss@.map_values(|x: BindingId| fanout_entry(g@, x)),
            refs_observed_once(obs@),
            observations_match(r@, mapped_for(g@, ss@.take(q as int), obs@)),
        decreases entries@.len() - q,
    {
        let (x, _domain, v) = entries[q];
        let ghost qq = q as int;
        proof {
            assert(entries@[qq] == fanout_entry(g@, ss@[qq]));
            assert(binding_declared(g@, ss@[qq]) && first_semantic_value(g@, ss@[qq]) is Some);
            assert(first_semantic_value(g@, ss@[qq]) == Some(v));
            assert(ss@.take(qq + 1).drop_last() =~= ss@.take(qq));
            assert(ss@.take(qq + 1).last() == ss@[qq]);
        }
        let mut k: usize = 0;
        let mut found: Option<SemanticBindingObservation> = None;
        while k < obs.len()
            invariant
                k <= obs@.len(),
                rs == observed_refs(obs@),
                refs_observed_once(obs@),
                match found {
                    None => forall|m: int| 0 <= m < k ==> #[trigger] rs[m] != v,
                    Some(o) => rs.contains(v) && o == observation_of_ref(obs@, v),
                },
            decreases obs@.len() - k,
        {
            if found.is_none() && obs[k].semantic_value_ref == v {
                proof {
                    assert(rs[k as int] == v);
                    assert(obs@[k as int].spec_semantic_value_ref() == v);
                    let j = choose|j: int| 0 <= j < obs@.len() && #[trigger] obs@[j].spec_semantic_value_ref() == v;
                    if j != k {
                        assert(rs[j] == v);
                        assert(!ref_twice(rs, v));
                        if j < k {
                            assert(rs[j] == v && rs[k as int] == v);
                        } else {
                            assert(rs[k as int] == v && rs[j] == v);
                        }
                    }
                }
                found = Some(obs[k]);
            }
            proof {
                assert(rs[k as int] == obs@[k as int].spec_semantic_value_ref());
            }
            k += 1;
        }
        let ghost old = r@;
        match found {
            Some(o) => {
                r.push(BindingObservation::new(x, o.epoch, o.revision, o.quad_state));
            },
            None => {
                proof {
                    if rs.contains(v) {
                        let m = choose|m: int| 0 <= m < rs.len() && rs[m] == v;
                    }
                }
            },
        }
        proof {
            let pairs = mapped_for(g@, ss@.take(qq + 1), obs@);
            let prev = mapped_for(g@, ss@.take(qq), obs@);
            assert forall|m: int| 0 <= m < r@.len() implies {
                &&& (#[trigger] r@[m]).spec_binding_id() == pairs[m].0
                &&& r@[m].spec_epoch() == pairs[m].1.spec_epoch()
                &&& r@[m].spec_revision() == pairs[m].1.spec_revision()
                &&& r@[m].spec_quad_state() == pairs[m].1.spec_quad_state()
            } by {
                if m < old.len() {
                    assert(r@[m] == old[m]);
                    assert(pairs[m] == prev[m]);
                }
            }
        }
        q += 1;
    }
    proof {
        assert(ss@.take(ss@.len() as int) =~= ss@);
    }
    r
}

/// `e` is a structural error of either snapshot.
pub open spec fn snapshots_error(
    g: Seq<BindingDeclaration>,
    ss: Seq<BindingId>,
    pv: Seq<SemanticBindingObservation>,
    cu: Seq<SemanticBindingObservation>,
    e: SemanticBindingAdapterError,
) -> bool {
    snapshot_error(g, ss, pv, SemanticBindingSnapshotSide::Previous, e) || snapshot_error(g, ss, cu, SemanticBindingSnapshotSide::Current, e)
}

/// `e` is a domain error of either snapshot.
pub open spec fn carriers_error(
    g: Seq<BindingDeclaration>,
    ss: Seq<BindingId>,
    pv: Seq<SemanticBindingObservation>,
    cu: Seq<SemanticBindingObservation>,
    e: SemanticBindingAdapterError,
) -> bool {
    carrier_error(g, ss, pv, SemanticBindingSnapshotSide::Previous, e) || carrier_error(g, ss, cu, SemanticBindingSnapshotSide::Current, e)
}

/// `e` is the mapping limit error of either snapshot.
pub open spec fn mapping_error(
    g: Seq<BindingDeclaration>,
    ss: Seq<BindingId>,
    pv: Seq<SemanticBindingObservation>,
    cu: Seq<SemanticBindingObservation>,
    maximum: usize,
    e: SemanticBindingAdapterError,
) -> bool {
    mapping_limit_error(g, ss, pv, maximum, SemanticBindingSnapshotSide::Previous) == Some(e)
        || mapping_limit_error(g, ss, cu, maximum, SemanticBindingSnapshotSide::Current) == Some(e)
}

/// What an adaptation returns, stage by stage: the resource errors; else the
/// scope errors; else the limit error of the reference index; else that of
/// the fanout; else the fanout domain errors; else the structural errors of
/// the snapshots; else their domain errors; else their mapping limit errors,
/// each set sorted with each error once; else the scope in increasing order,
/// each snapshot mapped to the scoped bindings that carry its values, in
/// increasing order of binding, and the fanout work, one per scoped binding.
pub open spec fn adaptation_outcome(
    g: Seq<BindingDeclaration>,
    sc: Seq<BindingId>,
    pv: Seq<SemanticBindingObservation>,
    cu: Seq<SemanticBindingObservation>,
    limits: SemanticBindingAdapterLimits,
    r: Result<AdaptedBindingObservationInputs, Vec<SemanticBindingAdapterError>>,
) -> bool {
    let pre = adapter_preflight_errors(sc.len() as usize, pv.len() as usize, cu.len() as usize, limits);
    let ss = sorted_scope(sc);
    let max_mapped = limits.spec_max_mapped_observations_per_snapshot();
    if pre.len() > 0 {
        r matches Err(ds) && adapter_canonical_errors_of(ds@, pre.to_set())
    } else if exists|e: SemanticBindingAdapterError| scope_error(g, sc, e) {
        r matches Err(ds) && adapter_canonical_errors_of(ds@, Set::new(|e: SemanticBindingAdapterError| scope_error(g, sc, e)))
    } else if reference_index_error(g, limits.spec_max_indexed_semantic_references()) is Some {
        r matches Err(ds) && ds@ == seq![reference_index_error(g, limits.spec_max_indexed_semantic_references())->0]
    } else if fanout_limit_error(g, ss, limits.spec_max_fanout_mappings()) is Some {
        r matches Err(ds) && ds@ == seq![fanout_limit_error(g, ss, limits.spec_max_fanout_mappings())->0]
    } else if exists|e: SemanticBindingAdapterError| fanout_domain_error(g, ss, e) {
        r matches Err(ds) && adapter_canonical_errors_of(ds@, Set::new(|e: SemanticBindingAdapterError| fanout_domain_error(g, ss, e)))
    } else if exists|e: SemanticBindingAdapterError| snapshots_error(g, ss, pv, cu, e) {
        r matches Err(ds) && adapter_canonical_errors_of(ds@, Set::new(|e: SemanticBindingAdapterError| snapshots_error(g, ss, pv, cu, e)))
    } else if exists|e: SemanticBindingAdapterError| carriers_error(g, ss, pv, cu, e) {
        r matches Err(ds) && adapter_canonical_errors_of(ds@, Set::new(|e: SemanticBindingAdapterError| carriers_error(g, ss, pv, cu, e)))
    } else if exists|e: SemanticBindingAdapterError| mapping_error(g, ss, pv, cu, max_mapped, e) {
        r matches Err(ds) && adapter_canonical_errors_of(ds@, Set::new(|e: SemanticBindingAdapterError| mapping_error(g, ss, pv, cu, max_mapped, e)))
    } else {
        r matches Ok(a) && {
            &&& a.spec_scope().spec_ids() == ss
            &&& observations_match(a.spec_previous().spec_observations(), mapped_for(g, ss, pv))
            &&& observations_match(a.spec_current().spec_observations(), mapped_for(g, ss, cu))
            &&& a.spec_fanout_work() == ss.len()
        }
    }
}

/// Errors found by a pass, as the set its characterization names.
proof fn lemma_found_errors(raw: Seq<SemanticBindingAdapterError>, es: Set<SemanticBindingAdapterError>)
    requires
        forall|e: SemanticBindingAdapterError| raw.contains(e) <==> es.contains(e),
    ensures
        raw.to_set() == es,
        raw.len() > 0 ==> es.contains(raw[0]),
        raw.len() == 0 ==> forall|e: SemanticBindingAdapterError| !es.contains(e),
{
    assert(raw.to_set() =~= es);
    if raw.len() > 0 {
        assert(raw.contains(raw[0]));
    }
}

/// Adapts two snapshots of semantic observations into observations of the
/// scoped bindings that carry the observed values.
#[verifier::rlimit(50)]
pub fn adapt_semantic_observations(
    graph: &BindingGraphDocument,
    scope: BindingObservationScope,
    previous: SemanticBindingObservationSet,
    current: SemanticBindingObservationSet,
    limits: SemanticBindingAdapterLimits,
) -> (r: Result<AdaptedBindingObservationInputs, Vec<SemanticBindingAdapterError>>)
    ensures
        adaptation_outcome(graph.bindings@, scope.spec_ids(), previous.spec_observations(), current.spec_observations(), limits, r),
{
    let g = &graph.bindings;
    let ghost gs = g@;
    let sc = scope.binding_ids();
    let pv = previous.observations;
    let cu = current.observations;
    let ghost (scs, pvs, cus) = (sc@, pv@, cu@);
    let pre = resource_preflight(sc.len(), pv.len(), cu.len(), limits);
    if pre.len() > 0 {
        return Err(canonical_adapter_errors(pre));
    }
    let scope_errs = validate_scope(g, sc);
    proof {
        lemma_found_errors(scope_errs@, Set::new(|e: SemanticBindingAdapterError| scope_error(gs, scs, e)));
    }
    if scope_errs.len() > 0 {
        return Err(canonical_adapter_errors(scope_errs));
    }
    let ss = sorted_ids(sc);
    proof {
        assert forall|e: SemanticBindingAdapterError| !scope_error(gs, scs, e) by {
            assert(!scope_errs@.contains(e));
        }
        assert(ss@ == sorted_scope(scs));
        assert forall|q: int| 0 <= q < ss@.len() implies binding_declared(gs, #[trigger] ss@[q]) && first_semantic_value(gs, ss@[q]) is Some by {
            let x = ss@[q];
            assert(ss@.to_set().contains(x));
            assert(scs.contains(x));
            assert(!scope_errs@.contains(adapter_content_error(SemanticBindingAdapterStage::ScopeValidation, SemanticBindingAdapterErrorKind::UnknownScopeBinding, None, None, Some(x))));
            assert(!scope_errs@.contains(adapter_content_error(SemanticBindingAdapterStage::ScopeValidation, SemanticBindingAdapterErrorKind::BindingMissingSemanticRef, None, None, Some(x))));
            assert(!scope_error(gs, scs, adapter_content_error(SemanticBindingAdapterStage::ScopeValidation, SemanticBindingAdapterErrorKind::UnknownScopeBinding, None, None, Some(x))));
            assert(!scope_error(gs, scs, adapter_content_error(SemanticBindingAdapterStage::ScopeValidation, SemanticBindingAdapterErrorKind::BindingMissingSemanticRef, None, None, Some(x))));
        }
    }
    let refs = match index_graph_references(g, limits.max_indexed_semantic_references) {
        Ok(refs) => refs,
        Err(e) => {
            let v = vec![e];
            proof {
                assert(v@ =~= seq![e]);
            }
            return Err(v);
        },
    };
    let entries = match build_scoped_fanout(g, &ss, limits.max_fanout_mappings) {
        Ok(entries) => entries,
        Err(e) => {
            let v = vec![e];
            proof {
                assert(v@ =~= seq![e]);
            }
            return Err(v);
        },
    };
    let fanout_errs = fanout_domain_errors(g, &ss, &entries);
    proof {
        lemma_found_errors(fanout_errs@, Set::new(|e: SemanticBindingAdapterError| fanout_domain_error(gs, ss@, e)));
    }
    if fanout_errs.len() > 0 {
        proof {
            assert(ss@ == sorted_scope(scs));
            assert(fanout_domain_error(gs, ss@, fanout_errs@[0]));
            assert(reference_index_error(gs, limits.spec_max_indexed_semantic_references()) is None);
            assert(fanout_limit_error(gs, ss@, limits.spec_max_fanout_mappings()) is None);
        }
        return Err(canonical_adapter_errors(fanout_errs));
    }
    proof {
        assert forall|e: SemanticBindingAdapterError| !fanout_domain_error(gs, ss@, e) by {
            assert(!fanout_errs@.contains(e));
        }
        assert forall|v: SemanticValueRef| !mixed_fanout(gs, ss@, v) by {
            assert(!fanout_domain_error(gs, ss@, adapter_content_error(
                SemanticBindingAdapterStage::ReferenceIndexValidation,
                SemanticBindingAdapterErrorKind::IncompatibleFanoutDomain,
                None,
                Some(v),
                None,
            )));
        }
    }
    let mut snapshot_errs = validate_snapshot_structure(g, &ss, &refs, &entries, pv.as_slice(), SemanticBindingSnapshotSide::Previous);
    let mut snapshot_errs_cu = validate_snapshot_structure(g, &ss, &refs, &entries, cu.as_slice(), SemanticBindingSnapshotSide::Current);
    let ghost (s1, s2) = (snapshot_errs@, snapshot_errs_cu@);
    snapshot_errs.append(&mut snapshot_errs_cu);
    proof {
        assert(snapshot_errs@ == s1 + s2);
        assert forall|e: SemanticBindingAdapterError| snapshot_errs@.contains(e) <==> snapshots_error(gs, ss@, pvs, cus, e) by {
            lemma_concat_contains(s1, s2, e);
        }
        lemma_found_errors(snapshot_errs@, Set::new(|e: SemanticBindingAdapterError| snapshots_error(gs, ss@, pvs, cus, e)));
    }
    if snapshot_errs.len() > 0 {
        return Err(canonical_adapter_errors(snapshot_errs));
    }
    proof {
        assert forall|e: SemanticBindingAdapterError| !snapshots_error(gs, ss@, pvs, cus, e) by {
            assert(!snapshot_errs@.contains(e));
        }
        assert forall|v: SemanticValueRef| !ref_twice(observed_refs(pvs), v) && !ref_twice(observed_refs(cus), v) by {
            assert(!snapshots_error(gs, ss@, pvs, cus, adapter_content_error(SemanticBindingAdapterStage::SnapshotStructuralValidation, SemanticBindingAdapterErrorKind::DuplicateSemanticObservation, Some(SemanticBindingSnapshotSide::Previous), Some(v), None)));
            assert(!snapshots_error(gs, ss@, pvs, cus, adapter_content_error(SemanticBindingAdapterStage::SnapshotStructuralValidation, SemanticBindingAdapterErrorKind::DuplicateSemanticObservation, Some(SemanticBindingSnapshotSide::Current), Some(v), None)));
        }
        assert(refs_observed_once(pvs));
        assert(refs_observed_once(cus));
    }
    let mut carrier_errs = validate_domain_carriers(g, &ss, &entries, pv.as_slice(), SemanticBindingSnapshotSide::Previous);
    let mut carrier_errs_cu = validate_domain_carriers(g, &ss, &entries, cu.as_slice(), SemanticBindingSnapshotSide::Current);
    let ghost (c1, c2) = (carrier_errs@, carrier_errs_cu@);
    carrier_errs.append(&mut carrier_errs_cu);
    proof {
        assert(carrier_errs@ == c1 + c2);
        assert forall|e: SemanticBindingAdapterError| carrier_errs@.contains(e) <==> carriers_error(gs, ss@, pvs, cus, e) by {
            lemma_concat_contains(c1, c2, e);
        }
        lemma_found_errors(carrier_errs@, Set::new(|e: SemanticBindingAdapterError| carriers_error(gs, ss@, pvs, cus, e)));
    }
    if carrier_errs.len() > 0 {
        return Err(canonical_adapter_errors(carrier_errs));
    }
    proof {
        assert forall|e: SemanticBindingAdapterError| !carriers_error(gs, ss@, pvs, cus, e) by {
            assert(!carrier_errs@.contains(e));
        }
    }
    let max_mapped = limits.max_mapped_observations_per_snapshot;
    let checked_pv = check_mapping_limit(g, &ss, &entries, pv.as_slice(), max_mapped, SemanticBindingSnapshotSide::Previous);
    let checked_cu = check_mapping_limit(g, &ss, &entries, cu.as_slice(), max_mapped, SemanticBindingSnapshotSide::Current);
    let mut mapping_errs: Vec<SemanticBindingAdapterError> = Vec::new();
    match checked_pv {
        Ok(()) => {},
        Err(e) => {
            mapping_errs.push(e);
        },
    }
    let ghost m1 = mapping_errs@;
    match checked_cu {
        Ok(()) => {},
        Err(e) => {
            mapping_errs.push(e);
        },
    }
    proof {
        assert forall|e: SemanticBindingAdapterError| mapping_errs@.contains(e) <==> mapping_error(gs, ss@, pvs, cus, max_mapped, e) by {
            match checked_pv {
                Ok(()) => {
                    assert(m1 =~= Seq::<SemanticBindingAdapterError>::empty());
                },
                Err(e1) => {
                    assert(m1 =~= seq![e1]);
                    lemma_push_contains(Seq::<SemanticBindingAdapterError>::empty(), e1, e);
                    assert(seq![e1] == Seq::<SemanticBindingAdapterError>::empty().push(e1));
                },
            }
            match checked_cu {
                Ok(()) => {
                    assert(mapping_errs@ == m1);
                },
                Err(e2) => {
                    assert(mapping_errs@ == m1.push(e2));
                    lemma_push_contains(m1, e2, e);
                },
            }
        }
        lemma_found_errors(mapping_errs@, Set::new(|e: SemanticBindingAdapterError| mapping_error(gs, ss@, pvs, cus, max_mapped, e)));
    }
    if mapping_errs.len() > 0 {
        return Err(canonical_adapter_errors(mapping_errs));
    }
    proof {
        assert forall|e: SemanticBindingAdapterError| !mapping_error(gs, ss@, pvs, cus, max_mapped, e) by {
            assert(!mapping_errs@.contains(e));
        }
    }
    let previous_mapped = map_snapshot(g, &ss, &entries, pv.as_slice());
    let current_mapped = map_snapshot(g, &ss, &entries, cu.as_slice());
    let fanout_work = ss.len();
    let r = AdaptedBindingObservationInputs {
        scope: BindingObservationScope::new(ss),
        previous: BindingObservationSet::new(previous_mapped),
        current: BindingObservationSet::new(current_mapped),
        fanout_work,
    };
    Ok(r)
}

} // verus!
