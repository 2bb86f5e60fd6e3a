//! Observations of bound values, and which bindings they make dirty through
//! the binding graph.
use vstd::prelude::*;
use crate::binding_graph::{
    binding_declared, is_first_with_id, lists_dependency, BindingDeclaration, BindingGraphDocument, BindingId,
    BindingValueDomain,
};
use crate::contract_primitives::{
    compare_u64_slices, lemma_lex_order_antisymmetric, lex_order, Epoch, Revision,
};

verus! {

/// The bindings an observation pass looks at.
#[derive(Debug, Clone, PartialEq, Eq)]
pub struct BindingObservationScope {
    binding_ids: Vec<BindingId>,
}

impl BindingObservationScope {
    /// The scoped binding ids, in the order given.
    pub closed spec fn spec_ids(&self) -> Seq<BindingId> {
        self.binding_ids@
    }

    pub fn new(binding_ids: Vec<BindingId>) -> (r: Self)
        ensures
            r.spec_ids() == binding_ids@,
    {
        Self { binding_ids }
    }

    pub fn binding_ids(&self) -> (r: &[BindingId])
        ensures
            r@ == self.spec_ids(),
    {
        self.binding_ids.as_slice()
    }
}

/// The four observable states of a quad binding.
#[derive(Debug, Clone, Copy, PartialEq, Eq, PartialOrd, Ord, Hash, Structural)]
pub enum BindingQuadState {
    N,
    F,
    T,
    S,
}

/// What was observed of one binding: when, and its quad state if any.
#[derive(Debug, Clone, Copy, PartialEq, Eq, Structural)]
pub struct BindingObservation {
    binding_id: BindingId,
    epoch: Epoch,
    revision: Revision,
    quad_state: Option<BindingQuadState>,
}

impl BindingObservation {
    pub closed spec fn spec_binding_id(self) -> BindingId {
        self.binding_id
    }

    pub closed spec fn spec_epoch(self) -> Epoch {
        self.epoch
    }

    pub closed spec fn spec_revision(self) -> Revision {
        self.revision
    }

    pub closed spec fn spec_quad_state(self) -> Option<BindingQuadState> {
        self.quad_state
    }

    pub fn new(binding_id: BindingId, epoch: Epoch, revision: Revision, quad_state: Option<BindingQuadState>) -> (r: Self)
        ensures
            r.spec_binding_id() == binding_id,
            r.spec_epoch() == epoch,
            r.spec_revision() == revision,
            r.spec_quad_state() == quad_state,
    {
        Self { binding_id, epoch, revision, quad_state }
    }

    pub fn binding_id(self) -> (r: BindingId)
        ensures
            r == self.spec_binding_id(),
    {
        self.binding_id
    }

    pub fn epoch(self) -> (r: Epoch)
        ensures
            r == self.spec_epoch(),
    {
        self.epoch
    }

    pub fn revision(self) -> (r: Revision)
        ensures
            r == self.spec_revision(),
    {
        self.revision
    }

    pub fn quad_state(self) -> (r: Option<BindingQuadState>)
        ensures
            r == self.spec_quad_state(),
    {
        self.quad_state
    }
}

/// A snapshot of observations.
#[derive(Debug, Clone, PartialEq, Eq)]
pub struct BindingObservationSet {
    observations: Vec<BindingObservation>,
}

impl BindingObservationSet {
    /// The observations, in the order given.
    pub closed spec fn spec_observations(&self) -> Seq<BindingObservation> {
        self.observations@
    }

    pub fn new(observations: Vec<BindingObservation>) -> (r: Self)
        ensures
            r.spec_observations() == observations@,
    {
        Self { observations }
    }

    pub fn observations(&self) -> (r: &[BindingObservation])
        ensures
            r@ == self.spec_observations(),
    {
        self.observations.as_slice()
    }
}

/// The bounds on the inputs, the result and the work of a dirty derivation.
#[derive(Debug, Clone, Copy, PartialEq, Eq, Structural)]
pub struct BindingObservationLimits {
    max_scoped_bindings: usize,
    max_observations_per_snapshot: usize,
    max_dirty_bindings: usize,
    max_propagation_work: usize,
    max_retained_reasons: usize,
}

impl BindingObservationLimits {
    pub closed spec fn spec_max_scoped_bindings(self) -> usize {
        self.max_scoped_bindings
    }

    pub closed spec fn spec_max_observations_per_snapshot(self) -> usize {
        self.max_observations_per_snapshot
    }

    pub closed spec fn spec_max_dirty_bindings(self) -> usize {
        self.max_dirty_bindings
    }

    pub closed spec fn spec_max_propagation_work(self) -> usize {
        self.max_propagation_work
    }

    pub closed spec fn spec_max_retained_reasons(self) -> usize {
        self.max_retained_reasons
    }

    pub fn new(
        max_scoped_bindings: usize,
        max_observations_per_snapshot: usize,
        max_dirty_bindings: usize,
        max_propagation_work: usize,
        max_retained_reasons: usize,
    ) -> (r: Self)
        ensures
            r.spec_max_scoped_bindings() == max_scoped_bindings,
            r.spec_max_observations_per_snapshot() == max_observations_per_snapshot,
            r.spec_max_dirty_bindings() == max_dirty_bindings,
            r.spec_max_propagation_work() == max_propagation_work,
            r.spec_max_retained_reasons() == max_retained_reasons,
    {
        Self {
            max_scoped_bindings,
            max_observations_per_snapshot,
            max_dirty_bindings,
            max_propagation_work,
            max_retained_reasons,
        }
    }
}

/// The stage of a dirty derivation at which an error arose.
#[derive(Debug, Clone, Copy, PartialEq, Eq, PartialOrd, Ord, Hash, Structural)]
pub enum BindingObservationStage {
    ResourcePreflight,
    StructuralValidation,
    DomainValidation,
    TemporalValidation,
    DirtySeedDerivation,
    DependencyPropagation,
    CanonicalResult,
}

/// What went wrong in a dirty derivation.
#[derive(Debug, Clone, Copy, PartialEq, Eq, PartialOrd, Ord, Hash, Structural)]
pub enum BindingObservationErrorKind {
    ResourceLimitExceeded,
    DuplicateScopeBinding,
    UnknownScopeBinding,
    DuplicateObservation,
    UnknownBinding,
    ObservationOutOfScope,
    MissingQuadState,
    UnexpectedQuadState,
    StaleObservation,
    ConflictingReplay,
    DirtyResultLimitExceeded,
    PropagationWorkLimitExceeded,
    RetainedReasonLimitExceeded,
}

/// The code of each error kind.
pub open spec fn observation_code_text(kind: BindingObservationErrorKind) -> Seq<char> {
    match kind {
        BindingObservationErrorKind::ResourceLimitExceeded => "BGOD_RESOURCE_LIMIT_EXCEEDED"@,
        BindingObservationErrorKind::DuplicateScopeBinding => "BGOD_DUPLICATE_SCOPE_BINDING"@,
        BindingObservationErrorKind::UnknownScopeBinding => "BGOD_UNKNOWN_SCOPE_BINDING"@,
        BindingObservationErrorKind::DuplicateObservation => "BGOD_DUPLICATE_OBSERVATION"@,
        BindingObservationErrorKind::UnknownBinding => "BGOD_UNKNOWN_BINDING"@,
        BindingObservationErrorKind::ObservationOutOfScope => "BGOD_OBSERVATION_OUT_OF_SCOPE"@,
        BindingObservationErrorKind::MissingQuadState => "BGOD_MISSING_QUAD_STATE"@,
        BindingObservationErrorKind::UnexpectedQuadState => "BGOD_UNEXPECTED_QUAD_STATE"@,
        BindingObservationErrorKind::StaleObservation => "BGOD_STALE_OBSERVATION"@,
        BindingObservationErrorKind::ConflictingReplay => "BGOD_CONFLICTING_REPLAY"@,
        BindingObservationErrorKind::DirtyResultLimitExceeded => "BGOD_DIRTY_RESULT_LIMIT_EXCEEDED"@,
        BindingObservationErrorKind::PropagationWorkLimitExceeded => "BGOD_PROPAGATION_WORK_LIMIT_EXCEEDED"@,
        BindingObservationErrorKind::RetainedReasonLimitExceeded => "BGOD_RETAINED_REASON_LIMIT_EXCEEDED"@,
    }
}

impl BindingObservationErrorKind {
    pub fn code(self) -> (r: &'static str)
        ensures
            r@ == observation_code_text(self),
    {
        match self {
            Self::ResourceLimitExceeded => "BGOD_RESOURCE_LIMIT_EXCEEDED",
            Self::DuplicateScopeBinding => "BGOD_DUPLICATE_SCOPE_BINDING",
            Self::UnknownScopeBinding => "BGOD_UNKNOWN_SCOPE_BINDING",
            Self::DuplicateObservation => "BGOD_DUPLICATE_OBSERVATION",
            Self::UnknownBinding => "BGOD_UNKNOWN_BINDING",
            Self::ObservationOutOfScope => "BGOD_OBSERVATION_OUT_OF_SCOPE",
            Self::MissingQuadState => "BGOD_MISSING_QUAD_STATE",
            Self::UnexpectedQuadState => "BGOD_UNEXPECTED_QUAD_STATE",
            Self::StaleObservation => "BGOD_STALE_OBSERVATION",
            Self::ConflictingReplay => "BGOD_CONFLICTING_REPLAY",
            Self::DirtyResultLimitExceeded => "BGOD_DIRTY_RESULT_LIMIT_EXCEEDED",
            Self::PropagationWorkLimitExceeded => "BGOD_PROPAGATION_WORK_LIMIT_EXCEEDED",
            Self::RetainedReasonLimitExceeded => "BGOD_RETAINED_REASON_LIMIT_EXCEEDED",
        }
    }
}

/// Which bound a limit error is about.
#[derive(Debug, Clone, Copy, PartialEq, Eq, PartialOrd, Ord, Hash, Structural)]
pub enum BindingObservationLimitKind {
    ScopedBindings,
    PreviousObservations,
    CurrentObservations,
    CombinedInputs,
    DirtyBindings,
    PropagationWork,
    RetainedReasons,
}

/// An error of a dirty derivation.
#[derive(Debug, Clone, Copy, PartialEq, Eq, PartialOrd, Ord, Hash, Structural)]
pub struct BindingObservationError {
    pub stage: BindingObservationStage,
    pub binding_id: Option<BindingId>,
    pub kind: BindingObservationErrorKind,
    pub related_binding_id: Option<BindingId>,
    pub limit_kind: Option<BindingObservationLimitKind>,
    pub actual: Option<usize>,
    pub maximum: Option<usize>,
}

/// An error about one binding.
pub open spec fn content_error(
    stage: BindingObservationStage,
    kind: BindingObservationErrorKind,
    binding_id: BindingId,
) -> BindingObservationError {
    BindingObservationError {
        stage,
        binding_id: Some(binding_id),
        kind,
        related_binding_id: None,
        limit_kind: None,
        actual: None,
        maximum: None,
    }
}

/// An error about a bound that was passed.
pub open spec fn limit_error(
    stage: BindingObservationStage,
    kind: BindingObservationErrorKind,
    binding_id: Option<BindingId>,
    limit_kind: BindingObservationLimitKind,
    actual: usize,
    maximum: usize,
) -> BindingObservationError {
    BindingObservationError {
        stage,
        binding_id,
        kind,
        related_binding_id: None,
        limit_kind: Some(limit_kind),
        actual: Some(actual),
        maximum: Some(maximum),
    }
}

impl BindingObservationError {
    fn content(stage: BindingObservationStage, kind: BindingObservationErrorKind, binding_id: BindingId) -> (r: Self)
        ensures
            r == content_error(stage, kind, binding_id),
    {
        Self {
            stage,
            binding_id: Some(binding_id),
            kind,
            related_binding_id: None,
            limit_kind: None,
            actual: None,
            maximum: None,
        }
    }

    fn limit(
        stage: BindingObservationStage,
        kind: BindingObservationErrorKind,
        binding_id: Option<BindingId>,
        limit_kind: BindingObservationLimitKind,
        actual: usize,
        maximum: usize,
    ) -> (r: Self)
        ensures
            r == limit_error(stage, kind, binding_id, limit_kind, actual, maximum),
    {
        Self {
            stage,
            binding_id,
            kind,
            related_binding_id: None,
            limit_kind: Some(limit_kind),
            actual: Some(actual),
            maximum: Some(maximum),
        }
    }

    pub fn stage(self) -> (r: BindingObservationStage)
        ensures
            r == self.stage,
    {
        self.stage
    }

    pub fn kind(self) -> (r: BindingObservationErrorKind)
        ensures
            r == self.kind,
    {
        self.kind
    }

    pub fn code(self) -> (r: &'static str)
        ensures
            r@ == observation_code_text(self.kind),
    {
        self.kind.code()
    }

    pub fn binding_id(self) -> (r: Option<BindingId>)
        ensures
            r == self.binding_id,
    {
        self.binding_id
    }

    pub fn related_binding_id(self) -> (r: Option<BindingId>)
        ensures
            r == self.related_binding_id,
    {
        self.related_binding_id
    }

    pub fn limit_kind(self) -> (r: Option<BindingObservationLimitKind>)
        ensures
            r == self.limit_kind,
    {
        self.limit_kind
    }

    pub fn actual(self) -> (r: Option<usize>)
        ensures
            r == self.actual,
    {
        self.actual
    }

    pub fn maximum(self) -> (r: Option<usize>)
        ensures
            r == self.maximum,
    {
        self.maximum
    }
}

/// Why a binding is dirty.
#[derive(Debug, Clone, Copy, PartialEq, Eq, PartialOrd, Ord, Hash, Structural)]
pub enum DirtyReasonKind {
    Added,
    Removed,
    RevisionChanged,
    EpochChanged,
    QuadValueChanged,
}

/// A reason a binding is dirty, with the binding the change started at.
#[derive(Debug, Clone, Copy, PartialEq, Eq, PartialOrd, Ord, Hash, Structural)]
pub struct DirtyReason {
    pub kind: DirtyReasonKind,
    pub originating_binding_id: BindingId,
    pub previous_quad_state: Option<BindingQuadState>,
    pub current_quad_state: Option<BindingQuadState>,
}

/// The reason of kind `kind` that started at `origin`.
pub open spec fn dirty_reason(
    kind: DirtyReasonKind,
    origin: BindingId,
    previous: Option<BindingQuadState>,
    current: Option<BindingQuadState>,
) -> DirtyReason {
    DirtyReason { kind, originating_binding_id: origin, previous_quad_state: previous, current_quad_state: current }
}

impl DirtyReason {
    fn new(
        kind: DirtyReasonKind,
        originating_binding_id: BindingId,
        previous_quad_state: Option<BindingQuadState>,
        current_quad_state: Option<BindingQuadState>,
    ) -> (r: Self)
        ensures
            r == dirty_reason(kind, originating_binding_id, previous_quad_state, current_quad_state),
    {
        Self { kind, originating_binding_id, previous_quad_state, current_quad_state }
    }

    pub fn kind(self) -> (r: DirtyReasonKind)
        ensures
            r == self.kind,
    {
        self.kind
    }

    pub fn originating_binding_id(self) -> (r: BindingId)
        ensures
            r == self.originating_binding_id,
    {
        self.originating_binding_id
    }

    pub fn previous_quad_state(self) -> (r: Option<BindingQuadState>)
        ensures
            r == self.previous_quad_state,
    {
        self.previous_quad_state
    }

    pub fn current_quad_state(self) -> (r: Option<BindingQuadState>)
        ensures
            r == self.current_quad_state,
    {
        self.current_quad_state
    }
}

/// A dirty binding and why it is dirty.
#[derive(Debug, Clone, PartialEq, Eq)]
pub struct DirtyBinding {
    binding_id: BindingId,
    reasons: Vec<DirtyReason>,
}

impl DirtyBinding {
    pub closed spec fn spec_binding_id(&self) -> BindingId {
        self.binding_id
    }

    pub closed spec fn spec_reasons(&self) -> Seq<DirtyReason> {
        self.reasons@
    }

    pub fn binding_id(&self) -> (r: BindingId)
        ensures
            r == self.spec_binding_id(),
    {
        self.binding_id
    }

    pub fn reasons(&self) -> (r: &[DirtyReason])
        ensures
            r@ == self.spec_reasons(),
    {
        self.reasons.as_slice()
    }
}

/// The dirty bindings of a derivation, and the propagation work it took.
#[derive(Debug, Clone, PartialEq, Eq)]
pub struct DirtyDerivationResult {
    dirty_bindings: Vec<DirtyBinding>,
    propagation_work: usize,
}

impl DirtyDerivationResult {
    pub closed spec fn spec_dirty_bindings(&self) -> Seq<DirtyBinding> {
        self.dirty_bindings@
    }

    pub closed spec fn spec_propagation_work(&self) -> usize {
        self.propagation_work
    }

    pub fn dirty_bindings(&self) -> (r: &[DirtyBinding])
        ensures
            r@ == self.spec_dirty_bindings(),
    {
        self.dirty_bindings.as_slice()
    }

    pub fn propagation_work(&self) -> (r: usize)
        ensures
            r == self.spec_propagation_work(),
    {
        self.propagation_work
    }
}

/// The position of a stage in stage order.
pub open spec fn stage_rank(s: BindingObservationStage) -> int {
    match s {
        BindingObservationStage::ResourcePreflight => 0,
        BindingObservationStage::StructuralValidation => 1,
        BindingObservationStage::DomainValidation => 2,
        BindingObservationStage::TemporalValidation => 3,
        BindingObservationStage::DirtySeedDerivation => 4,
        BindingObservationStage::DependencyPropagation => 5,
        BindingObservationStage::CanonicalResult => 6,
    }
}

/// The position of an error kind in kind order.
pub open spec fn kind_rank(k: BindingObservationErrorKind) -> int {
    match k {
        BindingObservationErrorKind::ResourceLimitExceeded => 0,
        BindingObservationErrorKind::DuplicateScopeBinding => 1,
        BindingObservationErrorKind::UnknownScopeBinding => 2,
        BindingObservationErrorKind::DuplicateObservation => 3,
        BindingObservationErrorKind::UnknownBinding => 4,
        BindingObservationErrorKind::ObservationOutOfScope => 5,
        BindingObservationErrorKind::MissingQuadState => 6,
        BindingObservationErrorKind::UnexpectedQuadState => 7,
        BindingObservationErrorKind::StaleObservation => 8,
        BindingObservationErrorKind::ConflictingReplay => 9,
        BindingObservationErrorKind::DirtyResultLimitExceeded => 10,
        BindingObservationErrorKind::PropagationWorkLimitExceeded => 11,
        BindingObservationErrorKind::RetainedReasonLimitExceeded => 12,
    }
}

/// The position of a limit kind in limit order.
pub open spec fn limit_rank(k: BindingObservationLimitKind) -> int {
    match k {
        BindingObservationLimitKind::ScopedBindings => 0,
        BindingObservationLimitKind::PreviousObservations => 1,
        BindingObservationLimitKind::CurrentObservations => 2,
        BindingObservationLimitKind::CombinedInputs => 3,
        BindingObservationLimitKind::DirtyBindings => 4,
        BindingObservationLimitKind::PropagationWork => 5,
        BindingObservationLimitKind::RetainedReasons => 6,
    }
}

/// Whether an optional id is present.
pub open spec fn id_flag(o: Option<BindingId>) -> int {
    if o is Some { 1 } else { 0 }
}

/// An optional id's value, zero when absent.
pub open spec fn id_value(o: Option<BindingId>) -> int {
    match o {
        None => 0,
        Some(id) => id.0 as int,
    }
}

/// Whether an optional count is present.
pub open spec fn count_flag(o: Option<usize>) -> int {
    if o is Some { 1 } else { 0 }
}

/// An optional count's value, zero when absent.
pub open spec fn count_value(o: Option<usize>) -> int {
    match o {
        None => 0,
        Some(n) => n as int,
    }
}

/// An optional limit kind's position, absent first.
pub open spec fn limit_value(o: Option<BindingObservationLimitKind>) -> int {
    match o {
        None => 0,
        Some(l) => limit_rank(l) + 1,
    }
}

/// The sort key of an error: its fields in declaration order, each absent
/// value first.
pub open spec fn error_key(e: BindingObservationError) -> Seq<int> {
    seq![
        stage_rank(e.stage),
        id_flag(e.binding_id),
        id_value(e.binding_id),
        kind_rank(e.kind),
        id_flag(e.related_binding_id),
        id_value(e.related_binding_id),
        limit_value(e.limit_kind),
        count_flag(e.actual),
        count_value(e.actual),
        count_flag(e.maximum),
        count_value(e.maximum),
    ]
}

/// The errors are strictly increasing in key order.
pub open spec fn errors_increasing(s: Seq<BindingObservationError>) -> bool {
    forall|a: int, b: int| 0 <= a < b < s.len() ==> lex_order(error_key(s[a]), error_key(s[b])) < 0
}

/// `ds` are the errors of `es` in canonical form: sorted, each once.
pub open spec fn canonical_errors_of(ds: Seq<BindingObservationError>, es: Set<BindingObservationError>) -> bool {
    errors_increasing(ds) && ds.to_set() == es
}

/// Errors with the same key are the same error.
proof fn lemma_error_key_injective(a: BindingObservationError, b: BindingObservationError)
    requires
        error_key(a) == error_key(b),
    ensures
        a == b,
{
    let (ka, kb) = (error_key(a), error_key(b));
    assert(ka[0] == kb[0] && ka[1] == kb[1] && ka[2] == kb[2] && ka[3] == kb[3]);
    assert(ka[4] == kb[4] && ka[5] == kb[5] && ka[6] == kb[6]);
    assert(ka[7] == kb[7] && ka[8] == kb[8] && ka[9] == kb[9] && ka[10] == kb[10]);
    assert(a.binding_id == b.binding_id);
    assert(a.related_binding_id == b.related_binding_id);
    assert(a.limit_kind == b.limit_kind);
    assert(a.actual == b.actual);
    assert(a.maximum == b.maximum);
}

/// An optional id as two unsigned parts.
fn id_parts(o: Option<BindingId>) -> (r: (u64, u64))
    ensures
        r.0 as int == id_flag(o),
        r.1 as int == id_value(o),
{
    match o {
        None => (0, 0),
        Some(id) => (1, id.0),
    }
}

/// An optional count as two unsigned parts.
fn count_parts(o: Option<usize>) -> (r: (u64, u64))
    ensures
        r.0 as int == count_flag(o),
        r.1 as int == count_value(o),
{
    match o {
        None => (0, 0),
        Some(n) => (1, n as u64),
    }
}

/// The key of an error as unsigned parts.
fn error_key_parts(e: BindingObservationError) -> (k: Vec<u64>)
    ensures
        k@.map_values(|x: u64| x as int) == error_key(e),
{
    let stage: u64 = match e.stage {
        BindingObservationStage::ResourcePreflight => 0,
        BindingObservationStage::StructuralValidation => 1,
        BindingObservationStage::DomainValidation => 2,
        BindingObservationStage::TemporalValidation => 3,
        BindingObservationStage::DirtySeedDerivation => 4,
        BindingObservationStage::DependencyPropagation => 5,
        BindingObservationStage::CanonicalResult => 6,
    };
    let kind: u64 = match e.kind {
        BindingObservationErrorKind::ResourceLimitExceeded => 0,
        BindingObservationErrorKind::DuplicateScopeBinding => 1,
        BindingObservationErrorKind::UnknownScopeBinding => 2,
        BindingObservationErrorKind::DuplicateObservation => 3,
        BindingObservationErrorKind::UnknownBinding => 4,
        BindingObservationErrorKind::ObservationOutOfScope => 5,
        BindingObservationErrorKind::MissingQuadState => 6,
        BindingObservationErrorKind::UnexpectedQuadState => 7,
        BindingObservationErrorKind::StaleObservation => 8,
        BindingObservationErrorKind::ConflictingReplay => 9,
        BindingObservationErrorKind::DirtyResultLimitExceeded => 10,
        BindingObservationErrorKind::PropagationWorkLimitExceeded => 11,
        BindingObservationErrorKind::RetainedReasonLimitExceeded => 12,
    };
    let l: u64 = match e.limit_kind {
        None => 0,
        Some(BindingObservationLimitKind::ScopedBindings) => 1,
        Some(BindingObservationLimitKind::PreviousObservations) => 2,
        Some(BindingObservationLimitKind::CurrentObservations) => 3,
        Some(BindingObservationLimitKind::CombinedInputs) => 4,
        Some(BindingObservationLimitKind::DirtyBindings) => 5,
        Some(BindingObservationLimitKind::PropagationWork) => 6,
        Some(BindingObservationLimitKind::RetainedReasons) => 7,
    };
    let (b0, b1) = id_parts(e.binding_id);
    let (r0, r1) = id_parts(e.related_binding_id);
    let (a0, a1) = count_parts(e.actual);
    let (m0, m1) = count_parts(e.maximum);
    let k = vec![stage, b0, b1, kind, r0, r1, l, a0, a1, m0, m1];
    assert(k@.map_values(|x: u64| x as int) =~= error_key(e));
    k
}

/// Compares two errors in key order.
fn compare_errors(a: BindingObservationError, b: BindingObservationError) -> (r: i8)
    ensures
        r == lex_order(error_key(a), error_key(b)),
{
    compare_u64_slices(error_key_parts(a).as_slice(), error_key_parts(b).as_slice())
}

/// The elements of one more of a sequence's first elements.
pub(crate) proof fn lemma_take_one_more_to_set<T>(s: Seq<T>, i: int)
    requires
        0 <= i < s.len(),
    ensures
        s.take(i + 1).to_set() == s.take(i).to_set().insert(s[i]),
{
    let (t0, t1) = (s.take(i), s.take(i + 1));
    assert forall|v: T| t1.contains(v) <==> t0.contains(v) || v == s[i] by {
        if t1.contains(v) {
            let a = choose|a: int| 0 <= a < t1.len() && t1[a] == v;
            if a < i {
                assert(t0[a] == v);
            }
        }
        if t0.contains(v) {
            let a = choose|a: int| 0 <= a < t0.len() && t0[a] == v;
            assert(t1[a] == v);
        }
        if v == s[i] {
            assert(t1[i] == v);
        }
    }
    assert(s.take(i + 1).to_set() =~= s.take(i).to_set().insert(s[i]));
}

/// The elements of a sequence after an insertion are those before and the new one.
pub(crate) proof fn lemma_insert_to_set<T>(old: Seq<T>, p: int, x: T)
    requires
        0 <= p <= old.len(),
    ensures
        old.insert(p, x).to_set() == old.to_set().insert(x),
{
    let n = old.insert(p, x);
    assert forall|v: T| n.contains(v) <==> old.contains(v) || v == x by {
        if n.contains(v) {
            let a = choose|a: int| 0 <= a < n.len() && n[a] == v;
            if a < p {
                assert(old[a] == v);
            } else if a > p {
                assert(old[a - 1] == v);
            }
        }
        if old.contains(v) {
            let a = choose|a: int| 0 <= a < old.len() && old[a] == v;
            if a < p {
                assert(n[a] == v);
            } else {
                assert(n[a + 1] == v);
            }
        }
        if v == x {
            assert(n[p] == v);
        }
    }
    assert(n.to_set() =~= old.to_set().insert(x));
}

/// Sorts errors by key, each once.
fn canonical_errors(raw: Vec<BindingObservationError>) -> (r: Vec<BindingObservationError>)
    ensures
        canonical_errors_of(r@, raw@.to_set()),
{
    let mut out: Vec<BindingObservationError> = Vec::new();
    let mut i: usize = 0;
    proof {
        assert(out@.to_set() =~= raw@.take(0).to_set());
    }
    while i < raw.len()
        invariant
            i <= raw@.len(),
            errors_increasing(out@),
            out@.to_set() == raw@.take(i as int).to_set(),
        decreases raw@.len() - i,
    {
        let x = raw[i];
        proof {
            lemma_take_one_more_to_set(raw@, i as int);
        }
        let mut p: usize = 0;
        while p < out.len() && compare_errors(out[p], x) < 0
            invariant
                p <= out@.len(),
                forall|q: int| 0 <= q < p ==> lex_order(error_key(#[trigger] out@[q]), error_key(x)) < 0,
            decreases out@.len() - p,
        {
            p += 1;
        }
        if p < out.len() && compare_errors(out[p], x) == 0 {
            proof {
                lemma_lex_order_antisymmetric(error_key(out@[p as int]), error_key(x));
                lemma_error_key_injective(out@[p as int], x);
                assert(out@.contains(x));
                assert(out@.to_set().insert(x) =~= out@.to_set());
            }
        } else {
            let ghost old = out@;
            proof {
                lemma_insert_to_set(old, p as int, x);
                if p < old.len() {
                    lemma_lex_order_antisymmetric(error_key(old[p as int]), error_key(x));
                }
            }
            out.insert(p, x);
            proof {
                let n = out@;
                assert forall|a: int, b: int| 0 <= a < b < n.len() implies lex_order(error_key(n[a]), error_key(n[b])) < 0 by {
                    if a == p && b > p {
                        assert(n[b] == old[b - 1]);
                        if b - 1 > p {
                            lemma_lex_order_antisymmetric(error_key(x), error_key(old[p as int]));
                            crate::contract_primitives::lemma_lex_order_strict_transitive(error_key(x), error_key(old[p as int]), error_key(old[b - 1]));
                        }
                    } else if a < p && b == p {
                        assert(n[a] == old[a]);
                    } else if a < p && b > p {
                        assert(n[a] == old[a]);
                        assert(n[b] == old[b - 1]);
                        lemma_lex_order_antisymmetric(error_key(x), error_key(old[p as int]));
                        if b - 1 > p {
                            crate::contract_primitives::lemma_lex_order_strict_transitive(error_key(x), error_key(old[p as int]), error_key(old[b - 1]));
                        }
                        crate::contract_primitives::lemma_lex_order_strict_transitive(error_key(old[a]), error_key(x), error_key(old[b - 1]));
                    } else if a > p {
                        assert(n[a] == old[a - 1]);
                        assert(n[b] == old[b - 1]);
                    } else {
                        assert(n[a] == old[a]);
                        assert(n[b] == old[b]);
                    }
                }
            }
        }
        i += 1;
    }
    proof {
        assert(raw@.take(raw@.len() as int) =~= raw@);
    }
    out
}

/// The resource error when `actual` passes `maximum`.
pub open spec fn input_limit_errors(actual: usize, maximum: usize, kind: BindingObservationLimitKind) -> Seq<BindingObservationError> {
    if actual > maximum {
        seq![limit_error(BindingObservationStage::ResourcePreflight, BindingObservationErrorKind::ResourceLimitExceeded, None, kind, actual, maximum)]
    } else {
        Seq::empty()
    }
}

/// The resource errors of the inputs: too many scoped bindings, previous or
/// current observations, or more inputs in all than can be counted.
pub open spec fn preflight_errors(scoped: usize, previous: usize, current: usize, limits: BindingObservationLimits) -> Seq<BindingObservationError> {
    input_limit_errors(scoped, limits.spec_max_scoped_bindings(), BindingObservationLimitKind::ScopedBindings) + input_limit_errors(
        previous,
        limits.spec_max_observations_per_snapshot(),
        BindingObservationLimitKind::PreviousObservations,
    ) + input_limit_errors(current, limits.spec_max_observations_per_snapshot(), BindingObservationLimitKind::CurrentObservations)
        + if scoped + previous + current > usize::MAX {
        seq![limit_error(BindingObservationStage::ResourcePreflight, BindingObservationErrorKind::ResourceLimitExceeded, None, BindingObservationLimitKind::CombinedInputs, usize::MAX, usize::MAX)]
    } else {
        Seq::empty()
    }
}

fn push_input_limit_error(actual: usize, maximum: usize, limit_kind: BindingObservationLimitKind, errors: &mut Vec<BindingObservationError>)
    ensures
        final(errors)@ == old(errors)@ + input_limit_errors(actual, maximum, limit_kind),
{
    if actual > maximum {
        errors.push(BindingObservationError::limit(
            BindingObservationStage::ResourcePreflight,
            BindingObservationErrorKind::ResourceLimitExceeded,
            None,
            limit_kind,
            actual,
            maximum,
        ));
    } else {
        assert(old(errors)@ + input_limit_errors(actual, maximum, limit_kind) =~= old(errors)@);
    }
}

fn resource_preflight(scoped: usize, previous: usize, current: usize, limits: BindingObservationLimits) -> (r: Vec<BindingObservationError>)
    ensures
        r@ == preflight_errors(scoped, previous, current, limits),
{
    let mut errors: Vec<BindingObservationError> = Vec::new();
    push_input_limit_error(scoped, limits.max_scoped_bindings, BindingObservationLimitKind::ScopedBindings, &mut errors);
    push_input_limit_error(previous, limits.max_observations_per_snapshot, BindingObservationLimitKind::PreviousObservations, &mut errors);
    push_input_limit_error(current, limits.max_observations_per_snapshot, BindingObservationLimitKind::CurrentObservations, &mut errors);
    let combined = match scoped.checked_add(previous) {
        Some(count) => count.checked_add(current),
        None => None,
    };
    let ghost before = errors@;
    if combined.is_none() {
        errors.push(BindingObservationError::limit(
            BindingObservationStage::ResourcePreflight,
            BindingObservationErrorKind::ResourceLimitExceeded,
            None,
            BindingObservationLimitKind::CombinedInputs,
            usize::MAX,
            usize::MAX,
        ));
    }
    proof {
        assert(errors@ =~= preflight_errors(scoped, previous, current, limits));
    }
    errors
}

/// An element of a concatenation is an element of one of its parts.
pub(crate) proof fn lemma_concat_contains<T>(a: Seq<T>, b: Seq<T>, x: T)
    ensures
        (a + b).contains(x) <==> a.contains(x) || b.contains(x),
{
    let c = a + b;
    if c.contains(x) {
        let k = choose|k: int| 0 <= k < c.len() && c[k] == x;
        if k < a.len() {
            assert(a[k] == x);
        } else {
            assert(b[k - a.len()] == x);
        }
    }
    if a.contains(x) {
        let k = choose|k: int| 0 <= k < a.len() && a[k] == x;
        assert(c[k] == x);
    }
    if b.contains(x) {
        let k = choose|k: int| 0 <= k < b.len() && b[k] == x;
        assert(c[k + a.len()] == x);
    }
}

/// Id `id` occurs at least twice in `ids`.
pub open spec fn appears_twice(ids: Seq<BindingId>, id: BindingId) -> bool {
    exists|a: int, b: int| 0 <= a < b < ids.len() && #[trigger] ids[a] == id && #[trigger] ids[b] == id
}

/// The ids of observations, in order.
pub open spec fn observed_ids(obs: Seq<BindingObservation>) -> Seq<BindingId> {
    obs.map_values(|o: BindingObservation| o.spec_binding_id())
}

/// `e` is the error of `stage` and `kind` about `id` alone.
pub open spec fn is_content_error(e: BindingObservationError, stage: BindingObservationStage, kind: BindingObservationErrorKind, id: BindingId) -> bool {
    e == content_error(stage, kind, id)
}

/// `e` is a structural error of the inputs: a scoped id given twice or
/// unknown to the graph; an observed id given twice in one snapshot, unknown
/// to the graph, or known but out of scope.
pub open spec fn structural_error(
    g: Seq<BindingDeclaration>,
    sc: Seq<BindingId>,
    pv: Seq<BindingObservation>,
    cu: Seq<BindingObservation>,
    e: BindingObservationError,
) -> bool {
    match e.binding_id {
        None => false,
        Some(id) => is_content_error(e, BindingObservationStage::StructuralValidation, e.kind, id) && match e.kind {
            BindingObservationErrorKind::DuplicateScopeBinding => appears_twice(sc, id),
            BindingObservationErrorKind::UnknownScopeBinding => sc.contains(id) && !binding_declared(g, id),
            BindingObservationErrorKind::DuplicateObservation => appears_twice(observed_ids(pv), id) || appears_twice(
                observed_ids(cu),
                id,
            ),
            BindingObservationErrorKind::UnknownBinding => (observed_ids(pv).contains(id) || observed_ids(cu).contains(id))
                && !binding_declared(g, id),
            BindingObservationErrorKind::ObservationOutOfScope => (observed_ids(pv).contains(id) || observed_ids(
                cu,
            ).contains(id)) && binding_declared(g, id) && !sc.contains(id),
            _ => false,
        },
    }
}

/// The ids of observations.
fn observation_ids(obs: &[BindingObservation]) -> (r: Vec<BindingId>)
    ensures
        r@ == observed_ids(obs@),
{
    let mut r: Vec<BindingId> = Vec::new();
    let mut i: usize = 0;
    while i < obs.len()
        invariant
            i <= obs@.len(),
            r@ == observed_ids(obs@.take(i as int)),
        decreases obs@.len() - i,
    {
        r.push(obs[i].binding_id);
        proof {
            assert(observed_ids(obs@.take(i + 1)) =~= observed_ids(obs@.take(i as int)).push(obs@[i as int].spec_binding_id()));
        }
        i += 1;
    }
    proof {
        assert(obs@.take(obs@.len() as int) =~= obs@);
    }
    r
}

/// Whether `id` is among `ids`.
fn contains_id(ids: &[BindingId], id: BindingId) -> (r: bool)
    ensures
        r == ids@.contains(id),
{
    let mut i: usize = 0;
    while i < ids.len()
        invariant
            i <= ids@.len(),
            forall|k: int| 0 <= k < i ==> ids@[k] != id,
        decreases ids@.len() - i,
    {
        if ids[i] == id {
            return true;
        }
        i += 1;
    }
    false
}

/// Whether some declaration has id `id`.
fn declared(g: &Vec<BindingDeclaration>, id: BindingId) -> (r: bool)
    ensures
        r == binding_declared(g@, id),
{
    let mut i: usize = 0;
    while i < g.len()
        invariant
            i <= g@.len(),
            forall|k: int| 0 <= k < i ==> #[trigger] g@[k].id != id,
        decreases g@.len() - i,
    {
        if g[i].id == id {
            return true;
        }
        i += 1;
    }
    false
}

/// One error of `stage` and `kind` for each id given twice.
fn collect_duplicates(ids: &[BindingId], stage: BindingObservationStage, kind: BindingObservationErrorKind) -> (r: Vec<BindingObservationError>)
    ensures
        forall|e: BindingObservationError| r@.contains(e) <==> match e.binding_id {
            None => false,
            Some(id) => is_content_error(e, stage, kind, id) && appears_twice(ids@, id),
        },
{
    let mut r: Vec<BindingObservationError> = Vec::new();
    let mut a: usize = 0;
    while a < ids.len()
        invariant
            a <= ids@.len(),
            forall|e: BindingObservationError| r@.contains(e) <==> match e.binding_id {
                None => false,
                Some(id) => is_content_error(e, stage, kind, id) && exists|x: int, y: int| 0 <= x < a && x < y < ids@.len() && #[trigger] ids@[x] == id && #[trigger] ids@[y] == id,
            },
        decreases ids@.len() - a,
    {
        let mut twice = false;
        let mut b: usize = a + 1;
        while b < ids.len()
            invariant
                a < b <= ids@.len(),
                twice == exists|y: int| a < y < b && #[trigger] ids@[y] == ids@[a as int],
            decreases ids@.len() - b,
        {
            if ids[b] == ids[a] {
                twice = true;
            }
            b += 1;
        }
        let ghost old_r = r@;
        let err = BindingObservationError::content(stage, kind, ids[a]);
        if twice {
            r.push(err);
        }
        proof {
            assert forall|e: BindingObservationError| r@.contains(e) <==> match e.binding_id {
                None => false,
                Some(id) => is_content_error(e, stage, kind, id) && exists|x: int, y: int| 0 <= x < a + 1 && x < y < ids@.len() && #[trigger] ids@[x] == id && #[trigger] ids@[y] == id,
            } by {
                if twice {
                    assert(r@ == old_r + seq![err]);
                    lemma_concat_contains(old_r, seq![err], e);
                    assert(seq![err][0] == err);
                    assert(seq![err].contains(e) <==> e == err);
                    if e == err {
                        let y = choose|y: int| a < y < ids@.len() && #[trigger] ids@[y] == ids@[a as int];
                        assert(ids@[a as int] == ids@[a as int] && ids@[y] == ids@[a as int]);
                    }
                } else {
                    assert(r@ == old_r);
                }
                match e.binding_id {
                    None => {},
                    Some(id) => {
                        if is_content_error(e, stage, kind, id) && exists|x: int, y: int| 0 <= x < a + 1 && x < y < ids@.len() && #[trigger] ids@[x] == id && #[trigger] ids@[y] == id {
                            let (x, y) = choose|x: int, y: int| 0 <= x < a + 1 && x < y < ids@.len() && #[trigger] ids@[x] == id && #[trigger] ids@[y] == id;
                            if x == a {
                                assert(e == err);
                            }
                        }
                    },
                }
            }
        }
        a += 1;
    }
    proof {
        assert forall|e: BindingObservationError| r@.contains(e) <==> match e.binding_id {
            None => false,
            Some(id) => is_content_error(e, stage, kind, id) && appears_twice(ids@, id),
        } by {
            match e.binding_id {
                None => {},
                Some(id) => {
                    if appears_twice(ids@, id) {
                        let (x, y) = choose|x: int, y: int| 0 <= x < y < ids@.len() && #[trigger] ids@[x] == id && #[trigger] ids@[y] == id;
                        assert(ids@[x] == id && ids@[y] == id);
                    }
                },
            }
        }
    }
    r
}

/// An element of one more of a sequence's first elements.
pub(crate) proof fn lemma_take_one_more_contains<T>(s: Seq<T>, i: int, x: T)
    requires
        0 <= i < s.len(),
    ensures
        s.take(i + 1).contains(x) <==> s.take(i).contains(x) || x == s[i],
{
    lemma_take_one_more_to_set(s, i);
    assert(s.take(i + 1).to_set().contains(x) == s.take(i + 1).contains(x));
    assert(s.take(i).to_set().contains(x) == s.take(i).contains(x));
}

/// A sequence with one more element.
pub(crate) proof fn lemma_push_contains<T>(s: Seq<T>, y: T, x: T)
    ensures
        s.push(y).contains(x) <==> s.contains(x) || x == y,
{
    lemma_concat_contains(s, seq![y], x);
    assert(s.push(y) == s + seq![y]);
    assert(seq![y][0] == y);
}

/// One error for each scoped id unknown to the graph.
fn unknown_scope_errors(g: &Vec<BindingDeclaration>, sc: &[BindingId]) -> (r: Vec<BindingObservationError>)
    ensures
        forall|e: BindingObservationError| r@.contains(e) <==> match e.binding_id {
            None => false,
            Some(id) => is_content_error(e, BindingObservationStage::StructuralValidation, BindingObservationErrorKind::UnknownScopeBinding, id)
                && sc@.contains(id) && !binding_declared(g@, id),
        },
{
    let mut r: Vec<BindingObservationError> = Vec::new();
    let mut i: usize = 0;
    while i < sc.len()
        invariant
            i <= sc@.len(),
            forall|e: BindingObservationError| r@.contains(e) <==> match e.binding_id {
                None => false,
                Some(id) => is_content_error(e, BindingObservationStage::StructuralValidation, BindingObservationErrorKind::UnknownScopeBinding, id)
                    && sc@.take(i as int).contains(id) && !binding_declared(g@, id),
            },
        decreases sc@.len() - i,
    {
        let id = sc[i];
        let known = declared(g, id);
        let ghost old_r = r@;
        let err = BindingObservationError::content(BindingObservationStage::StructuralValidation, BindingObservationErrorKind::UnknownScopeBinding, id);
        if !known {
            r.push(err);
        }
        proof {
            assert forall|e: BindingObservationError| r@.contains(e) <==> match e.binding_id {
                None => false,
                Some(x) => is_content_error(e, BindingObservationStage::StructuralValidation, BindingObservationErrorKind::UnknownScopeBinding, x)
                    && sc@.take(i + 1).contains(x) && !binding_declared(g@, x),
            } by {
                if !known {
                    lemma_push_contains(old_r, err, e);
                }
                match e.binding_id {
                    None => {},
                    Some(x) => {
                        lemma_take_one_more_contains(sc@, i as int, x);
                    },
                }
            }
        }
        i += 1;
    }
    proof {
        assert(sc@.take(sc@.len() as int) =~= sc@);
    }
    r
}

/// One error for each observed id unknown to the graph, and one for each
/// known id out of scope.
fn observation_scope_errors(g: &Vec<BindingDeclaration>, sc: &[BindingId], ids: &[BindingId]) -> (r: Vec<BindingObservationError>)
    ensures
        forall|e: BindingObservationError| r@.contains(e) <==> match e.binding_id {
            None => false,
            Some(id) => ids@.contains(id) && ((is_content_error(e, BindingObservationStage::StructuralValidation, BindingObservationErrorKind::UnknownBinding, id)
                && !binding_declared(g@, id)) || (is_content_error(e, BindingObservationStage::StructuralValidation, BindingObservationErrorKind::ObservationOutOfScope, id)
                && binding_declared(g@, id) && !sc@.contains(id))),
        },
{
    let mut r: Vec<BindingObservationError> = Vec::new();
    let mut i: usize = 0;
    while i < ids.len()
        invariant
            i <= ids@.len(),
            forall|e: BindingObservationError| r@.contains(e) <==> match e.binding_id {
                None => false,
                Some(id) => ids@.take(i as int).contains(id) && ((is_content_error(e, BindingObservationStage::StructuralValidation, BindingObservationErrorKind::UnknownBinding, id)
                    && !binding_declared(g@, id)) || (is_content_error(e, BindingObservationStage::StructuralValidation, BindingObservationErrorKind::ObservationOutOfScope, id)
                    && binding_declared(g@, id) && !sc@.contains(id))),
            },
        decreases ids@.len() - i,
    {
        let id = ids[i];
        let known = declared(g, id);
        let scoped = contains_id(sc, id);
        let ghost old_r = r@;
        let unknown = BindingObservationError::content(BindingObservationStage::StructuralValidation, BindingObservationErrorKind::UnknownBinding, id);
        let outside = BindingObservationError::content(BindingObservationStage::StructuralValidation, BindingObservationErrorKind::ObservationOutOfScope, id);
        if !known {
            r.push(unknown);
        } else if !scoped {
            r.push(outside);
        }
        proof {
            assert forall|e: BindingObservationError| r@.contains(e) <==> match e.binding_id {
                None => false,
                Some(x) => ids@.take(i + 1).contains(x) && ((is_content_error(e, BindingObservationStage::StructuralValidation, BindingObservationErrorKind::UnknownBinding, x)
                    && !binding_declared(g@, x)) || (is_content_error(e, BindingObservationStage::StructuralValidation, BindingObservationErrorKind::ObservationOutOfScope, x)
                    && binding_declared(g@, x) && !sc@.contains(x))),
            } by {
                if !known {
                    lemma_push_contains(old_r, unknown, e);
                } else if !scoped {
                    lemma_push_contains(old_r, outside, e);
                }
                match e.binding_id {
                    None => {},
                    Some(x) => {
                        lemma_take_one_more_contains(ids@, i as int, x);
                    },
                }
            }
        }
        i += 1;
    }
    proof {
        assert(ids@.take(ids@.len() as int) =~= ids@);
    }
    r
}

/// The structural errors of the inputs, each at least once.
fn structural_errors(g: &Vec<BindingDeclaration>, sc: &[BindingId], pv: &[BindingObservation], cu: &[BindingObservation]) -> (r: Vec<BindingObservationError>)
    ensures
        forall|e: BindingObservationError| r@.contains(e) <==> structural_error(g@, sc@, pv@, cu@, e),
{
    let e1 = collect_duplicates(sc, BindingObservationStage::StructuralValidation, BindingObservationErrorKind::DuplicateScopeBinding);
    let e2 = unknown_scope_errors(g, sc);
    let e3 = validate_observation_structure(g, sc, pv);
    let e4 = validate_observation_structure(g, sc, cu);
    let mut r = e1;
    let mut e2 = e2;
    let mut e3 = e3;
    let mut e4 = e4;
    let ghost (s1, s2, s3, s4) = (r@, e2@, e3@, e4@);
    r.append(&mut e2);
    r.append(&mut e3);
    r.append(&mut e4);
    proof {
        assert(r@ == s1 + s2 + s3 + s4);
        assert forall|e: BindingObservationError| r@.contains(e) <==> structural_error(g@, sc@, pv@, cu@, e) by {
            lemma_concat_contains(s1 + s2 + s3, s4, e);
            lemma_concat_contains(s1 + s2, s3, e);
            lemma_concat_contains(s1, s2, e);
        }
    }
    r
}

/// `e` is a structural error of one snapshot's observations: a binding
/// observed twice, an observed binding the graph does not declare, or one
/// outside the scope.
pub open spec fn observation_structure_error(
    g: Seq<BindingDeclaration>,
    sc: Seq<BindingId>,
    obs: Seq<BindingObservation>,
    e: BindingObservationError,
) -> bool {
    match e.binding_id {
        None => false,
        Some(id) => (is_content_error(e, BindingObservationStage::StructuralValidation, BindingObservationErrorKind::DuplicateObservation, id)
            && appears_twice(observed_ids(obs), id)) || (observed_ids(obs).contains(id) && ((is_content_error(
            e,
            BindingObservationStage::StructuralValidation,
            BindingObservationErrorKind::UnknownBinding,
            id,
        ) && !binding_declared(g, id)) || (is_content_error(
            e,
            BindingObservationStage::StructuralValidation,
            BindingObservationErrorKind::ObservationOutOfScope,
            id,
        ) && binding_declared(g, id) && !sc.contains(id)))),
    }
}

/// The structural errors of one snapshot's observations, each at least once.
fn validate_observation_structure(g: &Vec<BindingDeclaration>, sc: &[BindingId], obs: &[BindingObservation]) -> (r: Vec<BindingObservationError>)
    ensures
        forall|e: BindingObservationError| r@.contains(e) <==> observation_structure_error(g@, sc@, obs@, e),
{
    let ids = observation_ids(obs);
    let duplicates = collect_duplicates(ids.as_slice(), BindingObservationStage::StructuralValidation, BindingObservationErrorKind::DuplicateObservation);
    let scope = observation_scope_errors(g, sc, ids.as_slice());
    let mut r = duplicates;
    let mut scope = scope;
    let ghost (s1, s2) = (r@, scope@);
    r.append(&mut scope);
    proof {
        assert(r@ == s1 + s2);
        assert forall|e: BindingObservationError| r@.contains(e) <==> observation_structure_error(g@, sc@, obs@, e) by {
            lemma_concat_contains(s1, s2, e);
        }
    }
    r
}

/// `k` is the position of the last declaration with id `id`.
pub open spec fn is_last_with_id(g: Seq<BindingDeclaration>, id: BindingId, k: int) -> bool {
    &&& 0 <= k < g.len()
    &&& g[k].id == id
    &&& forall|m: int| k < m < g.len() ==> #[trigger] g[m].id != id
}

/// The graph gives `id` the quad domain: its last declaration does.
pub open spec fn graph_domain_is_quad(g: Seq<BindingDeclaration>, id: BindingId) -> bool {
    exists|k: int| #[trigger] is_last_with_id(g, id, k) && g[k].domain == BindingValueDomain::Quad
}

/// The graph gives `id` a domain other than quad: its last declaration does.
pub open spec fn graph_domain_is_not_quad(g: Seq<BindingDeclaration>, id: BindingId) -> bool {
    exists|k: int| #[trigger] is_last_with_id(g, id, k) && g[k].domain != BindingValueDomain::Quad
}

/// Some observation of `id` carries a quad state, or none, as `with_quad` says.
pub open spec fn observed_with(obs: Seq<BindingObservation>, id: BindingId, with_quad: bool) -> bool {
    exists|k: int| 0 <= k < obs.len() && #[trigger] obs[k].spec_binding_id() == id && (obs[k].spec_quad_state() is Some) == with_quad
}

/// `e` is a domain error of one snapshot: a quad binding observed without
/// a quad state, or another binding observed with one.
pub open spec fn snapshot_domain_error(g: Seq<BindingDeclaration>, obs: Seq<BindingObservation>, e: BindingObservationError) -> bool {
    match e.binding_id {
        None => false,
        Some(id) => (is_content_error(e, BindingObservationStage::DomainValidation, BindingObservationErrorKind::MissingQuadState, id)
            && observed_with(obs, id, false) && graph_domain_is_quad(g, id)) || (is_content_error(
            e,
            BindingObservationStage::DomainValidation,
            BindingObservationErrorKind::UnexpectedQuadState,
            id,
        ) && observed_with(obs, id, true) && graph_domain_is_not_quad(g, id)),
    }
}

/// The position of the last declaration with id `id`, if any.
fn last_index_of(g: &Vec<BindingDeclaration>, id: BindingId) -> (r: Option<usize>)
    ensures
        match r {
            Some(k) => is_last_with_id(g@, id, k as int),
            None => !binding_declared(g@, id),
        },
{
    let mut k: usize = g.len();
    while k > 0
        invariant
            k <= g@.len(),
            forall|m: int| k <= m < g@.len() ==> #[trigger] g@[m].id != id,
        decreases k,
    {
        if g[k - 1].id == id {
            return Some(k - 1);
        }
        k -= 1;
    }
    None
}

/// There is one last position of an id.
proof fn lemma_last_with_id_unique(g: Seq<BindingDeclaration>, id: BindingId, a: int, b: int)
    requires
        is_last_with_id(g, id, a),
        is_last_with_id(g, id, b),
    ensures
        a == b,
{
    if a < b {
        assert(g[b].id == id);
    } else if b < a {
        assert(g[a].id == id);
    }
}

/// The domain errors of one snapshot, each at least once.
fn validate_domains(g: &Vec<BindingDeclaration>, obs: &[BindingObservation]) -> (r: Vec<BindingObservationError>)
    ensures
        forall|e: BindingObservationError| r@.contains(e) <==> snapshot_domain_error(g@, obs@, e),
{
    let mut r: Vec<BindingObservationError> = Vec::new();
    let mut i: usize = 0;
    while i < obs.len()
        invariant
            i <= obs@.len(),
            forall|e: BindingObservationError| r@.contains(e) <==> snapshot_domain_error(g@, obs@.take(i as int), e),
        decreases obs@.len() - i,
    {
        let o = obs[i];
        let ghost old_r = r@;
        let missing = BindingObservationError::content(BindingObservationStage::DomainValidation, BindingObservationErrorKind::MissingQuadState, o.binding_id);
        let unexpected = BindingObservationError::content(BindingObservationStage::DomainValidation, BindingObservationErrorKind::UnexpectedQuadState, o.binding_id);
        let ghost mut pushed: Option<BindingObservationError> = None;
        match last_index_of(g, o.binding_id) {
            Some(k) => {
                let is_quad = g[k].domain == BindingValueDomain::Quad;
                if is_quad && o.quad_state.is_none() {
                    r.push(missing);
                    proof {
                        pushed = Some(missing);
                    }
                } else if !is_quad && o.quad_state.is_some() {
                    r.push(unexpected);
                    proof {
                        pushed = Some(unexpected);
                    }
                }
                proof {
                    assert forall|j: int| #[trigger] is_last_with_id(g@, o.binding_id, j) implies j == k by {
                        lemma_last_with_id_unique(g@, o.binding_id, j, k as int);
                    }
                }
            },
            None => {},
        }
        proof {
            let s0 = obs@.take(i as int);
            let s1 = obs@.take(i + 1);
            assert forall|x: BindingId, q: bool| observed_with(s1, x, q) <==> observed_with(s0, x, q) || (o.binding_id == x && (o.quad_state is Some) == q) by {
                if observed_with(s1, x, q) {
                    let k = choose|k: int| 0 <= k < s1.len() && #[trigger] s1[k].spec_binding_id() == x && (s1[k].spec_quad_state() is Some) == q;
                    if k < i {
                        assert(s0[k] == s1[k]);
                    } else {
                        assert(s1[k] == o);
                    }
                }
                if observed_with(s0, x, q) {
                    let k = choose|k: int| 0 <= k < s0.len() && #[trigger] s0[k].spec_binding_id() == x && (s0[k].spec_quad_state() is Some) == q;
                    assert(s0[k] == s1[k]);
                }
                if o.binding_id == x && (o.quad_state is Some) == q {
                    assert(s1[i as int] == o);
                    assert(s1[i as int].spec_binding_id() == x);
                }
            }
            assert forall|e: BindingObservationError| r@.contains(e) <==> snapshot_domain_error(g@, s1, e) by {
                match pushed {
                    Some(p) => {
                        lemma_push_contains(old_r, p, e);
                    },
                    None => {},
                }
                if !binding_declared(g@, o.binding_id) {
                    if graph_domain_is_quad(g@, o.binding_id) {
                        let k = choose|k: int| #[trigger] is_last_with_id(g@, o.binding_id, k) && g@[k].domain == BindingValueDomain::Quad;
                        assert(g@[k].id == o.binding_id);
                    }
                    if graph_domain_is_not_quad(g@, o.binding_id) {
                        let k = choose|k: int| #[trigger] is_last_with_id(g@, o.binding_id, k) && g@[k].domain != BindingValueDomain::Quad;
                        assert(g@[k].id == o.binding_id);
                    }
                }
            }
        }
        i += 1;
    }
    proof {
        assert(obs@.take(obs@.len() as int) =~= obs@);
    }
    r
}

/// The ids are strictly increasing.
pub open spec fn ids_increasing(s: Seq<BindingId>) -> bool {
    forall|a: int, b: int| 0 <= a < b < s.len() ==> s[a].0 < s[b].0
}

/// Two strictly increasing id sequences with the same elements are equal.
pub(crate) proof fn lemma_increasing_ids_unique(s: Seq<BindingId>, t: Seq<BindingId>)
    requires
        ids_increasing(s),
        ids_increasing(t),
        s.to_set() == t.to_set(),
    ensures
        s == t,
    decreases s.len(),
{
    if s.len() == 0 {
        if t.len() > 0 {
            assert(t.to_set().contains(t[0]));
        }
        assert(s =~= t);
    } else if t.len() == 0 {
        assert(s.to_set().contains(s[0]));
    } else {
        assert(s.to_set().contains(s[0]));
        assert(t.to_set().contains(t[0]));
        let j = choose|j: int| 0 <= j < t.len() && t[j] == s[0];
        let i = choose|i: int| 0 <= i < s.len() && s[i] == t[0];
        assert(s[0] == t[0]);
        let (s1, t1) = (s.drop_first(), t.drop_first());
        assert forall|x: BindingId| s1.contains(x) <==> t1.contains(x) by {
            if s1.contains(x) {
                let a = choose|a: int| 0 <= a < s1.len() && s1[a] == x;
                assert(s[a + 1] == x);
                assert(s.to_set().contains(x));
                let b = choose|b: int| 0 <= b < t.len() && t[b] == x;
                if b == 0 {
                    assert(s[0].0 < s[a + 1].0);
                }
                assert(t1[b - 1] == x);
            }
            if t1.contains(x) {
                let a = choose|a: int| 0 <= a < t1.len() && t1[a] == x;
                assert(t[a + 1] == x);
                assert(t.to_set().contains(x));
                let b = choose|b: int| 0 <= b < s.len() && s[b] == x;
                if b == 0 {
                    assert(t[0].0 < t[a + 1].0);
                }
                assert(s1[b - 1] == x);
            }
        }
        assert(s1.to_set() =~= t1.to_set());
        lemma_increasing_ids_unique(s1, t1);
        assert(s =~= seq![s[0]] + s1);
        assert(t =~= seq![t[0]] + t1);
    }
}

/// The scoped ids in increasing order, each once.
pub open spec fn sorted_scope(sc: Seq<BindingId>) -> Seq<BindingId> {
    choose|s: Seq<BindingId>| ids_increasing(s) && s.to_set() == sc.to_set()
}

/// The ids in increasing order, each once.
pub(crate) fn sorted_ids(ids: &[BindingId]) -> (r: Vec<BindingId>)
    ensures
        r@ == sorted_scope(ids@),
        ids_increasing(r@),
        r@.to_set() == ids@.to_set(),
{
    let mut out: Vec<BindingId> = Vec::new();
    let mut i: usize = 0;
    proof {
        assert(out@.to_set() =~= ids@.take(0).to_set());
    }
    while i < ids.len()
        invariant
            i <= ids@.len(),
            ids_increasing(out@),
            out@.to_set() == ids@.take(i as int).to_set(),
        decreases ids@.len() - i,
    {
        let x = ids[i];
        proof {
            lemma_take_one_more_to_set(ids@, i as int);
        }
        let mut p: usize = 0;
        while p < out.len() && out[p].0 < x.0
            invariant
                p <= out@.len(),
                forall|q: int| 0 <= q < p ==> (#[trigger] out@[q]).0 < x.0,
            decreases out@.len() - p,
        {
            p += 1;
        }
        if p < out.len() && out[p].0 == x.0 {
            proof {
                assert(out@[p as int] == x);
                assert(out@.contains(x));
                assert(out@.to_set().insert(x) =~= out@.to_set());
            }
        } else {
            let ghost old = out@;
            proof {
                lemma_insert_to_set(old, p as int, x);
            }
            out.insert(p, x);
            proof {
                let n = out@;
                assert forall|a: int, b: int| 0 <= a < b < n.len() implies n[a].0 < n[b].0 by {
                    if a == p && b > p {
                        assert(n[b] == old[b - 1]);
                        if b - 1 > p {
                            assert(old[p as int].0 < old[b - 1].0);
                        }
                    } else if a < p && b == p {
                        assert(n[a] == old[a]);
                    } else if a < p && b > p {
                        assert(n[a] == old[a]);
                        assert(n[b] == old[b - 1]);
                    } else if a > p {
                        assert(n[a] == old[a - 1]);
                        assert(n[b] == old[b - 1]);
                    } else {
                        assert(n[a] == old[a]);
                        assert(n[b] == old[b]);
                    }
                }
            }
        }
        i += 1;
    }
    proof {
        assert(ids@.take(ids@.len() as int) =~= ids@);
        let s = sorted_scope(ids@);
        assert(ids_increasing(out@) && out@.to_set() == ids@.to_set());
        lemma_increasing_ids_unique(s, out@);
    }
    out
}

/// Each id is observed at most once.
pub open spec fn observed_once(obs: Seq<BindingObservation>) -> bool {
    forall|x: BindingId| !appears_twice(observed_ids(obs), x)
}

/// The observation of `id` in a snapshot, if any.
pub open spec fn observation_of(obs: Seq<BindingObservation>, id: BindingId) -> Option<BindingObservation> {
    if exists|k: int| 0 <= k < obs.len() && #[trigger] obs[k].spec_binding_id() == id {
        Some(obs[choose|k: int| 0 <= k < obs.len() && #[trigger] obs[k].spec_binding_id() == id])
    } else {
        None
    }
}

/// `a` was observed strictly before `b`: in an earlier epoch, or in the same
/// epoch at an earlier revision.
pub open spec fn observed_before(a: BindingObservation, b: BindingObservation) -> bool {
    ||| a.spec_epoch().spec_raw() < b.spec_epoch().spec_raw()
    ||| a.spec_epoch().spec_raw() == b.spec_epoch().spec_raw() && a.spec_revision().spec_raw() < b.spec_revision().spec_raw()
}

/// `a` and `b` were observed at the same epoch and revision.
pub open spec fn observed_together(a: BindingObservation, b: BindingObservation) -> bool {
    a.spec_epoch().spec_raw() == b.spec_epoch().spec_raw() && a.spec_revision().spec_raw() == b.spec_revision().spec_raw()
}

/// `e` is a temporal error of a scoped binding observed in both snapshots:
/// the current observation is older than the previous one, or replays its
/// epoch and revision with another quad state.
pub open spec fn temporal_error(sc: Seq<BindingId>, pv: Seq<BindingObservation>, cu: Seq<BindingObservation>, e: BindingObservationError) -> bool {
    match e.binding_id {
        None => false,
        Some(id) => sc.contains(id) && match (observation_of(pv, id), observation_of(cu, id)) {
            (Some(p), Some(c)) => (is_content_error(e, BindingObservationStage::TemporalValidation, BindingObservationErrorKind::StaleObservation, id)
                && observed_before(c, p)) || (is_content_error(
                e,
                BindingObservationStage::TemporalValidation,
                BindingObservationErrorKind::ConflictingReplay,
                id,
            ) && observed_together(c, p) && c.spec_quad_state() != p.spec_quad_state()),
            _ => false,
        },
    }
}

/// The reason of `kind` for `id` when `c` holds.
pub open spec fn reason_when(c: bool, kind: DirtyReasonKind, id: BindingId, p: BindingObservation, q: BindingObservation) -> Seq<DirtyReason> {
    if c {
        seq![dirty_reason(kind, id, p.spec_quad_state(), q.spec_quad_state())]
    } else {
        Seq::empty()
    }
}

/// Why a scoped binding is dirty from its own observations: it was added,
/// removed, or observed later with another revision, epoch or quad state.
pub open spec fn seed_reasons(pv: Seq<BindingObservation>, cu: Seq<BindingObservation>, id: BindingId) -> Seq<DirtyReason> {
    match (observation_of(pv, id), observation_of(cu, id)) {
        (None, None) => Seq::empty(),
        (None, Some(c)) => seq![dirty_reason(DirtyReasonKind::Added, id, None, c.spec_quad_state())],
        (Some(p), None) => seq![dirty_reason(DirtyReasonKind::Removed, id, p.spec_quad_state(), None)],
        (Some(p), Some(c)) => if observed_before(p, c) {
            reason_when(p.spec_revision().spec_raw() != c.spec_revision().spec_raw(), DirtyReasonKind::RevisionChanged, id, p, c)
                + reason_when(p.spec_epoch().spec_raw() != c.spec_epoch().spec_raw(), DirtyReasonKind::EpochChanged, id, p, c)
                + reason_when(p.spec_quad_state() != c.spec_quad_state(), DirtyReasonKind::QuadValueChanged, id, p, c)
        } else {
            Seq::empty()
        },
    }
}

/// The ids of `s` that have seed reasons, in order.
pub open spec fn seed_ids(s: Seq<BindingId>, pv: Seq<BindingObservation>, cu: Seq<BindingObservation>) -> Seq<BindingId>
    decreases s.len(),
{
    if s.len() == 0 {
        Seq::empty()
    } else {
        seed_ids(s.drop_last(), pv, cu) + if seed_reasons(pv, cu, s.last()).len() > 0 {
            seq![s.last()]
        } else {
            Seq::empty()
        }
    }
}

/// The observation of `id` in a snapshot that observes each id once.
fn find_observation(obs: &[BindingObservation], id: BindingId) -> (r: Option<BindingObservation>)
    requires
        observed_once(obs@),
    ensures
        r == observation_of(obs@, id),
{
    let mut k: usize = 0;
    while k < obs.len()
        invariant
            k <= obs@.len(),
            observed_once(obs@),
            forall|m: int| 0 <= m < k ==> #[trigger] obs@[m].spec_binding_id() != id,
        decreases obs@.len() - k,
    {
        if obs[k].binding_id == id {
            proof {
                assert(obs@[k as int].spec_binding_id() == id);
                let j = choose|j: int| 0 <= j < obs@.len() && #[trigger] obs@[j].spec_binding_id() == id;
                if j != k {
                    let ids = observed_ids(obs@);
                    assert(ids[j] == obs@[j].spec_binding_id());
                    assert(ids[k as int] == obs@[k as int].spec_binding_id());
                    assert(!appears_twice(ids, id));
                    if j < k {
                        assert(ids[j] == id && ids[k as int] == id);
                    } else {
                        assert(ids[k as int] == id && ids[j] == id);
                    }
                }
            }
            return Some(obs[k]);
        }
        k += 1;
    }
    None
}

/// The seed reasons of one binding.
fn reasons_for(pv: &[BindingObservation], cu: &[BindingObservation], id: BindingId) -> (r: Vec<DirtyReason>)
    requires
        observed_once(pv@),
        observed_once(cu@),
    ensures
        r@ == seed_reasons(pv@, cu@, id),
{
    let mut r: Vec<DirtyReason> = Vec::new();
    match (find_observation(pv, id), find_observation(cu, id)) {
        (None, None) => {},
        (None, Some(c)) => {
            r.push(DirtyReason::new(DirtyReasonKind::Added, id, None, c.quad_state));
        },
        (Some(p), None) => {
            r.push(DirtyReason::new(DirtyReasonKind::Removed, id, p.quad_state, None));
        },
        (Some(p), Some(c)) => {
            let later = p.epoch.raw() < c.epoch.raw() || (p.epoch.raw() == c.epoch.raw() && p.revision.raw() < c.revision.raw());
            if later {
                if p.revision.raw() != c.revision.raw() {
                    r.push(DirtyReason::new(DirtyReasonKind::RevisionChanged, id, p.quad_state, c.quad_state));
                }
                let ghost r1 = r@;
                if p.epoch.raw() != c.epoch.raw() {
                    r.push(DirtyReason::new(DirtyReasonKind::EpochChanged, id, p.quad_state, c.quad_state));
                }
                let ghost r2 = r@;
                if p.quad_state != c.quad_state {
                    r.push(DirtyReason::new(DirtyReasonKind::QuadValueChanged, id, p.quad_state, c.quad_state));
                }
                proof {
                    let a = reason_when(p.spec_revision().spec_raw() != c.spec_revision().spec_raw(), DirtyReasonKind::RevisionChanged, id, p, c);
                    let b = reason_when(p.spec_epoch().spec_raw() != c.spec_epoch().spec_raw(), DirtyReasonKind::EpochChanged, id, p, c);
                    let d = reason_when(p.spec_quad_state() != c.spec_quad_state(), DirtyReasonKind::QuadValueChanged, id, p, c);
                    assert(r1 =~= a);
                    assert(r2 =~= a + b);
                    assert(r@ =~= a + b + d);
                }
            }
        },
    }
    r
}

/// The temporal errors of the sorted scope, and the seed reasons of each
/// scoped binding that has some, in scope order.
fn temporal_pass(ss: &Vec<BindingId>, pv: &[BindingObservation], cu: &[BindingObservation]) -> (r: (Vec<BindingObservationError>, Vec<(BindingId, Vec<DirtyReason>)>))
    requires
        observed_once(pv@),
        observed_once(cu@),
    ensures
        forall|e: BindingObservationError| r.0@.contains(e) <==> temporal_error(ss@, pv@, cu@, e),
        r.1@.len() == seed_ids(ss@, pv@, cu@).len(),
        forall|k: int| 0 <= k < r.1@.len() ==> (#[trigger] r.1@[k]).0 == seed_ids(ss@, pv@, cu@)[k] && r.1@[k].1@ == seed_reasons(pv@, cu@, r.1@[k].0),
{
    let mut errors: Vec<BindingObservationError> = Vec::new();
    let mut seeds: Vec<(BindingId, Vec<DirtyReason>)> = Vec::new();
    let mut i: usize = 0;
    while i < ss.len()
        invariant
            i <= ss@.len(),
            observed_once(pv@),
            observed_once(cu@),
            forall|e: BindingObservationError| errors@.contains(e) <==> temporal_error(ss@.take(i as int), pv@, cu@, e),
            seeds@.len() == seed_ids(ss@.take(i as int), pv@, cu@).len(),
            forall|k: int| 0 <= k < seeds@.len() ==> (#[trigger] seeds@[k]).0 == seed_ids(ss@.take(i as int), pv@, cu@)[k] && seeds@[k].1@ == seed_reasons(pv@, cu@, seeds@[k].0),
        decreases ss@.len() - i,
    {
        let id = ss[i];
        let ghost old_errors = errors@;
        let ghost mut pushed: Option<BindingObservationError> = None;
        let stale = BindingObservationError::content(BindingObservationStage::TemporalValidation, BindingObservationErrorKind::StaleObservation, id);
        let replay = BindingObservationError::content(BindingObservationStage::TemporalValidation, BindingObservationErrorKind::ConflictingReplay, id);
        match (find_observation(pv, id), find_observation(cu, id)) {
            (Some(p), Some(c)) => {
                let before = c.epoch.raw() < p.epoch.raw() || (c.epoch.raw() == p.epoch.raw() && c.revision.raw() < p.revision.raw());
                let together = c.epoch.raw() == p.epoch.raw() && c.revision.raw() == p.revision.raw();
                if before {
                    errors.push(stale);
                    proof {
                        pushed = Some(stale);
                    }
                } else if together && c.quad_state != p.quad_state {
                    errors.push(replay);
                    proof {
                        pushed = Some(replay);
                    }
                }
            },
            _ => {},
        }
        let reasons = reasons_for(pv, cu, id);
        let ghost old_seeds = seeds@;
        let has_reasons = reasons.len() > 0;
        if has_reasons {
            seeds.push((id, reasons));
        }
        proof {
            let s0 = ss@.take(i as int);
            let s1 = ss@.take(i + 1);
            assert(s1.drop_last() =~= s0);
            assert(s1.last() == id);
            assert forall|x: BindingId| s1.contains(x) <==> s0.contains(x) || x == id by {
                lemma_take_one_more_contains(ss@, i as int, x);
            }
            assert forall|e: BindingObservationError| errors@.contains(e) <==> temporal_error(s1, pv@, cu@, e) by {
                match pushed {
                    Some(q) => {
                        lemma_push_contains(old_errors, q, e);
                    },
                    None => {},
                }
            }
            assert forall|k: int| 0 <= k < seeds@.len() implies (#[trigger] seeds@[k]).0 == seed_ids(s1, pv@, cu@)[k] && seeds@[k].1@ == seed_reasons(pv@, cu@, seeds@[k].0) by {
                if k < old_seeds.len() {
                    assert(seeds@[k] == old_seeds[k]);
                }
            }
        }
        i += 1;
    }
    proof {
        assert(ss@.take(ss@.len() as int) =~= ss@);
    }
    (errors, seeds)
}

/// Binding `y` depends directly on `x`: some declaration with id `y` lists `x`.
pub open spec fn dependent_of(g: Seq<BindingDeclaration>, x: BindingId, y: BindingId) -> bool {
    exists|k: int| 0 <= k < g.len() && #[trigger] g[k].id == y && lists_dependency(g[k], x)
}

/// The bindings that depend directly on `x`.
pub open spec fn dependents(g: Seq<BindingDeclaration>, x: BindingId) -> Set<BindingId> {
    Set::new(|y: BindingId| dependent_of(g, x, y))
}

/// The id at position `k` of `p` has the next one as a direct dependent.
pub open spec fn dependent_step(g: Seq<BindingDeclaration>, p: Seq<BindingId>, k: int) -> bool {
    dependent_of(g, p[k], p[k + 1])
}

/// Each id of `p` is followed by one of its direct dependents.
pub open spec fn is_dependent_path(g: Seq<BindingDeclaration>, p: Seq<BindingId>) -> bool {
    forall|k: int| 0 <= k < p.len() - 1 ==> #[trigger] dependent_step(g, p, k)
}

/// `x` is `o` or depends on `o` through one or more dependencies.
pub open spec fn reaches(g: Seq<BindingDeclaration>, o: BindingId, x: BindingId) -> bool {
    exists|p: Seq<BindingId>| #[trigger] is_dependent_path(g, p) && p.len() >= 1 && p[0] == o && p.last() == x
}

/// Whether declaration `d` lists a dependency on `x`.
fn lists(d: &BindingDeclaration, x: BindingId) -> (r: bool)
    ensures
        r == lists_dependency(*d, x),
{
    let mut j: usize = 0;
    while j < d.dependencies.len()
        invariant
            j <= d.dependencies@.len(),
            forall|m: int| 0 <= m < j ==> #[trigger] d.dependencies@[m].target_binding != x,
        decreases d.dependencies@.len() - j,
    {
        if d.dependencies[j].target_binding == x {
            return true;
        }
        j += 1;
    }
    false
}

/// The direct dependents of `x`, in increasing order of id, each once.
fn dependents_sorted(g: &Vec<BindingDeclaration>, x: BindingId) -> (r: Vec<BindingId>)
    ensures
        ids_increasing(r@),
        r@.to_set() == dependents(g@, x),
        r@.len() == dependents(g@, x).len(),
        dependents(g@, x).finite(),
{
    let mut found: Vec<BindingId> = Vec::new();
    let mut k: usize = 0;
    while k < g.len()
        invariant
            k <= g@.len(),
            forall|y: BindingId| found@.contains(y) <==> exists|m: int| 0 <= m < k && #[trigger] g@[m].id == y && lists_dependency(g@[m], x),
        decreases g@.len() - k,
    {
        let ghost old = found@;
        if lists(&g[k], x) {
            found.push(g[k].id);
        }
        proof {
            assert forall|y: BindingId| found@.contains(y) <==> exists|m: int| 0 <= m < k + 1 && #[trigger] g@[m].id == y && lists_dependency(g@[m], x) by {
                if lists_dependency(g@[k as int], x) {
                    lemma_push_contains(old, g@[k as int].id, y);
                }
                if exists|m: int| 0 <= m < k + 1 && #[trigger] g@[m].id == y && lists_dependency(g@[m], x) {
                    let m = choose|m: int| 0 <= m < k + 1 && #[trigger] g@[m].id == y && lists_dependency(g@[m], x);
                    if m < k {
                        assert(exists|m2: int| 0 <= m2 < k && #[trigger] g@[m2].id == y && lists_dependency(g@[m2], x));
                    }
                }
            }
        }
        k += 1;
    }
    let r = sorted_ids(found.as_slice());
    proof {
        assert(r@.to_set() =~= dependents(g@, x));
        r@.unique_seq_to_set();
    }
    r
}

/// The number of marked positions before `n`.
pub open spec fn mask_count(m: Seq<bool>, n: int) -> int
    decreases n,
{
    if n <= 0 {
        0
    } else {
        mask_count(m, n - 1) + if m[n - 1] { 1int } else { 0int }
    }
}

/// The number of direct dependents of the declarations at the marked
/// positions before `n`.
pub open spec fn mask_work(g: Seq<BindingDeclaration>, m: Seq<bool>, n: int) -> int
    decreases n,
{
    if n <= 0 {
        0
    } else {
        mask_work(g, m, n - 1) + if m[n - 1] { dependents(g, g[n - 1].id).len() as int } else { 0int }
    }
}

/// Marking one more position adds one to the count and its dependents to the work.
proof fn lemma_mask_mark(g: Seq<BindingDeclaration>, m: Seq<bool>, v: int, n: int)
    requires
        0 <= v < m.len(),
        !m[v],
        0 <= n <= m.len(),
    ensures
        mask_count(m.update(v, true), n) == mask_count(m, n) + if v < n { 1int } else { 0int },
        mask_work(g, m.update(v, true), n) == mask_work(g, m, n) + if v < n { dependents(g, g[v].id).len() as int } else { 0int },
    decreases n,
{
    if n > 0 {
        lemma_mask_mark(g, m, v, n - 1);
    }
}

/// Counts and work are not negative.
proof fn lemma_mask_nonnegative(g: Seq<BindingDeclaration>, m: Seq<bool>, n: int)
    ensures
        mask_count(m, n) >= 0,
        mask_work(g, m, n) >= 0,
    decreases n,
{
    if n > 0 {
        lemma_mask_nonnegative(g, m, n - 1);
    }
}

/// A mask inside another counts no more, and less when the other has a
/// position it lacks.
proof fn lemma_mask_count_subset(a: Seq<bool>, b: Seq<bool>, n: int, u: int)
    requires
        0 <= n <= a.len(),
        a.len() == b.len(),
        forall|k: int| 0 <= k < n && #[trigger] a[k] ==> b[k],
    ensures
        mask_count(a, n) <= mask_count(b, n),
        0 <= u < n && b[u] && !a[u] ==> mask_count(a, n) + 1 <= mask_count(b, n),
    decreases n,
{
    if n > 0 {
        lemma_mask_count_subset(a, b, n - 1, u);
    }
}

/// The value `x`, or the largest `usize` when it is larger.
pub open spec fn saturated(x: int) -> int {
    if x > usize::MAX { usize::MAX as int } else { x }
}

/// Adds to a count, staying at the largest `usize` instead of overflowing.
pub(crate) fn saturating_add(a: usize, b: usize) -> (r: usize)
    ensures
        r == saturated(a + b),
{
    match a.checked_add(b) {
        Some(s) => s,
        None => usize::MAX,
    }
}

/// Saturating twice is saturating the total.
proof fn lemma_saturated_add(x: int, y: int)
    requires
        x >= 0,
        y >= 0,
    ensures
        saturated(saturated(x) + y) == saturated(x + y),
{
}

/// The position of a quad state, absent first.
pub open spec fn quad_value(q: Option<BindingQuadState>) -> int {
    match q {
        None => 0,
        Some(BindingQuadState::N) => 1,
        Some(BindingQuadState::F) => 2,
        Some(BindingQuadState::T) => 3,
        Some(BindingQuadState::S) => 4,
    }
}

/// The position of a reason kind.
pub open spec fn reason_kind_rank(k: DirtyReasonKind) -> int {
    match k {
        DirtyReasonKind::Added => 0,
        DirtyReasonKind::Removed => 1,
        DirtyReasonKind::RevisionChanged => 2,
        DirtyReasonKind::EpochChanged => 3,
        DirtyReasonKind::QuadValueChanged => 4,
    }
}

/// The sort key of a reason: its fields in declaration order.
pub open spec fn reason_key(r: DirtyReason) -> Seq<int> {
    seq![reason_kind_rank(r.kind), r.originating_binding_id.0 as int, quad_value(r.previous_quad_state), quad_value(r.current_quad_state)]
}

/// The reasons are strictly increasing in key order.
pub open spec fn reasons_increasing(s: Seq<DirtyReason>) -> bool {
    forall|a: int, b: int| 0 <= a < b < s.len() ==> lex_order(reason_key(s[a]), reason_key(s[b])) < 0
}

/// Reasons with the same key are the same reason.
proof fn lemma_reason_key_injective(a: DirtyReason, b: DirtyReason)
    requires
        reason_key(a) == reason_key(b),
    ensures
        a == b,
{
    let (ka, kb) = (reason_key(a), reason_key(b));
    assert(ka[0] == kb[0] && ka[1] == kb[1] && ka[2] == kb[2] && ka[3] == kb[3]);
    assert(a.originating_binding_id == b.originating_binding_id);
}

/// The position of a quad state as an unsigned number.
fn quad_part(q: Option<BindingQuadState>) -> (r: u64)
    ensures
        r as int == quad_value(q),
{
    match q {
        None => 0,
        Some(BindingQuadState::N) => 1,
        Some(BindingQuadState::F) => 2,
        Some(BindingQuadState::T) => 3,
        Some(BindingQuadState::S) => 4,
    }
}

/// Compares two reasons in key order.
fn compare_reasons(a: DirtyReason, b: DirtyReason) -> (r: i8)
    ensures
        r == lex_order(reason_key(a), reason_key(b)),
{
    let ka: u64 = match a.kind {
        DirtyReasonKind::Added => 0,
        DirtyReasonKind::Removed => 1,
        DirtyReasonKind::RevisionChanged => 2,
        DirtyReasonKind::EpochChanged => 3,
        DirtyReasonKind::QuadValueChanged => 4,
    };
    let kb: u64 = match b.kind {
        DirtyReasonKind::Added => 0,
        DirtyReasonKind::Removed => 1,
        DirtyReasonKind::RevisionChanged => 2,
        DirtyReasonKind::EpochChanged => 3,
        DirtyReasonKind::QuadValueChanged => 4,
    };
    let pa = vec![ka, a.originating_binding_id.0, quad_part(a.previous_quad_state), quad_part(a.current_quad_state)];
    let pb = vec![kb, b.originating_binding_id.0, quad_part(b.previous_quad_state), quad_part(b.current_quad_state)];
    assert(pa@.map_values(|x: u64| x as int) =~= reason_key(a));
    assert(pb@.map_values(|x: u64| x as int) =~= reason_key(b));
    compare_u64_slices(pa.as_slice(), pb.as_slice())
}

/// Adds a reason to an ordered set of reasons.
fn insert_reason(v: &mut Vec<DirtyReason>, x: DirtyReason)
    requires
        reasons_increasing(old(v)@),
    ensures
        reasons_increasing(final(v)@),
        final(v)@.to_set() == old(v)@.to_set().insert(x),
{
    let mut p: usize = 0;
    while p < v.len() && compare_reasons(v[p], x) < 0
        invariant
            p <= v@.len(),
            forall|q: int| 0 <= q < p ==> lex_order(reason_key(#[trigger] v@[q]), reason_key(x)) < 0,
        decreases v@.len() - p,
    {
        p += 1;
    }
    if p < v.len() && compare_reasons(v[p], x) == 0 {
        proof {
            lemma_lex_order_antisymmetric(reason_key(v@[p as int]), reason_key(x));
            lemma_reason_key_injective(v@[p as int], x);
            assert(v@.contains(x));
            assert(v@.to_set().insert(x) =~= v@.to_set());
        }
    } else {
        let ghost old = v@;
        proof {
            lemma_insert_to_set(old, p as int, x);
            if p < old.len() {
                lemma_lex_order_antisymmetric(reason_key(old[p as int]), reason_key(x));
            }
        }
        v.insert(p, x);
        proof {
            let n = v@;
            assert forall|a: int, b: int| 0 <= a < b < n.len() implies lex_order(reason_key(n[a]), reason_key(n[b])) < 0 by {
                if a == p && b > p {
                    assert(n[b] == old[b - 1]);
                    if b - 1 > p {
                        lemma_lex_order_antisymmetric(reason_key(x), reason_key(old[p as int]));
                        crate::contract_primitives::lemma_lex_order_strict_transitive(reason_key(x), reason_key(old[p as int]), reason_key(old[b - 1]));
                    }
                } else if a < p && b == p {
                    assert(n[a] == old[a]);
                } else if a < p && b > p {
                    assert(n[a] == old[a]);
                    assert(n[b] == old[b - 1]);
                    lemma_lex_order_antisymmetric(reason_key(x), reason_key(old[p as int]));
                    if b - 1 > p {
                        crate::contract_primitives::lemma_lex_order_strict_transitive(reason_key(x), reason_key(old[p as int]), reason_key(old[b - 1]));
                    }
                    crate::contract_primitives::lemma_lex_order_strict_transitive(reason_key(old[a]), reason_key(x), reason_key(old[b - 1]));
                } else if a > p {
                    assert(n[a] == old[a - 1]);
                    assert(n[b] == old[b - 1]);
                } else {
                    assert(n[a] == old[a]);
                    assert(n[b] == old[b]);
                }
            }
        }
    }
}

/// Adds reasons to an ordered set of reasons.
fn add_reasons(v: &mut Vec<DirtyReason>, xs: &Vec<DirtyReason>)
    requires
        reasons_increasing(old(v)@),
    ensures
        reasons_increasing(final(v)@),
        final(v)@.to_set() == old(v)@.to_set().union(xs@.to_set()),
{
    let ghost start = v@;
    let mut i: usize = 0;
    proof {
        assert(start.to_set().union(xs@.take(0).to_set()) =~= start.to_set());
    }
    while i < xs.len()
        invariant
            i <= xs@.len(),
            reasons_increasing(v@),
            v@.to_set() == start.to_set().union(xs@.take(i as int).to_set()),
        decreases xs@.len() - i,
    {
        insert_reason(v, xs[i]);
        proof {
            lemma_take_one_more_to_set(xs@, i as int);
            assert(v@.to_set() =~= start.to_set().union(xs@.take(i + 1).to_set()));
        }
        i += 1;
    }
    proof {
        assert(xs@.take(xs@.len() as int) =~= xs@);
    }
}

/// The position of the first declaration with a declared id.
pub(crate) fn first_position(g: &Vec<BindingDeclaration>, id: BindingId) -> (k: usize)
    requires
        binding_declared(g@, id),
    ensures
        is_first_with_id(g@, id, k as int),
{
    let mut k: usize = 0;
    while k < g.len()
        invariant
            k <= g@.len(),
            binding_declared(g@, id),
            forall|m: int| 0 <= m < k ==> #[trigger] g@[m].id != id,
        decreases g@.len() - k,
    {
        if g[k].id == id {
            return k;
        }
        k += 1;
    }
    proof {
        let m = choose|m: int| 0 <= m < g@.len() && #[trigger] g@[m].id == id;
    }
    0
}

/// The first declarations of the bindings `o` reaches.
pub open spec fn reach_mask(g: Seq<BindingDeclaration>, o: BindingId) -> Seq<bool> {
    Seq::new(g.len(), |k: int| is_first_with_id(g, g[k].id, k) && reaches(g, o, g[k].id))
}

/// A declared id has a first declaration.
proof fn lemma_first_exists(g: Seq<BindingDeclaration>, id: BindingId, j: int)
    requires
        0 <= j < g.len(),
        g[j].id == id,
    ensures
        exists|k: int| #[trigger] is_first_with_id(g, id, k),
    decreases j,
{
    if exists|m: int| 0 <= m < j && #[trigger] g[m].id == id {
        let m = choose|m: int| 0 <= m < j && #[trigger] g[m].id == id;
        lemma_first_exists(g, id, m);
    } else {
        assert(is_first_with_id(g, id, j));
    }
}

/// A dependent path extends by a dependent of its last id.
proof fn lemma_dependent_path_extends(g: Seq<BindingDeclaration>, p: Seq<BindingId>, t: BindingId)
    requires
        is_dependent_path(g, p),
        p.len() >= 1,
        dependent_of(g, p.last(), t),
    ensures
        is_dependent_path(g, p.push(t)),
{
    let q2 = p.push(t);
    assert forall|q: int| 0 <= q < q2.len() - 1 implies #[trigger] dependent_step(g, q2, q) by {
        if q < p.len() - 1 {
            assert(dependent_step(g, p, q));
            assert(q2[q] == p[q]);
            assert(q2[q + 1] == p[q + 1]);
        } else {
            assert(q2[q] == p.last());
            assert(q2[q + 1] == t);
        }
    }
}

/// Every position marked `visited` whose dependents are all visited once
/// popped: the first declaration of the id at position `q` of a path from
/// the origin is visited.
proof fn lemma_bfs_complete(g: Seq<BindingDeclaration>, visited: Seq<bool>, o_pos: int, p: Seq<BindingId>, q: int)
    requires
        visited.len() == g.len(),
        0 <= o_pos < g.len(),
        is_first_with_id(g, g[o_pos].id, o_pos),
        visited[o_pos],
        forall|k: int, y: BindingId, u: int|
            0 <= k < g.len() && #[trigger] visited[k] && dependent_of(g, g[k].id, y) && #[trigger] is_first_with_id(g, y, u) ==> visited[u],
        is_dependent_path(g, p),
        p.len() >= 1,
        p[0] == g[o_pos].id,
        0 <= q < p.len(),
    ensures
        forall|u: int| #[trigger] is_first_with_id(g, p[q], u) ==> visited[u],
        exists|u: int| #[trigger] is_first_with_id(g, p[q], u),
    decreases q,
{
    if q == 0 {
        assert forall|u: int| #[trigger] is_first_with_id(g, p[q], u) implies visited[u] by {
            crate::binding_graph::lemma_first_with_id_unique(g, p[0], u, o_pos);
        }
        assert(is_first_with_id(g, p[0], o_pos));
    } else {
        lemma_bfs_complete(g, visited, o_pos, p, q - 1);
        assert(dependent_step(g, p, q - 1));
        let k = choose|k: int| #[trigger] is_first_with_id(g, p[q - 1], k);
        assert(visited[k]);
        let j = choose|j: int| 0 <= j < g.len() && #[trigger] g[j].id == p[q - 1 + 1] && lists_dependency(g[j], p[q - 1]);
        lemma_first_exists(g, p[q], j);
        assert forall|u: int| #[trigger] is_first_with_id(g, p[q], u) implies visited[u] by {
            assert(g[k].id == p[q - 1]);
            assert(dependent_of(g, g[k].id, p[q]));
        }
    }
}


/// An unmarked mask counts nothing.
proof fn lemma_mask_zero(g: Seq<BindingDeclaration>, m: Seq<bool>, n: int)
    requires
        forall|k: int| 0 <= k < n ==> !#[trigger] m[k],
    ensures
        mask_count(m, n) == 0,
        mask_work(g, m, n) == 0,
    decreases n,
{
    if n > 0 {
        lemma_mask_zero(g, m, n - 1);
    }
}

/// A mask counts at most its length.
proof fn lemma_mask_count_bound(m: Seq<bool>, n: int)
    requires
        0 <= n,
    ensures
        0 <= mask_count(m, n) <= n,
    decreases n,
{
    if n > 0 {
        lemma_mask_count_bound(m, n - 1);
    }
}

/// Masks equal before `n` count and work the same.
proof fn lemma_mask_same(g: Seq<BindingDeclaration>, a: Seq<bool>, b: Seq<bool>, n: int)
    requires
        forall|k: int| 0 <= k < n ==> a[k] == b[k],
    ensures
        mask_count(a, n) == mask_count(b, n),
        mask_work(g, a, n) == mask_work(g, b, n),
    decreases n,
{
    if n > 0 {
        lemma_mask_same(g, a, b, n - 1);
    }
}

/// The position of the first declaration of `id`.
pub open spec fn first_pos(g: Seq<BindingDeclaration>, id: BindingId) -> int {
    choose|k: int| is_first_with_id(g, id, k)
}

/// The dependents of `x` in increasing order.
pub open spec fn sorted_dependents(g: Seq<BindingDeclaration>, x: BindingId) -> Seq<BindingId> {
    choose|s: Seq<BindingId>| ids_increasing(s) && s.to_set() == dependents(g, x)
}

/// The queue `q` with the first declaration of each of `ds` appended, in
/// order, unless it is already queued.
pub open spec fn bfs_extend(g: Seq<BindingDeclaration>, q: Seq<int>, ds: Seq<BindingId>) -> Seq<int>
    decreases ds.len(),
{
    if ds.len() == 0 {
        q
    } else {
        let e = bfs_extend(g, q, ds.drop_last());
        let u = first_pos(g, ds.last());
        if e.contains(u) {
            e
        } else {
            e.push(u)
        }
    }
}

/// The breadth-first queue from the declaration at `o_pos` after `h`
/// positions were taken from it, each adding its dependents in increasing
/// order.
pub open spec fn bfs_queue(g: Seq<BindingDeclaration>, o_pos: int, h: nat) -> Seq<int>
    decreases h,
{
    if h == 0 {
        seq![o_pos]
    } else {
        let q = bfs_queue(g, o_pos, (h - 1) as nat);
        if h - 1 < q.len() {
            bfs_extend(g, q, sorted_dependents(g, g[q[h - 1]].id))
        } else {
            q
        }
    }
}

/// The positions in the order breadth-first search from `o_pos` meets them.
pub open spec fn bfs_order(g: Seq<BindingDeclaration>, o_pos: int) -> Seq<int> {
    bfs_queue(g, o_pos, g.len())
}

/// The positions of `q` not marked in `m`, in order.
pub open spec fn fresh(q: Seq<int>, m: Seq<bool>) -> Seq<int>
    decreases q.len(),
{
    if q.len() == 0 {
        Seq::empty()
    } else {
        let f = fresh(q.drop_last(), m);
        if m[q.last()] {
            f
        } else {
            f.push(q.last())
        }
    }
}

/// `a` begins `b`.
pub open spec fn seq_prefix(a: Seq<int>, b: Seq<int>) -> bool {
    a.len() <= b.len() && forall|i: int| 0 <= i < a.len() ==> #[trigger] a[i] == b[i]
}

/// The positions of a queue as integers.
pub open spec fn as_ints(q: Seq<usize>) -> Seq<int> {
    q.map_values(|x: usize| x as int)
}

/// The first declaration of `id` is at `k`.
proof fn lemma_first_pos(g: Seq<BindingDeclaration>, id: BindingId, k: int)
    requires
        is_first_with_id(g, id, k),
    ensures
        first_pos(g, id) == k,
{
    let c = first_pos(g, id);
    assert(is_first_with_id(g, id, c));
    crate::binding_graph::lemma_first_with_id_unique(g, id, c, k);
}

/// The increasing dependents are the only increasing sequence of them.
proof fn lemma_sorted_dependents(g: Seq<BindingDeclaration>, x: BindingId, s: Seq<BindingId>)
    requires
        ids_increasing(s),
        s.to_set() == dependents(g, x),
    ensures
        sorted_dependents(g, x) == s,
{
    let c = sorted_dependents(g, x);
    assert(ids_increasing(c) && c.to_set() == dependents(g, x));
    lemma_increasing_ids_unique(c, s);
}

/// Extending by a prefix of the bindings gives a prefix of extending by all.
proof fn lemma_extend_prefix(g: Seq<BindingDeclaration>, q: Seq<int>, ds: Seq<BindingId>, j: int)
    requires
        0 <= j <= ds.len(),
    ensures
        seq_prefix(bfs_extend(g, q, ds.take(j)), bfs_extend(g, q, ds)),
        seq_prefix(q, bfs_extend(g, q, ds)),
    decreases ds.len(),
{
    if ds.len() == 0 {
        assert(ds.take(j) =~= ds);
    } else {
        let dl = ds.drop_last();
        lemma_extend_prefix(g, q, dl, if j < ds.len() { j } else { 0 });
        let e = bfs_extend(g, q, dl);
        let full = bfs_extend(g, q, ds);
        assert(seq_prefix(e, full));
        if j == ds.len() {
            assert(ds.take(j) =~= ds);
        } else {
            assert(ds.take(j) =~= dl.take(j));
        }
        assert(bfs_extend(g, q, ds.take(0)) == q) by {
            assert(ds.take(0).len() == 0);
        }
    }
}

/// The queue after fewer steps begins the queue after more.
proof fn lemma_queue_prefix(g: Seq<BindingDeclaration>, o_pos: int, h1: nat, h2: nat)
    requires
        h1 <= h2,
    ensures
        seq_prefix(bfs_queue(g, o_pos, h1), bfs_queue(g, o_pos, h2)),
    decreases h2,
{
    if h1 < h2 {
        lemma_queue_prefix(g, o_pos, h1, (h2 - 1) as nat);
        let q = bfs_queue(g, o_pos, (h2 - 1) as nat);
        if h2 - 1 < q.len() {
            lemma_extend_prefix(g, q, sorted_dependents(g, g[q[h2 - 1]].id), 0);
        }
    }
}

/// Once every queued position was taken, the queue stays as it is.
proof fn lemma_queue_fixed(g: Seq<BindingDeclaration>, o_pos: int, h0: nat, h: nat)
    requires
        h0 <= h,
        h0 >= bfs_queue(g, o_pos, h0).len(),
    ensures
        bfs_queue(g, o_pos, h) == bfs_queue(g, o_pos, h0),
    decreases h,
{
    if h0 < h {
        lemma_queue_fixed(g, o_pos, h0, (h - 1) as nat);
    }
}

/// Keeping the unmarked positions keeps prefixes.
proof fn lemma_fresh_prefix(a: Seq<int>, b: Seq<int>, m: Seq<bool>)
    requires
        seq_prefix(a, b),
    ensures
        seq_prefix(fresh(a, m), fresh(b, m)),
    decreases b.len(),
{
    if a.len() < b.len() {
        let bl = b.drop_last();
        assert(seq_prefix(a, bl));
        lemma_fresh_prefix(a, bl, m);
    } else {
        assert(a =~= b);
    }
}

/// The unmarked positions of a queue with one more position.
proof fn lemma_fresh_push(q: Seq<int>, u: int, m: Seq<bool>)
    ensures
        fresh(q.push(u), m) == if m[u] { fresh(q, m) } else { fresh(q, m).push(u) },
{
    assert(q.push(u).drop_last() =~= q);
}

/// A position is unmarked in the queue just when it is queued and unmarked.
proof fn lemma_fresh_contains(q: Seq<int>, m: Seq<bool>, k: int)
    ensures
        fresh(q, m).contains(k) <==> q.contains(k) && !m[k],
    decreases q.len(),
{
    if q.len() > 0 {
        let ql = q.drop_last();
        lemma_fresh_contains(ql, m, k);
        assert(q =~= ql.push(q.last()));
        if ql.contains(k) {
            let i = choose|i: int| 0 <= i < ql.len() && ql[i] == k;
            assert(q[i] == k);
        }
        if q.contains(k) {
            let i = choose|i: int| 0 <= i < q.len() && q[i] == k;
            if i < ql.len() {
                assert(ql[i] == k);
            }
        }
        let f = fresh(ql, m);
        if !m[q.last()] {
            if f.push(q.last()).contains(k) {
                let i = choose|i: int| 0 <= i < f.push(q.last()).len() && f.push(q.last())[i] == k;
                if i < f.len() {
                    assert(f[i] == k);
                }
            }
            if f.contains(k) {
                let i = choose|i: int| 0 <= i < f.len() && f[i] == k;
                assert(f.push(q.last())[i] == k);
            }
            assert(f.push(q.last())[f.len() as int] == q.last());
        }
    }
}

/// `a` begins `b`, which begins `c`: `a` begins `c`.
proof fn lemma_prefix_trans(a: Seq<int>, b: Seq<int>, c: Seq<int>)
    requires
        seq_prefix(a, b),
        seq_prefix(b, c),
    ensures
        seq_prefix(a, c),
{
    assert forall|i: int| 0 <= i < a.len() implies #[trigger] a[i] == c[i] by {
        assert(a[i] == b[i]);
    }
}

/// Extending by one more dependent appends its first declaration unless it
/// is already queued.
proof fn lemma_extend_one(g: Seq<BindingDeclaration>, q: Seq<int>, ds: Seq<BindingId>, j: int, u: int)
    requires
        0 <= j < ds.len(),
        is_first_with_id(g, ds[j], u),
    ensures
        bfs_extend(g, q, ds.take(j + 1)) == if bfs_extend(g, q, ds.take(j)).contains(u) {
            bfs_extend(g, q, ds.take(j))
        } else {
            bfs_extend(g, q, ds.take(j)).push(u)
        },
{
    let t = ds.take(j + 1);
    assert(t.drop_last() =~= ds.take(j));
    assert(t.last() == ds[j]);
    lemma_first_pos(g, ds[j], u);
}

/// A position appended to a queue while taking position `h` of the
/// breadth-first queue, and not marked in `m`, stands in the unmarked
/// positions of the whole order just after those of the queue before it.
proof fn lemma_fresh_in_order(
    g: Seq<BindingDeclaration>,
    o_pos: int,
    h: nat,
    ds: Seq<BindingId>,
    j: int,
    q: Seq<int>,
    u: int,
    m: Seq<bool>,
)
    requires
        h < bfs_queue(g, o_pos, h).len(),
        h + 1 <= g.len(),
        ds == sorted_dependents(g, g[bfs_queue(g, o_pos, h)[h as int]].id),
        0 <= j < ds.len(),
        q.push(u) == bfs_extend(g, bfs_queue(g, o_pos, h), ds.take(j + 1)),
        !m[u],
    ensures
        fresh(bfs_order(g, o_pos), m).len() > fresh(q, m).len(),
        fresh(bfs_order(g, o_pos), m)[fresh(q, m).len() as int] == u,
{
    let qh = bfs_queue(g, o_pos, h);
    lemma_extend_prefix(g, qh, ds, j + 1);
    assert(bfs_queue(g, o_pos, h + 1) == bfs_extend(g, qh, ds));
    lemma_queue_prefix(g, o_pos, h + 1, g.len());
    lemma_prefix_trans(q.push(u), bfs_queue(g, o_pos, h + 1), bfs_order(g, o_pos));
    lemma_fresh_prefix(q.push(u), bfs_order(g, o_pos), m);
    lemma_fresh_push(q, u, m);
    let f = fresh(q, m);
    assert(fresh(q.push(u), m)[f.len() as int] == u);
}

/// Marks everything `o` reaches as dirty, breadth first from its first
/// declaration at `o_pos`, counting the work and retaining `rs` as reasons
/// of each binding reached. Fails when a binding reached is not yet dirty and
/// the dirty bindings are already at their limit.
#[verifier::rlimit(80)]
fn propagate_from(
    g: &Vec<BindingDeclaration>,
    o_pos: usize,
    rs: &Vec<DirtyReason>,
    limits: BindingObservationLimits,
    dirty: &mut Vec<bool>,
    dirty_count: &mut usize,
    reasons_by: &mut Vec<Vec<DirtyReason>>,
    work: &mut usize,
    retained: &mut usize,
) -> (r: Result<(), BindingObservationError>)
    requires
        o_pos < g@.len(),
        is_first_with_id(g@, g@[o_pos as int].id, o_pos as int),
        old(dirty)@.len() == g@.len(),
        old(reasons_by)@.len() == g@.len(),
        old(dirty)@[o_pos as int],
        *old(dirty_count) == mask_count(old(dirty)@, g@.len() as int),
        *old(dirty_count) <= limits.spec_max_dirty_bindings(),
        forall|k: int| 0 <= k < g@.len() ==> reasons_increasing(#[trigger] old(reasons_by)@[k]@),
    ensures
        final(dirty)@.len() == g@.len(),
        final(reasons_by)@.len() == g@.len(),
        forall|k: int| 0 <= k < g@.len() ==> reasons_increasing(#[trigger] final(reasons_by)@[k]@),
        match r {
            Ok(()) => {
                &&& final(dirty)@ == Seq::new(g@.len(), |k: int| old(dirty)@[k] || reach_mask(g@, g@[o_pos as int].id)[k])
                &&& *final(dirty_count) == mask_count(final(dirty)@, g@.len() as int)
                &&& *final(dirty_count) <= limits.spec_max_dirty_bindings()
                &&& *final(dirty_count) == *old(dirty_count) + fresh(bfs_order(g@, o_pos as int), old(dirty)@).len()
                &&& *final(work) == saturated(*old(work) + mask_work(g@, reach_mask(g@, g@[o_pos as int].id), g@.len() as int))
                &&& *final(retained) == saturated(*old(retained) + rs@.len() * mask_count(reach_mask(g@, g@[o_pos as int].id), g@.len() as int))
                &&& *final(retained) <= limits.spec_max_retained_reasons() ==> forall|k: int| 0 <= k < g@.len() ==> (#[trigger] final(reasons_by)@[k]@).to_set()
                    == old(reasons_by)@[k]@.to_set().union(if reach_mask(g@, g@[o_pos as int].id)[k] { rs@.to_set() } else { Set::empty() })
            },
            Err(e) => {
                &&& *old(dirty_count) + fresh(bfs_order(g@, o_pos as int), old(dirty)@).len() > limits.spec_max_dirty_bindings()
                &&& e == limit_error(
                    BindingObservationStage::DependencyPropagation,
                    BindingObservationErrorKind::DirtyResultLimitExceeded,
                    Some(g@[fresh(bfs_order(g@, o_pos as int), old(dirty)@)[limits.spec_max_dirty_bindings() - *old(dirty_count)]].id),
                    BindingObservationLimitKind::DirtyBindings,
                    saturated(limits.spec_max_dirty_bindings() + 1) as usize,
                    limits.spec_max_dirty_bindings(),
                )
                &&& mask_count(Seq::new(g@.len(), |k: int| old(dirty)@[k] || reach_mask(g@, g@[o_pos as int].id)[k]), g@.len() as int)
                    > limits.spec_max_dirty_bindings()
            },
        },
{
    let ghost gs = g@;
    let n = g.len();
    let ghost o = gs[o_pos as int].id;
    let ghost rmask = reach_mask(gs, o);
    let ghost dirty0 = dirty@;
    let ghost count0 = *dirty_count as int;
    let ghost reasons0 = reasons_by@;
    let ghost work0 = *work as int;
    let ghost ret0 = *retained as int;
    let ghost target = Seq::new(gs.len(), |k: int| dirty0[k] || rmask[k]);
    let max_dirty = limits.max_dirty_bindings;
    let max_ret = limits.max_retained_reasons;
    let mut visited: Vec<bool> = Vec::new();
    let mut m: usize = 0;
    while m < n
        invariant
            n == gs.len(),
            m <= n,
            visited@.len() == m,
            forall|q: int| 0 <= q < m ==> !#[trigger] visited@[q],
        decreases n - m,
    {
        visited.push(false);
        m += 1;
    }
    let ghost visited_none = visited@;
    visited.set(o_pos, true);
    let mut queue: Vec<usize> = Vec::new();
    queue.push(o_pos);
    let mut head: usize = 0;
    let ghost mut popped: Seq<bool> = Seq::new(gs.len(), |k: int| false);
    let ghost mut paths: Map<int, Seq<BindingId>> = Map::empty().insert(o_pos as int, seq![o]);
    *retained = saturating_add(*retained, rs.len());
    if *retained <= max_ret {
        add_reasons(&mut reasons_by[o_pos], rs);
    }
    proof {
        assert(is_dependent_path(gs, seq![o]));
        lemma_mask_zero(gs, visited_none, gs.len() as int);
        lemma_mask_zero(gs, popped, gs.len() as int);
        lemma_mask_mark(gs, visited_none, o_pos as int, gs.len() as int);
        assert(visited@ == visited_none.update(o_pos as int, true));
        assert(dirty@ =~= Seq::new(gs.len(), |k: int| dirty0[k] || visited@[k]));
        assert(rs@.len() * 1 == rs@.len());
        assert forall|k: int| 0 <= k < n && #[trigger] visited@[k] implies exists|i: int| 0 <= i < queue@.len() && queue@[i] as int == k by {
            assert(k == o_pos);
            assert(queue@[0] as int == k);
        }
        if *retained <= max_ret {
            assert forall|k: int| 0 <= k < n implies (#[trigger] reasons_by@[k]@).to_set()
                == reasons0[k]@.to_set().union(if visited@[k] { rs@.to_set() } else { Set::empty() }) by {
                if k != o_pos {
                    assert(reasons_by@[k] == reasons0[k]);
                    assert(reasons0[k]@.to_set().union(Set::empty()) =~= reasons0[k]@.to_set());
                }
            }
        }
        assert forall|k: int| 0 <= k < n implies reasons_increasing(#[trigger] reasons_by@[k]@) by {
            if k != o_pos {
                assert(reasons_by@[k] == reasons0[k]);
            }
        }
        lemma_mask_count_bound(visited@, n as int);
        assert(as_ints(queue@) =~= seq![o_pos as int]);
        assert(seq![o_pos as int].drop_last() =~= Seq::<int>::empty());
        assert(seq![o_pos as int].last() == o_pos as int);
        assert(fresh(Seq::<int>::empty(), dirty0) =~= Seq::<int>::empty());
        assert(fresh(seq![o_pos as int], dirty0) =~= Seq::<int>::empty());
    }
    while head < queue.len()
        invariant
            gs == g@,
            n == gs.len(),
            o_pos < n,
            o == gs[o_pos as int].id,
            is_first_with_id(gs, o, o_pos as int),
            visited@.len() == n,
            popped.len() == n,
            dirty@.len() == n,
            reasons_by@.len() == n,
            head <= queue@.len(),
            visited@[o_pos as int],
            forall|i: int| 0 <= i < queue@.len() ==> (#[trigger] queue@[i] as int) < n && visited@[queue@[i] as int],
            forall|i: int, j: int| 0 <= i < j < queue@.len() ==> queue@[i] != queue@[j],
            forall|k: int| 0 <= k < n && #[trigger] visited@[k] ==> exists|i: int| 0 <= i < queue@.len() && queue@[i] as int == k,
            forall|k: int| 0 <= k < n ==> (#[trigger] popped[k] <==> exists|i: int| 0 <= i < head && queue@[i] as int == k),
            forall|k: int| 0 <= k < n && #[trigger] visited@[k] ==> {
                &&& is_first_with_id(gs, gs[k].id, k)
                &&& paths.contains_key(k)
                &&& paths[k].len() >= 1
                &&& paths[k][0] == o
                &&& paths[k].last() == gs[k].id
                &&& is_dependent_path(gs, paths[k])
            },
            forall|k: int, y: BindingId, u: int|
                0 <= k < n && #[trigger] popped[k] && dependent_of(gs, gs[k].id, y) && #[trigger] is_first_with_id(gs, y, u) ==> visited@[u],
            dirty@ == Seq::new(n as nat, |k: int| dirty0[k] || visited@[k]),
            *dirty_count == mask_count(dirty@, n as int),
            *dirty_count <= max_dirty,
            max_dirty == limits.spec_max_dirty_bindings(),
            max_ret == limits.spec_max_retained_reasons(),
            *work == saturated(work0 + mask_work(gs, popped, n as int)),
            *retained == saturated(ret0 + rs@.len() * mask_count(visited@, n as int)),
            0 <= mask_count(visited@, n as int) <= n,
            forall|k: int| 0 <= k < n ==> reasons_increasing(#[trigger] reasons_by@[k]@),
            *retained <= max_ret ==> forall|k: int| 0 <= k < n ==> (#[trigger] reasons_by@[k]@).to_set()
                == reasons0[k]@.to_set().union(if visited@[k] { rs@.to_set() } else { Set::empty() }),
            target == Seq::new(gs.len(), |k: int| dirty0[k] || rmask[k]),
            rmask == reach_mask(gs, o),
            dirty0.len() == n,
            dirty0 == old(dirty)@,
            work0 >= 0,
            ret0 >= 0,
            as_ints(queue@) == bfs_queue(gs, o_pos as int, head as nat),
            queue@.len() == mask_count(visited@, n as int),
            count0 == *old(dirty_count),
            *dirty_count == count0 + fresh(as_ints(queue@), dirty0).len(),
        decreases n - mask_count(visited@, n as int) + queue@.len() - head,
    {
        let v = queue[head];
        let deps = dependents_sorted(g, g[v].id);
        let ghost mw = mask_work(gs, popped, n as int);
        let ghost vv = v as int;
        let ghost count_before = mask_count(visited@, n as int);
        let ghost qlen_before = queue@.len();
        let ghost qh = bfs_queue(gs, o_pos as int, head as nat);
        proof {
            lemma_sorted_dependents(gs, gs[vv].id, deps@);
            assert(qh[head as int] == vv);
            assert(bfs_queue(gs, o_pos as int, (head + 1) as nat) == bfs_extend(gs, qh, deps@));
            assert(deps@.take(0) =~= Seq::<BindingId>::empty());
            lemma_mask_nonnegative(gs, popped, n as int);
            if popped[vv] {
                let i = choose|i: int| 0 <= i < head && queue@[i] as int == vv;
                assert(queue@[i] == queue@[head as int]);
            }
        }
        let mut j: usize = 0;
        while j < deps.len()
            invariant
                gs == g@,
                n == gs.len(),
                o_pos < n,
                o == gs[o_pos as int].id,
                is_first_with_id(gs, o, o_pos as int),
                visited@.len() == n,
                popped.len() == n,
                dirty@.len() == n,
                reasons_by@.len() == n,
                head < queue@.len(),
                queue@[head as int] == v,
                vv == v as int,
                vv < n,
                visited@[vv],
                !popped[vv],
                visited@[o_pos as int],
                forall|i: int| 0 <= i < queue@.len() ==> (#[trigger] queue@[i] as int) < n && visited@[queue@[i] as int],
                forall|i: int, j2: int| 0 <= i < j2 < queue@.len() ==> queue@[i] != queue@[j2],
                forall|k: int| 0 <= k < n && #[trigger] visited@[k] ==> exists|i: int| 0 <= i < queue@.len() && queue@[i] as int == k,
                forall|k: int| 0 <= k < n ==> (#[trigger] popped[k] <==> exists|i: int| 0 <= i < head && queue@[i] as int == k),
                forall|k: int| 0 <= k < n && #[trigger] visited@[k] ==> {
                    &&& is_first_with_id(gs, gs[k].id, k)
                    &&& paths.contains_key(k)
                    &&& paths[k].len() >= 1
                    &&& paths[k][0] == o
                    &&& paths[k].last() == gs[k].id
                    &&& is_dependent_path(gs, paths[k])
                },
                forall|k: int, y: BindingId, u: int|
                    0 <= k < n && #[trigger] popped[k] && dependent_of(gs, gs[k].id, y) && #[trigger] is_first_with_id(gs, y, u) ==> visited@[u],
                dirty@ == Seq::new(n as nat, |k: int| dirty0[k] || visited@[k]),
                *dirty_count == mask_count(dirty@, n as int),
                *dirty_count <= max_dirty,
                max_dirty == limits.spec_max_dirty_bindings(),
                max_ret == limits.spec_max_retained_reasons(),
                mw == mask_work(gs, popped, n as int),
                mw >= 0,
                *work == saturated(work0 + mw + j),
                *retained == saturated(ret0 + rs@.len() * mask_count(visited@, n as int)),
                0 <= mask_count(visited@, n as int) <= n,
                mask_count(visited@, n as int) - count_before == queue@.len() - qlen_before,
                forall|k: int| 0 <= k < n ==> reasons_increasing(#[trigger] reasons_by@[k]@),
                *retained <= max_ret ==> forall|k: int| 0 <= k < n ==> (#[trigger] reasons_by@[k]@).to_set()
                    == reasons0[k]@.to_set().union(if visited@[k] { rs@.to_set() } else { Set::empty() }),
                target == Seq::new(gs.len(), |k: int| dirty0[k] || rmask[k]),
                rmask == reach_mask(gs, o),
                dirty0.len() == n,
                dirty0 == old(dirty)@,
                work0 >= 0,
                ret0 >= 0,
                j <= deps@.len(),
                ids_increasing(deps@),
                deps@.to_set() == dependents(gs, gs[vv].id),
                deps@.len() == dependents(gs, gs[vv].id).len(),
                forall|jj: int, u: int| 0 <= jj < j && #[trigger] is_first_with_id(gs, deps@[jj], u) ==> visited@[u],
                qh == bfs_queue(gs, o_pos as int, head as nat),
                head < qh.len(),
                qh[head as int] == vv,
                deps@ == sorted_dependents(gs, gs[vv].id),
                as_ints(queue@) == bfs_extend(gs, qh, deps@.take(j as int)),
                queue@.len() == mask_count(visited@, n as int),
                count0 == *old(dirty_count),
                *dirty_count == count0 + fresh(as_ints(queue@), dirty0).len(),
            decreases deps@.len() - j,
        {
            let t = deps[j];
            *work = saturating_add(*work, 1);
            proof {
                lemma_saturated_add(work0 + mw + j, 1);
                assert(deps@.to_set().contains(t));
                assert(dependent_of(gs, gs[vv].id, t));
            }
            proof {
                let k = choose|k: int| 0 <= k < gs.len() && #[trigger] gs[k].id == t && lists_dependency(gs[k], gs[vv].id);
                assert(binding_declared(gs, t));
            }
            let u = first_position(g, t);
            let ghost uu = u as int;
            proof {
                lemma_extend_one(gs, qh, deps@, j as int, uu);
                if visited@[uu] {
                    let i = choose|i: int| 0 <= i < queue@.len() && queue@[i] as int == uu;
                    assert(as_ints(queue@)[i] == uu);
                } else if as_ints(queue@).contains(uu) {
                    let i = choose|i: int| 0 <= i < as_ints(queue@).len() && as_ints(queue@)[i] == uu;
                    assert(queue@[i] as int == uu);
                }
            }
            if !visited[u] {
                proof {
                    lemma_dependent_path_extends(gs, paths[vv], t);
                    assert(rmask[uu]) by {
                        let p = paths[vv].push(t);
                        assert(is_dependent_path(gs, p) && p.len() >= 1 && p[0] == o && p.last() == gs[uu].id);
                    }
                }
                if !dirty[u] && *dirty_count >= max_dirty {
                    let e = BindingObservationError::limit(
                        BindingObservationStage::DependencyPropagation,
                        BindingObservationErrorKind::DirtyResultLimitExceeded,
                        Some(t),
                        BindingObservationLimitKind::DirtyBindings,
                        saturating_add(*dirty_count, 1),
                        max_dirty,
                    );
                    proof {
                        assert forall|k: int| 0 <= k < n && #[trigger] dirty@[k] implies target[k] by {
                            if !dirty0[k] {
                                assert(visited@[k]);
                                let p = paths[k];
                                assert(is_dependent_path(gs, p) && p.len() >= 1 && p[0] == o && p.last() == gs[k].id);
                            }
                        }
                        assert(!dirty0[uu]);
                        assert(target[uu]);
                        lemma_mask_count_subset(dirty@, target, n as int, uu);
                        assert(gs[uu].id == t);
                        assert(*dirty_count == max_dirty);
                        assert(e == limit_error(
                            BindingObservationStage::DependencyPropagation,
                            BindingObservationErrorKind::DirtyResultLimitExceeded,
                            Some(gs[uu].id),
                            BindingObservationLimitKind::DirtyBindings,
                            saturated(limits.spec_max_dirty_bindings() + 1) as usize,
                            limits.spec_max_dirty_bindings(),
                        ));
                        assert(mask_count(target, n as int) > max_dirty);
                        assert(target == Seq::new(g@.len(), |k: int| dirty0[k] || reach_mask(g@, g@[o_pos as int].id)[k]));
                        assert(dirty0 == old(dirty)@);
                        lemma_mask_count_bound(visited@, n as int);
                        lemma_fresh_in_order(gs, o_pos as int, head as nat, deps@, j as int, as_ints(queue@), uu, dirty0);
                        assert(fresh(as_ints(queue@), dirty0).len() == max_dirty - count0);
                    }
                    return Err(e);
                }
                let ghost old_visited = visited@;
                let ghost old_dirty = dirty@;
                let ghost old_queue = queue@;
                let ghost old_reasons = reasons_by@;
                let ghost old_retained = *retained as int;
                visited.set(u, true);
                if !dirty[u] {
                    dirty.set(u, true);
                    *dirty_count = *dirty_count + 1;
                    proof {
                        lemma_mask_mark(gs, old_dirty, uu, n as int);
                    }
                }
                queue.push(u);
                *retained = saturating_add(*retained, rs.len());
                if *retained <= max_ret {
                    add_reasons(&mut reasons_by[u], rs);
                }
                proof {
                    paths = paths.insert(uu, paths[vv].push(t));
                    assert(as_ints(queue@) =~= as_ints(old_queue).push(uu));
                    lemma_fresh_push(as_ints(old_queue), uu, dirty0);
                    lemma_mask_mark(gs, old_visited, uu, n as int);
                    let c = mask_count(old_visited, n as int);
                    assert(rs@.len() * (c + 1) == rs@.len() * c + rs@.len()) by (nonlinear_arith);
                    assert(rs@.len() * c >= 0) by (nonlinear_arith)
                        requires
                            c >= 0,
                    ;
                    lemma_saturated_add(ret0 + rs@.len() * c, rs@.len() as int);
                    assert(dirty@ =~= Seq::new(n as nat, |k: int| dirty0[k] || visited@[k]));
                    assert forall|i: int| 0 <= i < queue@.len() implies (#[trigger] queue@[i] as int) < n && visited@[queue@[i] as int] by {
                        if i < old_queue.len() {
                            assert(queue@[i] == old_queue[i]);
                        }
                    }
                    assert forall|i: int, j2: int| 0 <= i < j2 < queue@.len() implies queue@[i] != queue@[j2] by {
                        if j2 == old_queue.len() {
                            assert(old_visited[old_queue[i] as int]);
                        } else {
                            assert(queue@[i] == old_queue[i]);
                            assert(queue@[j2] == old_queue[j2]);
                        }
                    }
                    assert forall|k: int| 0 <= k < n && #[trigger] visited@[k] implies exists|i: int| 0 <= i < queue@.len() && queue@[i] as int == k by {
                        if k == uu {
                            assert(queue@[old_queue.len() as int] as int == k);
                        } else {
                            assert(old_visited[k]);
                            let i = choose|i: int| 0 <= i < old_queue.len() && old_queue[i] as int == k;
                            assert(queue@[i] == old_queue[i]);
                        }
                    }
                    assert forall|k: int| 0 <= k < n implies (#[trigger] popped[k] <==> exists|i: int| 0 <= i < head && queue@[i] as int == k) by {
                        if popped[k] {
                            let i = choose|i: int| 0 <= i < head && old_queue[i] as int == k;
                            assert(queue@[i] == old_queue[i]);
                        }
                        if exists|i: int| 0 <= i < head && queue@[i] as int == k {
                            let i = choose|i: int| 0 <= i < head && queue@[i] as int == k;
                            assert(queue@[i] == old_queue[i]);
                        }
                    }
                    assert forall|k: int| 0 <= k < n && #[trigger] visited@[k] implies {
                        &&& is_first_with_id(gs, gs[k].id, k)
                        &&& paths.contains_key(k)
                        &&& paths[k].len() >= 1
                        &&& paths[k][0] == o
                        &&& paths[k].last() == gs[k].id
                        &&& is_dependent_path(gs, paths[k])
                    } by {
                        if k != uu {
                            assert(old_visited[k]);
                        }
                    }
                    assert forall|k: int, y: BindingId, w: int|
                        0 <= k < n && #[trigger] popped[k] && dependent_of(gs, gs[k].id, y) && #[trigger] is_first_with_id(gs, y, w) implies visited@[w] by {
                        assert(old_visited[w]);
                    }
                    assert forall|jj: int, w: int| 0 <= jj < j && #[trigger] is_first_with_id(gs, deps@[jj], w) implies visited@[w] by {
                        assert(old_visited[w]);
                    }
                    assert forall|k: int| 0 <= k < n implies reasons_increasing(#[trigger] reasons_by@[k]@) by {
                        if k != uu {
                            assert(reasons_by@[k] == old_reasons[k]);
                        }
                    }
                    if *retained <= max_ret {
                        assert(old_retained <= max_ret);
                        assert forall|k: int| 0 <= k < n implies (#[trigger] reasons_by@[k]@).to_set()
                            == reasons0[k]@.to_set().union(if visited@[k] { rs@.to_set() } else { Set::empty() }) by {
                            if k == uu {
                                assert(old_reasons[k]@.to_set() == reasons0[k]@.to_set().union(Set::empty()));
                                assert(reasons0[k]@.to_set().union(Set::empty()) =~= reasons0[k]@.to_set());
                            } else {
                                assert(reasons_by@[k] == old_reasons[k]);
                            }
                        }
                    }
                    lemma_mask_count_bound(visited@, n as int);
                }
            }
            proof {
                assert forall|jj: int, w: int| 0 <= jj < j + 1 && #[trigger] is_first_with_id(gs, deps@[jj], w) implies visited@[w] by {
                    if jj == j {
                        crate::binding_graph::lemma_first_with_id_unique(gs, t, w, uu);
                    }
                }
            }
            j += 1;
        }
        proof {
            assert(deps@.take(deps@.len() as int) =~= deps@);
            let old_popped = popped;
            lemma_mask_mark(gs, old_popped, vv, n as int);
            popped = popped.update(vv, true);
            assert forall|k: int| 0 <= k < n implies (#[trigger] popped[k] <==> exists|i: int| 0 <= i < head + 1 && queue@[i] as int == k) by {
                if k == vv {
                    assert(queue@[head as int] as int == k);
                } else if exists|i: int| 0 <= i < head + 1 && queue@[i] as int == k {
                    let i = choose|i: int| 0 <= i < head + 1 && queue@[i] as int == k;
                    assert(i < head);
                }
            }
            assert forall|k: int, y: BindingId, w: int|
                0 <= k < n && #[trigger] popped[k] && dependent_of(gs, gs[k].id, y) && #[trigger] is_first_with_id(gs, y, w) implies visited@[w] by {
                if k == vv {
                    assert(dependents(gs, gs[vv].id).contains(y));
                    assert(deps@.to_set().contains(y));
                    let jj = choose|jj: int| 0 <= jj < deps@.len() && deps@[jj] == y;
                    assert(is_first_with_id(gs, deps@[jj], w));
                } else {
                    assert(old_popped[k]);
                }
            }
        }
        head += 1;
    }
    proof {
        assert forall|k: int| 0 <= k < n implies visited@[k] == rmask[k] && popped[k] == visited@[k] by {
            if visited@[k] {
                let i = choose|i: int| 0 <= i < queue@.len() && queue@[i] as int == k;
                assert(popped[k]);
                let p = paths[k];
                assert(is_dependent_path(gs, p) && p.len() >= 1 && p[0] == o && p.last() == gs[k].id);
            }
            if popped[k] {
                let i = choose|i: int| 0 <= i < head && queue@[i] as int == k;
            }
            if rmask[k] {
                let p = choose|p: Seq<BindingId>| #[trigger] is_dependent_path(gs, p) && p.len() >= 1 && p[0] == o && p.last() == gs[k].id;
                assert forall|kk: int, y: BindingId, w: int|
                    0 <= kk < gs.len() && #[trigger] visited@[kk] && dependent_of(gs, gs[kk].id, y) && #[trigger] is_first_with_id(gs, y, w) implies visited@[w] by {
                    let i = choose|i: int| 0 <= i < queue@.len() && queue@[i] as int == kk;
                    assert(popped[kk]);
                }
                lemma_bfs_complete(gs, visited@, o_pos as int, p, p.len() - 1);
                assert(is_first_with_id(gs, p[p.len() - 1], k));
            }
        }
        lemma_mask_same(gs, popped, rmask, n as int);
        lemma_mask_same(gs, visited@, rmask, n as int);
        lemma_queue_fixed(gs, o_pos as int, head as nat, gs.len());
        assert(dirty@ =~= Seq::new(gs.len(), |k: int| dirty0[k] || rmask[k]));
        if *retained <= max_ret {
            assert forall|k: int| 0 <= k < n implies (#[trigger] reasons_by@[k]@).to_set()
                == reasons0[k]@.to_set().union(if rmask[k] { rs@.to_set() } else { Set::empty() }) by {
                assert(visited@[k] == rmask[k]);
            }
        }
    }
    Ok(())
}

/// The seeds with their reasons as values.
pub open spec fn seed_view(seeds: Seq<(BindingId, Vec<DirtyReason>)>) -> Seq<(BindingId, Seq<DirtyReason>)> {
    seeds.map_values(|s: (BindingId, Vec<DirtyReason>)| (s.0, s.1@))
}

/// The propagation work of the first `q` seeds: for each, the direct
/// dependents of every binding it reaches.
pub open spec fn total_work(g: Seq<BindingDeclaration>, sp: Seq<(BindingId, Seq<DirtyReason>)>, q: int) -> int
    decreases q,
{
    if q <= 0 {
        0
    } else {
        total_work(g, sp, q - 1) + mask_work(g, reach_mask(g, sp[q - 1].0), g.len() as int)
    }
}

/// The reasons the first `q` seeds retain: each seed's reasons once for
/// every binding it reaches.
pub open spec fn total_retained(g: Seq<BindingDeclaration>, sp: Seq<(BindingId, Seq<DirtyReason>)>, q: int) -> int
    decreases q,
{
    if q <= 0 {
        0
    } else {
        total_retained(g, sp, q - 1) + sp[q - 1].1.len() * mask_count(reach_mask(g, sp[q - 1].0), g.len() as int)
    }
}

/// One of the first `q` seeds reaches `x`.
pub open spec fn reached_by_seeds(g: Seq<BindingDeclaration>, sp: Seq<(BindingId, Seq<DirtyReason>)>, q: int, x: BindingId) -> bool {
    exists|i: int| 0 <= i < q && #[trigger] reaches(g, sp[i].0, x)
}

/// The first declarations of the bindings the seeds reach: the dirty bindings.
pub open spec fn dirty_mask(g: Seq<BindingDeclaration>, sp: Seq<(BindingId, Seq<DirtyReason>)>) -> Seq<bool> {
    Seq::new(g.len(), |k: int| is_first_with_id(g, g[k].id, k) && reached_by_seeds(g, sp, sp.len() as int, g[k].id))
}

/// The reasons of the first `q` seeds that reach the declaration at `k`.
pub open spec fn reasons_reaching(g: Seq<BindingDeclaration>, sp: Seq<(BindingId, Seq<DirtyReason>)>, q: int, k: int) -> Set<DirtyReason> {
    Set::new(|r: DirtyReason| exists|i: int| 0 <= i < q && #[trigger] reach_mask(g, sp[i].0)[k] && sp[i].1.contains(r))
}

/// Some seed is `x`.
pub open spec fn is_seed(sp: Seq<(BindingId, Seq<DirtyReason>)>, x: BindingId) -> bool {
    exists|i: int| 0 <= i < sp.len() && #[trigger] sp[i].0 == x
}

/// The first declarations of the seeds.
pub open spec fn seed_positions(g: Seq<BindingDeclaration>, sp: Seq<(BindingId, Seq<DirtyReason>)>) -> Seq<bool> {
    Seq::new(g.len(), |k: int| is_first_with_id(g, g[k].id, k) && is_seed(sp, g[k].id))
}

/// What is dirty when seed `q` starts to propagate: the first declarations
/// of the seeds and of what the seeds before it reach.
pub open spec fn dirty_before(g: Seq<BindingDeclaration>, sp: Seq<(BindingId, Seq<DirtyReason>)>, q: int) -> Seq<bool> {
    Seq::new(g.len(), |k: int| seed_positions(g, sp)[k] || (is_first_with_id(g, g[k].id, k) && reached_by_seeds(g, sp, q, g[k].id)))
}

/// The positions the first `q` seeds newly mark dirty, in the order they are
/// marked: seed by seed, each in the order breadth-first search from the
/// seed meets them.
pub open spec fn new_dirty(g: Seq<BindingDeclaration>, sp: Seq<(BindingId, Seq<DirtyReason>)>, q: int) -> Seq<int>
    decreases q,
{
    if q <= 0 {
        Seq::empty()
    } else {
        new_dirty(g, sp, q - 1) + fresh(bfs_order(g, first_pos(g, sp[q - 1].0)), dirty_before(g, sp, q - 1))
    }
}

/// What the first seeds mark begins what more seeds mark.
proof fn lemma_new_dirty_prefix(g: Seq<BindingDeclaration>, sp: Seq<(BindingId, Seq<DirtyReason>)>, q1: int, q2: int)
    requires
        0 <= q1 <= q2,
    ensures
        seq_prefix(new_dirty(g, sp, q1), new_dirty(g, sp, q2)),
    decreases q2,
{
    if q1 < q2 {
        lemma_new_dirty_prefix(g, sp, q1, q2 - 1);
        let a = new_dirty(g, sp, q2 - 1);
        let f = fresh(bfs_order(g, first_pos(g, sp[q2 - 1].0)), dirty_before(g, sp, q2 - 1));
        assert forall|i: int| 0 <= i < a.len() implies #[trigger] a[i] == (a + f)[i] by {}
        lemma_prefix_trans(new_dirty(g, sp, q1), a, a + f);
    }
}

/// A binding reaches itself.
proof fn lemma_reaches_itself(g: Seq<BindingDeclaration>, x: BindingId)
    ensures
        reaches(g, x, x),
{
    assert(is_dependent_path(g, seq![x]));
}

/// A copy of reasons.
fn copy_reasons(v: &Vec<DirtyReason>) -> (r: Vec<DirtyReason>)
    ensures
        r@ == v@,
{
    let mut r: Vec<DirtyReason> = Vec::new();
    let mut i: usize = 0;
    while i < v.len()
        invariant
            i <= v@.len(),
            r@ == v@.take(i as int),
        decreases v@.len() - i,
    {
        r.push(v[i]);
        proof {
            assert(v@.take(i + 1) =~= v@.take(i as int).push(v@[i as int]));
        }
        i += 1;
    }
    proof {
        assert(v@.take(v@.len() as int) =~= v@);
    }
    r
}

/// Propagates each seed's dirtiness to everything it reaches, in seed order.
#[verifier::rlimit(50)]
fn propagate(g: &Vec<BindingDeclaration>, seeds: &Vec<(BindingId, Vec<DirtyReason>)>, limits: BindingObservationLimits) -> (r: Result<
    (Vec<bool>, Vec<Vec<DirtyReason>>, usize, usize),
    BindingObservationError,
>)
    requires
        forall|i: int| 0 <= i < seeds@.len() ==> binding_declared(g@, #[trigger] seeds@[i].0),
        forall|i: int, j: int| 0 <= i < j < seeds@.len() ==> seeds@[i].0 != seeds@[j].0,
        seeds@.len() <= limits.spec_max_dirty_bindings(),
    ensures
        match r {
            Ok((dirty, reasons_by, work, retained)) => {
                &&& mask_count(dirty_mask(g@, seed_view(seeds@)), g@.len() as int) <= limits.spec_max_dirty_bindings()
                &&& dirty@ == dirty_mask(g@, seed_view(seeds@))
                &&& work == saturated(total_work(g@, seed_view(seeds@), seeds@.len() as int))
                &&& retained == saturated(total_retained(g@, seed_view(seeds@), seeds@.len() as int))
                &&& reasons_by@.len() == g@.len()
                &&& forall|k: int| 0 <= k < g@.len() ==> reasons_increasing(#[trigger] reasons_by@[k]@)
                &&& retained <= limits.spec_max_retained_reasons() ==> forall|k: int| 0 <= k < g@.len() ==> (#[trigger] reasons_by@[k]@).to_set()
                    == reasons_reaching(g@, seed_view(seeds@), seeds@.len() as int, k)
            },
            Err(e) => {
                &&& mask_count(dirty_mask(g@, seed_view(seeds@)), g@.len() as int) > limits.spec_max_dirty_bindings()
                &&& seeds@.len() + new_dirty(g@, seed_view(seeds@), seeds@.len() as int).len() > limits.spec_max_dirty_bindings()
                &&& e == limit_error(
                    BindingObservationStage::DependencyPropagation,
                    BindingObservationErrorKind::DirtyResultLimitExceeded,
                    Some(g@[new_dirty(g@, seed_view(seeds@), seeds@.len() as int)[limits.spec_max_dirty_bindings() - seeds@.len()]].id),
                    BindingObservationLimitKind::DirtyBindings,
                    saturated(limits.spec_max_dirty_bindings() + 1) as usize,
                    limits.spec_max_dirty_bindings(),
                )
            },
        },
{
    let ghost gs = g@;
    let ghost sp = seed_view(seeds@);
    let n = g.len();
    let mut dirty: Vec<bool> = Vec::new();
    let mut reasons_by: Vec<Vec<DirtyReason>> = Vec::new();
    let mut m: usize = 0;
    while m < n
        invariant
            n == gs.len(),
            m <= n,
            dirty@.len() == m,
            reasons_by@.len() == m,
            forall|q: int| 0 <= q < m ==> !#[trigger] dirty@[q],
            forall|q: int| 0 <= q < m ==> (#[trigger] reasons_by@[q])@ == Seq::<DirtyReason>::empty(),
        decreases n - m,
    {
        dirty.push(false);
        reasons_by.push(Vec::new());
        m += 1;
    }
    let ghost empty_mask = dirty@;
    proof {
        lemma_mask_zero(gs, empty_mask, n as int);
    }
    // Every seed starts dirty.
    let mut dirty_count: usize = 0;
    let mut i: usize = 0;
    while i < seeds.len()
        invariant
            gs == g@,
            sp == seed_view(seeds@),
            n == gs.len(),
            i <= seeds@.len(),
            seeds@.len() <= limits.spec_max_dirty_bindings(),
            forall|i2: int| 0 <= i2 < seeds@.len() ==> binding_declared(gs, #[trigger] seeds@[i2].0),
            forall|i2: int, j: int| 0 <= i2 < j < seeds@.len() ==> seeds@[i2].0 != seeds@[j].0,
            dirty@.len() == n,
            dirty@ == Seq::new(n as nat, |k: int| is_first_with_id(gs, gs[k].id, k) && exists|i2: int| 0 <= i2 < i && #[trigger] seeds@[i2].0 == gs[k].id),
            dirty_count == mask_count(dirty@, n as int),
            dirty_count == i,
        decreases seeds@.len() - i,
    {
        let id = seeds[i].0;
        proof {
            assert(binding_declared(gs, seeds@[i as int].0));
        }
        let pos = first_position(g, id);
        let ghost old_dirty = dirty@;
        proof {
            if old_dirty[pos as int] {
                let i2 = choose|i2: int| 0 <= i2 < i && #[trigger] seeds@[i2].0 == gs[pos as int].id;
                assert(seeds@[i2].0 == seeds@[i as int].0);
            }
            lemma_mask_mark(gs, old_dirty, pos as int, n as int);
        }
        dirty.set(pos, true);
        dirty_count = dirty_count + 1;
        proof {
            assert forall|k: int| 0 <= k < n implies dirty@[k] == (is_first_with_id(gs, gs[k].id, k) && exists|i2: int| 0 <= i2 < i + 1 && #[trigger] seeds@[i2].0 == gs[k].id) by {
                if k == pos {
                    assert(seeds@[i as int].0 == gs[k].id);
                } else if is_first_with_id(gs, gs[k].id, k) && exists|i2: int| 0 <= i2 < i + 1 && #[trigger] seeds@[i2].0 == gs[k].id {
                    let i2 = choose|i2: int| 0 <= i2 < i + 1 && #[trigger] seeds@[i2].0 == gs[k].id;
                    if i2 == i {
                        crate::binding_graph::lemma_first_with_id_unique(gs, id, k, pos as int);
                    }
                }
            }
            assert(dirty@ =~= Seq::new(n as nat, |k: int| is_first_with_id(gs, gs[k].id, k) && exists|i2: int| 0 <= i2 < i + 1 && #[trigger] seeds@[i2].0 == gs[k].id));
        }
        i += 1;
    }
    let ghost seed_mask = dirty@;
    proof {
        assert forall|k: int| 0 <= k < n implies seed_mask[k] == seed_positions(gs, sp)[k] by {
            if seed_mask[k] {
                let i2 = choose|i2: int| 0 <= i2 < seeds@.len() && #[trigger] seeds@[i2].0 == gs[k].id;
                assert(sp[i2].0 == gs[k].id);
            }
            if is_seed(sp, gs[k].id) {
                let i2 = choose|i2: int| 0 <= i2 < sp.len() && #[trigger] sp[i2].0 == gs[k].id;
                assert(seeds@[i2].0 == gs[k].id);
            }
        }
        assert(seed_mask =~= seed_positions(gs, sp));
    }
    let mut work: usize = 0;
    let mut retained: usize = 0;
    let mut q: usize = 0;
    proof {
        assert forall|k: int| 0 <= k < n implies (#[trigger] reasons_by@[k]@).to_set() == reasons_reaching(gs, sp, 0, k) by {
            assert(reasons_by@[k]@.to_set() =~= reasons_reaching(gs, sp, 0, k));
        }
    }
    while q < seeds.len()
        invariant
            gs == g@,
            sp == seed_view(seeds@),
            n == gs.len(),
            q <= seeds@.len(),
            seeds@.len() <= limits.spec_max_dirty_bindings(),
            forall|i2: int| 0 <= i2 < seeds@.len() ==> binding_declared(gs, #[trigger] seeds@[i2].0),
            seed_mask == Seq::new(n as nat, |k: int| is_first_with_id(gs, gs[k].id, k) && exists|i2: int| 0 <= i2 < seeds@.len() && #[trigger] seeds@[i2].0 == gs[k].id),
            dirty@ == Seq::new(n as nat, |k: int| seed_mask[k] || (is_first_with_id(gs, gs[k].id, k) && reached_by_seeds(gs, sp, q as int, gs[k].id))),
            seed_mask == seed_positions(gs, sp),
            dirty_count == seeds@.len() + new_dirty(gs, sp, q as int).len(),
            dirty_count == mask_count(dirty@, n as int),
            dirty_count <= limits.spec_max_dirty_bindings(),
            work == saturated(total_work(gs, sp, q as int)),
            retained == saturated(total_retained(gs, sp, q as int)),
            total_work(gs, sp, q as int) >= 0,
            total_retained(gs, sp, q as int) >= 0,
            reasons_by@.len() == n,
            forall|k: int| 0 <= k < n ==> reasons_increasing(#[trigger] reasons_by@[k]@),
            retained <= limits.spec_max_retained_reasons() ==> forall|k: int| 0 <= k < n ==> (#[trigger] reasons_by@[k]@).to_set()
                == reasons_reaching(gs, sp, q as int, k),
        decreases seeds@.len() - q,
    {
        let id = seeds[q].0;
        proof {
            assert(binding_declared(gs, seeds@[q as int].0));
        }
        let pos = first_position(g, id);
        proof {
            assert(seeds@[q as int].0 == gs[pos as int].id);
            assert(seed_mask[pos as int]);
        }
        let ghost old_dirty = dirty@;
        let ghost old_reasons = reasons_by@;
        let ghost old_work = work as int;
        let ghost old_retained = retained as int;
        let ghost o = gs[pos as int].id;
        let ghost rm = reach_mask(gs, o);
        let ghost old_count = dirty_count as int;
        assert(sp[q as int].0 == o);
        assert(sp[q as int].1 == seeds@[q as int].1@);
        proof {
            lemma_first_pos(gs, o, pos as int);
            assert(old_dirty =~= dirty_before(gs, sp, q as int));
        }
        let outcome = propagate_from(g, pos, &seeds[q].1, limits, &mut dirty, &mut dirty_count, &mut reasons_by, &mut work, &mut retained);
        match outcome {
            Ok(()) => {},
            Err(e) => {
                proof {
                    let reached = Seq::new(gs.len(), |k: int| old_dirty[k] || rm[k]);
                    let full = dirty_mask(gs, sp);
                    assert forall|k: int| 0 <= k < n && #[trigger] reached[k] implies full[k] by {
                        if seed_mask[k] {
                            let i2 = choose|i2: int| 0 <= i2 < seeds@.len() && #[trigger] seeds@[i2].0 == gs[k].id;
                            lemma_reaches_itself(gs, gs[k].id);
                            assert(sp[i2].0 == gs[k].id);
                            assert(reaches(gs, sp[i2].0, gs[k].id));
                        } else if old_dirty[k] {
                            let i2 = choose|i2: int| 0 <= i2 < q && #[trigger] reaches(gs, sp[i2].0, gs[k].id);
                            assert(reaches(gs, sp[i2].0, gs[k].id));
                        } else {
                            assert(rm[k]);
                            assert(reaches(gs, sp[q as int].0, gs[k].id));
                        }
                    }
                    lemma_mask_count_subset(reached, full, n as int, 0);
                    let f = fresh(bfs_order(gs, pos as int), old_dirty);
                    let before = new_dirty(gs, sp, q as int);
                    let after = new_dirty(gs, sp, q + 1);
                    let idx = limits.spec_max_dirty_bindings() - seeds@.len();
                    assert(after == before + f);
                    assert(after[idx] == f[limits.spec_max_dirty_bindings() - old_count]);
                    lemma_new_dirty_prefix(gs, sp, q + 1, sp.len() as int);
                    assert(new_dirty(gs, sp, sp.len() as int)[idx] == after[idx]);
                }
                return Err(e);
            },
        }
        proof {
            let mw = mask_work(gs, rm, n as int);
            let c = mask_count(rm, n as int);
            let len = sp[q as int].1.len();
            lemma_mask_nonnegative(gs, rm, n as int);
            assert(len * c >= 0) by (nonlinear_arith)
                requires
                    c >= 0,
            ;
            lemma_saturated_add(total_work(gs, sp, q as int), mw);
            lemma_saturated_add(total_retained(gs, sp, q as int), len * c);
            assert(total_work(gs, sp, q + 1) == total_work(gs, sp, q as int) + mw);
            assert(total_retained(gs, sp, q + 1) == total_retained(gs, sp, q as int) + len * c);
            assert forall|k: int| 0 <= k < n implies dirty@[k] == (seed_mask[k] || (is_first_with_id(gs, gs[k].id, k) && reached_by_seeds(gs, sp, q + 1, gs[k].id))) by {
                if rm[k] {
                    assert(reaches(gs, sp[q as int].0, gs[k].id));
                }
                if reached_by_seeds(gs, sp, q + 1, gs[k].id) && is_first_with_id(gs, gs[k].id, k) {
                    let i2 = choose|i2: int| 0 <= i2 < q + 1 && #[trigger] reaches(gs, sp[i2].0, gs[k].id);
                    if i2 < q {
                        assert(reached_by_seeds(gs, sp, q as int, gs[k].id));
                    } else {
                        assert(rm[k]);
                    }
                }
            }
            assert(dirty@ =~= Seq::new(n as nat, |k: int| seed_mask[k] || (is_first_with_id(gs, gs[k].id, k) && reached_by_seeds(gs, sp, q + 1, gs[k].id))));
            if retained <= limits.spec_max_retained_reasons() {
                assert(old_retained <= limits.spec_max_retained_reasons());
                assert forall|k: int| 0 <= k < n implies (#[trigger] reasons_by@[k]@).to_set() == reasons_reaching(gs, sp, q + 1, k) by {
                    assert(reasons_by@[k]@.to_set() == old_reasons[k]@.to_set().union(if rm[k] { seeds@[q as int].1@.to_set() } else { Set::empty() }));
                    assert(old_reasons[k]@.to_set() == reasons_reaching(gs, sp, q as int, k));
                    assert forall|r: DirtyReason| reasons_by@[k]@.to_set().contains(r) <==> reasons_reaching(gs, sp, q + 1, k).contains(r) by {
                        if reasons_reaching(gs, sp, q + 1, k).contains(r) {
                            let i2 = choose|i2: int| 0 <= i2 < q + 1 && #[trigger] reach_mask(gs, sp[i2].0)[k] && sp[i2].1.contains(r);
                            if i2 < q {
                                assert(reasons_reaching(gs, sp, q as int, k).contains(r));
                            }
                        }
                        if old_reasons[k]@.to_set().contains(r) {
                            let i2 = choose|i2: int| 0 <= i2 < q && #[trigger] reach_mask(gs, sp[i2].0)[k] && sp[i2].1.contains(r);
                            assert(reasons_reaching(gs, sp, q + 1, k).contains(r));
                        }
                        if rm[k] && seeds@[q as int].1@.to_set().contains(r) {
                            assert(reach_mask(gs, sp[q as int].0)[k] && sp[q as int].1.contains(r));
                        }
                    }
                    assert(reasons_by@[k]@.to_set() =~= reasons_reaching(gs, sp, q + 1, k));
                }
            }
        }
        q += 1;
    }
    proof {
        assert forall|k: int| 0 <= k < n implies dirty@[k] == dirty_mask(gs, sp)[k] by {
            if seed_mask[k] {
                let i2 = choose|i2: int| 0 <= i2 < seeds@.len() && #[trigger] seeds@[i2].0 == gs[k].id;
                lemma_reaches_itself(gs, gs[k].id);
                assert(sp[i2].0 == gs[k].id);
                assert(reaches(gs, sp[i2].0, gs[k].id));
            }
        }
        assert(dirty@ =~= dirty_mask(gs, sp));
    }
    Ok((dirty, reasons_by, work, retained))
}

/// The seeds of the sorted scope, each with its reasons.
pub open spec fn seed_pairs(ss: Seq<BindingId>, pv: Seq<BindingObservation>, cu: Seq<BindingObservation>) -> Seq<(BindingId, Seq<DirtyReason>)> {
    seed_ids(ss, pv, cu).map_values(|id: BindingId| (id, seed_reasons(pv, cu, id)))
}

/// The reasons of the seeds that reach `x`.
pub open spec fn seed_reasons_reaching(g: Seq<BindingDeclaration>, sp: Seq<(BindingId, Seq<DirtyReason>)>, x: BindingId) -> Set<DirtyReason> {
    Set::new(|r: DirtyReason| exists|i: int| 0 <= i < sp.len() && #[trigger] reaches(g, sp[i].0, x) && sp[i].1.contains(r))
}

/// `e` is a domain error of either snapshot.
pub open spec fn domain_error(g: Seq<BindingDeclaration>, pv: Seq<BindingObservation>, cu: Seq<BindingObservation>, e: BindingObservationError) -> bool {
    snapshot_domain_error(g, pv, e) || snapshot_domain_error(g, cu, e)
}

/// `res` lists the bindings the seeds reach, in increasing order of id, each
/// with the reasons of the seeds that reach it, and the propagation work.
pub open spec fn dirty_result_matches(res: DirtyDerivationResult, g: Seq<BindingDeclaration>, sp: Seq<(BindingId, Seq<DirtyReason>)>) -> bool {
    let ds = res.spec_dirty_bindings();
    &&& forall|a: int, b: int| 0 <= a < b < ds.len() ==> ds[a].spec_binding_id().0 < ds[b].spec_binding_id().0
    &&& forall|x: BindingId| (exists|a: int| 0 <= a < ds.len() && #[trigger] ds[a].spec_binding_id() == x) <==> reached_by_seeds(g, sp, sp.len() as int, x)
    &&& forall|a: int| 0 <= a < ds.len() ==> reasons_increasing(#[trigger] ds[a].spec_reasons()) && ds[a].spec_reasons().to_set()
        == seed_reasons_reaching(g, sp, ds[a].spec_binding_id())
    &&& res.spec_propagation_work() == saturated(total_work(g, sp, sp.len() as int))
}

/// What a dirty derivation returns, stage by stage: the resource errors;
/// else the structural errors; else the domain errors; else the temporal
/// errors, each set sorted with each error once; else the limit error of too
/// many seeds, naming the first seed past the limit; else, when the seeds
/// reach more bindings than the limit, the limit error naming the first
/// binding past the limit that propagation marks, seed by seed in order of
/// id, each breadth first with dependents in order of id; else the limit error of too much propagation
/// work; else that of too many retained reasons; else the dirty bindings.
pub open spec fn derivation_outcome(
    g: Seq<BindingDeclaration>,
    sc: Seq<BindingId>,
    pv: Seq<BindingObservation>,
    cu: Seq<BindingObservation>,
    limits: BindingObservationLimits,
    r: Result<DirtyDerivationResult, Vec<BindingObservationError>>,
) -> bool {
    let pre = preflight_errors(sc.len() as usize, pv.len() as usize, cu.len() as usize, limits);
    let sp = seed_pairs(sorted_scope(sc), pv, cu);
    let max_dirty = limits.spec_max_dirty_bindings();
    let work = saturated(total_work(g, sp, sp.len() as int));
    let retained = saturated(total_retained(g, sp, sp.len() as int));
    if pre.len() > 0 {
        r matches Err(ds) && canonical_errors_of(ds@, pre.to_set())
    } else if exists|e: BindingObservationError| structural_error(g, sc, pv, cu, e) {
        r matches Err(ds) && canonical_errors_of(ds@, Set::new(|e: BindingObservationError| structural_error(g, sc, pv, cu, e)))
    } else if exists|e: BindingObservationError| domain_error(g, pv, cu, e) {
        r matches Err(ds) && canonical_errors_of(ds@, Set::new(|e: BindingObservationError| domain_error(g, pv, cu, e)))
    } else if exists|e: BindingObservationError| temporal_error(sc, pv, cu, e) {
        r matches Err(ds) && canonical_errors_of(ds@, Set::new(|e: BindingObservationError| temporal_error(sc, pv, cu, e)))
    } else if sp.len() > max_dirty {
        r matches Err(ds) && ds@ == seq![limit_error(
            BindingObservationStage::DirtySeedDerivation,
            BindingObservationErrorKind::DirtyResultLimitExceeded,
            Some(sp[max_dirty as int].0),
            BindingObservationLimitKind::DirtyBindings,
            sp.len() as usize,
            max_dirty,
        )]
    } else if mask_count(dirty_mask(g, sp), g.len() as int) > max_dirty {
        r matches Err(ds) && ds@ == seq![limit_error(
            BindingObservationStage::DependencyPropagation,
            BindingObservationErrorKind::DirtyResultLimitExceeded,
            Some(g[new_dirty(g, sp, sp.len() as int)[max_dirty - sp.len()]].id),
            BindingObservationLimitKind::DirtyBindings,
            saturated(max_dirty + 1) as usize,
            max_dirty,
        )]
    } else if work > limits.spec_max_propagation_work() {
        r matches Err(ds) && ds@ == seq![limit_error(
            BindingObservationStage::DependencyPropagation,
            BindingObservationErrorKind::PropagationWorkLimitExceeded,
            None,
            BindingObservationLimitKind::PropagationWork,
            work as usize,
            limits.spec_max_propagation_work(),
        )]
    } else if retained > limits.spec_max_retained_reasons() {
        r matches Err(ds) && ds@ == seq![limit_error(
            BindingObservationStage::CanonicalResult,
            BindingObservationErrorKind::RetainedReasonLimitExceeded,
            None,
            BindingObservationLimitKind::RetainedReasons,
            retained as usize,
            limits.spec_max_retained_reasons(),
        )]
    } else {
        r matches Ok(res) && dirty_result_matches(res, g, sp)
    }
}

/// The seed ids of a sequence are among its ids, and in order when it is.
proof fn lemma_seed_ids_within(s: Seq<BindingId>, pv: Seq<BindingObservation>, cu: Seq<BindingObservation>)
    ensures
        forall|i: int| 0 <= i < seed_ids(s, pv, cu).len() ==> s.contains(#[trigger] seed_ids(s, pv, cu)[i]),
        ids_increasing(s) ==> ids_increasing(seed_ids(s, pv, cu)),
    decreases s.len(),
{
    if s.len() > 0 {
        let s0 = s.drop_last();
        lemma_seed_ids_within(s0, pv, cu);
        let a = seed_ids(s0, pv, cu);
        let b = seed_ids(s, pv, cu);
        assert forall|i: int| 0 <= i < b.len() implies s.contains(#[trigger] b[i]) by {
            if i < a.len() {
                assert(b[i] == a[i]);
                assert(s0.contains(a[i]));
                let k = choose|k: int| 0 <= k < s0.len() && s0[k] == a[i];
                assert(s[k] == a[i]);
            } else {
                assert(b[i] == s.last());
                assert(s[s.len() - 1] == s.last());
            }
        }
        if ids_increasing(s) {
            assert(ids_increasing(s0));
            assert forall|i: int, j: int| 0 <= i < j < b.len() implies b[i].0 < b[j].0 by {
                if j >= a.len() {
                    assert(b[j] == s.last());
                    assert(b[i] == a[i]);
                    assert(s0.contains(a[i]));
                    let k = choose|k: int| 0 <= k < s0.len() && s0[k] == a[i];
                    assert(s[k] == s0[k]);
                } else {
                    assert(b[i] == a[i] && b[j] == a[j]);
                }
            }
        }
    }
}

/// What a declared binding reaches is declared.
proof fn lemma_reached_is_declared(g: Seq<BindingDeclaration>, o: BindingId, x: BindingId)
    requires
        binding_declared(g, o),
        reaches(g, o, x),
    ensures
        binding_declared(g, x),
{
    let p = choose|p: Seq<BindingId>| #[trigger] is_dependent_path(g, p) && p.len() >= 1 && p[0] == o && p.last() == x;
    if p.len() > 1 {
        assert(dependent_step(g, p, p.len() - 2));
        let k = choose|k: int| 0 <= k < g.len() && #[trigger] g[k].id == p[p.len() - 2 + 1] && lists_dependency(g[k], p[p.len() - 2]);
        assert(g[k].id == x);
    }
}

/// Derives the dirty bindings of a graph from two snapshots of observations
/// of the scoped bindings.
pub fn derive_dirty_bindings(
    graph: &BindingGraphDocument,
    scope: BindingObservationScope,
    previous: BindingObservationSet,
    current: BindingObservationSet,
    limits: BindingObservationLimits,
) -> (r: Result<DirtyDerivationResult, Vec<BindingObservationError>>)
    ensures
        derivation_outcome(graph.bindings@, scope.spec_ids(), previous.spec_observations(), current.spec_observations(), limits, r),
{
    let g = &graph.bindings;
    let ghost gs = g@;
    let sc = scope.binding_ids;
    let pv = previous.observations;
    let cu = current.observations;
    let ghost (scs, pvs, cus) = (sc@, pv@, cu@);
    let pre = resource_preflight(sc.len(), pv.len(), cu.len(), limits);
    if pre.len() > 0 {
        return Err(canonical_errors(pre));
    }
    let structural = structural_errors(g, sc.as_slice(), pv.as_slice(), cu.as_slice());
    if structural.len() > 0 {
        proof {
            assert(structural@.contains(structural@[0]));
            assert(structural@.to_set() =~= Set::new(|e: BindingObservationError| structural_error(gs, scs, pvs, cus, e)));
        }
        return Err(canonical_errors(structural));
    }
    proof {
        assert forall|e: BindingObservationError| !structural_error(gs, scs, pvs, cus, e) by {
            if structural_error(gs, scs, pvs, cus, e) {
                assert(structural@.contains(e));
            }
        }
        assert forall|x: BindingId| !appears_twice(observed_ids(pvs), x) by {
            assert(!structural_error(gs, scs, pvs, cus, content_error(BindingObservationStage::StructuralValidation, BindingObservationErrorKind::DuplicateObservation, x)));
        }
        assert forall|x: BindingId| !appears_twice(observed_ids(cus), x) by {
            assert(!structural_error(gs, scs, pvs, cus, content_error(BindingObservationStage::StructuralValidation, BindingObservationErrorKind::DuplicateObservation, x)));
        }
        assert forall|x: BindingId| scs.contains(x) implies binding_declared(gs, x) by {
            assert(!structural_error(gs, scs, pvs, cus, content_error(BindingObservationStage::StructuralValidation, BindingObservationErrorKind::UnknownScopeBinding, x)));
        }
        assert(observed_once(pvs));
        assert(observed_once(cus));
    }
    let mut domain = validate_domains(g, pv.as_slice());
    let mut domain_cu = validate_domains(g, cu.as_slice());
    let ghost (d1, d2) = (domain@, domain_cu@);
    domain.append(&mut domain_cu);
    proof {
        assert(domain@ == d1 + d2);
        assert forall|e: BindingObservationError| domain@.contains(e) <==> domain_error(gs, pvs, cus, e) by {
            lemma_concat_contains(d1, d2, e);
        }
    }
    if domain.len() > 0 {
        proof {
            assert(domain@.contains(domain@[0]));
            assert(domain@.to_set() =~= Set::new(|e: BindingObservationError| domain_error(gs, pvs, cus, e)));
        }
        return Err(canonical_errors(domain));
    }
    proof {
        assert forall|e: BindingObservationError| !domain_error(gs, pvs, cus, e) by {
            if domain_error(gs, pvs, cus, e) {
                assert(domain@.contains(e));
            }
        }
    }
    let ss = sorted_ids(sc.as_slice());
    let (temporal, seeds) = temporal_pass(&ss, pv.as_slice(), cu.as_slice());
    proof {
        assert forall|e: BindingObservationError| temporal_error(ss@, pvs, cus, e) <==> temporal_error(scs, pvs, cus, e) by {
            match e.binding_id {
                None => {},
                Some(id) => {
                    assert(ss@.to_set().contains(id) == scs.to_set().contains(id));
                },
            }
        }
    }
    if temporal.len() > 0 {
        proof {
            assert(temporal@.contains(temporal@[0]));
            assert(temporal_error(scs, pvs, cus, temporal@[0]));
            assert(temporal@.to_set() =~= Set::new(|e: BindingObservationError| temporal_error(scs, pvs, cus, e)));
        }
        return Err(canonical_errors(temporal));
    }
    let ghost sp = seed_pairs(ss@, pvs, cus);
    proof {
        assert(ss@ == sorted_scope(scs));
        assert forall|e: BindingObservationError| !temporal_error(scs, pvs, cus, e) by {
            if temporal_error(scs, pvs, cus, e) {
                assert(temporal@.contains(e));
            }
        }
        assert(seed_view(seeds@) =~= sp);
        lemma_seed_ids_within(ss@, pvs, cus);
    }
    if seeds.len() > limits.max_dirty_bindings {
        let e = BindingObservationError::limit(
            BindingObservationStage::DirtySeedDerivation,
            BindingObservationErrorKind::DirtyResultLimitExceeded,
            Some(seeds[limits.max_dirty_bindings].0),
            BindingObservationLimitKind::DirtyBindings,
            seeds.len(),
            limits.max_dirty_bindings,
        );
        let v = vec![e];
        proof {
            assert(seeds@[limits.max_dirty_bindings as int].0 == sp[limits.max_dirty_bindings as int].0);
            assert(v@ =~= seq![e]);
        }
        return Err(v);
    }
    proof {
        let si = seed_ids(ss@, pvs, cus);
        assert forall|i: int| 0 <= i < seeds@.len() implies binding_declared(gs, #[trigger] seeds@[i].0) by {
            assert(seeds@[i].0 == si[i]);
            assert(ss@.contains(si[i]));
            assert(ss@.to_set().contains(si[i]));
            assert(scs.to_set().contains(si[i]));
        }
        assert forall|i: int, j: int| 0 <= i < j < seeds@.len() implies seeds@[i].0 != seeds@[j].0 by {
            assert(seeds@[i].0 == si[i] && seeds@[j].0 == si[j]);
        }
    }
    match propagate(g, &seeds, limits) {
        Err(e) => {
            let v = vec![e];
            proof {
                assert(v@ =~= seq![e]);
            }
            return Err(v);
        },
        Ok((dirty, reasons_by, work, retained)) => {
            if work > limits.max_propagation_work {
                let e = BindingObservationError::limit(
                    BindingObservationStage::DependencyPropagation,
                    BindingObservationErrorKind::PropagationWorkLimitExceeded,
                    None,
                    BindingObservationLimitKind::PropagationWork,
                    work,
                    limits.max_propagation_work,
                );
                let v = vec![e];
                proof {
                    assert(v@ =~= seq![e]);
                }
                return Err(v);
            }
            if retained > limits.max_retained_reasons {
                let e = BindingObservationError::limit(
                    BindingObservationStage::CanonicalResult,
                    BindingObservationErrorKind::RetainedReasonLimitExceeded,
                    None,
                    BindingObservationLimitKind::RetainedReasons,
                    retained,
                    limits.max_retained_reasons,
                );
                let v = vec![e];
                proof {
                    assert(v@ =~= seq![e]);
                }
                return Err(v);
            }
            let n = g.len();
            let mut ids: Vec<BindingId> = Vec::new();
            let mut k: usize = 0;
            while k < n
                invariant
                    gs == g@,
                    n == gs.len(),
                    k <= n,
                    dirty@ == dirty_mask(gs, sp),
                    forall|x: BindingId| ids@.contains(x) <==> exists|m: int| 0 <= m < k && #[trigger] dirty@[m] && gs[m].id == x,
                decreases n - k,
            {
                let ghost old = ids@;
                if dirty[k] {
                    ids.push(g[k].id);
                }
                proof {
                    assert forall|x: BindingId| ids@.contains(x) <==> exists|m: int| 0 <= m < k + 1 && #[trigger] dirty@[m] && gs[m].id == x by {
                        if dirty@[k as int] {
                            lemma_push_contains(old, gs[k as int].id, x);
                        }
                        if exists|m: int| 0 <= m < k + 1 && #[trigger] dirty@[m] && gs[m].id == x {
                            let m = choose|m: int| 0 <= m < k + 1 && #[trigger] dirty@[m] && gs[m].id == x;
                            if m < k {
                                assert(exists|m2: int| 0 <= m2 < k && #[trigger] dirty@[m2] && gs[m2].id == x);
                            }
                        }
                    }
                }
                k += 1;
            }
            let sorted = sorted_ids(ids.as_slice());
            proof {
                assert forall|b: int| 0 <= b < sorted@.len() implies binding_declared(gs, #[trigger] sorted@[b]) by {
                    assert(sorted@.to_set().contains(sorted@[b]));
                    assert(ids@.contains(sorted@[b]));
                    let m = choose|m: int| 0 <= m < n && #[trigger] dirty@[m] && gs[m].id == sorted@[b];
                }
            }
            let mut out: Vec<DirtyBinding> = Vec::new();
            let ghost mut positions: Seq<int> = Seq::empty();
            let mut a: usize = 0;
            while a < sorted.len()
                invariant
                    gs == g@,
                    n == gs.len(),
                    a <= sorted@.len(),
                    reasons_by@.len() == n,
                    out@.len() == a,
                    positions.len() == a,
                    forall|b: int| 0 <= b < a ==> (#[trigger] out@[b]).spec_binding_id() == sorted@[b]
                        && is_first_with_id(gs, sorted@[b], positions[b]) && out@[b].spec_reasons() == reasons_by@[positions[b]]@,
                    forall|b: int| 0 <= b < sorted@.len() ==> binding_declared(gs, #[trigger] sorted@[b]),
                decreases sorted@.len() - a,
            {
                let x = sorted[a];
                let pos = first_position(g, x);
                let db = DirtyBinding { binding_id: x, reasons: copy_reasons(&reasons_by[pos]) };
                let ghost old = out@;
                let ghost old_positions = positions;
                out.push(db);
                proof {
                    positions = positions.push(pos as int);
                    assert forall|b: int| 0 <= b < a + 1 implies (#[trigger] out@[b]).spec_binding_id() == sorted@[b]
                        && is_first_with_id(gs, sorted@[b], positions[b]) && out@[b].spec_reasons() == reasons_by@[positions[b]]@ by {
                        if b < a {
                            assert(out@[b] == old[b]);
                            assert(positions[b] == old_positions[b]);
                        } else {
                            assert(out@[b] == db);
                        }
                    }
                }
                a += 1;
            }
            let res = DirtyDerivationResult { dirty_bindings: out, propagation_work: work };
            proof {
                let ds = res.spec_dirty_bindings();
                assert forall|x: BindingId| (exists|b: int| 0 <= b < ds.len() && #[trigger] ds[b].spec_binding_id() == x) <==> reached_by_seeds(gs, sp, sp.len() as int, x) by {
                    if exists|b: int| 0 <= b < ds.len() && #[trigger] ds[b].spec_binding_id() == x {
                        let b = choose|b: int| 0 <= b < ds.len() && #[trigger] ds[b].spec_binding_id() == x;
                        assert(sorted@.to_set().contains(x));
                        assert(ids@.to_set().contains(x));
                        let m = choose|m: int| 0 <= m < n && #[trigger] dirty@[m] && gs[m].id == x;
                        assert(dirty_mask(gs, sp)[m]);
                    }
                    if reached_by_seeds(gs, sp, sp.len() as int, x) {
                        let i = choose|i: int| 0 <= i < sp.len() && #[trigger] reaches(gs, sp[i].0, x);
                        assert(binding_declared(gs, seeds@[i].0));
                        lemma_reached_is_declared(gs, sp[i].0, x);
                        let j = choose|j: int| 0 <= j < gs.len() && #[trigger] gs[j].id == x;
                        lemma_first_exists(gs, x, j);
                        let m = choose|m: int| #[trigger] is_first_with_id(gs, x, m);
                        assert(dirty_mask(gs, sp)[m]);
                        assert(ids@.contains(x));
                        assert(ids@.to_set().contains(x));
                        assert(sorted@.to_set().contains(x));
                        let b = choose|b: int| 0 <= b < sorted@.len() && sorted@[b] == x;
                        assert(ds[b].spec_binding_id() == x);
                    }
                }
                assert forall|b: int| 0 <= b < ds.len() implies reasons_increasing(#[trigger] ds[b].spec_reasons()) && ds[b].spec_reasons().to_set()
                    == seed_reasons_reaching(gs, sp, ds[b].spec_binding_id()) by {
                    let x = ds[b].spec_binding_id();
                    let pos = positions[b];
                    assert(reasons_by@[pos]@.to_set() == reasons_reaching(gs, sp, sp.len() as int, pos));
                    assert forall|r: DirtyReason| reasons_reaching(gs, sp, sp.len() as int, pos).contains(r) <==> seed_reasons_reaching(gs, sp, x).contains(r) by {
                        if reasons_reaching(gs, sp, sp.len() as int, pos).contains(r) {
                            let i = choose|i: int| 0 <= i < sp.len() && #[trigger] reach_mask(gs, sp[i].0)[pos] && sp[i].1.contains(r);
                            assert(reaches(gs, sp[i].0, x));
                        }
                        if seed_reasons_reaching(gs, sp, x).contains(r) {
                            let i = choose|i: int| 0 <= i < sp.len() && #[trigger] reaches(gs, sp[i].0, x) && sp[i].1.contains(r);
                            assert(reach_mask(gs, sp[i].0)[pos]);
                        }
                    }
                    assert(ds[b].spec_reasons().to_set() =~= seed_reasons_reaching(gs, sp, x));
                }
            }
            Ok(res)
        },
    }
}

/// Dirtiness is closed under dependents: when the seeds reach a binding,
/// they reach every binding that depends on it.
pub proof fn lemma_dirtiness_reaches_dependents(
    g: Seq<BindingDeclaration>,
    sp: Seq<(BindingId, Seq<DirtyReason>)>,
    x: BindingId,
    y: BindingId,
)
    requires
        reached_by_seeds(g, sp, sp.len() as int, x),
        dependent_of(g, x, y),
    ensures
        reached_by_seeds(g, sp, sp.len() as int, y),
{
    let i = choose|i: int| 0 <= i < sp.len() && #[trigger] reaches(g, sp[i].0, x);
    let p = choose|p: Seq<BindingId>| #[trigger] is_dependent_path(g, p) && p.len() >= 1 && p[0] == sp[i].0 && p.last() == x;
    lemma_dependent_path_extends(g, p, y);
    assert(is_dependent_path(g, p.push(y)) && p.push(y).len() >= 1 && p.push(y)[0] == sp[i].0 && p.push(y).last() == y);
    assert(reaches(g, sp[i].0, y));
}

/// Observing the same snapshot twice makes nothing dirty and is no
/// temporal error.
pub proof fn lemma_identical_snapshots_seed_nothing(sc: Seq<BindingId>, obs: Seq<BindingObservation>, id: BindingId, e: BindingObservationError)
    ensures
        seed_reasons(obs, obs, id).len() == 0,
        !temporal_error(sc, obs, obs, e),
{
}

/// The number of items of `s` that satisfy `p`.
pub open spec fn count_where<T>(s: Seq<T>, p: spec_fn(T) -> bool) -> int
    decreases s.len(),
{
    if s.len() == 0 {
        0
    } else {
        count_where(s.drop_last(), p) + if p(s.last()) { 1int } else { 0int }
    }
}

/// Removing an item removes it from the count.
proof fn lemma_count_remove<T>(s: Seq<T>, p: spec_fn(T) -> bool, j: int)
    requires
        0 <= j < s.len(),
    ensures
        count_where(s, p) == count_where(s.remove(j), p) + if p(s[j]) { 1int } else { 0int },
    decreases s.len(),
{
    if j == s.len() - 1 {
        assert(s.remove(j) =~= s.drop_last());
    } else {
        lemma_count_remove(s.drop_last(), p, j);
        assert(s.remove(j).drop_last() =~= s.drop_last().remove(j));
        assert(s.remove(j).last() == s.last());
    }
}

/// Reordering keeps the count.
pub(crate) proof fn lemma_count_permutation<T>(a: Seq<T>, b: Seq<T>, p: spec_fn(T) -> bool)
    requires
        a.to_multiset() == b.to_multiset(),
    ensures
        count_where(a, p) == count_where(b, p),
    decreases a.len(),
{
    vstd::seq_lib::to_multiset_len(a);
    vstd::seq_lib::to_multiset_len(b);
    if a.len() > 0 {
        let x = a.last();
        let a1 = a.drop_last();
        assert(a =~= a1.push(x));
        vstd::seq_lib::to_multiset_build(a1, x);
        assert(a[a.len() - 1] == x);
        vstd::seq_lib::to_multiset_contains(a, x);
        vstd::seq_lib::to_multiset_contains(b, x);
        let j = choose|j: int| 0 <= j < b.len() && b[j] == x;
        vstd::seq_lib::to_multiset_remove(b, j);
        assert(b.remove(j).to_multiset() =~= a1.to_multiset());
        lemma_count_permutation(a1, b.remove(j), p);
        lemma_count_remove(b, p, j);
    }
}

/// The count is at least one just when some item satisfies `p`, and at
/// least two just when two do.
pub(crate) proof fn lemma_count_some<T>(s: Seq<T>, p: spec_fn(T) -> bool)
    ensures
        count_where(s, p) >= 0,
        count_where(s, p) >= 1 <==> exists|k: int| 0 <= k < s.len() && #[trigger] p(s[k]),
        count_where(s, p) >= 2 <==> exists|a: int, b: int| 0 <= a < b < s.len() && #[trigger] p(s[a]) && #[trigger] p(s[b]),
    decreases s.len(),
{
    if s.len() > 0 {
        let s1 = s.drop_last();
        let l = s.len() - 1;
        lemma_count_some(s1, p);
        assert(s[l] == s.last());
        if exists|k: int| 0 <= k < s1.len() && #[trigger] p(s1[k]) {
            let k = choose|k: int| 0 <= k < s1.len() && #[trigger] p(s1[k]);
            assert(p(s[k]));
        }
        if exists|k: int| 0 <= k < s.len() && #[trigger] p(s[k]) {
            let k = choose|k: int| 0 <= k < s.len() && #[trigger] p(s[k]);
            if k < l {
                assert(p(s1[k]));
            }
        }
        if exists|a: int, b: int| 0 <= a < b < s1.len() && #[trigger] p(s1[a]) && #[trigger] p(s1[b]) {
            let (a, b) = choose|a: int, b: int| 0 <= a < b < s1.len() && #[trigger] p(s1[a]) && #[trigger] p(s1[b]);
            assert(p(s[a]) && p(s[b]));
        }
        if p(s.last()) && count_where(s1, p) >= 1 {
            let k = choose|k: int| 0 <= k < s1.len() && #[trigger] p(s1[k]);
            assert(p(s[k]) && p(s[l]));
        }
        if exists|a: int, b: int| 0 <= a < b < s.len() && #[trigger] p(s[a]) && #[trigger] p(s[b]) {
            let (a, b) = choose|a: int, b: int| 0 <= a < b < s.len() && #[trigger] p(s[a]) && #[trigger] p(s[b]);
            assert(p(s1[a]));
            if b < l {
                assert(p(s1[b]));
            }
        }
    }
}

/// Reordering ids keeps which ids are there and which are there twice.
proof fn lemma_ids_reordered(a: Seq<BindingId>, b: Seq<BindingId>, id: BindingId)
    requires
        a.to_multiset() == b.to_multiset(),
    ensures
        a.contains(id) <==> b.contains(id),
        appears_twice(a, id) <==> appears_twice(b, id),
{
    let p = |x: BindingId| x == id;
    lemma_count_permutation(a, b, p);
    lemma_count_some(a, p);
    lemma_count_some(b, p);
    if a.contains(id) {
        let k = choose|k: int| 0 <= k < a.len() && a[k] == id;
        assert(p(a[k]));
    }
    if b.contains(id) {
        let k = choose|k: int| 0 <= k < b.len() && b[k] == id;
        assert(p(b[k]));
    }
    if appears_twice(a, id) {
        let (x, y) = choose|x: int, y: int| 0 <= x < y < a.len() && #[trigger] a[x] == id && #[trigger] a[y] == id;
        assert(p(a[x]) && p(a[y]));
    }
    if appears_twice(b, id) {
        let (x, y) = choose|x: int, y: int| 0 <= x < y < b.len() && #[trigger] b[x] == id && #[trigger] b[y] == id;
        assert(p(b[x]) && p(b[y]));
    }
}

/// Reordering observations keeps which ids are observed, which twice, and
/// with or without a quad state.
proof fn lemma_observations_reordered(a: Seq<BindingObservation>, b: Seq<BindingObservation>, id: BindingId)
    requires
        a.to_multiset() == b.to_multiset(),
    ensures
        observed_ids(a).contains(id) <==> observed_ids(b).contains(id),
        appears_twice(observed_ids(a), id) <==> appears_twice(observed_ids(b), id),
        observed_with(a, id, true) <==> observed_with(b, id, true),
        observed_with(a, id, false) <==> observed_with(b, id, false),
{
    let p = |o: BindingObservation| o.spec_binding_id() == id;
    let pt = |o: BindingObservation| o.spec_binding_id() == id && (o.spec_quad_state() is Some) == true;
    let pf = |o: BindingObservation| o.spec_binding_id() == id && (o.spec_quad_state() is Some) == false;
    lemma_count_permutation(a, b, p);
    lemma_count_permutation(a, b, pt);
    lemma_count_permutation(a, b, pf);
    lemma_count_some(a, p);
    lemma_count_some(b, p);
    lemma_count_some(a, pt);
    lemma_count_some(b, pt);
    lemma_count_some(a, pf);
    lemma_count_some(b, pf);
    lemma_observed_counts(a, id);
    lemma_observed_counts(b, id);
}

/// Which ids a snapshot observes, twice, and with or without a quad state,
/// as counts.
proof fn lemma_observed_counts(s: Seq<BindingObservation>, id: BindingId)
    ensures
        observed_ids(s).contains(id) <==> count_where(s, |o: BindingObservation| o.spec_binding_id() == id) >= 1,
        appears_twice(observed_ids(s), id) <==> count_where(s, |o: BindingObservation| o.spec_binding_id() == id) >= 2,
        observed_with(s, id, true) <==> count_where(
            s,
            |o: BindingObservation| o.spec_binding_id() == id && (o.spec_quad_state() is Some) == true,
        ) >= 1,
        observed_with(s, id, false) <==> count_where(
            s,
            |o: BindingObservation| o.spec_binding_id() == id && (o.spec_quad_state() is Some) == false,
        ) >= 1,
{
    let p = |o: BindingObservation| o.spec_binding_id() == id;
    let pt = |o: BindingObservation| o.spec_binding_id() == id && (o.spec_quad_state() is Some) == true;
    let pf = |o: BindingObservation| o.spec_binding_id() == id && (o.spec_quad_state() is Some) == false;
    let ids = observed_ids(s);
    lemma_count_some(s, p);
    lemma_count_some(s, pt);
    lemma_count_some(s, pf);
    if ids.contains(id) {
        let k = choose|k: int| 0 <= k < ids.len() && ids[k] == id;
        assert(p(s[k]));
    }
    if count_where(s, p) >= 1 {
        let k = choose|k: int| 0 <= k < s.len() && #[trigger] p(s[k]);
        assert(ids[k] == id);
    }
    if appears_twice(ids, id) {
        let (x, y) = choose|x: int, y: int| 0 <= x < y < ids.len() && #[trigger] ids[x] == id && #[trigger] ids[y] == id;
        assert(p(s[x]) && p(s[y]));
    }
    if count_where(s, p) >= 2 {
        let (x, y) = choose|x: int, y: int| 0 <= x < y < s.len() && #[trigger] p(s[x]) && #[trigger] p(s[y]);
        assert(ids[x] == id && ids[y] == id);
    }
    if observed_with(s, id, true) {
        let k = choose|k: int| 0 <= k < s.len() && #[trigger] s[k].spec_binding_id() == id && (s[k].spec_quad_state() is Some) == true;
        assert(pt(s[k]));
    }
    if observed_with(s, id, false) {
        let k = choose|k: int| 0 <= k < s.len() && #[trigger] s[k].spec_binding_id() == id && (s[k].spec_quad_state() is Some) == false;
        assert(pf(s[k]));
    }
    if count_where(s, pt) >= 1 {
        let k = choose|k: int| 0 <= k < s.len() && #[trigger] pt(s[k]);
        assert(s[k].spec_binding_id() == id);
    }
    if count_where(s, pf) >= 1 {
        let k = choose|k: int| 0 <= k < s.len() && #[trigger] pf(s[k]);
        assert(s[k].spec_binding_id() == id);
    }
}

/// Reordering a snapshot that observes `id` at most once keeps its
/// observation of `id`.
proof fn lemma_observation_of_reordered(a: Seq<BindingObservation>, b: Seq<BindingObservation>, id: BindingId)
    requires
        a.to_multiset() == b.to_multiset(),
        !appears_twice(observed_ids(a), id),
    ensures
        observation_of(a, id) == observation_of(b, id),
{
    lemma_observations_reordered(a, b, id);
    if exists|k: int| 0 <= k < a.len() && #[trigger] a[k].spec_binding_id() == id {
        let k = choose|k: int| 0 <= k < a.len() && #[trigger] a[k].spec_binding_id() == id;
        let o = a[k];
        vstd::seq_lib::to_multiset_contains(a, o);
        vstd::seq_lib::to_multiset_contains(b, o);
        assert(a.contains(o));
        let j = choose|j: int| 0 <= j < b.len() && b[j] == o;
        assert(b[j].spec_binding_id() == id);
        let k2 = choose|k2: int| 0 <= k2 < b.len() && #[trigger] b[k2].spec_binding_id() == id;
        if k2 != j {
            let ib = observed_ids(b);
            assert(ib[k2] == id && ib[j] == id);
            if k2 < j {
                assert(appears_twice(ib, id));
            } else {
                assert(appears_twice(ib, id));
            }
        }
    } else {
        if exists|k: int| 0 <= k < b.len() && #[trigger] b[k].spec_binding_id() == id {
            let k = choose|k: int| 0 <= k < b.len() && #[trigger] b[k].spec_binding_id() == id;
            assert(observed_ids(b)[k] == id);
            assert(observed_ids(b).contains(id));
            let i = choose|i: int| 0 <= i < a.len() && observed_ids(a)[i] == id;
            assert(a[i].spec_binding_id() == id);
        }
    }
}

/// Seed ids of one scope agree when the seed reasons do.
proof fn lemma_seed_ids_agree(
    s: Seq<BindingId>,
    pv: Seq<BindingObservation>,
    cu: Seq<BindingObservation>,
    pv2: Seq<BindingObservation>,
    cu2: Seq<BindingObservation>,
)
    requires
        forall|id: BindingId| #[trigger] seed_reasons(pv, cu, id) == seed_reasons(pv2, cu2, id),
    ensures
        seed_ids(s, pv, cu) == seed_ids(s, pv2, cu2),
    decreases s.len(),
{
    if s.len() > 0 {
        lemma_seed_ids_agree(s.drop_last(), pv, cu, pv2, cu2);
        assert(seed_reasons(pv, cu, s.last()) == seed_reasons(pv2, cu2, s.last()));
    }
}

/// Dirty derivation does not depend on the order of its inputs: with the
/// scope and each snapshot given in any other order, it has the same
/// outcome, errors and result alike.
pub proof fn lemma_derivation_ignores_input_order(
    g: Seq<BindingDeclaration>,
    sc: Seq<BindingId>,
    pv: Seq<BindingObservation>,
    cu: Seq<BindingObservation>,
    sc2: Seq<BindingId>,
    pv2: Seq<BindingObservation>,
    cu2: Seq<BindingObservation>,
    limits: BindingObservationLimits,
    r: Result<DirtyDerivationResult, Vec<BindingObservationError>>,
)
    requires
        sc2.to_multiset() == sc.to_multiset(),
        pv2.to_multiset() == pv.to_multiset(),
        cu2.to_multiset() == cu.to_multiset(),
        derivation_outcome(g, sc, pv, cu, limits, r),
    ensures
        derivation_outcome(g, sc2, pv2, cu2, limits, r),
{
    vstd::seq_lib::to_multiset_len(sc);
    vstd::seq_lib::to_multiset_len(sc2);
    vstd::seq_lib::to_multiset_len(pv);
    vstd::seq_lib::to_multiset_len(pv2);
    vstd::seq_lib::to_multiset_len(cu);
    vstd::seq_lib::to_multiset_len(cu2);
    assert forall|e: BindingObservationError| #[trigger] structural_error(g, sc, pv, cu, e) == structural_error(g, sc2, pv2, cu2, e)
        && domain_error(g, pv, cu, e) == domain_error(g, pv2, cu2, e) by {
        if let Some(id) = e.binding_id {
            lemma_ids_reordered(sc, sc2, id);
            lemma_observations_reordered(pv, pv2, id);
            lemma_observations_reordered(cu, cu2, id);
        }
    }
    assert(Set::new(|e: BindingObservationError| structural_error(g, sc, pv, cu, e)) =~= Set::new(
        |e: BindingObservationError| structural_error(g, sc2, pv2, cu2, e),
    ));
    assert(Set::new(|e: BindingObservationError| domain_error(g, pv, cu, e)) =~= Set::new(
        |e: BindingObservationError| domain_error(g, pv2, cu2, e),
    ));
    assert forall|x: BindingId| sc.contains(x) <==> sc2.contains(x) by {
        lemma_ids_reordered(sc, sc2, x);
    }
    assert(sc.to_set() =~= sc2.to_set());
    assert(sorted_scope(sc) == sorted_scope(sc2));
    if exists|e: BindingObservationError| structural_error(g, sc, pv, cu, e) {
        let e = choose|e: BindingObservationError| structural_error(g, sc, pv, cu, e);
        assert(structural_error(g, sc2, pv2, cu2, e));
    }
    if exists|e: BindingObservationError| structural_error(g, sc2, pv2, cu2, e) {
        let e = choose|e: BindingObservationError| structural_error(g, sc2, pv2, cu2, e);
        assert(structural_error(g, sc, pv, cu, e));
    }
    if exists|e: BindingObservationError| domain_error(g, pv, cu, e) {
        let e = choose|e: BindingObservationError| domain_error(g, pv, cu, e);
        assert(structural_error(g, sc, pv, cu, e) == structural_error(g, sc2, pv2, cu2, e));
        assert(domain_error(g, pv2, cu2, e));
    }
    if exists|e: BindingObservationError| domain_error(g, pv2, cu2, e) {
        let e = choose|e: BindingObservationError| domain_error(g, pv2, cu2, e);
        assert(structural_error(g, sc, pv, cu, e) == structural_error(g, sc2, pv2, cu2, e));
        assert(domain_error(g, pv, cu, e));
    }
    if !exists|e: BindingObservationError| structural_error(g, sc, pv, cu, e) {
        assert forall|id: BindingId|
            !appears_twice(observed_ids(pv), id) && !appears_twice(observed_ids(cu), id) by {
            let e = content_error(BindingObservationStage::StructuralValidation, BindingObservationErrorKind::DuplicateObservation, id);
            assert(!structural_error(g, sc, pv, cu, e));
        }
        assert forall|id: BindingId| #[trigger] observation_of(pv, id) == observation_of(pv2, id)
            && observation_of(cu, id) == observation_of(cu2, id) by {
            lemma_observation_of_reordered(pv, pv2, id);
            lemma_observation_of_reordered(cu, cu2, id);
        }
        assert forall|id: BindingId| #[trigger] seed_reasons(pv, cu, id) == seed_reasons(pv2, cu2, id) by {
            assert(observation_of(pv, id) == observation_of(pv2, id));
        }
        assert forall|e: BindingObservationError| #[trigger] temporal_error(sc, pv, cu, e) == temporal_error(sc2, pv2, cu2, e) by {
            if let Some(id) = e.binding_id {
                lemma_ids_reordered(sc, sc2, id);
                assert(observation_of(pv, id) == observation_of(pv2, id));
            }
        }
        assert(Set::new(|e: BindingObservationError| temporal_error(sc, pv, cu, e)) =~= Set::new(
            |e: BindingObservationError| temporal_error(sc2, pv2, cu2, e),
        ));
        if exists|e: BindingObservationError| temporal_error(sc, pv, cu, e) {
            let e = choose|e: BindingObservationError| temporal_error(sc, pv, cu, e);
            assert(temporal_error(sc2, pv2, cu2, e));
        }
        if exists|e: BindingObservationError| temporal_error(sc2, pv2, cu2, e) {
            let e = choose|e: BindingObservationError| temporal_error(sc2, pv2, cu2, e);
            assert(temporal_error(sc, pv, cu, e));
        }
        let ss = sorted_scope(sc);
        lemma_seed_ids_agree(ss, pv, cu, pv2, cu2);
        assert(seed_pairs(ss, pv, cu) =~= seed_pairs(ss, pv2, cu2));
        assert(seed_pairs(sorted_scope(sc2), pv2, cu2) == seed_pairs(sorted_scope(sc), pv, cu));
    }
}

/// Two dirty derivation results list the same bindings in the same order,
/// each with the same reasons, and the same propagation work.
pub open spec fn same_dirty_result(a: DirtyDerivationResult, b: DirtyDerivationResult) -> bool {
    let (x, y) = (a.spec_dirty_bindings(), b.spec_dirty_bindings());
    &&& x.len() == y.len()
    &&& forall|k: int| 0 <= k < x.len() ==> (#[trigger] x[k]).spec_binding_id() == y[k].spec_binding_id() && x[k].spec_reasons() == y[k].spec_reasons()
    &&& a.spec_propagation_work() == b.spec_propagation_work()
}

/// Two canonical lists of the same errors are one list.
proof fn lemma_canonical_errors_unique(x: Seq<BindingObservationError>, y: Seq<BindingObservationError>, es: Set<BindingObservationError>)
    requires
        canonical_errors_of(x, es),
        canonical_errors_of(y, es),
    ensures
        x == y,
{
    crate::contract_primitives::lemma_strictly_sorted_unique(x, y, |e: BindingObservationError| error_key(e));
}

/// Two results that match the same seeds are the same result.
proof fn lemma_dirty_results_agree(a: DirtyDerivationResult, b: DirtyDerivationResult, g: Seq<BindingDeclaration>, sp: Seq<(BindingId, Seq<DirtyReason>)>)
    requires
        dirty_result_matches(a, g, sp),
        dirty_result_matches(b, g, sp),
    ensures
        same_dirty_result(a, b),
{
    let (x, y) = (a.spec_dirty_bindings(), b.spec_dirty_bindings());
    let f = |d: DirtyBinding| d.spec_binding_id();
    let (ix, iy) = (x.map_values(f), y.map_values(f));
    assert forall|p: BindingId| ix.to_set().contains(p) <==> iy.to_set().contains(p) by {
        if ix.to_set().contains(p) {
            let k = choose|k: int| 0 <= k < ix.len() && ix[k] == p;
            assert(x[k].spec_binding_id() == p);
            assert(reached_by_seeds(g, sp, sp.len() as int, p));
            let m = choose|m: int| 0 <= m < y.len() && #[trigger] y[m].spec_binding_id() == p;
            assert(iy[m] == p);
        }
        if iy.to_set().contains(p) {
            let k = choose|k: int| 0 <= k < iy.len() && iy[k] == p;
            assert(y[k].spec_binding_id() == p);
            assert(reached_by_seeds(g, sp, sp.len() as int, p));
            let m = choose|m: int| 0 <= m < x.len() && #[trigger] x[m].spec_binding_id() == p;
            assert(ix[m] == p);
        }
    }
    assert(ix.to_set() =~= iy.to_set());
    assert forall|i: int, j: int| 0 <= i < j < ix.len() implies ix[i].0 < ix[j].0 by {
        assert(x[i].spec_binding_id().0 < x[j].spec_binding_id().0);
    }
    assert forall|i: int, j: int| 0 <= i < j < iy.len() implies iy[i].0 < iy[j].0 by {
        assert(y[i].spec_binding_id().0 < y[j].spec_binding_id().0);
    }
    lemma_increasing_ids_unique(ix, iy);
    assert forall|k: int| 0 <= k < x.len() implies (#[trigger] x[k]).spec_binding_id() == y[k].spec_binding_id() && x[k].spec_reasons() == y[k].spec_reasons() by {
        assert(ix[k] == iy[k]);
        assert(reasons_increasing(x[k].spec_reasons()) && reasons_increasing(y[k].spec_reasons()));
        crate::contract_primitives::lemma_strictly_sorted_unique(x[k].spec_reasons(), y[k].spec_reasons(), |r: DirtyReason| reason_key(r));
    }
}

/// A dirty derivation has one outcome: two results that meet it both fail
/// with the same errors or both succeed with the same result.
pub proof fn lemma_derivation_outcome_unique(
    g: Seq<BindingDeclaration>,
    sc: Seq<BindingId>,
    pv: Seq<BindingObservation>,
    cu: Seq<BindingObservation>,
    limits: BindingObservationLimits,
    r1: Result<DirtyDerivationResult, Vec<BindingObservationError>>,
    r2: Result<DirtyDerivationResult, Vec<BindingObservationError>>,
)
    requires
        derivation_outcome(g, sc, pv, cu, limits, r1),
        derivation_outcome(g, sc, pv, cu, limits, r2),
    ensures
        r1 is Ok <==> r2 is Ok,
        match (r1, r2) {
            (Err(x), Err(y)) => x@ == y@,
            (Ok(x), Ok(y)) => same_dirty_result(x, y),
            _ => true,
        },
{
    let pre = preflight_errors(sc.len() as usize, pv.len() as usize, cu.len() as usize, limits);
    let sp = seed_pairs(sorted_scope(sc), pv, cu);
    if let (Err(x), Err(y)) = (r1, r2) {
        if pre.len() > 0 {
            lemma_canonical_errors_unique(x@, y@, pre.to_set());
        } else if exists|e: BindingObservationError| structural_error(g, sc, pv, cu, e) {
            lemma_canonical_errors_unique(x@, y@, Set::new(|e: BindingObservationError| structural_error(g, sc, pv, cu, e)));
        } else if exists|e: BindingObservationError| domain_error(g, pv, cu, e) {
            lemma_canonical_errors_unique(x@, y@, Set::new(|e: BindingObservationError| domain_error(g, pv, cu, e)));
        } else if exists|e: BindingObservationError| temporal_error(sc, pv, cu, e) {
            lemma_canonical_errors_unique(x@, y@, Set::new(|e: BindingObservationError| temporal_error(sc, pv, cu, e)));
        }
    }
    if let (Ok(x), Ok(y)) = (r1, r2) {
        lemma_dirty_results_agree(x, y, g, sp);
    }
}

/// Dirty derivation gives the same result for any order of its inputs: with
/// the scope and each snapshot given in any other order, both derivations
/// fail with the same errors, or both succeed listing the same dirty
/// bindings in the same order, each with the same reasons, and the same
/// propagation work.
pub proof fn lemma_reordered_derivations_agree(
    g: Seq<BindingDeclaration>,
    sc: Seq<BindingId>,
    pv: Seq<BindingObservation>,
    cu: Seq<BindingObservation>,
    sc2: Seq<BindingId>,
    pv2: Seq<BindingObservation>,
    cu2: Seq<BindingObservation>,
    limits: BindingObservationLimits,
    r1: Result<DirtyDerivationResult, Vec<BindingObservationError>>,
    r2: Result<DirtyDerivationResult, Vec<BindingObservationError>>,
)
    requires
        sc2.to_multiset() == sc.to_multiset(),
        pv2.to_multiset() == pv.to_multiset(),
        cu2.to_multiset() == cu.to_multiset(),
        derivation_outcome(g, sc, pv, cu, limits, r1),
        derivation_outcome(g, sc2, pv2, cu2, limits, r2),
    ensures
        r1 is Ok <==> r2 is Ok,
        match (r1, r2) {
            (Err(x), Err(y)) => x@ == y@,
            (Ok(x), Ok(y)) => same_dirty_result(x, y),
            _ => true,
        },
{
    lemma_derivation_ignores_input_order(g, sc, pv, cu, sc2, pv2, cu2, limits, r1);
    lemma_derivation_outcome_unique(g, sc2, pv2, cu2, limits, r1, r2);
}

/// An increasing id sequence with one more id inserted, still increasing.
proof fn lemma_increasing_with(s: Seq<BindingId>, x: BindingId)
    requires
        ids_increasing(s),
    ensures
        exists|t: Seq<BindingId>| ids_increasing(t) && t.to_set() == s.to_set().insert(x),
    decreases s.len(),
{
    if s.contains(x) {
        assert(s.to_set().insert(x) =~= s.to_set());
    } else if s.len() == 0 {
        let t = seq![x];
        assert(t.to_set() =~= s.to_set().insert(x)) by {
            assert forall|v: BindingId| t.contains(v) <==> v == x by {
                if v == x {
                    assert(t[0] == x);
                }
            }
        }
    } else if x.0 < s[0].0 {
        let t = s.insert(0, x);
        lemma_insert_to_set(s, 0, x);
        assert forall|a: int, b: int| 0 <= a < b < t.len() implies t[a].0 < t[b].0 by {
            if a == 0 {
                assert(t[b] == s[b - 1]);
                if b > 1 {
                    assert(s[0].0 < s[b - 1].0);
                }
            } else {
                assert(t[a] == s[a - 1] && t[b] == s[b - 1]);
            }
        }
    } else {
        let s1 = s.drop_first();
        assert(ids_increasing(s1)) by {
            assert forall|a: int, b: int| 0 <= a < b < s1.len() implies s1[a].0 < s1[b].0 by {
                assert(s1[a] == s[a + 1] && s1[b] == s[b + 1]);
            }
        }
        lemma_increasing_with(s1, x);
        let t1 = choose|t: Seq<BindingId>| ids_increasing(t) && t.to_set() == s1.to_set().insert(x);
        let t = seq![s[0]] + t1;
        assert(x != s[0]) by {
            assert(s[0] == s[0]);
            if x == s[0] {
                assert(s.contains(x));
            }
        }
        assert forall|v: BindingId| t1.contains(v) implies s[0].0 < v.0 by {
            assert(t1.to_set().contains(v));
            if v != x {
                assert(s1.to_set().contains(v));
                let k = choose|k: int| 0 <= k < s1.len() && s1[k] == v;
                assert(s[k + 1] == v);
            } else {
                assert(x.0 != s[0].0);
            }
        }
        assert forall|a: int, b: int| 0 <= a < b < t.len() implies t[a].0 < t[b].0 by {
            assert(t[b] == t1[b - 1]);
            if a == 0 {
                assert(t1.contains(t1[b - 1]));
            } else {
                assert(t[a] == t1[a - 1]);
            }
        }
        assert(s =~= seq![s[0]] + s1);
        assert forall|v: BindingId| t.contains(v) <==> s.to_set().insert(x).contains(v) by {
            if t.contains(v) {
                let k = choose|k: int| 0 <= k < t.len() && t[k] == v;
                if k > 0 {
                    assert(t1[k - 1] == v);
                    assert(t1.to_set().contains(v));
                    if v != x {
                        let j = choose|j: int| 0 <= j < s1.len() && s1[j] == v;
                        assert(s[j + 1] == v);
                    }
                } else {
                    assert(s[0] == v);
                }
            }
            if s.to_set().insert(x).contains(v) {
                if v == s[0] {
                    assert(t[0] == v);
                } else if v == x {
                    assert(t1.to_set().contains(v));
                    let k = choose|k: int| 0 <= k < t1.len() && t1[k] == v;
                    assert(t[k + 1] == v);
                } else {
                    let j = choose|j: int| 0 <= j < s.len() && s[j] == v;
                    assert(j > 0);
                    assert(s1[j - 1] == v);
                    assert(t1.to_set().contains(v));
                    let k = choose|k: int| 0 <= k < t1.len() && t1[k] == v;
                    assert(t[k + 1] == v);
                }
            }
        }
        assert(t.to_set() =~= s.to_set().insert(x));
    }
}

/// The scope has an increasing arrangement of its ids.
proof fn lemma_sorted_scope_exists(sc: Seq<BindingId>)
    ensures
        ids_increasing(sorted_scope(sc)),
        sorted_scope(sc).to_set() == sc.to_set(),
    decreases sc.len(),
{
    if sc.len() == 0 {
        assert(Seq::<BindingId>::empty().to_set() =~= sc.to_set());
        assert(ids_increasing(Seq::<BindingId>::empty()));
    } else {
        let s0 = sc.drop_last();
        lemma_sorted_scope_exists(s0);
        lemma_increasing_with(sorted_scope(s0), sc.last());
        assert(sc =~= s0.push(sc.last()));
        assert(sc.to_set() =~= s0.to_set().insert(sc.last())) by {
            assert forall|v: BindingId| sc.contains(v) <==> s0.contains(v) || v == sc.last() by {
                if sc.contains(v) {
                    let k = choose|k: int| 0 <= k < sc.len() && sc[k] == v;
                    if k < s0.len() {
                        assert(s0[k] == v);
                    }
                }
                if s0.contains(v) {
                    let k = choose|k: int| 0 <= k < s0.len() && s0[k] == v;
                    assert(sc[k] == v);
                }
                if v == sc.last() {
                    assert(sc[sc.len() - 1] == v);
                }
            }
        }
    }
}

/// An id of `s` with seed reasons is a seed id of `s`.
proof fn lemma_seed_ids_contains(s: Seq<BindingId>, pv: Seq<BindingObservation>, cu: Seq<BindingObservation>, id: BindingId)
    requires
        s.contains(id),
        seed_reasons(pv, cu, id).len() > 0,
    ensures
        seed_ids(s, pv, cu).contains(id),
    decreases s.len(),
{
    let s0 = s.drop_last();
    if s.last() == id {
        let r = seed_ids(s, pv, cu);
        assert(r[r.len() - 1] == id);
    } else {
        let k = choose|k: int| 0 <= k < s.len() && s[k] == id;
        assert(s0[k] == id);
        lemma_seed_ids_contains(s0, pv, cu, id);
        let a = seed_ids(s0, pv, cu);
        let j = choose|j: int| 0 <= j < a.len() && a[j] == id;
        assert(seed_ids(s, pv, cu)[j] == id);
    }
}

/// The changes between a binding's two observations, each with the reason
/// it gives: added, removed, or a later observation with another revision,
/// epoch or quad state.
pub open spec fn observation_changes(p: Option<BindingObservation>, c: Option<BindingObservation>, id: BindingId) -> Set<DirtyReason> {
    Set::new(|r: DirtyReason| match (p, c) {
        (None, Some(c)) => r == DirtyReason { kind: DirtyReasonKind::Added, originating_binding_id: id, previous_quad_state: None, current_quad_state: c.spec_quad_state() },
        (Some(p), None) => r == DirtyReason { kind: DirtyReasonKind::Removed, originating_binding_id: id, previous_quad_state: p.spec_quad_state(), current_quad_state: None },
        (Some(p), Some(c)) => {
            ||| p.spec_revision().spec_raw() != c.spec_revision().spec_raw() && r == DirtyReason {
                kind: DirtyReasonKind::RevisionChanged,
                originating_binding_id: id,
                previous_quad_state: p.spec_quad_state(),
                current_quad_state: c.spec_quad_state(),
            }
            ||| p.spec_epoch().spec_raw() != c.spec_epoch().spec_raw() && r == DirtyReason {
                kind: DirtyReasonKind::EpochChanged,
                originating_binding_id: id,
                previous_quad_state: p.spec_quad_state(),
                current_quad_state: c.spec_quad_state(),
            }
            ||| p.spec_quad_state() != c.spec_quad_state() && r == DirtyReason {
                kind: DirtyReasonKind::QuadValueChanged,
                originating_binding_id: id,
                previous_quad_state: p.spec_quad_state(),
                current_quad_state: c.spec_quad_state(),
            }
        },
        (None, None) => false,
    })
}

/// A successful derivation marks every scoped binding whose observation
/// changed between the snapshots dirty: one that appeared, disappeared, or
/// was observed with another revision, epoch or quad state. Its reasons
/// include each of its changes, originating at itself, with the quad states
/// before and after.
pub proof fn lemma_changed_observations_are_dirty(
    g: Seq<BindingDeclaration>,
    sc: Seq<BindingId>,
    pv: Seq<BindingObservation>,
    cu: Seq<BindingObservation>,
    limits: BindingObservationLimits,
    res: DirtyDerivationResult,
    id: BindingId,
    r: DirtyReason,
)
    requires
        derivation_outcome(g, sc, pv, cu, limits, Ok(res)),
        sc.contains(id),
        observation_changes(observation_of(pv, id), observation_of(cu, id), id).contains(r),
    ensures
        exists|a: int| 0 <= a < res.spec_dirty_bindings().len() && #[trigger] res.spec_dirty_bindings()[a].spec_binding_id() == id
            && res.spec_dirty_bindings()[a].spec_reasons().contains(r),
{
    let ss = sorted_scope(sc);
    let sp = seed_pairs(ss, pv, cu);
    let rs = seed_reasons(pv, cu, id);
    let ds = res.spec_dirty_bindings();
    match (observation_of(pv, id), observation_of(cu, id)) {
        (Some(p), Some(c)) => {
            let stale = content_error(BindingObservationStage::TemporalValidation, BindingObservationErrorKind::StaleObservation, id);
            let replay = content_error(BindingObservationStage::TemporalValidation, BindingObservationErrorKind::ConflictingReplay, id);
            assert(!temporal_error(sc, pv, cu, stale));
            assert(!temporal_error(sc, pv, cu, replay));
            assert(observed_before(p, c));
            let r1 = reason_when(p.spec_revision().spec_raw() != c.spec_revision().spec_raw(), DirtyReasonKind::RevisionChanged, id, p, c);
            let r2 = reason_when(p.spec_epoch().spec_raw() != c.spec_epoch().spec_raw(), DirtyReasonKind::EpochChanged, id, p, c);
            let r3 = reason_when(p.spec_quad_state() != c.spec_quad_state(), DirtyReasonKind::QuadValueChanged, id, p, c);
            assert(rs == r1 + r2 + r3);
            if r1.len() > 0 && r1[0] == r {
                assert(rs[0] == r);
            } else if r2.len() > 0 && r2[0] == r {
                assert(rs[r1.len() as int] == r);
            } else {
                assert(r3.len() > 0 && r3[0] == r);
                assert(rs[(r1.len() + r2.len()) as int] == r);
            }
        },
        (Some(p), None) => {
            assert(rs[0] == r);
        },
        (None, Some(c)) => {
            assert(rs[0] == r);
        },
        (None, None) => {},
    }
    assert(rs.contains(r));
    lemma_sorted_scope_exists(sc);
    assert(ss.to_set().contains(id));
    lemma_seed_ids_contains(ss, pv, cu, id);
    let si = seed_ids(ss, pv, cu);
    let i = choose|i: int| 0 <= i < si.len() && si[i] == id;
    assert(sp[i] == (id, rs));
    lemma_reaches_itself(g, id);
    assert(reaches(g, sp[i].0, id));
    assert(reached_by_seeds(g, sp, sp.len() as int, id));
    let a = choose|a: int| 0 <= a < ds.len() && #[trigger] ds[a].spec_binding_id() == id;
    assert(seed_reasons_reaching(g, sp, id).contains(r));
    assert(ds[a].spec_reasons().to_set().contains(r));
}

/// Every reason a successful derivation gives a dirty binding is a change of
/// the binding it originates at: a scoped binding that reaches the dirty one
/// through its dependents, whose observation changed that way between the
/// snapshots.
pub proof fn lemma_dirty_reasons_are_changes(
    g: Seq<BindingDeclaration>,
    sc: Seq<BindingId>,
    pv: Seq<BindingObservation>,
    cu: Seq<BindingObservation>,
    limits: BindingObservationLimits,
    res: DirtyDerivationResult,
    a: int,
    r: DirtyReason,
)
    requires
        derivation_outcome(g, sc, pv, cu, limits, Ok(res)),
        0 <= a < res.spec_dirty_bindings().len(),
        res.spec_dirty_bindings()[a].spec_reasons().contains(r),
    ensures
        sc.contains(r.originating_binding_id),
        reaches(g, r.originating_binding_id, res.spec_dirty_bindings()[a].spec_binding_id()),
        observation_changes(observation_of(pv, r.originating_binding_id), observation_of(cu, r.originating_binding_id), r.originating_binding_id).contains(r),
{
    let ss = sorted_scope(sc);
    let sp = seed_pairs(ss, pv, cu);
    let ds = res.spec_dirty_bindings();
    let x = ds[a].spec_binding_id();
    assert(ds[a].spec_reasons().to_set().contains(r));
    assert(seed_reasons_reaching(g, sp, x).contains(r));
    let i = choose|i: int| 0 <= i < sp.len() && #[trigger] reaches(g, sp[i].0, x) && sp[i].1.contains(r);
    let si = seed_ids(ss, pv, cu);
    let y = si[i];
    assert(sp[i] == (y, seed_reasons(pv, cu, y)));
    lemma_seed_ids_within(ss, pv, cu);
    assert(ss.contains(y));
    lemma_sorted_scope_exists(sc);
    assert(ss.to_set().contains(y));
    assert(sc.to_set().contains(y));
    let rs = seed_reasons(pv, cu, y);
    let k = choose|k: int| 0 <= k < rs.len() && rs[k] == r;
    match (observation_of(pv, y), observation_of(cu, y)) {
        (Some(p), Some(c)) => {
            let r1 = reason_when(p.spec_revision().spec_raw() != c.spec_revision().spec_raw(), DirtyReasonKind::RevisionChanged, y, p, c);
            let r2 = reason_when(p.spec_epoch().spec_raw() != c.spec_epoch().spec_raw(), DirtyReasonKind::EpochChanged, y, p, c);
            let r3 = reason_when(p.spec_quad_state() != c.spec_quad_state(), DirtyReasonKind::QuadValueChanged, y, p, c);
            if observed_before(p, c) {
                assert(rs == r1 + r2 + r3);
                if k < r1.len() {
                    assert(rs[k] == r1[k]);
                } else if k < r1.len() + r2.len() {
                    assert(rs[k] == r2[k - r1.len()]);
                } else {
                    assert(rs[k] == r3[k - r1.len() - r2.len()]);
                }
            }
        },
        _ => {},
    }
}

} // verus!
