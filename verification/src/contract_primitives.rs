//! Contract primitives: versions, identities, source references and
//! diagnostic coordinates shared by the UI contract documents.
//!
//! Identities and versions are never zero; a source span never ends before
//! it starts.
use vstd::prelude::*;
use vstd::string::StringSliceAdditionalSpecFns;

verus! {

#[derive(Debug, Clone, Copy, PartialEq, Eq, Hash, Structural)]
pub enum ContractPrimitiveError {
    ZeroVersion,
    ZeroId,
    InvalidSourceSpan,
}

#[derive(Debug, Clone, Copy, PartialEq, Eq, PartialOrd, Ord, Hash, Structural)]
pub struct SchemaVersion(u32);

impl SchemaVersion {
    /// The current version, one.
    pub fn current() -> (r: Self)
        ensures
            r.spec_raw() == 1,
    {
        Self(1)
    }

    /// The raw value of this SchemaVersion.
    pub closed spec fn spec_raw(self) -> u32 {
        self.0
    }

    /// Zero is rejected; any other value is accepted as is.
    pub fn new(raw: u32) -> (r: Result<Self, ContractPrimitiveError>)
        ensures
            raw == 0 ==> r == Err::<Self, ContractPrimitiveError>(ContractPrimitiveError::ZeroVersion),
            raw != 0 ==> r is Ok && r->Ok_0.spec_raw() == raw,
    {
        if raw == 0 {
            Err(ContractPrimitiveError::ZeroVersion)
        } else {
            Ok(Self(raw))
        }
    }

    pub fn raw(self) -> (r: u32)
        ensures
            r == self.spec_raw(),
            r != 0,
    {
        proof {
            use_type_invariant(&self);
        }
        self.0
    }

    #[verifier::type_invariant]
    closed spec fn nonzero(self) -> bool {
        self.0 != 0
    }
}

#[derive(Debug, Clone, Copy, PartialEq, Eq, PartialOrd, Ord, Hash, Structural)]
pub struct ContractVersion(u32);

impl ContractVersion {
    /// The current version, one.
    pub fn current() -> (r: Self)
        ensures
            r.spec_raw() == 1,
    {
        Self(1)
    }

    /// The raw value of this ContractVersion.
    pub closed spec fn spec_raw(self) -> u32 {
        self.0
    }

    /// Zero is rejected; any other value is accepted as is.
    pub fn new(raw: u32) -> (r: Result<Self, ContractPrimitiveError>)
        ensures
            raw == 0 ==> r == Err::<Self, ContractPrimitiveError>(ContractPrimitiveError::ZeroVersion),
            raw != 0 ==> r is Ok && r->Ok_0.spec_raw() == raw,
    {
        if raw == 0 {
            Err(ContractPrimitiveError::ZeroVersion)
        } else {
            Ok(Self(raw))
        }
    }

    pub fn raw(self) -> (r: u32)
        ensures
            r == self.spec_raw(),
            r != 0,
    {
        proof {
            use_type_invariant(&self);
        }
        self.0
    }

    #[verifier::type_invariant]
    closed spec fn nonzero(self) -> bool {
        self.0 != 0
    }
}

#[derive(Debug, Clone, Copy, PartialEq, Eq, PartialOrd, Ord, Hash, Structural)]
pub struct SourceId(u64);

impl SourceId {
    /// The raw value of this SourceId.
    pub closed spec fn spec_raw(self) -> u64 {
        self.0
    }

    /// Zero is rejected; any other value is accepted as is.
    pub fn new(raw: u64) -> (r: Result<Self, ContractPrimitiveError>)
        ensures
            raw == 0 ==> r == Err::<Self, ContractPrimitiveError>(ContractPrimitiveError::ZeroId),
            raw != 0 ==> r is Ok && r->Ok_0.spec_raw() == raw,
    {
        if raw == 0 {
            Err(ContractPrimitiveError::ZeroId)
        } else {
            Ok(Self(raw))
        }
    }

    pub fn raw(self) -> (r: u64)
        ensures
            r == self.spec_raw(),
            r != 0,
    {
        proof {
            use_type_invariant(&self);
        }
        self.0
    }

    #[verifier::type_invariant]
    closed spec fn nonzero(self) -> bool {
        self.0 != 0
    }
}

#[derive(Debug, Clone, Copy, PartialEq, Eq, PartialOrd, Ord, Hash, Structural)]
pub struct ProjectionSourceSurfaceId(u64);

impl ProjectionSourceSurfaceId {
    /// The raw value of this ProjectionSourceSurfaceId.
    pub closed spec fn spec_raw(self) -> u64 {
        self.0
    }

    /// Zero is rejected; any other value is accepted as is.
    pub fn new(raw: u64) -> (r: Result<Self, ContractPrimitiveError>)
        ensures
            raw == 0 ==> r == Err::<Self, ContractPrimitiveError>(ContractPrimitiveError::ZeroId),
            raw != 0 ==> r is Ok && r->Ok_0.spec_raw() == raw,
    {
        if raw == 0 {
            Err(ContractPrimitiveError::ZeroId)
        } else {
            Ok(Self(raw))
        }
    }

    pub fn raw(self) -> (r: u64)
        ensures
            r == self.spec_raw(),
            r != 0,
    {
        proof {
            use_type_invariant(&self);
        }
        self.0
    }

    #[verifier::type_invariant]
    closed spec fn nonzero(self) -> bool {
        self.0 != 0
    }
}

#[derive(Debug, Clone, Copy, PartialEq, Eq, PartialOrd, Ord, Hash, Structural)]
pub struct ProjectionSourceNodeId(u64);

/// A projection source node identity is its raw value.
pub proof fn lemma_projection_source_node_id_raw_injective(a: ProjectionSourceNodeId, b: ProjectionSourceNodeId)
    requires
        a.spec_raw() == b.spec_raw(),
    ensures
        a == b,
{
}

impl ProjectionSourceNodeId {
    /// The raw value of this ProjectionSourceNodeId.
    pub closed spec fn spec_raw(self) -> u64 {
        self.0
    }

    /// Zero is rejected; any other value is accepted as is.
    pub fn new(raw: u64) -> (r: Result<Self, ContractPrimitiveError>)
        ensures
            raw == 0 ==> r == Err::<Self, ContractPrimitiveError>(ContractPrimitiveError::ZeroId),
            raw != 0 ==> r is Ok && r->Ok_0.spec_raw() == raw,
    {
        if raw == 0 {
            Err(ContractPrimitiveError::ZeroId)
        } else {
            Ok(Self(raw))
        }
    }

    pub fn raw(self) -> (r: u64)
        ensures
            r == self.spec_raw(),
            r != 0,
    {
        proof {
            use_type_invariant(&self);
        }
        self.0
    }

    #[verifier::type_invariant]
    closed spec fn nonzero(self) -> bool {
        self.0 != 0
    }
}

#[derive(Debug, Clone, Copy, PartialEq, Eq, PartialOrd, Ord, Hash, Structural)]
pub struct StaticDocumentId(u64);

impl StaticDocumentId {
    /// The raw value of this StaticDocumentId.
    pub closed spec fn spec_raw(self) -> u64 {
        self.0
    }

    /// Zero is rejected; any other value is accepted as is.
    pub fn new(raw: u64) -> (r: Result<Self, ContractPrimitiveError>)
        ensures
            raw == 0 ==> r == Err::<Self, ContractPrimitiveError>(ContractPrimitiveError::ZeroId),
            raw != 0 ==> r is Ok && r->Ok_0.spec_raw() == raw,
    {
        if raw == 0 {
            Err(ContractPrimitiveError::ZeroId)
        } else {
            Ok(Self(raw))
        }
    }

    pub fn raw(self) -> (r: u64)
        ensures
            r == self.spec_raw(),
            r != 0,
    {
        proof {
            use_type_invariant(&self);
        }
        self.0
    }

    #[verifier::type_invariant]
    closed spec fn nonzero(self) -> bool {
        self.0 != 0
    }
}

#[derive(Debug, Clone, Copy, PartialEq, Eq, PartialOrd, Ord, Hash, Structural)]
pub struct StaticSurfaceId(u64);

impl StaticSurfaceId {
    /// The raw value of this StaticSurfaceId.
    pub closed spec fn spec_raw(self) -> u64 {
        self.0
    }

    /// Zero is rejected; any other value is accepted as is.
    pub fn new(raw: u64) -> (r: Result<Self, ContractPrimitiveError>)
        ensures
            raw == 0 ==> r == Err::<Self, ContractPrimitiveError>(ContractPrimitiveError::ZeroId),
            raw != 0 ==> r is Ok && r->Ok_0.spec_raw() == raw,
    {
        if raw == 0 {
            Err(ContractPrimitiveError::ZeroId)
        } else {
            Ok(Self(raw))
        }
    }

    pub fn raw(self) -> (r: u64)
        ensures
            r == self.spec_raw(),
            r != 0,
    {
        proof {
            use_type_invariant(&self);
        }
        self.0
    }

    #[verifier::type_invariant]
    closed spec fn nonzero(self) -> bool {
        self.0 != 0
    }
}

#[derive(Debug, Clone, Copy, PartialEq, Eq, PartialOrd, Ord, Hash, Structural)]
pub struct StaticNodeId(u64);

/// Every raw value is that of some static node identity.
pub proof fn lemma_static_node_id_for_raw(raw: u64)
    ensures
        exists|n: StaticNodeId| n.spec_raw() == raw,
{
    assert(StaticNodeId(raw).spec_raw() == raw);
}

/// A static node identity is its raw value.
pub proof fn lemma_static_node_id_raw_injective(a: StaticNodeId, b: StaticNodeId)
    requires
        a.spec_raw() == b.spec_raw(),
    ensures
        a == b,
{
}

impl StaticNodeId {
    /// The raw value of this StaticNodeId.
    pub closed spec fn spec_raw(self) -> u64 {
        self.0
    }

    /// Zero is rejected; any other value is accepted as is.
    pub fn new(raw: u64) -> (r: Result<Self, ContractPrimitiveError>)
        ensures
            raw == 0 ==> r == Err::<Self, ContractPrimitiveError>(ContractPrimitiveError::ZeroId),
            raw != 0 ==> r is Ok && r->Ok_0.spec_raw() == raw,
    {
        if raw == 0 {
            Err(ContractPrimitiveError::ZeroId)
        } else {
            Ok(Self(raw))
        }
    }

    pub fn raw(self) -> (r: u64)
        ensures
            r == self.spec_raw(),
            r != 0,
    {
        proof {
            use_type_invariant(&self);
        }
        self.0
    }

    #[verifier::type_invariant]
    closed spec fn nonzero(self) -> bool {
        self.0 != 0
    }
}

#[derive(Debug, Clone, Copy, PartialEq, Eq, PartialOrd, Ord, Hash, Structural)]
pub struct CollectionKey(u64);

impl CollectionKey {
    /// The raw value of this CollectionKey.
    pub closed spec fn spec_raw(self) -> u64 {
        self.0
    }

    /// Zero is rejected; any other value is accepted as is.
    pub fn new(raw: u64) -> (r: Result<Self, ContractPrimitiveError>)
        ensures
            raw == 0 ==> r == Err::<Self, ContractPrimitiveError>(ContractPrimitiveError::ZeroId),
            raw != 0 ==> r is Ok && r->Ok_0.spec_raw() == raw,
    {
        if raw == 0 {
            Err(ContractPrimitiveError::ZeroId)
        } else {
            Ok(Self(raw))
        }
    }

    pub fn raw(self) -> (r: u64)
        ensures
            r == self.spec_raw(),
            r != 0,
    {
        proof {
            use_type_invariant(&self);
        }
        self.0
    }

    #[verifier::type_invariant]
    closed spec fn nonzero(self) -> bool {
        self.0 != 0
    }
}

#[derive(Debug, Clone, Copy, PartialEq, Eq, PartialOrd, Ord, Hash, Structural)]
pub struct Revision(u64);

impl Revision {
    pub closed spec fn spec_raw(self) -> u64 {
        self.0
    }

    pub fn new(raw: u64) -> (r: Self)
        ensures
            r.spec_raw() == raw,
    {
        Self(raw)
    }

    pub fn raw(self) -> (r: u64)
        ensures
            r == self.spec_raw(),
    {
        self.0
    }
}

#[derive(Debug, Clone, Copy, PartialEq, Eq, PartialOrd, Ord, Hash, Structural)]
pub struct Epoch(u64);

impl Epoch {
    pub closed spec fn spec_raw(self) -> u64 {
        self.0
    }

    pub fn new(raw: u64) -> (r: Self)
        ensures
            r.spec_raw() == raw,
    {
        Self(raw)
    }

    pub fn raw(self) -> (r: u64)
        ensures
            r == self.spec_raw(),
    {
        self.0
    }
}

#[derive(Debug, Clone, Copy, PartialEq, Eq, PartialOrd, Ord, Hash, Structural)]
pub struct ChildOrder(u32);

impl ChildOrder {
    pub closed spec fn spec_raw(self) -> u32 {
        self.0
    }

    pub fn new(raw: u32) -> (r: Self)
        ensures
            r.spec_raw() == raw,
    {
        Self(raw)
    }

    pub fn raw(self) -> (r: u32)
        ensures
            r == self.spec_raw(),
    {
        self.0
    }
}

#[derive(Debug, Clone, Copy, PartialEq, Eq, PartialOrd, Ord, Hash, Structural)]
pub struct SourceSpan {
    start: u32,
    end: u32,
}

impl SourceSpan {
    pub closed spec fn spec_start(self) -> u32 {
        self.start
    }

    pub closed spec fn spec_end(self) -> u32 {
        self.end
    }

    #[verifier::type_invariant]
    closed spec fn ordered(self) -> bool {
        self.start <= self.end
    }

    /// A span is accepted exactly when it does not end before it starts.
    pub fn new(start: u32, end: u32) -> (r: Result<Self, ContractPrimitiveError>)
        ensures
            start > end ==> r == Err::<Self, ContractPrimitiveError>(ContractPrimitiveError::InvalidSourceSpan),
            start <= end ==> r is Ok && r->Ok_0.spec_start() == start && r->Ok_0.spec_end() == end,
    {
        if start > end {
            Err(ContractPrimitiveError::InvalidSourceSpan)
        } else {
            Ok(Self { start, end })
        }
    }

    pub fn start(self) -> (r: u32)
        ensures
            r == self.spec_start(),
            r <= self.spec_end(),
    {
        proof {
            use_type_invariant(&self);
        }
        self.start
    }

    pub fn end(self) -> (r: u32)
        ensures
            r == self.spec_end(),
            self.spec_start() <= r,
    {
        proof {
            use_type_invariant(&self);
        }
        self.end
    }
}

#[derive(Debug, Clone, Copy, PartialEq, Eq, PartialOrd, Ord, Hash, Structural)]
pub struct SourceRef {
    source: SourceId,
    span: SourceSpan,
}

impl SourceRef {
    pub closed spec fn spec_source(self) -> SourceId {
        self.source
    }

    pub closed spec fn spec_span(self) -> SourceSpan {
        self.span
    }

    pub fn new(source: SourceId, span: SourceSpan) -> (r: Self)
        ensures
            r.spec_source() == source,
            r.spec_span() == span,
    {
        Self { source, span }
    }

    pub fn source(self) -> (r: SourceId)
        ensures
            r == self.spec_source(),
    {
        self.source
    }

    pub fn span(self) -> (r: SourceSpan)
        ensures
            r == self.spec_span(),
    {
        self.span
    }
}

#[derive(Debug, Clone, Copy, PartialEq, Eq, PartialOrd, Ord, Hash)]
pub struct DiagnosticCode(&'static str);

impl DiagnosticCode {
    pub closed spec fn spec_text(self) -> Seq<char> {
        self.0@
    }

    pub fn new(code: &'static str) -> (r: Self)
        ensures
            r.spec_text() == code@,
    {
        Self(code)
    }

    /// The UTF-8 bytes of the code, by which codes are ordered.
    pub closed spec fn spec_bytes(self) -> Seq<u8> {
        self.0.spec_bytes()
    }

    pub fn as_str(self) -> (r: &'static str)
        ensures
            r@ == self.spec_text(),
            r.spec_bytes() == self.spec_bytes(),
    {
        self.0
    }
}

/// Diagnostic coordinates order by source, then code, then the two ids, in
/// that order.
#[derive(Debug, Clone, Copy, PartialEq, Eq, PartialOrd, Ord, Hash)]
pub struct DiagnosticCoordinate {
    source: Option<SourceRef>,
    code: DiagnosticCode,
    domain: u64,
    secondary: u64,
}

impl DiagnosticCoordinate {
    pub closed spec fn spec_source(self) -> Option<SourceRef> {
        self.source
    }

    pub closed spec fn spec_code(self) -> DiagnosticCode {
        self.code
    }

    pub closed spec fn spec_domain(self) -> u64 {
        self.domain
    }

    pub closed spec fn spec_secondary(self) -> u64 {
        self.secondary
    }

    pub fn new(source: Option<SourceRef>, code: DiagnosticCode, domain: u64, secondary: u64) -> (r: Self)
        ensures
            r.spec_source() == source,
            r.spec_code() == code,
            r.spec_domain() == domain,
            r.spec_secondary() == secondary,
    {
        Self { source, code, domain, secondary }
    }

    pub fn source(self) -> (r: Option<SourceRef>)
        ensures
            r == self.spec_source(),
    {
        self.source
    }

    pub fn code(self) -> (r: DiagnosticCode)
        ensures
            r == self.spec_code(),
    {
        self.code
    }

    pub fn domain(self) -> (r: u64)
        ensures
            r == self.spec_domain(),
    {
        self.domain
    }

    pub fn secondary(self) -> (r: u64)
        ensures
            r == self.spec_secondary(),
    {
        self.secondary
    }
}

/// Sign of the comparison of two integers.
pub open spec fn int_order(a: int, b: int) -> int {
    if a < b {
        -1
    } else if a == b {
        0
    } else {
        1
    }
}

/// Lexicographic comparison of two sequences of integers: the first
/// difference decides, and a proper prefix comes first. Negative, zero or
/// positive as `a` comes before, with, or after `b`.
pub open spec fn lex_order(a: Seq<int>, b: Seq<int>) -> int
    decreases a.len(),
{
    if a.len() == 0 {
        if b.len() == 0 {
            0
        } else {
            -1
        }
    } else if b.len() == 0 {
        1
    } else if a[0] != b[0] {
        int_order(a[0], b[0])
    } else {
        lex_order(a.drop_first(), b.drop_first())
    }
}

/// Lexicographic comparison is antisymmetric, and only equal sequences
/// compare equal.
pub proof fn lemma_lex_order_antisymmetric(a: Seq<int>, b: Seq<int>)
    ensures
        lex_order(a, b) == -lex_order(b, a),
        -1 <= lex_order(a, b) <= 1,
        lex_order(a, b) == 0 <==> a == b,
    decreases a.len(),
{
    if a.len() > 0 && b.len() > 0 && a[0] == b[0] {
        lemma_lex_order_antisymmetric(a.drop_first(), b.drop_first());
        if a.drop_first() == b.drop_first() {
            assert(a =~= seq![a[0]] + a.drop_first());
            assert(b =~= seq![b[0]] + b.drop_first());
        }
        if a == b {
            assert(a.drop_first() =~= b.drop_first());
        }
    }
    if a.len() == 0 && b.len() == 0 {
        assert(a =~= b);
    }
}

/// Lexicographic comparison is transitive.
pub proof fn lemma_lex_order_transitive(a: Seq<int>, b: Seq<int>, c: Seq<int>)
    requires
        lex_order(a, b) <= 0,
        lex_order(b, c) <= 0,
    ensures
        lex_order(a, c) <= 0,
    decreases a.len(),
{
    if a.len() > 0 && b.len() > 0 && c.len() > 0 && a[0] == b[0] && b[0] == c[0] {
        lemma_lex_order_transitive(a.drop_first(), b.drop_first(), c.drop_first());
    }
}

/// A strict step followed by a non-strict one is strict.
pub proof fn lemma_lex_order_strict_transitive(a: Seq<int>, b: Seq<int>, c: Seq<int>)
    requires
        lex_order(a, b) < 0,
        lex_order(b, c) <= 0,
    ensures
        lex_order(a, c) < 0,
{
    lemma_lex_order_transitive(a, b, c);
    lemma_lex_order_antisymmetric(a, c);
    lemma_lex_order_antisymmetric(a, b);
    lemma_lex_order_antisymmetric(b, c);
    if a == c {
        lemma_lex_order_antisymmetric(b, a);
    }
}

/// The sort key of an optional source reference: absent first, then by
/// source, span start and span end.
pub open spec fn source_ref_key(o: Option<SourceRef>) -> Seq<int> {
    match o {
        None => seq![0int, 0int, 0int, 0int],
        Some(r) => seq![1int, r.spec_source().spec_raw() as int, r.spec_span().spec_start() as int, r.spec_span().spec_end() as int],
    }
}

/// The bytes of a diagnostic code as integers.
pub open spec fn code_key(c: DiagnosticCode) -> Seq<int> {
    c.spec_bytes().map_values(|b: u8| b as int)
}

/// The order of diagnostic coordinates: by source, then code, then the two
/// ids.
pub open spec fn coordinate_order(a: DiagnosticCoordinate, b: DiagnosticCoordinate) -> int {
    let s = lex_order(source_ref_key(a.spec_source()), source_ref_key(b.spec_source()));
    let c = lex_order(code_key(a.spec_code()), code_key(b.spec_code()));
    if s != 0 {
        s
    } else if c != 0 {
        c
    } else {
        lex_order(seq![a.spec_domain() as int, a.spec_secondary() as int], seq![b.spec_domain() as int, b.spec_secondary() as int])
    }
}

/// The order of coordinates is antisymmetric and transitive, and only
/// coordinates with the same source key, code and ids compare equal.
pub proof fn lemma_coordinate_order(a: DiagnosticCoordinate, b: DiagnosticCoordinate, c: DiagnosticCoordinate)
    ensures
        coordinate_order(a, b) == -coordinate_order(b, a),
        coordinate_order(a, b) == 0 <==> (source_ref_key(a.spec_source()) == source_ref_key(b.spec_source())
            && code_key(a.spec_code()) == code_key(b.spec_code()) && a.spec_domain() == b.spec_domain()
            && a.spec_secondary() == b.spec_secondary()),
        coordinate_order(a, b) <= 0 && coordinate_order(b, c) <= 0 ==> coordinate_order(a, c) <= 0,
        coordinate_order(a, b) < 0 && coordinate_order(b, c) <= 0 ==> coordinate_order(a, c) < 0,
{
    let (sa, sb, sc) = (source_ref_key(a.spec_source()), source_ref_key(b.spec_source()), source_ref_key(c.spec_source()));
    let (ca, cb, cc) = (code_key(a.spec_code()), code_key(b.spec_code()), code_key(c.spec_code()));
    let ia = seq![a.spec_domain() as int, a.spec_secondary() as int];
    let ib = seq![b.spec_domain() as int, b.spec_secondary() as int];
    let ic = seq![c.spec_domain() as int, c.spec_secondary() as int];
    lemma_lex_order_antisymmetric(sa, sb);
    lemma_lex_order_antisymmetric(sb, sc);
    lemma_lex_order_antisymmetric(sa, sc);
    lemma_lex_order_antisymmetric(ca, cb);
    lemma_lex_order_antisymmetric(cb, cc);
    lemma_lex_order_antisymmetric(ca, cc);
    lemma_lex_order_antisymmetric(ia, ib);
    lemma_lex_order_antisymmetric(ib, ic);
    lemma_lex_order_antisymmetric(ia, ic);
    if lex_order(sa, sb) <= 0 && lex_order(sb, sc) <= 0 {
        lemma_lex_order_transitive(sa, sb, sc);
    }
    if lex_order(ca, cb) <= 0 && lex_order(cb, cc) <= 0 {
        lemma_lex_order_transitive(ca, cb, cc);
    }
    if lex_order(ia, ib) <= 0 && lex_order(ib, ic) <= 0 {
        lemma_lex_order_transitive(ia, ib, ic);
    }
    if ia == ib {
        assert(ia[0] == ib[0] && ia[1] == ib[1]);
    }
}

/// Compares two sequences of bytes lexicographically.
fn compare_bytes(a: &[u8], b: &[u8]) -> (r: i8)
    ensures
        r == lex_order(a@.map_values(|x: u8| x as int), b@.map_values(|x: u8| x as int)),
{
    let ghost ka = a@.map_values(|x: u8| x as int);
    let ghost kb = b@.map_values(|x: u8| x as int);
    let mut i: usize = 0;
    proof {
        assert(ka.skip(0) =~= ka);
        assert(kb.skip(0) =~= kb);
    }
    loop
        invariant
            i <= a@.len(),
            i <= b@.len(),
            ka == a@.map_values(|x: u8| x as int),
            kb == b@.map_values(|x: u8| x as int),
            lex_order(ka, kb) == lex_order(ka.skip(i as int), kb.skip(i as int)),
        decreases a@.len() - i,
    {
        if i == a.len() {
            if i == b.len() {
                return 0;
            } else {
                return -1;
            }
        }
        if i == b.len() {
            return 1;
        }
        assert(ka.skip(i as int)[0] == a@[i as int] as int);
        assert(kb.skip(i as int)[0] == b@[i as int] as int);
        if a[i] < b[i] {
            return -1;
        }
        if a[i] > b[i] {
            return 1;
        }
        assert(ka.skip(i as int).drop_first() =~= ka.skip(i + 1));
        assert(kb.skip(i as int).drop_first() =~= kb.skip(i + 1));
        i += 1;
    }
}

/// Compares two integers.
fn compare_u64(a: u64, b: u64) -> (r: i8)
    ensures
        r == int_order(a as int, b as int),
{
    if a < b {
        -1
    } else if a == b {
        0
    } else {
        1
    }
}

/// Four-element sequences compare element by element.
proof fn lemma_lex_order_four(a0: int, a1: int, a2: int, a3: int, b0: int, b1: int, b2: int, b3: int)
    ensures
        lex_order(seq![a0, a1, a2, a3], seq![b0, b1, b2, b3]) == (if a0 != b0 {
            int_order(a0, b0)
        } else if a1 != b1 {
            int_order(a1, b1)
        } else if a2 != b2 {
            int_order(a2, b2)
        } else if a3 != b3 {
            int_order(a3, b3)
        } else {
            0
        }),
{
    let a = seq![a0, a1, a2, a3];
    let b = seq![b0, b1, b2, b3];
    assert(a.drop_first() =~= seq![a1, a2, a3]);
    assert(b.drop_first() =~= seq![b1, b2, b3]);
    assert(seq![a1, a2, a3].drop_first() =~= seq![a2, a3]);
    assert(seq![b1, b2, b3].drop_first() =~= seq![b2, b3]);
    assert(seq![a2, a3].drop_first() =~= seq![a3]);
    assert(seq![b2, b3].drop_first() =~= seq![b3]);
    assert(seq![a3].drop_first() =~= Seq::<int>::empty());
    assert(seq![b3].drop_first() =~= Seq::<int>::empty());
    reveal_with_fuel(lex_order, 5);
}

/// Two-element sequences compare element by element.
proof fn lemma_lex_order_two(a0: int, a1: int, b0: int, b1: int)
    ensures
        lex_order(seq![a0, a1], seq![b0, b1]) == (if a0 != b0 {
            int_order(a0, b0)
        } else if a1 != b1 {
            int_order(a1, b1)
        } else {
            0
        }),
{
    assert(seq![a0, a1].drop_first() =~= seq![a1]);
    assert(seq![b0, b1].drop_first() =~= seq![b1]);
    assert(seq![a1].drop_first() =~= Seq::<int>::empty());
    assert(seq![b1].drop_first() =~= Seq::<int>::empty());
    reveal_with_fuel(lex_order, 3);
}

/// The four parts of the sort key of an optional source reference.
pub(crate) fn source_ref_parts(o: Option<SourceRef>) -> (r: (u64, u64, u64, u64))
    ensures
        source_ref_key(o) == seq![r.0 as int, r.1 as int, r.2 as int, r.3 as int],
{
    match o {
        None => (0, 0, 0, 0),
        Some(s) => (1, s.source().raw(), s.span().start() as u64, s.span().end() as u64),
    }
}

/// Compares two optional source references by their sort keys.
pub(crate) fn compare_source_refs(a: Option<SourceRef>, b: Option<SourceRef>) -> (r: i8)
    ensures
        r == lex_order(source_ref_key(a), source_ref_key(b)),
{
    let (a0, a1, a2, a3) = source_ref_parts(a);
    let (b0, b1, b2, b3) = source_ref_parts(b);
    proof {
        lemma_lex_order_four(a0 as int, a1 as int, a2 as int, a3 as int, b0 as int, b1 as int, b2 as int, b3 as int);
    }
    if a0 != b0 {
        return compare_u64(a0, b0);
    }
    if a1 != b1 {
        return compare_u64(a1, b1);
    }
    if a2 != b2 {
        return compare_u64(a2, b2);
    }
    compare_u64(a3, b3)
}

/// Compares two diagnostic coordinates: by source, then code, then the two
/// ids.
pub(crate) fn compare_coordinates(a: DiagnosticCoordinate, b: DiagnosticCoordinate) -> (r: i8)
    ensures
        r == coordinate_order(a, b),
{
    let s = compare_source_refs(a.source(), b.source());
    if s != 0 {
        return s;
    }
    let c = compare_bytes(a.code().as_str().as_bytes(), b.code().as_str().as_bytes());
    if c != 0 {
        return c;
    }
    proof {
        lemma_lex_order_two(a.spec_domain() as int, a.spec_secondary() as int, b.spec_domain() as int, b.spec_secondary() as int);
    }
    let d = compare_u64(a.domain(), b.domain());
    if d != 0 {
        return d;
    }
    compare_u64(a.secondary(), b.secondary())
}

/// The bytes of a code are the UTF-8 encoding of its text.
pub proof fn lemma_code_bytes_encode_text(c: DiagnosticCode)
    ensures
        c.spec_bytes() == vstd::utf8::encode_utf8(c.spec_text()),
{
}

/// Codes with the same sort key have the same bytes.
pub proof fn lemma_code_key_injective(a: DiagnosticCode, b: DiagnosticCode)
    ensures
        code_key(a) == code_key(b) ==> a.spec_bytes() == b.spec_bytes(),
{
    if code_key(a) == code_key(b) {
        assert(code_key(a).len() == a.spec_bytes().len());
        assert forall|i: int| 0 <= i < a.spec_bytes().len() implies a.spec_bytes()[i] == b.spec_bytes()[i] by {
            assert(code_key(a)[i] == code_key(b)[i]);
        }
        assert(a.spec_bytes() =~= b.spec_bytes());
    }
}

/// Optional source references with the same sort key are equal.
pub proof fn lemma_source_ref_key_injective(a: Option<SourceRef>, b: Option<SourceRef>)
    ensures
        source_ref_key(a) == source_ref_key(b) ==> a == b,
{
    if source_ref_key(a) == source_ref_key(b) {
        assert(source_ref_key(a)[0] == source_ref_key(b)[0]);
        if a is Some {
            assert(source_ref_key(a)[1] == source_ref_key(b)[1]);
            assert(source_ref_key(a)[2] == source_ref_key(b)[2]);
            assert(source_ref_key(a)[3] == source_ref_key(b)[3]);
        }
    }
}

/// Compares two sequences of unsigned integers lexicographically.
pub(crate) fn compare_u64_slices(a: &[u64], b: &[u64]) -> (r: i8)
    ensures
        r == lex_order(a@.map_values(|x: u64| x as int), b@.map_values(|x: u64| x as int)),
{
    let ghost ka = a@.map_values(|x: u64| x as int);
    let ghost kb = b@.map_values(|x: u64| x as int);
    let mut i: usize = 0;
    proof {
        assert(ka.skip(0) =~= ka);
        assert(kb.skip(0) =~= kb);
    }
    loop
        invariant
            i <= a@.len(),
            i <= b@.len(),
            ka == a@.map_values(|x: u64| x as int),
            kb == b@.map_values(|x: u64| x as int),
            lex_order(ka, kb) == lex_order(ka.skip(i as int), kb.skip(i as int)),
        decreases a@.len() - i,
    {
        if i == a.len() {
            if i == b.len() {
                return 0;
            } else {
                return -1;
            }
        }
        if i == b.len() {
            return 1;
        }
        assert(ka.skip(i as int)[0] == a@[i as int] as int);
        assert(kb.skip(i as int)[0] == b@[i as int] as int);
        if a[i] < b[i] {
            return -1;
        }
        if a[i] > b[i] {
            return 1;
        }
        assert(ka.skip(i as int).drop_first() =~= ka.skip(i + 1));
        assert(kb.skip(i as int).drop_first() =~= kb.skip(i + 1));
        i += 1;
    }
}

/// Two sequences strictly increasing in one key, with the same items, are
/// one sequence.
pub proof fn lemma_strictly_sorted_unique<T>(s: Seq<T>, t: Seq<T>, key: spec_fn(T) -> Seq<int>)
    requires
        forall|a: int, b: int| 0 <= a < b < s.len() ==> lex_order(key(s[a]), key(s[b])) < 0,
        forall|a: int, b: int| 0 <= a < b < t.len() ==> lex_order(key(t[a]), key(t[b])) < 0,
        s.to_set() == t.to_set(),
    ensures
        s == t,
    decreases s.len(),
{
    if s.len() == 0 {
        if t.len() > 0 {
            assert(t.to_set().contains(t[0]));
        }
        assert(s =~= t);
    } else if t.len() == 0 {
        assert(s.to_set().contains(s[0]));
    } else {
        assert(s.to_set().contains(s[0]));
        assert(t.to_set().contains(t[0]));
        let j = choose|j: int| 0 <= j < t.len() && t[j] == s[0];
        let i = choose|i: int| 0 <= i < s.len() && s[i] == t[0];
        if s[0] != t[0] {
            assert(lex_order(key(t[0]), key(t[j])) < 0);
            assert(lex_order(key(s[0]), key(s[i])) < 0);
            lemma_lex_order_antisymmetric(key(s[0]), key(t[0]));
        }
        let (s1, t1) = (s.drop_first(), t.drop_first());
        assert forall|x: T| s1.contains(x) <==> t1.contains(x) by {
            if s1.contains(x) {
                let a = choose|a: int| 0 <= a < s1.len() && s1[a] == x;
                assert(s[a + 1] == x);
                assert(s.to_set().contains(x));
                let b = choose|b: int| 0 <= b < t.len() && t[b] == x;
                if b == 0 {
                    assert(lex_order(key(s[0]), key(s[a + 1])) < 0);
                    lemma_lex_order_antisymmetric(key(s[0]), key(s[0]));
                }
                assert(t1[b - 1] == x);
            }
            if t1.contains(x) {
                let a = choose|a: int| 0 <= a < t1.len() && t1[a] == x;
                assert(t[a + 1] == x);
                assert(t.to_set().contains(x));
                let b = choose|b: int| 0 <= b < s.len() && s[b] == x;
                if b == 0 {
                    assert(lex_order(key(t[0]), key(t[a + 1])) < 0);
                    lemma_lex_order_antisymmetric(key(t[0]), key(t[0]));
                }
                assert(s1[b - 1] == x);
            }
        }
        assert(s1.to_set() =~= t1.to_set());
        assert forall|a: int, b: int| 0 <= a < b < s1.len() implies lex_order(key(s1[a]), key(s1[b])) < 0 by {
            assert(s1[a] == s[a + 1] && s1[b] == s[b + 1]);
        }
        assert forall|a: int, b: int| 0 <= a < b < t1.len() implies lex_order(key(t1[a]), key(t1[b])) < 0 by {
            assert(t1[a] == t[a + 1] && t1[b] == t[b + 1]);
        }
        lemma_strictly_sorted_unique(s1, t1, key);
        assert(s =~= seq![s[0]] + s1);
        assert(t =~= seq![t[0]] + t1);
    }
}

/// Coordinates in the same place compare alike with every coordinate.
pub proof fn lemma_coordinate_same_place(a: DiagnosticCoordinate, b: DiagnosticCoordinate, c: DiagnosticCoordinate)
    requires
        coordinate_order(a, b) == 0,
    ensures
        coordinate_order(a, c) == coordinate_order(b, c),
        coordinate_order(c, a) == coordinate_order(c, b),
        coordinate_order(b, a) == 0,
{
    lemma_coordinate_order(a, b, c);
}

/// The order `ord` is antisymmetric, and items tied in it compare alike
/// with every item.
#[verifier::opaque]
pub open spec fn tie_laws<T>(ord: spec_fn(T, T) -> int) -> bool {
    &&& forall|a: T, b: T| #[trigger] ord(a, b) == -ord(b, a)
    &&& forall|a: T, b: T, c: T| #![trigger ord(a, b), ord(a, c)] ord(a, b) == 0 ==> ord(a, c) == ord(b, c)
}

/// The laws of `ord` on given items.
proof fn lemma_tie<T>(ord: spec_fn(T, T) -> int, a: T, b: T, c: T)
    requires
        tie_laws(ord),
    ensures
        ord(a, b) == -ord(b, a),
        ord(a, b) == 0 ==> ord(a, c) == ord(b, c),
{
    reveal(tie_laws);
}

/// Some item of `s` is tied with `v` in `ord`.
pub open spec fn tied_in<T>(ord: spec_fn(T, T) -> int, v: T, s: Seq<T>) -> bool {
    exists|b: int| 0 <= b < s.len() && ord(v, s[b]) == 0
}

/// Two lists, each strictly increasing in an order whose ties are an
/// equivalence, where each item of one is tied with one of the other, are
/// tied place by place.
pub proof fn lemma_sorted_ties_agree<T>(x: Seq<T>, y: Seq<T>, ord: spec_fn(T, T) -> int)
    requires
        tie_laws(ord),
        forall|a: int, b: int| 0 <= a < b < x.len() ==> ord(x[a], x[b]) < 0,
        forall|a: int, b: int| 0 <= a < b < y.len() ==> ord(y[a], y[b]) < 0,
        forall|a: int| 0 <= a < x.len() ==> #[trigger] tied_in(ord, x[a], y),
        forall|b: int| 0 <= b < y.len() ==> #[trigger] tied_in(ord, y[b], x),
    ensures
        x.len() == y.len(),
        forall|k: int| 0 <= k < x.len() ==> ord(#[trigger] x[k], y[k]) == 0,
    decreases x.len(),
{
    if x.len() == 0 {
        if y.len() > 0 {
            assert(tied_in(ord, y[0], x));
        }
    } else if y.len() == 0 {
        assert(tied_in(ord, x[0], y));
    } else {
        assert(tied_in(ord, x[0], y));
        assert(tied_in(ord, y[0], x));
        let j = choose|b: int| 0 <= b < y.len() && ord(x[0], y[b]) == 0;
        let i = choose|a: int| 0 <= a < x.len() && ord(y[0], x[a]) == 0;
        lemma_tie(ord, y[0], x[i], x[0]);
        lemma_tie(ord, x[i], y[0], x[0]);
        lemma_tie(ord, x[0], y[j], y[0]);
        lemma_tie(ord, y[j], y[0], y[0]);
        lemma_tie(ord, x[i], x[0], x[0]);
        lemma_tie(ord, y[0], x[0], x[0]);
        if j > 0 {
            assert(ord(y[0], y[j]) < 0);
        }
        if i > 0 {
            assert(ord(x[0], x[i]) < 0);
        }
        assert(ord(x[0], y[0]) == 0);
        let (x1, y1) = (x.drop_first(), y.drop_first());
        assert forall|a: int| 0 <= a < x1.len() implies #[trigger] tied_in(ord, x1[a], y1) by {
            assert(x1[a] == x[a + 1]);
            assert(tied_in(ord, x[a + 1], y));
            let b = choose|b: int| 0 <= b < y.len() && ord(x[a + 1], y[b]) == 0;
            if b == 0 {
                assert(ord(x[0], x[a + 1]) < 0);
                lemma_tie(ord, x[a + 1], y[0], x[0]);
                lemma_tie(ord, x[a + 1], x[0], x[0]);
            }
            assert(y1[b - 1] == y[b]);
        }
        assert forall|b: int| 0 <= b < y1.len() implies #[trigger] tied_in(ord, y1[b], x1) by {
            assert(y1[b] == y[b + 1]);
            assert(tied_in(ord, y[b + 1], x));
            let a = choose|a: int| 0 <= a < x.len() && ord(y[b + 1], x[a]) == 0;
            if a == 0 {
                assert(ord(y[0], y[b + 1]) < 0);
                lemma_tie(ord, y[b + 1], x[0], y[0]);
                lemma_tie(ord, y[b + 1], y[0], y[0]);
            }
            assert(x1[a - 1] == x[a]);
        }
        assert forall|a: int, b: int| 0 <= a < b < x1.len() implies ord(x1[a], x1[b]) < 0 by {
            assert(x1[a] == x[a + 1] && x1[b] == x[b + 1]);
        }
        assert forall|a: int, b: int| 0 <= a < b < y1.len() implies ord(y1[a], y1[b]) < 0 by {
            assert(y1[a] == y[a + 1] && y1[b] == y[b + 1]);
        }
        lemma_sorted_ties_agree(x1, y1, ord);
        assert forall|k: int| 0 <= k < x.len() implies ord(#[trigger] x[k], y[k]) == 0 by {
            if k > 0 {
                assert(x[k] == x1[k - 1] && y[k] == y1[k - 1]);
            }
        }
    }
}

/// The order of coordinates as a function.
pub open spec fn coordinate_ord() -> spec_fn(DiagnosticCoordinate, DiagnosticCoordinate) -> int {
    |a: DiagnosticCoordinate, b: DiagnosticCoordinate| coordinate_order(a, b)
}

/// The order of coordinates obeys the tie laws.
pub proof fn lemma_coordinate_ties()
    ensures
        tie_laws(coordinate_ord()),
{
    reveal(tie_laws);
    let ord = coordinate_ord();
    assert forall|a: DiagnosticCoordinate, b: DiagnosticCoordinate| #[trigger] ord(a, b) == -ord(b, a) by {
        lemma_coordinate_order(a, b, a);
    }
    assert forall|a: DiagnosticCoordinate, b: DiagnosticCoordinate, c: DiagnosticCoordinate|
        #![trigger ord(a, b), ord(a, c)]
        ord(a, b) == 0 implies ord(a, c) == ord(b, c) by {
        lemma_coordinate_same_place(a, b, c);
    }
}

} // verus!
