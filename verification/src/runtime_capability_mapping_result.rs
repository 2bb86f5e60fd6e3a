//! Identity of runtime capability mapping results.
use vstd::prelude::*;

verus! {

#[derive(Debug, Clone, Copy, PartialEq, Eq, PartialOrd, Ord, Hash, Structural)]
pub struct InteractionRuntimeCapabilityMappingResultId(pub u64);

} // verus!
