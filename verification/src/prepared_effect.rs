//! Identity of prepared effect descriptors.
use vstd::prelude::*;

verus! {

#[derive(Debug, Clone, Copy, PartialEq, Eq, PartialOrd, Ord, Hash, Structural)]
pub struct InteractionPreparedEffectDescriptorId(pub u64);

} // verus!
