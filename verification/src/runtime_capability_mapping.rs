//! Identity and namespace of runtime capability mappings.
use vstd::prelude::*;

verus! {

#[derive(Debug, Clone, Copy, PartialEq, Eq, PartialOrd, Ord, Hash, Structural)]
pub struct InteractionRuntimeCapabilityMappingDescriptorId(pub u64);

/// The runtime capability namespace an effect request is mapped into.
#[derive(Debug, Clone, Copy, PartialEq, Eq, Hash, Structural)]
pub enum InteractionRuntimeCapabilityNamespace {
    WindowLifecycle,
    EffectControl,
    TargetQuarantine,
    Unknown,
}

} // verus!
