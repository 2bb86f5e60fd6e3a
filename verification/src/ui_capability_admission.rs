//! Identity of UI capability admission descriptors.
use vstd::prelude::*;

verus! {

#[derive(Debug, Clone, Copy, PartialEq, Eq, PartialOrd, Ord, Hash, Structural)]
pub struct InteractionUiCapabilityAdmissionDescriptorId(pub u64);

} // verus!
