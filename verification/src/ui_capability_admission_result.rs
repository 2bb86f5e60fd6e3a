//! Identity of UI capability admission results.
use vstd::prelude::*;

verus! {

#[derive(Debug, Clone, Copy, PartialEq, Eq, PartialOrd, Ord, Hash, Structural)]
pub struct InteractionUiCapabilityAdmissionResultId(pub u64);

} // verus!
