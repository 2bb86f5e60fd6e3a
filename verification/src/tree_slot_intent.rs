//! Identities of tree slot carrier intents.
use vstd::prelude::*;

verus! {

/// Identity of an entry of a tree slot carrier intent model.
#[derive(Debug, Clone, Copy, PartialEq, Eq, Hash, Default, Structural)]
pub struct UiTreeSlotCarrierIntentEntryId {
    raw: u64,
}

impl UiTreeSlotCarrierIntentEntryId {
    pub closed spec fn spec_raw(self) -> u64 {
        self.raw
    }

    pub fn new(raw: u64) -> (r: Self)
        ensures
            r.spec_raw() == raw,
    {
        Self { raw }
    }

    pub fn raw(self) -> (r: u64)
        ensures
            r == self.spec_raw(),
    {
        self.raw
    }
}

} // verus!
