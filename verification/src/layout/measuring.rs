//! Identities of the measuring stage of layout.
use vstd::prelude::*;

verus! {

/// Identity of a layout measuring model.
#[derive(Debug, Clone, Copy, PartialEq, Eq, Hash, Default, Structural)]
pub struct UiLayoutMeasuringModelId {
    raw: u64,
}

impl UiLayoutMeasuringModelId {
    pub closed spec fn spec_raw(self) -> u64 {
        self.raw
    }

    pub fn new(raw: u64) -> (r: Self)
        ensures
            r.spec_raw() == raw,
    {
        Self { raw }
    }

    pub fn raw(self) -> (r: u64)
        ensures
            r == self.spec_raw(),
    {
        self.raw
    }
}

/// Identity of a layout measuring entry.
#[derive(Debug, Clone, Copy, PartialEq, Eq, Hash, Default, Structural)]
pub struct UiLayoutMeasuringEntryId {
    raw: u64,
}

impl UiLayoutMeasuringEntryId {
    pub closed spec fn spec_raw(self) -> u64 {
        self.raw
    }

    pub fn new(raw: u64) -> (r: Self)
        ensures
            r.spec_raw() == raw,
    {
        Self { raw }
    }

    pub fn raw(self) -> (r: u64)
        ensures
            r == self.spec_raw(),
    {
        self.raw
    }
}

} // verus!
