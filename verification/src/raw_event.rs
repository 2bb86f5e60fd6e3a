//! Raw UI event identities and kinds, as reported by a host backend.
use vstd::prelude::*;

verus! {

#[derive(Debug, Clone, Copy, PartialEq, Eq, PartialOrd, Ord, Hash, Structural)]
pub struct RawUiEventId(pub u64);

#[derive(Debug, Clone, Copy, PartialEq, Eq, Hash, Structural)]
pub enum RawUiEventKind {
    PointerDown,
    KeyDown,
    WindowCloseRequested,
    Unknown,
}

} // verus!
