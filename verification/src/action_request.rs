//! Action requests: what the UI layer asks for when an interaction implies a state change or a host capability. Nothing here executes an action.
use vstd::prelude::*;
use crate::interaction::{ElementId, InteractionIntentId};

verus! {

/// Identity of an action request.
#[derive(Debug, Clone, Copy, PartialEq, Eq, PartialOrd, Ord, Hash, Structural)]
pub struct ActionRequestId(pub u64);

/// The kind of action that a request asks for.
#[derive(Debug, Clone, PartialEq, Eq, Hash, Structural)]
pub enum ActionKind {
    GenericSemanticAction,
    Unknown,
}

/// A purely descriptive record that the UI intends to perform an action.
#[derive(Debug, Clone, PartialEq, Eq, Hash, Structural)]
pub struct ActionRequestDescriptor {
    pub id: ActionRequestId,
    pub kind: ActionKind,
    pub source_element: Option<ElementId>,
    pub cause_intent: InteractionIntentId,
}

impl ActionRequestDescriptor {
    pub fn new(id: ActionRequestId, kind: ActionKind, source_element: Option<ElementId>, cause_intent: InteractionIntentId) -> (r: Self)
        ensures
            r == (ActionRequestDescriptor { id, kind, source_element, cause_intent }),
    {
        Self { id, kind, source_element, cause_intent }
    }
}

} // verus!
