//! Mapping resolved interactions to semantic intents.
use vstd::prelude::*;
use crate::action_binding::InteractionActionBindingId;
use crate::interaction::InteractionIntentKind;
use crate::projection::UiProjectedNodeId;

verus! {

/// A mapped user intention: an action binding aimed at a projected node.
#[derive(Debug, Clone, PartialEq, Eq, Structural)]
pub struct SemanticIntent {
    pub target: UiProjectedNodeId,
    pub action_id: InteractionActionBindingId,
}

impl SemanticIntent {
    pub fn new(target: UiProjectedNodeId, action_id: InteractionActionBindingId) -> (r: Self)
        ensures
            r == (SemanticIntent { target, action_id }),
    {
        Self { target, action_id }
    }
}

/// Translates a resolved interaction into a semantic intent, where it maps.
pub trait UiActionMapper {
    fn map_intent(&self, target: UiProjectedNodeId, kind: InteractionIntentKind) -> Option<SemanticIntent>;
}

/// The default mapper, which maps nothing.
#[derive(Debug, Clone, Default)]
pub struct DefaultActionMapper;

impl DefaultActionMapper {
    pub fn new() -> (r: Self) {
        Self
    }
}

impl UiActionMapper for DefaultActionMapper {
    fn map_intent(&self, _target: UiProjectedNodeId, _kind: InteractionIntentKind) -> (r: Option<SemanticIntent>)
        ensures
            r is None,
    {
        None
    }
}

} // verus!
