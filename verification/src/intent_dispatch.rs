//! Dispatch of admitted semantic actions into a runtime, which the host implements.
use vstd::prelude::*;
use crate::admitted_action::InteractionAdmittedSemanticAction;

verus! {

/// Why the dispatch of an admitted semantic action failed.
#[derive(Debug, Clone, PartialEq, Eq, Structural)]
pub enum IntentDispatchError {
    /// The dispatcher does not know the requested action.
    UnknownAction,
    /// The target node could not be resolved in the current semantic state.
    TargetNotFound,
    /// The runtime failed to apply the state update or execute the side effect.
    StateUpdateFailed,
}

/// Dispatches an admitted semantic action into the runtime. The action has
/// already passed the capability and lifecycle admission gates.
pub trait UiActionDispatcher {
    fn dispatch_action(&self, action: InteractionAdmittedSemanticAction) -> Result<(), IntentDispatchError>;
}

} // verus!
