//! Transport structures of action admission: invocation contexts, intents and their diagnostics.
use vstd::prelude::*;
use crate::action_ir::ActionRouteId;
use crate::contract_primitives::{DiagnosticCoordinate, StaticNodeId};
use crate::semantic_refs::{ActorRef, CapabilityRef, ClientRef, EpochRef, RevisionRef, SemanticActionRef, SessionRef};

verus! {

/// The context of one invocation: where it comes from and what it carries.
#[derive(Debug, Clone, Copy, PartialEq, Eq, PartialOrd, Ord, Hash, Structural)]
pub struct ActionInvocationContext {
    pub source_node: StaticNodeId,
    pub target_node: StaticNodeId,
    pub actor: Option<ActorRef>,
    pub session: Option<SessionRef>,
    pub client: Option<ClientRef>,
    pub observed_revision: Option<RevisionRef>,
    pub observed_epoch: Option<EpochRef>,
}

/// A transport intent: a route invoked in a context.
#[derive(Debug, Clone, Copy, PartialEq, Eq, PartialOrd, Ord, Hash, Structural)]
pub struct ActionIntent {
    pub route_id: ActionRouteId,
    pub semantic_action: SemanticActionRef,
    pub source_node: StaticNodeId,
    pub target_node: StaticNodeId,
    pub actor: Option<ActorRef>,
    pub session: Option<SessionRef>,
    pub client: Option<ClientRef>,
    pub observed_revision: Option<RevisionRef>,
    pub observed_epoch: Option<EpochRef>,
    pub route_required_revision: Option<RevisionRef>,
    pub route_required_epoch: Option<EpochRef>,
    pub capability: Option<CapabilityRef>,
}

/// Why a route could not be invoked in a context.
#[derive(Debug, Clone, Copy, PartialEq, Eq, PartialOrd, Ord, Hash)]
pub struct ActionIntentDiagnostic {
    pub coordinate: DiagnosticCoordinate,
}

} // verus!
