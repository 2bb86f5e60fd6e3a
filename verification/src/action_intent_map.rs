//! Deterministic mapping of action routes to transport intents.
use vstd::prelude::*;
use crate::action_ir::ActionRoute;
use crate::admission_contract::{ActionIntent, ActionIntentDiagnostic, ActionInvocationContext};
use crate::contract_primitives::{DiagnosticCode, DiagnosticCoordinate};

verus! {

/// The first requirement of the route that the context does not meet, by
/// its diagnostic code: actor, then session, client, revision and epoch.
pub open spec fn missing_context_code(route: ActionRoute, context: ActionInvocationContext) -> Option<Seq<char>> {
    if route.context_reqs.requires_actor && context.actor is None {
        Some("MISSING_ACTOR"@)
    } else if route.context_reqs.requires_session && context.session is None {
        Some("MISSING_SESSION"@)
    } else if route.context_reqs.requires_client && context.client is None {
        Some("MISSING_CLIENT"@)
    } else if route.context_reqs.required_revision is Some && context.observed_revision is None {
        Some("MISSING_REVISION"@)
    } else if route.context_reqs.required_epoch is Some && context.observed_epoch is None {
        Some("MISSING_EPOCH"@)
    } else {
        None
    }
}

/// The intent of a route invoked in a context.
pub open spec fn action_intent_of(route: ActionRoute, context: ActionInvocationContext) -> ActionIntent {
    ActionIntent {
        route_id: route.id,
        semantic_action: route.semantic_action,
        source_node: context.source_node,
        target_node: context.target_node,
        actor: context.actor,
        session: context.session,
        client: context.client,
        observed_revision: context.observed_revision,
        observed_epoch: context.observed_epoch,
        route_required_revision: route.context_reqs.required_revision,
        route_required_epoch: route.context_reqs.required_epoch,
        capability: route.capability,
    }
}

/// What mapping a route invoked in a context gives: the diagnostic of the
/// first unmet requirement, else the intent.
pub open spec fn intent_outcome(route: ActionRoute, context: ActionInvocationContext, r: Result<ActionIntent, ActionIntentDiagnostic>) -> bool {
    match missing_context_code(route, context) {
        Some(code) => r matches Err(d) && d.coordinate.spec_source() is None && d.coordinate.spec_code().spec_text() == code
            && d.coordinate.spec_domain() == 0 && d.coordinate.spec_secondary() == 0,
        None => r == Ok::<ActionIntent, ActionIntentDiagnostic>(action_intent_of(route, context)),
    }
}

fn missing_requirement(code: &'static str) -> (r: ActionIntentDiagnostic)
    ensures
        r.coordinate.spec_source() is None,
        r.coordinate.spec_code().spec_text() == code@,
        r.coordinate.spec_domain() == 0,
        r.coordinate.spec_secondary() == 0,
{
    ActionIntentDiagnostic { coordinate: DiagnosticCoordinate::new(None, DiagnosticCode::new(code), 0, 0) }
}

/// Maps a route invoked in a context to a transport intent. The invocation
/// is refused, with the code of the first unmet requirement, when the route
/// needs an actor, session, client, revision or epoch that the context lacks.
pub fn map_action_intent(route: &ActionRoute, context: &ActionInvocationContext) -> (r: Result<ActionIntent, ActionIntentDiagnostic>)
    ensures
        intent_outcome(*route, *context, r),
{
    if route.context_reqs.requires_actor && context.actor.is_none() {
        return Err(missing_requirement("MISSING_ACTOR"));
    }
    if route.context_reqs.requires_session && context.session.is_none() {
        return Err(missing_requirement("MISSING_SESSION"));
    }
    if route.context_reqs.requires_client && context.client.is_none() {
        return Err(missing_requirement("MISSING_CLIENT"));
    }
    if route.context_reqs.required_revision.is_some() && context.observed_revision.is_none() {
        return Err(missing_requirement("MISSING_REVISION"));
    }
    if route.context_reqs.required_epoch.is_some() && context.observed_epoch.is_none() {
        return Err(missing_requirement("MISSING_EPOCH"));
    }
    Ok(ActionIntent {
        route_id: route.id,
        semantic_action: route.semantic_action,
        source_node: context.source_node,
        target_node: context.target_node,
        actor: context.actor,
        session: context.session,
        client: context.client,
        observed_revision: context.observed_revision,
        observed_epoch: context.observed_epoch,
        route_required_revision: route.context_reqs.required_revision,
        route_required_epoch: route.context_reqs.required_epoch,
        capability: route.capability,
    })
}

/// A route invoked in a context maps to an intent exactly when the context
/// meets every requirement of the route: an actor, a session and a client
/// when the route requires them, and an observed revision and epoch when it
/// names a required one. The intent then carries the context's actor,
/// session, client and observations and the route's id and requirements.
pub proof fn lemma_intent_iff_requirements_met(
    route: ActionRoute,
    context: ActionInvocationContext,
    r: Result<ActionIntent, ActionIntentDiagnostic>,
)
    requires
        intent_outcome(route, context, r),
    ensures
        r is Ok <==> {
            &&& route.context_reqs.requires_actor ==> context.actor is Some
            &&& route.context_reqs.requires_session ==> context.session is Some
            &&& route.context_reqs.requires_client ==> context.client is Some
            &&& route.context_reqs.required_revision is Some ==> context.observed_revision is Some
            &&& route.context_reqs.required_epoch is Some ==> context.observed_epoch is Some
        },
        r matches Ok(i) ==> {
            &&& i.route_id == route.id
            &&& i.actor == context.actor
            &&& i.session == context.session
            &&& i.client == context.client
            &&& i.observed_revision == context.observed_revision
            &&& i.observed_epoch == context.observed_epoch
            &&& i.route_required_revision == route.context_reqs.required_revision
            &&& i.route_required_epoch == route.context_reqs.required_epoch
        },
{
}

} // verus!
