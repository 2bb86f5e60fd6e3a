//! Lowering of projection source identities to static identities.
use vstd::prelude::*;
use crate::contract_primitives::{ProjectionSourceNodeId, StaticNodeId};

verus! {

/// The static node a source node lowers to: the one with the same raw
/// identity, which exists for every source node, since neither is zero.
pub open spec fn lowers_to(id: ProjectionSourceNodeId, node: StaticNodeId) -> bool {
    node.spec_raw() == id.spec_raw()
}

/// Lowers a source node identity to the static node identity the compiler
/// gives it.
pub fn lower_projection_source_node_id(id: ProjectionSourceNodeId) -> (r: Option<StaticNodeId>)
    ensures
        r matches Some(node) && lowers_to(id, node),
{
    let raw = id.raw();
    match StaticNodeId::new(raw) {
        Ok(node) => Some(node),
        Err(_) => None,
    }
}

} // verus!
