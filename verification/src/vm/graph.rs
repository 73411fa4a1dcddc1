//! Nodes of the graph that static objects belong to.

use vstd::prelude::*;
use petgraph::graph::NodeIndex;
use crate::name_map::Duplicate;

verus! {

/// petgraph's node identifier.
#[verifier::external_type_specification]
#[verifier::external_body]
#[verifier::reject_recursive_types(Ix)]
pub struct ExNodeIndex<Ix>(NodeIndex<Ix>);

/// The identifier that `NodeIndex::new` gives for a position.
pub uninterp spec fn node_at(position: usize) -> NodeIndex<u32>;

/// `NodeIndex::new`: the identifier of the node at `position`. The contract
/// says that the position alone decides it.
#[verifier::external_body]
pub(crate) fn node_index(position: usize) -> (node: NodeIndex<u32>)
    ensures
        node == node_at(position),
{
    NodeIndex::new(position)
}

/// Where the object that a static field refers to stands: its node, and its
/// heap address.
#[derive(Clone, Copy, Debug)]
pub struct StaticSlot {
    pub node: NodeIndex<u32>,
    pub address: u32,
}

impl View for StaticSlot {
    type V = StaticSlot;

    open spec fn view(&self) -> StaticSlot {
        *self
    }
}

impl Duplicate for StaticSlot {
    fn duplicate(&self) -> (copy: StaticSlot) {
        *self
    }
}

} // verus!
