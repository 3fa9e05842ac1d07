//! Identifiers of nodes, slots and edges in the node graph, as the editor sees them.
use vstd::prelude::*;

verus! {

/// Identifies a node of the graph.
#[derive(Clone, Copy, Debug, PartialEq, Eq, Hash, Structural)]
pub struct NodeId(pub u32);

/// Identifies a slot among the slots on one side of a node.
#[derive(Clone, Copy, Debug, PartialEq, Eq, Hash, Structural)]
pub struct SlotId(pub u32);

/// The side of a node a slot is on.
#[derive(Clone, Copy, Debug, PartialEq, Eq, Hash, Structural)]
pub enum Side {
    Input,
    Output,
}

/// A slot of a node in the workspace.
#[derive(Clone, Copy, Debug, PartialEq, Eq, Hash, Structural)]
pub struct Slot {
    pub node_id: NodeId,
    pub side: Side,
    pub slot_id: SlotId,
}

/// A connection in the graph, from an output slot to an input slot.
#[derive(Clone, Copy, Debug, PartialEq, Eq, Hash, Structural)]
pub struct Edge {
    pub output_id: NodeId,
    pub output_slot: SlotId,
    pub input_id: NodeId,
    pub input_slot: SlotId,
}

/// An edge as drawn in the workspace, between the two slots it joins.
#[derive(Clone, Copy, Debug, PartialEq, Eq, Hash, Structural)]
pub struct GuiEdge {
    pub output_slot: Slot,
    pub input_slot: Slot,
}

impl GuiEdge {
    /// The graph edge that this drawn edge stands for.
    pub fn to_edge(&self) -> (e: Edge)
        ensures
            e == (Edge {
                output_id: self.output_slot.node_id,
                output_slot: self.output_slot.slot_id,
                input_id: self.input_slot.node_id,
                input_slot: self.input_slot.slot_id,
            }),
    {
        Edge {
            input_id: self.input_slot.node_id,
            input_slot: self.input_slot.slot_id,
            output_id: self.output_slot.node_id,
            output_slot: self.output_slot.slot_id,
        }
    }

    /// Whether this drawn edge stands for `edge`.
    pub fn shows(&self, edge: Edge) -> (b: bool)
        ensures
            b == (self.input_slot.node_id == edge.input_id && self.input_slot.slot_id
                == edge.input_slot && self.output_slot.node_id == edge.output_id
                && self.output_slot.slot_id == edge.output_slot),
    {
        self.input_slot.node_id == edge.input_id && self.input_slot.slot_id == edge.input_slot
            && self.output_slot.node_id == edge.output_id && self.output_slot.slot_id
            == edge.output_slot
    }

    /// Whether this drawn edge touches the node `node_id` on either end.
    pub fn touches(&self, node_id: NodeId) -> (b: bool)
        ensures
            b == (self.input_slot.node_id == node_id || self.output_slot.node_id == node_id),
    {
        self.input_slot.node_id == node_id || self.output_slot.node_id == node_id
    }
}

} // verus!
