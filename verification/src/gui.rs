use vstd::prelude::*;

verus! {

/// A node of the interface.
#[derive(Default, Debug, Clone, Copy, PartialEq, Eq, Structural)]
pub struct Node;

/// The interface: its nodes, in their order.
#[derive(Debug)]
pub struct GUI {
    nodes: Vec<Node>,
}

impl GUI {
    /// The nodes, in their order.
    pub closed spec fn node_seq(self) -> Seq<Node> {
        self.nodes@
    }

    /// An interface of these nodes.
    pub fn new(nodes: Vec<Node>) -> (gui: Self)
        ensures
            gui.node_seq() == nodes@,
    {
        GUI { nodes }
    }

    /// The nodes, in their order.
    pub fn nodes(&self) -> (nodes: &Vec<Node>)
        ensures
            nodes@ == self.node_seq(),
    {
        &self.nodes
    }
}

impl Default for GUI {
    /// An interface without nodes.
    fn default() -> (gui: Self)
        ensures
            gui.node_seq() == Seq::<Node>::empty(),
    {
        GUI { nodes: Vec::new() }
    }
}

} // verus!
