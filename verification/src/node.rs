use vstd::prelude::*;
use crate::utils::copy_bytes;

verus! {

/// On which side of the path from a leaf to the root a sibling lies.
#[derive(Clone, Copy, Debug, PartialEq, Eq, Structural)]
pub enum Direction {
    Left,
    Right,
}

/// One step of an inclusion proof: a sibling's bytes and the side it lies on.
#[derive(Debug)]
pub struct Node {
    pub direction: Direction,
    pub tx: Vec<u8>,
}

/// What a step of a proof holds.
pub struct ProofStep {
    pub direction: Direction,
    pub sibling: Seq<u8>,
}

impl View for Node {
    type V = ProofStep;

    open spec fn view(&self) -> ProofStep {
        ProofStep { direction: self.direction, sibling: self.tx@ }
    }
}

impl Node {
    pub fn new(direction: Direction, tx: Vec<u8>) -> (node: Node)
        ensures
            node@ == (ProofStep { direction, sibling: tx@ }),
    {
        Node { direction, tx }
    }
}

impl Clone for Node {
    fn clone(&self) -> (copy: Node)
        ensures
            copy@ == self@,
    {
        Node { direction: self.direction, tx: copy_bytes(self.tx.as_slice()) }
    }
}

/// What a list of steps holds.
pub open spec fn steps_view(nodes: Seq<Node>) -> Seq<ProofStep> {
    Seq::new(nodes.len(), |i: int| nodes[i]@)
}

/// A copy of `nodes`.
pub fn copy_nodes(nodes: &Vec<Node>) -> (out: Vec<Node>)
    ensures
        steps_view(out@) == steps_view(nodes@),
{
    let mut out: Vec<Node> = Vec::new();
    let mut i: usize = 0;
    while i < nodes.len()
        invariant
            i <= nodes@.len(),
            out@.len() == i,
            forall|j: int| 0 <= j < i ==> out@[j]@ == nodes@[j]@,
        decreases nodes@.len() - i,
    {
        out.push(nodes[i].clone());
        i += 1;
    }
    out
}

} // verus!
