//! The computation graph: an arena of nodes and the order in which they are
//! visited.

use vstd::prelude::*;
use crate::ops::{MathGen, Operator};

verus! {

/// A node of the graph. Neighbours are node ids; `successors` are the
/// consumers of the first output port and `output_shape` is its shape.
#[derive(Debug, PartialEq, Eq)]
pub struct GraphNode {
    pub name: String,
    pub op: Operator,
    pub inputs: Vec<usize>,
    pub successors: Vec<usize>,
    pub output_shape: Vec<usize>,
}

/// The nodes, indexed by id, and the visiting order.
#[derive(Debug, PartialEq, Eq)]
pub struct Graph {
    pub nodes: Vec<GraphNode>,
    pub order: Vec<usize>,
}

/// Every id of `ids` is below `n`.
pub open spec fn all_below(ids: Seq<usize>, n: nat) -> bool {
    forall|j: int| 0 <= j < ids.len() ==> ids[j] < n
}

impl Graph {
    /// Every id that the graph names is the id of a node, and every
    /// operator's parameters are usable.
    pub open spec fn valid(&self) -> bool {
        &&& all_below(self.order@, self.nodes@.len())
        &&& forall|n: int| 0 <= n < self.nodes@.len() ==> #[trigger] self.node_valid(n)
    }

    /// The neighbours of node `n` are nodes, and its operator is usable.
    pub open spec fn node_valid(&self, n: int) -> bool {
        &&& all_below(self.nodes@[n].inputs@, self.nodes@.len())
        &&& all_below(self.nodes@[n].successors@, self.nodes@.len())
        &&& self.nodes@[n].op.valid()
    }

    /// Every node is visited.
    pub open spec fn covering(&self) -> bool {
        forall|n: usize| n < self.nodes@.len() ==> #[trigger] self.order@.contains(n)
    }

    /// Whether the graph is valid.
    pub fn is_valid(&self) -> (r: bool)
        ensures
            r == self.valid(),
    {
        let count = self.nodes.len();
        if !ids_below(&self.order, count) {
            return false;
        }
        let mut n: usize = 0;
        while n < count
            invariant
                count == self.nodes@.len(),
                n <= count,
                forall|m: int| 0 <= m < n ==> #[trigger] self.node_valid(m),
            decreases count - n,
        {
            let node = &self.nodes[n];
            let usable = match &node.op {
                Operator::MaxPool(pool) => pool.is_valid(),
                Operator::SumPool(pool) => pool.is_valid(),
                _ => true,
            };
            if !usable || !ids_below(&node.inputs, count) || !ids_below(&node.successors, count) {
                assert(!self.node_valid(n as int));
                return false;
            }
            n += 1;
        }
        true
    }
}

/// Whether every id of `ids` is below `n`.
pub fn ids_below(ids: &Vec<usize>, n: usize) -> (r: bool)
    ensures
        r == all_below(ids@, n as nat),
{
    let mut j: usize = 0;
    while j < ids.len()
        invariant
            j <= ids@.len(),
            forall|i: int| 0 <= i < j ==> ids@[i] < n,
        decreases ids.len() - j,
    {
        if ids[j] >= n {
            return false;
        }
        j += 1;
    }
    true
}

/// A copy of a vector of numbers.
pub fn copy_ids(ids: &Vec<usize>) -> (r: Vec<usize>)
    ensures
        r@ == ids@,
{
    let mut out: Vec<usize> = Vec::new();
    let mut j: usize = 0;
    while j < ids.len()
        invariant
            j <= ids@.len(),
            out@ == ids@.take(j as int),
        decreases ids.len() - j,
    {
        out.push(ids[j]);
        assert(ids@.take(j + 1) =~= ids@.take(j as int).push(ids@[j as int]));
        j += 1;
    }
    assert(ids@.take(j as int) =~= ids@);
    out
}

} // verus!
