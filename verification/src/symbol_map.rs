//! Symbol records and the result of a parse.

use vstd::prelude::*;
use crate::graph::copy_ids;
use crate::kind::{opt_text, FormulKind};
use crate::text::{collapsed, erase_slashes};

verus! {

/// What the engine knows of one graph node.
#[derive(Debug, PartialEq, Eq)]
pub struct LatexNode {
    pub index: usize,
    pub inputs: Vec<usize>,
    pub outputs: Vec<usize>,
    pub symbol: String,
    pub extra_symbol: Option<String>,
    pub kind: FormulKind,
    pub forward_value: String,
    pub op_name: String,
    pub input_shape_ref: Option<Vec<usize>>,
    pub output_shape: Vec<usize>,
    pub backward_value: String,
    pub backward_symbol: String,
}

/// The mathematical content of a [`LatexNode`].
pub ghost struct LatexNodeView {
    pub index: usize,
    pub inputs: Seq<usize>,
    pub outputs: Seq<usize>,
    pub symbol: Seq<char>,
    pub extra_symbol: Option<Seq<char>>,
    pub kind: FormulKind,
    pub forward_value: Seq<char>,
    pub op_name: Seq<char>,
    pub input_shape_ref: Option<Seq<usize>>,
    pub output_shape: Seq<usize>,
    pub backward_value: Seq<char>,
    pub backward_symbol: Seq<char>,
}

/// The view of an optional shape.
pub open spec fn opt_shape(s: Option<Vec<usize>>) -> Option<Seq<usize>> {
    match s {
        Some(v) => Some(v@),
        None => None,
    }
}

impl View for LatexNode {
    type V = LatexNodeView;

    open spec fn view(&self) -> LatexNodeView {
        LatexNodeView {
            index: self.index,
            inputs: self.inputs@,
            outputs: self.outputs@,
            symbol: self.symbol@,
            extra_symbol: opt_text(self.extra_symbol),
            kind: self.kind,
            forward_value: self.forward_value@,
            op_name: self.op_name@,
            input_shape_ref: opt_shape(self.input_shape_ref),
            output_shape: self.output_shape@,
            backward_value: self.backward_value@,
            backward_symbol: self.backward_symbol@,
        }
    }
}

/// The record of a node of which nothing is known yet.
pub open spec fn blank_record() -> LatexNodeView {
    LatexNodeView {
        index: 0,
        inputs: Seq::empty(),
        outputs: Seq::empty(),
        symbol: Seq::empty(),
        extra_symbol: None,
        kind: FormulKind::Undefined,
        forward_value: Seq::empty(),
        op_name: Seq::empty(),
        input_shape_ref: None,
        output_shape: Seq::empty(),
        backward_value: Seq::empty(),
        backward_symbol: Seq::empty(),
    }
}

impl Default for LatexNode {
    fn default() -> (r: Self)
        ensures
            r@ == blank_record(),
    {
        LatexNode {
            index: 0,
            inputs: Vec::new(),
            outputs: Vec::new(),
            symbol: String::new(),
            extra_symbol: None,
            kind: FormulKind::Undefined,
            forward_value: String::new(),
            op_name: String::new(),
            input_shape_ref: None,
            output_shape: Vec::new(),
            backward_value: String::new(),
            backward_symbol: String::new(),
        }
    }
}

impl Clone for LatexNode {
    fn clone(&self) -> (r: Self)
        ensures
            r@ == self@,
    {
        LatexNode {
            index: self.index,
            inputs: copy_ids(&self.inputs),
            outputs: copy_ids(&self.outputs),
            symbol: self.symbol.clone(),
            extra_symbol: match &self.extra_symbol {
                Some(s) => Some(s.clone()),
                None => None,
            },
            kind: self.kind,
            forward_value: self.forward_value.clone(),
            op_name: self.op_name.clone(),
            input_shape_ref: match &self.input_shape_ref {
                Some(s) => Some(copy_ids(s)),
                None => None,
            },
            output_shape: copy_ids(&self.output_shape),
            backward_value: self.backward_value.clone(),
            backward_symbol: self.backward_symbol.clone(),
        }
    }
}

/// A record with every pair of backslashes in its symbol and in its
/// formulas written as one.
pub open spec fn erased(r: LatexNodeView) -> LatexNodeView {
    LatexNodeView {
        symbol: collapsed(r.symbol),
        forward_value: collapsed(r.forward_value),
        backward_symbol: collapsed(r.backward_symbol),
        backward_value: collapsed(r.backward_value),
        ..r
    }
}

impl LatexNode {
    /// Writes every pair of backslashes in the symbol and in the formulas
    /// as one.
    pub fn erase_slash(&mut self)
        ensures
            final(self)@ == erased(old(self)@),
    {
        self.symbol = erase_slashes(self.symbol.as_str());
        self.forward_value = erase_slashes(self.forward_value.as_str());
        self.backward_symbol = erase_slashes(self.backward_symbol.as_str());
        self.backward_value = erase_slashes(self.backward_value.as_str());
    }
}

/// The map with the first `k` records erased.
pub open spec fn erased_upto(map: Seq<Option<LatexNodeView>>, k: int) -> Seq<
    Option<LatexNodeView>,
> {
    Seq::new(
        map.len(),
        |j: int|
            if j < k {
                match map[j] {
                    Some(r) => Some(erased(r)),
                    None => None,
                }
            } else {
                map[j]
            },
    )
}

/// The views of the records of a symbol map.
pub open spec fn records(map: Seq<Option<LatexNode>>) -> Seq<Option<LatexNodeView>> {
    Seq::new(
        map.len(),
        |i: int|
            match map[i] {
                Some(r) => Some(r@),
                None => None,
            },
    )
}

/// A copy of a symbol map.
pub fn copy_map(map: &Vec<Option<LatexNode>>) -> (r: Vec<Option<LatexNode>>)
    ensures
        records(r@) == records(map@),
{
    let mut out: Vec<Option<LatexNode>> = Vec::new();
    let mut j: usize = 0;
    while j < map.len()
        invariant
            j <= map@.len(),
            out@.len() == j,
            forall|i: int| 0 <= i < j ==> records(out@)[i] == records(map@)[i],
        decreases map.len() - j,
    {
        let item = match &map[j] {
            Some(r) => Some(r.clone()),
            None => None,
        };
        out.push(item);
        j += 1;
    }
    assert(records(out@) =~= records(map@));
    out
}

/// The result of a parse: one record per node, and the scenario.
#[derive(Debug, PartialEq, Eq)]
pub struct LatexResult {
    pub symbol_map: Vec<Option<LatexNode>>,
    pub senario: Vec<usize>,
}

/// `left`, an equals sign, `right`.
pub open spec fn equation(left: Seq<char>, right: Seq<char>) -> Seq<char> {
    left + "="@ + right
}

impl Default for LatexResult {
    fn default() -> (r: Self)
        ensures
            r.symbol_map@.len() == 0,
            r.senario@.len() == 0,
    {
        LatexResult { symbol_map: Vec::new(), senario: Vec::new() }
    }
}

impl LatexResult {
    /// A result for a graph of `graph_size` nodes, with no record yet.
    pub fn new(graph_size: usize) -> (r: Self)
        ensures
            r.symbol_map@.len() == graph_size,
            forall|i: int| 0 <= i < graph_size ==> r.symbol_map@[i] is None,
            r.senario@.len() == 0,
    {
        let mut input: Vec<Option<LatexNode>> = Vec::new();
        let mut i: usize = 0;
        while i < graph_size
            invariant
                i <= graph_size,
                input@.len() == i,
                forall|j: int| 0 <= j < i ==> input@[j] is None,
            decreases graph_size - i,
        {
            input.push(None);
            i += 1;
        }
        LatexResult { symbol_map: input, senario: Vec::new() }
    }

    /// Writes every pair of backslashes in the symbols and formulas of
    /// every record as one.
    pub fn erase_slash(&mut self)
        ensures
            final(self).senario == old(self).senario,
            records(final(self).symbol_map@) == erased_upto(
                records(old(self).symbol_map@),
                old(self).symbol_map@.len() as int,
            ),
    {
        let ghost start = records(self.symbol_map@);
        let mut i: usize = 0;
        assert(records(self.symbol_map@) =~= erased_upto(start, 0));
        while i < self.symbol_map.len()
            invariant
                i <= self.symbol_map@.len(),
                self.senario == old(self).senario,
                start == records(old(self).symbol_map@),
                self.symbol_map@.len() == start.len(),
                records(self.symbol_map@) == erased_upto(start, i as int),
            decreases self.symbol_map.len() - i,
        {
            let changed: Option<LatexNode> = match &self.symbol_map[i] {
                Some(r) => {
                    let mut c = r.clone();
                    c.erase_slash();
                    Some(c)
                },
                None => None,
            };
            let ghost before = records(self.symbol_map@);
            assert(before[i as int] == start[i as int]);
            match changed {
                Some(c) => {
                    self.symbol_map.set(i, Some(c));
                },
                None => {},
            }
            proof {
                let after = records(self.symbol_map@);
                assert forall|j: int| 0 <= j < start.len() implies after[j] == erased_upto(
                    start,
                    i + 1,
                )[j] by {
                    if j != i {
                        assert(after[j] == before[j]);
                        assert(before[j] == erased_upto(start, i as int)[j]);
                    }
                }
                assert(after =~= erased_upto(start, i + 1));
            }
            i += 1;
        }
    }

    /// The forward equation of node `i`: its symbol and its forward formula;
    /// empty where the node has no record.
    pub fn get_node_formul(&self, i: usize) -> (r: String)
        requires
            i < self.symbol_map@.len(),
        ensures
            r@ == (match self.symbol_map@[i as int] {
                Some(x) => equation(x.symbol@, x.forward_value@),
                None => Seq::empty(),
            }),
    {
        match &self.symbol_map[i] {
            Some(x) => {
                let mut r = x.symbol.clone();
                r.append("=");
                r.append(x.forward_value.as_str());
                r
            },
            None => String::new(),
        }
    }

    /// The backward equation of node `i`: the derivative's symbol and its
    /// expansion; empty where the node has no record.
    pub fn get_node_backward(&self, i: usize) -> (r: String)
        requires
            i < self.symbol_map@.len(),
        ensures
            r@ == (match self.symbol_map@[i as int] {
                Some(x) => equation(x.backward_symbol@, x.backward_value@),
                None => Seq::empty(),
            }),
    {
        match &self.symbol_map[i] {
            Some(x) => {
                let mut r = x.backward_symbol.clone();
                r.append("=");
                r.append(x.backward_value.as_str());
                r
            },
            None => String::new(),
        }
    }
}

} // verus!
