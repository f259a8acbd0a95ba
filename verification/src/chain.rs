//! The chain of derivative factors from a layer to the loss.

use vstd::prelude::*;
use crate::engine::record_at;
use crate::graph::copy_ids;
use crate::kind::{is_weightable, weightable};
use crate::symbol_map::{records, LatexNode, LatexNodeView};

verus! {

/// A chain-rule expansion before it is rendered.
#[derive(Debug, PartialEq, Eq)]
pub enum DiffChainNode {
    Weightable(usize, String),
    UnWeightable(usize, String),
    Sum(Box<DiffChainNode>, Vec<usize>),
    Chain(Vec<DiffChainNode>),
    Not,
}

/// The mathematical content of a [`DiffChainNode`].
pub ghost enum DiffChain {
    Weightable(usize, Seq<char>),
    UnWeightable(usize, Seq<char>),
    Sum(Box<DiffChain>, Seq<usize>),
    Chain(Seq<DiffChain>),
    Not,
}

/// The content of a chain node.
pub open spec fn chain_view(c: DiffChainNode) -> DiffChain
    decreases c,
{
    match c {
        DiffChainNode::Weightable(i, s) => DiffChain::Weightable(i, s@),
        DiffChainNode::UnWeightable(i, s) => DiffChain::UnWeightable(i, s@),
        DiffChainNode::Sum(inner, dims) => DiffChain::Sum(Box::new(chain_view(*inner)), dims@),
        DiffChainNode::Chain(v) => DiffChain::Chain(
            Seq::new(
                v.len() as nat,
                |i: int|
                    if 0 <= i < v.len() {
                        chain_view(v[i])
                    } else {
                        DiffChain::Not
                    },
            ),
        ),
        DiffChainNode::Not => DiffChain::Not,
    }
}

impl View for DiffChainNode {
    type V = DiffChain;

    open spec fn view(&self) -> DiffChain {
        chain_view(*self)
    }
}

/// The contents of a sequence of chain nodes.
pub open spec fn chain_views(s: Seq<DiffChainNode>) -> Seq<DiffChain> {
    Seq::new(s.len(), |i: int| chain_view(s[i]))
}

pub proof fn lemma_chain_view(v: Vec<DiffChainNode>)
    ensures
        chain_view(DiffChainNode::Chain(v)) == DiffChain::Chain(chain_views(v@)),
{
    assert(chain_view(DiffChainNode::Chain(v))->Chain_0 =~= chain_views(v@));
}

fn copy_factors(v: &Vec<DiffChainNode>, k: usize) -> (r: Vec<DiffChainNode>)
    requires
        k <= v@.len(),
    ensures
        chain_views(r@) == chain_views(v@).subrange(0, k as int),
    decreases v, k,
{
    if k == 0 {
        let out: Vec<DiffChainNode> = Vec::new();
        assert(chain_views(out@) =~= chain_views(v@).subrange(0, 0));
        out
    } else {
        let mut out = copy_factors(v, k - 1);
        let ghost before = out@;
        assert(chain_views(before).len() == before.len());
        assert(chain_views(v@).subrange(0, k - 1).len() == k - 1);
        let item = copy_chain(&v[k - 1]);
        out.push(item);
        proof {
            let want = chain_views(v@).subrange(0, k as int);
            assert forall|j: int| 0 <= j < k implies chain_views(out@)[j] == want[j] by {
                if j < k - 1 {
                    assert(out@[j] == before[j]);
                    assert(chain_views(before)[j] == chain_views(v@).subrange(0, k - 1)[j]);
                }
            }
            assert(chain_views(out@) =~= want);
        }
        out
    }
}

fn copy_chain(c: &DiffChainNode) -> (r: DiffChainNode)
    ensures
        r@ == c@,
    decreases c, 0nat,
{
    match c {
        DiffChainNode::Weightable(i, s) => DiffChainNode::Weightable(*i, s.clone()),
        DiffChainNode::UnWeightable(i, s) => DiffChainNode::UnWeightable(*i, s.clone()),
        DiffChainNode::Sum(inner, dims) => DiffChainNode::Sum(
            Box::new(copy_chain(inner)),
            copy_ids(dims),
        ),
        DiffChainNode::Chain(v) => {
            let out = copy_factors(v, v.len());
            proof {
                lemma_chain_view(out);
                lemma_chain_view(*v);
                assert(chain_views(v@).subrange(0, v@.len() as int) =~= chain_views(v@));
            }
            DiffChainNode::Chain(out)
        },
        DiffChainNode::Not => DiffChainNode::Not,
    }
}

impl Clone for DiffChainNode {
    fn clone(&self) -> (r: Self)
        ensures
            r@ == self@,
    {
        copy_chain(self)
    }
}

/// A shape without its first, batch, axis; a shape of one axis, or of
/// none, as it is.
pub open spec fn minus_batch(shape: Seq<usize>) -> Seq<usize> {
    if shape.len() > 1 {
        shape.subrange(1, shape.len() as int)
    } else {
        shape
    }
}

/// Node `j` as a factor: weightable or not by its kind, with its symbol.
pub open spec fn diff_node_of(map: Seq<Option<LatexNodeView>>, j: usize) -> DiffChain {
    let rec = record_at(map, j as int);
    if weightable(rec.kind) {
        DiffChain::Weightable(j, rec.symbol)
    } else {
        DiffChain::UnWeightable(j, rec.symbol)
    }
}

/// The node of a factor that is a single layer.
pub open spec fn leaf_id(c: DiffChain) -> Option<usize> {
    match c {
        DiffChain::Weightable(i, _) => Some(i),
        DiffChain::UnWeightable(i, _) => Some(i),
        _ => None,
    }
}

/// The first consumer of node `i`, if it has one.
pub open spec fn first_output(map: Seq<Option<LatexNodeView>>, i: usize) -> Option<usize> {
    let outs = record_at(map, i as int).outputs;
    if outs.len() > 0 {
        Some(outs[0])
    } else {
        None
    }
}

/// The sum over the axes of node `next` of the expansion from `next` on;
/// `Not` in place of the expansion where no hop is left.
pub open spec fn sum_from(map: Seq<Option<LatexNodeView>>, next: usize, end: usize, fuel: nat)
    -> DiffChain
    decreases fuel, 0nat,
{
    if fuel == 0 {
        DiffChain::Not
    } else {
        DiffChain::Sum(
            Box::new(expand_spec(map, diff_node_of(map, next), end, (fuel - 1) as nat)),
            minus_batch(record_at(map, next as int).output_shape),
        )
    }
}

/// The expansion of a chain: where its head is a layer other than `end`
/// that has a consumer, the sum over the consumer's axes of the expansion
/// from the consumer on is put in front; any other chain is left as it is.
pub open spec fn expand_chain_spec(
    map: Seq<Option<LatexNodeView>>,
    v: Seq<DiffChain>,
    end: usize,
    fuel: nat,
) -> DiffChain
    decreases fuel, 1nat,
{
    if v.len() > 0 && leaf_id(v[0]) is Some && leaf_id(v[0])->0 != end && first_output(
        map,
        leaf_id(v[0])->0,
    ) is Some {
        DiffChain::Chain(
            seq![sum_from(map, first_output(map, leaf_id(v[0])->0)->0, end, fuel)] + v,
        )
    } else {
        DiffChain::Chain(v)
    }
}

/// The expansion of a cursor towards the node `end`, over at most `fuel`
/// hops. A layer becomes the chain of itself behind what follows it: the
/// sum over a weightable consumer's expansion, or the consumer itself
/// where it is not weightable, which is then expanded as a chain.
pub open spec fn expand_spec(
    map: Seq<Option<LatexNodeView>>,
    cursor: DiffChain,
    end: usize,
    fuel: nat,
) -> DiffChain
    decreases fuel, 2nat,
{
    match cursor {
        DiffChain::Weightable(i, s) => match first_output(map, i) {
            None => expand_chain_spec(map, seq![cursor], end, fuel),
            Some(next) => if diff_node_of(map, next) is Weightable {
                DiffChain::Chain(seq![sum_from(map, next, end, fuel), cursor])
            } else {
                expand_chain_spec(map, seq![diff_node_of(map, next), cursor], end, fuel)
            },
        },
        DiffChain::UnWeightable(i, s) => match first_output(map, i) {
            None => expand_chain_spec(map, seq![cursor], end, fuel),
            Some(next) => expand_chain_spec(map, seq![diff_node_of(map, next), cursor], end, fuel),
        },
        DiffChain::Chain(v) => expand_chain_spec(map, v, end, fuel),
        other => other,
    }
}

fn record_of(symbol_map: &Vec<Option<LatexNode>>, i: usize) -> (r: Option<&LatexNode>)
    ensures
        match r {
            Some(rec) => rec@ == record_at(records(symbol_map@), i as int) && i
                < symbol_map@.len() && symbol_map@[i as int] == Some(*rec),
            None => record_at(records(symbol_map@), i as int) == crate::symbol_map::blank_record(),
        },
{
    if i < symbol_map.len() {
        match &symbol_map[i] {
            Some(rec) => Some(rec),
            None => None,
        }
    } else {
        None
    }
}

fn first_consumer(symbol_map: &Vec<Option<LatexNode>>, i: usize) -> (r: Option<usize>)
    ensures
        r == first_output(records(symbol_map@), i),
{
    match record_of(symbol_map, i) {
        Some(rec) => if rec.outputs.len() > 0 {
            Some(rec.outputs[0])
        } else {
            None
        },
        None => None,
    }
}

fn sum_dims(symbol_map: &Vec<Option<LatexNode>>, j: usize) -> (r: Vec<usize>)
    ensures
        r@ == minus_batch(record_at(records(symbol_map@), j as int).output_shape),
{
    match record_of(symbol_map, j) {
        Some(rec) => {
            if rec.output_shape.len() > 1 {
                let mut out: Vec<usize> = Vec::new();
                let mut k: usize = 1;
                while k < rec.output_shape.len()
                    invariant
                        1 <= k <= rec.output_shape@.len(),
                        out@ == rec.output_shape@.subrange(1, k as int),
                    decreases rec.output_shape.len() - k,
                {
                    out.push(rec.output_shape[k]);
                    assert(rec.output_shape@.subrange(1, k + 1) =~= rec.output_shape@.subrange(
                        1,
                        k as int,
                    ).push(rec.output_shape@[k as int]));
                    k += 1;
                }
                out
            } else {
                copy_ids(&rec.output_shape)
            }
        },
        None => Vec::new(),
    }
}

/// Node `node_idx` as a factor of a chain.
pub fn diff_node(symbol_map: &Vec<Option<LatexNode>>, node_idx: usize) -> (r: DiffChainNode)
    ensures
        r@ == diff_node_of(records(symbol_map@), node_idx),
{
    match record_of(symbol_map, node_idx) {
        Some(rec) => {
            if is_weightable(rec.kind).is_some() {
                DiffChainNode::Weightable(node_idx, rec.symbol.clone())
            } else {
                DiffChainNode::UnWeightable(node_idx, rec.symbol.clone())
            }
        },
        None => DiffChainNode::UnWeightable(node_idx, String::new()),
    }
}

fn head_id(v: &Vec<DiffChainNode>) -> (r: Option<usize>)
    ensures
        r == (if v@.len() > 0 {
            leaf_id(chain_view(v@[0]))
        } else {
            None
        }),
{
    if v.len() > 0 {
        match &v[0] {
            DiffChainNode::Weightable(i, _) => Some(*i),
            DiffChainNode::UnWeightable(i, _) => Some(*i),
            _ => None,
        }
    } else {
        None
    }
}

fn sum_over(symbol_map: &Vec<Option<LatexNode>>, next: usize, error_node: usize, fuel: usize) -> (r:
    DiffChainNode)
    ensures
        r@ == sum_from(records(symbol_map@), next, error_node, fuel as nat),
    decreases fuel, 0nat,
{
    if fuel == 0 {
        DiffChainNode::Not
    } else {
        let inner = expand_within(
            symbol_map,
            diff_node(symbol_map, next),
            error_node,
            fuel - 1,
        );
        DiffChainNode::Sum(Box::new(inner), sum_dims(symbol_map, next))
    }
}

fn expand_chain(
    symbol_map: &Vec<Option<LatexNode>>,
    v: Vec<DiffChainNode>,
    error_node: usize,
    fuel: usize,
) -> (r: DiffChainNode)
    ensures
        r@ == expand_chain_spec(records(symbol_map@), chain_views(v@), error_node, fuel as nat),
    decreases fuel, 1nat,
{
    let mut v = v;
    let ghost before = v;
    let head = head_id(&v);
    let target = match head {
        Some(i) => if i != error_node {
            first_consumer(symbol_map, i)
        } else {
            None
        },
        None => None,
    };
    match target {
        Some(next) => {
            let sum = sum_over(symbol_map, next, error_node, fuel);
            let ghost sum_view = sum@;
            v.insert(0, sum);
            proof {
                lemma_chain_view(v);
                assert(chain_views(v@) =~= seq![sum_view] + chain_views(before@));
            }
            DiffChainNode::Chain(v)
        },
        None => {
            proof {
                lemma_chain_view(v);
            }
            DiffChainNode::Chain(v)
        },
    }
}

fn expand_within(
    symbol_map: &Vec<Option<LatexNode>>,
    target: DiffChainNode,
    error_node: usize,
    fuel: usize,
) -> (r: DiffChainNode)
    ensures
        r@ == expand_spec(records(symbol_map@), target@, error_node, fuel as nat),
    decreases fuel, 2nat,
{
    match target {
        DiffChainNode::Chain(v) => {
            proof {
                lemma_chain_view(v);
            }
            expand_chain(symbol_map, v, error_node, fuel)
        },
        DiffChainNode::Weightable(i, s) => {
            let ghost cursor = DiffChain::Weightable(i, s@);
            let mut result: Vec<DiffChainNode> = Vec::new();
            match first_consumer(symbol_map, i) {
                None => {
                    result.push(DiffChainNode::Weightable(i, s));
                    assert(chain_views(result@) =~= seq![cursor]);
                    expand_chain(symbol_map, result, error_node, fuel)
                },
                Some(next) => {
                    let t_d = diff_node(symbol_map, next);
                    match t_d {
                        DiffChainNode::Weightable(_, _) => {
                            let sum = sum_over(symbol_map, next, error_node, fuel);
                            let ghost sum_view = sum@;
                            result.push(sum);
                            result.push(DiffChainNode::Weightable(i, s));
                            proof {
                                lemma_chain_view(result);
                                assert(chain_views(result@) =~= seq![sum_view, cursor]);
                            }
                            DiffChainNode::Chain(result)
                        },
                        _ => {
                            let ghost next_view = t_d@;
                            result.push(t_d);
                            result.push(DiffChainNode::Weightable(i, s));
                            assert(chain_views(result@) =~= seq![next_view, cursor]);
                            expand_chain(symbol_map, result, error_node, fuel)
                        },
                    }
                },
            }
        },
        DiffChainNode::UnWeightable(i, s) => {
            let ghost cursor = DiffChain::UnWeightable(i, s@);
            let mut result: Vec<DiffChainNode> = Vec::new();
            match first_consumer(symbol_map, i) {
                None => {},
                Some(next) => {
                    result.push(diff_node(symbol_map, next));
                },
            }
            result.push(DiffChainNode::UnWeightable(i, s));
            assert(chain_views(result@) =~= (match first_output(records(symbol_map@), i) {
                None => seq![cursor],
                Some(next) => seq![diff_node_of(records(symbol_map@), next), cursor],
            }));
            expand_chain(symbol_map, result, error_node, fuel)
        },
        x => x,
    }
}

/// Expands `target` towards the node `error_node` along the first consumer
/// of each layer. No walk through a map without cycles takes more hops
/// than the map has nodes; where one does, what is left of it is `Not`.
pub fn expand_diff_symbol(
    symbol_map: &Vec<Option<LatexNode>>,
    target: DiffChainNode,
    error_node: usize,
) -> (r: DiffChainNode)
    ensures
        r@ == expand_spec(records(symbol_map@), target@, error_node, symbol_map@.len()),
{
    expand_within(symbol_map, target, error_node, symbol_map.len())
}

} // verus!
