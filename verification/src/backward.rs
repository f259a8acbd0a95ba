//! The backward pass: the derivative of the error by a weight of each
//! weightable node of the scenario.

use vstd::prelude::*;
use crate::chain::{
    diff_node, diff_node_of, expand_chain_spec, expand_diff_symbol, expand_spec, first_output,
    leaf_id, minus_batch, sum_from, DiffChain, DiffChainNode,
};
use crate::engine::{record_at, LatexEngine};
use crate::kind::{is_weightable, weightable};
use crate::render::{axis_letters, nesting, render_chain, ErrorResultTo};
use crate::symbol_map::{records, LatexNode, LatexNodeView, LatexResult};
use crate::templates::{
    diff_text, error_text, pair, weight_text, EngineError, Indexes, TemplatesView,
};

verus! {

/// Where a depth cap stops the expansion.
pub open spec fn cap_of(depth: Option<usize>) -> ErrorResultTo {
    match depth {
        Some(x) => ErrorResultTo::Innner(x),
        None => ErrorResultTo::Total,
    }
}

/// Every output index names a position of the shape without its batch
/// axis.
pub open spec fn in_range(func_idx: Seq<usize>, shape: Seq<usize>) -> bool {
    forall|k: int| 0 <= k < func_idx.len() ==> #[trigger] index_in_range(func_idx, shape, k)
}

/// The output index at `k` is below the extent of the axis at `k`, the
/// batch axis not counted.
pub open spec fn index_in_range(func_idx: Seq<usize>, shape: Seq<usize>, k: int) -> bool {
    k < minus_batch(shape).len() && func_idx[k] < minus_batch(shape)[k]
}

/// Why no derivative can be rendered for node `index`, if anything.
pub open spec fn backward_error(
    map: Seq<Option<LatexNodeView>>,
    index: usize,
    indexes: &Indexes,
) -> Option<EngineError> {
    if index >= map.len() || map[index as int] is None {
        Some(EngineError::NodeMissing)
    } else if map[index as int]->0.output_shape.len() == 0 {
        Some(EngineError::ShapeMissing)
    } else if !in_range(indexes.func_idx@, map[index as int]->0.output_shape) {
        Some(EngineError::WeightIndexOutOfRange)
    } else {
        None
    }
}

/// The left-hand side of the derivative of node `index`: the total error
/// by the weight at `indexes`.
pub open spec fn backward_symbol_of(
    t: TemplatesView,
    map: Seq<Option<LatexNodeView>>,
    index: usize,
    indexes: &Indexes,
) -> Seq<char> {
    diff_text(
        t,
        error_text(t, seq!["total"@, Seq::empty()]),
        weight_text(t, record_at(map, index as int).symbol, indexes, true),
    )
}

/// The right-hand side of the derivative of node `index`: its chain towards
/// `last_point`, rendered.
pub open spec fn backward_value_of(
    t: TemplatesView,
    map: Seq<Option<LatexNodeView>>,
    index: usize,
    last_point: usize,
    indexes: &Indexes,
    depth: Option<usize>,
) -> Seq<char> {
    render_chain(
        t,
        expand_spec(map, diff_node_of(map, index), last_point, map.len()),
        0,
        cap_of(depth),
        None,
        indexes,
        axis_letters(),
        0,
    )
}

/// The backward step of one scenario entry: a weightable node for which a
/// derivative can be rendered gets both sides of it; any other entry
/// leaves the map as it is.
pub open spec fn back_step(
    t: TemplatesView,
    map: Seq<Option<LatexNodeView>>,
    index: usize,
    last_point: usize,
    indexes: &Indexes,
    depth: Option<usize>,
) -> Seq<Option<LatexNodeView>> {
    if backward_error(map, index, indexes) is None && weightable(map[index as int]->0.kind) {
        map.update(
            index as int,
            Some(
                LatexNodeView {
                    backward_value: backward_value_of(t, map, index, last_point, indexes, depth),
                    backward_symbol: backward_symbol_of(t, map, index, indexes),
                    ..map[index as int]->0
                },
            ),
        )
    } else {
        map
    }
}

/// The map after the backward steps of the first `k` scenario entries,
/// each towards the last entry.
pub open spec fn back_total(
    t: TemplatesView,
    map: Seq<Option<LatexNodeView>>,
    senario: Seq<usize>,
    indexes: &Indexes,
    depth: Option<usize>,
    k: nat,
) -> Seq<Option<LatexNodeView>>
    decreases k,
{
    if k == 0 {
        map
    } else {
        back_step(
            t,
            back_total(t, map, senario, indexes, depth, (k - 1) as nat),
            senario[k - 1],
            senario.last(),
            indexes,
            depth,
        )
    }
}

proof fn lemma_sum_nesting(map: Seq<Option<LatexNodeView>>, next: usize, end: usize, fuel: nat)
    ensures
        nesting(sum_from(map, next, end, fuel)) <= fuel,
    decreases fuel, 0nat,
{
    if fuel > 0 {
        lemma_expand_nesting(map, diff_node_of(map, next), end, (fuel - 1) as nat);
    }
}

proof fn lemma_expand_chain_nesting(
    map: Seq<Option<LatexNodeView>>,
    v: Seq<DiffChain>,
    end: usize,
    fuel: nat,
)
    requires
        v.len() > 0,
        leaf_id(v[0]) is Some,
    ensures
        nesting(expand_chain_spec(map, v, end, fuel)) <= fuel,
    decreases fuel, 1nat,
{
    let i = leaf_id(v[0])->0;
    if i != end && first_output(map, i) is Some {
        let next = first_output(map, i)->0;
        let grown = seq![sum_from(map, next, end, fuel)] + v;
        lemma_sum_nesting(map, next, end, fuel);
        assert(grown[0] == sum_from(map, next, end, fuel));
        assert(nesting(DiffChain::Chain(grown)) == nesting(grown[0]));
    } else {
        assert(nesting(v[0]) == 0);
        assert(nesting(DiffChain::Chain(v)) == nesting(v[0]));
    }
}

/// Expanding a single layer nests no more sums than there are hops.
pub proof fn lemma_expand_nesting(
    map: Seq<Option<LatexNodeView>>,
    cursor: DiffChain,
    end: usize,
    fuel: nat,
)
    requires
        leaf_id(cursor) is Some,
    ensures
        nesting(expand_spec(map, cursor, end, fuel)) <= fuel,
    decreases fuel, 2nat,
{
    let i = leaf_id(cursor)->0;
    match first_output(map, i) {
        None => {
            lemma_expand_chain_nesting(map, seq![cursor], end, fuel);
        },
        Some(next) => {
            if cursor is Weightable && diff_node_of(map, next) is Weightable {
                let made = seq![sum_from(map, next, end, fuel), cursor];
                lemma_sum_nesting(map, next, end, fuel);
                assert(nesting(DiffChain::Chain(made)) == nesting(made[0]));
            } else {
                lemma_expand_chain_nesting(map, seq![diff_node_of(map, next), cursor], end, fuel);
            }
        },
    }
}

fn indices_in_range(func_idx: &Vec<usize>, shape: &Vec<usize>) -> (r: bool)
    ensures
        r == in_range(func_idx@, shape@),
{
    let skip: usize = if shape.len() > 1 {
        1
    } else {
        0
    };
    let ghost dims = minus_batch(shape@);
    assert(dims.len() == shape@.len() - skip);
    assert(forall|k: int| 0 <= k < dims.len() ==> dims[k] == shape@[k + skip]);
    let mut k: usize = 0;
    while k < func_idx.len()
        invariant
            k <= func_idx@.len(),
            skip <= 1,
            dims == minus_batch(shape@),
            dims.len() == shape@.len() - skip,
            forall|j: int| 0 <= j < dims.len() ==> dims[j] == shape@[j + skip],
            forall|j: int| 0 <= j < k ==> #[trigger] index_in_range(func_idx@, shape@, j),
        decreases func_idx.len() - k,
    {
        if k >= shape.len() - skip || func_idx[k] >= shape[k + skip] {
            assert(!index_in_range(func_idx@, shape@, k as int));
            return false;
        }
        k += 1;
    }
    true
}

impl LatexEngine {
    /// Expands `target` towards the node `error_node` along the first
    /// consumer of each layer, over at most as many hops as the map has
    /// nodes.
    pub fn expand_diff_symbol(
        &self,
        symbol_map: &Vec<Option<LatexNode>>,
        target: DiffChainNode,
        error_node: usize,
    ) -> (r: DiffChainNode)
        ensures
            r@ == expand_spec(records(symbol_map@), target@, error_node, symbol_map@.len()),
    {
        expand_diff_symbol(symbol_map, target, error_node)
    }

    /// Renders a chain from the outermost level with the engine's
    /// templates.
    pub fn gen_backward_value(
        &self,
        target: &DiffChainNode,
        final_model_end: ErrorResultTo,
        input_indexs: &Indexes,
    ) -> (r: String)
        requires
            nesting(target@) <= usize::MAX,
        ensures
            r@ == render_chain(
                self.templates@,
                target@,
                0,
                final_model_end,
                None,
                input_indexs,
                axis_letters(),
                0,
            ),
    {
        self.templates.gen_backward_value(target, final_model_end, input_indexs)
    }

    /// Renders the derivative of the error by the weight at `input_indexs`
    /// of node `n_indxs.0`, expanded towards node `n_indxs.1`: the
    /// left-hand side and the right-hand side.
    pub fn gen_each_back(
        &self,
        symbol_result: &LatexResult,
        n_indxs: (usize, usize),
        input_indexs: &Indexes,
        depth: Option<usize>,
    ) -> (r: Result<(String, String), EngineError>)
        ensures
            match backward_error(records(symbol_result.symbol_map@), n_indxs.0, input_indexs) {
                Some(e) => r == Err::<(String, String), EngineError>(e),
                None => r is Ok && r->Ok_0.0@ == backward_symbol_of(
                    self.templates@,
                    records(symbol_result.symbol_map@),
                    n_indxs.0,
                    input_indexs,
                ) && r->Ok_0.1@ == backward_value_of(
                    self.templates@,
                    records(symbol_result.symbol_map@),
                    n_indxs.0,
                    n_indxs.1,
                    input_indexs,
                    depth,
                ),
            },
    {
        let index = n_indxs.0;
        let last_point = n_indxs.1;
        let ghost map = records(symbol_result.symbol_map@);
        if index >= symbol_result.symbol_map.len() {
            return Err(EngineError::NodeMissing);
        }
        let symbol = match &symbol_result.symbol_map[index] {
            Some(rec) => {
                if rec.output_shape.len() == 0 {
                    return Err(EngineError::ShapeMissing);
                }
                if !indices_in_range(&input_indexs.func_idx, &rec.output_shape) {
                    return Err(EngineError::WeightIndexOutOfRange);
                }
                rec.symbol.clone()
            },
            None => {
                return Err(EngineError::NodeMissing);
            },
        };
        let start_node = diff_node(&symbol_result.symbol_map, index);
        proof {
            lemma_expand_nesting(map, start_node@, last_point, map.len());
        }
        let expand_value = self.expand_diff_symbol(
            &symbol_result.symbol_map,
            start_node,
            last_point,
        );
        let e_option = match depth {
            Some(x) => ErrorResultTo::Innner(x),
            None => ErrorResultTo::Total,
        };
        let backward = self.gen_backward_value(&expand_value, e_option, input_indexs);
        let e_symbol = self.templates.gen_error_symbol(
            &pair(String::from_str("total"), String::new()),
        );
        let down_symbol = self.templates.gen_w_symbol_inner(symbol, input_indexs, true);
        Ok((self.templates.gen_diff(e_symbol, down_symbol), backward))
    }

    /// Renders the derivative of every weightable node of the scenario
    /// towards the scenario's last node, and records both sides with the
    /// node. An entry for which none can be rendered is passed over.
    pub fn gen_back_total(
        &self,
        symbol_result: &mut LatexResult,
        input_indexs: &Indexes,
        depth: Option<usize>,
    )
        ensures
            final(symbol_result).senario == old(symbol_result).senario,
            records(final(symbol_result).symbol_map@) == back_total(
                self.templates@,
                records(old(symbol_result).symbol_map@),
                old(symbol_result).senario@,
                input_indexs,
                depth,
                old(symbol_result).senario@.len(),
            ),
    {
        let count = symbol_result.senario.len();
        if count == 0 {
            return ;
        }
        let last_point = symbol_result.senario[count - 1];
        let mut k: usize = 0;
        while k < count
            invariant
                k <= count,
                count == symbol_result.senario@.len(),
                symbol_result.senario == old(symbol_result).senario,
                last_point == symbol_result.senario@.last(),
                records(symbol_result.symbol_map@) == back_total(
                    self.templates@,
                    records(old(symbol_result).symbol_map@),
                    old(symbol_result).senario@,
                    input_indexs,
                    depth,
                    k as nat,
                ),
            decreases count - k,
        {
            let i = symbol_result.senario[k];
            let ghost before = records(symbol_result.symbol_map@);
            let updated: Option<LatexNode> = if i < symbol_result.symbol_map.len() {
                match &symbol_result.symbol_map[i] {
                    Some(rec) => {
                        if is_weightable(rec.kind).is_some() {
                            match self.gen_each_back(
                                symbol_result,
                                (i, last_point),
                                input_indexs,
                                depth,
                            ) {
                                Ok(sides) => {
                                    let mut f = rec.clone();
                                    f.backward_symbol = sides.0;
                                    f.backward_value = sides.1;
                                    Some(f)
                                },
                                Err(_) => None,
                            }
                        } else {
                            None
                        }
                    },
                    None => None,
                }
            } else {
                None
            };
            match updated {
                Some(f) => {
                    symbol_result.symbol_map.set(i, Some(f));
                    assert(records(symbol_result.symbol_map@) =~= back_step(
                        self.templates@,
                        before,
                        i,
                        last_point,
                        input_indexs,
                        depth,
                    ));
                },
                None => {},
            }
            k += 1;
        }
    }
}

} // verus!
