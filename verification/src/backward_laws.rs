//! What holds of every chain expansion and of its rendering.

use vstd::prelude::*;
use crate::chain::{
    diff_node_of, expand_chain_spec, expand_spec, first_output, leaf_id, sum_from, DiffChain,
};
use crate::backward::{back_step, backward_error};
use crate::kind::weightable;
use crate::render::{
    at_cap, local_factor, or_empty, render_chain, weightable_chain, ErrorResultTo,
};
use crate::symbol_map::LatexNodeView;
use crate::templates::{Indexes, TemplatesView};

verus! {

/// A sum at the level of the depth cap renders as the local factor of the
/// layer below it, whatever the sum holds.
pub proof fn lemma_cap_collapses_sum(
    t: TemplatesView,
    inner: DiffChain,
    dims: Seq<usize>,
    level: nat,
    cap: ErrorResultTo,
    pre_chain: Option<Seq<char>>,
    indexes: &Indexes,
    proper: Seq<Seq<char>>,
    prev_size: nat,
)
    requires
        at_cap(cap, level),
    ensures
        render_chain(
            t,
            DiffChain::Sum(Box::new(inner), dims),
            level,
            cap,
            pre_chain,
            indexes,
            proper,
            prev_size,
        ) == local_factor(t, or_empty(pre_chain), level, indexes, proper, prev_size),
{
}

/// A weightable layer without a consumer expands to the chain of itself
/// alone, and that chain renders as the two-factor chain of the outermost
/// level.
pub proof fn lemma_terminal_layer(
    t: TemplatesView,
    map: Seq<Option<LatexNodeView>>,
    i: usize,
    s: Seq<char>,
    end: usize,
    fuel: nat,
    cap: ErrorResultTo,
    indexes: &Indexes,
    proper: Seq<Seq<char>>,
)
    requires
        first_output(map, i) is None,
    ensures
        expand_spec(map, DiffChain::Weightable(i, s), end, fuel) == DiffChain::Chain(
            seq![DiffChain::Weightable(i, s)],
        ),
        render_chain(
            t,
            expand_spec(map, DiffChain::Weightable(i, s), end, fuel),
            0,
            cap,
            None,
            indexes,
            proper,
            0,
        ) == weightable_chain(t, s, "w"@, 0, indexes, proper, 0),
{
    let chain = seq![DiffChain::Weightable(i, s)];
    assert(chain[0] == DiffChain::Weightable(i, s));
}

/// The backward step of an entry that is not weightable, or for which no
/// derivative can be rendered, leaves the map as it is.
pub proof fn lemma_entry_passed_over(
    t: TemplatesView,
    map: Seq<Option<LatexNodeView>>,
    index: usize,
    last_point: usize,
    indexes: &Indexes,
    depth: Option<usize>,
)
    requires
        backward_error(map, index, indexes) is Some || !weightable(map[index as int]->0.kind),
    ensures
        back_step(t, map, index, last_point, indexes, depth) == map,
{
}

/// Every node has a rank above the rank of its first consumer, which is a
/// node of the map. A map has such ranks exactly when no walk along first
/// consumers comes back to where it was.
pub open spec fn chain_ranked(map: Seq<Option<LatexNodeView>>, rank: Seq<nat>) -> bool {
    &&& rank.len() == map.len()
    &&& forall|i: int|
        0 <= i < map.len() && (#[trigger] first_output(map, i as usize)) is Some ==> first_output(
            map,
            i as usize,
        )->0 < map.len() && rank[first_output(map, i as usize)->0 as int] < rank[i]
}

proof fn lemma_sum_fuel(
    map: Seq<Option<LatexNodeView>>,
    rank: Seq<nat>,
    next: usize,
    end: usize,
    f1: nat,
    f2: nat,
)
    requires
        chain_ranked(map, rank),
        next < map.len(),
        f1 > rank[next as int] + 1,
        f2 > rank[next as int] + 1,
    ensures
        sum_from(map, next, end, f1) == sum_from(map, next, end, f2),
    decreases rank[next as int], 3nat,
{
    lemma_fuel_beyond_rank(
        map,
        rank,
        diff_node_of(map, next),
        end,
        (f1 - 1) as nat,
        (f2 - 1) as nat,
    );
}

proof fn lemma_chain_fuel(
    map: Seq<Option<LatexNodeView>>,
    rank: Seq<nat>,
    v: Seq<DiffChain>,
    end: usize,
    f1: nat,
    f2: nat,
)
    requires
        chain_ranked(map, rank),
        v.len() > 0,
        leaf_id(v[0]) is Some,
        leaf_id(v[0])->0 < map.len(),
        f1 > rank[leaf_id(v[0])->0 as int],
        f2 > rank[leaf_id(v[0])->0 as int],
    ensures
        expand_chain_spec(map, v, end, f1) == expand_chain_spec(map, v, end, f2),
    decreases rank[leaf_id(v[0])->0 as int], 1nat,
{
    let i = leaf_id(v[0])->0;
    if i != end && first_output(map, i) is Some {
        assert(first_output(map, i as int as usize) is Some);
        lemma_sum_fuel(map, rank, first_output(map, i)->0, end, f1, f2);
    }
}

/// In a map without cycles, an expansion that is given more hops than the
/// rank of its layer is complete: any greater number of hops, and so the
/// number of nodes, gives the same chain.
pub proof fn lemma_fuel_beyond_rank(
    map: Seq<Option<LatexNodeView>>,
    rank: Seq<nat>,
    cursor: DiffChain,
    end: usize,
    f1: nat,
    f2: nat,
)
    requires
        chain_ranked(map, rank),
        leaf_id(cursor) is Some,
        leaf_id(cursor)->0 < map.len(),
        f1 > rank[leaf_id(cursor)->0 as int],
        f2 > rank[leaf_id(cursor)->0 as int],
    ensures
        expand_spec(map, cursor, end, f1) == expand_spec(map, cursor, end, f2),
    decreases rank[leaf_id(cursor)->0 as int], 2nat,
{
    let i = leaf_id(cursor)->0;
    match first_output(map, i) {
        None => {
            lemma_chain_fuel(map, rank, seq![cursor], end, f1, f2);
        },
        Some(next) => {
            assert(first_output(map, i as int as usize) is Some);
            if cursor is Weightable && diff_node_of(map, next) is Weightable {
                lemma_sum_fuel(map, rank, next, end, f1, f2);
            } else {
                lemma_chain_fuel(map, rank, seq![diff_node_of(map, next), cursor], end, f1, f2);
            }
        },
    }
}

/// No sum directly wraps another sum, anywhere in the chain.
pub open spec fn well_nested(c: DiffChain) -> bool
    decreases c,
{
    match c {
        DiffChain::Sum(inner, _) => !(*inner is Sum) && well_nested(*inner),
        DiffChain::Chain(v) => forall|k: int| 0 <= k < v.len() ==> well_nested(#[trigger] v[k]),
        _ => true,
    }
}

proof fn lemma_sum_well_nested(map: Seq<Option<LatexNodeView>>, next: usize, end: usize, fuel: nat)
    ensures
        well_nested(sum_from(map, next, end, fuel)),
    decreases fuel, 0nat,
{
    if fuel > 0 {
        lemma_expansion_well_nested(map, diff_node_of(map, next), end, (fuel - 1) as nat);
    }
}

proof fn lemma_chain_well_nested(
    map: Seq<Option<LatexNodeView>>,
    v: Seq<DiffChain>,
    end: usize,
    fuel: nat,
)
    requires
        forall|k: int| 0 <= k < v.len() ==> leaf_id(#[trigger] v[k]) is Some,
    ensures
        well_nested(expand_chain_spec(map, v, end, fuel)),
        expand_chain_spec(map, v, end, fuel) is Chain,
    decreases fuel, 1nat,
{
    let out = expand_chain_spec(map, v, end, fuel);
    let w = out->Chain_0;
    if v.len() > 0 && leaf_id(v[0])->0 != end && first_output(map, leaf_id(v[0])->0) is Some {
        let next = first_output(map, leaf_id(v[0])->0)->0;
        lemma_sum_well_nested(map, next, end, fuel);
        assert forall|k: int| 0 <= k < w.len() implies well_nested(#[trigger] w[k]) by {
            if k > 0 {
                assert(w[k] == v[k - 1]);
                assert(leaf_id(v[k - 1]) is Some);
            }
        }
    } else {
        assert forall|k: int| 0 <= k < w.len() implies well_nested(#[trigger] w[k]) by {
            assert(leaf_id(v[k]) is Some);
        }
    }
}

/// The expansion of a single layer is a chain in which no sum directly
/// wraps another sum: a sum over several axes is one sum.
pub proof fn lemma_expansion_well_nested(
    map: Seq<Option<LatexNodeView>>,
    cursor: DiffChain,
    end: usize,
    fuel: nat,
)
    requires
        leaf_id(cursor) is Some,
    ensures
        expand_spec(map, cursor, end, fuel) is Chain,
        well_nested(expand_spec(map, cursor, end, fuel)),
    decreases fuel, 2nat,
{
    let i = leaf_id(cursor)->0;
    match first_output(map, i) {
        None => {
            lemma_chain_well_nested(map, seq![cursor], end, fuel);
        },
        Some(next) => {
            if cursor is Weightable && diff_node_of(map, next) is Weightable {
                let made = seq![sum_from(map, next, end, fuel), cursor];
                lemma_sum_well_nested(map, next, end, fuel);
                assert forall|k: int| 0 <= k < made.len() implies well_nested(
                    #[trigger] made[k],
                ) by {}
            } else {
                lemma_chain_well_nested(map, seq![diff_node_of(map, next), cursor], end, fuel);
            }
        },
    }
}

} // verus!
