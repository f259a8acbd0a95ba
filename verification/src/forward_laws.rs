//! What holds of every forward pass.

use vstd::prelude::*;
use crate::engine::{
    configure_many, configure_state, eligible, fill_shape, fill_shapes, full_text, full_texts,
    node_kind, record_at, run_state, scenario_of, step_state, EngineState, ParseMode,
};
use crate::graph::{all_below, Graph};
use crate::library::SymbolLibrary;
use crate::symbol_map::LatexNodeView;

verus! {

/// The map has one slot per node, and every record has the id and the
/// kind of its node.
pub open spec fn tracks(graph: &Graph, lib: &SymbolLibrary, map: Seq<Option<LatexNodeView>>)
    -> bool {
    &&& map.len() == graph.nodes@.len()
    &&& forall|i: int|
        0 <= i < map.len() && (#[trigger] map[i]) is Some ==> map[i]->0.kind == node_kind(
            graph,
            lib,
            i,
        ) && map[i]->0.index == i
}

/// `after` has a record wherever `before` has one.
pub open spec fn keeps(before: Seq<Option<LatexNodeView>>, after: Seq<Option<LatexNodeView>>)
    -> bool {
    &&& before.len() == after.len()
    &&& forall|i: int| 0 <= i < before.len() && before[i] is Some ==> (#[trigger] after[i]) is Some
}

proof fn lemma_configure(graph: &Graph, lib: &SymbolLibrary, st: EngineState, id: int)
    requires
        0 <= id < graph.nodes@.len(),
        tracks(graph, lib, st.map),
    ensures
        tracks(graph, lib, configure_state(graph, lib, st, id).map),
        keeps(st.map, configure_state(graph, lib, st, id).map),
        configure_state(graph, lib, st, id).map[id] is Some,
{
    assert(graph.nodes@.len() == graph.nodes.len());
}

proof fn lemma_configure_many(graph: &Graph, lib: &SymbolLibrary, st: EngineState, ids: Seq<usize>)
    requires
        all_below(ids, graph.nodes@.len()),
        tracks(graph, lib, st.map),
    ensures
        tracks(graph, lib, configure_many(graph, lib, st, ids).map),
        keeps(st.map, configure_many(graph, lib, st, ids).map),
    decreases ids.len(),
{
    if ids.len() > 0 {
        let before = configure_many(graph, lib, st, ids.drop_last());
        lemma_configure_many(graph, lib, st, ids.drop_last());
        lemma_configure(graph, lib, before, ids.last() as int);
        let after = configure_many(graph, lib, st, ids).map;
        assert forall|i: int| 0 <= i < st.map.len() && st.map[i] is Some implies (
        #[trigger] after[i]) is Some by {
            assert(before.map[i] is Some);
        }
    }
}

proof fn lemma_fill_shape(
    graph: &Graph,
    lib: &SymbolLibrary,
    map: Seq<Option<LatexNodeView>>,
    id: int,
)
    requires
        0 <= id < graph.nodes@.len(),
        tracks(graph, lib, map),
    ensures
        tracks(graph, lib, fill_shape(graph, map, id)),
        keeps(map, fill_shape(graph, map, id)),
{
}

proof fn lemma_fill_shapes(
    graph: &Graph,
    lib: &SymbolLibrary,
    map: Seq<Option<LatexNodeView>>,
    ids: Seq<usize>,
)
    requires
        all_below(ids, graph.nodes@.len()),
        tracks(graph, lib, map),
    ensures
        tracks(graph, lib, fill_shapes(graph, map, ids)),
        keeps(map, fill_shapes(graph, map, ids)),
    decreases ids.len(),
{
    if ids.len() > 0 {
        let before = fill_shapes(graph, map, ids.drop_last());
        lemma_fill_shapes(graph, lib, map, ids.drop_last());
        lemma_fill_shape(graph, lib, before, ids.last() as int);
        let after = fill_shapes(graph, map, ids);
        assert forall|i: int| 0 <= i < map.len() && map[i] is Some implies (#[trigger] after[i])
            is Some by {
            assert(before[i] is Some);
        }
    }
}

proof fn lemma_step(graph: &Graph, lib: &SymbolLibrary, mode: ParseMode, st: EngineState, n: int)
    requires
        graph.valid(),
        0 <= n < graph.nodes@.len(),
        tracks(graph, lib, st.map),
    ensures
        tracks(graph, lib, step_state(graph, lib, mode, st, n).map),
        keeps(st.map, step_state(graph, lib, mode, st, n).map),
        step_state(graph, lib, mode, st, n).map[n] is Some,
        step_state(graph, lib, mode, st, n).map[n]->0.kind == node_kind(graph, lib, n),
{
    let node = graph.nodes@[n];
    assert(graph.node_valid(n));
    let s1 = configure_state(graph, lib, st, n);
    lemma_configure(graph, lib, st, n);
    let s2 = configure_many(graph, lib, s1, node.inputs@);
    lemma_configure_many(graph, lib, s1, node.inputs@);
    let m3 = fill_shapes(graph, s2.map, node.inputs@);
    lemma_fill_shapes(graph, lib, s2.map, node.inputs@);
    assert(s1.map[n] is Some);
    assert(s2.map[n] is Some);
    assert(m3[n] is Some);
    assert(record_at(m3, n).kind == node_kind(graph, lib, n));
    let after = step_state(graph, lib, mode, st, n).map;
    assert forall|i: int| 0 <= i < st.map.len() && st.map[i] is Some implies (#[trigger] after[i])
        is Some by {
        assert(s1.map[i] is Some);
        assert(s2.map[i] is Some);
        assert(m3[i] is Some);
    }
    assert forall|i: int| 0 <= i < after.len() && (#[trigger] after[i]) is Some implies after[i]->0.kind
        == node_kind(graph, lib, i) && after[i]->0.index == i by {
        if i != n {
            assert(after[i] == m3[i]);
        }
    }
}

proof fn lemma_run(graph: &Graph, lib: &SymbolLibrary, mode: ParseMode, k: nat)
    requires
        graph.valid(),
        k <= graph.order@.len(),
    ensures
        tracks(graph, lib, run_state(graph, lib, mode, k).map),
        forall|j: int|
            0 <= j < k ==> (#[trigger] run_state(graph, lib, mode, k).map[graph.order@[j] as int])
                is Some,
    decreases k,
{
    if k > 0 {
        let before = run_state(graph, lib, mode, (k - 1) as nat);
        let n = graph.order@[k - 1] as int;
        lemma_run(graph, lib, mode, (k - 1) as nat);
        lemma_step(graph, lib, mode, before, n);
        let after = run_state(graph, lib, mode, k).map;
        assert forall|j: int| 0 <= j < k implies (#[trigger] after[graph.order@[j] as int])
            is Some by {
            if j < k - 1 {
                assert(before.map[graph.order@[j] as int] is Some);
            }
        }
    }
}

/// After a pass over a graph whose order visits every node, every node has
/// a record, and the record has the id and the kind of the node.
pub proof fn lemma_every_node_has_a_record(
    graph: &Graph,
    lib: &SymbolLibrary,
    mode: ParseMode,
    n: usize,
)
    requires
        graph.valid(),
        graph.covering(),
        n < graph.nodes@.len(),
    ensures
        run_state(graph, lib, mode, graph.order@.len()).map[n as int] is Some,
        run_state(graph, lib, mode, graph.order@.len()).map[n as int]->0.kind == node_kind(
            graph,
            lib,
            n as int,
        ),
        run_state(graph, lib, mode, graph.order@.len()).map[n as int]->0.index == n,
        run_state(graph, lib, mode, graph.order@.len()).map.len() == graph.nodes@.len(),
{
    lemma_run(graph, lib, mode, graph.order@.len());
    assert(graph.order@.contains(n));
    let j = choose|j: int| 0 <= j < graph.order@.len() && graph.order@[j] == n;
    assert(run_state(graph, lib, mode, graph.order@.len()).map[graph.order@[j] as int] is Some);
}

/// The positions in the order of the first `k` nodes at which the entries
/// of the scenario stand: one for each entry, each before `k`, and each
/// behind the one before it.
pub proof fn lemma_scenario_follows_the_order(graph: &Graph, lib: &SymbolLibrary, k: nat) -> (at:
    Seq<int>)
    requires
        k <= graph.order@.len(),
    ensures
        at.len() == scenario_of(graph, lib, k).len(),
        forall|a: int|
            0 <= a < at.len() ==> 0 <= #[trigger] at[a] < k && graph.order@[at[a]] == scenario_of(
                graph,
                lib,
                k,
            )[a] && eligible(node_kind(graph, lib, graph.order@[at[a]] as int)),
        forall|a: int, b: int| 0 <= a < b < at.len() ==> at[a] < at[b],
    decreases k,
{
    if k == 0 {
        Seq::empty()
    } else {
        let before = lemma_scenario_follows_the_order(graph, lib, (k - 1) as nat);
        if eligible(node_kind(graph, lib, graph.order@[k - 1] as int)) {
            before.push(k - 1)
        } else {
            before
        }
    }
}

/// After a pass, every entry of the scenario has a record whose kind is
/// activation, function or convolution.
pub proof fn lemma_scenario_kinds(graph: &Graph, lib: &SymbolLibrary, mode: ParseMode, a: int)
    requires
        graph.valid(),
        0 <= a < scenario_of(graph, lib, graph.order@.len()).len(),
    ensures
        ({
            let map = run_state(graph, lib, mode, graph.order@.len()).map;
            let s = scenario_of(graph, lib, graph.order@.len())[a];
            s < map.len() && map[s as int] is Some && eligible(map[s as int]->0.kind)
        }),
{
    let k = graph.order@.len();
    let at = lemma_scenario_follows_the_order(graph, lib, k);
    lemma_run(graph, lib, mode, k);
    let j = at[a];
    assert(run_state(graph, lib, mode, k).map[graph.order@[j] as int] is Some);
}

/// Configuring a node a second time changes nothing.
pub proof fn lemma_configure_twice(graph: &Graph, lib: &SymbolLibrary, st: EngineState, id: int)
    requires
        0 <= id < st.map.len(),
    ensures
        configure_state(graph, lib, configure_state(graph, lib, st, id), id) == configure_state(
            graph,
            lib,
            st,
            id,
        ),
{
}

/// Expanded to depth 0, every node is written as its symbol alone.
pub proof fn lemma_depth_zero(
    graph: &Graph,
    lib: &SymbolLibrary,
    map: Seq<Option<LatexNodeView>>,
    n: int,
)
    ensures
        full_text(graph, lib, map, n, 0) == record_at(map, n).symbol,
{
}

/// Every node has a rank below the number of nodes and above the ranks of
/// its inputs. A graph has such ranks exactly when it has no cycle.
pub open spec fn ranked(graph: &Graph, rank: Seq<nat>) -> bool {
    &&& rank.len() == graph.nodes@.len()
    &&& forall|n: int| 0 <= n < rank.len() ==> #[trigger] rank[n] < graph.nodes@.len()
    &&& forall|n: int, j: int|
        0 <= n < rank.len() && 0 <= j < graph.nodes@[n].inputs@.len() ==> rank[(
        #[trigger] graph.nodes@[n].inputs@[j]) as int] < rank[n]
}

/// In a graph without cycles, a formula that is expanded deeper than the
/// rank of its node is expanded in full: any greater depth, and so the
/// number of nodes, gives the same formula.
pub proof fn lemma_depth_beyond_rank(
    graph: &Graph,
    lib: &SymbolLibrary,
    map: Seq<Option<LatexNodeView>>,
    rank: Seq<nat>,
    n: int,
    d1: nat,
    d2: nat,
)
    requires
        graph.valid(),
        ranked(graph, rank),
        0 <= n < graph.nodes@.len(),
        d1 > rank[n],
        d2 > rank[n],
    ensures
        full_text(graph, lib, map, n, d1) == full_text(graph, lib, map, n, d2),
    decreases rank[n],
{
    let inputs = graph.nodes@[n].inputs@;
    assert(graph.node_valid(n));
    if inputs.len() > 0 {
        let a = full_texts(graph, lib, map, inputs, (d1 - 1) as nat);
        let b = full_texts(graph, lib, map, inputs, (d2 - 1) as nat);
        assert forall|j: int| 0 <= j < inputs.len() implies a[j] == b[j] by {
            assert(rank[inputs[j] as int] < rank[n]);
            lemma_depth_beyond_rank(
                graph,
                lib,
                map,
                rank,
                inputs[j] as int,
                (d1 - 1) as nat,
                (d2 - 1) as nat,
            );
        }
        assert(a =~= b);
    }
}

/// In a pass that expands to depth 0, the forward formula of a visited node
/// is its symbol.
pub proof fn lemma_depth_zero_visit(graph: &Graph, lib: &SymbolLibrary, st: EngineState, n: int)
    requires
        graph.valid(),
        0 <= n < graph.nodes@.len(),
        st.map.len() == graph.nodes@.len(),
    ensures
        ({
            let after = step_state(graph, lib, ParseMode::Full(Some(0)), st, n).map;
            after[n] is Some && after[n]->0.forward_value == after[n]->0.symbol
        }),
{
    lemma_lengths(graph, lib, st, n);
}

/// Configuring nodes keeps the map's length and every record's place.
pub proof fn lemma_keeps_many(graph: &Graph, lib: &SymbolLibrary, st: EngineState, ids: Seq<usize>)
    requires
        all_below(ids, st.map.len()),
    ensures
        keeps(st.map, configure_many(graph, lib, st, ids).map),
    decreases ids.len(),
{
    if ids.len() > 0 {
        lemma_keeps_many(graph, lib, st, ids.drop_last());
        let before = configure_many(graph, lib, st, ids.drop_last());
        let after = configure_many(graph, lib, st, ids).map;
        assert forall|i: int| 0 <= i < st.map.len() && st.map[i] is Some implies (
        #[trigger] after[i]) is Some by {
            assert(before.map[i] is Some);
        }
    }
}

proof fn lemma_many_length(graph: &Graph, lib: &SymbolLibrary, st: EngineState, ids: Seq<usize>)
    requires
        all_below(ids, st.map.len()),
    ensures
        configure_many(graph, lib, st, ids).map.len() == st.map.len(),
    decreases ids.len(),
{
    if ids.len() > 0 {
        lemma_many_length(graph, lib, st, ids.drop_last());
    }
}

proof fn lemma_fill_length(graph: &Graph, map: Seq<Option<LatexNodeView>>, ids: Seq<usize>)
    requires
        all_below(ids, map.len()),
    ensures
        fill_shapes(graph, map, ids).len() == map.len(),
    decreases ids.len(),
{
    if ids.len() > 0 {
        lemma_fill_length(graph, map, ids.drop_last());
    }
}

proof fn lemma_lengths(graph: &Graph, lib: &SymbolLibrary, st: EngineState, n: int)
    requires
        graph.valid(),
        0 <= n < graph.nodes@.len(),
        st.map.len() == graph.nodes@.len(),
    ensures
        ({
            let node = graph.nodes@[n];
            let s2 = configure_many(graph, lib, configure_state(graph, lib, st, n), node.inputs@);
            fill_shapes(graph, s2.map, node.inputs@).len() == st.map.len()
        }),
{
    let node = graph.nodes@[n];
    assert(graph.node_valid(n));
    let s1 = configure_state(graph, lib, st, n);
    lemma_many_length(graph, lib, s1, node.inputs@);
    let s2 = configure_many(graph, lib, s1, node.inputs@);
    lemma_fill_length(graph, s2.map, node.inputs@);
}

} // verus!
