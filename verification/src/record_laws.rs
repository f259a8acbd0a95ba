//! What the record of a visited node holds after a forward pass.

use vstd::prelude::*;
use crate::engine::{
    configure_many, configure_state, fill_shape, fill_shapes, node_extra, node_kind, record_at,
    run_state, shaped_record, step_state, symbols_of, EngineState, ParseMode,
};
use crate::graph::{all_below, Graph};
use crate::kind::FormulKind;
use crate::library::SymbolLibrary;
use crate::ops::MathGen;
use crate::symbol_map::LatexNodeView;

verus! {

/// What configuring gives the record of node `i`: its id, kind, qualifier,
/// operator key and consumers. Its output shape is the node's, or not yet
/// known.
pub open spec fn configured_as(graph: &Graph, lib: &SymbolLibrary, r: LatexNodeView, i: int)
    -> bool {
    &&& r.index == i
    &&& r.kind == node_kind(graph, lib, i)
    &&& r.extra_symbol == node_extra(graph, lib, i)
    &&& r.op_name == graph.nodes@[i].op.key()
    &&& r.outputs == graph.nodes@[i].successors@
    &&& (r.output_shape.len() == 0 || r.output_shape == graph.nodes@[i].output_shape@)
}

/// The shape that a convolution refers to: the output shape of its first
/// input. Any other node refers to none.
pub open spec fn shape_ref_of(graph: &Graph, lib: &SymbolLibrary, i: int) -> Option<Seq<usize>> {
    let node = graph.nodes@[i];
    if node_kind(graph, lib, i) == FormulKind::Cnn && node.inputs@.len() > 0 {
        Some(graph.nodes@[node.inputs@[0] as int].output_shape@)
    } else {
        None
    }
}

/// What a visit gives the record of node `i`: the node's inputs and output
/// shape, the shape it refers to, a record for every input and, in brief
/// mode, the operator's formula over the inputs' symbols.
pub open spec fn visited_as(
    graph: &Graph,
    lib: &SymbolLibrary,
    mode: ParseMode,
    map: Seq<Option<LatexNodeView>>,
    i: int,
) -> bool {
    let node = graph.nodes@[i];
    &&& map[i] is Some
    &&& map[i]->0.inputs == node.inputs@
    &&& map[i]->0.output_shape == node.output_shape@
    &&& map[i]->0.input_shape_ref == shape_ref_of(graph, lib, i)
    &&& forall|j: int| 0 <= j < node.inputs@.len() ==> (#[trigger] map[node.inputs@[j] as int])
        is Some
    &&& (mode is Brief ==> map[i]->0.forward_value == node.op.forward_text(
        lib,
        symbols_of(map, node.inputs@),
    ))
}

/// The map of a pass in which the nodes `done` were visited.
pub open spec fn pass_map(
    graph: &Graph,
    lib: &SymbolLibrary,
    mode: ParseMode,
    map: Seq<Option<LatexNodeView>>,
    done: Set<int>,
) -> bool {
    &&& map.len() == graph.nodes@.len()
    &&& forall|i: int|
        0 <= i < map.len() && (#[trigger] map[i]) is Some ==> configured_as(
            graph,
            lib,
            map[i]->0,
            i,
        )
    &&& forall|i: int|
        #[trigger] done.contains(i) ==> 0 <= i < map.len() && visited_as(graph, lib, mode, map, i)
}

/// `b` has every record of `a`, unchanged but for an output shape that was
/// not known in `a` and is the node's in `b`.
pub open spec fn grows(graph: &Graph, a: Seq<Option<LatexNodeView>>, b: Seq<Option<LatexNodeView>>)
    -> bool {
    &&& a.len() == b.len()
    &&& forall|i: int|
        0 <= i < a.len() && (#[trigger] a[i]) is Some ==> b[i] is Some && (b[i] == a[i] || (
        a[i]->0.output_shape.len() == 0 && b[i]->0 == (LatexNodeView {
            output_shape: graph.nodes@[i].output_shape@,
            ..a[i]->0
        })))
}

proof fn lemma_grows_keeps_pass(
    graph: &Graph,
    lib: &SymbolLibrary,
    mode: ParseMode,
    a: Seq<Option<LatexNodeView>>,
    b: Seq<Option<LatexNodeView>>,
    done: Set<int>,
)
    requires
        graph.valid(),
        pass_map(graph, lib, mode, a, done),
        grows(graph, a, b),
        forall|i: int|
            0 <= i < b.len() && (#[trigger] b[i]) is Some ==> configured_as(graph, lib, b[i]->0, i),
    ensures
        pass_map(graph, lib, mode, b, done),
{
    assert forall|i: int| #[trigger] done.contains(i) implies 0 <= i < b.len() && visited_as(
        graph,
        lib,
        mode,
        b,
        i,
    ) by {
        let node = graph.nodes@[i];
        assert(visited_as(graph, lib, mode, a, i));
        assert(a[i] is Some);
        assert(b[i] == a[i]);
        assert(graph.node_valid(i));
        assert forall|j: int| 0 <= j < node.inputs@.len() implies (#[trigger] b[node.inputs@[j] as int])
            is Some && record_at(b, node.inputs@[j] as int).symbol == record_at(
            a,
            node.inputs@[j] as int,
        ).symbol by {
            assert(a[node.inputs@[j] as int] is Some);
        }
        assert(symbols_of(b, node.inputs@) =~= symbols_of(a, node.inputs@));
    }
}

proof fn lemma_grows_chain(
    graph: &Graph,
    a: Seq<Option<LatexNodeView>>,
    b: Seq<Option<LatexNodeView>>,
    c: Seq<Option<LatexNodeView>>,
)
    requires
        grows(graph, a, b),
        grows(graph, b, c),
    ensures
        grows(graph, a, c),
{
    assert forall|i: int| 0 <= i < a.len() && (#[trigger] a[i]) is Some implies c[i] is Some && (c[i]
        == a[i] || (a[i]->0.output_shape.len() == 0 && c[i]->0 == (LatexNodeView {
        output_shape: graph.nodes@[i].output_shape@,
        ..a[i]->0
    }))) by {
        assert(b[i] is Some);
    }
}

/// All records of the map are as configuring made them.
pub open spec fn all_configured(
    graph: &Graph,
    lib: &SymbolLibrary,
    map: Seq<Option<LatexNodeView>>,
) -> bool {
    &&& map.len() == graph.nodes@.len()
    &&& forall|i: int|
        0 <= i < map.len() && (#[trigger] map[i]) is Some ==> configured_as(
            graph,
            lib,
            map[i]->0,
            i,
        )
}

proof fn lemma_configure_grows(graph: &Graph, lib: &SymbolLibrary, st: EngineState, id: int)
    requires
        0 <= id < graph.nodes@.len(),
        all_configured(graph, lib, st.map),
    ensures
        all_configured(graph, lib, configure_state(graph, lib, st, id).map),
        grows(graph, st.map, configure_state(graph, lib, st, id).map),
        configure_state(graph, lib, st, id).map[id] is Some,
{
    assert(graph.nodes@.len() == graph.nodes.len());
}

proof fn lemma_many_grows(graph: &Graph, lib: &SymbolLibrary, st: EngineState, ids: Seq<usize>)
    requires
        all_below(ids, graph.nodes@.len()),
        all_configured(graph, lib, st.map),
    ensures
        all_configured(graph, lib, configure_many(graph, lib, st, ids).map),
        grows(graph, st.map, configure_many(graph, lib, st, ids).map),
        forall|j: int|
            0 <= j < ids.len() ==> (#[trigger] configure_many(graph, lib, st, ids).map[ids[j] as int])
                is Some,
    decreases ids.len(),
{
    if ids.len() > 0 {
        let before = configure_many(graph, lib, st, ids.drop_last());
        let after = configure_many(graph, lib, st, ids).map;
        lemma_many_grows(graph, lib, st, ids.drop_last());
        lemma_configure_grows(graph, lib, before, ids.last() as int);
        lemma_grows_chain(graph, st.map, before.map, after);
        assert forall|j: int| 0 <= j < ids.len() implies (#[trigger] after[ids[j] as int])
            is Some by {
            if j < ids.len() - 1 {
                assert(ids.drop_last()[j] == ids[j]);
                assert(before.map[ids[j] as int] is Some);
            }
        }
    } else {
        assert(grows(graph, st.map, st.map));
    }
}

proof fn lemma_fill_grows(
    graph: &Graph,
    lib: &SymbolLibrary,
    map: Seq<Option<LatexNodeView>>,
    ids: Seq<usize>,
)
    requires
        all_below(ids, graph.nodes@.len()),
        all_configured(graph, lib, map),
    ensures
        all_configured(graph, lib, fill_shapes(graph, map, ids)),
        grows(graph, map, fill_shapes(graph, map, ids)),
        forall|j: int|
            0 <= j < ids.len() && map[ids[j] as int] is Some ==> (#[trigger] fill_shapes(
                graph,
                map,
                ids,
            )[ids[j] as int])->0.output_shape == graph.nodes@[ids[j] as int].output_shape@,
    decreases ids.len(),
{
    if ids.len() > 0 {
        let before = fill_shapes(graph, map, ids.drop_last());
        let after = fill_shapes(graph, map, ids);
        let last = ids.last() as int;
        lemma_fill_grows(graph, lib, map, ids.drop_last());
        assert(after == fill_shape(graph, before, last));
        assert(grows(graph, before, after));
        lemma_grows_chain(graph, map, before, after);
        assert forall|j: int| 0 <= j < ids.len() && map[ids[j] as int] is Some implies (
        #[trigger] after[ids[j] as int])->0.output_shape == graph.nodes@[ids[j] as int].output_shape@ by {
            let id = ids[j] as int;
            assert(before[id] is Some);
            if id != last {
                assert(ids.drop_last()[j] == ids[j]);
                assert(after[id] == before[id]);
            }
        }
    } else {
        assert(grows(graph, map, map));
    }
}

proof fn lemma_step_pass(
    graph: &Graph,
    lib: &SymbolLibrary,
    mode: ParseMode,
    st: EngineState,
    n: int,
    done: Set<int>,
)
    requires
        graph.valid(),
        0 <= n < graph.nodes@.len(),
        pass_map(graph, lib, mode, st.map, done),
    ensures
        pass_map(graph, lib, mode, step_state(graph, lib, mode, st, n).map, done.insert(n)),
{
    let node = graph.nodes@[n];
    assert(graph.node_valid(n));
    let s1 = configure_state(graph, lib, st, n);
    lemma_configure_grows(graph, lib, st, n);
    let s2 = configure_many(graph, lib, s1, node.inputs@);
    lemma_many_grows(graph, lib, s1, node.inputs@);
    let m3 = fill_shapes(graph, s2.map, node.inputs@);
    lemma_fill_grows(graph, lib, s2.map, node.inputs@);
    lemma_grows_chain(graph, st.map, s1.map, s2.map);
    lemma_grows_chain(graph, st.map, s2.map, m3);
    lemma_grows_keeps_pass(graph, lib, mode, st.map, m3, done);
    let after = step_state(graph, lib, mode, st, n).map;
    let shaped = shaped_record(graph, m3, n);
    let m4 = m3.update(n, Some(shaped));
    assert(s2.map[n] is Some);
    assert(m3[n] is Some);
    assert(record_at(m3, n) == m3[n]->0);
    assert forall|j: int| 0 <= j < node.inputs@.len() implies (#[trigger] after[node.inputs@[j] as int])
        is Some by {
        assert(s2.map[node.inputs@[j] as int] is Some);
        assert(m3[node.inputs@[j] as int] is Some);
    }
    if node.inputs@.len() > 0 {
        assert(s2.map[node.inputs@[0] as int] is Some);
        assert(m3[node.inputs@[0] as int]->0.output_shape == graph.nodes@[node.inputs@[0] as int].output_shape@);
    }
    assert(symbols_of(after, node.inputs@) =~= symbols_of(m4, node.inputs@));
    assert(visited_as(graph, lib, mode, after, n));
    assert forall|i: int| #[trigger] done.insert(n).contains(i) implies 0 <= i < after.len()
        && visited_as(graph, lib, mode, after, i) by {
        if i != n {
            assert(done.contains(i));
            assert(visited_as(graph, lib, mode, m3, i));
            assert(after[i] == m3[i]);
            let other = graph.nodes@[i];
            assert(graph.node_valid(i));
            assert(after[n]->0.symbol == m3[n]->0.symbol);
            assert forall|j: int| 0 <= j < other.inputs@.len() implies (
            #[trigger] after[other.inputs@[j] as int]) is Some && record_at(
                after,
                other.inputs@[j] as int,
            ).symbol == record_at(m3, other.inputs@[j] as int).symbol by {
                assert(m3[other.inputs@[j] as int] is Some);
            }
            assert(symbols_of(after, other.inputs@) =~= symbols_of(m3, other.inputs@));
        }
    }
}

/// The nodes at the first `k` places of the order.
pub open spec fn visited(graph: &Graph, k: nat) -> Set<int> {
    Set::new(|i: int| exists|j: int| 0 <= j < k && graph.order@[j] == i)
}

proof fn lemma_run_pass(graph: &Graph, lib: &SymbolLibrary, mode: ParseMode, k: nat)
    requires
        graph.valid(),
        k <= graph.order@.len(),
    ensures
        pass_map(graph, lib, mode, run_state(graph, lib, mode, k).map, visited(graph, k)),
    decreases k,
{
    if k > 0 {
        let n = graph.order@[k - 1] as int;
        lemma_run_pass(graph, lib, mode, (k - 1) as nat);
        lemma_step_pass(
            graph,
            lib,
            mode,
            run_state(graph, lib, mode, (k - 1) as nat),
            n,
            visited(graph, (k - 1) as nat),
        );
        let before = visited(graph, (k - 1) as nat).insert(n);
        let after = run_state(graph, lib, mode, k).map;
        assert forall|i: int| #[trigger] visited(graph, k).contains(i) implies before.contains(
            i,
        ) by {
            let j = choose|j: int| 0 <= j < k && graph.order@[j] == i;
            if j < k - 1 {
                assert(visited(graph, (k - 1) as nat).contains(i));
            }
        }
        assert forall|i: int| #[trigger] visited(graph, k).contains(i) implies 0 <= i
            < after.len() && visited_as(graph, lib, mode, after, i) by {
            assert(before.contains(i));
        }
    }
}

/// After a pass, the record of every node of the order holds the node's
/// id, kind, qualifier, operator key, consumers, inputs and output shape,
/// and the output shape of its first input where it is a convolution;
/// every input of it has a record; and in brief mode its forward formula
/// is its operator's formula over the symbols of its inputs.
pub proof fn lemma_visited_record(graph: &Graph, lib: &SymbolLibrary, mode: ParseMode, j: int)
    requires
        graph.valid(),
        0 <= j < graph.order@.len(),
    ensures
        ({
            let map = run_state(graph, lib, mode, graph.order@.len()).map;
            let n = graph.order@[j] as int;
            &&& visited_as(graph, lib, mode, map, n)
            &&& configured_as(graph, lib, map[n]->0, n)
        }),
{
    lemma_run_pass(graph, lib, mode, graph.order@.len());
    assert(visited(graph, graph.order@.len()).contains(graph.order@[j] as int));
}

} // verus!
