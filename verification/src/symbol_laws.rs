//! Symbols of counted kinds are unique.

use vstd::prelude::*;
use crate::engine::{
    configure_many, configure_state, fill_shape, fill_shapes, fresh_record, handed, node_kind,
    record_at, run_state, step_state, EngineState, ParseMode,
};
use crate::graph::{all_below, Graph};
use crate::kind::{symbol_text, FormulKind};
use crate::library::SymbolLibrary;
use crate::symbol_map::LatexNodeView;
use crate::text::{decimal, digit_char};

verus! {

/// The kinds whose symbols carry the number of a counter.
pub open spec fn counted(kind: FormulKind) -> bool {
    kind == FormulKind::Activation || kind == FormulKind::Function || kind == FormulKind::Cnn
        || kind == FormulKind::Weight || kind == FormulKind::Bias
}

/// Two kinds share a counter.
pub open spec fn same_counter(a: FormulKind, b: FormulKind) -> bool {
    a == b || (a == FormulKind::Function && b == FormulKind::Cnn) || (a == FormulKind::Cnn && b
        == FormulKind::Function)
}

pub open spec fn is_digit_char(c: char) -> bool {
    c == '0' || c == '1' || c == '2' || c == '3' || c == '4' || c == '5' || c == '6' || c == '7'
        || c == '8' || c == '9'
}

/// A numeral is not empty and holds digits only.
pub proof fn lemma_decimal_digits(n: nat)
    ensures
        decimal(n).len() >= 1,
        n >= 10 ==> decimal(n).len() >= 2,
        forall|i: int| 0 <= i < decimal(n).len() ==> is_digit_char(#[trigger] decimal(n)[i]),
    decreases n,
{
    if n >= 10 {
        lemma_decimal_digits(n / 10);
    }
}

/// Different numbers have different numerals.
pub proof fn lemma_decimal_injective(a: nat, b: nat)
    requires
        decimal(a) == decimal(b),
    ensures
        a == b,
    decreases a,
{
    lemma_decimal_digits(a);
    lemma_decimal_digits(b);
    if a < 10 || b < 10 {
        assert(decimal(a).len() == decimal(b).len());
        assert(a < 10 && b < 10);
        assert(decimal(a)[0] == digit_char(a));
        assert(decimal(b)[0] == digit_char(b));
    } else {
        let x = decimal(a / 10).push(digit_char(a % 10));
        let y = decimal(b / 10).push(digit_char(b % 10));
        assert(x == y);
        assert(x.drop_last() =~= decimal(a / 10));
        assert(y.drop_last() =~= decimal(b / 10));
        assert(x.last() == digit_char(a % 10));
        assert(y.last() == digit_char(b % 10));
        lemma_decimal_injective(a / 10, b / 10);
    }
}

/// The shape of the symbol of a counted kind.
proof fn lemma_counted_symbol(e: Option<Seq<char>>, k: FormulKind, c: nat)
    requires
        counted(k),
    ensures
        ({
            let s = symbol_text(e, k, c);
            let d = decimal(c);
            &&& (k == FormulKind::Activation ==> s.len() == 2 + d.len() && s[0] == 'h' && s[1]
                == '_' && s.subrange(2, s.len() as int) == d)
            &&& (k == FormulKind::Function || k == FormulKind::Cnn ==> s.len() == 2 + d.len()
                && s[0] == 'f' && s[1] == '_' && s.subrange(2, s.len() as int) == d)
            &&& (k == FormulKind::Weight ==> s.len() == 13 + d.len() && s[0] == '\\' && s[10]
                == 'W' && s.last() == '}' && s.subrange(12, s.len() - 1) == d)
            &&& (k == FormulKind::Bias ==> s.len() == 13 + d.len() && s[0] == '\\' && s[10] == 'B'
                && s.last() == '}' && s.subrange(12, s.len() - 1) == d)
        }),
{
    reveal_strlit("h_");
    reveal_strlit("f_");
    reveal_strlit("\\overline{W_");
    reveal_strlit("\\overline{B_");
    reveal_strlit("}");
    let s = symbol_text(e, k, c);
    let d = decimal(c);
    lemma_decimal_digits(c);
    if k == FormulKind::Activation {
        assert(s.subrange(2, s.len() as int) =~= d);
    } else if k == FormulKind::Function || k == FormulKind::Cnn {
        assert(s.subrange(2, s.len() as int) =~= d);
    } else if k == FormulKind::Weight {
        assert(s.subrange(12, s.len() - 1) =~= d);
    } else {
        assert(s.subrange(12, s.len() - 1) =~= d);
    }
}

/// The shape of the symbol of a kind without a counter.
proof fn lemma_uncounted_symbol(e: Option<Seq<char>>, k: FormulKind)
    requires
        !counted(k),
    ensures
        ({
            let s = symbol_text(e, k, 0);
            ||| s.len() == 0
            ||| s[0] == 'M'
            ||| s[0] == 'S'
            ||| s[0] == 'U'
            ||| (s.len() == 16 && s[0] == '\\' && s[10] == 'I')
            ||| (s.len() >= 2 && s[s.len() - 1] == '0' && s[s.len() - 2] == '_')
        }),
{
    reveal_strlit("\\overline{Input}");
    reveal_strlit("MaxPool_");
    reveal_strlit("SumPool_");
    reveal_strlit("Undefined");
    reveal_strlit("_");
    let s = symbol_text(e, k, 0);
    assert(decimal(0) =~= seq!['0']);
    match k {
        FormulKind::Base | FormulKind::Not | FormulKind::Const => {
            match e {
                Some(t) => {
                    assert(s =~= t + seq!['_'] + seq!['0']);
                    assert(s[s.len() - 1] == '0');
                    assert(s[s.len() - 2] == '_');
                },
                None => {},
            }
        },
        _ => {},
    }
}

/// The symbol of a counted kind with a number from 1 on differs from the
/// symbol of any kind without a counter, and from the symbol of any counted
/// kind that does not carry the same number of the same counter.
pub proof fn lemma_symbols_differ(
    e1: Option<Seq<char>>,
    k1: FormulKind,
    c1: nat,
    e2: Option<Seq<char>>,
    k2: FormulKind,
    c2: nat,
)
    requires
        counted(k1),
        c1 >= 1,
        counted(k2) ==> !(same_counter(k1, k2) && c1 == c2),
        !counted(k2) ==> c2 == 0,
    ensures
        symbol_text(e1, k1, c1) != symbol_text(e2, k2, c2),
{
    let s1 = symbol_text(e1, k1, c1);
    let s2 = symbol_text(e2, k2, c2);
    let d1 = decimal(c1);
    lemma_counted_symbol(e1, k1, c1);
    lemma_decimal_digits(c1);
    if s1 == s2 {
        if counted(k2) {
            lemma_counted_symbol(e2, k2, c2);
            lemma_decimal_digits(c2);
            assert(same_counter(k1, k2));
            assert(decimal(c1) == decimal(c2));
            lemma_decimal_injective(c1, c2);
        } else {
            lemma_uncounted_symbol(e2, k2);
            if s2.len() >= 2 && s2[s2.len() - 1] == '0' && s2[s2.len() - 2] == '_' && (k1
                == FormulKind::Activation || k1 == FormulKind::Function || k1
                == FormulKind::Cnn) {
                assert(s1.subrange(2, s1.len() as int) == d1);
                assert(d1[d1.len() - 1] == s1[s1.len() - 1]);
                if d1.len() >= 2 {
                    assert(d1[d1.len() - 2] == s1[s1.len() - 2]);
                    assert(is_digit_char(d1[d1.len() - 2]));
                } else {
                    assert(d1 =~= seq!['0']);
                    assert(decimal(0) =~= seq!['0']);
                    lemma_decimal_injective(c1, 0);
                }
            }
        }
    }
}

/// The count that the counter of `kind` has reached.
pub open spec fn counter_of(st: EngineState, kind: FormulKind) -> nat {
    match kind {
        FormulKind::Activation => st.activation,
        FormulKind::Function | FormulKind::Cnn => st.formul,
        FormulKind::Bias => st.bias,
        FormulKind::Weight => st.weight,
        _ => 0,
    }
}

/// The record's symbol is the symbol of its kind with the number `c`, which
/// its counter has reached; a counted kind's number is 1 or more.
pub open spec fn numbered(st: EngineState, r: LatexNodeView, c: nat) -> bool {
    &&& r.symbol == symbol_text(r.extra_symbol, r.kind, c)
    &&& c <= counter_of(st, r.kind)
    &&& (counted(r.kind) ==> c >= 1)
}

/// Every record carries a number of its counter.
pub open spec fn labelled(st: EngineState) -> bool {
    forall|i: int|
        0 <= i < st.map.len() && (#[trigger] st.map[i]) is Some ==> exists|c: nat|
            numbered(st, st.map[i]->0, c)
}

/// No record shares its symbol with a record of a counted kind.
pub open spec fn distinct(map: Seq<Option<LatexNodeView>>) -> bool {
    forall|i: int, j: int|
        0 <= i < map.len() && 0 <= j < map.len() && i != j && (#[trigger] map[i]) is Some && (
        #[trigger] map[j]) is Some && counted(map[i]->0.kind) ==> map[i]->0.symbol
            != map[j]->0.symbol
}

/// The two maps have records at the same places, with the same symbols,
/// qualifiers and kinds.
pub open spec fn same_labels(a: Seq<Option<LatexNodeView>>, b: Seq<Option<LatexNodeView>>)
    -> bool {
    &&& a.len() == b.len()
    &&& forall|i: int|
        0 <= i < a.len() ==> ((#[trigger] a[i]) is Some <==> (#[trigger] b[i]) is Some) && (a[i]
            is Some ==> a[i]->0.symbol == b[i]->0.symbol && a[i]->0.extra_symbol
            == b[i]->0.extra_symbol && a[i]->0.kind == b[i]->0.kind)
}

proof fn lemma_transfer(st: EngineState, map: Seq<Option<LatexNodeView>>)
    requires
        same_labels(st.map, map),
        labelled(st),
        distinct(st.map),
    ensures
        labelled(EngineState { map: map, ..st }),
        distinct(map),
{
    let after = EngineState { map: map, ..st };
    assert forall|i: int| 0 <= i < map.len() && (#[trigger] map[i]) is Some implies exists|c: nat|
        numbered(after, map[i]->0, c) by {
        assert(st.map[i] is Some);
        let c = choose|c: nat| numbered(st, st.map[i]->0, c);
        assert(numbered(after, map[i]->0, c));
    }
    assert forall|i: int, j: int|
        0 <= i < map.len() && 0 <= j < map.len() && i != j && (#[trigger] map[i]) is Some && (
        #[trigger] map[j]) is Some && counted(map[i]->0.kind) implies map[i]->0.symbol
        != map[j]->0.symbol by {
        assert(st.map[i] is Some && st.map[j] is Some);
    }
}

proof fn lemma_unique_configure(graph: &Graph, lib: &SymbolLibrary, st: EngineState, id: int)
    requires
        0 <= id < st.map.len(),
        labelled(st),
        distinct(st.map),
    ensures
        labelled(configure_state(graph, lib, st, id)),
        distinct(configure_state(graph, lib, st, id).map),
        configure_state(graph, lib, st, id).map.len() == st.map.len(),
{
    let after = configure_state(graph, lib, st, id);
    if st.map[id] is None {
        let kind = node_kind(graph, lib, id);
        let fresh = fresh_record(graph, lib, st, id);
        let number = handed(st, kind);
        assert(after.map[id] == Some(fresh));
        assert(numbered(after, fresh, number));
        assert forall|i: int| 0 <= i < after.map.len() && (#[trigger] after.map[i])
            is Some implies exists|c: nat| numbered(after, after.map[i]->0, c) by {
            if i != id {
                assert(st.map[i] is Some);
                let c = choose|c: nat| numbered(st, st.map[i]->0, c);
                assert(numbered(after, after.map[i]->0, c));
            } else {
                assert(after.map[i]->0 == fresh);
                assert(numbered(after, after.map[i]->0, number));
            }
        }
        assert forall|i: int, j: int|
            0 <= i < after.map.len() && 0 <= j < after.map.len() && i != j && (
            #[trigger] after.map[i]) is Some && (#[trigger] after.map[j]) is Some && counted(
                after.map[i]->0.kind,
            ) implies after.map[i]->0.symbol != after.map[j]->0.symbol by {
            if i == id {
                assert(st.map[j] is Some);
                let r = st.map[j]->0;
                let c = choose|c: nat| numbered(st, r, c);
                lemma_symbols_differ(fresh.extra_symbol, kind, number, r.extra_symbol, r.kind, c);
            } else if j == id {
                assert(st.map[i] is Some);
                let r = st.map[i]->0;
                let c = choose|c: nat| numbered(st, r, c);
                lemma_symbols_differ(r.extra_symbol, r.kind, c, fresh.extra_symbol, kind, number);
            } else {
                assert(st.map[i] is Some && st.map[j] is Some);
            }
        }
    }
}

proof fn lemma_unique_many(graph: &Graph, lib: &SymbolLibrary, st: EngineState, ids: Seq<usize>)
    requires
        all_below(ids, st.map.len()),
        labelled(st),
        distinct(st.map),
    ensures
        labelled(configure_many(graph, lib, st, ids)),
        distinct(configure_many(graph, lib, st, ids).map),
        configure_many(graph, lib, st, ids).map.len() == st.map.len(),
    decreases ids.len(),
{
    if ids.len() > 0 {
        lemma_unique_many(graph, lib, st, ids.drop_last());
        lemma_unique_configure(
            graph,
            lib,
            configure_many(graph, lib, st, ids.drop_last()),
            ids.last() as int,
        );
    }
}

proof fn lemma_labels_fill(graph: &Graph, map: Seq<Option<LatexNodeView>>, ids: Seq<usize>)
    requires
        all_below(ids, map.len()),
    ensures
        same_labels(map, fill_shapes(graph, map, ids)),
    decreases ids.len(),
{
    if ids.len() > 0 {
        lemma_labels_fill(graph, map, ids.drop_last());
        let before = fill_shapes(graph, map, ids.drop_last());
        let after = fill_shapes(graph, map, ids);
        assert(after == fill_shape(graph, before, ids.last() as int));
        assert forall|i: int| 0 <= i < map.len() implies ((#[trigger] map[i]) is Some <==> (
        #[trigger] after[i]) is Some) && (map[i] is Some ==> map[i]->0.symbol == after[i]->0.symbol
            && map[i]->0.extra_symbol == after[i]->0.extra_symbol && map[i]->0.kind
            == after[i]->0.kind) by {
            assert(before[i] is Some <==> map[i] is Some);
        }
    }
}

proof fn lemma_unique_step(
    graph: &Graph,
    lib: &SymbolLibrary,
    mode: ParseMode,
    st: EngineState,
    n: int,
)
    requires
        graph.valid(),
        0 <= n < graph.nodes@.len(),
        st.map.len() == graph.nodes@.len(),
        labelled(st),
        distinct(st.map),
    ensures
        labelled(step_state(graph, lib, mode, st, n)),
        distinct(step_state(graph, lib, mode, st, n).map),
        step_state(graph, lib, mode, st, n).map.len() == st.map.len(),
{
    let node = graph.nodes@[n];
    assert(graph.node_valid(n));
    let s1 = configure_state(graph, lib, st, n);
    lemma_unique_configure(graph, lib, st, n);
    let s2 = configure_many(graph, lib, s1, node.inputs@);
    lemma_unique_many(graph, lib, s1, node.inputs@);
    let m3 = fill_shapes(graph, s2.map, node.inputs@);
    lemma_labels_fill(graph, s2.map, node.inputs@);
    let after = step_state(graph, lib, mode, st, n);
    assert(s1.map[n] is Some);
    crate::forward_laws::lemma_keeps_many(graph, lib, s1, node.inputs@);
    assert(s2.map[n] is Some);
    assert(m3[n] is Some);
    assert(record_at(m3, n) == m3[n]->0);
    assert forall|i: int| 0 <= i < s2.map.len() implies ((#[trigger] s2.map[i]) is Some <==> (
    #[trigger] after.map[i]) is Some) && (s2.map[i] is Some ==> s2.map[i]->0.symbol
        == after.map[i]->0.symbol && s2.map[i]->0.extra_symbol == after.map[i]->0.extra_symbol
        && s2.map[i]->0.kind == after.map[i]->0.kind) by {
        if i != n {
            assert(after.map[i] == m3[i]);
        }
        assert(m3[i] is Some <==> s2.map[i] is Some);
    }
    lemma_transfer(s2, after.map);
    assert(after == EngineState { map: after.map, ..s2 });
}

proof fn lemma_unique_run(graph: &Graph, lib: &SymbolLibrary, mode: ParseMode, k: nat)
    requires
        graph.valid(),
        k <= graph.order@.len(),
    ensures
        labelled(run_state(graph, lib, mode, k)),
        distinct(run_state(graph, lib, mode, k).map),
        run_state(graph, lib, mode, k).map.len() == graph.nodes@.len(),
    decreases k,
{
    if k > 0 {
        lemma_unique_run(graph, lib, mode, (k - 1) as nat);
        lemma_unique_step(
            graph,
            lib,
            mode,
            run_state(graph, lib, mode, (k - 1) as nat),
            graph.order@[k - 1] as int,
        );
    }
}

/// After a pass, a node whose kind is counted (activation, function,
/// convolution, weight or bias) shares its symbol with no other node.
pub proof fn lemma_symbols_unique(
    graph: &Graph,
    lib: &SymbolLibrary,
    mode: ParseMode,
    i: int,
    j: int,
)
    requires
        graph.valid(),
        0 <= i < graph.nodes@.len(),
        0 <= j < graph.nodes@.len(),
        i != j,
        run_state(graph, lib, mode, graph.order@.len()).map[i] is Some,
        run_state(graph, lib, mode, graph.order@.len()).map[j] is Some,
        counted(run_state(graph, lib, mode, graph.order@.len()).map[i]->0.kind),
    ensures
        run_state(graph, lib, mode, graph.order@.len()).map[i]->0.symbol != run_state(
            graph,
            lib,
            mode,
            graph.order@.len(),
        ).map[j]->0.symbol,
{
    lemma_unique_run(graph, lib, mode, graph.order@.len());
}

} // verus!
