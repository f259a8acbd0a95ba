//! The engine and its forward pass: one visit of every node in order, which
//! assigns symbols, records shapes and renders forward formulas.

use vstd::prelude::*;
use crate::graph::{copy_ids, Graph};
use crate::kind::{gen_symbol, symbol_text, FormulKind};
use crate::library::SymbolLibrary;
use crate::ops::{effective_kind, MathGen};
use crate::symbol_map::{blank_record, records, LatexNode, LatexNodeView};
use crate::templates::{complete, templates_of, EngineError, Templates};
use crate::text::{last_segment, name_qualifier};

verus! {

/// How forward formulas are rendered: over the inputs' symbols, or with the
/// inputs' own formulas substituted, down to an optional depth.
#[derive(Clone, Copy, Debug)]
pub enum ParseMode {
    Brief,
    Full(Option<usize>),
}

/// The engine: the symbol map under construction, the symbol counters, the
/// library and its parsed auxiliary templates.
#[derive(Debug)]
pub struct LatexEngine {
    pub symbol_map: Vec<Option<LatexNode>>,
    pub weight_count: usize,
    pub bias_count: usize,
    pub const_count: usize,
    pub formul_count: usize,
    pub activation_count: usize,
    pub symbol_library: SymbolLibrary,
    pub templates: Templates,
}

/// The part of the engine that a parse changes.
pub ghost struct EngineState {
    pub map: Seq<Option<LatexNodeView>>,
    pub activation: nat,
    pub formul: nat,
    pub weight: nat,
    pub bias: nat,
}

/// The number of records that a map holds.
pub open spec fn configured(map: Seq<Option<LatexNodeView>>) -> nat
    decreases map.len(),
{
    if map.len() == 0 {
        0
    } else {
        configured(map.drop_last()) + (if map.last() is Some {
            1nat
        } else {
            0nat
        })
    }
}

/// No counter has counted more than the records that exist.
pub open spec fn bounded(st: EngineState) -> bool {
    st.activation + st.formul + st.weight + st.bias <= configured(st.map)
}

/// The state before the first node: no record, every counter at zero.
pub open spec fn initial_state(size: nat) -> EngineState {
    EngineState {
        map: Seq::new(size, |i: int| None::<LatexNodeView>),
        activation: 0,
        formul: 0,
        weight: 0,
        bias: 0,
    }
}

/// The kind of node `id`: the one its name's last segment forces, else its
/// operator's own.
pub open spec fn node_kind(graph: &Graph, lib: &SymbolLibrary, id: int) -> FormulKind {
    effective_kind(
        graph.nodes@[id].op.original_kind(lib),
        Some(last_segment(graph.nodes@[id].name@)),
    )
}

/// The qualifier of node `id`: the last segment of its name, unless the
/// node's kind is undefined.
pub open spec fn node_extra(graph: &Graph, lib: &SymbolLibrary, id: int) -> Option<Seq<char>> {
    if node_kind(graph, lib, id) == FormulKind::Undefined {
        None
    } else {
        Some(last_segment(graph.nodes@[id].name@))
    }
}

/// The counters after a symbol of `kind` was handed out.
pub open spec fn bump(st: EngineState, kind: FormulKind) -> EngineState {
    match kind {
        FormulKind::Activation => EngineState { activation: st.activation + 1, ..st },
        FormulKind::Function | FormulKind::Cnn => EngineState { formul: st.formul + 1, ..st },
        FormulKind::Bias => EngineState { bias: st.bias + 1, ..st },
        FormulKind::Weight => EngineState { weight: st.weight + 1, ..st },
        _ => st,
    }
}

/// The number that the next symbol of `kind` carries; 0 for a kind that has
/// no counter.
pub open spec fn handed(st: EngineState, kind: FormulKind) -> nat {
    match kind {
        FormulKind::Activation => st.activation + 1,
        FormulKind::Function | FormulKind::Cnn => st.formul + 1,
        FormulKind::Bias => st.bias + 1,
        FormulKind::Weight => st.weight + 1,
        _ => 0,
    }
}

/// The record that configuring node `id` creates.
pub open spec fn fresh_record(graph: &Graph, lib: &SymbolLibrary, st: EngineState, id: int)
    -> LatexNodeView {
    let kind = node_kind(graph, lib, id);
    LatexNodeView {
        index: id as usize,
        symbol: symbol_text(node_extra(graph, lib, id), kind, handed(st, kind)),
        extra_symbol: node_extra(graph, lib, id),
        kind: kind,
        op_name: graph.nodes@[id].op.key(),
        outputs: graph.nodes@[id].successors@,
        ..blank_record()
    }
}

/// Configuring node `id`: nothing where it has a record, else a fresh record
/// and the counter of its kind moved on.
pub open spec fn configure_state(graph: &Graph, lib: &SymbolLibrary, st: EngineState, id: int)
    -> EngineState {
    if st.map[id] is Some {
        st
    } else {
        EngineState {
            map: st.map.update(id, Some(fresh_record(graph, lib, st, id))),
            ..bump(st, node_kind(graph, lib, id))
        }
    }
}

/// Configuring the nodes `ids`, one after the other.
pub open spec fn configure_many(
    graph: &Graph,
    lib: &SymbolLibrary,
    st: EngineState,
    ids: Seq<usize>,
) -> EngineState
    decreases ids.len(),
{
    if ids.len() == 0 {
        st
    } else {
        configure_state(
            graph,
            lib,
            configure_many(graph, lib, st, ids.drop_last()),
            ids.last() as int,
        )
    }
}

/// The record of node `id`; the blank record where the map holds none.
pub open spec fn record_at(map: Seq<Option<LatexNodeView>>, id: int) -> LatexNodeView {
    if 0 <= id < map.len() && map[id] is Some {
        map[id]->0
    } else {
        blank_record()
    }
}

/// Node `id` takes the graph's output shape where its record has none.
pub open spec fn fill_shape(graph: &Graph, map: Seq<Option<LatexNodeView>>, id: int) -> Seq<
    Option<LatexNodeView>,
> {
    if map[id] is Some && map[id]->0.output_shape.len() == 0 {
        map.update(
            id,
            Some(LatexNodeView { output_shape: graph.nodes@[id].output_shape@, ..map[id]->0 }),
        )
    } else {
        map
    }
}

/// Filling the shapes of the nodes `ids`, one after the other.
pub open spec fn fill_shapes(graph: &Graph, map: Seq<Option<LatexNodeView>>, ids: Seq<usize>)
    -> Seq<Option<LatexNodeView>>
    decreases ids.len(),
{
    if ids.len() == 0 {
        map
    } else {
        fill_shape(graph, fill_shapes(graph, map, ids.drop_last()), ids.last() as int)
    }
}

/// The symbols of the nodes `ids`.
pub open spec fn symbols_of(map: Seq<Option<LatexNodeView>>, ids: Seq<usize>) -> Seq<Seq<char>> {
    Seq::new(ids.len(), |j: int| record_at(map, ids[j] as int).symbol)
}

/// The forward formula of node `n` with its inputs' formulas substituted,
/// `depth` levels deep: a node without inputs, and any node at depth 0, is
/// written as its symbol.
pub open spec fn full_text(
    graph: &Graph,
    lib: &SymbolLibrary,
    map: Seq<Option<LatexNodeView>>,
    n: int,
    depth: nat,
) -> Seq<char>
    decreases depth, 0nat,
{
    let inputs = graph.nodes@[n].inputs@;
    if inputs.len() == 0 || depth == 0 {
        record_at(map, n).symbol
    } else {
        graph.nodes@[n].op.forward_text(
            lib,
            full_texts(graph, lib, map, inputs, (depth - 1) as nat),
        )
    }
}

/// The formulas of the nodes `ids`, each `depth` levels deep.
pub open spec fn full_texts(
    graph: &Graph,
    lib: &SymbolLibrary,
    map: Seq<Option<LatexNodeView>>,
    ids: Seq<usize>,
    depth: nat,
) -> Seq<Seq<char>>
    decreases depth, 1nat,
{
    Seq::new(ids.len(), |j: int| full_text(graph, lib, map, ids[j] as int, depth))
}

/// The depth to which a mode expands. Without a cap it is the number of
/// nodes: no path of a graph without cycles is longer.
pub open spec fn depth_of(graph: &Graph, cap: Option<usize>) -> nat {
    match cap {
        Some(d) => d as nat,
        None => graph.nodes@.len(),
    }
}

/// The forward formula of node `n` in the given mode.
pub open spec fn forward_of(
    graph: &Graph,
    lib: &SymbolLibrary,
    mode: ParseMode,
    map: Seq<Option<LatexNodeView>>,
    n: int,
) -> Seq<char> {
    match mode {
        ParseMode::Brief => graph.nodes@[n].op.forward_text(
            lib,
            symbols_of(map, graph.nodes@[n].inputs@),
        ),
        ParseMode::Full(cap) => full_text(graph, lib, map, n, depth_of(graph, cap)),
    }
}

/// The record of node `n` once its shapes are known: its own output shape
/// and, for a convolution, the output shape of its first input.
pub open spec fn shaped_record(graph: &Graph, map: Seq<Option<LatexNodeView>>, n: int)
    -> LatexNodeView {
    let node = graph.nodes@[n];
    let rec = record_at(map, n);
    LatexNodeView {
        output_shape: node.output_shape@,
        input_shape_ref: if rec.kind == FormulKind::Cnn && node.inputs@.len() > 0 {
            Some(record_at(map, node.inputs@[0] as int).output_shape)
        } else {
            None
        },
        ..rec
    }
}

/// The visit of node `n`: it and its inputs are configured, the inputs'
/// missing shapes are filled in, and the node's shapes, inputs and forward
/// formula are recorded.
pub open spec fn step_state(
    graph: &Graph,
    lib: &SymbolLibrary,
    mode: ParseMode,
    st: EngineState,
    n: int,
) -> EngineState {
    let node = graph.nodes@[n];
    let s2 = configure_many(graph, lib, configure_state(graph, lib, st, n), node.inputs@);
    let m3 = fill_shapes(graph, s2.map, node.inputs@);
    let shaped = shaped_record(graph, m3, n);
    let m4 = m3.update(n, Some(shaped));
    let done = LatexNodeView {
        inputs: node.inputs@,
        forward_value: forward_of(graph, lib, mode, m4, n),
        ..shaped
    };
    EngineState { map: m4.update(n, Some(done)), ..s2 }
}

/// The state after the first `k` nodes of the order were visited.
pub open spec fn run_state(graph: &Graph, lib: &SymbolLibrary, mode: ParseMode, k: nat)
    -> EngineState
    decreases k,
{
    if k == 0 {
        initial_state(graph.nodes@.len())
    } else {
        step_state(
            graph,
            lib,
            mode,
            run_state(graph, lib, mode, (k - 1) as nat),
            graph.order@[k - 1] as int,
        )
    }
}

/// A node is a candidate for backward expansion when it is an activation,
/// a function or a convolution.
pub open spec fn eligible(kind: FormulKind) -> bool {
    kind == FormulKind::Activation || kind == FormulKind::Function || kind == FormulKind::Cnn
}

/// The scenario after the first `k` nodes of the order: the eligible ones
/// among them, in order.
pub open spec fn scenario_of(graph: &Graph, lib: &SymbolLibrary, k: nat) -> Seq<usize>
    decreases k,
{
    if k == 0 {
        Seq::empty()
    } else {
        let before = scenario_of(graph, lib, (k - 1) as nat);
        if eligible(node_kind(graph, lib, graph.order@[k - 1] as int)) {
            before.push(graph.order@[k - 1])
        } else {
            before
        }
    }
}

pub proof fn lemma_configured_bound(map: Seq<Option<LatexNodeView>>)
    ensures
        configured(map) <= map.len(),
    decreases map.len(),
{
    if map.len() > 0 {
        lemma_configured_bound(map.drop_last());
    }
}

pub proof fn lemma_configured_update(
    map: Seq<Option<LatexNodeView>>,
    i: int,
    v: Option<LatexNodeView>,
)
    requires
        0 <= i < map.len(),
    ensures
        configured(map.update(i, v)) + (if map[i] is Some {
            1nat
        } else {
            0nat
        }) == configured(map) + (if v is Some {
            1nat
        } else {
            0nat
        }),
    decreases map.len(),
{
    let after = map.update(i, v);
    if i == map.len() - 1 {
        assert(after.drop_last() =~= map.drop_last());
    } else {
        assert(after.drop_last() =~= map.drop_last().update(i, v));
        lemma_configured_update(map.drop_last(), i, v);
    }
}

impl LatexEngine {
    /// The record map and the counters.
    pub open spec fn state(&self) -> EngineState {
        EngineState {
            map: records(self.symbol_map@),
            activation: self.activation_count as nat,
            formul: self.formul_count as nat,
            weight: self.weight_count as nat,
            bias: self.bias_count as nat,
        }
    }

    /// The parsed templates are those of the library.
    pub open spec fn wf(&self) -> bool {
        self.templates@ == templates_of(&self.symbol_library)
    }

    /// Builds an engine over `symbol_library`; fails where the library lacks
    /// an auxiliary template.
    pub fn new(symbol_library: SymbolLibrary) -> (r: Result<LatexEngine, EngineError>)
        ensures
            r is Ok <==> complete(&symbol_library),
            r is Err ==> r->Err_0 == EngineError::TemplateMissing,
            r is Ok ==> r->Ok_0.wf() && r->Ok_0.symbol_library == symbol_library
                && r->Ok_0.state() == initial_state(0),
    {
        match Templates::load(&symbol_library) {
            Ok(templates) => {
                let engine = LatexEngine {
                    symbol_map: Vec::new(),
                    weight_count: 0,
                    bias_count: 0,
                    const_count: 0,
                    formul_count: 0,
                    activation_count: 0,
                    symbol_library,
                    templates,
                };
                assert(engine.state().map =~= initial_state(0).map);
                Ok(engine)
            },
            Err(e) => Err(e),
        }
    }

    /// Forgets every record and sets every counter back to zero.
    pub fn flush(&mut self)
        ensures
            final(self).state() == initial_state(0),
            final(self).symbol_library == old(self).symbol_library,
            final(self).templates == old(self).templates,
    {
        self.symbol_map = Vec::new();
        self.weight_count = 0;
        self.bias_count = 0;
        self.const_count = 0;
        self.formul_count = 0;
        self.activation_count = 0;
        assert(self.state().map =~= initial_state(0).map);
    }

    fn countup(&mut self, kind: FormulKind) -> (r: Option<usize>)
        requires
            old(self).activation_count + old(self).formul_count + old(self).weight_count + old(
                self,
            ).bias_count < usize::MAX,
        ensures
            final(self).state() == bump(old(self).state(), kind),
            final(self).symbol_map == old(self).symbol_map,
            final(self).symbol_library == old(self).symbol_library,
            final(self).templates == old(self).templates,
            (match r {
                Some(i) => i as nat,
                None => 0nat,
            }) == handed(old(self).state(), kind),
    {
        match kind {
            FormulKind::Activation => {
                self.activation_count += 1;
                Some(self.activation_count)
            },
            FormulKind::Function | FormulKind::Cnn => {
                self.formul_count += 1;
                Some(self.formul_count)
            },
            FormulKind::Bias => {
                self.bias_count += 1;
                Some(self.bias_count)
            },
            FormulKind::Weight => {
                self.weight_count += 1;
                Some(self.weight_count)
            },
            _ => None,
        }
    }

    /// Creates the record of node `index` unless it exists; returns the
    /// node's kind where it did so.
    pub fn configure_node(&mut self, graph: &Graph, index: usize) -> (r: Option<FormulKind>)
        requires
            index < graph.nodes@.len(),
            old(self).symbol_map@.len() == graph.nodes@.len(),
            bounded(old(self).state()),
        ensures
            final(self).state() == configure_state(
                graph,
                &old(self).symbol_library,
                old(self).state(),
                index as int,
            ),
            r == (if old(self).symbol_map@[index as int] is Some {
                None
            } else {
                Some(node_kind(graph, &old(self).symbol_library, index as int))
            }),
            bounded(final(self).state()),
            final(self).symbol_map@.len() == graph.nodes@.len(),
            final(self).symbol_library == old(self).symbol_library,
            final(self).templates == old(self).templates,
    {
        if self.symbol_map[index].is_some() {
            return None;
        }
        let size = self.symbol_map.len();
        proof {
            let map = self.state().map;
            let filled = map.update(index as int, Some(blank_record()));
            lemma_configured_update(map, index as int, Some(blank_record()));
            lemma_configured_bound(filled);
            assert(configured(map) < size);
        }
        let ghost before = self.state();
        let node = &graph.nodes[index];
        let inner = name_qualifier(node.name.as_str());
        let probe = Some(inner);
        let first = node.op.get_symbol_type(&self.symbol_library, &probe);
        let extra_symbol = match first {
            FormulKind::Undefined => None,
            _ => probe,
        };
        let kind = node.op.get_symbol_type(&self.symbol_library, &extra_symbol);
        let i = match self.countup(kind) {
            Some(i) => i,
            None => 0,
        };
        let extra_copy = match &extra_symbol {
            Some(s) => Some(s.clone()),
            None => None,
        };
        let symbol = gen_symbol(extra_copy, kind, i);
        let mut nn = LatexNode::default();
        nn.op_name = node.op.name();
        nn.index = index;
        nn.symbol = symbol;
        nn.extra_symbol = extra_symbol;
        nn.kind = kind;
        nn.outputs = copy_ids(&node.successors);
        proof {
            assert(nn@ == fresh_record(graph, &self.symbol_library, before, index as int));
            lemma_configured_update(before.map, index as int, Some(nn@));
        }
        self.symbol_map.set(index, Some(nn));
        assert(self.state().map =~= before.map.update(index as int, Some(nn@)));
        Some(kind)
    }
}

} // verus!
