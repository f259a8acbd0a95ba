//! The forward pass over a graph.

use vstd::prelude::*;
use crate::engine::{
    bounded, configure_many, fill_shape, fill_shapes, forward_of, full_text, full_texts,
    initial_state, lemma_configured_update, record_at, run_state, scenario_of, shaped_record,
    step_state, symbols_of, EngineState, LatexEngine, ParseMode,
};
use crate::graph::{all_below, copy_ids, Graph};
use crate::kind::FormulKind;
use crate::ops::MathGen;
use crate::symbol_map::{copy_map, records, LatexNode, LatexResult};
use crate::text::{name_qualifier, texts};

verus! {

impl LatexEngine {
    /// The map has one slot per node of `graph`, and no counter has counted
    /// more than the records that exist.
    pub open spec fn fits(&self, graph: &Graph) -> bool {
        self.symbol_map@.len() == graph.nodes@.len() && bounded(self.state())
    }

    /// The same library and templates as `other`.
    pub open spec fn same_setup(&self, other: &LatexEngine) -> bool {
        self.symbol_library == other.symbol_library && self.templates == other.templates
    }

    fn configure_inputs(&mut self, graph: &Graph, ids: &Vec<usize>)
        requires
            all_below(ids@, graph.nodes@.len()),
            old(self).fits(graph),
        ensures
            final(self).state() == configure_many(
                graph,
                &old(self).symbol_library,
                old(self).state(),
                ids@,
            ),
            final(self).fits(graph),
            final(self).same_setup(old(self)),
    {
        let mut j: usize = 0;
        while j < ids.len()
            invariant
                j <= ids@.len(),
                all_below(ids@, graph.nodes@.len()),
                self.fits(graph),
                self.same_setup(old(self)),
                self.state() == configure_many(
                    graph,
                    &old(self).symbol_library,
                    old(self).state(),
                    ids@.take(j as int),
                ),
            decreases ids.len() - j,
        {
            let _ = self.configure_node(graph, ids[j]);
            proof {
                assert(ids@.take(j + 1).drop_last() =~= ids@.take(j as int));
            }
            j += 1;
        }
        assert(ids@.take(j as int) =~= ids@);
    }

    fn fill_inputs(&mut self, graph: &Graph, ids: &Vec<usize>)
        requires
            all_below(ids@, graph.nodes@.len()),
            old(self).fits(graph),
        ensures
            final(self).state() == (EngineState {
                map: fill_shapes(graph, old(self).state().map, ids@),
                ..old(self).state()
            }),
            final(self).fits(graph),
            final(self).same_setup(old(self)),
    {
        let mut j: usize = 0;
        while j < ids.len()
            invariant
                j <= ids@.len(),
                all_below(ids@, graph.nodes@.len()),
                self.fits(graph),
                self.same_setup(old(self)),
                self.state() == (EngineState {
                    map: fill_shapes(graph, old(self).state().map, ids@.take(j as int)),
                    ..old(self).state()
                }),
            decreases ids.len() - j,
        {
            let id = ids[j];
            let ghost before = self.state();
            let filled: Option<LatexNode> = match &self.symbol_map[id] {
                Some(r) => {
                    if r.output_shape.len() == 0 {
                        let mut c = r.clone();
                        c.output_shape = copy_ids(&graph.nodes[id].output_shape);
                        Some(c)
                    } else {
                        None
                    }
                },
                None => None,
            };
            match filled {
                Some(c) => {
                    proof {
                        lemma_configured_update(before.map, id as int, Some(c@));
                    }
                    self.symbol_map.set(id, Some(c));
                    assert(self.state().map =~= fill_shape(graph, before.map, id as int));
                },
                None => {},
            }
            proof {
                assert(ids@.take(j + 1).drop_last() =~= ids@.take(j as int));
            }
            j += 1;
        }
        assert(ids@.take(j as int) =~= ids@);
    }

    fn symbol_at(&self, n: usize) -> (r: String)
        ensures
            r@ == record_at(records(self.symbol_map@), n as int).symbol,
    {
        if n < self.symbol_map.len() {
            match &self.symbol_map[n] {
                Some(rec) => rec.symbol.clone(),
                None => String::new(),
            }
        } else {
            String::new()
        }
    }

    fn shape_at(&self, n: usize) -> (r: Vec<usize>)
        ensures
            r@ == record_at(records(self.symbol_map@), n as int).output_shape,
    {
        if n < self.symbol_map.len() {
            match &self.symbol_map[n] {
                Some(rec) => copy_ids(&rec.output_shape),
                None => Vec::new(),
            }
        } else {
            Vec::new()
        }
    }

    fn record_copy(&self, n: usize) -> (r: LatexNode)
        ensures
            r@ == record_at(records(self.symbol_map@), n as int),
    {
        if n < self.symbol_map.len() {
            match &self.symbol_map[n] {
                Some(rec) => rec.clone(),
                None => LatexNode::default(),
            }
        } else {
            LatexNode::default()
        }
    }

    fn input_symbols(&self, ids: &Vec<usize>) -> (r: Vec<String>)
        ensures
            texts(r@) == symbols_of(records(self.symbol_map@), ids@),
    {
        let mut out: Vec<String> = Vec::new();
        let mut j: usize = 0;
        while j < ids.len()
            invariant
                j <= ids@.len(),
                out@.len() == j,
                forall|i: int|
                    0 <= i < j ==> out@[i]@ == record_at(
                        records(self.symbol_map@),
                        ids@[i] as int,
                    ).symbol,
            decreases ids.len() - j,
        {
            out.push(self.symbol_at(ids[j]));
            j += 1;
        }
        assert(texts(out@) =~= symbols_of(records(self.symbol_map@), ids@));
        out
    }

    /// The forward formula of node `n` with its inputs' formulas
    /// substituted, `depth` levels deep.
    pub fn rec_node(&self, graph: &Graph, n: usize, depth: usize) -> (r: String)
        requires
            graph.valid(),
            n < graph.nodes@.len(),
        ensures
            r@ == full_text(
                graph,
                &self.symbol_library,
                records(self.symbol_map@),
                n as int,
                depth as nat,
            ),
        decreases depth,
    {
        let node = &graph.nodes[n];
        assert(graph.node_valid(n as int));
        if node.inputs.len() == 0 || depth == 0 {
            return self.symbol_at(n);
        }
        let mut ins: Vec<String> = Vec::new();
        let mut j: usize = 0;
        while j < node.inputs.len()
            invariant
                graph.valid(),
                n < graph.nodes@.len(),
                node == graph.nodes@[n as int],
                all_below(node.inputs@, graph.nodes@.len()),
                depth > 0,
                j <= node.inputs@.len(),
                ins@.len() == j,
                forall|i: int|
                    0 <= i < j ==> ins@[i]@ == full_text(
                        graph,
                        &self.symbol_library,
                        records(self.symbol_map@),
                        node.inputs@[i] as int,
                        (depth - 1) as nat,
                    ),
            decreases node.inputs.len() - j,
        {
            ins.push(self.rec_node(graph, node.inputs[j], depth - 1));
            j += 1;
        }
        let ghost inputs = graph.nodes@[n as int].inputs@;
        let ghost below = full_texts(
            graph,
            &self.symbol_library,
            records(self.symbol_map@),
            inputs,
            (depth - 1) as nat,
        );
        assert(texts(ins@) =~= below);
        let rec = self.record_copy(n);
        let r = node.op.gen_forward_value(
            &self.symbol_library,
            &ins,
            &rec.input_shape_ref,
            &Some(rec.output_shape),
        );
        assert(r@ == graph.nodes@[n as int].op.forward_text(&self.symbol_library, below));
        r
    }

    fn visit(&mut self, graph: &Graph, mode: ParseMode, n: usize)
        requires
            graph.valid(),
            n < graph.nodes@.len(),
            old(self).fits(graph),
        ensures
            final(self).state() == step_state(
                graph,
                &old(self).symbol_library,
                mode,
                old(self).state(),
                n as int,
            ),
            final(self).fits(graph),
            final(self).same_setup(old(self)),
    {
        let node = &graph.nodes[n];
        assert(graph.node_valid(n as int));
        let _ = self.configure_node(graph, n);
        self.configure_inputs(graph, &node.inputs);
        self.fill_inputs(graph, &node.inputs);
        let ghost m3 = self.state().map;
        let mut shaped = self.record_copy(n);
        let shape_ref = if shaped.kind == FormulKind::Cnn && node.inputs.len() > 0 {
            Some(self.shape_at(node.inputs[0]))
        } else {
            None
        };
        shaped.output_shape = copy_ids(&node.output_shape);
        shaped.input_shape_ref = shape_ref;
        assert(shaped@ == shaped_record(graph, m3, n as int));
        let mut done = shaped.clone();
        proof {
            lemma_configured_update(m3, n as int, Some(shaped@));
        }
        self.symbol_map.set(n, Some(shaped));
        let ghost m4 = self.state().map;
        assert(m4 =~= m3.update(n as int, Some(done@)));
        let forward = match mode {
            ParseMode::Brief => {
                let symbols = self.input_symbols(&node.inputs);
                node.op.gen_forward_value(
                    &self.symbol_library,
                    &symbols,
                    &done.input_shape_ref,
                    &Some(copy_ids(&node.output_shape)),
                )
            },
            ParseMode::Full(cap) => {
                let depth = match cap {
                    Some(d) => d,
                    None => graph.nodes.len(),
                };
                self.rec_node(graph, n, depth)
            },
        };
        assert(forward@ == forward_of(graph, &self.symbol_library, mode, m4, n as int));
        done.inputs = copy_ids(&node.inputs);
        done.forward_value = forward;
        proof {
            lemma_configured_update(m4, n as int, Some(done@));
        }
        self.symbol_map.set(n, Some(done));
        assert(self.state().map =~= m4.update(n as int, Some(done@)));
    }

    /// Visits every node of `graph` in its order and returns the symbol map
    /// and the scenario. The engine starts from, and is left with, no record
    /// and every counter at zero.
    pub fn parse_plan(&mut self, graph: &Graph, mode: ParseMode) -> (r: LatexResult)
        requires
            graph.valid(),
        ensures
            records(r.symbol_map@) == run_state(
                graph,
                &old(self).symbol_library,
                mode,
                graph.order@.len(),
            ).map,
            r.senario@ == scenario_of(graph, &old(self).symbol_library, graph.order@.len()),
            final(self).state() == initial_state(0),
            final(self).same_setup(old(self)),
    {
        self.flush();
        self.symbol_map = LatexResult::new(graph.nodes.len()).symbol_map;
        proof {
            assert(self.state().map =~= initial_state(graph.nodes@.len()).map);
            crate::engine::lemma_configured_bound(self.state().map);
        }
        let mut senario: Vec<usize> = Vec::new();
        let mut k: usize = 0;
        while k < graph.order.len()
            invariant
                graph.valid(),
                k <= graph.order@.len(),
                self.fits(graph),
                self.same_setup(old(self)),
                self.state() == run_state(graph, &old(self).symbol_library, mode, k as nat),
                senario@ == scenario_of(graph, &old(self).symbol_library, k as nat),
            decreases graph.order.len() - k,
        {
            let n = graph.order[k];
            self.visit(graph, mode, n);
            let node = &graph.nodes[n];
            let qualifier = Some(name_qualifier(node.name.as_str()));
            let kind = node.op.get_symbol_type(&self.symbol_library, &qualifier);
            match kind {
                FormulKind::Activation | FormulKind::Function | FormulKind::Cnn => {
                    senario.push(n);
                },
                _ => {},
            }
            k += 1;
        }
        let result = LatexResult { symbol_map: copy_map(&self.symbol_map), senario };
        self.flush();
        result
    }
}

} // verus!
