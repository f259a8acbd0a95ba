use latex_gen::chain::{diff_node, expand_diff_symbol, DiffChainNode};
use latex_gen::engine::{LatexEngine, ParseMode};
use latex_gen::graph::{Graph, GraphNode};
use latex_gen::kind::FormulKind;
use latex_gen::library::SymbolLibrary;
use latex_gen::node_info::{CatalogError, Formul, FormulNode};
use latex_gen::ops::{MathGen, Operator, PoolSpec};
use latex_gen::render::ErrorResultTo;
use latex_gen::symbol_map::LatexResult;
use latex_gen::templates::{EngineError, Indexes, Templates};

fn entry(key: &str, formul: &str, symbol: Option<&str>) -> (String, FormulNode) {
    (
        key.to_string(),
        FormulNode {
            inputs: 0,
            formul: formul.to_string(),
            declaration: Vec::new(),
            diff: None,
            symbol: symbol.map(|s| s.to_string()),
        },
    )
}

fn library() -> SymbolLibrary {
    SymbolLibrary {
        func: Formul {
            symbol: "f".to_string(),
            n_type: FormulKind::Function,
            entries: vec![
                entry("Gemm", "#_1 #_0+#_2", None),
                entry("Conv", "#_1 * #_0+#_2", None),
            ],
        },
        etc: Formul {
            symbol: "".to_string(),
            n_type: FormulKind::Base,
            entries: vec![
                entry("_Diff", "\\frac{\\partial #_0}{\\partial #_1}", None),
                entry("_Sum", "\\sum_{@_0=0}^{@_1}#_0", None),
                entry("_Sum_w", "\\sum_{@_0=0}^{@_1}", None),
                entry("_Chain2", "#_0 \\cdot #_1", None),
                entry("_Chain3", "#_0 \\cdot #_1 \\cdot #_2", None),
                entry("_Under", "#_0_{#_1}", None),
                entry("_Weight", "#_0^{#_1}", None),
                entry("Error", "", Some("E_{#_0}")),
            ],
        },
        activation: Formul {
            symbol: "h".to_string(),
            n_type: FormulKind::Activation,
            entries: vec![entry("Relu", "\\max(0,#_0)", None)],
        },
    }
}

fn node(name: &str, op: Operator, inputs: &[usize], successors: &[usize], shape: &[usize])
    -> GraphNode {
    GraphNode {
        name: name.to_string(),
        op,
        inputs: inputs.to_vec(),
        successors: successors.to_vec(),
        output_shape: shape.to_vec(),
    }
}

fn in_order(nodes: Vec<GraphNode>) -> Graph {
    let order = (0..nodes.len()).collect();
    Graph { nodes, order }
}

fn mlp() -> Graph {
    in_order(vec![
        node("Source", Operator::Source, &[], &[3], &[64, 784]),
        node("fc1.weight", Operator::Const, &[], &[3], &[100, 784]),
        node("fc1.bias", Operator::Const, &[], &[3], &[100]),
        node("fc1", Operator::Gemm, &[0, 1, 2], &[4], &[64, 100]),
        node("act1", Operator::Sigmoid, &[3], &[7], &[64, 100]),
        node("fc2.weight", Operator::Const, &[], &[7], &[10, 100]),
        node("fc2.bias", Operator::Const, &[], &[7], &[10]),
        node("fc2", Operator::Gemm, &[4, 5, 6], &[8], &[64, 10]),
        node("act2", Operator::Sigmoid, &[7], &[], &[64, 10]),
    ])
}

fn engine() -> LatexEngine {
    LatexEngine::new(library()).unwrap()
}

fn parse(graph: &Graph, mode: ParseMode) -> LatexResult {
    assert!(graph.is_valid());
    engine().parse_plan(graph, mode)
}

fn symbol(result: &LatexResult, n: usize) -> String {
    result.symbol_map[n].as_ref().unwrap().symbol.clone()
}

fn forward(result: &LatexResult, n: usize) -> String {
    result.symbol_map[n].as_ref().unwrap().forward_value.clone()
}

#[test]
fn engine_needs_every_auxiliary_template() {
    assert!(matches!(
        LatexEngine::new(SymbolLibrary::default()),
        Err(EngineError::TemplateMissing)
    ));
    let mut lib = library();
    lib.etc.entries.remove(2);
    assert!(matches!(LatexEngine::new(lib), Err(EngineError::TemplateMissing)));
    assert!(matches!(Templates::load(&library()), Ok(_)));
}

#[test]
fn lookup_searches_the_catalogs_in_order() {
    let mut lib = library();
    lib.activation.entries.push(entry("Gemm", "shadowed", None));
    let hit = lib.get_symbol("Gemm").unwrap();
    assert_eq!(hit.0, "f");
    assert_eq!(hit.1, FormulKind::Function);
    assert_eq!(hit.2.formul, "#_1 #_0+#_2");
    let error = lib.get_symbol("Error").unwrap();
    assert_eq!(error.0, "E_{#_0}");
    assert_eq!(error.1, FormulKind::Base);
    assert!(lib.get_symbol("Nothing").is_none());
    assert!(matches!(lib.func.gen_symbol("_Diff"), Err(CatalogError::NotFound)));
}

#[test]
fn two_layer_mlp_forward() {
    let result = parse(&mlp(), ParseMode::Brief);
    assert_eq!(result.senario, vec![3, 4, 7, 8]);
    assert_eq!(symbol(&result, 0), "\\overline{Input}");
    assert_eq!(symbol(&result, 1), "\\overline{W_1}");
    assert_eq!(symbol(&result, 2), "\\overline{B_1}");
    assert_eq!(symbol(&result, 3), "f_1");
    assert_eq!(symbol(&result, 4), "h_1");
    assert_eq!(symbol(&result, 5), "\\overline{W_2}");
    assert_eq!(symbol(&result, 6), "\\overline{B_2}");
    assert_eq!(symbol(&result, 7), "f_2");
    assert_eq!(symbol(&result, 8), "h_2");
    assert_eq!(forward(&result, 8), "\\frac{1}{1+e^{-(f_2)}}");
    assert_eq!(forward(&result, 7), "\\overline{W_2} h_1+\\overline{B_2}");
    assert_eq!(forward(&result, 0), "");
    let last = result.symbol_map[8].as_ref().unwrap();
    assert_eq!(last.index, 8);
    assert_eq!(last.op_name, "Sigmoid");
    assert_eq!(last.kind, FormulKind::Activation);
    assert_eq!(last.inputs, vec![7]);
    assert_eq!(last.outputs, Vec::<usize>::new());
    assert_eq!(last.output_shape, vec![64, 10]);
    assert_eq!(last.input_shape_ref, None);
    assert_eq!(last.extra_symbol, Some("act2".to_string()));
    assert_eq!(result.get_node_formul(8), "h_2=\\frac{1}{1+e^{-(f_2)}}");
    assert_eq!(result.get_node_backward(8), "=");
}

#[test]
fn full_mode_substitutes_inputs() {
    let graph = mlp();
    let full = parse(&graph, ParseMode::Full(None));
    assert_eq!(
        forward(&full, 8),
        "\\frac{1}{1+e^{-(\\overline{W_2} \\frac{1}{1+e^{-(\\overline{W_1} \\overline{Input}+\\overline{B_1})}}+\\overline{B_2})}}"
    );
    let one = parse(&graph, ParseMode::Full(Some(1)));
    assert_eq!(forward(&one, 8), "\\frac{1}{1+e^{-(f_2)}}");
    let two = parse(&graph, ParseMode::Full(Some(2)));
    assert_eq!(
        forward(&two, 8),
        "\\frac{1}{1+e^{-(\\overline{W_2} h_1+\\overline{B_2})}}"
    );
}

#[test]
fn depth_zero_renders_symbols_only() {
    let result = parse(&mlp(), ParseMode::Full(Some(0)));
    for n in 0..9 {
        assert_eq!(forward(&result, n), symbol(&result, n));
    }
}

#[test]
fn two_layer_mlp_backward() {
    let mut result = parse(&mlp(), ParseMode::Brief);
    let engine = engine();
    let chain = expand_diff_symbol(&result.symbol_map, diff_node(&result.symbol_map, 3), 8);
    match &chain {
        DiffChainNode::Chain(v) => {
            assert_eq!(v.len(), 3);
            match &v[0] {
                DiffChainNode::Sum(inner, dims) => {
                    assert_eq!(dims, &vec![10]);
                    match &**inner {
                        DiffChainNode::Chain(w) => {
                            assert_eq!(w.len(), 2);
                            assert!(matches!(&w[0], DiffChainNode::UnWeightable(8, s) if s == "h_2"));
                            assert!(matches!(&w[1], DiffChainNode::Weightable(7, s) if s == "f_2"));
                        }
                        other => panic!("{:?}", other),
                    }
                }
                other => panic!("{:?}", other),
            }
            assert!(matches!(&v[1], DiffChainNode::UnWeightable(4, s) if s == "h_1"));
            assert!(matches!(&v[2], DiffChainNode::Weightable(3, s) if s == "f_1"));
        }
        other => panic!("{:?}", other),
    }
    let indexes = Indexes::new(vec![0], vec![0]);
    let inner = "\\frac{\\partial E_{total}}{\\partial h_2_{(cn_{0},)}} \\cdot \\frac{\\partial h_2_{(cn_{0},)}}{\\partial f_2_{(cn_{0},)}} \\cdot \\frac{\\partial f_2_{(cn_{0},)}}{\\partial h_1_{(0,)}}";
    let tail = " \\cdot \\frac{\\partial h_1_{(0,)}}{\\partial f_1_{(0,)}} \\cdot \\frac{\\partial f_1_{(0,)}}{\\partial w_{f_1_{(0,)}^{(0,)}}}";
    let (lhs, rhs) = engine.gen_each_back(&result, (3, 8), &indexes, None).unwrap();
    assert_eq!(lhs, "\\frac{\\partial E_{total}}{\\partial w_{f_1_{(0,)}^{(0,)}}}");
    assert_eq!(rhs, format!("\\sum_{{cn_{{0}}=0}}^{{9}}{}{}", inner, tail));
    assert_eq!(rhs.matches("\\sum").count(), 1);

    engine.gen_back_total(&mut result, &indexes, None);
    assert_eq!(result.senario, vec![3, 4, 7, 8]);
    let first = result.symbol_map[3].as_ref().unwrap();
    assert_eq!(first.backward_symbol, lhs);
    assert_eq!(first.backward_value, rhs);
    let second = result.symbol_map[7].as_ref().unwrap();
    assert_eq!(
        second.backward_value,
        "\\frac{\\partial E_{total}}{\\partial h_2_{(0,)}} \\cdot \\frac{\\partial h_2_{(0,)}}{\\partial f_2_{(0,)}} \\cdot \\frac{\\partial f_2_{(0,)}}{\\partial w_{f_2_{(0,)}^{(0,)}}}"
    );
    for n in [0, 1, 2, 4, 5, 6, 8] {
        let rec = result.symbol_map[n].as_ref().unwrap();
        assert_eq!(rec.backward_symbol, "");
        assert_eq!(rec.backward_value, "");
    }
    assert_eq!(
        result.get_node_backward(3),
        format!("{}={}", lhs, rhs)
    );
}

#[test]
fn depth_cap_collapses_the_sum() {
    let result = parse(&mlp(), ParseMode::Brief);
    let indexes = Indexes::new(vec![0], vec![0]);
    let (_, rhs) = engine().gen_each_back(&result, (3, 8), &indexes, Some(0)).unwrap();
    assert_eq!(
        rhs,
        "\\frac{\\partial E_{total}}{\\partial h_1_{(0,)}} \\cdot \\frac{\\partial h_1_{(0,)}}{\\partial f_1_{(0,)}} \\cdot \\frac{\\partial f_1_{(0,)}}{\\partial w_{f_1_{(0,)}^{(0,)}}}"
    );
    let (_, deeper) = engine().gen_each_back(&result, (3, 8), &indexes, Some(5)).unwrap();
    let (_, uncapped) = engine().gen_each_back(&result, (3, 8), &indexes, None).unwrap();
    assert_eq!(deeper, uncapped);
}

#[test]
fn single_source_graph() {
    let graph = in_order(vec![node("Source", Operator::Source, &[], &[], &[1, 4])]);
    let mut result = parse(&graph, ParseMode::Brief);
    assert_eq!(result.symbol_map.len(), 1);
    assert!(result.senario.is_empty());
    assert_eq!(symbol(&result, 0), "\\overline{Input}");
    engine().gen_back_total(&mut result, &Indexes::new(vec![0], vec![0]), None);
    let rec = result.symbol_map[0].as_ref().unwrap();
    assert_eq!(rec.backward_symbol, "");
    assert_eq!(rec.backward_value, "");
}

#[test]
fn weightable_terminal_is_a_two_factor_chain() {
    let graph = in_order(vec![
        node("Source", Operator::Source, &[], &[1], &[1, 4]),
        node("fc", Operator::Gemm, &[0], &[], &[1, 3]),
    ]);
    let result = parse(&graph, ParseMode::Brief);
    assert_eq!(result.senario, vec![1]);
    let chain = expand_diff_symbol(&result.symbol_map, diff_node(&result.symbol_map, 1), 1);
    match &chain {
        DiffChainNode::Chain(v) => {
            assert_eq!(v.len(), 1);
            assert!(matches!(&v[0], DiffChainNode::Weightable(1, s) if s == "f_1"));
        }
        other => panic!("{:?}", other),
    }
    let indexes = Indexes::new(vec![2], vec![1]);
    let (lhs, rhs) = engine().gen_each_back(&result, (1, 1), &indexes, None).unwrap();
    assert_eq!(lhs, "\\frac{\\partial E_{total}}{\\partial w_{f_1_{(1,)}^{(2,)}}}");
    assert_eq!(
        rhs,
        "\\frac{\\partial E_{total}}{\\partial f_1_{(1,)}} \\cdot \\frac{\\partial f_1_{(1,)}}{\\partial w_{f_1_{(1,)}^{(2,)}}}"
    );
    let rendered = engine().templates.gen_backward_value(&chain, ErrorResultTo::Total, &indexes);
    assert_eq!(rendered, rhs);
}

#[test]
fn single_sigmoid_has_no_backward() {
    let graph = in_order(vec![
        node("Source", Operator::Source, &[], &[1], &[1, 4]),
        node("act", Operator::Sigmoid, &[0], &[], &[1, 4]),
    ]);
    let mut result = parse(&graph, ParseMode::Brief);
    assert_eq!(result.senario, vec![1]);
    assert_eq!(forward(&result, 1), "\\frac{1}{1+e^{-(\\overline{Input})}}");
    engine().gen_back_total(&mut result, &Indexes::new(vec![0], vec![0]), None);
    for n in 0..2 {
        let rec = result.symbol_map[n].as_ref().unwrap();
        assert_eq!(rec.backward_symbol, "");
        assert_eq!(rec.backward_value, "");
    }
}

fn conv_pool() -> Graph {
    in_order(vec![
        node("Source", Operator::Source, &[], &[3], &[1, 3, 32, 32]),
        node("conv.weight", Operator::Const, &[], &[3], &[8, 3, 3, 3]),
        node("conv.bias", Operator::Const, &[], &[3], &[8]),
        node("conv", Operator::Conv, &[0, 1, 2], &[4], &[1, 8, 30, 30]),
        node(
            "pool",
            Operator::MaxPool(PoolSpec { kernel_shape: vec![2, 3], strides: Some(vec![4, 2]) }),
            &[3],
            &[],
            &[1, 8, 15, 15],
        ),
    ])
}

#[test]
fn conv_followed_by_max_pool() {
    let mut result = parse(&conv_pool(), ParseMode::Brief);
    assert_eq!(result.senario, vec![3]);
    assert_eq!(symbol(&result, 3), "f_1");
    assert_eq!(symbol(&result, 4), "MaxPool_0");
    assert_eq!(forward(&result, 3), "\\overline{W_1} * \\overline{Input}+\\overline{B_1}");
    assert_eq!(
        forward(&result, 4),
        "\\max_{m=0,\u{2026},1} \\max_{n=0,\u{2026},2}f_1(Cj,2\u{d7}h+m,2\u{d7}w+n)"
    );
    let conv = result.symbol_map[3].as_ref().unwrap();
    assert_eq!(conv.kind, FormulKind::Cnn);
    assert_eq!(conv.input_shape_ref, Some(vec![1, 3, 32, 32]));
    let pool = result.symbol_map[4].as_ref().unwrap();
    assert_eq!(pool.kind, FormulKind::MaxPool);
    assert_eq!(pool.input_shape_ref, None);

    let chain = expand_diff_symbol(&result.symbol_map, diff_node(&result.symbol_map, 3), 3);
    match &chain {
        DiffChainNode::Chain(v) => {
            assert_eq!(v.len(), 2);
            match &v[0] {
                DiffChainNode::Sum(inner, dims) => {
                    assert_eq!(dims, &vec![8, 15, 15]);
                    match &**inner {
                        DiffChainNode::Chain(w) => {
                            assert_eq!(w.len(), 1);
                            assert!(matches!(&w[0], DiffChainNode::Weightable(4, _)));
                        }
                        other => panic!("{:?}", other),
                    }
                }
                other => panic!("{:?}", other),
            }
            assert!(matches!(&v[1], DiffChainNode::Weightable(3, _)));
        }
        other => panic!("{:?}", other),
    }
    let indexes = Indexes::new(vec![0, 1, 2], vec![3, 4, 5]);
    engine().gen_back_total(&mut result, &indexes, None);
    let conv = result.symbol_map[3].as_ref().unwrap();
    let subscript = "(cn_{0},hn_{0},wn_{0},)";
    let inner = format!(
        "\\frac{{\\partial E_{{total}}}}{{\\partial MaxPool_0_{{{s}}}}} \\cdot \\frac{{\\partial MaxPool_0_{{{s}}}}}{{\\partial f_1_{{(3,4,5,)}}}}",
        s = subscript
    );
    assert_eq!(
        conv.backward_value,
        format!(
            "\\sum_{{cn_{{0}}=0}}^{{7}}\\sum_{{hn_{{0}}=0}}^{{14}}\\sum_{{wn_{{0}}=0}}^{{14}}{} \\cdot \\frac{{\\partial f_1_{{(3,4,5,)}}}}{{\\partial w_{{f_1_{{(3,4,5,)}}^{{(0,1,2,)}}}}}}",
            inner
        )
    );
    assert_eq!(
        conv.backward_symbol,
        "\\frac{\\partial E_{total}}{\\partial w_{f_1_{(3,4,5,)}^{(0,1,2,)}}}"
    );
}

#[test]
fn qualified_const_is_a_weight() {
    let result = parse(&mlp(), ParseMode::Brief);
    let weight = result.symbol_map[5].as_ref().unwrap();
    assert_eq!(weight.kind, FormulKind::Weight);
    assert_eq!(weight.symbol, "\\overline{W_2}");
    assert_eq!(weight.extra_symbol, Some("weight".to_string()));
    assert!(!result.senario.contains(&5));
    let plain = in_order(vec![node("table", Operator::Const, &[], &[], &[2])]);
    let result = parse(&plain, ParseMode::Brief);
    let rec = result.symbol_map[0].as_ref().unwrap();
    assert_eq!(rec.kind, FormulKind::Const);
    assert_eq!(rec.symbol, "table_0");
}

#[test]
fn out_of_range_weight() {
    let graph = in_order(vec![
        node("Source", Operator::Source, &[], &[1], &[64, 20]),
        node("fc", Operator::Gemm, &[0], &[], &[64, 10]),
    ]);
    let mut result = parse(&graph, ParseMode::Brief);
    let indexes = Indexes::new(vec![0], vec![99]);
    assert_eq!(
        engine().gen_each_back(&result, (1, 1), &indexes, None),
        Err(EngineError::WeightIndexOutOfRange)
    );
    let two = Indexes::new(vec![0], vec![3, 0]);
    assert_eq!(
        engine().gen_each_back(&result, (1, 1), &two, None),
        Err(EngineError::WeightIndexOutOfRange)
    );
    let edge = Indexes::new(vec![0], vec![10]);
    assert_eq!(
        engine().gen_each_back(&result, (1, 1), &edge, None),
        Err(EngineError::WeightIndexOutOfRange)
    );
    assert!(engine().gen_each_back(&result, (1, 1), &Indexes::new(vec![0], vec![9]), None).is_ok());
    engine().gen_back_total(&mut result, &indexes, None);
    let rec = result.symbol_map[1].as_ref().unwrap();
    assert_eq!(rec.symbol, "f_1");
    assert_eq!(rec.backward_symbol, "");
    assert_eq!(rec.backward_value, "");
}

#[test]
fn missing_node_and_missing_shape() {
    let graph = in_order(vec![
        node("Source", Operator::Source, &[], &[1], &[1, 4]),
        node("fc", Operator::Gemm, &[0], &[], &[]),
    ]);
    let mut result = parse(&graph, ParseMode::Brief);
    let indexes = Indexes::new(vec![0], vec![0]);
    assert_eq!(
        engine().gen_each_back(&result, (1, 1), &indexes, None),
        Err(EngineError::ShapeMissing)
    );
    assert_eq!(
        engine().gen_each_back(&result, (7, 1), &indexes, None),
        Err(EngineError::NodeMissing)
    );
    result.symbol_map[0] = None;
    assert_eq!(
        engine().gen_each_back(&result, (0, 1), &indexes, None),
        Err(EngineError::NodeMissing)
    );
}

#[test]
fn unknown_operator() {
    let graph = in_order(vec![
        node("Source", Operator::Source, &[], &[1], &[1, 4]),
        node("odd", Operator::Other("Mystery".to_string()), &[0], &[2], &[1, 4]),
        node("act", Operator::Sigmoid, &[1], &[], &[1, 4]),
    ]);
    let result = parse(&graph, ParseMode::Brief);
    let rec = result.symbol_map[1].as_ref().unwrap();
    assert_eq!(rec.symbol, "");
    assert_eq!(rec.forward_value, "");
    assert_eq!(rec.kind, FormulKind::Undefined);
    assert_eq!(rec.extra_symbol, None);
    assert_eq!(rec.op_name, "Mystery");
    assert_eq!(result.senario, vec![2]);
    assert_eq!(forward(&result, 2), "\\frac{1}{1+e^{-()}}");
}

#[test]
fn operator_from_the_catalog() {
    let graph = in_order(vec![
        node("Source", Operator::Source, &[], &[1], &[1, 4]),
        node("act", Operator::Other("Relu".to_string()), &[0], &[], &[1, 4]),
    ]);
    let result = parse(&graph, ParseMode::Brief);
    let rec = result.symbol_map[1].as_ref().unwrap();
    assert_eq!(rec.kind, FormulKind::Activation);
    assert_eq!(rec.symbol, "h_1");
    assert_eq!(rec.forward_value, "\\max(0,\\overline{Input})");
    assert_eq!(result.senario, vec![1]);
}

#[test]
fn configuration_is_idempotent() {
    let graph = mlp();
    let mut engine = engine();
    engine.symbol_map = LatexResult::new(graph.nodes.len()).symbol_map;
    assert_eq!(engine.configure_node(&graph, 3), Some(FormulKind::Function));
    assert_eq!(engine.configure_node(&graph, 4), Some(FormulKind::Activation));
    let before: Vec<Option<String>> =
        engine.symbol_map.iter().map(|r| r.as_ref().map(|n| n.symbol.clone())).collect();
    let counts = (engine.formul_count, engine.activation_count, engine.weight_count);
    assert_eq!(engine.configure_node(&graph, 3), None);
    assert_eq!(engine.configure_node(&graph, 4), None);
    let after: Vec<Option<String>> =
        engine.symbol_map.iter().map(|r| r.as_ref().map(|n| n.symbol.clone())).collect();
    assert_eq!(before, after);
    assert_eq!(counts, (engine.formul_count, engine.activation_count, engine.weight_count));
    assert_eq!(counts, (1, 1, 0));
}

#[test]
fn engine_is_left_empty_and_reusable() {
    let graph = mlp();
    let mut engine = engine();
    let first = engine.parse_plan(&graph, ParseMode::Brief);
    assert!(engine.symbol_map.is_empty());
    assert_eq!(engine.formul_count, 0);
    assert_eq!(engine.activation_count, 0);
    let second = engine.parse_plan(&graph, ParseMode::Brief);
    for n in 0..graph.nodes.len() {
        assert_eq!(symbol(&first, n), symbol(&second, n));
    }
}

#[test]
fn order_that_visits_a_consumer_first() {
    let mut graph = mlp();
    graph.order = vec![3, 0, 1, 2, 4, 5, 6, 7, 8];
    let result = parse(&graph, ParseMode::Brief);
    assert_eq!(result.senario, vec![3, 4, 7, 8]);
    assert_eq!(forward(&result, 3), "\\overline{W_1} \\overline{Input}+\\overline{B_1}");
    assert_eq!(result.symbol_map[0].as_ref().unwrap().output_shape, vec![64, 784]);
}

#[test]
fn graph_validity() {
    assert!(mlp().is_valid());
    let mut bad = mlp();
    bad.nodes[3].inputs.push(9);
    assert!(!bad.is_valid());
    let mut order = mlp();
    order.order.push(9);
    assert!(!order.is_valid());
    let mut pool = conv_pool();
    pool.nodes[4].op = Operator::MaxPool(PoolSpec { kernel_shape: vec![2], strides: None });
    assert!(!pool.is_valid());
    let mut zero = conv_pool();
    zero.nodes[4].op = Operator::MaxPool(PoolSpec { kernel_shape: vec![0, 2], strides: None });
    assert!(!zero.is_valid());
}

#[test]
fn operator_adapter() {
    let lib = library();
    assert_eq!(Operator::Sigmoid.get_original_type(&lib), FormulKind::Activation);
    assert_eq!(Operator::Conv.get_original_type(&lib), FormulKind::Cnn);
    assert_eq!(Operator::Gemm.get_original_type(&lib), FormulKind::Function);
    assert_eq!(Operator::Const.get_original_type(&lib), FormulKind::Const);
    assert_eq!(Operator::Pad.get_original_type(&lib), FormulKind::Undefined);
    let pool = Operator::SumPool(PoolSpec { kernel_shape: vec![2, 2], strides: None });
    assert_eq!(pool.get_original_type(&lib), FormulKind::SumPool);
    let some = |s: &str| Some(s.to_string());
    assert_eq!(Operator::Const.get_symbol_type(&lib, &some("weight")), FormulKind::Weight);
    assert_eq!(Operator::Const.get_symbol_type(&lib, &some("bias")), FormulKind::Bias);
    assert_eq!(Operator::Dummy.get_symbol_type(&lib, &some("Source")), FormulKind::Input);
    assert_eq!(Operator::Const.get_symbol_type(&lib, &some("other")), FormulKind::Const);
    assert_eq!(Operator::Const.get_symbol_type(&lib, &None), FormulKind::Const);
    assert_eq!(Operator::Const.gen_forward(&lib, some("weight"), 4), "\\overline{W_4}");
    assert_eq!(Operator::Sigmoid.gen_forward(&lib, None, 2), "h_2");
    assert_eq!(
        Operator::Gemm.gen_backward("E", "w"),
        "\\frac{\\partial E}{\\partial w}"
    );
    let x = vec!["x".to_string()];
    assert_eq!(pool.gen_forward_value(&lib, &x, &None, &None), "\\sum x");
    let max = Operator::MaxPool(PoolSpec { kernel_shape: vec![3, 3], strides: None });
    assert_eq!(
        max.gen_forward_value(&lib, &x, &None, &None),
        "\\max_{m=0,\u{2026},2} \\max_{n=0,\u{2026},2}x(Cj,1\u{d7}h+m,1\u{d7}w+n)"
    );
    assert_eq!(Operator::Pad.gen_forward_value(&lib, &x, &None, &None), "");
}

fn d(a: &str, b: &str) -> String {
    format!("\\frac{{\\partial {}}}{{\\partial {}}}", a, b)
}

#[test]
fn three_layers_nest_two_sums() {
    let graph = in_order(vec![
        node("Source", Operator::Source, &[], &[1], &[8, 5]),
        node("fc1", Operator::Gemm, &[0], &[2], &[8, 5]),
        node("act1", Operator::Sigmoid, &[1], &[3], &[8, 5]),
        node("fc2", Operator::Gemm, &[2], &[4], &[8, 7]),
        node("act2", Operator::Sigmoid, &[3], &[5], &[8, 7]),
        node("fc3", Operator::Gemm, &[4], &[6], &[8, 3]),
        node("act3", Operator::Sigmoid, &[5], &[], &[8, 3]),
    ]);
    let result = parse(&graph, ParseMode::Brief);
    assert_eq!(result.senario, vec![1, 2, 3, 4, 5, 6]);
    let indexes = Indexes::new(vec![0], vec![0]);
    let (_, rhs) = engine().gen_each_back(&result, (1, 6), &indexes, None).unwrap();
    let innermost = format!(
        "{} \\cdot {} \\cdot {}",
        d("E_{total}", "h_3_{(cn_{1},)}"),
        d("h_3_{(cn_{1},)}", "f_3_{(cn_{1},)}"),
        d("f_3_{(cn_{1},)}", "h_2_{(cn_{0},)}")
    );
    let middle = format!(
        "\\sum_{{cn_{{1}}=0}}^{{2}}{} \\cdot {} \\cdot {}",
        innermost,
        d("h_2_{(cn_{0},)}", "f_2_{(cn_{0},)}"),
        d("f_2_{(cn_{0},)}", "h_1_{(0,)}")
    );
    let outer = format!(
        "\\sum_{{cn_{{0}}=0}}^{{6}}{} \\cdot {} \\cdot {}",
        middle,
        d("h_1_{(0,)}", "f_1_{(0,)}"),
        d("f_1_{(0,)}", "w_{f_1_{(0,)}^{(0,)}}")
    );
    assert_eq!(rhs, outer);

    let (_, capped) = engine().gen_each_back(&result, (1, 6), &indexes, Some(1)).unwrap();
    let collapsed = format!(
        "\\sum_{{cn_{{0}}=0}}^{{6}}{} \\cdot {} \\cdot {} \\cdot {} \\cdot {}",
        d("E_{total}", "h_2_{(cn_{0},)}"),
        d("h_2_{(cn_{0},)}", "f_2_{(cn_{0},)}"),
        d("f_2_{(cn_{0},)}", "h_1_{(0,)}"),
        d("h_1_{(0,)}", "f_1_{(0,)}"),
        d("f_1_{(0,)}", "w_{f_1_{(0,)}^{(0,)}}")
    );
    assert_eq!(capped, collapsed);
}

#[test]
fn every_node_has_a_record_of_its_own() {
    for graph in [mlp(), conv_pool()] {
        for mode in [ParseMode::Brief, ParseMode::Full(None), ParseMode::Full(Some(1))] {
            let result = parse(&graph, mode);
            assert_eq!(result.symbol_map.len(), graph.nodes.len());
            for (n, rec) in result.symbol_map.iter().enumerate() {
                assert_eq!(rec.as_ref().unwrap().index, n);
            }
        }
    }
}

#[test]
fn scenario_holds_eligible_kinds_in_order() {
    let mut graph = mlp();
    graph.order = vec![0, 1, 2, 5, 6, 3, 4, 7, 8];
    let result = parse(&graph, ParseMode::Brief);
    let mut last = None;
    for s in result.senario.iter() {
        let kind = result.symbol_map[*s].as_ref().unwrap().kind;
        assert!(matches!(
            kind,
            FormulKind::Activation | FormulKind::Function | FormulKind::Cnn
        ));
        let at = graph.order.iter().position(|n| n == s).unwrap();
        assert!(last < Some(at));
        last = Some(at);
    }
    assert_eq!(result.senario, vec![3, 4, 7, 8]);
}

#[test]
fn counted_symbols_are_unique() {
    let mut nodes = Vec::new();
    nodes.push(node("Source", Operator::Source, &[], &[], &[1, 2]));
    for k in 0..12 {
        nodes.push(node("l.weight", Operator::Const, &[], &[], &[2]));
        nodes.push(node("l.bias", Operator::Const, &[], &[], &[2]));
        nodes.push(node("fc", Operator::Gemm, &[0], &[], &[1, 2]));
        nodes.push(node("conv", Operator::Conv, &[0], &[], &[1, 2]));
        nodes.push(node("act", Operator::Sigmoid, &[0], &[], &[1, 2]));
        nodes.push(node("h", Operator::Const, &[], &[], &[k]));
    }
    let result = parse(&in_order(nodes), ParseMode::Brief);
    for (i, a) in result.symbol_map.iter().enumerate() {
        let a = a.as_ref().unwrap();
        let counted = matches!(
            a.kind,
            FormulKind::Activation
                | FormulKind::Function
                | FormulKind::Cnn
                | FormulKind::Weight
                | FormulKind::Bias
        );
        for (j, b) in result.symbol_map.iter().enumerate() {
            if i != j && counted {
                assert_ne!(a.symbol, b.as_ref().unwrap().symbol);
            }
        }
    }
    assert_eq!(symbol(&result, 3), "f_1");
    assert_eq!(symbol(&result, 4), "f_2");
    assert_eq!(symbol(&result, 6), "h_0");
    assert_eq!(symbol(&result, 72), "h_0");
    assert_eq!(symbol(&result, 71), "h_12");
}

#[test]
fn erasing_slashes() {
    let mut result = parse(&mlp(), ParseMode::Brief);
    {
        let rec = result.symbol_map[8].as_mut().unwrap();
        rec.symbol = "\\\\overline{x}".to_string();
        rec.forward_value = "a\\\\\\b\\\\\\\\c\\".to_string();
        rec.backward_symbol = "\\\\".to_string();
        rec.backward_value = "plain".to_string();
        rec.erase_slash();
        assert_eq!(rec.symbol, "\\overline{x}");
        assert_eq!(rec.forward_value, "a\\\\b\\\\c\\");
        assert_eq!(rec.backward_symbol, "\\");
        assert_eq!(rec.backward_value, "plain");
    }
    result.symbol_map[7].as_mut().unwrap().symbol = "f\\\\_2".to_string();
    result.symbol_map[6] = None;
    result.erase_slash();
    assert_eq!(result.symbol_map[7].as_ref().unwrap().symbol, "f\\_2");
    assert_eq!(result.symbol_map[8].as_ref().unwrap().forward_value, "a\\b\\c\\");
    assert!(result.symbol_map[6].is_none());
    assert_eq!(result.senario, vec![3, 4, 7, 8]);
}

#[test]
fn operators_by_name() {
    assert!(matches!(Operator::from_name("Conv", None), Operator::Conv));
    assert!(matches!(Operator::from_name("Gemm", None), Operator::Gemm));
    assert!(matches!(Operator::from_name("Sigmoid", None), Operator::Sigmoid));
    assert!(matches!(Operator::from_name("Const", None), Operator::Const));
    assert!(matches!(Operator::from_name("Pad", None), Operator::Pad));
    assert!(matches!(Operator::from_name("Dummy", None), Operator::Dummy));
    assert!(matches!(Operator::from_name("Source", None), Operator::Source));
    let pool = || Some(PoolSpec { kernel_shape: vec![2, 2], strides: None });
    assert!(matches!(Operator::from_name("MaxPool", pool()), Operator::MaxPool(_)));
    assert!(matches!(Operator::from_name("SumPool", pool()), Operator::SumPool(_)));
    assert!(matches!(Operator::from_name("MaxPool", None), Operator::Other(s) if s == "MaxPool"));
    assert!(matches!(Operator::from_name("Relu", pool()), Operator::Other(s) if s == "Relu"));
    for name in ["Conv", "Gemm", "Sigmoid", "Const", "Pad", "Dummy", "Source", "Tanh", ""] {
        assert_eq!(Operator::from_name(name, None).name(), name);
    }
    assert_eq!(Operator::from_name("SumPool", pool()).name(), "SumPool");
}

#[test]
fn weight_notation_and_subscripts() {
    let templates = Templates::load(&library()).unwrap();
    let indexes = Indexes::new(vec![4, 5], vec![1, 2, 3]);
    assert_eq!(
        templates.gen_w_symbol_inner("f_1".to_string(), &indexes, false),
        "f_1_{(1,2,3,)}^{(4,5,)}"
    );
    assert_eq!(
        templates.gen_w_symbol_inner("f_1".to_string(), &indexes, true),
        "w_{f_1_{(1,2,3,)}^{(4,5,)}}"
    );
    assert_eq!(
        templates.gen_error_symbol(&vec!["total".to_string(), "x".to_string()]),
        "E_{total}"
    );
    let letters: Vec<String> = ["c", "h", "w", "b"].iter().map(|s| s.to_string()).collect();
    assert_eq!(
        templates.get_p0p1(0, &indexes, "f_1".to_string(), &letters, 2),
        ("(1,2,3,)".to_string(), "f_1_{(1,2,3,)}^{(4,5,)}".to_string())
    );
    assert_eq!(
        templates.get_p0p1(1, &indexes, "f_1".to_string(), &letters, 2),
        ("(cn_{0},hn_{0},)".to_string(), "(1,2,3,)".to_string())
    );
    assert_eq!(
        templates.get_p0p1(3, &indexes, "f_1".to_string(), &letters, 5),
        (
            "(cn_{2},hn_{2},wn_{2},bn_{2},n_{2},)".to_string(),
            "(cn_{1},hn_{1},wn_{1},bn_{1},n_{1},)".to_string()
        )
    );
    assert_eq!(templates.gen_under("a".to_string(), "b".to_string()), "a_{b}");
    assert_eq!(
        templates.gen_diff("a".to_string(), "b".to_string()),
        "\\frac{\\partial a}{\\partial b}"
    );
}

#[test]
fn chain_nodes_render_by_shape() {
    let templates = Templates::load(&library()).unwrap();
    let indexes = Indexes::new(vec![0], vec![0]);
    let render = |c: &DiffChainNode| templates.gen_backward_value(c, ErrorResultTo::Total, &indexes);
    assert_eq!(render(&DiffChainNode::Not), "");
    assert_eq!(render(&DiffChainNode::Weightable(0, "f_1".to_string())), "");
    assert_eq!(render(&DiffChainNode::Chain(Vec::new())), "");
    let empty_sum = DiffChainNode::Sum(Box::new(DiffChainNode::Not), Vec::new());
    assert_eq!(render(&empty_sum), "");
    let zero_axis = DiffChainNode::Sum(Box::new(DiffChainNode::Not), vec![0, 4]);
    assert_eq!(render(&zero_axis), "\\sum_{cn_{0}=0}^{0}\\sum_{hn_{0}=0}^{3}");
    let lone = DiffChainNode::Chain(vec![DiffChainNode::UnWeightable(3, "h_1".to_string())]);
    assert_eq!(
        render(&lone),
        format!(
            "{} \\cdot {} \\cdot {}",
            d("E_{total}", "h_1_{(0,)}"),
            d("h_1_{(0,)}", "_{(0,)}"),
            d("_{(0,)}", "w_{_{(0,)}^{(0,)}}")
        )
    );
}

#[test]
fn errors_in_words() {
    assert_eq!(EngineError::TemplateMissing.message(), "template missing");
    assert_eq!(EngineError::NodeMissing.message(), "not found index");
    assert_eq!(EngineError::ShapeMissing.message(), "not found shape 0");
    assert_eq!(
        EngineError::WeightIndexOutOfRange.message(),
        "which's size exceed shape range"
    );
    assert_eq!(CatalogError::NotFound.message(), "not found");
}

#[test]
fn chains_can_be_copied() {
    let result = parse(&mlp(), ParseMode::Brief);
    let chain = expand_diff_symbol(&result.symbol_map, diff_node(&result.symbol_map, 3), 8);
    let copy = chain.clone();
    assert_eq!(copy, chain);
    assert_eq!(DiffChainNode::Not.clone(), DiffChainNode::Not);
    let indexes = Indexes::new(vec![0], vec![0]);
    assert_eq!(
        engine().gen_backward_value(&copy, ErrorResultTo::Total, &indexes),
        engine().gen_each_back(&result, (3, 8), &indexes, None).unwrap().1
    );
    assert_eq!(
        engine().expand_diff_symbol(&result.symbol_map, diff_node(&result.symbol_map, 3), 8),
        chain
    );
}
