use latex_gen::engine::{LatexEngine, ParseMode};
use latex_gen::graph::{Graph, GraphNode};
use latex_gen::kind::FormulKind;
use latex_gen::library::SymbolLibrary;
use latex_gen::node_info::{Formul, FormulNode};
use latex_gen::ops::Operator;
use latex_gen::symbol_map::{LatexNode, LatexResult};
use latex_gen::templates::Indexes;
use serde_json::Value;

const KINDS: [(FormulKind, &str); 12] = [
    (FormulKind::Activation, "Activation"),
    (FormulKind::Function, "Function"),
    (FormulKind::Base, "Base"),
    (FormulKind::Not, "Not"),
    (FormulKind::Undefined, "Undefined"),
    (FormulKind::Bias, "Bias"),
    (FormulKind::Weight, "Weight"),
    (FormulKind::Input, "Input"),
    (FormulKind::Cnn, "Cnn"),
    (FormulKind::Const, "Const"),
    (FormulKind::MaxPool, "MaxPool"),
    (FormulKind::SumPool, "SumPool"),
];

fn numbers(v: &[usize]) -> Value {
    Value::Array(v.iter().map(|n| Value::from(*n as u64)).collect())
}

fn read_numbers(v: &Value) -> Vec<usize> {
    v.as_array().unwrap().iter().map(|n| n.as_u64().unwrap() as usize).collect()
}

fn text(v: &Value) -> String {
    v.as_str().unwrap().to_string()
}

fn node_to_json(n: &LatexNode) -> Value {
    let mut m = serde_json::Map::new();
    m.insert("index".to_string(), Value::from(n.index as u64));
    m.insert("inputs".to_string(), numbers(&n.inputs));
    m.insert("outputs".to_string(), numbers(&n.outputs));
    m.insert("symbol".to_string(), Value::from(n.symbol.clone()));
    m.insert(
        "extra_symbol".to_string(),
        n.extra_symbol.clone().map(Value::from).unwrap_or(Value::Null),
    );
    let kind = KINDS.iter().find(|(k, _)| *k == n.kind).unwrap().1;
    m.insert("kind".to_string(), Value::from(kind));
    m.insert("forward_value".to_string(), Value::from(n.forward_value.clone()));
    m.insert("op_name".to_string(), Value::from(n.op_name.clone()));
    m.insert(
        "input_shape_ref".to_string(),
        n.input_shape_ref.as_ref().map(|s| numbers(s)).unwrap_or(Value::Null),
    );
    m.insert("output_shape".to_string(), numbers(&n.output_shape));
    m.insert("backward_value".to_string(), Value::from(n.backward_value.clone()));
    m.insert("backward_symbol".to_string(), Value::from(n.backward_symbol.clone()));
    Value::Object(m)
}

fn node_from_json(v: &Value) -> LatexNode {
    let kind = v["kind"].as_str().unwrap();
    LatexNode {
        index: v["index"].as_u64().unwrap() as usize,
        inputs: read_numbers(&v["inputs"]),
        outputs: read_numbers(&v["outputs"]),
        symbol: text(&v["symbol"]),
        extra_symbol: v["extra_symbol"].as_str().map(|s| s.to_string()),
        kind: KINDS.iter().find(|(_, name)| *name == kind).unwrap().0,
        forward_value: text(&v["forward_value"]),
        op_name: text(&v["op_name"]),
        input_shape_ref: if v["input_shape_ref"].is_null() {
            None
        } else {
            Some(read_numbers(&v["input_shape_ref"]))
        },
        output_shape: read_numbers(&v["output_shape"]),
        backward_value: text(&v["backward_value"]),
        backward_symbol: text(&v["backward_symbol"]),
    }
}

fn result_to_json(r: &LatexResult) -> Value {
    let mut m = serde_json::Map::new();
    m.insert(
        "symbol_map".to_string(),
        Value::Array(
            r.symbol_map
                .iter()
                .map(|n| n.as_ref().map(node_to_json).unwrap_or(Value::Null))
                .collect(),
        ),
    );
    m.insert("senario".to_string(), numbers(&r.senario));
    Value::Object(m)
}

fn result_from_json(v: &Value) -> LatexResult {
    LatexResult {
        symbol_map: v["symbol_map"]
            .as_array()
            .unwrap()
            .iter()
            .map(|n| if n.is_null() { None } else { Some(node_from_json(n)) })
            .collect(),
        senario: read_numbers(&v["senario"]),
    }
}

fn entry(key: &str, formul: &str, symbol: Option<&str>) -> (String, FormulNode) {
    (
        key.to_string(),
        FormulNode {
            inputs: 0,
            formul: formul.to_string(),
            declaration: Vec::new(),
            diff: None,
            symbol: symbol.map(|s| s.to_string()),
        },
    )
}

fn library() -> SymbolLibrary {
    SymbolLibrary {
        func: Formul {
            symbol: "f".to_string(),
            n_type: FormulKind::Function,
            entries: vec![entry("Conv", "#_1 * #_0", None)],
        },
        etc: Formul {
            symbol: String::new(),
            n_type: FormulKind::Base,
            entries: vec![
                entry("_Diff", "\\frac{\\partial #_0}{\\partial #_1}", None),
                entry("_Sum", "\\sum_{@_0=0}^{@_1}#_0", None),
                entry("_Sum_w", "\\sum_{@_0=0}^{@_1}", None),
                entry("_Chain2", "#_0 \\cdot #_1", None),
                entry("_Chain3", "#_0 \\cdot #_1 \\cdot #_2", None),
                entry("_Under", "#_0_{#_1}", None),
                entry("_Weight", "#_0^{#_1}", None),
                entry("Error", "", Some("E_{#_0}")),
            ],
        },
        activation: Formul::default(),
    }
}

fn node(name: &str, op: Operator, inputs: &[usize], successors: &[usize], shape: &[usize])
    -> GraphNode {
    GraphNode {
        name: name.to_string(),
        op,
        inputs: inputs.to_vec(),
        successors: successors.to_vec(),
        output_shape: shape.to_vec(),
    }
}

#[test]
fn parse_result_survives_json() {
    let graph = Graph {
        nodes: vec![
            node("Source", Operator::Source, &[], &[2], &[1, 3, 8, 8]),
            node("conv.weight", Operator::Const, &[], &[2], &[4, 3, 3, 3]),
            node("conv", Operator::Conv, &[0, 1], &[3], &[1, 4, 6, 6]),
            node("act", Operator::Sigmoid, &[2], &[], &[1, 4, 6, 6]),
            node("odd", Operator::Other("Mystery".to_string()), &[], &[], &[]),
        ],
        order: vec![0, 1, 2, 3],
    };
    assert!(graph.is_valid());
    let mut engine = LatexEngine::new(library()).unwrap();
    let mut result = engine.parse_plan(&graph, ParseMode::Full(None));
    engine.gen_back_total(&mut result, &Indexes::new(vec![0, 0], vec![1, 2, 3]), None);
    assert!(result.symbol_map[4].is_none());
    assert_ne!(result.symbol_map[2].as_ref().unwrap().backward_value, "");

    let written = serde_json::to_string_pretty(&result_to_json(&result)).unwrap();
    let read: Value = serde_json::from_str(&written).unwrap();
    let back = result_from_json(&read);
    assert_eq!(back, result);
    assert!(written.contains("\"senario\""));
    assert!(written.contains("\"symbol_map\""));
}
