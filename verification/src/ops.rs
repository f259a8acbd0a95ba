//! The operator adapter: what each operator kind contributes to symbols,
//! forward formulas and derivative quotients.

use vstd::prelude::*;
use crate::kind::{gen_symbol, get_extra_symbol, opt_text, qualifier_kind, symbol_text, FormulKind};
use crate::library::SymbolLibrary;
use crate::skeleton::{only_inputs_symbol_parts, render};
use crate::text::{decimal, same_text, text_at, texts, usize_to_string};

verus! {

/// Kernel and strides of a pooling operator.
#[derive(Debug, PartialEq, Eq)]
pub struct PoolSpec {
    pub kernel_shape: Vec<usize>,
    pub strides: Option<Vec<usize>>,
}

impl PoolSpec {
    /// A pool has a kernel of at least two positive extents and, where it
    /// names strides, at least two of them.
    pub open spec fn valid(&self) -> bool {
        &&& self.kernel_shape@.len() >= 2
        &&& self.kernel_shape@[0] >= 1
        &&& self.kernel_shape@[1] >= 1
        &&& (self.strides is Some ==> self.strides->0@.len() >= 2)
    }

    /// The stride along the second kernel axis; 1 where none is named.
    pub open spec fn stride(&self) -> nat {
        match self.strides {
            Some(s) => s@[1] as nat,
            None => 1,
        }
    }

    /// Whether the pool is valid.
    pub fn is_valid(&self) -> (r: bool)
        ensures
            r == self.valid(),
    {
        if self.kernel_shape.len() < 2 || self.kernel_shape[0] < 1 || self.kernel_shape[1] < 1 {
            return false;
        }
        match &self.strides {
            Some(s) => s.len() >= 2,
            None => true,
        }
    }
}

/// The closed set of operators that the engine knows, and a fallback for
/// every other operator, which carries the operator's key.
#[derive(Debug, PartialEq, Eq)]
pub enum Operator {
    Conv,
    Gemm,
    Sigmoid,
    MaxPool(PoolSpec),
    SumPool(PoolSpec),
    Const,
    Pad,
    Dummy,
    Source,
    Other(String),
}

/// The kind that a node has: the one its qualifier forces, else its
/// operator's own.
pub open spec fn effective_kind(original: FormulKind, extra: Option<Seq<char>>) -> FormulKind {
    match extra {
        Some(s) => if qualifier_kind(s) != FormulKind::Undefined {
            qualifier_kind(s)
        } else {
            original
        },
        None => original,
    }
}

/// The derivative of `upper` by `under`, as a fraction.
pub open spec fn quotient(upper: Seq<char>, under: Seq<char>) -> Seq<char> {
    "\\frac{\\partial "@ + upper + "}{\\partial "@ + under + "}"@
}

/// The logistic function of `x`.
pub open spec fn logistic(x: Seq<char>) -> Seq<char> {
    "\\frac{1}{1+e^{-("@ + x + ")}}"@
}

/// The sum over `x`.
pub open spec fn pooled_sum(x: Seq<char>) -> Seq<char> {
    "\\sum "@ + x
}

/// The maximum of `x` over a kernel window of `kh` by `kw` steps, taken at
/// stride `stride`.
pub open spec fn pooled_max(x: Seq<char>, kh: nat, kw: nat, stride: nat) -> Seq<char> {
    "\\max_{m=0,\u{2026},"@ + decimal(kh) + "} \\max_{n=0,\u{2026},"@ + decimal(kw) + "}"@ + x + "(Cj,"@
        + decimal(stride) + "\u{d7}h+m,"@ + decimal(stride) + "\u{d7}w+n)"@
}

/// What an operator contributes to the engine.
pub trait MathGen {
    /// The operator's own kind.
    spec fn original_kind(&self, lib: &SymbolLibrary) -> FormulKind;

    /// The forward formula over the given input texts.
    spec fn forward_text(&self, lib: &SymbolLibrary, inputs: Seq<Seq<char>>) -> Seq<char>;

    /// Whether the operator's parameters are usable.
    spec fn valid(&self) -> bool;

    fn get_original_type(&self, lib: &SymbolLibrary) -> (k: FormulKind)
        ensures
            k == self.original_kind(lib),
    ;

    fn get_symbol_type(&self, lib: &SymbolLibrary, extra_symbol: &Option<String>) -> (k:
        FormulKind)
        ensures
            k == effective_kind(self.original_kind(lib), opt_text(*extra_symbol)),
    ;

    fn gen_forward(&self, lib: &SymbolLibrary, extra_symbol: Option<String>, idx: usize) -> (r:
        String)
        ensures
            r@ == symbol_text(
                opt_text(extra_symbol),
                effective_kind(self.original_kind(lib), opt_text(extra_symbol)),
                idx as nat,
            ),
    ;

    fn gen_forward_value(
        &self,
        lib: &SymbolLibrary,
        inputs: &Vec<String>,
        input_shape: &Option<Vec<usize>>,
        output_shape: &Option<Vec<usize>>,
    ) -> (r: String)
        requires
            self.valid(),
        ensures
            r@ == self.forward_text(lib, texts(inputs@)),
    ;

    fn gen_backward(&self, upper: &str, under: &str) -> (r: String)
        ensures
            r@ == quotient(upper@, under@),
    ;
}

impl Operator {
    /// The key under which the catalogs hold the operator.
    pub open spec fn key(&self) -> Seq<char> {
        match self {
            Operator::Conv => "Conv"@,
            Operator::Gemm => "Gemm"@,
            Operator::Sigmoid => "Sigmoid"@,
            Operator::MaxPool(_) => "MaxPool"@,
            Operator::SumPool(_) => "SumPool"@,
            Operator::Const => "Const"@,
            Operator::Pad => "Pad"@,
            Operator::Dummy => "Dummy"@,
            Operator::Source => "Source"@,
            Operator::Other(name) => name@,
        }
    }

    /// The operator's key.
    pub fn name(&self) -> (r: String)
        ensures
            r@ == self.key(),
    {
        match self {
            Operator::Conv => String::from_str("Conv"),
            Operator::Gemm => String::from_str("Gemm"),
            Operator::Sigmoid => String::from_str("Sigmoid"),
            Operator::MaxPool(_) => String::from_str("MaxPool"),
            Operator::SumPool(_) => String::from_str("SumPool"),
            Operator::Const => String::from_str("Const"),
            Operator::Pad => String::from_str("Pad"),
            Operator::Dummy => String::from_str("Dummy"),
            Operator::Source => String::from_str("Source"),
            Operator::Other(name) => name.clone(),
        }
    }

    /// The operator that the key `name` names; its key is `name` again.
    /// A pool is one only with its parameters, and whatever the closed set
    /// does not hold is another operator under its own key.
    pub fn from_name(name: &str, pool: Option<PoolSpec>) -> (r: Operator)
        ensures
            r.key() == name@,
            r is Conv <==> name@ == "Conv"@,
            r is Gemm <==> name@ == "Gemm"@,
            r is Sigmoid <==> name@ == "Sigmoid"@,
            r is Const <==> name@ == "Const"@,
            r is Pad <==> name@ == "Pad"@,
            r is Dummy <==> name@ == "Dummy"@,
            r is Source <==> name@ == "Source"@,
            r is MaxPool <==> name@ == "MaxPool"@ && pool is Some,
            r is SumPool <==> name@ == "SumPool"@ && pool is Some,
            r is MaxPool ==> r->MaxPool_0 == pool->0,
            r is SumPool ==> r->SumPool_0 == pool->0,
    {
        proof {
            reveal_strlit("Conv");
            reveal_strlit("Gemm");
            reveal_strlit("Sigmoid");
            reveal_strlit("Const");
            reveal_strlit("Pad");
            reveal_strlit("Dummy");
            reveal_strlit("Source");
            reveal_strlit("MaxPool");
            reveal_strlit("SumPool");
            assert("Conv"@[0] == 'C' && "Gemm"@[0] == 'G');
            assert("Const"@[0] == 'C' && "Dummy"@[0] == 'D');
            assert("Sigmoid"@[1] == 'i' && "MaxPool"@[1] == 'a' && "SumPool"@[1] == 'u');
        }
        if same_text(name, "Conv") {
            Operator::Conv
        } else if same_text(name, "Gemm") {
            Operator::Gemm
        } else if same_text(name, "Sigmoid") {
            Operator::Sigmoid
        } else if same_text(name, "Const") {
            Operator::Const
        } else if same_text(name, "Pad") {
            Operator::Pad
        } else if same_text(name, "Dummy") {
            Operator::Dummy
        } else if same_text(name, "Source") {
            Operator::Source
        } else {
            let max = same_text(name, "MaxPool");
            let sum = same_text(name, "SumPool");
            match pool {
                Some(p) => {
                    if max {
                        Operator::MaxPool(p)
                    } else if sum {
                        Operator::SumPool(p)
                    } else {
                        Operator::Other(String::from_str(name))
                    }
                },
                None => Operator::Other(String::from_str(name)),
            }
        }
    }

    /// The formula that the catalogs hold for the operator, over the given
    /// inputs; empty where they hold none.
    pub open spec fn catalog_text(&self, lib: &SymbolLibrary, inputs: Seq<Seq<char>>) -> Seq<
        char,
    > {
        if lib.holds(self.key()) {
            render(lib.formula(self.key()), inputs, Seq::empty(), Seq::empty())
        } else {
            Seq::empty()
        }
    }

    fn catalog_value(&self, lib: &SymbolLibrary, inputs: &Vec<String>) -> (r: String)
        ensures
            r@ == self.catalog_text(lib, texts(inputs@)),
    {
        let key = self.name();
        match lib.skeleton(key.as_str()) {
            Some(skeleton) => only_inputs_symbol_parts(&skeleton, inputs),
            None => String::new(),
        }
    }
}

impl MathGen for Operator {
    /// Sigmoid is an activation, Gemm a function, Conv a convolution, the
    /// pools and Const their own kinds. Any other operator has the kind of
    /// the catalog that holds its key, and is undefined where none does.
    open spec fn original_kind(&self, lib: &SymbolLibrary) -> FormulKind {
        match self {
            Operator::Sigmoid => FormulKind::Activation,
            Operator::Gemm => FormulKind::Function,
            Operator::Conv => FormulKind::Cnn,
            Operator::MaxPool(_) => FormulKind::MaxPool,
            Operator::SumPool(_) => FormulKind::SumPool,
            Operator::Const => FormulKind::Const,
            _ => if lib.holds(self.key()) {
                lib.kind(self.key())
            } else {
                FormulKind::Undefined
            },
        }
    }

    /// Sigmoid and the pools have formulas of their own over their first
    /// input; any other operator has the formula that the catalogs hold for
    /// it, and the empty one where they hold none.
    open spec fn forward_text(&self, lib: &SymbolLibrary, inputs: Seq<Seq<char>>) -> Seq<char> {
        match self {
            Operator::Sigmoid => logistic(text_at(inputs, 0)),
            Operator::SumPool(_) => pooled_sum(text_at(inputs, 0)),
            Operator::MaxPool(pool) => pooled_max(
                text_at(inputs, 0),
                (pool.kernel_shape@[0] - 1) as nat,
                (pool.kernel_shape@[1] - 1) as nat,
                pool.stride(),
            ),
            _ => self.catalog_text(lib, inputs),
        }
    }

    open spec fn valid(&self) -> bool {
        match self {
            Operator::MaxPool(pool) => pool.valid(),
            Operator::SumPool(pool) => pool.valid(),
            _ => true,
        }
    }

    fn get_original_type(&self, lib: &SymbolLibrary) -> (k: FormulKind) {
        match self {
            Operator::Sigmoid => FormulKind::Activation,
            Operator::Gemm => FormulKind::Function,
            Operator::Conv => FormulKind::Cnn,
            Operator::MaxPool(_) => FormulKind::MaxPool,
            Operator::SumPool(_) => FormulKind::SumPool,
            Operator::Const => FormulKind::Const,
            _ => {
                let key = self.name();
                match lib.get_symbol(key.as_str()) {
                    Some(hit) => hit.1,
                    None => FormulKind::Undefined,
                }
            },
        }
    }

    fn get_symbol_type(&self, lib: &SymbolLibrary, extra_symbol: &Option<String>) -> (k:
        FormulKind) {
        match extra_symbol {
            Some(s) => {
                let forced = get_extra_symbol(s.as_str());
                if forced != FormulKind::Undefined {
                    forced
                } else {
                    self.get_original_type(lib)
                }
            },
            None => self.get_original_type(lib),
        }
    }

    fn gen_forward(&self, lib: &SymbolLibrary, extra_symbol: Option<String>, idx: usize) -> (r:
        String) {
        let kind = self.get_symbol_type(lib, &extra_symbol);
        gen_symbol(extra_symbol, kind, idx)
    }

    fn gen_forward_value(
        &self,
        lib: &SymbolLibrary,
        inputs: &Vec<String>,
        input_shape: &Option<Vec<usize>>,
        output_shape: &Option<Vec<usize>>,
    ) -> (r: String) {
        let ghost xs = texts(inputs@);
        match self {
            Operator::Sigmoid => {
                let mut r = String::from_str("\\frac{1}{1+e^{-(");
                if inputs.len() > 0 {
                    r.append(inputs[0].as_str());
                }
                r.append(")}}");
                assert(r@ =~= logistic(text_at(xs, 0)));
                r
            },
            Operator::SumPool(_) => {
                let mut r = String::from_str("\\sum ");
                if inputs.len() > 0 {
                    r.append(inputs[0].as_str());
                }
                assert(r@ =~= pooled_sum(text_at(xs, 0)));
                r
            },
            Operator::MaxPool(pool) => {
                let stride: usize = match &pool.strides {
                    Some(s) => s[1],
                    None => 1,
                };
                let s1 = usize_to_string(stride);
                let mut r = String::from_str("\\max_{m=0,\u{2026},");
                r.append(usize_to_string(pool.kernel_shape[0] - 1).as_str());
                r.append("} \\max_{n=0,\u{2026},");
                r.append(usize_to_string(pool.kernel_shape[1] - 1).as_str());
                r.append("}");
                if inputs.len() > 0 {
                    r.append(inputs[0].as_str());
                }
                r.append("(Cj,");
                r.append(s1.as_str());
                r.append("\u{d7}h+m,");
                r.append(s1.as_str());
                r.append("\u{d7}w+n)");
                assert(r@ =~= pooled_max(
                    text_at(xs, 0),
                    (pool.kernel_shape@[0] - 1) as nat,
                    (pool.kernel_shape@[1] - 1) as nat,
                    pool.stride(),
                ));
                r
            },
            _ => self.catalog_value(lib, inputs),
        }
    }

    fn gen_backward(&self, upper: &str, under: &str) -> (r: String) {
        let mut r = String::from_str("\\frac{\\partial ");
        r.append(upper);
        r.append("}{\\partial ");
        r.append(under);
        r.append("}");
        r
    }
}

} // verus!
