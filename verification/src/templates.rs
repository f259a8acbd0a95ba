//! The auxiliary templates of the chain-rule renderer, parsed once, and the
//! symbols that are built from them.

use vstd::prelude::*;
use crate::library::SymbolLibrary;
use crate::skeleton::{
    only_inputs_symbol_parts, parse_skeleton, render, symbol_split, Skeleton, SkeletonView,
};
use crate::text::{
    continous_index, decimal, decimals, index_tuple, numerals, text_at, texts, usize_to_string,
};

verus! {

/// The position of a weight: indices into the layer's output and into its
/// weight tensor.
#[derive(Debug, PartialEq, Eq)]
pub struct Indexes {
    pub weight_idx: Vec<usize>,
    pub func_idx: Vec<usize>,
}

impl Indexes {
    pub fn new(w: Vec<usize>, f: Vec<usize>) -> (r: Self)
        ensures
            r.weight_idx == w,
            r.func_idx == f,
    {
        Indexes { weight_idx: w, func_idx: f }
    }
}

/// Why the engine could not be built or a derivative not be rendered.
#[derive(Clone, Copy, PartialEq, Eq, Structural, Debug)]
pub enum EngineError {
    /// An auxiliary template is absent from the library.
    TemplateMissing,
    /// The symbol map holds no record for the node.
    NodeMissing,
    /// The node's record holds no output shape.
    ShapeMissing,
    /// A weight coordinate lies outside the node's output shape.
    WeightIndexOutOfRange,
}

impl EngineError {
    /// What went wrong, in words.
    pub open spec fn text(self) -> Seq<char> {
        match self {
            EngineError::TemplateMissing => "template missing"@,
            EngineError::NodeMissing => "not found index"@,
            EngineError::ShapeMissing => "not found shape 0"@,
            EngineError::WeightIndexOutOfRange => "which's size exceed shape range"@,
        }
    }

    /// What went wrong, in words.
    pub fn message(&self) -> (r: String)
        ensures
            r@ == self.text(),
    {
        match self {
            EngineError::TemplateMissing => String::from_str("template missing"),
            EngineError::NodeMissing => String::from_str("not found index"),
            EngineError::ShapeMissing => String::from_str("not found shape 0"),
            EngineError::WeightIndexOutOfRange => String::from_str(
                "which's size exceed shape range",
            ),
        }
    }
}

/// The parsed auxiliary templates.
#[derive(Debug, PartialEq, Eq)]
pub struct Templates {
    pub diff: Skeleton,
    pub sum: Skeleton,
    pub chain2: Skeleton,
    pub chain3: Skeleton,
    pub under: Skeleton,
    pub sum_w: Skeleton,
    pub weight: Skeleton,
    pub error: Skeleton,
}

/// The mathematical content of [`Templates`].
pub ghost struct TemplatesView {
    pub diff: SkeletonView,
    pub sum: SkeletonView,
    pub chain2: SkeletonView,
    pub chain3: SkeletonView,
    pub under: SkeletonView,
    pub sum_w: SkeletonView,
    pub weight: SkeletonView,
    pub error: SkeletonView,
}

impl View for Templates {
    type V = TemplatesView;

    open spec fn view(&self) -> TemplatesView {
        TemplatesView {
            diff: self.diff@,
            sum: self.sum@,
            chain2: self.chain2@,
            chain3: self.chain3@,
            under: self.under@,
            sum_w: self.sum_w@,
            weight: self.weight@,
            error: self.error@,
        }
    }
}

/// Whether the library holds every auxiliary template.
pub open spec fn complete(lib: &SymbolLibrary) -> bool {
    &&& lib.holds("_Diff"@)
    &&& lib.holds("_Sum"@)
    &&& lib.holds("_Chain2"@)
    &&& lib.holds("_Chain3"@)
    &&& lib.holds("_Under"@)
    &&& lib.holds("_Sum_w"@)
    &&& lib.holds("_Weight"@)
    &&& lib.holds("Error"@)
}

/// The auxiliary templates of a complete library. The error template is the
/// display symbol of its entry; the others are forward templates.
pub open spec fn templates_of(lib: &SymbolLibrary) -> TemplatesView {
    TemplatesView {
        diff: lib.formula("_Diff"@),
        sum: lib.formula("_Sum"@),
        chain2: lib.formula("_Chain2"@),
        chain3: lib.formula("_Chain3"@),
        under: lib.formula("_Under"@),
        sum_w: lib.formula("_Sum_w"@),
        weight: lib.formula("_Weight"@),
        error: parse_skeleton(lib.display_symbol("Error"@)@),
    }
}

/// `a` with subscript `b`.
pub open spec fn under_text(t: TemplatesView, a: Seq<char>, b: Seq<char>) -> Seq<char> {
    render(t.under, seq![a, b], Seq::empty(), Seq::empty())
}

/// The quotient of `a` by `b`.
pub open spec fn diff_text(t: TemplatesView, a: Seq<char>, b: Seq<char>) -> Seq<char> {
    render(t.diff, seq![a, b], Seq::empty(), Seq::empty())
}

/// The product of two factors.
pub open spec fn chain2_text(t: TemplatesView, a: Seq<char>, b: Seq<char>) -> Seq<char> {
    render(t.chain2, seq![a, b], Seq::empty(), Seq::empty())
}

/// The product of three factors.
pub open spec fn chain3_text(t: TemplatesView, a: Seq<char>, b: Seq<char>, c: Seq<char>) -> Seq<
    char,
> {
    render(t.chain3, seq![a, b, c], Seq::empty(), Seq::empty())
}

/// The sum of `inner` over the index `start`, up to `end`.
pub open spec fn sum_text(t: TemplatesView, inner: Seq<char>, start: Seq<char>, end: Seq<char>)
    -> Seq<char> {
    render(t.sum, seq![inner], seq![start, end], Seq::empty())
}

/// A summation sign over the index `start`, up to `end`, without a body.
pub open spec fn sum_w_text(t: TemplatesView, start: Seq<char>, end: Seq<char>) -> Seq<char> {
    render(t.sum_w, Seq::empty(), seq![start, end], Seq::empty())
}

/// The error symbol over the given subscripts.
pub open spec fn error_text(t: TemplatesView, target: Seq<Seq<char>>) -> Seq<char> {
    render(t.error, target, Seq::empty(), Seq::empty())
}

/// The notation of the weight at `indexes` of the layer `target`; with
/// `deeper`, as a subscript of `w`.
pub open spec fn weight_text(t: TemplatesView, target: Seq<char>, indexes: &Indexes, deeper: bool)
    -> Seq<char> {
    let func_name = under_text(t, target, index_tuple(decimals(indexes.func_idx@)));
    let between = render(
        t.weight,
        seq![func_name, index_tuple(decimals(indexes.weight_idx@))],
        Seq::empty(),
        Seq::empty(),
    );
    if deeper {
        under_text(t, "w"@, between)
    } else {
        between
    }
}

/// The summation indices of nesting level `n`: one for each of the first
/// `many` axis letters.
pub open spec fn axis_indices(proper: Seq<Seq<char>>, many: nat, n: nat) -> Seq<Seq<char>> {
    Seq::new(many, |s: int| text_at(proper, s) + "n_{"@ + decimal(n) + "}"@)
}

/// The subscripts of `level`: the upper one and the lower one. At level 0
/// they are the caller's output indices and the full weight notation of
/// `last_symbol`; deeper, they are the summation indices of the level above
/// and of the level above that, with the caller's output indices at level 1.
pub open spec fn p0p1_text(
    t: TemplatesView,
    level: nat,
    indexes: &Indexes,
    last_symbol: Seq<char>,
    proper: Seq<Seq<char>>,
    many: nat,
) -> (Seq<char>, Seq<char>) {
    if level == 0 {
        (index_tuple(decimals(indexes.func_idx@)), weight_text(t, last_symbol, indexes, false))
    } else {
        (
            index_tuple(axis_indices(proper, many, (level - 1) as nat)),
            if level > 1 {
                index_tuple(axis_indices(proper, many, (level - 2) as nat))
            } else {
                index_tuple(decimals(indexes.func_idx@))
            },
        )
    }
}

/// A vector of two strings.
pub fn pair(a: String, b: String) -> (r: Vec<String>)
    ensures
        texts(r@) == seq![a@, b@],
{
    let mut v: Vec<String> = Vec::new();
    v.push(a);
    v.push(b);
    assert(texts(v@) =~= seq![a@, b@]);
    v
}

/// A vector of three strings.
pub fn triple(a: String, b: String, c: String) -> (r: Vec<String>)
    ensures
        texts(r@) == seq![a@, b@, c@],
{
    let mut v: Vec<String> = Vec::new();
    v.push(a);
    v.push(b);
    v.push(c);
    assert(texts(v@) =~= seq![a@, b@, c@]);
    v
}

impl Templates {
    /// Parses the auxiliary templates of `lib`; fails where one is absent.
    pub fn load(lib: &SymbolLibrary) -> (r: Result<Templates, EngineError>)
        ensures
            r is Ok <==> complete(lib),
            r is Ok ==> r->Ok_0@ == templates_of(lib),
            r is Err ==> r->Err_0 == EngineError::TemplateMissing,
    {
        let diff = lib.skeleton("_Diff");
        let sum = lib.skeleton("_Sum");
        let chain2 = lib.skeleton("_Chain2");
        let chain3 = lib.skeleton("_Chain3");
        let under = lib.skeleton("_Under");
        let sum_w = lib.skeleton("_Sum_w");
        let weight = lib.skeleton("_Weight");
        let error = match lib.get_symbol("Error") {
            Some(hit) => Some(symbol_split(hit.0.as_str())),
            None => None,
        };
        match (diff, sum, chain2, chain3, under, sum_w, weight, error) {
            (
                Some(diff),
                Some(sum),
                Some(chain2),
                Some(chain3),
                Some(under),
                Some(sum_w),
                Some(weight),
                Some(error),
            ) => Ok(Templates { diff, sum, chain2, chain3, under, sum_w, weight, error }),
            _ => Err(EngineError::TemplateMissing),
        }
    }

    /// Writes `a` with subscript `b`.
    pub fn gen_under(&self, a: String, b: String) -> (r: String)
        ensures
            r@ == under_text(self@, a@, b@),
    {
        only_inputs_symbol_parts(&self.under, &pair(a, b))
    }

    /// Writes the quotient of `a` by `b`.
    pub fn gen_diff(&self, a: String, b: String) -> (r: String)
        ensures
            r@ == diff_text(self@, a@, b@),
    {
        only_inputs_symbol_parts(&self.diff, &pair(a, b))
    }

    /// Writes the weight notation of the layer `target`.
    pub fn gen_w_symbol_inner(&self, target: String, indexes: &Indexes, deeper: bool) -> (r:
        String)
        ensures
            r@ == weight_text(self@, target@, indexes, deeper),
    {
        let c = continous_index(&numerals(&indexes.func_idx));
        let func_name = self.gen_under(target, c);
        let w_c = continous_index(&numerals(&indexes.weight_idx));
        let between_symbol = only_inputs_symbol_parts(&self.weight, &pair(func_name, w_c));
        if deeper {
            self.gen_under(String::from_str("w"), between_symbol)
        } else {
            between_symbol
        }
    }

    /// Writes the error symbol over the given subscripts.
    pub fn gen_error_symbol(&self, target: &Vec<String>) -> (r: String)
        ensures
            r@ == error_text(self@, texts(target@)),
    {
        only_inputs_symbol_parts(&self.error, target)
    }

    /// Writes the summation indices of nesting level `n`: one for each of
    /// the first `many` axis letters.
    pub fn level_indices(proper_symbol: &Vec<String>, many: usize, n: usize) -> (r: Vec<String>)
        ensures
            texts(r@) == axis_indices(texts(proper_symbol@), many as nat, n as nat),
    {
        let mut out: Vec<String> = Vec::new();
        let mut s: usize = 0;
        let number = usize_to_string(n);
        while s < many
            invariant
                s <= many,
                out@.len() == s,
                number@ == decimal(n as nat),
                forall|j: int|
                    0 <= j < s ==> out@[j]@ == text_at(texts(proper_symbol@), j) + "n_{"@
                        + decimal(n as nat) + "}"@,
            decreases many - s,
        {
            let mut item = String::new();
            if s < proper_symbol.len() {
                item.append(proper_symbol[s].as_str());
            }
            item.append("n_{");
            item.append(number.as_str());
            item.append("}");
            assert(item@ =~= text_at(texts(proper_symbol@), s as int) + "n_{"@ + decimal(
                n as nat,
            ) + "}"@);
            out.push(item);
            s += 1;
        }
        assert(texts(out@) =~= axis_indices(texts(proper_symbol@), many as nat, n as nat));
        out
    }

    /// Writes the upper and the lower subscript of `level`.
    pub fn get_p0p1(
        &self,
        level: usize,
        indexes: &Indexes,
        last_symbol: String,
        proper_symbol: &Vec<String>,
        many: usize,
    ) -> (r: (String, String))
        ensures
            (r.0@, r.1@) == p0p1_text(
                self@,
                level as nat,
                indexes,
                last_symbol@,
                texts(proper_symbol@),
                many as nat,
            ),
    {
        if level == 0 {
            let p0 = continous_index(&numerals(&indexes.func_idx));
            let p1 = self.gen_w_symbol_inner(last_symbol, indexes, false);
            (p0, p1)
        } else {
            let p0 = continous_index(&Self::level_indices(proper_symbol, many, level - 1));
            let p1 = if level > 1 {
                continous_index(&Self::level_indices(proper_symbol, many, level - 2))
            } else {
                continous_index(&numerals(&indexes.func_idx))
            };
            (p0, p1)
        }
    }
}

} // verus!
