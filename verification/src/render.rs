//! The chain renderer: from a chain of derivative factors to LaTeX.

use vstd::prelude::*;
use crate::chain::{lemma_chain_view, DiffChain, DiffChainNode};
use crate::templates::{
    axis_indices, chain2_text, chain3_text, diff_text, error_text, p0p1_text, pair, sum_text,
    sum_w_text, triple, under_text, Indexes, Templates, TemplatesView,
};
use crate::skeleton::{except_self_symbol_parts, only_inputs_symbol_parts};
use crate::text::{decimal, text_at, texts, usize_to_string};

verus! {

/// Where the expansion of the error stops: at the loss, or at the sum of a
/// given nesting level.
#[derive(Clone, Copy, PartialEq, Eq, Structural, Debug)]
pub enum ErrorResultTo {
    Total,
    Innner(usize),
}

/// Whether the expansion stops at `level`.
pub open spec fn at_cap(cap: ErrorResultTo, level: nat) -> bool {
    match cap {
        ErrorResultTo::Innner(i) => i == level,
        ErrorResultTo::Total => false,
    }
}

/// The largest index of an axis of the given extent; 0 for an empty axis.
pub open spec fn upper_bound(extent: usize) -> nat {
    if extent > 0 {
        (extent - 1) as nat
    } else {
        0
    }
}

/// The text of an optional symbol; empty where there is none.
pub open spec fn or_empty(s: Option<Seq<char>>) -> Seq<char> {
    match s {
        Some(t) => t,
        None => Seq::empty(),
    }
}

/// The symbol of a factor that is a single layer.
pub open spec fn leaf_symbol(c: DiffChain) -> Option<Seq<char>> {
    match c {
        DiffChain::Weightable(_, s) => Some(s),
        DiffChain::UnWeightable(_, s) => Some(s),
        _ => None,
    }
}

/// The symbol of the factor at `k`, where there is one and it is a layer.
pub open spec fn factor_symbol(v: Seq<DiffChain>, k: int) -> Option<Seq<char>> {
    if 0 <= k < v.len() {
        leaf_symbol(v[k])
    } else {
        None
    }
}

/// The number of sums that rendering descends through.
pub open spec fn nesting(c: DiffChain) -> nat
    decreases c,
{
    match c {
        DiffChain::Sum(inner, _) => 1 + nesting(*inner),
        DiffChain::Chain(v) => if v.len() > 0 {
            nesting(v[0])
        } else {
            0
        },
        _ => 0,
    }
}

/// The error's derivative by the layer `s` alone: the factor that stands
/// for a sum at which the expansion stops.
pub open spec fn local_factor(
    t: TemplatesView,
    s: Seq<char>,
    level: nat,
    indexes: &Indexes,
    proper: Seq<Seq<char>>,
    prev_size: nat,
) -> Seq<char> {
    let a = under_text(t, s, p0p1_text(t, level, indexes, s, proper, prev_size).0);
    diff_text(t, error_text(t, seq!["total"@, a]), a)
}

/// The first `k` summation signs over the axes `dims`: every axis but the
/// last as a bare sign, the last with `inner` as its body.
pub open spec fn sums_text(
    t: TemplatesView,
    inner: Seq<char>,
    dims: Seq<usize>,
    starts: Seq<Seq<char>>,
    k: nat,
) -> Seq<char>
    decreases k,
{
    if k == 0 {
        Seq::empty()
    } else {
        let i = k - 1;
        let end = decimal(upper_bound(dims[i]));
        sums_text(t, inner, dims, starts, (k - 1) as nat) + (if i < dims.len() - 1 {
            sum_w_text(t, text_at(starts, i), end)
        } else {
            sum_text(t, inner, text_at(starts, i), end)
        })
    }
}

/// The two-factor chain of a weightable head `s`: the error by the layer,
/// and the layer by the weight below it.
pub open spec fn weightable_chain(
    t: TemplatesView,
    s: Seq<char>,
    to_insert: Seq<char>,
    level: nat,
    indexes: &Indexes,
    proper: Seq<Seq<char>>,
    prev_size: nat,
) -> Seq<char> {
    let p = p0p1_text(t, level, indexes, s, proper, prev_size);
    let a = under_text(t, s, p.0);
    let e = error_text(t, seq!["total"@, a]);
    chain2_text(t, diff_text(t, e, a), diff_text(t, a, under_text(t, to_insert, p.1)))
}

/// The three-factor chain of a head `s` without weights in front of the
/// layer `d1`: the error by the head, the head by the layer, and the layer
/// by the weight below it.
pub open spec fn unweightable_chain(
    t: TemplatesView,
    s: Seq<char>,
    d1: Seq<char>,
    to_insert: Seq<char>,
    level: nat,
    indexes: &Indexes,
    proper: Seq<Seq<char>>,
    prev_size: nat,
) -> Seq<char> {
    let p = p0p1_text(t, level, indexes, d1, proper, prev_size);
    let a = under_text(t, s, p.0);
    let e = error_text(t, seq!["total"@, a]);
    let b = under_text(t, d1, p.0);
    chain3_text(
        t,
        diff_text(t, e, a),
        diff_text(t, a, b),
        diff_text(t, b, under_text(t, to_insert, p.1)),
    )
}

/// The chain behind a composite head that rendered as `first`: two more
/// factors where the chain has a third layer, one more where it has not.
pub open spec fn composite_chain(
    t: TemplatesView,
    first: Seq<char>,
    d1: Option<Seq<char>>,
    d2: Option<Seq<char>>,
    to_insert: Seq<char>,
    level: nat,
    indexes: &Indexes,
    proper: Seq<Seq<char>>,
    prev_size: nat,
) -> Seq<char> {
    match d2 {
        Some(d2s) => {
            let p = p0p1_text(t, level, indexes, d2s, proper, prev_size);
            let a = under_text(t, or_empty(d1), p.0);
            let b = under_text(t, d2s, p.0);
            chain3_text(
                t,
                first,
                diff_text(t, a, b),
                diff_text(t, b, under_text(t, to_insert, p.1)),
            )
        },
        None => {
            let p = p0p1_text(t, level, indexes, or_empty(d1), proper, prev_size);
            let a = under_text(t, or_empty(d1), p.0);
            chain2_text(t, first, diff_text(t, a, under_text(t, to_insert, p.1)))
        },
    }
}

/// The LaTeX of a chain at nesting level `level`. `pre_chain` is the layer
/// whose weight the level below differentiates by; `prev_size` is the
/// number of axes of the sum that encloses this level.
pub open spec fn render_chain(
    t: TemplatesView,
    target: DiffChain,
    level: nat,
    cap: ErrorResultTo,
    pre_chain: Option<Seq<char>>,
    indexes: &Indexes,
    proper: Seq<Seq<char>>,
    prev_size: nat,
) -> Seq<char>
    decreases target,
{
    match target {
        DiffChain::Sum(d, dims) => if at_cap(cap, level) {
            local_factor(t, or_empty(pre_chain), level, indexes, proper, prev_size)
        } else {
            sums_text(
                t,
                render_chain(t, *d, level + 1, cap, pre_chain, indexes, proper, dims.len()),
                dims,
                axis_indices(proper, dims.len(), level),
                dims.len(),
            )
        },
        DiffChain::Chain(v) => if v.len() == 0 {
            Seq::empty()
        } else {
            let d1 = factor_symbol(v, 1);
            let d2 = factor_symbol(v, 2);
            let to_insert = match pre_chain {
                Some(p) => p,
                None => "w"@,
            };
            match v[0] {
                DiffChain::Weightable(_, s) => weightable_chain(
                    t,
                    s,
                    to_insert,
                    level,
                    indexes,
                    proper,
                    prev_size,
                ),
                DiffChain::UnWeightable(_, s) => unweightable_chain(
                    t,
                    s,
                    or_empty(d1),
                    to_insert,
                    level,
                    indexes,
                    proper,
                    prev_size,
                ),
                x => composite_chain(
                    t,
                    render_chain(t, x, level, cap, d1, indexes, proper, prev_size),
                    d1,
                    d2,
                    to_insert,
                    level,
                    indexes,
                    proper,
                    prev_size,
                ),
            }
        },
        _ => Seq::empty(),
    }
}

/// The axis letters: channel, height, width, batch.
pub open spec fn axis_letters() -> Seq<Seq<char>> {
    seq!["c"@, "h"@, "w"@, "b"@]
}

/// The symbol of a factor that is a single layer.
pub fn get_symbol_if_func(target: &DiffChainNode) -> (r: Option<String>)
    ensures
        crate::kind::opt_text(r) == leaf_symbol(target@),
{
    match target {
        DiffChainNode::Weightable(_, s) => Some(s.clone()),
        DiffChainNode::UnWeightable(_, s) => Some(s.clone()),
        _ => None,
    }
}

fn text_or_empty(s: &Option<String>) -> (r: String)
    ensures
        r@ == or_empty(crate::kind::opt_text(*s)),
{
    match s {
        Some(t) => t.clone(),
        None => String::new(),
    }
}

impl Templates {
    fn gen_local_factor(
        &self,
        s: String,
        level: usize,
        input_indexs: &Indexes,
        prev_proper_symbols: &Vec<String>,
        prev_size: usize,
    ) -> (r: String)
        ensures
            r@ == local_factor(
                self@,
                s@,
                level as nat,
                input_indexs,
                texts(prev_proper_symbols@),
                prev_size as nat,
            ),
    {
        let p = self.get_p0p1(level, input_indexs, s.clone(), prev_proper_symbols, prev_size);
        let a_sym = self.gen_under(s, p.0);
        let e_sym = self.gen_error_symbol(&pair(String::from_str("total"), a_sym.clone()));
        self.gen_diff(e_sym, a_sym)
    }

    fn gen_weightable_chain(
        &self,
        s: String,
        to_insert: String,
        level: usize,
        input_indexs: &Indexes,
        prev_proper_symbols: &Vec<String>,
        prev_size: usize,
    ) -> (r: String)
        ensures
            r@ == weightable_chain(
                self@,
                s@,
                to_insert@,
                level as nat,
                input_indexs,
                texts(prev_proper_symbols@),
                prev_size as nat,
            ),
    {
        let p = self.get_p0p1(level, input_indexs, s.clone(), prev_proper_symbols, prev_size);
        let a_sym = self.gen_under(s, p.0);
        let e_symbol = self.gen_error_symbol(&pair(String::from_str("total"), a_sym.clone()));
        let p_sym = self.gen_under(to_insert, p.1);
        let e_a = self.gen_diff(e_symbol, a_sym.clone());
        let a_p = self.gen_diff(a_sym, p_sym);
        only_inputs_symbol_parts(&self.chain2, &pair(e_a, a_p))
    }

    fn gen_unweightable_chain(
        &self,
        s: String,
        d1: String,
        to_insert: String,
        level: usize,
        input_indexs: &Indexes,
        prev_proper_symbols: &Vec<String>,
        prev_size: usize,
    ) -> (r: String)
        ensures
            r@ == unweightable_chain(
                self@,
                s@,
                d1@,
                to_insert@,
                level as nat,
                input_indexs,
                texts(prev_proper_symbols@),
                prev_size as nat,
            ),
    {
        let p = self.get_p0p1(level, input_indexs, d1.clone(), prev_proper_symbols, prev_size);
        let a_sym = self.gen_under(s, p.0.clone());
        let e_symbol = self.gen_error_symbol(&pair(String::from_str("total"), a_sym.clone()));
        let b_sym = self.gen_under(d1, p.0);
        let p_sym = self.gen_under(to_insert, p.1);
        let e_a = self.gen_diff(e_symbol, a_sym.clone());
        let a_b = self.gen_diff(a_sym, b_sym.clone());
        let b_p = self.gen_diff(b_sym, p_sym);
        only_inputs_symbol_parts(&self.chain3, &triple(e_a, a_b, b_p))
    }

    fn gen_composite_chain(
        &self,
        first: String,
        d1: &Option<String>,
        d2: &Option<String>,
        to_insert: String,
        level: usize,
        input_indexs: &Indexes,
        prev_proper_symbols: &Vec<String>,
        prev_size: usize,
    ) -> (r: String)
        ensures
            r@ == composite_chain(
                self@,
                first@,
                crate::kind::opt_text(*d1),
                crate::kind::opt_text(*d2),
                to_insert@,
                level as nat,
                input_indexs,
                texts(prev_proper_symbols@),
                prev_size as nat,
            ),
    {
        let d1s = text_or_empty(d1);
        match d2 {
            Some(d2s) => {
                let p = self.get_p0p1(
                    level,
                    input_indexs,
                    d2s.clone(),
                    prev_proper_symbols,
                    prev_size,
                );
                let p_sym = self.gen_under(to_insert, p.1);
                let a_sym = self.gen_under(d1s, p.0.clone());
                let b_sym = self.gen_under(d2s.clone(), p.0);
                let a_b = self.gen_diff(a_sym, b_sym.clone());
                let b_f = self.gen_diff(b_sym, p_sym);
                only_inputs_symbol_parts(&self.chain3, &triple(first, a_b, b_f))
            },
            None => {
                let p = self.get_p0p1(
                    level,
                    input_indexs,
                    d1s.clone(),
                    prev_proper_symbols,
                    prev_size,
                );
                let p_sym = self.gen_under(to_insert, p.1);
                let a_sym = self.gen_under(d1s, p.0);
                let a_f = self.gen_diff(a_sym, p_sym);
                only_inputs_symbol_parts(&self.chain2, &pair(first, a_f))
            },
        }
    }

    fn gen_sums(&self, inner: String, many: &Vec<usize>, start_symbols: &Vec<String>) -> (r:
        String)
        ensures
            r@ == sums_text(self@, inner@, many@, texts(start_symbols@), many@.len()),
    {
        let mut result = String::new();
        let mut i: usize = 0;
        while i < many.len()
            invariant
                i <= many@.len(),
                result@ == sums_text(self@, inner@, many@, texts(start_symbols@), i as nat),
            decreases many.len() - i,
        {
            let end_symbol = if many[i] > 0 {
                usize_to_string(many[i] - 1)
            } else {
                usize_to_string(0)
            };
            let start = if i < start_symbols.len() {
                start_symbols[i].clone()
            } else {
                String::new()
            };
            let attributes = pair(start, end_symbol);
            let outer_sigma = if i < many.len() - 1 {
                let none: Vec<String> = Vec::new();
                assert(texts(none@) =~= Seq::<Seq<char>>::empty());
                except_self_symbol_parts(&self.sum_w, &none, &attributes)
            } else {
                let mut body: Vec<String> = Vec::new();
                body.push(inner.clone());
                assert(texts(body@) =~= seq![inner@]);
                except_self_symbol_parts(&self.sum, &body, &attributes)
            };
            result.append(outer_sigma.as_str());
            i += 1;
        }
        result
    }

    /// Renders a chain at nesting level `level`.
    pub fn rec_backward(
        &self,
        target: &DiffChainNode,
        level: usize,
        final_model_end: ErrorResultTo,
        pre_chain: Option<String>,
        input_indexs: &Indexes,
        prev_proper_symbols: &Vec<String>,
        prev_size: usize,
    ) -> (r: String)
        requires
            level + nesting(target@) <= usize::MAX,
        ensures
            r@ == render_chain(
                self@,
                target@,
                level as nat,
                final_model_end,
                crate::kind::opt_text(pre_chain),
                input_indexs,
                texts(prev_proper_symbols@),
                prev_size as nat,
            ),
        decreases target,
    {
        match target {
            DiffChainNode::Sum(d, many) => {
                let stop = match final_model_end {
                    ErrorResultTo::Innner(i) => i == level,
                    ErrorResultTo::Total => false,
                };
                if stop {
                    self.gen_local_factor(
                        text_or_empty(&pre_chain),
                        level,
                        input_indexs,
                        prev_proper_symbols,
                        prev_size,
                    )
                } else {
                    let inner = self.rec_backward(
                        d,
                        level + 1,
                        final_model_end,
                        pre_chain,
                        input_indexs,
                        prev_proper_symbols,
                        many.len(),
                    );
                    let start_symbols = Self::level_indices(
                        prev_proper_symbols,
                        many.len(),
                        level,
                    );
                    self.gen_sums(inner, many, &start_symbols)
                }
            },
            DiffChainNode::Chain(d) => {
                proof {
                    lemma_chain_view(*d);
                }
                if d.len() == 0 {
                    return String::new();
                }
                let d1_symbol = if d.len() > 1 {
                    get_symbol_if_func(&d[1])
                } else {
                    None
                };
                let d2_symbol = if d.len() > 2 {
                    get_symbol_if_func(&d[2])
                } else {
                    None
                };
                let to_insert = match pre_chain {
                    Some(p) => p,
                    None => String::from_str("w"),
                };
                match &d[0] {
                    DiffChainNode::Weightable(_, s) => self.gen_weightable_chain(
                        s.clone(),
                        to_insert,
                        level,
                        input_indexs,
                        prev_proper_symbols,
                        prev_size,
                    ),
                    DiffChainNode::UnWeightable(_, s) => self.gen_unweightable_chain(
                        s.clone(),
                        text_or_empty(&d1_symbol),
                        to_insert,
                        level,
                        input_indexs,
                        prev_proper_symbols,
                        prev_size,
                    ),
                    x => {
                        let d1_copy = match &d1_symbol {
                            Some(t) => Some(t.clone()),
                            None => None,
                        };
                        let first = self.rec_backward(
                            x,
                            level,
                            final_model_end,
                            d1_copy,
                            input_indexs,
                            prev_proper_symbols,
                            prev_size,
                        );
                        self.gen_composite_chain(
                            first,
                            &d1_symbol,
                            &d2_symbol,
                            to_insert,
                            level,
                            input_indexs,
                            prev_proper_symbols,
                            prev_size,
                        )
                    },
                }
            },
            _ => String::new(),
        }
    }

    /// Renders a chain from the outermost level, over the axis letters
    /// `c`, `h`, `w`, `b`.
    pub fn gen_backward_value(
        &self,
        target: &DiffChainNode,
        final_model_end: ErrorResultTo,
        input_indexs: &Indexes,
    ) -> (r: String)
        requires
            nesting(target@) <= usize::MAX,
        ensures
            r@ == render_chain(
                self@,
                target@,
                0,
                final_model_end,
                None,
                input_indexs,
                axis_letters(),
                0,
            ),
    {
        let mut propers: Vec<String> = Vec::new();
        propers.push(String::from_str("c"));
        propers.push(String::from_str("h"));
        propers.push(String::from_str("w"));
        propers.push(String::from_str("b"));
        assert(texts(propers@) =~= axis_letters());
        self.rec_backward(target, 0, final_model_end, None, input_indexs, &propers, 0)
    }
}

} // verus!
