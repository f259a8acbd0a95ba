//! Symbol kinds and the weightability predicate.

use vstd::prelude::*;
use crate::text::{decimal, same_text, usize_to_string};

verus! {

/// Classification of a graph node, as far as symbols and derivatives care.
#[derive(Clone, Copy, PartialEq, Eq, Structural, Debug)]
pub enum FormulKind {
    Activation,
    Function,
    Base,
    Not,
    Undefined,
    Bias,
    Weight,
    Input,
    Cnn,
    Const,
    MaxPool,
    SumPool,
}

/// A kind is weightable when its layer carries trainable parameters.
pub open spec fn weightable(kind: FormulKind) -> bool {
    kind == FormulKind::Function || kind == FormulKind::Cnn || kind == FormulKind::MaxPool
        || kind == FormulKind::SumPool
}

/// Returns the kind back when it is weightable, and nothing otherwise.
pub fn is_weightable(form: FormulKind) -> (r: Option<FormulKind>)
    ensures
        r == (if weightable(form) { Some(form) } else { None::<FormulKind> }),
{
    match form {
        FormulKind::Function | FormulKind::Cnn | FormulKind::MaxPool | FormulKind::SumPool => Some(
            form,
        ),
        _ => None,
    }
}

/// The kind that a name qualifier forces on a node, `Undefined` where it
/// forces none.
pub open spec fn qualifier_kind(qualifier: Seq<char>) -> FormulKind {
    if qualifier == "weight"@ {
        FormulKind::Weight
    } else if qualifier == "bias"@ {
        FormulKind::Bias
    } else if qualifier == "Source"@ {
        FormulKind::Input
    } else {
        FormulKind::Undefined
    }
}

/// Reads a name qualifier: `weight`, `bias` and `Source` name a kind.
pub fn get_extra_symbol(original: &str) -> (r: FormulKind)
    ensures
        r == qualifier_kind(original@),
{
    if same_text(original, "weight") {
        FormulKind::Weight
    } else if same_text(original, "bias") {
        FormulKind::Bias
    } else if same_text(original, "Source") {
        FormulKind::Input
    } else {
        FormulKind::Undefined
    }
}

/// The display symbol of a node of kind `kind` that is the `idx`-th of its
/// counter. A node of undefined kind has the empty symbol; kinds without a
/// pattern of their own fall back on the qualifier.
pub open spec fn symbol_text(symbol: Option<Seq<char>>, kind: FormulKind, idx: nat) -> Seq<char> {
    match kind {
        FormulKind::Activation => "h_"@ + decimal(idx),
        FormulKind::Function | FormulKind::Cnn => "f_"@ + decimal(idx),
        FormulKind::Weight => "\\overline{W_"@ + decimal(idx) + "}"@,
        FormulKind::Bias => "\\overline{B_"@ + decimal(idx) + "}"@,
        FormulKind::Input => "\\overline{Input}"@,
        FormulKind::MaxPool => "MaxPool_"@ + decimal(idx),
        FormulKind::SumPool => "SumPool_"@ + decimal(idx),
        FormulKind::Undefined => Seq::empty(),
        FormulKind::Base | FormulKind::Not | FormulKind::Const => match symbol {
            Some(s) => s + "_"@ + decimal(idx),
            None => "Undefined"@,
        },
    }
}

/// The view of an optional string.
pub open spec fn opt_text(s: Option<String>) -> Option<Seq<char>> {
    match s {
        Some(t) => Some(t@),
        None => None,
    }
}

/// Writes the display symbol of a node.
pub fn gen_symbol(symbol: Option<String>, n_type: FormulKind, idx: usize) -> (r: String)
    ensures
        r@ == symbol_text(opt_text(symbol), n_type, idx as nat),
{
    proof {
        reveal_strlit("");
    }
    match n_type {
        FormulKind::Activation => numbered("h_", idx, ""),
        FormulKind::Function | FormulKind::Cnn => numbered("f_", idx, ""),
        FormulKind::Weight => numbered("\\overline{W_", idx, "}"),
        FormulKind::Bias => numbered("\\overline{B_", idx, "}"),
        FormulKind::Input => String::from_str("\\overline{Input}"),
        FormulKind::MaxPool => numbered("MaxPool_", idx, ""),
        FormulKind::SumPool => numbered("SumPool_", idx, ""),
        FormulKind::Undefined => String::new(),
        FormulKind::Base | FormulKind::Not | FormulKind::Const => match symbol {
            Some(s) => {
                let mut r = s;
                r.append("_");
                r.append(usize_to_string(idx).as_str());
                r
            },
            None => String::from_str("Undefined"),
        },
    }
}

fn numbered(before: &str, idx: usize, after: &str) -> (r: String)
    ensures
        r@ == before@ + decimal(idx as nat) + after@,
        after@.len() == 0 ==> r@ == before@ + decimal(idx as nat),
{
    let mut r = String::from_str(before);
    r.append(usize_to_string(idx).as_str());
    r.append(after);
    assert(after@.len() == 0 ==> r@ =~= before@ + decimal(idx as nat));
    r
}

} // verus!
