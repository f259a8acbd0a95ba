//! Template skeletons: LaTeX text with placeholders for a node's inputs,
//! attributes and own symbol.
//!
//! A placeholder is three characters long: a marker (`#` for an input, `@`
//! for an attribute, `$` for the node's own symbol), an underscore and one
//! decimal digit. Anything else is literal text.

use vstd::prelude::*;
use crate::text::{digit_char, text_at, texts};

verus! {

/// What a placeholder stands for, with the digit it carries.
#[derive(Clone, Copy, PartialEq, Eq, Structural, Debug)]
pub enum SymbolWhich {
    Input(usize),
    Attribute(usize),
    SelfName(usize),
}

/// A literal span and the placeholder that follows it.
#[derive(Debug, PartialEq, Eq)]
pub struct SymbolPart {
    pub literal: String,
    pub which: SymbolWhich,
}

/// A parsed template: fragments in order, then the literal tail.
#[derive(Debug, PartialEq, Eq)]
pub struct Skeleton {
    pub parts: Vec<SymbolPart>,
    pub tail: String,
}

/// The mathematical content of a [`Skeleton`].
pub ghost struct SkeletonView {
    pub parts: Seq<(Seq<char>, SymbolWhich)>,
    pub tail: Seq<char>,
}

impl View for Skeleton {
    type V = SkeletonView;

    open spec fn view(&self) -> SkeletonView {
        SkeletonView {
            parts: Seq::new(
                self.parts@.len(),
                |i: int| (self.parts@[i].literal@, self.parts@[i].which),
            ),
            tail: self.tail@,
        }
    }
}

pub open spec fn is_digit(c: char) -> bool {
    48 <= (c as u32) <= 57
}

pub open spec fn digit_value(c: char) -> usize {
    ((c as u32) - 48) as usize
}

/// The digit that a placeholder carries.
pub open spec fn which_index(w: SymbolWhich) -> usize {
    match w {
        SymbolWhich::Input(n) => n,
        SymbolWhich::Attribute(n) => n,
        SymbolWhich::SelfName(n) => n,
    }
}

pub open spec fn which_marker(w: SymbolWhich) -> char {
    match w {
        SymbolWhich::Input(_) => '#',
        SymbolWhich::Attribute(_) => '@',
        SymbolWhich::SelfName(_) => '$',
    }
}

/// The placeholder that starts at position `i` of `s`, if one does.
pub open spec fn placeholder_at(s: Seq<char>, i: int) -> Option<SymbolWhich> {
    if 0 <= i && i + 3 <= s.len() && s[i + 1] == '_' && is_digit(s[i + 2]) {
        if s[i] == '#' {
            Some(SymbolWhich::Input(digit_value(s[i + 2])))
        } else if s[i] == '@' {
            Some(SymbolWhich::Attribute(digit_value(s[i + 2])))
        } else if s[i] == '$' {
            Some(SymbolWhich::SelfName(digit_value(s[i + 2])))
        } else {
            None
        }
    } else {
        None
    }
}

/// The skeleton of `s` from `start` on, where `start..i` is already known to
/// be literal text.
pub open spec fn split_from(s: Seq<char>, start: int, i: int) -> SkeletonView
    decreases s.len() - i,
{
    if i >= s.len() {
        SkeletonView { parts: Seq::empty(), tail: s.subrange(start, s.len() as int) }
    } else {
        match placeholder_at(s, i) {
            Some(w) => {
                let rest = split_from(s, i + 3, i + 3);
                SkeletonView {
                    parts: seq![(s.subrange(start, i), w)] + rest.parts,
                    tail: rest.tail,
                }
            },
            None => split_from(s, start, i + 1),
        }
    }
}

/// The skeleton that a template text denotes.
pub open spec fn parse_skeleton(s: Seq<char>) -> SkeletonView {
    split_from(s, 0, 0)
}

/// The text that replaces a placeholder: the input or attribute at its
/// index (empty where there is none), or the node's own symbol.
pub open spec fn value_of(
    w: SymbolWhich,
    x_in: Seq<Seq<char>>,
    a_in: Seq<Seq<char>>,
    s_in: Seq<char>,
) -> Seq<char> {
    match w {
        SymbolWhich::Input(n) => text_at(x_in, n as int),
        SymbolWhich::Attribute(n) => text_at(a_in, n as int),
        SymbolWhich::SelfName(_) => s_in,
    }
}

/// Every fragment's literal followed by the value of its placeholder.
pub open spec fn render_parts(
    parts: Seq<(Seq<char>, SymbolWhich)>,
    x_in: Seq<Seq<char>>,
    a_in: Seq<Seq<char>>,
    s_in: Seq<char>,
) -> Seq<char>
    decreases parts.len(),
{
    if parts.len() == 0 {
        Seq::empty()
    } else {
        render_parts(parts.drop_last(), x_in, a_in, s_in) + parts.last().0 + value_of(
            parts.last().1,
            x_in,
            a_in,
            s_in,
        )
    }
}

/// The skeleton with every placeholder substituted.
pub open spec fn render(
    sk: SkeletonView,
    x_in: Seq<Seq<char>>,
    a_in: Seq<Seq<char>>,
    s_in: Seq<char>,
) -> Seq<char> {
    render_parts(sk.parts, x_in, a_in, s_in) + sk.tail
}

/// The three characters that write a placeholder.
pub open spec fn placeholder_text(w: SymbolWhich) -> Seq<char> {
    seq![which_marker(w), '_', digit_char(which_index(w) as nat)]
}

pub open spec fn template_parts(parts: Seq<(Seq<char>, SymbolWhich)>) -> Seq<char>
    decreases parts.len(),
{
    if parts.len() == 0 {
        Seq::empty()
    } else {
        parts[0].0 + placeholder_text(parts[0].1) + template_parts(parts.drop_first())
    }
}

/// The template text of a skeleton: every placeholder written out again.
pub open spec fn template_text(sk: SkeletonView) -> Seq<char> {
    template_parts(sk.parts) + sk.tail
}

/// No placeholder starts anywhere in `s`.
pub open spec fn plain(s: Seq<char>) -> bool {
    forall|i: int| placeholder_at(s, i) is None
}

/// A skeleton is well formed when its placeholders carry a digit and its
/// literal spans hold no placeholder of their own.
pub open spec fn well_formed(sk: SkeletonView) -> bool {
    &&& plain(sk.tail)
    &&& forall|k: int|
        0 <= k < sk.parts.len() ==> plain(#[trigger] sk.parts[k].0) && which_index(sk.parts[k].1)
            < 10
}

/// Splits a template into literal spans and placeholders.
pub fn symbol_split(input: &str) -> (r: Skeleton)
    ensures
        r@ == parse_skeleton(input@),
{
    let n = input.unicode_len();
    let mut parts: Vec<SymbolPart> = Vec::new();
    let mut start: usize = 0;
    let mut i: usize = 0;
    let ghost s = input@;
    let ghost mut done: Seq<(Seq<char>, SymbolWhich)> = Seq::empty();
    while i < n
        invariant
            s == input@,
            n == s.len(),
            start <= i <= n,
            done.len() == parts@.len(),
            forall|k: int|
                0 <= k < done.len() ==> done[k] == (
                    (#[trigger] parts@[k]).literal@,
                    parts@[k].which,
                ),
            parse_skeleton(s).parts == done + split_from(s, start as int, i as int).parts,
            parse_skeleton(s).tail == split_from(s, start as int, i as int).tail,
        decreases n - i,
    {
        let mut found: Option<SymbolWhich> = None;
        if n - i >= 3 {
            let c0 = input.get_char(i);
            let c1 = input.get_char(i + 1);
            let c2 = input.get_char(i + 2);
            let code = c2 as u32;
            if c1 == '_' && 48 <= code && code <= 57 {
                let d = (code - 48) as usize;
                if c0 == '#' {
                    found = Some(SymbolWhich::Input(d));
                } else if c0 == '@' {
                    found = Some(SymbolWhich::Attribute(d));
                } else if c0 == '$' {
                    found = Some(SymbolWhich::SelfName(d));
                }
            }
        }
        assert(found == placeholder_at(s, i as int));
        match found {
            Some(w) => {
                let literal = String::from_str(input.substring_char(start, i));
                proof {
                    let rest = split_from(s, i + 3, i + 3);
                    assert(split_from(s, start as int, i as int).parts == seq![
                        (s.subrange(start as int, i as int), w),
                    ] + rest.parts);
                    assert(done + (seq![(s.subrange(start as int, i as int), w)] + rest.parts)
                        =~= done.push((s.subrange(start as int, i as int), w)) + rest.parts);
                    done = done.push((literal@, w));
                }
                parts.push(SymbolPart { literal, which: w });
                i += 3;
                start = i;
            },
            None => {
                i += 1;
            },
        }
    }
    let tail = String::from_str(input.substring_char(start, n));
    let r = Skeleton { parts, tail };
    proof {
        assert(done + Seq::<(Seq<char>, SymbolWhich)>::empty() =~= done);
        assert(r@.parts =~= done);
    }
    r
}

/// Substitutes inputs, attributes and the node's own symbol into a skeleton.
pub fn insert_symbol_parts(
    original: &Skeleton,
    x_in: &Vec<String>,
    a_in: &Vec<String>,
    s_in: &str,
) -> (r: String)
    ensures
        r@ == render(original@, texts(x_in@), texts(a_in@), s_in@),
{
    let mut result = String::new();
    let mut k: usize = 0;
    let ghost sk = original@;
    while k < original.parts.len()
        invariant
            sk == original@,
            k <= original.parts@.len(),
            result@ == render_parts(sk.parts.take(k as int), texts(x_in@), texts(a_in@), s_in@),
        decreases original.parts.len() - k,
    {
        let part = &original.parts[k];
        result.append(part.literal.as_str());
        match part.which {
            SymbolWhich::Input(u) => {
                if u < x_in.len() {
                    result.append(x_in[u].as_str());
                }
            },
            SymbolWhich::Attribute(u) => {
                if u < a_in.len() {
                    result.append(a_in[u].as_str());
                }
            },
            SymbolWhich::SelfName(_) => {
                result.append(s_in);
            },
        }
        proof {
            let next = sk.parts.take(k + 1);
            assert(next.drop_last() =~= sk.parts.take(k as int));
            assert(next.last() == sk.parts[k as int]);
            assert(result@ =~= render_parts(next, texts(x_in@), texts(a_in@), s_in@));
        }
        k += 1;
    }
    assert(sk.parts.take(k as int) =~= sk.parts);
    result.append(original.tail.as_str());
    result
}

/// Substitutes inputs only: attributes and the own symbol render as empty.
pub fn only_inputs_symbol_parts(original: &Skeleton, x_in: &Vec<String>) -> (r: String)
    ensures
        r@ == render(original@, texts(x_in@), Seq::empty(), Seq::empty()),
{
    let none: Vec<String> = Vec::new();
    assert(texts(none@) =~= Seq::<Seq<char>>::empty());
    proof {
        reveal_strlit("");
    }
    assert(""@ =~= Seq::<char>::empty());
    insert_symbol_parts(original, x_in, &none, "")
}

/// Substitutes inputs and attributes: the own symbol renders as empty.
pub fn except_self_symbol_parts(original: &Skeleton, x_in: &Vec<String>, a_in: &Vec<String>) -> (r:
    String)
    ensures
        r@ == render(original@, texts(x_in@), texts(a_in@), Seq::empty()),
{
    proof {
        reveal_strlit("");
    }
    assert(""@ =~= Seq::<char>::empty());
    insert_symbol_parts(original, x_in, a_in, "")
}

} // verus!
