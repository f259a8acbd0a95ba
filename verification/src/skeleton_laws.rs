//! Round-trip laws between template texts and skeletons.

use vstd::prelude::*;
use crate::skeleton::{
    digit_value, is_digit, parse_skeleton, placeholder_at, placeholder_text, plain, split_from,
    template_text, well_formed, which_index, SkeletonView,
};
use crate::text::digit_char;

verus! {

proof fn lemma_digit_round_trip(c: char)
    requires
        is_digit(c),
    ensures
        digit_char(digit_value(c) as nat) == c,
        digit_value(c) < 10,
{
}

proof fn lemma_digit_of_char(d: nat)
    requires
        d < 10,
    ensures
        is_digit(digit_char(d)),
        digit_value(digit_char(d)) == d,
{
}

proof fn lemma_placeholder_text(s: Seq<char>, i: int)
    requires
        placeholder_at(s, i) is Some,
    ensures
        placeholder_text(placeholder_at(s, i)->0) == s.subrange(i, i + 3),
        which_index(placeholder_at(s, i)->0) < 10,
{
    lemma_digit_round_trip(s[i + 2]);
    assert(placeholder_text(placeholder_at(s, i)->0) =~= s.subrange(i, i + 3));
}

proof fn lemma_template_of_split(s: Seq<char>, start: int, i: int)
    requires
        0 <= start <= i <= s.len(),
    ensures
        template_text(split_from(s, start, i)) == s.subrange(start, s.len() as int),
        well_formed_indices(split_from(s, start, i)),
    decreases s.len() - i,
{
    let len = s.len() as int;
    if i >= len {
        assert(template_text(split_from(s, start, i)) =~= s.subrange(start, len));
    } else {
        match placeholder_at(s, i) {
            Some(w) => {
                let rest = split_from(s, i + 3, i + 3);
                lemma_template_of_split(s, i + 3, i + 3);
                lemma_placeholder_text(s, i);
                let sk = split_from(s, start, i);
                assert(sk.parts.drop_first() =~= rest.parts);
                assert(template_text(sk) =~= s.subrange(start, i) + s.subrange(i, i + 3)
                    + s.subrange(i + 3, len));
                assert(template_text(sk) =~= s.subrange(start, len));
                assert forall|k: int| 0 <= k < sk.parts.len() implies which_index(
                    #[trigger] sk.parts[k].1,
                ) < 10 by {
                    if k > 0 {
                        assert(sk.parts[k] == rest.parts[k - 1]);
                    }
                }
            },
            None => {
                lemma_template_of_split(s, start, i + 1);
            },
        }
    }
}

/// Every placeholder of the skeleton carries a single digit.
pub open spec fn well_formed_indices(sk: SkeletonView) -> bool {
    forall|k: int| 0 <= k < sk.parts.len() ==> which_index(#[trigger] sk.parts[k].1) < 10
}

/// Writing the parsed skeleton of a text out again gives the text back, and
/// every placeholder that parsing finds carries a single digit.
pub proof fn lemma_template_of_parse(s: Seq<char>)
    ensures
        template_text(parse_skeleton(s)) == s,
        well_formed_indices(parse_skeleton(s)),
{
    lemma_template_of_split(s, 0, 0);
    assert(s.subrange(0, s.len() as int) =~= s);
}

proof fn lemma_skip_literal(s: Seq<char>, start: int, i: int, j: int)
    requires
        0 <= start <= i <= j <= s.len(),
        forall|k: int| i <= k < j ==> placeholder_at(s, k) is None,
    ensures
        split_from(s, start, i) == split_from(s, start, j),
    decreases j - i,
{
    if i < j {
        lemma_skip_literal(s, start, i + 1, j);
    }
}

proof fn lemma_split_of_template(sk: SkeletonView, s: Seq<char>, start: int)
    requires
        well_formed(sk),
        0 <= start <= s.len(),
        s.subrange(start, s.len() as int) == template_text(sk),
    ensures
        split_from(s, start, start) == sk,
    decreases sk.parts.len(),
{
    let len = s.len() as int;
    let t = template_text(sk);
    assert(forall|k: int| 0 <= k < t.len() ==> t[k] == s.subrange(start, len)[k]);
    if sk.parts.len() == 0 {
        assert(t =~= sk.tail);
        assert forall|k: int| start <= k < len implies placeholder_at(s, k) is None by {
            assert(placeholder_at(sk.tail, k - start) is None);
            if k + 3 <= len {
                assert(s[k] == t[k - start]);
                assert(s[k + 1] == t[k - start + 1]);
                assert(s[k + 2] == t[k - start + 2]);
            }
        }
        lemma_skip_literal(s, start, start, len);
        assert(split_from(s, start, len).parts =~= sk.parts);
        assert(split_from(s, start, len).tail =~= sk.tail);
    } else {
        let lit = sk.parts[0].0;
        let w = sk.parts[0].1;
        let rest = SkeletonView { parts: sk.parts.drop_first(), tail: sk.tail };
        let j = start + lit.len();
        let ph = placeholder_text(w);
        assert(t =~= lit + ph + template_text(rest));
        assert(plain(lit));
        lemma_digit_of_char(which_index(w) as nat);
        assert(s[j] == t[j - start] && t[j - start] == ph[0]);
        assert(s[j + 1] == t[j + 1 - start] && t[j + 1 - start] == ph[1]);
        assert(s[j + 2] == t[j + 2 - start] && t[j + 2 - start] == ph[2]);
        assert forall|k: int| start <= k < j implies placeholder_at(s, k) is None by {
            assert(placeholder_at(lit, k - start) is None);
            if k + 3 <= j {
                assert(s[k] == t[k - start] && t[k - start] == lit[k - start]);
                assert(s[k + 1] == t[k + 1 - start] && t[k + 1 - start] == lit[k + 1 - start]);
                assert(s[k + 2] == t[k + 2 - start] && t[k + 2 - start] == lit[k + 2 - start]);
            }
        }
        lemma_skip_literal(s, start, start, j);
        assert(placeholder_at(s, j) == Some(w));
        assert(s.subrange(j + 3, len) =~= template_text(rest)) by {
            assert(s.subrange(j + 3, len) =~= t.subrange(j + 3 - start, t.len() as int));
        }
        assert(well_formed(rest)) by {
            assert forall|k: int| 0 <= k < rest.parts.len() implies plain(
                #[trigger] rest.parts[k].0,
            ) && which_index(rest.parts[k].1) < 10 by {
                assert(rest.parts[k] == sk.parts[k + 1]);
            }
        }
        lemma_split_of_template(rest, s, j + 3);
        assert(s.subrange(start, j) =~= lit);
        let got = split_from(s, start, j);
        assert(got.parts =~= sk.parts);
        assert(got.tail == sk.tail);
    }
}

/// Parsing the template text of a well-formed skeleton gives the skeleton
/// back.
pub proof fn lemma_parse_of_template(sk: SkeletonView)
    requires
        well_formed(sk),
    ensures
        parse_skeleton(template_text(sk)) == sk,
{
    let s = template_text(sk);
    assert(s.subrange(0, s.len() as int) =~= s);
    lemma_split_of_template(sk, s, 0);
}

} // verus!
