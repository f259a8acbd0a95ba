//! Small text utilities: decimal numerals and index tuples.

use vstd::prelude::*;

verus! {

/// The character that writes the digit `d`.
pub open spec fn digit_char(d: nat) -> char {
    if d == 0 {
        '0'
    } else if d == 1 {
        '1'
    } else if d == 2 {
        '2'
    } else if d == 3 {
        '3'
    } else if d == 4 {
        '4'
    } else if d == 5 {
        '5'
    } else if d == 6 {
        '6'
    } else if d == 7 {
        '7'
    } else if d == 8 {
        '8'
    } else {
        '9'
    }
}

/// The decimal numeral of `n`, without leading zeros.
pub open spec fn decimal(n: nat) -> Seq<char>
    decreases n,
{
    if n < 10 {
        seq![digit_char(n)]
    } else {
        decimal(n / 10).push(digit_char(n % 10))
    }
}

/// The views of a sequence of strings.
pub open spec fn texts(v: Seq<String>) -> Seq<Seq<char>> {
    Seq::new(v.len(), |i: int| v[i]@)
}

/// The decimal numerals of a sequence of numbers.
pub open spec fn decimals(v: Seq<usize>) -> Seq<Seq<char>> {
    Seq::new(v.len(), |i: int| decimal(v[i] as nat))
}

/// Every item followed by a comma.
pub open spec fn comma_terminated(items: Seq<Seq<char>>) -> Seq<char>
    decreases items.len(),
{
    if items.len() == 0 {
        Seq::empty()
    } else {
        comma_terminated(items.drop_last()) + items.last() + seq![',']
    }
}

/// An index tuple: the items, each followed by a comma, in round brackets.
pub open spec fn index_tuple(items: Seq<Seq<char>>) -> Seq<char> {
    seq!['('] + comma_terminated(items) + seq![')']
}

/// The element at `i`, or the empty text where the sequence is too short.
pub open spec fn text_at(items: Seq<Seq<char>>, i: int) -> Seq<char> {
    if 0 <= i < items.len() {
        items[i]
    } else {
        Seq::empty()
    }
}

fn digit_str(d: usize) -> (r: &'static str)
    requires
        d < 10,
    ensures
        r@ == seq![digit_char(d as nat)],
{
    proof {
        reveal_strlit("0");
        reveal_strlit("1");
        reveal_strlit("2");
        reveal_strlit("3");
        reveal_strlit("4");
        reveal_strlit("5");
        reveal_strlit("6");
        reveal_strlit("7");
        reveal_strlit("8");
        reveal_strlit("9");
    }
    let r = match d {
        0 => "0",
        1 => "1",
        2 => "2",
        3 => "3",
        4 => "4",
        5 => "5",
        6 => "6",
        7 => "7",
        8 => "8",
        _ => "9",
    };
    assert(r@ =~= seq![digit_char(d as nat)]);
    r
}

/// Whether two texts hold the same characters.
pub fn same_text(a: &str, b: &str) -> (r: bool)
    ensures
        r == (a@ == b@),
{
    let x = String::from_str(a);
    let y = String::from_str(b);
    x.eq(&y)
}

/// The position after the last `.` of `s`, or 0 where it holds none.
pub open spec fn after_last_dot(s: Seq<char>) -> int
    decreases s.len(),
{
    if s.len() == 0 {
        0
    } else if s.last() == '.' {
        s.len() as int
    } else {
        after_last_dot(s.drop_last())
    }
}

/// What follows the last `.` of `s`; all of `s` where it holds none.
pub open spec fn last_segment(s: Seq<char>) -> Seq<char> {
    s.subrange(after_last_dot(s), s.len() as int)
}

proof fn lemma_after_last_dot(s: Seq<char>, i: int)
    requires
        0 <= i <= s.len(),
        i == 0 || s[i - 1] == '.',
        forall|k: int| i <= k < s.len() ==> s[k] != '.',
    ensures
        after_last_dot(s) == i,
    decreases s.len(),
{
    if s.len() > 0 && s.last() != '.' {
        lemma_after_last_dot(s.drop_last(), i);
    }
}

/// The last of the segments that the dots of `name` separate.
pub fn name_qualifier(name: &str) -> (r: String)
    ensures
        r@ == last_segment(name@),
{
    let n = name.unicode_len();
    let mut i: usize = n;
    while i > 0 && name.get_char(i - 1) != '.'
        invariant
            i <= n,
            n == name@.len(),
            forall|k: int| i <= k < n ==> name@[k] != '.',
        decreases i,
    {
        i -= 1;
    }
    proof {
        lemma_after_last_dot(name@, i as int);
    }
    String::from_str(name.substring_char(i, n))
}

/// `s` from position `i` on, with every pair of backslashes, read from the
/// left, written as one.
pub open spec fn collapse_from(s: Seq<char>, i: int) -> Seq<char>
    decreases s.len() - i,
{
    if i >= s.len() {
        Seq::empty()
    } else if i + 1 < s.len() && s[i] == '\\' && s[i + 1] == '\\' {
        seq!['\\'] + collapse_from(s, i + 2)
    } else {
        seq![s[i]] + collapse_from(s, i + 1)
    }
}

/// `s` with every pair of backslashes, read from the left, written as one.
pub open spec fn collapsed(s: Seq<char>) -> Seq<char> {
    collapse_from(s, 0)
}

/// Writes every pair of backslashes of `s`, read from the left, as one.
pub fn erase_slashes(s: &str) -> (r: String)
    ensures
        r@ == collapsed(s@),
{
    proof {
        reveal_strlit("\\");
    }
    let n = s.unicode_len();
    let mut result = String::new();
    let mut i: usize = 0;
    while i < n
        invariant
            i <= n,
            n == s@.len(),
            "\\"@ == seq!['\\'],
            result@ + collapse_from(s@, i as int) == collapsed(s@),
        decreases n - i,
    {
        let ghost before = result@;
        if s.get_char(i) == '\\' && n - i > 1 && s.get_char(i + 1) == '\\' {
            result.append("\\");
            assert(result@ + collapse_from(s@, i + 2) =~= before + collapse_from(s@, i as int));
            i += 2;
        } else {
            result.append(s.substring_char(i, i + 1));
            assert(s@.subrange(i as int, i + 1) =~= seq![s@[i as int]]);
            assert(result@ + collapse_from(s@, i + 1) =~= before + collapse_from(s@, i as int));
            i += 1;
        }
    }
    assert(result@ + collapse_from(s@, i as int) =~= result@);
    result
}

/// Writes `n` as a decimal numeral.
pub fn usize_to_string(n: usize) -> (r: String)
    ensures
        r@ == decimal(n as nat),
    decreases n,
{
    if n < 10 {
        String::from_str(digit_str(n))
    } else {
        let mut s = usize_to_string(n / 10);
        s.append(digit_str(n % 10));
        assert(s@ =~= decimal(n as nat));
        s
    }
}

/// Writes every number of `v` as a decimal numeral.
pub fn numerals(v: &Vec<usize>) -> (r: Vec<String>)
    ensures
        texts(r@) == decimals(v@),
{
    let mut out: Vec<String> = Vec::new();
    let mut i: usize = 0;
    while i < v.len()
        invariant
            i <= v.len(),
            out.len() == i,
            forall|j: int| 0 <= j < i ==> out[j]@ == decimal(v[j] as nat),
        decreases v.len() - i,
    {
        out.push(usize_to_string(v[i]));
        i += 1;
    }
    assert(texts(out@) =~= decimals(v@));
    out
}

/// Writes the items as an index tuple, `(a,b,)`.
pub fn continous_index(proper_symbol: &Vec<String>) -> (r: String)
    ensures
        r@ == index_tuple(texts(proper_symbol@)),
{
    proof {
        reveal_strlit("(");
        reveal_strlit(",");
        reveal_strlit(")");
    }
    let mut result = String::from_str("(");
    let mut i: usize = 0;
    while i < proper_symbol.len()
        invariant
            i <= proper_symbol.len(),
            ","@ == seq![','],
            result@ == seq!['('] + comma_terminated(texts(proper_symbol@).take(i as int)),
        decreases proper_symbol.len() - i,
    {
        result.append(proper_symbol[i].as_str());
        result.append(",");
        proof {
            let t = texts(proper_symbol@);
            assert(t.take(i + 1).drop_last() =~= t.take(i as int));
            assert(t.take(i + 1).last() == proper_symbol[i as int]@);
            assert(result@ =~= seq!['('] + comma_terminated(t.take(i + 1)));
        }
        i += 1;
    }
    assert(texts(proper_symbol@).take(i as int) =~= texts(proper_symbol@));
    result.append(")");
    result
}

} // verus!
