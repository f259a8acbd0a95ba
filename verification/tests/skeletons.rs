use latex_gen::skeleton::{
    except_self_symbol_parts, insert_symbol_parts, only_inputs_symbol_parts, symbol_split,
    SymbolWhich,
};
use latex_gen::text::{continous_index, name_qualifier, numerals, usize_to_string};

fn strings(items: &[&str]) -> Vec<String> {
    items.iter().map(|s| s.to_string()).collect()
}

#[test]
fn split_finds_placeholders() {
    let sk = symbol_split("\\frac{#_0}{@_1}+$_0 end");
    assert_eq!(sk.parts.len(), 3);
    assert_eq!(sk.parts[0].literal, "\\frac{");
    assert_eq!(sk.parts[0].which, SymbolWhich::Input(0));
    assert_eq!(sk.parts[1].literal, "}{");
    assert_eq!(sk.parts[1].which, SymbolWhich::Attribute(1));
    assert_eq!(sk.parts[2].literal, "}+");
    assert_eq!(sk.parts[2].which, SymbolWhich::SelfName(0));
    assert_eq!(sk.tail, " end");
}

#[test]
fn split_of_plain_text_is_all_tail() {
    let sk = symbol_split("no placeholders here");
    assert_eq!(sk.parts.len(), 0);
    assert_eq!(sk.tail, "no placeholders here");
    let empty = symbol_split("");
    assert_eq!(empty.parts.len(), 0);
    assert_eq!(empty.tail, "");
}

#[test]
fn malformed_placeholder_is_literal() {
    let sk = symbol_split("a#b #_x @1 $_ #_7");
    assert_eq!(sk.parts.len(), 1);
    assert_eq!(sk.parts[0].literal, "a#b #_x @1 $_ ");
    assert_eq!(sk.parts[0].which, SymbolWhich::Input(7));
    assert_eq!(sk.tail, "");
    let short = symbol_split("x#_");
    assert_eq!(short.parts.len(), 0);
    assert_eq!(short.tail, "x#_");
}

#[test]
fn adjacent_placeholders_have_empty_literals() {
    let sk = symbol_split("#_0#_1");
    assert_eq!(sk.parts.len(), 2);
    assert_eq!(sk.parts[0].literal, "");
    assert_eq!(sk.parts[1].literal, "");
    assert_eq!(sk.parts[1].which, SymbolWhich::Input(1));
}

#[test]
fn split_counts_characters_not_bytes() {
    let sk = symbol_split("\u{d7}#_0\u{2026}");
    assert_eq!(sk.parts.len(), 1);
    assert_eq!(sk.parts[0].literal, "\u{d7}");
    assert_eq!(sk.tail, "\u{2026}");
}

#[test]
fn insert_substitutes_all_three_sources() {
    let sk = symbol_split("#_1/#_0 [@_0] $_0!");
    let r = insert_symbol_parts(&sk, &strings(&["a", "b"]), &strings(&["k"]), "me");
    assert_eq!(r, "b/a [k] me!");
}

#[test]
fn insert_renders_missing_values_as_empty() {
    let sk = symbol_split("<#_3|@_2>");
    let r = insert_symbol_parts(&sk, &strings(&["a"]), &strings(&[]), "s");
    assert_eq!(r, "<|>");
}

#[test]
fn only_inputs_leaves_attributes_and_self_empty() {
    let sk = symbol_split("#_0 @_0 $_0.");
    assert_eq!(only_inputs_symbol_parts(&sk, &strings(&["x"])), "x  .");
}

#[test]
fn except_self_leaves_self_empty() {
    let sk = symbol_split("#_0 @_0 $_0.");
    assert_eq!(except_self_symbol_parts(&sk, &strings(&["x"]), &strings(&["y"])), "x y .");
}

#[test]
fn template_round_trip_on_values() {
    let text = "\\sum_{@_0=0}^{@_1}#_0 and $_5";
    let sk = symbol_split(text);
    let back = insert_symbol_parts(
        &sk,
        &strings(&["#_0"]),
        &strings(&["@_0", "@_1"]),
        "$_5",
    );
    assert_eq!(back, text);
    let again = symbol_split(&back);
    assert_eq!(again.parts.len(), sk.parts.len());
    for k in 0..sk.parts.len() {
        assert_eq!(again.parts[k].literal, sk.parts[k].literal);
        assert_eq!(again.parts[k].which, sk.parts[k].which);
    }
    assert_eq!(again.tail, sk.tail);
}

#[test]
fn decimal_numerals() {
    assert_eq!(usize_to_string(0), "0");
    assert_eq!(usize_to_string(9), "9");
    assert_eq!(usize_to_string(10), "10");
    assert_eq!(usize_to_string(4096), "4096");
    assert_eq!(numerals(&vec![3, 14, 0]), strings(&["3", "14", "0"]));
}

#[test]
fn index_tuples() {
    assert_eq!(continous_index(&strings(&[])), "()");
    assert_eq!(continous_index(&strings(&["1"])), "(1,)");
    assert_eq!(continous_index(&strings(&["1", "22"])), "(1,22,)");
}

#[test]
fn qualifier_is_the_last_segment() {
    assert_eq!(name_qualifier("fc1.weight"), "weight");
    assert_eq!(name_qualifier("a.b.bias"), "bias");
    assert_eq!(name_qualifier("Source"), "Source");
    assert_eq!(name_qualifier("trailing."), "");
    assert_eq!(name_qualifier(""), "");
}
