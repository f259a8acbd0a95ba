use latex_gen::kind::{gen_symbol, is_weightable, FormulKind};

#[test]
fn latex_tool_test_expand() {}

#[test]
fn lib_test_expand() {}

#[test]
fn weightable_kinds() {
    assert_eq!(is_weightable(FormulKind::Function), Some(FormulKind::Function));
    assert_eq!(is_weightable(FormulKind::Cnn), Some(FormulKind::Cnn));
    assert_eq!(is_weightable(FormulKind::MaxPool), Some(FormulKind::MaxPool));
    assert_eq!(is_weightable(FormulKind::SumPool), Some(FormulKind::SumPool));
    assert_eq!(is_weightable(FormulKind::Activation), None);
    assert_eq!(is_weightable(FormulKind::Weight), None);
    assert_eq!(is_weightable(FormulKind::Undefined), None);
}

#[test]
fn symbols_by_kind() {
    assert_eq!(gen_symbol(None, FormulKind::Activation, 3), "h_3");
    assert_eq!(gen_symbol(None, FormulKind::Function, 12), "f_12");
    assert_eq!(gen_symbol(None, FormulKind::Cnn, 2), "f_2");
    assert_eq!(gen_symbol(None, FormulKind::Weight, 1), "\\overline{W_1}");
    assert_eq!(gen_symbol(None, FormulKind::Bias, 40), "\\overline{B_40}");
    assert_eq!(gen_symbol(None, FormulKind::Input, 7), "\\overline{Input}");
    assert_eq!(gen_symbol(None, FormulKind::MaxPool, 0), "MaxPool_0");
    assert_eq!(gen_symbol(None, FormulKind::SumPool, 0), "SumPool_0");
    assert_eq!(gen_symbol(None, FormulKind::Undefined, 0), "");
    assert_eq!(gen_symbol(Some("x".to_string()), FormulKind::Const, 0), "x_0");
    assert_eq!(gen_symbol(None, FormulKind::Const, 0), "Undefined");
}
