use cycle_orc::calc::{calc_form, CalcForm, CalcOp};

fn s(x: &str) -> String {
    x.to_string()
}

#[test]
fn binary_expressions() {
    assert_eq!(calc_form("65000 * 0.1"), CalcForm::Binary { lhs: s("65000"), op: CalcOp::Mul, rhs: s("0.1") });
    assert_eq!(calc_form("3 x 4"), CalcForm::Binary { lhs: s("3"), op: CalcOp::Mul, rhs: s("4") });
    assert_eq!(calc_form("1 + 2"), CalcForm::Binary { lhs: s("1"), op: CalcOp::Add, rhs: s("2") });
    assert_eq!(calc_form("1 - 2"), CalcForm::Binary { lhs: s("1"), op: CalcOp::Sub, rhs: s("2") });
    assert_eq!(calc_form("1 / 2"), CalcForm::Binary { lhs: s("1"), op: CalcOp::Div, rhs: s("2") });
    assert_eq!(calc_form("7 % 2"), CalcForm::Binary { lhs: s("7"), op: CalcOp::Rem, rhs: s("2") });
    assert_eq!(calc_form("1 ^ 2"), CalcForm::BadOperator);
}

#[test]
fn triple_products() {
    assert_eq!(
        calc_form("65000 * 0.1 x 20"),
        CalcForm::Product { a: s("65000"), b: s("0.1"), c: s("20") }
    );
}

#[test]
fn everything_else_is_one_number() {
    assert_eq!(calc_form("1 + 2 + 3"), CalcForm::Literal { text: s("1+2+3") });
    assert_eq!(calc_form("42"), CalcForm::Literal { text: s("42") });
    assert_eq!(calc_form("1 2"), CalcForm::Literal { text: s("12") });
}
