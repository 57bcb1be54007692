use geogebra_types::{Expr, Numeric};

fn num(s: &str) -> Numeric {
    Numeric::from_str_radix(s, 10).unwrap()
}

#[test]
fn is_const_is_exactly_literal_parse() {
    assert!(num("2").is_const());
    assert!(num("2.5").is_const());
    assert!(num("-2.5e-3").is_const());
    assert!(num(".5").is_const());
    assert!(num("1.").is_const());
    assert!(num("inf").is_const());
    assert!(num("-Infinity").is_const());
    assert!(num("NaN").is_const());
    assert!(!num("2+3").is_const());
    assert!(!num("2 + 3").is_const());
    assert!(!num(".").is_const());
    assert!(!num("").is_const());
    assert!(!num("1e").is_const());
    assert!(!num("e5").is_const());
    assert!(!Numeric::from_real_text("1").is_const());
}

#[test]
fn equality_is_textual_first() {
    assert!(num("x + y") == num("x + y"));
    assert!(num("x + y") != num("y + x"));
}

#[test]
fn equality_falls_back_to_literal_values() {
    assert!(num("2") == num("2.0"));
    assert!(num("0.1") == num("0.10"));
    assert!(num("1e2") == num("100"));
    assert!(num("-0") == num("0"));
    assert!(num("2.5e1") == num("25"));
    assert!(num("2") != num("3"));
    assert!(num("inf") == num("+Infinity"));
    assert!(num("-inf") != num("inf"));
    // identical texts are equal by rule, even for nan ...
    assert!(num("nan") == num("nan"));
    // ... but two different nan spellings hit the literal path, and nan
    // equals nothing there
    assert!(num("nan") != num("NaN"));
}

#[test]
fn compound_sum_is_not_equal_to_its_literal_value() {
    // composing two literal operands keeps the compound text: the sum is not
    // simplified, so equality against the literal value must be false
    let one = Numeric::from_real_text("1");
    let two = Numeric::from_real_text("2");
    let sum = one.plus(two);
    let mut t = String::new();
    t.push_str("(1 + 0i) + (2 + 0i)");
    assert_eq!(sum.text_string(), t);
    assert!(!sum.is_const());
    assert!(sum != num("3"));
    assert!(sum != Numeric::from_real_text("3"));
}
