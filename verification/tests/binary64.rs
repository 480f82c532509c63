use ironbar::binary64::Binary64;

fn of(value: f64) -> Binary64 {
    Binary64 { bits: value.to_bits() }
}

#[test]
fn comparison_agrees_with_the_machine() {
    let values = [
        0.0,
        -0.0,
        f64::MIN_POSITIVE,
        -f64::MIN_POSITIVE,
        5e-324,
        -5e-324,
        2.2250738585072009e-308,
        1.0,
        1.0000000000000002,
        -1.0,
        49.99,
        50.0,
        79.5,
        -273.15,
        100.0,
        f64::MAX,
        f64::MIN,
        f64::INFINITY,
        f64::NEG_INFINITY,
        f64::NAN,
        -f64::NAN,
    ];
    for a in values {
        for b in values {
            assert_eq!(of(a).at_least(of(b)), a >= b, "{} {}", a, b);
        }
    }
}

#[test]
fn zeros_are_equal() {
    assert!(of(0.0).at_least(of(-0.0)));
    assert!(of(-0.0).at_least(of(0.0)));
}

#[test]
fn nan_compares_with_nothing() {
    assert!(!of(f64::NAN).at_least(of(f64::NAN)));
    assert!(!of(f64::NAN).at_least(of(1.0)));
    assert!(!of(1.0).at_least(of(f64::NAN)));
}
