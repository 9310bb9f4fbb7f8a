use umeboshi::number::{at_most, equal, less, nan, INFINITY_BITS, SIGN_BIT};

fn samples() -> Vec<f64> {
    vec![
        0.0,
        -0.0,
        1.0,
        -1.0,
        2.5,
        -2.5,
        1.0e-300,
        -1.0e-300,
        f64::MIN_POSITIVE,
        -f64::MIN_POSITIVE,
        f64::from_bits(1),
        -f64::from_bits(1),
        f64::MAX,
        f64::MIN,
        f64::INFINITY,
        f64::NEG_INFINITY,
        f64::NAN,
        -f64::NAN,
        f64::from_bits(0x7ff0_0000_0000_0001),
        f64::from_bits(0xfff0_0000_0000_0001),
        f64::from_bits(0xffff_ffff_ffff_ffff),
        3.3,
        1.0 + 2.3,
    ]
}

#[test]
fn nan_is_recognised_on_the_bits() {
    for x in samples() {
        assert_eq!(nan(x.to_bits()), x.is_nan(), "{:?}", x);
    }
    assert!(!nan(INFINITY_BITS));
    assert!(nan(INFINITY_BITS + 1));
    assert!(!nan(SIGN_BIT));
    assert!(!nan(SIGN_BIT + INFINITY_BITS));
    assert!(nan(SIGN_BIT + INFINITY_BITS + 1));
}

#[test]
fn equality_on_bits_is_float_equality() {
    for x in samples() {
        for y in samples() {
            assert_eq!(equal(x.to_bits(), y.to_bits()), x == y, "{:?} == {:?}", x, y);
        }
    }
}

#[test]
fn order_on_bits_is_float_order() {
    for x in samples() {
        for y in samples() {
            assert_eq!(less(x.to_bits(), y.to_bits()), x < y, "{:?} < {:?}", x, y);
            assert_eq!(at_most(x.to_bits(), y.to_bits()), x <= y, "{:?} <= {:?}", x, y);
        }
    }
}

#[test]
fn the_two_zeros_are_equal_and_unordered() {
    let plus = 0.0f64.to_bits();
    let minus = (-0.0f64).to_bits();
    assert_ne!(plus, minus);
    assert!(equal(plus, minus));
    assert!(!less(plus, minus));
    assert!(!less(minus, plus));
    assert!(at_most(plus, minus));
    assert!(at_most(minus, plus));
}

#[test]
fn nothing_compares_with_nan() {
    let n = f64::NAN.to_bits();
    let one = 1.0f64.to_bits();
    assert!(!equal(n, n));
    assert!(!less(n, one));
    assert!(!less(one, n));
    assert!(!at_most(n, n));
}

#[test]
fn at_most_is_less_or_equal() {
    for x in samples() {
        for y in samples() {
            let (a, b) = (x.to_bits(), y.to_bits());
            assert_eq!(at_most(a, b), less(a, b) || equal(a, b), "{:?} <= {:?}", x, y);
        }
    }
}

#[test]
fn numbers_are_totally_ordered() {
    for x in samples() {
        for y in samples() {
            let (a, b) = (x.to_bits(), y.to_bits());
            let outcomes = [less(a, b), equal(a, b), less(b, a)];
            let expected = if nan(a) || nan(b) { 0 } else { 1 };
            assert_eq!(outcomes.iter().filter(|o| **o).count(), expected, "{:?} {:?}", x, y);
            for z in samples() {
                let c = z.to_bits();
                if less(a, b) && less(b, c) {
                    assert!(less(a, c), "{:?} {:?} {:?}", x, y, z);
                }
            }
        }
    }
}
