use ballistics::Scalar;

fn bits(x: f64) -> Scalar {
    Scalar::from_bits(x.to_bits())
}

fn specimens() -> Vec<f64> {
    vec![
        0.0,
        -0.0,
        1.0,
        -1.0,
        0.001,
        -0.001,
        205.47699951676947,
        -205.47699951676947,
        254.841997961264,
        f64::MIN_POSITIVE,
        -f64::MIN_POSITIVE,
        5e-324,
        -5e-324,
        f64::MAX,
        f64::MIN,
        f64::INFINITY,
        f64::NEG_INFINITY,
        f64::NAN,
        -f64::NAN,
        f64::EPSILON,
        1.0 + f64::EPSILON,
        1.0 - f64::EPSILON / 2.0,
    ]
}

#[test]
fn less_than_agrees_with_the_numbers() {
    for &a in &specimens() {
        for &b in &specimens() {
            assert_eq!(bits(a).lt(bits(b)), a < b, "{} < {}", a, b);
        }
    }
}

#[test]
fn greater_than_agrees_with_the_numbers() {
    for &a in &specimens() {
        for &b in &specimens() {
            assert_eq!(bits(a).gt(bits(b)), a > b, "{} > {}", a, b);
        }
    }
}

#[test]
fn at_least_agrees_with_the_numbers() {
    for &a in &specimens() {
        for &b in &specimens() {
            assert_eq!(bits(a).ge(bits(b)), a >= b, "{} >= {}", a, b);
        }
    }
}

#[test]
fn at_most_agrees_with_the_numbers() {
    for &a in &specimens() {
        for &b in &specimens() {
            assert_eq!(bits(a).le(bits(b)), a <= b, "{} <= {}", a, b);
        }
    }
}

#[test]
fn same_agrees_with_the_numbers() {
    for &a in &specimens() {
        for &b in &specimens() {
            assert_eq!(bits(a).same(bits(b)), a == b, "{} == {}", a, b);
        }
    }
}

#[test]
fn nan_is_recognised() {
    for &a in &specimens() {
        assert_eq!(bits(a).nan(), a.is_nan(), "{}", a);
    }
    assert!(Scalar::from_bits(0x7ff0_0000_0000_0001).nan());
    assert!(Scalar::from_bits(0xfff8_0000_0000_0000).nan());
    assert!(!Scalar::from_bits(0x7ff0_0000_0000_0000).nan());
    assert!(!Scalar::from_bits(0xfff0_0000_0000_0000).nan());
}

#[test]
fn the_two_zeros_are_the_same_number_but_not_the_same_bits() {
    let plus = bits(0.0);
    let minus = bits(-0.0);
    assert!(plus.same(minus));
    assert!(!plus.lt(minus));
    assert!(!minus.lt(plus));
    assert!(plus.ge(minus) && minus.ge(plus));
    assert_ne!(plus, minus);
    assert_eq!(plus, Scalar::new_zero());
    assert_eq!(Scalar::new_zero().to_bits(), 0);
}

#[test]
fn bits_round_trip() {
    for &a in &specimens() {
        assert_eq!(bits(a).to_bits(), a.to_bits());
    }
}

#[test]
fn order_is_transitive_on_sorted_specimens() {
    let mut numbers: Vec<f64> = specimens().into_iter().filter(|x| !x.is_nan()).collect();
    numbers.sort_by(|a, b| a.partial_cmp(b).unwrap());
    for i in 0..numbers.len() {
        for j in i..numbers.len() {
            assert!(bits(numbers[i]).le(bits(numbers[j])));
            assert!(!bits(numbers[j]).lt(bits(numbers[i])));
        }
    }
}
