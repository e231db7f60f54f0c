use kalshi_mm::double::Double;

fn d(x: f64) -> Double {
    Double { bits: x.to_bits() }
}

const VALUES: [f64; 14] = [
    0.0,
    -0.0,
    1.0,
    -1.0,
    1.2,
    -1.2,
    2.0,
    0.1,
    5e-324,
    -5e-324,
    f64::MAX,
    f64::INFINITY,
    f64::NEG_INFINITY,
    f64::NAN,
];

#[test]
fn comparisons_agree_with_the_machine() {
    for a in VALUES {
        for b in VALUES {
            assert_eq!(d(a).at_least(d(b)), a >= b, "{} >= {}", a, b);
            assert_eq!(d(a).less_than(d(b)), a < b, "{} < {}", a, b);
        }
    }
}

#[test]
fn sign_is_dropped() {
    for a in VALUES {
        assert_eq!(d(a).abs().bits, a.abs().to_bits());
        assert_eq!(d(a).is_nan(), a.is_nan());
    }
}
