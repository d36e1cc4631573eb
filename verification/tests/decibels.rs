use geoprop::decibels::Decibels;

fn db(value: f64) -> Decibels {
    Decibels::from_bits(value.to_bits())
}

fn samples() -> Vec<f64> {
    vec![
        f64::NEG_INFINITY,
        f64::MIN,
        -150.25,
        -1.0,
        -f64::MIN_POSITIVE,
        -5e-324,
        -0.0,
        0.0,
        5e-324,
        f64::MIN_POSITIVE,
        1.0,
        110.5,
        110.50000000000001,
        f64::MAX,
        f64::INFINITY,
        f64::NAN,
        -f64::NAN,
        f64::from_bits(0x7FF0_0000_0000_0001),
        f64::from_bits(0xFFFF_FFFF_FFFF_FFFF),
    ]
}

#[test]
fn below_agrees_with_numbers() {
    for a in samples() {
        for b in samples() {
            assert_eq!(db(a).is_below(&db(b)), a < b, "{a} < {b}");
        }
    }
}

#[test]
fn nan_agrees_with_numbers() {
    for a in samples() {
        assert_eq!(db(a).is_nan(), a.is_nan(), "{a}");
    }
}

#[test]
fn finite_agrees_with_numbers() {
    for a in samples() {
        assert_eq!(db(a).is_finite(), a.is_finite(), "{a}");
    }
}

#[test]
fn zero_is_positive_zero() {
    assert_eq!(Decibels::zero().to_bits(), 0.0_f64.to_bits());
    assert_eq!(f64::from_bits(Decibels::zero().to_bits()), 0.0);
    assert!(!Decibels::zero().is_below(&db(-0.0)));
    assert!(!db(-0.0).is_below(&Decibels::zero()));
}

#[test]
fn bits_round_trip() {
    for a in samples() {
        assert_eq!(db(a).to_bits(), a.to_bits());
        assert_eq!(Decibels::from_bits(a.to_bits()), Decibels { bits: a.to_bits() });
    }
}

#[test]
fn exact_patterns_compare() {
    // 110.5 dB and 121.0 dB
    let weak = Decibels::from_bits(0x405E_4000_0000_0000);
    let strong = Decibels::from_bits(0x405B_A000_0000_0000);
    assert_eq!(f64::from_bits(weak.to_bits()), 121.0);
    assert_eq!(f64::from_bits(strong.to_bits()), 110.5);
    assert!(strong.is_below(&weak));
    assert!(!weak.is_below(&strong));
    assert!(!weak.is_below(&weak));
}
