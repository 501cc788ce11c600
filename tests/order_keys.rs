use bootstats::{at_most, bits_of_key, less_than, order_key};

fn key(x: f64) -> u64 {
    order_key(x.to_bits())
}

#[test]
fn keys_follow_numeric_order() {
    let xs = [
        f64::NEG_INFINITY,
        -1.0e300,
        -1.5,
        -f64::MIN_POSITIVE,
        0.0,
        5.0e-324,
        1.0e-300,
        2.0,
        1.0e300,
        f64::INFINITY,
        f64::NAN,
    ];
    for w in xs.windows(2) {
        assert!(key(w[0]) < key(w[1]), "{} before {}", w[0], w[1]);
    }
}

#[test]
fn both_zeros_share_a_key() {
    assert_eq!(key(-0.0), key(0.0));
}

#[test]
fn every_nan_sorts_last() {
    let negative_nan = f64::from_bits(0xfff8_0000_0000_0001);
    assert!(negative_nan.is_nan());
    assert_eq!(key(negative_nan), key(f64::NAN));
    assert!(key(f64::INFINITY) < key(negative_nan));
}

#[test]
fn keys_give_values_back() {
    for x in [-3.25, -1.0e-310, 0.0, 1.0, 6.02e23, f64::INFINITY, f64::NEG_INFINITY] {
        assert_eq!(f64::from_bits(bits_of_key(key(x))).to_bits(), x.to_bits());
    }
    let zero = f64::from_bits(bits_of_key(key(-0.0)));
    assert_eq!(zero.to_bits(), 0.0f64.to_bits());
    assert!(f64::from_bits(bits_of_key(key(f64::NAN))).is_nan());
}

#[test]
fn comparisons_match_float_operators() {
    let xs = [
        f64::NEG_INFINITY,
        -2.0,
        -0.5,
        -0.0,
        0.0,
        1.0e-320,
        0.5,
        2.0,
        f64::INFINITY,
        f64::NAN,
    ];
    for &a in xs.iter() {
        for &b in xs.iter() {
            assert_eq!(less_than(a.to_bits(), b.to_bits()), a < b, "{} < {}", a, b);
            assert_eq!(at_most(a.to_bits(), b.to_bits()), a <= b, "{} <= {}", a, b);
        }
    }
}
