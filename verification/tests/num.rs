use rustats::error::ErrorKind;
use rustats::num::{bits_are_finite, bits_are_nan, FiniteF64, NonNanF64, INFINITY_BITS, ONE_BITS, SIGN_BIT};
use std::cmp::Ordering;

fn table() -> Vec<f64> {
    vec![
        f64::NEG_INFINITY,
        f64::MIN,
        -1.0e300,
        -2.5,
        -1.0,
        -f64::MIN_POSITIVE,
        -5.0e-324,
        -0.0,
        0.0,
        5.0e-324,
        f64::MIN_POSITIVE,
        0.2,
        1.0,
        1.5,
        2.5,
        1.0e300,
        f64::MAX,
        f64::INFINITY,
    ]
}

#[test]
fn non_nan_takes_every_number_but_nan() {
    for x in table() {
        let n = NonNanF64::new(x.to_bits()).unwrap();
        assert_eq!(n.get(), x.to_bits());
    }
    assert_eq!(NonNanF64::new(f64::NAN.to_bits()).unwrap_err().kind(), ErrorKind::InvalidInput);
    assert_eq!(NonNanF64::new(0x7ff0_0000_0000_0001).unwrap_err().kind(), ErrorKind::InvalidInput);
    assert_eq!(NonNanF64::new(0xfff8_0000_0000_0000).unwrap_err().kind(), ErrorKind::InvalidInput);
    assert_eq!(NonNanF64::new(u64::MAX).unwrap_err().kind(), ErrorKind::InvalidInput);
}

#[test]
fn finite_takes_neither_nan_nor_infinity() {
    for x in table() {
        let r = FiniteF64::new(x.to_bits());
        assert_eq!(r.is_ok(), x.is_finite());
        if let Ok(n) = r {
            assert_eq!(n.get(), x.to_bits());
        } else {
            assert_eq!(r.unwrap_err().kind(), ErrorKind::InvalidInput);
        }
    }
    assert_eq!(FiniteF64::new(f64::NAN.to_bits()).unwrap_err().kind(), ErrorKind::InvalidInput);
    assert!(FiniteF64::new(f64::MAX.to_bits()).is_ok());
    assert!(FiniteF64::new(f64::INFINITY.to_bits()).is_err());
    assert!(FiniteF64::new(f64::NEG_INFINITY.to_bits()).is_err());
}

#[test]
fn classification_agrees_with_the_hardware() {
    let mut all = table();
    all.push(f64::NAN);
    all.push(-f64::NAN);
    all.push(f64::from_bits(0x7ff0_0000_0000_0001));
    for x in all {
        assert_eq!(bits_are_nan(x.to_bits()), x.is_nan());
        assert_eq!(bits_are_finite(x.to_bits()), x.is_finite());
    }
}

#[test]
fn constants_are_the_encodings_they_name() {
    assert_eq!(SIGN_BIT, (-0.0f64).to_bits());
    assert_eq!(INFINITY_BITS, f64::INFINITY.to_bits());
    assert_eq!(ONE_BITS, 1.0f64.to_bits());
    assert_eq!(NonNanF64::zero().get(), 0.0f64.to_bits());
    assert_eq!(NonNanF64::one().get(), 1.0f64.to_bits());
    assert_eq!(FiniteF64::zero().get(), 0.0f64.to_bits());
    assert_eq!(FiniteF64::one().get(), 1.0f64.to_bits());
}

#[test]
fn non_nan_orders_as_the_numbers_do() {
    for x in table() {
        for y in table() {
            let a = NonNanF64::new(x.to_bits()).unwrap();
            let b = NonNanF64::new(y.to_bits()).unwrap();
            assert_eq!(a < b, x < y);
            assert_eq!(a <= b, x <= y);
            assert_eq!(a > b, x > y);
            assert_eq!(a >= b, x >= y);
            assert_eq!(a == b, x == y);
            assert_eq!(a != b, x != y);
            assert_eq!(a.partial_cmp(&b), x.partial_cmp(&y));
            assert_eq!(Some(a.cmp(&b)), x.partial_cmp(&y));
        }
    }
}

#[test]
fn finite_orders_as_the_numbers_do() {
    for x in table() {
        for y in table() {
            if !x.is_finite() || !y.is_finite() {
                continue;
            }
            let a = FiniteF64::new(x.to_bits()).unwrap();
            let b = FiniteF64::new(y.to_bits()).unwrap();
            assert_eq!(a < b, x < y);
            assert_eq!(a <= b, x <= y);
            assert_eq!(a > b, x > y);
            assert_eq!(a >= b, x >= y);
            assert_eq!(a == b, x == y);
            assert_eq!(a.partial_cmp(&b), x.partial_cmp(&y));
            assert_eq!(Some(a.cmp(&b)), x.partial_cmp(&y));
        }
    }
}

#[test]
fn the_two_zeros_are_equal_and_keep_their_bits() {
    let plus = NonNanF64::new(0.0f64.to_bits()).unwrap();
    let minus = NonNanF64::new((-0.0f64).to_bits()).unwrap();
    assert!(plus == minus);
    assert_eq!(plus.cmp(&minus), Ordering::Equal);
    assert_eq!(minus.get(), SIGN_BIT);
    assert_eq!(plus.get(), 0);
}

#[test]
fn keys_order_as_the_numbers_do() {
    for x in table() {
        for y in table() {
            let a = NonNanF64::new(x.to_bits()).unwrap();
            let b = NonNanF64::new(y.to_bits()).unwrap();
            assert_eq!(a.key() < b.key(), x < y);
            assert_eq!(a.key() == b.key(), x == y);
        }
    }
    assert_eq!(NonNanF64::new(0.0f64.to_bits()).unwrap().key(), 0);
    assert_eq!(NonNanF64::new((-0.0f64).to_bits()).unwrap().key(), 0);
    assert_eq!(NonNanF64::new(5.0e-324f64.to_bits()).unwrap().key(), 1);
    assert_eq!(NonNanF64::new((-5.0e-324f64).to_bits()).unwrap().key(), -1);
    assert_eq!(NonNanF64::new(f64::INFINITY.to_bits()).unwrap().key(), 0x7ff0_0000_0000_0000);
    assert_eq!(NonNanF64::new(f64::NEG_INFINITY.to_bits()).unwrap().key(), -0x7ff0_0000_0000_0000);
    assert_eq!(FiniteF64::new(1.0f64.to_bits()).unwrap().key(), 0x3ff0_0000_0000_0000);
    assert_eq!(FiniteF64::new((-1.0f64).to_bits()).unwrap().key(), -0x3ff0_0000_0000_0000);
}

#[test]
fn new_unchecked_takes_the_encoding_as_given() {
    assert_eq!(NonNanF64::new_unchecked(2.5f64.to_bits()).get(), 2.5f64.to_bits());
    assert_eq!(NonNanF64::new_unchecked(f64::INFINITY.to_bits()).get(), INFINITY_BITS);
    assert_eq!(FiniteF64::new_unchecked((-2.5f64).to_bits()).get(), (-2.5f64).to_bits());
}

#[test]
fn the_default_number_is_positive_zero() {
    assert_eq!(FiniteF64::default().get(), 0.0f64.to_bits());
    assert_eq!(NonNanF64::default().get(), 0.0f64.to_bits());
    assert_eq!(FiniteF64::default().key(), 0);
}
