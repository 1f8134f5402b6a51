use linear_regression::binary64::{equal, greater, is_nan, max_ignoring_nan, max_of, min_ignoring_nan, min_of};

fn samples() -> Vec<f64> {
    vec![
        0.0,
        -0.0,
        1.0,
        -1.0,
        0.5,
        -0.5,
        2.0,
        1.0e300,
        -1.0e300,
        f64::MIN_POSITIVE,
        -f64::MIN_POSITIVE,
        f64::MIN_POSITIVE / 4.0,
        -f64::MIN_POSITIVE / 4.0,
        f64::MAX,
        f64::MIN,
        f64::INFINITY,
        f64::NEG_INFINITY,
        f64::NAN,
        -f64::NAN,
        f64::from_bits(0x7FF0_0000_0000_0001),
        f64::from_bits(0xFFFF_FFFF_FFFF_FFFF),
        123456.789,
        -98765.4321,
    ]
}

#[test]
fn greater_agrees_with_the_hardware_comparison() {
    for a in samples() {
        for b in samples() {
            assert_eq!(greater(a.to_bits(), b.to_bits()), a > b, "{} > {}", a, b);
        }
    }
}

#[test]
fn equal_agrees_with_the_hardware_comparison() {
    for a in samples() {
        for b in samples() {
            assert_eq!(equal(a.to_bits(), b.to_bits()), a == b, "{} == {}", a, b);
        }
    }
}

#[test]
fn nan_is_recognised_from_its_bits() {
    for a in samples() {
        assert_eq!(is_nan(a.to_bits()), a.is_nan());
    }
    assert!(is_nan((0.0f64 / 0.0).to_bits()));
}

#[test]
fn max_and_min_of_two_follow_the_standard_functions() {
    for a in samples() {
        for b in samples() {
            let m = f64::from_bits(max_of(a.to_bits(), b.to_bits()));
            let expected = a.max(b);
            if expected.is_nan() {
                assert!(m.is_nan());
            } else {
                assert_eq!(m, expected, "max({}, {})", a, b);
            }
            let m = f64::from_bits(min_of(a.to_bits(), b.to_bits()));
            let expected = a.min(b);
            if expected.is_nan() {
                assert!(m.is_nan());
            } else {
                assert_eq!(m, expected, "min({}, {})", a, b);
            }
        }
    }
}

fn bits(v: &[f64]) -> Vec<u64> {
    v.iter().map(|x| x.to_bits()).collect()
}

#[test]
fn folds_find_the_extremes_of_a_column() {
    let v = vec![240000.0, 139800.0, 150500.0, 22899.0, 61789.0];
    assert_eq!(f64::from_bits(max_ignoring_nan(&bits(&v))), 240000.0);
    assert_eq!(f64::from_bits(min_ignoring_nan(&bits(&v))), 22899.0);
    let folded_max = v.iter().cloned().fold(0. / 0., f64::max);
    let folded_min = v.iter().cloned().fold(0. / 0., f64::min);
    assert_eq!(f64::from_bits(max_ignoring_nan(&bits(&v))), folded_max);
    assert_eq!(f64::from_bits(min_ignoring_nan(&bits(&v))), folded_min);
}

#[test]
fn folds_skip_nan_and_give_nan_on_no_value() {
    let v = vec![f64::NAN, 3.0, f64::NAN, -7.5, 1.0];
    assert_eq!(f64::from_bits(max_ignoring_nan(&bits(&v))), 3.0);
    assert_eq!(f64::from_bits(min_ignoring_nan(&bits(&v))), -7.5);
    assert!(f64::from_bits(max_ignoring_nan(&Vec::new())).is_nan());
    assert!(f64::from_bits(min_ignoring_nan(&Vec::new())).is_nan());
    assert!(f64::from_bits(max_ignoring_nan(&bits(&[f64::NAN, f64::NAN]))).is_nan());
}

#[test]
fn folds_handle_infinities() {
    let v = vec![1.0, f64::NEG_INFINITY, f64::INFINITY, 0.0];
    assert_eq!(f64::from_bits(max_ignoring_nan(&bits(&v))), f64::INFINITY);
    assert_eq!(f64::from_bits(min_ignoring_nan(&bits(&v))), f64::NEG_INFINITY);
}
