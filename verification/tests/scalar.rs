use siskin::{Double, FloatData, Single};

fn single(v: f32) -> Single {
    Single::from_bits(v.to_bits())
}

fn double(v: f64) -> Double {
    Double::from_bits(v.to_bits())
}

fn single_samples() -> Vec<f32> {
    vec![
        0.0,
        -0.0,
        1.0,
        -1.0,
        0.5,
        -0.5,
        1.5,
        3.25,
        -3.25,
        1.0e-40,
        -1.0e-40,
        f32::MIN_POSITIVE,
        f32::MAX,
        f32::MIN,
        f32::INFINITY,
        f32::NEG_INFINITY,
        f32::NAN,
        -f32::NAN,
        f32::from_bits(0x7f80_0001),
        f32::from_bits(0xffff_ffff),
    ]
}

fn double_samples() -> Vec<f64> {
    vec![
        0.0,
        -0.0,
        1.0,
        -1.0,
        0.1,
        -0.1,
        2.5e300,
        -2.5e300,
        5.0e-324,
        -5.0e-324,
        f64::MAX,
        f64::MIN,
        f64::INFINITY,
        f64::NEG_INFINITY,
        f64::NAN,
        f64::from_bits(0x7ff0_0000_0000_0001),
        f64::from_bits(0xffff_ffff_ffff_ffff),
    ]
}

#[test]
fn single_bits_are_kept() {
    for v in single_samples() {
        assert_eq!(single(v).to_bits(), v.to_bits());
        assert_eq!(single(v).bits, v.to_bits());
    }
}

#[test]
fn single_constants() {
    assert_eq!(Single::zero().to_bits(), 0.0f32.to_bits());
    assert_eq!(Single::one().to_bits(), 1.0f32.to_bits());
    assert_eq!(Single::one().to_bits(), 0x3f80_0000);
    assert_eq!(Single::size(), 4);
}

#[test]
fn double_constants() {
    assert_eq!(Double::zero().to_bits(), 0.0f64.to_bits());
    assert_eq!(Double::one().to_bits(), 1.0f64.to_bits());
    assert_eq!(Double::one().to_bits(), 0x3ff0_0000_0000_0000);
    assert_eq!(Double::size(), 8);
}

#[test]
fn single_is_nan_agrees_with_the_hardware() {
    for v in single_samples() {
        assert_eq!(single(v).is_nan(), v.is_nan(), "{:?}", v);
    }
}

#[test]
fn double_is_nan_agrees_with_the_hardware() {
    for v in double_samples() {
        assert_eq!(double(v).is_nan(), v.is_nan(), "{:?}", v);
    }
}

#[test]
fn single_comparisons_agree_with_the_hardware() {
    for a in single_samples() {
        for b in single_samples() {
            assert_eq!(single(a).lt(&single(b)), a < b, "{:?} < {:?}", a, b);
            assert_eq!(single(a).le(&single(b)), a <= b, "{:?} <= {:?}", a, b);
        }
    }
}

#[test]
fn double_comparisons_agree_with_the_hardware() {
    for a in double_samples() {
        for b in double_samples() {
            assert_eq!(double(a).lt(&double(b)), a < b, "{:?} < {:?}", a, b);
            assert_eq!(double(a).le(&double(b)), a <= b, "{:?} <= {:?}", a, b);
        }
    }
}

#[test]
fn zeros_compare_equal_but_are_different_values() {
    assert!(!single(-0.0).lt(&single(0.0)));
    assert!(single(-0.0).le(&single(0.0)));
    assert!(single(0.0).le(&single(-0.0)));
    assert_ne!(single(-0.0), single(0.0));
}

#[test]
fn single_from_le_bytes_reads_four_bytes() {
    assert_eq!(Single::from_le_bytes(&[0x00, 0x00, 0x80, 0x3f]), single(1.0));
    assert_eq!(
        Single::from_le_bytes(&[0x78, 0x56, 0x34, 0x12]).to_bits(),
        0x1234_5678
    );
    for v in single_samples() {
        assert_eq!(Single::from_le_bytes(&v.to_le_bytes()).to_bits(), v.to_bits());
    }
}

#[test]
fn single_from_le_bytes_ignores_what_follows() {
    let v = Single::from_le_bytes(&[0x00, 0x00, 0x20, 0x41, 0xff, 0xff]);
    assert_eq!(v, single(10.0));
}

#[test]
fn double_from_le_bytes_reads_eight_bytes() {
    assert_eq!(
        Double::from_le_bytes(&[0x00, 0x00, 0x00, 0x00, 0x00, 0x00, 0xf0, 0x3f]),
        double(1.0)
    );
    assert_eq!(
        Double::from_le_bytes(&[0xef, 0xcd, 0xab, 0x89, 0x67, 0x45, 0x23, 0x01]).to_bits(),
        0x0123_4567_89ab_cdef
    );
    for v in double_samples() {
        assert_eq!(Double::from_le_bytes(&v.to_le_bytes()).to_bits(), v.to_bits());
    }
}
