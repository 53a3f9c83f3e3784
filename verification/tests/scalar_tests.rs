use tracer::scalar::Scalar;

fn s(n: i64) -> Scalar {
    Scalar::from_int(n)
}

fn um(v: i128) -> Scalar {
    Scalar::from_micros(v)
}

#[test]
fn scalar_ratio_truncates_toward_zero() {
    assert_eq!(Scalar::ratio(1, 10), um(100_000));
    assert_eq!(Scalar::ratio(-160, 532), um(-300_751));
    assert_eq!(Scalar::ratio(2, 3), um(666_666));
    assert_eq!(Scalar::ratio(-2, 3), um(-666_666));
}

#[test]
fn scalar_mul_truncates_toward_zero() {
    assert_eq!(um(1_500_000).mul(um(1_500_000)), um(2_250_000));
    assert_eq!(um(-1_500_000).mul(um(1_500_000)), um(-2_250_000));
    assert_eq!(um(333_333).mul(um(3)), um(0));
    assert_eq!(um(-333_333).mul(um(3)), um(0));
}

#[test]
fn scalar_sqrt_is_exact_on_squares() {
    assert_eq!(um(2_250_000).sqrt(), um(1_500_000));
    assert_eq!(s(4).sqrt(), s(2));
    assert_eq!(s(2).sqrt(), um(1_414_213));
    assert_eq!(s(0).sqrt(), s(0));
}

#[test]
fn scalar_pow_truncates_each_step() {
    assert_eq!(um(500_000).pow(2), um(250_000));
    assert_eq!(s(1).pow(200), s(1));
    assert_eq!(um(707_106).pow(200), um(0));
    assert_eq!(s(0).pow(0), s(1));
}

#[test]
fn scalar_div_truncates_toward_zero() {
    assert_eq!(s(1).div(s(3)), um(333_333));
    assert_eq!(s(-1).div(s(3)), um(-333_333));
    assert_eq!(s(1).div(s(-3)), um(-333_333));
    assert_eq!(s(7).div(s(2)), um(3_500_000));
}
