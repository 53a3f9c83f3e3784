use tracer::color::Color;
use tracer::scalar::Scalar;

fn um(v: i128) -> Scalar {
    Scalar::from_micros(v)
}

#[test]
fn color_is_a_point() {
    let a = Color::new(um(-500_000), um(400_000), um(1_700_000));
    assert_eq!(a.r, um(-500_000));
    assert_eq!(a.g, um(400_000));
    assert_eq!(a.b, um(1_700_000));
}

#[test]
fn add_color() {
    let c1 = Color::new(um(900_000), um(600_000), um(750_000));
    let c2 = Color::new(um(700_000), um(100_000), um(250_000));
    let expect = Color::new(um(1_600_000), um(700_000), um(1_000_000));
    assert_eq!(c1.add(c2), expect);
}

#[test]
fn sub_color() {
    let c1 = Color::new(um(900_000), um(600_000), um(750_000));
    let c2 = Color::new(um(700_000), um(100_000), um(250_000));
    let expect = Color::new(um(200_000), um(500_000), um(500_000));
    assert_eq!(c1.sub(c2), expect);
}

#[test]
fn mul_color_scala() {
    let c1 = Color::new(um(200_000), um(300_000), um(400_000));
    let expect = Color::new(um(400_000), um(600_000), um(800_000));
    assert_eq!(c1.scale(Scalar::from_int(2)), expect);
}

#[test]
fn mul_color() {
    let c1 = Color::new(um(200_000), um(300_000), um(400_000));
    let c2 = Color::new(um(900_000), um(1_000_000), um(100_000));
    let expect = Color::new(um(180_000), um(300_000), um(40_000));
    assert_eq!(c1.mul(c2), expect);
}

#[test]
fn div_color() {
    let c1 = Color::new(um(400_000), um(600_000), um(800_000));
    let expect = Color::new(um(200_000), um(300_000), um(400_000));
    assert_eq!(c1.div(Scalar::from_int(2)), expect);
}
