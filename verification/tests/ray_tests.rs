use tracer::intersect::intersect;
use tracer::matrix::Matrix;
use tracer::object::{transform, Object};
use tracer::ray::Ray;
use tracer::scalar::Scalar;
use tracer::tuple::Tuple;

fn s(n: i64) -> Scalar {
    Scalar::from_int(n)
}

fn um(v: i128) -> Scalar {
    Scalar::from_micros(v)
}

#[test]
fn test_ray() {
    let origin = Tuple::point(s(1), s(2), s(3));
    let direction = Tuple::vector(s(4), s(5), s(6));
    let r = Ray::new(origin, direction);
    assert_eq!(r.origin, Tuple::point(s(1), s(2), s(3)));
    assert_eq!(r.direction, Tuple::vector(s(4), s(5), s(6)));
}

#[test]
fn test_position_at() {
    let r = Ray::new(Tuple::point(s(2), s(3), s(4)), Tuple::vector(s(1), s(0), s(0)));
    assert_eq!(r.position_at(s(0)), Tuple::point(s(2), s(3), s(4)));
    assert_eq!(r.position_at(s(1)), Tuple::point(s(3), s(3), s(4)));
    assert_eq!(r.position_at(s(-1)), Tuple::point(s(1), s(3), s(4)));
    assert_eq!(r.position_at(um(2_500_000)), Tuple::point(um(4_500_000), s(3), s(4)));
}

#[test]
fn test_ray_translate() {
    let r = Ray::new(Tuple::point(s(1), s(2), s(3)), Tuple::vector(s(0), s(1), s(0)));
    let m = Matrix::translation(s(3), s(4), s(5));
    let result = r.transform(&m);
    assert_eq!(result.origin, Tuple::point(s(4), s(6), s(8)));
    assert_eq!(result.direction, Tuple::vector(s(0), s(1), s(0)));
}

#[test]
fn test_ray_scale() {
    let r = Ray::new(Tuple::point(s(1), s(2), s(3)), Tuple::vector(s(0), s(1), s(0)));
    let m = Matrix::scale(s(2), s(3), s(4));
    let result = r.transform(&m);
    assert_eq!(result.origin, Tuple::point(s(2), s(6), s(12)));
    assert_eq!(result.direction, Tuple::vector(s(0), s(3), s(0)));
}

#[test]
fn test_ray_intersect_scale() {
    let r = Ray::new(Tuple::point(s(0), s(0), s(-5)), Tuple::vector(s(0), s(0), s(1)));
    let sp = Object::sphere();
    let sp = transform(&sp, &Matrix::scale(s(2), s(2), s(2)));
    let mut xs = intersect(&r, &sp).expect("Should be inversable");
    assert_eq!(xs.len(), 2);
    assert_eq!(xs.pop().expect("").t, s(3));
    assert_eq!(xs.pop().expect("").t, s(7));
}

#[test]
fn test_ray_intersect_translate() {
    let r = Ray::new(Tuple::point(s(0), s(0), s(-5)), Tuple::vector(s(0), s(0), s(1)));
    let sp = Object::sphere();
    let sp = transform(&sp, &Matrix::translation(s(5), s(0), s(0)));
    let xs = intersect(&r, &sp).expect("Should be inversable");
    assert_eq!(xs.len(), 0);
}
