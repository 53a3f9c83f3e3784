use tracer::intersect::{hit, intersect, Intersections};
use tracer::intersection::Intersection;
use tracer::matrix::Matrix;
use tracer::object::{transform, Object};
use tracer::ray::Ray;
use tracer::scalar::Scalar;
use tracer::tuple::Tuple;

fn s(n: i64) -> Scalar {
    Scalar::from_int(n)
}

fn bag(ts: &[i64]) -> Intersections {
    let mut i = Intersections::new();
    for &t in ts.iter() {
        i.push(Intersection::new(s(t), Object::sphere()));
    }
    i
}

#[test]
fn test_intersect_2solutions() {
    let r = Ray::new(Tuple::point(s(0), s(0), s(-5)), Tuple::vector(s(0), s(0), s(1)));
    let sp = Object::sphere();
    let mut intersections = intersect(&r, &sp).expect("Should be inversable");
    assert_eq!(intersections.len(), 2);
    let a = intersections.pop().expect("Should have solutions");
    assert_eq!(a.t, s(4));
    assert_eq!(a.o, Object::sphere());
    let b = intersections.pop().expect("Should have solutions");
    assert_eq!(b.t, s(6));
    assert_eq!(b.o, Object::sphere());
}

#[test]
fn test_intersect_1solution() {
    let r = Ray::new(Tuple::point(s(0), s(1), s(-5)), Tuple::vector(s(0), s(0), s(1)));
    let sp = Object::sphere();
    let mut intersections = intersect(&r, &sp).expect("Should be inversable");
    assert_eq!(intersections.len(), 2);
    let a = intersections.pop().expect("Should have solutions");
    assert_eq!(a.t, s(5));
    let b = intersections.pop().expect("Should have Intersection");
    assert_eq!(b.t, s(5));
}

#[test]
fn test_intersect_miss() {
    let r = Ray::new(Tuple::point(s(0), s(2), s(5)), Tuple::vector(s(0), s(0), s(1)));
    let sp = Object::sphere();
    let intersections = intersect(&r, &sp).expect("Should be inversable");
    assert_eq!(intersections.len(), 0);
}

#[test]
fn test_intersect_inside() {
    let r = Ray::new(Tuple::point(s(0), s(0), s(0)), Tuple::vector(s(0), s(0), s(1)));
    let sp = Object::sphere();
    let mut intersections = intersect(&r, &sp).expect("Should be inversable");
    assert_eq!(intersections.len(), 2);
    let a = intersections.pop().expect("Should have solutions");
    assert_eq!(a.t, s(-1));
    let b = intersections.pop().expect("Should have Intersection");
    assert_eq!(b.t, s(1));
}

#[test]
fn test_intersect_outside() {
    let r = Ray::new(Tuple::point(s(0), s(0), s(5)), Tuple::vector(s(0), s(0), s(1)));
    let sp = Object::sphere();
    let mut intersections = intersect(&r, &sp).expect("Should be inversable");
    assert_eq!(intersections.len(), 2);
    let a = intersections.pop().expect("Should have solutions");
    assert_eq!(a.t, s(-6));
    let b = intersections.pop().expect("Should have Intersection");
    assert_eq!(b.t, s(-4));
}

#[test]
fn test_hit_2_positive_intersection() {
    let i = bag(&[1, 2]);
    let h = hit(&i);
    assert_eq!(h.expect("Should not be None").t, s(1));
}

#[test]
fn test_hit_1_positive_intersection() {
    let i = bag(&[-1, 2]);
    let h = hit(&i);
    assert_eq!(h.expect("Should not be None").t, s(2));
}

#[test]
fn test_hit_no_positive_intersection() {
    let i = bag(&[-1, -2]);
    let h = hit(&i);
    assert!(h.is_none());
}

#[test]
fn test_hit_multiple_intersection() {
    let i = bag(&[5, 7, -3, 2]);
    let h = hit(&i);
    assert_eq!(h.expect("Should have solution").t, s(2));
}

#[test]
fn test_hit_excludes_zero() {
    // A candidate exactly at the ray origin is not visible: only a
    // strictly positive parameter counts.
    let i = bag(&[0, 3]);
    let h = hit(&i);
    assert_eq!(h.expect("Should have solution").t, s(3));
}

#[test]
fn intersect_refuses_singular_transform() {
    let r = Ray::new(Tuple::point(s(0), s(0), s(-5)), Tuple::vector(s(0), s(0), s(1)));
    let sp = transform(&Object::sphere(), &Matrix::scale(s(0), s(0), s(0)));
    assert!(intersect(&r, &sp).is_none());
}

#[test]
fn intersect_refuses_degenerate_direction() {
    let r = Ray::new(Tuple::point(s(0), s(0), s(-5)), Tuple::vector(s(0), s(0), s(0)));
    let sp = Object::sphere();
    assert!(intersect(&r, &sp).is_none());
}

#[test]
fn intersect_tangent_gives_equal_roots() {
    let r = Ray::new(Tuple::point(s(0), s(1), s(-5)), Tuple::vector(s(0), s(0), s(1)));
    let sp = Object::sphere();
    let mut xs = intersect(&r, &sp).expect("Should be inversable");
    let a = xs.pop().expect("first root");
    let b = xs.pop().expect("second root");
    assert_eq!(a.t, b.t);
    assert!(xs.pop().is_none());
}
