use tracer::intersection::Intersection;
use tracer::material::Material;
use tracer::matrix::Matrix;
use tracer::object::{normal_at, reflect, transform, Object};
use tracer::scalar::Scalar;
use tracer::tuple::Tuple;

fn s(n: i64) -> Scalar {
    Scalar::from_int(n)
}

fn um(v: i128) -> Scalar {
    Scalar::from_micros(v)
}

#[test]
fn test_intersection() {
    let sphere = Object::sphere();
    let a = Intersection { t: s(1), o: sphere };
    assert_eq!(a.t, s(1));
    assert_eq!(a.o, Object::sphere());
}

#[test]
fn default_transformation() {
    let a = Object::sphere();
    match a {
        Object::Sphere(t, mat) => {
            assert_eq!(t, Matrix::identity());
            assert_eq!(mat, Material::default());
        },
    }
}

#[test]
fn default_translation() {
    let o = Object::sphere();
    let m = Matrix::translation(s(2), s(3), s(4));
    let o = transform(&o, &m);
    match o {
        Object::Sphere(t, mat) => {
            assert_eq!(t, m);
            assert_eq!(mat, Material::default());
        },
    }
}

#[test]
fn test_normal_at_1() {
    let sp = Object::sphere();
    let n = normal_at(&sp, Tuple::point(s(1), s(0), s(0))).expect("Should inverse");
    assert_eq!(n, Tuple::vector(s(1), s(0), s(0)));
}

#[test]
fn test_normal_at_2() {
    let sp = Object::sphere();
    let n = normal_at(&sp, Tuple::point(s(0), s(1), s(0))).expect("Should inverse");
    assert_eq!(n, Tuple::vector(s(0), s(1), s(0)));
}

#[test]
fn test_normal_at_3() {
    let sp = Object::sphere();
    let n = normal_at(&sp, Tuple::point(s(0), s(0), s(1))).expect("Should inverse");
    assert_eq!(n, Tuple::vector(s(0), s(0), s(1)));
}

#[test]
fn test_normal_at_4() {
    // The point a third of the square root of three out on each axis.
    let c = um(577_350);
    let sp = Object::sphere();
    let n = normal_at(&sp, Tuple::point(c, c, c)).expect("Should inverse");
    assert_eq!(n, Tuple::vector(c, c, c));
}

#[test]
fn test_normal_on_a_translate_sphere() {
    let sp = Object::sphere();
    let sp = transform(&sp, &Matrix::translation(s(0), s(1), s(0)));
    let n = normal_at(&sp, Tuple::point(s(0), um(1_707_110), um(-707_110))).expect(
        "Should inverse",
    );
    let expected = Tuple::vector(s(0), um(707_107), um(-707_107));
    assert_eq!(n, expected);
    assert!(n.x.micros() - 0 < 1000);
    assert!(n.y.micros() - 707_110 < 1000);
}

#[test]
fn test_normal_on_a_scale_sphere() {
    let sp = Object::sphere();
    // scale(1, 0.5, 1) composed with a rotation about z by a fifth
    // of a half turn, whose sine and cosine are given in millionths.
    let m = Matrix::scale(s(1), um(500_000), s(1)).mul(
        &Matrix::rot_z(um(587_785), um(809_017)),
    );
    let sp = transform(&sp, &m);
    let n = normal_at(&sp, Tuple::point(s(0), um(707_106), um(-707_106))).expect(
        "Should inverse",
    );
    let expected = Tuple::vector(s(0), um(970_143), um(-242_534));
    assert_eq!(n, expected);
    assert!(n.y.micros() - 970_140 < 1000);
    assert!(n.z.micros() - (-242_540) < 1000);
}

#[test]
fn normal_at_refuses_singular_transform() {
    let sp = transform(&Object::sphere(), &Matrix::scale(s(0), s(0), s(0)));
    assert!(normal_at(&sp, Tuple::point(s(1), s(0), s(0))).is_none());
}

#[test]
fn test_reflect_1() {
    let v = Tuple::vector(s(1), s(-1), s(0));
    let n = Tuple::vector(s(0), s(1), s(0));
    let r = reflect(&v, &n);
    assert_eq!(r, Tuple::vector(s(1), s(1), s(0)));
}

#[test]
fn test_reflect_2() {
    let v = Tuple::vector(s(0), s(-1), s(0));
    let n = Tuple::vector(um(707_106), um(707_106), s(0));
    let r = reflect(&v, &n);
    let expected = Tuple::vector(um(999_997), um(-3), s(0));
    assert_eq!(r, expected);
    assert!(r.x.micros() - 1_000_000 < 1000);
    assert!(r.y.micros() - 0 < 1000);
}

#[test]
fn test_objecti_with_mat() {
    let mut mat = Material::default();
    mat.ambiant = s(1);
    let sp = Object::sphere_with_mat(mat);
    match sp {
        Object::Sphere(_, mmat) => {
            assert_eq!(mmat, mat);
        },
    }
}
