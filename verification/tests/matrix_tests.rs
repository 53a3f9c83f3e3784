use tracer::matrix::Matrix;
use tracer::scalar::Scalar;
use tracer::tuple::Tuple;

fn s(n: i64) -> Scalar {
    Scalar::from_int(n)
}

fn um(v: i128) -> Scalar {
    Scalar::from_micros(v)
}

fn m4(rows: [[i64; 4]; 4]) -> Matrix {
    let mut data: Vec<Vec<Scalar>> = Vec::new();
    for r in rows.iter() {
        let mut row: Vec<Scalar> = Vec::new();
        for &e in r.iter() {
            row.push(s(e));
        }
        data.push(row);
    }
    Matrix::from(4, 4, data)
}

#[test]
fn test_matrix_4x4() {
    let m = Matrix::from(
        4,
        4,
        vec![
            vec![s(1), s(2), s(3), s(4)],
            vec![um(5_500_000), um(6_500_000), um(7_500_000), um(8_500_000)],
            vec![s(9), s(10), s(11), s(12)],
            vec![um(13_500_000), um(14_500_000), um(15_500_000), um(16_500_000)],
        ],
    );
    assert_eq!(m.get(0, 0), s(1));
    assert_eq!(m.get(0, 3), s(4));
    assert_eq!(m.get(1, 0), um(5_500_000));
    assert_eq!(m.get(1, 2), um(7_500_000));
    assert_eq!(m.get(2, 2), s(11));
    assert_eq!(m.get(3, 0), um(13_500_000));
    assert_eq!(m.get(3, 2), um(15_500_000));
}

#[test]
fn test_matrix_2x2() {
    let m = Matrix::from(2, 2, vec![vec![s(-3), s(5)], vec![s(1), s(-2)]]);
    assert_eq!(m.get(0, 0), s(-3));
    assert_eq!(m.get(0, 1), s(5));
    assert_eq!(m.get(1, 0), s(1));
    assert_eq!(m.get(1, 1), s(-2));
}

#[test]
fn test_matrix_3x3() {
    let m = Matrix::from(
        3,
        3,
        vec![vec![s(-3), s(5), s(0)], vec![s(1), s(-2), s(-7)], vec![s(0), s(1), s(1)]],
    );
    assert_eq!(m.get(0, 0), s(-3));
    assert_eq!(m.get(1, 1), s(-2));
    assert_eq!(m.get(2, 2), s(1));
}

#[test]
fn test_matrix_eq() {
    let m1 = m4([[1, 2, 3, 4], [5, 6, 7, 8], [9, 8, 7, 6], [5, 4, 3, 2]]);
    let m2 = m4([[1, 2, 3, 4], [5, 6, 7, 8], [9, 8, 7, 6], [5, 4, 3, 2]]);
    assert_eq!(m1, m2);
}

#[test]
fn test_matrix_neq() {
    let m1 = m4([[1, 2, 3, 4], [5, 6, 7, 8], [9, 8, 7, 6], [5, 4, 3, 2]]);
    let m2 = m4([[2, 3, 4, 5], [6, 7, 8, 9], [8, 7, 6, 5], [4, 3, 2, 1]]);
    assert_ne!(m1, m2);
}

#[test]
fn test_matrix_mul() {
    let m1 = m4([[1, 2, 3, 4], [5, 6, 7, 8], [9, 8, 7, 6], [5, 4, 3, 2]]);
    let m2 = m4([[-2, 1, 2, 3], [3, 2, 1, -1], [4, 3, 6, 5], [1, 2, 7, 8]]);
    let expected = m4([
        [20, 22, 50, 48],
        [44, 54, 114, 108],
        [40, 58, 110, 102],
        [16, 26, 46, 42],
    ]);
    assert_eq!(m1.mul(&m2), expected);
}

#[test]
fn test_matrix_tuple_mul() {
    let m1 = m4([[1, 2, 3, 4], [2, 4, 4, 2], [8, 6, 4, 1], [0, 0, 0, 1]]);
    let m2 = Tuple { x: s(1), y: s(2), z: s(3), w: s(1) };
    let expected = Tuple { x: s(18), y: s(24), z: s(33), w: s(1) };
    assert_eq!(m1.mul_tuple(&m2), expected);
}

#[test]
fn test_matrix_identity_mul() {
    let m1 = m4([[0, 1, 2, 4], [1, 2, 4, 8], [2, 4, 8, 16], [4, 8, 16, 32]]);
    assert_eq!(m1.mul(&Matrix::identity()), m1);
    assert_eq!(Matrix::identity().mul(&m1), m1);
}

#[test]
fn test_matrix_transpose() {
    let m = m4([[0, 9, 3, 0], [9, 8, 0, 8], [1, 8, 5, 3], [0, 0, 5, 8]]);
    let expected = m4([[0, 9, 1, 0], [9, 8, 8, 0], [3, 0, 5, 5], [0, 8, 3, 8]]);
    assert_eq!(m.transpose(), expected);
}

#[test]
fn test_matrix_determinant() {
    let m = Matrix::from(2, 2, vec![vec![s(1), s(5)], vec![s(-3), s(2)]]);
    assert_eq!(m.determinant(), s(17));
}

#[test]
fn test_matrix_submatix_1() {
    let m = Matrix::from(
        3,
        3,
        vec![vec![s(1), s(5), s(0)], vec![s(-3), s(2), s(7)], vec![s(0), s(6), s(-3)]],
    );
    let expected = Matrix::from(2, 2, vec![vec![s(-3), s(2)], vec![s(0), s(6)]]);
    assert_eq!(m.submatrix(0, 2), expected);
}

#[test]
fn test_matrix_submatix_2() {
    let m = m4([[-6, 1, 1, 6], [-8, 5, 8, 6], [-1, 0, 8, 2], [-7, 1, -1, 1]]);
    let expected = Matrix::from(
        3,
        3,
        vec![vec![s(-6), s(1), s(6)], vec![s(-8), s(8), s(6)], vec![s(-7), s(-1), s(1)]],
    );
    assert_eq!(m.submatrix(2, 1), expected);
}

#[test]
fn test_matrix_minor() {
    let m = Matrix::from(
        3,
        3,
        vec![vec![s(3), s(5), s(0)], vec![s(2), s(-1), s(-7)], vec![s(6), s(-1), s(5)]],
    );
    assert_eq!(m.submatrix(1, 0).determinant(), s(25));
    assert_eq!(m.minor(1, 0), s(25));
}

#[test]
fn test_matrix_cofactor() {
    let m = Matrix::from(
        3,
        3,
        vec![vec![s(3), s(5), s(0)], vec![s(2), s(-1), s(-7)], vec![s(6), s(-1), s(5)]],
    );
    assert_eq!(m.minor(0, 0), s(-12));
    assert_eq!(m.cofactor(0, 0), s(-12));
    assert_eq!(m.minor(1, 0), s(25));
    assert_eq!(m.cofactor(1, 0), s(-25));
}

#[test]
fn test_matrix_3x3_determinant() {
    let m = Matrix::from(
        3,
        3,
        vec![vec![s(1), s(2), s(6)], vec![s(-5), s(8), s(-4)], vec![s(2), s(6), s(4)]],
    );
    assert_eq!(m.cofactor(0, 0), s(56));
    assert_eq!(m.cofactor(0, 1), s(12));
    assert_eq!(m.cofactor(0, 2), s(-46));
    assert_eq!(m.determinant(), s(-196));
}

#[test]
fn test_matrix_4x4_determinant() {
    let m = m4([[-2, -8, 3, 5], [-3, 1, 7, 3], [1, 2, -9, 6], [-6, 7, 7, -9]]);
    assert_eq!(m.cofactor(0, 0), s(690));
    assert_eq!(m.cofactor(0, 1), s(447));
    assert_eq!(m.cofactor(0, 2), s(210));
    assert_eq!(m.cofactor(0, 3), s(51));
    assert_eq!(m.determinant(), s(-4071));
}

#[test]
fn test_matrix_is_inversible_1() {
    let m = m4([[6, 4, 4, 4], [5, 5, 7, 6], [4, -9, 3, -7], [9, 1, 7, -6]]);
    assert_eq!(m.is_inversible(), true);
}

#[test]
fn test_matrix_is_inversible_2() {
    let m = m4([[-4, 2, -2, -3], [9, 6, 2, 6], [0, -5, 1, -5], [0, 0, 0, 0]]);
    assert_eq!(m.is_inversible(), false);
    assert!(m.inverse().is_none());
}

#[test]
fn test_matrix_inverse() {
    let m = m4([[-5, 2, 6, -8], [1, -5, 1, 8], [7, 7, -6, -7], [1, -3, 7, 4]]);
    let expected = [
        [218045, 451127, 240601, -45112],
        [-808270, -1456766, -443609, 520676],
        [-78947, -223684, -52631, 197368],
        [-522556, -813909, -300751, 306390],
    ];
    let inv = m.inverse().expect("Inverse should be found");
    assert_eq!(m.determinant(), s(532));
    assert_eq!(m.cofactor(2, 3), s(-160));
    assert_eq!(inv.get(3, 2), Scalar::ratio(-160, 532));
    assert_eq!(m.cofactor(3, 2), s(105));
    assert_eq!(inv.get(2, 3), Scalar::ratio(105, 532));
    for r in 0..4 as usize {
        for c in 0..4 as usize {
            assert_eq!(inv.get(r, c), um(expected[r][c]));
        }
    }
}

#[test]
fn test_matrix_point_translation() {
    let m = Matrix::translation(s(5), s(-3), s(2));
    let p = Tuple::point(s(-3), s(4), s(5));
    let expect = Tuple::point(s(2), s(1), s(7));
    assert_eq!(m.mul_tuple(&p), expect);
}

#[test]
fn test_matrix_point_translation_inverse() {
    let m = Matrix::translation(s(5), s(-3), s(2));
    let p = Tuple::point(s(-3), s(4), s(5));
    let expect = Tuple::point(s(-8), s(7), s(3));
    let inv = m.inverse().expect("Should be inverse");
    assert_eq!(inv.mul_tuple(&p), expect);
}

#[test]
fn test_matrix_vector_translation() {
    let m = Matrix::translation(s(5), s(-3), s(2));
    let p = Tuple::vector(s(-3), s(4), s(5));
    let expect = Tuple::vector(s(-3), s(4), s(5));
    assert_eq!(m.mul_tuple(&p), expect);
}

#[test]
fn test_matrix_point_scale() {
    let m = Matrix::scale(s(2), s(3), s(4));
    let p = Tuple::point(s(-4), s(6), s(8));
    let expect = Tuple::point(s(-8), s(18), s(32));
    assert_eq!(m.mul_tuple(&p), expect);
}

#[test]
fn test_matrix_vector_scale() {
    let m = Matrix::scale(s(2), s(3), s(4));
    let p = Tuple::vector(s(-4), s(6), s(8));
    let expect = Tuple::vector(s(-8), s(18), s(32));
    assert_eq!(m.mul_tuple(&p), expect);
}

#[test]
fn test_matrix_vector_inverse_scale() {
    let m = Matrix::scale(s(2), s(3), s(4));
    let p = Tuple::vector(s(-4), s(6), s(8));
    // One third truncates to 0.333333, so the middle component lands
    // two millionths short of two.
    let expect = Tuple::vector(s(-2), um(1_999_998), s(2));
    let inv = m.inverse().expect("Should inverse");
    assert_eq!(inv.mul_tuple(&p), expect);
}

#[test]
fn test_matrix_point_reflection() {
    let m = Matrix::scale(s(-1), s(1), s(1));
    let p = Tuple::point(s(2), s(3), s(4));
    let expect = Tuple::point(s(-2), s(3), s(4));
    assert_eq!(m.mul_tuple(&p), expect);
}

#[test]
fn test_matrix_rot_x() {
    // The sine and cosine of an eighth and of a quarter turn, in
    // millionths.
    let half_quarter = Matrix::rot_x(um(707_106), um(707_106));
    let full_quarter = Matrix::rot_x(s(1), s(0));
    let p = Tuple::point(s(0), s(1), s(0));
    let expect_half_quarter = Tuple::point(s(0), um(707_106), um(707_106));
    let expect_full_quarter = Tuple::point(s(0), s(0), s(1));
    assert_eq!(half_quarter.mul_tuple(&p), expect_half_quarter);
    assert_eq!(full_quarter.mul_tuple(&p), expect_full_quarter);
}

#[test]
fn test_matrix_rot_y() {
    let half_quarter = Matrix::rot_y(um(707_106), um(707_106));
    let full_quarter = Matrix::rot_y(s(1), s(0));
    let p = Tuple::point(s(0), s(0), s(1));
    let expect_half_quarter = Tuple::point(um(707_106), s(0), um(707_106));
    let expect_full_quarter = Tuple::point(s(1), s(0), s(0));
    assert_eq!(half_quarter.mul_tuple(&p), expect_half_quarter);
    assert_eq!(full_quarter.mul_tuple(&p), expect_full_quarter);
}

#[test]
fn test_matrix_rot_z() {
    let half_quarter = Matrix::rot_z(um(707_106), um(707_106));
    let full_quarter = Matrix::rot_z(s(1), s(0));
    let p = Tuple::point(s(0), s(1), s(0));
    let expect_half_quarter = Tuple::point(um(-707_106), um(707_106), s(0));
    let expect_full_quarter = Tuple::point(s(-1), s(0), s(0));
    assert_eq!(half_quarter.mul_tuple(&p), expect_half_quarter);
    assert_eq!(full_quarter.mul_tuple(&p), expect_full_quarter);
}

#[test]
fn test_shearing_1() {
    let m = Matrix::shearing(s(1), s(0), s(0), s(0), s(0), s(0));
    let p = Tuple::point(s(2), s(3), s(4));
    let expect = Tuple::point(s(5), s(3), s(4));
    assert_eq!(m.mul_tuple(&p), expect);
}

#[test]
fn test_shearing_2() {
    let m = Matrix::shearing(s(0), s(1), s(0), s(0), s(0), s(0));
    let p = Tuple::point(s(2), s(3), s(4));
    let expect = Tuple::point(s(6), s(3), s(4));
    assert_eq!(m.mul_tuple(&p), expect);
}

#[test]
fn test_shearing_3() {
    let m = Matrix::shearing(s(0), s(0), s(1), s(0), s(0), s(0));
    let p = Tuple::point(s(2), s(3), s(4));
    let expect = Tuple::point(s(2), s(5), s(4));
    assert_eq!(m.mul_tuple(&p), expect);
}

#[test]
fn test_shearing_4() {
    let m = Matrix::shearing(s(0), s(0), s(0), s(1), s(0), s(0));
    let p = Tuple::point(s(2), s(3), s(4));
    let expect = Tuple::point(s(2), s(7), s(4));
    assert_eq!(m.mul_tuple(&p), expect);
}

#[test]
fn test_shearing_5() {
    let m = Matrix::shearing(s(0), s(0), s(0), s(1), s(0), s(0));
    let p = Tuple::point(s(2), s(3), s(4));
    let expect = Tuple::point(s(2), s(7), s(4));
    assert_eq!(m.mul_tuple(&p), expect);
}

#[test]
fn test_shearing_6() {
    let m = Matrix::shearing(s(0), s(0), s(0), s(0), s(1), s(0));
    let p = Tuple::point(s(2), s(3), s(4));
    let expect = Tuple::point(s(2), s(3), s(6));
    assert_eq!(m.mul_tuple(&p), expect);
}

#[test]
fn test_shearing_7() {
    let m = Matrix::shearing(s(0), s(0), s(0), s(0), s(0), s(1));
    let p = Tuple::point(s(2), s(3), s(4));
    let expect = Tuple::point(s(2), s(3), s(7));
    assert_eq!(m.mul_tuple(&p), expect);
}

#[test]
fn test_matrix_chain() {
    let p = Tuple::point(s(1), s(0), s(1));
    let a = Matrix::rot_x(s(1), s(0));
    let b = Matrix::scale(s(5), s(5), s(5));
    let c = Matrix::translation(s(10), s(5), s(7));
    let p2 = a.mul_tuple(&p);
    assert_eq!(p2, Tuple::point(s(1), s(-1), s(0)));
    let p3 = b.mul_tuple(&p2);
    assert_eq!(p3, Tuple::point(s(5), s(-5), s(0)));
    let p4 = c.mul_tuple(&p3);
    assert_eq!(p4, Tuple::point(s(15), s(0), s(7)));
}

#[test]
fn translation_round_trip_returns_point() {
    // The proved law, on concrete values: translating and then
    // translating back returns the original point.
    let forward = Matrix::translation(um(1_250_000), s(-7), um(300_000));
    let back = Matrix::translation(um(-1_250_000), s(7), um(-300_000));
    let p = Tuple::point(um(123_456), um(-9_000_001), s(42));
    let moved = forward.mul_tuple(&p);
    assert_eq!(back.mul_tuple(&moved), p);
    // And the product of the two translations is the identity.
    assert_eq!(forward.mul(&back), Matrix::identity());
}

#[test]
fn singular_scale_has_no_inverse() {
    let m = Matrix::scale(s(0), s(0), s(0));
    assert_eq!(m.is_inversible(), false);
    assert!(m.inverse().is_none());
}
