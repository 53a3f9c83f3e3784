//! Laws the pipeline obeys, stated over the spec values that the
//! executable functions' contracts name, so each transfers directly to
//! the running code.

use vstd::prelude::*;

verus! {

use vstd::math::abs;
use crate::color::{ColorV, color_add_v, color_mul_v, color_scale_v};
use crate::material::{MaterialV, light_offset_v, lighting_v};
use crate::matrix::{
    cof_v, det_v, identity_v, inverse_v, lemma_det3_formula, lemma_det4_formula,
    lemma_submatrix_props, mat_mul_v, mul_entry_v, mul_tuple_v, row_dot_v, submatrix_v,
    translation_v,
};
use crate::object::normalize_v;
use crate::point_light::LightV;
use crate::scalar::{
    SCALE, lemma_isqrt_square, lemma_s_div_one, lemma_s_mul_one, lemma_s_mul_zero, s_div, s_mul,
};
use crate::tuple::{TupleV, dot_v, mag2_v, mag_v, point_v, vector_v};

/// Translating a point by `(x, y, z)` and then by the inverse
/// translation `(-x, -y, -z)` returns the original point, exactly;
/// and a translation leaves any vector unchanged.
pub proof fn lemma_translation_round_trip(x: int, y: int, z: int, px: int, py: int, pz: int)
    ensures
        mul_tuple_v(
            translation_v(-x, -y, -z),
            mul_tuple_v(translation_v(x, y, z), point_v(px, py, pz)),
        ) == point_v(px, py, pz),
        mul_tuple_v(translation_v(x, y, z), vector_v(px, py, pz)) == vector_v(px, py, pz),
{
    lemma_translation_moves_point(x, y, z, px, py, pz);
    lemma_translation_moves_point(-x, -y, -z, px + x, py + y, pz + z);
    lemma_translation_fixes_vector(x, y, z, px, py, pz);
}

/// A translation adds its offsets to a point's components.
pub proof fn lemma_translation_moves_point(x: int, y: int, z: int, px: int, py: int, pz: int)
    ensures
        mul_tuple_v(translation_v(x, y, z), point_v(px, py, pz)) == point_v(
            px + x,
            py + y,
            pz + z,
        ),
{
    let t = translation_v(x, y, z);
    let p = point_v(px, py, pz);
    lemma_s_mul_one(px);
    lemma_s_mul_one(py);
    lemma_s_mul_one(pz);
    lemma_s_mul_one(SCALE as int);
    lemma_s_mul_zero(px);
    lemma_s_mul_zero(py);
    lemma_s_mul_zero(pz);
    lemma_s_mul_one(x);
    lemma_s_mul_one(y);
    lemma_s_mul_one(z);
    assert(row_dot_v(t, 0, p) == px + x);
    assert(row_dot_v(t, 1, p) == py + y);
    assert(row_dot_v(t, 2, p) == pz + z);
    assert(row_dot_v(t, 3, p) == SCALE as int);
}

/// A translation leaves a vector unchanged: directions have no
/// position to move.
pub proof fn lemma_translation_fixes_vector(x: int, y: int, z: int, vx: int, vy: int, vz: int)
    ensures
        mul_tuple_v(translation_v(x, y, z), vector_v(vx, vy, vz)) == vector_v(vx, vy, vz),
{
    let t = translation_v(x, y, z);
    let v = vector_v(vx, vy, vz);
    lemma_s_mul_one(vx);
    lemma_s_mul_one(vy);
    lemma_s_mul_one(vz);
    lemma_s_mul_zero(vx);
    lemma_s_mul_zero(vy);
    lemma_s_mul_zero(vz);
    lemma_s_mul_zero(x);
    lemma_s_mul_zero(y);
    lemma_s_mul_zero(z);
    lemma_s_mul_zero(SCALE as int);
    assert(row_dot_v(t, 0, v) == vx);
    assert(row_dot_v(t, 1, v) == vy);
    assert(row_dot_v(t, 2, v) == vz);
    assert(row_dot_v(t, 3, v) == 0);
}

/// A translation multiplied by its inverse translation is exactly the
/// identity matrix: the one family of transforms whose inversion this
/// arithmetic performs without rounding.
pub proof fn lemma_translation_inverse_identity(x: int, y: int, z: int)
    ensures
        mat_mul_v(translation_v(x, y, z), translation_v(-x, -y, -z)) == identity_v(),
{
    let a = translation_v(x, y, z);
    let b = translation_v(-x, -y, -z);
    lemma_s_mul_one(SCALE as int);
    lemma_s_mul_one(x);
    lemma_s_mul_one(y);
    lemma_s_mul_one(z);
    lemma_s_mul_one(-x);
    lemma_s_mul_one(-y);
    lemma_s_mul_one(-z);
    lemma_s_mul_zero(x);
    lemma_s_mul_zero(y);
    lemma_s_mul_zero(z);
    lemma_s_mul_zero(-x);
    lemma_s_mul_zero(-y);
    lemma_s_mul_zero(-z);
    lemma_s_mul_zero(SCALE as int);
    lemma_s_mul_zero(0);
    assert forall|i: int, j: int| 0 <= i < 4 && 0 <= j < 4 implies mul_entry_v(a, b, i, j)
        == identity_v()[i][j] by {
        assert(mul_entry_v(a, b, i, j) == s_mul(a[i][0], b[0][j]) + s_mul(a[i][1], b[1][j])
            + s_mul(a[i][2], b[2][j]) + s_mul(a[i][3], b[3][j]));
    }
    assert(mat_mul_v(a, b) =~~= identity_v());
}


/// The determinant of a translation is exactly one, so a translation
/// always inverts; and its inverse, as the adjugate rule computes it,
/// is exactly the opposite translation. With the identity law below,
/// this is the inversion round trip of the one transform family this
/// arithmetic inverts without rounding.
pub proof fn lemma_translation_inverse(x: int, y: int, z: int)
    ensures
        det_v(translation_v(x, y, z)) == SCALE as int,
        inverse_v(translation_v(x, y, z)) == translation_v(-x, -y, -z),
        mat_mul_v(translation_v(x, y, z), inverse_v(translation_v(x, y, z))) == identity_v(),
{
    let t = translation_v(x, y, z);
    let sc = SCALE as int;
    assert(crate::matrix::is_square(t)) by {
        assert(forall|i: int| 0 <= i < 4 ==> #[trigger] t[i].len() == 4);
    }
    lemma_s_mul_one(sc);
    lemma_s_mul_one(x);
    lemma_s_mul_one(y);
    lemma_s_mul_one(z);
    lemma_s_mul_one(-y);
    lemma_s_mul_one(0);
    lemma_s_mul_zero(sc);
    lemma_s_mul_zero(x);
    lemma_s_mul_zero(y);
    lemma_s_mul_zero(z);
    lemma_s_mul_zero(0);
    lemma_translation_cof(x, y, z);
    // The determinant along row zero: only the leading one and the
    // offset column contribute, and the offset's minor vanishes.
    lemma_det4_formula(t);
    lemma_s_mul_zero(det_v(submatrix_v(t, 0, 1)));
    lemma_s_mul_zero(det_v(submatrix_v(t, 0, 2)));
    assert(cof_v(t, 0, 0) == sc);
    assert(det_v(submatrix_v(t, 0, 0)) == sc);
    assert(cof_v(t, 0, 3) == 0);
    assert(det_v(submatrix_v(t, 0, 3)) == 0);
    assert(det_v(t) == sc);
    // Each cell of the inverse is its cofactor over one.
    lemma_s_div_one(sc);
    lemma_s_div_one(0);
    lemma_s_div_one(-x);
    lemma_s_div_one(-y);
    lemma_s_div_one(-z);
    assert(inverse_v(t) =~~= translation_v(-x, -y, -z));
    lemma_translation_inverse_identity(x, y, z);
}

/// The sixteen cofactors of a translation: one on the diagonal, the
/// negated offsets against the bottom row, zero elsewhere.
proof fn lemma_translation_cof(x: int, y: int, z: int)
    ensures
        cof_v(translation_v(x, y, z), 0, 0) == SCALE as int,
        cof_v(translation_v(x, y, z), 1, 1) == SCALE as int,
        cof_v(translation_v(x, y, z), 2, 2) == SCALE as int,
        cof_v(translation_v(x, y, z), 3, 3) == SCALE as int,
        cof_v(translation_v(x, y, z), 3, 0) == -x,
        cof_v(translation_v(x, y, z), 3, 1) == -y,
        cof_v(translation_v(x, y, z), 3, 2) == -z,
        cof_v(translation_v(x, y, z), 0, 1) == 0,
        cof_v(translation_v(x, y, z), 0, 2) == 0,
        cof_v(translation_v(x, y, z), 0, 3) == 0,
        cof_v(translation_v(x, y, z), 1, 0) == 0,
        cof_v(translation_v(x, y, z), 1, 2) == 0,
        cof_v(translation_v(x, y, z), 1, 3) == 0,
        cof_v(translation_v(x, y, z), 2, 0) == 0,
        cof_v(translation_v(x, y, z), 2, 1) == 0,
        cof_v(translation_v(x, y, z), 2, 3) == 0,
{
    let t = translation_v(x, y, z);
    let sc = SCALE as int;
    assert(crate::matrix::is_square(t)) by {
        assert(forall|i: int| 0 <= i < 4 ==> #[trigger] t[i].len() == 4);
    }
    lemma_s_mul_one(sc);
    lemma_s_mul_one(x);
    lemma_s_mul_one(y);
    lemma_s_mul_one(z);
    lemma_s_mul_one(-y);
    lemma_s_mul_one(0);
    lemma_s_mul_zero(sc);
    lemma_s_mul_zero(x);
    lemma_s_mul_zero(y);
    lemma_s_mul_zero(z);
    lemma_s_mul_zero(0);
    lemma_s_mul_zero(-y);
    lemma_submatrix_props(t, 0, 0);
    lemma_det3_formula(submatrix_v(t, 0, 0));
    assert(cof_v(t, 0, 0) == sc);
    lemma_submatrix_props(t, 1, 1);
    lemma_det3_formula(submatrix_v(t, 1, 1));
    assert(cof_v(t, 1, 1) == sc);
    lemma_submatrix_props(t, 2, 2);
    lemma_det3_formula(submatrix_v(t, 2, 2));
    assert(cof_v(t, 2, 2) == sc);
    lemma_submatrix_props(t, 3, 3);
    lemma_det3_formula(submatrix_v(t, 3, 3));
    assert(cof_v(t, 3, 3) == sc);
    lemma_submatrix_props(t, 3, 0);
    lemma_det3_formula(submatrix_v(t, 3, 0));
    assert(cof_v(t, 3, 0) == -x);
    lemma_submatrix_props(t, 3, 1);
    lemma_det3_formula(submatrix_v(t, 3, 1));
    assert(cof_v(t, 3, 1) == -y);
    lemma_submatrix_props(t, 3, 2);
    lemma_det3_formula(submatrix_v(t, 3, 2));
    assert(cof_v(t, 3, 2) == -z);
    lemma_submatrix_props(t, 0, 1);
    lemma_det3_formula(submatrix_v(t, 0, 1));
    assert(cof_v(t, 0, 1) == 0);
    lemma_submatrix_props(t, 0, 2);
    lemma_det3_formula(submatrix_v(t, 0, 2));
    assert(cof_v(t, 0, 2) == 0);
    lemma_submatrix_props(t, 0, 3);
    lemma_det3_formula(submatrix_v(t, 0, 3));
    assert(cof_v(t, 0, 3) == 0);
    lemma_submatrix_props(t, 1, 0);
    lemma_det3_formula(submatrix_v(t, 1, 0));
    assert(cof_v(t, 1, 0) == 0);
    lemma_submatrix_props(t, 1, 2);
    lemma_det3_formula(submatrix_v(t, 1, 2));
    assert(cof_v(t, 1, 2) == 0);
    lemma_submatrix_props(t, 1, 3);
    lemma_det3_formula(submatrix_v(t, 1, 3));
    assert(cof_v(t, 1, 3) == 0);
    lemma_submatrix_props(t, 2, 0);
    lemma_det3_formula(submatrix_v(t, 2, 0));
    assert(cof_v(t, 2, 0) == 0);
    lemma_submatrix_props(t, 2, 1);
    lemma_det3_formula(submatrix_v(t, 2, 1));
    assert(cof_v(t, 2, 1) == 0);
    lemma_submatrix_props(t, 2, 3);
    lemma_det3_formula(submatrix_v(t, 2, 3));
    assert(cof_v(t, 2, 3) == 0);
}

/// When the light falls behind the surface, the diffuse and specular
/// parts are black and the shade is the ambient term alone.
pub proof fn lemma_light_behind_is_ambient(
    m: MaterialV,
    l: LightV,
    p: TupleV,
    eye: TupleV,
    normal: TupleV,
)
    requires
        dot_v(normalize_v(light_offset_v(l, p)), normal) < 0,
    ensures
        lighting_v(m, l, p, eye, normal) == color_scale_v(
            color_mul_v(m.color, l.intensity),
            m.ambiant,
        ),
{
    let ambient = color_scale_v(color_mul_v(m.color, l.intensity), m.ambiant);
    assert(lighting_v(m, l, p, eye, normal) == color_add_v(
        color_add_v(ambient, ColorV { r: 0, g: 0, b: 0 }),
        ColorV { r: 0, g: 0, b: 0 },
    ));
}

/// Normalizing an axis-aligned vector whose length is a whole number
/// of thousandths is exact: the result is the unit vector on that
/// axis, its magnitude is exactly one, and normalizing it again
/// changes nothing. (For other vectors the square root truncates, and
/// the magnitude of the result is one only to within a few
/// millionths.)
pub proof fn lemma_normalize_axis_exact(a: int)
    requires
        a > 0,
        a % 1000 == 0,
    ensures
        normalize_v(vector_v(a, 0, 0)) == vector_v(SCALE as int, 0, 0),
        mag_v(normalize_v(vector_v(a, 0, 0))) == SCALE as int,
        normalize_v(normalize_v(vector_v(a, 0, 0))) == normalize_v(vector_v(a, 0, 0)),
{
    lemma_normalize_axis_once(a);
    lemma_normalize_axis_once(SCALE as int);
}

/// Normalizing any vector of length at least one gives a vector whose
/// squared magnitude is one to within a thousandth: the truncations of
/// the square root, the divisions and the squares together lose at
/// most that much.
pub proof fn lemma_normalize_magnitude_near_one(v: TupleV)
    requires
        crate::tuple::dot_fits(v, v),
        mag2_v(v) >= 1_000_000,
    ensures
        999_000 <= mag2_v(normalize_v(v)),
        mag2_v(normalize_v(v)) <= 1_001_000,
{
    let s = mag2_v(v);
    let m = mag_v(v);
    let n = normalize_v(v);
    crate::scalar::lemma_s_mul_self_nonneg(v.x);
    crate::scalar::lemma_s_mul_self_nonneg(v.y);
    crate::scalar::lemma_s_mul_self_nonneg(v.z);
    crate::scalar::lemma_s_mul_self_nonneg(v.w);
    assert(n.x == s_div(v.x, m));
    assert(n.y == s_div(v.y, m));
    assert(n.z == s_div(v.z, m));
    assert(n.w == s_div(v.w, m));
    crate::scalar::lemma_isqrt_bounds((s * (SCALE as int)) as nat);
    assert(m * m <= s * (SCALE as int));
    assert(s * (SCALE as int) < (m + 1) * (m + 1));
    assert(m >= 1_000_000) by (nonlinear_arith)
        requires
            m >= 0,
            m * m <= s * 1_000_000,
            s * 1_000_000 < (m + 1) * (m + 1),
            s >= 1_000_000,
    ;
    assert(s <= 1_000_000_000_000_000_000);
    assert(m <= 1_000_000_000_000) by (nonlinear_arith)
        requires
            m >= 0,
            m * m <= s * 1_000_000,
            s <= 1_000_000_000_000_000_000,
    ;
    lemma_component(v.x, s, m);
    lemma_component(v.y, s, m);
    lemma_component(v.z, s, m);
    lemma_component(v.w, s, m);
    let sx = v.x * v.x + v.y * v.y + v.z * v.z + v.w * v.w;
    assert(s * (SCALE as int) <= sx);
    assert(sx < s * (SCALE as int) + 4_000_000);
    let u = n.x * n.x + n.y * n.y + n.z * n.z + n.w * n.w;
    assert(u >= 0) by (nonlinear_arith)
        requires
            u == n.x * n.x + n.y * n.y + n.z * n.z + n.w * n.w,
    ;
    assert(u * (m * m) <= sx * 1_000_000_000_000) by (nonlinear_arith)
        requires
            n.x * n.x * (m * m) <= v.x * v.x * 1_000_000_000_000,
            n.y * n.y * (m * m) <= v.y * v.y * 1_000_000_000_000,
            n.z * n.z * (m * m) <= v.z * v.z * 1_000_000_000_000,
            n.w * n.w * (m * m) <= v.w * v.w * 1_000_000_000_000,
            u == n.x * n.x + n.y * n.y + n.z * n.z + n.w * n.w,
            sx == v.x * v.x + v.y * v.y + v.z * v.z + v.w * v.w,
    ;
    // The upper bound on the raw sum of squares.
    assert(u <= 1_000_000_000_000 + 1_000_000_000) by (nonlinear_arith)
        requires
            u * (m * m) <= sx * 1_000_000_000_000,
            sx < s * 1_000_000 + 4_000_000,
            s * 1_000_000 < (m + 1) * (m + 1),
            1_000_000 <= m <= 1_000_000_000_000,
            u >= 0,
    ;
    // The lower bound on the raw sum of squares.
    let w = (abs(n.x) + 1) * (abs(n.x) + 1) + (abs(n.y) + 1) * (abs(n.y) + 1) + (abs(n.z) + 1)
        * (abs(n.z) + 1) + (abs(n.w) + 1) * (abs(n.w) + 1);
    assert(m * m > 0) by (nonlinear_arith)
        requires
            m >= 1_000_000,
    ;
    assert(w >= 0) by (nonlinear_arith)
        requires
            abs(n.x) >= 0,
            abs(n.y) >= 0,
            abs(n.z) >= 0,
            abs(n.w) >= 0,
            w == (abs(n.x) + 1) * (abs(n.x) + 1) + (abs(n.y) + 1) * (abs(n.y) + 1) + (abs(n.z)
                + 1) * (abs(n.z) + 1) + (abs(n.w) + 1) * (abs(n.w) + 1),
    ;
    assert(w * (m * m) > sx * 1_000_000_000_000) by (nonlinear_arith)
        requires
            (abs(n.x) + 1) * (abs(n.x) + 1) * (m * m) > v.x * v.x * 1_000_000_000_000,
            (abs(n.y) + 1) * (abs(n.y) + 1) * (m * m) > v.y * v.y * 1_000_000_000_000,
            (abs(n.z) + 1) * (abs(n.z) + 1) * (m * m) > v.z * v.z * 1_000_000_000_000,
            (abs(n.w) + 1) * (abs(n.w) + 1) * (m * m) > v.w * v.w * 1_000_000_000_000,
            w == (abs(n.x) + 1) * (abs(n.x) + 1) + (abs(n.y) + 1) * (abs(n.y) + 1) + (abs(n.z)
                + 1) * (abs(n.z) + 1) + (abs(n.w) + 1) * (abs(n.w) + 1),
            sx == v.x * v.x + v.y * v.y + v.z * v.z + v.w * v.w,
            m * m > 0,
    ;
    assert(m * m > 0) by (nonlinear_arith)
        requires
            m >= 1_000_000,
    ;
    assert(w > 1_000_000_000_000) by (nonlinear_arith)
        requires
            w * (m * m) > sx * 1_000_000_000_000,
            sx >= s * 1_000_000,
            s * 1_000_000 >= m * m,
            m * m > 0,
            w >= 0,
    ;
    assert(u >= w - 2 * (abs(n.x) + abs(n.y) + abs(n.z) + abs(n.w)) - 4) by (nonlinear_arith)
        requires
            u == n.x * n.x + n.y * n.y + n.z * n.z + n.w * n.w,
            w == (abs(n.x) + 1) * (abs(n.x) + 1) + (abs(n.y) + 1) * (abs(n.y) + 1) + (abs(n.z)
                + 1) * (abs(n.z) + 1) + (abs(n.w) + 1) * (abs(n.w) + 1),
    ;
    assert(u > 1_000_000_000_000 - 2 * 4 * 1_001_001 - 4);
    // From the raw sum of squares back to the truncated one.
    crate::scalar::lemma_square_bracket(n.x);
    crate::scalar::lemma_square_bracket(n.y);
    crate::scalar::lemma_square_bracket(n.z);
    crate::scalar::lemma_square_bracket(n.w);
    let t = mag2_v(n);
    assert(t * (SCALE as int) <= u) by (nonlinear_arith)
        requires
            t == s_mul(n.x, n.x) + s_mul(n.y, n.y) + s_mul(n.z, n.z) + s_mul(n.w, n.w),
            u == n.x * n.x + n.y * n.y + n.z * n.z + n.w * n.w,
            s_mul(n.x, n.x) * 1_000_000 <= n.x * n.x,
            s_mul(n.y, n.y) * 1_000_000 <= n.y * n.y,
            s_mul(n.z, n.z) * 1_000_000 <= n.z * n.z,
            s_mul(n.w, n.w) * 1_000_000 <= n.w * n.w,
    ;
    assert(u < t * (SCALE as int) + 4_000_000) by (nonlinear_arith)
        requires
            t == s_mul(n.x, n.x) + s_mul(n.y, n.y) + s_mul(n.z, n.z) + s_mul(n.w, n.w),
            u == n.x * n.x + n.y * n.y + n.z * n.z + n.w * n.w,
            n.x * n.x < s_mul(n.x, n.x) * 1_000_000 + 1_000_000,
            n.y * n.y < s_mul(n.y, n.y) * 1_000_000 + 1_000_000,
            n.z * n.z < s_mul(n.z, n.z) * 1_000_000 + 1_000_000,
            n.w * n.w < s_mul(n.w, n.w) * 1_000_000 + 1_000_000,
    ;
    assert(t <= 1_001_000) by (nonlinear_arith)
        requires
            t * 1_000_000 <= u,
            u <= 1_000_000_000_000 + 1_000_000_000,
    ;
    assert(t >= 999_000) by (nonlinear_arith)
        requires
            u < t * 1_000_000 + 4_000_000,
            u > 1_000_000_000_000 - 2 * 4 * 1_001_001 - 4,
    ;
}

/// One component of a normalized vector: its bracket against the exact
/// quotient, its magnitude bound, and the squares the sums need.
proof fn lemma_component(x: int, s: int, m: int)
    requires
        crate::scalar::fits(s_mul(x, x)),
        s_mul(x, x) >= 0,
        s >= s_mul(x, x),
        s >= 1_000_000,
        1_000_000 <= m <= 1_000_000_000_000,
        m * m <= s * (SCALE as int),
        s * (SCALE as int) < (m + 1) * (m + 1),
    ensures
        s_mul(x, x) * (SCALE as int) <= x * x < s_mul(x, x) * (SCALE as int) + SCALE as int,
        s_div(x, m) * s_div(x, m) * (m * m) <= x * x * 1_000_000_000_000,
        (abs(s_div(x, m)) + 1) * (abs(s_div(x, m)) + 1) * (m * m) > x * x * 1_000_000_000_000,
        abs(s_div(x, m)) <= 1_001_001,
{
    crate::scalar::lemma_square_bracket(x);
    crate::scalar::lemma_sdiv_bracket(x, m);
    let q = abs(s_div(x, m));
    crate::scalar::lemma_abs_mul(x, x);
    assert(abs(x) * abs(x) == x * x);
    // The squares of the division bracket.
    assert(q * q * (m * m) <= x * x * 1_000_000_000_000) by (nonlinear_arith)
        requires
            q >= 0,
            m >= 1,
            q * m <= abs(x) * 1_000_000,
            abs(x) * abs(x) == x * x,
            abs(x) >= 0,
    ;
    assert(s_div(x, m) * s_div(x, m) == q * q) by (nonlinear_arith)
        requires
            q == abs(s_div(x, m)),
    ;
    assert((q + 1) * (q + 1) * (m * m) > x * x * 1_000_000_000_000) by (nonlinear_arith)
        requires
            q >= 0,
            m >= 1,
            abs(x) * 1_000_000 < (q + 1) * m,
            abs(x) * abs(x) == x * x,
            abs(x) >= 0,
    ;
    // The component is not much longer than the magnitude, so the
    // quotient is not much more than one.
    assert(x * x <= s * (SCALE as int) + SCALE as int);
    assert(abs(x) <= m + 1_001) by (nonlinear_arith)
        requires
            abs(x) >= 0,
            m >= 1_000_000,
            abs(x) * abs(x) == x * x,
            x * x <= s * 1_000_000 + 1_000_000,
            s * 1_000_000 < (m + 1) * (m + 1),
    ;
    assert(q <= 1_001_001) by (nonlinear_arith)
        requires
            q >= 0,
            m >= 1_000_000,
            q * m <= abs(x) * 1_000_000,
            abs(x) <= m + 1_001,
    ;
}

/// One exact normalization step for an axis-aligned vector.
proof fn lemma_normalize_axis_once(a: int)
    requires
        a > 0,
        a % 1000 == 0,
    ensures
        normalize_v(vector_v(a, 0, 0)) == vector_v(SCALE as int, 0, 0),
        mag_v(vector_v(a, 0, 0)) == a,
        mag_v(normalize_v(vector_v(a, 0, 0))) == SCALE as int,
{
    let v = vector_v(a, 0, 0);
    let k = a / 1000;
    assert(a == 1000 * k);
    assert(a * a == (k * k) * 1_000_000) by (nonlinear_arith)
        requires
            a == 1000 * k,
    ;
    assert(k > 0) by (nonlinear_arith)
        requires
            a == 1000 * k,
            a > 0,
    ;
    // The squared magnitude truncates to exactly k * k units.
    crate::scalar::lemma_abs_mul(a, a);
    vstd::arithmetic::div_mod::lemma_div_multiples_vanish(k * k, SCALE as int);
    assert((SCALE as int) * (k * k) == (k * k) * (SCALE as int)) by (nonlinear_arith);
    lemma_s_mul_zero(0);
    assert(s_mul(a, a) == k * k);
    assert(mag2_v(v) == k * k);
    // Its square root is exactly a.
    assert((k * k) * (SCALE as int) == a * a) by (nonlinear_arith)
        requires
            a == 1000 * k,
    ;
    assert(a * a == (a as nat) * (a as nat)) by (nonlinear_arith)
        requires
            a > 0,
    ;
    lemma_isqrt_square(a as nat);
    assert(mag_v(v) == a);
    // Dividing the lone component by the magnitude gives exactly one.
    crate::scalar::lemma_abs_mul(a, SCALE as int);
    assert(vstd::math::abs(a) * (SCALE as int) == (SCALE as int) * a) by (nonlinear_arith)
        requires
            a > 0,
    ;
    vstd::arithmetic::div_mod::lemma_div_multiples_vanish(SCALE as int, a);
    assert(s_div(a, a) == SCALE as int);
    // The zero components stay zero.
    crate::scalar::lemma_abs_mul(0, SCALE as int);
    vstd::arithmetic::div_mod::lemma_div_of0(a);
    assert(s_div(0, a) == 0);
    assert(normalize_v(v) == vector_v(SCALE as int, 0, 0));
    // The normalized vector's magnitude is exactly one.
    crate::scalar::lemma_abs_mul(SCALE as int, SCALE as int);
    vstd::arithmetic::div_mod::lemma_div_multiples_vanish(SCALE as int, SCALE as int);
    assert(s_mul(SCALE as int, SCALE as int) == SCALE as int);
    assert(mag2_v(vector_v(SCALE as int, 0, 0)) == SCALE as int);
    assert((SCALE as int) * (SCALE as int) == (SCALE as nat) * (SCALE as nat))
        by (nonlinear_arith);
    lemma_isqrt_square(SCALE as nat);
    assert(mag_v(vector_v(SCALE as int, 0, 0)) == SCALE as int);
}

} // verus!
