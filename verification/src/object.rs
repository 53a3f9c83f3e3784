//! Geometric primitives: the unit sphere, carrying its own-to-world
//! transform and a material; surface normals under that transform; and
//! vector reflection.

use vstd::prelude::*;

verus! {

use crate::material::{Material, MaterialV};
use crate::matrix::{
    Matrix, det_v, entries_bounded, entries_small, inv_entries_fit, inverse_v, is_rect,
    is_square, mat_mul_v, mul_tuple_v, transpose_v, tuple_bounded,
};
use crate::scalar::{Scalar, SCALE, fits, s_div, s_mul};
use crate::tuple::{Tuple, TupleV, dot_fits, dot_v, mag2_v, mag_v};

/// The mathematical content of a primitive.
pub ghost enum ObjectV {
    Sphere(Seq<Seq<int>>, MaterialV),
}

impl ObjectV {
    /// The primitive's own-to-world transform.
    pub open spec fn transform(self) -> Seq<Seq<int>> {
        match self {
            ObjectV::Sphere(t, _) => t,
        }
    }

    /// The primitive's material.
    pub open spec fn material(self) -> MaterialV {
        match self {
            ObjectV::Sphere(_, m) => m,
        }
    }
}

/// A tagged primitive; the unit sphere, centered at its local origin
/// with radius one, is the only variant.
#[derive(Clone, Debug, PartialEq)]
pub enum Object {
    Sphere(Matrix, Material),
}

impl View for Object {
    type V = ObjectV;

    open spec fn view(&self) -> ObjectV {
        match self {
            Object::Sphere(t, m) => ObjectV::Sphere(t@, m@),
        }
    }
}

/// The transform sits in a well-formed 4x4 matrix.
pub open spec fn object_wf(o: &Object) -> bool {
    match o {
        Object::Sphere(t, _) => t.wf() && is_rect(t@, 4, 4),
    }
}

impl Object {
    /// A unit sphere with the identity transform and default material.
    pub fn sphere() -> (r: Object)
        ensures
            object_wf(&r),
            r@ == ObjectV::Sphere(
                crate::matrix::identity_v(),
                crate::material::default_material_v(),
            ),
    {
        Object::Sphere(Matrix::identity(), Material::default())
    }

    /// A unit sphere with the identity transform and the given material.
    pub fn sphere_with_mat(mat: Material) -> (r: Object)
        ensures
            object_wf(&r),
            r@ == ObjectV::Sphere(crate::matrix::identity_v(), mat@),
    {
        Object::Sphere(Matrix::identity(), mat)
    }

    /// A copy whose view is known to match.
    pub fn duplicate(&self) -> (r: Object)
        requires
            object_wf(self),
        ensures
            object_wf(&r),
            r@ == self@,
    {
        match self {
            Object::Sphere(t, m) => Object::Sphere(t.duplicate(), *m),
        }
    }
}

/// The object re-transformed: its own transform right-multiplied by `m`,
/// so later transforms apply first in object space.
pub fn transform(o: &Object, m: &Matrix) -> (r: Object)
    requires
        object_wf(o),
        m.wf(),
        is_rect(m@, 4, 4),
        entries_bounded(o@.transform(), 500_000_000_000),
        entries_bounded(m@, 500_000_000_000),
    ensures
        object_wf(&r),
        r@ == ObjectV::Sphere(mat_mul_v(o@.transform(), m@), o@.material()),
{
    match o {
        Object::Sphere(t, mat) => {
            let composed = t.mul(m);
            proof {
                assert(is_rect(composed@, 4, 4)) by {
                    assert(composed@ =~~= mat_mul_v(t@, m@));
                }
            }
            Object::Sphere(composed, *mat)
        },
    }
}

/// The reflection of `i` about the unit normal `n`:
/// `i - (n * 2) * dot(i, n)`.
pub open spec fn reflect_v(i: TupleV, n: TupleV) -> TupleV {
    let d = dot_v(i, n);
    TupleV {
        x: i.x - s_mul(s_mul(n.x, 2 * SCALE as int), d),
        y: i.y - s_mul(s_mul(n.y, 2 * SCALE as int), d),
        z: i.z - s_mul(s_mul(n.z, 2 * SCALE as int), d),
        w: i.w - s_mul(s_mul(n.w, 2 * SCALE as int), d),
    }
}

/// Every step of the reflection stays in range.
pub open spec fn reflect_fits(i: TupleV, n: TupleV) -> bool {
    let d = dot_v(i, n);
    &&& dot_fits(i, n)
    &&& fits(s_mul(n.x, 2 * SCALE as int))
    &&& fits(s_mul(n.y, 2 * SCALE as int))
    &&& fits(s_mul(n.z, 2 * SCALE as int))
    &&& fits(s_mul(n.w, 2 * SCALE as int))
    &&& fits(s_mul(s_mul(n.x, 2 * SCALE as int), d))
    &&& fits(s_mul(s_mul(n.y, 2 * SCALE as int), d))
    &&& fits(s_mul(s_mul(n.z, 2 * SCALE as int), d))
    &&& fits(s_mul(s_mul(n.w, 2 * SCALE as int), d))
    &&& fits(i.x - s_mul(s_mul(n.x, 2 * SCALE as int), d))
    &&& fits(i.y - s_mul(s_mul(n.y, 2 * SCALE as int), d))
    &&& fits(i.z - s_mul(s_mul(n.z, 2 * SCALE as int), d))
    &&& fits(i.w - s_mul(s_mul(n.w, 2 * SCALE as int), d))
}

/// Reflects `in_vector` about `normal`; `in_vector` points toward the
/// surface.
pub fn reflect(in_vector: &Tuple, normal: &Tuple) -> (r: Tuple)
    requires
        reflect_fits(in_vector@, normal@),
    ensures
        r@ == reflect_v(in_vector@, normal@),
{
    let d = in_vector.dot(normal);
    let two = Scalar::from_int(2);
    let scaled = normal.mul(two).mul(d);
    in_vector.sub(scaled)
}

/// The un-normalized world normal at `p`: the point pulled into object
/// space by the inverse transform, read as a direction from the
/// sphere's center, pushed back through the transposed inverse, and
/// demoted to a vector.
pub open spec fn normal_raw_v(t: Seq<Seq<int>>, p: TupleV) -> TupleV {
    let inv = inverse_v(t);
    let op = mul_tuple_v(inv, p);
    let on = TupleV { x: op.x, y: op.y, z: op.z, w: op.w - SCALE as int };
    let wn = mul_tuple_v(transpose_v(inv), on);
    TupleV { x: wn.x, y: wn.y, z: wn.z, w: 0 }
}

/// The normalization of `t`: each component over the magnitude.
pub open spec fn normalize_v(t: TupleV) -> TupleV {
    TupleV {
        x: s_div(t.x, mag_v(t)),
        y: s_div(t.y, mag_v(t)),
        z: s_div(t.z, mag_v(t)),
        w: s_div(t.w, mag_v(t)),
    }
}

/// Every step of the normal computation stays in range.
pub open spec fn normal_fits(t: Seq<Seq<int>>, p: TupleV) -> bool {
    let inv = inverse_v(t);
    let op = mul_tuple_v(inv, p);
    let on = TupleV { x: op.x, y: op.y, z: op.z, w: op.w - SCALE as int };
    let raw = normal_raw_v(t, p);
    &&& entries_small(t)
    &&& tuple_bounded(p, 400_000_000_000)
    &&& (det_v(t) != 0 ==> {
        &&& inv_entries_fit(t)
        &&& entries_bounded(inv, 400_000_000_000)
        &&& tuple_bounded(on, 400_000_000_000)
        &&& dot_fits(raw, raw)
        &&& (mag2_v(raw) > 0 ==> {
            &&& fits(s_div(raw.x, mag_v(raw)))
            &&& fits(s_div(raw.y, mag_v(raw)))
            &&& fits(s_div(raw.z, mag_v(raw)))
            &&& fits(s_div(raw.w, mag_v(raw)))
        })
    })
}

/// The unit surface normal of `o` at the world point `world_point`.
/// Nothing is returned when the transform cannot be inverted, and —
/// the one liberty this library takes where the behaviour was left
/// open — when the pulled-back normal is too short to normalize.
pub fn normal_at(o: &Object, world_point: Tuple) -> (res: Option<Tuple>)
    requires
        object_wf(o),
        is_square(o@.transform()),
        normal_fits(o@.transform(), world_point@),
    ensures
        det_v(o@.transform()) == 0 ==> res is None,
        det_v(o@.transform()) != 0 && mag2_v(normal_raw_v(o@.transform(), world_point@)) == 0
            ==> res is None,
        det_v(o@.transform()) != 0 && mag2_v(normal_raw_v(o@.transform(), world_point@)) > 0
            ==> (res matches Some(n) && n@ == normalize_v(
            normal_raw_v(o@.transform(), world_point@),
        )),
{
    let object_transform = match o {
        Object::Sphere(t, _) => t,
    };
    let inv = match object_transform.inverse() {
        Option::Some(i) => i,
        Option::None => {
            return Option::None;
        },
    };
    proof {
        assert(is_rect(inv@, 4, 4)) by {
            assert(inv@ =~~= inverse_v(object_transform@));
        }
        assert(entries_bounded(inv@, 500_000_000_000));
    }
    let object_point = inv.mul_tuple(&world_point);
    let origin = Tuple::point(Scalar::zero(), Scalar::zero(), Scalar::zero());
    let object_normal = object_point.sub(origin);
    let wt = inv.transpose();
    proof {
        assert(entries_bounded(wt@, 500_000_000_000)) by {
            assert(forall|i: int, j: int|
                0 <= i < 4 && 0 <= j < 4 ==> #[trigger] wt@[i][j] == inv@[j][i]);
        }
    }
    let mut world_normal = wt.mul_tuple(&object_normal);
    world_normal.to_vector();
    proof {
        assert(world_normal@ == normal_raw_v(o@.transform(), world_point@));
        crate::scalar::lemma_s_mul_self_nonneg(world_normal@.x);
        crate::scalar::lemma_s_mul_self_nonneg(world_normal@.y);
        crate::scalar::lemma_s_mul_self_nonneg(world_normal@.z);
        crate::scalar::lemma_s_mul_self_nonneg(world_normal@.w);
    }
    let m2 = world_normal.dot(&world_normal);
    if m2.is_zero() {
        return Option::None;
    }
    Option::Some(world_normal.normalize())
}

} // verus!
