//! Ray-sphere intersection and nearest-hit selection.
//!
//! A ray is pulled into the sphere's local space by the inverse of the
//! sphere's transform, where the intersection is the quadratic
//! `|O + tD|^2 = 1`. The candidates go into an `Intersections` bag;
//! `hit` picks the one with the smallest strictly positive `t`.

use vstd::prelude::*;

verus! {

use crate::intersection::{Intersection, IntersectionV};
use crate::matrix::{
    det_v, entries_bounded, entries_small, inv_entries_fit, inverse_v, is_rect, is_square,
    mul_tuple_v, tuple_bounded,
};
use crate::object::{Object, object_wf};
use crate::ray::{Ray, RayV};
use crate::scalar::{Scalar, SCALE, fits, s_div, s_mul, s_sqrt};
use crate::tuple::{Tuple, TupleV, dot_fits, dot_v};

/// A bag of candidate intersections, in the order they were found.
pub struct Intersections {
    v: Vec<Intersection>,
}

impl View for Intersections {
    type V = Seq<IntersectionV>;

    closed spec fn view(&self) -> Seq<IntersectionV> {
        self.v@.map_values(|x: Intersection| x@)
    }
}

impl Intersections {
    pub fn new() -> (r: Intersections)
        ensures
            r@ == Seq::<IntersectionV>::empty(),
    {
        let r = Intersections { v: Vec::new() };
        proof {
            assert(r@ =~= Seq::<IntersectionV>::empty());
        }
        r
    }

    pub fn len(&self) -> (n: usize)
        ensures
            n == self@.len(),
    {
        self.v.len()
    }

    pub fn push(&mut self, x: Intersection)
        ensures
            final(self)@ == old(self)@.push(x@),
    {
        self.v.push(x);
        proof {
            assert(self@ =~= old(self)@.push(x@));
        }
    }

    /// Removes and returns an intersection with the smallest `t`;
    /// which of several equal candidates leaves is not specified.
    pub fn pop(&mut self) -> (res: Option<Intersection>)
        ensures
            old(self)@.len() == 0 ==> res is None && final(self)@ == old(self)@,
            old(self)@.len() > 0 ==> (res matches Some(x)
                && (exists|k: int|
                    0 <= k < old(self)@.len() && old(self)@[k] == x@ && final(self)@ == old(
                        self,
                    )@.remove(k)) && (forall|j: int|
                    0 <= j < old(self)@.len() ==> x@.t <= (#[trigger] old(self)@[j]).t)),
    {
        if self.v.len() == 0 {
            return Option::None;
        }
        let mut best: usize = 0;
        let mut i: usize = 1;
        while i < self.v.len()
            invariant
                self.v@.len() > 0,
                best < i,
                i <= self.v@.len(),
                forall|j: int| 0 <= j < i ==> self@[best as int].t <= (#[trigger] self@[j]).t,
            decreases self.v@.len() - i,
        {
            proof {
                assert(forall|j: int|
                    0 <= j < self.v@.len() ==> #[trigger] self@[j] == self.v@[j]@);
            }
            if self.v[i].t.lt(&self.v[best].t) {
                best = i;
            }
            i = i + 1;
        }
        let x = self.v.remove(best);
        proof {
            assert(final(self)@ =~= old(self)@.remove(best as int));
        }
        Option::Some(x)
    }
}

/// The nearest visible intersection: among those with strictly
/// positive `t`, the one with the smallest `t`; nothing when none
/// qualifies.
pub fn hit(i: &Intersections) -> (res: Option<&Intersection>)
    ensures
        res is None <==> (forall|k: int| 0 <= k < i@.len() ==> (#[trigger] i@[k]).t <= 0),
        res matches Some(x) ==> x@.t > 0 && (exists|k: int|
            0 <= k < i@.len() && i@[k] == x@) && (forall|j: int|
            0 <= j < i@.len() && (#[trigger] i@[j]).t > 0 ==> x@.t <= i@[j].t),
{
    let zero = Scalar::zero();
    let mut best: usize = 0;
    let mut found: bool = false;
    let mut k: usize = 0;
    while k < i.v.len()
        invariant
            zero@ == 0,
            k <= i.v@.len(),
            found ==> best < k && i@[best as int].t > 0,
            found ==> (forall|j: int|
                0 <= j < k && (#[trigger] i@[j]).t > 0 ==> i@[best as int].t <= i@[j].t),
            !found ==> (forall|j: int| 0 <= j < k ==> (#[trigger] i@[j]).t <= 0),
        decreases i.v@.len() - k,
    {
        proof {
            assert(forall|j: int| 0 <= j < i.v@.len() ==> #[trigger] i@[j] == i.v@[j]@);
        }
        if zero.lt(&i.v[k].t) {
            if !found {
                best = k;
                found = true;
            } else if i.v[k].t.lt(&i.v[best].t) {
                best = k;
            }
        }
        k = k + 1;
    }
    if found {
        Option::Some(&i.v[best])
    } else {
        Option::None
    }
}

/// The ray pulled into the object's local space by the inverse
/// transform.
pub open spec fn local_ray_v(t: Seq<Seq<int>>, r: RayV) -> RayV {
    RayV {
        origin: mul_tuple_v(inverse_v(t), r.origin),
        direction: mul_tuple_v(inverse_v(t), r.direction),
    }
}

/// The local origin read as an offset from the sphere's center.
pub open spec fn sphere_to_ray_v(t: Seq<Seq<int>>, r: RayV) -> TupleV {
    let o = local_ray_v(t, r).origin;
    TupleV { x: o.x, y: o.y, z: o.z, w: o.w - SCALE as int }
}

/// The quadratic coefficient `D . D`.
pub open spec fn isect_a(t: Seq<Seq<int>>, r: RayV) -> int {
    dot_v(local_ray_v(t, r).direction, local_ray_v(t, r).direction)
}

/// The quadratic coefficient `2 (D . (O - center))`.
pub open spec fn isect_b(t: Seq<Seq<int>>, r: RayV) -> int {
    s_mul(2 * SCALE as int, dot_v(local_ray_v(t, r).direction, sphere_to_ray_v(t, r)))
}

/// The quadratic coefficient `(O - center) . (O - center) - 1`.
pub open spec fn isect_c(t: Seq<Seq<int>>, r: RayV) -> int {
    dot_v(sphere_to_ray_v(t, r), sphere_to_ray_v(t, r)) - SCALE as int
}

/// The discriminant `b^2 - 4 a c`.
pub open spec fn isect_disc(t: Seq<Seq<int>>, r: RayV) -> int {
    s_mul(isect_b(t, r), isect_b(t, r)) - s_mul(
        s_mul(4 * SCALE as int, isect_a(t, r)),
        isect_c(t, r),
    )
}

/// The nearer root `(-b - sqrt(disc)) / 2a`.
pub open spec fn isect_t1(t: Seq<Seq<int>>, r: RayV) -> int {
    s_div(-isect_b(t, r) - s_sqrt(isect_disc(t, r)), s_mul(2 * SCALE as int, isect_a(t, r)))
}

/// The farther root `(-b + sqrt(disc)) / 2a`.
pub open spec fn isect_t2(t: Seq<Seq<int>>, r: RayV) -> int {
    s_div(-isect_b(t, r) + s_sqrt(isect_disc(t, r)), s_mul(2 * SCALE as int, isect_a(t, r)))
}

/// Every step of the intersection computation stays in range.
pub open spec fn intersect_fits(t: Seq<Seq<int>>, r: RayV) -> bool {
    let lr = local_ray_v(t, r);
    let s2r = sphere_to_ray_v(t, r);
    let a = isect_a(t, r);
    let b = isect_b(t, r);
    let c = isect_c(t, r);
    let disc = isect_disc(t, r);
    &&& entries_small(t)
    &&& tuple_bounded(r.origin, 400_000_000_000)
    &&& tuple_bounded(r.direction, 400_000_000_000)
    &&& (det_v(t) != 0 ==> {
        &&& inv_entries_fit(t)
        &&& entries_bounded(inverse_v(t), 400_000_000_000)
        &&& fits(lr.origin.x) && fits(lr.origin.y) && fits(lr.origin.z)
        &&& fits(lr.origin.w - SCALE as int)
        &&& dot_fits(lr.direction, lr.direction)
        &&& dot_fits(lr.direction, s2r)
        &&& dot_fits(s2r, s2r)
        &&& fits(s_mul(2 * SCALE as int, dot_v(lr.direction, s2r)))
        &&& fits(dot_v(s2r, s2r) - SCALE as int)
        &&& fits(s_mul(b, b))
        &&& fits(s_mul(4 * SCALE as int, a))
        &&& fits(s_mul(s_mul(4 * SCALE as int, a), c))
        &&& fits(disc)
        &&& (a != 0 && disc >= 0 ==> {
            &&& fits(-b - s_sqrt(disc))
            &&& fits(-b + s_sqrt(disc))
            &&& fits(s_mul(2 * SCALE as int, a))
            &&& fits(isect_t1(t, r))
            &&& fits(isect_t2(t, r))
        })
    })
}

/// Casts `r` against the sphere `s`. Nothing is returned when the
/// sphere's transform cannot be inverted, or — the liberty this
/// library takes where division by a vanishing quadratic coefficient
/// was left open — when the transformed direction's squared length
/// truncates to zero. A negative discriminant gives an empty bag;
/// otherwise exactly the two roots come back, in root order, each
/// carrying the original, untransformed object.
pub fn intersect(r: &Ray, s: &Object) -> (res: Option<Intersections>)
    requires
        object_wf(s),
        is_square(s@.transform()),
        intersect_fits(s@.transform(), r@),
    ensures
        res is None <==> (det_v(s@.transform()) == 0 || isect_a(s@.transform(), r@) == 0),
        res matches Some(xs) ==> {
            let t = s@.transform();
            &&& (isect_disc(t, r@) < 0 ==> xs@ == Seq::<IntersectionV>::empty())
            &&& (isect_disc(t, r@) >= 0 ==> xs@ == seq![
                IntersectionV { t: isect_t1(t, r@), o: s@ },
                IntersectionV { t: isect_t2(t, r@), o: s@ },
            ])
        },
{
    let transform_m = match s {
        Object::Sphere(m, _) => m,
    };
    let inv = match transform_m.inverse() {
        Option::Some(i) => i,
        Option::None => {
            return Option::None;
        },
    };
    proof {
        assert(is_rect(inv@, 4, 4)) by {
            assert(inv@ =~~= inverse_v(transform_m@));
        }
    }
    let local = r.transform(&inv);
    let origin_pt = Tuple::point(Scalar::zero(), Scalar::zero(), Scalar::zero());
    let sphere_to_ray = local.origin.sub(origin_pt);
    let a = local.direction.dot(&local.direction);
    let two = Scalar::from_int(2);
    let b = two.mul(local.direction.dot(&sphere_to_ray));
    let c = sphere_to_ray.dot(&sphere_to_ray).sub(Scalar::one());
    let four = Scalar::from_int(4);
    let disc = b.mul(b).sub(four.mul(a).mul(c));
    proof {
        crate::scalar::lemma_s_mul_whole(4, a@);
    }
    if a.is_zero() {
        return Option::None;
    }
    let zero = Scalar::zero();
    let mut xs = Intersections::new();
    if disc.lt(&zero) {
        return Option::Some(xs);
    }
    let sq = disc.sqrt();
    proof {
        crate::scalar::lemma_s_mul_whole(2, a@);
    }
    let two_a = two.mul(a);
    let t1 = b.neg().sub(sq).div(two_a);
    let t2 = b.neg().add(sq).div(two_a);
    xs.push(Intersection::new(t1, s.duplicate()));
    xs.push(Intersection::new(t2, s.duplicate()));
    proof {
        assert(xs@ =~= seq![
            IntersectionV { t: isect_t1(s@.transform(), r@), o: s@ },
            IntersectionV { t: isect_t2(s@.transform(), r@), o: s@ },
        ]);
    }
    Option::Some(xs)
}

} // verus!
