//! Rays: an origin point and a direction vector, evaluated along the
//! parameter `t` and mapped through transform matrices.

use vstd::prelude::*;

verus! {

use crate::matrix::{Matrix, entries_bounded, is_rect, mul_tuple_v, tuple_bounded};
use crate::scalar::{Scalar, fits, s_mul};
use crate::tuple::{Tuple, TupleV};

/// The mathematical content of a ray.
pub ghost struct RayV {
    pub origin: TupleV,
    pub direction: TupleV,
}

#[derive(Clone, Copy, Debug, PartialEq, Eq, Structural)]
pub struct Ray {
    pub origin: Tuple,
    pub direction: Tuple,
}

impl View for Ray {
    type V = RayV;

    open spec fn view(&self) -> RayV {
        RayV { origin: self.origin@, direction: self.direction@ }
    }
}

/// The point `origin + direction * t`.
pub open spec fn position_v(r: RayV, t: int) -> TupleV {
    TupleV {
        x: r.origin.x + s_mul(r.direction.x, t),
        y: r.origin.y + s_mul(r.direction.y, t),
        z: r.origin.z + s_mul(r.direction.z, t),
        w: r.origin.w + s_mul(r.direction.w, t),
    }
}

/// The scaled direction and the sums of `position_v` stay in range.
pub open spec fn position_fits(r: RayV, t: int) -> bool {
    &&& crate::tuple::tuple_fits(r.direction)
    &&& fits(t)
    &&& fits(s_mul(r.direction.x, t))
    &&& fits(s_mul(r.direction.y, t))
    &&& fits(s_mul(r.direction.z, t))
    &&& fits(s_mul(r.direction.w, t))
    &&& fits(r.origin.x + s_mul(r.direction.x, t))
    &&& fits(r.origin.y + s_mul(r.direction.y, t))
    &&& fits(r.origin.z + s_mul(r.direction.z, t))
    &&& fits(r.origin.w + s_mul(r.direction.w, t))
}

impl Ray {
    pub fn new(origin: Tuple, direction: Tuple) -> (r: Ray)
        ensures
            r@ == (RayV { origin: origin@, direction: direction@ }),
    {
        Ray { origin, direction }
    }

    /// The point reached after travelling `time` along the ray.
    pub fn position_at(&self, time: Scalar) -> (r: Tuple)
        requires
            position_fits(self@, time@),
        ensures
            r@ == position_v(self@, time@),
    {
        self.origin.add(self.direction.mul(time))
    }

    /// The ray with both origin and direction mapped by `m`.
    pub fn transform(&self, m: &Matrix) -> (r: Ray)
        requires
            m.wf(),
            is_rect(m@, 4, 4),
            entries_bounded(m@, 500_000_000_000),
            tuple_bounded(self@.origin, 500_000_000_000),
            tuple_bounded(self@.direction, 500_000_000_000),
        ensures
            r@.origin == mul_tuple_v(m@, self@.origin),
            r@.direction == mul_tuple_v(m@, self@.direction),
    {
        Ray { origin: m.mul_tuple(&self.origin), direction: m.mul_tuple(&self.direction) }
    }
}

} // verus!
