//! Homogeneous four-component tuples: points (`w == 1`) and vectors
//! (`w == 0`), with their algebra. Every operation states the resulting
//! components exactly, over the fixed-point arithmetic of `scalar`.

use vstd::prelude::*;

verus! {

use crate::scalar::{
    Scalar, SCALE, fits, s_mul, s_div, s_sqrt, lemma_s_mul_self_nonneg, lemma_s_sqrt_pos,
};

/// The mathematical content of a tuple: its four components in millionths.
pub ghost struct TupleV {
    pub x: int,
    pub y: int,
    pub z: int,
    pub w: int,
}

#[derive(Clone, Copy, Debug, PartialEq, Eq, Structural)]
pub struct Tuple {
    pub x: Scalar,
    pub y: Scalar,
    pub z: Scalar,
    pub w: Scalar,
}

impl View for Tuple {
    type V = TupleV;

    open spec fn view(&self) -> TupleV {
        TupleV { x: self.x@, y: self.y@, z: self.z@, w: self.w@ }
    }
}

/// A point: `w` is one.
pub open spec fn point_v(x: int, y: int, z: int) -> TupleV {
    TupleV { x, y, z, w: SCALE as int }
}

/// A vector: `w` is zero.
pub open spec fn vector_v(x: int, y: int, z: int) -> TupleV {
    TupleV { x, y, z, w: 0 }
}

/// All four components are in range.
pub open spec fn tuple_fits(t: TupleV) -> bool {
    fits(t.x) && fits(t.y) && fits(t.z) && fits(t.w)
}

/// The dot product, summed in component order.
pub open spec fn dot_v(a: TupleV, b: TupleV) -> int {
    s_mul(a.x, b.x) + s_mul(a.y, b.y) + s_mul(a.z, b.z) + s_mul(a.w, b.w)
}

/// The dot product's intermediate values all stay in range.
pub open spec fn dot_fits(a: TupleV, b: TupleV) -> bool {
    &&& tuple_fits(a)
    &&& tuple_fits(b)
    &&& fits(s_mul(a.x, b.x))
    &&& fits(s_mul(a.y, b.y))
    &&& fits(s_mul(a.z, b.z))
    &&& fits(s_mul(a.w, b.w))
    &&& fits(s_mul(a.x, b.x) + s_mul(a.y, b.y))
    &&& fits(s_mul(a.x, b.x) + s_mul(a.y, b.y) + s_mul(a.z, b.z))
    &&& fits(dot_v(a, b))
}

/// The squared magnitude.
pub open spec fn mag2_v(t: TupleV) -> int {
    dot_v(t, t)
}

/// The magnitude: the square root of the dot product with itself.
pub open spec fn mag_v(t: TupleV) -> int {
    s_sqrt(mag2_v(t))
}

/// The cross product's intermediate values all stay in range.
pub open spec fn cross_fits(a: TupleV, b: TupleV) -> bool {
    &&& tuple_fits(a)
    &&& tuple_fits(b)
    &&& fits(s_mul(a.y, b.z))
    &&& fits(s_mul(a.z, b.y))
    &&& fits(s_mul(a.z, b.x))
    &&& fits(s_mul(a.x, b.z))
    &&& fits(s_mul(a.x, b.y))
    &&& fits(s_mul(a.y, b.x))
    &&& fits(s_mul(a.y, b.z) - s_mul(a.z, b.y))
    &&& fits(s_mul(a.z, b.x) - s_mul(a.x, b.z))
    &&& fits(s_mul(a.x, b.y) - s_mul(a.y, b.x))
}

impl Tuple {
    /// The point `(x, y, z)`.
    pub fn point(x: Scalar, y: Scalar, z: Scalar) -> (r: Tuple)
        ensures
            r@ == point_v(x@, y@, z@),
    {
        Tuple { x, y, z, w: Scalar::one() }
    }

    /// The vector `(x, y, z)`.
    pub fn vector(x: Scalar, y: Scalar, z: Scalar) -> (r: Tuple)
        ensures
            r@ == vector_v(x@, y@, z@),
    {
        Tuple { x, y, z, w: Scalar::zero() }
    }

    pub fn is_point(&self) -> (r: bool)
        ensures
            r == (self@.w == SCALE as int),
    {
        self.w.micros() == SCALE
    }

    pub fn is_vector(&self) -> (r: bool)
        ensures
            r == (self@.w == 0),
    {
        self.w.micros() == 0
    }

    /// Demotes the tuple to a vector by zeroing `w`.
    pub fn to_vector(&mut self)
        ensures
            final(self)@.x == old(self)@.x,
            final(self)@.y == old(self)@.y,
            final(self)@.z == old(self)@.z,
            final(self)@.w == 0,
    {
        self.w = Scalar::zero();
    }

    pub fn add(self, o: Tuple) -> (r: Tuple)
        requires
            fits(self@.x + o@.x),
            fits(self@.y + o@.y),
            fits(self@.z + o@.z),
            fits(self@.w + o@.w),
        ensures
            r@.x == self@.x + o@.x,
            r@.y == self@.y + o@.y,
            r@.z == self@.z + o@.z,
            r@.w == self@.w + o@.w,
    {
        Tuple {
            x: self.x.add(o.x),
            y: self.y.add(o.y),
            z: self.z.add(o.z),
            w: self.w.add(o.w),
        }
    }

    pub fn sub(self, o: Tuple) -> (r: Tuple)
        requires
            fits(self@.x - o@.x),
            fits(self@.y - o@.y),
            fits(self@.z - o@.z),
            fits(self@.w - o@.w),
        ensures
            r@.x == self@.x - o@.x,
            r@.y == self@.y - o@.y,
            r@.z == self@.z - o@.z,
            r@.w == self@.w - o@.w,
    {
        Tuple {
            x: self.x.sub(o.x),
            y: self.y.sub(o.y),
            z: self.z.sub(o.z),
            w: self.w.sub(o.w),
        }
    }

    pub fn neg(self) -> (r: Tuple)
        requires
            tuple_fits(self@),
        ensures
            r@.x == -self@.x,
            r@.y == -self@.y,
            r@.z == -self@.z,
            r@.w == -self@.w,
    {
        Tuple { x: self.x.neg(), y: self.y.neg(), z: self.z.neg(), w: self.w.neg() }
    }

    /// Multiplies every component by the scalar `k`.
    pub fn mul(self, k: Scalar) -> (r: Tuple)
        requires
            tuple_fits(self@),
            fits(k@),
            fits(s_mul(self@.x, k@)),
            fits(s_mul(self@.y, k@)),
            fits(s_mul(self@.z, k@)),
            fits(s_mul(self@.w, k@)),
        ensures
            r@.x == s_mul(self@.x, k@),
            r@.y == s_mul(self@.y, k@),
            r@.z == s_mul(self@.z, k@),
            r@.w == s_mul(self@.w, k@),
    {
        Tuple {
            x: self.x.mul(k),
            y: self.y.mul(k),
            z: self.z.mul(k),
            w: self.w.mul(k),
        }
    }

    /// Divides every component by the scalar `k`.
    pub fn div(self, k: Scalar) -> (r: Tuple)
        requires
            tuple_fits(self@),
            fits(k@),
            k@ != 0,
            fits(s_div(self@.x, k@)),
            fits(s_div(self@.y, k@)),
            fits(s_div(self@.z, k@)),
            fits(s_div(self@.w, k@)),
        ensures
            r@.x == s_div(self@.x, k@),
            r@.y == s_div(self@.y, k@),
            r@.z == s_div(self@.z, k@),
            r@.w == s_div(self@.w, k@),
    {
        Tuple {
            x: self.x.div(k),
            y: self.y.div(k),
            z: self.z.div(k),
            w: self.w.div(k),
        }
    }

    pub fn dot(&self, other: &Tuple) -> (r: Scalar)
        requires
            dot_fits(self@, other@),
        ensures
            r@ == dot_v(self@, other@),
    {
        self.x.mul(other.x).add(self.y.mul(other.y)).add(self.z.mul(other.z)).add(
            self.w.mul(other.w),
        )
    }

    /// The magnitude `sqrt(x*x + y*y + z*z + w*w)`.
    pub fn magnitude(&self) -> (r: Scalar)
        requires
            dot_fits(self@, self@),
        ensures
            r@ == mag_v(self@),
            0 <= r@ <= 1_000_000_000_000,
    {
        proof {
            lemma_s_mul_self_nonneg(self@.x);
            lemma_s_mul_self_nonneg(self@.y);
            lemma_s_mul_self_nonneg(self@.z);
            lemma_s_mul_self_nonneg(self@.w);
        }
        let m2 = self.dot(self);
        m2.sqrt()
    }

    /// Scales the tuple to (approximately) unit magnitude. The input
    /// must have a positive squared magnitude: the zero vector has no
    /// direction, and this library rejects it by precondition rather
    /// than producing a sentinel.
    pub fn normalize(&self) -> (r: Tuple)
        requires
            dot_fits(self@, self@),
            mag2_v(self@) > 0,
            fits(s_div(self@.x, mag_v(self@))),
            fits(s_div(self@.y, mag_v(self@))),
            fits(s_div(self@.z, mag_v(self@))),
            fits(s_div(self@.w, mag_v(self@))),
        ensures
            r@.x == s_div(self@.x, mag_v(self@)),
            r@.y == s_div(self@.y, mag_v(self@)),
            r@.z == s_div(self@.z, mag_v(self@)),
            r@.w == s_div(self@.w, mag_v(self@)),
    {
        let m = self.magnitude();
        proof {
            lemma_s_sqrt_pos(mag2_v(self@));
        }
        self.div(m)
    }

    /// The three-dimensional cross product; the result is a vector.
    pub fn cross(&self, other: &Tuple) -> (r: Tuple)
        requires
            cross_fits(self@, other@),
        ensures
            r@.x == s_mul(self@.y, other@.z) - s_mul(self@.z, other@.y),
            r@.y == s_mul(self@.z, other@.x) - s_mul(self@.x, other@.z),
            r@.z == s_mul(self@.x, other@.y) - s_mul(self@.y, other@.x),
            r@.w == 0,
    {
        Tuple::vector(
            self.y.mul(other.z).sub(self.z.mul(other.y)),
            self.z.mul(other.x).sub(self.x.mul(other.z)),
            self.x.mul(other.y).sub(self.y.mul(other.x)),
        )
    }
}

} // verus!
