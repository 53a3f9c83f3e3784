//! Colors: red, green and blue channels, unbounded in range. Channels
//! are clamped only when a canvas is serialized, never here.

use vstd::prelude::*;

verus! {

use crate::scalar::{Scalar, fits, s_mul, s_div};

/// The mathematical content of a color: its channels in millionths.
pub ghost struct ColorV {
    pub r: int,
    pub g: int,
    pub b: int,
}

#[derive(Clone, Copy, Debug, PartialEq, Eq, Structural)]
pub struct Color {
    pub r: Scalar,
    pub g: Scalar,
    pub b: Scalar,
}

impl View for Color {
    type V = ColorV;

    open spec fn view(&self) -> ColorV {
        ColorV { r: self.r@, g: self.g@, b: self.b@ }
    }
}

/// All three channels are in range.
pub open spec fn color_fits(c: ColorV) -> bool {
    fits(c.r) && fits(c.g) && fits(c.b)
}

/// The channel-wise (Hadamard) product of two colors.
pub open spec fn color_mul_v(a: ColorV, b: ColorV) -> ColorV {
    ColorV { r: s_mul(a.r, b.r), g: s_mul(a.g, b.g), b: s_mul(a.b, b.b) }
}

/// The channel-wise scaling of a color by `k`.
pub open spec fn color_scale_v(c: ColorV, k: int) -> ColorV {
    ColorV { r: s_mul(c.r, k), g: s_mul(c.g, k), b: s_mul(c.b, k) }
}

/// The channel-wise sum of two colors.
pub open spec fn color_add_v(a: ColorV, b: ColorV) -> ColorV {
    ColorV { r: a.r + b.r, g: a.g + b.g, b: a.b + b.b }
}

impl Color {
    pub fn new(r: Scalar, g: Scalar, b: Scalar) -> (c: Color)
        ensures
            c@ == (ColorV { r: r@, g: g@, b: b@ }),
    {
        Color { r, g, b }
    }

    pub fn add(self, o: Color) -> (c: Color)
        requires
            fits(self@.r + o@.r),
            fits(self@.g + o@.g),
            fits(self@.b + o@.b),
        ensures
            c@ == color_add_v(self@, o@),
    {
        Color { r: self.r.add(o.r), g: self.g.add(o.g), b: self.b.add(o.b) }
    }

    pub fn sub(self, o: Color) -> (c: Color)
        requires
            fits(self@.r - o@.r),
            fits(self@.g - o@.g),
            fits(self@.b - o@.b),
        ensures
            c@.r == self@.r - o@.r,
            c@.g == self@.g - o@.g,
            c@.b == self@.b - o@.b,
    {
        Color { r: self.r.sub(o.r), g: self.g.sub(o.g), b: self.b.sub(o.b) }
    }

    /// The channel-wise product with another color.
    pub fn mul(self, o: Color) -> (c: Color)
        requires
            color_fits(self@),
            color_fits(o@),
            fits(s_mul(self@.r, o@.r)),
            fits(s_mul(self@.g, o@.g)),
            fits(s_mul(self@.b, o@.b)),
        ensures
            c@ == color_mul_v(self@, o@),
    {
        Color { r: self.r.mul(o.r), g: self.g.mul(o.g), b: self.b.mul(o.b) }
    }

    /// Every channel multiplied by the scalar `k`.
    pub fn scale(self, k: Scalar) -> (c: Color)
        requires
            color_fits(self@),
            fits(k@),
            fits(s_mul(self@.r, k@)),
            fits(s_mul(self@.g, k@)),
            fits(s_mul(self@.b, k@)),
        ensures
            c@ == color_scale_v(self@, k@),
    {
        Color { r: self.r.mul(k), g: self.g.mul(k), b: self.b.mul(k) }
    }

    /// Every channel divided by the scalar `k`.
    pub fn div(self, k: Scalar) -> (c: Color)
        requires
            color_fits(self@),
            fits(k@),
            k@ != 0,
            fits(s_div(self@.r, k@)),
            fits(s_div(self@.g, k@)),
            fits(s_div(self@.b, k@)),
        ensures
            c@.r == s_div(self@.r, k@),
            c@.g == s_div(self@.g, k@),
            c@.b == s_div(self@.b, k@),
    {
        Color { r: self.r.div(k), g: self.g.div(k), b: self.b.div(k) }
    }
}

} // verus!
