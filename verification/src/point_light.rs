//! A point light: a position and an intensity, without attenuation.

use vstd::prelude::*;

verus! {

use crate::color::{Color, ColorV};
use crate::tuple::{Tuple, TupleV};

/// The mathematical content of a light.
pub ghost struct LightV {
    pub intensity: ColorV,
    pub position: TupleV,
}

#[derive(Clone, Copy, Debug, PartialEq, Eq, Structural)]
#[allow(non_camel_case_types)]
pub struct Point_Light {
    pub intensity: Color,
    pub position: Tuple,
}

impl View for Point_Light {
    type V = LightV;

    open spec fn view(&self) -> LightV {
        LightV { intensity: self.intensity@, position: self.position@ }
    }
}

impl Point_Light {
    pub fn new(intensity: Color, position: Tuple) -> (r: Point_Light)
        ensures
            r@ == (LightV { intensity: intensity@, position: position@ }),
    {
        Point_Light { intensity, position }
    }
}

} // verus!
