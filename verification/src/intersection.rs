//! A candidate hit: the ray parameter `t` and the object struck there.

use vstd::prelude::*;

verus! {

use crate::object::{Object, ObjectV};
use crate::scalar::Scalar;

/// The mathematical content of an intersection.
pub ghost struct IntersectionV {
    pub t: int,
    pub o: ObjectV,
}

#[derive(Clone, Debug, PartialEq)]
pub struct Intersection {
    pub t: Scalar,
    pub o: Object,
}

impl View for Intersection {
    type V = IntersectionV;

    open spec fn view(&self) -> IntersectionV {
        IntersectionV { t: self.t@, o: self.o@ }
    }
}

impl Intersection {
    pub fn new(t: Scalar, o: Object) -> (r: Intersection)
        ensures
            r@ == (IntersectionV { t: t@, o: o@ }),
    {
        Intersection { t, o }
    }
}

} // verus!
