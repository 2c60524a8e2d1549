//! Geometric primitives.

use vstd::prelude::*;

use crate::vec3::Vec3;

verus! {

/// A primitive shape. Spheres are the one variant today; the intersection
/// kernel dispatches on the variant, so further shapes slot in beside it.
#[derive(Clone, Copy, Debug)]
pub enum Prim {
    Sphere { pos: Vec3, radius: i64 },
}

impl Prim {
    /// The centre of the primitive.
    pub open spec fn center_s(self) -> (int, int, int) {
        match self {
            Prim::Sphere { pos, .. } => pos@,
        }
    }

    /// The radius of the primitive.
    pub open spec fn radius_s(self) -> int {
        match self {
            Prim::Sphere { radius, .. } => radius as int,
        }
    }
}

} // verus!
