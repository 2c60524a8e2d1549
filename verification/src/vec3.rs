//! Three-component fixed-point vectors, used for positions, directions and
//! colours. The view of a vector is the triple of its components as
//! mathematical integers, and every operation is specified exactly over the
//! saturating fixed-point scalar operations of [`crate::fixed`].

use vstd::prelude::*;

use crate::fixed::{
    clamp_s, fx_add, fx_add_s, fx_div, fx_div_s, fx_mul, fx_mul_s, fx_neg, fx_neg_s, fx_sqrt,
    fx_sqrt_s, fx_sub, fx_sub_s, lemma_fx_square_nonneg, FX_ONE,
};

verus! {

/// A vector of three fixed-point components.
#[derive(Clone, Copy, Debug, PartialEq, Eq, Structural)]
pub struct Vec3 {
    pub x: i64,
    pub y: i64,
    pub z: i64,
}

impl View for Vec3 {
    type V = (int, int, int);

    open spec fn view(&self) -> (int, int, int) {
        (self.x as int, self.y as int, self.z as int)
    }
}

/// Component-wise saturating addition.
pub open spec fn vadd_s(a: (int, int, int), b: (int, int, int)) -> (int, int, int) {
    (fx_add_s(a.0, b.0), fx_add_s(a.1, b.1), fx_add_s(a.2, b.2))
}

/// Component-wise saturating subtraction.
pub open spec fn vsub_s(a: (int, int, int), b: (int, int, int)) -> (int, int, int) {
    (fx_sub_s(a.0, b.0), fx_sub_s(a.1, b.1), fx_sub_s(a.2, b.2))
}

/// Component-wise saturating negation.
pub open spec fn vneg_s(a: (int, int, int)) -> (int, int, int) {
    (fx_neg_s(a.0), fx_neg_s(a.1), fx_neg_s(a.2))
}

/// Scaling by a fixed-point scalar.
pub open spec fn vscale_s(a: (int, int, int), s: int) -> (int, int, int) {
    (fx_mul_s(a.0, s), fx_mul_s(a.1, s), fx_mul_s(a.2, s))
}

/// Component-wise division by a positive fixed-point scalar.
pub open spec fn vdiv_s(a: (int, int, int), d: int) -> (int, int, int)
    recommends
        d > 0,
{
    (fx_div_s(a.0, d), fx_div_s(a.1, d), fx_div_s(a.2, d))
}

/// The Hadamard (component-wise) product, used to attenuate colours.
pub open spec fn vhad_s(a: (int, int, int), b: (int, int, int)) -> (int, int, int) {
    (fx_mul_s(a.0, b.0), fx_mul_s(a.1, b.1), fx_mul_s(a.2, b.2))
}

/// The fixed-point dot product.
pub open spec fn dot_s(a: (int, int, int), b: (int, int, int)) -> int {
    fx_add_s(fx_add_s(fx_mul_s(a.0, b.0), fx_mul_s(a.1, b.1)), fx_mul_s(a.2, b.2))
}

/// The fixed-point cross product.
pub open spec fn cross_s(a: (int, int, int), b: (int, int, int)) -> (int, int, int) {
    (
        fx_sub_s(fx_mul_s(a.1, b.2), fx_mul_s(a.2, b.1)),
        fx_sub_s(fx_mul_s(a.2, b.0), fx_mul_s(a.0, b.2)),
        fx_sub_s(fx_mul_s(a.0, b.1), fx_mul_s(a.1, b.0)),
    )
}

/// Every component lies within one fixed-point unit of zero: the box that
/// normalised vectors are guaranteed to inhabit.
pub open spec fn in_unit_box(a: (int, int, int)) -> bool {
    &&& -(FX_ONE as int) <= a.0 <= FX_ONE as int
    &&& -(FX_ONE as int) <= a.1 <= FX_ONE as int
    &&& -(FX_ONE as int) <= a.2 <= FX_ONE as int
}

/// Normalisation: divide by the fixed-point length and clamp each component
/// into the unit box; the zero vector (whose length rounds to zero) maps to
/// the zero vector.
pub open spec fn vnorm_s(a: (int, int, int)) -> (int, int, int) {
    let l = fx_sqrt_s(dot_s(a, a));
    if l <= 0 {
        (0, 0, 0)
    } else {
        (
            clamp_s(fx_div_s(a.0, l), -(FX_ONE as int), FX_ONE as int),
            clamp_s(fx_div_s(a.1, l), -(FX_ONE as int), FX_ONE as int),
            clamp_s(fx_div_s(a.2, l), -(FX_ONE as int), FX_ONE as int),
        )
    }
}

/// A dot product of a vector with itself is never negative.
pub proof fn lemma_dot_self_nonneg(a: (int, int, int))
    ensures
        dot_s(a, a) >= 0,
{
    lemma_fx_square_nonneg(a.0);
    lemma_fx_square_nonneg(a.1);
    lemma_fx_square_nonneg(a.2);
}

/// Negating a vector negates its dot product with any other vector.
pub proof fn lemma_dot_neg(n: (int, int, int), d: (int, int, int))
    requires
        -(crate::fixed::FX_MAX as int) <= n.0 <= crate::fixed::FX_MAX as int,
        -(crate::fixed::FX_MAX as int) <= n.1 <= crate::fixed::FX_MAX as int,
        -(crate::fixed::FX_MAX as int) <= n.2 <= crate::fixed::FX_MAX as int,
    ensures
        dot_s(vneg_s(n), d) == fx_neg_s(dot_s(n, d)),
{
    crate::fixed::lemma_fx_neg_mul(n.0, d.0);
    crate::fixed::lemma_fx_neg_mul(n.1, d.1);
    crate::fixed::lemma_fx_neg_mul(n.2, d.2);
    let p = fx_mul_s(n.0, d.0);
    let q = fx_mul_s(n.1, d.1);
    let r = fx_mul_s(n.2, d.2);
    crate::fixed::lemma_sat64_bounds(crate::fixed::tdiv(n.0 * d.0, FX_ONE as int));
    crate::fixed::lemma_sat64_bounds(crate::fixed::tdiv(n.1 * d.1, FX_ONE as int));
    crate::fixed::lemma_sat64_bounds(crate::fixed::tdiv(n.2 * d.2, FX_ONE as int));
    crate::fixed::lemma_fx_add_neg(p, q);
    crate::fixed::lemma_sat64_bounds(p + q);
    crate::fixed::lemma_fx_add_neg(fx_add_s(p, q), r);
}

/// Builds a vector from its components.
pub fn vec3(x: i64, y: i64, z: i64) -> (r: Vec3)
    ensures
        r@ == (x as int, y as int, z as int),
{
    Vec3 { x, y, z }
}

impl Vec3 {
    /// The zero vector, which also stands for the colour black.
    pub fn zero() -> (r: Vec3)
        ensures
            r@ == (0int, 0int, 0int),
    {
        Vec3 { x: 0, y: 0, z: 0 }
    }

    /// Component-wise saturating addition.
    pub fn add(self, other: Vec3) -> (r: Vec3)
        ensures
            r@ == vadd_s(self@, other@),
    {
        Vec3 { x: fx_add(self.x, other.x), y: fx_add(self.y, other.y), z: fx_add(
            self.z,
            other.z,
        ) }
    }

    /// Component-wise saturating subtraction.
    pub fn sub(self, other: Vec3) -> (r: Vec3)
        ensures
            r@ == vsub_s(self@, other@),
    {
        Vec3 { x: fx_sub(self.x, other.x), y: fx_sub(self.y, other.y), z: fx_sub(
            self.z,
            other.z,
        ) }
    }

    /// Component-wise saturating negation.
    pub fn neg(self) -> (r: Vec3)
        ensures
            r@ == vneg_s(self@),
    {
        Vec3 { x: fx_neg(self.x), y: fx_neg(self.y), z: fx_neg(self.z) }
    }

    /// Scaling by a fixed-point scalar.
    pub fn scale(self, s: i64) -> (r: Vec3)
        ensures
            r@ == vscale_s(self@, s as int),
    {
        Vec3 { x: fx_mul(self.x, s), y: fx_mul(self.y, s), z: fx_mul(self.z, s) }
    }

    /// Component-wise division by a positive fixed-point scalar.
    pub fn div_by(self, d: i64) -> (r: Vec3)
        requires
            d > 0,
        ensures
            r@ == vdiv_s(self@, d as int),
    {
        Vec3 { x: fx_div(self.x, d), y: fx_div(self.y, d), z: fx_div(self.z, d) }
    }

    /// The Hadamard (component-wise) product.
    pub fn hadamard(self, other: Vec3) -> (r: Vec3)
        ensures
            r@ == vhad_s(self@, other@),
    {
        Vec3 { x: fx_mul(self.x, other.x), y: fx_mul(self.y, other.y), z: fx_mul(
            self.z,
            other.z,
        ) }
    }

    /// The fixed-point dot product.
    pub fn dot(self, other: Vec3) -> (r: i64)
        ensures
            r as int == dot_s(self@, other@),
    {
        fx_add(fx_add(fx_mul(self.x, other.x), fx_mul(self.y, other.y)), fx_mul(self.z, other.z))
    }

    /// The squared fixed-point length.
    pub fn length_squared(self) -> (r: i64)
        ensures
            r as int == dot_s(self@, self@),
            r >= 0,
    {
        proof {
            lemma_dot_self_nonneg(self@);
        }
        self.dot(self)
    }

    /// The fixed-point length.
    pub fn length(self) -> (r: i64)
        ensures
            r as int == fx_sqrt_s(dot_s(self@, self@)),
            r >= 0,
    {
        let lsq = self.length_squared();
        fx_sqrt(lsq)
    }

    /// The fixed-point cross product.
    pub fn cross(self, other: Vec3) -> (r: Vec3)
        ensures
            r@ == cross_s(self@, other@),
    {
        Vec3 {
            x: fx_sub(fx_mul(self.y, other.z), fx_mul(self.z, other.y)),
            y: fx_sub(fx_mul(self.z, other.x), fx_mul(self.x, other.z)),
            z: fx_sub(fx_mul(self.x, other.y), fx_mul(self.y, other.x)),
        }
    }

    /// Normalisation into the unit box; a degenerate vector becomes zero.
    pub fn normalized(self) -> (r: Vec3)
        ensures
            r@ == vnorm_s(self@),
            in_unit_box(r@),
    {
        let l = self.length();
        if l <= 0 {
            Vec3 { x: 0, y: 0, z: 0 }
        } else {
            Vec3 {
                x: crate::fixed::fx_clamp(fx_div(self.x, l), -FX_ONE, FX_ONE),
                y: crate::fixed::fx_clamp(fx_div(self.y, l), -FX_ONE, FX_ONE),
                z: crate::fixed::fx_clamp(fx_div(self.z, l), -FX_ONE, FX_ONE),
            }
        }
    }
}

} // verus!
