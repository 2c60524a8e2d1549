//! Rays, hit records, and the two scattering schemes.

use vstd::prelude::*;

use crate::fixed::{fx_mul, fx_mul_s, FX_ONE};
use crate::rng::rand_in_range;
use crate::vec3::{dot_s, in_unit_box, vadd_s, vnorm_s, vscale_s, vsub_s, Vec3};

verus! {

/// A half-line: origin and direction. Directions produced by this crate are
/// normalised into the unit box, but the type does not require it.
#[derive(Clone, Copy, Debug)]
pub struct Ray {
    pub pos: Vec3,
    pub dir: Vec3,
}

/// What the intersection kernel reports about the nearest hit: the surface
/// normal (oriented against the incoming ray), the hit position, the ray
/// parameter, the remaining bounce budget, and the ray that hit.
#[derive(Clone, Copy, Debug)]
pub struct HitResult {
    pub normal: Vec3,
    pub pos: Vec3,
    pub t: i64,
    pub bounce: u32,
    pub original_ray: Ray,
}

/// The mirror direction of `d` about the oriented normal `n`:
/// `d - 2 (d·n) n` in saturating fixed point.
pub open spec fn reflect_dir_s(d: (int, int, int), n: (int, int, int)) -> (int, int, int) {
    vsub_s(d, vscale_s(n, fx_mul_s(2 * (FX_ONE as int), dot_s(d, n))))
}

/// A normalised vector drawn from a uniform cube sample: every call returns
/// the normalisation of some vector of the unit box.
pub(crate) fn random_unit_vector() -> (r: Vec3)
    ensures
        in_unit_box(r@),
        exists|v: (int, int, int)| in_unit_box(v) && r@ == vnorm_s(v),
{
    let x = rand_in_range(-FX_ONE, FX_ONE);
    let y = rand_in_range(-FX_ONE, FX_ONE);
    let z = rand_in_range(-FX_ONE, FX_ONE);
    let v = Vec3 { x, y, z };
    let r = v.normalized();
    proof {
        assert(in_unit_box(v@) && r@ == vnorm_s(v@));
    }
    r
}

impl Ray {
    /// Generates a scattered ray in the hemisphere of the normal, by the
    /// Lambertian scheme: the direction is the normal plus a normalised
    /// random vector, the origin is the hit position.
    pub fn scatter_ray(normal: Vec3, pos: Vec3) -> (r: Ray)
        ensures
            r.pos == pos,
            exists|v: (int, int, int)|
                in_unit_box(v) && r.dir@ == vadd_s(normal@, vnorm_s(v)),
    {
        let u = random_unit_vector();
        let r = Ray { pos, dir: normal.add(u) };
        proof {
            let v = choose|v: (int, int, int)| in_unit_box(v) && u@ == vnorm_s(v);
            assert(in_unit_box(v) && r.dir@ == vadd_s(normal@, vnorm_s(v)));
        }
        r
    }

    /// Generates the mirror reflection of this ray about the normal,
    /// originating at the hit position.
    pub fn reflect_ray(self, normal: Vec3, pos: Vec3) -> (r: Ray)
        ensures
            r.pos == pos,
            r.dir@ == reflect_dir_s(self.dir@, normal@),
    {
        let c = self.dir.dot(normal);
        let f = fx_mul(2 * FX_ONE, c);
        Ray { pos, dir: self.dir.sub(normal.scale(f)) }
    }
}

} // verus!
