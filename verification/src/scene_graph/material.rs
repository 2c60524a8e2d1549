//! Materials and their scattering behaviour.
//!
//! A material is a closed sum of the supported kinds, dispatched by
//! exhaustive matching; every material is a plain value and copies freely
//! across render tasks.

use vstd::prelude::*;

use crate::fixed::FX_ONE;
use crate::ray::{reflect_dir_s, HitResult, Ray};
use crate::vec3::{in_unit_box, vadd_s, vnorm_s, Vec3};

verus! {

/// `d` is a direction the material may scatter into, for an incoming ray
/// direction and an oriented surface normal: any Lambertian direction (the
/// normal plus a normalised cube sample) for a diffuse surface, and
/// exactly the mirror direction for a metal one.
pub open spec fn scatter_dir_admissible(
    mat: Material,
    incoming: (int, int, int),
    normal: (int, int, int),
    d: (int, int, int),
) -> bool {
    match mat {
        Material::Diffuse(_) => exists|v: (int, int, int)|
            in_unit_box(v) && d == vadd_s(normal, vnorm_s(v)),
        Material::Metal(_) => d == reflect_dir_s(incoming, normal),
    }
}

/// A material that uses Lambertian reflectance for diffusion.
#[derive(Clone, Copy, Debug)]
pub struct Diffuse {
    pub albedo: Vec3,
}

/// A material that reflects light as a metal.
#[derive(Clone, Copy, Debug)]
pub struct Metal {
    pub albedo: Vec3,
}

/// A material: how a surface scatters an incoming ray.
#[derive(Clone, Copy, Debug)]
pub enum Material {
    Diffuse(Diffuse),
    Metal(Metal),
}

impl Diffuse {
    /// Scatters into the normal's hemisphere by the Lambertian scheme.
    pub fn scatter(&self, hit_result: &HitResult) -> (r: Option<(Ray, Vec3)>)
        ensures
            r matches Some((sray, att)) && att == self.albedo && sray.pos == hit_result.pos
                && (exists|v: (int, int, int)|
                in_unit_box(v) && sray.dir@ == vadd_s(hit_result.normal@, vnorm_s(v))),
    {
        Some((Ray::scatter_ray(hit_result.normal, hit_result.pos), self.albedo))
    }
}

impl Metal {
    /// Scatters as the mirror reflection of the incoming ray.
    pub fn scatter(&self, hit_result: &HitResult) -> (r: Option<(Ray, Vec3)>)
        ensures
            r matches Some((sray, att)) && att == self.albedo && sray.pos == hit_result.pos
                && sray.dir@ == reflect_dir_s(
                hit_result.original_ray.dir@,
                hit_result.normal@,
            ),
    {
        Some((
            hit_result.original_ray.reflect_ray(hit_result.normal, hit_result.pos),
            self.albedo,
        ))
    }
}

impl Material {
    /// The material's fractional reflectance per colour channel.
    pub open spec fn albedo_s(self) -> (int, int, int) {
        match self {
            Material::Diffuse(d) => d.albedo@,
            Material::Metal(m) => m.albedo@,
        }
    }

    /// Albedo channels lie in `[0, 1]`: the material reflects no more light
    /// than it receives.
    pub open spec fn wf(self) -> bool {
        &&& 0 <= self.albedo_s().0 <= FX_ONE as int
        &&& 0 <= self.albedo_s().1 <= FX_ONE as int
        &&& 0 <= self.albedo_s().2 <= FX_ONE as int
    }

    /// How a ray scatters when a primitive with this material is hit:
    /// the scattered ray and the attenuation, or nothing for full
    /// absorption (no material today absorbs fully).
    pub fn scatter(&self, hit_result: &HitResult) -> (r: Option<(Ray, Vec3)>)
        ensures
            r is Some,
            r matches Some((sray, att)) ==> att@ == self.albedo_s() && sray.pos
                == hit_result.pos && scatter_dir_admissible(
                *self,
                hit_result.original_ray.dir@,
                hit_result.normal@,
                sray.dir@,
            ),
            self matches Material::Metal(_) ==> (r matches Some((sray, att)) ==> sray.dir@
                == reflect_dir_s(hit_result.original_ray.dir@, hit_result.normal@)),
    {
        match self {
            Material::Diffuse(d) => d.scatter(hit_result),
            Material::Metal(m) => m.scatter(hit_result),
        }
    }
}

} // verus!
