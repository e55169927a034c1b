//! Spheres, and the intersection of a ray with one.
use crate::fixed::{fx_add, fx_div, fx_mul, fx_neg, fx_sqrt, fx_sub, Fixed};
use crate::hittable::{hit_model, hit_record_spec, HitModel, HitRecord, Hittable};
use crate::material::{Surface, SurfaceModel};
use crate::ray::{ray_at, Ray, RayModel};
use crate::vec3::{v3_div, v3_dot, v3_length_squared, v3_sub, Point3, V3};
use core::ops::Neg;
use vstd::prelude::*;

verus! {

/// The mathematical model of a sphere.
pub struct SphereModel {
    pub center: V3,
    pub radius: int,
    pub material: SurfaceModel,
}

/// The smaller of the two solutions of `a t^2 + 2 half_b t + c = 0`, given
/// the square root `sqrtd` of the reduced discriminant.
pub open spec fn near_root(a: int, half_b: int, sqrtd: int) -> int {
    fx_div(fx_sub(fx_neg(half_b), sqrtd), a)
}

/// The larger of the two solutions.
pub open spec fn far_root(a: int, half_b: int, sqrtd: int) -> int {
    fx_div(fx_add(fx_neg(half_b), sqrtd), a)
}

/// The nearest root that lies in `[t_min, t_max]`: the smaller one if it
/// does, else the larger one if that one does.
pub open spec fn find_root_spec(a: int, half_b: int, t_min: int, t_max: int, sqrtd: int) -> Option<
    int,
> {
    let near = near_root(a, half_b, sqrtd);
    let far = far_root(a, half_b, sqrtd);
    if t_min <= near <= t_max {
        Some(near)
    } else if t_min <= far <= t_max {
        Some(far)
    } else {
        None
    }
}

/// The reduced discriminant of the quadratic for the ray `r` and the sphere
/// `s`: the ray meets the sphere's surface when it is not negative.
pub open spec fn sphere_discriminant(s: SphereModel, r: RayModel) -> int {
    let oc = v3_sub(r.origin, s.center);
    let a = v3_length_squared(r.direction);
    let half_b = v3_dot(oc, r.direction);
    let c = fx_sub(v3_length_squared(oc), fx_mul(s.radius, s.radius));
    fx_sub(fx_mul(half_b, half_b), fx_mul(a, c))
}

/// The parameter at which the ray `r` meets the sphere `s` within
/// `[t_min, t_max]`, nearest first.
pub open spec fn sphere_hit_t(s: SphereModel, r: RayModel, t_min: int, t_max: int) -> Option<int> {
    let oc = v3_sub(r.origin, s.center);
    let a = v3_length_squared(r.direction);
    let half_b = v3_dot(oc, r.direction);
    let discriminant = sphere_discriminant(s, r);
    if discriminant < 0 {
        None
    } else {
        find_root_spec(a, half_b, t_min, t_max, fx_sqrt(discriminant))
    }
}

/// The hit of the ray `r` on the sphere `s` at the parameter `t`. The
/// outward normal is the offset from the centre divided by the radius, so a
/// negative radius turns the sphere inside out.
pub open spec fn sphere_hit_at(s: SphereModel, r: RayModel, t: int) -> HitModel {
    let p = ray_at(r, t);
    let outward_normal = v3_div(v3_sub(p, s.center), s.radius);
    hit_record_spec(p, t, r, outward_normal, s.material)
}

/// The nearest hit of the ray `r` on the sphere `s` within `[t_min, t_max]`.
#[verifier::opaque]
pub open spec fn sphere_hit_spec(s: SphereModel, r: RayModel, t_min: int, t_max: int) -> Option<
    HitModel,
> {
    match sphere_hit_t(s, r, t_min, t_max) {
        Some(t) => Some(sphere_hit_at(s, r, t)),
        None => None,
    }
}

/// A sphere of one material. A negative radius turns its surface inside
/// out.
pub struct Sphere {
    pub center: Point3,
    pub radius: Fixed,
    pub material: Surface,
}

impl View for Sphere {
    type V = SphereModel;

    open spec fn view(&self) -> SphereModel {
        SphereModel { center: self.center@, radius: self.radius@, material: self.material@ }
    }
}

impl Hittable for Sphere {
    open spec fn hit_spec(&self, r: RayModel, t_min: int, t_max: int) -> Option<HitModel> {
        sphere_hit_spec(self@, r, t_min, t_max)
    }

    fn hit(&self, r: &Ray, t_min: Fixed, t_max: Fixed) -> (rec: Option<HitRecord>)
        ensures
            hit_model(rec) == sphere_hit_spec(self@, r@, t_min@, t_max@),
            rec matches Some(h) ==> h.material == self.material,
    {
        reveal(sphere_hit_spec);
        let oc = r.origin - self.center;
        let a = r.direction.length_squared();
        let half_b = oc.dot(&r.direction);
        let c = oc.length_squared() - self.radius * self.radius;

        let discriminant = half_b * half_b - a * c;
        if discriminant.is_negative() {
            return None;
        }
        let sqrtd = discriminant.sqrt();

        if let Some(t) = find_root_in_range(a, half_b, t_min, t_max, sqrtd) {
            let p = r.at(t);
            let outward_normal = (p - self.center) / self.radius;
            let rec = HitRecord::new(p, t, r, &outward_normal, self.material);
            return Some(rec);
        } else {
            return None;
        }
    }
}

/// Find the nearest root that lies in the acceptable range.
pub fn find_root_in_range(a: Fixed, half_b: Fixed, t_min: Fixed, t_max: Fixed, sqrtd: Fixed) -> (root:
    Option<Fixed>)
    ensures
        match root {
            Some(t) => find_root_spec(a@, half_b@, t_min@, t_max@, sqrtd@) == Some(t@),
            None => find_root_spec(a@, half_b@, t_min@, t_max@, sqrtd@) is None,
        },
        root matches Some(t) ==> t_min@ <= t@ <= t_max@,
{
    let root = (half_b.neg() - sqrtd) / a;
    if root.lt(t_min) || t_max.lt(root) {
        let root = (half_b.neg() + sqrtd) / a;
        if root.lt(t_min) || t_max.lt(root) {
            return None;
        }
        return Some(root);
    }
    Some(root)
}

} // verus!
