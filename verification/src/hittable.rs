//! What a ray can hit, and the record of a hit.
use crate::fixed::{fx_add, fx_mul, lemma_fx_mul_neg, lemma_sat_neg, Fixed};
use crate::material::{Surface, SurfaceModel};
use crate::ray::{Ray, RayModel};
use crate::vec3::{v3_dot, v3_in_range, v3_neg, Point3, Vec3, V3};
use core::ops::Neg;
use vstd::prelude::*;

verus! {

/// The mathematical model of a hit.
pub struct HitModel {
    pub p: V3,
    pub normal: V3,
    pub material: SurfaceModel,
    pub t: int,
    pub front_face: bool,
}

/// The record of a ray `r` that meets a surface at `p`, at parameter `t`, where
/// the surface's normal pointing outward is `outward_normal`. The ray meets
/// the front face when it runs against that normal; the recorded normal is
/// the one of the two that points against the ray.
pub open spec fn hit_record_spec(
    p: V3,
    t: int,
    r: RayModel,
    outward_normal: V3,
    material: SurfaceModel,
) -> HitModel {
    let front_face = v3_dot(r.direction, outward_normal) < 0;
    HitModel {
        p,
        normal: if front_face {
            outward_normal
        } else {
            v3_neg(outward_normal)
        },
        material,
        t,
        front_face,
    }
}

/// The dot product with a negated vector is the negated dot product.
pub proof fn lemma_dot_neg(a: V3, b: V3)
    requires
        v3_in_range(b),
    ensures
        v3_dot(a, v3_neg(b)) == -v3_dot(a, b),
{
    lemma_fx_mul_neg(a.x, b.x);
    lemma_fx_mul_neg(a.y, b.y);
    lemma_fx_mul_neg(a.z, b.z);
    let m1 = fx_mul(a.x, b.x);
    let m2 = fx_mul(a.y, b.y);
    lemma_sat_neg(m1 + m2);
    lemma_sat_neg(fx_add(m1, m2) + fx_mul(a.z, b.z));
}

/// The normal of a hit never points along the ray.
pub proof fn lemma_normal_opposes_ray(
    p: V3,
    t: int,
    r: RayModel,
    outward_normal: V3,
    material: SurfaceModel,
)
    requires
        v3_in_range(outward_normal),
    ensures
        v3_dot(r.direction, hit_record_spec(p, t, r, outward_normal, material).normal) <= 0,
{
    lemma_dot_neg(r.direction, outward_normal);
}

/// Where a ray met a surface: the point, the normal there that points
/// against the ray, the material, the ray's parameter, and whether the ray
/// came from outside.
pub struct HitRecord {
    pub p: Point3,
    pub normal: Vec3,
    pub material: Surface,
    pub t: Fixed,
    pub front_face: bool,
}

impl View for HitRecord {
    type V = HitModel;

    open spec fn view(&self) -> HitModel {
        HitModel {
            p: self.p@,
            normal: self.normal@,
            material: self.material@,
            t: self.t@,
            front_face: self.front_face,
        }
    }
}

/// The model of what an intersection query returned.
pub open spec fn hit_model(rec: Option<HitRecord>) -> Option<HitModel> {
    match rec {
        Some(h) => Some(h@),
        None => None,
    }
}

impl HitRecord {
    /// The record of the ray `r` meeting a surface at `p`, at the parameter
    /// `t`, where the surface's outward normal is `outward_normal`.
    pub fn new(p: Point3, t: Fixed, r: &Ray, outward_normal: &Vec3, material: Surface) -> (rec:
        HitRecord)
        ensures
            rec@ == hit_record_spec(p@, t@, r@, outward_normal@, material@),
            rec.material == material,
            rec.front_face == (v3_dot(r@.direction, outward_normal@) < 0),
            v3_dot(r@.direction, rec@.normal) <= 0,
    {
        proof {
            use_type_invariant(&outward_normal.x);
            use_type_invariant(&outward_normal.y);
            use_type_invariant(&outward_normal.z);
            lemma_normal_opposes_ray(p@, t@, r@, outward_normal@, material@);
        }
        let front_face = r.direction.dot(outward_normal).is_negative();
        let normal = if front_face {
            *outward_normal
        } else {
            outward_normal.neg()
        };
        Self { p, normal, t, front_face, material }
    }
}

/// Anything a ray can intersect.
pub trait Hittable {
    /// The hit that `hit` reports for a ray and a window of parameters.
    spec fn hit_spec(&self, r: RayModel, t_min: int, t_max: int) -> Option<HitModel>;

    /// The nearest intersection of `r` with the object whose parameter lies
    /// in `[t_min, t_max]`, if there is one.
    fn hit(&self, r: &Ray, t_min: Fixed, t_max: Fixed) -> (rec: Option<HitRecord>)
        ensures
            hit_model(rec) == self.hit_spec(r@, t_min@, t_max@),
            rec matches Some(h) ==> t_min@ <= h@.t <= t_max@ && v3_dot(r@.direction, h@.normal)
                <= 0,
    ;
}

} // verus!
