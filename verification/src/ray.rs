//! Rays: a starting point and a direction.
use crate::fixed::Fixed;
use crate::vec3::{v3_add, v3_scale, Point3, Vec3, V3};
use vstd::prelude::*;

verus! {

/// The mathematical model of a ray.
pub struct RayModel {
    pub origin: V3,
    pub direction: V3,
}

/// The point reached after travelling `t` along the ray: `origin + t * direction`.
pub open spec fn ray_at(r: RayModel, t: int) -> V3 {
    v3_add(r.origin, v3_scale(r.direction, t))
}

/// A ray: the points `origin + t * direction`.
#[derive(Debug, Copy, Clone, PartialEq)]
pub struct Ray {
    pub origin: Point3,
    pub direction: Vec3,
}

impl View for Ray {
    type V = RayModel;

    open spec fn view(&self) -> RayModel {
        RayModel { origin: self.origin@, direction: self.direction@ }
    }
}

impl Ray {
    pub fn new(origin: Point3, direction: Vec3) -> (r: Ray)
        ensures
            r.origin == origin,
            r.direction == direction,
    {
        Self { origin, direction }
    }

    pub fn origin(&self) -> (p: Point3)
        ensures
            p == self.origin,
    {
        self.origin
    }

    pub fn direction(&self) -> (d: Vec3)
        ensures
            d == self.direction,
    {
        self.direction
    }

    /// The point at parameter `t`.
    pub fn at(&self, t: Fixed) -> (p: Point3)
        ensures
            p@ == ray_at(self@, t@),
    {
        self.origin + t * self.direction
    }
}

} // verus!
