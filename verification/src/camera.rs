//! A thin-lens camera: from a place on the image to a ray into the scene.
use crate::diffusion::{in_unit_disk, random_in_unit_disk};
use crate::fixed::{fx_div, fx_mul, lemma_fx_mul_by_zero, Fixed, ONE_RAW};
use crate::ray::{Ray, RayModel};
use crate::vec3::{
    has_length, is_nearly_unit, v3_add, v3_cross, v3_div, v3_in_range, v3_length, v3_scale,
    v3_sub, v3_unit, Point3, Vec3, V3,
};
use rand::rngs::StdRng;
use vstd::prelude::*;

verus! {

/// The mathematical model of a camera.
pub struct CameraModel {
    pub origin: V3,
    pub lower_left_corner: V3,
    pub horizontal: V3,
    pub vertical: V3,
    pub u: V3,
    pub v: V3,
    pub w: V3,
    pub lens_radius: int,
}

/// The camera at `look_from` that looks at `look_at`, with `vup` pointing
/// up in the image. `half_height` is the tangent of half the vertical field
/// of view, so the image plane at distance one is `2 * half_height` high
/// and `aspect_ratio` times as wide; the plane in focus lies at
/// `focus_dist`, and the lens has the diameter `aperture`.
pub open spec fn camera_spec(
    look_from: V3,
    look_at: V3,
    vup: V3,
    half_height: int,
    aspect_ratio: int,
    aperture: int,
    focus_dist: int,
) -> CameraModel {
    let viewport_height = fx_mul(2 * ONE_RAW, half_height);
    let viewport_width = fx_mul(aspect_ratio, viewport_height);
    let w = v3_unit(v3_sub(look_from, look_at));
    let u = v3_unit(v3_cross(vup, w));
    let v = v3_cross(w, u);
    let horizontal = v3_scale(u, fx_mul(focus_dist, viewport_width));
    let vertical = v3_scale(v, fx_mul(focus_dist, viewport_height));
    let lower_left_corner = v3_sub(
        v3_sub(
            v3_sub(look_from, v3_div(horizontal, 2 * ONE_RAW)),
            v3_div(vertical, 2 * ONE_RAW),
        ),
        v3_scale(w, focus_dist),
    );
    CameraModel {
        origin: look_from,
        lower_left_corner,
        horizontal,
        vertical,
        u,
        v,
        w,
        lens_radius: fx_div(aperture, 2 * ONE_RAW),
    }
}

/// The ray through the place `(s, t)` of the image, both in `[0, 1]` from
/// the lower left corner, that starts on the lens at the point of the unit
/// disk `lens`.
pub open spec fn get_ray_spec(cam: CameraModel, s: int, t: int, lens: V3) -> RayModel {
    let rd = v3_scale(lens, cam.lens_radius);
    let offset = v3_add(v3_scale(cam.u, rd.x), v3_scale(cam.v, rd.y));
    RayModel {
        origin: v3_add(cam.origin, offset),
        direction: v3_sub(
            v3_sub(
                v3_add(
                    v3_add(cam.lower_left_corner, v3_scale(cam.horizontal, s)),
                    v3_scale(cam.vertical, t),
                ),
                cam.origin,
            ),
            offset,
        ),
    }
}

/// The direction from the camera to the place `(s, t)` of the image plane
/// in focus.
pub open spec fn direction_to(cam: CameraModel, s: int, t: int) -> V3 {
    v3_sub(
        v3_add(v3_add(cam.lower_left_corner, v3_scale(cam.horizontal, s)), v3_scale(cam.vertical, t)),
        cam.origin,
    )
}

/// A camera without an aperture is a pinhole camera: it has no lens, and
/// every ray starts where the camera stands, whatever point of the lens
/// was drawn.
pub proof fn lemma_pinhole(
    look_from: V3,
    look_at: V3,
    vup: V3,
    half_height: int,
    aspect_ratio: int,
    focus_dist: int,
    s: int,
    t: int,
    lens: V3,
)
    requires
        v3_in_range(look_from),
    ensures
        ({
            let cam = camera_spec(look_from, look_at, vup, half_height, aspect_ratio, 0, focus_dist);
            cam.lens_radius == 0 && get_ray_spec(cam, s, t, lens) == (RayModel {
                origin: look_from,
                direction: direction_to(cam, s, t),
            })
        }),
{
    let cam = camera_spec(look_from, look_at, vup, half_height, aspect_ratio, 0, focus_dist);
    assert(cam.lens_radius == 0);
    lemma_fx_mul_by_zero(lens.x);
    lemma_fx_mul_by_zero(lens.y);
    lemma_fx_mul_by_zero(cam.u.x);
    lemma_fx_mul_by_zero(cam.u.y);
    lemma_fx_mul_by_zero(cam.u.z);
    lemma_fx_mul_by_zero(cam.v.x);
    lemma_fx_mul_by_zero(cam.v.y);
    lemma_fx_mul_by_zero(cam.v.z);
}

/// A camera: where it stands, the corner and the sides of the image plane
/// in focus, its frame `u`, `v`, `w`, and the radius of its lens.
pub struct Camera {
    pub origin: Point3,
    pub lower_left_corner: Point3,
    pub horizontal: Vec3,
    pub vertical: Vec3,
    pub u: Vec3,
    pub v: Vec3,
    pub w: Vec3,
    pub lens_radius: Fixed,
}

impl View for Camera {
    type V = CameraModel;

    open spec fn view(&self) -> CameraModel {
        CameraModel {
            origin: self.origin@,
            lower_left_corner: self.lower_left_corner@,
            horizontal: self.horizontal@,
            vertical: self.vertical@,
            u: self.u@,
            v: self.v@,
            w: self.w@,
            lens_radius: self.lens_radius@,
        }
    }
}

impl Camera {
    /// The camera at `look_from` that looks at `look_at`, with `vup`
    /// pointing up in the image, where `half_height` is the tangent of half
    /// the vertical field of view.
    pub fn new(
        look_from: Point3,
        look_at: Point3,
        vup: Vec3,
        half_height: Fixed,
        aspect_ratio: Fixed,
        aperture: Fixed,
        focus_dist: Fixed,
    ) -> (cam: Camera)
        ensures
            cam@ == camera_spec(
                look_from@,
                look_at@,
                vup@,
                half_height@,
                aspect_ratio@,
                aperture@,
                focus_dist@,
            ),
            has_length(v3_sub(look_from@, look_at@)) ==> is_nearly_unit(
                cam@.w,
                v3_length(v3_sub(look_from@, look_at@)),
            ),
            has_length(v3_cross(vup@, cam@.w)) ==> is_nearly_unit(
                cam@.u,
                v3_length(v3_cross(vup@, cam@.w)),
            ),
    {
        let two = Fixed::from_int(2);
        let viewport_height = two * half_height;
        let viewport_width = aspect_ratio * viewport_height;

        let w = (look_from - look_at).unit_vector();
        let u = vup.cross(w).unit_vector();
        let v = w.cross(u);

        let origin = look_from;
        let horizontal = focus_dist * viewport_width * u;
        let vertical = focus_dist * viewport_height * v;
        let lower_left_corner = origin - horizontal / two - vertical / two - focus_dist * w;

        Camera {
            origin,
            lower_left_corner,
            horizontal,
            vertical,
            u,
            v,
            w,
            lens_radius: aperture / two,
        }
    }

    /// The ray through `(s, t)` that starts at the point `lens` of the lens.
    pub fn get_ray_through(&self, s: Fixed, t: Fixed, lens: Vec3) -> (r: Ray)
        ensures
            r@ == get_ray_spec(self@, s@, t@, lens@),
    {
        let rd = self.lens_radius * lens;
        let offset = self.u * rd.x + self.v * rd.y;
        Ray::new(
            self.origin + offset,
            self.lower_left_corner + s * self.horizontal + t * self.vertical - self.origin
                - offset,
        )
    }

    /// The ray through `(s, t)` that starts at a random point of the lens.
    pub fn get_ray(&self, s: Fixed, t: Fixed, rng: &mut StdRng) -> (r: Ray)
        ensures
            exists|lens: V3| in_unit_disk(lens) && r@ == get_ray_spec(self@, s@, t@, lens),
    {
        let lens = random_in_unit_disk(rng);
        self.get_ray_through(s, t, lens)
    }
}

} // verus!
