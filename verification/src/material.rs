//! Surface materials: how a surface scatters the light that reaches it.
//!
//! Scattering is random. Each material therefore comes in two parts: a
//! function of the incoming ray, the hit and a [`Sample`] of random values,
//! which is stated exactly, and a method that draws the sample.
use crate::color::{Color, Rgb};
use crate::diffusion::{in_unit_sphere, random_fraction, random_in_unit_sphere};
use crate::fixed::{
    fx_abs, fx_add, fx_div, fx_min, fx_mul, fx_neg, fx_pow5, fx_sqrt, fx_sub,
    lemma_fx_div_within_one, lemma_fx_mul_neg, lemma_fx_mul_of_shares, Fixed, MAX_RAW, ONE_RAW,
};
use crate::hittable::{HitModel, HitRecord};
use crate::ray::{Ray, RayModel};
use crate::vec3::{
    v3_add, v3_dot, v3_length_squared, v3_near_zero, v3_neg, v3_scale, v3_sub, v3_unit, Vec3, V3,
};
use core::ops::Neg;
use rand::rngs::StdRng;
use vstd::prelude::*;

verus! {

/// The mathematical model of a material.
pub enum SurfaceModel {
    Lambertian { albedo: Rgb },
    Metal { albedo: Rgb, fuzz: int },
    Dielectric { ir: int },
}

/// The mathematical model of a scattered ray and its attenuation.
pub struct ScatterModel {
    pub attenuation: Rgb,
    pub scattered: RayModel,
}

/// The mathematical model of the random values of one scattering.
pub struct SampleModel {
    pub in_sphere: V3,
    pub chance: int,
}

/// Whether `sample` can have been drawn: a point inside the unit sphere and
/// a number in `[0, 1)`.
pub open spec fn sample_valid(sample: SampleModel) -> bool {
    in_unit_sphere(sample.in_sphere) && 0 <= sample.chance < ONE_RAW
}

/// All of the light.
pub open spec fn rgb_white() -> Rgb {
    Rgb { r: ONE_RAW as int, g: ONE_RAW as int, b: ONE_RAW as int }
}

/// The mirror image of `v` at a surface with normal `n`: `v - 2 (v . n) n`.
pub open spec fn reflect_spec(v: V3, n: V3) -> V3 {
    v3_sub(v, v3_scale(n, fx_mul(2 * ONE_RAW, v3_dot(v, n))))
}

/// The direction of the unit vector `uv` after it crosses a surface with
/// normal `n` between media whose indices of refraction are in the ratio
/// `etai_over_etat`, by Snell's law.
pub open spec fn refract_spec(uv: V3, n: V3, etai_over_etat: int) -> V3 {
    let cos_theta = fx_min(v3_dot(v3_neg(uv), n), ONE_RAW as int);
    let r_out_perp = v3_scale(v3_add(uv, v3_scale(n, cos_theta)), etai_over_etat);
    let r_out_parallel = v3_scale(
        n,
        fx_neg(fx_sqrt(fx_abs(fx_sub(ONE_RAW as int, v3_length_squared(r_out_perp))))),
    );
    v3_add(r_out_perp, r_out_parallel)
}

/// Schlick's approximation of the share of light that glass reflects.
pub open spec fn reflectance_spec(cosine: int, ref_idx: int) -> int {
    let r0 = fx_div(fx_sub(ONE_RAW as int, ref_idx), fx_add(ONE_RAW as int, ref_idx));
    let r0 = fx_mul(r0, r0);
    fx_add(r0, fx_mul(fx_sub(ONE_RAW as int, r0), fx_pow5(fx_sub(ONE_RAW as int, cosine))))
}

/// A diffuse surface scatters along the normal plus a random direction, or
/// along the normal where the two cancel; it never absorbs.
pub open spec fn lambertian_scatter(albedo: Rgb, rec: HitModel, sample: SampleModel) -> Option<
    ScatterModel,
> {
    let scatter_direction = v3_add(rec.normal, v3_unit(sample.in_sphere));
    let direction = if v3_near_zero(scatter_direction) {
        rec.normal
    } else {
        scatter_direction
    };
    Some(ScatterModel { attenuation: albedo, scattered: RayModel { origin: rec.p, direction } })
}

/// The direction in which a metal sends a ray: its mirror image, moved by
/// `fuzz` times a random point inside the unit sphere.
pub open spec fn metal_direction(fuzz: int, r_in: RayModel, rec: HitModel, sample: SampleModel) -> V3 {
    v3_add(reflect_spec(v3_unit(r_in.direction), rec.normal), v3_scale(sample.in_sphere, fuzz))
}

/// A metal scatters a ray where the direction found points away from the
/// surface, and absorbs it otherwise.
pub open spec fn metal_scatter(
    albedo: Rgb,
    fuzz: int,
    r_in: RayModel,
    rec: HitModel,
    sample: SampleModel,
) -> Option<ScatterModel> {
    let direction = metal_direction(fuzz, r_in, rec, sample);
    if v3_dot(direction, rec.normal) > 0 {
        Some(ScatterModel { attenuation: albedo, scattered: RayModel { origin: rec.p, direction } })
    } else {
        None
    }
}

/// The ratio of the indices of refraction that a ray meets: `1 / ir` where
/// it enters the glass, `ir` where it leaves.
pub open spec fn refraction_ratio(ir: int, front_face: bool) -> int {
    if front_face {
        fx_div(ONE_RAW as int, ir)
    } else {
        ir
    }
}

/// Whether glass reflects the ray: always where Snell's law has no
/// solution, else with the probability that Schlick's approximation gives.
pub open spec fn dielectric_reflects(ir: int, r_in: RayModel, rec: HitModel, sample: SampleModel) -> bool {
    let ratio = refraction_ratio(ir, rec.front_face);
    let unit_direction = v3_unit(r_in.direction);
    let cos_theta = fx_min(v3_dot(v3_neg(unit_direction), rec.normal), ONE_RAW as int);
    let sin_theta = fx_sqrt(fx_sub(ONE_RAW as int, fx_mul(cos_theta, cos_theta)));
    fx_mul(ratio, sin_theta) > ONE_RAW || reflectance_spec(cos_theta, ratio) > sample.chance
}

/// Glass reflects or refracts every ray and absorbs nothing.
pub open spec fn dielectric_scatter(ir: int, r_in: RayModel, rec: HitModel, sample: SampleModel) -> Option<
    ScatterModel,
> {
    let unit_direction = v3_unit(r_in.direction);
    let direction = if dielectric_reflects(ir, r_in, rec, sample) {
        reflect_spec(unit_direction, rec.normal)
    } else {
        refract_spec(unit_direction, rec.normal, refraction_ratio(ir, rec.front_face))
    };
    Some(
        ScatterModel { attenuation: rgb_white(), scattered: RayModel { origin: rec.p, direction } },
    )
}

/// What a surface of material `m` does to the ray `r_in` that hits it as
/// `rec` records, given the random values of `sample`.
pub open spec fn surface_scatter(m: SurfaceModel, r_in: RayModel, rec: HitModel, sample: SampleModel) -> Option<
    ScatterModel,
> {
    match m {
        SurfaceModel::Lambertian { albedo } => lambertian_scatter(albedo, rec, sample),
        SurfaceModel::Metal { albedo, fuzz } => metal_scatter(albedo, fuzz, r_in, rec, sample),
        SurfaceModel::Dielectric { ir } => dielectric_scatter(ir, r_in, rec, sample),
    }
}

/// What a metal scatters keeps the metal's colour, and a metal absorbs a
/// ray exactly when the direction found does not point away from the
/// surface.
pub proof fn lemma_metal_scatter(
    albedo: Rgb,
    fuzz: int,
    r_in: RayModel,
    rec: HitModel,
    sample: SampleModel,
)
    ensures
        metal_scatter(albedo, fuzz, r_in, rec, sample) matches Some(s) ==> s.attenuation == albedo
            && s.scattered.origin == rec.p,
        metal_scatter(albedo, fuzz, r_in, rec, sample) is None <==> v3_dot(
            metal_direction(fuzz, r_in, rec, sample),
            rec.normal,
        ) <= 0,
{
}

/// The share of light that glass reflects is a share: it lies between
/// zero and one, for every angle of incidence and every ratio of indices
/// that is not negative.
pub proof fn lemma_reflectance_is_a_share(cosine: int, ref_idx: int)
    requires
        0 <= cosine <= ONE_RAW,
        0 <= ref_idx <= MAX_RAW,
    ensures
        0 <= reflectance_spec(cosine, ref_idx) <= ONE_RAW,
{
    let one = ONE_RAW as int;
    let over = fx_sub(one, ref_idx);
    let under = fx_add(one, ref_idx);
    let r = fx_div(over, under);
    assert(-one <= r <= one) by {
        lemma_fx_div_within_one(over, under);
    }
    let r0 = fx_mul(r, r);
    assert(0 <= r0 <= one) by {
        lemma_fx_mul_of_shares(if r < 0 { -r } else { r }, if r < 0 { -r } else { r });
        lemma_fx_mul_neg(r, r);
        lemma_fx_mul_neg(-r, r);
    }
    let x = fx_sub(one, cosine);
    let x2 = fx_mul(x, x);
    lemma_fx_mul_of_shares(x, x);
    let x4 = fx_mul(x2, x2);
    lemma_fx_mul_of_shares(x2, x2);
    let x5 = fx_mul(x4, x);
    lemma_fx_mul_of_shares(x4, x);
    assert(x5 == fx_pow5(x));
    let rest = fx_sub(one, r0);
    lemma_fx_mul_of_shares(rest, x5);
}

/// With an index of refraction of one the ratio is one on both faces:
/// such glass does not bend a ray that it refracts.
pub proof fn lemma_refraction_ratio_of_one(front_face: bool)
    ensures
        refraction_ratio(ONE_RAW as int, front_face) == ONE_RAW,
{
    assert(ONE_RAW * ONE_RAW / (ONE_RAW as int) == ONE_RAW) by (nonlinear_arith)
        requires
            ONE_RAW == 0x1_0000_0000,
    ;
}

/// The random values that one scattering may use.
#[derive(Debug, Copy, Clone)]
pub struct Sample {
    /// A point inside the unit sphere.
    pub in_sphere: Vec3,
    /// A number in `[0, 1)`.
    pub chance: Fixed,
}

impl View for Sample {
    type V = SampleModel;

    open spec fn view(&self) -> SampleModel {
        SampleModel { in_sphere: self.in_sphere@, chance: self.chance@ }
    }
}

/// A scattered ray, and how much of each colour it keeps.
pub struct Scatter {
    pub attenuation: Color,
    pub scattered: Ray,
}

impl View for Scatter {
    type V = ScatterModel;

    open spec fn view(&self) -> ScatterModel {
        ScatterModel { attenuation: self.attenuation@, scattered: self.scattered@ }
    }
}

/// The model of what a material returned.
pub open spec fn scatter_model(s: Option<Scatter>) -> Option<ScatterModel> {
    match s {
        Some(s) => Some(s@),
        None => None,
    }
}

/// A material: what becomes of a ray that hits a surface made of it.
pub trait Material {
    /// What `scatter_with` returns.
    spec fn scatter_spec(&self, r_in: RayModel, rec: HitModel, sample: SampleModel) -> Option<
        ScatterModel,
    >;

    /// The scattered ray and its attenuation, or nothing where the surface
    /// absorbs the ray, given the random values to use.
    fn scatter_with(&self, r_in: &Ray, rec: &HitRecord, sample: &Sample) -> (s: Option<Scatter>)
        ensures
            scatter_model(s) == self.scatter_spec(r_in@, rec@, sample@),
    ;

    /// The same with random values drawn from `rng`.
    fn scatter(&self, r_in: &Ray, rec: &HitRecord, rng: &mut StdRng) -> (s: Option<Scatter>)
        ensures
            exists|sample: SampleModel|
                sample_valid(sample) && scatter_model(s) == self.scatter_spec(
                    r_in@,
                    rec@,
                    sample,
                ),
    ;
}

/// A diffuse surface.
#[derive(Debug, Copy, Clone)]
pub struct Lambertian {
    pub albedo: Color,
}

impl Material for Lambertian {
    open spec fn scatter_spec(&self, r_in: RayModel, rec: HitModel, sample: SampleModel) -> Option<
        ScatterModel,
    > {
        lambertian_scatter(self.albedo@, rec, sample)
    }

    fn scatter_with(&self, _r_in: &Ray, rec: &HitRecord, sample: &Sample) -> (s: Option<Scatter>)
        ensures
            scatter_model(s) == lambertian_scatter(self.albedo@, rec@, sample@),
            s matches Some(sc) && sc.attenuation == self.albedo,
    {
        let scatter_direction = rec.normal + sample.in_sphere.unit_vector();

        // Catch degenerate scatter direction
        let corrected_scatter_direction = if scatter_direction.near_zero() {
            rec.normal
        } else {
            scatter_direction
        };

        Some(
            Scatter {
                scattered: Ray::new(rec.p, corrected_scatter_direction),
                attenuation: self.albedo,
            },
        )
    }

    fn scatter(&self, r_in: &Ray, rec: &HitRecord, rng: &mut StdRng) -> (s: Option<Scatter>)
        ensures
            s matches Some(sc) && sc.attenuation == self.albedo,
    {
        let sample = Sample { in_sphere: random_in_unit_sphere(rng), chance: Fixed::zero() };
        assert(sample_valid(sample@));
        self.scatter_with(r_in, rec, &sample)
    }
}

/// The mirror image of `v` at a surface with normal `n`.
fn reflect(v: Vec3, n: Vec3) -> (r: Vec3)
    ensures
        r@ == reflect_spec(v@, n@),
{
    v - Fixed::from_int(2) * v.dot(&n) * n
}

/// A polished surface; `fuzz` blurs its reflections.
#[derive(Debug, Copy, Clone)]
pub struct Metal {
    albedo: Color,
    fuzz: Fixed,
}

impl Metal {
    /// The colour of the metal.
    pub closed spec fn albedo_spec(self) -> Rgb {
        self.albedo@
    }

    /// How far, at most, a reflection is moved from the mirror image.
    pub closed spec fn fuzz_spec(self) -> int {
        self.fuzz@
    }

    /// The fuzz lies between zero and one.
    #[verifier::type_invariant]
    pub open spec fn inv(self) -> bool {
        0 <= self.fuzz_spec() <= ONE_RAW
    }

    /// A metal of the given colour. A `fuzz` above one counts as one.
    pub fn new(albedo: Color, fuzz: Fixed) -> (m: Metal)
        requires
            0 <= fuzz@,
        ensures
            m.albedo_spec() == albedo@,
            m.fuzz_spec() == fx_min(fuzz@, ONE_RAW as int),
    {
        Self {
            albedo,
            fuzz: if fuzz.lt(Fixed::one()) {
                fuzz
            } else {
                Fixed::one()
            },
        }
    }

    /// The colour of the metal.
    pub fn albedo(&self) -> (c: Color)
        ensures
            c@ == self.albedo_spec(),
    {
        self.albedo
    }

    /// How far, at most, a reflection is moved from the mirror image.
    pub fn fuzz(&self) -> (f: Fixed)
        ensures
            f@ == self.fuzz_spec(),
            0 <= f@ <= ONE_RAW,
    {
        proof {
            use_type_invariant(self);
        }
        self.fuzz
    }
}

impl Material for Metal {
    open spec fn scatter_spec(&self, r_in: RayModel, rec: HitModel, sample: SampleModel) -> Option<
        ScatterModel,
    > {
        metal_scatter(self.albedo_spec(), self.fuzz_spec(), r_in, rec, sample)
    }

    fn scatter_with(&self, r_in: &Ray, rec: &HitRecord, sample: &Sample) -> (s: Option<Scatter>)
        ensures
            scatter_model(s) == metal_scatter(
                self.albedo_spec(),
                self.fuzz_spec(),
                r_in@,
                rec@,
                sample@,
            ),
            s matches Some(sc) ==> sc.attenuation@ == self.albedo_spec(),
            s is None <==> v3_dot(
                metal_direction(self.fuzz_spec(), r_in@, rec@, sample@),
                rec@.normal,
            ) <= 0,
    {
        let reflected = reflect(r_in.direction.unit_vector(), rec.normal);
        let scattered = Ray::new(rec.p, reflected + self.fuzz * sample.in_sphere);

        if scattered.direction.dot(&rec.normal).gt(Fixed::zero()) {
            Some(Scatter { scattered, attenuation: self.albedo })
        } else {
            None
        }
    }

    fn scatter(&self, r_in: &Ray, rec: &HitRecord, rng: &mut StdRng) -> (s: Option<Scatter>)
        ensures
            s matches Some(sc) ==> sc.attenuation@ == self.albedo_spec(),
    {
        let sample = Sample { in_sphere: random_in_unit_sphere(rng), chance: Fixed::zero() };
        assert(sample_valid(sample@));
        self.scatter_with(r_in, rec, &sample)
    }
}

/// The direction of the unit vector `uv` after it crosses a surface with
/// normal `n`.
fn refract(uv: Vec3, n: Vec3, etai_over_etat: Fixed) -> (r: Vec3)
    ensures
        r@ == refract_spec(uv@, n@, etai_over_etat@),
{
    let cos_theta = uv.neg().dot(&n).min(Fixed::one());
    let r_out_perp = etai_over_etat * (uv + cos_theta * n);
    let r_out_parallel = (Fixed::one() - r_out_perp.length_squared()).abs().sqrt().neg() * n;
    r_out_perp + r_out_parallel
}

/// Clear glass with index of refraction `ir`.
#[derive(Debug, Copy, Clone)]
pub struct Dielectric {
    pub ir: Fixed,  // Index of Refraction
}

impl Dielectric {
    /// The share of light that is reflected at an angle of incidence with
    /// the given cosine.
    fn reflectance(cosine: Fixed, ref_idx: Fixed) -> (r: Fixed)
        ensures
            r@ == reflectance_spec(cosine@, ref_idx@),
    {
        // Use Schlick's approximation for reflectance.
        let r0 = (Fixed::one() - ref_idx) / (Fixed::one() + ref_idx);
        let r0 = r0 * r0;
        r0 + (Fixed::one() - r0) * (Fixed::one() - cosine).pow5()
    }
}

impl Material for Dielectric {
    open spec fn scatter_spec(&self, r_in: RayModel, rec: HitModel, sample: SampleModel) -> Option<
        ScatterModel,
    > {
        dielectric_scatter(self.ir@, r_in, rec, sample)
    }

    fn scatter_with(&self, r_in: &Ray, rec: &HitRecord, sample: &Sample) -> (s: Option<Scatter>)
        ensures
            scatter_model(s) == dielectric_scatter(self.ir@, r_in@, rec@, sample@),
            s matches Some(sc) && sc.attenuation@ == rgb_white(),
    {
        let attenuation = Color::new(Fixed::one(), Fixed::one(), Fixed::one());
        let refraction_ratio = if rec.front_face {
            Fixed::one() / self.ir
        } else {
            self.ir
        };

        let unit_direction = r_in.direction.unit_vector();
        let cos_theta = unit_direction.neg().dot(&rec.normal).min(Fixed::one());
        let sin_theta = (Fixed::one() - cos_theta * cos_theta).sqrt();

        let cannot_refract = (refraction_ratio * sin_theta).gt(Fixed::one());

        let direction = if cannot_refract || Dielectric::reflectance(
            cos_theta,
            refraction_ratio,
        ).gt(sample.chance) {
            reflect(unit_direction, rec.normal)
        } else {
            refract(unit_direction, rec.normal, refraction_ratio)
        };

        let scattered = Ray::new(rec.p, direction);

        Some(Scatter { scattered, attenuation })
    }

    fn scatter(&self, r_in: &Ray, rec: &HitRecord, rng: &mut StdRng) -> (s: Option<Scatter>)
        ensures
            s matches Some(sc) && sc.attenuation@ == rgb_white(),
    {
        let origin = Vec3::new(Fixed::zero(), Fixed::zero(), Fixed::zero());
        let sample = Sample { in_sphere: origin, chance: random_fraction(rng) };
        assert(sample_valid(sample@));
        self.scatter_with(r_in, rec, &sample)
    }
}

/// One of the materials.
#[derive(Debug, Copy, Clone)]
pub enum Surface {
    Lambertian(Lambertian),
    Metal(Metal),
    Dielectric(Dielectric),
}

impl View for Surface {
    type V = SurfaceModel;

    open spec fn view(&self) -> SurfaceModel {
        match *self {
            Surface::Lambertian(m) => SurfaceModel::Lambertian { albedo: m.albedo@ },
            Surface::Metal(m) => SurfaceModel::Metal {
                albedo: m.albedo_spec(),
                fuzz: m.fuzz_spec(),
            },
            Surface::Dielectric(m) => SurfaceModel::Dielectric { ir: m.ir@ },
        }
    }
}

impl Material for Surface {
    open spec fn scatter_spec(&self, r_in: RayModel, rec: HitModel, sample: SampleModel) -> Option<
        ScatterModel,
    > {
        surface_scatter(self@, r_in, rec, sample)
    }

    fn scatter_with(&self, r_in: &Ray, rec: &HitRecord, sample: &Sample) -> (s: Option<Scatter>)
        ensures
            scatter_model(s) == surface_scatter(self@, r_in@, rec@, sample@),
    {
        match self {
            Surface::Lambertian(m) => m.scatter_with(r_in, rec, sample),
            Surface::Metal(m) => m.scatter_with(r_in, rec, sample),
            Surface::Dielectric(m) => m.scatter_with(r_in, rec, sample),
        }
    }

    fn scatter(&self, r_in: &Ray, rec: &HitRecord, rng: &mut StdRng) -> (s: Option<Scatter>)
        ensures
            exists|sample: SampleModel|
                sample_valid(sample) && scatter_model(s) == surface_scatter(
                    self@,
                    r_in@,
                    rec@,
                    sample,
                ),
    {
        match self {
            Surface::Lambertian(m) => m.scatter(r_in, rec, rng),
            Surface::Metal(m) => m.scatter(r_in, rec, rng),
            Surface::Dielectric(m) => m.scatter(r_in, rec, rng),
        }
    }
}

} // verus!
