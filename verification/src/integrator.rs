//! The colour that a ray brings back from the scene.
use crate::color::{rgb_add, rgb_black, rgb_mul, rgb_scale, Color, Rgb};
use crate::fixed::{
    fx_add, fx_mul, fx_sub, lemma_fx_mul_by_one, lemma_fx_mul_of_shares, Fixed, MAX_RAW, ONE_RAW,
};
use crate::hittable::{HitModel, Hittable};
use crate::hittable_list::{lemma_scan_hit_is_of_an_object, HittableList};
use crate::length_laws::lemma_unit_vector_components;
use crate::material::{
    rgb_white, sample_valid, scatter_model, surface_scatter, Material, SampleModel, SurfaceModel,
};
use crate::ray::{Ray, RayModel};
use crate::vec3::{v3_in_range, v3_unit, V3};
use rand::rngs::StdRng;
use vstd::prelude::*;

verus! {

/// The raw value of the nearest parameter at which a hit counts: 0.001. A
/// ray that leaves a surface does not hit that surface again at once.
pub const T_MIN_RAW: i64 = 4294967;

/// The raw value of one half.
pub const HALF_RAW: i64 = 0x8000_0000;

/// The raw value of the green channel of the sky: 0.7.
pub const SKY_GREEN_RAW: i64 = 3006477107;

/// The colour of the sky at the zenith.
pub open spec fn rgb_sky() -> Rgb {
    Rgb { r: HALF_RAW as int, g: SKY_GREEN_RAW as int, b: ONE_RAW as int }
}

/// The colour of the background in the direction of `r`: white at the
/// horizon, blending into the colour of the sky toward the zenith.
pub open spec fn background_spec(r: RayModel) -> Rgb {
    let unit_direction = v3_unit(r.direction);
    let t = fx_mul(HALF_RAW as int, fx_add(unit_direction.y, ONE_RAW as int));
    rgb_add(rgb_scale(rgb_white(), fx_sub(ONE_RAW as int, t)), rgb_scale(rgb_sky(), t))
}

/// Whether `samples` holds the random values of `n` scatterings.
pub open spec fn samples_valid(samples: Seq<SampleModel>, n: nat) -> bool {
    samples.len() == n && forall|i: int| 0 <= i < n ==> sample_valid(#[trigger] samples[i])
}

/// The colour that the ray `r` brings back from `world` when it may be
/// scattered `depth` times and the scattering at its `i`-th hit uses
/// `samples[i]`. A ray that has no scattering left, or is absorbed, is
/// black; one that leaves the scene has the colour of the background; one
/// that is scattered has the colour of the scattered ray, attenuated.
pub open spec fn trace_spec<H: Hittable>(
    world: &H,
    r: RayModel,
    depth: nat,
    samples: Seq<SampleModel>,
) -> Rgb
    decreases depth,
{
    if depth == 0 {
        rgb_black()
    } else {
        match world.hit_spec(r, T_MIN_RAW as int, MAX_RAW as int) {
            Some(rec) => match surface_scatter(rec.material, r, rec, samples[0]) {
                Some(scatter) => rgb_mul(
                    scatter.attenuation,
                    trace_spec(world, scatter.scattered, (depth - 1) as nat, samples.skip(1)),
                ),
                None => rgb_black(),
            },
            None => background_spec(r),
        }
    }
}

/// A ray that may not be scattered at all is black, whatever the ray and
/// the scene.
pub proof fn lemma_trace_depth_zero<H: Hittable>(world: &H, r: RayModel, samples: Seq<SampleModel>)
    ensures
        trace_spec(world, r, 0, samples) == rgb_black(),
{
}

/// A ray that hits nothing has the colour of the background in its
/// direction.
pub proof fn lemma_trace_miss<H: Hittable>(
    world: &H,
    r: RayModel,
    depth: nat,
    samples: Seq<SampleModel>,
)
    requires
        depth > 0,
        world.hit_spec(r, T_MIN_RAW as int, MAX_RAW as int) is None,
    ensures
        trace_spec(world, r, depth, samples) == background_spec(r),
{
}

/// Whether each channel of `c` lies between zero and one.
pub open spec fn rgb_in_unit(c: Rgb) -> bool {
    0 <= c.r <= ONE_RAW && 0 <= c.g <= ONE_RAW && 0 <= c.b <= ONE_RAW
}

/// Whether a surface of material `m` gives back no more light than it
/// receives: the channels of its colour lie between zero and one.
pub open spec fn material_conserves(m: SurfaceModel) -> bool {
    match m {
        SurfaceModel::Lambertian { albedo } => rgb_in_unit(albedo),
        SurfaceModel::Metal { albedo, fuzz } => rgb_in_unit(albedo),
        SurfaceModel::Dielectric { ir } => true,
    }
}

/// Whether a hit, if there is one, is on a surface that conserves light
/// and has a normal there.
pub open spec fn hit_conserves(hit: Option<HitModel>) -> bool {
    hit matches Some(rec) ==> material_conserves(rec.material) && v3_in_range(rec.normal)
}

/// Whether every surface of `world` that a ray can hit conserves light.
pub open spec fn world_conserves<H: Hittable>(world: &H) -> bool {
    forall|r: RayModel, t_min: int, t_max: int|
        hit_conserves(#[trigger] world.hit_spec(r, t_min, t_max))
}

/// The background is a colour: each channel lies between zero and one.
pub proof fn lemma_background_is_a_colour(r: RayModel)
    requires
        v3_in_range(r.direction),
    ensures
        rgb_in_unit(background_spec(r)),
{
    let one = ONE_RAW as int;
    lemma_unit_vector_components(r.direction);
    let y = v3_unit(r.direction).y;
    let lifted = fx_add(y, one);
    assert(0 <= lifted <= 2 * one);
    let t = fx_mul(HALF_RAW as int, lifted);
    assert(0 <= t <= one) by {
        let p = HALF_RAW * lifted;
        assert(p == 0x8000_0000 * lifted);
        assert(0 <= p / one <= one);
    }
    let rest = fx_sub(one, t);
    lemma_fx_mul_by_one(rest);
    lemma_fx_mul_by_one(t);
    lemma_fx_mul_of_shares(HALF_RAW as int, t);
    lemma_fx_mul_of_shares(SKY_GREEN_RAW as int, t);
}

/// In a world whose surfaces conserve light, a ray brings back a colour:
/// each channel lies between zero and one.
pub proof fn lemma_trace_is_a_colour<H: Hittable>(
    world: &H,
    r: RayModel,
    depth: nat,
    samples: Seq<SampleModel>,
)
    requires
        world_conserves(world),
        v3_in_range(r.direction),
    ensures
        rgb_in_unit(trace_spec(world, r, depth, samples)),
    decreases depth,
{
    if depth > 0 {
        match world.hit_spec(r, T_MIN_RAW as int, MAX_RAW as int) {
            Some(rec) => {
                match surface_scatter(rec.material, r, rec, samples[0]) {
                    Some(scatter) => {
                        assert(hit_conserves(
                            world.hit_spec(r, T_MIN_RAW as int, MAX_RAW as int),
                        ));
                        lemma_scatter_in_range(rec.material, r, rec, samples[0]);
                        lemma_trace_is_a_colour(
                            world,
                            scatter.scattered,
                            (depth - 1) as nat,
                            samples.skip(1),
                        );
                        let rest = trace_spec(
                            world,
                            scatter.scattered,
                            (depth - 1) as nat,
                            samples.skip(1),
                        );
                        lemma_fx_mul_of_shares(scatter.attenuation.r, rest.r);
                        lemma_fx_mul_of_shares(scatter.attenuation.g, rest.g);
                        lemma_fx_mul_of_shares(scatter.attenuation.b, rest.b);
                    },
                    None => {},
                }
            },
            None => {
                lemma_background_is_a_colour(r);
            },
        }
    }
}

/// What a surface that conserves light scatters is attenuated by a colour,
/// and its direction is a vector.
proof fn lemma_scatter_in_range(m: SurfaceModel, r_in: RayModel, rec: HitModel, sample: SampleModel)
    requires
        material_conserves(m),
        v3_in_range(rec.normal),
    ensures
        surface_scatter(m, r_in, rec, sample) matches Some(scatter) ==> rgb_in_unit(
            scatter.attenuation,
        ) && v3_in_range(scatter.scattered.direction),
{
}

/// A scene whose spheres are all of materials that conserve light
/// conserves light.
pub proof fn lemma_scene_conserves(scene: &HittableList)
    requires
        forall|i: int|
            0 <= i < scene.models().len() ==> material_conserves(
                (#[trigger] scene.models()[i]).material,
            ),
    ensures
        world_conserves(scene),
{
    assert forall|r: RayModel, t_min: int, t_max: int|
        hit_conserves(#[trigger] scene.hit_spec(r, t_min, t_max)) by {
        lemma_scan_hit_is_of_an_object(scene.models(), r, t_min, t_max);
    }
}

/// Random values that use nothing of a generator: the centre of the unit
/// sphere and zero.
pub open spec fn idle_sample() -> SampleModel {
    SampleModel { in_sphere: V3 { x: 0, y: 0, z: 0 }, chance: 0 }
}

/// Any number of idle samples are random values that can have been drawn.
pub proof fn lemma_idle_samples_valid(n: nat)
    ensures
        samples_valid(Seq::new(n, |i: int| idle_sample()), n),
{
    assert(sample_valid(idle_sample()));
}

/// The colour of the background in the direction of `r`.
pub fn background(r: &Ray) -> (c: Color)
    ensures
        c@ == background_spec(r@),
{
    let unit_direction = r.direction.unit_vector();
    let t = Fixed::from_raw(HALF_RAW) * (unit_direction.y + Fixed::one());
    let white = Color::new(Fixed::one(), Fixed::one(), Fixed::one());
    let sky = Color::new(Fixed::from_raw(HALF_RAW), Fixed::from_raw(SKY_GREEN_RAW), Fixed::one());
    (Fixed::one() - t) * white + t * sky
}

/// The colour that the ray `r` brings back from `world`, with at most
/// `depth` scatterings, each with random values drawn from `rng`.
pub fn ray_color<H: Hittable>(r: &Ray, world: &H, depth: usize, rng: &mut StdRng) -> (c: Color)
    ensures
        depth == 0 ==> c@ == rgb_black(),
        depth > 0 && world.hit_spec(r@, T_MIN_RAW as int, MAX_RAW as int) is None ==> c@
            == background_spec(r@),
        world_conserves(world) ==> rgb_in_unit(c@),
        exists|samples: Seq<SampleModel>|
            samples_valid(samples, depth as nat) && c@ == #[trigger] trace_spec(
                world,
                r@,
                depth as nat,
                samples,
            ),
    decreases depth,
{
    let ghost idle = Seq::new(depth as nat, |i: int| idle_sample());
    proof {
        lemma_idle_samples_valid(depth as nat);
        use_type_invariant(&r.direction.x);
        use_type_invariant(&r.direction.y);
        use_type_invariant(&r.direction.z);
        if world_conserves(world) {
            lemma_trace_is_a_colour(world, r@, depth as nat, idle);
        }
    }
    if depth == 0 {
        let c = Color::black();
        assert(c@ == trace_spec(world, r@, depth as nat, idle));
        return c;
    }
    if let Some(rec) = world.hit(r, Fixed::from_raw(T_MIN_RAW), Fixed::max_value()) {
        if let Some(scatter) = rec.material.scatter(r, &rec, rng) {
            let ghost first = choose|sample: SampleModel|
                sample_valid(sample) && scatter_model(Some(scatter)) == surface_scatter(
                    rec.material@,
                    r@,
                    rec@,
                    sample,
                );
            let rest_color = ray_color(&scatter.scattered, world, depth - 1, rng);
            let c = scatter.attenuation * rest_color;
            proof {
                let rest = choose|samples: Seq<SampleModel>|
                    samples_valid(samples, (depth - 1) as nat) && rest_color@
                        == #[trigger] trace_spec(
                        world,
                        scatter.scattered@,
                        (depth - 1) as nat,
                        samples,
                    );
                let samples = seq![first] + rest;
                assert(samples.skip(1) =~= rest);
                assert(samples[0] == first);
                assert forall|i: int| 0 <= i < depth implies sample_valid(
                    #[trigger] samples[i],
                ) by {
                    if i > 0 {
                        assert(samples[i] == rest[i - 1]);
                    }
                }
                assert(c@ == trace_spec(world, r@, depth as nat, samples));
                if world_conserves(world) {
                    lemma_trace_is_a_colour(world, r@, depth as nat, samples);
                }
            }
            return c;
        }
        let ghost first = choose|sample: SampleModel|
            sample_valid(sample) && scatter_model(None) == surface_scatter(
                rec.material@,
                r@,
                rec@,
                sample,
            );
        let c = Color::black();
        proof {
            let samples = idle.update(0, first);
            assert(samples[0] == first);
            assert forall|i: int| 0 <= i < depth implies sample_valid(#[trigger] samples[i]) by {
                if i > 0 {
                    assert(samples[i] == idle[i]);
                }
            }
            assert(c@ == trace_spec(world, r@, depth as nat, samples));
            if world_conserves(world) {
                lemma_trace_is_a_colour(world, r@, depth as nat, samples);
            }
        }
        return c;
    }
    let c = background(r);
    assert(c@ == trace_spec(world, r@, depth as nat, idle));
    c
}

} // verus!
