//! A scene of many small spheres scattered at random around three large
//! ones, on a ground that is itself a very large sphere.
use crate::color::{rgb_mul, Color, Rgb};
use crate::diffusion::{random_between, random_fraction};
use crate::fixed::{fx_add, fx_div, fx_mul, lemma_fx_mul_of_shares, sat, Fixed, ONE_RAW};
use crate::hittable_list::HittableList;
use crate::integrator::material_conserves;
use crate::material::{Dielectric, Lambertian, Metal, Surface, SurfaceModel};
use crate::sphere::{Sphere, SphereModel};
use crate::vec3::{v3_length, v3_sub, Point3, V3};
use rand::rngs::StdRng;
use vstd::prelude::*;

verus! {

/// The small spheres stand on a grid whose cells run from `-GRID` up to,
/// but not including, `GRID` in both directions: 22 by 22 cells.
pub const GRID: i32 = 11;

/// The raw value of the fraction `num / den`.
pub open spec fn ratio(num: int, den: int) -> int {
    fx_div(num, den)
}

/// The raw value of the whole number `n`.
pub open spec fn whole(n: int) -> int {
    sat(n * ONE_RAW)
}

/// The ground: a diffuse grey sphere of radius 1000 below the scene.
pub open spec fn ground_sphere() -> SphereModel {
    SphereModel {
        center: V3 { x: 0, y: whole(-1000), z: 0 },
        radius: whole(1000),
        material: SurfaceModel::Lambertian {
            albedo: Rgb { r: ratio(1, 2), g: ratio(1, 2), b: ratio(1, 2) },
        },
    }
}

/// The large sphere of glass, in the middle.
pub open spec fn glass_sphere() -> SphereModel {
    SphereModel {
        center: V3 { x: 0, y: whole(1), z: 0 },
        radius: whole(1),
        material: SurfaceModel::Dielectric { ir: ratio(3, 2) },
    }
}

/// The large diffuse sphere, behind.
pub open spec fn diffuse_sphere() -> SphereModel {
    SphereModel {
        center: V3 { x: whole(-4), y: whole(1), z: 0 },
        radius: whole(1),
        material: SurfaceModel::Lambertian {
            albedo: Rgb { r: ratio(4, 10), g: ratio(2, 10), b: ratio(1, 10) },
        },
    }
}

/// The large sphere of rough metal, in front.
pub open spec fn metal_sphere() -> SphereModel {
    SphereModel {
        center: V3 { x: whole(4), y: whole(1), z: 0 },
        radius: whole(1),
        material: SurfaceModel::Metal {
            albedo: Rgb { r: ratio(7, 10), g: ratio(6, 10), b: ratio(5, 10) },
            fuzz: whole(1),
        },
    }
}

/// The centre of the small sphere of the grid cell `(a, b)`, moved within
/// the cell by the fractions `x` and `z`.
pub open spec fn small_center(a: int, b: int, x: int, z: int) -> V3 {
    V3 {
        x: fx_add(whole(a), fx_mul(ratio(9, 10), x)),
        y: ratio(2, 10),
        z: fx_add(whole(b), fx_mul(ratio(9, 10), z)),
    }
}

/// Whether a small sphere at `center` keeps clear of the large metal sphere.
pub open spec fn is_clear(center: V3) -> bool {
    v3_length(v3_sub(center, V3 { x: whole(4), y: ratio(2, 10), z: 0 })) > ratio(9, 10)
}

/// Whether each channel of `c` lies in `[low, 1)`.
pub open spec fn channels_from(c: Rgb, low: int) -> bool {
    low <= c.r < ONE_RAW && low <= c.g < ONE_RAW && low <= c.b < ONE_RAW
}

/// Whether `m` is a material that `choice` selects: below 0.8 a diffuse
/// one whose colour is the product of two colours; below 0.95 a metal
/// whose channels and fuzz are at least one half; and glass of index 1.5
/// from there on.
pub open spec fn is_chosen_material(choice: int, m: SurfaceModel) -> bool {
    if choice < ratio(8, 10) {
        m matches SurfaceModel::Lambertian { albedo } && exists|first: Rgb, second: Rgb|
            channels_from(first, 0) && channels_from(second, 0) && albedo == #[trigger] rgb_mul(
                first,
                second,
            )
    } else if choice < ratio(95, 100) {
        m matches SurfaceModel::Metal { albedo, fuzz } && ratio(1, 2) <= fuzz < ONE_RAW
            && channels_from(albedo, ratio(1, 2))
    } else {
        m == (SurfaceModel::Dielectric { ir: ratio(3, 2) })
    }
}

/// Whether `s` can be the small sphere of the grid cell `(a, b)`.
pub open spec fn is_small_sphere_of(s: SphereModel, a: int, b: int) -> bool {
    &&& s.radius == ratio(2, 10)
    &&& is_clear(s.center)
    &&& exists|x: int, z: int|
        0 <= x < ONE_RAW && 0 <= z < ONE_RAW && s.center == #[trigger] small_center(a, b, x, z)
    &&& exists|choice: int|
        0 <= choice < ONE_RAW && #[trigger] is_chosen_material(choice, s.material)
}

/// Whether `s` can be one of the small spheres.
pub open spec fn is_small_sphere(s: SphereModel) -> bool {
    exists|a: int, b: int|
        -GRID <= a < GRID && -GRID <= b < GRID && #[trigger] is_small_sphere_of(s, a, b)
}

/// Whether `objs` is a scene as `random_scene` lays it out: the ground,
/// then small spheres, at most one for each cell of the grid, and at the
/// end the three large spheres of glass, of a diffuse material and of metal.
pub open spec fn is_random_scene(objs: Seq<SphereModel>) -> bool {
    &&& 4 <= objs.len() <= 4 + 22 * 22
    &&& objs[0] == ground_sphere()
    &&& forall|i: int| 1 <= i < objs.len() - 3 ==> is_small_sphere(#[trigger] objs[i])
    &&& objs[objs.len() - 3] == glass_sphere()
    &&& objs[objs.len() - 2] == diffuse_sphere()
    &&& objs[objs.len() - 1] == metal_sphere()
}

/// The materials of a scene that `random_scene` lays out all conserve
/// light.
pub proof fn lemma_random_scene_conserves(objs: Seq<SphereModel>)
    requires
        is_random_scene(objs),
    ensures
        forall|i: int| 0 <= i < objs.len() ==> material_conserves((#[trigger] objs[i]).material),
{
    assert forall|i: int| 0 <= i < objs.len() implies material_conserves(
        (#[trigger] objs[i]).material,
    ) by {
        if 1 <= i < objs.len() - 3 {
            let s = objs[i];
            assert(is_small_sphere(s));
            let (a, b) = choose|a: int, b: int|
                -GRID <= a < GRID && -GRID <= b < GRID && #[trigger] is_small_sphere_of(s, a, b);
            let choice = choose|choice: int|
                0 <= choice < ONE_RAW && #[trigger] is_chosen_material(choice, s.material);
            if choice < ratio(8, 10) {
                let albedo = s.material->Lambertian_albedo;
                let (first, second) = choose|first: Rgb, second: Rgb|
                    channels_from(first, 0) && channels_from(second, 0) && albedo
                        == #[trigger] rgb_mul(first, second);
                lemma_fx_mul_of_shares(first.r, second.r);
                lemma_fx_mul_of_shares(first.g, second.g);
                lemma_fx_mul_of_shares(first.b, second.b);
            }
        }
    }
}

/// The centre of the small sphere of the grid cell `(a, b)`.
pub fn small_sphere_center(a: i32, b: i32, x: Fixed, z: Fixed) -> (center: Point3)
    ensures
        center@ == small_center(a as int, b as int, x@, z@),
{
    let spread = Fixed::from_ratio(9, 10);
    Point3::new(
        Fixed::from_int(a) + spread * x,
        Fixed::from_ratio(2, 10),
        Fixed::from_int(b) + spread * z,
    )
}

/// Whether a small sphere at `center` keeps clear of the large metal sphere.
pub fn keeps_clear(center: Point3) -> (clear: bool)
    ensures
        clear == is_clear(center@),
{
    let p = Point3::new(Fixed::from_int(4), Fixed::from_ratio(2, 10), Fixed::zero());
    (center - p).length().gt(Fixed::from_ratio(9, 10))
}

/// The material of a small sphere: diffuse, of a random colour, where
/// `choice` is below 0.8; metal, bright and rough, where it is below 0.95;
/// and glass from there on.
pub fn choose_material(choice: Fixed, rng: &mut StdRng) -> (m: Surface)
    ensures
        is_chosen_material(choice@, m@),
{
    if choice.lt(Fixed::from_ratio(8, 10)) {
        // diffuse
        let first = Color::new(random_fraction(rng), random_fraction(rng), random_fraction(rng));
        let second = Color::new(random_fraction(rng), random_fraction(rng), random_fraction(rng));
        assert(channels_from(first@, 0) && channels_from(second@, 0));
        Surface::Lambertian(Lambertian { albedo: first * second })
    } else if choice.lt(Fixed::from_ratio(95, 100)) {
        // metal
        let half = Fixed::from_ratio(1, 2);
        let albedo = Color::new(
            random_between(rng, half, Fixed::one()),
            random_between(rng, half, Fixed::one()),
            random_between(rng, half, Fixed::one()),
        );
        let fuzz = random_between(rng, half, Fixed::one());
        Surface::Metal(Metal::new(albedo, fuzz))
    } else {
        // glass
        Surface::Dielectric(Dielectric { ir: Fixed::from_ratio(3, 2) })
    }
}

/// A scene of the ground, a small sphere of a random material in every
/// cell of the grid whose place keeps clear of the large metal sphere, and
/// three large spheres.
pub fn random_scene(rng: &mut StdRng) -> (scene: HittableList)
    ensures
        is_random_scene(scene.models()),
{
    let mut objects: Vec<Sphere> = Vec::new();

    let ground_material = Lambertian {
        albedo: Color::new(Fixed::from_ratio(1, 2), Fixed::from_ratio(1, 2), Fixed::from_ratio(1, 2)),
    };
    objects.push(
        Sphere {
            center: Point3::new(Fixed::zero(), Fixed::from_int(-1000), Fixed::zero()),
            radius: Fixed::from_int(1000),
            material: Surface::Lambertian(ground_material),
        },
    );

    let mut a: i32 = -GRID;
    while a < GRID
        invariant
            -GRID <= a <= GRID,
            1 <= objects.len() <= 1 + 22 * (a + GRID),
            objects@[0]@ == ground_sphere(),
            forall|i: int| 1 <= i < objects.len() ==> is_small_sphere(#[trigger] objects@[i]@),
        decreases GRID - a,
    {
        let mut b: i32 = -GRID;
        while b < GRID
            invariant
                -GRID <= a < GRID,
                -GRID <= b <= GRID,
                1 <= objects.len() <= 1 + 22 * (a + GRID) + (b + GRID),
                objects@[0]@ == ground_sphere(),
                forall|i: int| 1 <= i < objects.len() ==> is_small_sphere(#[trigger] objects@[i]@),
            decreases GRID - b,
        {
            let choose_mat = random_fraction(rng);
            let x = random_fraction(rng);
            let z = random_fraction(rng);
            let center = small_sphere_center(a, b, x, z);

            if keeps_clear(center) {
                let sphere_material = choose_material(choose_mat, rng);
                let sphere = Sphere {
                    center,
                    radius: Fixed::from_ratio(2, 10),
                    material: sphere_material,
                };
                proof {
                    assert(sphere@.center == small_center(a as int, b as int, x@, z@));
                    assert(is_chosen_material(choose_mat@, sphere@.material));
                    assert(is_small_sphere_of(sphere@, a as int, b as int));
                    assert(is_small_sphere(sphere@));
                }
                objects.push(sphere);
            }
            b += 1;
        }
        a += 1;
    }

    objects.push(
        Sphere {
            center: Point3::new(Fixed::zero(), Fixed::from_int(1), Fixed::zero()),
            radius: Fixed::from_int(1),
            material: Surface::Dielectric(Dielectric { ir: Fixed::from_ratio(3, 2) }),
        },
    );

    objects.push(
        Sphere {
            center: Point3::new(Fixed::from_int(-4), Fixed::from_int(1), Fixed::zero()),
            radius: Fixed::from_int(1),
            material: Surface::Lambertian(
                Lambertian {
                    albedo: Color::new(
                        Fixed::from_ratio(4, 10),
                        Fixed::from_ratio(2, 10),
                        Fixed::from_ratio(1, 10),
                    ),
                },
            ),
        },
    );

    objects.push(
        Sphere {
            center: Point3::new(Fixed::from_int(4), Fixed::from_int(1), Fixed::zero()),
            radius: Fixed::from_int(1),
            material: Surface::Metal(
                Metal::new(
                    Color::new(
                        Fixed::from_ratio(7, 10),
                        Fixed::from_ratio(6, 10),
                        Fixed::from_ratio(5, 10),
                    ),
                    Fixed::from_int(1),
                ),
            ),
        },
    );

    let scene = HittableList { objects };
    proof {
        let objs = scene.models();
        assert(objs.len() == scene.objects@.len());
        assert forall|i: int| 1 <= i < objs.len() - 3 implies is_small_sphere(
            #[trigger] objs[i],
        ) by {
            assert(objs[i] == scene.objects@[i]@);
        }
    }
    scene
}

} // verus!
