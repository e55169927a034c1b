use rand::rngs::StdRng;
use rand::SeedableRng;
use raytracer::color::Color;
use raytracer::diffusion::random_in_unit_sphere;
use raytracer::fixed::Fixed;
use raytracer::hittable::Hittable;
use raytracer::hittable_list::HittableList;
use raytracer::integrator::{background, ray_color};
use raytracer::material::{Dielectric, Lambertian, Material, Metal, Sample, Surface};
use raytracer::ray::Ray;
use raytracer::sphere::Sphere;
use raytracer::vec3::Vec3;

fn fx(v: f64) -> Fixed {
    Fixed::from_raw((v * 4294967296.0) as i64)
}

fn vec3(x: f64, y: f64, z: f64) -> Vec3 {
    Vec3::new(fx(x), fx(y), fx(z))
}

fn color(r: f64, g: f64, b: f64) -> Color {
    Color::new(fx(r), fx(g), fx(b))
}

fn raw(c: Color) -> (i64, i64, i64) {
    (c.r.to_raw(), c.g.to_raw(), c.b.to_raw())
}

fn diffuse(x: f64, y: f64, z: f64, radius: f64) -> Sphere {
    Sphere {
        center: vec3(x, y, z),
        radius: fx(radius),
        material: Surface::Lambertian(Lambertian { albedo: color(0.5, 0.5, 0.5) }),
    }
}

fn two_spheres() -> HittableList {
    HittableList { objects: vec![diffuse(0.0, 0.0, -1.0, 0.5), diffuse(0.0, -100.5, -1.0, 100.0)] }
}

fn forward() -> Ray {
    Ray::new(vec3(0.0, 0.0, 0.0), vec3(0.0, 0.0, -1.0))
}

#[test]
fn ray_with_no_depth_left_is_black() {
    let mut rng = StdRng::seed_from_u64(1);
    let world = two_spheres();
    let empty = HittableList { objects: Vec::new() };
    let rays = [
        forward(),
        Ray::new(vec3(0.0, 0.0, 0.0), vec3(0.0, 1.0, 0.0)),
        Ray::new(vec3(3.0, -2.0, 1.0), vec3(0.0, 0.0, 0.0)),
    ];
    for r in rays {
        assert_eq!(ray_color(&r, &world, 0, &mut rng), color(0.0, 0.0, 0.0));
        assert_eq!(ray_color(&r, &empty, 0, &mut rng), color(0.0, 0.0, 0.0));
    }
}

#[test]
fn background_is_the_gradient_of_the_height() {
    let up = Ray::new(vec3(0.0, 0.0, 0.0), vec3(0.0, 1.0, 0.0));
    assert_eq!(raw(background(&up)), (2147483648, 3006477107, 4294967296));
    let down = Ray::new(vec3(0.0, 0.0, 0.0), vec3(0.0, -1.0, 0.0));
    assert_eq!(background(&down), color(1.0, 1.0, 1.0));
    let level = Ray::new(vec3(0.0, 0.0, 0.0), vec3(1.0, 0.0, 0.0));
    assert_eq!(raw(background(&level)), (3221225472, 3650722201, 4294967296));
    let slanted = Ray::new(vec3(5.0, 5.0, 5.0), vec3(3.0, 4.0, 0.0));
    assert_eq!(raw(background(&slanted)), (2362232013, 3135326126, 4294967296));
}

#[test]
fn ray_that_misses_everything_has_the_colour_of_the_background() {
    let mut rng = StdRng::seed_from_u64(2);
    let world = HittableList { objects: vec![diffuse(0.0, 0.0, -1.0, 0.5)] };
    let directions = [vec3(0.0, 1.0, 0.0), vec3(3.0, 4.0, 0.0), vec3(1.0, 0.0, 0.0)];
    for direction in directions {
        let r = Ray::new(vec3(0.0, 0.0, 0.0), direction);
        assert!(world.hit(&r, Fixed::from_raw(4294967), Fixed::max_value()).is_none());
        for depth in [1, 2, 50] {
            assert_eq!(ray_color(&r, &world, depth, &mut rng), background(&r));
        }
    }
    let slanted = Ray::new(vec3(0.0, 0.0, 0.0), vec3(3.0, 4.0, 0.0));
    // The unit direction has y = 0.8, so t = 0.9.
    assert_eq!(raw(ray_color(&slanted, &world, 50, &mut rng)), (2362232013, 3135326126, 4294967296));
}

#[test]
fn ray_in_an_empty_scene_has_the_colour_of_the_background() {
    let mut rng = StdRng::seed_from_u64(3);
    let world = HittableList { objects: Vec::new() };
    assert_eq!(ray_color(&forward(), &world, 5, &mut rng), background(&forward()));
}

#[test]
fn ray_that_is_scattered_on_its_last_bounce_is_black() {
    let mut rng = StdRng::seed_from_u64(4);
    assert_eq!(ray_color(&forward(), &two_spheres(), 1, &mut rng), color(0.0, 0.0, 0.0));
}

#[test]
fn scattered_ray_is_attenuated() {
    let world = two_spheres();
    let r = forward();

    let mut rng = StdRng::seed_from_u64(2024);
    let seen = ray_color(&r, &world, 2, &mut rng);

    let mut rng = StdRng::seed_from_u64(2024);
    let rec = world.hit(&r, Fixed::from_raw(4294967), Fixed::max_value()).unwrap();
    let draw = Sample { in_sphere: random_in_unit_sphere(&mut rng), chance: Fixed::zero() };
    let scatter = rec.material.scatter_with(&r, &rec, &draw).unwrap();
    assert!(world.hit(&scatter.scattered, Fixed::from_raw(4294967), Fixed::max_value()).is_none());
    assert_eq!(seen, scatter.attenuation * background(&scatter.scattered));
    assert_eq!(raw(seen), (1595204365, 1816116078, 2147483648));
}

#[test]
fn absorbed_ray_is_black() {
    // A ray that grazes a metal of full fuzz is absorbed whenever the draw
    // pushes its mirror image into the surface.
    let metal = Metal::new(color(0.8, 0.6, 0.2), fx(1.0));
    let world = HittableList {
        objects: vec![Sphere {
            center: vec3(0.0, -100.0, 0.0),
            radius: fx(100.0),
            material: Surface::Metal(metal),
        }],
    };
    let r = Ray::new(vec3(-1.0, 0.001, 0.0), vec3(1.0, -0.001, 0.0));
    let mut black = 0;
    let mut lit = 0;
    for seed in 0..200 {
        let mut rng = StdRng::seed_from_u64(seed);
        let c = ray_color(&r, &world, 2, &mut rng);
        if c == color(0.0, 0.0, 0.0) {
            black += 1;
        } else {
            lit += 1;
        }
    }
    assert!(black > 20 && lit > 20, "black {} lit {}", black, lit);
}

#[test]
fn glass_absorbs_nothing() {
    let world = HittableList {
        objects: vec![Sphere {
            center: vec3(0.0, 0.0, -1.0),
            radius: fx(0.5),
            material: Surface::Dielectric(Dielectric { ir: fx(1.5) }),
        }],
    };
    let mut rng = StdRng::seed_from_u64(5);
    for _ in 0..50 {
        let c = ray_color(&forward(), &world, 50, &mut rng);
        assert_eq!(c, background(&forward()));
    }
}

#[test]
fn same_seed_gives_the_same_colour() {
    let world = two_spheres();
    let mut a = StdRng::seed_from_u64(99);
    let mut b = StdRng::seed_from_u64(99);
    for _ in 0..20 {
        assert_eq!(ray_color(&forward(), &world, 50, &mut a), ray_color(&forward(), &world, 50, &mut b));
    }
}

#[test]
fn colours_stay_between_black_and_white() {
    let mut rng = StdRng::seed_from_u64(6);
    let world = raytracer::scene::random_scene(&mut rng);
    let origin = vec3(13.0, 2.0, 3.0);
    for i in 0..200 {
        let x = -1.0 + 0.01 * i as f64;
        let r = Ray::new(origin, vec3(-13.0 + x, -1.5 + 0.3 * x, -3.0 - x));
        let c = ray_color(&r, &world, 50, &mut rng);
        for channel in [c.r, c.g, c.b] {
            assert!(!channel.is_negative() && channel.le(fx(1.0)));
        }
    }
}

#[test]
fn deeper_rays_follow_more_bounces() {
    let world = two_spheres();
    let down = Ray::new(vec3(0.0, 0.0, 0.0), vec3(0.0, -1.0, -1.0));
    let mut lit = 0;
    for seed in 0..50 {
        let mut rng = StdRng::seed_from_u64(seed);
        let shallow = ray_color(&down, &world, 1, &mut rng);
        assert_eq!(shallow, color(0.0, 0.0, 0.0));
        let mut rng = StdRng::seed_from_u64(seed);
        let deep = ray_color(&down, &world, 50, &mut rng);
        if deep != color(0.0, 0.0, 0.0) {
            lit += 1;
        }
    }
    assert!(lit > 40);
}
