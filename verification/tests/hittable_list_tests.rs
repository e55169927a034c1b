use raytracer::color::Color;
use raytracer::fixed::Fixed;
use raytracer::hittable::Hittable;
use raytracer::hittable_list::HittableList;
use raytracer::material::{Dielectric, Lambertian, Metal, Surface};
use raytracer::ray::Ray;
use raytracer::sphere::Sphere;
use raytracer::vec3::Vec3;

fn fx(v: f64) -> Fixed {
    Fixed::from_raw((v * 4294967296.0) as i64)
}

fn vec3(x: f64, y: f64, z: f64) -> Vec3 {
    Vec3::new(fx(x), fx(y), fx(z))
}

fn t_min() -> Fixed {
    Fixed::from_raw(4294967)
}

fn near() -> Sphere {
    let albedo = Color::new(fx(0.5), fx(0.5), fx(0.5));
    Sphere {
        center: vec3(0.0, 0.0, -1.0),
        radius: fx(0.5),
        material: Surface::Lambertian(Lambertian { albedo }),
    }
}

fn middle() -> Sphere {
    let albedo = Color::new(fx(0.8), fx(0.6), fx(0.2));
    Sphere {
        center: vec3(0.0, 0.0, -3.0),
        radius: fx(0.5),
        material: Surface::Metal(Metal::new(albedo, fx(0.0))),
    }
}

fn far() -> Sphere {
    Sphere {
        center: vec3(0.0, 0.0, -5.0),
        radius: fx(1.0),
        material: Surface::Dielectric(Dielectric { ir: fx(1.5) }),
    }
}

fn forward() -> Ray {
    Ray::new(vec3(0.0, 0.0, 0.0), vec3(0.0, 0.0, -1.0))
}

#[test]
fn empty_scene_has_no_hit() {
    let world = HittableList { objects: Vec::new() };
    assert!(world.hit(&forward(), t_min(), Fixed::max_value()).is_none());
}

#[test]
fn nearest_object_wins_in_every_order() {
    let orders = [
        vec![near(), middle(), far()],
        vec![near(), far(), middle()],
        vec![middle(), near(), far()],
        vec![middle(), far(), near()],
        vec![far(), near(), middle()],
        vec![far(), middle(), near()],
    ];
    for objects in orders {
        let world = HittableList { objects };
        let hit = world.hit(&forward(), t_min(), Fixed::max_value()).unwrap();
        assert_eq!(hit.t, fx(0.5));
        assert_eq!(hit.p, vec3(0.0, 0.0, -0.5));
        assert!(matches!(hit.material, Surface::Lambertian(_)));
    }
}

#[test]
fn window_skips_the_nearer_objects() {
    let world = HittableList { objects: vec![far(), near(), middle()] };
    let hit = world.hit(&forward(), fx(2.0), Fixed::max_value()).unwrap();
    assert_eq!(hit.t, fx(2.5));
    assert!(matches!(hit.material, Surface::Metal(_)));

    let hit = world.hit(&forward(), fx(3.6), Fixed::max_value()).unwrap();
    assert_eq!(hit.t, fx(4.0));
    assert!(matches!(hit.material, Surface::Dielectric(_)));

    assert!(world.hit(&forward(), fx(6.5), Fixed::max_value()).is_none());
    assert!(world.hit(&forward(), t_min(), fx(0.25)).is_none());
}

#[test]
fn scene_that_the_ray_misses_has_no_hit() {
    let world = HittableList { objects: vec![near(), middle(), far()] };
    let up = Ray::new(vec3(0.0, 0.0, 0.0), vec3(0.0, 1.0, 0.0));
    assert!(world.hit(&up, t_min(), Fixed::max_value()).is_none());
}

#[test]
fn of_two_equal_hits_the_later_object_wins() {
    let first = near();
    let mut second = near();
    second.material = Surface::Dielectric(Dielectric { ir: fx(1.5) });
    let world = HittableList { objects: vec![first, second] };
    let hit = world.hit(&forward(), t_min(), Fixed::max_value()).unwrap();
    assert_eq!(hit.t, fx(0.5));
    assert!(matches!(hit.material, Surface::Dielectric(_)));
}
