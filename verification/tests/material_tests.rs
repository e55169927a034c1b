use raytracer::color::Color;
use raytracer::fixed::Fixed;
use raytracer::hittable::HitRecord;
use raytracer::material::{Dielectric, Lambertian, Material, Metal, Sample, Surface};
use raytracer::ray::Ray;
use raytracer::vec3::Vec3;

fn fx(v: f64) -> Fixed {
    Fixed::from_raw((v * 4294967296.0) as i64)
}

fn vec3(x: f64, y: f64, z: f64) -> Vec3 {
    Vec3::new(fx(x), fx(y), fx(z))
}

fn raw(v: Vec3) -> (i64, i64, i64) {
    (v.x.to_raw(), v.y.to_raw(), v.z.to_raw())
}

fn color(r: f64, g: f64, b: f64) -> Color {
    Color::new(fx(r), fx(g), fx(b))
}

fn sample(x: f64, y: f64, z: f64, chance: f64) -> Sample {
    Sample { in_sphere: vec3(x, y, z), chance: fx(chance) }
}

/// A hit at the origin on a floor whose outward normal points up.
fn floor_hit(r: &Ray, material: Surface) -> HitRecord {
    HitRecord::new(vec3(0.0, 0.0, 0.0), fx(1.0), r, &vec3(0.0, 1.0, 0.0), material)
}

fn falling(x: f64, y: f64, z: f64) -> Ray {
    Ray::new(vec3(-x, -y, -z), vec3(x, y, z))
}

#[test]
fn lambertian_scatters_along_normal_plus_random_direction() {
    let m = Lambertian { albedo: color(0.5, 0.5, 0.5) };
    let r = falling(1.0, -1.0, 0.0);
    let rec = floor_hit(&r, Surface::Lambertian(m));
    let s = m.scatter_with(&r, &rec, &sample(0.3, 0.4, 0.0, 0.0)).unwrap();
    assert_eq!(s.attenuation, color(0.5, 0.5, 0.5));
    assert_eq!(s.scattered.origin, vec3(0.0, 0.0, 0.0));
    assert_eq!(raw(s.scattered.direction), (2576980377, 7730941133, 0));
}

#[test]
fn lambertian_falls_back_to_the_normal() {
    let m = Lambertian { albedo: color(0.5, 0.5, 0.5) };
    let r = falling(1.0, -1.0, 0.0);
    let rec = floor_hit(&r, Surface::Lambertian(m));
    let s = m.scatter_with(&r, &rec, &sample(0.0, -0.5, 0.0, 0.0)).unwrap();
    assert_eq!(s.scattered.direction, vec3(0.0, 1.0, 0.0));
    assert_eq!(s.attenuation, color(0.5, 0.5, 0.5));
}

#[test]
fn metal_new_caps_the_fuzz() {
    assert_eq!(Metal::new(color(0.8, 0.6, 0.2), fx(2.0)).fuzz(), fx(1.0));
    assert_eq!(Metal::new(color(0.8, 0.6, 0.2), fx(1.0)).fuzz(), fx(1.0));
    assert_eq!(Metal::new(color(0.8, 0.6, 0.2), fx(0.3)).fuzz(), fx(0.3));
    assert_eq!(Metal::new(color(0.8, 0.6, 0.2), fx(0.0)).fuzz(), fx(0.0));
    assert_eq!(Metal::new(color(0.8, 0.6, 0.2), fx(0.3)).albedo(), color(0.8, 0.6, 0.2));
}

#[test]
fn metal_without_fuzz_is_a_mirror() {
    let m = Metal::new(color(0.8, 0.6, 0.2), fx(0.0));
    let r = falling(1.0, -1.0, 0.0);
    let rec = floor_hit(&r, Surface::Metal(m));
    let s = m.scatter_with(&r, &rec, &sample(0.5, -0.5, 0.25, 0.0)).unwrap();
    assert_eq!(s.attenuation, color(0.8, 0.6, 0.2));
    assert_eq!(s.scattered.origin, vec3(0.0, 0.0, 0.0));
    assert_eq!(raw(s.scattered.direction), (3037000500, 3037000500, 0));
}

#[test]
fn metal_attenuation_is_its_albedo() {
    let m = Metal::new(color(0.8, 0.6, 0.2), fx(0.5));
    let r = falling(1.0, -1.0, 0.0);
    let rec = floor_hit(&r, Surface::Metal(m));
    let s = m.scatter_with(&r, &rec, &sample(0.5, -0.5, 0.25, 0.0)).unwrap();
    assert_eq!(s.attenuation, color(0.8, 0.6, 0.2));
    assert_eq!(raw(s.scattered.direction), (4110742324, 1963258676, 536870912));
}

#[test]
fn metal_absorbs_a_grazing_ray_that_fuzz_pushes_into_the_surface() {
    let m = Metal::new(color(0.8, 0.6, 0.2), fx(1.0));
    let r = falling(1.0, -0.01, 0.0);
    let rec = floor_hit(&r, Surface::Metal(m));
    assert!(m.scatter_with(&r, &rec, &sample(0.0, -0.9, 0.0, 0.0)).is_none());

    let kept = m.scatter_with(&r, &rec, &sample(0.0, 0.9, 0.0, 0.0)).unwrap();
    assert_eq!(kept.attenuation, color(0.8, 0.6, 0.2));
    assert_eq!(raw(kept.scattered.direction), (4294752564, 3908418090, 0));
    assert!(kept.scattered.direction.dot(&rec.normal).gt(Fixed::zero()));
}

#[test]
fn dielectric_of_index_one_does_not_bend_the_ray() {
    let m = Dielectric { ir: fx(1.0) };
    let directions = [vec3(0.0, -1.0, 0.0), vec3(1.0, -1.0, 0.0), vec3(0.3, -2.0, 0.7)];
    for direction in directions {
        let r = Ray::new(vec3(0.0, 0.0, 0.0) - direction, direction);
        let unit = direction.unit_vector();
        let almost_one = Fixed::from_raw(4294967295);

        let entering = floor_hit(&r, Surface::Dielectric(m));
        assert!(entering.front_face);
        let s = m.scatter_with(&r, &entering, &Sample { in_sphere: unit, chance: almost_one });
        let s = s.unwrap();
        assert_eq!(s.attenuation, color(1.0, 1.0, 1.0));
        assert_eq!(s.scattered.origin, vec3(0.0, 0.0, 0.0));
        let difference = s.scattered.direction - unit;
        assert!(difference.x.abs().to_raw() <= 2);
        assert!(difference.y.abs().to_raw() <= 2);
        assert!(difference.z.abs().to_raw() <= 2);

        let leaving =
            HitRecord::new(vec3(0.0, 0.0, 0.0), fx(1.0), &r, &vec3(0.0, -1.0, 0.0), Surface::Dielectric(m));
        assert!(!leaving.front_face);
        let s = m.scatter_with(&r, &leaving, &Sample { in_sphere: unit, chance: almost_one });
        let difference = s.unwrap().scattered.direction - unit;
        assert!(difference.x.abs().to_raw() <= 2);
        assert!(difference.y.abs().to_raw() <= 2);
        assert!(difference.z.abs().to_raw() <= 2);
    }
}

#[test]
fn dielectric_refracts_toward_the_normal_on_entering() {
    let m = Dielectric { ir: fx(1.5) };
    let r = falling(1.0, -1.0, 0.0);
    let rec = floor_hit(&r, Surface::Dielectric(m));
    let s = m.scatter_with(&r, &rec, &sample(0.0, 0.0, 0.0, 0.99)).unwrap();
    assert_eq!(s.attenuation, color(1.0, 1.0, 1.0));
    assert_eq!(raw(s.scattered.direction), (2024666999, -3787805119, 0));
}

#[test]
fn dielectric_reflects_when_the_draw_is_below_the_reflectance() {
    let m = Dielectric { ir: fx(1.5) };
    let r = falling(1.0, -1.0, 0.0);
    let rec = floor_hit(&r, Surface::Dielectric(m));
    // The reflectance at this angle has the raw value 180686151.
    let below = Sample { in_sphere: vec3(0.0, 0.0, 0.0), chance: Fixed::from_raw(180686150) };
    let s = m.scatter_with(&r, &rec, &below).unwrap();
    assert_eq!(raw(s.scattered.direction), (3037000500, 3037000500, 0));
    let at = Sample { in_sphere: vec3(0.0, 0.0, 0.0), chance: Fixed::from_raw(180686151) };
    let s = m.scatter_with(&r, &rec, &at).unwrap();
    assert_eq!(raw(s.scattered.direction), (2024666999, -3787805119, 0));
}

#[test]
fn dielectric_reflects_all_light_beyond_the_critical_angle() {
    let m = Dielectric { ir: fx(1.5) };
    let r = falling(1.0, -0.1, 0.0);
    let rec =
        HitRecord::new(vec3(0.0, 0.0, 0.0), fx(1.0), &r, &vec3(0.0, -1.0, 0.0), Surface::Dielectric(m));
    assert!(!rec.front_face);
    let s = m.scatter_with(&r, &rec, &sample(0.0, 0.0, 0.0, 0.999999)).unwrap();
    assert_eq!(s.attenuation, color(1.0, 1.0, 1.0));
    assert_eq!(raw(s.scattered.direction), (4273652190, 427365218, 0));
}

#[test]
fn surface_scatters_as_its_material_does() {
    let r = falling(1.0, -1.0, 0.0);
    let draw = sample(0.3, 0.4, 0.0, 0.99);

    let lambertian = Lambertian { albedo: color(0.5, 0.5, 0.5) };
    let rec = floor_hit(&r, Surface::Lambertian(lambertian));
    let by_surface = rec.material.scatter_with(&r, &rec, &draw).unwrap();
    let direct = lambertian.scatter_with(&r, &rec, &draw).unwrap();
    assert_eq!(by_surface.scattered, direct.scattered);
    assert_eq!(by_surface.attenuation, direct.attenuation);

    let metal = Metal::new(color(0.8, 0.6, 0.2), fx(0.5));
    let rec = floor_hit(&r, Surface::Metal(metal));
    let by_surface = rec.material.scatter_with(&r, &rec, &draw).unwrap();
    let direct = metal.scatter_with(&r, &rec, &draw).unwrap();
    assert_eq!(by_surface.scattered, direct.scattered);
    assert_eq!(by_surface.attenuation, direct.attenuation);

    let glass = Dielectric { ir: fx(1.5) };
    let rec = floor_hit(&r, Surface::Dielectric(glass));
    let by_surface = rec.material.scatter_with(&r, &rec, &draw).unwrap();
    let direct = glass.scatter_with(&r, &rec, &draw).unwrap();
    assert_eq!(by_surface.scattered, direct.scattered);
    assert_eq!(by_surface.attenuation, direct.attenuation);
}
