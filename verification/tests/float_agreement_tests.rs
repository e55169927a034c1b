use raytracer::color::{pixel_values, Color};
use raytracer::fixed::Fixed;
use raytracer::hittable::{HitRecord, Hittable};
use raytracer::integrator::background;
use raytracer::material::{Dielectric, Lambertian, Material, Metal, Sample, Surface};
use raytracer::ray::Ray;
use raytracer::sphere::Sphere;
use raytracer::vec3::Vec3;

const ONE: f64 = 4294967296.0;

fn fx(v: f64) -> Fixed {
    Fixed::from_raw((v * ONE) as i64)
}

fn float(v: Fixed) -> f64 {
    v.to_raw() as f64 / ONE
}

fn vec3(v: [f64; 3]) -> Vec3 {
    Vec3::new(fx(v[0]), fx(v[1]), fx(v[2]))
}

fn floats(v: Vec3) -> [f64; 3] {
    [float(v.x), float(v.y), float(v.z)]
}

fn dot(a: [f64; 3], b: [f64; 3]) -> f64 {
    a[0] * b[0] + a[1] * b[1] + a[2] * b[2]
}

fn scale(a: [f64; 3], s: f64) -> [f64; 3] {
    [a[0] * s, a[1] * s, a[2] * s]
}

fn add(a: [f64; 3], b: [f64; 3]) -> [f64; 3] {
    [a[0] + b[0], a[1] + b[1], a[2] + b[2]]
}

fn sub(a: [f64; 3], b: [f64; 3]) -> [f64; 3] {
    [a[0] - b[0], a[1] - b[1], a[2] - b[2]]
}

fn unit(a: [f64; 3]) -> [f64; 3] {
    scale(a, 1.0 / dot(a, a).sqrt())
}

fn close(a: [f64; 3], b: [f64; 3], tolerance: f64) -> bool {
    (0..3).all(|i| (a[i] - b[i]).abs() <= tolerance)
}

/// A sequence of numbers in `[-1, 1)` that looks random and is the same in
/// every run.
fn sequence(mut state: u64, n: usize) -> Vec<f64> {
    let mut numbers = Vec::new();
    for _ in 0..n {
        state = state.wrapping_mul(6364136223846793005).wrapping_add(1442695040888963407);
        numbers.push(((state >> 11) as f64 / (1u64 << 53) as f64) * 2.0 - 1.0);
    }
    numbers
}

fn vectors(seed: u64, n: usize, size: f64) -> Vec<[f64; 3]> {
    sequence(seed, 3 * n).chunks(3).map(|c| [c[0] * size, c[1] * size, c[2] * size]).collect()
}

#[test]
fn vector_arithmetic_agrees_with_floating_point() {
    let left = vectors(1, 200, 10.0);
    let right = vectors(2, 200, 10.0);
    for (a, b) in left.iter().zip(right.iter()) {
        let (fa, fb) = (vec3(*a), vec3(*b));
        assert!(close(floats(fa + fb), add(*a, *b), 1e-9));
        assert!(close(floats(fa - fb), sub(*a, *b), 1e-9));
        assert!(close(floats(fa * fx(0.37)), scale(*a, 0.37), 1e-8));
        assert!(close(floats(fa / fx(0.37)), scale(*a, 1.0 / 0.37), 1e-7));
        assert!((float(fa.dot(&fb)) - dot(*a, *b)).abs() < 1e-7);
        assert!((float(fa.length_squared()) - dot(*a, *a)).abs() < 1e-7);
        assert!((float(fa.length()) - dot(*a, *a).sqrt()).abs() < 1e-8);
        assert!(close(floats(fa.unit_vector()), unit(*a), 1e-8));
        let cross = [
            a[1] * b[2] - a[2] * b[1],
            a[2] * b[0] - a[0] * b[2],
            a[0] * b[1] - a[1] * b[0],
        ];
        assert!(close(floats(fa.cross(fb)), cross, 1e-7));
    }
}

#[test]
fn sphere_intersection_agrees_with_floating_point() {
    let grey = Surface::Lambertian(Lambertian { albedo: Color::new(fx(0.5), fx(0.5), fx(0.5)) });
    let centres = vectors(3, 500, 3.0);
    let directions = vectors(4, 500, 1.0);
    let mut hits = 0;
    for (centre, direction) in centres.iter().zip(directions.iter()) {
        let radius = 1.5;
        let sphere = Sphere { center: vec3(*centre), radius: fx(radius), material: grey };
        let origin = [0.1, -0.2, 0.3];
        let r = Ray::new(vec3(origin), vec3(*direction));
        let found = sphere.hit(&r, fx(0.001), Fixed::max_value());

        let oc = sub(origin, *centre);
        let a = dot(*direction, *direction);
        let half_b = dot(oc, *direction);
        let c = dot(oc, oc) - radius * radius;
        let discriminant = half_b * half_b - a * c;
        if discriminant.abs() < 1e-6 {
            continue;
        }
        let expected = if discriminant < 0.0 {
            None
        } else {
            let near = (-half_b - discriminant.sqrt()) / a;
            let far = (-half_b + discriminant.sqrt()) / a;
            if near.abs() < 2e-3 || far.abs() < 2e-3 {
                continue;
            }
            if near >= 0.001 {
                Some(near)
            } else if far >= 0.001 {
                Some(far)
            } else {
                None
            }
        };
        match (found, expected) {
            (None, None) => {}
            (Some(hit), Some(t)) => {
                hits += 1;
                assert!((float(hit.t) - t).abs() < 1e-6);
                let p = add(origin, scale(*direction, t));
                assert!(close(floats(hit.p), p, 1e-6));
                let outward = scale(sub(p, *centre), 1.0 / radius);
                let front_face = dot(*direction, outward) < 0.0;
                assert_eq!(hit.front_face, front_face);
                let normal = if front_face { outward } else { scale(outward, -1.0) };
                assert!(close(floats(hit.normal), normal, 1e-6));
                let length = float(hit.normal.length());
                assert!((length - 1.0).abs() < 1e-6);
            }
            _ => panic!("the hit differs for centre {:?} and direction {:?}", centre, direction),
        }
    }
    assert!(hits > 50, "hits {}", hits);
}

fn reflect(v: [f64; 3], n: [f64; 3]) -> [f64; 3] {
    sub(v, scale(n, 2.0 * dot(v, n)))
}

fn refract(uv: [f64; 3], n: [f64; 3], ratio: f64) -> [f64; 3] {
    let cos_theta = dot(scale(uv, -1.0), n).min(1.0);
    let r_out_perp = scale(add(uv, scale(n, cos_theta)), ratio);
    let r_out_parallel = scale(n, -(1.0 - dot(r_out_perp, r_out_perp)).abs().sqrt());
    add(r_out_perp, r_out_parallel)
}

fn reflectance(cosine: f64, ref_idx: f64) -> f64 {
    let r0 = (1.0 - ref_idx) / (1.0 + ref_idx);
    let r0 = r0 * r0;
    r0 + (1.0 - r0) * (1.0 - cosine).powi(5)
}

#[test]
fn scattering_agrees_with_floating_point() {
    let directions = vectors(5, 200, 1.0);
    let draws = vectors(6, 200, 0.5);
    let normal = [0.0, 1.0, 0.0];
    for (direction, draw) in directions.iter().zip(draws.iter()) {
        if direction[1].abs() < 0.05 {
            continue;
        }
        let falling = [direction[0], -direction[1].abs(), direction[2]];
        let r = Ray::new(vec3(sub([0.0; 3], falling)), vec3(falling));
        let in_sphere = vec3(*draw);

        // Diffuse.
        let diffuse = Lambertian { albedo: Color::new(fx(0.5), fx(0.25), fx(0.125)) };
        let rec = HitRecord::new(
            vec3([0.0; 3]),
            fx(1.0),
            &r,
            &vec3(normal),
            Surface::Lambertian(diffuse),
        );
        let sample = Sample { in_sphere, chance: fx(0.0) };
        let s = diffuse.scatter_with(&r, &rec, &sample).unwrap();
        assert!(close(floats(s.scattered.direction), add(normal, unit(*draw)), 1e-8));

        // Metal.
        let metal = Metal::new(Color::new(fx(0.8), fx(0.6), fx(0.2)), fx(0.3));
        let expected = add(reflect(unit(falling), normal), scale(*draw, 0.3));
        match metal.scatter_with(&r, &rec, &sample) {
            Some(s) => {
                assert!(dot(expected, normal) > -1e-8);
                assert!(close(floats(s.scattered.direction), expected, 1e-8));
            }
            None => assert!(dot(expected, normal) < 1e-8),
        }

        // Glass, entered from outside.
        let glass = Dielectric { ir: fx(1.5) };
        let unit_direction = unit(falling);
        let cos_theta = dot(scale(unit_direction, -1.0), normal).min(1.0);
        let share = reflectance(cos_theta, 1.0 / 1.5);
        let refracted = glass
            .scatter_with(&r, &rec, &Sample { in_sphere, chance: fx((share + 1e-6).min(0.999999)) })
            .unwrap();
        if share + 1e-6 < 0.999999 {
            let expected = refract(unit_direction, normal, 1.0 / 1.5);
            assert!(close(floats(refracted.scattered.direction), expected, 1e-6));
        }
        let reflected = glass
            .scatter_with(&r, &rec, &Sample { in_sphere, chance: fx((share - 1e-6).max(0.0)) })
            .unwrap();
        if share - 1e-6 > 0.0 {
            let expected = reflect(unit_direction, normal);
            assert!(close(floats(reflected.scattered.direction), expected, 1e-8));
        }
    }
}

#[test]
fn background_agrees_with_floating_point() {
    for direction in vectors(7, 200, 5.0) {
        let r = Ray::new(vec3([0.0; 3]), vec3(direction));
        let c = background(&r);
        let t = 0.5 * (unit(direction)[1] + 1.0);
        let expected = add(scale([1.0, 1.0, 1.0], 1.0 - t), scale([0.5, 0.7, 1.0], t));
        assert!(close([float(c.r), float(c.g), float(c.b)], expected, 1e-8));
    }
}

#[test]
fn pixels_agree_with_floating_point() {
    let samples = 7;
    for sum in vectors(8, 500, 8.0) {
        let c = Color::new(fx(sum[0].abs()), fx(sum[1].abs()), fx(sum[2].abs()));
        let (r, g, b) = pixel_values(c, samples);
        let expected: Vec<f64> = sum
            .iter()
            .map(|channel| 256.0 * (channel.abs() / samples as f64).sqrt().clamp(0.0, 0.999))
            .collect();
        for (seen, value) in [r, g, b].iter().zip(expected.iter()) {
            assert!(*seen as f64 <= *value + 1e-4 && *value - 1.0 - 1e-4 < *seen as f64);
        }
    }
}
