use rand::rngs::StdRng;
use rand::SeedableRng;
use raytracer::diffusion::{
    random_fraction, random_in_hemisphere, random_in_unit_disk, random_in_unit_sphere,
    random_symmetric, random_unit_vector,
};
use raytracer::fixed::{Fixed, ONE_RAW};
use raytracer::vec3::Vec3;

fn fx(v: f64) -> Fixed {
    Fixed::from_raw((v * 4294967296.0) as i64)
}

#[test]
fn fractions_lie_in_the_unit_interval() {
    let mut rng = StdRng::seed_from_u64(1);
    for _ in 0..1000 {
        let x = random_fraction(&mut rng).to_raw();
        assert!(0 <= x && x < ONE_RAW);
    }
}

#[test]
fn symmetric_numbers_lie_on_both_sides_of_zero() {
    let mut rng = StdRng::seed_from_u64(2);
    let mut negative = 0;
    let mut positive = 0;
    for _ in 0..1000 {
        let x = random_symmetric(&mut rng).to_raw();
        assert!(-ONE_RAW <= x && x < ONE_RAW);
        if x < 0 {
            negative += 1;
        } else {
            positive += 1;
        }
    }
    assert!(negative > 400 && positive > 400);
}

#[test]
fn draws_differ_from_one_another() {
    let mut rng = StdRng::seed_from_u64(3);
    let first = random_fraction(&mut rng);
    let mut different = 0;
    for _ in 0..100 {
        if random_fraction(&mut rng) != first {
            different += 1;
        }
    }
    assert!(different >= 99);
    assert_ne!(first, Fixed::zero());
}

#[test]
fn draws_cover_the_interval() {
    let mut rng = StdRng::seed_from_u64(4);
    let mut quarters = [0; 4];
    for _ in 0..4000 {
        let x = random_fraction(&mut rng).to_raw();
        quarters[(x / (ONE_RAW / 4)) as usize] += 1;
    }
    for count in quarters {
        assert!(count > 800 && count < 1200, "count {}", count);
    }
}

#[test]
fn same_seed_gives_the_same_draws() {
    let mut a = StdRng::seed_from_u64(7);
    let mut b = StdRng::seed_from_u64(7);
    for _ in 0..100 {
        assert_eq!(random_in_unit_sphere(&mut a), random_in_unit_sphere(&mut b));
    }
    let mut rng = StdRng::seed_from_u64(7);
    assert_eq!(random_fraction(&mut rng).to_raw(), 130212073);
    assert_eq!(random_symmetric(&mut rng).to_raw(), -1657116208);
    let p = random_in_unit_sphere(&mut rng);
    assert_eq!((p.x.to_raw(), p.y.to_raw(), p.z.to_raw()), (-3069680500, 365219851, -1954233509));
    let d = random_in_unit_disk(&mut rng);
    assert_eq!((d.x.to_raw(), d.y.to_raw(), d.z.to_raw()), (-2089364671, 1192937497, 0));
}

#[test]
fn points_of_the_unit_sphere_lie_inside_it() {
    let mut rng = StdRng::seed_from_u64(5);
    let mut farthest = Fixed::zero();
    for _ in 0..1000 {
        let p = random_in_unit_sphere(&mut rng);
        assert!(p.length_squared().lt(Fixed::one()));
        if p.length().gt(farthest) {
            farthest = p.length();
        }
    }
    assert!(farthest.gt(fx(0.9)));
}

#[test]
fn random_unit_vectors_have_length_one() {
    let mut rng = StdRng::seed_from_u64(6);
    for _ in 0..1000 {
        let u = random_unit_vector(&mut rng);
        let length = u.length().to_raw();
        assert!((length - ONE_RAW).abs() < 4096, "length {}", length);
    }
}

#[test]
fn points_of_the_hemisphere_lie_on_the_side_of_the_normal() {
    let mut rng = StdRng::seed_from_u64(8);
    let normal = Vec3::new(fx(0.0), fx(0.6), fx(-0.8));
    let mut moved = false;
    for _ in 0..1000 {
        let p = random_in_hemisphere(&mut rng, &normal);
        assert!(p.length_squared().lt(Fixed::one()));
        assert!(!p.dot(&normal).is_negative());
        if p.dot(&normal).gt(Fixed::zero()) {
            moved = true;
        }
    }
    assert!(moved);
}

#[test]
fn points_of_the_unit_disk_lie_in_its_plane() {
    let mut rng = StdRng::seed_from_u64(9);
    let mut quarters = [0; 4];
    for _ in 0..1000 {
        let p = random_in_unit_disk(&mut rng);
        assert!(p.z.is_zero());
        assert!(p.length_squared().lt(Fixed::one()));
        let quarter = 2 * (p.x.is_negative() as usize) + p.y.is_negative() as usize;
        quarters[quarter] += 1;
    }
    for count in quarters {
        assert!(count > 200, "count {}", count);
    }
}

#[test]
fn numbers_between_two_bounds_lie_between_them() {
    let mut rng = StdRng::seed_from_u64(10);
    let mut lowest = fx(1.0);
    let mut highest = fx(0.0);
    for _ in 0..1000 {
        let x = raytracer::diffusion::random_between(&mut rng, fx(0.5), fx(1.0));
        assert!(fx(0.5).le(x) && x.lt(fx(1.0)));
        lowest = lowest.min(x);
        if x.gt(highest) {
            highest = x;
        }
    }
    assert!(lowest.lt(fx(0.51)) && highest.gt(fx(0.99)));
}
