use raytracer::fixed::Fixed;
use raytracer::vec3::Vec3;
use std::ops::Neg;

fn fx(v: f64) -> Fixed {
    Fixed::from_raw((v * 4294967296.0) as i64)
}

fn vec3(x: f64, y: f64, z: f64) -> Vec3 {
    Vec3::new(fx(x), fx(y), fx(z))
}

fn raw(v: Vec3) -> (i64, i64, i64) {
    (v.x.to_raw(), v.y.to_raw(), v.z.to_raw())
}

#[test]
fn neg_vec3() {
    assert_eq!(vec3(1.0, -2.0, 0.0).neg(), vec3(-1.0, 2.0, 0.0));
}

#[test]
fn scalar_times_vec3() {
    assert_eq!(fx(2.0) * vec3(1.0, 2.0, 3.0), vec3(2.0, 4.0, 6.0));
}

#[test]
fn length_squared_vec3() {
    assert_eq!(vec3(2.0, 3.0, 4.0).length_squared(), fx(29.0));
}

#[test]
fn adding_and_subtracting_the_same_vector_changes_nothing() {
    let a = vec3(1.25, -7.5, 1000.0);
    let b = vec3(-3.0, 0.001, 123456.0);
    assert_eq!(a + b - b, a);
}

#[test]
fn dot_product_is_symmetric() {
    let a = vec3(1.25, -7.5, 0.3);
    let b = vec3(-3.0, 0.001, 12.7);
    assert_eq!(a.dot(&b), b.dot(&a));
}

#[test]
fn length_scales_with_the_factor() {
    let a = vec3(3.0, 4.0, 0.0);
    assert_eq!((a * fx(-2.0)).length(), fx(2.0) * a.length());
    assert_eq!(a.length(), fx(5.0));
}

#[test]
fn unit_vector_of_an_axis_is_exact() {
    assert_eq!(vec3(0.0, 0.0, -4.0).unit_vector(), vec3(0.0, 0.0, -1.0));
}

#[test]
fn unit_vector_has_length_one() {
    let u = vec3(3.0, 4.0, 0.0).unit_vector();
    assert_eq!(raw(u), (2576980377, 3435973836, 0));
    let vectors = [
        vec3(3.0, 4.0, 0.0),
        vec3(1.0, 2.0, -3.0),
        vec3(-0.001, 0.002, 0.0005),
        vec3(1000.0, -2000.0, 500.0),
        vec3(0.3, 0.3, 0.3),
    ];
    for v in vectors {
        let length = v.unit_vector().length().to_raw();
        assert!((length - 4294967296).abs() < 4096, "length {}", length);
    }
}

#[test]
fn unit_vector_of_the_zero_vector_is_zero() {
    assert_eq!(vec3(0.0, 0.0, 0.0).unit_vector(), vec3(0.0, 0.0, 0.0));
}

#[test]
fn near_zero_vec3() {
    assert!(vec3(0.0, 0.0, 0.0).near_zero());
    assert!(Vec3::new(Fixed::from_raw(65535), Fixed::from_raw(-65535), Fixed::zero()).near_zero());
    assert!(!Vec3::new(Fixed::from_raw(65536), Fixed::zero(), Fixed::zero()).near_zero());
    assert!(!Vec3::new(Fixed::zero(), Fixed::zero(), Fixed::from_raw(-65536)).near_zero());
    assert!(!vec3(0.0, 0.1, 0.0).near_zero());
}

#[test]
fn a_vector_that_is_not_near_zero_has_a_length() {
    let v = Vec3::new(Fixed::from_raw(65536), Fixed::zero(), Fixed::zero());
    assert!(v.length_squared().to_raw() > 0);
    assert!(v.length().to_raw() > 0);
}

#[test]
fn length_of_a_scaled_vector_is_the_scaled_length_up_to_rounding() {
    let cases = [
        (vec3(3.0, 4.0, 0.0), fx(-2.0)),
        (vec3(1.0, 2.0, -3.0), fx(0.37)),
        (vec3(0.001, -0.002, 0.003), fx(123.456)),
        (vec3(100.0, 200.0, -300.0), fx(-0.001)),
    ];
    for (a, c) in cases {
        let scaled = (a * c).length().to_raw();
        let product = (c.abs() * a.length()).to_raw();
        let wholes = c.abs().to_raw() / 4294967296;
        assert!(product - 2 <= scaled && scaled <= product + 1 + wholes);
    }
    let a = vec3(1.0, 2.0, -3.0);
    assert_eq!((a * fx(0.37)).length().to_raw(), 5946009558);
    assert_eq!((fx(0.37) * a.length()).to_raw(), 5946009558);
}
