use raytracer::fixed::Fixed;
use raytracer::vec3::Vec3;

fn fx(v: f64) -> Fixed {
    Fixed::from_raw((v * 4294967296.0) as i64)
}

fn vec3(x: f64, y: f64, z: f64) -> Vec3 {
    Vec3::new(fx(x), fx(y), fx(z))
}

#[test]
fn cmp_vec3() {
    assert_eq!(vec3(1.0, 2.0, 3.0), vec3(1.0, 2.0, 3.0));
}

#[test]
fn add_vec3() {
    assert_eq!(vec3(1.0, 2.0, 3.0) + vec3(1.0, 2.0, 3.0), vec3(2.0, 4.0, 6.0));
}

#[test]
fn sub_vec3() {
    assert_eq!(vec3(2.0, 4.0, 6.0) - vec3(1.0, 2.0, 3.0), vec3(1.0, 2.0, 3.0));
}

#[test]
fn mul_vec3() {
    assert_eq!(vec3(1.0, 2.0, 3.0) * fx(2.0), vec3(2.0, 4.0, 6.0));
    assert_eq!(vec3(1.0, 2.0, 3.0) * vec3(1.0, 2.0, 3.0), vec3(1.0, 4.0, 9.0));
}

#[test]
fn div_vec3() {
    assert_eq!(vec3(2.0, 4.0, 6.0) / fx(2.0), vec3(1.0, 2.0, 3.0));
}

#[test]
fn length() {
    let vx = vec3(2.0, 0.0, 0.0);
    assert_eq!(vx.length(), fx(2.0));

    let vy = vec3(0.0, 2.0, 0.0);
    assert_eq!(vy.length(), fx(2.0));

    let vz = vec3(0.0, 0.0, 2.0);
    assert_eq!(vz.length(), fx(2.0));

    let v0 = vec3(0.0, 0.0, 0.0);
    assert_eq!(v0.length(), fx(0.0));

    let v = vec3(2.0, 3.0, 4.0);
    assert_eq!(v.length(), fx(29.0f64.sqrt()));
}

#[test]
fn dot_vec3() {
    assert_eq!(vec3(1.0, 3.0, -5.0).dot(&vec3(4.0, -2.0, -1.0)), fx(3.0));

    // Two vectors at right angles to each other have a dot product of zero
    assert_eq!(vec3(-12.0, 16.0, 0.0).dot(&vec3(12.0, 9.0, 0.0)), fx(0.0));
}

#[test]
fn cross_vec3() {
    assert_eq!(
        vec3(2.0, 3.0, 4.0).cross(vec3(5.0, 6.0, 7.0)),
        vec3(-3.0, 6.0, -3.0),
    );
}
