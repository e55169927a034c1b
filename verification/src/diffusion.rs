//! Random directions and offsets, drawn from a seeded generator.
use crate::fixed::{floor_sqrt, lemma_floor_sqrt_exists, Fixed, ONE_RAW};
use crate::vec3::{
    is_nearly_unit, v3_dot, v3_length, v3_length_squared, v3_neg, v3_unit, Vec3, V3,
};
use core::ops::Neg;
use rand::rngs::StdRng;
use rand::Rng;
use vstd::prelude::*;

verus! {

/// How many candidates are drawn before a sampler gives up and returns the
/// origin. A candidate is kept with a probability of more than one half,
/// so the chance of giving up is below 2^-128.
pub const MAX_ATTEMPTS: u32 = 128;

/// `rand::rngs::StdRng`, the generator of random numbers that the samplers
/// draw from. Nothing is said of what it holds.
#[verifier::external_type_specification]
#[verifier::external_body]
pub struct ExStdRng(StdRng);

/// Calls `rand::Rng::gen_range` of `rng` on the half-open range
/// `low..high` of 64-bit integers, which panics on an empty range and
/// otherwise returns a number of the range.
#[verifier::external_body]
fn uniform_raw(rng: &mut StdRng, low: i64, high: i64) -> (v: i64)
    requires
        low < high,
    ensures
        low <= v < high,
{
    rng.gen_range(low..high)
}

/// A random number in `[-1, 1)`.
pub fn random_symmetric(rng: &mut StdRng) -> (x: Fixed)
    ensures
        -ONE_RAW <= x@ < ONE_RAW,
{
    Fixed::from_raw(uniform_raw(rng, -ONE_RAW, ONE_RAW))
}

/// A random number in `[0, 1)`.
pub fn random_fraction(rng: &mut StdRng) -> (x: Fixed)
    ensures
        0 <= x@ < ONE_RAW,
{
    Fixed::from_raw(uniform_raw(rng, 0, ONE_RAW))
}

/// A random number in `[low, high)`.
pub fn random_between(rng: &mut StdRng, low: Fixed, high: Fixed) -> (x: Fixed)
    requires
        low@ < high@,
    ensures
        low@ <= x@ < high@,
{
    Fixed::from_raw(uniform_raw(rng, low.to_raw(), high.to_raw()))
}

/// Whether `p` lies inside the unit sphere around the origin.
pub open spec fn in_unit_sphere(p: V3) -> bool {
    &&& -ONE_RAW <= p.x < ONE_RAW
    &&& -ONE_RAW <= p.y < ONE_RAW
    &&& -ONE_RAW <= p.z < ONE_RAW
    &&& v3_length_squared(p) < ONE_RAW
}

/// Whether `p` lies in the unit disk of the plane `z = 0`.
pub open spec fn in_unit_disk(p: V3) -> bool {
    &&& -ONE_RAW <= p.x < ONE_RAW
    &&& -ONE_RAW <= p.y < ONE_RAW
    &&& p.z == 0
    &&& v3_length_squared(p) < ONE_RAW
}

/// Whether `p` lies in the cube around the unit sphere.
pub open spec fn in_cube(p: V3) -> bool {
    &&& -ONE_RAW <= p.x < ONE_RAW
    &&& -ONE_RAW <= p.y < ONE_RAW
    &&& -ONE_RAW <= p.z < ONE_RAW
}

/// Whether `p` lies in the square around the unit disk of the plane
/// `z = 0`.
pub open spec fn in_square(p: V3) -> bool {
    &&& -ONE_RAW <= p.x < ONE_RAW
    &&& -ONE_RAW <= p.y < ONE_RAW
    &&& p.z == 0
}

/// The first of `candidates` that is closer to the origin than one, or
/// the origin where none is.
pub open spec fn first_inside(candidates: Seq<V3>) -> V3
    decreases candidates.len(),
{
    if candidates.len() == 0 {
        V3 { x: 0, y: 0, z: 0 }
    } else if v3_length_squared(candidates[0]) < ONE_RAW {
        candidates[0]
    } else {
        first_inside(candidates.skip(1))
    }
}

/// Candidates that are not closer to the origin than one are passed over.
pub proof fn lemma_first_inside_skips(rejected: Seq<V3>, rest: Seq<V3>)
    requires
        forall|i: int|
            0 <= i < rejected.len() ==> v3_length_squared(#[trigger] rejected[i]) >= ONE_RAW,
    ensures
        first_inside(rejected + rest) == first_inside(rest),
    decreases rejected.len(),
{
    if rejected.len() > 0 {
        let all = rejected + rest;
        assert(all[0] == rejected[0]);
        assert(all.skip(1) =~= rejected.skip(1) + rest);
        assert forall|i: int| 0 <= i < rejected.skip(1).len() implies v3_length_squared(
            #[trigger] rejected.skip(1)[i],
        ) >= ONE_RAW by {
            assert(rejected.skip(1)[i] == rejected[i + 1]);
        }
        lemma_first_inside_skips(rejected.skip(1), rest);
    } else {
        assert(rejected + rest =~= rest);
    }
}

/// A random point inside the unit sphere, by rejection: points of the cube
/// around it are drawn until one lies inside. After `MAX_ATTEMPTS` points
/// outside, the origin is returned.
pub fn random_in_unit_sphere(rng: &mut StdRng) -> (p: Vec3)
    ensures
        in_unit_sphere(p@),
        exists|candidates: Seq<V3>|
            candidates.len() <= MAX_ATTEMPTS && (forall|i: int|
                0 <= i < candidates.len() ==> in_cube(#[trigger] candidates[i])) && p@
                == first_inside(candidates),
{
    let ghost mut rejected: Seq<V3> = Seq::empty();
    let mut attempts: u32 = 0;
    while attempts < MAX_ATTEMPTS
        invariant
            attempts <= MAX_ATTEMPTS,
            rejected.len() == attempts,
            forall|i: int| 0 <= i < rejected.len() ==> in_cube(#[trigger] rejected[i]),
            forall|i: int|
                0 <= i < rejected.len() ==> v3_length_squared(#[trigger] rejected[i]) >= ONE_RAW,
        decreases MAX_ATTEMPTS - attempts,
    {
        let p = Vec3::new(random_symmetric(rng), random_symmetric(rng), random_symmetric(rng));
        if p.length_squared().lt(Fixed::one()) {
            proof {
                let candidates = rejected.push(p@);
                assert(candidates =~= rejected + seq![p@]);
                lemma_first_inside_skips(rejected, seq![p@]);
                assert(first_inside(seq![p@]) == p@);
                assert(first_inside(candidates) == p@);
            }
            return p;
        }
        proof {
            rejected = rejected.push(p@);
        }
        attempts += 1;
    }
    proof {
        lemma_first_inside_skips(rejected, Seq::empty());
        assert(rejected + Seq::<V3>::empty() =~= rejected);
    }
    Vec3::new(Fixed::zero(), Fixed::zero(), Fixed::zero())
}

/// A random direction: a random point inside the unit sphere, scaled to
/// length one. Where the point is so close to the origin that its length
/// is rounded to zero, the direction is the zero vector.
pub fn random_unit_vector(rng: &mut StdRng) -> (u: Vec3)
    ensures
        exists|p: V3|
            in_unit_sphere(p) && u@ == v3_unit(p) && (v3_length(p) > 0 ==> is_nearly_unit(
                u@,
                v3_length(p),
            )),
{
    let p = random_in_unit_sphere(rng);
    proof {
        lemma_length_below_two(p@);
    }
    p.unit_vector()
}

/// A point of the cube around the unit sphere is less than two away from
/// the origin.
proof fn lemma_length_below_two(p: V3)
    requires
        in_cube(p),
    ensures
        v3_length(p) < 2 * ONE_RAW,
{
    let one = ONE_RAW as int;
    let s = p.x * p.x + p.y * p.y + p.z * p.z;
    assert(0 <= s <= 3 * (one * one)) by (nonlinear_arith)
        requires
            -one <= p.x <= one,
            -one <= p.y <= one,
            -one <= p.z <= one,
            s == p.x * p.x + p.y * p.y + p.z * p.z,
    ;
    lemma_floor_sqrt_exists(s);
    let root = floor_sqrt(s);
    assert(root < 2 * one) by (nonlinear_arith)
        requires
            root * root <= s,
            s <= 3 * (one * one),
            root >= 0,
            one > 0,
    ;
}

/// A random point inside the unit sphere, on the side of `normal`.
pub fn random_in_hemisphere(rng: &mut StdRng, normal: &Vec3) -> (p: Vec3)
    ensures
        exists|q: V3|
            in_unit_sphere(q) && p@ == if v3_dot(q, normal@) > 0 {
                q
            } else {
                v3_neg(q)
            },
{
    let in_unit_sphere = random_in_unit_sphere(rng);
    if in_unit_sphere.dot(normal).gt(Fixed::zero()) {
        // In the same hemisphere as the normal
        in_unit_sphere
    } else {
        in_unit_sphere.neg()
    }
}

/// A random point of the unit disk, by rejection: points of the square
/// around it are drawn until one lies in the disk. After `MAX_ATTEMPTS`
/// points outside, the origin is returned.
pub fn random_in_unit_disk(rng: &mut StdRng) -> (p: Vec3)
    ensures
        in_unit_disk(p@),
        exists|candidates: Seq<V3>|
            candidates.len() <= MAX_ATTEMPTS && (forall|i: int|
                0 <= i < candidates.len() ==> in_square(#[trigger] candidates[i])) && p@
                == first_inside(candidates),
{
    let ghost mut rejected: Seq<V3> = Seq::empty();
    let mut attempts: u32 = 0;
    while attempts < MAX_ATTEMPTS
        invariant
            attempts <= MAX_ATTEMPTS,
            rejected.len() == attempts,
            forall|i: int| 0 <= i < rejected.len() ==> in_square(#[trigger] rejected[i]),
            forall|i: int|
                0 <= i < rejected.len() ==> v3_length_squared(#[trigger] rejected[i]) >= ONE_RAW,
        decreases MAX_ATTEMPTS - attempts,
    {
        let x = random_symmetric(rng);
        let y = random_symmetric(rng);
        let p = Vec3::new(x, y, Fixed::zero());
        if p.length_squared().lt(Fixed::one()) {
            proof {
                let candidates = rejected.push(p@);
                assert(candidates =~= rejected + seq![p@]);
                lemma_first_inside_skips(rejected, seq![p@]);
                assert(first_inside(seq![p@]) == p@);
                assert(first_inside(candidates) == p@);
            }
            return p;
        }
        proof {
            rejected = rejected.push(p@);
        }
        attempts += 1;
    }
    proof {
        lemma_first_inside_skips(rejected, Seq::empty());
        assert(rejected + Seq::<V3>::empty() =~= rejected);
    }
    Vec3::new(Fixed::zero(), Fixed::zero(), Fixed::zero())
}

} // verus!
