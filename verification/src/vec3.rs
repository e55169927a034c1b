//! Three-component vectors over [`Fixed`], used for points, directions and
//! offsets alike.
use crate::fixed::{
    fx_add, fx_div, fx_hypot, fx_mul, fx_neg, fx_sub, in_range, lemma_fx_mul_comm,
    lemma_fx_mul_square, Fixed, MAX_RAW, ONE_RAW,
};
use crate::length_laws::lemma_unit_vector_length;
use core::ops::{Add, Div, Mul, Neg, Sub};
use vstd::prelude::*;

verus! {

/// Raw value below which the magnitude of a component counts as zero: 2^-16,
/// the smallest magnitude whose square is not rounded to zero.
pub const NEAR_ZERO_RAW: i64 = 0x1_0000;

/// The mathematical model of a vector: its three raw components.
pub struct V3 {
    pub x: int,
    pub y: int,
    pub z: int,
}

/// Whether `v` is the model of some vector.
pub open spec fn v3_in_range(v: V3) -> bool {
    in_range(v.x) && in_range(v.y) && in_range(v.z)
}

/// The opposite vector.
pub open spec fn v3_neg(v: V3) -> V3 {
    V3 { x: fx_neg(v.x), y: fx_neg(v.y), z: fx_neg(v.z) }
}

/// The component-wise sum.
pub open spec fn v3_add(a: V3, b: V3) -> V3 {
    V3 { x: fx_add(a.x, b.x), y: fx_add(a.y, b.y), z: fx_add(a.z, b.z) }
}

/// The component-wise difference.
pub open spec fn v3_sub(a: V3, b: V3) -> V3 {
    V3 { x: fx_sub(a.x, b.x), y: fx_sub(a.y, b.y), z: fx_sub(a.z, b.z) }
}

/// The vector `v` scaled by the raw scalar `s`.
pub open spec fn v3_scale(v: V3, s: int) -> V3 {
    V3 { x: fx_mul(v.x, s), y: fx_mul(v.y, s), z: fx_mul(v.z, s) }
}

/// The component-wise product.
pub open spec fn v3_mul(a: V3, b: V3) -> V3 {
    V3 { x: fx_mul(a.x, b.x), y: fx_mul(a.y, b.y), z: fx_mul(a.z, b.z) }
}

/// The vector `v` divided by the raw scalar `s`.
pub open spec fn v3_div(v: V3, s: int) -> V3 {
    V3 { x: fx_div(v.x, s), y: fx_div(v.y, s), z: fx_div(v.z, s) }
}

/// The dot product: the products of the components, added up from the
/// first one on.
pub open spec fn v3_dot(a: V3, b: V3) -> int {
    fx_add(fx_add(fx_mul(a.x, b.x), fx_mul(a.y, b.y)), fx_mul(a.z, b.z))
}

/// The cross product.
pub open spec fn v3_cross(a: V3, b: V3) -> V3 {
    V3 {
        x: fx_sub(fx_mul(a.y, b.z), fx_mul(a.z, b.y)),
        y: fx_sub(fx_mul(a.z, b.x), fx_mul(a.x, b.z)),
        z: fx_sub(fx_mul(a.x, b.y), fx_mul(a.y, b.x)),
    }
}

/// The dot product of a vector with itself.
pub open spec fn v3_length_squared(v: V3) -> int {
    v3_dot(v, v)
}

/// The Euclidean length, rounded down.
pub open spec fn v3_length(v: V3) -> int {
    fx_hypot(v.x, v.y, v.z)
}

/// The vector divided by its own length.
pub open spec fn v3_unit(v: V3) -> V3 {
    v3_div(v, v3_length(v))
}

/// Whether the length of `v` is neither rounded to zero nor saturated.
pub open spec fn has_length(v: V3) -> bool {
    0 < v3_length(v) < MAX_RAW
}

/// Whether `u`, the unit vector of a vector of length `len`, is one long up
/// to rounding: shorter by at most four units of 2^-32, and longer by at
/// most one part in `len`.
pub open spec fn is_nearly_unit(u: V3, len: int) -> bool {
    ONE_RAW - 4 <= v3_length(u) && v3_length(u) * len < ONE_RAW * (len + 1)
}

/// Whether each component is closer to zero than `NEAR_ZERO_RAW`.
pub open spec fn v3_near_zero(v: V3) -> bool {
    &&& -NEAR_ZERO_RAW < v.x < NEAR_ZERO_RAW
    &&& -NEAR_ZERO_RAW < v.y < NEAR_ZERO_RAW
    &&& -NEAR_ZERO_RAW < v.z < NEAR_ZERO_RAW
}

/// Adding a vector and taking it away again gives the vector one started
/// with, as long as no component of the sum leaves the range of [`Fixed`].
pub proof fn lemma_add_then_sub(a: V3, b: V3)
    requires
        v3_in_range(a),
        v3_in_range(b),
        v3_in_range(V3 { x: a.x + b.x, y: a.y + b.y, z: a.z + b.z }),
    ensures
        v3_sub(v3_add(a, b), b) == a,
{
}

/// The dot product does not depend on the order of its arguments.
pub proof fn lemma_dot_commutative(a: V3, b: V3)
    ensures
        v3_dot(a, b) == v3_dot(b, a),
{
    lemma_fx_mul_comm(a.x, b.x);
    lemma_fx_mul_comm(a.y, b.y);
    lemma_fx_mul_comm(a.z, b.z);
}

/// A vector and its negation have the same length.
pub proof fn lemma_length_of_negation(a: V3)
    requires
        v3_in_range(a),
    ensures
        v3_length(v3_neg(a)) == v3_length(a),
{
    assert((-a.x) * (-a.x) == a.x * a.x) by (nonlinear_arith);
    assert((-a.y) * (-a.y) == a.y * a.y) by (nonlinear_arith);
    assert((-a.z) * (-a.z) == a.z * a.z) by (nonlinear_arith);
}

/// A vector that is not near zero has a length that is not zero.
pub proof fn lemma_not_near_zero_has_length(a: V3)
    requires
        v3_in_range(a),
        !v3_near_zero(a),
    ensures
        v3_length_squared(a) > 0,
{
    lemma_fx_mul_square(a.x);
    lemma_fx_mul_square(a.y);
    lemma_fx_mul_square(a.z);
    if !(-NEAR_ZERO_RAW < a.x < NEAR_ZERO_RAW) {
        lemma_square_of_large(a.x);
    } else if !(-NEAR_ZERO_RAW < a.y < NEAR_ZERO_RAW) {
        lemma_square_of_large(a.y);
    } else {
        lemma_square_of_large(a.z);
    }
}

/// The square of a component that is not near zero is not rounded to zero.
proof fn lemma_square_of_large(c: int)
    requires
        c <= -NEAR_ZERO_RAW || c >= NEAR_ZERO_RAW,
    ensures
        fx_mul(c, c) >= 1,
{
    let p = c * c;
    assert(p >= 0x1_0000_0000) by (nonlinear_arith)
        requires
            c <= -0x1_0000 || c >= 0x1_0000,
            p == c * c,
    ;
    assert(p / 0x1_0000_0000 >= 1);
}

/// A vector, point or offset in space.
#[derive(Debug, Copy, Clone, PartialEq)]
pub struct Vec3 {
    pub x: Fixed,
    pub y: Fixed,
    pub z: Fixed,
}

/// A point in space.
pub type Point3 = Vec3;

impl View for Vec3 {
    type V = V3;

    open spec fn view(&self) -> V3 {
        V3 { x: self.x@, y: self.y@, z: self.z@ }
    }
}

impl Vec3 {
    /// The vector whose model is `v` (for `v3_in_range(v)`).
    pub open spec fn of(v: V3) -> Vec3 {
        Vec3 { x: Fixed::of(v.x), y: Fixed::of(v.y), z: Fixed::of(v.z) }
    }

    /// A vector is determined by its model.
    pub proof fn lemma_is_of(self, v: V3)
        requires
            self@ == v,
            v3_in_range(v),
        ensures
            self == Vec3::of(v),
    {
        Fixed::lemma_of_view(v.x);
        Fixed::lemma_of_view(v.y);
        Fixed::lemma_of_view(v.z);
        Fixed::lemma_view_injective(self.x, Fixed::of(v.x));
        Fixed::lemma_view_injective(self.y, Fixed::of(v.y));
        Fixed::lemma_view_injective(self.z, Fixed::of(v.z));
    }

    pub fn new(x: Fixed, y: Fixed, z: Fixed) -> (r: Vec3)
        ensures
            r.x == x,
            r.y == y,
            r.z == z,
    {
        Self { x, y, z }
    }

    /// The Euclidean length.
    pub fn length(&self) -> (r: Fixed)
        ensures
            r@ == v3_length(self@),
            r@ >= 0,
    {
        Fixed::hypot(self.x, self.y, self.z)
    }

    /// The dot product of the vector with itself.
    pub fn length_squared(&self) -> (r: Fixed)
        ensures
            r@ == v3_length_squared(self@),
            r@ >= 0,
    {
        proof {
            lemma_fx_mul_square(self.x@);
            lemma_fx_mul_square(self.y@);
            lemma_fx_mul_square(self.z@);
        }
        self.x * self.x + self.y * self.y + self.z * self.z
    }

    /// The dot product.
    pub fn dot(&self, rhs: &Self) -> (r: Fixed)
        ensures
            r@ == v3_dot(self@, rhs@),
    {
        self.x * rhs.x + self.y * rhs.y + self.z * rhs.z
    }

    /// The cross product.
    pub fn cross(&self, rhs: Self) -> (r: Vec3)
        ensures
            r@ == v3_cross(self@, rhs@),
    {
        Self {
            x: self.y * rhs.z - self.z * rhs.y,
            y: self.z * rhs.x - self.x * rhs.z,
            z: self.x * rhs.y - self.y * rhs.x,
        }
    }

    /// The vector scaled to length one. Where the vector has a length, the
    /// result is one long up to rounding.
    pub fn unit_vector(self) -> (r: Vec3)
        ensures
            r@ == v3_unit(self@),
            has_length(self@) ==> is_nearly_unit(r@, v3_length(self@)),
    {
        proof {
            use_type_invariant(&self.x);
            use_type_invariant(&self.y);
            use_type_invariant(&self.z);
            if has_length(self@) {
                lemma_unit_vector_length(self@);
            }
        }
        self / self.length()
    }

    /// Whether the vector is too short to serve as a direction.
    pub fn near_zero(&self) -> (r: bool)
        ensures
            r == v3_near_zero(self@),
    {
        let eps = Fixed::from_raw(NEAR_ZERO_RAW);
        self.x.abs().lt(eps) && self.y.abs().lt(eps) && self.z.abs().lt(eps)
    }
}

impl Neg for Vec3 {
    type Output = Self;

    fn neg(self) -> (r: Vec3)
        ensures
            r@ == v3_neg(self@),
    {
        let r = Self { x: self.x.neg(), y: self.y.neg(), z: self.z.neg() };
        proof {
            r.lemma_is_of(v3_neg(self@));
        }
        r
    }
}

impl vstd::std_specs::ops::NegSpecImpl for Vec3 {
    open spec fn obeys_neg_spec() -> bool {
        true
    }

    open spec fn neg_req(self) -> bool {
        true
    }

    open spec fn neg_spec(self) -> Vec3 {
        Vec3::of(v3_neg(self@))
    }
}

impl Add for Vec3 {
    type Output = Self;

    fn add(self, other: Self) -> (r: Vec3)
        ensures
            r@ == v3_add(self@, other@),
    {
        let r = Self { x: self.x + other.x, y: self.y + other.y, z: self.z + other.z };
        proof {
            r.lemma_is_of(v3_add(self@, other@));
        }
        r
    }
}

impl vstd::std_specs::ops::AddSpecImpl for Vec3 {
    open spec fn obeys_add_spec() -> bool {
        true
    }

    open spec fn add_req(self, other: Vec3) -> bool {
        true
    }

    open spec fn add_spec(self, other: Vec3) -> Vec3 {
        Vec3::of(v3_add(self@, other@))
    }
}

impl Sub for Vec3 {
    type Output = Self;

    fn sub(self, other: Self) -> (r: Vec3)
        ensures
            r@ == v3_sub(self@, other@),
    {
        proof {
            use_type_invariant(&other.x);
            use_type_invariant(&other.y);
            use_type_invariant(&other.z);
        }
        let r = self + other.neg();
        proof {
            r.lemma_is_of(v3_sub(self@, other@));
        }
        r
    }
}

impl vstd::std_specs::ops::SubSpecImpl for Vec3 {
    open spec fn obeys_sub_spec() -> bool {
        true
    }

    open spec fn sub_req(self, other: Vec3) -> bool {
        true
    }

    open spec fn sub_spec(self, other: Vec3) -> Vec3 {
        Vec3::of(v3_sub(self@, other@))
    }
}

impl Mul<Fixed> for Vec3 {
    type Output = Self;

    fn mul(self, rhs: Fixed) -> (r: Vec3)
        ensures
            r@ == v3_scale(self@, rhs@),
    {
        let r = Self { x: self.x * rhs, y: self.y * rhs, z: self.z * rhs };
        proof {
            r.lemma_is_of(v3_scale(self@, rhs@));
        }
        r
    }
}

impl vstd::std_specs::ops::MulSpecImpl<Fixed> for Vec3 {
    open spec fn obeys_mul_spec() -> bool {
        true
    }

    open spec fn mul_req(self, rhs: Fixed) -> bool {
        true
    }

    open spec fn mul_spec(self, rhs: Fixed) -> Vec3 {
        Vec3::of(v3_scale(self@, rhs@))
    }
}

impl Mul for Vec3 {
    type Output = Self;

    fn mul(self, rhs: Self) -> (r: Vec3)
        ensures
            r@ == v3_mul(self@, rhs@),
    {
        let r = Self { x: self.x * rhs.x, y: self.y * rhs.y, z: self.z * rhs.z };
        proof {
            r.lemma_is_of(v3_mul(self@, rhs@));
        }
        r
    }
}

impl vstd::std_specs::ops::MulSpecImpl for Vec3 {
    open spec fn obeys_mul_spec() -> bool {
        true
    }

    open spec fn mul_req(self, rhs: Vec3) -> bool {
        true
    }

    open spec fn mul_spec(self, rhs: Vec3) -> Vec3 {
        Vec3::of(v3_mul(self@, rhs@))
    }
}

impl Mul<Vec3> for Fixed {
    type Output = Vec3;

    fn mul(self, rhs: Vec3) -> (r: Vec3)
        ensures
            r@ == v3_scale(rhs@, self@),
    {
        rhs * self
    }
}

impl vstd::std_specs::ops::MulSpecImpl<Vec3> for Fixed {
    open spec fn obeys_mul_spec() -> bool {
        true
    }

    open spec fn mul_req(self, rhs: Vec3) -> bool {
        true
    }

    open spec fn mul_spec(self, rhs: Vec3) -> Vec3 {
        Vec3::of(v3_scale(rhs@, self@))
    }
}

impl Div<Fixed> for Vec3 {
    type Output = Self;

    fn div(self, rhs: Fixed) -> (r: Vec3)
        ensures
            r@ == v3_div(self@, rhs@),
    {
        let r = Self { x: self.x / rhs, y: self.y / rhs, z: self.z / rhs };
        proof {
            r.lemma_is_of(v3_div(self@, rhs@));
        }
        r
    }
}

impl vstd::std_specs::ops::DivSpecImpl<Fixed> for Vec3 {
    open spec fn obeys_div_spec() -> bool {
        true
    }

    open spec fn div_req(self, rhs: Fixed) -> bool {
        true
    }

    open spec fn div_spec(self, rhs: Fixed) -> Vec3 {
        Vec3::of(v3_div(self@, rhs@))
    }
}

} // verus!
