//! Signed fixed-point numbers with 32 fractional bits.
//!
//! Every quantity of the renderer (coordinates, ray parameters, colour
//! channels) is a [`Fixed`]. A value is stored as a 64-bit integer counting
//! units of 2^-32; its view is that integer. Arithmetic saturates at the ends
//! of the symmetric range `[-MAX_RAW, MAX_RAW]` and rounds toward zero, so
//! every operation is total and `-(-x) == x` holds for every value. Dividing
//! by zero saturates as well: the quotient is the end of the range on the
//! side of the dividend, and `0 / 0` is zero. The square root of a negative
//! number is zero.
use core::ops::{Add, Div, Mul, Neg, Sub};
use vstd::prelude::*;

verus! {

/// The raw value of the number one: 2^32.
pub const ONE_RAW: i64 = 0x1_0000_0000;

/// The largest raw value; the smallest is its negation.
pub const MAX_RAW: i64 = 0x7fff_ffff_ffff_ffff;

/// Whether `v` is the raw value of some [`Fixed`].
pub open spec fn in_range(v: int) -> bool {
    -MAX_RAW <= v <= MAX_RAW
}

/// `v` brought into the representable range.
pub open spec fn sat(v: int) -> int {
    if v > MAX_RAW {
        MAX_RAW as int
    } else if v < -MAX_RAW {
        -(MAX_RAW as int)
    } else {
        v
    }
}

/// The quotient `n / d` rounded toward zero, for `d != 0`.
pub open spec fn tdiv(n: int, d: int) -> int {
    if d > 0 {
        if n >= 0 {
            n / d
        } else {
            -((-n) / d)
        }
    } else {
        if n >= 0 {
            -(n / (-d))
        } else {
            (-n) / (-d)
        }
    }
}

/// The sum of two raw values, as a raw value.
pub open spec fn fx_add(a: int, b: int) -> int {
    sat(a + b)
}

/// The difference of two raw values, as a raw value.
pub open spec fn fx_sub(a: int, b: int) -> int {
    sat(a - b)
}

/// The negation of a raw value, as a raw value.
pub open spec fn fx_neg(a: int) -> int {
    sat(-a)
}

/// The product of two raw values, as a raw value.
pub open spec fn fx_mul(a: int, b: int) -> int {
    sat(tdiv(a * b, ONE_RAW as int))
}

/// The quotient of two raw values, as a raw value.
pub open spec fn fx_div(a: int, b: int) -> int {
    if b != 0 {
        sat(tdiv(a * ONE_RAW, b))
    } else if a > 0 {
        MAX_RAW as int
    } else if a < 0 {
        -(MAX_RAW as int)
    } else {
        0
    }
}

/// The magnitude of a raw value, as a raw value.
pub open spec fn fx_abs(a: int) -> int {
    if a < 0 {
        fx_neg(a)
    } else {
        a
    }
}

/// The smaller of two raw values.
pub open spec fn fx_min(a: int, b: int) -> int {
    if a < b {
        a
    } else {
        b
    }
}

/// Whether `r` is the integer square root of `n`, rounded down.
pub open spec fn is_floor_sqrt(n: int, r: int) -> bool {
    0 <= r && r * r <= n < (r + 1) * (r + 1)
}

/// The integer square root of `n`, rounded down (for `n >= 0`).
pub open spec fn floor_sqrt(n: int) -> int {
    choose|r: int| is_floor_sqrt(n, r)
}

/// The square root of a raw value, as a raw value.
pub open spec fn fx_sqrt(a: int) -> int {
    if a >= 0 {
        floor_sqrt(a * ONE_RAW)
    } else {
        0
    }
}

/// The Euclidean length of the vector with the raw components `a`, `b` and
/// `c`, as a raw value.
pub open spec fn fx_hypot(a: int, b: int, c: int) -> int {
    sat(floor_sqrt(a * a + b * b + c * c))
}

/// `a` raised to the fifth power by repeated multiplication.
pub open spec fn fx_pow5(a: int) -> int {
    let a2 = fx_mul(a, a);
    let a4 = fx_mul(a2, a2);
    fx_mul(a4, a)
}

/// At most one number is the rounded-down square root of `n`.
pub proof fn lemma_floor_sqrt_unique(n: int, r: int, s: int)
    requires
        is_floor_sqrt(n, r),
        is_floor_sqrt(n, s),
    ensures
        r == s,
{
    if r < s {
        assert((r + 1) * (r + 1) <= s * s) by (nonlinear_arith)
            requires
                0 <= r,
                r + 1 <= s,
        ;
    } else if s < r {
        assert((s + 1) * (s + 1) <= r * r) by (nonlinear_arith)
            requires
                0 <= s,
                s + 1 <= r,
        ;
    }
}

/// A number found to be the rounded-down square root of `n` is `floor_sqrt(n)`.
pub proof fn lemma_floor_sqrt_is(n: int, r: int)
    requires
        is_floor_sqrt(n, r),
    ensures
        floor_sqrt(n) == r,
{
    lemma_floor_sqrt_unique(n, r, floor_sqrt(n));
}

/// Every number that is not negative has a rounded-down square root.
pub proof fn lemma_floor_sqrt_exists(n: int)
    requires
        n >= 0,
    ensures
        is_floor_sqrt(n, floor_sqrt(n)),
    decreases n,
{
    if n == 0 {
        assert(is_floor_sqrt(0, 0));
    } else {
        lemma_floor_sqrt_exists(n - 1);
        let r = floor_sqrt(n - 1);
        if (r + 1) * (r + 1) <= n {
            assert((r + 1) * (r + 1) == n);
            assert(n < (r + 2) * (r + 2)) by (nonlinear_arith)
                requires
                    (r + 1) * (r + 1) == n,
                    r >= 0,
            ;
            assert(is_floor_sqrt(n, r + 1));
        } else {
            assert(r * r <= n);
            assert(is_floor_sqrt(n, r));
        }
    }
}

/// Rounding toward zero commutes with negating the dividend.
pub proof fn lemma_tdiv_neg(n: int, d: int)
    requires
        d != 0,
    ensures
        tdiv(-n, d) == -tdiv(n, d),
{
    if n == 0 {
        if d > 0 {
            assert(0int / d == 0) by (nonlinear_arith)
                requires
                    d > 0,
            ;
        } else {
            let e = -d;
            assert(0int / e == 0) by (nonlinear_arith)
                requires
                    e > 0,
            ;
        }
    }
}

/// Saturation commutes with negation: the range is symmetric.
pub proof fn lemma_sat_neg(v: int)
    ensures
        sat(-v) == -sat(v),
{
}

/// Multiplying by a negated factor negates the product.
pub proof fn lemma_fx_mul_neg(a: int, b: int)
    ensures
        fx_mul(a, -b) == -fx_mul(a, b),
        fx_mul(-a, b) == -fx_mul(a, b),
{
    assert(a * (-b) == -(a * b)) by (nonlinear_arith);
    assert((-a) * b == -(a * b)) by (nonlinear_arith);
    lemma_tdiv_neg(a * b, ONE_RAW as int);
}

/// Multiplication of raw values is commutative.
pub proof fn lemma_fx_mul_comm(a: int, b: int)
    ensures
        fx_mul(a, b) == fx_mul(b, a),
{
    assert(a * b == b * a) by (nonlinear_arith);
}

/// A square is never negative.
pub proof fn lemma_fx_mul_square(a: int)
    ensures
        fx_mul(a, a) >= 0,
{
    assert(a * a >= 0) by (nonlinear_arith);
    let p = a * a;
    assert(p / (ONE_RAW as int) >= 0) by (nonlinear_arith)
        requires
            p >= 0,
    ;
}

/// The product of two numbers between zero and one lies between zero and
/// the smaller of them.
pub proof fn lemma_fx_mul_of_shares(a: int, b: int)
    requires
        0 <= a <= ONE_RAW,
        0 <= b <= ONE_RAW,
    ensures
        0 <= fx_mul(a, b) <= a,
        fx_mul(a, b) <= b,
{
    let one = ONE_RAW as int;
    let p = a * b;
    assert(0 <= p <= a * one && p <= b * one) by (nonlinear_arith)
        requires
            0 <= a <= one,
            0 <= b <= one,
            p == a * b,
    ;
    assert(0 <= p / one <= a && p / one <= b) by (nonlinear_arith)
        requires
            0 <= p <= a * one,
            p <= b * one,
            one > 0,
    ;
}

/// Zero times a number is zero.
pub proof fn lemma_fx_mul_by_zero(a: int)
    ensures
        fx_mul(a, 0) == 0,
        fx_mul(0, a) == 0,
{
    assert(a * 0 == 0 && 0 * a == 0) by (nonlinear_arith);
}

/// One times a number is that number.
pub proof fn lemma_fx_mul_by_one(b: int)
    requires
        in_range(b),
    ensures
        fx_mul(ONE_RAW as int, b) == b,
{
    let one = ONE_RAW as int;
    let m = if b < 0 {
        -b
    } else {
        b
    };
    assert((one * m) / one == m) by (nonlinear_arith)
        requires
            one > 0,
    ;
    assert(one * b == one * m || one * b == -(one * m)) by (nonlinear_arith)
        requires
            m == b || m == -b,
    ;
    assert(one * m >= 0) by (nonlinear_arith)
        requires
            m >= 0,
            one > 0,
    ;
    if b < 0 {
        assert(one * b < 0) by (nonlinear_arith)
            requires
                b < 0,
                one > 0,
        ;
    }
}

/// A quotient whose dividend is, in magnitude, at most the divisor lies
/// between minus one and one.
pub proof fn lemma_fx_div_within_one(n: int, d: int)
    requires
        0 < d,
        -d <= n <= d,
    ensures
        -ONE_RAW <= fx_div(n, d) <= ONE_RAW,
{
    let one = ONE_RAW as int;
    let m = if n < 0 {
        -n
    } else {
        n
    };
    let p = m * one;
    assert(0 <= p <= d * one) by (nonlinear_arith)
        requires
            0 <= m <= d,
            p == m * one,
            one > 0,
    ;
    assert(0 <= p / d <= one) by (nonlinear_arith)
        requires
            0 <= p <= d * one,
            d > 0,
    ;
    assert(n * one == p || n * one == -p) by (nonlinear_arith)
        requires
            m == n || m == -n,
            p == m * one,
    ;
    if n < 0 {
        assert(n * one <= 0) by (nonlinear_arith)
            requires
                n < 0,
                one > 0,
        ;
    }
}

/// Dividing by a divisor that is not negative keeps the order of the dividends.
pub proof fn lemma_fx_div_monotonic(smaller: int, larger: int, d: int)
    requires
        smaller <= larger,
        d >= 0,
    ensures
        fx_div(smaller, d) <= fx_div(larger, d),
{
    if d > 0 {
        let one = ONE_RAW as int;
        let low = smaller * one;
        let high = larger * one;
        assert(low <= high) by (nonlinear_arith)
            requires
                smaller <= larger,
                low == smaller * one,
                high == larger * one,
                one > 0,
        ;
        assert((low >= 0) == (smaller >= 0) && (high >= 0) == (larger >= 0)) by (nonlinear_arith)
            requires
                low == smaller * one,
                high == larger * one,
                one > 0,
        ;
        if low >= 0 {
            assert(low / d <= high / d) by (nonlinear_arith)
                requires
                    0 <= low <= high,
                    d > 0,
            ;
        } else if high >= 0 {
            let minus_low = -low;
            assert(minus_low / d >= 0 && high / d >= 0) by (nonlinear_arith)
                requires
                    minus_low >= 0,
                    high >= 0,
                    d > 0,
            ;
        } else {
            let minus_low = -low;
            let minus_high = -high;
            assert(minus_high / d <= minus_low / d) by (nonlinear_arith)
                requires
                    0 <= minus_high <= minus_low,
                    d > 0,
            ;
        }
        assert(tdiv(low, d) <= tdiv(high, d));
    }
}

/// A square root is not negative.
pub proof fn lemma_fx_sqrt_nonnegative(a: int)
    ensures
        fx_sqrt(a) >= 0,
{
    if a >= 0 {
        let n = a * ONE_RAW;
        assert(n >= 0) by (nonlinear_arith)
            requires
                a >= 0,
                n == a * ONE_RAW,
        ;
        lemma_floor_sqrt_exists(n);
    }
}

/// The quotient of a widened dividend by a nonzero divisor, rounded toward zero.
fn quotient(n: i128, d: i64) -> (q: i128)
    requires
        d != 0,
        -0x1_0000_0000_0000_0000_0000_0000 <= n <= 0x1_0000_0000_0000_0000_0000_0000,
    ensures
        q == tdiv(n as int, d as int),
{
    if d > 0 {
        n / (d as i128)
    } else {
        let m: i128 = -(d as i128);
        let q: i128 = n / m;
        proof {
            if n >= 0 {
                assert(0 <= (n as int) / (m as int) <= n) by (nonlinear_arith)
                    requires
                        n >= 0,
                        m >= 1,
                ;
            } else {
                let k = -(n as int);
                assert(0 <= k / (m as int) <= k) by (nonlinear_arith)
                    requires
                        k >= 0,
                        m >= 1,
                ;
            }
        }
        -q
    }
}

/// The magnitude of a raw value.
fn magnitude(v: i64) -> (m: u128)
    ensures
        m == v || m == -v,
        m <= 0x8000_0000_0000_0000,
{
    if v < 0 {
        (-(v as i128)) as u128
    } else {
        v as u128
    }
}

/// The square of a magnitude fits in 127 bits.
proof fn lemma_square_bound(m: int)
    requires
        0 <= m <= 0x8000_0000_0000_0000,
    ensures
        0 <= m * m <= 0x4000_0000_0000_0000_0000_0000_0000_0000,
{
    assert(0 <= m * m <= 0x4000_0000_0000_0000_0000_0000_0000_0000) by (nonlinear_arith)
        requires
            0 <= m <= 0x8000_0000_0000_0000,
    ;
}

/// The square root of `n`, rounded down.
fn integer_sqrt(n: u128) -> (root: u128)
    ensures
        is_floor_sqrt(n as int, root as int),
{
    let mut lo: u128 = 0;
    let mut hi: u128 = 0x1_0000_0000_0000_0000;
    assert(lo * lo <= n < hi * hi) by (nonlinear_arith)
        requires
            lo == 0,
            hi == 0x1_0000_0000_0000_0000,
            n <= 0xffff_ffff_ffff_ffff_ffff_ffff_ffff_ffff,
    ;
    while hi - lo > 1
        invariant
            lo < hi <= 0x1_0000_0000_0000_0000,
            lo * lo <= n < hi * hi,
        decreases hi - lo,
    {
        let mid: u128 = lo + (hi - lo) / 2;
        assert(mid * mid <= 0xffff_ffff_ffff_ffff * 0xffff_ffff_ffff_ffff) by (nonlinear_arith)
            requires
                0 <= mid <= 0xffff_ffff_ffff_ffff,
        ;
        if mid * mid <= n {
            lo = mid;
        } else {
            hi = mid;
        }
    }
    assert(hi == lo + 1);
    lo
}

/// A fixed-point number: a multiple of 2^-32 in `[-MAX_RAW, MAX_RAW]`.
#[derive(Clone, Copy, Debug, PartialEq, Eq, Structural)]
pub struct Fixed {
    raw: i64,
}

impl View for Fixed {
    type V = int;

    /// The raw value: the number times 2^32.
    closed spec fn view(&self) -> int {
        self.raw as int
    }
}

impl Fixed {
    /// Every value lies in the symmetric range.
    #[verifier::type_invariant]
    pub open spec fn inv(self) -> bool {
        in_range(self@)
    }

    /// The value with a given raw value (for `in_range(v)`).
    pub closed spec fn of(v: int) -> Fixed {
        Fixed { raw: v as i64 }
    }

    /// `of` and the view are inverse to each other.
    pub proof fn lemma_of_view(v: int)
        requires
            in_range(v),
        ensures
            Fixed::of(v)@ == v,
    {
    }

    /// Two values with the same raw value are the same value.
    pub proof fn lemma_view_injective(a: Fixed, b: Fixed)
        requires
            a@ == b@,
        ensures
            a == b,
    {
    }

    /// The value with raw value `raw`, saturated.
    pub fn from_raw(raw: i64) -> (r: Fixed)
        ensures
            r@ == sat(raw as int),
    {
        if raw < -MAX_RAW {
            Fixed { raw: -MAX_RAW }
        } else {
            Fixed { raw }
        }
    }

    /// The raw value.
    pub fn to_raw(self) -> (r: i64)
        ensures
            r == self@,
            in_range(r as int),
    {
        proof {
            use_type_invariant(&self);
        }
        self.raw
    }

    /// The whole number `n`.
    pub fn from_int(n: i32) -> (r: Fixed)
        ensures
            r@ == sat(n * ONE_RAW),
    {
        let wide: i128 = (n as i128) * (ONE_RAW as i128);
        Fixed::saturate(wide)
    }

    /// The whole number `n`.
    pub fn from_usize(n: usize) -> (r: Fixed)
        ensures
            r@ == sat(n * ONE_RAW),
    {
        if n >= 0x8000_0000 {
            Fixed { raw: MAX_RAW }
        } else {
            Fixed { raw: (n as i64) * ONE_RAW }
        }
    }

    /// The fraction `num / den`, rounded toward zero.
    pub fn from_ratio(num: i64, den: i64) -> (r: Fixed)
        ensures
            r@ == fx_div(sat(num as int), sat(den as int)),
    {
        Fixed::from_raw(num) / Fixed::from_raw(den)
    }

    /// The number zero.
    pub fn zero() -> (r: Fixed)
        ensures
            r@ == 0,
    {
        Fixed { raw: 0 }
    }

    /// The number one.
    pub fn one() -> (r: Fixed)
        ensures
            r@ == ONE_RAW,
    {
        Fixed { raw: ONE_RAW }
    }

    /// The largest value; it stands for an unbounded ray parameter.
    pub fn max_value() -> (r: Fixed)
        ensures
            r@ == MAX_RAW,
    {
        Fixed { raw: MAX_RAW }
    }

    /// The value nearest to the raw value `wide`.
    fn saturate(wide: i128) -> (r: Fixed)
        ensures
            r@ == sat(wide as int),
    {
        if wide > MAX_RAW as i128 {
            Fixed { raw: MAX_RAW }
        } else if wide < -(MAX_RAW as i128) {
            Fixed { raw: -MAX_RAW }
        } else {
            Fixed { raw: wide as i64 }
        }
    }

    /// The magnitude.
    pub fn abs(self) -> (r: Fixed)
        ensures
            r@ == fx_abs(self@),
            r@ >= 0,
    {
        proof {
            use_type_invariant(&self);
        }
        if self.raw < 0 {
            Fixed { raw: -self.raw }
        } else {
            self
        }
    }

    /// The smaller of the two.
    pub fn min(self, other: Fixed) -> (r: Fixed)
        ensures
            r@ == fx_min(self@, other@),
    {
        if self.raw < other.raw {
            self
        } else {
            other
        }
    }

    /// The value brought into `[lo, hi]`.
    pub fn clamp(self, lo: Fixed, hi: Fixed) -> (r: Fixed)
        requires
            lo@ <= hi@,
        ensures
            r@ == if self@ < lo@ {
                lo@
            } else if self@ > hi@ {
                hi@
            } else {
                self@
            },
    {
        if self.raw < lo.raw {
            lo
        } else if self.raw > hi.raw {
            hi
        } else {
            self
        }
    }

    /// Whether this number is less than `other`.
    pub fn lt(self, other: Fixed) -> (r: bool)
        ensures
            r == (self@ < other@),
    {
        self.raw < other.raw
    }

    /// Whether this number is at most `other`.
    pub fn le(self, other: Fixed) -> (r: bool)
        ensures
            r == (self@ <= other@),
    {
        self.raw <= other.raw
    }

    /// Whether this number is greater than `other`.
    pub fn gt(self, other: Fixed) -> (r: bool)
        ensures
            r == (self@ > other@),
    {
        self.raw > other.raw
    }

    pub fn is_negative(self) -> (r: bool)
        ensures
            r == (self@ < 0),
    {
        self.raw < 0
    }

    pub fn is_zero(self) -> (r: bool)
        ensures
            r == (self@ == 0),
    {
        self.raw == 0
    }

    /// The square root, rounded down to a multiple of 2^-32.
    pub fn sqrt(self) -> (r: Fixed)
        ensures
            r@ == fx_sqrt(self@),
            r@ >= 0,
            self@ >= 0 ==> is_floor_sqrt(self@ * ONE_RAW, r@),
    {
        if self.raw < 0 {
            return Fixed { raw: 0 };
        }
        let n: u128 = (self.raw as u128) * (ONE_RAW as u128);
        let root = integer_sqrt(n);
        proof {
            lemma_floor_sqrt_is(self@ * ONE_RAW, root as int);
            assert(root < 0x1_0000_0000_0000) by (nonlinear_arith)
                requires
                    root * root <= n,
                    n < 0x8000_0000_0000_0000_0000_0000,
            ;
        }
        Fixed { raw: root as i64 }
    }

    /// The Euclidean length of the vector with the components `x`, `y`
    /// and `z`, rounded down to a multiple of 2^-32.
    pub fn hypot(x: Fixed, y: Fixed, z: Fixed) -> (r: Fixed)
        ensures
            r@ == fx_hypot(x@, y@, z@),
            r@ >= 0,
    {
        let a: u128 = magnitude(x.raw);
        let b: u128 = magnitude(y.raw);
        let c: u128 = magnitude(z.raw);
        proof {
            lemma_square_bound(a as int);
            lemma_square_bound(b as int);
            lemma_square_bound(c as int);
            assert(a * a == x@ * x@) by (nonlinear_arith)
                requires
                    a == x@ || a == -x@,
            ;
            assert(b * b == y@ * y@) by (nonlinear_arith)
                requires
                    b == y@ || b == -y@,
            ;
            assert(c * c == z@ * z@) by (nonlinear_arith)
                requires
                    c == z@ || c == -z@,
            ;
        }
        let n: u128 = a * a + b * b + c * c;
        let root = integer_sqrt(n);
        proof {
            lemma_floor_sqrt_is(x@ * x@ + y@ * y@ + z@ * z@, root as int);
        }
        if root > MAX_RAW as u128 {
            Fixed { raw: MAX_RAW }
        } else {
            Fixed { raw: root as i64 }
        }
    }

    /// The fifth power, by repeated multiplication.
    pub fn pow5(self) -> (r: Fixed)
        ensures
            r@ == fx_pow5(self@),
    {
        let a2 = self * self;
        let a4 = a2 * a2;
        a4 * self
    }
}

impl Neg for Fixed {
    type Output = Fixed;

    fn neg(self) -> (r: Fixed)
        ensures
            r@ == fx_neg(self@),
            r@ == -self@,
    {
        proof {
            use_type_invariant(&self);
        }
        Fixed { raw: -self.raw }
    }
}

impl vstd::std_specs::ops::NegSpecImpl for Fixed {
    open spec fn obeys_neg_spec() -> bool {
        true
    }

    open spec fn neg_req(self) -> bool {
        true
    }

    open spec fn neg_spec(self) -> Fixed {
        Fixed::of(fx_neg(self@))
    }
}

impl Add for Fixed {
    type Output = Fixed;

    fn add(self, rhs: Fixed) -> (r: Fixed)
        ensures
            r@ == fx_add(self@, rhs@),
    {
        Fixed::saturate((self.raw as i128) + (rhs.raw as i128))
    }
}

impl vstd::std_specs::ops::AddSpecImpl for Fixed {
    open spec fn obeys_add_spec() -> bool {
        true
    }

    open spec fn add_req(self, rhs: Fixed) -> bool {
        true
    }

    open spec fn add_spec(self, rhs: Fixed) -> Fixed {
        Fixed::of(fx_add(self@, rhs@))
    }
}

impl Sub for Fixed {
    type Output = Fixed;

    fn sub(self, rhs: Fixed) -> (r: Fixed)
        ensures
            r@ == fx_sub(self@, rhs@),
    {
        Fixed::saturate((self.raw as i128) - (rhs.raw as i128))
    }
}

impl vstd::std_specs::ops::SubSpecImpl for Fixed {
    open spec fn obeys_sub_spec() -> bool {
        true
    }

    open spec fn sub_req(self, rhs: Fixed) -> bool {
        true
    }

    open spec fn sub_spec(self, rhs: Fixed) -> Fixed {
        Fixed::of(fx_sub(self@, rhs@))
    }
}

impl Mul for Fixed {
    type Output = Fixed;

    fn mul(self, rhs: Fixed) -> (r: Fixed)
        ensures
            r@ == fx_mul(self@, rhs@),
    {
        let a = self.raw;
        let b = rhs.raw;
        assert(-0x4000_0000_0000_0000_0000_0000_0000_0000 <= a * b
            <= 0x4000_0000_0000_0000_0000_0000_0000_0000) by (nonlinear_arith)
            requires
                -0x8000_0000_0000_0000 <= a <= 0x7fff_ffff_ffff_ffff,
                -0x8000_0000_0000_0000 <= b <= 0x7fff_ffff_ffff_ffff,
        ;
        let wide: i128 = (a as i128) * (b as i128);
        Fixed::saturate(wide / (ONE_RAW as i128))
    }
}

impl vstd::std_specs::ops::MulSpecImpl for Fixed {
    open spec fn obeys_mul_spec() -> bool {
        true
    }

    open spec fn mul_req(self, rhs: Fixed) -> bool {
        true
    }

    open spec fn mul_spec(self, rhs: Fixed) -> Fixed {
        Fixed::of(fx_mul(self@, rhs@))
    }
}

impl Div for Fixed {
    type Output = Fixed;

    fn div(self, rhs: Fixed) -> (r: Fixed)
        ensures
            r@ == fx_div(self@, rhs@),
    {
        if rhs.raw != 0 {
            let a = self.raw;
            assert(-0x8000_0000_0000_0000_0000_0000 <= a * ONE_RAW
                <= 0x8000_0000_0000_0000_0000_0000) by (nonlinear_arith)
                requires
                    -0x8000_0000_0000_0000 <= a <= 0x7fff_ffff_ffff_ffff,
                    ONE_RAW == 0x1_0000_0000,
            ;
            let wide: i128 = (a as i128) * (ONE_RAW as i128);
            Fixed::saturate(quotient(wide, rhs.raw))
        } else if self.raw > 0 {
            Fixed { raw: MAX_RAW }
        } else if self.raw < 0 {
            Fixed { raw: -MAX_RAW }
        } else {
            Fixed { raw: 0 }
        }
    }
}

impl vstd::std_specs::ops::DivSpecImpl for Fixed {
    open spec fn obeys_div_spec() -> bool {
        true
    }

    open spec fn div_req(self, rhs: Fixed) -> bool {
        true
    }

    open spec fn div_spec(self, rhs: Fixed) -> Fixed {
        Fixed::of(fx_div(self@, rhs@))
    }
}

} // verus!
