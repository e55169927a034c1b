//! What rounding leaves of two laws of the Euclidean length: that a unit
//! vector is one long, and that the length scales with the vector.
use crate::fixed::{
    floor_sqrt, fx_div, fx_mul, in_range, lemma_floor_sqrt_exists, lemma_fx_div_within_one, sat,
    tdiv, MAX_RAW, ONE_RAW,
};
use crate::vec3::{
    has_length, is_nearly_unit, v3_in_range, v3_length, v3_scale, v3_unit, V3,
};
use vstd::prelude::*;

verus! {

/// The magnitude of an integer.
pub open spec fn magnitude(x: int) -> int {
    if x < 0 {
        -x
    } else {
        x
    }
}

/// The sum of the squares of the components.
pub open spec fn sum_of_squares(v: V3) -> int {
    v.x * v.x + v.y * v.y + v.z * v.z
}

/// A component `x` of a vector of length `len`, divided by that length: the
/// magnitude `q` of the quotient is at most one, and it is the magnitude of
/// `x` times 2^32 over `len`, rounded down.
proof fn lemma_unit_component(x: int, len: int) -> (q: int)
    requires
        1 <= len <= MAX_RAW,
        -len <= x <= len,
    ensures
        0 <= q <= ONE_RAW,
        q == magnitude(fx_div(x, len)),
        fx_div(x, len) * fx_div(x, len) == q * q,
        q * len <= magnitude(x) * ONE_RAW < (q + 1) * len,
{
    let one = ONE_RAW as int;
    let a = magnitude(x);
    let n = a * one;
    let q = n / len;
    assert(n == a * 0x1_0000_0000);
    assert(0 <= n <= len * 0x1_0000_0000);
    assert(q * len <= n && n < (q + 1) * len && q >= 0) by (nonlinear_arith)
        requires
            q == n / len,
            len > 0,
            n >= 0,
    ;
    assert(q <= 0x1_0000_0000) by (nonlinear_arith)
        requires
            q * len <= n,
            n <= len * 0x1_0000_0000,
            len > 0,
            q >= 0,
    ;
    assert((-x) * one == -(x * one)) by (nonlinear_arith);
    if x >= 0 {
        assert(tdiv(x * one, len) == q);
        assert(fx_div(x, len) == q);
    } else {
        assert(x * one < 0) by (nonlinear_arith)
            requires
                x < 0,
                one > 0,
        ;
        assert(tdiv(x * one, len) == -q);
        assert(fx_div(x, len) == -q);
        assert((-q) * (-q) == q * q) by (nonlinear_arith);
    }
    q
}

/// A component of a vector is, in magnitude, at most the vector's length
/// rounded down.
proof fn lemma_component_at_most_length(x: int, rest: int, len: int)
    requires
        rest >= 0,
        len >= 0,
        x * x + rest < (len + 1) * (len + 1),
    ensures
        -len <= x <= len,
{
    if x > len {
        assert(x * x >= (len + 1) * (len + 1)) by (nonlinear_arith)
            requires
                x >= len + 1,
                len >= 0,
        ;
    } else if x < -len {
        assert(x * x >= (len + 1) * (len + 1)) by (nonlinear_arith)
            requires
                x <= -(len + 1),
                len >= 0,
        ;
    }
}

/// A component divided by the length of its vector lies between minus one
/// and one.
proof fn lemma_unit_component_within_one(x: int, rest: int)
    requires
        in_range(x),
        rest >= 0,
    ensures
        -ONE_RAW <= fx_div(x, sat(floor_sqrt(x * x + rest))) <= ONE_RAW,
{
    let s = x * x + rest;
    assert(x * x >= 0) by (nonlinear_arith);
    lemma_floor_sqrt_exists(s);
    let root = floor_sqrt(s);
    lemma_component_at_most_length(x, rest, root);
    let len = sat(root);
    if len > 0 {
        lemma_fx_div_within_one(x, len);
    }
}

/// No component of a unit vector is larger than one in magnitude.
pub proof fn lemma_unit_vector_components(v: V3)
    requires
        v3_in_range(v),
    ensures
        -ONE_RAW <= v3_unit(v).x <= ONE_RAW,
        -ONE_RAW <= v3_unit(v).y <= ONE_RAW,
        -ONE_RAW <= v3_unit(v).z <= ONE_RAW,
{
    assert(v.x * v.x >= 0 && v.y * v.y >= 0 && v.z * v.z >= 0) by (nonlinear_arith);
    lemma_unit_component_within_one(v.x, v.y * v.y + v.z * v.z);
    lemma_unit_component_within_one(v.y, v.x * v.x + v.z * v.z);
    lemma_unit_component_within_one(v.z, v.x * v.x + v.y * v.y);
}

/// Of two numbers that are not negative, the one with the smaller square is
/// the smaller.
proof fn lemma_square_order(a: int, b: int)
    requires
        0 <= a,
        0 <= b,
        a * a < b * b,
    ensures
        a < b,
{
    if a >= b {
        assert(a * a >= b * b) by (nonlinear_arith)
            requires
                a >= b,
                b >= 0,
        ;
    }
}

/// Of two numbers that are not negative, the smaller has the smaller
/// square, or the same.
proof fn lemma_square_monotonic(a: int, b: int)
    requires
        0 <= a <= b,
    ensures
        a * a <= b * b,
{
    assert(a * a <= b * b) by (nonlinear_arith)
        requires
            0 <= a <= b,
    ;
}

/// The square of a product is the product of the squares.
proof fn lemma_square_of_product(a: int, b: int)
    ensures
        (a * b) * (a * b) == (a * a) * (b * b),
{
    assert((a * b) * (a * b) == (a * a) * (b * b)) by (nonlinear_arith);
}

/// The unit vector of a vector that has a length is one long, up to
/// rounding: it is shorter than one by at most four units of 2^-32, and
/// longer by at most one part in the length of the vector, counted in
/// those units. The length of the vector must not be zero, nor so large
/// that it saturates.
pub proof fn lemma_unit_vector_length(v: V3)
    requires
        v3_in_range(v),
        has_length(v),
    ensures
        is_nearly_unit(v3_unit(v), v3_length(v)),
{
    let one = ONE_RAW as int;
    let s = sum_of_squares(v);
    assert(s >= 0) by (nonlinear_arith)
        requires
            s == v.x * v.x + v.y * v.y + v.z * v.z,
    ;
    lemma_floor_sqrt_exists(s);
    let len = floor_sqrt(s);
    assert(len == v3_length(v));
    assert(v.x * v.x >= 0 && v.y * v.y >= 0 && v.z * v.z >= 0) by (nonlinear_arith);
    lemma_component_at_most_length(v.x, v.y * v.y + v.z * v.z, len);
    lemma_component_at_most_length(v.y, v.x * v.x + v.z * v.z, len);
    lemma_component_at_most_length(v.z, v.x * v.x + v.y * v.y, len);
    let qx = lemma_unit_component(v.x, len);
    let qy = lemma_unit_component(v.y, len);
    let qz = lemma_unit_component(v.z, len);
    let u = v3_unit(v);
    assert(u.x == fx_div(v.x, len) && u.y == fx_div(v.y, len) && u.z == fx_div(v.z, len));
    let total = qx * qx + qy * qy + qz * qz;
    assert(sum_of_squares(u) == total);
    assert(total >= 0) by (nonlinear_arith)
        requires
            total == qx * qx + qy * qy + qz * qz,
    ;
    lemma_floor_sqrt_exists(total);
    let r = floor_sqrt(total);
    let ax = magnitude(v.x);
    let ay = magnitude(v.y);
    let az = magnitude(v.z);
    assert(ax * ax == v.x * v.x && ay * ay == v.y * v.y && az * az == v.z * v.z)
        by (nonlinear_arith)
        requires
            ax == v.x || ax == -v.x,
            ay == v.y || ay == -v.y,
            az == v.z || az == -v.z,
    ;
    let len2 = len * len;
    let one2 = one * one;
    assert(len2 > 0) by (nonlinear_arith)
        requires
            len >= 1,
            len2 == len * len,
    ;

    // From above: total * len^2 <= s * one^2 < ((len + 1) * one)^2.
    lemma_square_monotonic(qx * len, ax * one);
    lemma_square_monotonic(qy * len, ay * one);
    lemma_square_monotonic(qz * len, az * one);
    lemma_square_of_product(qx, len);
    lemma_square_of_product(qy, len);
    lemma_square_of_product(qz, len);
    lemma_square_of_product(ax, one);
    lemma_square_of_product(ay, one);
    lemma_square_of_product(az, one);
    assert(total * len2 == (qx * qx) * len2 + (qy * qy) * len2 + (qz * qz) * len2)
        by (nonlinear_arith)
        requires
            total == qx * qx + qy * qy + qz * qz,
    ;
    assert(s * one2 == (ax * ax) * one2 + (ay * ay) * one2 + (az * az) * one2)
        by (nonlinear_arith)
        requires
            s == ax * ax + ay * ay + az * az,
    ;
    assert(total * len2 <= s * one2);
    let next = len + 1;
    assert(s * one2 < (next * next) * one2) by (nonlinear_arith)
        requires
            s < next * next,
            one2 > 0,
    ;
    lemma_square_of_product(next, one);
    lemma_square_of_product(r, len);
    assert((r * r) * len2 <= total * len2) by (nonlinear_arith)
        requires
            r * r <= total,
            len2 >= 0,
    ;
    assert(r * len >= 0 && next * one >= 0) by (nonlinear_arith)
        requires
            r >= 0,
            len >= 0,
            next >= 0,
            one >= 0,
    ;
    lemma_square_order(r * len, next * one);
    assert(next * one == one * (len + 1)) by (nonlinear_arith)
        requires
            next == len + 1,
    ;

    // From below: the squares of the quotients, each plus one, add up to
    // more than one^2.
    let px = qx + 1;
    let py = qy + 1;
    let pz = qz + 1;
    lemma_square_order_strict(ax * one, px * len);
    lemma_square_order_strict(ay * one, py * len);
    lemma_square_order_strict(az * one, pz * len);
    lemma_square_of_product(px, len);
    lemma_square_of_product(py, len);
    lemma_square_of_product(pz, len);
    let above = px * px + py * py + pz * pz;
    assert(above * len2 == (px * px) * len2 + (py * py) * len2 + (pz * pz) * len2)
        by (nonlinear_arith)
        requires
            above == px * px + py * py + pz * pz,
    ;
    assert(above * len2 > s * one2);
    assert(s * one2 >= len2 * one2) by (nonlinear_arith)
        requires
            s >= len2,
            one2 >= 0,
    ;
    assert(above > one2) by (nonlinear_arith)
        requires
            above * len2 > len2 * one2,
            len2 > 0,
    ;
    assert(above == total + 2 * (qx + qy + qz) + 3) by (nonlinear_arith)
        requires
            above == px * px + py * py + pz * pz,
            total == qx * qx + qy * qy + qz * qz,
            px == qx + 1,
            py == qy + 1,
            pz == qz + 1,
    ;
    assert(one2 == 0x1_0000_0000_0000_0000);
    assert(total > 0x1_0000_0000_0000_0000 - 6 * 0x1_0000_0000 - 3);
    if r < one - 4 {
        let t = r + 1;
        assert(t * t <= (one - 4) * (one - 4)) by (nonlinear_arith)
            requires
                0 <= t <= one - 4,
        ;
        assert((one - 4) * (one - 4) == 0x1_0000_0000_0000_0000 - 8 * 0x1_0000_0000 + 16);
        assert(false);
    }
    assert(total <= 3 * one2) by (nonlinear_arith)
        requires
            total == qx * qx + qy * qy + qz * qz,
            0 <= qx <= one,
            0 <= qy <= one,
            0 <= qz <= one,
            one2 == one * one,
    ;
    assert(r <= MAX_RAW) by (nonlinear_arith)
        requires
            r * r <= total,
            total <= 3 * 0x1_0000_0000_0000_0000,
            r >= 0,
    ;
    assert(v3_length(u) == r);
}

/// Of two numbers that are not negative, the larger has the larger square.
proof fn lemma_square_order_strict(a: int, b: int)
    requires
        0 <= a < b,
    ensures
        a * a < b * b,
{
    assert(a * a < b * b) by (nonlinear_arith)
        requires
            0 <= a < b,
    ;
}

/// The product of a component `a` and a factor `c` that does not
/// saturate: its magnitude `m` is the product of the magnitudes over 2^32,
/// rounded down.
proof fn lemma_scaled_component(a: int, c: int) -> (m: int)
    requires
        magnitude(a) * magnitude(c) <= MAX_RAW * ONE_RAW,
    ensures
        0 <= m,
        m == magnitude(fx_mul(a, c)),
        fx_mul(a, c) * fx_mul(a, c) == m * m,
        m * ONE_RAW <= magnitude(a) * magnitude(c) < (m + 1) * ONE_RAW,
{
    let one = ONE_RAW as int;
    let n = magnitude(a) * magnitude(c);
    assert(n >= 0) by (nonlinear_arith)
        requires
            n == magnitude(a) * magnitude(c),
            magnitude(a) >= 0,
            magnitude(c) >= 0,
    ;
    let m = n / one;
    assert(a * c == n || a * c == -n) by (nonlinear_arith)
        requires
            n == magnitude(a) * magnitude(c),
            magnitude(a) == a || magnitude(a) == -a,
            magnitude(c) == c || magnitude(c) == -c,
    ;
    assert(n <= MAX_RAW * 0x1_0000_0000);
    assert(0 <= m <= MAX_RAW);
    if a * c >= 0 {
        assert(tdiv(a * c, one) == m);
    } else {
        assert(tdiv(a * c, one) == -m);
        assert((-m) * (-m) == m * m) by (nonlinear_arith);
    }
    m
}

/// The square of a sum of three numbers is at most three times the sum of
/// their squares.
proof fn lemma_square_of_sum(x: int, y: int, z: int)
    ensures
        (x + y + z) * (x + y + z) <= 3 * (x * x + y * y + z * z),
{
    let d = x - y;
    let e = y - z;
    let f = x - z;
    assert(d * d >= 0 && e * e >= 0 && f * f >= 0) by (nonlinear_arith);
    assert((x + y + z) * (x + y + z) <= 3 * (x * x + y * y + z * z)) by (nonlinear_arith)
        requires
            d == x - y,
            e == y - z,
            f == x - z,
            d * d >= 0,
            e * e >= 0,
            f * f >= 0,
    ;
}

/// The length of a scaled vector is the length of the vector times the
/// magnitude of the factor, up to rounding: it is shorter by at most two
/// units of 2^-32, and longer by at most one unit and one for each whole
/// that the factor holds. Neither the scaled vector nor the product of the
/// lengths may saturate.
pub proof fn lemma_scaled_length(a: V3, c: int)
    requires
        v3_in_range(a),
        in_range(c),
        v3_length(a) < MAX_RAW,
        magnitude(c) * (v3_length(a) + 1) <= MAX_RAW * ONE_RAW,
    ensures
        fx_mul(magnitude(c), v3_length(a)) - 2 <= v3_length(v3_scale(a, c)),
        v3_length(v3_scale(a, c)) <= fx_mul(magnitude(c), v3_length(a)) + 1 + magnitude(c)
            / (ONE_RAW as int),
{
    let one = ONE_RAW as int;
    let big = magnitude(c);
    let s = sum_of_squares(a);
    assert(s >= 0) by (nonlinear_arith)
        requires
            s == a.x * a.x + a.y * a.y + a.z * a.z,
    ;
    lemma_floor_sqrt_exists(s);
    let len = floor_sqrt(s);
    assert(len == v3_length(a));
    assert(a.x * a.x >= 0 && a.y * a.y >= 0 && a.z * a.z >= 0) by (nonlinear_arith);
    lemma_component_at_most_length(a.x, a.y * a.y + a.z * a.z, len);
    lemma_component_at_most_length(a.y, a.x * a.x + a.z * a.z, len);
    lemma_component_at_most_length(a.z, a.x * a.x + a.y * a.y, len);
    let ax = magnitude(a.x);
    let ay = magnitude(a.y);
    let az = magnitude(a.z);
    let next = len + 1;
    assert(ax * big <= next * big && ay * big <= next * big && az * big <= next * big
        && len * big <= next * big) by (nonlinear_arith)
        requires
            0 <= ax <= len,
            0 <= ay <= len,
            0 <= az <= len,
            next == len + 1,
            big >= 0,
    ;
    assert(next * big == big * (len + 1)) by (nonlinear_arith)
        requires
            next == len + 1,
    ;
    let mx = lemma_scaled_component(a.x, c);
    let my = lemma_scaled_component(a.y, c);
    let mz = lemma_scaled_component(a.z, c);
    let scaled = v3_scale(a, c);
    let total = mx * mx + my * my + mz * mz;
    assert(sum_of_squares(scaled) == total);
    assert(total >= 0) by (nonlinear_arith)
        requires
            total == mx * mx + my * my + mz * mz,
    ;
    lemma_floor_sqrt_exists(total);
    let r = floor_sqrt(total);

    // The product of the lengths.
    let product = (big * len) / one;
    assert(big * len >= 0) by (nonlinear_arith)
        requires
            big >= 0,
            len >= 0,
    ;
    assert(big * len == len * big) by (nonlinear_arith);
    assert(tdiv(big * len, one) == product);
    assert(0 <= product <= MAX_RAW);
    assert(fx_mul(big, len) == product);
    assert(product * one <= big * len < (product + 1) * one);

    assert(ax * ax == a.x * a.x && ay * ay == a.y * a.y && az * az == a.z * a.z)
        by (nonlinear_arith)
        requires
            ax == a.x || ax == -a.x,
            ay == a.y || ay == -a.y,
            az == a.z || az == -a.z,
    ;
    let big2 = big * big;
    let one2 = one * one;
    assert(big2 >= 0) by (nonlinear_arith)
        requires
            big2 == big * big,
    ;

    // From above: total * one^2 <= s * big^2 < ((len + 1) * big)^2.
    lemma_square_monotonic(mx * one, ax * big);
    lemma_square_monotonic(my * one, ay * big);
    lemma_square_monotonic(mz * one, az * big);
    lemma_square_of_product(mx, one);
    lemma_square_of_product(my, one);
    lemma_square_of_product(mz, one);
    lemma_square_of_product(ax, big);
    lemma_square_of_product(ay, big);
    lemma_square_of_product(az, big);
    assert(total * one2 == (mx * mx) * one2 + (my * my) * one2 + (mz * mz) * one2)
        by (nonlinear_arith)
        requires
            total == mx * mx + my * my + mz * mz,
    ;
    assert(s * big2 == (ax * ax) * big2 + (ay * ay) * big2 + (az * az) * big2)
        by (nonlinear_arith)
        requires
            s == ax * ax + ay * ay + az * az,
    ;
    assert(total * one2 <= s * big2);
    lemma_square_of_product(r, one);
    assert((r * r) * one2 <= total * one2) by (nonlinear_arith)
        requires
            r * r <= total,
            one2 >= 0,
    ;
    assert(r * one >= 0);
    assert(next * big == len * big + big) by (nonlinear_arith)
        requires
            next == len + 1,
    ;
    if big == 0 {
        assert(big2 == 0) by (nonlinear_arith)
            requires
                big == 0,
                big2 == big * big,
        ;
        assert(s * big2 == 0) by (nonlinear_arith)
            requires
                big2 == 0,
        ;
        assert(r == 0) by (nonlinear_arith)
            requires
                (r * one) * (r * one) <= 0,
                r >= 0,
                one > 0,
        ;
    } else {
        assert(big2 > 0) by (nonlinear_arith)
            requires
                big >= 1,
                big2 == big * big,
        ;
        assert(s * big2 < (next * next) * big2) by (nonlinear_arith)
            requires
                s < next * next,
                big2 > 0,
        ;
        lemma_square_of_product(next, big);
        assert(next * big >= 0);
        lemma_square_order(r * one, next * big);
    }
    assert(r * one < (product + 1) * one + big);
    let wholes = big / one;
    assert(big < (wholes + 1) * one);
    assert(r <= product + 1 + wholes);
    assert(r * one <= MAX_RAW * one);
    assert(r <= MAX_RAW);
    assert(v3_length(scaled) == r);

    // From below.
    if product >= 3 && r <= product - 3 {
        let w = product - 2;
        let t = r + 1;
        assert(t * t <= w * w) by (nonlinear_arith)
            requires
                0 <= t <= w,
        ;
        assert(total < w * w);
        let px = mx + 1;
        let py = my + 1;
        let pz = mz + 1;
        lemma_square_order_strict(ax * big, px * one);
        lemma_square_order_strict(ay * big, py * one);
        lemma_square_order_strict(az * big, pz * one);
        lemma_square_of_product(px, one);
        lemma_square_of_product(py, one);
        lemma_square_of_product(pz, one);
        let above = px * px + py * py + pz * pz;
        assert(above * one2 == (px * px) * one2 + (py * py) * one2 + (pz * pz) * one2)
            by (nonlinear_arith)
            requires
                above == px * px + py * py + pz * pz,
        ;
        assert(above * one2 > s * big2);
        let len2 = len * len;
        assert(s * big2 >= len2 * big2) by (nonlinear_arith)
            requires
                s >= len2,
                big2 >= 0,
        ;
        lemma_square_of_product(len, big);
        lemma_square_monotonic(product * one, len * big);
        lemma_square_of_product(product, one);
        assert(above * one2 > (product * product) * one2);
        assert(above > product * product) by (nonlinear_arith)
            requires
                above * one2 > (product * product) * one2,
                one2 > 0,
        ;
        let sum = mx + my + mz;
        lemma_square_of_sum(mx, my, mz);
        assert(sum * sum < 4 * (w * w)) by (nonlinear_arith)
            requires
                sum * sum <= 3 * total,
                total < w * w,
        ;
        assert((2 * w) * (2 * w) == 4 * (w * w)) by (nonlinear_arith);
        lemma_square_order(sum, 2 * w);
        assert(above == total + 2 * sum + 3) by (nonlinear_arith)
            requires
                above == px * px + py * py + pz * pz,
                total == mx * mx + my * my + mz * mz,
                sum == mx + my + mz,
                px == mx + 1,
                py == my + 1,
                pz == mz + 1,
        ;
        assert(product * product == w * w + 4 * w + 4) by (nonlinear_arith)
            requires
                product == w + 2,
        ;
        assert(false);
    }
}

} // verus!
