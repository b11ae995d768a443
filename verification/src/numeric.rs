//! Integer square roots, greatest common divisors and exact ratios of
//! integers.

use vstd::prelude::*;

verus! {

/// `r` is the largest integer whose square does not exceed `n`.
pub open spec fn is_sqrt_floor(n: int, r: int) -> bool {
    0 <= r && r * r <= n < (r + 1) * (r + 1)
}

/// The integer square root of `n`, rounded down.
pub open spec fn isqrt(n: nat) -> nat
    decreases n,
{
    if n == 0 {
        0
    } else {
        let r = isqrt((n - 1) as nat);
        if (r + 1) * (r + 1) <= n {
            r + 1
        } else {
            r
        }
    }
}

/// `isqrt(n)` is the floor of the square root of `n`.
pub proof fn lemma_isqrt_is_floor(n: nat)
    ensures
        is_sqrt_floor(n as int, isqrt(n) as int),
    decreases n,
{
    if n > 0 {
        lemma_isqrt_is_floor((n - 1) as nat);
        let r = isqrt((n - 1) as nat) as int;
        assert((r + 2) * (r + 2) == (r + 1) * (r + 1) + 2 * r + 3) by (nonlinear_arith);
    }
}

/// The floor of a square root is unique.
pub proof fn lemma_sqrt_floor_unique(n: int, a: int, b: int)
    requires
        is_sqrt_floor(n, a),
        is_sqrt_floor(n, b),
    ensures
        a == b,
{
    if a < b {
        assert((a + 1) * (a + 1) <= b * b) by (nonlinear_arith)
            requires
                0 <= a,
                a + 1 <= b,
        ;
    } else if b < a {
        assert((b + 1) * (b + 1) <= a * a) by (nonlinear_arith)
            requires
                0 <= b,
                b + 1 <= a,
        ;
    }
}

/// Any floor of the square root of `n` is `isqrt(n)`.
pub proof fn lemma_isqrt_from_floor(n: nat, r: int)
    requires
        is_sqrt_floor(n as int, r),
    ensures
        isqrt(n) == r,
{
    lemma_isqrt_is_floor(n);
    lemma_sqrt_floor_unique(n as int, r, isqrt(n) as int);
}

/// Computes the integer square root of `n` by bisection.
pub fn integer_sqrt(n: u64) -> (r: u64)
    ensures
        r == isqrt(n as nat),
        is_sqrt_floor(n as int, r as int),
        r <= 4294967295,
{
    let mut lo: u64 = 0;
    let mut hi: u64 = 4294967296;
    while hi - lo > 1
        invariant
            lo < hi <= 4294967296,
            lo * lo <= n < hi * hi,
        decreases hi - lo,
    {
        let mid: u64 = lo + (hi - lo) / 2;
        assert(mid * mid <= 4294967295 * 4294967295) by (nonlinear_arith)
            requires
                0 <= mid <= 4294967295,
        ;
        if mid * mid <= n {
            lo = mid;
        } else {
            hi = mid;
        }
    }
    proof {
        lemma_isqrt_from_floor(n as nat, lo as int);
    }
    lo
}

/// The exact ratio of two integers, as a real number.
pub open spec fn ratio(n: int, d: int) -> real {
    n as real / d as real
}

/// Multiplying integers and then reading the product as a real number gives
/// the product of the two real numbers.
pub proof fn lemma_real_mul(x: int, y: int)
    ensures
        (x * y) as real == x as real * y as real,
{
    assert((x * y) as real == x as real * y as real) by (nonlinear_arith);
}

/// Ratios with positive denominators compare as their cross products do.
pub proof fn lemma_ratio_less(a: int, s: int, b: int, t: int)
    requires
        s > 0,
        t > 0,
    ensures
        ratio(a, s) < ratio(b, t) <==> a * t < b * s,
{
    lemma_real_mul(a, t);
    lemma_real_mul(b, s);
    let ra = a as real;
    let rb = b as real;
    let rs = s as real;
    let rt = t as real;
    assert((ra / rs < rb / rt) <==> (ra * rt < rb * rs)) by (nonlinear_arith)
        requires
            rs > 0real,
            rt > 0real,
    ;
    assert((a * t < b * s) <==> (((a * t) as real) < ((b * s) as real)));
}

/// Ratios with positive denominators are equal where their cross products are.
pub proof fn lemma_ratio_equal(a: int, s: int, b: int, t: int)
    requires
        s > 0,
        t > 0,
    ensures
        ratio(a, s) == ratio(b, t) <==> a * t == b * s,
{
    lemma_ratio_less(a, s, b, t);
    lemma_ratio_less(b, t, a, s);
}

/// The difference of two ratios over one denominator.
pub proof fn lemma_ratio_difference(a: int, b: int, s: int)
    requires
        s > 0,
    ensures
        ratio(b, s) - ratio(a, s) == ratio(b - a, s),
{
    let ra = a as real;
    let rb = b as real;
    let rs = s as real;
    assert(rb / rs - ra / rs == (rb - ra) / rs) by (nonlinear_arith)
        requires
            rs > 0real,
    ;
}

/// The product of two ratios is the whole number `q` exactly where the
/// product of the numerators is `q` times the product of the denominators.
pub proof fn lemma_ratio_product(dx: int, sx: int, dz: int, sz: int, q: int)
    requires
        sx > 0,
        sz > 0,
    ensures
        ratio(dx, sx) * ratio(dz, sz) == q as real <==> dx * dz == q * (sx * sz),
{
    let rx = dx as real;
    let rz = dz as real;
    let ra = sx as real;
    let rb = sz as real;
    let rq = q as real;
    lemma_real_mul(dx, dz);
    lemma_real_mul(sx, sz);
    lemma_real_mul(q, sx * sz);
    assert(((rx / ra) * (rz / rb) == rq) <==> (rx * rz == rq * (ra * rb))) by (nonlinear_arith)
        requires
            ra > 0real,
            rb > 0real,
    ;
    assert((dx * dz == q * (sx * sz)) <==> ((dx * dz) as real == (q * (sx * sz)) as real));
}

/// The product of two ratios exceeds the whole number `q` exactly where the
/// product of the numerators exceeds `q` times the product of the
/// denominators.
pub proof fn lemma_ratio_product_exceeds(dx: int, sx: int, dz: int, sz: int, q: int)
    requires
        sx > 0,
        sz > 0,
    ensures
        ((q as real) < ratio(dx, sx) * ratio(dz, sz)) <==> q * (sx * sz) < dx * dz,
{
    let rx = dx as real;
    let rz = dz as real;
    let ra = sx as real;
    let rb = sz as real;
    let rq = q as real;
    lemma_real_mul(dx, dz);
    lemma_real_mul(sx, sz);
    lemma_real_mul(q, sx * sz);
    assert((rq < (rx / ra) * (rz / rb)) <==> (rq * (ra * rb) < rx * rz)) by (nonlinear_arith)
        requires
            ra > 0real,
            rb > 0real,
    ;
    assert((q * (sx * sz) < dx * dz) <==> (((q * (sx * sz)) as real) < ((dx * dz) as real)));
}

/// The sum of two ratios over one denominator.
pub proof fn lemma_ratio_sum(a: int, b: int, s: int)
    requires
        s > 0,
    ensures
        ratio(a, s) + ratio(b, s) == ratio(a + b, s),
{
    let ra = a as real;
    let rb = b as real;
    let rs = s as real;
    assert(ra / rs + rb / rs == (ra + rb) / rs) by (nonlinear_arith)
        requires
            rs > 0real,
    ;
}

/// The greatest common divisor of `a` and `b`; that of 0 and 0 is 0.
pub open spec fn gcd(a: nat, b: nat) -> nat
    decreases b,
{
    if b == 0 {
        a
    } else {
        gcd(b, a % b)
    }
}

/// The greatest common divisor of two numbers that are not both 0 is
/// positive and divides both.
pub proof fn lemma_gcd_divides(a: nat, b: nat)
    requires
        a > 0 || b > 0,
    ensures
        gcd(a, b) > 0,
        a % gcd(a, b) == 0,
        b % gcd(a, b) == 0,
    decreases b,
{
    if b == 0 {
        vstd::arithmetic::div_mod::lemma_fundamental_div_mod_converse(a as int, a as int, 1, 0);
    } else {
        let r = a % b;
        lemma_gcd_divides(b, r);
        let g = gcd(a, b) as int;
        vstd::arithmetic::div_mod::lemma_fundamental_div_mod(a as int, b as int);
        vstd::arithmetic::div_mod::lemma_fundamental_div_mod(b as int, g);
        vstd::arithmetic::div_mod::lemma_fundamental_div_mod(r as int, g);
        let q = a as int / b as int;
        let kb = b as int / g;
        let kr = r as int / g;
        assert(a == (kb * q + kr) * g + 0) by (nonlinear_arith)
            requires
                a == b * q + r,
                b == g * kb,
                r == g * kr,
        ;
        vstd::arithmetic::div_mod::lemma_fundamental_div_mod_converse(
            a as int,
            g,
            kb * q + kr,
            0,
        );
    }
}

/// Every common divisor of two numbers divides their greatest common
/// divisor.
pub proof fn lemma_gcd_is_greatest(a: nat, b: nat, d: nat)
    requires
        d > 0,
        a % d == 0,
        b % d == 0,
    ensures
        gcd(a, b) % d == 0,
    decreases b,
{
    if b > 0 {
        let r = a % b;
        vstd::arithmetic::div_mod::lemma_fundamental_div_mod(a as int, b as int);
        vstd::arithmetic::div_mod::lemma_fundamental_div_mod(a as int, d as int);
        vstd::arithmetic::div_mod::lemma_fundamental_div_mod(b as int, d as int);
        let q = a as int / b as int;
        let ka = a as int / d as int;
        let kb = b as int / d as int;
        assert(r == (ka - kb * q) * d + 0) by (nonlinear_arith)
            requires
                a == b * q + r,
                a == d * ka,
                b == d * kb,
        ;
        vstd::arithmetic::div_mod::lemma_fundamental_div_mod_converse(
            r as int,
            d as int,
            ka - kb * q,
            0,
        );
        lemma_gcd_is_greatest(b, r, d);
    }
}

/// Computes the greatest common divisor of `a` and `b`.
pub fn greatest_common_divisor(a: u128, b: u128) -> (r: u128)
    ensures
        r == gcd(a as nat, b as nat),
{
    let mut x: u128 = a;
    let mut y: u128 = b;
    while y != 0
        invariant
            gcd(x as nat, y as nat) == gcd(a as nat, b as nat),
        decreases y,
    {
        let rest: u128 = x % y;
        x = y;
        y = rest;
    }
    x
}

/// Dividing a numerator and its positive denominator by a common divisor
/// leaves the ratio as it is, and brings the numerator no further from 0.
pub proof fn lemma_ratio_reduce(a: int, t: int, g: int)
    requires
        g > 0,
        t > 0,
        a % g == 0,
        t % g == 0,
    ensures
        t / g > 0,
        (a / g) * g == a,
        (t / g) * g == t,
        ratio(a / g, t / g) == ratio(a, t),
        a >= 0 ==> 0 <= a / g <= a,
        a <= 0 ==> a <= a / g <= 0,
        t / g <= t,
{
    vstd::arithmetic::div_mod::lemma_fundamental_div_mod(a, g);
    vstd::arithmetic::div_mod::lemma_fundamental_div_mod(t, g);
    let p = a / g;
    let q = t / g;
    assert(q > 0 && q <= t && p * g == a && q * g == t && (a >= 0 ==> 0 <= p <= a) && (a <= 0 ==> a
        <= p <= 0)) by (nonlinear_arith)
        requires
            a == g * p,
            t == g * q,
            g > 0,
            t > 0,
    ;
    assert(p * t == a * q) by (nonlinear_arith)
        requires
            a == g * p,
            t == g * q,
    ;
    lemma_ratio_equal(p, q, a, t);
}

} // verus!
