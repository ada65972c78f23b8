//! Two's-complement wrapping and truncating division, as mathematical integers and as code.

use vstd::prelude::*;

verus! {

/// The `i64` that is congruent to `x` modulo 2^64.
pub open spec fn wrap_i64(x: int) -> int {
    let m = x % 0x1_0000_0000_0000_0000;
    if m >= 0x8000_0000_0000_0000 {
        m - 0x1_0000_0000_0000_0000
    } else {
        m
    }
}

/// The `u64` that is congruent to `x` modulo 2^64.
pub open spec fn wrap_u64(x: int) -> int {
    x % 0x1_0000_0000_0000_0000
}

/// The `u32` that is congruent to `x` modulo 2^32.
pub open spec fn wrap_u32(x: int) -> int {
    x % 0x1_0000_0000
}

/// The size of `x`, without its sign.
pub open spec fn magnitude(x: int) -> int {
    if x < 0 {
        -x
    } else {
        x
    }
}

/// `x / d` rounded toward zero, for `d != 0`.
pub open spec fn quotient(x: int, d: int) -> int {
    if d > 0 {
        if x < 0 {
            -((-x) / d)
        } else {
            x / d
        }
    } else {
        if x < 0 {
            (-x) / (-d)
        } else {
            -(x / (-d))
        }
    }
}

/// Keeps the low 64 bits of `x`, read as a signed number.
pub fn low_i64(x: i128) -> (r: i64)
    ensures
        r == wrap_i64(x as int),
{
    let r: i64 = #[verifier::truncate]
    (x as i64);
    assert(x % 0x1_0000_0000_0000_0000i128 >= 0x8000_0000_0000_0000i128 ==> r == x
        % 0x1_0000_0000_0000_0000i128 - 0x1_0000_0000_0000_0000i128) by (bit_vector)
        requires
            r == x as i64,
    ;
    assert(x % 0x1_0000_0000_0000_0000i128 < 0x8000_0000_0000_0000i128 ==> r == x
        % 0x1_0000_0000_0000_0000i128) by (bit_vector)
        requires
            r == x as i64,
    ;
    r
}

/// Reads the bits of `x` as a signed number.
pub fn u64_as_i64(x: u64) -> (r: i64)
    ensures
        r == wrap_i64(x as int),
{
    assert(x < 0x8000_0000_0000_0000 ==> x as i64 == x) by (bit_vector);
    assert(x >= 0x8000_0000_0000_0000 ==> x as i64 == x - 0x1_0000_0000_0000_0000) by (bit_vector);
    #[verifier::truncate]
    (x as i64)
}

/// Reads the bits of `x` as an unsigned number.
pub fn i64_as_u64(x: i64) -> (r: u64)
    ensures
        r == wrap_u64(x as int),
{
    assert(x >= 0 ==> x as u64 == x) by (bit_vector);
    assert(x < 0 ==> x as u64 == x + 0x1_0000_0000_0000_0000) by (bit_vector);
    #[verifier::truncate]
    (x as u64)
}

/// Keeps the low 32 bits of `x`, read as an unsigned number.
pub fn low_u32(x: i64) -> (r: u32)
    ensures
        r == wrap_u32(x as int),
{
    let r: u32 = #[verifier::truncate]
    (x as u32);
    assert(r == x % 0x1_0000_0000i64) by (bit_vector)
        requires
            r == x as u32,
    ;
    r
}

/// Adds and wraps around.
pub fn sum(x: i64, y: i64) -> (r: i64)
    ensures
        r == wrap_i64(x + y),
{
    x.wrapping_add(y)
}

/// Subtracts and wraps around.
pub fn difference(x: i64, y: i64) -> (r: i64)
    ensures
        r == wrap_i64(x - y),
{
    x.wrapping_sub(y)
}

/// The product of two `i64`, which always fits in an `i128`.
pub fn product(x: i64, y: i64) -> (r: i128)
    ensures
        r == x * y,
        magnitude(r as int) <= 0x4000_0000_0000_0000_0000_0000_0000_0000,
{
    proof {
        lemma_product_bound(x as int, y as int);
    }
    x as i128 * y as i128
}

/// Divides and rounds toward zero.
pub fn divide(x: i128, d: i128) -> (r: i128)
    requires
        d != 0,
        x > i128::MIN,
    ensures
        r == quotient(x as int, d as int),
{
    proof {
        lemma_quotient_bound(x as int, d as int);
    }
    x.checked_div(d).unwrap()
}

proof fn lemma_product_bound(x: int, y: int)
    requires
        magnitude(x) <= 0x8000_0000_0000_0000,
        magnitude(y) <= 0x8000_0000_0000_0000,
    ensures
        magnitude(x * y) <= 0x4000_0000_0000_0000_0000_0000_0000_0000,
{
    assert(magnitude(x * y) == magnitude(x) * magnitude(y)) by (nonlinear_arith);
    assert(magnitude(x) * magnitude(y) <= 0x8000_0000_0000_0000 * 0x8000_0000_0000_0000)
        by (nonlinear_arith)
        requires
            0 <= magnitude(x) <= 0x8000_0000_0000_0000,
            0 <= magnitude(y) <= 0x8000_0000_0000_0000,
    ;
}

proof fn lemma_quotient_bound(x: int, d: int)
    requires
        d != 0,
    ensures
        magnitude(quotient(x, d)) <= magnitude(x),
        x == 0 ==> quotient(x, d) == 0,
{
    let m = magnitude(x);
    let n = magnitude(d);
    assert(0 <= m / n <= m) by (nonlinear_arith)
        requires
            0 <= m,
            1 <= n,
    ;
}

/// A number that fits is not changed by wrapping.
pub proof fn lemma_wrap_fits(x: int)
    ensures
        0 <= x <= i64::MAX ==> wrap_i64(x) == x,
        0 <= x <= u64::MAX ==> wrap_u64(x) == x,
        0 <= x <= u32::MAX ==> wrap_u32(x) == x,
{
}

/// Wrapping an addend first changes nothing.
pub proof fn lemma_wrap_i64_sum(x: int, y: int)
    ensures
        wrap_i64(x + wrap_i64(y)) == wrap_i64(x + y),
{
    lemma_wrap_i64_congruent(y);
    lemma_wrap_i64_period(x + y, (wrap_i64(y) - y) / 0x1_0000_0000_0000_0000);
}

/// Wrapping to the signed range first changes nothing.
pub proof fn lemma_wrap_u64_sum(x: int, y: int)
    ensures
        wrap_u64(x + wrap_i64(y)) == wrap_u64(x + y),
        wrap_u64(x + wrap_u64(y)) == wrap_u64(x + y),
{
    lemma_wrap_i64_congruent(y);
    lemma_wrap_u64_period(x + y, (wrap_i64(y) - y) / 0x1_0000_0000_0000_0000);
    lemma_wrap_u64_period(x + y, -(y / 0x1_0000_0000_0000_0000));
}

/// Wrapping to 64 bits first, or to 32 bits, changes nothing.
pub proof fn lemma_wrap_u32_sum(x: int, y: int)
    ensures
        wrap_u32(x + wrap_i64(y)) == wrap_u32(x + y),
        wrap_u32(x + wrap_u32(y)) == wrap_u32(x + y),
{
    lemma_wrap_i64_congruent(y);
    lemma_wrap_u32_period(
        x + y,
        (wrap_i64(y) - y) / 0x1_0000_0000_0000_0000 * 0x1_0000_0000,
    );
    lemma_wrap_u32_period(x + y, -(y / 0x1_0000_0000));
}

/// The difference of two numbers that were moved by the same offset is the plain difference.
pub proof fn lemma_wrap_delta(x: int, y: int, offset: int)
    ensures
        wrap_i64(wrap_i64(x + offset) - wrap_i64(y + offset)) == wrap_i64(x - y),
        wrap_u64(wrap_u64(x + offset) - wrap_u64(y + offset)) == wrap_u64(x - y),
        wrap_u32(wrap_u32(x + offset) - wrap_u32(y + offset)) == wrap_u32(x - y),
{
    let (p, q) = (x + offset, y + offset);
    lemma_wrap_i64_congruent(p);
    lemma_wrap_i64_congruent(q);
    lemma_wrap_i64_period(
        x - y,
        (wrap_i64(p) - p) / 0x1_0000_0000_0000_0000 - (wrap_i64(q) - q) / 0x1_0000_0000_0000_0000,
    );
    lemma_wrap_u64_period(x - y, q / 0x1_0000_0000_0000_0000 - p / 0x1_0000_0000_0000_0000);
    lemma_wrap_u32_period(x - y, q / 0x1_0000_0000 - p / 0x1_0000_0000);
}

/// Moving the virtual anchor by `ms` moves every reading by `ms`.
pub proof fn lemma_wrap_shift(x: int, v: int, a: int, ms: int)
    ensures
        wrap_i64(x + (wrap_i64(v + ms) - a)) == wrap_i64(wrap_i64(x + (v - a)) + ms),
        wrap_u64(x + (wrap_i64(v + ms) - a)) == wrap_u64(wrap_u64(x + (v - a)) + ms),
        wrap_u32(x + (wrap_i64(v + ms) - a)) == wrap_u32(wrap_u32(x + (v - a)) + ms),
{
    assert(x + (wrap_i64(v + ms) - a) == (x - a) + wrap_i64(v + ms));
    assert(wrap_i64(x + (v - a)) + ms == ms + wrap_i64(x + (v - a)));
    assert((x - a) + (v + ms) == ms + (x + (v - a)));
    lemma_wrap_i64_sum(x - a, v + ms);
    lemma_wrap_i64_sum(ms, x + (v - a));
    lemma_wrap_u64_sum(x - a, v + ms);
    lemma_wrap_u64_sum(ms, x + (v - a));
    lemma_wrap_u32_sum(x - a, v + ms);
    lemma_wrap_u32_sum(ms, x + (v - a));
}

proof fn lemma_wrap_i64_congruent(x: int)
    ensures
        wrap_i64(x) == x + 0x1_0000_0000_0000_0000 * ((wrap_i64(x) - x) / 0x1_0000_0000_0000_0000),
{
}

proof fn lemma_wrap_i64_period(x: int, k: int)
    ensures
        wrap_i64(x + 0x1_0000_0000_0000_0000 * k) == wrap_i64(x),
{
}

proof fn lemma_wrap_u64_period(x: int, k: int)
    ensures
        wrap_u64(x + 0x1_0000_0000_0000_0000 * k) == wrap_u64(x),
{
}

proof fn lemma_wrap_u32_period(x: int, k: int)
    ensures
        wrap_u32(x + 0x1_0000_0000 * k) == wrap_u32(x),
{
}

/// Multiplying by `d` and dividing by `d` gives back the number.
pub proof fn lemma_quotient_cancels(x: int, d: int)
    requires
        d > 0,
    ensures
        quotient(x * d, d) == x,
{
    let m = magnitude(x);
    assert(magnitude(x * d) == m * d) by (nonlinear_arith)
        requires
            d > 0,
            m == magnitude(x),
    ;
    assert((x * d < 0) == (x < 0)) by (nonlinear_arith)
        requires
            d > 0,
    ;
    vstd::arithmetic::div_mod::lemma_div_multiples_vanish(m, d);
    assert(d * m == m * d) by (nonlinear_arith);
}

/// Is the quotient of `x` and `d` rounded toward zero: what is left is smaller than `d` and has the
/// sign of `x`.
pub open spec fn divides(x: int, d: int, q: int, r: int) -> bool {
    &&& x == d * q + r
    &&& -r < d && r < d || -r < -d && r < -d
    &&& r == 0 || (r < 0) == (x < 0)
}

/// Wrapping changes a number by a multiple of the range of the type, and the result fits.
pub proof fn law_wrap(x: int)
    ensures
        -0x8000_0000_0000_0000 <= wrap_i64(x) <= 0x7fff_ffff_ffff_ffff,
        (wrap_i64(x) - x) % 0x1_0000_0000_0000_0000 == 0,
        0 <= wrap_u64(x) <= 0xffff_ffff_ffff_ffff,
        (wrap_u64(x) - x) % 0x1_0000_0000_0000_0000 == 0,
        0 <= wrap_u32(x) <= 0xffff_ffff,
        (wrap_u32(x) - x) % 0x1_0000_0000 == 0,
        i64::MIN <= x <= i64::MAX ==> wrap_i64(x) == x,
        0 <= x <= u64::MAX ==> wrap_u64(x) == x,
        0 <= x <= u32::MAX ==> wrap_u32(x) == x,
{
}

/// Numbers that differ by a multiple of 2^64 wrap to the same.
pub proof fn lemma_same_wrap(x: int, y: int)
    requires
        (x - y) % 0x1_0000_0000_0000_0000 == 0,
    ensures
        wrap_i64(x) == wrap_i64(y),
        wrap_u64(x) == wrap_u64(y),
{
    let k = (x - y) / 0x1_0000_0000_0000_0000;
    assert(x == y + 0x1_0000_0000_0000_0000 * k);
    lemma_wrap_i64_period(y, k);
    lemma_wrap_u64_period(y, k);
}

/// The quotient is the only number whose product with `d` falls short of `x` by less than `d`,
/// toward zero.
pub proof fn law_quotient(x: int, d: int, q: int, r: int)
    requires
        d != 0,
        divides(x, d, q, r),
    ensures
        quotient(x, d) == q,
{
    let (m, n) = (magnitude(x), magnitude(d));
    let (p, s) = (magnitude(q), magnitude(r));
    assert(m == n * p + s) by (nonlinear_arith)
        requires
            x == d * q + r,
            d != 0,
            m == magnitude(x),
            n == magnitude(d),
            p == magnitude(q),
            s == magnitude(r),
            s < n,
            r == 0 || (r < 0) == (x < 0),
    ;
    assert(p * n == n * p) by (nonlinear_arith);
    vstd::arithmetic::div_mod::lemma_fundamental_div_mod_converse(m, n, p, s);
    assert(q != 0 ==> (q < 0) == ((x < 0) != (d < 0))) by (nonlinear_arith)
        requires
            x == d * q + r,
            d != 0,
            magnitude(r) < magnitude(d),
            r == 0 || (r < 0) == (x < 0),
    ;
}

/// There is such a number for every `x` and every `d` but zero.
pub proof fn law_quotient_exists(x: int, d: int)
    requires
        d != 0,
    ensures
        divides(x, d, quotient(x, d), x - d * quotient(x, d)),
{
    let (m, n) = (magnitude(x), magnitude(d));
    vstd::arithmetic::div_mod::lemma_fundamental_div_mod(m, n);
    vstd::arithmetic::div_mod::lemma_mod_bound(m, n);
    let p = m / n;
    assert((-d) * p == -(d * p)) by (nonlinear_arith);
    assert(d * (-p) == -(d * p)) by (nonlinear_arith);
}

} // verus!
