//! Fixed-point units and the integer arithmetic shared by the whole crate.
//!
//! Lengths are whole thousandths of a world unit, speeds are thousandths of a
//! unit per second, durations are whole microseconds and angles are whole
//! thousandths of a degree. Every quotient is rounded towards negative
//! infinity, and a coordinate that would leave the 32-bit range is pinned to
//! the nearest end of it.

use vstd::prelude::*;

verus! {

/// One world unit.
pub const UNIT: i32 = 1000;

/// One second.
pub const MICROS_PER_SECOND: u32 = 1_000_000;

/// One full turn.
pub const FULL_TURN: i32 = 360_000;

/// The time between two fixed ticks, at which asteroids enter and the ship
/// heals.
pub const TICK_PERIOD: u32 = 500_000;

/// The nearest value to `v` that a coordinate can hold.
pub open spec fn clamp_coord(v: int) -> int {
    if v < i32::MIN {
        i32::MIN as int
    } else if v > i32::MAX {
        i32::MAX as int
    } else {
        v
    }
}

/// Pins `v` into the coordinate range.
pub fn saturate(v: i128) -> (c: i32)
    ensures
        c == clamp_coord(v as int),
{
    if v < i32::MIN as i128 {
        i32::MIN
    } else if v > i32::MAX as i128 {
        i32::MAX
    } else {
        v as i32
    }
}

/// The way made in `delta` microseconds at `speed` thousandths a second.
pub open spec fn travel(speed: int, delta: int) -> int {
    speed * delta / (MICROS_PER_SECOND as int)
}

/// The way made in `delta` microseconds at `speed` thousandths a second along
/// a direction of which `part` thousandths fall to one coordinate.
pub open spec fn flight(part: int, speed: int, delta: int) -> int {
    part * speed * delta / 1_000_000_000
}

/// `n / d` rounded towards negative infinity, for any non-zero `d`.
pub open spec fn floor_div(n: int, d: int) -> int {
    if d > 0 {
        n / d
    } else {
        (-n) / (-d)
    }
}

/// Computes `floor_div(n, d)`.
pub fn div_floor(n: i128, d: i128) -> (q: i128)
    requires
        d != 0,
        i128::MIN < n,
        i128::MIN < d,
    ensures
        q == floor_div(n as int, d as int),
{
    let (num, den) = if d > 0 {
        (n, d)
    } else {
        (-n, -d)
    };
    proof {
        lemma_quotient_magnitude(num as int, den as int);
    }
    match num.checked_div_euclid(den) {
        Some(q) => q,
        None => 0,
    }
}

/// A product is no further from zero than the product of its factors' bounds.
pub proof fn lemma_product_bound(a: int, b: int, m: int, n: int)
    by (nonlinear_arith)
    requires
        -m <= a <= m,
        -n <= b <= n,
    ensures
        -(m * n) <= a * b <= m * n,
{
}

/// The quotient of `n` by a positive `d` lies between any two integers whose
/// multiples of `d` enclose `n`.
pub proof fn lemma_quotient_bounds(n: int, d: int, lo: int, hi: int)
    by (nonlinear_arith)
    requires
        d > 0,
        lo * d <= n,
        n <= hi * d,
    ensures
        lo <= n / d <= hi,
{
}

/// A quotient by a positive divisor is no further from zero than the dividend.
pub proof fn lemma_quotient_magnitude(n: int, d: int)
    by (nonlinear_arith)
    requires
        d > 0,
    ensures
        n >= 0 ==> 0 <= n / d <= n,
        n < 0 ==> n <= n / d < 0,
{
}

/// Adding a multiple of the divisor to the dividend adds that multiple's
/// factor to the quotient.
pub proof fn lemma_quotient_shift(n: int, d: int, k: int)
    requires
        d > 0,
    ensures
        (n + k * d) / d == n / d + k,
{
    vstd::arithmetic::div_mod::lemma_div_multiples_vanish_fancy(k, n % d, d);
    vstd::arithmetic::div_mod::lemma_fundamental_div_mod(n, d);
    assert(n + k * d == d * (n / d + k) + n % d) by (nonlinear_arith)
        requires
            n == d * (n / d) + n % d,
    ;
    vstd::arithmetic::div_mod::lemma_fundamental_div_mod_converse(n + k * d, d, n / d + k, n % d);
}

/// The same for a divisor of either sign.
pub proof fn lemma_floor_div_shift(n: int, d: int, k: int)
    requires
        d != 0,
    ensures
        floor_div(n + k * d, d) == floor_div(n, d) + k,
{
    if d > 0 {
        lemma_quotient_shift(n, d, k);
    } else {
        assert(-(n + k * d) == -n + k * (-d)) by (nonlinear_arith);
        lemma_quotient_shift(-n, -d, k);
    }
}

/// Whether `r` is the whole part of the square root of `n`.
pub open spec fn is_floor_sqrt(n: int, r: int) -> bool {
    0 <= r && r * r <= n < (r + 1) * (r + 1)
}

/// The whole part of the square root of `n`, for `n` not negative.
pub open spec fn floor_sqrt(n: int) -> int {
    choose|r: int| is_floor_sqrt(n, r)
}

/// Computes the whole part of the square root of `n` by bisection.
pub fn isqrt(n: u128) -> (r: u128)
    ensures
        r == floor_sqrt(n as int),
        is_floor_sqrt(n as int, r as int),
        r <= 0xffff_ffff_ffff_ffff,
{
    let mut low: u128 = 0;
    let mut high: u128 = 0x1_0000_0000_0000_0000;
    assert(0x1_0000_0000_0000_0000int * 0x1_0000_0000_0000_0000int > n) by (nonlinear_arith)
        requires
            n <= 0xffff_ffff_ffff_ffff_ffff_ffff_ffff_ffff,
    ;
    while high - low > 1
        invariant
            low < high <= 0x1_0000_0000_0000_0000,
            low * low <= n < high * high,
        decreases high - low,
    {
        let mid: u128 = low + (high - low) / 2;
        assert(mid * mid <= 0xffff_ffff_ffff_ffff * 0xffff_ffff_ffff_ffff) by (nonlinear_arith)
            requires
                mid <= 0xffff_ffff_ffff_ffff,
        ;
        if mid * mid <= n {
            low = mid;
        } else {
            high = mid;
        }
    }
    proof {
        lemma_floor_sqrt_unique(n as int, low as int, floor_sqrt(n as int));
    }
    low
}

/// Only one number is the whole part of a square root.
pub proof fn lemma_floor_sqrt_unique(n: int, a: int, b: int)
    by (nonlinear_arith)
    requires
        is_floor_sqrt(n, a),
        is_floor_sqrt(n, b),
    ensures
        a == b,
{
}

/// Every number that is not negative has a square root, and `floor_sqrt` is
/// its whole part.
pub proof fn lemma_floor_sqrt(n: int)
    requires
        n >= 0,
    ensures
        is_floor_sqrt(n, floor_sqrt(n)),
    decreases n,
{
    if n == 0 {
        assert(is_floor_sqrt(0, 0));
    } else {
        lemma_floor_sqrt(n - 1);
        let r = floor_sqrt(n - 1);
        assert((r + 2) * (r + 2) > (r + 1) * (r + 1)) by (nonlinear_arith)
            requires
                r >= 0,
        ;
        if (r + 1) * (r + 1) <= n {
            assert(is_floor_sqrt(n, r + 1));
        } else {
            assert(is_floor_sqrt(n, r));
        }
    }
}

} // verus!
