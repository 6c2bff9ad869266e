//! Fixed-point scalar arithmetic: truncating division, integer square
//! roots and a fixed-point power function, each pinned to a spec-level
//! definition.

use vstd::prelude::*;

verus! {

/// One world unit.  Coordinates, radii, intensities and ray parameters
/// are integers counted in steps of `1 / SCALE` of a unit.
pub const SCALE: i64 = 1000;

/// The square of `SCALE`, written out so the verifier sees its value.
pub const SCALE_SQ: i64 = 1000000;

/// Magnitude bound on scene coordinates, radii, ray directions and
/// light intensities: scenes live within this box, and every
/// intermediate product of the renderer then fits its machine integer.
pub const COORD_LIMIT: i64 = 0x40_0000;

/// Magnitude bound on the upper ray-parameter cutoff handed to the
/// tracer; far beyond any visible scene, but small enough that a hit
/// point's coordinates stay within machine bounds.
pub const T_LIMIT: i64 = 0x100_0000_0000;

/// Magnitude bound on the coordinates of a hit point: a scene point
/// displaced by at most `T_LIMIT` times a bounded direction.
pub const POINT_LIMIT: i64 = 0x40_0000_0000_0000;

/// Division that rounds toward zero (what `/` does on Rust's signed
/// integers), defined here for positive divisors only.
pub open spec fn tdiv(a: int, b: int) -> int {
    if a >= 0 {
        a / b
    } else {
        -((-a) / b)
    }
}

/// `r` is the floor of the square root of `n`.
pub open spec fn is_sqrt(n: int, r: int) -> bool {
    0 <= r && r * r <= n && n < (r + 1) * (r + 1)
}

/// The floor of the square root of a nonnegative integer.
pub open spec fn sqrt_floor(n: int) -> int {
    choose|r: int| is_sqrt(n, r)
}

/// `sqrt_floor` is well defined: a witness exists for every nonnegative
/// argument, so the chosen root carries the defining bounds.
pub proof fn lemma_sqrt_floor_bounds(n: int)
    requires
        0 <= n,
    ensures
        0 <= sqrt_floor(n),
        sqrt_floor(n) * sqrt_floor(n) <= n,
        n < (sqrt_floor(n) + 1) * (sqrt_floor(n) + 1),
    decreases n,
{
    if n == 0 {
        assert(0 <= 0 && 0 * 0 <= 0 && 0 < (0 + 1) * (0 + 1)) by (nonlinear_arith);
        assert(is_sqrt(0, 0));
        assert(exists|r: int| is_sqrt(n, r));
    } else {
        lemma_sqrt_floor_bounds(n - 1);
        let p: int = sqrt_floor(n - 1);
        if (p + 1) * (p + 1) <= n {
            // n - 1 < (p + 1)^2 <= n forces n == (p + 1)^2.
            let q: int = p + 1;
            assert(0 <= q && q * q <= n && n < (q + 1) * (q + 1)) by (nonlinear_arith)
                requires
                    0 <= p,
                    p * p <= n - 1,
                    n - 1 < (p + 1) * (p + 1),
                    (p + 1) * (p + 1) <= n,
                    q == p + 1,
            ;
            assert(is_sqrt(n, q));
            assert(exists|r: int| is_sqrt(n, r));
        } else {
            assert(is_sqrt(n, p));
            assert(exists|r: int| is_sqrt(n, r));
        }
    }
}

/// Any integer within the defining bounds is the floor square root.
pub proof fn lemma_sqrt_floor_unique(n: int, r: int)
    requires
        0 <= r,
        r * r <= n,
        n < (r + 1) * (r + 1),
    ensures
        sqrt_floor(n) == r,
{
    assert(0 <= n) by (nonlinear_arith)
        requires
            0 <= r,
            r * r <= n,
    ;
    lemma_sqrt_floor_bounds(n);
    let s: int = sqrt_floor(n);
    assert(s == r) by (nonlinear_arith)
        requires
            0 <= r,
            r * r <= n,
            n < (r + 1) * (r + 1),
            0 <= s,
            s * s <= n,
            n < (s + 1) * (s + 1),
    ;
}

/// A square root never exceeds a known bound on the squared value.
pub proof fn lemma_sqrt_floor_le(n: int, k: int)
    requires
        0 <= n,
        0 <= k,
        n <= k * k,
    ensures
        sqrt_floor(n) <= k,
{
    lemma_sqrt_floor_bounds(n);
    let s: int = sqrt_floor(n);
    assert(s <= k) by (nonlinear_arith)
        requires
            0 <= s,
            s * s <= n,
            n < (s + 1) * (s + 1),
            0 <= k,
            n <= k * k,
    ;
}

/// The exact square root of a perfect square.
pub proof fn lemma_sqrt_floor_square(k: int)
    requires
        0 <= k,
    ensures
        sqrt_floor(k * k) == k,
{
    assert(k * k <= k * k && k * k < (k + 1) * (k + 1)) by (nonlinear_arith)
        requires
            0 <= k,
    ;
    lemma_sqrt_floor_unique(k * k, k);
}

/// Binary search for the floor square root of `n`.
pub fn isqrt(n: u128) -> (r: u128)
    requires
        n < 0x4000_0000_0000_0000_0000_0000_0000_0000u128,
    ensures
        r as int == sqrt_floor(n as int),
        r * r <= n < (r + 1) * (r + 1),
        r <= 0x8000_0000_0000_0000u128,
{
    let mut lo: u128 = 0;
    let mut hi: u128 = 0x8000_0000_0000_0000u128;
    assert(hi * hi == 0x4000_0000_0000_0000_0000_0000_0000_0000u128) by (nonlinear_arith)
        requires
            hi == 0x8000_0000_0000_0000u128,
    ;
    while lo + 1 < hi
        invariant
            lo < hi <= 0x8000_0000_0000_0000u128,
            lo * lo <= n,
            n < hi * hi,
        decreases hi - lo,
    {
        let mid: u128 = lo + (hi - lo) / 2;
        assert(lo < mid < hi);
        assert(mid * mid <= 0x4000_0000_0000_0000_0000_0000_0000_0000u128) by (nonlinear_arith)
            requires
                mid <= 0x8000_0000_0000_0000u128,
        ;
        if mid * mid <= n {
            lo = mid;
        } else {
            hi = mid;
        }
    }
    proof {
        lemma_sqrt_floor_unique(n as int, lo as int);
    }
    lo
}

/// Truncating division on `i128`, for a positive divisor.
pub fn div_fix(a: i128, b: i128) -> (q: i128)
    requires
        0 < b,
    ensures
        q as int == tdiv(a as int, b as int),
{
    proof {
        lemma_tdiv_bounds(a as int, b as int);
    }
    let r: Option<i128> = a.checked_div(b);
    r.unwrap()
}

/// Truncating division shrinks the magnitude of the dividend.
pub proof fn lemma_tdiv_bounds(a: int, b: int)
    requires
        0 < b,
    ensures
        a >= 0 ==> 0 <= tdiv(a, b) <= a,
        a < 0 ==> a <= tdiv(a, b) <= 0,
{
    if a >= 0 {
        assert(0 <= a / b <= a) by (nonlinear_arith)
            requires
                0 < b,
                0 <= a,
        ;
    } else {
        assert(0 <= (-a) / b <= -a) by (nonlinear_arith)
            requires
                0 < b,
                0 <= -a,
        ;
    }
}

/// A quotient is bounded by `m` whenever the dividend is within
/// `m` times the divisor.
pub proof fn lemma_tdiv_bound_by_factor(num: int, den: int, m: int)
    requires
        1 <= den,
        0 <= m,
        -(m * den) <= num <= m * den,
    ensures
        -m <= tdiv(num, den) <= m,
{
    if num >= 0 {
        assert(0 <= num / den <= m) by (nonlinear_arith)
            requires
                1 <= den,
                0 <= num,
                num <= m * den,
                0 <= m,
        ;
    } else {
        assert(0 <= (-num) / den <= m) by (nonlinear_arith)
            requires
                1 <= den,
                0 < -num,
                -num <= m * den,
                0 <= m,
        ;
    }
}

/// Dividing an exact multiple gives the factor back.
pub proof fn lemma_tdiv_exact(k: int, den: int)
    requires
        1 <= den,
        0 <= k,
    ensures
        tdiv(k * den, den) == k,
{
    assert(0 <= k * den && (k * den) / den == k) by (nonlinear_arith)
        requires
            1 <= den,
            0 <= k,
    ;
}

/// Fixed-point exponentiation: `base` is a fraction of `SCALE`, the
/// result is `base` to the power `e`, scaled back after each step.
pub open spec fn pow_fixed(base: int, e: nat) -> int
    decreases e,
{
    if e == 0 {
        SCALE as int
    } else {
        tdiv(base * pow_fixed(base, (e - 1) as nat), SCALE as int)
    }
}

/// `pow_fixed` stays within `[0, SCALE]` for a base in that range.
pub proof fn lemma_pow_fixed_bounds(base: int, e: nat)
    requires
        0 <= base <= SCALE,
    ensures
        0 <= pow_fixed(base, e) <= SCALE,
    decreases e,
{
    if e != 0 {
        lemma_pow_fixed_bounds(base, (e - 1) as nat);
        let p: int = pow_fixed(base, (e - 1) as nat);
        assert(0 <= base * p <= SCALE * SCALE) by (nonlinear_arith)
            requires
                0 <= base <= SCALE,
                0 <= p <= SCALE,
        ;
    }
}

/// Computes `pow_fixed(base, e)` by repeated multiplication.
pub fn pow_fixed_exec(base: i64, e: u64) -> (p: i64)
    requires
        0 <= base <= SCALE,
    ensures
        p as int == pow_fixed(base as int, e as nat),
        0 <= p <= SCALE,
{
    let mut acc: i64 = SCALE;
    let mut i: u64 = 0;
    while i < e
        invariant
            0 <= base <= SCALE,
            i <= e,
            acc as int == pow_fixed(base as int, i as nat),
            0 <= acc <= SCALE,
        decreases e - i,
    {
        proof {
            assert(0 <= base * acc <= SCALE * SCALE) by (nonlinear_arith)
                requires
                    0 <= base <= SCALE,
                    0 <= acc <= SCALE,
            ;
            lemma_pow_fixed_bounds(base as int, (i + 1) as nat);
        }
        let next: i128 = div_fix(base as i128 * acc as i128, SCALE as i128);
        acc = next as i64;
        i = i + 1;
    }
    acc
}

} // verus!
