//! Fixed-point scalars and the integer helpers they need.
use vstd::prelude::*;

verus! {

/// The fixed-point value of 1.0: a scalar `s` stands for the real `s / ONE`.
pub const ONE: i64 = 65536;

/// Largest absolute value of a coordinate of a point in a scene (256.0).
pub const COORD_MAX: i64 = 0x100_0000;

/// Whether `c` is a coordinate that a point of a scene may have.
pub open spec fn coord_ok(c: int) -> bool {
    -COORD_MAX <= c <= COORD_MAX
}

/// Floor division by a positive divisor.
pub fn floor_div(a: i64, b: i64) -> (r: i64)
    requires
        b > 0,
    ensures
        r == a as int / b as int,
{
    if a >= 0 {
        a / b
    } else {
        let na: i64 = -(a + 1);
        let q: i64 = na / b;
        proof {
            let ai = a as int;
            let bi = b as int;
            let ni = na as int;
            let qi = q as int;
            assert(ni == qi * bi + ni % bi && 0 <= ni % bi < bi) by (nonlinear_arith)
                requires ni >= 0, bi > 0, qi == ni / bi;
            let rem = ni % bi;
            assert(ai == (-qi - 1) * bi + (bi - 1 - rem)) by (nonlinear_arith)
                requires ni == qi * bi + rem, ni == -(ai + 1);
            vstd::arithmetic::div_mod::lemma_fundamental_div_mod_converse(
                ai, bi, -qi - 1, bi - 1 - rem);
        }
        -q - 1
    }
}

/// The integer square root: the largest `r` with `r * r <= n`.
pub open spec fn is_isqrt(n: int, r: int) -> bool {
    0 <= r && r * r <= n && n < (r + 1) * (r + 1)
}

/// The floor of the square root of a non-negative `n`.
pub open spec fn sqrt_floor(n: int) -> int {
    choose|r: int| is_isqrt(n, r)
}

/// At most one integer is the floor of a square root.
pub proof fn lemma_isqrt_unique(n: int, a: int, b: int)
    requires
        is_isqrt(n, a),
        is_isqrt(n, b),
    ensures
        a == b,
{
    if a < b {
        assert((a + 1) * (a + 1) <= b * b) by (nonlinear_arith)
            requires 0 <= a, a + 1 <= b;
    } else if b < a {
        assert((b + 1) * (b + 1) <= a * a) by (nonlinear_arith)
            requires 0 <= b, b + 1 <= a;
    }
}

/// A witness of the floor square root is the floor square root.
pub proof fn lemma_sqrt_floor(n: int, r: int)
    requires
        is_isqrt(n, r),
    ensures
        sqrt_floor(n) == r,
{
    assert(is_isqrt(n, sqrt_floor(n)));
    lemma_isqrt_unique(n, r, sqrt_floor(n));
}

/// Every non-negative integer has a floor square root.
pub proof fn lemma_isqrt_exists(n: int)
    requires
        0 <= n,
    ensures
        is_isqrt(n, sqrt_floor(n)),
    decreases n,
{
    if n == 0 {
        assert(is_isqrt(0, 0));
    } else {
        lemma_isqrt_exists(n - 1);
        let r = sqrt_floor(n - 1);
        if (r + 1) * (r + 1) <= n {
            assert((r + 2) * (r + 2) > n) by (nonlinear_arith)
                requires (r + 1) * (r + 1) == n, 0 <= r;
            assert(is_isqrt(n, r + 1));
        } else {
            assert(is_isqrt(n, r));
        }
    }
}

/// The floor square root grows with its argument.
pub proof fn lemma_sqrt_floor_at_least(n: int, k: int)
    requires
        0 <= k,
        k * k <= n,
        is_isqrt(n, sqrt_floor(n)),
    ensures
        k <= sqrt_floor(n),
{
    let r = sqrt_floor(n);
    if r < k {
        assert((r + 1) * (r + 1) <= k * k) by (nonlinear_arith)
            requires 0 <= r, r + 1 <= k;
    }
}

/// Integer square root, rounding down.
pub fn isqrt(n: u128) -> (r: u128)
    requires
        n < 0x100_0000_0000_0000_0000_0000_0000_0000,
    ensures
        is_isqrt(n as int, r as int),
        r == sqrt_floor(n as int),
{
    let mut lo: u128 = 0;
    let mut hi: u128 = 0x1000_0000_0000_0000;
    assert(hi * hi == 0x100_0000_0000_0000_0000_0000_0000_0000);
    while lo + 1 < hi
        invariant
            lo < hi <= 0x1000_0000_0000_0000,
            lo * lo <= n,
            n < hi * hi,
        decreases hi - lo,
    {
        let mid: u128 = lo + (hi - lo) / 2;
        assert(mid * mid <= 0x1000_0000_0000_0000 * 0x1000_0000_0000_0000) by (nonlinear_arith)
            requires mid < 0x1000_0000_0000_0000;
        if mid * mid <= n {
            lo = mid;
        } else {
            hi = mid;
        }
    }
    assert(hi == lo + 1);
    proof {
        lemma_sqrt_floor(n as int, lo as int);
    }
    lo
}

} // verus!
