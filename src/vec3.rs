//! Three-component vectors of fixed-point scalars.
use vstd::prelude::*;

use crate::scalar::{floor_div, isqrt, is_isqrt, lemma_isqrt_exists, lemma_sqrt_floor_at_least, sqrt_floor, ONE};

verus! {

/// Largest absolute value of a component of a vector that the operations accept.
pub const VEC_MAX: i64 = 0x400_0000;

/// A vector or point in space; each component is a fixed-point scalar.
#[derive(Debug, Clone, Copy, PartialEq, Eq, Structural)]
pub struct Vec3 {
    pub x: i64,
    pub y: i64,
    pub z: i64,
}

/// The zero vector cannot be normalised.
#[derive(Debug, Clone, Copy, PartialEq, Eq, Structural)]
pub struct DegenerateVector;

/// Whether `c` is a component that the vector operations accept.
pub open spec fn comp_ok(c: int) -> bool {
    -VEC_MAX <= c <= VEC_MAX
}

impl Vec3 {
    /// Whether every component is within the accepted range.
    pub open spec fn in_range(self) -> bool {
        comp_ok(self.x as int) && comp_ok(self.y as int) && comp_ok(self.z as int)
    }

    /// Whether every component is at most 1.0 in absolute value, as for a unit vector.
    pub open spec fn is_unit_bounded(self) -> bool {
        -ONE <= self.x <= ONE && -ONE <= self.y <= ONE && -ONE <= self.z <= ONE
    }

    /// The exact dot product, scaled by `ONE * ONE`.
    pub open spec fn dot_raw(self, o: Vec3) -> int {
        self.x * o.x + self.y * o.y + self.z * o.z
    }

    /// The dot product as a fixed-point scalar, rounded down.
    pub open spec fn dot_spec(self, o: Vec3) -> int {
        self.dot_raw(o) / ONE as int
    }

    /// The squared length, scaled by `ONE * ONE`.
    pub open spec fn sq_len(self) -> int {
        self.dot_raw(self)
    }

    /// The length as a fixed-point scalar, rounded down.
    pub open spec fn mag_spec(self) -> int {
        sqrt_floor(self.sq_len())
    }

    /// The length scaled by `ONE * ONE`, rounded down: the divisor of normalisation.
    pub open spec fn fine_mag(self) -> int {
        sqrt_floor(self.sq_len() * ONE * ONE)
    }

    /// This vector normalised: each component divided by the length, rounded toward zero.
    pub open spec fn unit(self) -> Vec3 {
        Vec3 {
            x: unit_comp(self.x as int, self.fine_mag()) as i64,
            y: unit_comp(self.y as int, self.fine_mag()) as i64,
            z: unit_comp(self.z as int, self.fine_mag()) as i64,
        }
    }

    pub fn new(x: i64, y: i64, z: i64) -> (r: Vec3)
        ensures
            r == (Vec3 { x, y, z }),
    {
        Vec3 { x, y, z }
    }

    /// The dot product, rounded down.
    pub fn dot(&self, other: &Vec3) -> (r: i64)
        requires
            self.in_range(),
            other.in_range(),
        ensures
            r == self.dot_spec(*other),
    {
        proof {
            lemma_mul_in_range(self.x as int, other.x as int);
            lemma_mul_in_range(self.y as int, other.y as int);
            lemma_mul_in_range(self.z as int, other.z as int);
        }
        floor_div(self.x * other.x + self.y * other.y + self.z * other.z, ONE)
    }

    /// The length, rounded down.
    pub fn mag(&self) -> (r: i64)
        requires
            self.in_range(),
        ensures
            r == self.mag_spec(),
            r >= 0,
    {
        proof {
            lemma_mul_in_range(self.x as int, self.x as int);
            lemma_mul_in_range(self.y as int, self.y as int);
            lemma_mul_in_range(self.z as int, self.z as int);
        }
        let s: i64 = self.x * self.x + self.y * self.y + self.z * self.z;
        proof {
            lemma_squares(self.x as int, self.y as int, self.z as int);
        }
        let m: u128 = isqrt(s as u128);
        proof {
            assert(m * m <= s);
            assert(m <= 0x800_0000) by (nonlinear_arith)
                requires m * m <= s, s <= 0x30_0000_0000_0000;
        }
        m as i64
    }

    /// The vector scaled to length 1.0; each component is rounded toward zero.
    pub fn normalised(&self) -> (r: Result<Vec3, DegenerateVector>)
        requires
            self.in_range(),
        ensures
            r is Err <==> (self.x == 0 && self.y == 0 && self.z == 0),
            r matches Ok(u) ==> u == self.unit() && u.is_unit_bounded(),
    {
        if self.x == 0 && self.y == 0 && self.z == 0 {
            return Err(DegenerateVector);
        }
        proof {
            lemma_mul_in_range(self.x as int, self.x as int);
            lemma_mul_in_range(self.y as int, self.y as int);
            lemma_mul_in_range(self.z as int, self.z as int);
        }
        let s: i64 = self.x * self.x + self.y * self.y + self.z * self.z;
        proof {
            lemma_squares(self.x as int, self.y as int, self.z as int);
            assert(s >= 1) by (nonlinear_arith)
                requires s == self.x * self.x + self.y * self.y + self.z * self.z,
                    !(self.x == 0 && self.y == 0 && self.z == 0);
        }
        let n: u128 = (s as u128) * 0x1_0000_0000;
        let m: u128 = isqrt(n);
        proof {
            assert(self.sq_len() * ONE * ONE == n);
            lemma_comp_le_mag(self.x as int, s as int, m as int);
            lemma_comp_le_mag(self.y as int, s as int, m as int);
            lemma_comp_le_mag(self.z as int, s as int, m as int);
        }
        let x: i64 = scale_comp(self.x, m);
        let y: i64 = scale_comp(self.y, m);
        let z: i64 = scale_comp(self.z, m);
        Ok(Vec3 { x, y, z })
    }

    pub fn add(self, other: Vec3) -> (r: Vec3)
        requires
            comp_ok(self.x + other.x),
            comp_ok(self.y + other.y),
            comp_ok(self.z + other.z),
        ensures
            r == (Vec3 { x: (self.x + other.x) as i64, y: (self.y + other.y) as i64, z: (self.z + other.z) as i64 }),
            r.in_range(),
    {
        Vec3 { x: self.x + other.x, y: self.y + other.y, z: self.z + other.z }
    }

    pub fn sub(self, other: Vec3) -> (r: Vec3)
        requires
            comp_ok(self.x - other.x),
            comp_ok(self.y - other.y),
            comp_ok(self.z - other.z),
        ensures
            r == (Vec3 { x: (self.x - other.x) as i64, y: (self.y - other.y) as i64, z: (self.z - other.z) as i64 }),
            r.in_range(),
    {
        Vec3 { x: self.x - other.x, y: self.y - other.y, z: self.z - other.z }
    }

    pub fn neg(self) -> (r: Vec3)
        requires
            self.in_range(),
        ensures
            r == (Vec3 { x: -self.x as i64, y: -self.y as i64, z: -self.z as i64 }),
            r.in_range(),
    {
        Vec3 { x: -self.x, y: -self.y, z: -self.z }
    }

    /// Scales by the fixed-point factor `k`, rounding down.
    pub fn mul(self, k: i64) -> (r: Vec3)
        requires
            self.in_range(),
            -0x1_0000_0000 <= k <= 0x1_0000_0000,
        ensures
            r.x == (self.x * k) / ONE as int,
            r.y == (self.y * k) / ONE as int,
            r.z == (self.z * k) / ONE as int,
    {
        proof {
            lemma_mul_small(self.x as int, k as int);
            lemma_mul_small(self.y as int, k as int);
            lemma_mul_small(self.z as int, k as int);
        }
        Vec3 { x: floor_div(self.x * k, ONE), y: floor_div(self.y * k, ONE), z: floor_div(self.z * k, ONE) }
    }

    /// Divides by the positive fixed-point divisor `k`, rounding down.
    pub fn div(self, k: i64) -> (r: Vec3)
        requires
            self.in_range(),
            k > 0,
        ensures
            r.x == (self.x * ONE) / k as int,
            r.y == (self.y * ONE) / k as int,
            r.z == (self.z * ONE) / k as int,
    {
        Vec3 { x: floor_div(self.x * ONE, k), y: floor_div(self.y * ONE, k), z: floor_div(self.z * ONE, k) }
    }
}

/// One component of a normalised vector: `c / |v|`, rounded toward zero, where
/// `m` is the length scaled by `ONE * ONE`.
pub open spec fn unit_comp(c: int, m: int) -> int {
    if c >= 0 {
        (c * ONE * ONE) / m
    } else {
        -((-c * ONE * ONE) / m)
    }
}

fn scale_comp(c: i64, m: u128) -> (r: i64)
    requires
        comp_ok(c as int),
        m > 0,
        (c as int) * (c as int) * ONE * ONE <= m * m,
    ensures
        r == unit_comp(c as int, m as int),
        -ONE <= r <= ONE,
{
    let a: u128 = if c >= 0 { c as u128 } else { (-c) as u128 };
    proof {
        assert(a * a == c * c) by (nonlinear_arith)
            requires (a as int) == if c >= 0 { c as int } else { -c };
        assert(a * ONE <= m) by (nonlinear_arith)
            requires a * a * ONE * ONE <= m * m, a >= 0, m > 0;
        assert((a as int) * 0x1_0000_0000 / (m as int) <= ONE) by (nonlinear_arith)
            requires a * ONE <= m, m > 0, a >= 0;
    }
    let q: u128 = a * 0x1_0000_0000 / m;
    if c >= 0 { q as i64 } else { -(q as i64) }
}

/// One normalised component `u` of `c`, against the scaled length `m`: its size is
/// `|c| * ONE * ONE / m` rounded down, so it is at most 1.0.
proof fn lemma_unit_comp_bounds(c: int, s: int, m: int)
    requires
        c * c <= s,
        is_isqrt(s * ONE * ONE, m),
        m > 0,
    ensures
        ({
            let u = unit_comp(c, m);
            let a = if u >= 0 { u } else { -u };
            &&& 0 <= a <= ONE
            &&& u * u == a * a
            &&& a * a * m * m <= c * c * ONE * ONE * ONE * ONE
            &&& (a + 1) * (a + 1) * m * m > c * c * ONE * ONE * ONE * ONE
        }),
{
    lemma_comp_le_mag(c, s, m);
    let b = if c >= 0 { c } else { -c };
    assert(b * b == c * c) by (nonlinear_arith) requires b == c || b == -c;
    assert(b * ONE <= m) by (nonlinear_arith)
        requires b * b * ONE * ONE <= m * m, b >= 0, m > 0;
    let n = b * ONE * ONE;
    let q = n / m;
    assert(q * m <= n && n < (q + 1) * m) by (nonlinear_arith)
        requires q == n / m, m > 0, n >= 0;
    assert(n <= m * ONE) by (nonlinear_arith)
        requires n == b * ONE * ONE, b * ONE <= m, b >= 0;
    assert(0 <= q) by (nonlinear_arith)
        requires q == n / m, m > 0, n >= 0;
    assert(q <= ONE) by (nonlinear_arith)
        requires q * m <= n, n <= m * ONE, m > 0;
    let u = unit_comp(c, m);
    assert(u == q || u == -q);
    let a = if u >= 0 { u } else { -u };
    assert(a == q);
    assert(a * a * m * m <= c * c * ONE * ONE * ONE * ONE) by (nonlinear_arith)
        requires a * m <= n, a >= 0, m > 0, n == b * ONE * ONE, b * b == c * c, n >= 0;
    assert((a + 1) * (a + 1) * m * m > c * c * ONE * ONE * ONE * ONE) by (nonlinear_arith)
        requires n < (a + 1) * m, a >= 0, m > 0, n == b * ONE * ONE, b * b == c * c, n >= 0;
    assert(u * u == a * a) by (nonlinear_arith) requires a == u || a == -u;
}

/// Normalising a non-zero vector gives length 1.0 up to rounding: its squared
/// length lies between `ONE * ONE - 6 * ONE - 2` and `ONE * ONE + 2 * ONE + 1`,
/// and its length, rounded down, between `ONE - 4` and `ONE + 1`.
pub proof fn lemma_unit_length(v: Vec3)
    requires
        v.in_range(),
        !(v.x == 0 && v.y == 0 && v.z == 0),
    ensures
        ONE * ONE - 6 * ONE - 2 <= v.unit().sq_len() <= ONE * ONE + 2 * ONE + 1,
        ONE - 4 <= v.unit().mag_spec() <= ONE + 1,
{
    let x = v.x as int;
    let y = v.y as int;
    let z = v.z as int;
    lemma_squares(x, y, z);
    let s = v.sq_len();
    assert(s >= 1) by (nonlinear_arith)
        requires s == x * x + y * y + z * z, !(x == 0 && y == 0 && z == 0);
    let n = s * ONE * ONE;
    assert(n >= ONE * ONE) by (nonlinear_arith) requires s >= 1, n == s * ONE * ONE;
    lemma_isqrt_exists(n);
    let m = v.fine_mag();
    lemma_sqrt_floor_at_least(n, ONE as int);
    lemma_unit_comp_bounds(x, s, m);
    lemma_unit_comp_bounds(y, s, m);
    lemma_unit_comp_bounds(z, s, m);
    let ux = unit_comp(x, m);
    let uy = unit_comp(y, m);
    let uz = unit_comp(z, m);
    let ax = if ux >= 0 { ux } else { -ux };
    let ay = if uy >= 0 { uy } else { -uy };
    let az = if uz >= 0 { uz } else { -uz };
    let u = v.unit();
    assert(u.x == ux && u.y == uy && u.z == uz);
    let q = u.sq_len();
    assert(q == ax * ax + ay * ay + az * az);
    let k = ONE * ONE * ONE * ONE;
    assert(x * x * k + y * y * k + z * z * k == n * ONE * ONE) by (nonlinear_arith)
        requires n == s * ONE * ONE, s == x * x + y * y + z * z, k == ONE * ONE * ONE * ONE;
    assert(n * ONE * ONE < (m + 1) * (m + 1) * ONE * ONE) by (nonlinear_arith)
        requires n < (m + 1) * (m + 1);
    assert(m * m * ONE * ONE <= n * ONE * ONE) by (nonlinear_arith)
        requires m * m <= n;
    // Upper bound: the rounded components are no longer than the exact ones.
    assert(q * m * m < (m + 1) * (m + 1) * ONE * ONE) by (nonlinear_arith)
        requires
            q == ax * ax + ay * ay + az * az,
            ax * ax * m * m <= x * x * k,
            ay * ay * m * m <= y * y * k,
            az * az * m * m <= z * z * k,
            x * x * k + y * y * k + z * z * k < (m + 1) * (m + 1) * ONE * ONE;
    assert(q <= ONE * ONE + 2 * ONE + 1) by (nonlinear_arith)
        requires q * m * m < (m + 1) * (m + 1) * ONE * ONE, m >= ONE, q >= 0;
    // Lower bound: each component falls short by less than one unit.
    let p = (ax + 1) * (ax + 1) + (ay + 1) * (ay + 1) + (az + 1) * (az + 1);
    assert(p * m * m > m * m * ONE * ONE) by (nonlinear_arith)
        requires
            p == (ax + 1) * (ax + 1) + (ay + 1) * (ay + 1) + (az + 1) * (az + 1),
            (ax + 1) * (ax + 1) * m * m > x * x * k,
            (ay + 1) * (ay + 1) * m * m > y * y * k,
            (az + 1) * (az + 1) * m * m > z * z * k,
            x * x * k + y * y * k + z * z * k >= m * m * ONE * ONE;
    assert(p > ONE * ONE) by (nonlinear_arith)
        requires p * m * m > m * m * ONE * ONE, m > 0;
    assert(q >= ONE * ONE - 6 * ONE - 2) by (nonlinear_arith)
        requires
            p == (ax + 1) * (ax + 1) + (ay + 1) * (ay + 1) + (az + 1) * (az + 1),
            q == ax * ax + ay * ay + az * az,
            p > ONE * ONE,
            0 <= ax <= ONE, 0 <= ay <= ONE, 0 <= az <= ONE;
    // The length, rounded down.
    lemma_isqrt_exists(q);
    let r = sqrt_floor(q);
    assert((ONE - 4) * (ONE - 4) <= q) by (nonlinear_arith)
        requires q >= ONE * ONE - 6 * ONE - 2;
    lemma_sqrt_floor_at_least(q, ONE - 4);
    if r >= ONE + 2 {
        assert(r * r >= (ONE + 2) * (ONE + 2)) by (nonlinear_arith) requires r >= ONE + 2;
    }
}

proof fn lemma_mul_in_range(a: int, b: int)
    requires
        comp_ok(a),
        comp_ok(b),
    ensures
        -0x10_0000_0000_0000 <= a * b <= 0x10_0000_0000_0000,
{
    assert(-0x10_0000_0000_0000 <= a * b <= 0x10_0000_0000_0000) by (nonlinear_arith)
        requires -0x400_0000 <= a <= 0x400_0000, -0x400_0000 <= b <= 0x400_0000;
}

proof fn lemma_squares(x: int, y: int, z: int)
    ensures
        x * x >= 0,
        y * y >= 0,
        z * z >= 0,
        x * x <= x * x + y * y + z * z,
        y * y <= x * x + y * y + z * z,
        z * z <= x * x + y * y + z * z,
{
    assert(x * x >= 0) by (nonlinear_arith);
    assert(y * y >= 0) by (nonlinear_arith);
    assert(z * z >= 0) by (nonlinear_arith);
}

proof fn lemma_mul_small(a: int, k: int)
    requires
        comp_ok(a),
        -0x1_0000_0000 <= k <= 0x1_0000_0000,
    ensures
        -0x400_0000_0000_0000 <= a * k <= 0x400_0000_0000_0000,
{
    assert(-0x400_0000_0000_0000 <= a * k <= 0x400_0000_0000_0000) by (nonlinear_arith)
        requires -0x400_0000 <= a <= 0x400_0000, -0x1_0000_0000 <= k <= 0x1_0000_0000;
}

/// A component of a non-zero vector is at most its length.
proof fn lemma_comp_le_mag(c: int, s: int, m: int)
    requires
        c * c <= s,
        is_isqrt(s * ONE * ONE, m),
    ensures
        c * c * ONE * ONE <= m * m,
{
    let a = if c >= 0 { c } else { -c };
    assert(a * a == c * c) by (nonlinear_arith) requires a == c || a == -c;
    assert((a * ONE) * (a * ONE) <= s * ONE * ONE) by (nonlinear_arith)
        requires a * a <= s;
    assert(a * ONE <= m) by {
        if m < a * ONE {
            assert((m + 1) * (m + 1) <= (a * ONE) * (a * ONE)) by (nonlinear_arith)
                requires 0 <= m, m + 1 <= a * ONE;
        }
    }
    assert(c * c * ONE * ONE <= m * m) by (nonlinear_arith)
        requires a * ONE <= m, a >= 0, a * a == c * c;
}

} // verus!
