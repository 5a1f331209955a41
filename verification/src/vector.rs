//! Integer vectors and the exact arithmetic the simulation is built on.

use vstd::prelude::*;

verus! {

/// `r` is the integer square root of `n`, rounded down.
pub open spec fn is_sqrt_floor(n: int, r: int) -> bool {
    0 <= r && r * r <= n && n < (r + 1) * (r + 1)
}

/// The integer square root of `n`, rounded down (0 for negative `n`).
pub open spec fn sqrt_floor(n: int) -> int
    decreases n,
{
    if n <= 0 {
        0
    } else {
        let r = sqrt_floor(n - 1);
        if (r + 1) * (r + 1) <= n {
            r + 1
        } else {
            r
        }
    }
}

/// `sqrt_floor` is the rounded-down square root.
pub proof fn lemma_sqrt_floor(n: int)
    requires
        n >= 0,
    ensures
        is_sqrt_floor(n, sqrt_floor(n)),
    decreases n,
{
    if n > 0 {
        lemma_sqrt_floor(n - 1);
        let r = sqrt_floor(n - 1);
        assert((r + 2) * (r + 2) == (r + 1) * (r + 1) + 2 * r + 3) by (nonlinear_arith);
        assert((r + 1) * (r + 1) == r * r + 2 * r + 1) by (nonlinear_arith);
    }
}

/// At most one number is the rounded-down square root of `n`.
pub proof fn lemma_sqrt_unique(n: int, a: int, b: int)
    requires
        is_sqrt_floor(n, a),
        is_sqrt_floor(n, b),
    ensures
        a == b,
{
    if a < b {
        assert((a + 1) * (a + 1) <= b * b) by (nonlinear_arith)
            requires
                0 <= a,
                a + 1 <= b,
        ;
    } else if b < a {
        assert((b + 1) * (b + 1) <= a * a) by (nonlinear_arith)
            requires
                0 <= b,
                b + 1 <= a,
        ;
    }
}

/// The integer square root of `n`, rounded up.
pub open spec fn sqrt_ceil(n: int) -> int {
    let r = sqrt_floor(n);
    if r * r == n {
        r
    } else {
        r + 1
    }
}

/// By how much a vector is magnified before its length is taken to bring it
/// to another length: two to the power of thirty.
pub const FINE: i64 = 0x4000_0000;

/// Integer square root, rounded down.
pub fn isqrt(n: u128) -> (r: u64)
    ensures
        r as int == sqrt_floor(n as int),
{
    let mut lo: u128 = 0;
    let mut hi: u128 = 0x1_0000_0000_0000_0000;
    assert(0x1_0000_0000_0000_0000int * 0x1_0000_0000_0000_0000int
        == 0x1_0000_0000_0000_0000_0000_0000_0000_0000int) by (nonlinear_arith);
    while hi - lo > 1
        invariant
            lo < hi <= 0x1_0000_0000_0000_0000,
            lo * lo <= n,
            n < hi * hi,
        decreases hi - lo,
    {
        let mid: u128 = lo + (hi - lo) / 2;
        assert(mid * mid <= 0xffff_ffff_ffff_ffff * 0xffff_ffff_ffff_ffff) by (nonlinear_arith)
            requires
                0 <= mid <= 0xffff_ffff_ffff_ffff,
        ;
        assert(0xffff_ffff_ffff_ffffint * 0xffff_ffff_ffff_ffffint
            < 0x1_0000_0000_0000_0000_0000_0000_0000_0000int) by (nonlinear_arith);
        if mid * mid <= n {
            lo = mid;
        } else {
            hi = mid;
        }
    }
    proof {
        lemma_sqrt_floor(n as int);
        lemma_sqrt_unique(n as int, lo as int, sqrt_floor(n as int));
    }
    lo as u64
}

/// `v` clamped into the range of a coordinate.
pub open spec fn clamp_i32(v: int) -> int {
    if v < i32::MIN {
        i32::MIN as int
    } else if v > i32::MAX {
        i32::MAX as int
    } else {
        v
    }
}

/// `a / b` rounded toward zero, for a positive divisor.
pub open spec fn trunc_div(a: int, b: int) -> int {
    if a >= 0 {
        a / b
    } else {
        -((-a) / b)
    }
}

/// Narrows a wide intermediate value to a coordinate, saturating at the ends.
pub fn saturate(v: i128) -> (r: i32)
    ensures
        r as int == clamp_i32(v as int),
{
    if v < i32::MIN as i128 {
        i32::MIN
    } else if v > i32::MAX as i128 {
        i32::MAX
    } else {
        v as i32
    }
}

/// Division rounded toward zero.
pub fn div_trunc(a: i128, b: i128) -> (r: i128)
    requires
        b > 0,
        a > i128::MIN,
    ensures
        r as int == trunc_div(a as int, b as int),
{
    if a >= 0 {
        a / b
    } else {
        let q: i128 = (-a) / b;
        -q
    }
}

/// Division rounded down.
pub fn div_floor(a: i128, b: i128) -> (r: i128)
    requires
        b > 0,
    ensures
        r as int == (a as int) / (b as int),
{
    if a >= 0 {
        a / b
    } else {
        let m: i128 = -(a + 1);
        let q: i128 = m / b;
        proof {
            let rem = (m as int) % (b as int);
            vstd::arithmetic::div_mod::lemma_fundamental_div_mod(m as int, b as int);
            assert((-(q as int) - 1) * (b as int) == -((b as int) * (q as int)) - (b as int))
                by (nonlinear_arith);
            vstd::arithmetic::div_mod::lemma_fundamental_div_mod_converse(
                a as int,
                b as int,
                -(q as int) - 1,
                (b as int) - rem - 1,
            );
        }
        -q - 1
    }
}

/// `num / den` rounded to the nearest integer, a half rounded up.
pub open spec fn round_div(num: int, den: int) -> int {
    (2 * num + den) / (2 * den)
}

/// Division rounded to the nearest integer, a half rounded up.
pub fn div_round(num: i64, den: i64) -> (r: i128)
    requires
        den > 0,
    ensures
        r as int == round_div(num as int, den as int),
{
    div_floor(2 * (num as i128) + den as i128, 2 * (den as i128))
}

/// The square of a bounded number is bounded by the square of the bound.
pub proof fn lemma_square_bound(d: int, b: int)
    by (nonlinear_arith)
    requires
        -b <= d <= b,
    ensures
        0 <= d * d <= b * b,
{
}

/// The product of two bounded numbers is bounded by the product of the bounds.
pub proof fn lemma_product_bound(a: int, b: int, ma: int, mb: int)
    by (nonlinear_arith)
    requires
        -ma <= a <= ma,
        -mb <= b <= mb,
    ensures
        -(ma * mb) <= a * b <= ma * mb,
{
}

/// The square of a length.
pub fn squared(v: u32) -> (r: u128)
    ensures
        r as int == v * v,
{
    proof {
        lemma_square_bound(v as int, 0xffff_ffff);
    }
    v as u128 * v as u128
}

/// A point or a displacement on the ground plane.
#[derive(Clone, Copy, Debug, PartialEq, Eq, Structural)]
pub struct Vec2 {
    pub x: i32,
    pub y: i32,
}

/// A point, a displacement or a velocity in space; `y` is the height.
#[derive(Clone, Copy, Debug, PartialEq, Eq, Structural)]
pub struct Vec3 {
    pub x: i32,
    pub y: i32,
    pub z: i32,
}

impl Vec2 {
    /// The squared distance between two points.
    pub open spec fn dist_sq(self, other: Vec2) -> int {
        (self.x - other.x) * (self.x - other.x) + (self.y - other.y) * (self.y - other.y)
    }

    pub fn new(x: i32, y: i32) -> (r: Vec2)
        ensures
            r == (Vec2 { x, y }),
    {
        Vec2 { x, y }
    }

    /// The squared distance to `other`, exactly.
    pub fn distance_squared(self, other: Vec2) -> (r: u128)
        ensures
            r as int == self.dist_sq(other),
    {
        let dx: i128 = self.x as i128 - other.x as i128;
        let dy: i128 = self.y as i128 - other.y as i128;
        proof {
            lemma_square_bound(dx as int, 0x1_0000_0000);
            lemma_square_bound(dy as int, 0x1_0000_0000);
        }
        (dx * dx + dy * dy) as u128
    }
}

impl Vec3 {
    /// The squared length.
    pub open spec fn norm_sq(self) -> int {
        self.x * self.x + self.y * self.y + self.z * self.z
    }

    /// The squared distance between two points.
    pub open spec fn dist_sq(self, other: Vec3) -> int {
        (self.x - other.x) * (self.x - other.x) + (self.y - other.y) * (self.y - other.y) + (self.z
            - other.z) * (self.z - other.z)
    }

    /// The dot product.
    pub open spec fn dot_spec(self, other: Vec3) -> int {
        self.x * other.x + self.y * other.y + self.z * other.z
    }

    /// The component-wise sum, saturating.
    pub open spec fn sum(self, other: Vec3) -> Vec3 {
        Vec3 {
            x: clamp_i32(self.x + other.x) as i32,
            y: clamp_i32(self.y + other.y) as i32,
            z: clamp_i32(self.z + other.z) as i32,
        }
    }

    /// The component-wise difference, saturating.
    pub open spec fn diff(self, other: Vec3) -> Vec3 {
        Vec3 {
            x: clamp_i32(self.x - other.x) as i32,
            y: clamp_i32(self.y - other.y) as i32,
            z: clamp_i32(self.z - other.z) as i32,
        }
    }

    /// Each component multiplied by `num / den`, rounded toward zero, saturating.
    pub open spec fn scaled(self, num: int, den: int) -> Vec3 {
        Vec3 {
            x: clamp_i32(trunc_div(self.x * num, den)) as i32,
            y: clamp_i32(trunc_div(self.y * num, den)) as i32,
            z: clamp_i32(trunc_div(self.z * num, den)) as i32,
        }
    }

    /// The length, rounded down.
    pub open spec fn length_spec(self) -> int {
        sqrt_floor(self.norm_sq())
    }

    /// The length magnified by `FINE`, rounded up.
    pub open spec fn fine_length(self) -> int {
        sqrt_ceil(self.norm_sq() * FINE * FINE)
    }

    /// The vector that points the way of `self` and is `len` long, or zero
    /// for the zero vector. The components are divided by the length
    /// rounded up, so the result is never longer than `len`; and the length
    /// is taken magnified, so that its rounding does not tell even on the
    /// shortest vectors.
    pub open spec fn resized(self, len: int) -> Vec3 {
        if self.norm_sq() == 0 {
            Vec3 { x: 0, y: 0, z: 0 }
        } else {
            self.scaled(len * FINE, self.fine_length())
        }
    }

    /// `self` if it is at most `max` long, else `self` cut down to `max`.
    pub open spec fn capped(self, max: int) -> Vec3 {
        if self.norm_sq() <= max * max {
            self
        } else {
            self.resized(max)
        }
    }

    pub fn new(x: i32, y: i32, z: i32) -> (r: Vec3)
        ensures
            r == (Vec3 { x, y, z }),
    {
        Vec3 { x, y, z }
    }

    pub fn zero() -> (r: Vec3)
        ensures
            r == (Vec3 { x: 0, y: 0, z: 0 }),
    {
        Vec3 { x: 0, y: 0, z: 0 }
    }

    pub fn plus(self, other: Vec3) -> (r: Vec3)
        ensures
            r == self.sum(other),
    {
        Vec3 {
            x: saturate(self.x as i128 + other.x as i128),
            y: saturate(self.y as i128 + other.y as i128),
            z: saturate(self.z as i128 + other.z as i128),
        }
    }

    pub fn minus(self, other: Vec3) -> (r: Vec3)
        ensures
            r == self.diff(other),
    {
        Vec3 {
            x: saturate(self.x as i128 - other.x as i128),
            y: saturate(self.y as i128 - other.y as i128),
            z: saturate(self.z as i128 - other.z as i128),
        }
    }

    /// Multiplies each component by `num / den`.
    pub fn times(self, num: i64, den: i64) -> (r: Vec3)
        requires
            den > 0,
        ensures
            r == self.scaled(num as int, den as int),
    {
        self.times_wide(num as i128, den as i128)
    }

    fn times_wide(self, num: i128, den: i128) -> (r: Vec3)
        requires
            den > 0,
            -0x2000_0000_0000_0000_0000_0000 <= num <= 0x2000_0000_0000_0000_0000_0000,
        ensures
            r == self.scaled(num as int, den as int),
    {
        proof {
            lemma_product_bound(
                self.x as int,
                num as int,
                0x8000_0000,
                0x2000_0000_0000_0000_0000_0000,
            );
            lemma_product_bound(
                self.y as int,
                num as int,
                0x8000_0000,
                0x2000_0000_0000_0000_0000_0000,
            );
            lemma_product_bound(
                self.z as int,
                num as int,
                0x8000_0000,
                0x2000_0000_0000_0000_0000_0000,
            );
        }
        Vec3 {
            x: saturate(div_trunc(self.x as i128 * num, den)),
            y: saturate(div_trunc(self.y as i128 * num, den)),
            z: saturate(div_trunc(self.z as i128 * num, den)),
        }
    }

    /// The squared length, exactly.
    pub fn length_squared(self) -> (r: u128)
        ensures
            r as int == self.norm_sq(),
            r <= 3 * 0x4000_0000_0000_0000,
    {
        let x: i128 = self.x as i128;
        let y: i128 = self.y as i128;
        let z: i128 = self.z as i128;
        proof {
            lemma_square_bound(x as int, 0x8000_0000);
            lemma_square_bound(y as int, 0x8000_0000);
            lemma_square_bound(z as int, 0x8000_0000);
        }
        (x * x + y * y + z * z) as u128
    }

    /// The squared distance to `other`, exactly.
    pub fn distance_squared(self, other: Vec3) -> (r: u128)
        ensures
            r as int == self.dist_sq(other),
    {
        let dx: i128 = self.x as i128 - other.x as i128;
        let dy: i128 = self.y as i128 - other.y as i128;
        let dz: i128 = self.z as i128 - other.z as i128;
        proof {
            lemma_square_bound(dx as int, 0x1_0000_0000);
            lemma_square_bound(dy as int, 0x1_0000_0000);
            lemma_square_bound(dz as int, 0x1_0000_0000);
        }
        (dx * dx + dy * dy + dz * dz) as u128
    }

    /// The dot product, exactly.
    pub fn dot(self, other: Vec3) -> (r: i128)
        ensures
            r as int == self.dot_spec(other),
            -0xc000_0000_0000_0000 <= r <= 0xc000_0000_0000_0000,
    {
        proof {
            lemma_product_bound(self.x as int, other.x as int, 0x8000_0000, 0x8000_0000);
            lemma_product_bound(self.y as int, other.y as int, 0x8000_0000, 0x8000_0000);
            lemma_product_bound(self.z as int, other.z as int, 0x8000_0000, 0x8000_0000);
        }
        self.x as i128 * other.x as i128 + self.y as i128 * other.y as i128 + self.z as i128
            * other.z as i128
    }

    /// The length, rounded down.
    pub fn length(self) -> (r: u64)
        ensures
            r as int == self.length_spec(),
            r <= 0xffff_ffff,
    {
        let n: u128 = self.length_squared();
        let r: u64 = isqrt(n);
        proof {
            lemma_sqrt_floor(n as int);
            if r > 0xffff_ffff {
                lemma_square_bound(0x1_0000_0000, r as int);
            }
        }
        r
    }

    /// The distance to `other`, rounded down.
    pub fn distance(self, other: Vec3) -> (r: u64)
        ensures
            r as int == sqrt_floor(self.dist_sq(other)),
            r < 0x2_0000_0000,
    {
        let n: u128 = self.distance_squared(other);
        let r: u64 = isqrt(n);
        proof {
            lemma_sqrt_floor(n as int);
            lemma_square_bound((self.x - other.x) as int, 0x1_0000_0000);
            lemma_square_bound((self.y - other.y) as int, 0x1_0000_0000);
            lemma_square_bound((self.z - other.z) as int, 0x1_0000_0000);
            if r >= 0x2_0000_0000 {
                lemma_square_bound(0x2_0000_0000, r as int);
            }
        }
        r
    }

    /// The length magnified by `FINE`, rounded up.
    pub fn length_fine(self) -> (r: u64)
        ensures
            r as int == self.fine_length(),
            (r == 0) == (self.norm_sq() == 0),
    {
        let n: u128 = self.length_squared();
        proof {
            assert(n * FINE * FINE <= 3 * 0x4000_0000_0000_0000 * 0x4000_0000 * 0x4000_0000)
                by (nonlinear_arith)
                requires
                    0 <= n <= 3 * 0x4000_0000_0000_0000,
                    FINE == 0x4000_0000,
            ;
            assert(n > 0 ==> n * FINE * FINE > 0) by (nonlinear_arith)
                requires
                    FINE == 0x4000_0000,
            ;
            assert(n == 0 ==> n * FINE * FINE == 0) by (nonlinear_arith);
        }
        let wide: u128 = n * (FINE as u128) * (FINE as u128);
        let f: u64 = isqrt(wide);
        proof {
            lemma_sqrt_floor(wide as int);
            assert(f >= 1 ==> f * f >= 1) by (nonlinear_arith);
            assert(f == 0 ==> f * f == 0) by (nonlinear_arith);
            assert((f + 1) * (f + 1) == f * f + 2 * f + 1) by (nonlinear_arith);
            if f >= 0x8000_0000_0000_0000 {
                lemma_square_bound(0x8000_0000_0000_0000, f as int);
            }
        }
        if (f as u128) * (f as u128) == wide {
            f
        } else {
            f + 1
        }
    }

    /// Points the way of `self` with length `len`; zero stays zero.
    pub fn with_length(self, len: i64) -> (r: Vec3)
        ensures
            r == self.resized(len as int),
    {
        let d: u64 = self.length_fine();
        if d == 0 {
            Vec3::zero()
        } else {
            proof {
                lemma_product_bound(len as int, FINE as int, 0x8000_0000_0000_0000, 0x4000_0000);
            }
            self.times_wide(len as i128 * FINE as i128, d as i128)
        }
    }

    /// Cuts `self` down to length `max` if it is longer.
    pub fn clamp_length_max(self, max: u32) -> (r: Vec3)
        ensures
            r == self.capped(max as int),
    {
        let n: u128 = self.length_squared();
        proof {
            lemma_square_bound(max as int, 0xffff_ffff);
        }
        if n <= (max as u128) * (max as u128) {
            self
        } else {
            self.with_length(max as i64)
        }
    }
}

/// A quotient rounded toward zero, multiplied back, does not pass the
/// dividend: its square is at most the dividend's.
pub proof fn lemma_trunc_div_square(a: int, d: int)
    requires
        d > 0,
    ensures
        (clamp_i32(trunc_div(a, d)) * d) * (clamp_i32(trunc_div(a, d)) * d) <= a * a,
{
    let m = if a >= 0 { a } else { -a };
    let q = m / d;
    vstd::arithmetic::div_mod::lemma_fundamental_div_mod(m, d);
    vstd::arithmetic::div_mod::lemma_div_pos_is_pos(m, d);
    vstd::arithmetic::div_mod::lemma_mod_bound(m, d);
    assert(0 <= q * d <= m) by (nonlinear_arith)
        requires
            m == d * q + m % d,
            0 <= m % d,
            0 <= q,
            d > 0,
    ;
    let c = clamp_i32(trunc_div(a, d));
    let k = if c >= 0 { c } else { -c };
    assert(0 <= k <= q);
    assert(0 <= k * d <= q * d) by (nonlinear_arith)
        requires
            0 <= k <= q,
            d > 0,
    ;
    assert((c * d) * (c * d) == (k * d) * (k * d)) by (nonlinear_arith)
        requires
            c == k || c == -k,
    ;
    assert((k * d) * (k * d) <= m * m) by (nonlinear_arith)
        requires
            0 <= k * d <= m,
    ;
    assert(m * m == a * a) by (nonlinear_arith)
        requires
            m == a || m == -a,
    ;
}

/// The square of a product is the product of the squares.
pub proof fn lemma_square_scaled(a: int, b: int)
    by (nonlinear_arith)
    ensures
        (a * b) * (a * b) == (a * a) * (b * b),
{
}

/// A vector brought to the length `len` is never longer than `len`.
pub proof fn lemma_resized_not_longer(v: Vec3, len: int)
    ensures
        v.resized(len).norm_sq() <= len * len,
{
    assert(len * len >= 0) by (nonlinear_arith);
    if v.norm_sq() != 0 {
        let n = v.norm_sq();
        assert(n >= 0) by (nonlinear_arith)
            requires
                n == v.x * v.x + v.y * v.y + v.z * v.z,
        ;
        let wide = n * FINE * FINE;
        assert(wide > 0 && wide == n * (FINE * FINE)) by (nonlinear_arith)
            requires
                n > 0,
                wide == n * FINE * FINE,
                FINE == 0x4000_0000,
        ;
        lemma_sqrt_floor(wide);
        let f = sqrt_floor(wide);
        let d = v.fine_length();
        assert(d * d >= wide && d > 0) by (nonlinear_arith)
            requires
                wide > 0,
                0 <= f,
                f * f <= wide,
                wide < (f + 1) * (f + 1),
                d == (if f * f == wide {
                    f
                } else {
                    f + 1
                }),
        ;
        let r = v.resized(len);
        let big = len * FINE;
        lemma_trunc_div_square(v.x * big, d);
        lemma_trunc_div_square(v.y * big, d);
        lemma_trunc_div_square(v.z * big, d);
        let rx = r.x as int;
        let ry = r.y as int;
        let rz = r.z as int;
        let vx = v.x as int;
        let vy = v.y as int;
        let vz = v.z as int;
        let dd = d * d;
        let bb = big * big;
        let l = len * len;
        lemma_square_scaled(rx, d);
        lemma_square_scaled(ry, d);
        lemma_square_scaled(rz, d);
        lemma_square_scaled(vx, big);
        lemma_square_scaled(vy, big);
        lemma_square_scaled(vz, big);
        lemma_square_scaled(len, FINE as int);
        assert((rx * rx + ry * ry + rz * rz) * dd == (rx * rx) * dd + (ry * ry) * dd + (rz * rz)
            * dd) by (nonlinear_arith);
        assert((vx * vx + vy * vy + vz * vz) * bb == (vx * vx) * bb + (vy * vy) * bb + (vz * vz)
            * bb) by (nonlinear_arith);
        assert(rx * rx >= 0 && ry * ry >= 0 && rz * rz >= 0) by (nonlinear_arith);
        let s = rx * rx + ry * ry + rz * rz;
        let ff = FINE * FINE;
        assert(n * bb == l * wide) by (nonlinear_arith)
            requires
                bb == l * ff,
                wide == n * ff,
        ;
        assert(s <= l) by (nonlinear_arith)
            requires
                s * dd <= l * wide,
                0 <= wide <= dd,
                dd > 0,
                l >= 0,
                s >= 0,
        ;
    }
}

/// A vector capped at `max` is never longer than `max`.
pub proof fn lemma_capped_not_longer(v: Vec3, max: int)
    requires
        0 <= max,
    ensures
        v.capped(max).norm_sq() <= max * max,
{
    lemma_resized_not_longer(v, max);
}

/// Moving a point by a displacement takes it no farther than the
/// displacement is long: where the sum saturates, it falls short.
pub proof fn lemma_sum_stays_near(p: Vec3, step: Vec3)
    ensures
        p.dist_sq(p.sum(step)) <= step.norm_sq(),
{
    let q = p.sum(step);
    let ax = (p.x - q.x) as int;
    let ay = (p.y - q.y) as int;
    let az = (p.z - q.z) as int;
    let sx = step.x as int;
    let sy = step.y as int;
    let sz = step.z as int;
    assert(ax * ax <= sx * sx) by (nonlinear_arith)
        requires
            (0 <= -ax <= sx) || (sx <= -ax <= 0),
    ;
    assert(ay * ay <= sy * sy) by (nonlinear_arith)
        requires
            (0 <= -ay <= sy) || (sy <= -ay <= 0),
    ;
    assert(az * az <= sz * sz) by (nonlinear_arith)
        requires
            (0 <= -az <= sz) || (sz <= -az <= 0),
    ;
}

} // verus!
