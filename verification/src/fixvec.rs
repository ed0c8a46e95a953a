//! Exact fixed-point vector arithmetic.
//!
//! Every distance, speed and velocity in the simulation is an integer
//! count of milli-units (one thousandth of a world unit). A vector is a
//! triple of such counts; its mathematical model is a triple of
//! unbounded integers. Normalisation, the one operation that needs a
//! square root, uses the ceiling integer square root, which makes the
//! scaled result never longer than the requested magnitude.

use vstd::prelude::*;

verus! {

/// Fixed-point scale: this many counts make one world unit.
pub const MILLI: i64 = 1000;

/// Largest coordinate magnitude a world position may have.
pub const COORD_LIMIT: i64 = 0x2000_0000;

/// Largest magnitude that may be requested from [`Vec3::normalize_to`],
/// and so the largest speed any entity can be configured with.
pub const SPEED_LIMIT: i64 = 0x10_0000;

/// Largest coordinate magnitude accepted by [`Vec3::normalize_to`].
pub const DIR_LIMIT: i64 = 0x4000_0000;

/// Mathematical model of a vector: a triple of unbounded integers.
pub ghost struct V3 {
    pub x: int,
    pub y: int,
    pub z: int,
}

/// A world-space vector in milli-units.
#[derive(Clone, Copy, PartialEq, Eq, Structural, Debug)]
pub struct Vec3 {
    pub x: i64,
    pub y: i64,
    pub z: i64,
}

impl View for Vec3 {
    type V = V3;

    open spec fn view(&self) -> V3 {
        V3 { x: self.x as int, y: self.y as int, z: self.z as int }
    }
}

pub open spec fn v3(x: int, y: int, z: int) -> V3 {
    V3 { x: x, y: y, z: z }
}

pub open spec fn v3_zero() -> V3 {
    v3(0, 0, 0)
}

pub open spec fn v3_sum(a: V3, b: V3) -> V3 {
    v3(a.x + b.x, a.y + b.y, a.z + b.z)
}

pub open spec fn v3_diff(a: V3, b: V3) -> V3 {
    v3(a.x - b.x, a.y - b.y, a.z - b.z)
}

/// Projection onto the horizontal plane: the height component is dropped.
pub open spec fn v3_flat(a: V3) -> V3 {
    v3(a.x, 0, a.z)
}

pub open spec fn norm_sq(a: V3) -> int {
    a.x * a.x + a.y * a.y + a.z * a.z
}

/// All three coordinates lie within `b` of zero.
pub open spec fn bounded(a: V3, b: int) -> bool {
    &&& -b <= a.x <= b
    &&& -b <= a.y <= b
    &&& -b <= a.z <= b
}

/// Absolute value, kept within `int`.
pub open spec fn iabs(x: int) -> int {
    if x >= 0 {
        x
    } else {
        -x
    }
}

/// Division rounding towards zero, as machine division does;
/// a non-positive divisor yields zero.
pub open spec fn div_trunc(a: int, b: int) -> int {
    if b <= 0 {
        0
    } else if a >= 0 {
        a / b
    } else {
        -((-a) / b)
    }
}

/// The least non-negative integer whose square is at least `m`.
pub open spec fn ceil_sqrt(m: int) -> int
    decreases m,
{
    if m <= 0 {
        0
    } else {
        let p = ceil_sqrt(m - 1);
        if p * p >= m {
            p
        } else {
            p + 1
        }
    }
}

/// Each coordinate scaled by `t / n`, rounding towards zero.
pub open spec fn v3_scaled(a: V3, t: int, n: int) -> V3 {
    v3(div_trunc(a.x * t, n), div_trunc(a.y * t, n), div_trunc(a.z * t, n))
}

/// The vector of magnitude at most `t` pointing the way `a` does:
/// `a` scaled by `t` over the ceiling square root of its squared norm.
/// The zero vector stays zero.
pub open spec fn normalize_spec(a: V3, t: int) -> V3 {
    v3_scaled(a, t, ceil_sqrt(norm_sq(a)))
}

pub proof fn lemma_norm_sq_nonneg(a: V3)
    ensures
        norm_sq(a) >= 0,
        a.x * a.x <= norm_sq(a),
        a.y * a.y <= norm_sq(a),
        a.z * a.z <= norm_sq(a),
        norm_sq(a) == 0 ==> a == v3_zero(),
{
    assert(a.x * a.x >= 0) by (nonlinear_arith);
    assert(a.y * a.y >= 0) by (nonlinear_arith);
    assert(a.z * a.z >= 0) by (nonlinear_arith);
    if norm_sq(a) == 0 {
        assert(a.x == 0 && a.y == 0 && a.z == 0) by (nonlinear_arith)
            requires
                a.x * a.x >= 0,
                a.y * a.y >= 0,
                a.z * a.z >= 0,
                a.x * a.x + a.y * a.y + a.z * a.z == 0,
        ;
    }
}

/// The defining facts of the ceiling square root.
pub proof fn lemma_ceil_sqrt(m: int)
    requires
        m >= 0,
    ensures
        ceil_sqrt(m) >= 0,
        ceil_sqrt(m) * ceil_sqrt(m) >= m,
        ceil_sqrt(m) > 0 ==> (ceil_sqrt(m) - 1) * (ceil_sqrt(m) - 1) < m,
    decreases m,
{
    if m > 0 {
        lemma_ceil_sqrt(m - 1);
        let p = ceil_sqrt(m - 1);
        if p * p >= m {
        } else {
            assert(p * p == m - 1) by {
                assert(p * p >= m - 1);
            }
            assert((p + 1) * (p + 1) >= m) by (nonlinear_arith)
                requires
                    p >= 0,
                    p * p == m - 1,
            ;
        }
    }
}

/// Any integer with the two defining facts is the ceiling square root.
pub proof fn lemma_ceil_sqrt_unique(m: int, k: int)
    requires
        m >= 0,
        k >= 0,
        k * k >= m,
        k > 0 ==> (k - 1) * (k - 1) < m,
    ensures
        k == ceil_sqrt(m),
{
    lemma_ceil_sqrt(m);
    let c = ceil_sqrt(m);
    if k < c {
        assert(k * k <= (c - 1) * (c - 1)) by (nonlinear_arith)
            requires
                0 <= k <= c - 1,
        ;
        assert(false);
    }
    if k > c {
        assert(c * c <= (k - 1) * (k - 1)) by (nonlinear_arith)
            requires
                0 <= c <= k - 1,
        ;
        assert(false);
    }
}

/// The ceiling square root of a perfect square is its root.
pub proof fn lemma_ceil_sqrt_square(a: int)
    requires
        a >= 0,
    ensures
        ceil_sqrt(a * a) == a,
{
    assert(a * a >= 0) by (nonlinear_arith);
    if a > 0 {
        assert((a - 1) * (a - 1) < a * a) by (nonlinear_arith)
            requires
                a > 0,
        ;
    }
    lemma_ceil_sqrt_unique(a * a, a);
}

/// Scaling one coordinate towards zero never overshoots: the scaled
/// value times the divisor stays within the raw product.
proof fn lemma_div_trunc_scaled(c: int, t: int, n: int)
    requires
        t >= 0,
        n > 0,
    ensures
        iabs(div_trunc(c * t, n)) * n <= iabs(c) * t,
        iabs(c) <= n ==> iabs(div_trunc(c * t, n)) <= t,
{
    let p = if c >= 0 { c * t } else { -(c * t) };
    assert(p == iabs(c) * t) by (nonlinear_arith)
        requires
            t >= 0,
            p == if c >= 0 { c * t } else { -(c * t) },
    ;
    let q = p / n;
    assert(div_trunc(c * t, n) == if c >= 0 { q } else { -q });
    vstd::arithmetic::div_mod::lemma_fundamental_div_mod(p, n);
    vstd::arithmetic::div_mod::lemma_div_pos_is_pos(p, n);
    assert(q * n <= p);
    assert(iabs(div_trunc(c * t, n)) == q);
    if iabs(c) <= n {
        assert(p <= n * t) by (nonlinear_arith)
            requires
                t >= 0,
                0 <= iabs(c) <= n,
                p == iabs(c) * t,
        ;
        vstd::arithmetic::div_mod::lemma_div_is_ordered(p, n * t, n);
        vstd::arithmetic::div_mod::lemma_div_multiples_vanish(t, n);
        assert(q <= (n * t) / n);
    }
}

/// A vector scaled by `t / n` has squared norm at most `t * t` whenever
/// `n * n` dominates its squared norm: the core of the speed bound.
pub proof fn lemma_scaled_norm_bound(a: V3, t: int, n: int)
    requires
        t >= 0,
        n >= 0,
        norm_sq(a) <= n * n,
    ensures
        norm_sq(v3_scaled(a, t, n)) <= t * t,
        bounded(v3_scaled(a, t, n), t),
{
    let r = v3_scaled(a, t, n);
    lemma_norm_sq_nonneg(a);
    if n == 0 {
        assert(a == v3_zero()) by {
            assert(norm_sq(a) == 0);
        }
        assert(r == v3_zero());
        assert(norm_sq(r) == 0);
        assert(t * t >= 0) by (nonlinear_arith);
    } else {
        lemma_div_trunc_scaled(a.x, t, n);
        lemma_div_trunc_scaled(a.y, t, n);
        lemma_div_trunc_scaled(a.z, t, n);
        let cx = iabs(a.x);
        let cy = iabs(a.y);
        let cz = iabs(a.z);
        let ax = iabs(r.x);
        let ay = iabs(r.y);
        let az = iabs(r.z);
        assert(cx * cx == a.x * a.x && cy * cy == a.y * a.y && cz * cz == a.z * a.z)
            by (nonlinear_arith)
            requires
                cx == iabs(a.x),
                cy == iabs(a.y),
                cz == iabs(a.z),
        ;
        assert(cx * cx + cy * cy + cz * cz <= n * n);
        assert(cx <= n) by (nonlinear_arith)
            requires
                n > 0,
                cx >= 0,
                cy * cy >= 0,
                cz * cz >= 0,
                cx * cx + cy * cy + cz * cz <= n * n,
        ;
        assert(cy <= n) by (nonlinear_arith)
            requires
                n > 0,
                cy >= 0,
                cx * cx >= 0,
                cz * cz >= 0,
                cx * cx + cy * cy + cz * cz <= n * n,
        ;
        assert(cz <= n) by (nonlinear_arith)
            requires
                n > 0,
                cz >= 0,
                cx * cx >= 0,
                cy * cy >= 0,
                cx * cx + cy * cy + cz * cz <= n * n,
        ;
        assert(ax <= t && ay <= t && az <= t);
        assert(ax * ax * (n * n) <= cx * cx * (t * t)) by (nonlinear_arith)
            requires
                ax >= 0,
                n > 0,
                ax * n <= cx * t,
        ;
        assert(ay * ay * (n * n) <= cy * cy * (t * t)) by (nonlinear_arith)
            requires
                ay >= 0,
                n > 0,
                ay * n <= cy * t,
        ;
        assert(az * az * (n * n) <= cz * cz * (t * t)) by (nonlinear_arith)
            requires
                az >= 0,
                n > 0,
                az * n <= cz * t,
        ;
        assert(t * t >= 0) by (nonlinear_arith);
        assert(cx * cx * (t * t) + cy * cy * (t * t) + cz * cz * (t * t) <= (n * n) * (t * t))
            by (nonlinear_arith)
            requires
                t * t >= 0,
                cx * cx + cy * cy + cz * cz <= n * n,
        ;
        assert(norm_sq(r) == ax * ax + ay * ay + az * az) by (nonlinear_arith)
            requires
                ax == iabs(r.x),
                ay == iabs(r.y),
                az == iabs(r.z),
        ;
        assert(norm_sq(r) * (n * n) <= (n * n) * (t * t)) by (nonlinear_arith)
            requires
                norm_sq(r) == ax * ax + ay * ay + az * az,
                ax * ax * (n * n) <= cx * cx * (t * t),
                ay * ay * (n * n) <= cy * cy * (t * t),
                az * az * (n * n) <= cz * cz * (t * t),
                cx * cx * (t * t) + cy * cy * (t * t) + cz * cz * (t * t) <= (n * n) * (t * t),
        ;
        assert(norm_sq(r) <= t * t) by (nonlinear_arith)
            requires
                n > 0,
                norm_sq(r) * (n * n) <= (n * n) * (t * t),
        ;
    }
}

/// Normalising never exceeds the requested magnitude, and the zero
/// vector stays zero.
pub proof fn lemma_normalize_bound(a: V3, t: int)
    requires
        t >= 0,
    ensures
        norm_sq(normalize_spec(a, t)) <= t * t,
        bounded(normalize_spec(a, t), t),
        a == v3_zero() ==> normalize_spec(a, t) == v3_zero(),
{
    lemma_norm_sq_nonneg(a);
    lemma_ceil_sqrt(norm_sq(a));
    lemma_scaled_norm_bound(a, t, ceil_sqrt(norm_sq(a)));
}

/// Along a coordinate axis, normalising is exact: the result is the
/// requested magnitude with the coordinate's sign.
pub proof fn lemma_normalize_axis(a: V3, t: int)
    requires
        t >= 0,
    ensures
        a.y == 0 && a.z == 0 && a.x != 0 ==> normalize_spec(a, t) == v3(
            if a.x > 0 { t } else { -t },
            0,
            0,
        ),
        a.x == 0 && a.z == 0 && a.y != 0 ==> normalize_spec(a, t) == v3(
            0,
            if a.y > 0 { t } else { -t },
            0,
        ),
        a.x == 0 && a.y == 0 && a.z != 0 ==> normalize_spec(a, t) == v3(
            0,
            0,
            if a.z > 0 { t } else { -t },
        ),
{
    if a.x != 0 {
        lemma_axis_case(a.x, t);
    }
    if a.y != 0 {
        lemma_axis_case(a.y, t);
    }
    if a.z != 0 {
        lemma_axis_case(a.z, t);
    }
}

impl Vec3 {
    pub fn new(x: i64, y: i64, z: i64) -> (r: Vec3)
        ensures
            r@ == v3(x as int, y as int, z as int),
    {
        Vec3 { x, y, z }
    }

    pub fn zero() -> (r: Vec3)
        ensures
            r@ == v3_zero(),
    {
        Vec3 { x: 0, y: 0, z: 0 }
    }

    /// Component-wise sum.
    pub fn plus(self, o: Vec3) -> (r: Vec3)
        requires
            i64::MIN <= self@.x + o@.x <= i64::MAX,
            i64::MIN <= self@.y + o@.y <= i64::MAX,
            i64::MIN <= self@.z + o@.z <= i64::MAX,
        ensures
            r@ == v3_sum(self@, o@),
    {
        Vec3 { x: self.x + o.x, y: self.y + o.y, z: self.z + o.z }
    }

    /// Component-wise difference.
    pub fn minus(self, o: Vec3) -> (r: Vec3)
        requires
            i64::MIN <= self@.x - o@.x <= i64::MAX,
            i64::MIN <= self@.y - o@.y <= i64::MAX,
            i64::MIN <= self@.z - o@.z <= i64::MAX,
        ensures
            r@ == v3_diff(self@, o@),
    {
        Vec3 { x: self.x - o.x, y: self.y - o.y, z: self.z - o.z }
    }

    /// Projection onto the horizontal plane.
    pub fn flat(self) -> (r: Vec3)
        ensures
            r@ == v3_flat(self@),
    {
        Vec3 { x: self.x, y: 0, z: self.z }
    }

    /// Squared length, exact.
    pub fn norm_sq(self) -> (r: i64)
        requires
            bounded(self@, DIR_LIMIT as int),
        ensures
            r as int == norm_sq(self@),
            0 <= r <= 0x3000_0000_0000_0000,
    {
        proof {
            lemma_norm_sq_nonneg(self@);
            assert(self@.x * self@.x <= 0x1000_0000_0000_0000 && self@.y * self@.y
                <= 0x1000_0000_0000_0000 && self@.z * self@.z <= 0x1000_0000_0000_0000)
                by (nonlinear_arith)
                requires
                    bounded(self@, 0x4000_0000),
            ;
        }
        self.x * self.x + self.y * self.y + self.z * self.z
    }

    /// The vector of magnitude at most `t` pointing the way `self`
    /// does; zero in, zero out. Magnitude never exceeds `t`.
    pub fn normalize_to(self, t: i64) -> (r: Vec3)
        requires
            0 <= t <= SPEED_LIMIT,
            bounded(self@, DIR_LIMIT as int),
        ensures
            r@ == normalize_spec(self@, t as int),
            norm_sq(r@) <= (t as int) * (t as int),
            bounded(r@, t as int),
    {
        proof {
            lemma_normalize_bound(self@, t as int);
            lemma_norm_sq_nonneg(self@);
        }
        let m: i64 = self.norm_sq();
        let n: u64 = isqrt_ceil(m as u64);
        let ghost nn = ceil_sqrt(norm_sq(self@));
        if n == 0 {
            proof {
                lemma_ceil_sqrt(norm_sq(self@));
                if norm_sq(self@) > 0 {
                    assert(nn * nn >= norm_sq(self@));
                    assert(false);
                }
                assert(self@ == v3_zero());
            }
            Vec3::zero()
        } else {
            proof {
                lemma_ceil_sqrt(norm_sq(self@));
                assert(nn <= 0x8000_0000) by {
                    if nn > 0x8000_0000 {
                        assert((nn - 1) * (nn - 1) >= 0x8000_0000 * 0x8000_0000)
                            by (nonlinear_arith)
                            requires
                                nn > 0x8000_0000,
                        ;
                    }
                }
                assert(iabs(self@.x * t) <= 0x4000_0000_0000_0000) by (nonlinear_arith)
                    requires
                        bounded(self@, 0x4000_0000),
                        0 <= t <= 0x10_0000,
                ;
                assert(iabs(self@.y * t) <= 0x4000_0000_0000_0000) by (nonlinear_arith)
                    requires
                        bounded(self@, 0x4000_0000),
                        0 <= t <= 0x10_0000,
                ;
                assert(iabs(self@.z * t) <= 0x4000_0000_0000_0000) by (nonlinear_arith)
                    requires
                        bounded(self@, 0x4000_0000),
                        0 <= t <= 0x10_0000,
                ;
            }
            let d: i64 = n as i64;
            Vec3 {
                x: div_trunc_i64(self.x * t, d),
                y: div_trunc_i64(self.y * t, d),
                z: div_trunc_i64(self.z * t, d),
            }
        }
    }
}

/// Division of machine integers rounding towards zero.
pub fn div_trunc_i64(a: i64, b: i64) -> (r: i64)
    requires
        b > 0,
        iabs(a as int) <= 0x4000_0000_0000_0000,
    ensures
        r as int == div_trunc(a as int, b as int),
{
    if a >= 0 {
        proof {
            vstd::arithmetic::div_mod::lemma_div_pos_is_pos(a as int, b as int);
            vstd::arithmetic::div_mod::lemma_div_nonincreasing(a as int, b as int);
        }
        a / b
    } else {
        let p: i64 = -a;
        proof {
            vstd::arithmetic::div_mod::lemma_div_pos_is_pos(p as int, b as int);
            vstd::arithmetic::div_mod::lemma_div_nonincreasing(p as int, b as int);
        }
        -(p / b)
    }
}

/// Ceiling integer square root by binary search.
pub fn isqrt_ceil(m: u64) -> (r: u64)
    requires
        m <= 0x4000_0000_0000_0000,
    ensures
        r as int == ceil_sqrt(m as int),
        r <= 0x8000_0000,
{
    let mut lo: u64 = 0;
    let mut hi: u64 = 0x8000_0000;
    assert(0x8000_0000 * 0x8000_0000 == 0x4000_0000_0000_0000) by (nonlinear_arith);
    while lo < hi
        invariant
            lo <= hi <= 0x8000_0000,
            (hi as int) * (hi as int) >= m as int,
            lo > 0 ==> ((lo - 1) as int) * ((lo - 1) as int) < m as int,
        decreases hi - lo,
    {
        let mid: u64 = lo + (hi - lo) / 2;
        assert(mid < hi);
        proof {
            assert((mid as int) * (mid as int) <= 0x8000_0000 * 0x8000_0000) by (nonlinear_arith)
                requires
                    0 <= mid as int <= 0x8000_0000,
            ;
        }
        if mid * mid >= m {
            hi = mid;
        } else {
            lo = mid + 1;
        }
    }
    proof {
        lemma_ceil_sqrt_unique(m as int, lo as int);
    }
    lo
}

/// Truncating division never grows a value's magnitude.
pub proof fn lemma_div_trunc_abs(a: int, b: int)
    requires
        b >= 1,
    ensures
        iabs(div_trunc(a, b)) <= iabs(a),
{
    let p = iabs(a);
    vstd::arithmetic::div_mod::lemma_div_pos_is_pos(p, b);
    vstd::arithmetic::div_mod::lemma_div_nonincreasing(p, b);
}

/// One coordinate axis of the previous lemma.
proof fn lemma_axis_case(c: int, t: int)
    requires
        t >= 0,
        c != 0,
    ensures
        ceil_sqrt(c * c) == iabs(c),
        div_trunc(c * t, iabs(c)) == if c > 0 { t } else { -t },
{
    let m = iabs(c);
    assert(c * c == m * m) by (nonlinear_arith)
        requires
            m == iabs(c),
    ;
    lemma_ceil_sqrt_square(m);
    let p = if c >= 0 { c * t } else { -(c * t) };
    assert(p == m * t) by (nonlinear_arith)
        requires
            t >= 0,
            m == iabs(c),
            p == if c >= 0 { c * t } else { -(c * t) },
    ;
    vstd::arithmetic::div_mod::lemma_div_multiples_vanish(t, m);
    assert((m * t) / m == t);
}

} // verus!
