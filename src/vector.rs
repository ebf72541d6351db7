//! Planar integer vectors and the magnitude operations that steering needs.

use vstd::arithmetic::div_mod::{lemma_fundamental_div_mod, lemma_mod_pos_bound};
use vstd::prelude::*;

verus! {

/// Number of integer units in one pixel of the viewport.
pub const UNITS_PER_PIXEL: i64 = 1000;

/// Largest absolute component that the magnitude operations accept.
pub const COMPONENT_LIMIT: i64 = 0x1000_0000_0000_0000;

/// A vector in the plane of the simulation (the third axis is fixed at zero).
#[derive(Clone, Copy, Debug, PartialEq, Eq, Structural)]
pub struct Vec2i {
    pub x: i64,
    pub y: i64,
}

impl Vec2i {
    /// The squared Euclidean length.
    pub open spec fn norm_sq(self) -> int {
        self.x * self.x + self.y * self.y
    }

    /// Each component lies in `[-limit, limit]`.
    pub open spec fn within(self, limit: int) -> bool {
        -limit <= self.x <= limit && -limit <= self.y <= limit
    }

    /// The vector `(x, y)`.
    pub fn new(x: i64, y: i64) -> (r: Vec2i)
        ensures
            r.x == x,
            r.y == y,
    {
        Vec2i { x, y }
    }

    /// The zero vector.
    pub fn zero() -> (r: Vec2i)
        ensures
            r.x == 0,
            r.y == 0,
    {
        Vec2i { x: 0, y: 0 }
    }
}

/// Integer division rounded toward zero, as Rust's `/` does.
pub open spec fn trunc_div(a: int, b: int) -> int {
    if a >= 0 {
        a / b
    } else {
        -((-a) / b)
    }
}

/// `r` is the least natural number whose square is at least `n`.
pub open spec fn is_ceil_sqrt(n: int, r: int) -> bool {
    r >= 0 && r * r >= n && (r == 0 || (r - 1) * (r - 1) < n)
}

/// The square root of `n`, rounded up.
pub open spec fn ceil_sqrt(n: int) -> int {
    choose|r: int| is_ceil_sqrt(n, r)
}

/// The Euclidean length of `v`, rounded up.
pub open spec fn length_ceil(v: Vec2i) -> int {
    ceil_sqrt(v.norm_sq())
}

/// `v` pointed the same way with length `m`: each component is scaled by
/// `m / |v|`, with `|v|` rounded up and the quotient rounded toward zero.
/// The zero vector stays zero.
pub open spec fn with_magnitude_spec(v: Vec2i, m: int) -> Vec2i {
    if v.norm_sq() == 0 {
        Vec2i { x: 0, y: 0 }
    } else {
        Vec2i {
            x: trunc_div(v.x * m, length_ceil(v)) as i64,
            y: trunc_div(v.y * m, length_ceil(v)) as i64,
        }
    }
}

/// `v` unchanged when its length is at most `max`, else `v` scaled to length `max`.
pub open spec fn clamp_magnitude_spec(v: Vec2i, max: int) -> Vec2i {
    if v.norm_sq() > max * max {
        with_magnitude_spec(v, max)
    } else {
        v
    }
}

proof fn lemma_square_monotone(a: int, b: int)
    requires
        0 <= a <= b,
    ensures
        a * a <= b * b,
{
    assert(a * a <= b * b) by (nonlinear_arith)
        requires
            0 <= a <= b,
    ;
}

/// There is only one rounded-up square root.
proof fn lemma_ceil_sqrt_unique(n: int, a: int, b: int)
    requires
        is_ceil_sqrt(n, a),
        is_ceil_sqrt(n, b),
    ensures
        a == b,
{
    if a < b {
        lemma_square_monotone(a, b - 1);
    } else if b < a {
        lemma_square_monotone(b, a - 1);
    }
}

/// A value that meets the defining property is the rounded-up square root.
pub proof fn lemma_ceil_sqrt_is(n: int, r: int)
    requires
        is_ceil_sqrt(n, r),
    ensures
        ceil_sqrt(n) == r,
{
    assert(is_ceil_sqrt(n, ceil_sqrt(n)));
    lemma_ceil_sqrt_unique(n, r, ceil_sqrt(n));
}

/// Computes the square root of `n`, rounded up, by bisection.
fn ceil_sqrt_u128(n: u128) -> (r: u128)
    requires
        n <= 0x400_0000_0000_0000_0000_0000_0000_0000,
    ensures
        is_ceil_sqrt(n as int, r as int),
        r == ceil_sqrt(n as int),
        r <= 0x2000_0000_0000_0000,
{
    let mut lo: u128 = 0;
    let mut hi: u128 = 0x2000_0000_0000_0000;
    assert(hi * hi == 0x400_0000_0000_0000_0000_0000_0000_0000) by (nonlinear_arith)
        requires
            hi == 0x2000_0000_0000_0000u128,
    ;
    while lo < hi
        invariant
            lo <= hi <= 0x2000_0000_0000_0000,
            hi * hi >= n,
            lo == 0 || (lo - 1) * (lo - 1) < n,
        decreases hi - lo,
    {
        let mid: u128 = lo + (hi - lo) / 2;
        proof {
            lemma_square_monotone(mid as int, 0x2000_0000_0000_0000);
        }
        if mid * mid >= n {
            hi = mid;
        } else {
            lo = mid + 1;
        }
    }
    proof {
        lemma_ceil_sqrt_is(n as int, lo as int);
    }
    lo
}

/// For `p >= 0`, `l > 0`: the quotient `p / l` is a natural number and,
/// times `l`, at most `p`.
proof fn lemma_quotient_times_divisor(p: int, l: int)
    requires
        p >= 0,
        l > 0,
    ensures
        (p / l) * l <= p,
        p / l >= 0,
{
    lemma_fundamental_div_mod(p, l);
    lemma_mod_pos_bound(p, l);
    let q = p / l;
    let r = p % l;
    assert(q * l <= p && q >= 0) by (nonlinear_arith)
        requires
            p == l * q + r,
            0 <= r < l,
            l > 0,
            p >= 0,
    ;
}

/// One component `q` of the scaled vector, for a component `c` no longer than
/// `l`: `q^2 * l^2 <= c^2 * m^2`, and `q` lies in `[-m, m]`.
proof fn lemma_scaled_component(c: int, m: int, l: int)
    requires
        m >= 0,
        l > 0,
        c * c <= l * l,
    ensures
        ({
            let q = trunc_div(c * m, l);
            q * q * (l * l) <= c * c * (m * m) && -m <= q <= m
        }),
{
    let a = if c >= 0 { c } else { -c };
    assert(a * a == c * c && a * m >= 0) by (nonlinear_arith)
        requires
            a == c || a == -c,
            a >= 0,
            m >= 0,
    ;
    if c >= 0 {
        assert(c * m >= 0) by (nonlinear_arith)
            requires
                c >= 0,
                m >= 0,
        ;
    } else {
        assert(c * m == -(a * m)) by (nonlinear_arith)
            requires
                a == -c,
        ;
        if c * m >= 0 {
            assert(c * m == 0);
        }
    }
    let p = a * m;
    lemma_quotient_times_divisor(p, l);
    let u = p / l;
    let q = trunc_div(c * m, l);
    assert(q == u || q == -u);
    assert(q * q == u * u) by (nonlinear_arith)
        requires
            q == u || q == -u,
    ;
    assert(u * u * (l * l) <= c * c * (m * m)) by (nonlinear_arith)
        requires
            u >= 0,
            u * l <= a * m,
            a * a == c * c,
            a >= 0,
            m >= 0,
            l > 0,
    ;
    assert(a <= l) by (nonlinear_arith)
        requires
            a * a <= l * l,
            a >= 0,
            l > 0,
    ;
    assert(u <= m) by (nonlinear_arith)
        requires
            u >= 0,
            u * l <= a * m,
            a <= l,
            a >= 0,
            m >= 0,
            l > 0,
    ;
}

/// The scaled vector is no longer than `m`.
proof fn lemma_with_magnitude_bound(v: Vec2i, m: int)
    requires
        m >= 0,
        v.norm_sq() > 0,
    ensures
        ({
            let l = length_ceil(v);
            let qx = trunc_div(v.x * m, l);
            let qy = trunc_div(v.y * m, l);
            qx * qx + qy * qy <= m * m && -m <= qx <= m && -m <= qy <= m
        }),
{
    let n = v.norm_sq();
    let l = length_ceil(v);
    lemma_ceil_sqrt_exists(n);
    assert(l > 0) by (nonlinear_arith)
        requires
            l >= 0,
            l * l >= n,
            n > 0,
    ;
    assert(v.x * v.x <= l * l && v.y * v.y <= l * l) by (nonlinear_arith)
        requires
            n == v.x * v.x + v.y * v.y,
            l * l >= n,
    ;
    lemma_scaled_component(v.x as int, m, l);
    lemma_scaled_component(v.y as int, m, l);
    let qx = trunc_div(v.x * m, l);
    let qy = trunc_div(v.y * m, l);
    assert(qx * qx + qy * qy <= m * m) by (nonlinear_arith)
        requires
            qx * qx * (l * l) <= v.x * v.x * (m * m),
            qy * qy * (l * l) <= v.y * v.y * (m * m),
            v.x * v.x + v.y * v.y <= l * l,
            l > 0,
            m >= 0,
    ;
}

/// Every natural number has a rounded-up square root.
proof fn lemma_ceil_sqrt_exists(n: int)
    requires
        n >= 0,
    ensures
        is_ceil_sqrt(n, ceil_sqrt(n)),
{
    assert((n + 1) * (n + 1) >= n) by (nonlinear_arith)
        requires
            n >= 0,
    ;
    let w = least_square_at_least(n, 0, n + 1);
    assert(is_ceil_sqrt(n, w));
}

/// The least `r` in `[lo, hi]` with `r * r >= n`, where `hi` is one such value
/// and no value below `lo` is.
proof fn least_square_at_least(n: int, lo: int, hi: int) -> (r: int)
    requires
        0 <= lo <= hi,
        hi * hi >= n,
        lo == 0 || (lo - 1) * (lo - 1) < n,
    ensures
        is_ceil_sqrt(n, r),
    decreases hi - lo,
{
    if lo == hi {
        lo
    } else if lo * lo >= n {
        lo
    } else {
        least_square_at_least(n, lo + 1, hi)
    }
}

/// Divides `a` by a positive `b`, rounding toward zero.
pub fn div_toward_zero(a: i128, b: i128) -> (r: i128)
    requires
        b > 0,
        a > i128::MIN,
    ensures
        r == trunc_div(a as int, b as int),
{
    if a >= 0 {
        ((a as u128) / (b as u128)) as i128
    } else {
        let q = ((-a) as u128) / (b as u128);
        proof {
            lemma_quotient_times_divisor(-a as int, b as int);
        }
        -(q as i128)
    }
}

/// The squared length of `v`, computed without overflow.
pub fn norm_sq(v: Vec2i) -> (r: i128)
    requires
        v.within(COMPONENT_LIMIT as int),
    ensures
        r == v.norm_sq(),
        0 <= r <= 2 * (COMPONENT_LIMIT as int) * (COMPONENT_LIMIT as int),
{
    let x = v.x as i128;
    let y = v.y as i128;
    proof {
        lemma_square_bound(x as int, COMPONENT_LIMIT as int);
        lemma_square_bound(y as int, COMPONENT_LIMIT as int);
    }
    x * x + y * y
}

proof fn lemma_square_bound(a: int, k: int)
    requires
        -k <= a <= k,
    ensures
        0 <= a * a <= k * k,
{
    assert(0 <= a * a <= k * k) by (nonlinear_arith)
        requires
            -k <= a <= k,
    ;
}

/// `v` normalized and then scaled to length `m`; the zero vector gives the
/// zero vector.
pub fn with_magnitude(v: Vec2i, m: i64) -> (r: Vec2i)
    requires
        v.within(COMPONENT_LIMIT as int),
        0 <= m <= COMPONENT_LIMIT,
    ensures
        r == with_magnitude_spec(v, m as int),
        r.norm_sq() <= m * m,
        r.within(m as int),
{
    let n = norm_sq(v);
    if n == 0 {
        return Vec2i { x: 0, y: 0 };
    }
    let l = ceil_sqrt_u128(n as u128) as i128;
    proof {
        lemma_with_magnitude_bound(v, m as int);
        lemma_ceil_sqrt_exists(n as int);
        assert(l == length_ceil(v));
        assert(l > 0) by (nonlinear_arith)
            requires
                l >= 0,
                l * l >= n,
                n > 0,
        ;
        lemma_product_bound(v.x as int, m as int, COMPONENT_LIMIT as int);
        lemma_product_bound(v.y as int, m as int, COMPONENT_LIMIT as int);
    }
    let x = div_toward_zero(v.x as i128 * m as i128, l);
    let y = div_toward_zero(v.y as i128 * m as i128, l);
    Vec2i { x: x as i64, y: y as i64 }
}

proof fn lemma_product_bound(a: int, m: int, k: int)
    requires
        -k <= a <= k,
        0 <= m <= k,
    ensures
        -(k * k) <= a * m <= k * k,
{
    assert(-(k * k) <= a * m <= k * k) by (nonlinear_arith)
        requires
            -k <= a <= k,
            0 <= m <= k,
    ;
}

/// `value` itself when its length is at most `max`, otherwise `value`
/// scaled down to length `max`.
pub fn clamp_magnitude(value: Vec2i, max: i64) -> (r: Vec2i)
    requires
        value.within(COMPONENT_LIMIT as int),
        0 <= max <= COMPONENT_LIMIT,
    ensures
        r == clamp_magnitude_spec(value, max as int),
        r.norm_sq() <= max * max,
        r.within(max as int),
{
    proof {
        lemma_square_bound(max as int, COMPONENT_LIMIT as int);
    }
    let max_sq = max as i128 * max as i128;
    if norm_sq(value) > max_sq {
        with_magnitude(value, max)
    } else {
        proof {
            lemma_norm_bounds_components(value, max as int);
        }
        value
    }
}

/// `a - b`, componentwise.
pub open spec fn sub_spec(a: Vec2i, b: Vec2i) -> Vec2i {
    Vec2i { x: (a.x - b.x) as i64, y: (a.y - b.y) as i64 }
}

/// `a - b`, componentwise.
pub fn difference(a: Vec2i, b: Vec2i) -> (r: Vec2i)
    requires
        i64::MIN <= a.x - b.x <= i64::MAX,
        i64::MIN <= a.y - b.y <= i64::MAX,
    ensures
        r == sub_spec(a, b),
        r.x == a.x - b.x,
        r.y == a.y - b.y,
{
    Vec2i { x: a.x - b.x, y: a.y - b.y }
}

/// A vector no longer than `m` has no component beyond `m`.
pub proof fn lemma_norm_bounds_components(v: Vec2i, m: int)
    requires
        m >= 0,
        v.norm_sq() <= m * m,
    ensures
        v.within(m),
{
    assert(v.within(m)) by (nonlinear_arith)
        requires
            v.x * v.x + v.y * v.y <= m * m,
            m >= 0,
    ;
}

/// The Euclidean length of `v`, rounded up.
pub fn length_ceil_of(v: Vec2i) -> (r: i64)
    requires
        v.within(COMPONENT_LIMIT as int),
    ensures
        r == length_ceil(v),
        r >= 0,
        r * r >= v.norm_sq(),
{
    let n = norm_sq(v);
    ceil_sqrt_u128(n as u128) as i64
}

} // verus!
