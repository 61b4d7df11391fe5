//! Fixed-point 2D vector arithmetic.
//!
//! A coordinate is an `i64` counting `1/SCALE` of a simulation unit.  All
//! operations are exact integer arithmetic; "normalizing" and
//! magnitude-clamping divide by a rounded-up integer square root, which keeps
//! the clamped magnitude provably at or below the requested bound.

use vstd::prelude::*;

verus! {

/// Fixed-point scale: one simulation unit is this many coordinate counts.
pub const SCALE: i64 = 1000;

/// Per-component saturation bound applied before any squared-norm
/// computation, so that `x*x + y*y` always fits in an `i64`.
pub const COMP_LIMIT: i64 = 2_000_000_000;

/// A 2D vector (or point) in fixed-point simulation coordinates.
#[derive(Clone, Copy, PartialEq, Eq, Structural, Debug)]
pub struct Vec2 {
    pub x: i64,
    pub y: i64,
}

impl View for Vec2 {
    type V = (int, int);

    open spec fn view(&self) -> (int, int) {
        (self.x as int, self.y as int)
    }
}

pub open spec fn v_add(a: (int, int), b: (int, int)) -> (int, int) {
    (a.0 + b.0, a.1 + b.1)
}

pub open spec fn v_sub(a: (int, int), b: (int, int)) -> (int, int) {
    (a.0 - b.0, a.1 - b.1)
}

pub open spec fn v_scale(a: (int, int), k: int) -> (int, int) {
    (a.0 * k, a.1 * k)
}

/// Squared Euclidean norm.
pub open spec fn norm_sq(a: (int, int)) -> int {
    a.0 * a.0 + a.1 * a.1
}

/// Dot product.
pub open spec fn v_dot(a: (int, int), b: (int, int)) -> int {
    a.0 * b.0 + a.1 * b.1
}

/// The vector scaled to length (at most) `SCALE`; the zero vector has no
/// direction and stays zero.
pub open spec fn unit_spec(v: (int, int)) -> (int, int) {
    if norm_sq(v) == 0 {
        (0, 0)
    } else {
        let mag = isqrt_up(norm_sq(v) as nat) as int;
        (sdiv(v.0 * SCALE, mag), sdiv(v.1 * SCALE, mag))
    }
}

pub open spec fn iabs(a: int) -> int {
    if a < 0 {
        -a
    } else {
        a
    }
}

/// Integer division rounding toward zero (divisor positive).
pub open spec fn sdiv(a: int, b: int) -> int
    recommends
        b > 0,
{
    if a >= 0 {
        a / b
    } else {
        -((-a) / b)
    }
}

pub open spec fn v_sdiv(a: (int, int), b: int) -> (int, int)
    recommends
        b > 0,
{
    (sdiv(a.0, b), sdiv(a.1, b))
}

/// Clamp a scalar into `[-m, m]`.
pub open spec fn clamp_i(a: int, m: int) -> int
    recommends
        m >= 0,
{
    if a > m {
        m
    } else if a < -m {
        -m
    } else {
        a
    }
}

/// Least `r >= 0` with `r * r >= n` (square root rounded up).
pub open spec fn isqrt_up(n: nat) -> nat
    decreases n,
{
    if n == 0 {
        0
    } else {
        let p = isqrt_up((n - 1) as nat);
        if p * p >= n {
            p
        } else {
            p + 1
        }
    }
}

/// A vector clamped to magnitude at most `m`: components are first saturated
/// into `[-COMP_LIMIT, COMP_LIMIT]`; if the squared norm still exceeds `m*m`
/// the vector is scaled down by `m / isqrt_up(norm_sq)`, which preserves the
/// direction up to rounding and provably bounds the resulting norm by `m`.
pub open spec fn limit_spec(v: (int, int), m: int) -> (int, int)
    recommends
        0 < m <= COMP_LIMIT as int,
{
    let c = (clamp_i(v.0, COMP_LIMIT as int), clamp_i(v.1, COMP_LIMIT as int));
    if norm_sq(c) <= m * m {
        c
    } else {
        let mag = isqrt_up(norm_sq(c) as nat) as int;
        (sdiv(c.0 * m, mag), sdiv(c.1 * m, mag))
    }
}

pub proof fn lemma_isqrt_up(n: nat)
    ensures
        isqrt_up(n) * isqrt_up(n) >= n,
        isqrt_up(n) >= 1 ==> (isqrt_up(n) - 1) * (isqrt_up(n) - 1) < n,
        isqrt_up(n) <= n,
    decreases n,
{
    if n > 0 {
        lemma_isqrt_up((n - 1) as nat);
        let p = isqrt_up((n - 1) as nat);
        if p * p < n {
            assert((p + 1) * (p + 1) >= n) by (nonlinear_arith)
                requires
                    p * p >= n - 1,
            ;
        }
    }
}

pub proof fn lemma_isqrt_unique(n: nat, r: nat)
    requires
        r * r >= n,
        r >= 1 ==> (r - 1) * (r - 1) < n,
    ensures
        r == isqrt_up(n),
{
    lemma_isqrt_up(n);
    let q = isqrt_up(n);
    if r < q {
        assert(r * r <= (q - 1) * (q - 1)) by (nonlinear_arith)
            requires
                0 <= r,
                r <= q - 1,
        ;
        assert(false);
    }
    if r > q {
        assert(q * q <= (r - 1) * (r - 1)) by (nonlinear_arith)
            requires
                0 <= q,
                q <= r - 1,
        ;
        assert(false);
    }
}

/// Truncating division shrinks the absolute value at least `b`-fold.
pub proof fn lemma_sdiv_abs(a: int, b: int)
    requires
        b >= 1,
    ensures
        iabs(sdiv(a, b)) * b <= iabs(a),
        iabs(sdiv(a, b)) <= iabs(a),
{
    if a >= 0 {
        vstd::arithmetic::div_mod::lemma_fundamental_div_mod(a, b);
        vstd::arithmetic::div_mod::lemma_div_pos_is_pos(a, b);
        assert(b * (a / b) <= a);
        assert(iabs(sdiv(a, b)) * b == b * (a / b)) by (nonlinear_arith)
            requires
                a >= 0,
                b >= 1,
                a / b >= 0,
                sdiv(a, b) == a / b,
                iabs(sdiv(a, b)) == a / b,
        ;
    } else {
        vstd::arithmetic::div_mod::lemma_fundamental_div_mod(-a, b);
        vstd::arithmetic::div_mod::lemma_div_pos_is_pos(-a, b);
        assert(b * ((-a) / b) <= -a);
        assert(iabs(sdiv(a, b)) * b == b * ((-a) / b)) by (nonlinear_arith)
            requires
                a < 0,
                b >= 1,
                (-a) / b >= 0,
                iabs(sdiv(a, b)) == (-a) / b,
        ;
    }
    assert(iabs(sdiv(a, b)) <= iabs(sdiv(a, b)) * b) by (nonlinear_arith)
        requires
            b >= 1,
            iabs(sdiv(a, b)) >= 0,
    ;
}

/// A squared bound on both components follows from a squared-norm bound.
pub proof fn lemma_sq_le(a: int, b: int)
    by (nonlinear_arith)
    requires
        a * a <= b * b,
        b >= 0,
    ensures
        -b <= a <= b,
{
}

/// Scaling a vector by `m / mag`, with `mag` at least the vector's norm,
/// yields a vector of norm at most `m`.
pub proof fn lemma_scale_norm(x: int, y: int, m: int, mag: int)
    requires
        mag >= 1,
        m >= 0,
        x * x + y * y <= mag * mag,
    ensures
        sdiv(x * m, mag) * sdiv(x * m, mag) + sdiv(y * m, mag) * sdiv(y * m, mag) <= m * m,
        iabs(sdiv(x * m, mag)) <= m,
        iabs(sdiv(y * m, mag)) <= m,
{
    let sx = sdiv(x * m, mag);
    let sy = sdiv(y * m, mag);
    lemma_sdiv_abs(x * m, mag);
    lemma_sdiv_abs(y * m, mag);
    assert(iabs(x * m) == iabs(x) * m) by (nonlinear_arith)
        requires
            m >= 0,
    ;
    assert(iabs(y * m) == iabs(y) * m) by (nonlinear_arith)
        requires
            m >= 0,
    ;
    assert(sx * sx * (mag * mag) <= (x * x) * (m * m)) by (nonlinear_arith)
        requires
            iabs(sx) * mag <= iabs(x) * m,
            mag >= 1,
            m >= 0,
            iabs(sx) == if sx < 0 { -sx } else { sx },
            iabs(x) == if x < 0 { -x } else { x },
    ;
    assert(sy * sy * (mag * mag) <= (y * y) * (m * m)) by (nonlinear_arith)
        requires
            iabs(sy) * mag <= iabs(y) * m,
            mag >= 1,
            m >= 0,
            iabs(sy) == if sy < 0 { -sy } else { sy },
            iabs(y) == if y < 0 { -y } else { y },
    ;
    assert((sx * sx + sy * sy) * (mag * mag) <= (mag * mag) * (m * m)) by (nonlinear_arith)
        requires
            sx * sx * (mag * mag) <= (x * x) * (m * m),
            sy * sy * (mag * mag) <= (y * y) * (m * m),
            x * x + y * y <= mag * mag,
            m >= 0,
    ;
    assert(sx * sx + sy * sy <= m * m) by (nonlinear_arith)
        requires
            (sx * sx + sy * sy) * (mag * mag) <= (mag * mag) * (m * m),
            mag >= 1,
    ;
    assert(sx * sx >= 0 && sy * sy >= 0) by (nonlinear_arith);
    lemma_sq_le(sx, m);
    lemma_sq_le(sy, m);
}

/// If `|a| <= b * k`, the quotient `a / b` is bounded by `k`.
pub proof fn lemma_sdiv_le(a: int, b: int, k: int)
    requires
        b >= 1,
        k >= 0,
        iabs(a) <= b * k,
    ensures
        iabs(sdiv(a, b)) <= k,
        -k <= sdiv(a, b) <= k,
{
    lemma_sdiv_abs(a, b);
    assert(iabs(sdiv(a, b)) <= k) by (nonlinear_arith)
        requires
            b >= 1,
            k >= 0,
            iabs(sdiv(a, b)) * b <= iabs(a),
            iabs(a) <= b * k,
            iabs(sdiv(a, b)) >= 0,
    ;
}

/// The magnitude-clamped vector has norm at most `m` and components in
/// `[-m, m]`.
pub proof fn lemma_limit_norm(v: (int, int), m: int)
    requires
        0 < m <= COMP_LIMIT as int,
    ensures
        norm_sq(limit_spec(v, m)) <= m * m,
        iabs(limit_spec(v, m).0) <= m,
        iabs(limit_spec(v, m).1) <= m,
{
    let c = (clamp_i(v.0, COMP_LIMIT as int), clamp_i(v.1, COMP_LIMIT as int));
    if norm_sq(c) <= m * m {
        assert(c.0 * c.0 >= 0 && c.1 * c.1 >= 0) by (nonlinear_arith);
        lemma_sq_le(c.0, m);
        lemma_sq_le(c.1, m);
    } else {
        let ns = norm_sq(c);
        assert(ns > 0);
        lemma_isqrt_up(ns as nat);
        let mag = isqrt_up(ns as nat) as int;
        assert(mag >= 1);
        lemma_scale_norm(c.0, c.1, m, mag);
        let r = limit_spec(v, m);
        assert(r.0 * r.0 >= 0 && r.1 * r.1 >= 0) by (nonlinear_arith);
        lemma_sq_le(r.0, m);
        lemma_sq_le(r.1, m);
    }
}

impl Vec2 {
    pub open spec fn in_comp_range(self) -> bool {
        -COMP_LIMIT <= self.x <= COMP_LIMIT && -COMP_LIMIT <= self.y <= COMP_LIMIT
    }

    pub fn new(x: i64, y: i64) -> (r: Vec2)
        ensures
            r@ == (x as int, y as int),
    {
        Vec2 { x, y }
    }

    pub fn plus(self, o: Vec2) -> (r: Vec2)
        requires
            i64::MIN <= self@.0 + o@.0 <= i64::MAX,
            i64::MIN <= self@.1 + o@.1 <= i64::MAX,
        ensures
            r@ == v_add(self@, o@),
    {
        Vec2 { x: self.x + o.x, y: self.y + o.y }
    }

    pub fn minus(self, o: Vec2) -> (r: Vec2)
        requires
            i64::MIN <= self@.0 - o@.0 <= i64::MAX,
            i64::MIN <= self@.1 - o@.1 <= i64::MAX,
        ensures
            r@ == v_sub(self@, o@),
    {
        Vec2 { x: self.x - o.x, y: self.y - o.y }
    }

    pub fn times(self, k: i64) -> (r: Vec2)
        requires
            i64::MIN <= self@.0 * k <= i64::MAX,
            i64::MIN <= self@.1 * k <= i64::MAX,
        ensures
            r@ == v_scale(self@, k as int),
    {
        Vec2 { x: self.x * k, y: self.y * k }
    }

    /// Squared Euclidean norm; exact, no overflow inside the saturation bound.
    pub fn norm_sq_i(self) -> (r: i64)
        requires
            self.in_comp_range(),
        ensures
            r == norm_sq(self@),
            r >= 0,
    {
        proof {
            assert(self.x * self.x + self.y * self.y <= 2 * (COMP_LIMIT as int) * (
            COMP_LIMIT as int) && self.x * self.x >= 0 && self.y * self.y >= 0)
                by (nonlinear_arith)
                requires
                    -COMP_LIMIT <= self.x <= COMP_LIMIT,
                    -COMP_LIMIT <= self.y <= COMP_LIMIT,
            ;
        }
        self.x * self.x + self.y * self.y
    }
}

/// Integer division rounding toward zero (divisor positive).
pub fn sdiv_e(a: i64, b: i64) -> (r: i64)
    requires
        b > 0,
        a > i64::MIN,
    ensures
        r == sdiv(a as int, b as int),
        iabs(r as int) <= iabs(a as int),
{
    proof {
        lemma_sdiv_abs(a as int, b as int);
    }
    if a >= 0 {
        ((a as u64) / (b as u64)) as i64
    } else {
        -((((-a) as u64) / (b as u64)) as i64)
    }
}

/// Clamp a scalar into `[-m, m]`.
pub fn clamp_e(a: i64, m: i64) -> (r: i64)
    requires
        m >= 0,
    ensures
        r == clamp_i(a as int, m as int),
{
    if a > m {
        m
    } else if a < -m {
        -m
    } else {
        a
    }
}

/// Square root rounded up, by binary search.
pub fn isqrt_up_e(n: i64) -> (r: i64)
    requires
        n >= 0,
    ensures
        r as int == isqrt_up(n as nat),
        r >= 0,
{
    let mut lo: i64 = 0;
    let mut hi: i64 = 3_100_000_000;
    while lo < hi
        invariant
            n >= 0,
            0 <= lo <= hi <= 3_100_000_000,
            (hi as int) * (hi as int) >= n as int,
            lo >= 1 ==> ((lo - 1) as int) * ((lo - 1) as int) < n as int,
        decreases hi - lo,
    {
        let d: i64 = hi - lo;
        let half: i64 = (((d as u64) / 2) as i64);
        proof {
            assert(half as int == (d as int) / 2);
            assert(0 <= half < d);
        }
        let mid: i64 = lo + half;
        proof {
            assert((mid as int) * (mid as int) <= 9_610_000_000_000_000_000) by (nonlinear_arith)
                requires
                    0 <= mid <= 3_100_000_000,
            ;
        }
        let m2: u128 = (mid as u128) * (mid as u128);
        if m2 >= (n as u128) {
            hi = mid;
        } else {
            proof {
                assert(m2 as int == (mid as int) * (mid as int));
                assert((n as u128) as int == n as int);
                assert((mid as int) * (mid as int) < n as int);
            }
            lo = mid + 1;
        }
    }
    proof {
        lemma_isqrt_unique(n as nat, lo as nat);
    }
    lo
}

impl Vec2 {
    /// The vector with its magnitude clamped to at most `m`, direction kept
    /// (up to saturation of enormous components and integer rounding).
    pub fn limit(self, m: i64) -> (r: Vec2)
        requires
            0 < m <= COMP_LIMIT,
        ensures
            r@ == limit_spec(self@, m as int),
            norm_sq(r@) <= (m as int) * (m as int),
            -m <= r.x <= m,
            -m <= r.y <= m,
    {
        let cx = clamp_e(self.x, COMP_LIMIT);
        let cy = clamp_e(self.y, COMP_LIMIT);
        let c = Vec2 { x: cx, y: cy };
        let ns = c.norm_sq_i();
        proof {
            assert(0 < (m as int) * (m as int) <= 4_000_000_000_000_000_000) by (nonlinear_arith)
                requires
                    0 < m <= 2_000_000_000,
            ;
        }
        if ns <= m * m {
            proof {
                assert(cx as int * cx as int >= 0 && cy as int * cy as int >= 0)
                    by (nonlinear_arith);
                lemma_sq_le(cx as int, m as int);
                lemma_sq_le(cy as int, m as int);
            }
            c
        } else {
            let mag = isqrt_up_e(ns);
            proof {
                lemma_isqrt_up(ns as nat);
                assert(mag >= 1);
                assert(iabs((cx * m) as int) <= (COMP_LIMIT as int) * (COMP_LIMIT as int))
                    by (nonlinear_arith)
                    requires
                        -COMP_LIMIT <= cx <= COMP_LIMIT,
                        0 < m <= COMP_LIMIT,
                ;
                assert(iabs((cy * m) as int) <= (COMP_LIMIT as int) * (COMP_LIMIT as int))
                    by (nonlinear_arith)
                    requires
                        -COMP_LIMIT <= cy <= COMP_LIMIT,
                        0 < m <= COMP_LIMIT,
                ;
                lemma_scale_norm(cx as int, cy as int, m as int, mag as int);
            }
            let sx = sdiv_e(cx * m, mag);
            let sy = sdiv_e(cy * m, mag);
            Vec2 { x: sx, y: sy }
        }
    }

    /// Dot product; exact, no overflow inside the saturation bound.
    pub fn dot(self, o: Vec2) -> (r: i64)
        requires
            self.in_comp_range(),
            o.in_comp_range(),
        ensures
            r == v_dot(self@, o@),
    {
        proof {
            assert(iabs(self.x * o.x) <= 4_000_000_000_000_000_000 && iabs(self.y * o.y)
                <= 4_000_000_000_000_000_000) by (nonlinear_arith)
                requires
                    -2_000_000_000 <= self.x <= 2_000_000_000,
                    -2_000_000_000 <= self.y <= 2_000_000_000,
                    -2_000_000_000 <= o.x <= 2_000_000_000,
                    -2_000_000_000 <= o.y <= 2_000_000_000,
            ;
        }
        self.x * o.x + self.y * o.y
    }

    /// Euclidean magnitude, rounded up to the next integer.
    pub fn magnitude(self) -> (r: i64)
        requires
            self.in_comp_range(),
        ensures
            r as int == isqrt_up(norm_sq(self@) as nat),
            r >= 0,
    {
        isqrt_up_e(self.norm_sq_i())
    }

    /// Component-wise division by a positive scalar, rounding toward zero.
    pub fn divided_by(self, k: i64) -> (r: Vec2)
        requires
            k > 0,
            self.x > i64::MIN,
            self.y > i64::MIN,
        ensures
            r@ == v_sdiv(self@, k as int),
    {
        Vec2 { x: sdiv_e(self.x, k), y: sdiv_e(self.y, k) }
    }

    /// The vector scaled to length at most `SCALE`, direction kept; the zero
    /// vector has no direction and is returned as is, never divided by zero.
    pub fn normalized(self) -> (r: Vec2)
        requires
            self.in_comp_range(),
        ensures
            r@ == unit_spec(self@),
            -SCALE <= r.x <= SCALE,
            -SCALE <= r.y <= SCALE,
    {
        let ns = self.norm_sq_i();
        if ns == 0 {
            Vec2 { x: 0, y: 0 }
        } else {
            let mag = isqrt_up_e(ns);
            proof {
                lemma_isqrt_up(ns as nat);
                lemma_scale_norm(self.x as int, self.y as int, SCALE as int, mag as int);
            }
            Vec2 { x: sdiv_e(self.x * SCALE, mag), y: sdiv_e(self.y * SCALE, mag) }
        }
    }
}

} // verus!
