use vstd::arithmetic::div_mod::{
    lemma_div_by_multiple, lemma_div_is_ordered, lemma_div_pos_is_pos, lemma_fundamental_div_mod,
    lemma_mod_pos_bound,
};
use vstd::arithmetic::mul::{lemma_mul_inequality, lemma_mul_inequality_converse};
use vstd::prelude::*;

verus! {

/// Number of fixed-point units in one world unit.
pub const UNIT: i64 = 1000;

/// Largest magnitude of a coordinate, a speed, a radius or a force component.
pub const COORD_LIMIT: i64 = 1_000_000_000;

/// Largest magnitude of a component handed to `scale_to` (2^60).
pub const WIDE_LIMIT: i128 = 1_152_921_504_606_846_976;

/// A two-dimensional vector in fixed-point units.
#[derive(Clone, Copy, Debug, PartialEq, Eq, Structural)]
pub struct Vec2 {
    pub x: i64,
    pub y: i64,
}

impl View for Vec2 {
    type V = (int, int);

    open spec fn view(&self) -> (int, int) {
        (self.x as int, self.y as int)
    }
}

/// The zero vector.
pub open spec fn zero() -> (int, int) {
    (0, 0)
}

/// Componentwise sum.
pub open spec fn vadd(a: (int, int), b: (int, int)) -> (int, int) {
    (a.0 + b.0, a.1 + b.1)
}

/// Componentwise difference.
pub open spec fn vsub(a: (int, int), b: (int, int)) -> (int, int) {
    (a.0 - b.0, a.1 - b.1)
}

/// `v * num / den`, each component rounded toward zero.
pub open spec fn vfrac(v: (int, int), num: int, den: int) -> (int, int) {
    (div_trunc(v.0 * num, den), div_trunc(v.1 * num, den))
}

/// Squared euclidean length of `(x, y)`.
pub open spec fn len_sq(x: int, y: int) -> int {
    x * x + y * y
}

/// Both components lie within `[-bound, bound]`.
pub open spec fn within(v: Vec2, bound: int) -> bool {
    -bound <= v.x <= bound && -bound <= v.y <= bound
}

/// Division rounding toward zero, as integer division does in Rust.
pub open spec fn div_trunc(a: int, b: int) -> int {
    if a >= 0 {
        a / b
    } else {
        -((-a) / b)
    }
}

/// Absolute value.
pub open spec fn abs(a: int) -> int {
    if a >= 0 {
        a
    } else {
        -a
    }
}

/// A quotient rounded toward zero is no larger in magnitude than `b` when
/// the dividend is at most `c * b` in magnitude.
pub proof fn lemma_div_trunc_bound(a: int, c: int, b: int)
    requires
        c > 0,
        b >= 0,
        abs(a) <= c * b,
    ensures
        abs(div_trunc(a, c)) <= b,
{
    let m = abs(a);
    lemma_div_is_ordered(m, c * b, c);
    assert(c * b == b * c) by (nonlinear_arith);
    lemma_div_by_multiple(b, c);
    lemma_div_pos_is_pos(m, c);
}

/// Multiplying by a fraction at most one does not grow a magnitude.
pub proof fn lemma_frac_shrinks(a: int, num: int, den: int)
    requires
        0 <= num <= den,
        den > 0,
    ensures
        abs(div_trunc(a * num, den)) <= abs(a),
{
    assert(abs(a * num) <= den * abs(a)) by (nonlinear_arith)
        requires
            0 <= num <= den,
            abs(a) == (if a >= 0 { a } else { -a }),
            abs(a * num) == (if a * num >= 0 { a * num } else { -(a * num) }),
    ;
    lemma_div_trunc_bound(a * num, den, abs(a));
}

/// A squared length of at most `m * m` keeps each component within `m`.
pub proof fn lemma_len_sq_within(x: int, y: int, m: int)
    requires
        0 <= m,
        len_sq(x, y) <= m * m,
    ensures
        abs(x) <= m,
        abs(y) <= m,
{
    assert(abs(x) * abs(x) == x * x && abs(y) * abs(y) == y * y) by (nonlinear_arith)
        requires
            abs(x) == (if x >= 0 { x } else { -x }),
            abs(y) == (if y >= 0 { y } else { -y }),
    ;
    assert(0 <= x * x && 0 <= y * y) by (nonlinear_arith);
    lemma_abs_le_root(abs(x), m * m, m);
    lemma_abs_le_root(abs(y), m * m, m);
}

/// `r` is the square root of `n` rounded up.
pub open spec fn is_ceil_sqrt(n: int, r: int) -> bool {
    r >= 0 && n <= r * r && (r == 0 || (r - 1) * (r - 1) < n)
}

/// The square root of a non-negative `n`, rounded up.
pub open spec fn ceil_sqrt(n: int) -> int {
    choose|r: int| is_ceil_sqrt(n, r)
}

proof fn lemma_square_monotone(a: int, b: int)
    requires
        0 <= a <= b,
    ensures
        a * a <= b * b,
{
    assert(a * a <= b * b) by (nonlinear_arith)
        requires
            0 <= a <= b,
    ;
}

proof fn lemma_ceil_sqrt_unique(n: int, r1: int, r2: int)
    requires
        is_ceil_sqrt(n, r1),
        is_ceil_sqrt(n, r2),
    ensures
        r1 == r2,
{
    if r1 < r2 {
        lemma_square_monotone(r1, r2 - 1);
    } else if r2 < r1 {
        lemma_square_monotone(r2, r1 - 1);
    }
}

/// Any witness of `is_ceil_sqrt` is the value of `ceil_sqrt`.
pub proof fn lemma_ceil_sqrt_is(n: int, r: int)
    requires
        is_ceil_sqrt(n, r),
    ensures
        ceil_sqrt(n) == r,
{
    lemma_ceil_sqrt_unique(n, ceil_sqrt(n), r);
}

/// Every non-negative number has a square root rounded up.
pub proof fn lemma_ceil_sqrt_exists(n: int)
    requires
        0 <= n,
    ensures
        is_ceil_sqrt(n, ceil_sqrt(n)),
    decreases n,
{
    if n == 0 {
        assert(is_ceil_sqrt(0, 0));
    } else {
        lemma_ceil_sqrt_exists(n - 1);
        let r = ceil_sqrt(n - 1);
        if n <= r * r {
            assert(is_ceil_sqrt(n, r));
        } else {
            assert(n <= (r + 1) * (r + 1)) by (nonlinear_arith)
                requires
                    n - 1 <= r * r,
                    r >= 0,
            ;
            assert(is_ceil_sqrt(n, r + 1));
        }
    }
}

/// Limiting a vector to length `max` leaves it no longer than `max`.
pub proof fn lemma_limit_within(v: (int, int), max: int)
    requires
        0 <= max,
    ensures
        len_sq(limit_spec(v, max).0, limit_spec(v, max).1) <= max * max,
{
    if len_sq(v.0, v.1) > max * max {
        assert(0 <= v.0 * v.0 && 0 <= v.1 * v.1) by (nonlinear_arith);
        lemma_ceil_sqrt_exists(len_sq(v.0, v.1));
        if v == zero() {
            assert(0 <= max * max) by (nonlinear_arith);
        } else {
            lemma_scaled_bounds(v, max);
        }
    }
}

/// The square root of `n` rounded up, by bisection.
pub fn ceil_sqrt_u128(n: u128) -> (r: u128)
    requires
        n <= 4 * (WIDE_LIMIT as int) * (WIDE_LIMIT as int),
    ensures
        r == ceil_sqrt(n as int),
        is_ceil_sqrt(n as int, r as int),
        r <= 2 * WIDE_LIMIT,
{
    let mut lo: u128 = 0;
    let mut hi: u128 = 2 * (WIDE_LIMIT as u128);
    assert(n <= hi * hi) by (nonlinear_arith)
        requires
            hi == 2 * (WIDE_LIMIT as int),
            n <= 4 * (WIDE_LIMIT as int) * (WIDE_LIMIT as int),
    ;
    while lo < hi
        invariant
            lo <= hi <= 2 * WIDE_LIMIT,
            n <= hi * hi,
            lo == 0 || (lo - 1) * (lo - 1) < n,
        decreases hi - lo,
    {
        let mid: u128 = lo + (hi - lo) / 2;
        proof {
            let w = 2 * WIDE_LIMIT as int;
            lemma_square_monotone(mid as int, w);
            assert(w == 2_305_843_009_213_693_952);
            assert(2_305_843_009_213_693_952int * 2_305_843_009_213_693_952int < u128::MAX);
        }
        if mid * mid >= n {
            hi = mid;
        } else {
            lo = mid + 1;
        }
    }
    proof {
        lemma_ceil_sqrt_is(n as int, lo as int);
    }
    lo
}

/// The direction of `v` at length `s` (rounded toward zero); the zero
/// vector has no direction and stays zero.
pub open spec fn scale_spec(v: (int, int), s: int) -> (int, int) {
    if v == zero() {
        zero()
    } else {
        vfrac(v, s, ceil_sqrt(len_sq(v.0, v.1)))
    }
}

/// `v` rescaled to length `max` when it is longer, else `v` itself.
pub open spec fn limit_spec(v: (int, int), max: int) -> (int, int) {
    if len_sq(v.0, v.1) > max * max {
        scale_spec(v, max)
    } else {
        v
    }
}

proof fn lemma_quotient(a: int, s: int, l: int)
    requires
        0 <= a,
        0 <= s,
        0 < l,
    ensures
        0 <= (a * s) / l,
        ((a * s) / l) * l <= a * s,
{
    assert(0 <= a * s) by (nonlinear_arith)
        requires
            0 <= a,
            0 <= s,
    ;
    lemma_div_pos_is_pos(a * s, l);
    lemma_fundamental_div_mod(a * s, l);
    lemma_mod_pos_bound(a * s, l);
}

proof fn lemma_abs_le_root(a: int, n: int, l: int)
    requires
        0 <= a,
        0 <= l,
        a * a <= n,
        n <= l * l,
    ensures
        a <= l,
{
    if a > l {
        assert(l * l < a * a) by (nonlinear_arith)
            requires
                0 <= l < a,
        ;
    }
}

proof fn lemma_square_of_product(q: int, l: int, a: int, s: int)
    requires
        0 <= q,
        0 <= a,
        0 <= s,
        0 < l,
        q * l <= a * s,
    ensures
        (q * q) * (l * l) <= (a * a) * (s * s),
{
    assert(0 <= q * l) by (nonlinear_arith)
        requires
            0 <= q,
            0 < l,
    ;
    lemma_square_monotone(q * l, a * s);
    assert((q * l) * (q * l) == (q * q) * (l * l)) by (nonlinear_arith);
    assert((a * s) * (a * s) == (a * a) * (s * s)) by (nonlinear_arith);
}

/// Scaling a non-zero vector to length `s` gives components within `s` and
/// a squared length of at most `s * s`.
pub proof fn lemma_scaled_bounds(v: (int, int), s: int)
    requires
        v != zero(),
        0 <= s,
        is_ceil_sqrt(len_sq(v.0, v.1), ceil_sqrt(len_sq(v.0, v.1))),
    ensures
        -s <= scale_spec(v, s).0 <= s,
        -s <= scale_spec(v, s).1 <= s,
        len_sq(scale_spec(v, s).0, scale_spec(v, s).1) <= s * s,
{
    let n = len_sq(v.0, v.1);
    let l = ceil_sqrt(n);
    let ax = if v.0 >= 0 { v.0 } else { -v.0 };
    let ay = if v.1 >= 0 { v.1 } else { -v.1 };
    assert(ax * ax == v.0 * v.0 && ay * ay == v.1 * v.1) by (nonlinear_arith)
        requires
            ax == v.0 || ax == -v.0,
            ay == v.1 || ay == -v.1,
    ;
    assert(0 <= ax * ax && 0 <= ay * ay) by (nonlinear_arith);
    if ax == 0 && ay == 0 {
        assert(false);
    }
    assert(n >= 1) by (nonlinear_arith)
        requires
            n == ax * ax + ay * ay,
            ax >= 0,
            ay >= 0,
            ax > 0 || ay > 0,
    ;
    if l == 0 {
        assert(l * l == 0);
    }
    lemma_abs_le_root(ax, n, l);
    lemma_abs_le_root(ay, n, l);
    lemma_quotient(ax, s, l);
    lemma_quotient(ay, s, l);
    let qx = (ax * s) / l;
    let qy = (ay * s) / l;
    assert(v.0 * s == ax * s || v.0 * s == -(ax * s)) by (nonlinear_arith)
        requires
            ax == v.0 || ax == -v.0,
    ;
    assert(v.1 * s == ay * s || v.1 * s == -(ay * s)) by (nonlinear_arith)
        requires
            ay == v.1 || ay == -v.1,
    ;
    assert(scale_spec(v, s).0 == qx || scale_spec(v, s).0 == -qx);
    assert(scale_spec(v, s).1 == qy || scale_spec(v, s).1 == -qy);
    lemma_mul_inequality(ax, l, s);
    lemma_mul_inequality(ay, l, s);
    lemma_mul_inequality_converse(qx, s, l);
    lemma_mul_inequality_converse(qy, s, l);
    lemma_square_of_product(qx, l, ax, s);
    lemma_square_of_product(qy, l, ay, s);
    let ll = l * l;
    let ss = s * s;
    assert(0 <= ss) by (nonlinear_arith)
        requires
            ss == s * s,
    ;
    lemma_mul_inequality(n, ll, ss);
    assert((qx * qx + qy * qy) * ll <= ss * ll) by (nonlinear_arith)
        requires
            (qx * qx) * ll <= (ax * ax) * ss,
            (qy * qy) * ll <= (ay * ay) * ss,
            n == ax * ax + ay * ay,
            n * ss <= ll * ss,
    ;
    assert(ll > 0) by (nonlinear_arith)
        requires
            l > 0,
            ll == l * l,
    ;
    lemma_mul_inequality_converse(qx * qx + qy * qy, ss, ll);
    assert(scale_spec(v, s).0 * scale_spec(v, s).0 == qx * qx) by (nonlinear_arith)
        requires
            scale_spec(v, s).0 == qx || scale_spec(v, s).0 == -qx,
    ;
    assert(scale_spec(v, s).1 * scale_spec(v, s).1 == qy * qy) by (nonlinear_arith)
        requires
            scale_spec(v, s).1 == qy || scale_spec(v, s).1 == -qy,
    ;
}

/// Integer division rounding toward zero.
pub fn div_trunc_i128(a: i128, b: i128) -> (r: i128)
    requires
        b > 0,
        a > i128::MIN,
    ensures
        r == div_trunc(a as int, b as int),
{
    if a >= 0 {
        proof {
            lemma_div_pos_is_pos(a as int, b as int);
            lemma_fundamental_div_mod(a as int, b as int);
        }
        ((a as u128) / (b as u128)) as i128
    } else {
        proof {
            lemma_div_pos_is_pos(-a, b as int);
            lemma_fundamental_div_mod(-a, b as int);
        }
        -((((-a) as u128) / (b as u128)) as i128)
    }
}

/// The direction of `(x, y)` at length `s`, rounded toward zero; the zero
/// vector stays zero.
pub fn scale_to(x: i128, y: i128, s: i64) -> (r: Vec2)
    requires
        -WIDE_LIMIT <= x <= WIDE_LIMIT,
        -WIDE_LIMIT <= y <= WIDE_LIMIT,
        0 <= s <= COORD_LIMIT,
    ensures
        r@ == scale_spec((x as int, y as int), s as int),
        within(r, s as int),
        len_sq(r.x as int, r.y as int) <= s * s,
{
    if x == 0 && y == 0 {
        return Vec2 { x: 0, y: 0 };
    }
    proof {
        lemma_square_monotone(if x >= 0 { x as int } else { -x }, WIDE_LIMIT as int);
        lemma_square_monotone(if y >= 0 { y as int } else { -y }, WIDE_LIMIT as int);
        assert(x * x == (if x >= 0 { x as int } else { -x }) * (if x >= 0 { x as int } else { -x })) by (nonlinear_arith);
        assert(y * y == (if y >= 0 { y as int } else { -y }) * (if y >= 0 { y as int } else { -y })) by (nonlinear_arith);
        assert((WIDE_LIMIT as int) * (WIDE_LIMIT as int) == 1_329_227_995_784_915_872_903_807_060_280_344_576int);
        assert(0 <= x * x && 0 <= y * y) by (nonlinear_arith);
        assert(-WIDE_LIMIT * COORD_LIMIT <= x * s <= WIDE_LIMIT * COORD_LIMIT) by (nonlinear_arith)
            requires
                -WIDE_LIMIT <= x <= WIDE_LIMIT,
                0 <= s <= COORD_LIMIT,
        ;
        assert(-WIDE_LIMIT * COORD_LIMIT <= y * s <= WIDE_LIMIT * COORD_LIMIT) by (nonlinear_arith)
            requires
                -WIDE_LIMIT <= y <= WIDE_LIMIT,
                0 <= s <= COORD_LIMIT,
        ;
    }
    let n: u128 = (x * x + y * y) as u128;
    let l: u128 = ceil_sqrt_u128(n);
    proof {
        assert(n >= 1) by (nonlinear_arith)
            requires
                n == x * x + y * y,
                x != 0 || y != 0,
        ;
        lemma_scaled_bounds((x as int, y as int), s as int);
    }
    let rx: i128 = div_trunc_i128(x * (s as i128), l as i128);
    let ry: i128 = div_trunc_i128(y * (s as i128), l as i128);
    Vec2 { x: rx as i64, y: ry as i64 }
}

/// `v * num / den`, each component rounded toward zero.
pub fn frac(v: Vec2, num: i64, den: i64) -> (r: Vec2)
    requires
        within(v, WIDE_LIMIT as int),
        0 <= num <= COORD_LIMIT,
        0 < den,
        num <= den || within(v, (den as int) * (COORD_LIMIT as int)),
    ensures
        r@ == vfrac(v@, num as int, den as int),
        num <= den ==> abs(r.x as int) <= abs(v.x as int) && abs(r.y as int) <= abs(v.y as int),
{
    proof {
        assert(-WIDE_LIMIT * COORD_LIMIT <= v.x * num <= WIDE_LIMIT * COORD_LIMIT) by (nonlinear_arith)
            requires
                -WIDE_LIMIT <= v.x <= WIDE_LIMIT,
                0 <= num <= COORD_LIMIT,
        ;
        assert(-WIDE_LIMIT * COORD_LIMIT <= v.y * num <= WIDE_LIMIT * COORD_LIMIT) by (nonlinear_arith)
            requires
                -WIDE_LIMIT <= v.y <= WIDE_LIMIT,
                0 <= num <= COORD_LIMIT,
        ;
        if num <= den {
            lemma_frac_shrinks(v.x as int, num as int, den as int);
            lemma_frac_shrinks(v.y as int, num as int, den as int);
        } else {
            assert(abs(v.x * num) <= den * (COORD_LIMIT * COORD_LIMIT)) by (nonlinear_arith)
                requires
                    abs(v.x as int) <= den * COORD_LIMIT,
                    0 <= num <= COORD_LIMIT,
                    abs(v.x as int) == (if v.x >= 0 { v.x as int } else { -v.x }),
                    abs(v.x * num) == (if v.x * num >= 0 { v.x * num } else { -(v.x * num) }),
            ;
            assert(abs(v.y * num) <= den * (COORD_LIMIT * COORD_LIMIT)) by (nonlinear_arith)
                requires
                    abs(v.y as int) <= den * COORD_LIMIT,
                    0 <= num <= COORD_LIMIT,
                    abs(v.y as int) == (if v.y >= 0 { v.y as int } else { -v.y }),
                    abs(v.y * num) == (if v.y * num >= 0 { v.y * num } else { -(v.y * num) }),
            ;
            lemma_div_trunc_bound(v.x * num, den as int, COORD_LIMIT * COORD_LIMIT);
            lemma_div_trunc_bound(v.y * num, den as int, COORD_LIMIT * COORD_LIMIT);
        }
    }
    let rx: i128 = div_trunc_i128((v.x as i128) * (num as i128), den as i128);
    let ry: i128 = div_trunc_i128((v.y as i128) * (num as i128), den as i128);
    Vec2 { x: rx as i64, y: ry as i64 }
}

/// Limits the length of `v` to `max`: a longer vector is rescaled to length
/// `max` in its own direction, a shorter one is left as it is.
pub fn limit_vec(v: &mut Vec2, max: i64)
    requires
        within(*old(v), WIDE_LIMIT as int),
        0 <= max <= COORD_LIMIT,
    ensures
        final(v)@ == limit_spec(old(v)@, max as int),
        len_sq(final(v).x as int, final(v).y as int) <= max * max,
{
    let x: i128 = v.x as i128;
    let y: i128 = v.y as i128;
    proof {
        assert(0 <= x * x && 0 <= y * y) by (nonlinear_arith);
        assert(x * x <= WIDE_LIMIT * WIDE_LIMIT) by (nonlinear_arith)
            requires
                -WIDE_LIMIT <= x <= WIDE_LIMIT,
        ;
        assert(y * y <= WIDE_LIMIT * WIDE_LIMIT) by (nonlinear_arith)
            requires
                -WIDE_LIMIT <= y <= WIDE_LIMIT,
        ;
        assert((WIDE_LIMIT as int) * (WIDE_LIMIT as int) == 1_329_227_995_784_915_872_903_807_060_280_344_576int);
        assert(0 <= max * max <= COORD_LIMIT * COORD_LIMIT) by (nonlinear_arith)
            requires
                0 <= max <= COORD_LIMIT,
        ;
    }
    if x * x + y * y > (max as i128) * (max as i128) {
        *v = scale_to(x, y, max);
    }
}

} // verus!
