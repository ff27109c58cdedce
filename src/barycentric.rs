use vstd::prelude::*;

use crate::types::ScreenPos;

verus! {

/// The largest `|u.z|` for which a triangle counts as degenerate: 0.01 of
/// a square pixel, in whole square sub-pixel units.
pub const DEGENERATE_LIMIT: i128 = 655;

/// Bound on the size of any barycentric numerator or denominator.
pub const WEIGHT_BOUND: i128 = 0x8_0000_0000_0000_0000;

/// The cross product of two integer 3-vectors.
pub open spec fn cross(s: (int, int, int), t: (int, int, int)) -> (int, int, int) {
    (s.1 * t.2 - s.2 * t.1, s.2 * t.0 - s.0 * t.2, s.0 * t.1 - s.1 * t.0)
}

/// `u = sx × sy` for the edge vectors `sx = (c.x - a.x, b.x - a.x, a.x - px)`
/// and `sy = (c.y - a.y, b.y - a.y, a.y - py)`.
pub open spec fn edge_cross(a: ScreenPos, b: ScreenPos, c: ScreenPos, px: int, py: int) -> (
    int,
    int,
    int,
) {
    cross(
        (c.x - a.x, b.x - a.x, a.x - px),
        (c.y - a.y, b.y - a.y, a.y - py),
    )
}

/// `u.z`, which does not depend on the point: twice the signed area of
/// the triangle, in square sub-pixel units.
pub open spec fn twice_area(a: ScreenPos, b: ScreenPos, c: ScreenPos) -> int {
    (c.x - a.x) * (b.y - a.y) - (b.x - a.x) * (c.y - a.y)
}

/// The absolute value of an integer.
pub open spec fn abs(v: int) -> int {
    if v < 0 {
        -v
    } else {
        v
    }
}

/// A triangle is degenerate (edge-on) when `|u.z|` is at most
/// `DEGENERATE_LIMIT`.
pub open spec fn is_degenerate(a: ScreenPos, b: ScreenPos, c: ScreenPos) -> bool {
    abs(twice_area(a, b, c)) <= DEGENERATE_LIMIT
}

/// The barycentric weights of the point `(px, py)`, which are
/// `(1 - (u.x + u.y) / u.z, u.y / u.z, u.x / u.z)`, written as numerators
/// `(w0, w1, w2)` over the common positive denominator `|u.z|`. There are
/// none for a degenerate triangle.
pub open spec fn weights(a: ScreenPos, b: ScreenPos, c: ScreenPos, px: int, py: int) -> Option<
    (int, int, int, int),
> {
    let u = edge_cross(a, b, c, px, py);
    if is_degenerate(a, b, c) {
        None
    } else if u.2 > 0 {
        Some((u.2 - u.0 - u.1, u.1, u.0, u.2))
    } else {
        Some((u.0 + u.1 - u.2, -u.1, -u.0, -u.2))
    }
}

/// Whether the point `(px, py)` lies in the triangle: it has weights and
/// none of them is negative.
pub open spec fn covers(a: ScreenPos, b: ScreenPos, c: ScreenPos, px: int, py: int) -> bool {
    match weights(a, b, c, px, py) {
        Some(w) => w.0 >= 0 && w.1 >= 0 && w.2 >= 0,
        None => false,
    }
}

/// The affine combination `(w0 * q0 + w1 * q1 + w2 * q2) / den`, rounded
/// down.
pub open spec fn interpolate_spec(w: (int, int, int, int), q0: int, q1: int, q2: int) -> int {
    (w.0 * q0 + w.1 * q1 + w.2 * q2) / w.3
}

/// Barycentric weights `w0 / den`, `w1 / den`, `w2 / den` with `den > 0`.
#[derive(Debug, Clone, Copy, PartialEq, Eq, Structural)]
pub struct Barycentric {
    pub w0: i128,
    pub w1: i128,
    pub w2: i128,
    pub den: i128,
}

impl View for Barycentric {
    type V = (int, int, int, int);

    open spec fn view(&self) -> (int, int, int, int) {
        (self.w0 as int, self.w1 as int, self.w2 as int, self.den as int)
    }
}

impl Barycentric {
    /// Weights of a point inside the triangle: none negative, summing to
    /// one, and within the range that screen positions allow.
    pub open spec fn is_inside(&self) -> bool {
        &&& self.w0 >= 0
        &&& self.w1 >= 0
        &&& self.w2 >= 0
        &&& self.den > 0
        &&& self.w0 + self.w1 + self.w2 == self.den
        &&& self.den <= WEIGHT_BOUND
    }

    /// Whether none of the weights is negative.
    pub fn all_nonnegative(&self) -> (r: bool)
        ensures
            r == (self.w0 >= 0 && self.w1 >= 0 && self.w2 >= 0),
    {
        self.w0 >= 0 && self.w1 >= 0 && self.w2 >= 0
    }
}

/// Bound on a product of two differences of 32-bit values.
proof fn lemma_product_bound(s: int, t: int)
    requires
        -0x1_0000_0000 <= s <= 0x1_0000_0000,
        -0x1_0000_0000 <= t <= 0x1_0000_0000,
    ensures
        -0x1_0000_0000_0000_0000 <= s * t <= 0x1_0000_0000_0000_0000,
{
    assert(-0x1_0000_0000_0000_0000 <= s * t <= 0x1_0000_0000_0000_0000) by (nonlinear_arith)
        requires
            -0x1_0000_0000 <= s <= 0x1_0000_0000,
            -0x1_0000_0000 <= t <= 0x1_0000_0000,
    ;
}

/// Barycentric coordinates of `point` (its `x` and `y`) against the
/// triangle `a`, `b`, `c`, from the cross product of the edge vectors;
/// `None` when the triangle is degenerate.
pub fn barycentric(a: ScreenPos, b: ScreenPos, c: ScreenPos, point: ScreenPos) -> (r: Option<
    Barycentric,
>)
    ensures
        r is None <==> weights(a, b, c, point.x as int, point.y as int) is None,
        r is Some ==> weights(a, b, c, point.x as int, point.y as int) == Some(r->Some_0@),
        r is Some ==> r->Some_0.den > 0 && r->Some_0.w0 + r->Some_0.w1 + r->Some_0.w2
            == r->Some_0.den && r->Some_0.den <= WEIGHT_BOUND,
{
    let sx0 = c.x as i64 - a.x as i64;
    let sx1 = b.x as i64 - a.x as i64;
    let sx2 = a.x as i64 - point.x as i64;
    let sy0 = c.y as i64 - a.y as i64;
    let sy1 = b.y as i64 - a.y as i64;
    let sy2 = a.y as i64 - point.y as i64;
    proof {
        lemma_product_bound(sx1 as int, sy2 as int);
        lemma_product_bound(sx2 as int, sy1 as int);
        lemma_product_bound(sx2 as int, sy0 as int);
        lemma_product_bound(sx0 as int, sy2 as int);
        lemma_product_bound(sx0 as int, sy1 as int);
        lemma_product_bound(sx1 as int, sy0 as int);
    }
    let ux = (sx1 as i128) * (sy2 as i128) - (sx2 as i128) * (sy1 as i128);
    let uy = (sx2 as i128) * (sy0 as i128) - (sx0 as i128) * (sy2 as i128);
    let uz = (sx0 as i128) * (sy1 as i128) - (sx1 as i128) * (sy0 as i128);
    assert(uz == twice_area(a, b, c));
    assert((ux as int, uy as int, uz as int) == edge_cross(
        a,
        b,
        c,
        point.x as int,
        point.y as int,
    ));
    if -DEGENERATE_LIMIT <= uz && uz <= DEGENERATE_LIMIT {
        return None;
    }
    if uz > 0 {
        Some(Barycentric { w0: uz - ux - uy, w1: uy, w2: ux, den: uz })
    } else {
        Some(Barycentric { w0: ux + uy - uz, w1: -uy, w2: -ux, den: -uz })
    }
}

/// An affine combination of values within `[lo, hi]` stays within it.
pub proof fn lemma_interpolate_bounds(
    w: (int, int, int, int),
    q0: int,
    q1: int,
    q2: int,
    lo: int,
    hi: int,
)
    requires
        w.0 >= 0,
        w.1 >= 0,
        w.2 >= 0,
        w.3 > 0,
        w.0 + w.1 + w.2 == w.3,
        lo <= q0 <= hi,
        lo <= q1 <= hi,
        lo <= q2 <= hi,
    ensures
        lo <= interpolate_spec(w, q0, q1, q2) <= hi,
{
    let n = w.0 * q0 + w.1 * q1 + w.2 * q2;
    assert(lo * w.3 <= n <= hi * w.3) by (nonlinear_arith)
        requires
            w.0 >= 0,
            w.1 >= 0,
            w.2 >= 0,
            w.0 + w.1 + w.2 == w.3,
            lo <= q0 <= hi,
            lo <= q1 <= hi,
            lo <= q2 <= hi,
            n == w.0 * q0 + w.1 * q1 + w.2 * q2,
    ;
    vstd::arithmetic::div_mod::lemma_fundamental_div_mod_converse(lo * w.3, w.3, lo, 0);
    vstd::arithmetic::div_mod::lemma_fundamental_div_mod_converse(hi * w.3, w.3, hi, 0);
    vstd::arithmetic::div_mod::lemma_div_is_ordered(lo * w.3, n, w.3);
    vstd::arithmetic::div_mod::lemma_div_is_ordered(n, hi * w.3, w.3);
}

/// Interpolates `q0`, `q1`, `q2` with the weights of a point inside a
/// triangle, rounding down.
pub fn interpolate(w: &Barycentric, q0: i32, q1: i32, q2: i32) -> (r: i32)
    requires
        w.is_inside(),
    ensures
        r == interpolate_spec(w@, q0 as int, q1 as int, q2 as int),
{
    // Shift the values to be non-negative so that division rounds down.
    let s0 = q0 as i128 - i32::MIN as i128;
    let s1 = q1 as i128 - i32::MIN as i128;
    let s2 = q2 as i128 - i32::MIN as i128;
    proof {
        assert(0 <= w.w0 * s0 <= WEIGHT_BOUND * 0x1_0000_0000) by (nonlinear_arith)
            requires
                0 <= w.w0 <= WEIGHT_BOUND,
                0 <= s0 <= 0x1_0000_0000,
        ;
        assert(0 <= w.w1 * s1 <= WEIGHT_BOUND * 0x1_0000_0000) by (nonlinear_arith)
            requires
                0 <= w.w1 <= WEIGHT_BOUND,
                0 <= s1 <= 0x1_0000_0000,
        ;
        assert(0 <= w.w2 * s2 <= WEIGHT_BOUND * 0x1_0000_0000) by (nonlinear_arith)
            requires
                0 <= w.w2 <= WEIGHT_BOUND,
                0 <= s2 <= 0x1_0000_0000,
        ;
    }
    let n = w.w0 * s0 + w.w1 * s1 + w.w2 * s2;
    let shifted = n / w.den;
    proof {
        let m = i32::MIN as int;
        let orig = w.w0 * q0 + w.w1 * q1 + w.w2 * q2;
        assert(n == orig + (-m) * w.den) by (nonlinear_arith)
            requires
                n == w.w0 * s0 + w.w1 * s1 + w.w2 * s2,
                s0 == q0 - m,
                s1 == q1 - m,
                s2 == q2 - m,
                w.w0 + w.w1 + w.w2 == w.den,
                orig == w.w0 * q0 + w.w1 * q1 + w.w2 * q2,
        ;
        vstd::arithmetic::div_mod::lemma_hoist_over_denominator(orig, -m, w.den as nat);
        lemma_interpolate_bounds(w@, q0 as int, q1 as int, q2 as int, i32::MIN as int, i32::MAX as int);
    }
    (shifted + i32::MIN as i128) as i32
}

} // verus!
