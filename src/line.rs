use vstd::prelude::*;

use crate::types::PixelPosition;

verus! {

/// The distance between two integers.
pub open spec fn abs_diff(a: int, b: int) -> int {
    if a >= b {
        a - b
    } else {
        b - a
    }
}

/// A line is steep when it rises by more than it runs; it is then traced
/// along the y axis.
pub open spec fn is_steep(start: PixelPosition, end: PixelPosition) -> bool {
    abs_diff(start.0 as int, end.0 as int) < abs_diff(start.1 as int, end.1 as int)
}

/// The endpoints `(u0, v0, u1, v1)` in the line's own frame: coordinates
/// swapped when the line is steep, so that `u` is the major axis, then the
/// endpoints ordered so that `u0 <= u1`.
pub open spec fn line_frame(start: PixelPosition, end: PixelPosition) -> (int, int, int, int) {
    let (x0, y0, x1, y1) = if is_steep(start, end) {
        (start.1 as int, start.0 as int, end.1 as int, end.0 as int)
    } else {
        (start.0 as int, start.1 as int, end.0 as int, end.1 as int)
    };
    if x0 > x1 {
        (x1, y1, x0, y0)
    } else {
        (x0, y0, x1, y1)
    }
}

/// How many pixels a line plots: its extent along the major axis. The
/// pixel at `u1` itself is never plotted.
pub open spec fn line_len(start: PixelPosition, end: PixelPosition) -> int {
    let f = line_frame(start, end);
    f.2 - f.0
}

/// Minor-axis steps taken before the `k`-th pixel of a line with major
/// extent `du` and minor extent `dv`: the error term grows by `2 * dv` per
/// pixel and a step is taken (and `2 * du` taken off) whenever it exceeds
/// `du`.
pub open spec fn minor_steps(du: int, dv: int, k: int) -> int {
    (2 * k * dv + du - 1) / (2 * du)
}

/// The `k`-th pixel plotted by `draw_line(start, end, ..)`, in drawing
/// coordinates.
pub open spec fn line_point(start: PixelPosition, end: PixelPosition, k: int) -> (int, int) {
    let f = line_frame(start, end);
    let m = minor_steps(f.2 - f.0, abs_diff(f.3, f.1), k);
    let u = f.0 + k;
    let v = if f.3 > f.1 {
        f.1 + m
    } else {
        f.1 - m
    };
    if is_steep(start, end) {
        (v, u)
    } else {
        (u, v)
    }
}

/// Whether `(x, y)` is among the first `n` pixels plotted for the line.
pub open spec fn on_line_before(
    start: PixelPosition,
    end: PixelPosition,
    n: int,
    x: int,
    y: int,
) -> bool {
    let f = line_frame(start, end);
    let k = if is_steep(start, end) {
        y - f.0
    } else {
        x - f.0
    };
    0 <= k < n && line_point(start, end, k) == (x, y)
}

/// Whether `draw_line(start, end, ..)` plots `(x, y)`.
pub open spec fn on_line(start: PixelPosition, end: PixelPosition, x: int, y: int) -> bool {
    on_line_before(start, end, line_len(start, end), x, y)
}

/// The error term of the line tracer before its `k`-th pixel, doubled so
/// that it stays an integer.
pub open spec fn line_error(du: int, dv: int, k: int) -> int {
    2 * k * dv - 2 * du * minor_steps(du, dv, k)
}

/// A line from `start` to `end` plots `max(|dx|, |dy|)` pixels, at least
/// one unless the endpoints coincide: the `k`-th is `line_point(start,
/// end, k)`, no two of them are the same, and they are all the pixels that
/// it plots.
pub proof fn lemma_line_trace(start: PixelPosition, end: PixelPosition)
    ensures
        line_len(start, end) == if abs_diff(start.0 as int, end.0 as int) >= abs_diff(
            start.1 as int,
            end.1 as int,
        ) {
            abs_diff(start.0 as int, end.0 as int)
        } else {
            abs_diff(start.1 as int, end.1 as int)
        },
        start != end ==> line_len(start, end) >= 1,
        forall|k: int|
            0 <= k < line_len(start, end) ==> on_line(
                start,
                end,
                #[trigger] line_point(start, end, k).0,
                line_point(start, end, k).1,
            ),
        forall|j: int, k: int|
            0 <= j < k < line_len(start, end) ==> #[trigger] line_point(start, end, j)
                != #[trigger] line_point(start, end, k),
        forall|x: int, y: int|
            #[trigger] on_line(start, end, x, y) ==> exists|k: int|
                0 <= k < line_len(start, end) && line_point(start, end, k) == (x, y),
{
    assert forall|x: int, y: int| #[trigger] on_line(start, end, x, y) implies exists|k: int|
        0 <= k < line_len(start, end) && line_point(start, end, k) == (x, y) by {
        let f = line_frame(start, end);
        let k = if is_steep(start, end) {
            y - f.0
        } else {
            x - f.0
        };
        assert(line_point(start, end, k) == (x, y));
    }
}

/// A line traced from `start`, which is the case when `start.0 <= end.0`
/// for a shallow line and `start.1 <= end.1` for a steep one, never plots
/// `end` itself, and plots `start` first unless the two coincide.
pub proof fn lemma_line_skips_end(start: PixelPosition, end: PixelPosition)
    requires
        start.0 <= end.0,
        is_steep(start, end) ==> start.1 <= end.1,
    ensures
        !on_line(start, end, end.0 as int, end.1 as int),
        start != end ==> line_point(start, end, 0) == (start.0 as int, start.1 as int),
{
    let f = line_frame(start, end);
    let du = f.2 - f.0;
    let dv = abs_diff(f.3, f.1);
    if start != end {
        assert(du >= 1);
        lemma_minor_steps_monotone(du, dv, 0, 0);
    }
}

/// One step of the line tracer: the error term stays in `(-du, du]`, and
/// a minor-axis step is taken exactly when it would exceed `du`.
pub proof fn lemma_minor_step(du: int, dv: int, k: int)
    requires
        0 <= dv <= du,
        0 < du,
        0 <= k,
    ensures
        -du < line_error(du, dv, k) <= du,
        line_error(du, dv, k) + 2 * dv > du ==> minor_steps(du, dv, k + 1) == minor_steps(du, dv, k)
            + 1 && line_error(du, dv, k + 1) == line_error(du, dv, k) + 2 * dv - 2 * du,
        line_error(du, dv, k) + 2 * dv <= du ==> minor_steps(du, dv, k + 1) == minor_steps(du, dv, k)
            && line_error(du, dv, k + 1) == line_error(du, dv, k) + 2 * dv,
{
    let n = 2 * k * dv + du - 1;
    let m = minor_steps(du, dv, k);
    assert(0 <= k * dv) by (nonlinear_arith)
        requires
            0 <= k,
            0 <= dv,
    ;
    vstd::arithmetic::div_mod::lemma_fundamental_div_mod(n, 2 * du);
    let r = n % (2 * du);
    assert(n == 2 * du * m + r);
    assert(0 <= r < 2 * du);
    let e = line_error(du, dv, k);
    assert(e == r - du + 1);
    assert(2 * (k + 1) * dv == 2 * k * dv + 2 * dv) by (nonlinear_arith);
    assert((m + 1) * (2 * du) == 2 * du * m + 2 * du) by (nonlinear_arith);
    assert(m * (2 * du) == 2 * du * m) by (nonlinear_arith);
    assert(2 * du * (m + 1) == 2 * du * m + 2 * du) by (nonlinear_arith);
    if e + 2 * dv > du {
        vstd::arithmetic::div_mod::lemma_fundamental_div_mod_converse(
            n + 2 * dv,
            2 * du,
            m + 1,
            r + 2 * dv - 2 * du,
        );
    } else {
        vstd::arithmetic::div_mod::lemma_fundamental_div_mod_converse(
            n + 2 * dv,
            2 * du,
            m,
            r + 2 * dv,
        );
    }
}

/// Minor-axis steps never decrease along a line, start at zero, and stay
/// within the minor extent.
pub proof fn lemma_minor_steps_monotone(du: int, dv: int, j: int, k: int)
    requires
        0 <= dv <= du,
        0 < du,
        0 <= j <= k < du,
    ensures
        0 <= minor_steps(du, dv, j) <= minor_steps(du, dv, k) <= minor_steps(du, dv, du - 1),
        minor_steps(du, dv, 0) == 0,
{
    vstd::arithmetic::div_mod::lemma_fundamental_div_mod_converse(du - 1, 2 * du, 0, du - 1);
    assert(2 * 0 * dv + du - 1 == du - 1) by (nonlinear_arith);
    assert(minor_steps(du, dv, 0) == 0);
    assert(0 <= 2 * j * dv <= 2 * k * dv <= 2 * (du - 1) * dv) by (nonlinear_arith)
        requires
            0 <= j <= k <= du - 1,
            0 <= dv,
    ;
    vstd::arithmetic::div_mod::lemma_div_is_ordered(du - 1, 2 * j * dv + du - 1, 2 * du);
    vstd::arithmetic::div_mod::lemma_div_is_ordered(
        2 * j * dv + du - 1,
        2 * k * dv + du - 1,
        2 * du,
    );
    vstd::arithmetic::div_mod::lemma_div_is_ordered(
        2 * k * dv + du - 1,
        2 * (du - 1) * dv + du - 1,
        2 * du,
    );
}

} // verus!
