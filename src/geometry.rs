//! Integer geometry of the canvas: positions, rectangles, rounding to a step
//! and edge-based grid snapping.

use vstd::prelude::*;

verus! {

/// A position on the canvas, in whole canvas units.
#[derive(Clone, Copy, Debug, PartialEq, Eq, Structural)]
pub struct Pos {
    pub x: i32,
    pub y: i32,
}

/// True when `v` can be stored as a coordinate.
pub open spec fn fits_coord(v: int) -> bool {
    i32::MIN <= v <= i32::MAX
}

/// The range that an edge (a coordinate plus or minus a radius) lies in.
pub open spec fn in_edge_range(v: int) -> bool {
    -0x1_0000_0000 <= v <= 0x1_0000_0000
}

pub open spec fn abs(v: int) -> int {
    if v < 0 {
        -v
    } else {
        v
    }
}

/// `v / s` rounded to the nearest integer, halves away from zero.
pub open spec fn round_div(v: int, s: int) -> int {
    if v >= 0 {
        (2 * v + s) / (2 * s)
    } else {
        -((-2 * v + s) / (2 * s))
    }
}

/// The multiple of `step` nearest to `v`, halves away from zero.
pub open spec fn quantize(v: int, step: int) -> int {
    round_div(v, step) * step
}

/// Where a centre coordinate `c` goes when the nearer of its two edges
/// (`c - r` and `c + r`) is moved onto a grid line, keeping the radius.
pub open spec fn snap_axis(c: int, spacing: int, r: int) -> int {
    let lo = c - r;
    let hi = c + r;
    let lo_snap = quantize(lo, spacing);
    let hi_snap = quantize(hi, spacing);
    if abs(lo - lo_snap) < abs(hi - hi_snap) {
        lo_snap + r
    } else {
        hi_snap - r
    }
}

/// The multiple of `step` nearest to `v`, halves away from zero.
pub fn quantize_value(v: i64, step: i64) -> (r: i64)
    requires
        in_edge_range(v as int),
        0 < step <= i32::MAX,
    ensures
        r == quantize(v as int, step as int),
        2 * abs(r - v) <= step,
{
    proof {
        lemma_quantize_near(v as int, step as int);
    }
    if v >= 0 {
        proof {
            lemma_scaled_quotient(2 * v + step, step as int);
        }
        (2 * v + step) / (2 * step) * step
    } else {
        let q: i64 = (-2 * v + step) / (2 * step);
        proof {
            lemma_scaled_quotient(-2 * v + step, step as int);
            assert(-(q * step) == (-q) * step) by (nonlinear_arith);
        }
        -(q * step)
    }
}

proof fn lemma_scaled_quotient(n: int, s: int)
    requires
        n >= 0,
        s > 0,
    ensures
        0 <= (n / (2 * s)) * s <= n,
{
    let q = n / (2 * s);
    vstd::arithmetic::div_mod::lemma_fundamental_div_mod(n, 2 * s);
    assert(0 <= q) by {
        vstd::arithmetic::div_mod::lemma_div_pos_is_pos(n, 2 * s);
    }
    assert(0 <= q * s <= q * (2 * s)) by (nonlinear_arith)
        requires
            0 <= q,
            0 < s,
    ;
}

/// Moves the nearer edge of a marker of radius `radius` centred at `c` onto
/// the grid, keeping the radius from that edge.
pub fn snap_edge_to_grid(c: i32, grid_spacing: i32, radius: i32) -> (r: i64)
    requires
        grid_spacing > 0,
    ensures
        r == snap_axis(c as int, grid_spacing as int, radius as int),
        2 * abs(r - c) <= grid_spacing,
{
    let lo: i64 = c as i64 - radius as i64;
    let hi: i64 = c as i64 + radius as i64;
    let lo_snap = quantize_value(lo, grid_spacing as i64);
    let hi_snap = quantize_value(hi, grid_spacing as i64);
    let lo_err: i64 = if lo >= lo_snap {
        lo - lo_snap
    } else {
        lo_snap - lo
    };
    let hi_err: i64 = if hi >= hi_snap {
        hi - hi_snap
    } else {
        hi_snap - hi
    };
    if lo_err < hi_err {
        lo_snap + radius as i64
    } else {
        hi_snap - radius as i64
    }
}

/// An axis-aligned rectangle; `min` holds the smaller coordinate on each axis.
#[derive(Clone, Copy, Debug, PartialEq, Eq, Structural)]
pub struct Rect {
    pub min: Pos,
    pub max: Pos,
}

impl Rect {
    /// Whether the point `(x, y)` lies in the rectangle, borders included.
    pub open spec fn holds(self, x: int, y: int) -> bool {
        &&& self.min.x <= x <= self.max.x
        &&& self.min.y <= y <= self.max.y
    }

    /// The rectangle spanned by two opposite corners, given in any order.
    pub open spec fn spanning(a: Pos, b: Pos) -> Rect {
        Rect {
            min: Pos {
                x: if a.x <= b.x { a.x } else { b.x },
                y: if a.y <= b.y { a.y } else { b.y },
            },
            max: Pos {
                x: if a.x <= b.x { b.x } else { a.x },
                y: if a.y <= b.y { b.y } else { a.y },
            },
        }
    }

    /// The rectangle spanned by two opposite corners, given in any order.
    pub fn from_two_pos(a: Pos, b: Pos) -> (r: Rect)
        ensures
            r == Rect::spanning(a, b),
    {
        let (min_x, max_x) = if a.x <= b.x { (a.x, b.x) } else { (b.x, a.x) };
        let (min_y, max_y) = if a.y <= b.y { (a.y, b.y) } else { (b.y, a.y) };
        Rect { min: Pos { x: min_x, y: min_y }, max: Pos { x: max_x, y: max_y } }
    }

    /// Whether the point `(x, y)` lies in the rectangle, borders included.
    pub fn contains(&self, x: i64, y: i64) -> (r: bool)
        ensures
            r == self.holds(x as int, y as int),
    {
        self.min.x as i64 <= x && x <= self.max.x as i64 && self.min.y as i64 <= y && y
            <= self.max.y as i64
    }
}

/// One of the four arrow directions; up is towards smaller `y`.
#[derive(Clone, Copy, Debug, PartialEq, Eq, Structural)]
pub enum Direction {
    Left,
    Right,
    Up,
    Down,
}

impl Direction {
    pub open spec fn dx(self) -> int {
        match self {
            Direction::Left => -1,
            Direction::Right => 1,
            _ => 0,
        }
    }

    pub open spec fn dy(self) -> int {
        match self {
            Direction::Up => -1,
            Direction::Down => 1,
            _ => 0,
        }
    }

    /// The unit step of this direction, as `(dx, dy)`.
    pub fn unit(self) -> (r: (i64, i64))
        ensures
            r.0 == self.dx(),
            r.1 == self.dy(),
    {
        match self {
            Direction::Left => (-1, 0),
            Direction::Right => (1, 0),
            Direction::Up => (0, -1),
            Direction::Down => (0, 1),
        }
    }
}

/// A coordinate axis.
#[derive(Clone, Copy, Debug, PartialEq, Eq, Structural)]
pub enum Axis {
    X,
    Y,
}

/// The squared Euclidean distance between `(ax, ay)` and `(bx, by)`.
pub open spec fn dist_sq(ax: int, ay: int, bx: int, by: int) -> int {
    (ax - bx) * (ax - bx) + (ay - by) * (ay - by)
}

/// The squared distance as an exact machine integer.
pub fn distance_sq(ax: i64, ay: i64, bx: i64, by: i64) -> (r: i128)
    requires
        -0x4_0000_0000 <= ax <= 0x4_0000_0000,
        -0x4_0000_0000 <= ay <= 0x4_0000_0000,
        -0x4_0000_0000 <= bx <= 0x4_0000_0000,
        -0x4_0000_0000 <= by <= 0x4_0000_0000,
    ensures
        r == dist_sq(ax as int, ay as int, bx as int, by as int),
        0 <= r <= 2 * 0x40_0000_0000 * 0x40_0000_0000,
{
    let dx: i128 = ax as i128 - bx as i128;
    let dy: i128 = ay as i128 - by as i128;
    assert(0 <= dx * dx <= 0x40_0000_0000 * 0x40_0000_0000) by (nonlinear_arith)
        requires
            -0x40_0000_0000 <= dx <= 0x40_0000_0000,
    ;
    assert(0 <= dy * dy <= 0x40_0000_0000 * 0x40_0000_0000) by (nonlinear_arith)
        requires
            -0x40_0000_0000 <= dy <= 0x40_0000_0000,
    ;
    dx * dx + dy * dy
}

/// A unit factor multiplies by sign alone.
pub proof fn lemma_unit_mul(u: int, v: int)
    requires
        -1 <= u <= 1,
    ensures
        u * v == if u > 0 {
            v
        } else if u < 0 {
            -v
        } else {
            0
        },
{
    assert(u * v == if u > 0 {
        v
    } else if u < 0 {
        -v
    } else {
        0
    }) by (nonlinear_arith)
        requires
            -1 <= u <= 1,
    ;
}

/// The nearest multiple lies at most half a step away.
pub proof fn lemma_quantize_near(v: int, s: int)
    requires
        s > 0,
    ensures
        2 * abs(v - quantize(v, s)) <= s,
{
    let n = if v >= 0 {
        2 * v + s
    } else {
        -2 * v + s
    };
    let q = n / (2 * s);
    vstd::arithmetic::div_mod::lemma_fundamental_div_mod(n, 2 * s);
    assert(q * (2 * s) == 2 * (q * s)) by (nonlinear_arith);
    if v < 0 {
        assert((-q) * s == -(q * s)) by (nonlinear_arith);
    }
}

/// A multiple of the step is its own nearest multiple.
pub proof fn lemma_quantize_multiple(m: int, s: int)
    requires
        s > 0,
    ensures
        quantize(m * s, s) == m * s,
{
    let v = m * s;
    if m >= 0 {
        assert(v >= 0) by (nonlinear_arith)
            requires
                v == m * s,
                m >= 0,
                s > 0,
        ;
        assert(2 * v + s == m * (2 * s) + s) by (nonlinear_arith)
            requires
                v == m * s,
        ;
        vstd::arithmetic::div_mod::lemma_fundamental_div_mod_converse(2 * v + s, 2 * s, m, s);
    } else {
        assert(v < 0) by (nonlinear_arith)
            requires
                v == m * s,
                m < 0,
                s > 0,
        ;
        assert(-2 * v + s == (-m) * (2 * s) + s) by (nonlinear_arith)
            requires
                v == m * s,
        ;
        vstd::arithmetic::div_mod::lemma_fundamental_div_mod_converse(-2 * v + s, 2 * s, -m, s);
        assert(-(-m) * s == m * s) by (nonlinear_arith);
    }
}

/// Snapping a coordinate that is already snapped leaves it where it is.
pub proof fn lemma_snap_axis_idempotent(c: int, spacing: int, r: int)
    requires
        spacing > 0,
    ensures
        snap_axis(snap_axis(c, spacing, r), spacing, r) == snap_axis(c, spacing, r),
{
    let lo = c - r;
    let hi = c + r;
    lemma_quantize_multiple(round_div(lo, spacing), spacing);
    lemma_quantize_multiple(round_div(hi, spacing), spacing);
    let c1 = snap_axis(c, spacing, r);
    lemma_quantize_near(c1 - r, spacing);
    lemma_quantize_near(c1 + r, spacing);
}

} // verus!
