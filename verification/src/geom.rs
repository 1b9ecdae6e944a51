//! Integer world geometry.
//!
//! Coordinates are kept in milli-units (one thousandth of a world unit), so
//! velocity expressed in units per second equals milli-units per millisecond
//! and time integration needs no division. Aim directions are fixed-point
//! unit vectors: an integer pair `v` with `v.x^2 + v.y^2 == DIR_SCALE^2`.
//! All containment tests are exact integer forms of the real-valued tests
//! "distance <= radius" and friends, obtained by clearing denominators.

use vstd::prelude::*;

verus! {

/// Scale of fixed-point unit direction vectors.
pub const DIR_SCALE: i64 = 100;

/// Positions live in `[-COORD_LIMIT, COORD_LIMIT]` on each axis: a
/// million world units, far beyond any play space, chosen so that every
/// intermediate of the integer geometry provably fits in an `i64`.
pub const COORD_LIMIT: i64 = 1_000_000_000;

/// Radii and rectangle sides are at most this (500 world units).
pub const SIZE_LIMIT: i64 = 500_000;

/// Velocity components are at most this (milli-units per millisecond).
pub const VEL_LIMIT: i64 = 2_000;

/// A tick advances time by at most this many milliseconds.
pub const DELTA_LIMIT: u32 = 1_000;

/// A plane vector with integer components.
#[derive(Clone, Copy, Debug, PartialEq, Eq, Structural)]
pub struct Vec2i {
    pub x: i64,
    pub y: i64,
}

/// World-space location of an entity, in milli-units.
#[derive(Clone, Copy, Debug, PartialEq, Eq, Structural)]
pub struct Position(pub Vec2i);

/// Displacement per millisecond, in milli-units.
#[derive(Clone, Copy, Debug, PartialEq, Eq, Structural)]
pub struct Velocity(pub Vec2i);

/// Circular hit/hurt radius of an entity, in milli-units.
#[derive(Clone, Copy, Debug, PartialEq, Eq, Structural)]
pub struct CollideRadius(pub i64);

pub open spec fn abs_i(x: int) -> int {
    if x < 0 { -x } else { x }
}

pub open spec fn dot(a: Vec2i, b: Vec2i) -> int {
    a.x * b.x + a.y * b.y
}

/// Projection of the offset `p - o` onto `v`, scaled by `|v|`.
pub open spec fn dot_off(v: Vec2i, p: Vec2i, o: Vec2i) -> int {
    v.x * (p.x - o.x) + v.y * (p.y - o.y)
}

/// Component of the offset `p - o` across `v`, scaled by `|v|`.
pub open spec fn cross_off(v: Vec2i, p: Vec2i, o: Vec2i) -> int {
    v.x * (p.y - o.y) - v.y * (p.x - o.x)
}

/// Squared distance between two points.
pub open spec fn dist_sq(a: Vec2i, b: Vec2i) -> int {
    (a.x - b.x) * (a.x - b.x) + (a.y - b.y) * (a.y - b.y)
}

/// A fixed-point unit vector: its squared length is exactly `DIR_SCALE^2`.
pub open spec fn is_unit_dir(v: Vec2i) -> bool {
    dot(v, v) == (DIR_SCALE as int) * (DIR_SCALE as int)
}

pub open spec fn coord_ok(x: int) -> bool {
    -(COORD_LIMIT as int) <= x <= COORD_LIMIT as int
}

pub open spec fn vec_ok(p: Vec2i) -> bool {
    coord_ok(p.x as int) && coord_ok(p.y as int)
}

pub open spec fn size_ok(r: int) -> bool {
    0 <= r <= SIZE_LIMIT as int
}

/// A circle of radius `r` around `o` hits an entity at `p` with radius `cr`
/// iff the distance of the centers is at most `r + cr`.
pub open spec fn circle_hit(o: Vec2i, r: int, p: Vec2i, cr: int) -> bool {
    dist_sq(p, o) <= (r + cr) * (r + cr)
}

/// The forward half-plane test of the half circle: with `s` the projection
/// of `p - o` onto the aim `v`, the entity's footprint reaches the forward
/// side iff `s / |v| + cr > 0`, here with denominators cleared.
pub open spec fn forward_hit(o: Vec2i, v: Vec2i, p: Vec2i, cr: int) -> bool {
    let s = dot_off(v, p, o);
    s > 0 || s * s < cr * cr * dot(v, v)
}

/// Half circle of radius `r` around `o`, opening towards `v`.
pub open spec fn half_circle_hit(o: Vec2i, r: int, v: Vec2i, p: Vec2i, cr: int) -> bool {
    circle_hit(o, r, p, cr) && forward_hit(o, v, p, cr)
}

/// Rectangle with left-edge center `o`, extending `w` towards `v`, of height
/// `h`. The entity offset is rotated into the rectangle's frame; `ax`/`ay`
/// are the offsets from the rectangle's center scaled by `2 * DIR_SCALE`.
/// The radius-padded footprint overlaps the box iff it overlaps the box
/// widened by `cr` in one axis direction, or the circle around the nearest
/// corner.
pub open spec fn rect_hit(o: Vec2i, w: int, h: int, v: Vec2i, p: Vec2i, cr: int) -> bool {
    let s = DIR_SCALE as int;
    let ax = abs_i(2 * dot_off(v, p, o) - s * w);
    let ay = abs_i(2 * cross_off(v, p, o));
    (ax <= s * w && ay <= s * (h + 2 * cr))
    || (ay <= s * h && ax <= s * (w + 2 * cr))
    || (ax - s * w) * (ax - s * w) + (ay - s * h) * (ay - s * h) <= 4 * cr * cr * s * s
}

proof fn lemma_mul_bound(x: int, y: int, bx: int, by: int)
    by (nonlinear_arith)
    requires
        -bx <= x <= bx,
        -by <= y <= by,
        0 <= bx,
        0 <= by,
    ensures
        -(bx * by) <= x * y <= bx * by,
{
}

/// For non-negative numbers, comparing squares is comparing the numbers.
proof fn lemma_lt_iff_sq_lt(a: int, b: int)
    by (nonlinear_arith)
    requires
        0 <= a,
        0 <= b,
    ensures
        (a < b) == (a * a < b * b),
{
}

proof fn lemma_sq_bound(x: int, b: int)
    by (nonlinear_arith)
    requires
        x * x <= b * b,
        0 <= b,
    ensures
        -b <= x <= b,
{
}

/// Bounds for the squared-distance comparison of two in-range points and
/// two in-range radii: every intermediate product fits comfortably.
pub proof fn lemma_dist_and_radius_bounds(a: Vec2i, b: Vec2i, r1: i64, r2: i64)
    requires
        vec_ok(a),
        vec_ok(b),
        size_ok(r1 as int),
        size_ok(r2 as int),
    ensures
        0 <= (a.x - b.x) * (a.x - b.x) <= 4_000_000_000_000_000_000,
        0 <= (a.y - b.y) * (a.y - b.y) <= 4_000_000_000_000_000_000,
        0 <= (r1 + r2) * (r1 + r2) <= 1_000_000_000_000,
{
    lemma_mul_bound((a.x - b.x) as int, (a.x - b.x) as int, 2_000_000_000, 2_000_000_000);
    lemma_mul_bound((a.y - b.y) as int, (a.y - b.y) as int, 2_000_000_000, 2_000_000_000);
    lemma_mul_bound((r1 + r2) as int, (r1 + r2) as int, 1_000_000, 1_000_000);
    assert((a.x - b.x) * (a.x - b.x) >= 0) by (nonlinear_arith);
    assert((a.y - b.y) * (a.y - b.y) >= 0) by (nonlinear_arith);
    assert((r1 + r2) * (r1 + r2) >= 0) by (nonlinear_arith);
}

/// Both components of a fixed-point unit vector lie within `DIR_SCALE`.
pub proof fn lemma_unit_dir_bounds(v: Vec2i)
    requires
        is_unit_dir(v),
    ensures
        -(DIR_SCALE as int) <= v.x <= DIR_SCALE as int,
        -(DIR_SCALE as int) <= v.y <= DIR_SCALE as int,
{
    assert(v.x * v.x >= 0 && v.y * v.y >= 0) by (nonlinear_arith);
    lemma_sq_bound(v.x as int, DIR_SCALE as int);
    lemma_sq_bound(v.y as int, DIR_SCALE as int);
}

/// Exact containment test of a circular attack area.
pub fn circle_contains(o: Vec2i, r: i64, p: Vec2i, cr: i64) -> (hit: bool)
    requires
        vec_ok(o),
        vec_ok(p),
        size_ok(r as int),
        size_ok(cr as int),
    ensures
        hit == circle_hit(o, r as int, p, cr as int),
{
    let dx = p.x - o.x;
    let dy = p.y - o.y;
    let rs = r + cr;
    proof {
        lemma_dist_and_radius_bounds(p, o, r, cr);
    }
    dx * dx + dy * dy <= rs * rs
}

/// Exact containment test of a half-circle attack area.
pub fn half_circle_contains(o: Vec2i, r: i64, v: Vec2i, p: Vec2i, cr: i64) -> (hit: bool)
    requires
        vec_ok(o),
        vec_ok(p),
        size_ok(r as int),
        size_ok(cr as int),
        is_unit_dir(v),
    ensures
        hit == half_circle_hit(o, r as int, v, p, cr as int),
{
    if !circle_contains(o, r, p, cr) {
        return false;
    }
    proof {
        lemma_unit_dir_bounds(v);
    }
    let cx = p.x - o.x;
    let cy = p.y - o.y;
    proof {
        lemma_mul_bound(v.x as int, cx as int, 100, 2_000_000_000);
        lemma_mul_bound(v.y as int, cy as int, 100, 2_000_000_000);
    }
    let s = v.x * cx + v.y * cy;
    if s > 0 {
        return true;
    }
    // With `s <= 0` the spec's squared comparison reduces to the plain one:
    // `s^2 < cr^2 * |v|^2` iff `-s < cr * DIR_SCALE`.
    proof {
        lemma_lt_iff_sq_lt(-s as int, (cr * DIR_SCALE) as int);
        assert((-s) * (-s) == s * s) by (nonlinear_arith);
        assert((cr * DIR_SCALE) * (cr * DIR_SCALE) == cr * cr * ((DIR_SCALE as int) * (
        DIR_SCALE as int))) by (nonlinear_arith);
    }
    -s < cr * DIR_SCALE
}

fn abs64(x: i64) -> (r: i64)
    requires
        i64::MIN < x,
    ensures
        r == abs_i(x as int),
{
    if x < 0 { -x } else { x }
}

/// Exact containment test of a rectangular attack area.
pub fn rect_contains(o: Vec2i, w: i64, h: i64, v: Vec2i, p: Vec2i, cr: i64) -> (hit: bool)
    requires
        vec_ok(o),
        vec_ok(p),
        size_ok(w as int),
        size_ok(h as int),
        size_ok(cr as int),
        is_unit_dir(v),
    ensures
        hit == rect_hit(o, w as int, h as int, v, p, cr as int),
{
    proof {
        lemma_unit_dir_bounds(v);
    }
    let cx = p.x - o.x;
    let cy = p.y - o.y;
    proof {
        lemma_mul_bound(v.x as int, cx as int, 100, 2_000_000_000);
        lemma_mul_bound(v.y as int, cy as int, 100, 2_000_000_000);
        lemma_mul_bound(v.x as int, cy as int, 100, 2_000_000_000);
        lemma_mul_bound(v.y as int, cx as int, 100, 2_000_000_000);
    }
    let d = v.x * cx + v.y * cy;
    let e = v.x * cy - v.y * cx;
    let ax = abs64(2 * d - DIR_SCALE * w);
    let ay = abs64(2 * e);
    let side1 = ax <= DIR_SCALE * w && ay <= DIR_SCALE * (h + 2 * cr);
    let side2 = ay <= DIR_SCALE * h && ax <= DIR_SCALE * (w + 2 * cr);
    if side1 || side2 {
        return true;
    }
    // Beyond the radius-padded box in either axis, the corner circle is out
    // of reach too: one squared offset alone already exceeds the bound.
    if ax > DIR_SCALE * (w + 2 * cr) || ay > DIR_SCALE * (h + 2 * cr) {
        proof {
            let s = DIR_SCALE as int;
            let axi = abs_i(2 * dot_off(v, p, o) - s * (w as int));
            let ayi = abs_i(2 * cross_off(v, p, o));
            assert(axi == ax as int);
            assert(ayi == ay as int);
            if ax > DIR_SCALE * (w + 2 * cr) {
                assert((axi - s * (w as int)) * (axi - s * (w as int)) + (ayi - s * (h as int)) * (
                ayi - s * (h as int)) > 4 * (cr as int) * (cr as int) * s * s)
                    by (nonlinear_arith)
                    requires
                        axi > s * ((w as int) + 2 * (cr as int)),
                        0 <= cr as int,
                        s == 100,
                ;
            } else {
                assert((axi - s * (w as int)) * (axi - s * (w as int)) + (ayi - s * (h as int)) * (
                ayi - s * (h as int)) > 4 * (cr as int) * (cr as int) * s * s)
                    by (nonlinear_arith)
                    requires
                        ayi > s * ((h as int) + 2 * (cr as int)),
                        0 <= cr as int,
                        s == 100,
                ;
            }
            assert(!rect_hit(o, w as int, h as int, v, p, cr as int));
        }
        return false;
    }
    let ex = ax - DIR_SCALE * w;
    let ey = ay - DIR_SCALE * h;
    proof {
        lemma_mul_bound(ex as int, ex as int, 150_000_000, 150_000_000);
        lemma_mul_bound(ey as int, ey as int, 150_000_000, 150_000_000);
        lemma_mul_bound(cr as int, cr as int, 500_000, 500_000);
        lemma_mul_bound((cr * cr) as int, 4 * (DIR_SCALE * DIR_SCALE) as int, 250_000_000_000, 40_000);
        assert(cr as int * (cr as int) * (4 * (DIR_SCALE as int * (DIR_SCALE as int))) == 4 * (
        cr as int) * (cr as int) * (DIR_SCALE as int) * (DIR_SCALE as int)) by (nonlinear_arith);
    }
    ex * ex + ey * ey <= cr * cr * (4 * (DIR_SCALE * DIR_SCALE))
}

} // verus!
