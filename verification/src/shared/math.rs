//! Geometry primitives: vectors, lines, planes, distances and the
//! conversion between a sphere's radius and its volume.
use crate::shared::fixed::{
    cbrt_floor, div_floor, div_trunc, icbrt, in_limit, is_cbrt_floor, isqrt, lemma_div_floor_bound,
    lemma_mul_bound, mul_wide, sqrt_floor, sub_wide, trunc_div, EPSILON, LIMIT, SCALE,
};
use crate::shared::point::Point3;
use vstd::prelude::*;

verus! {

/// Numerator of the rational that stands for the circle constant.
pub const PI_NUM: i64 = 355;

/// Denominator of the rational that stands for the circle constant.
pub const PI_DEN: i64 = 113;

/// Largest magnitude of a radius whose sphere volume is still a scalar.
pub const MAX_RADIUS: i64 = 10_000_000_000;

/// Most points that `mean` averages.
pub const MAX_MEAN_POINTS: usize = 32767;

/// A displacement or direction in space.
#[derive(Clone, Copy, Debug, PartialEq, Eq, Structural)]
pub struct Vector3 {
    pub x: i64,
    pub y: i64,
    pub z: i64,
}

impl Vector3 {
    /// Every component lies within the limit that the geometry accepts.
    pub open spec fn in_bounds(self) -> bool {
        in_limit(self.x as int) && in_limit(self.y as int) && in_limit(self.z as int)
    }

    /// No component exceeds the number one in magnitude, as is the case for
    /// every vector of length one.
    pub open spec fn is_direction(self) -> bool {
        &&& -SCALE <= self.x <= SCALE
        &&& -SCALE <= self.y <= SCALE
        &&& -SCALE <= self.z <= SCALE
    }

    /// The point that this vector leads to from the origin.
    pub open spec fn as_point(self) -> Point3 {
        Point3 { x: self.x, y: self.y, z: self.z }
    }
}

/// A line through `pos` along `dir`.
#[derive(Clone, Copy, Debug, PartialEq, Eq, Structural)]
pub struct Line {
    pub pos: Vector3,
    pub dir: Vector3,
}

/// A plane through `pos` with the given normal.
#[derive(Clone, Copy, Debug, PartialEq, Eq, Structural)]
pub struct Plane {
    pub pos: Vector3,
    pub normal: Vector3,
}

/// Where a point lies relative to a plane.
#[derive(Clone, Copy, Debug, PartialEq, Eq, Structural)]
pub enum Point2PlaneClassification {
    /// behind the plane, opposite direction of the plane's normal
    Behind,
    /// in front of the plane, in direction of the plane's normal
    InFront,
    /// touches the plane
    Intersects,
}

/// How a line meets a plane.
#[derive(Clone, Copy, Debug, PartialEq, Eq, Structural)]
pub enum Line2PlaneClassification {
    /// line parallel to the plane
    Parallel,
    /// line intersects with the plane at the given position
    Intersects(Vector3),
    /// line intersects with the plane outside of the bounds of the geometry
    OutOfBounds,
}

/// The scalar product of two triples.
pub open spec fn dot(ax: int, ay: int, az: int, bx: int, by: int, bz: int) -> int {
    ax * bx + ay * by + az * bz
}

/// The squared distance between two points.
pub open spec fn dist_sq(p: Point3, q: Point3) -> int {
    dot(q.x - p.x, q.y - p.y, q.z - p.z, q.x - p.x, q.y - p.y, q.z - p.z)
}

/// The squared distance does not depend on the order of its points.
pub proof fn lemma_dist_sq_symmetric(p: Point3, q: Point3)
    ensures
        dist_sq(p, q) == dist_sq(q, p),
        dist_sq(p, q) >= 0,
{
    assert(dist_sq(p, q) == dist_sq(q, p) && dist_sq(p, q) >= 0) by (nonlinear_arith)
        requires
            dist_sq(p, q) == (q.x - p.x) * (q.x - p.x) + (q.y - p.y) * (q.y - p.y) + (q.z - p.z)
                * (q.z - p.z),
            dist_sq(q, p) == (p.x - q.x) * (p.x - q.x) + (p.y - q.y) * (p.y - q.y) + (p.z - q.z)
                * (p.z - q.z),
    ;
}

/// The volume of a sphere of radius `r`, rounded down:
/// four thirds of the circle constant times the cube of the radius.
pub open spec fn sphere_volume(r: int) -> int {
    4 * PI_NUM * (r * r * r) / (3 * PI_DEN * SCALE * SCALE)
}

/// `r` is the largest radius whose sphere holds at most the volume `v`.
pub open spec fn is_sphere_radius(v: int, r: int) -> bool {
    &&& 0 <= r
    &&& 4 * PI_NUM * (r * r * r) <= 3 * PI_DEN * SCALE * SCALE * v
    &&& 3 * PI_DEN * SCALE * SCALE * v < 4 * PI_NUM * ((r + 1) * (r + 1) * (r + 1))
}

/// The radius of a sphere of volume `v`, rounded down.
pub open spec fn sphere_radius(v: int) -> int {
    cbrt_floor(3 * PI_DEN * SCALE * SCALE * v / (4 * PI_NUM))
}

/// Calculates the radius of a sphere given its volume:
/// the cube root of three quarters of the volume over the circle constant.
pub fn radius_from_volume(volume: i64) -> (radius: i64)
    requires
        volume >= 0,
    ensures
        is_sphere_radius(volume as int, radius as int),
        radius == sphere_radius(volume as int),
        radius <= MAX_RADIUS * 2,
{
    let n: u128 = 339_000_000_000_000u128 * (volume as u128);
    let q: u128 = n / 1420;
    let r: u64 = icbrt(q);
    proof {
        let ri: int = r as int;
        assert(is_cbrt_floor(q as int, ri));
        assert(1420 * (ri * ri * ri) <= n);
        assert((ri + 1) * (ri + 1) * (ri + 1) >= q + 1);
        assert(4 * PI_NUM * (ri * ri * ri) == 1420 * (ri * ri * ri));
        assert(4 * PI_NUM * ((ri + 1) * (ri + 1) * (ri + 1)) == 1420 * ((ri + 1) * (ri + 1) * (ri
            + 1)));
        assert(3 * PI_DEN * SCALE * SCALE * volume == n);
        assert(3 * PI_DEN * SCALE * SCALE * volume / (4 * PI_NUM) == q as int);
        if ri > 2 * MAX_RADIUS {
            crate::shared::fixed::lemma_cube_monotone(2 * MAX_RADIUS as int, ri);
            assert((2 * MAX_RADIUS as int) * (2 * MAX_RADIUS as int) * (2 * MAX_RADIUS as int)
                == 8_000_000_000_000_000_000_000_000_000_000int) by (nonlinear_arith);
        }
    }
    r as i64
}

/// Calculates the volume of a sphere given its radius.
pub fn volume_from_radius(radius: i64) -> (volume: i64)
    requires
        -MAX_RADIUS <= radius <= MAX_RADIUS,
    ensures
        volume == sphere_volume(radius as int),
{
    let r: i128 = radius as i128;
    proof {
        lemma_mul_bound(r as int, r as int, MAX_RADIUS as int, MAX_RADIUS as int);
        lemma_mul_bound(r * r, r as int, MAX_RADIUS * MAX_RADIUS, MAX_RADIUS as int);
        assert(MAX_RADIUS * MAX_RADIUS * MAX_RADIUS == 1_000_000_000_000_000_000_000_000_000_000int)
            by (nonlinear_arith);
    }
    let cube: i128 = r * r * r;
    let num: i128 = 1420 * cube;
    let v: i128 = div_floor(num, 339_000_000_000_000);
    proof {
        assert(4 * PI_NUM * (radius * radius * radius) == num);
        assert(3 * PI_DEN * SCALE * SCALE == 339_000_000_000_000int);
        lemma_div_floor_bound(num as int, 339_000_000_000_000, 5_000_000_000_000_000_000);
    }
    v as i64
}

/// Radius and volume invert each other up to rounding: the sphere of the
/// radius computed from a volume holds at most that volume, and the sphere of
/// the next larger radius holds at least that volume.
pub proof fn lemma_radius_volume_round_trip(v: int)
    requires
        v >= 0,
    ensures
        is_sphere_radius(v, sphere_radius(v)),
        sphere_volume(sphere_radius(v)) <= v <= sphere_volume(sphere_radius(v) + 1),
{
    let n: int = 339_000_000_000_000 * v;
    let q: int = n / 1420;
    assert(3 * PI_DEN * SCALE * SCALE * v == n);
    assert(3 * PI_DEN * SCALE * SCALE == 339_000_000_000_000int);
    crate::shared::fixed::lemma_cbrt_floor_exists(q);
    let r: int = sphere_radius(v);
    assert(is_cbrt_floor(q, r));
    let lo: int = 4 * PI_NUM * (r * r * r);
    let hi: int = 4 * PI_NUM * ((r + 1) * (r + 1) * (r + 1));
    assert(lo == 1420 * (r * r * r));
    assert(hi == 1420 * ((r + 1) * (r + 1) * (r + 1)));
    assert(lo <= n < hi);
    crate::shared::fixed::lemma_div_floor_monotone(lo, n, 339_000_000_000_000);
    crate::shared::fixed::lemma_div_floor_monotone(n, hi, 339_000_000_000_000);
    assert(n / 339_000_000_000_000 == v);
}

/// Smallest volume for which the round trip through the radius is within
/// the relative tolerance: three hundredths of a unit.
pub const MIN_TOLERANT_VOLUME: i64 = 30_000;

/// The round trip from a volume to its radius and back loses at most one
/// ten-thousandth of the volume, for every volume of at least three
/// hundredths of a unit. (Below that the resolution of one millionth shows.)
pub proof fn lemma_radius_volume_within_tolerance(v: int)
    requires
        v >= MIN_TOLERANT_VOLUME,
    ensures
        0 <= v - sphere_volume(sphere_radius(v)),
        (v - sphere_volume(sphere_radius(v))) * 10_000 <= v,
{
    lemma_radius_volume_round_trip(v);
    let r: int = sphere_radius(v);
    let d: int = 339_000_000_000_000;
    let n: int = d * v;
    let cube: int = r * r * r;
    let next: int = (r + 1) * (r + 1) * (r + 1);
    assert(3 * PI_DEN * SCALE * SCALE == d);
    assert(3 * PI_DEN * SCALE * SCALE * v == n);
    assert(4 * PI_NUM * cube == 1420 * cube);
    assert(4 * PI_NUM * next == 1420 * next);
    assert(1420 * cube <= n < 1420 * next);
    // the radius is not small
    if r + 1 <= 190_000 {
        crate::shared::fixed::lemma_cube_monotone(r + 1, 190_000);
        assert(190_000int * 190_000 * 190_000 == 6_859_000_000_000_000) by (nonlinear_arith);
        assert(next <= 6_859_000_000_000_000);
        assert(n >= 10_170_000_000_000_000_000int) by (nonlinear_arith)
            requires
                n == d * v,
                d == 339_000_000_000_000,
                v >= 30_000,
        ;
        assert(1420 * next <= 9_739_780_000_000_000_000int) by (nonlinear_arith)
            requires
                next <= 6_859_000_000_000_000,
        ;
        assert(false);
    }
    // one step of the radius is a small part of the cube
    let square: int = r * r;
    assert(square >= 190_000 * 190_000) by (nonlinear_arith)
        requires
            square == r * r,
            r >= 190_000,
    ;
    assert(cube == square * r) by (nonlinear_arith)
        requires
            cube == r * r * r,
            square == r * r,
    ;
    assert(next == cube + 3 * square + 3 * r + 1) by (nonlinear_arith)
        requires
            next == (r + 1) * (r + 1) * (r + 1),
            cube == r * r * r,
            square == r * r,
    ;
    assert(square * (r - 29_998) >= square * 160_002) by (nonlinear_arith)
        requires
            square >= 0,
            r >= 190_000,
    ;
    assert(square >= 29_997 * r + 9_999) by (nonlinear_arith)
        requires
            square == r * r,
            r >= 190_000,
    ;
    assert(square * (r - 29_998) == cube - 29_998 * square) by (nonlinear_arith)
        requires
            cube == square * r,
    ;
    // cube - 9999 * (3 * square + 3 * r + 1) >= 160_002 * square
    assert(10_000 * cube - 9_999 * next >= 160_002 * square);
    assert(160_002 * square >= 160_002 * (190_000 * 190_000));
    assert(1420 * (10_000 * cube - 9_999 * next) >= 10_000 * d);
    // the volume of the radius, rounded down, is not far below
    let back: int = sphere_volume(r);
    vstd::arithmetic::div_mod::lemma_fundamental_div_mod(1420 * cube, d);
    assert(back == 1420 * cube / d);
    assert(d * back > 1420 * cube - d);
    let a: int = 1420 * cube;
    let b: int = 1420 * next;
    let e: int = d * back;
    assert(10_000 * a - 9_999 * b >= 10_000 * d) by (nonlinear_arith)
        requires
            a == 1420 * cube,
            b == 1420 * next,
            1420 * (10_000 * cube - 9_999 * next) >= 10_000 * d,
    ;
    assert(n < b && e > a - d);
    assert(9_999 * n <= 10_000 * e);
    assert((v - back) * 10_000 * d <= v * d) by (nonlinear_arith)
        requires
            9_999 * n <= 10_000 * e,
            n == d * v,
            e == d * back,
    ;
    assert((v - back) * 10_000 <= v) by (nonlinear_arith)
        requires
            (v - back) * 10_000 * d <= v * d,
            d > 0,
    ;
}

/// The sum of the x coordinates of a sequence of points.
pub open spec fn sum_x(points: Seq<Point3>) -> int
    decreases points.len(),
{
    if points.len() == 0 {
        0
    } else {
        sum_x(points.drop_last()) + points.last().x
    }
}

/// The sum of the y coordinates of a sequence of points.
pub open spec fn sum_y(points: Seq<Point3>) -> int
    decreases points.len(),
{
    if points.len() == 0 {
        0
    } else {
        sum_y(points.drop_last()) + points.last().y
    }
}

/// The sum of the z coordinates of a sequence of points.
pub open spec fn sum_z(points: Seq<Point3>) -> int
    decreases points.len(),
{
    if points.len() == 0 {
        0
    } else {
        sum_z(points.drop_last()) + points.last().z
    }
}

/// The centroid of a sequence of points, each coordinate rounded down.
pub open spec fn mean_spec(points: Seq<Point3>) -> Point3 {
    Point3 {
        x: (sum_x(points) / points.len() as int) as i64,
        y: (sum_y(points) / points.len() as int) as i64,
        z: (sum_z(points) / points.len() as int) as i64,
    }
}

/// The centroid of between one and `MAX_MEAN_POINTS` points.
pub fn mean(points: &Vec<Point3>) -> (m: Point3)
    requires
        0 < points.len() <= MAX_MEAN_POINTS,
    ensures
        m == mean_spec(points@),
        m.x == sum_x(points@) / points.len() as int,
        m.y == sum_y(points@) / points.len() as int,
        m.z == sum_z(points@) / points.len() as int,
{
    let n: usize = points.len();
    let mut sx: i128 = 0;
    let mut sy: i128 = 0;
    let mut sz: i128 = 0;
    let mut i: usize = 0;
    while i < n
        invariant
            n == points.len(),
            n <= MAX_MEAN_POINTS,
            i <= n,
            sx == sum_x(points@.subrange(0, i as int)),
            sy == sum_y(points@.subrange(0, i as int)),
            sz == sum_z(points@.subrange(0, i as int)),
            -(i * 0x8000_0000_0000_0000) <= sx <= i * 0x7fff_ffff_ffff_ffff,
            -(i * 0x8000_0000_0000_0000) <= sy <= i * 0x7fff_ffff_ffff_ffff,
            -(i * 0x8000_0000_0000_0000) <= sz <= i * 0x7fff_ffff_ffff_ffff,
        decreases n - i,
    {
        proof {
            assert(points@.subrange(0, i + 1).drop_last() =~= points@.subrange(0, i as int));
        }
        let p: Point3 = points[i];
        sx = sx + p.x as i128;
        sy = sy + p.y as i128;
        sz = sz + p.z as i128;
        i = i + 1;
    }
    proof {
        assert(points@.subrange(0, n as int) =~= points@);
        lemma_mean_within(sx as int, n as int);
        lemma_mean_within(sy as int, n as int);
        lemma_mean_within(sz as int, n as int);
    }
    let mx: i128 = div_floor(sx, n as i128);
    let my: i128 = div_floor(sy, n as i128);
    let mz: i128 = div_floor(sz, n as i128);
    Point3 { x: mx as i64, y: my as i64, z: mz as i64 }
}

/// A rounded-down average of `n` scalars is a scalar.
proof fn lemma_mean_within(s: int, n: int)
    requires
        n > 0,
        -(n * 0x8000_0000_0000_0000) <= s <= n * 0x8000_0000_0000_0000 - n,
    ensures
        -0x8000_0000_0000_0000 <= s / n <= 0x7fff_ffff_ffff_ffff,
{
    assert(-0x8000_0000_0000_0000 <= s / n <= 0x7fff_ffff_ffff_ffff) by (nonlinear_arith)
        requires
            n > 0,
            -(n * 0x8000_0000_0000_0000) <= s <= n * 0x8000_0000_0000_0000 - n,
    ;
}

/// The distance between two points, rounded down.
pub fn distance(point1: &Point3, point2: &Point3) -> (d: i64)
    requires
        point1.within_reach(),
        point2.within_reach(),
    ensures
        d == sqrt_floor(dist_sq(*point1, *point2)),
        0 <= d,
        d * d <= dist_sq(*point1, *point2) < (d + 1) * (d + 1),
        d <= 8 * LIMIT,
        point1.in_bounds() && point2.in_bounds() ==> d <= 4 * LIMIT,
{
    let dx: i128 = sub_wide(point2.x, point1.x);
    let dy: i128 = sub_wide(point2.y, point1.y);
    let dz: i128 = sub_wide(point2.z, point1.z);
    proof {
        lemma_mul_bound(dx as int, dx as int, 4_000_000_000_000, 4_000_000_000_000);
        lemma_mul_bound(dy as int, dy as int, 4_000_000_000_000, 4_000_000_000_000);
        lemma_mul_bound(dz as int, dz as int, 4_000_000_000_000, 4_000_000_000_000);
        lemma_dist_sq_symmetric(*point1, *point2);
        if point1.in_bounds() && point2.in_bounds() {
            lemma_mul_bound(dx as int, dx as int, 2_000_000_000_000, 2_000_000_000_000);
            lemma_mul_bound(dy as int, dy as int, 2_000_000_000_000, 2_000_000_000_000);
            lemma_mul_bound(dz as int, dz as int, 2_000_000_000_000, 2_000_000_000_000);
        }
    }
    let s: i128 = dx * dx + dy * dy + dz * dz;
    let r: u64 = isqrt(s as u128);
    proof {
        if r > 4_000_000_000_000 {
            assert(r * r >= 4_000_000_000_000 * 4_000_000_000_000) by (nonlinear_arith)
                requires
                    r >= 4_000_000_000_000,
            ;
        }
        if r > 8_000_000_000_000 {
            assert(r * r >= 8_000_000_000_000 * 8_000_000_000_000) by (nonlinear_arith)
                requires
                    r >= 8_000_000_000_000,
            ;
        }
    }
    r as i64
}

/// A rounded-down square root is below a non-negative bound exactly when its
/// argument is below the square of the bound.
pub proof fn lemma_sqrt_below(s: int, d: int, bound: int)
    requires
        crate::shared::fixed::is_sqrt_floor(s, d),
        bound >= 0,
    ensures
        d < bound <==> s < bound * bound,
{
    if d < bound {
        assert((d + 1) * (d + 1) <= bound * bound) by (nonlinear_arith)
            requires
                0 <= d,
                d + 1 <= bound,
        ;
    } else {
        assert(bound * bound <= d * d) by (nonlinear_arith)
            requires
                0 <= bound <= d,
        ;
    }
}

/// No coordinate difference is longer than the distance, even rounded down.
pub proof fn lemma_component_within_distance(x: int, y: int, z: int, d: int)
    requires
        crate::shared::fixed::is_sqrt_floor(dot(x, y, z, x, y, z), d),
    ensures
        -d <= x <= d,
        -d <= y <= d,
        -d <= z <= d,
{
    assert(-d <= x <= d && -d <= y <= d && -d <= z <= d) by (nonlinear_arith)
        requires
            0 <= d,
            x * x + y * y + z * z < (d + 1) * (d + 1),
    ;
}

/// One component of a vector of length one: the component of a displacement
/// over the displacement's length, rounded toward zero.
pub open spec fn unit_component(c: int, len: int) -> int {
    trunc_div(c * SCALE, len)
}

/// The vector of length one that points from `from` to `to`, each component
/// rounded toward zero; the zero vector where the two points are less than
/// `EPSILON` apart.
pub open spec fn direction_spec(from: Point3, to: Point3) -> Vector3 {
    let len = sqrt_floor(dist_sq(from, to));
    if len < EPSILON {
        Vector3 { x: 0, y: 0, z: 0 }
    } else {
        Vector3 {
            x: unit_component(to.x - from.x, len) as i64,
            y: unit_component(to.y - from.y, len) as i64,
            z: unit_component(to.z - from.z, len) as i64,
        }
    }
}

/// A component of a vector of length one is at most one in magnitude.
pub proof fn lemma_unit_component_bound(c: int, len: int)
    requires
        0 < len,
        -len <= c <= len,
    ensures
        -SCALE <= unit_component(c, len) <= SCALE,
        unit_component(-c, len) == -unit_component(c, len),
{
    crate::shared::fixed::lemma_trunc_div_odd(c * SCALE, len);
    assert((-c) * SCALE == -(c * SCALE)) by (nonlinear_arith);
    assert(len * SCALE == SCALE * len) by (nonlinear_arith);
    if c >= 0 {
        lemma_mul_bound(c, SCALE as int, len, SCALE as int);
        assert(c * SCALE >= 0) by (nonlinear_arith)
            requires
                c >= 0,
        ;
        lemma_div_floor_bound(c * SCALE, len, SCALE as int);
        crate::shared::fixed::lemma_div_floor_monotone(0, c * SCALE, len);
    } else {
        lemma_mul_bound(-c, SCALE as int, len, SCALE as int);
        assert((-c) * SCALE > 0) by (nonlinear_arith)
            requires
                c < 0,
        ;
        lemma_div_floor_bound((-c) * SCALE, len, SCALE as int);
        crate::shared::fixed::lemma_div_floor_monotone(0, (-c) * SCALE, len);
    }
}

fn unit_axis(c: i128, len: i64) -> (u: i64)
    requires
        0 < len,
        -len <= c <= len,
    ensures
        u == unit_component(c as int, len as int),
        -SCALE <= u <= SCALE,
{
    proof {
        lemma_unit_component_bound(c as int, len as int);
        lemma_mul_bound(c as int, SCALE as int, len as int, SCALE as int);
    }
    let q: i128 = div_trunc(c * (SCALE as i128), len as i128);
    q as i64
}

/// The direction from one point to another, as a vector of length one.
pub fn direction(from: &Point3, to: &Point3) -> (d: Vector3)
    requires
        from.within_reach(),
        to.within_reach(),
    ensures
        d == direction_spec(*from, *to),
        d.is_direction(),
{
    let len: i64 = distance(from, to);
    if len < EPSILON {
        return Vector3 { x: 0, y: 0, z: 0 };
    }
    let dx: i128 = sub_wide(to.x, from.x);
    let dy: i128 = sub_wide(to.y, from.y);
    let dz: i128 = sub_wide(to.z, from.z);
    proof {
        lemma_component_within_distance(dx as int, dy as int, dz as int, len as int);
    }
    Vector3 { x: unit_axis(dx, len), y: unit_axis(dy, len), z: unit_axis(dz, len) }
}

/// A direction's component stretched by an amount: their product over the
/// number one, rounded down.
pub open spec fn stretch(dir: int, amount: int) -> int {
    dir * amount / (SCALE as int)
}

/// Stretches one component of a direction by an amount.
pub fn stretch_axis(dir: i64, amount: i64) -> (s: i64)
    requires
        -SCALE <= dir <= SCALE,
        -8 * LIMIT <= amount <= 8 * LIMIT,
    ensures
        s == stretch(dir as int, amount as int),
        -8 * LIMIT <= s <= 8 * LIMIT,
{
    proof {
        lemma_mul_bound(dir as int, amount as int, SCALE as int, 8_000_000_000_000);
        assert(SCALE * 8_000_000_000_000 == 8_000_000_000_000 * SCALE) by (nonlinear_arith);
        lemma_div_floor_bound(dir * amount, SCALE as int, 8_000_000_000_000);
    }
    let q: i128 = div_floor(mul_wide(dir, amount), SCALE as i128);
    q as i64
}

/// The scalar product of the displacement from the plane's position to the
/// point with the plane's normal.
pub open spec fn plane_offset(point: Point3, plane: Plane) -> int {
    dot(
        point.x - plane.pos.x,
        point.y - plane.pos.y,
        point.z - plane.pos.z,
        plane.normal.x as int,
        plane.normal.y as int,
        plane.normal.z as int,
    )
}

/// The signed distance of a point from a plane, rounded down. It is positive
/// on the side that the normal points to.
pub open spec fn signed_distance_spec(point: Point3, plane: Plane) -> int {
    plane_offset(point, plane) / (SCALE as int)
}

/// The scalar product of a bounded triple with any triple of scalars.
pub fn dot_wide(ax: i128, ay: i128, az: i128, bx: i64, by: i64, bz: i64) -> (d: i128)
    requires
        -4 * LIMIT <= ax <= 4 * LIMIT,
        -4 * LIMIT <= ay <= 4 * LIMIT,
        -4 * LIMIT <= az <= 4 * LIMIT,
    ensures
        d == dot(ax as int, ay as int, az as int, bx as int, by as int, bz as int),
        -(12 * LIMIT * 0x8000_0000_0000_0000) <= d <= 12 * LIMIT * 0x8000_0000_0000_0000,
{
    proof {
        lemma_mul_bound(ax as int, bx as int, 4 * LIMIT, 0x8000_0000_0000_0000);
        lemma_mul_bound(ay as int, by as int, 4 * LIMIT, 0x8000_0000_0000_0000);
        lemma_mul_bound(az as int, bz as int, 4 * LIMIT, 0x8000_0000_0000_0000);
    }
    ax * (bx as i128) + ay * (by as i128) + az * (bz as i128)
}

/// The signed distance of a point from a plane.
pub fn signed_distance(point: &Point3, plane: &Plane) -> (d: i64)
    requires
        point.within_reach(),
        plane.pos.in_bounds(),
        plane.normal.in_bounds(),
    ensures
        d == signed_distance_spec(*point, *plane),
{
    let dx: i128 = sub_wide(point.x, plane.pos.x);
    let dy: i128 = sub_wide(point.y, plane.pos.y);
    let dz: i128 = sub_wide(point.z, plane.pos.z);
    proof {
        lemma_mul_bound(dx as int, plane.normal.x as int, 3_000_000_000_000, 1_000_000_000_000);
        lemma_mul_bound(dy as int, plane.normal.y as int, 3_000_000_000_000, 1_000_000_000_000);
        lemma_mul_bound(dz as int, plane.normal.z as int, 3_000_000_000_000, 1_000_000_000_000);
    }
    let offset: i128 = dot_wide(dx, dy, dz, plane.normal.x, plane.normal.y, plane.normal.z);
    let d: i128 = div_floor(offset, SCALE as i128);
    proof {
        assert(9 * LIMIT * LIMIT == 9_000_000_000_000_000_000 * SCALE) by (nonlinear_arith);
        lemma_div_floor_bound(offset as int, SCALE as int, 9_000_000_000_000_000_000);
    }
    d as i64
}

/// The side of the plane on which a signed distance lies: a magnitude below
/// `EPSILON` counts as touching the plane.
pub open spec fn classify(d: int) -> Point2PlaneClassification {
    if -EPSILON < d < EPSILON {
        Point2PlaneClassification::Intersects
    } else if d > 0 {
        Point2PlaneClassification::InFront
    } else {
        Point2PlaneClassification::Behind
    }
}

/// Classifies a signed distance.
pub fn classify_distance(d: i64) -> (c: Point2PlaneClassification)
    ensures
        c == classify(d as int),
{
    if -EPSILON < d && d < EPSILON {
        Point2PlaneClassification::Intersects
    } else if d > 0 {
        Point2PlaneClassification::InFront
    } else {
        Point2PlaneClassification::Behind
    }
}

/// Tells on which side of a plane a point lies.
pub fn point_vs_plane(point: &Point3, plane: &Plane) -> (c: Point2PlaneClassification)
    requires
        point.within_reach(),
        plane.pos.in_bounds(),
        plane.normal.in_bounds(),
    ensures
        c == classify(signed_distance_spec(*point, *plane)),
{
    let dist: i64 = signed_distance(point, plane);
    classify_distance(dist)
}

/// The scalar product of the plane's normal with the line's direction.
pub open spec fn line_slope(line: Line, plane: Plane) -> int {
    dot(
        plane.normal.x as int,
        plane.normal.y as int,
        plane.normal.z as int,
        line.dir.x as int,
        line.dir.y as int,
        line.dir.z as int,
    )
}

/// The scalar product of the plane's normal with the displacement from the
/// line's position to the plane's position.
pub open spec fn line_gap(line: Line, plane: Plane) -> int {
    dot(
        plane.pos.x - line.pos.x,
        plane.pos.y - line.pos.y,
        plane.pos.z - line.pos.z,
        plane.normal.x as int,
        plane.normal.y as int,
        plane.normal.z as int,
    )
}

/// A line counts as parallel to a plane when the scalar product of normal and
/// direction, rounded toward zero, has a magnitude below `EPSILON`.
pub open spec fn is_parallel(line: Line, plane: Plane) -> bool {
    -EPSILON < trunc_div(line_slope(line, plane), SCALE as int) < EPSILON
}

/// One coordinate of the point where a line meets a plane: the line's
/// position moved along its direction by the ratio of gap to slope, rounded
/// down.
pub open spec fn meet_coordinate(pos: int, dir: int, gap: int, slope: int) -> int {
    if slope > 0 {
        pos + dir * gap / slope
    } else {
        pos + dir * (-gap) / (-slope)
    }
}

/// The point where a line meets a plane lies within the bounds of the
/// geometry.
pub open spec fn meets_in_bounds(line: Line, plane: Plane) -> bool {
    let gap = line_gap(line, plane);
    let slope = line_slope(line, plane);
    &&& in_limit(meet_coordinate(line.pos.x as int, line.dir.x as int, gap, slope))
    &&& in_limit(meet_coordinate(line.pos.y as int, line.dir.y as int, gap, slope))
    &&& in_limit(meet_coordinate(line.pos.z as int, line.dir.z as int, gap, slope))
}

/// The point where a line meets a plane.
pub open spec fn meet_point(line: Line, plane: Plane) -> Vector3 {
    let gap = line_gap(line, plane);
    let slope = line_slope(line, plane);
    Vector3 {
        x: meet_coordinate(line.pos.x as int, line.dir.x as int, gap, slope) as i64,
        y: meet_coordinate(line.pos.y as int, line.dir.y as int, gap, slope) as i64,
        z: meet_coordinate(line.pos.z as int, line.dir.z as int, gap, slope) as i64,
    }
}

fn meet_axis(pos: i64, dir: i64, gap: i128, slope: i128) -> (c: i128)
    requires
        in_limit(pos as int),
        in_limit(dir as int),
        -6 * LIMIT * LIMIT <= gap <= 6 * LIMIT * LIMIT,
        1 <= slope <= 3 * LIMIT * LIMIT,
    ensures
        c == pos + dir * gap / (slope as int),
{
    proof {
        assert(6 * LIMIT * LIMIT == 6_000_000_000_000_000_000_000_000int) by (nonlinear_arith);
        assert(3 * LIMIT * LIMIT == 3_000_000_000_000_000_000_000_000int) by (nonlinear_arith);
        lemma_mul_bound(
            dir as int,
            gap as int,
            1_000_000_000_000,
            6_000_000_000_000_000_000_000_000,
        );
    }
    let num: i128 = (dir as i128) * gap;
    let q: i128 = div_floor(num, slope);
    proof {
        let m: int = 6_000_000_000_000_000_000_000_000_000_000_000_000;
        assert(-(m * slope) <= num <= m * slope) by (nonlinear_arith)
            requires
                slope >= 1,
                -m <= num <= m,
                m >= 0,
        ;
        lemma_div_floor_bound(num as int, slope as int, m);
    }
    pos as i128 + q
}

/// Finds where a line meets a plane, or that they are parallel, or that
/// they meet outside of the bounds of the geometry.
pub fn line_plane_intersection(line: &Line, plane: &Plane) -> (c: Line2PlaneClassification)
    requires
        line.pos.in_bounds(),
        line.dir.in_bounds(),
        plane.pos.in_bounds(),
        plane.normal.in_bounds(),
    ensures
        c == (if is_parallel(*line, *plane) {
            Line2PlaneClassification::Parallel
        } else if meets_in_bounds(*line, *plane) {
            Line2PlaneClassification::Intersects(meet_point(*line, *plane))
        } else {
            Line2PlaneClassification::OutOfBounds
        }),
{
    let gx: i128 = sub_wide(plane.pos.x, line.pos.x);
    let gy: i128 = sub_wide(plane.pos.y, line.pos.y);
    let gz: i128 = sub_wide(plane.pos.z, line.pos.z);
    proof {
        assert(6 * LIMIT * LIMIT == 6_000_000_000_000_000_000_000_000int) by (nonlinear_arith);
        assert(3 * LIMIT * LIMIT == 3_000_000_000_000_000_000_000_000int) by (nonlinear_arith);
        lemma_mul_bound(gx as int, plane.normal.x as int, 2_000_000_000_000, 1_000_000_000_000);
        lemma_mul_bound(gy as int, plane.normal.y as int, 2_000_000_000_000, 1_000_000_000_000);
        lemma_mul_bound(gz as int, plane.normal.z as int, 2_000_000_000_000, 1_000_000_000_000);
        lemma_mul_bound(
            plane.normal.x as int,
            line.dir.x as int,
            1_000_000_000_000,
            1_000_000_000_000,
        );
        lemma_mul_bound(
            plane.normal.y as int,
            line.dir.y as int,
            1_000_000_000_000,
            1_000_000_000_000,
        );
        lemma_mul_bound(
            plane.normal.z as int,
            line.dir.z as int,
            1_000_000_000_000,
            1_000_000_000_000,
        );
    }
    let gap: i128 = dot_wide(gx, gy, gz, plane.normal.x, plane.normal.y, plane.normal.z);
    let slope: i128 = mul_wide(plane.normal.x, line.dir.x) + mul_wide(plane.normal.y, line.dir.y)
        + mul_wide(plane.normal.z, line.dir.z);
    if -(SCALE as i128) < slope && slope < SCALE as i128 {
        proof {
            if slope >= 0 {
                assert(slope as int / (SCALE as int) == 0);
            } else {
                assert((-slope) as int / (SCALE as int) == 0);
            }
        }
        return Line2PlaneClassification::Parallel;
    }
    proof {
        if slope >= 0 {
            assert(slope as int / (SCALE as int) >= 1);
        } else {
            assert((-slope) as int / (SCALE as int) >= 1);
        }
    }
    let (num, den): (i128, i128) = if slope > 0 {
        (gap, slope)
    } else {
        (-gap, -slope)
    };
    let x: i128 = meet_axis(line.pos.x, line.dir.x, num, den);
    let y: i128 = meet_axis(line.pos.y, line.dir.y, num, den);
    let z: i128 = meet_axis(line.pos.z, line.dir.z, num, den);
    let limit: i128 = LIMIT as i128;
    if -limit <= x && x <= limit && -limit <= y && y <= limit && -limit <= z && z <= limit {
        Line2PlaneClassification::Intersects(Vector3 { x: x as i64, y: y as i64, z: z as i64 })
    } else {
        Line2PlaneClassification::OutOfBounds
    }
}

} // verus!
