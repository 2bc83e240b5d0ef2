use vstd::arithmetic::div_mod::{lemma_add_mod_noop, lemma_mod_multiples_vanish};
use vstd::prelude::*;

use crate::random::random_below;

verus! {

/// Sub-units in one unit of distance: coordinates are fixed-point values.
pub const SCALE: u64 = 1000;

/// Upper bound on every coordinate and on the extent of a world, in sub-units.
pub const MAX_EXTENT: u64 = 1_000_000_000;

/// Angle units in one full turn.
pub const FULL_TURN: u32 = 4096;

/// Number of compass headings that movement and bearings are resolved to.
pub const COMPASS_POINTS: u32 = 64;

/// Angle units between two neighbouring compass headings.
pub const COMPASS_STEP: u32 = 64;

/// A heading, in angle units; a full turn is `FULL_TURN`.
pub type Direction = u32;

/// A position in the world, in sub-units.
#[derive(Clone, Copy, Debug, PartialEq, Eq, Structural)]
pub struct Point {
    pub x: u64,
    pub y: u64,
}

/// The extents of a world are usable.
pub open spec fn valid_extent(width: u64, height: u64) -> bool {
    0 < width <= MAX_EXTENT && 0 < height <= MAX_EXTENT
}

/// `v + d` brought into `[0, extent)` (`%` on `int` is Euclidean).
pub open spec fn wrap_coord(v: int, d: int, extent: int) -> int {
    (v + d) % extent
}

/// `p` moved by `(dx, dy)` and wrapped onto the torus `width` by `height`.
pub open spec fn translated(p: Point, dx: int, dy: int, width: u64, height: u64) -> Point {
    Point { x: wrap_coord(p.x as int, dx, width as int) as u64, y: wrap_coord(p.y as int, dy, height as int) as u64 }
}

/// sin(k * pi / 32), scaled by `SCALE` and rounded, for `k` in `0..=16`.
pub open spec fn sine_at(k: u32) -> int {
    if k == 0 { 0 }
    else if k == 1 { 98 }
    else if k == 2 { 195 }
    else if k == 3 { 290 }
    else if k == 4 { 383 }
    else if k == 5 { 471 }
    else if k == 6 { 556 }
    else if k == 7 { 634 }
    else if k == 8 { 707 }
    else if k == 9 { 773 }
    else if k == 10 { 831 }
    else if k == 11 { 882 }
    else if k == 12 { 924 }
    else if k == 13 { 957 }
    else if k == 14 { 981 }
    else if k == 15 { 995 }
    else { 1000 }
}

/// The unit vector, scaled by `SCALE`, of compass heading `k`
/// (`k * COMPASS_STEP` angle units), built from the first quadrant by rotation.
pub open spec fn unit_vector(k: u32) -> (int, int) {
    let r = k % 16;
    let c = sine_at((16 - r) as u32);
    let s = sine_at(r);
    let q = (k / 16) % 4;
    if q == 0 { (c, s) }
    else if q == 1 { (-s, c) }
    else if q == 2 { (-c, -s) }
    else { (s, -c) }
}

/// The compass heading nearest to `d`.
pub open spec fn compass_of(d: u32) -> u32 {
    (((d % FULL_TURN) as int + COMPASS_STEP / 2) / COMPASS_STEP as int % COMPASS_POINTS as int) as u32
}

/// `u * distance / SCALE`, rounded towards zero.
pub open spec fn scaled(u: int, distance: int) -> int {
    if u < 0 { -((-u) * distance / SCALE as int) } else { u * distance / SCALE as int }
}

/// How far a step of `distance` sub-units along heading `d` moves, on each axis.
pub open spec fn step_offset(d: u32, distance: u64) -> (int, int) {
    let u = unit_vector(compass_of(d));
    (scaled(u.0, distance as int), scaled(u.1, distance as int))
}

/// The dot product of the direction of compass heading `k` with `(dx, dy)`.
pub open spec fn alignment(k: u32, dx: int, dy: int) -> int {
    unit_vector(k).0 * dx + unit_vector(k).1 * dy
}

/// Among compass headings `0..k`, the first that aligns best with `(dx, dy)`.
pub open spec fn best_heading(dx: int, dy: int, k: u32) -> u32
    decreases k,
{
    if k <= 1 {
        0
    } else {
        let prev = best_heading(dx, dy, (k - 1) as u32);
        if alignment((k - 1) as u32, dx, dy) > alignment(prev, dx, dy) { (k - 1) as u32 } else { prev }
    }
}

/// The compass bearing from `from` to `to`, in angle units.
pub open spec fn bearing(from: Point, to: Point) -> u32 {
    (best_heading(to.x - from.x, to.y - from.y, COMPASS_POINTS) * COMPASS_STEP) as u32
}

/// `v + d` wrapped into `[0, extent)`.
fn wrap_add(v: u64, d: i64, extent: u64) -> (r: u64)
    requires
        0 < extent <= MAX_EXTENT,
    ensures
        r as int == wrap_coord(v as int, d as int, extent as int),
        r < extent,
{
    let base = v % extent;
    if d >= 0 {
        let step = (d as u64) % extent;
        proof {
            lemma_add_mod_noop(v as int, d as int, extent as int);
        }
        (base + step) % extent
    } else {
        let m: u64 = ((-(d + 1)) as u64) + 1;
        let step = m % extent;
        proof {
            let e = extent as int;
            let qv = v as int / e;
            let qm = m as int / e;
            assert(v as int == qv * e + base) by (nonlinear_arith)
                requires e > 0, qv == v as int / e, base as int == v as int % e;
            assert(m as int == qm * e + step) by (nonlinear_arith)
                requires e > 0, qm == m as int / e, step as int == m as int % e;
            assert(base + e - step == e * (qm - qv + 1) + (v as int + d as int)) by (nonlinear_arith)
                requires v as int == qv * e + base, m as int == qm * e + step, m as int == -(d as int);
            lemma_mod_multiples_vanish(qm - qv + 1, v as int + d as int, e);
        }
        (base + extent - step) % extent
    }
}

/// The scaled unit vector's component `u` times `distance`, over `SCALE`.
fn scale_component(u: i64, distance: u64) -> (r: i64)
    requires
        -1000 <= u <= 1000,
        distance <= MAX_EXTENT,
    ensures
        r as int == scaled(u as int, distance as int),
{
    if u < 0 {
        let m = (-u) as u64;
        assert(m * distance <= 1000 * MAX_EXTENT) by (nonlinear_arith)
            requires m <= 1000, distance <= MAX_EXTENT;
        let q = m * distance / SCALE;
        assert(q <= MAX_EXTENT) by (nonlinear_arith)
            requires q == m * distance / 1000, m * distance <= 1000 * MAX_EXTENT;
        -(q as i64)
    } else {
        let m = u as u64;
        assert(m * distance <= 1000 * MAX_EXTENT) by (nonlinear_arith)
            requires m <= 1000, distance <= MAX_EXTENT;
        let q = m * distance / SCALE;
        assert(q <= MAX_EXTENT) by (nonlinear_arith)
            requires q == m * distance / 1000, m * distance <= 1000 * MAX_EXTENT;
        q as i64
    }
}

fn sine(k: u32) -> (r: i64)
    requires
        k <= 16,
    ensures
        r as int == sine_at(k),
        0 <= r <= 1000,
{
    if k == 0 { 0 }
    else if k == 1 { 98 }
    else if k == 2 { 195 }
    else if k == 3 { 290 }
    else if k == 4 { 383 }
    else if k == 5 { 471 }
    else if k == 6 { 556 }
    else if k == 7 { 634 }
    else if k == 8 { 707 }
    else if k == 9 { 773 }
    else if k == 10 { 831 }
    else if k == 11 { 882 }
    else if k == 12 { 924 }
    else if k == 13 { 957 }
    else if k == 14 { 981 }
    else if k == 15 { 995 }
    else { 1000 }
}

/// The scaled unit vector of compass heading `k`.
pub fn heading_vector(k: u32) -> (r: (i64, i64))
    requires
        k < COMPASS_POINTS,
    ensures
        r.0 as int == unit_vector(k).0,
        r.1 as int == unit_vector(k).1,
        -1000 <= r.0 <= 1000,
        -1000 <= r.1 <= 1000,
{
    let r = k % 16;
    let c = sine(16 - r);
    let s = sine(r);
    let q = (k / 16) % 4;
    if q == 0 { (c, s) }
    else if q == 1 { (-s, c) }
    else if q == 2 { (-c, -s) }
    else { (s, -c) }
}

/// The compass heading nearest to `d`.
pub fn compass(d: Direction) -> (r: u32)
    ensures
        r == compass_of(d),
        r < COMPASS_POINTS,
{
    ((d % FULL_TURN) + COMPASS_STEP / 2) / COMPASS_STEP % COMPASS_POINTS
}

impl Point {
    /// Both coordinates lie in `[0, width) x [0, height)`.
    pub open spec fn within(self, width: u64, height: u64) -> bool {
        self.x < width && self.y < height
    }

    /// Both coordinates are at most `MAX_EXTENT`.
    pub open spec fn bounded(self) -> bool {
        self.x <= MAX_EXTENT && self.y <= MAX_EXTENT
    }

    /// The point `(x, y)`, wrapped onto the torus `width` by `height`.
    pub fn new(x: i64, y: i64, width: u64, height: u64) -> (r: Point)
        requires
            valid_extent(width, height),
        ensures
            r == translated(Point { x: 0, y: 0 }, x as int, y as int, width, height),
            r.within(width, height),
    {
        Point { x: wrap_add(0, x, width), y: wrap_add(0, y, height) }
    }

    /// A point drawn uniformly from the world's sub-unit grid.
    pub fn new_random(width: u64, height: u64) -> (r: Point)
        requires
            valid_extent(width, height),
        ensures
            r.within(width, height),
    {
        Point { x: random_below(width), y: random_below(height) }
    }

    /// The squared straight-line distance to `other`, ignoring wrap-around.
    pub fn distance_squared(&self, other: &Point) -> (r: u64)
        requires
            self.bounded(),
            other.bounded(),
        ensures
            r as int == (self.x - other.x) * (self.x - other.x) + (self.y - other.y) * (self.y - other.y),
    {
        let dx = if self.x >= other.x { self.x - other.x } else { other.x - self.x };
        let dy = if self.y >= other.y { self.y - other.y } else { other.y - self.y };
        assert(dx * dx <= MAX_EXTENT * MAX_EXTENT) by (nonlinear_arith)
            requires dx <= MAX_EXTENT;
        assert(dy * dy <= MAX_EXTENT * MAX_EXTENT) by (nonlinear_arith)
            requires dy <= MAX_EXTENT;
        assert((self.x - other.x) * (self.x - other.x) == dx * dx) by (nonlinear_arith)
            requires dx == self.x - other.x || dx == other.x - self.x;
        assert((self.y - other.y) * (self.y - other.y) == dy * dy) by (nonlinear_arith)
            requires dy == self.y - other.y || dy == other.y - self.y;
        dx * dx + dy * dy
    }

    /// The arithmetic mean of the two points, ignoring wrap-around.
    pub open spec fn midpoint_spec(self, other: Point) -> Point {
        Point { x: ((self.x + other.x) / 2) as u64, y: ((self.y + other.y) / 2) as u64 }
    }

    /// The arithmetic mean of the two points, ignoring wrap-around.
    pub fn midpoint(&self, other: &Point) -> (r: Point)
        ensures
            r == self.midpoint_spec(*other),
            self.bounded() && other.bounded() ==> r.bounded(),
    {
        Point { x: self.x / 2 + other.x / 2 + (self.x % 2 + other.x % 2) / 2,
                y: self.y / 2 + other.y / 2 + (self.y % 2 + other.y % 2) / 2 }
    }

    /// Moves the point by `(dx, dy)` and wraps it back into the world.
    pub fn translate(&mut self, dx: i64, dy: i64, width: u64, height: u64)
        requires
            valid_extent(width, height),
        ensures
            *final(self) == translated(*old(self), dx as int, dy as int, width, height),
            final(self).within(width, height),
    {
        self.x = wrap_add(self.x, dx, width);
        self.y = wrap_add(self.y, dy, height);
    }

    /// This point moved by `(dx, dy)` and wrapped back into the world.
    pub fn translate2(&self, dx: i64, dy: i64, width: u64, height: u64) -> (r: Point)
        requires
            valid_extent(width, height),
        ensures
            r == translated(*self, dx as int, dy as int, width, height),
            r.within(width, height),
    {
        let mut point = *self;
        point.translate(dx, dy, width, height);
        point
    }

    /// Moves the point `distance` sub-units along `direction` and wraps it.
    pub fn translate3(&mut self, direction: Direction, distance: u64, width: u64, height: u64)
        requires
            valid_extent(width, height),
            distance <= MAX_EXTENT,
        ensures
            *final(self) == translated(*old(self), step_offset(direction, distance).0,
                step_offset(direction, distance).1, width, height),
            final(self).within(width, height),
    {
        let u = heading_vector(compass(direction));
        let dx = scale_component(u.0, distance);
        let dy = scale_component(u.1, distance);
        self.translate(dx, dy, width, height);
    }

    /// This point moved `distance` sub-units along `direction`, wrapped.
    pub fn translate4(&self, direction: Direction, distance: u64, width: u64, height: u64) -> (r: Point)
        requires
            valid_extent(width, height),
            distance <= MAX_EXTENT,
        ensures
            r == translated(*self, step_offset(direction, distance).0,
                step_offset(direction, distance).1, width, height),
            r.within(width, height),
    {
        let mut position = *self;
        position.translate3(direction, distance, width, height);
        position
    }

    /// The compass bearing from this point to `other`: the first compass
    /// heading whose direction best aligns with the offset between them
    /// (heading 0 when the points coincide).
    pub fn direction_to(&self, other: &Point) -> (r: Direction)
        requires
            self.bounded(),
            other.bounded(),
        ensures
            r == bearing(*self, *other),
            r < FULL_TURN,
            r % COMPASS_STEP == 0,
            forall|k: u32| k < COMPASS_POINTS ==> #[trigger] alignment(k, other.x - self.x, other.y - self.y)
                <= alignment(r / COMPASS_STEP, other.x - self.x, other.y - self.y),
            forall|k: u32| k < r / COMPASS_STEP ==> #[trigger] alignment(k, other.x - self.x, other.y - self.y)
                < alignment(r / COMPASS_STEP, other.x - self.x, other.y - self.y),
    {
        let dx: i64 = other.x as i64 - self.x as i64;
        let dy: i64 = other.y as i64 - self.y as i64;
        let ghost gdx = other.x - self.x;
        let ghost gdy = other.y - self.y;
        let mut best: u32 = 0;
        let u0 = heading_vector(0);
        assert(-1_000_000_000_000 <= u0.0 * dx <= 1_000_000_000_000) by (nonlinear_arith)
            requires -1000 <= u0.0 <= 1000, -1_000_000_000 <= dx <= 1_000_000_000;
        assert(-1_000_000_000_000 <= u0.1 * dy <= 1_000_000_000_000) by (nonlinear_arith)
            requires -1000 <= u0.1 <= 1000, -1_000_000_000 <= dy <= 1_000_000_000;
        let mut best_score: i64 = u0.0 * dx + u0.1 * dy;
        let mut k: u32 = 1;
        while k < COMPASS_POINTS
            invariant
                1 <= k <= COMPASS_POINTS,
                best < k,
                best == best_heading(gdx, gdy, k),
                dx == gdx,
                dy == gdy,
                -1_000_000_000 <= dx <= 1_000_000_000,
                -1_000_000_000 <= dy <= 1_000_000_000,
                best_score as int == alignment(best, gdx, gdy),
                forall|j: u32| j < k ==> #[trigger] alignment(j, gdx, gdy) <= best_score,
                forall|j: u32| j < best ==> #[trigger] alignment(j, gdx, gdy) < best_score,
            decreases COMPASS_POINTS - k,
        {
            let u = heading_vector(k);
            assert(-1_000_000_000_000 <= u.0 * dx <= 1_000_000_000_000) by (nonlinear_arith)
                requires -1000 <= u.0 <= 1000, -1_000_000_000 <= dx <= 1_000_000_000;
            assert(-1_000_000_000_000 <= u.1 * dy <= 1_000_000_000_000) by (nonlinear_arith)
                requires -1000 <= u.1 <= 1000, -1_000_000_000 <= dy <= 1_000_000_000;
            let score = u.0 * dx + u.1 * dy;
            if score > best_score {
                best = k;
                best_score = score;
            }
            k = k + 1;
        }
        best * COMPASS_STEP
    }
}

} // verus!
