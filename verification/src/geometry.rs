//! Discs and axis-aligned boxes on a grid of whole numbers. Centres are
//! `i64` and extents `u64`; every function here takes the whole range of
//! both.

use vstd::prelude::*;

verus! {

/// A point of the plane.
#[derive(Clone, Copy, Debug, PartialEq, Eq, Structural)]
pub struct Point {
    pub x: i64,
    pub y: i64,
}

/// The disc of all points at most `radius` away from `center`.
#[derive(Clone, Copy, Debug, PartialEq, Eq, Structural)]
pub struct BoundingCircle {
    pub center: Point,
    pub radius: u64,
}

/// The axis-aligned box that reaches `half_width` to the left and right of
/// `center` and `half_height` below and above it, borders included.
#[derive(Clone, Copy, Debug, PartialEq, Eq, Structural)]
pub struct Aabb2d {
    pub center: Point,
    pub half_width: u64,
    pub half_height: u64,
}

/// `v` moved into the interval from `lo` to `hi` by the shortest way.
pub open spec fn clamp(v: int, lo: int, hi: int) -> int {
    if v < lo {
        lo
    } else if v > hi {
        hi
    } else {
        v
    }
}

/// The distance of `v` from zero.
pub open spec fn abs(v: int) -> int {
    if v < 0 {
        -v
    } else {
        v
    }
}

/// The squared distance between `(ax, ay)` and `(bx, by)`.
pub open spec fn distance_squared(ax: int, ay: int, bx: int, by: int) -> int {
    (ax - bx) * (ax - bx) + (ay - by) * (ay - by)
}

impl Point {
    pub fn new(x: i64, y: i64) -> (p: Point)
        ensures
            p.x == x,
            p.y == y,
    {
        Point { x, y }
    }
}

impl Aabb2d {
    pub open spec fn min_x(self) -> int {
        self.center.x - self.half_width
    }

    pub open spec fn max_x(self) -> int {
        self.center.x + self.half_width
    }

    pub open spec fn min_y(self) -> int {
        self.center.y - self.half_height
    }

    pub open spec fn max_y(self) -> int {
        self.center.y + self.half_height
    }

    /// Whether `(x, y)` lies in the box.
    pub open spec fn contains(self, x: int, y: int) -> bool {
        self.min_x() <= x <= self.max_x() && self.min_y() <= y <= self.max_y()
    }

    /// The first coordinate of the point of the box nearest to any point
    /// whose first coordinate is `x`.
    pub open spec fn closest_x(self, x: int) -> int {
        clamp(x, self.min_x(), self.max_x())
    }

    /// The second coordinate of the point of the box nearest to any point
    /// whose second coordinate is `y`.
    pub open spec fn closest_y(self, y: int) -> int {
        clamp(y, self.min_y(), self.max_y())
    }

    pub fn new(center: Point, half_width: u64, half_height: u64) -> (b: Aabb2d)
        ensures
            b.center == center,
            b.half_width == half_width,
            b.half_height == half_height,
    {
        Aabb2d { center, half_width, half_height }
    }

    /// The point of the box that is nearest to `point`: `point` itself when
    /// it lies in the box, else a point of the border.
    pub fn closest_point(&self, point: Point) -> (p: Point)
        ensures
            p.x == self.closest_x(point.x as int),
            p.y == self.closest_y(point.y as int),
    {
        Point {
            x: clamp_to_span(point.x, self.center.x, self.half_width),
            y: clamp_to_span(point.y, self.center.y, self.half_height),
        }
    }
}

/// `v` moved into the interval that reaches `half` to either side of `mid`.
/// The ends of the interval may lie outside the range of `i64`; the result
/// never does.
fn clamp_to_span(v: i64, mid: i64, half: u64) -> (r: i64)
    ensures
        r == clamp(v as int, mid - half, mid + half),
{
    let lo: i128 = mid as i128 - half as i128;
    let hi: i128 = mid as i128 + half as i128;
    if (v as i128) < lo {
        lo as i64
    } else if (v as i128) > hi {
        hi as i64
    } else {
        v
    }
}

impl BoundingCircle {
    /// Whether `(x, y)` lies in the disc.
    pub open spec fn contains(self, x: int, y: int) -> bool {
        distance_squared(x, y, self.center.x as int, self.center.y as int) <= self.radius
            * self.radius
    }

    /// From the point of `wall` nearest to the centre to the centre, first
    /// coordinate.
    pub open spec fn offset_x(self, wall: Aabb2d) -> int {
        self.center.x - wall.closest_x(self.center.x as int)
    }

    /// From the point of `wall` nearest to the centre to the centre, second
    /// coordinate.
    pub open spec fn offset_y(self, wall: Aabb2d) -> int {
        self.center.y - wall.closest_y(self.center.y as int)
    }

    /// Whether the disc reaches the box: the point of the box nearest to
    /// the centre is at most `radius` away from it. A disc that just
    /// touches the box reaches it.
    pub open spec fn reaches(self, wall: Aabb2d) -> bool {
        self.offset_x(wall) * self.offset_x(wall) + self.offset_y(wall) * self.offset_y(wall)
            <= self.radius * self.radius
    }

    pub fn new(center: Point, radius: u64) -> (c: BoundingCircle)
        ensures
            c.center == center,
            c.radius == radius,
    {
        BoundingCircle { center, radius }
    }

    /// From the point of `wall` nearest to the centre to the centre.
    pub fn offset(&self, wall: &Aabb2d) -> (o: (i128, i128))
        ensures
            o.0 == self.offset_x(*wall),
            o.1 == self.offset_y(*wall),
    {
        let closest = wall.closest_point(self.center);
        (self.center.x as i128 - closest.x as i128, self.center.y as i128 - closest.y as i128)
    }

    /// Whether the disc reaches the box, a mere touch included.
    pub fn intersects(&self, wall: &Aabb2d) -> (hit: bool)
        ensures
            hit == self.reaches(*wall),
    {
        let (ox, oy) = self.offset(wall);
        let ax: u128 = magnitude(ox);
        let ay: u128 = magnitude(oy);
        let r: u128 = self.radius as u128;
        if ax > r || ay > r {
            proof {
                lemma_square_grows(r as int, if ax > r { ax as int } else { ay as int });
                lemma_square_of_magnitude(ox as int);
                lemma_square_of_magnitude(oy as int);
            }
            false
        } else {
            proof {
                lemma_square_bound(ax as int, r as int);
                lemma_square_bound(ay as int, r as int);
                lemma_square_bound(r as int, r as int);
                lemma_square_of_magnitude(ox as int);
                lemma_square_of_magnitude(oy as int);
            }
            ax * ax <= r * r - ay * ay
        }
    }
}

fn magnitude(v: i128) -> (m: u128)
    requires
        v > i128::MIN,
    ensures
        m == abs(v as int),
{
    if v < 0 {
        (-v) as u128
    } else {
        v as u128
    }
}

proof fn lemma_square_of_magnitude(v: int)
    ensures
        abs(v) * abs(v) == v * v,
        v * v >= 0,
{
    assert(abs(v) * abs(v) == v * v && v * v >= 0) by (nonlinear_arith)
        requires
            abs(v) == v || abs(v) == -v,
    ;
}

proof fn lemma_square_grows(small: int, large: int)
    requires
        0 <= small < large,
    ensures
        small * small < large * large,
{
    assert(small * small < large * large) by (nonlinear_arith)
        requires
            0 <= small < large,
    ;
}

proof fn lemma_square_bound(v: int, limit: int)
    requires
        0 <= v <= limit < 0x1_0000_0000_0000_0000,
    ensures
        0 <= v * v <= limit * limit < 0x1_0000_0000_0000_0000_0000_0000_0000_0000,
{
    assert(0 <= v * v <= limit * limit < 0x1_0000_0000_0000_0000_0000_0000_0000_0000)
        by (nonlinear_arith)
        requires
            0 <= v <= limit < 0x1_0000_0000_0000_0000,
    ;
}

} // verus!
