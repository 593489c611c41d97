use vstd::prelude::*;

verus! {

/// A place on the galaxy grid: two signed 8-bit axes.
#[derive(Clone, Copy, Debug, PartialEq, Eq, Hash, Structural)]
pub struct Point {
    pub x: i8,
    pub y: i8,
}

/// The square of the Euclidean distance between two points, over unbounded integers.
pub open spec fn squared_distance_spec(a: Point, b: Point) -> int {
    (a.x - b.x) * (a.x - b.x) + (a.y - b.y) * (a.y - b.y)
}

/// `b` lies at Euclidean distance at most `radius` from `a`.
/// For a radius `r >= 0`, `sqrt(d) <= r` holds exactly when `d <= r * r`.
pub open spec fn within_radius_spec(a: Point, b: Point, radius: nat) -> bool {
    squared_distance_spec(a, b) <= radius * radius
}

impl Point {
    pub fn new(x: i8, y: i8) -> (r: Point)
        ensures
            r.x == x,
            r.y == y,
    {
        Point { x, y }
    }

    /// The two axes as a pair `(x, y)`.
    pub fn dissolve(&self) -> (r: (i8, i8))
        ensures
            r == (self.x, self.y),
    {
        (self.x, self.y)
    }
}

/// The square of the Euclidean distance between `a` and `b`, computed on widened
/// integers so that no delta or square can overflow.
pub fn squared_distance(a: Point, b: Point) -> (r: u32)
    ensures
        r == squared_distance_spec(a, b),
{
    let dx: i32 = a.x as i32 - b.x as i32;
    let dy: i32 = a.y as i32 - b.y as i32;
    assert(0 <= dx * dx <= 65025) by (nonlinear_arith)
        requires
            -255 <= dx <= 255,
    ;
    assert(0 <= dy * dy <= 65025) by (nonlinear_arith)
        requires
            -255 <= dy <= 255,
    ;
    (dx * dx + dy * dy) as u32
}

/// Whether `point` lies at Euclidean distance at most `radius` from `center`.
pub fn within_radius(center: Point, point: Point, radius: u16) -> (r: bool)
    ensures
        r == within_radius_spec(center, point, radius as nat),
{
    let d: u64 = squared_distance(center, point) as u64;
    let r64: u64 = radius as u64;
    assert(r64 * r64 <= 0xffff * 0xffff) by (nonlinear_arith)
        requires
            r64 <= 0xffff,
    ;
    let rr: u64 = r64 * r64;
    d <= rr
}

/// Nearness does not depend on which of the two points is the center.
pub proof fn lemma_within_radius_symmetric(a: Point, b: Point, radius: nat)
    ensures
        within_radius_spec(a, b, radius) == within_radius_spec(b, a, radius),
        squared_distance_spec(a, b) == squared_distance_spec(b, a),
{
    assert((a.x - b.x) * (a.x - b.x) == (b.x - a.x) * (b.x - a.x)) by (nonlinear_arith);
    assert((a.y - b.y) * (a.y - b.y) == (b.y - a.y) * (b.y - a.y)) by (nonlinear_arith);
}

/// Whether the sum of two axis values stays at or below a bound given as a byte,
/// the bound being read as a signed 8-bit value.
pub fn tolerance(one: i8, two: i8, bound: u8) -> (r: bool)
    requires
        i8::MIN <= one + two <= i8::MAX,
    ensures
        r == (one + two <= bound as i8),
{
    one + two <= bound as i8
}

} // verus!
