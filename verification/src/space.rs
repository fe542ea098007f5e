//! Points in world space, in millimetres, and the exact comparisons made on them.
use vstd::prelude::*;

verus! {

/// A point in world space; every coordinate counts millimetres, `y` up.
#[derive(Clone, Copy, PartialEq, Eq, Debug, Structural)]
pub struct Point {
    pub x: i32,
    pub y: i32,
    pub z: i32,
}

impl Point {
    /// The square of the distance to `other`.
    pub open spec fn dist2_to(self, other: Point) -> int {
        (self.x - other.x) * (self.x - other.x) + (self.y - other.y) * (self.y - other.y)
            + (self.z - other.z) * (self.z - other.z)
    }

    /// The square of the distance to `other` on the floor plan, heights ignored.
    pub open spec fn flat2_to(self, other: Point) -> int {
        (self.x - other.x) * (self.x - other.x) + (self.z - other.z) * (self.z - other.z)
    }

    /// The square of the distance to `other` after moving by `step`.
    pub open spec fn dist2_after(self, step: Point, other: Point) -> int {
        (self.x + step.x - other.x) * (self.x + step.x - other.x) + (self.y + step.y - other.y) * (
        self.y + step.y - other.y) + (self.z + step.z - other.z) * (self.z + step.z - other.z)
    }

    /// Whether `other` lies at most `range` away.
    pub open spec fn within_of(self, other: Point, range: int) -> bool {
        self.dist2_to(other) <= range * range
    }

    /// The point `dy` higher, at most at the top of the world.
    pub open spec fn above(self, dy: int) -> Point {
        Point {
            y: if self.y + dy > i32::MAX {
                i32::MAX
            } else {
                (self.y + dy) as i32
            },
            ..self
        }
    }

    pub fn raised(&self, dy: u32) -> (p: Point)
        ensures
            p == self.above(dy as int),
    {
        let y: i64 = self.y as i64 + dy as i64;
        Point {
            x: self.x,
            y: if y > i32::MAX as i64 {
                i32::MAX
            } else {
                y as i32
            },
            z: self.z,
        }
    }

    /// The exact squared distance.
    pub fn dist2(&self, other: &Point) -> (d: u128)
        ensures
            d == self.dist2_to(*other),
    {
        let dx: u128 = square(self.x, other.x);
        let dy: u128 = square(self.y, other.y);
        let dz: u128 = square(self.z, other.z);
        dx + dy + dz
    }

    /// The exact squared distance after moving by `step`.
    pub fn dist2_moved(&self, step: &Point, other: &Point) -> (d: u128)
        ensures
            d == self.dist2_after(*step, *other),
    {
        let dx: u128 = square_of(self.x as i128 + step.x as i128 - other.x as i128);
        let dy: u128 = square_of(self.y as i128 + step.y as i128 - other.y as i128);
        let dz: u128 = square_of(self.z as i128 + step.z as i128 - other.z as i128);
        dx + dy + dz
    }

    /// The exact squared distance on the floor plan.
    pub fn flat2(&self, other: &Point) -> (d: u128)
        ensures
            d == self.flat2_to(*other),
    {
        let dx: u128 = square(self.x, other.x);
        let dz: u128 = square(self.z, other.z);
        dx + dz
    }

    /// Whether `other` lies at most `range` away.
    pub fn within(&self, other: &Point, range: u32) -> (b: bool)
        ensures
            b == self.within_of(*other, range as int),
    {
        let d: u128 = self.dist2(other);
        let r: u128 = range as u128;
        assert(0 <= r * r <= 0xffff_ffff * 0xffff_ffff) by (nonlinear_arith)
            requires
                0 <= r <= 0xffff_ffff,
        ;
        d <= r * r
    }
}

/// The square of `a - b`.
fn square(a: i32, b: i32) -> (d: u128)
    ensures
        d == (a - b) * (a - b),
        d <= 0x4_0000_0000_0000_0000,
{
    square_of(a as i128 - b as i128)
}

/// The square of `s`.
fn square_of(s: i128) -> (d: u128)
    requires
        -0x2_0000_0000 <= s <= 0x2_0000_0000,
    ensures
        d == s * s,
        d <= 0x4_0000_0000_0000_0000,
{
    let m: u128 = if s < 0 {
        (-s) as u128
    } else {
        s as u128
    };
    assert(0 <= m * m <= 0x2_0000_0000 * 0x2_0000_0000) by (nonlinear_arith)
        requires
            0 <= m <= 0x2_0000_0000,
    ;
    assert(m * m == s * s) by (nonlinear_arith)
        requires
            m == s || m == -s,
    ;
    m * m
}

/// Distance does not depend on the direction it is measured in.
pub proof fn distance_is_symmetric(a: Point, b: Point)
    ensures
        a.dist2_to(b) == b.dist2_to(a),
        a.flat2_to(b) == b.flat2_to(a),
{
    assert((a.x - b.x) * (a.x - b.x) == (b.x - a.x) * (b.x - a.x)) by (nonlinear_arith);
    assert((a.y - b.y) * (a.y - b.y) == (b.y - a.y) * (b.y - a.y)) by (nonlinear_arith);
    assert((a.z - b.z) * (a.z - b.z) == (b.z - a.z) * (b.z - a.z)) by (nonlinear_arith);
}

/// `x / d` rounded toward minus infinity.
pub fn floor_div(x: i32, d: i32) -> (q: i32)
    requires
        d > 0,
    ensures
        q == x as int / d as int,
{
    if x >= 0 {
        x / d
    } else {
        let n: i64 = -(x as i64);
        let e: i64 = d as i64;
        let up: i64 = (n + (e - 1)) / e;
        proof {
            let k: int = (n + (e - 1)) / e as int;
            let r: int = (n + (e - 1)) % e as int;
            assert(n + (e - 1) == e * k + r && 0 <= r < e) by (nonlinear_arith)
                requires
                    e > 0,
                    k == (n + (e - 1)) / e as int,
                    r == (n + (e - 1)) % e as int,
            ;
            // x == e * (-k) + (e - 1 - r)
            let c: int = -k;
            assert(x as int == e * c + (e - 1 - r)) by (nonlinear_arith)
                requires
                    n == -(x as int),
                    n + (e - 1) == e * k + r,
                    c == -k,
            ;
            vstd::arithmetic::div_mod::lemma_fundamental_div_mod_converse(
                x as int,
                e as int,
                c,
                e - 1 - r,
            );
            assert(x as int / e as int == c);
            assert(0 <= k <= n) by (nonlinear_arith)
                requires
                    n + (e - 1) == e * k + r,
                    0 <= r < e,
                    n >= 1,
                    e >= 1,
            ;
        }
        (-up) as i32
    }
}

/// Distances are those of Pythagoras: the squares of the differences along each axis add up, on
/// the floor plan without the height, and after a step from where the step leads.
pub proof fn distances_are_pythagorean(a: Point, b: Point, step: Point)
    ensures
        a.flat2_to(b) == (a.x - b.x) * (a.x - b.x) + (a.z - b.z) * (a.z - b.z),
        a.dist2_to(b) == a.flat2_to(b) + (a.y - b.y) * (a.y - b.y),
        step == (Point { x: 0, y: 0, z: 0 }) ==> a.dist2_after(step, b) == a.dist2_to(b),
        forall|c: Point|
            c.x == a.x + step.x && c.y == a.y + step.y && c.z == a.z + step.z ==> a.dist2_after(
                step,
                b,
            ) == #[trigger] c.dist2_to(b),
{
}

/// Two places are apart exactly when their distance is more than nothing.
pub proof fn only_the_same_place_is_no_distance_away(a: Point, b: Point)
    ensures
        a.dist2_to(b) >= 0,
        a.flat2_to(b) >= 0,
        a.dist2_to(b) == 0 <==> a == b,
        a.flat2_to(b) == 0 <==> a.x == b.x && a.z == b.z,
{
    assert((a.x - b.x) * (a.x - b.x) >= 0 && ((a.x - b.x) * (a.x - b.x) == 0 <==> a.x == b.x))
        by (nonlinear_arith);
    assert((a.y - b.y) * (a.y - b.y) >= 0 && ((a.y - b.y) * (a.y - b.y) == 0 <==> a.y == b.y))
        by (nonlinear_arith);
    assert((a.z - b.z) * (a.z - b.z) >= 0 && ((a.z - b.z) * (a.z - b.z) == 0 <==> a.z == b.z))
        by (nonlinear_arith);
}

/// A place is within a range exactly when its distance is at most that range; straight above,
/// that is the difference of the heights.
pub proof fn ranges_are_distances(a: Point, b: Point, range: u32)
    ensures
        a.within_of(b, range as int) <==> a.dist2_to(b) <= range * range,
        a.x == b.x && a.z == b.z ==> (a.within_of(b, range as int) <==> -range <= a.y - b.y
            <= range),
{
    let d = a.y - b.y;
    let r = range as int;
    assert(d * d <= r * r <==> -r <= d <= r) by (nonlinear_arith)
        requires
            r >= 0,
    ;
    if a.x == b.x && a.z == b.z {
        assert((a.x - b.x) * (a.x - b.x) == 0) by (nonlinear_arith)
            requires
                a.x == b.x,
        ;
        assert((a.z - b.z) * (a.z - b.z) == 0) by (nonlinear_arith)
            requires
                a.z == b.z,
        ;
    }
}

/// A raised point is that much higher in the same place, unless that is above the top of the
/// world, where it stays.
pub proof fn raising_moves_up(p: Point, dy: u32)
    ensures
        p.above(dy as int).x == p.x,
        p.above(dy as int).z == p.z,
        p.y + dy <= i32::MAX ==> p.above(dy as int).y == p.y + dy,
        p.y + dy > i32::MAX ==> p.above(dy as int).y == i32::MAX,
{
}

/// Distances in the world stay far below the numbers that hold them.
pub proof fn distances_are_bounded(a: Point, b: Point)
    ensures
        0 <= a.dist2_to(b) < 0x1_0000_0000_0000_0000_0000,
        0 <= a.flat2_to(b) <= a.dist2_to(b),
{
    let (x, y, z) = (a.x - b.x, a.y - b.y, a.z - b.z);
    assert(0 <= x * x <= 0x1_0000_0000 * 0x1_0000_0000) by (nonlinear_arith)
        requires
            -0x1_0000_0000 <= x <= 0x1_0000_0000,
    ;
    assert(0 <= y * y <= 0x1_0000_0000 * 0x1_0000_0000) by (nonlinear_arith)
        requires
            -0x1_0000_0000 <= y <= 0x1_0000_0000,
    ;
    assert(0 <= z * z <= 0x1_0000_0000 * 0x1_0000_0000) by (nonlinear_arith)
        requires
            -0x1_0000_0000 <= z <= 0x1_0000_0000,
    ;
}

} // verus!
