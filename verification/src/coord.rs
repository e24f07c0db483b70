//! Grid coordinates and the integer geometry the rules need.

use vstd::prelude::*;

verus! {

/// A cell of the grid, named by its two integer coordinates.
#[derive(Clone, Copy, Debug, PartialEq, Eq, Hash, Structural)]
pub struct Coord {
    pub x: i32,
    pub y: i32,
}

/// Whether a mathematical integer can be held in one coordinate.
pub open spec fn fits_i32(v: int) -> bool {
    i32::MIN <= v <= i32::MAX
}

/// The absolute value of an integer.
pub open spec fn abs(v: int) -> int {
    if v < 0 {
        -v
    } else {
        v
    }
}

impl Coord {
    /// Whether `self + d` is still a cell of the grid.
    pub open spec fn can_shift(self, d: Coord) -> bool {
        fits_i32(self.x + d.x) && fits_i32(self.y + d.y)
    }

    /// The cell `self + d`. Meaningful where `can_shift` holds.
    pub open spec fn shifted(self, d: Coord) -> Coord
        recommends
            self.can_shift(d),
    {
        Coord { x: (self.x + d.x) as i32, y: (self.y + d.y) as i32 }
    }

    /// Whether the offset `self - from` can be held in a `Coord`.
    pub open spec fn can_offset_from(self, from: Coord) -> bool {
        fits_i32(self.x - from.x) && fits_i32(self.y - from.y)
    }

    /// The offset `self - from`. Meaningful where `can_offset_from` holds.
    pub open spec fn offset_from(self, from: Coord) -> Coord
        recommends
            self.can_offset_from(from),
    {
        Coord { x: (self.x - from.x) as i32, y: (self.y - from.y) as i32 }
    }

    /// The taxicab distance between two cells.
    pub open spec fn manhattan(self, other: Coord) -> int {
        abs(self.x - other.x) + abs(self.y - other.y)
    }

    /// The squared straight-line distance between two cells.
    pub open spec fn distance_squared(self, other: Coord) -> int {
        (self.x - other.x) * (self.x - other.x) + (self.y - other.y) * (self.y - other.y)
    }

    /// Whether `other` is exactly one axis-aligned grid step away.
    pub open spec fn is_step(self, other: Coord) -> bool {
        self.manhattan(other) == 1
    }

    /// Whether `self` is one of the four axis-aligned unit vectors.
    pub open spec fn is_unit(self) -> bool {
        abs(self.x as int) + abs(self.y as int) == 1
    }

    /// The cell with the given coordinates.
    pub fn new(x: i32, y: i32) -> (c: Coord)
        ensures
            c == (Coord { x, y }),
    {
        Coord { x, y }
    }

    /// `self + d`, or `None` where the sum leaves the grid.
    pub fn checked_add(&self, d: &Coord) -> (r: Option<Coord>)
        ensures
            self.can_shift(*d) ==> r == Some(self.shifted(*d)),
            !self.can_shift(*d) ==> r is None,
    {
        let x: i64 = self.x as i64 + d.x as i64;
        let y: i64 = self.y as i64 + d.y as i64;
        if x < i32::MIN as i64 || x > i32::MAX as i64 || y < i32::MIN as i64 || y > i32::MAX as i64 {
            None
        } else {
            Some(Coord { x: x as i32, y: y as i32 })
        }
    }

    /// `self - from`, or `None` where the difference cannot be held.
    pub fn checked_sub(&self, from: &Coord) -> (r: Option<Coord>)
        ensures
            self.can_offset_from(*from) ==> r == Some(self.offset_from(*from)),
            !self.can_offset_from(*from) ==> r is None,
    {
        let x: i64 = self.x as i64 - from.x as i64;
        let y: i64 = self.y as i64 - from.y as i64;
        if x < i32::MIN as i64 || x > i32::MAX as i64 || y < i32::MIN as i64 || y > i32::MAX as i64 {
            None
        } else {
            Some(Coord { x: x as i32, y: y as i32 })
        }
    }

    /// The taxicab distance to `other`: the sum of the absolute coordinate
    /// differences.
    pub fn manhattan_distance(&self, other: &Coord) -> (d: u64)
        ensures
            d == self.manhattan(*other),
    {
        let dx: i64 = self.x as i64 - other.x as i64;
        let dy: i64 = self.y as i64 - other.y as i64;
        let ax: i64 = if dx < 0 { -dx } else { dx };
        let ay: i64 = if dy < 0 { -dy } else { dy };
        (ax + ay) as u64
    }

    /// Whether the squared distance to `other` is exactly one, that is whether
    /// `other` is one axis-aligned step away.
    pub fn is_one_step_from(&self, other: &Coord) -> (b: bool)
        ensures
            b == (self.distance_squared(*other) == 1),
            b == self.is_step(*other),
    {
        proof {
            lemma_unit_distance(*self, *other);
        }
        self.manhattan_distance(other) == 1
    }
}

/// Two cells are at squared distance one exactly when they are one grid step
/// apart.
pub proof fn lemma_unit_distance(a: Coord, b: Coord)
    ensures
        (a.distance_squared(b) == 1) == a.is_step(b),
{
    let dx = a.x - b.x;
    let dy = a.y - b.y;
    assert(dx * dx >= 0 && dy * dy >= 0) by (nonlinear_arith);
    assert(dx != 0 ==> dx * dx >= abs(dx)) by (nonlinear_arith)
        requires
            abs(dx) == if dx < 0 { -dx } else { dx },
    ;
    assert(dy != 0 ==> dy * dy >= abs(dy)) by (nonlinear_arith)
        requires
            abs(dy) == if dy < 0 { -dy } else { dy },
    ;
    assert(abs(dx) >= 2 ==> dx * dx >= 4) by (nonlinear_arith)
        requires
            abs(dx) == if dx < 0 { -dx } else { dx },
    ;
    assert(abs(dy) >= 2 ==> dy * dy >= 4) by (nonlinear_arith)
        requires
            abs(dy) == if dy < 0 { -dy } else { dy },
    ;
    assert(abs(dx) == 1 ==> dx * dx == 1) by (nonlinear_arith)
        requires
            abs(dx) == if dx < 0 { -dx } else { dx },
    ;
    assert(abs(dy) == 1 ==> dy * dy == 1) by (nonlinear_arith)
        requires
            abs(dy) == if dy < 0 { -dy } else { dy },
    ;
    assert(dx == 0 ==> dx * dx == 0) by (nonlinear_arith);
    assert(dy == 0 ==> dy * dy == 0) by (nonlinear_arith);
}

} // verus!
