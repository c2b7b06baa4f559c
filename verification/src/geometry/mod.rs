//! Basic integer geometry: directions, signs, points, rectangles and grid snapping.
pub mod dims;
pub mod laws;
pub mod span;

use vstd::prelude::*;

verus! {

/// An axis direction.
#[derive(Clone, Copy, Debug, PartialEq, Eq, Structural, Hash)]
pub enum Dir {
    /// The horizontal direction.
    Horiz,
    /// The vertical direction.
    Vert,
}

impl Dir {
    /// The perpendicular direction.
    pub open spec fn other_spec(self) -> Dir {
        match self {
            Dir::Horiz => Dir::Vert,
            Dir::Vert => Dir::Horiz,
        }
    }

    /// The perpendicular direction.
    pub fn other(self) -> (r: Dir)
        ensures
            r == self.other_spec(),
    {
        match self {
            Dir::Horiz => Dir::Vert,
            Dir::Vert => Dir::Horiz,
        }
    }
}

/// A sign: the positive or the negative end of an axis.
#[derive(Clone, Copy, Debug, PartialEq, Eq, Structural, Hash)]
pub enum Sign {
    /// The positive end.
    Pos,
    /// The negative end.
    Neg,
}

/// A point in two dimensions.
#[derive(Clone, Copy, Debug, PartialEq, Eq, Structural, Hash, Default)]
pub struct Point {
    /// The x coordinate.
    pub x: i64,
    /// The y coordinate.
    pub y: i64,
}

impl Point {
    /// Creates a point at `(x, y)`.
    pub fn new(x: i64, y: i64) -> (r: Point)
        ensures
            r.x == x,
            r.y == y,
    {
        Point { x, y }
    }

    /// The origin.
    pub fn zero() -> (r: Point)
        ensures
            r.x == 0,
            r.y == 0,
    {
        Point { x: 0, y: 0 }
    }
}

/// An axis-aligned rectangle whose lower-left corner is below and left of its
/// upper-right corner.
#[derive(Clone, Copy, Debug, PartialEq, Eq, Structural, Hash)]
pub struct Rect {
    left: i64,
    bot: i64,
    right: i64,
    top: i64,
}

impl Rect {
    /// A rectangle's left side is at most its right side, and its bottom side at most its top.
    #[verifier::type_invariant]
    spec fn ordered(self) -> bool {
        self.left <= self.right && self.bot <= self.top
    }

    /// The sides of a rectangle are ordered.
    pub open spec fn sides_ordered(self) -> bool {
        self.sides().0 <= self.sides().2 && self.sides().1 <= self.sides().3
    }

    /// The sides of the rectangle: `(left, bot, right, top)`.
    pub closed spec fn sides(self) -> (i64, i64, i64, i64) {
        (self.left, self.bot, self.right, self.top)
    }

    /// Creates a rectangle from its four sides.
    pub fn from_sides(left: i64, bot: i64, right: i64, top: i64) -> (r: Rect)
        requires
            left <= right,
            bot <= top,
        ensures
            r.sides() == (left, bot, right, top),
    {
        Rect { left, bot, right, top }
    }

    /// The left side.
    pub fn left(&self) -> (r: i64)
        ensures
            r == self.sides().0,
            self.sides_ordered(),
    {
        proof {
            use_type_invariant(self);
        }
        self.left
    }

    /// The bottom side.
    pub fn bot(&self) -> (r: i64)
        ensures
            r == self.sides().1,
            self.sides_ordered(),
    {
        proof {
            use_type_invariant(self);
        }
        self.bot
    }

    /// The right side.
    pub fn right(&self) -> (r: i64)
        ensures
            r == self.sides().2,
            self.sides_ordered(),
    {
        proof {
            use_type_invariant(self);
        }
        self.right
    }

    /// The top side.
    pub fn top(&self) -> (r: i64)
        ensures
            r == self.sides().3,
            self.sides_ordered(),
    {
        proof {
            use_type_invariant(self);
        }
        self.top
    }

    /// The width: the distance from the left side to the right side.
    pub fn width(&self) -> (r: i64)
        requires
            self.sides().2 - self.sides().0 <= i64::MAX,
        ensures
            r == self.sides().2 - self.sides().0,
            self.sides_ordered(),
    {
        proof {
            use_type_invariant(self);
        }
        self.right - self.left
    }

    /// The height: the distance from the bottom side to the top side.
    pub fn height(&self) -> (r: i64)
        requires
            self.sides().3 - self.sides().1 <= i64::MAX,
        ensures
            r == self.sides().3 - self.sides().1,
            self.sides_ordered(),
    {
        proof {
            use_type_invariant(self);
        }
        self.top - self.bot
    }

    /// The lower-left corner.
    pub fn lower_left(&self) -> (r: Point)
        ensures
            r.x == self.sides().0,
            r.y == self.sides().1,
    {
        Point { x: self.left, y: self.bot }
    }
}

/// Euclidean remainder of `a` by a positive `b`, always in `0..b`.
pub open spec fn euclid_rem(a: int, b: int) -> int {
    a % b
}

/// Snaps `pos` to the nearest multiple of `grid`, rounding halfway cases down.
pub open spec fn spec_snap_to_grid(pos: int, grid: int) -> int {
    let rem = euclid_rem(pos, grid);
    if rem <= grid / 2 {
        pos - rem
    } else {
        pos + grid - rem
    }
}

/// Whether [`snap_to_grid`] runs to completion on `pos` and `grid`: the grid is
/// positive, the remainder is at most half of `i64::MAX`, and no intermediate sum
/// leaves the range of `i64`.
pub open spec fn snap_defined(pos: int, grid: int) -> bool {
    let rem = euclid_rem(pos, grid);
    &&& grid > 0
    &&& rem <= i64::MAX / 2
    &&& if rem <= grid / 2 {
        pos - rem >= i64::MIN
    } else {
        pos + grid <= i64::MAX
    }
}

/// Snaps `pos` to the nearest multiple of `grid`.
///
/// Positions exactly halfway between two grid points are rounded down.
pub fn snap_to_grid(pos: i64, grid: i64) -> (r: i64)
    requires
        snap_defined(pos as int, grid as int),
    ensures
        r == spec_snap_to_grid(pos as int, grid as int),
        (r as int) % (grid as int) == 0,
{
    let t = pos % grid;
    let rem = if t < 0 {
        t + grid
    } else {
        t
    };
    assert(rem == euclid_rem(pos as int, grid as int)) by (nonlinear_arith)
        requires
            grid > 0,
            t == if pos >= 0 { (pos as int) % (grid as int) } else { -((-(pos as int)) % (grid as int)) },
            rem == if t < 0 { t + grid } else { t as int },
    {
        if pos < 0 {
            let q = (-(pos as int)) / (grid as int);
            let m = (-(pos as int)) % (grid as int);
            assert(-(pos as int) == q * grid + m);
            if m == 0 {
                assert(pos as int == (-q) * grid + 0);
            } else {
                assert(pos as int == (-q - 1) * grid + (grid - m));
            }
        }
    }
    let r = if rem <= grid / 2 {
        pos - rem
    } else {
        pos + grid - rem
    };
    assert((r as int) % (grid as int) == 0) by (nonlinear_arith)
        requires
            grid > 0,
            rem == (pos as int) % (grid as int),
            r == if rem <= grid / 2 { pos - rem } else { pos + grid - rem },
    {
        let q = (pos as int) / (grid as int);
        assert(pos as int == q * grid + rem);
        if rem <= grid / 2 {
            assert(r == q * grid);
        } else {
            assert(r == (q + 1) * grid);
        }
    }
    r
}

} // verus!
