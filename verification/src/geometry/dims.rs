//! Rectangular dimensions with no location.
use super::{Dir, Point, Rect};
use vstd::prelude::*;

verus! {

/// A horizontal and vertical rectangular dimension with no specified location.
#[derive(Copy, Clone, Debug, PartialEq, Eq, Structural, Hash, Default)]
pub struct Dims {
    /// The width dimension.
    w: i64,
    /// The height dimension.
    h: i64,
}

impl View for Dims {
    type V = (i64, i64);

    /// The dimensions as the pair `(width, height)`.
    closed spec fn view(&self) -> (i64, i64) {
        (self.w, self.h)
    }
}

/// The dimension of `d` in direction `dir`.
pub open spec fn dim_view(d: (i64, i64), dir: Dir) -> i64 {
    match dir {
        Dir::Horiz => d.0,
        Dir::Vert => d.1,
    }
}

impl Dims {
    /// Two dimension objects with the same view are equal.
    pub proof fn lemma_view_eq(a: Dims, b: Dims)
        requires
            a@ == b@,
        ensures
            a == b,
    {
    }

    /// Creates a new [`Dims`] from a width and height.
    pub fn new(w: i64, h: i64) -> (r: Dims)
        ensures
            r@ == (w, h),
    {
        Dims { w, h }
    }

    /// Creates a new [`Dims`] with width and height equal to `value`.
    pub fn square(value: i64) -> (r: Dims)
        ensures
            r@ == (value, value),
    {
        Dims { w: value, h: value }
    }

    /// Returns the dimension in the specified direction.
    pub fn dim(&self, dir: Dir) -> (r: i64)
        ensures
            r == dim_view(self@, dir),
    {
        match dir {
            Dir::Vert => self.h,
            Dir::Horiz => self.w,
        }
    }

    /// Returns the direction of the longer dimension.
    ///
    /// If the width and height are equal, returns [`Dir::Horiz`].
    pub fn longer_dir(&self) -> (r: Dir)
        ensures
            r == (if self@.0 >= self@.1 {
                Dir::Horiz
            } else {
                Dir::Vert
            }),
    {
        if self.w >= self.h {
            Dir::Horiz
        } else {
            Dir::Vert
        }
    }

    /// Returns the direction of the longer dimension.
    ///
    /// If the width and height are equal, returns [`None`].
    /// Otherwise, returns a `Some` variant containing the longer direction.
    pub fn longer_dir_strict(&self) -> (r: Option<Dir>)
        ensures
            r == (if self@.0 > self@.1 {
                Some(Dir::Horiz)
            } else if self@.0 == self@.1 {
                None
            } else {
                Some(Dir::Vert)
            }),
    {
        if self.w > self.h {
            Some(Dir::Horiz)
        } else if self.w == self.h {
            None
        } else {
            Some(Dir::Vert)
        }
    }

    /// Returns a new [`Dims`] object with the horizontal and vertical dimensions flipped.
    pub fn transpose(self) -> (r: Dims)
        ensures
            r@ == (self@.1, self@.0),
    {
        Dims { w: self.h, h: self.w }
    }

    /// Returns the width (ie. the horizontal dimension).
    pub fn width(&self) -> (r: i64)
        ensures
            r == self@.0,
    {
        self.w
    }

    /// Returns the height (ie. the vertical dimension).
    pub fn height(&self) -> (r: i64)
        ensures
            r == self@.1,
    {
        self.h
    }

    /// Returns the width (ie. the horizontal dimension).
    ///
    /// A shorthand for [`Dims::width`].
    pub fn w(&self) -> (r: i64)
        ensures
            r == self@.0,
    {
        self.width()
    }

    /// Returns the height (ie. the vertical dimension).
    ///
    /// A shorthand for [`Dims::height`].
    pub fn h(&self) -> (r: i64)
        ensures
            r == self@.1,
    {
        self.height()
    }

    /// Converts this dimension object into a [`Rect`] from the origin to `(w, h)`.
    pub fn into_rect(self) -> (r: Rect)
        requires
            self@.0 >= 0,
            self@.1 >= 0,
        ensures
            r.sides() == (0i64, 0i64, self@.0, self@.1),
    {
        Rect::from_sides(0, 0, self.w, self.h)
    }

    /// Converts this dimension object into a [`Point`] with coordinates `(self.w(), self.h())`.
    pub fn into_point(self) -> (r: Point)
        ensures
            r.x == self@.0,
            r.y == self@.1,
    {
        Point::new(self.w(), self.h())
    }

    /// Componentwise sum of two dimension objects.
    pub fn plus(self, rhs: Dims) -> (r: Dims)
        requires
            i64::MIN <= self@.0 + rhs@.0 <= i64::MAX,
            i64::MIN <= self@.1 + rhs@.1 <= i64::MAX,
        ensures
            r@.0 == self@.0 + rhs@.0,
            r@.1 == self@.1 + rhs@.1,
    {
        Dims { w: self.w + rhs.w, h: self.h + rhs.h }
    }

    /// Componentwise difference of two dimension objects.
    pub fn minus(self, rhs: Dims) -> (r: Dims)
        requires
            i64::MIN <= self@.0 - rhs@.0 <= i64::MAX,
            i64::MIN <= self@.1 - rhs@.1 <= i64::MAX,
        ensures
            r@.0 == self@.0 - rhs@.0,
            r@.1 == self@.1 - rhs@.1,
    {
        Dims { w: self.w - rhs.w, h: self.h - rhs.h }
    }

    /// Both dimensions scaled by `rhs`.
    pub fn scale(self, rhs: i64) -> (r: Dims)
        requires
            i64::MIN <= self@.0 * rhs <= i64::MAX,
            i64::MIN <= self@.1 * rhs <= i64::MAX,
        ensures
            r@.0 == self@.0 * rhs,
            r@.1 == self@.1 * rhs,
    {
        Dims { w: self.w * rhs, h: self.h * rhs }
    }

    /// The width scaled by `rhs.0` and the height by `rhs.1`, each factor taken as an
    /// `i64`.
    pub fn scale_each(self, rhs: (usize, usize)) -> (r: Dims)
        requires
            i64::MIN <= self@.0 * (rhs.0 as i64) <= i64::MAX,
            i64::MIN <= self@.1 * (rhs.1 as i64) <= i64::MAX,
        ensures
            r@.0 == self@.0 * (rhs.0 as i64),
            r@.1 == self@.1 * (rhs.1 as i64),
    {
        Dims { w: self.w * rhs.0 as i64, h: self.h * rhs.1 as i64 }
    }
}

} // verus!
