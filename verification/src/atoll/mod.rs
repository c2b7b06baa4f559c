//! Routing-grid vocabulary: layers, coordinates, positions and point states.
pub mod abs;

use crate::geometry::{Dir, Point};
use vstd::prelude::*;

verus! {

/// Identifies nets in a routing solver.
pub type NetId = usize;

/// Identifies a routing layer.
#[derive(Debug, Copy, Clone, PartialEq, Eq, Structural, Hash)]
pub struct LayerId(pub usize);

impl From<usize> for LayerId {
    fn from(value: usize) -> (r: LayerId) {
        LayerId(value)
    }
}

impl vstd::std_specs::convert::FromSpecImpl<usize> for LayerId {
    open spec fn obeys_from_spec() -> bool {
        true
    }

    open spec fn from_spec(v: usize) -> LayerId {
        LayerId(v)
    }
}

/// A coordinate identifying a track position in a routing volume.
pub struct Coordinate {
    /// The lower metal layer.
    pub layer: LayerId,
    /// The x-coordinate.
    ///
    /// Indexes the vertical-traveling tracks.
    pub x: i64,
    /// The y-coordinate.
    ///
    /// Indexes the horizontal-traveling tracks.
    pub y: i64,
}

/// A type that contains an x-y coordinate.
pub trait Xy {
    /// The coordinate represented by `self`.
    spec fn xy_spec(&self) -> (i64, i64);

    /// Returns the coordinate represented by `self`.
    fn xy(&self) -> (r: (i64, i64))
        ensures
            r == self.xy_spec(),
    ;
}

impl<T: Xy> Xy for &T {
    open spec fn xy_spec(&self) -> (i64, i64) {
        (**self).xy_spec()
    }

    fn xy(&self) -> (r: (i64, i64)) {
        (**self).xy()
    }
}

impl Xy for Coordinate {
    open spec fn xy_spec(&self) -> (i64, i64) {
        (self.x, self.y)
    }

    fn xy(&self) -> (r: (i64, i64)) {
        (self.x, self.y)
    }
}

impl Xy for Point {
    open spec fn xy_spec(&self) -> (i64, i64) {
        (self.x, self.y)
    }

    fn xy(&self) -> (r: (i64, i64)) {
        (self.x, self.y)
    }
}

impl Xy for (i64, i64) {
    open spec fn xy_spec(&self) -> (i64, i64) {
        *self
    }

    fn xy(&self) -> (r: (i64, i64)) {
        *self
    }
}

/// The state of a point on a routing grid.
#[derive(Debug, Copy, Clone, PartialEq, Eq, Structural, Hash)]
pub enum PointState {
    /// The grid point is available for routing.
    Available,
    /// The grid point is obstructed.
    Obstructed,
    /// The grid point is occupied by a known net.
    Routed(NetId),
}

impl PointState {
    /// Whether or not the given point can be used to route the given net: it is free,
    /// or already taken by that same net.
    pub fn is_available_for_net(&self, net: NetId) -> (r: bool)
        ensures
            r == (*self == PointState::Available || *self == PointState::Routed(net)),
    {
        match self {
            PointState::Available => true,
            PointState::Routed(n) => *n == net,
            PointState::Obstructed => false,
        }
    }
}

/// Allowed track directions on a routing layer.
///
/// Adjacent routing layers must have alternating track directions.
#[derive(Debug, Copy, Clone, PartialEq, Eq, Structural, Hash)]
pub enum RoutingDir {
    /// Layer should be used for vertical routing.
    Vert,
    /// Layer should be used for horizontal routing.
    Horiz,
    /// Layer can be used for either horizontal or vertical routing.
    Any {
        /// The direction of the tracks that form the coordinate system for this layer.
        track_dir: Dir,
    },
}

impl RoutingDir {
    /// Whether this routing direction allows movement in direction `dir`.
    pub open spec fn allows(self, dir: Dir) -> bool {
        match self {
            RoutingDir::Vert => dir == Dir::Vert,
            RoutingDir::Horiz => dir == Dir::Horiz,
            RoutingDir::Any { .. } => true,
        }
    }

    /// Whether or not this routing direction allows movement in the given direction.
    pub fn supports_dir(&self, dir: Dir) -> (r: bool)
        ensures
            r == self.allows(dir),
    {
        match dir {
            Dir::Horiz => self.supports_horiz(),
            Dir::Vert => self.supports_vert(),
        }
    }

    /// Whether or not this routing direction allows horizontal movement.
    pub fn supports_horiz(&self) -> (r: bool)
        ensures
            r == self.allows(Dir::Horiz),
    {
        matches!(*self, RoutingDir::Horiz | RoutingDir::Any { .. })
    }

    /// Whether or not this routing direction allows vertical movement.
    pub fn supports_vert(&self) -> (r: bool)
        ensures
            r == self.allows(Dir::Vert),
    {
        matches!(*self, RoutingDir::Vert | RoutingDir::Any { .. })
    }

    /// The direction in which tracks following this routing direction travel.
    pub fn track_dir(&self) -> (r: Dir)
        ensures
            r == match *self {
                RoutingDir::Vert => Dir::Vert,
                RoutingDir::Horiz => Dir::Horiz,
                RoutingDir::Any { track_dir } => track_dir,
            },
    {
        match *self {
            RoutingDir::Vert => Dir::Vert,
            RoutingDir::Horiz => Dir::Horiz,
            RoutingDir::Any { track_dir } => track_dir,
        }
    }
}

/// A position within a routing volume.
#[derive(Debug, Copy, Clone, PartialEq, Eq, Structural, Hash)]
pub struct Pos {
    /// The routing layer.
    layer: LayerId,
    /// The x-coordinate.
    x: i64,
    /// The y-coordinate.
    y: i64,
}

/// The index of the coordinate along direction `dir`: x for horizontal, y for vertical.
pub open spec fn coord_along(x: i64, y: i64, dir: Dir) -> i64 {
    match dir {
        Dir::Horiz => x,
        Dir::Vert => y,
    }
}

impl Pos {
    /// The routing layer.
    pub closed spec fn layer_spec(self) -> LayerId {
        self.layer
    }

    /// The x-coordinate.
    pub closed spec fn x_spec(self) -> i64 {
        self.x
    }

    /// The y-coordinate.
    pub closed spec fn y_spec(self) -> i64 {
        self.y
    }

    /// Create a new [`Pos`].
    pub fn new(layer: usize, x: i64, y: i64) -> (r: Pos)
        ensures
            r.layer_spec() == LayerId(layer),
            r.x_spec() == x,
            r.y_spec() == y,
    {
        Pos { layer: LayerId::from(layer), x, y }
    }

    /// The index of the track going in the specified direction: tracks that travel
    /// vertically are indexed by x, those that travel horizontally by y.
    pub fn track_coord(&self, dir: Dir) -> (r: i64)
        ensures
            r == coord_along(self.x_spec(), self.y_spec(), dir.other_spec()),
    {
        match dir {
            Dir::Vert => self.x,
            Dir::Horiz => self.y,
        }
    }

    /// The index of the coordinate in the given direction.
    ///
    /// [`Dir::Horiz`] gives the x-coordinate;
    /// [`Dir::Vert`] gives the y-coordinate;
    pub fn coord(&self, dir: Dir) -> (r: i64)
        ensures
            r == coord_along(self.x_spec(), self.y_spec(), dir),
    {
        match dir {
            Dir::Horiz => self.x,
            Dir::Vert => self.y,
        }
    }

    /// Returns a new `Pos` with the given coordinate indexing tracks going in the given direction.
    pub fn with_track_coord(&self, dir: Dir, coord: i64) -> (r: Pos)
        ensures
            r.layer_spec() == self.layer_spec(),
            r.track_coord_spec(dir) == coord,
            r.track_coord_spec(dir.other_spec()) == self.track_coord_spec(dir.other_spec()),
    {
        let Pos { layer, x, y } = *self;
        match dir {
            Dir::Vert => Pos { layer, x: coord, y },
            Dir::Horiz => Pos { layer, x, y: coord },
        }
    }

    /// Returns a new `Pos` with the given coordinate in the given direction.
    ///
    /// If `dir` is [`Dir::Horiz`], `coord` is taken as the new x coordinate.
    /// If `dir` is [`Dir::Vert`], `coord` is taken as the new y coordinate.
    pub fn with_coord(&self, dir: Dir, coord: i64) -> (r: Pos)
        ensures
            r.layer_spec() == self.layer_spec(),
            coord_along(r.x_spec(), r.y_spec(), dir) == coord,
            coord_along(r.x_spec(), r.y_spec(), dir.other_spec()) == coord_along(
                self.x_spec(),
                self.y_spec(),
                dir.other_spec(),
            ),
    {
        let Pos { layer, x, y } = *self;
        match dir {
            Dir::Horiz => Pos { layer, x: coord, y },
            Dir::Vert => Pos { layer, x, y: coord },
        }
    }

    /// The index of the track going in direction `dir`.
    pub open spec fn track_coord_spec(self, dir: Dir) -> i64 {
        coord_along(self.x_spec(), self.y_spec(), dir.other_spec())
    }
}

/// A placed instance together with the nodes its ports connect to.
pub struct Instance<T, N>(pub T, pub Vec<N>);

impl<T, N> Instance<T, N> {
    /// The placed instance, without its nodes.
    pub fn into_inner(self) -> (r: T)
        ensures
            r == self.0,
    {
        self.0
    }
}

} // verus!
